//! How the command of a job is run in a guest: the workspace is brought in, then the
//! command is run in it.
use vstd::prelude::*;
use vstd::string::*;

use crate::jobs::{is_timeout, result_of, summary, JobExecutionResult, ResultModel};
use crate::logs::format::LogLevel;
use crate::process::{CommandOutput, TimedCommand, TimedModel};
use crate::shell::{shell_join, shell_text};
use crate::text::texts;

use super::guest::{
    command_note, finish_guest_command, guest_ssh_command, judge_upload, sent_text, ssh_arguments,
    ssh_command, upload_arguments, upload_command, upload_verdict, StreamFailure, UploadOutcome,
    UploadVerdict,
};

verus! {

/// The two commands that running a command in a guest takes.
#[derive(Debug)]
pub struct GuestJobPlan {
    pub upload: TimedCommand,
    pub run: TimedCommand,
}

/// The two commands that running a command in a guest takes. Each may take as long
/// as the job.
pub fn guest_job_plan(
    private_key: &str,
    ssh_port: u16,
    command: &Vec<String>,
    workspace_tar: &str,
    timeout_seconds: u64,
) -> (r: GuestJobPlan)
    requires
        is_timeout(timeout_seconds),
    ensures
        r.upload@ == (TimedModel {
            program: "scp"@,
            args: upload_arguments(private_key@, ssh_port, workspace_tar@),
            limit_ms: timeout_seconds * 1_000,
        }),
        r.run@ == (TimedModel {
            program: "ssh"@,
            args: ssh_arguments(private_key@, ssh_port, 5, seq![sent_text(texts(command@))]),
            limit_ms: timeout_seconds * 1_000,
        }),
{
    let limit_ms: u64 = timeout_seconds * 1_000;
    let text = guest_ssh_command(command);
    GuestJobPlan {
        upload: upload_command(private_key, ssh_port, workspace_tar, limit_ms),
        run: ssh_command(private_key, ssh_port, text.as_str(), limit_ms),
    }
}

/// A line for the log of a job.
#[derive(Debug)]
pub struct GuestNote {
    pub level: LogLevel,
    pub phase: &'static str,
    pub line: String,
}

pub struct NoteModel {
    pub level: LogLevel,
    pub phase: Seq<char>,
    pub line: Seq<char>,
}

impl View for GuestNote {
    type V = NoteModel;

    open spec fn view(&self) -> NoteModel {
        NoteModel { level: self.level, phase: self.phase@, line: self.line@ }
    }
}

/// The models of a list of notes.
pub open spec fn note_models(v: Seq<GuestNote>) -> Seq<NoteModel> {
    Seq::new(v.len(), |i: int| v[i]@)
}

/// What is done next to run a command in a guest.
#[derive(Debug, Clone, Copy, PartialEq, Eq, Structural)]
pub enum GuestJobStep {
    Upload,
    RunCommand,
    Finished,
}

/// Why a command could not be run, with what caused it, of whatever type.
#[derive(Debug)]
pub struct GuestError<E> {
    pub message: String,
    pub cause: Option<E>,
}

/// How a step ended.
#[derive(Debug)]
pub enum GuestJobEvent<E> {
    UploadTimedOut,
    UploadNotLaunched(E),
    Uploaded(CommandOutput),
    CommandLost(StreamFailure, Option<E>),
    CommandEnded(CommandOutput),
}

/// Running a command in a guest: what is done next, and what came of it.
#[derive(Debug)]
pub struct GuestJobRun<E> {
    pub step: GuestJobStep,
    pub result: Option<Result<JobExecutionResult, GuestError<E>>>,
}

/// What came of it, for contracts.
pub open spec fn came_of_it<E>(
    result: Option<Result<JobExecutionResult, GuestError<E>>>,
) -> Option<Result<ResultModel, (Seq<char>, Option<E>)>> {
    match result {
        Some(Ok(r)) => Some(Ok(r@)),
        Some(Err(e)) => Some(Err((e.message@, e.cause))),
        None => None,
    }
}

/// What is done after a step, and what then came of it: a workspace that could not
/// be brought in ends it, else the command does. An event that does not belong to a
/// step changes nothing.
pub open spec fn guest_job_after<E>(
    step: GuestJobStep,
    result: Option<Result<ResultModel, (Seq<char>, Option<E>)>>,
    event: GuestJobEvent<E>,
    timeout_seconds: u64,
    workdir: Seq<char>,
) -> (GuestJobStep, Option<Result<ResultModel, (Seq<char>, Option<E>)>>) {
    match (step, event) {
        (GuestJobStep::Upload, GuestJobEvent::UploadTimedOut) => (
            GuestJobStep::Finished,
            Some(
                Err(
                    (
                        upload_verdict(UploadOutcome::TimedOut, timeout_seconds, workdir)->Error_0,
                        None,
                    ),
                ),
            ),
        ),
        (GuestJobStep::Upload, GuestJobEvent::UploadNotLaunched(cause)) => (
            GuestJobStep::Finished,
            Some(
                Err(
                    (
                        upload_verdict(
                            UploadOutcome::NotLaunched,
                            timeout_seconds,
                            workdir,
                        )->Error_0,
                        Some(cause),
                    ),
                ),
            ),
        ),
        (GuestJobStep::Upload, GuestJobEvent::Uploaded(output)) => if output.success {
            (GuestJobStep::RunCommand, result)
        } else {
            (
                GuestJobStep::Finished,
                Some(Ok(result_of(false, summary(workdir, output.out(), output.err())))),
            )
        },
        (GuestJobStep::RunCommand, GuestJobEvent::CommandLost(failure, cause)) => (
            GuestJobStep::Finished,
            Some(Err((failure.text(timeout_seconds), cause))),
        ),
        (GuestJobStep::RunCommand, GuestJobEvent::CommandEnded(output)) => (
            GuestJobStep::Finished,
            Some(Ok(result_of(output.success, summary(workdir, output.out(), output.err())))),
        ),
        _ => (step, result),
    }
}

/// What is logged before the workspace is brought in.
pub open spec fn first_note(workspace_tar: Seq<char>) -> NoteModel {
    NoteModel {
        level: LogLevel::Info,
        phase: "microvm.transfer"@,
        line: "uploading workspace archive to microvm from "@ + workspace_tar,
    }
}

/// What is logged after a step.
pub open spec fn notes_after<E>(
    step: GuestJobStep,
    event: GuestJobEvent<E>,
    command: Seq<Seq<char>>,
    workdir: Seq<char>,
) -> Seq<NoteModel> {
    match (step, event) {
        (GuestJobStep::Upload, GuestJobEvent::Uploaded(output)) => if output.success {
            seq![
                NoteModel {
                    level: LogLevel::Info,
                    phase: "microvm.transfer"@,
                    line: "uploaded workspace archive to microvm"@,
                },
                NoteModel {
                    level: LogLevel::Info,
                    phase: "microvm.command"@,
                    line: "running command inside microvm: "@ + shell_text(command),
                },
            ]
        } else {
            seq![
                NoteModel {
                    level: LogLevel::Warn,
                    phase: "microvm.transfer"@,
                    line: "microvm workspace archive upload failed with "@ + output.status@,
                },
            ]
        },
        (GuestJobStep::RunCommand, GuestJobEvent::CommandEnded(output)) => seq![
            NoteModel {
                level: if output.success {
                    LogLevel::Info
                } else {
                    LogLevel::Warn
                },
                phase: "microvm.command"@,
                line: command_note(
                    output.success,
                    output.status@,
                    summary(workdir, output.out(), output.err()),
                ),
            },
        ],
        _ => Seq::empty(),
    }
}

fn one_note(level: LogLevel, phase: &'static str, line: String) -> (r: Vec<GuestNote>)
    ensures
        note_models(r@) == seq![NoteModel { level, phase: phase@, line: line@ }],
{
    let mut r: Vec<GuestNote> = Vec::new();
    r.push(GuestNote { level, phase, line });
    proof {
        assert(note_models(r@) =~= seq![NoteModel { level, phase: phase@, line: line@ }]);
    }
    r
}

fn no_notes() -> (r: Vec<GuestNote>)
    ensures
        note_models(r@) == Seq::<NoteModel>::empty(),
{
    let r: Vec<GuestNote> = Vec::new();
    proof {
        assert(note_models(r@) =~= Seq::<NoteModel>::empty());
    }
    r
}

fn give_up<E>(verdict: UploadVerdict, cause: Option<E>) -> (r: GuestJobRun<E>)
    requires
        verdict@ is Error,
    ensures
        r.step == GuestJobStep::Finished,
        came_of_it(r.result) == Some(
            Err::<ResultModel, (Seq<char>, Option<E>)>((verdict@->Error_0, cause)),
        ),
{
    let message = match verdict {
        UploadVerdict::Error(message) => message,
        _ => String::new(),
    };
    GuestJobRun {
        step: GuestJobStep::Finished,
        result: Some(Err(GuestError { message, cause })),
    }
}

impl<E> GuestJobRun<E> {
    /// It begins with the workspace, and with a line for the log.
    pub fn begin(workspace_tar: &str) -> (r: (Self, GuestNote))
        ensures
            r.0 == (GuestJobRun::<E> { step: GuestJobStep::Upload, result: None }),
            r.1@ == first_note(workspace_tar@),
    {
        let mut line = "uploading workspace archive to microvm from ".to_string();
        line.append(workspace_tar);
        (
            GuestJobRun { step: GuestJobStep::Upload, result: None },
            GuestNote { level: LogLevel::Info, phase: "microvm.transfer", line },
        )
    }

    /// What is done after a step, and what is logged of it.
    pub fn advance(
        self,
        event: GuestJobEvent<E>,
        command: &Vec<String>,
        workdir: &str,
        timeout_seconds: u64,
    ) -> (r: (Self, Vec<GuestNote>))
        ensures
            (r.0.step, came_of_it(r.0.result)) == guest_job_after(
                self.step,
                came_of_it(self.result),
                event,
                timeout_seconds,
                workdir@,
            ),
            note_models(r.1@) == notes_after(self.step, event, texts(command@), workdir@),
    {
        let step = self.step;
        match (step, event) {
            (GuestJobStep::Upload, GuestJobEvent::UploadTimedOut) => {
                let verdict = judge_upload(&UploadOutcome::TimedOut, timeout_seconds, workdir);
                (give_up(verdict, None), no_notes())
            },
            (GuestJobStep::Upload, GuestJobEvent::UploadNotLaunched(cause)) => {
                let verdict = judge_upload(&UploadOutcome::NotLaunched, timeout_seconds, workdir);
                (give_up(verdict, Some(cause)), no_notes())
            },
            (GuestJobStep::Upload, GuestJobEvent::Uploaded(output)) => {
                match judge_upload(&UploadOutcome::Exited(output), timeout_seconds, workdir) {
                    UploadVerdict::Failed(result, warning) => (
                        GuestJobRun { step: GuestJobStep::Finished, result: Some(Ok(result)) },
                        one_note(LogLevel::Warn, "microvm.transfer", warning),
                    ),
                    _ => {
                        let mut notes = one_note(
                            LogLevel::Info,
                            "microvm.transfer",
                            "uploaded workspace archive to microvm".to_string(),
                        );
                        let mut line = "running command inside microvm: ".to_string();
                        line.append(shell_join(command).as_str());
                        let ghost before = note_models(notes@);
                        notes.push(
                            GuestNote { level: LogLevel::Info, phase: "microvm.command", line },
                        );
                        proof {
                            assert(note_models(notes@) =~= before.push(notes@.last()@));
                            assert(note_models(notes@) =~= notes_after(
                                step,
                                event,
                                texts(command@),
                                workdir@,
                            ));
                        }
                        (
                            GuestJobRun { step: GuestJobStep::RunCommand, result: self.result },
                            notes,
                        )
                    },
                }
            },
            (GuestJobStep::RunCommand, GuestJobEvent::CommandLost(failure, cause)) => (
                GuestJobRun {
                    step: GuestJobStep::Finished,
                    result: Some(Err(GuestError { message: failure.message(timeout_seconds), cause })),
                },
                no_notes(),
            ),
            (GuestJobStep::RunCommand, GuestJobEvent::CommandEnded(output)) => {
                let (result, note) = finish_guest_command(workdir, &output);
                let level = if output.success {
                    LogLevel::Info
                } else {
                    LogLevel::Warn
                };
                (
                    GuestJobRun { step: GuestJobStep::Finished, result: Some(Ok(result)) },
                    one_note(level, "microvm.command", note),
                )
            },
            _ => (GuestJobRun { step, result: self.result }, no_notes()),
        }
    }
}

/// A command is run only after its workspace was brought in; and it is over with a
/// result or an error.
pub proof fn command_runs_in_its_workspace<E>(
    step: GuestJobStep,
    result: Option<Result<ResultModel, (Seq<char>, Option<E>)>>,
    event: GuestJobEvent<E>,
    timeout_seconds: u64,
    workdir: Seq<char>,
)
    ensures
        ({
            let (next, after) = guest_job_after(step, result, event, timeout_seconds, workdir);
            &&& next == GuestJobStep::RunCommand && step != GuestJobStep::RunCommand ==> step
                == GuestJobStep::Upload && (event matches GuestJobEvent::Uploaded(output)
                && output.success)
            &&& next == GuestJobStep::Finished && step != GuestJobStep::Finished ==> after is Some
            &&& step == GuestJobStep::Finished ==> next == step && after == result
        }),
{
}

/// What running a command in a guest comes to: a workspace that was brought in leads to
/// the command and nothing else; one that was refused is a failed job; what did not run at
/// all is an error with its cause; and a command that ended succeeded exactly where it
/// says so.
pub proof fn guest_job_comes_to_its_result<E>(
    result: Option<Result<ResultModel, (Seq<char>, Option<E>)>>,
    output: CommandOutput,
    failure: StreamFailure,
    cause: E,
    maybe_cause: Option<E>,
    timeout_seconds: u64,
    workdir: Seq<char>,
)
    ensures
        ({
            let (next, after) = guest_job_after(
                GuestJobStep::Upload,
                result,
                GuestJobEvent::Uploaded(output),
                timeout_seconds,
                workdir,
            );
            &&& output.success ==> next == GuestJobStep::RunCommand && after == result
            &&& !output.success ==> next == GuestJobStep::Finished && (after matches Some(Ok(r))
                && r.status == "failed"@)
        }),
        ({
            let (next, after) = guest_job_after(
                GuestJobStep::Upload,
                result,
                GuestJobEvent::UploadNotLaunched(cause),
                timeout_seconds,
                workdir,
            );
            next == GuestJobStep::Finished && (after matches Some(Err(e)) && e.1 == Some(cause)
                && e.0.len() > 0)
        }),
        ({
            let (next, after) = guest_job_after(
                GuestJobStep::Upload,
                result,
                GuestJobEvent::UploadTimedOut,
                timeout_seconds,
                workdir,
            );
            next == GuestJobStep::Finished && (after matches Some(Err(e)) && e.1 is None
                && crate::text::occurs(e.0, crate::text::decimal(timeout_seconds as nat)))
        }),
        ({
            let (next, after) = guest_job_after(
                GuestJobStep::RunCommand,
                result,
                GuestJobEvent::<E>::CommandEnded(output),
                timeout_seconds,
                workdir,
            );
            next == GuestJobStep::Finished && (after matches Some(Ok(r)) && (output.success
                ==> r.status == "succeeded"@) && (!output.success ==> r.status == "failed"@)
                && r.message is Some && crate::text::begins_with(r.message->0, workdir))
        }),
        ({
            let (next, after) = guest_job_after(
                GuestJobStep::RunCommand,
                result,
                GuestJobEvent::CommandLost(failure, maybe_cause),
                timeout_seconds,
                workdir,
            );
            next == GuestJobStep::Finished && (after matches Some(Err(e)) && e.1 == maybe_cause
                && e.0.len() > 0)
        }),
{
    super::guest::workspace_decides_what_is_next(
        UploadOutcome::TimedOut,
        timeout_seconds,
        workdir,
    );
    super::guest::workspace_decides_what_is_next(
        UploadOutcome::NotLaunched,
        timeout_seconds,
        workdir,
    );
    super::guest::workspace_decides_what_is_next(
        UploadOutcome::Exited(output),
        timeout_seconds,
        workdir,
    );
    crate::jobs::summary_tells_both_outputs(workdir, output.out(), output.err());
    let all = summary(workdir, output.out(), output.err());
    reveal_strlit(": ");
    assert((workdir + ": "@).take(workdir.len() as int) =~= workdir);
    crate::text::prefix_of_prefix(all, workdir + ": "@, workdir);
    reveal_strlit("failed to upload workspace archive to microvm");
    reveal_strlit("failed to execute command inside microvm");
    reveal_strlit("failed to capture microvm ssh stdout");
    reveal_strlit("failed to capture microvm ssh stderr");
    reveal_strlit("failed to read streamed output from microvm ssh");
    reveal_strlit("microvm stdout streaming task join failure");
    reveal_strlit("microvm stderr streaming task join failure");
    reveal_strlit("microvm command timed out after ");
}

/// What went wrong is logged as a warning, and what went well is not; the line for a
/// command names the command.
pub proof fn trouble_is_logged_as_a_warning<E>(
    output: CommandOutput,
    command: Seq<Seq<char>>,
    workdir: Seq<char>,
)
    ensures
        ({
            let notes = notes_after(
                GuestJobStep::Upload,
                GuestJobEvent::<E>::Uploaded(output),
                command,
                workdir,
            );
            &&& notes.len() > 0
            &&& !output.success ==> notes.len() == 1 && notes[0].level == LogLevel::Warn
                && crate::text::occurs(notes[0].line, output.status@)
            &&& output.success ==> notes.len() == 2 && notes[0].level == LogLevel::Info
                && notes[1].level == LogLevel::Info && crate::text::occurs(
                notes[1].line,
                shell_text(command),
            )
        }),
        ({
            let notes = notes_after(
                GuestJobStep::RunCommand,
                GuestJobEvent::<E>::CommandEnded(output),
                command,
                workdir,
            );
            &&& notes.len() == 1
            &&& notes[0].level == LogLevel::Warn <==> !output.success
            &&& !output.success ==> crate::text::occurs(notes[0].line, output.status@)
        }),
{
    let none = Seq::<char>::empty();
    let a = "microvm workspace archive upload failed with "@;
    crate::text::middle_occurs(a, output.status@, none);
    assert(a + output.status@ + none =~= a + output.status@);
    let b = "running command inside microvm: "@;
    crate::text::middle_occurs(b, shell_text(command), none);
    assert(b + shell_text(command) + none =~= b + shell_text(command));
    let message = summary(workdir, output.out(), output.err());
    let c = "microvm command failed with "@;
    let rest = "; output: "@ + crate::text::ellipsized(message, 1_000);
    crate::text::middle_occurs(c, output.status@, rest);
    assert(c + output.status@ + rest =~= c + output.status@ + "; output: "@
        + crate::text::ellipsized(message, 1_000));
}

} // verus!

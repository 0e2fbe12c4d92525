//! Jobs: where they run, what they are given, and what comes of them.
use vstd::prelude::*;
use vstd::string::*;

use crate::process::CommandOutput;
use crate::text::{
    begins_with, ellipsize, ellipsized, middle_occurs, occurs, text_of, trim, trimmed,
};

pub mod runners;

use self::runners::container::ContainerRunner;
use self::runners::microvm::MicrovmRunner;

verus! {

/// Where a job runs.
#[derive(Debug)]
pub enum RunnerEnvironment {
    Host,
    Container { image: String, cpu: Option<u8>, memory_mb: Option<u32> },
    Microvm { image: String, cpu: Option<u8>, memory_mb: Option<u32> },
}

/// What a runner knows of the job that it runs.
#[derive(Debug)]
pub struct ExecutionContext {
    pub job_id: String,
    pub attempt_id: String,
    pub timeout_seconds: u64,
}

/// The directory that a job works in.
#[derive(Debug)]
pub struct PreparedWorkspace {
    pub workdir: String,
}

/// What came of a job.
#[derive(Debug)]
pub struct JobExecutionResult {
    pub status: &'static str,
    pub message: Option<String>,
}

pub struct ResultModel {
    pub status: Seq<char>,
    pub message: Option<Seq<char>>,
}

impl View for JobExecutionResult {
    type V = ResultModel;

    open spec fn view(&self) -> ResultModel {
        ResultModel { status: self.status@, message: text_of(self.message) }
    }
}

/// How a step of a run ended: well, with the result of the job, or with an error
/// of whatever type.
#[derive(Debug)]
pub enum StepEnd<E> {
    Done,
    Finished(JobExecutionResult),
    Failed(E),
}

/// The output of a job that a line belongs to.
#[derive(Debug, Clone, Copy, PartialEq, Eq, Structural)]
pub enum JobLogStream {
    Stdout,
    Stderr,
}

impl JobLogStream {
    pub open spec fn text(self) -> Seq<char> {
        match self {
            JobLogStream::Stdout => "stdout"@,
            JobLogStream::Stderr => "stderr"@,
        }
    }

    pub fn as_str(self) -> (r: &'static str)
        ensures
            r@ == self.text(),
    {
        match self {
            JobLogStream::Stdout => "stdout",
            JobLogStream::Stderr => "stderr",
        }
    }
}

/// The runner that a job is handed to.
pub enum ChosenRunner {
    Host,
    Container(ContainerRunner),
    Microvm(MicrovmRunner),
}

/// The runner that a job is handed to, for the environment that it asks for.
pub fn choose_runner(environment: RunnerEnvironment) -> (r: ChosenRunner)
    ensures
        match environment {
            RunnerEnvironment::Host => r is Host,
            RunnerEnvironment::Container { image, cpu, memory_mb } => r matches
                ChosenRunner::Container(c) && c.image == image && c.cpu == cpu && c.memory_mb
                == memory_mb,
            RunnerEnvironment::Microvm { image, cpu, memory_mb } => r matches
                ChosenRunner::Microvm(m) && m.image == image && m.cpu == cpu && m.memory_mb
                == memory_mb,
        },
{
    match environment {
        RunnerEnvironment::Host => ChosenRunner::Host,
        RunnerEnvironment::Container { image, cpu, memory_mb } => ChosenRunner::Container(
            ContainerRunner::new(image, cpu, memory_mb),
        ),
        RunnerEnvironment::Microvm { image, cpu, memory_mb } => ChosenRunner::Microvm(
            MicrovmRunner::new(image, cpu, memory_mb),
        ),
    }
}

// ---------------------------------------------------------------------------
// What can be run
// ---------------------------------------------------------------------------

/// The longest time, in seconds, that a job may take.
pub const MAX_TIMEOUT_SECONDS: u64 = 3_600;

/// Why a job cannot be run.
#[derive(Debug, Clone, Copy, PartialEq, Eq, Structural)]
pub enum RunError {
    BadTimeout,
    EmptyCommand,
}

impl RunError {
    pub open spec fn text(self) -> Seq<char> {
        match self {
            RunError::BadTimeout => "run timeoutSeconds must be between 1 and 3600"@,
            RunError::EmptyCommand => "run command must contain at least one token"@,
        }
    }

    /// What the error says to a reader.
    pub fn message(self) -> (r: String)
        ensures
            r@ == self.text(),
    {
        match self {
            RunError::BadTimeout => "run timeoutSeconds must be between 1 and 3600".to_string(),
            RunError::EmptyCommand => "run command must contain at least one token".to_string(),
        }
    }
}

/// Whether a time limit is one that a job may have.
pub open spec fn is_timeout(seconds: u64) -> bool {
    1 <= seconds <= MAX_TIMEOUT_SECONDS
}

/// Why a job cannot be run, if it cannot: its time limit is out of bounds, or
/// there is no command.
pub open spec fn refusal(timeout_seconds: u64, command: Seq<String>) -> Option<RunError> {
    if !is_timeout(timeout_seconds) {
        Some(RunError::BadTimeout)
    } else if command.len() == 0 {
        Some(RunError::EmptyCommand)
    } else {
        None
    }
}

/// Whether a job can be run: its time limit lies in bounds, and there is a
/// command.
pub fn check_run(timeout_seconds: u64, command: &Vec<String>) -> (r: Result<(), RunError>)
    ensures
        match r {
            Ok(_) => refusal(timeout_seconds, command@) is None,
            Err(e) => refusal(timeout_seconds, command@) == Some(e),
        },
{
    if timeout_seconds == 0 || timeout_seconds > MAX_TIMEOUT_SECONDS {
        return Err(RunError::BadTimeout);
    }
    if command.len() == 0 {
        return Err(RunError::EmptyCommand);
    }
    Ok(())
}

// ---------------------------------------------------------------------------
// What is told of a command
// ---------------------------------------------------------------------------

/// The longest excerpt of an output that is told.
pub const MAX_OUTPUT_CHARS: usize = 2_000;

/// An output without the white space around it, cut where it is too long.
pub open spec fn told(output: Seq<char>) -> Seq<char> {
    ellipsized(trimmed(output), MAX_OUTPUT_CHARS as nat)
}

/// An output without the white space around it, cut where it is too long.
pub fn truncate_output(value: &str) -> (r: String)
    ensures
        r@ == told(value@),
{
    let t = trim(value);
    ellipsize(t.as_str(), MAX_OUTPUT_CHARS)
}

/// What is told of a command that ran in `cwd`, out of its two outputs.
pub open spec fn summary(cwd: Seq<char>, stdout: Seq<char>, stderr: Seq<char>) -> Seq<char> {
    let out = trimmed(stdout).len() > 0;
    let err = trimmed(stderr).len() > 0;
    if out && err {
        cwd + ": stdout:\n"@ + told(stdout) + "\n\nstderr:\n"@ + told(stderr)
    } else if err {
        cwd + ": "@ + told(stderr)
    } else if out {
        cwd + ": "@ + told(stdout)
    } else {
        cwd + ": command completed with no output"@
    }
}

/// What is told of a command that ran in `cwd`, out of its two outputs.
pub fn summarize_texts(cwd: &str, stdout: &str, stderr: &str) -> (r: String)
    ensures
        r@ == summary(cwd@, stdout@, stderr@),
{
    let out = trim(stdout);
    let err = trim(stderr);
    let mut r = cwd.to_owned();
    if err.as_str().is_empty() {
        if out.as_str().is_empty() {
            r.append(": command completed with no output");
        } else {
            r.append(": ");
            r.append(truncate_output(stdout).as_str());
        }
    } else if out.as_str().is_empty() {
        r.append(": ");
        r.append(truncate_output(stderr).as_str());
    } else {
        r.append(": stdout:\n");
        r.append(truncate_output(stdout).as_str());
        r.append("\n\nstderr:\n");
        r.append(truncate_output(stderr).as_str());
    }
    r
}

/// What is told of a command that ran in `cwd`.
pub fn summarize_command_output(cwd: &str, output: &CommandOutput) -> (r: String)
    ensures
        r@ == summary(cwd@, output.out(), output.err()),
{
    let out = output.stdout_text();
    let err = output.stderr_text();
    summarize_texts(cwd, out.as_str(), err.as_str())
}

/// What comes of a job whose command ended.
pub open spec fn result_of(success: bool, message: Seq<char>) -> ResultModel {
    ResultModel {
        status: if success {
            "succeeded"@
        } else {
            "failed"@
        },
        message: Some(message),
    }
}

/// What comes of a job whose command ended.
pub fn job_result(success: bool, message: String) -> (r: JobExecutionResult)
    ensures
        r@ == result_of(success, message@),
{
    let status = if success {
        "succeeded"
    } else {
        "failed"
    };
    JobExecutionResult { status, message: Some(message) }
}

// ---------------------------------------------------------------------------
// What a run begins and ends with
// ---------------------------------------------------------------------------

/// A job is run where it may take between one second and an hour and has a command; else
/// it is refused, and a bad time limit is told first.
pub proof fn only_sound_jobs_are_run(timeout_seconds: u64, command: Seq<String>)
    ensures
        refusal(timeout_seconds, command) is None <==> 1 <= timeout_seconds <= 60 * 60
            && command.len() > 0,
        timeout_seconds == 0 || timeout_seconds > 60 * 60 ==> refusal(timeout_seconds, command)
            == Some(RunError::BadTimeout),
        1 <= timeout_seconds <= 60 * 60 && command.len() == 0 ==> refusal(timeout_seconds, command)
            == Some(RunError::EmptyCommand),
{
}

/// A job succeeded exactly where its command did, and its message is handed on.
pub proof fn result_says_how_it_went(success: bool, message: Seq<char>)
    ensures
        result_of(success, message).status == "succeeded"@ <==> success,
        result_of(success, message).status == "failed"@ <==> !success,
        result_of(success, message).message == Some(message),
{
    reveal_strlit("succeeded");
    reveal_strlit("failed");
    assert("succeeded"@.len() == 9 && "failed"@.len() == 6);
}

/// What is told of a command names the directory that it ran in, and holds what it wrote
/// to either output, cut where it is too long.
#[verifier::rlimit(40)]
pub proof fn summary_tells_both_outputs(cwd: Seq<char>, stdout: Seq<char>, stderr: Seq<char>)
    ensures
        begins_with(summary(cwd, stdout, stderr), cwd + ": "@),
        0 < trimmed(stdout).len() <= 2_000 ==> occurs(
            summary(cwd, stdout, stderr),
            trimmed(stdout),
        ),
        0 < trimmed(stderr).len() <= 2_000 ==> occurs(
            summary(cwd, stdout, stderr),
            trimmed(stderr),
        ),
        trimmed(stdout).len() > 0 ==> occurs(
            summary(cwd, stdout, stderr),
            ellipsized(trimmed(stdout), 2_000),
        ),
        trimmed(stderr).len() > 0 ==> occurs(
            summary(cwd, stdout, stderr),
            ellipsized(trimmed(stderr), 2_000),
        ),
        trimmed(stdout).len() == 0 && trimmed(stderr).len() == 0 ==> summary(cwd, stdout, stderr)
            == cwd + ": command completed with no output"@,
        summary(cwd, stdout, stderr).len() <= cwd.len() + 2 * 2_003 + 40,
{
    let all = summary(cwd, stdout, stderr);
    let out = told(stdout);
    let err = told(stderr);
    let none = Seq::<char>::empty();
    reveal_strlit(": ");
    reveal_strlit(": stdout:\n");
    reveal_strlit("\n\nstderr:\n");
    reveal_strlit(": command completed with no output");
    reveal_strlit("...");
    assert(all.take(cwd.len() as int + 2) =~= cwd + ": "@);
    if trimmed(stdout).len() > 0 && trimmed(stderr).len() > 0 {
        let front = cwd + ": stdout:\n"@;
        middle_occurs(front, out, "\n\nstderr:\n"@ + err);
        assert(all =~= front + out + ("\n\nstderr:\n"@ + err));
        middle_occurs(front + out + "\n\nstderr:\n"@, err, none);
        assert(all =~= front + out + "\n\nstderr:\n"@ + err + none);
    } else if trimmed(stderr).len() > 0 {
        middle_occurs(cwd + ": "@, err, none);
        assert(all =~= cwd + ": "@ + err + none);
    } else if trimmed(stdout).len() > 0 {
        middle_occurs(cwd + ": "@, out, none);
        assert(all =~= cwd + ": "@ + out + none);
    }
}

} // verus!

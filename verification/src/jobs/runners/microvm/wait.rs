//! The course of the waits for a guest: what is done next, and what is told.
use vstd::prelude::*;
use vstd::string::*;

use crate::jobs::is_timeout;
use crate::text::{joined, occurs, text_of, texts, trimmed};

use super::guest::{
    boot_step, lesser, project_exit_failure, report_of, time_left, wait_note, with_logs, BootStep,
    BootStepModel, BootWait, GuestWait, WaitStep, PROBE_LIMIT_MS,
};
use super::qemu::{early_exit, RecentLogs};

verus! {

/// What a step of a wait for a guest came to.
#[derive(Debug)]
pub enum WaitEvent {
    Done,
    /// So many milliseconds have passed since the wait began.
    Elapsed(u64),
    /// Whether the emulator has ended, and the milliseconds that have passed.
    Polled { exit: Option<String>, elapsed_ms: u64 },
    /// Whether the guest answered, and what is said if not.
    Probed(Result<(), String>),
    /// Whether the emulator has ended.
    Exit(Option<String>),
    /// What the logs of the emulator hold.
    Logs(String),
}

// ---------------------------------------------------------------------------
// The guest of a project
// ---------------------------------------------------------------------------

/// What is done next to wait for the guest of a project.
#[derive(Debug)]
pub enum ProjectWaitStep {
    /// Tell what is new in the logs, and look at the clock.
    TellLogs,
    /// The time is up: tell what is new in the logs, and collect them.
    CollectLateLogs,
    /// Ask the guest for an answer, for `limit_ms` at most; so much is left of the
    /// wait.
    Probe { remaining_ms: u64, limit_ms: u64 },
    /// The guest answered: tell what is new in the logs.
    TellLastLogs { remaining_ms: u64 },
    /// Wait for the first boot, for so long at most.
    AwaitBoot { remaining_ms: u64 },
    /// The guest did not answer: look whether the emulator has ended.
    CheckProcess { last_probe: String },
    /// The emulator has ended: tell what is new in the logs, and collect them.
    CollectExitLogs { status: String },
    /// Look at the clock, to tell of the wait where it is time to.
    Report { last_probe: String },
    /// Let so much time pass.
    Pause { ms: u64 },
    Ready,
    Failed(String),
}

pub enum ProjectWaitModel {
    TellLogs,
    CollectLateLogs,
    Probe { remaining_ms: u64, limit_ms: u64 },
    TellLastLogs(u64),
    AwaitBoot(u64),
    CheckProcess(Seq<char>),
    CollectExitLogs(Seq<char>),
    Report(Seq<char>),
    Pause { ms: u64 },
    Ready,
    Failed(Seq<char>),
}

impl View for ProjectWaitStep {
    type V = ProjectWaitModel;

    open spec fn view(&self) -> ProjectWaitModel {
        match self {
            ProjectWaitStep::TellLogs => ProjectWaitModel::TellLogs,
            ProjectWaitStep::CollectLateLogs => ProjectWaitModel::CollectLateLogs,
            ProjectWaitStep::Probe { remaining_ms, limit_ms } => ProjectWaitModel::Probe {
                remaining_ms: *remaining_ms,
                limit_ms: *limit_ms,
            },
            ProjectWaitStep::TellLastLogs { remaining_ms } => ProjectWaitModel::TellLastLogs(
                *remaining_ms,
            ),
            ProjectWaitStep::AwaitBoot { remaining_ms } => ProjectWaitModel::AwaitBoot(
                *remaining_ms,
            ),
            ProjectWaitStep::CheckProcess { last_probe } => ProjectWaitModel::CheckProcess(
                last_probe@,
            ),
            ProjectWaitStep::CollectExitLogs { status } => ProjectWaitModel::CollectExitLogs(
                status@,
            ),
            ProjectWaitStep::Report { last_probe } => ProjectWaitModel::Report(last_probe@),
            ProjectWaitStep::Pause { ms } => ProjectWaitModel::Pause { ms: *ms },
            ProjectWaitStep::Ready => ProjectWaitModel::Ready,
            ProjectWaitStep::Failed(message) => ProjectWaitModel::Failed(message@),
        }
    }
}

/// What is done after a step of a wait that ends at `deadline_ms`. Each round
/// tells the logs, looks at the clock, asks the guest, and only where the guest
/// does not answer looks for the emulator, reports and pauses. An event that does
/// not belong to a step leaves the wait where it is.
pub open spec fn project_wait_after(
    deadline_ms: u64,
    step: ProjectWaitModel,
    event: WaitEvent,
) -> ProjectWaitModel {
    match (step, event) {
        (ProjectWaitModel::TellLogs, WaitEvent::Elapsed(ms)) => if ms >= deadline_ms {
            ProjectWaitModel::CollectLateLogs
        } else {
            ProjectWaitModel::Probe {
                remaining_ms: (deadline_ms - ms) as u64,
                limit_ms: PROBE_LIMIT_MS,
            }
        },
        (ProjectWaitModel::CollectLateLogs, WaitEvent::Logs(logs)) => ProjectWaitModel::Failed(
            with_logs("project microvm did not become ready before timeout"@, logs@),
        ),
        (ProjectWaitModel::Probe { remaining_ms, .. }, WaitEvent::Probed(Ok(_))) => {
            ProjectWaitModel::TellLastLogs(remaining_ms)
        },
        (ProjectWaitModel::Probe { .. }, WaitEvent::Probed(Err(failure))) => {
            ProjectWaitModel::CheckProcess(failure@)
        },
        (ProjectWaitModel::TellLastLogs(left), WaitEvent::Done) => ProjectWaitModel::AwaitBoot(
            left,
        ),
        (ProjectWaitModel::AwaitBoot(_), WaitEvent::Done) => ProjectWaitModel::Ready,
        (ProjectWaitModel::CheckProcess(_), WaitEvent::Exit(Some(status))) => {
            ProjectWaitModel::CollectExitLogs(status@)
        },
        (ProjectWaitModel::CheckProcess(failure), WaitEvent::Exit(None)) => {
            ProjectWaitModel::Report(failure)
        },
        (ProjectWaitModel::CollectExitLogs(status), WaitEvent::Logs(logs)) => {
            ProjectWaitModel::Failed(
                with_logs(
                    "project qemu process exited before guest readiness: "@ + status,
                    logs@,
                ),
            )
        },
        (ProjectWaitModel::Report(_), WaitEvent::Elapsed(_)) => ProjectWaitModel::Pause {
            ms: 2_000,
        },
        (ProjectWaitModel::Pause { .. }, WaitEvent::Done) => ProjectWaitModel::TellLogs,
        _ => step,
    }
}

/// What is told after a step of a wait: how it goes, where a report is due.
pub open spec fn project_wait_told(
    next_progress_ms: u64,
    step: ProjectWaitModel,
    event: WaitEvent,
) -> Option<Seq<char>> {
    match (step, event) {
        (ProjectWaitModel::Report(failure), WaitEvent::Elapsed(ms)) => if ms >= next_progress_ms {
            Some(wait_note("project microvm"@, ms, failure))
        } else {
            None
        },
        _ => None,
    }
}

/// When the next report is due after something was told or not.
pub open spec fn progress_after(next_progress_ms: u64, told: Option<Seq<char>>) -> int {
    if told is Some {
        lesser(next_progress_ms + 5_000, u64::MAX as int)
    } else {
        next_progress_ms as int
    }
}

/// A wait for the guest of a project.
#[derive(Debug)]
pub struct ProjectWait {
    pub wait: GuestWait,
    pub step: ProjectWaitStep,
}

impl ProjectWait {
    /// A wait begins.
    pub fn new(timeout_seconds: u64) -> (r: Self)
        requires
            is_timeout(timeout_seconds),
        ensures
            r.wait.deadline_ms == timeout_seconds * 1_000,
            r.wait.next_progress_ms == 5_000,
            r.step@ == ProjectWaitModel::TellLogs,
    {
        ProjectWait {
            wait: GuestWait::for_project(timeout_seconds),
            step: ProjectWaitStep::TellLogs,
        }
    }

    /// The wait after a step, and what is told of it.
    pub fn advance(self, event: WaitEvent) -> (r: (Self, Option<String>))
        ensures
            r.0.step@ == project_wait_after(self.wait.deadline_ms, self.step@, event),
            text_of(r.1) == project_wait_told(self.wait.next_progress_ms, self.step@, event),
            r.0.wait.deadline_ms == self.wait.deadline_ms,
            r.0.wait.next_progress_ms == progress_after(
                self.wait.next_progress_ms,
                text_of(r.1),
            ),
    {
        let mut wait = self.wait;
        let mut told: Option<String> = None;
        let step = match (self.step, event) {
            (ProjectWaitStep::TellLogs, WaitEvent::Elapsed(ms)) => {
                match wait.check_deadline("", ms) {
                    Ok(remaining_ms) => ProjectWaitStep::Probe {
                        remaining_ms,
                        limit_ms: PROBE_LIMIT_MS,
                    },
                    Err(_) => ProjectWaitStep::CollectLateLogs,
                }
            },
            (ProjectWaitStep::CollectLateLogs, WaitEvent::Logs(logs)) => {
                match wait.check_deadline(logs.as_str(), wait.deadline_ms) {
                    Ok(_) => ProjectWaitStep::CollectLateLogs,
                    Err(message) => ProjectWaitStep::Failed(message),
                }
            },
            (ProjectWaitStep::Probe { remaining_ms, .. }, WaitEvent::Probed(Ok(_))) => {
                ProjectWaitStep::TellLastLogs { remaining_ms }
            },
            (ProjectWaitStep::Probe { .. }, WaitEvent::Probed(Err(last_probe))) => {
                ProjectWaitStep::CheckProcess { last_probe }
            },
            (ProjectWaitStep::TellLastLogs { remaining_ms }, WaitEvent::Done) => {
                ProjectWaitStep::AwaitBoot { remaining_ms }
            },
            (ProjectWaitStep::AwaitBoot { .. }, WaitEvent::Done) => ProjectWaitStep::Ready,
            (ProjectWaitStep::CheckProcess { .. }, WaitEvent::Exit(Some(status))) => {
                ProjectWaitStep::CollectExitLogs { status }
            },
            (ProjectWaitStep::CheckProcess { last_probe }, WaitEvent::Exit(None)) => {
                ProjectWaitStep::Report { last_probe }
            },
            (ProjectWaitStep::CollectExitLogs { status }, WaitEvent::Logs(logs)) => {
                ProjectWaitStep::Failed(project_exit_failure(status.as_str(), logs.as_str()))
            },
            (ProjectWaitStep::Report { last_probe }, WaitEvent::Elapsed(ms)) => {
                told = wait.tell("project microvm", ms, last_probe.as_str());
                ProjectWaitStep::Pause { ms: 2_000 }
            },
            (ProjectWaitStep::Pause { .. }, WaitEvent::Done) => ProjectWaitStep::TellLogs,
            (step, _) => step,
        };
        (ProjectWait { wait, step }, told)
    }
}

/// The step that a wait is at after these events.
pub open spec fn project_wait_at(deadline_ms: u64, events: Seq<WaitEvent>) -> ProjectWaitModel
    decreases events.len(),
{
    if events.len() == 0 {
        ProjectWaitModel::TellLogs
    } else {
        project_wait_after(
            deadline_ms,
            project_wait_at(deadline_ms, events.drop_last()),
            events.last(),
        )
    }
}

/// Whether the guest answered in the `i`-th step of a wait.
pub open spec fn answered_at(deadline_ms: u64, events: Seq<WaitEvent>, i: int) -> bool {
    0 <= i < events.len() && (project_wait_at(deadline_ms, events.take(i)) is Probe)
        && (events[i] matches WaitEvent::Probed(Ok(_)))
}

/// Whether the `i`-th step of a wait gave a reason to fail: the time was up, or
/// the guest did not answer and the emulator had ended.
pub open spec fn gave_up_at(deadline_ms: u64, events: Seq<WaitEvent>, i: int) -> bool {
    let step = project_wait_at(deadline_ms, events.take(i));
    0 <= i < events.len() && ((step is TellLogs && (events[i] matches WaitEvent::Elapsed(ms)
        && ms >= deadline_ms)) || (step is CheckProcess && (events[i] matches WaitEvent::Exit(
        Some(_),
    ))))
}

/// A guest is taken as ready only after it answered.
pub proof fn ready_guest_has_answered(deadline_ms: u64, events: Seq<WaitEvent>)
    ensures
        ({
            let step = project_wait_at(deadline_ms, events);
            step is TellLastLogs || step is AwaitBoot || step is Ready
        }) ==> exists|i: int| answered_at(deadline_ms, events, i),
    decreases events.len(),
{
    if events.len() > 0 {
        let init = events.drop_last();
        let n = init.len() as int;
        ready_guest_has_answered(deadline_ms, init);
        assert(events.take(n) =~= init);
        assert(events[n] == events.last());
        if exists|i: int| answered_at(deadline_ms, init, i) {
            let i = choose|i: int| answered_at(deadline_ms, init, i);
            assert(events.take(i) =~= init.take(i));
            assert(events[i] == init[i]);
            assert(answered_at(deadline_ms, events, i));
        } else {
            assert(project_wait_at(deadline_ms, events) is TellLastLogs ==> answered_at(
                deadline_ms,
                events,
                n,
            ));
        }
    }
}

/// A wait fails only where its time was up, or where the emulator had ended and
/// the guest did not answer.
pub proof fn wait_fails_for_a_reason(deadline_ms: u64, events: Seq<WaitEvent>)
    ensures
        ({
            let step = project_wait_at(deadline_ms, events);
            step is CollectLateLogs || step is CollectExitLogs || step is Failed
        }) ==> exists|i: int| gave_up_at(deadline_ms, events, i),
    decreases events.len(),
{
    if events.len() > 0 {
        let init = events.drop_last();
        let n = init.len() as int;
        wait_fails_for_a_reason(deadline_ms, init);
        assert(events.take(n) =~= init);
        assert(events[n] == events.last());
        if exists|i: int| gave_up_at(deadline_ms, init, i) {
            let i = choose|i: int| gave_up_at(deadline_ms, init, i);
            assert(events.take(i) =~= init.take(i));
            assert(events[i] == init[i]);
            assert(gave_up_at(deadline_ms, events, i));
        } else {
            let step = project_wait_at(deadline_ms, events);
            assert(step is CollectLateLogs || step is CollectExitLogs ==> gave_up_at(
                deadline_ms,
                events,
                n,
            ));
        }
    }
}

/// A guest is asked only before the deadline, with the time that is left; once
/// the time is up, the wait can only fail; and a wait that is over stays so.
pub proof fn deadline_ends_the_wait(deadline_ms: u64, step: ProjectWaitModel, event: WaitEvent)
    ensures
        match project_wait_after(deadline_ms, step, event) {
            ProjectWaitModel::Probe { remaining_ms, .. } => step is Probe || (step is TellLogs && (
            event matches WaitEvent::Elapsed(ms) && ms < deadline_ms && remaining_ms == time_left(
                deadline_ms,
                ms,
            ))),
            next => step is CollectLateLogs ==> next is CollectLateLogs || next is Failed,
        },
        step is Failed || step is Ready ==> project_wait_after(deadline_ms, step, event) == step,
{
}

// ---------------------------------------------------------------------------
// The guest of a job
// ---------------------------------------------------------------------------

/// What is done next to wait for the guest of a job.
#[derive(Debug)]
pub enum JobWaitStep {
    /// Look whether the emulator has ended, and at the clock.
    Poll,
    /// Ask the guest for an answer, for so long at most.
    Probe { limit_ms: u64 },
    /// The guest answered: wait for its first boot, for so long at most.
    AwaitBoot { limit_ms: u64 },
    /// Look at the clock, to tell of the wait where it is time to.
    Report { last_probe: String },
    /// Let so much time pass.
    Pause { ms: u64 },
    Ready,
    Failed(String),
}

pub enum JobWaitModel {
    Poll,
    Probe(int),
    AwaitBoot { limit_ms: u64 },
    Report(Seq<char>),
    Pause { ms: u64 },
    Ready,
    Failed(Seq<char>),
}

impl View for JobWaitStep {
    type V = JobWaitModel;

    open spec fn view(&self) -> JobWaitModel {
        match self {
            JobWaitStep::Poll => JobWaitModel::Poll,
            JobWaitStep::Probe { limit_ms } => JobWaitModel::Probe(*limit_ms as int),
            JobWaitStep::AwaitBoot { limit_ms } => JobWaitModel::AwaitBoot { limit_ms: *limit_ms },
            JobWaitStep::Report { last_probe } => JobWaitModel::Report(last_probe@),
            JobWaitStep::Pause { ms } => JobWaitModel::Pause { ms: *ms },
            JobWaitStep::Ready => JobWaitModel::Ready,
            JobWaitStep::Failed(message) => JobWaitModel::Failed(message@),
        }
    }
}

/// What is done after a step of a wait that ends at `deadline_ms`, where the
/// emulator wrote `logs` lately. An event that does not belong to a step leaves the
/// wait where it is.
pub open spec fn job_wait_after(
    deadline_ms: u64,
    logs: Seq<Seq<char>>,
    step: JobWaitModel,
    event: WaitEvent,
) -> JobWaitModel {
    match (step, event) {
        (JobWaitModel::Poll, WaitEvent::Polled { exit, elapsed_ms }) => match text_of(exit) {
            Some(status) => JobWaitModel::Failed(early_exit(status, joined(logs, "\n"@))),
            None => if elapsed_ms >= deadline_ms {
                JobWaitModel::Failed("microvm did not become ready before timeout"@)
            } else {
                JobWaitModel::Probe(lesser(time_left(deadline_ms, elapsed_ms), 5_000))
            },
        },
        (JobWaitModel::Probe(_), WaitEvent::Probed(Ok(_))) => JobWaitModel::AwaitBoot {
            limit_ms: 30_000,
        },
        (JobWaitModel::Probe(_), WaitEvent::Probed(Err(failure))) => JobWaitModel::Report(
            failure@,
        ),
        (JobWaitModel::AwaitBoot { .. }, WaitEvent::Done) => JobWaitModel::Ready,
        (JobWaitModel::Report(_), WaitEvent::Elapsed(_)) => JobWaitModel::Pause { ms: 2_000 },
        (JobWaitModel::Pause { .. }, WaitEvent::Done) => JobWaitModel::Poll,
        _ => step,
    }
}

/// What is told after a step of a wait: how it goes, where a report is due.
pub open spec fn job_wait_told(
    next_progress_ms: u64,
    step: JobWaitModel,
    event: WaitEvent,
) -> Option<Seq<char>> {
    match (step, event) {
        (JobWaitModel::Report(failure), WaitEvent::Elapsed(ms)) => if ms >= next_progress_ms {
            Some(wait_note("microvm"@, ms, failure))
        } else {
            None
        },
        _ => None,
    }
}

/// A wait for the guest of a job.
#[derive(Debug)]
pub struct JobWait {
    pub wait: GuestWait,
    pub step: JobWaitStep,
}

impl JobWait {
    /// A wait begins.
    pub fn new(timeout_seconds: u64) -> (r: Self)
        requires
            is_timeout(timeout_seconds),
        ensures
            r.wait.deadline_ms == timeout_seconds * 1_000,
            r.wait.next_progress_ms == 15_000,
            r.step@ == JobWaitModel::Poll,
    {
        JobWait { wait: GuestWait::for_job(timeout_seconds), step: JobWaitStep::Poll }
    }

    /// The wait after a step, and what is told of it.
    pub fn advance(self, event: WaitEvent, logs: &RecentLogs) -> (r: (Self, Option<String>))
        ensures
            r.0.step@ == job_wait_after(
                self.wait.deadline_ms,
                texts(logs.lines@),
                self.step@,
                event,
            ),
            text_of(r.1) == job_wait_told(self.wait.next_progress_ms, self.step@, event),
            r.0.wait.deadline_ms == self.wait.deadline_ms,
            r.0.wait.next_progress_ms == progress_after(
                self.wait.next_progress_ms,
                text_of(r.1),
            ),
    {
        let mut wait = self.wait;
        let mut told: Option<String> = None;
        let step = match (self.step, event) {
            (JobWaitStep::Poll, WaitEvent::Polled { exit, elapsed_ms }) => {
                let next = match &exit {
                    Some(status) => wait.next_step(Some(status.as_str()), logs, elapsed_ms),
                    None => wait.next_step(None, logs, elapsed_ms),
                };
                match next {
                    WaitStep::Fail(message) => JobWaitStep::Failed(message),
                    WaitStep::Probe { limit_ms } => JobWaitStep::Probe { limit_ms },
                }
            },
            (JobWaitStep::Probe { .. }, WaitEvent::Probed(Ok(_))) => JobWaitStep::AwaitBoot {
                limit_ms: 30_000,
            },
            (JobWaitStep::Probe { .. }, WaitEvent::Probed(Err(last_probe))) => {
                JobWaitStep::Report { last_probe }
            },
            (JobWaitStep::AwaitBoot { .. }, WaitEvent::Done) => JobWaitStep::Ready,
            (JobWaitStep::Report { last_probe }, WaitEvent::Elapsed(ms)) => {
                told = wait.tell("microvm", ms, last_probe.as_str());
                JobWaitStep::Pause { ms: 2_000 }
            },
            (JobWaitStep::Pause { .. }, WaitEvent::Done) => JobWaitStep::Poll,
            (step, _) => step,
        };
        (JobWait { wait, step }, told)
    }
}

/// The guest of a job is asked only where its emulator runs and the deadline has
/// not passed, and for no longer than is left; it is taken as ready only after it
/// answered.
pub proof fn job_guest_is_asked_in_time(
    deadline_ms: u64,
    logs: Seq<Seq<char>>,
    step: JobWaitModel,
    event: WaitEvent,
)
    ensures
        match job_wait_after(deadline_ms, logs, step, event) {
            JobWaitModel::Probe(limit) => step == JobWaitModel::Probe(limit) || (step is Poll && (
            event matches WaitEvent::Polled { exit, elapsed_ms } && exit is None && elapsed_ms
                < deadline_ms && limit <= time_left(deadline_ms, elapsed_ms) && limit <= 5_000)),
            JobWaitModel::AwaitBoot { .. } => step is AwaitBoot || (step is Probe && (event matches
                WaitEvent::Probed(Ok(_)))),
            JobWaitModel::Ready => step is Ready || step is AwaitBoot,
            _ => true,
        },
{
}

// ---------------------------------------------------------------------------
// The first boot of the guest of a project
// ---------------------------------------------------------------------------

/// What is done next to wait for the first boot.
#[derive(Debug, Clone, Copy, PartialEq, Eq, Structural)]
pub enum BootPhase {
    /// Look at the clock.
    CheckTime,
    /// Ask the guest how its boot goes, which may take so long.
    AskStatus { limit_ms: u64 },
    /// Let so much time pass.
    Pause { ms: u64 },
    Over,
}

/// What a step of the wait came to.
#[derive(Debug)]
pub enum BootEvent {
    Done,
    Elapsed(u64),
    Reported { report: Result<String, String>, elapsed_ms: u64 },
}

/// What is done after a step of a wait that ends at `deadline_ms`. An event that
/// does not belong to a step leaves the wait where it is.
pub open spec fn boot_phase_after(
    deadline_ms: u64,
    next_progress_ms: u64,
    phase: BootPhase,
    event: BootEvent,
) -> BootPhase {
    match (phase, event) {
        (BootPhase::CheckTime, BootEvent::Elapsed(ms)) => if ms >= deadline_ms {
            BootPhase::Over
        } else {
            BootPhase::AskStatus { limit_ms: 10_000 }
        },
        (BootPhase::AskStatus { .. }, BootEvent::Reported { report, elapsed_ms }) => if boot_step(
            report_of(report),
            elapsed_ms,
            next_progress_ms,
        ) is Stop {
            BootPhase::Over
        } else {
            BootPhase::Pause { ms: 5_000 }
        },
        (BootPhase::Pause { .. }, BootEvent::Done) => BootPhase::CheckTime,
        _ => phase,
    }
}

/// What is told after a step of the wait.
pub open spec fn boot_told(
    deadline_ms: u64,
    next_progress_ms: u64,
    phase: BootPhase,
    event: BootEvent,
) -> Option<Seq<char>> {
    match (phase, event) {
        (BootPhase::CheckTime, BootEvent::Elapsed(ms)) => if ms >= deadline_ms {
            Some(
                "cloud-init did not finish before readiness wait budget; continuing after SSH readiness"@,
            )
        } else {
            None
        },
        (BootPhase::AskStatus { .. }, BootEvent::Reported { report, elapsed_ms }) => match boot_step(
            report_of(report),
            elapsed_ms,
            next_progress_ms,
        ) {
            BootStepModel::Stop(line) => Some(line),
            BootStepModel::Wait(line) => line,
        },
        _ => None,
    }
}

/// A wait for the first boot of the guest of a project.
#[derive(Debug)]
pub struct ProjectBoot {
    pub wait: BootWait,
    pub phase: BootPhase,
}

impl ProjectBoot {
    /// A wait begins, for as long as the guest may still take, but five minutes at
    /// most.
    pub fn new(remaining_ms: u64) -> (r: Self)
        ensures
            r.wait.deadline_ms == lesser(remaining_ms as int, 300_000),
            r.wait.next_progress_ms == 0,
            r.phase == BootPhase::CheckTime,
    {
        ProjectBoot { wait: BootWait::new(remaining_ms), phase: BootPhase::CheckTime }
    }

    /// The wait after a step, and what is told of it. A report on a boot that goes
    /// on puts the next one off by fifteen seconds.
    pub fn advance(self, event: BootEvent) -> (r: (Self, Option<String>))
        ensures
            r.0.phase == boot_phase_after(
                self.wait.deadline_ms,
                self.wait.next_progress_ms,
                self.phase,
                event,
            ),
            text_of(r.1) == boot_told(
                self.wait.deadline_ms,
                self.wait.next_progress_ms,
                self.phase,
                event,
            ),
            r.0.wait.deadline_ms == self.wait.deadline_ms,
            r.0.wait.next_progress_ms == if self.phase is AskStatus && r.0.phase is Pause
                && r.1 is Some {
                lesser(self.wait.next_progress_ms + 15_000, u64::MAX as int)
            } else {
                self.wait.next_progress_ms as int
            },
    {
        let phase = self.phase;
        let mut wait = self.wait;
        match (phase, event) {
            (BootPhase::CheckTime, BootEvent::Elapsed(ms)) => match wait.out_of_time(ms) {
                Some(line) => (ProjectBoot { wait, phase: BootPhase::Over }, Some(line)),
                None => (ProjectBoot { wait, phase: BootPhase::AskStatus { limit_ms: 10_000 } }, None),
            },
            (BootPhase::AskStatus { .. }, BootEvent::Reported { report, elapsed_ms }) => {
                match wait.after_report(&report, elapsed_ms) {
                    BootStep::Stop(line) => (
                        ProjectBoot { wait, phase: BootPhase::Over },
                        Some(line),
                    ),
                    BootStep::Wait(line) => (
                        ProjectBoot { wait, phase: BootPhase::Pause { ms: 5_000 } },
                        line,
                    ),
                }
            },
            (BootPhase::Pause { .. }, BootEvent::Done) => (
                ProjectBoot { wait, phase: BootPhase::CheckTime },
                None,
            ),
            _ => (ProjectBoot { wait, phase }, None),
        }
    }
}

/// The guest is asked how its boot goes only before the deadline; and the wait is
/// over once it is reported as done or failed, or the deadline has passed.
pub proof fn boot_wait_ends(
    deadline_ms: u64,
    next_progress_ms: u64,
    phase: BootPhase,
    event: BootEvent,
)
    ensures
        match boot_phase_after(deadline_ms, next_progress_ms, phase, event) {
            BootPhase::AskStatus { .. } => phase is AskStatus || (phase == BootPhase::CheckTime
                && (event matches BootEvent::Elapsed(ms) && ms < deadline_ms)),
            BootPhase::Over => phase == BootPhase::Over || boot_told(
                deadline_ms,
                next_progress_ms,
                phase,
                event,
            ) is Some,
            _ => true,
        },
        phase == BootPhase::CheckTime && (event matches BootEvent::Elapsed(ms) && ms >= deadline_ms)
            ==> boot_phase_after(deadline_ms, next_progress_ms, phase, event) == BootPhase::Over,
{
}

// ---------------------------------------------------------------------------
// How a wait goes on
// ---------------------------------------------------------------------------

/// A guest of a project that answers in time is waited for to the end of its first boot,
/// for what is left of the time, and is ready then.
pub proof fn answering_guest_gets_ready(deadline_ms: u64, elapsed_ms: u64)
    requires
        elapsed_ms < deadline_ms,
    ensures
        ({
            let left = (deadline_ms - elapsed_ms) as u64;
            let ask = project_wait_after(
                deadline_ms,
                ProjectWaitModel::TellLogs,
                WaitEvent::Elapsed(elapsed_ms),
            );
            let told = project_wait_after(deadline_ms, ask, WaitEvent::Probed(Ok(())));
            let boot = project_wait_after(deadline_ms, told, WaitEvent::Done);
            &&& ask == (ProjectWaitModel::Probe { remaining_ms: left, limit_ms: 5_000 })
            &&& told == ProjectWaitModel::TellLastLogs(left)
            &&& boot == ProjectWaitModel::AwaitBoot(left)
            &&& project_wait_after(deadline_ms, boot, WaitEvent::Done) == ProjectWaitModel::Ready
        }),
{
}

/// A guest of a project that does not answer while its emulator runs is asked again after
/// a pause of two seconds, as long as there is time.
pub proof fn silent_guest_is_asked_again(
    deadline_ms: u64,
    left: u64,
    failure: String,
    elapsed_ms: u64,
)
    ensures
        ({
            let ask = ProjectWaitModel::Probe { remaining_ms: left, limit_ms: 5_000 };
            let look = project_wait_after(deadline_ms, ask, WaitEvent::Probed(Err(failure)));
            let report = project_wait_after(deadline_ms, look, WaitEvent::Exit(None));
            let pause = project_wait_after(deadline_ms, report, WaitEvent::Elapsed(elapsed_ms));
            &&& look == ProjectWaitModel::CheckProcess(failure@)
            &&& report == ProjectWaitModel::Report(failure@)
            &&& pause == (ProjectWaitModel::Pause { ms: 2_000 })
            &&& project_wait_after(deadline_ms, pause, WaitEvent::Done)
                == ProjectWaitModel::TellLogs
        }),
{
}

/// A wait for a project whose time is up fails, and tells what the logs hold.
pub proof fn late_wait_tells_the_logs(deadline_ms: u64, elapsed_ms: u64, logs: String)
    requires
        elapsed_ms >= deadline_ms,
    ensures
        project_wait_after(
            deadline_ms,
            ProjectWaitModel::TellLogs,
            WaitEvent::Elapsed(elapsed_ms),
        ) == ProjectWaitModel::CollectLateLogs,
        ({
            let end = project_wait_after(
                deadline_ms,
                ProjectWaitModel::CollectLateLogs,
                WaitEvent::Logs(logs),
            );
            end is Failed && (trimmed(logs@).len() > 0 ==> occurs(end->Failed_0, logs@))
        }),
{
    let late = "project microvm did not become ready before timeout"@;
    super::guest::waits_are_told(late, 0, Seq::empty(), logs@);
}

/// A wait for a project whose emulator ended fails, and tells how that ended and what the
/// logs hold.
pub proof fn ended_emulator_is_told(
    deadline_ms: u64,
    failure: Seq<char>,
    status: String,
    logs: String,
)
    ensures
        project_wait_after(
            deadline_ms,
            ProjectWaitModel::CheckProcess(failure),
            WaitEvent::Exit(Some(status)),
        ) == ProjectWaitModel::CollectExitLogs(status@),
        ({
            let end = project_wait_after(
                deadline_ms,
                ProjectWaitModel::CollectExitLogs(status@),
                WaitEvent::Logs(logs),
            );
            end is Failed && occurs(end->Failed_0, status@) && (trimmed(logs@).len() > 0
                ==> occurs(end->Failed_0, logs@))
        }),
{
    let front = "project qemu process exited before guest readiness: "@;
    let m = with_logs(front + status@, logs@);
    super::guest::waits_are_told(front + status@, 0, Seq::empty(), logs@);
    assert(occurs(m, status@)) by {
        let rest = m.skip((front + status@).len() as int);
        crate::text::middle_occurs(front, status@, rest);
        assert(m =~= front + status@ + rest);
    }
}

/// A wait is told of when it is time to, and not before; the next time is five seconds
/// later.
pub proof fn waits_are_told_when_due(
    next_progress_ms: u64,
    failure: Seq<char>,
    elapsed_ms: u64,
)
    ensures
        ({
            let told = project_wait_told(
                next_progress_ms,
                ProjectWaitModel::Report(failure),
                WaitEvent::Elapsed(elapsed_ms),
            );
            let job = job_wait_told(
                next_progress_ms,
                JobWaitModel::Report(failure),
                WaitEvent::Elapsed(elapsed_ms),
            );
            &&& told is Some <==> elapsed_ms >= next_progress_ms
            &&& job is Some <==> elapsed_ms >= next_progress_ms
            &&& told is Some ==> occurs(told->0, failure) && occurs(told->0, "project microvm"@)
            &&& job is Some ==> occurs(job->0, failure) && occurs(job->0, "microvm"@)
            &&& next_progress_ms <= 1_000_000_000_000 ==> progress_after(next_progress_ms, told)
                == if told is Some {
                next_progress_ms + 5_000
            } else {
                next_progress_ms as int
            }
        }),
{
    let none = Seq::<char>::empty();
    super::guest::waits_are_told("project microvm"@, elapsed_ms, failure, none);
    super::guest::waits_are_told("microvm"@, elapsed_ms, failure, none);
    let time = crate::text::decimal(elapsed_ms as nat / 1_000);
    let a = wait_note("project microvm"@, elapsed_ms, failure);
    let b = wait_note("microvm"@, elapsed_ms, failure);
    crate::text::middle_occurs(
        "waiting for "@ + "project microvm"@ + " guest readiness for "@ + time
            + "s; last probe: "@,
        failure,
        none,
    );
    assert(a =~= "waiting for "@ + "project microvm"@ + " guest readiness for "@ + time
        + "s; last probe: "@ + failure + none);
    crate::text::middle_occurs(
        "waiting for "@ + "microvm"@ + " guest readiness for "@ + time + "s; last probe: "@,
        failure,
        none,
    );
    assert(b =~= "waiting for "@ + "microvm"@ + " guest readiness for "@ + time
        + "s; last probe: "@ + failure + none);
}

/// A wait for the guest of a job: an emulator that ended fails it, and so does the end of
/// the time; else the guest is asked, for five seconds at most and no longer than there
/// is time. One that answers is ready after its first boot, which may take thirty
/// seconds; one that does not is asked again after two.
pub proof fn job_guest_is_waited_for(
    deadline_ms: u64,
    logs: Seq<Seq<char>>,
    status: String,
    elapsed_ms: u64,
    limit: int,
    failure: String,
    later_ms: u64,
)
    ensures
        job_wait_after(
            deadline_ms,
            logs,
            JobWaitModel::Poll,
            WaitEvent::Polled { exit: Some(status), elapsed_ms },
        ) matches JobWaitModel::Failed(m) && occurs(m, status@),
        elapsed_ms >= deadline_ms ==> (job_wait_after(
            deadline_ms,
            logs,
            JobWaitModel::Poll,
            WaitEvent::Polled { exit: None, elapsed_ms },
        ) is Failed),
        elapsed_ms < deadline_ms ==> job_wait_after(
            deadline_ms,
            logs,
            JobWaitModel::Poll,
            WaitEvent::Polled { exit: None, elapsed_ms },
        ) == JobWaitModel::Probe(
            if deadline_ms - elapsed_ms < 5_000 {
                deadline_ms - elapsed_ms
            } else {
                5_000
            },
        ),
        ({
            let boot = job_wait_after(
                deadline_ms,
                logs,
                JobWaitModel::Probe(limit),
                WaitEvent::Probed(Ok(())),
            );
            &&& boot == (JobWaitModel::AwaitBoot { limit_ms: 30_000 })
            &&& job_wait_after(deadline_ms, logs, boot, WaitEvent::Done) == JobWaitModel::Ready
        }),
        ({
            let report = job_wait_after(
                deadline_ms,
                logs,
                JobWaitModel::Probe(limit),
                WaitEvent::Probed(Err(failure)),
            );
            let pause = job_wait_after(deadline_ms, logs, report, WaitEvent::Elapsed(later_ms));
            &&& report == JobWaitModel::Report(failure@)
            &&& pause == (JobWaitModel::Pause { ms: 2_000 })
            &&& job_wait_after(deadline_ms, logs, pause, WaitEvent::Done) == JobWaitModel::Poll
        }),
{
    super::qemu::early_end_is_told(status@, joined(logs, "\n"@));
}

/// A wait for a first boot asks for its status, for ten seconds at most, while there is
/// time; a boot that is done or failed ends it, and any other answer is followed by a
/// pause of five seconds and another look at the clock.
pub proof fn first_boot_is_waited_for(
    deadline_ms: u64,
    next_progress_ms: u64,
    elapsed_ms: u64,
    report: Result<String, String>,
    limit_ms: u64,
    ms: u64,
)
    ensures
        elapsed_ms < deadline_ms ==> boot_phase_after(
            deadline_ms,
            next_progress_ms,
            BootPhase::CheckTime,
            BootEvent::Elapsed(elapsed_ms),
        ) == (BootPhase::AskStatus { limit_ms: 10_000 }),
        elapsed_ms >= deadline_ms ==> boot_phase_after(
            deadline_ms,
            next_progress_ms,
            BootPhase::CheckTime,
            BootEvent::Elapsed(elapsed_ms),
        ) == BootPhase::Over,
        ({
            let over = report matches Ok(text) && (super::guest::has_line(text@, "status: done"@)
                || super::guest::has_line(text@, "status: error"@));
            boot_phase_after(
                deadline_ms,
                next_progress_ms,
                BootPhase::AskStatus { limit_ms },
                BootEvent::Reported { report, elapsed_ms },
            ) == if over {
                BootPhase::Over
            } else {
                BootPhase::Pause { ms: 5_000 }
            }
        }),
        boot_phase_after(
            deadline_ms,
            next_progress_ms,
            BootPhase::Pause { ms },
            BootEvent::Done,
        ) == BootPhase::CheckTime,
        boot_phase_after(deadline_ms, next_progress_ms, BootPhase::Over, BootEvent::Done)
            == BootPhase::Over,
{
}

} // verus!

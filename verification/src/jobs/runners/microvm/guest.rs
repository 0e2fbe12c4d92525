//! The guest of a machine: how it is reached, waited for and put to work.
use vstd::prelude::*;
use vstd::string::*;

use crate::jobs::{
    is_timeout, job_result, result_of, summarize_command_output, summary, JobExecutionResult,
    ResultModel,
};
use crate::process::{CommandOutput, TimedCommand, TimedModel};
use crate::shell::{shell_join, shell_reads_back, shell_text, shell_words};
use crate::text::{
    append_decimal, begins_with, contains, decimal, ellipsized, lines, lines_of, lowered, no_texts,
    occurs, push_text, same, starts_with, text_of, texts, to_lower, to_decimal, trim, trimmed,
};

use super::qemu::{early_exit, RecentLogs};
use super::util::truncate_for_log;

verus! {

// ---------------------------------------------------------------------------
// Reaching the guest
// ---------------------------------------------------------------------------

/// The options that each connection to a guest is made with: no questions, no
/// memory of host keys, and a limit on how long connecting may take.
pub open spec fn common_options(connect_timeout_seconds: u64) -> Seq<Seq<char>> {
    seq![
        "-o"@,
        "BatchMode=yes"@,
        "-o"@,
        "ConnectTimeout="@ + decimal(connect_timeout_seconds as nat),
        "-o"@,
        "StrictHostKeyChecking=no"@,
        "-o"@,
        "UserKnownHostsFile=/dev/null"@,
        "-o"@,
        "GlobalKnownHostsFile=/dev/null"@,
        "-o"@,
        "LogLevel=ERROR"@,
    ]
}

/// Adds the options that each connection to a guest is made with.
pub fn add_common_ssh_options(args: &mut Vec<String>, connect_timeout_seconds: u64)
    ensures
        texts(final(args)@) == texts(old(args)@) + common_options(connect_timeout_seconds),
{
    let ghost before = texts(args@);
    push_text(args, "-o");
    push_text(args, "BatchMode=yes");
    push_text(args, "-o");
    let mut limit = "ConnectTimeout=".to_string();
    append_decimal(&mut limit, connect_timeout_seconds);
    push_text(args, limit.as_str());
    push_text(args, "-o");
    push_text(args, "StrictHostKeyChecking=no");
    push_text(args, "-o");
    push_text(args, "UserKnownHostsFile=/dev/null");
    push_text(args, "-o");
    push_text(args, "GlobalKnownHostsFile=/dev/null");
    push_text(args, "-o");
    push_text(args, "LogLevel=ERROR");
    proof {
        assert(texts(args@) =~= before + common_options(connect_timeout_seconds));
    }
}

/// The arguments of `ssh` that run a command in a guest.
pub open spec fn ssh_arguments(
    private_key: Seq<char>,
    ssh_port: u16,
    connect_timeout_seconds: u64,
    command: Seq<Seq<char>>,
) -> Seq<Seq<char>> {
    seq!["-i"@, private_key] + common_options(connect_timeout_seconds) + seq![
        "-p"@,
        decimal(ssh_port as nat),
        "statix@127.0.0.1"@,
    ] + command
}

fn ssh_front(private_key: &str, ssh_port: u16, connect_timeout_seconds: u64) -> (r: Vec<String>)
    ensures
        texts(r@) == seq!["-i"@, private_key@] + common_options(connect_timeout_seconds) + seq![
            "-p"@,
            decimal(ssh_port as nat),
            "statix@127.0.0.1"@,
        ],
{
    let mut r = no_texts();
    push_text(&mut r, "-i");
    push_text(&mut r, private_key);
    proof {
        assert(texts(r@) =~= seq!["-i"@, private_key@]);
    }
    add_common_ssh_options(&mut r, connect_timeout_seconds);
    let ghost front = texts(r@);
    push_text(&mut r, "-p");
    push_text(&mut r, to_decimal(ssh_port as u64).as_str());
    push_text(&mut r, "statix@127.0.0.1");
    proof {
        assert(texts(r@) =~= front + seq!["-p"@, decimal(ssh_port as nat), "statix@127.0.0.1"@]);
    }
    r
}

/// The arguments of `ssh` that run one command text in a guest.
pub fn ssh_command_args(
    private_key: &str,
    ssh_port: u16,
    connect_timeout_seconds: u64,
    command: &str,
) -> (r: Vec<String>)
    ensures
        texts(r@) == ssh_arguments(
            private_key@,
            ssh_port,
            connect_timeout_seconds,
            seq![command@],
        ),
{
    let mut r = ssh_front(private_key, ssh_port, connect_timeout_seconds);
    let ghost front = texts(r@);
    push_text(&mut r, command);
    proof {
        assert(texts(r@) =~= front + seq![command@]);
    }
    r
}

/// The arguments of `ssh` that find out whether a guest is ready.
pub fn probe_args(private_key: &str, ssh_port: u16) -> (r: Vec<String>)
    ensures
        texts(r@) == ssh_arguments(private_key@, ssh_port, 3, seq!["true"@]),
{
    ssh_command_args(private_key, ssh_port, 3, "true")
}

/// The arguments of `ssh` that wait for the first boot of a guest to finish.
#[verifier::rlimit(40)]
pub fn cloud_init_wait_args(private_key: &str, ssh_port: u16) -> (r: Vec<String>)
    ensures
        texts(r@) == ssh_arguments(
            private_key@,
            ssh_port,
            5,
            seq!["cloud-init"@, "status"@, "--wait"@],
        ),
{
    let mut r = ssh_front(private_key, ssh_port, 5);
    let ghost front = texts(r@);
    push_text(&mut r, "cloud-init");
    push_text(&mut r, "status");
    push_text(&mut r, "--wait");
    proof {
        assert(texts(r@) =~= front + seq!["cloud-init"@, "status"@, "--wait"@]);
    }
    r
}

/// The arguments of `ssh` that ask how far the first boot of a guest is.
pub fn cloud_init_status_args(private_key: &str, ssh_port: u16) -> (r: Vec<String>)
    ensures
        texts(r@) == ssh_arguments(
            private_key@,
            ssh_port,
            5,
            seq!["cloud-init status --long 2>&1 || true"@],
        ),
{
    ssh_command_args(private_key, ssh_port, 5, "cloud-init status --long 2>&1 || true")
}

/// The arguments of `scp` that bring a workspace into a guest.
pub open spec fn upload_arguments(
    private_key: Seq<char>,
    ssh_port: u16,
    workspace_tar: Seq<char>,
) -> Seq<Seq<char>> {
    seq!["-i"@, private_key] + common_options(5) + seq![
        "-P"@,
        decimal(ssh_port as nat),
        workspace_tar,
        "statix@127.0.0.1:/home/statix/workspace.tar.gz"@,
    ]
}

/// The arguments of `scp` that bring a workspace into a guest.
pub fn upload_args(private_key: &str, ssh_port: u16, workspace_tar: &str) -> (r: Vec<String>)
    ensures
        texts(r@) == upload_arguments(private_key@, ssh_port, workspace_tar@),
{
    let mut r = no_texts();
    push_text(&mut r, "-i");
    push_text(&mut r, private_key);
    proof {
        assert(texts(r@) =~= seq!["-i"@, private_key@]);
    }
    add_common_ssh_options(&mut r, 5);
    let ghost front = texts(r@);
    push_text(&mut r, "-P");
    push_text(&mut r, to_decimal(ssh_port as u64).as_str());
    push_text(&mut r, workspace_tar);
    push_text(&mut r, "statix@127.0.0.1:/home/statix/workspace.tar.gz");
    proof {
        assert(texts(r@) =~= front + seq![
            "-P"@,
            decimal(ssh_port as nat),
            workspace_tar@,
            "statix@127.0.0.1:/home/statix/workspace.tar.gz"@,
        ]);
    }
    r
}

/// How long a probe of a guest may take, in milliseconds.
pub const PROBE_LIMIT_MS: u64 = 5_000;

/// The command that finds out whether a guest is ready.
pub fn probe_command(private_key: &str, ssh_port: u16, limit_ms: u64) -> (r: TimedCommand)
    ensures
        r@ == (TimedModel {
            program: "ssh"@,
            args: ssh_arguments(private_key@, ssh_port, 3, seq!["true"@]),
            limit_ms: limit_ms as int,
        }),
{
    TimedCommand { program: "ssh", args: probe_args(private_key, ssh_port), limit_ms }
}

/// The command that waits for the first boot of a guest to finish.
pub fn boot_wait_command(private_key: &str, ssh_port: u16, limit_ms: u64) -> (r: TimedCommand)
    ensures
        r@ == (TimedModel {
            program: "ssh"@,
            args: ssh_arguments(
                private_key@,
                ssh_port,
                5,
                seq!["cloud-init"@, "status"@, "--wait"@],
            ),
            limit_ms: limit_ms as int,
        }),
{
    TimedCommand { program: "ssh", args: cloud_init_wait_args(private_key, ssh_port), limit_ms }
}

/// The command that asks how far the first boot of a guest is.
pub fn boot_status_command(private_key: &str, ssh_port: u16, limit_ms: u64) -> (r: TimedCommand)
    ensures
        r@ == (TimedModel {
            program: "ssh"@,
            args: ssh_arguments(
                private_key@,
                ssh_port,
                5,
                seq!["cloud-init status --long 2>&1 || true"@],
            ),
            limit_ms: limit_ms as int,
        }),
{
    TimedCommand { program: "ssh", args: cloud_init_status_args(private_key, ssh_port), limit_ms }
}

/// The command that runs a command text in a guest.
pub fn ssh_command(private_key: &str, ssh_port: u16, command: &str, limit_ms: u64) -> (r:
    TimedCommand)
    ensures
        r@ == (TimedModel {
            program: "ssh"@,
            args: ssh_arguments(private_key@, ssh_port, 5, seq![command@]),
            limit_ms: limit_ms as int,
        }),
{
    TimedCommand {
        program: "ssh",
        args: ssh_command_args(private_key, ssh_port, 5, command),
        limit_ms,
    }
}

/// The command that brings a workspace into a guest.
pub fn upload_command(private_key: &str, ssh_port: u16, workspace_tar: &str, limit_ms: u64) -> (r:
    TimedCommand)
    ensures
        r@ == (TimedModel {
            program: "scp"@,
            args: upload_arguments(private_key@, ssh_port, workspace_tar@),
            limit_ms: limit_ms as int,
        }),
{
    TimedCommand {
        program: "scp",
        args: upload_args(private_key, ssh_port, workspace_tar),
        limit_ms,
    }
}

/// What is said where a command text ran for too long in a guest.
pub fn ssh_timeout_message(limit_ms: u64) -> (r: String)
    ensures
        r@ == "microvm ssh command timed out after "@ + decimal(limit_ms as nat / 1_000)
            + " seconds"@,
{
    let mut r = "microvm ssh command timed out after ".to_string();
    append_decimal(&mut r, limit_ms / 1_000);
    r.append(" seconds");
    r
}

// ---------------------------------------------------------------------------
// Is it ready?
// ---------------------------------------------------------------------------

/// Whether what a probe wrote says nothing about why it failed.
pub open spec fn says_nothing(stderr: Seq<char>) -> bool {
    stderr.len() == 0 || begins_with(stderr, "Warning: Permanently added "@)
}

/// Whether what a probe wrote says nothing about why it failed.
pub fn readiness_stderr_is_non_actionable(stderr: &str) -> (r: bool)
    ensures
        r == says_nothing(stderr@),
{
    stderr.is_empty() || starts_with(stderr, "Warning: Permanently added ")
}

/// What is said of a probe that failed.
pub open spec fn probe_failure(
    code: Option<i32>,
    status: Seq<char>,
    stderr: Seq<char>,
) -> Seq<char> {
    let e = trimmed(stderr);
    if code == Some(1i32) && says_nothing(e) {
        "ssh is reachable; waiting for cloud-init boot-finished marker"@
    } else if e.len() == 0 {
        "ssh readiness probe exited with "@ + status
    } else {
        "ssh readiness probe exited with "@ + status + ": "@ + ellipsized(e, 240)
    }
}

/// What is said of a probe that failed, given the text that it wrote.
pub fn probe_failure_message(code: Option<i32>, status: &str, stderr: &str) -> (r: String)
    ensures
        r@ == probe_failure(code, status@, stderr@),
{
    let e = trim(stderr);
    let is_one = match code {
        Some(c) => c == 1,
        None => false,
    };
    if is_one && readiness_stderr_is_non_actionable(e.as_str()) {
        return "ssh is reachable; waiting for cloud-init boot-finished marker".to_string();
    }
    let mut r = "ssh readiness probe exited with ".to_string();
    r.append(status);
    if !e.as_str().is_empty() {
        r.append(": ");
        r.append(truncate_for_log(e.as_str(), 240).as_str());
    }
    r
}

/// What is said of a probe that failed.
pub fn readiness_probe_failure(code: Option<i32>, output: &CommandOutput) -> (r: String)
    ensures
        r@ == probe_failure(code, output.status@, output.err()),
{
    let err = output.stderr_text();
    probe_failure_message(code, output.status.as_str(), err.as_str())
}

/// How a probe ended.
#[derive(Debug)]
pub enum ProbeOutcome {
    Exited { code: Option<i32>, output: CommandOutput },
    NotLaunched(String),
    TimedOut,
}

/// Whether a probe found the guest ready, and what is said if not.
pub open spec fn probe_verdict(outcome: ProbeOutcome) -> Result<(), Seq<char>> {
    match outcome {
        ProbeOutcome::Exited { code, output } => if output.success {
            Ok(())
        } else {
            Err(probe_failure(code, output.status@, output.err()))
        },
        ProbeOutcome::NotLaunched(error) => Err(
            "failed to launch ssh readiness probe: "@ + error@,
        ),
        ProbeOutcome::TimedOut => Err("ssh readiness probe timed out"@),
    }
}

/// Whether a probe found the guest ready, and what is said if not.
pub fn judge_probe(outcome: &ProbeOutcome) -> (r: Result<(), String>)
    ensures
        match r {
            Ok(_) => probe_verdict(*outcome) == Ok::<(), Seq<char>>(()),
            Err(e) => probe_verdict(*outcome) == Err::<(), Seq<char>>(e@),
        },
{
    match outcome {
        ProbeOutcome::Exited { code, output } => {
            if output.success {
                Ok(())
            } else {
                Err(readiness_probe_failure(*code, output))
            }
        },
        ProbeOutcome::NotLaunched(error) => {
            let mut e = "failed to launch ssh readiness probe: ".to_string();
            e.append(error.as_str());
            Err(e)
        },
        ProbeOutcome::TimedOut => Err("ssh readiness probe timed out".to_string()),
    }
}

// ---------------------------------------------------------------------------
// Waiting for the guest
// ---------------------------------------------------------------------------

/// A wait for a guest: when it ends, and when its progress is told next; both in
/// milliseconds since it began.
#[derive(Debug)]
pub struct GuestWait {
    pub deadline_ms: u64,
    pub next_progress_ms: u64,
}

/// What a wait does next.
#[derive(Debug)]
pub enum WaitStep {
    Fail(String),
    Probe { limit_ms: u64 },
}

/// The lesser of two numbers.
pub open spec fn lesser(a: int, b: int) -> int {
    if a <= b {
        a
    } else {
        b
    }
}

/// What is left of a wait.
pub open spec fn time_left(deadline_ms: u64, elapsed_ms: u64) -> int {
    if elapsed_ms >= deadline_ms {
        0
    } else {
        deadline_ms - elapsed_ms
    }
}

/// What is told of a wait that goes on.
pub open spec fn wait_note(
    subject: Seq<char>,
    elapsed_ms: u64,
    last_probe: Seq<char>,
) -> Seq<char> {
    "waiting for "@ + subject + " guest readiness for "@ + decimal(elapsed_ms as nat / 1_000)
        + "s; last probe: "@ + last_probe
}

/// A report of the emulator's logs behind a message, where there are any.
pub open spec fn with_logs(message: Seq<char>, logs: Seq<char>) -> Seq<char> {
    if trimmed(logs).len() == 0 {
        message
    } else {
        message + "\nrecent qemu logs:\n"@ + logs
    }
}

fn add_logs(message: &str, logs: &str) -> (r: String)
    ensures
        r@ == with_logs(message@, logs@),
{
    let mut r = message.to_owned();
    let t = trim(logs);
    if !t.as_str().is_empty() {
        r.append("\nrecent qemu logs:\n");
        r.append(logs);
    }
    r
}

impl GuestWait {
    /// A wait for the guest of a job, whose progress is told after fifteen
    /// seconds.
    pub fn for_job(timeout_seconds: u64) -> (r: Self)
        requires
            is_timeout(timeout_seconds),
        ensures
            r.deadline_ms == timeout_seconds * 1_000,
            r.next_progress_ms == 15_000,
    {
        GuestWait { deadline_ms: timeout_seconds * 1_000, next_progress_ms: 15_000 }
    }

    /// A wait for the guest of a project, whose progress is told after five
    /// seconds.
    pub fn for_project(timeout_seconds: u64) -> (r: Self)
        requires
            is_timeout(timeout_seconds),
        ensures
            r.deadline_ms == timeout_seconds * 1_000,
            r.next_progress_ms == 5_000,
    {
        GuestWait { deadline_ms: timeout_seconds * 1_000, next_progress_ms: 5_000 }
    }

    /// What a wait for the guest of a job does next: it fails where the emulator
    /// has ended or the time is up, else it probes the guest.
    pub fn next_step(&self, exit: Option<&str>, logs: &RecentLogs, elapsed_ms: u64) -> (r: WaitStep)
        ensures
            match exit {
                Some(status) => r matches WaitStep::Fail(e) && e@ == early_exit(
                    status@,
                    crate::text::joined(texts(logs.lines@), "\n"@),
                ),
                None => if elapsed_ms >= self.deadline_ms {
                    r matches WaitStep::Fail(e) && e@
                        == "microvm did not become ready before timeout"@
                } else {
                    r matches WaitStep::Probe { limit_ms } && limit_ms == lesser(
                        time_left(self.deadline_ms, elapsed_ms),
                        5_000,
                    )
                },
            },
    {
        if let Some(status) = exit {
            return WaitStep::Fail(logs.failure_message(status));
        }
        if elapsed_ms >= self.deadline_ms {
            return WaitStep::Fail("microvm did not become ready before timeout".to_string());
        }
        let left: u64 = self.deadline_ms - elapsed_ms;
        let limit_ms: u64 = if left <= 5_000 {
            left
        } else {
            5_000
        };
        WaitStep::Probe { limit_ms }
    }

    /// Whether a wait for the guest of a project is over, and how it failed; else
    /// the time that is left.
    pub fn check_deadline(&self, logs: &str, elapsed_ms: u64) -> (r: Result<u64, String>)
        ensures
            match r {
                Ok(left) => elapsed_ms < self.deadline_ms && left == time_left(
                    self.deadline_ms,
                    elapsed_ms,
                ),
                Err(e) => elapsed_ms >= self.deadline_ms && e@ == with_logs(
                    "project microvm did not become ready before timeout"@,
                    logs@,
                ),
            },
    {
        if elapsed_ms >= self.deadline_ms {
            Err(add_logs("project microvm did not become ready before timeout", logs))
        } else {
            Ok(self.deadline_ms - elapsed_ms)
        }
    }

    /// What is told after a probe that failed, if it is time to tell; the next
    /// report is due five seconds after this one was.
    pub fn tell(&mut self, subject: &str, elapsed_ms: u64, last_probe: &str) -> (r: Option<String>)
        ensures
            final(self).deadline_ms == old(self).deadline_ms,
            if elapsed_ms >= old(self).next_progress_ms {
                text_of(r) == Some(wait_note(subject@, elapsed_ms, last_probe@))
                    && final(self).next_progress_ms == lesser(
                    old(self).next_progress_ms + 5_000,
                    u64::MAX as int,
                )
            } else {
                r is None && final(self).next_progress_ms == old(self).next_progress_ms
            },
    {
        if elapsed_ms < self.next_progress_ms {
            return None;
        }
        let mut s = "waiting for ".to_string();
        s.append(subject);
        s.append(" guest readiness for ");
        append_decimal(&mut s, elapsed_ms / 1_000);
        s.append("s; last probe: ");
        s.append(last_probe);
        self.next_progress_ms = self.next_progress_ms.saturating_add(5_000);
        Some(s)
    }
}

/// What is said where the emulator of a project ended before its guest was
/// ready.
pub fn project_exit_failure(status: &str, logs: &str) -> (r: String)
    ensures
        r@ == with_logs(
            "project qemu process exited before guest readiness: "@ + status@,
            logs@,
        ),
{
    let mut m = "project qemu process exited before guest readiness: ".to_string();
    m.append(status);
    add_logs(m.as_str(), logs)
}

// ---------------------------------------------------------------------------
// Waiting for the first boot
// ---------------------------------------------------------------------------

/// Whether some line of a report is this line, white space around it aside.
pub open spec fn has_line(report: Seq<char>, line: Seq<char>) -> bool {
    exists|i: int|
        0 <= i < lines_of(report).len() && trimmed(#[trigger] lines_of(report)[i]) == line
}

fn holds_line(report: &str, line: &str) -> (r: bool)
    ensures
        r == has_line(report@, line@),
{
    let all = lines(report);
    let ghost ls = lines_of(report@);
    let mut i: usize = 0;
    while i < all.len()
        invariant
            ls == lines_of(report@),
            ls == texts(all@),
            i <= all@.len(),
            forall|j: int| 0 <= j < i ==> trimmed(#[trigger] ls[j]) != line@,
        decreases all@.len() - i,
    {
        let t = trim(all[i].as_str());
        proof {
            assert(ls[i as int] == all@[i as int]@);
        }
        if same(t.as_str(), line) {
            return true;
        }
        i += 1;
    }
    false
}

/// Whether the first boot is reported as done.
pub fn cloud_init_status_is_done(status: &str) -> (r: bool)
    ensures
        r == has_line(status@, "status: done"@),
{
    holds_line(status, "status: done")
}

/// Whether the first boot is reported as failed.
pub fn cloud_init_status_is_error(status: &str) -> (r: bool)
    ensures
        r == has_line(status@, "status: error"@),
{
    holds_line(status, "status: error")
}

/// A wait for the first boot of the guest of a project; in milliseconds since it
/// began.
#[derive(Debug)]
pub struct BootWait {
    pub deadline_ms: u64,
    pub next_progress_ms: u64,
}

/// What a wait for the first boot does next, and what it tells.
#[derive(Debug)]
pub enum BootStep {
    /// The wait is over.
    Stop(String),
    /// The wait goes on.
    Wait(Option<String>),
}

pub enum BootStepModel {
    Stop(Seq<char>),
    Wait(Option<Seq<char>>),
}

impl View for BootStep {
    type V = BootStepModel;

    open spec fn view(&self) -> BootStepModel {
        match self {
            BootStep::Stop(s) => BootStepModel::Stop(s@),
            BootStep::Wait(s) => BootStepModel::Wait(text_of(*s)),
        }
    }
}

/// What is told of a first boot that goes on.
pub open spec fn boot_note(elapsed_ms: u64, report: Result<Seq<char>, Seq<char>>) -> Seq<char> {
    let front = "waiting for cloud-init for "@ + decimal(elapsed_ms as nat / 1_000);
    match report {
        Ok(status) => front + "s: "@ + ellipsized(trimmed(status), 500),
        Err(error) => front + "s; status check failed: "@ + error,
    }
}

/// What a wait for the first boot does after a report: it ends where the boot is
/// done or has failed.
pub open spec fn boot_step(
    report: Result<Seq<char>, Seq<char>>,
    elapsed_ms: u64,
    next_progress_ms: u64,
) -> BootStepModel {
    if report is Ok && has_line(report->Ok_0, "status: done"@) {
        BootStepModel::Stop("cloud-init finished"@)
    } else if report is Ok && has_line(report->Ok_0, "status: error"@) {
        BootStepModel::Stop(
            "cloud-init reported an error; continuing after SSH readiness: "@ + ellipsized(
                trimmed(report->Ok_0),
                500,
            ),
        )
    } else if elapsed_ms >= next_progress_ms {
        BootStepModel::Wait(Some(boot_note(elapsed_ms, report)))
    } else {
        BootStepModel::Wait(None)
    }
}

/// What a report says.
pub open spec fn report_of(report: Result<String, String>) -> Result<Seq<char>, Seq<char>> {
    match report {
        Ok(s) => Ok(s@),
        Err(s) => Err(s@),
    }
}

impl BootWait {
    /// A wait for as long as the guest may still take, but five minutes at most.
    pub fn new(remaining_ms: u64) -> (r: Self)
        ensures
            r.deadline_ms == lesser(remaining_ms as int, 300_000),
            r.next_progress_ms == 0,
    {
        let deadline_ms: u64 = if remaining_ms <= 300_000 {
            remaining_ms
        } else {
            300_000
        };
        BootWait { deadline_ms, next_progress_ms: 0 }
    }

    /// What is told where the wait is over before the first boot is.
    pub fn out_of_time(&self, elapsed_ms: u64) -> (r: Option<String>)
        ensures
            text_of(r) == if elapsed_ms >= self.deadline_ms {
                Some(
                    "cloud-init did not finish before readiness wait budget; continuing after SSH readiness"@,
                )
            } else {
                None
            },
    {
        if elapsed_ms >= self.deadline_ms {
            Some(
                "cloud-init did not finish before readiness wait budget; continuing after SSH readiness".to_string(),
            )
        } else {
            None
        }
    }

    /// What the wait does after a report. Progress is told every fifteen seconds.
    pub fn after_report(&mut self, report: &Result<String, String>, elapsed_ms: u64) -> (r:
        BootStep)
        ensures
            r@ == boot_step(report_of(*report), elapsed_ms, old(self).next_progress_ms),
            final(self).deadline_ms == old(self).deadline_ms,
            final(self).next_progress_ms == if r@ matches BootStepModel::Wait(Some(_)) {
                lesser(old(self).next_progress_ms + 15_000, u64::MAX as int)
            } else {
                old(self).next_progress_ms as int
            },
    {
        if let Ok(status) = report {
            if cloud_init_status_is_done(status.as_str()) {
                return BootStep::Stop("cloud-init finished".to_string());
            }
            if cloud_init_status_is_error(status.as_str()) {
                let mut s =
                    "cloud-init reported an error; continuing after SSH readiness: ".to_string();
                let t = trim(status.as_str());
                s.append(truncate_for_log(t.as_str(), 500).as_str());
                return BootStep::Stop(s);
            }
        }
        if elapsed_ms < self.next_progress_ms {
            return BootStep::Wait(None);
        }
        let mut s = "waiting for cloud-init for ".to_string();
        append_decimal(&mut s, elapsed_ms / 1_000);
        match report {
            Ok(status) => {
                s.append("s: ");
                let t = trim(status.as_str());
                s.append(truncate_for_log(t.as_str(), 500).as_str());
            },
            Err(error) => {
                s.append("s; status check failed: ");
                s.append(error.as_str());
            },
        }
        self.next_progress_ms = self.next_progress_ms.saturating_add(15_000);
        BootStep::Wait(Some(s))
    }
}

/// How asking for the state of the first boot ended.
#[derive(Debug)]
pub enum StatusOutcome {
    Exited(CommandOutput),
    NotLaunched,
    TimedOut,
}

/// The report on the first boot, or why there is none. What the guest wrote counts,
/// however the command ended.
pub open spec fn status_report(outcome: StatusOutcome) -> Result<Seq<char>, Seq<char>> {
    match outcome {
        StatusOutcome::Exited(output) => Ok(output.out()),
        StatusOutcome::NotLaunched => Err("failed to check cloud-init status"@),
        StatusOutcome::TimedOut => Err("cloud-init status check timed out"@),
    }
}

/// The report on the first boot, or why there is none.
pub fn judge_status(outcome: &StatusOutcome) -> (r: Result<String, String>)
    ensures
        report_of(r) == status_report(*outcome),
{
    match outcome {
        StatusOutcome::Exited(output) => Ok(output.stdout_text()),
        StatusOutcome::NotLaunched => Err("failed to check cloud-init status".to_string()),
        StatusOutcome::TimedOut => Err("cloud-init status check timed out".to_string()),
    }
}

/// How the wait for the first boot of the guest of a job ended.
#[derive(Debug)]
pub enum BootOutcome {
    Exited { success: bool, status: String },
    NotLaunched(String),
    TimedOut,
}

/// What is warned of after the wait for the first boot of the guest of a job;
/// the job goes on in any case.
pub fn boot_warning(outcome: &BootOutcome) -> (r: Option<String>)
    ensures
        text_of(r) == match *outcome {
            BootOutcome::Exited { success, status } => if success {
                None
            } else {
                Some(
                    "cloud-init status wait exited with "@ + status@
                        + "; continuing after SSH readiness"@,
                )
            },
            BootOutcome::NotLaunched(error) => Some(
                "failed to check cloud-init status: "@ + error@ + "; continuing"@,
            ),
            BootOutcome::TimedOut => Some(
                "cloud-init status wait timed out; continuing after SSH readiness"@,
            ),
        },
{
    match outcome {
        BootOutcome::Exited { success, status } => {
            if *success {
                None
            } else {
                let mut s = "cloud-init status wait exited with ".to_string();
                s.append(status.as_str());
                s.append("; continuing after SSH readiness");
                Some(s)
            }
        },
        BootOutcome::NotLaunched(error) => {
            let mut s = "failed to check cloud-init status: ".to_string();
            s.append(error.as_str());
            s.append("; continuing");
            Some(s)
        },
        BootOutcome::TimedOut => Some(
            "cloud-init status wait timed out; continuing after SSH readiness".to_string(),
        ),
    }
}

// ---------------------------------------------------------------------------
// The emulator's logs
// ---------------------------------------------------------------------------

/// Whether a line of the emulator's logs is told to the owner of a job.
pub open spec fn is_useful(line: Seq<char>) -> bool {
    let l = lowered(trimmed(line));
    trimmed(line).len() > 0 && (occurs(l, "failed"@) || occurs(l, "error"@) || occurs(l, "panic"@)
        || occurs(l, "no space"@) || occurs(l, "cloud-init"@) || occurs(l, "login:"@) || occurs(
        l,
        "ubuntu "@,
    ) || occurs(l, "ssh"@) || occurs(l, "traceback"@) || occurs(l, "warn"@))
}

/// Whether a line of the emulator's logs is told to the owner of a job.
pub fn project_qemu_log_line_is_useful(line: &str) -> (r: bool)
    ensures
        r == is_useful(line@),
{
    let t = trim(line);
    if t.as_str().is_empty() {
        return false;
    }
    let lower = to_lower(t.as_str());
    let l = lower.as_str();
    contains(l, "failed") || contains(l, "error") || contains(l, "panic") || contains(
        l,
        "no space",
    ) || contains(l, "cloud-init") || contains(l, "login:") || contains(l, "ubuntu ") || contains(
        l,
        "ssh",
    ) || contains(l, "traceback") || contains(l, "warn")
}

/// What is told of the first `n` lines of a log.
pub open spec fn told_lines(label: Seq<char>, lines: Seq<Seq<char>>, n: nat) -> Seq<Seq<char>>
    decreases n,
{
    if n == 0 {
        Seq::empty()
    } else {
        let init = told_lines(label, lines, (n - 1) as nat);
        if is_useful(lines[n - 1]) {
            init.push("["@ + label + "] "@ + ellipsized(lines[n - 1], 1_000))
        } else {
            init
        }
    }
}

/// What is told of the new part of a log.
pub fn new_log_lines(label: &str, contents: &str) -> (r: Vec<String>)
    ensures
        texts(r@) == told_lines(label@, lines_of(contents@), lines_of(contents@).len()),
{
    let all = lines(contents);
    let ghost ls = lines_of(contents@);
    let mut r = no_texts();
    let mut i: usize = 0;
    while i < all.len()
        invariant
            ls == texts(all@),
            i <= all@.len(),
            texts(r@) == told_lines(label@, ls, i as nat),
        decreases all@.len() - i,
    {
        proof {
            assert(ls[i as int] == all@[i as int]@);
        }
        if project_qemu_log_line_is_useful(all[i].as_str()) {
            let mut s = "[".to_string();
            s.append(label);
            s.append("] ");
            s.append(truncate_for_log(all[i].as_str(), 1_000).as_str());
            push_text(&mut r, s.as_str());
        }
        i += 1;
    }
    r
}

/// How far the logs of the emulator have been told.
#[derive(Debug, Clone, Copy, PartialEq, Eq, Structural)]
pub struct ProjectQemuLogCursor {
    pub stderr_offset: u64,
    pub stdout_offset: u64,
    pub serial_offset: u64,
}

impl ProjectQemuLogCursor {
    /// Nothing has been told yet.
    pub fn new() -> (r: Self)
        ensures
            r == (ProjectQemuLogCursor { stderr_offset: 0, stdout_offset: 0, serial_offset: 0 }),
    {
        ProjectQemuLogCursor { stderr_offset: 0, stdout_offset: 0, serial_offset: 0 }
    }

    /// What is told of the three logs, and how far they have then been told. Each
    /// is given by its length and its new part, where it can be read.
    pub fn emit_new(
        &mut self,
        stderr: Option<(u64, &str)>,
        stdout: Option<(u64, &str)>,
        serial: Option<(u64, &str)>,
    ) -> (r: Vec<String>)
        ensures
            texts(r@) == log_told("qemu.stderr"@, stderr) + log_told("qemu.stdout"@, stdout)
                + log_told("qemu.serial"@, serial),
            *final(self) == (ProjectQemuLogCursor {
                stderr_offset: offset_after(old(self).stderr_offset, stderr),
                stdout_offset: offset_after(old(self).stdout_offset, stdout),
                serial_offset: offset_after(old(self).serial_offset, serial),
            }),
    {
        let mut r = no_texts();
        let (stderr_offset, lines) = emit_new_project_qemu_log_lines(
            "qemu.stderr",
            self.stderr_offset,
            stderr,
        );
        add_all(&mut r, &lines);
        let (stdout_offset, lines) = emit_new_project_qemu_log_lines(
            "qemu.stdout",
            self.stdout_offset,
            stdout,
        );
        add_all(&mut r, &lines);
        let (serial_offset, lines) = emit_new_project_qemu_log_lines(
            "qemu.serial",
            self.serial_offset,
            serial,
        );
        add_all(&mut r, &lines);
        self.stderr_offset = stderr_offset;
        self.stdout_offset = stdout_offset;
        self.serial_offset = serial_offset;
        proof {
            assert(texts(r@) =~= log_told("qemu.stderr"@, stderr) + log_told("qemu.stdout"@, stdout)
                + log_told("qemu.serial"@, serial));
        }
        r
    }
}

/// What is told of a log, given by its length and its new part.
pub open spec fn log_told(label: Seq<char>, read: Option<(u64, &str)>) -> Seq<Seq<char>> {
    match read {
        Some((_, contents)) => told_lines(
            label,
            lines_of(contents@),
            lines_of(contents@).len(),
        ),
        None => Seq::empty(),
    }
}

/// How far a log has then been told; one that cannot be read is tried again from
/// where it was.
pub open spec fn offset_after(offset: u64, read: Option<(u64, &str)>) -> u64 {
    match read {
        Some((len, _)) => len,
        None => offset,
    }
}

fn add_all(v: &mut Vec<String>, more: &Vec<String>)
    ensures
        texts(final(v)@) == texts(old(v)@) + texts(more@),
{
    let ghost before = texts(v@);
    let ghost all = texts(more@);
    let mut i: usize = 0;
    proof {
        assert(texts(v@) =~= before + all.take(0));
    }
    while i < more.len()
        invariant
            all == texts(more@),
            i <= more@.len(),
            texts(v@) == before + all.take(i as int),
        decreases more@.len() - i,
    {
        push_text(v, more[i].as_str());
        proof {
            assert(all[i as int] == more@[i as int]@);
            assert(texts(v@) =~= before + all.take(i + 1));
        }
        i += 1;
    }
    proof {
        assert(all.take(i as int) =~= all);
    }
}

/// Where the new part of a log begins: a log that has become shorter has none.
pub fn log_start(offset: u64, len: u64) -> (r: u64)
    ensures
        r == lesser(offset as int, len as int),
{
    if offset <= len {
        offset
    } else {
        len
    }
}

/// What is told of a log, and how far it has then been told. `read` holds the
/// length of the log and its new part; a log that cannot be read is tried again
/// from where it was.
pub fn emit_new_project_qemu_log_lines(
    label: &str,
    offset: u64,
    read: Option<(u64, &str)>,
) -> (r: (u64, Vec<String>))
    ensures
        r.0 == offset_after(offset, read),
        texts(r.1@) == log_told(label@, read),
{
    match read {
        Some((len, contents)) => (len, new_log_lines(label, contents)),
        None => (offset, no_texts()),
    }
}

// ---------------------------------------------------------------------------
// Putting the guest to work
// ---------------------------------------------------------------------------

/// What the guest is asked to do: to unpack the workspace and run the command
/// in it.
pub open spec fn remote_text(command: Seq<Seq<char>>) -> Seq<char> {
    "if [ -f /home/statix/.cargo/env ]; then . /home/statix/.cargo/env; fi; mkdir -p /home/statix/workspace && tar -xzf /home/statix/workspace.tar.gz -C /home/statix/workspace && cd /home/statix/workspace && exec "@
        + shell_text(command)
}

/// What the guest is asked to do.
pub fn remote_command(command: &Vec<String>) -> (r: String)
    ensures
        r@ == remote_text(texts(command@)),
{
    let mut r =
        "if [ -f /home/statix/.cargo/env ]; then . /home/statix/.cargo/env; fi; mkdir -p /home/statix/workspace && tar -xzf /home/statix/workspace.tar.gz -C /home/statix/workspace && cd /home/statix/workspace && exec ".to_string();
    r.append(shell_join(command).as_str());
    r
}

/// The command text that is sent to the guest.
pub open spec fn sent_text(command: Seq<Seq<char>>) -> Seq<char> {
    shell_text(seq!["sh"@, "-lc"@, remote_text(command)])
}

/// The command text that is sent to the guest.
pub fn guest_ssh_command(command: &Vec<String>) -> (r: String)
    ensures
        r@ == sent_text(texts(command@)),
{
    let remote = remote_command(command);
    let mut words = no_texts();
    push_text(&mut words, "sh");
    push_text(&mut words, "-lc");
    push_text(&mut words, remote.as_str());
    proof {
        assert(texts(words@) =~= seq!["sh"@, "-lc"@, remote_text(texts(command@))]);
    }
    shell_join(&words)
}

/// The guest's shell hands another shell what the guest is asked to do, as one
/// word.
pub proof fn guest_gets_what_was_asked(command: Seq<Seq<char>>)
    ensures
        shell_words(sent_text(command)) == Some(seq!["sh"@, "-lc"@, remote_text(command)]),
{
    shell_reads_back(seq!["sh"@, "-lc"@, remote_text(command)]);
}

/// How bringing the workspace into the guest ended.
#[derive(Debug)]
pub enum UploadOutcome {
    TimedOut,
    NotLaunched,
    Exited(CommandOutput),
}

/// What comes of it.
#[derive(Debug)]
pub enum UploadVerdict {
    /// The job cannot be run, for this reason.
    Error(String),
    /// The job failed, with a warning for the log.
    Failed(JobExecutionResult, String),
    /// The command is run.
    Proceed,
}

pub enum UploadVerdictModel {
    Error(Seq<char>),
    Failed(ResultModel, Seq<char>),
    Proceed,
}

impl View for UploadVerdict {
    type V = UploadVerdictModel;

    open spec fn view(&self) -> UploadVerdictModel {
        match self {
            UploadVerdict::Error(e) => UploadVerdictModel::Error(e@),
            UploadVerdict::Failed(r, w) => UploadVerdictModel::Failed(r@, w@),
            UploadVerdict::Proceed => UploadVerdictModel::Proceed,
        }
    }
}

/// What comes of bringing the workspace into the guest.
pub open spec fn upload_verdict(
    outcome: UploadOutcome,
    timeout_seconds: u64,
    workdir: Seq<char>,
) -> UploadVerdictModel {
    match outcome {
        UploadOutcome::TimedOut => UploadVerdictModel::Error(
            "microvm archive upload timed out after "@ + decimal(timeout_seconds as nat)
                + " seconds"@,
        ),
        UploadOutcome::NotLaunched => UploadVerdictModel::Error(
            "failed to upload workspace archive to microvm"@,
        ),
        UploadOutcome::Exited(output) => if output.success {
            UploadVerdictModel::Proceed
        } else {
            UploadVerdictModel::Failed(
                result_of(false, summary(workdir, output.out(), output.err())),
                "microvm workspace archive upload failed with "@ + output.status@,
            )
        },
    }
}

/// What comes of bringing the workspace into the guest.
pub fn judge_upload(
    outcome: &UploadOutcome,
    timeout_seconds: u64,
    workdir: &str,
) -> (r: UploadVerdict)
    ensures
        r@ == upload_verdict(*outcome, timeout_seconds, workdir@),
{
    match outcome {
        UploadOutcome::TimedOut => {
            let mut e = "microvm archive upload timed out after ".to_string();
            append_decimal(&mut e, timeout_seconds);
            e.append(" seconds");
            UploadVerdict::Error(e)
        },
        UploadOutcome::NotLaunched => UploadVerdict::Error(
            "failed to upload workspace archive to microvm".to_string(),
        ),
        UploadOutcome::Exited(output) => {
            if output.success {
                UploadVerdict::Proceed
            } else {
                let message = summarize_command_output(workdir, output);
                let mut w = "microvm workspace archive upload failed with ".to_string();
                w.append(output.status.as_str());
                UploadVerdict::Failed(job_result(false, message), w)
            }
        },
    }
}

/// What is logged of a command that ended in the guest.
pub open spec fn command_note(success: bool, status: Seq<char>, message: Seq<char>) -> Seq<char> {
    if success {
        "microvm command succeeded"@
    } else {
        "microvm command failed with "@ + status + "; output: "@ + ellipsized(message, 1_000)
    }
}

/// What comes of a job whose command ended in the guest, and what is logged of
/// it: a warning where it failed.
pub fn finish_guest_command(workdir: &str, output: &CommandOutput) -> (r: (
    JobExecutionResult,
    String,
))
    ensures
        r.0@ == result_of(output.success, summary(workdir@, output.out(), output.err())),
        r.1@ == command_note(
            output.success,
            output.status@,
            summary(workdir@, output.out(), output.err()),
        ),
{
    let message = summarize_command_output(workdir, output);
    let note = if output.success {
        "microvm command succeeded".to_string()
    } else {
        let mut s = "microvm command failed with ".to_string();
        s.append(output.status.as_str());
        s.append("; output: ");
        s.append(truncate_for_log(message.as_str(), 1_000).as_str());
        s
    };
    (job_result(output.success, message), note)
}

/// Why a command whose output is streamed gave no result.
#[derive(Debug, Clone, Copy, PartialEq, Eq, Structural)]
pub enum StreamFailure {
    NotRun,
    NoStdout,
    NoStderr,
    NotRead,
    StdoutLost,
    StderrLost,
    TimedOut,
}

impl StreamFailure {
    /// What the failure of a command that might take `timeout_seconds` says.
    pub open spec fn text(self, timeout_seconds: u64) -> Seq<char> {
        match self {
            StreamFailure::NotRun => "failed to execute command inside microvm"@,
            StreamFailure::NoStdout => "failed to capture microvm ssh stdout"@,
            StreamFailure::NoStderr => "failed to capture microvm ssh stderr"@,
            StreamFailure::NotRead => "failed to read streamed output from microvm ssh"@,
            StreamFailure::StdoutLost => "microvm stdout streaming task join failure"@,
            StreamFailure::StderrLost => "microvm stderr streaming task join failure"@,
            StreamFailure::TimedOut => "microvm command timed out after "@ + decimal(
                timeout_seconds as nat,
            ) + " seconds"@,
        }
    }

    /// What the failure says to a reader.
    pub fn message(self, timeout_seconds: u64) -> (r: String)
        ensures
            r@ == self.text(timeout_seconds),
    {
        match self {
            StreamFailure::NotRun => "failed to execute command inside microvm".to_string(),
            StreamFailure::NoStdout => "failed to capture microvm ssh stdout".to_string(),
            StreamFailure::NoStderr => "failed to capture microvm ssh stderr".to_string(),
            StreamFailure::NotRead => "failed to read streamed output from microvm ssh".to_string(),
            StreamFailure::StdoutLost => "microvm stdout streaming task join failure".to_string(),
            StreamFailure::StderrLost => "microvm stderr streaming task join failure".to_string(),
            StreamFailure::TimedOut => {
                let mut s = "microvm command timed out after ".to_string();
                append_decimal(&mut s, timeout_seconds);
                s.append(" seconds");
                s
            },
        }
    }
}

// ---------------------------------------------------------------------------
// What is sent and what is made of the answers
// ---------------------------------------------------------------------------

/// A command for a guest is sent with the key and through the port of its machine, to
/// the user of the guest; it stands behind all of that, as it was given.
pub proof fn commands_go_to_their_guest(
    private_key: Seq<char>,
    ssh_port: u16,
    connect_timeout_seconds: u64,
    command: Seq<Seq<char>>,
)
    ensures
        ({
            let args = ssh_arguments(private_key, ssh_port, connect_timeout_seconds, command);
            let n = args.len() - command.len();
            &&& args[0] == "-i"@ && args[1] == private_key
            &&& n >= 5 && args[n - 3] == "-p"@ && args[n - 2] == decimal(ssh_port as nat)
            &&& args[n - 1] == "statix@127.0.0.1"@
            &&& args.skip(n) == command
            &&& args.contains("ConnectTimeout="@ + decimal(connect_timeout_seconds as nat))
            &&& args.contains("BatchMode=yes"@)
        }),
{
    let args = ssh_arguments(private_key, ssh_port, connect_timeout_seconds, command);
    let n = args.len() - command.len();
    assert(args.skip(n) =~= command);
    assert(args[5] == "ConnectTimeout="@ + decimal(connect_timeout_seconds as nat));
    assert(args[3] == "BatchMode=yes"@);
}

/// The archive of the workspace goes to the same guest, with the same key and through the
/// same port, to the place that the command unpacks it from.
pub proof fn archive_goes_to_its_guest(
    private_key: Seq<char>,
    ssh_port: u16,
    workspace_tar: Seq<char>,
    command: Seq<Seq<char>>,
)
    ensures
        ({
            let args = upload_arguments(private_key, ssh_port, workspace_tar);
            let n = args.len() as int;
            let place = "/home/statix/workspace.tar.gz"@;
            &&& args[0] == "-i"@ && args[1] == private_key
            &&& n >= 6 && args[n - 4] == "-P"@ && args[n - 3] == decimal(ssh_port as nat)
            &&& args[n - 2] == workspace_tar
            &&& args[n - 1] == "statix@127.0.0.1:"@ + place
            &&& occurs(remote_text(command), "tar -xzf "@ + place + " "@)
        }),
{
    reveal_strlit("statix@127.0.0.1:/home/statix/workspace.tar.gz");
    reveal_strlit("statix@127.0.0.1:");
    reveal_strlit("/home/statix/workspace.tar.gz");
    reveal_strlit("tar -xzf ");
    reveal_strlit(" ");
    let place = "/home/statix/workspace.tar.gz"@;
    assert("statix@127.0.0.1:/home/statix/workspace.tar.gz"@ =~= "statix@127.0.0.1:"@ + place);
    reveal_strlit(
        "if [ -f /home/statix/.cargo/env ]; then . /home/statix/.cargo/env; fi; mkdir -p /home/statix/workspace && tar -xzf /home/statix/workspace.tar.gz -C /home/statix/workspace && cd /home/statix/workspace && exec ",
    );
    let front =
        "if [ -f /home/statix/.cargo/env ]; then . /home/statix/.cargo/env; fi; mkdir -p /home/statix/workspace && tar -xzf /home/statix/workspace.tar.gz -C /home/statix/workspace && cd /home/statix/workspace && exec "@;
    let needle = "tar -xzf "@ + place + " "@;
    assert(front.subrange(106, 106 + needle.len() as int) =~= needle);
    assert(crate::text::occurs_at(front, needle, 106));
    let none = Seq::<char>::empty();
    crate::text::part_occurs(none, front, crate::shell::shell_text(command), needle);
    assert(none + front + crate::shell::shell_text(command) =~= remote_text(command));
}

/// The last thing that a guest does for a job is to run the command, as it was given.
pub proof fn guest_runs_the_command_last(command: Seq<Seq<char>>)
    ensures
        ({
            let text = remote_text(command);
            let sent = crate::shell::shell_text(command);
            &&& text.skip(text.len() - sent.len()) == sent
            &&& crate::shell::shell_words(sent) == Some(command)
            &&& occurs(text, " && cd /home/statix/workspace && exec "@ + sent)
        }),
{
    let sent = crate::shell::shell_text(command);
    let text = remote_text(command);
    crate::shell::shell_reads_back(command);
    assert(text.skip(text.len() - sent.len()) =~= sent);
    reveal_strlit(
        "if [ -f /home/statix/.cargo/env ]; then . /home/statix/.cargo/env; fi; mkdir -p /home/statix/workspace && tar -xzf /home/statix/workspace.tar.gz -C /home/statix/workspace && cd /home/statix/workspace && exec ",
    );
    reveal_strlit(" && cd /home/statix/workspace && exec ");
    let needle = " && cd /home/statix/workspace && exec "@ + sent;
    let at = text.len() - needle.len();
    assert(text.subrange(at, at + needle.len()) =~= needle);
    assert(crate::text::occurs_at(text, needle, at));
}

/// A guest is ready exactly where the probe ran to its end with success; else the reason
/// is told, and what the probe said if that means anything.
pub proof fn only_an_answer_makes_a_guest_ready(outcome: ProbeOutcome)
    ensures
        probe_verdict(outcome) is Ok <==> (outcome matches ProbeOutcome::Exited { output, .. }
            && output.success),
        probe_verdict(outcome) is Err ==> probe_verdict(outcome)->Err_0.len() > 0,
        outcome matches ProbeOutcome::NotLaunched(error) ==> occurs(
            probe_verdict(outcome)->Err_0,
            error@,
        ),
{
    reveal_strlit("failed to launch ssh readiness probe: ");
    reveal_strlit("ssh readiness probe timed out");
    reveal_strlit("ssh is reachable; waiting for cloud-init boot-finished marker");
    reveal_strlit("ssh readiness probe exited with ");
    if let ProbeOutcome::NotLaunched(error) = outcome {
        let front = "failed to launch ssh readiness probe: "@;
        let none = Seq::<char>::empty();
        crate::text::middle_occurs(front, error@, none);
        assert(front + error@ + none =~= front + error@);
    }
}

/// What a failed probe says is told with its status, unless it only shows that the guest
/// is still booting.
#[verifier::rlimit(40)]
pub proof fn failed_probe_is_told(code: Option<i32>, status: Seq<char>, stderr: Seq<char>)
    ensures
        code != Some(1i32) ==> occurs(probe_failure(code, status, stderr), status),
        code != Some(1i32) && 0 < trimmed(stderr).len() <= 240 ==> occurs(
            probe_failure(code, status, stderr),
            trimmed(stderr),
        ),
        code == Some(1i32) && trimmed(stderr).len() == 0 ==> !occurs(
            probe_failure(code, status, stderr),
            "exited"@,
        ),
{
    let front = "ssh readiness probe exited with "@;
    let none = Seq::<char>::empty();
    let e = ellipsized(trimmed(stderr), 240);
    if code != Some(1i32) {
        if trimmed(stderr).len() == 0 {
            crate::text::middle_occurs(front, status, none);
            assert(front + status + none =~= front + status);
        } else {
            crate::text::middle_occurs(front, status, ": "@ + e);
            assert(front + status + (": "@ + e) =~= front + status + ": "@ + e);
            crate::text::middle_occurs(front + status + ": "@, e, none);
            assert(front + status + ": "@ + e + none =~= front + status + ": "@ + e);
        }
    }
    if code == Some(1i32) && trimmed(stderr).len() == 0 {
        let text = probe_failure(code, status, stderr);
        reveal_strlit("ssh is reachable; waiting for cloud-init boot-finished marker");
        reveal_strlit("exited");
        assert("exited"@[1] == 'x');
        if occurs(text, "exited"@) {
            let i = choose|i: int| crate::text::occurs_at(text, "exited"@, i);
            assert(text.subrange(i, i + 6)[1] == text[i + 1]);
            assert(text[i + 1] == 'x');
        }
    }
}

/// A first boot that is reported as done or as failed ends the wait for it; a report that
/// says neither, or none at all, does not.
pub proof fn only_a_finished_boot_ends_its_wait(
    report: Result<Seq<char>, Seq<char>>,
    elapsed_ms: u64,
    next_progress_ms: u64,
)
    ensures
        ({
            let step = boot_step(report, elapsed_ms, next_progress_ms);
            let done = report is Ok && exists|i: int|
                0 <= i < lines_of(report->Ok_0).len() && trimmed(
                    #[trigger] lines_of(report->Ok_0)[i],
                ) == "status: done"@;
            let failed = report is Ok && exists|i: int|
                0 <= i < lines_of(report->Ok_0).len() && trimmed(
                    #[trigger] lines_of(report->Ok_0)[i],
                ) == "status: error"@;
            &&& step is Stop <==> done || failed
            &&& done ==> step == BootStepModel::Stop("cloud-init finished"@)
            &&& !done && failed ==> step->Stop_0 != "cloud-init finished"@
            &&& !done && !failed ==> (step matches BootStepModel::Wait(line) && (line is Some
                <==> elapsed_ms >= next_progress_ms))
        }),
{
    reveal_strlit("cloud-init finished");
    reveal_strlit("cloud-init reported an error; continuing after SSH readiness: ");
    if report is Ok {
        let told = "cloud-init reported an error; continuing after SSH readiness: "@ + ellipsized(
            trimmed(report->Ok_0),
            500,
        );
        assert(told.len() > "cloud-init finished"@.len());
        assert(has_line(report->Ok_0, "status: done"@) == exists|i: int|
            0 <= i < lines_of(report->Ok_0).len() && trimmed(
                #[trigger] lines_of(report->Ok_0)[i],
            ) == "status: done"@);
        assert(has_line(report->Ok_0, "status: error"@) == exists|i: int|
            0 <= i < lines_of(report->Ok_0).len() && trimmed(
                #[trigger] lines_of(report->Ok_0)[i],
            ) == "status: error"@);
    }
}

/// What the status check of a guest wrote is its report, however the check ended; without
/// an end there is none.
pub proof fn status_is_reported(outcome: StatusOutcome)
    ensures
        outcome matches StatusOutcome::Exited(output) ==> status_report(outcome) == Ok::<
            Seq<char>,
            Seq<char>,
        >(output.out()),
        !(outcome is Exited) ==> status_report(outcome) is Err,
{
}

/// A command is run only where the workspace was brought in; where bringing it in ended
/// badly the job failed, and where it did not end the job has an error.
pub proof fn workspace_decides_what_is_next(
    outcome: UploadOutcome,
    timeout_seconds: u64,
    workdir: Seq<char>,
)
    ensures
        ({
            let verdict = upload_verdict(outcome, timeout_seconds, workdir);
            &&& verdict is Proceed <==> (outcome matches UploadOutcome::Exited(output)
                && output.success)
            &&& verdict is Failed <==> (outcome matches UploadOutcome::Exited(output)
                && !output.success)
            &&& verdict is Error <==> outcome is TimedOut || outcome is NotLaunched
            &&& verdict matches UploadVerdictModel::Failed(r, _) ==> r.status == "failed"@ && r.message
                is Some && begins_with(r.message->0, workdir)
            &&& outcome is TimedOut ==> occurs(verdict->Error_0, decimal(timeout_seconds as nat))
        }),
{
    if let UploadOutcome::Exited(output) = outcome {
        crate::jobs::summary_tells_both_outputs(workdir, output.out(), output.err());
        let all = summary(workdir, output.out(), output.err());
        reveal_strlit(": ");
        assert((workdir + ": "@).take(workdir.len() as int) =~= workdir);
        crate::text::prefix_of_prefix(all, workdir + ": "@, workdir);
    }
    if outcome is TimedOut {
        crate::text::middle_occurs(
            "microvm archive upload timed out after "@,
            decimal(timeout_seconds as nat),
            " seconds"@,
        );
    }
}

/// A line of a log is worth telling where it speaks of a failure, an error, a warning or
/// the boot of the guest, in whatever letters; nothing else is.
pub proof fn telling_lines_are_useful(line: Seq<char>, word: Seq<char>)
    requires
        word == "failed"@ || word == "error"@ || word == "panic"@ || word == "no space"@ || word
            == "cloud-init"@ || word == "login:"@ || word == "ubuntu "@ || word == "ssh"@ || word
            == "traceback"@ || word == "warn"@,
    ensures
        occurs(lowered(trimmed(line)), word) ==> is_useful(line),
        trimmed(line).len() == 0 ==> !is_useful(line),
        is_useful(line) ==> is_useful(lowered(line)) || trimmed(lowered(line)) != lowered(
            trimmed(line),
        ),
{
    reveal_strlit("failed");
    reveal_strlit("error");
    reveal_strlit("panic");
    reveal_strlit("no space");
    reveal_strlit("cloud-init");
    reveal_strlit("login:");
    reveal_strlit("ubuntu ");
    reveal_strlit("ssh");
    reveal_strlit("traceback");
    reveal_strlit("warn");
    crate::text::lowering_is_stable(trimmed(line));
}

/// A line that holds none of the telling words is not worth telling.
pub proof fn other_lines_are_not_useful(line: Seq<char>)
    requires
        forall|word: Seq<char>|
            word == "failed"@ || word == "error"@ || word == "panic"@ || word == "no space"@ || word
                == "cloud-init"@ || word == "login:"@ || word == "ubuntu "@ || word == "ssh"@
                || word == "traceback"@ || word == "warn"@ ==> !#[trigger] occurs(
                lowered(trimmed(line)),
                word,
            ),
    ensures
        !is_useful(line),
{
}

proof fn lemma_told_front(label: Seq<char>, lines: Seq<Seq<char>>, more: Seq<Seq<char>>, n: nat)
    requires
        n <= lines.len(),
    ensures
        told_lines(label, lines + more, n) == told_lines(label, lines, n),
    decreases n,
{
    if n > 0 {
        lemma_told_front(label, lines, more, (n - 1) as nat);
        assert((lines + more)[n - 1] == lines[n - 1]);
    }
}

/// The lines of a log are told in their order, under the name of the log: each one that
/// is useful, and no other.
pub proof fn useful_lines_are_told_in_order(
    label: Seq<char>,
    lines: Seq<Seq<char>>,
    line: Seq<char>,
)
    ensures
        ({
            let before = told_lines(label, lines, lines.len());
            let after = told_lines(label, lines.push(line), lines.len() + 1);
            &&& !is_useful(line) ==> after == before
            &&& is_useful(line) ==> after.len() == before.len() + 1 && after.drop_last() == before
            &&& is_useful(line) && line.len() <= 1_000 ==> after.last() == "["@ + label + "] "@
                + line
            &&& told_lines(label, lines, 0).len() == 0
        }),
{
    lemma_told_front(label, lines, seq![line], lines.len());
    assert(lines + seq![line] =~= lines.push(line));
    assert(lines.push(line)[lines.len() as int] == line);
    let before = told_lines(label, lines, lines.len());
    let after = told_lines(label, lines.push(line), lines.len() + 1);
    if is_useful(line) {
        assert(after.drop_last() =~= before);
    }
}

/// A log that was read is told from its new length on the next time; one that could not
/// be read, from where it was.
pub proof fn logs_are_told_once(label: Seq<char>, offset: u64, len: u64, contents: &str)
    ensures
        offset_after(offset, Some((len, contents))) == len,
        offset_after(offset, None) == offset,
        log_told(label, None).len() == 0,
        log_told(label, Some((len, contents))) == told_lines(
            label,
            lines_of(contents@),
            lines_of(contents@).len(),
        ),
{
}

/// What a wait is told of names what is waited for, for how long, and what the last probe
/// said; and logs stand behind a message where there are any.
#[verifier::rlimit(40)]
pub proof fn waits_are_told(subject: Seq<char>, elapsed_ms: u64, last_probe: Seq<char>, logs: Seq<char>)
    ensures
        ({
            let note = wait_note(subject, elapsed_ms, last_probe);
            &&& occurs(note, subject)
            &&& occurs(note, decimal(elapsed_ms as nat / 1_000) + "s; last probe: "@ + last_probe)
        }),
        begins_with(with_logs(subject, logs), subject),
        trimmed(logs).len() > 0 ==> occurs(with_logs(subject, logs), logs),
        trimmed(logs).len() == 0 ==> with_logs(subject, logs) == subject,
{
    let none = Seq::<char>::empty();
    let time = decimal(elapsed_ms as nat / 1_000);
    let note = wait_note(subject, elapsed_ms, last_probe);
    let mid = " guest readiness for "@;
    let end = time + "s; last probe: "@ + last_probe;
    crate::text::middle_occurs("waiting for "@, subject, mid + end);
    assert(note =~= "waiting for "@ + subject + (mid + end));
    crate::text::middle_occurs("waiting for "@ + subject + mid, end, none);
    assert(note =~= "waiting for "@ + subject + mid + end + none);
    assert(with_logs(subject, logs).take(subject.len() as int) =~= subject);
    if trimmed(logs).len() > 0 {
        crate::text::middle_occurs(subject + "\nrecent qemu logs:\n"@, logs, none);
        assert(with_logs(subject, logs) =~= subject + "\nrecent qemu logs:\n"@ + logs + none);
    }
}

/// What is left of a wait is never negative, and together with what has passed it makes
/// up the whole.
pub proof fn time_adds_up(deadline_ms: u64, elapsed_ms: u64)
    ensures
        elapsed_ms <= deadline_ms ==> time_left(deadline_ms, elapsed_ms) + elapsed_ms
            == deadline_ms,
        elapsed_ms > deadline_ms ==> time_left(deadline_ms, elapsed_ms) == 0,
        lesser(deadline_ms as int, elapsed_ms as int) <= deadline_ms,
        lesser(deadline_ms as int, elapsed_ms as int) <= elapsed_ms,
        lesser(deadline_ms as int, elapsed_ms as int) == deadline_ms || lesser(
            deadline_ms as int,
            elapsed_ms as int,
        ) == elapsed_ms,
{
}

/// What is told of a first boot says for how long it has been waited for, and what the
/// guest said of it or why nothing is known.
#[verifier::rlimit(40)]
pub proof fn boots_are_told(elapsed_ms: u64, said: Seq<char>)
    ensures
        begins_with(
            boot_note(elapsed_ms, Ok(said)),
            "waiting for cloud-init for "@ + decimal(elapsed_ms as nat / 1_000) + "s"@,
        ),
        begins_with(
            boot_note(elapsed_ms, Err(said)),
            "waiting for cloud-init for "@ + decimal(elapsed_ms as nat / 1_000) + "s"@,
        ),
        trimmed(said).len() <= 500 ==> occurs(boot_note(elapsed_ms, Ok(said)), trimmed(said)),
        occurs(boot_note(elapsed_ms, Err(said)), said),
{
    let none = Seq::<char>::empty();
    let front = "waiting for cloud-init for "@ + decimal(elapsed_ms as nat / 1_000);
    let a = boot_note(elapsed_ms, Ok(said));
    let b = boot_note(elapsed_ms, Err(said));
    reveal_strlit("s: ");
    reveal_strlit("s; status check failed: ");
    reveal_strlit("s");
    let whole = front + "s"@;
    assert(a.take(whole.len() as int) =~= whole);
    assert(b.take(whole.len() as int) =~= whole);
    let told = ellipsized(trimmed(said), 500);
    crate::text::middle_occurs(front + "s: "@, told, none);
    assert(a =~= front + "s: "@ + told + none);
    crate::text::middle_occurs(front + "s; status check failed: "@, said, none);
    assert(b =~= front + "s; status check failed: "@ + said + none);
}

/// What is told of a command says whether it succeeded, and of one that did not how it
/// ended and what it wrote.
pub proof fn command_end_is_told(status: Seq<char>, message: Seq<char>)
    ensures
        command_note(true, status, message) == "microvm command succeeded"@,
        occurs(command_note(false, status, message), status),
        message.len() <= 1_000 ==> occurs(command_note(false, status, message), message),
        command_note(false, status, message) != command_note(true, status, message),
{
    let none = Seq::<char>::empty();
    let front = "microvm command failed with "@;
    let told = ellipsized(message, 1_000);
    let note = command_note(false, status, message);
    reveal_strlit("microvm command succeeded");
    reveal_strlit("microvm command failed with ");
    assert(note.len() > "microvm command succeeded"@.len());
    assert(occurs(note, status)) by {
        crate::text::middle_occurs(front, status, "; output: "@ + told);
        assert(note =~= front + status + ("; output: "@ + told));
    }
    assert(occurs(note, told)) by {
        crate::text::middle_occurs(front + status + "; output: "@, told, none);
        assert(note =~= front + status + "; output: "@ + told + none);
    }
}

/// A probe whose marker is missing says only that the guest still boots, where ssh said
/// nothing or just that it made the acquaintance of the guest; anything else that ssh said
/// is told.
pub proof fn booting_guest_is_told_from_a_failing_one(
    status: Seq<char>,
    stderr: Seq<char>,
    back: Seq<char>,
)
    ensures
        trimmed(stderr) == "Warning: Permanently added "@ + back ==> probe_failure(
            Some(1i32),
            status,
            stderr,
        ) == probe_failure(Some(1i32), status, Seq::empty()),
        0 < trimmed(stderr).len() <= 240 && !begins_with(
            trimmed(stderr),
            "Warning: Permanently added "@,
        ) ==> occurs(probe_failure(Some(1i32), status, stderr), trimmed(stderr)) && occurs(
            probe_failure(Some(1i32), status, stderr),
            status,
        ),
{
    let none = Seq::<char>::empty();
    let known = "Warning: Permanently added "@;
    let front = "ssh readiness probe exited with "@;
    let e = trimmed(stderr);
    assert(trimmed(none) =~= none);
    if e == known + back {
        crate::text::parts_are_found(known, back, none);
    }
    if 0 < e.len() <= 240 && !begins_with(e, known) {
        let text = probe_failure(Some(1i32), status, stderr);
        crate::text::middle_occurs(front, status, ": "@ + e);
        assert(text =~= front + status + (": "@ + e));
        crate::text::middle_occurs(front + status + ": "@, e, none);
        assert(text =~= front + status + ": "@ + e + none);
    }
}

} // verus!

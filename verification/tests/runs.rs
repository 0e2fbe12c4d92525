use statix_agent::jobs::runners::container::image::ContainerImageError;
use statix_agent::jobs::runners::container::lifecycle::{
    ContainerRefusal, ContainerRun, ContainerStep,
};
use statix_agent::jobs::runners::container::{runner, ContainerRunner};
use statix_agent::jobs::runners::microvm::command::{
    guest_job_plan, GuestJobEvent, GuestJobRun, GuestJobStep, GuestNote,
};
use statix_agent::jobs::runners::microvm::guest::{guest_ssh_command, StreamFailure};
use statix_agent::jobs::runners::microvm::qemu::{
    qemu_launch_args, serves_ssh_port, RecentLogs,
};
use statix_agent::jobs::runners::microvm::runner::{MicrovmRun, MicrovmStep};
use statix_agent::jobs::runners::microvm::service::{
    ProjectEnd, ProjectEvent, ProjectJobRun, ProjectStep,
};
use statix_agent::jobs::runners::microvm::wait::{
    BootEvent, BootPhase, JobWait, JobWaitStep, ProjectBoot, ProjectWait, ProjectWaitStep,
    WaitEvent,
};
use statix_agent::jobs::runners::microvm::{MicrovmRunner, ProjectMicrovmRunner};
use statix_agent::jobs::{ExecutionContext, JobExecutionResult, RunError, StepEnd};
use statix_agent::logs::format::LogLevel;
use statix_agent::process::CommandOutput;

fn result(message: &str) -> JobExecutionResult {
    JobExecutionResult { status: "succeeded", message: Some(message.to_string()) }
}

fn context(timeout_seconds: u64) -> ExecutionContext {
    ExecutionContext {
        job_id: "j".to_string(),
        attempt_id: "a".to_string(),
        timeout_seconds,
    }
}

fn command() -> Vec<String> {
    vec!["true".to_string()]
}

type Handed = Option<Result<JobExecutionResult, &'static str>>;

fn says(handed: Handed) -> Option<Result<String, &'static str>> {
    handed.map(|r| r.map(|r| r.message.unwrap()))
}

/// Runs to the end; the step given by number fails, and what is done at the end
/// fails too where asked.
fn microvm(broken: Option<usize>, end_fails: bool) -> Handed {
    let mut run: MicrovmRun<&'static str> = MicrovmRun::new();
    let mut at = 0;
    while run.step != MicrovmStep::Finished {
        let end = if Some(at) == broken {
            StepEnd::Failed("broken")
        } else if run.step == MicrovmStep::ShutDown && end_fails {
            StepEnd::Failed("late")
        } else if run.step == MicrovmStep::RunCommand {
            StepEnd::Finished(result("command"))
        } else {
            StepEnd::Done
        };
        run = run.advance(end);
        at += 1;
    }
    run.result
}

#[test]
fn a_machine_run_hands_back_its_failure_or_its_command() {
    assert_eq!(says(microvm(None, false)), Some(Ok("command".to_string())));
    assert_eq!(says(microvm(None, true)), Some(Ok("command".to_string())));
    for broken in 0..10 {
        assert_eq!(says(microvm(Some(broken), false)), Some(Err("broken")), "{broken}");
        assert_eq!(says(microvm(Some(broken), true)), Some(Err("broken")), "{broken}");
    }
}

fn container(copy_first: bool, broken: Option<usize>, refused: bool) -> (Handed, bool) {
    let mut run: ContainerRun<&'static str> = ContainerRun::new(copy_first);
    let mut at = 0;
    let mut commanded = false;
    while run.step != ContainerStep::Finished {
        commanded = commanded || run.step == ContainerStep::RunCommand;
        let end = if Some(at) == broken {
            StepEnd::Failed("broken")
        } else if run.step == ContainerStep::PrepareGuest && refused {
            StepEnd::Finished(result("refused"))
        } else if run.step == ContainerStep::RunCommand {
            StepEnd::Finished(result("command"))
        } else {
            StepEnd::Done
        };
        run = run.advance(end);
        at += 1;
    }
    (run.result, commanded)
}

#[test]
fn a_container_run_hands_back_failure_refusal_or_command() {
    for copy_first in [true, false] {
        let (handed, commanded) = container(copy_first, None, false);
        assert_eq!((says(handed), commanded), (Some(Ok("command".to_string())), true));
        let (handed, commanded) = container(copy_first, None, true);
        assert_eq!((says(handed), commanded), (Some(Ok("refused".to_string())), false));
        for broken in 0..9 {
            assert_eq!(says(container(copy_first, Some(broken), false).0), Some(Err("broken")));
        }
    }
}

fn project(broken: Option<ProjectStep>) -> Handed {
    let mut job: ProjectJobRun<&'static str> = ProjectJobRun::new();
    while job.run.step != ProjectStep::Finished {
        let end = if Some(job.run.step) == broken {
            ProjectEnd::Failed("broken")
        } else {
            match job.run.step {
                ProjectStep::LookForRoot
                | ProjectStep::LookForKeys
                | ProjectStep::ProbeGuest { .. } => ProjectEnd::Found(ProjectEvent::Answer(true)),
                ProjectStep::InspectDisk => {
                    ProjectEnd::Found(ProjectEvent::Disk { exists: false, generation: None })
                }
                ProjectStep::EnsureNetwork => ProjectEnd::Failed("no network"),
                ProjectStep::RunCommand => ProjectEnd::Finished(result("command")),
                _ => ProjectEnd::Found(ProjectEvent::Done),
            }
        };
        job = job.advance(end);
    }
    job.result
}

#[test]
fn a_project_run_hands_back_its_failure_or_its_command() {
    assert_eq!(says(project(None)), Some(Err("no network")));
    assert_eq!(says(project(Some(ProjectStep::ResolveImage))), Some(Err("broken")));

    let mut job: ProjectJobRun<&'static str> = ProjectJobRun::new();
    job.run.step = ProjectStep::RunCommand;
    let job = job.advance(ProjectEnd::Finished(result("command")));
    assert_eq!(job.run.step, ProjectStep::RemoveArchive);
    let job = job.advance(ProjectEnd::Failed("late"));
    assert_eq!(job.run.step, ProjectStep::Finished);
    assert_eq!(says(job.result), Some(Ok("command".to_string())));
}

#[test]
fn runs_begin_only_where_they_can() {
    let vm = MicrovmRunner::new("i".to_string(), None, None);
    assert!(matches!(vm.begin::<()>(&context(0), &command(), "/s"), Err(RunError::BadTimeout)));
    assert!(matches!(vm.begin::<()>(&context(1), &vec![], "/s"), Err(RunError::EmptyCommand)));
    let (plan, run) = vm.begin::<()>(&context(1), &command(), "/s").unwrap();
    assert_eq!(plan.runtime_root, "/s/microvm/j/a");
    assert_eq!(run.step, MicrovmStep::CreateRoot);

    let project =
        ProjectMicrovmRunner::new("p".to_string(), "e".to_string(), "i".to_string(), None, None);
    assert!(matches!(
        project.begin::<()>(&context(3_601), &command(), "/s"),
        Err(RunError::BadTimeout)
    ));
    let (_, job) = project.begin::<()>(&context(3_600), &command(), "/s").unwrap();
    assert_eq!(job.run.step, ProjectStep::LookForRoot);

    let bad = ContainerRunner::new("ubuntu".to_string(), None, None);
    match bad.begin::<()>(&context(0), &command(), "/s") {
        Err(e) => assert_eq!(e, ContainerRefusal::Run(RunError::BadTimeout)),
        Ok(_) => panic!("begun"),
    }
    match bad.begin::<()>(&context(1), &command(), "/s") {
        Err(e) => {
            assert_eq!(e, ContainerRefusal::Image(ContainerImageError::Malformed));
            assert_eq!(
                e.message(),
                "container image must use distribution:release format, for example ubuntu:24.04"
            );
        }
        Ok(_) => panic!("begun"),
    }
    let first = ContainerRunner::new("ubuntu:24.04".to_string(), None, None);
    let (plan, run) = first.begin::<()>(&context(1), &command(), "/s").unwrap();
    assert_eq!(plan.name, "statix-a");
    assert!(run.copy_first);
    let second = runner::ContainerRunner::new("ubuntu:24.04".to_string(), None, None);
    let (_, run) = second.begin::<()>(&context(1), &command(), "/s").unwrap();
    assert!(!run.copy_first);
}

#[test]
fn a_wait_for_a_project_goes_round_until_the_guest_answers() {
    let wait = ProjectWait::new(10);
    let (wait, _) = wait.advance(WaitEvent::Elapsed(4_000));
    assert!(matches!(
        wait.step,
        ProjectWaitStep::Probe { remaining_ms: 6_000, limit_ms: 5_000 }
    ));
    let (wait, _) = wait.advance(WaitEvent::Probed(Err("refused".to_string())));
    assert!(matches!(wait.step, ProjectWaitStep::CheckProcess { .. }));
    // What does not belong here changes nothing.
    let (wait, told) = wait.advance(WaitEvent::Done);
    assert!(matches!(wait.step, ProjectWaitStep::CheckProcess { .. }) && told.is_none());
    let (wait, _) = wait.advance(WaitEvent::Exit(None));
    let (wait, told) = wait.advance(WaitEvent::Elapsed(5_000));
    assert_eq!(
        told.as_deref(),
        Some("waiting for project microvm guest readiness for 5s; last probe: refused")
    );
    assert!(matches!(wait.step, ProjectWaitStep::Pause { ms: 2_000 }));
    assert_eq!(wait.wait.next_progress_ms, 10_000);
    let (wait, _) = wait.advance(WaitEvent::Done);
    let (wait, _) = wait.advance(WaitEvent::Elapsed(7_000));
    let (wait, _) = wait.advance(WaitEvent::Probed(Ok(())));
    assert!(matches!(wait.step, ProjectWaitStep::TellLastLogs { remaining_ms: 3_000 }));
    let (wait, _) = wait.advance(WaitEvent::Done);
    assert!(matches!(wait.step, ProjectWaitStep::AwaitBoot { remaining_ms: 3_000 }));
    let (wait, _) = wait.advance(WaitEvent::Done);
    assert!(matches!(wait.step, ProjectWaitStep::Ready));
}

#[test]
fn a_wait_for_a_project_fails_late_or_without_its_emulator() {
    let (wait, _) = ProjectWait::new(10).advance(WaitEvent::Elapsed(10_000));
    assert!(matches!(wait.step, ProjectWaitStep::CollectLateLogs));
    let (wait, _) = wait.advance(WaitEvent::Logs("log".to_string()));
    match wait.step {
        ProjectWaitStep::Failed(message) => assert_eq!(
            message,
            "project microvm did not become ready before timeout\nrecent qemu logs:\nlog"
        ),
        other => panic!("{other:?}"),
    }
    let (wait, _) = ProjectWait::new(10).advance(WaitEvent::Elapsed(0));
    let (wait, _) = wait.advance(WaitEvent::Probed(Err("x".to_string())));
    let (wait, _) = wait.advance(WaitEvent::Exit(Some("pid 7 is no longer running".to_string())));
    let (wait, _) = wait.advance(WaitEvent::Logs(String::new()));
    match wait.step {
        ProjectWaitStep::Failed(message) => assert_eq!(
            message,
            "project qemu process exited before guest readiness: pid 7 is no longer running"
        ),
        other => panic!("{other:?}"),
    }
}

#[test]
fn a_wait_for_a_job_polls_before_it_asks() {
    let logs = RecentLogs::new();
    let poll = |exit: Option<&str>, elapsed_ms: u64| WaitEvent::Polled {
        exit: exit.map(|s| s.to_string()),
        elapsed_ms,
    };
    let (wait, _) = JobWait::new(60).advance(poll(None, 58_000), &logs);
    assert!(matches!(wait.step, JobWaitStep::Probe { limit_ms: 2_000 }));
    let (wait, _) = wait.advance(WaitEvent::Probed(Err("x".to_string())), &logs);
    let (wait, told) = wait.advance(WaitEvent::Elapsed(59_000), &logs);
    assert_eq!(
        told.as_deref(),
        Some("waiting for microvm guest readiness for 59s; last probe: x")
    );
    assert!(matches!(wait.step, JobWaitStep::Pause { ms: 2_000 }));
    let (wait, _) = wait.advance(WaitEvent::Done, &logs);
    let (wait, _) = wait.advance(poll(None, 60_000), &logs);
    match wait.step {
        JobWaitStep::Failed(m) => assert_eq!(m, "microvm did not become ready before timeout"),
        other => panic!("{other:?}"),
    }
    let (wait, _) = JobWait::new(60).advance(poll(Some("exit status: 1"), 0), &logs);
    match wait.step {
        JobWaitStep::Failed(m) => {
            assert_eq!(m, "qemu exited before the guest became ready: exit status: 1")
        }
        other => panic!("{other:?}"),
    }
    let (wait, _) = JobWait::new(60).advance(poll(None, 0), &logs);
    let (wait, _) = wait.advance(WaitEvent::Probed(Ok(())), &logs);
    assert!(matches!(wait.step, JobWaitStep::AwaitBoot { limit_ms: 30_000 }));
    let (wait, _) = wait.advance(WaitEvent::Done, &logs);
    assert!(matches!(wait.step, JobWaitStep::Ready));
}

#[test]
fn a_wait_for_the_first_boot_asks_until_it_is_over() {
    let reported = |s: &str, elapsed_ms: u64| BootEvent::Reported {
        report: Ok(s.to_string()),
        elapsed_ms,
    };
    let (boot, told) = ProjectBoot::new(9_000).advance(BootEvent::Elapsed(0));
    assert_eq!((boot.phase, told), (BootPhase::AskStatus { limit_ms: 10_000 }, None));
    let (boot, told) = boot.advance(reported("status: running", 1_000));
    assert_eq!(boot.phase, BootPhase::Pause { ms: 5_000 });
    assert_eq!(told.as_deref(), Some("waiting for cloud-init for 1s: status: running"));
    assert_eq!(boot.wait.next_progress_ms, 15_000);
    let (boot, _) = boot.advance(BootEvent::Done);
    let (boot, told) = boot.advance(BootEvent::Elapsed(9_000));
    assert_eq!(boot.phase, BootPhase::Over);
    assert!(told.unwrap().starts_with("cloud-init did not finish before readiness wait budget"));

    let (boot, _) = ProjectBoot::new(9_000).advance(BootEvent::Elapsed(0));
    let (boot, told) = boot.advance(reported("status: done", 1_000));
    assert_eq!((boot.phase, told.as_deref()), (BootPhase::Over, Some("cloud-init finished")));
}

#[test]
fn machines_are_found_by_their_port() {
    let args = qemu_launch_args("/d", "/s", 2, 1024, 22_619, None);
    let line = format!("qemu-system-x86_64\0{}\0", args.join("\0"));
    assert!(serves_ssh_port(&line, 22_619));
    assert!(!serves_ssh_port(&line, 2_261));
    assert!(!serves_ssh_port("grep\0hostfwd=tcp::22619-:22\0", 22_619));
    assert!(!serves_ssh_port("", 22_619));
}

#[test]
fn commands_of_a_guest_job_may_take_as_long_as_the_job() {
    let plan = guest_job_plan("/k", 22_000, &command(), "/w.tar.gz", 90);
    assert_eq!((plan.upload.program, plan.upload.limit_ms), ("scp", 90_000));
    assert!(plan.upload.args.contains(&"/w.tar.gz".to_string()));
    assert_eq!((plan.run.program, plan.run.limit_ms), ("ssh", 90_000));
    assert_eq!(plan.run.args.last(), Some(&guest_ssh_command(&command())));
}

fn output(success: bool, stdout: &str, stderr: &str) -> CommandOutput {
    CommandOutput {
        success,
        status: if success { "exit status: 0".to_string() } else { "exit status: 1".to_string() },
        stdout: stdout.as_bytes().to_vec(),
        stderr: stderr.as_bytes().to_vec(),
    }
}

fn guest_job(
    step: GuestJobStep,
    event: GuestJobEvent<&'static str>,
) -> (GuestJobRun<&'static str>, Vec<GuestNote>) {
    let (mut run, _) = GuestJobRun::begin("/w.tar.gz");
    run.step = step;
    run.advance(event, &command(), "/w", 9)
}

fn handed(run: GuestJobRun<&'static str>) -> Result<String, (String, Option<&'static str>)> {
    assert_eq!(run.step, GuestJobStep::Finished);
    match run.result.unwrap() {
        Ok(result) => Ok(result.message.unwrap()),
        Err(error) => Err((error.message, error.cause)),
    }
}

#[test]
fn a_guest_job_brings_its_workspace_then_runs() {
    let (run, note) = GuestJobRun::<&'static str>::begin("/w.tar.gz");
    assert_eq!(run.step, GuestJobStep::Upload);
    assert_eq!((note.level, note.phase), (LogLevel::Info, "microvm.transfer"));
    assert_eq!(note.line, "uploading workspace archive to microvm from /w.tar.gz");

    // What does not belong here changes nothing.
    let event = GuestJobEvent::CommandEnded(output(true, "early", ""));
    let (run, notes) = run.advance(event, &command(), "/w", 9);
    assert_eq!(run.step, GuestJobStep::Upload);
    assert!(run.result.is_none() && notes.is_empty());

    let event = GuestJobEvent::Uploaded(output(true, "", ""));
    let (run, notes) = run.advance(event, &command(), "/w", 9);
    assert_eq!(run.step, GuestJobStep::RunCommand);
    assert!(run.result.is_none());
    let told: Vec<(&str, &str)> = notes.iter().map(|n| (n.phase, n.line.as_str())).collect();
    assert_eq!(
        told,
        vec![
            ("microvm.transfer", "uploaded workspace archive to microvm"),
            ("microvm.command", "running command inside microvm: true"),
        ]
    );

    let event = GuestJobEvent::CommandEnded(output(true, "fine", ""));
    let (run, notes) = run.advance(event, &command(), "/w", 9);
    assert_eq!(notes[0].level, LogLevel::Info);
    assert_eq!(handed(run), Ok("/w: fine".to_string()));
}

#[test]
fn a_guest_job_tells_what_went_wrong() {
    let (run, notes) = guest_job(GuestJobStep::Upload, GuestJobEvent::UploadTimedOut);
    assert!(notes.is_empty());
    assert!(handed(run).unwrap_err().0.contains("after 9 seconds"));

    let (run, _) = guest_job(GuestJobStep::Upload, GuestJobEvent::UploadNotLaunched("no scp"));
    assert_eq!(handed(run).unwrap_err().1, Some("no scp"));

    let refused = GuestJobEvent::Uploaded(output(false, "", "denied"));
    let (run, notes) = guest_job(GuestJobStep::Upload, refused);
    assert_eq!((notes[0].level, notes[0].phase), (LogLevel::Warn, "microvm.transfer"));
    assert_eq!(
        notes[0].line,
        "microvm workspace archive upload failed with exit status: 1"
    );
    assert_eq!(handed(run), Ok("/w: denied".to_string()));

    let late = GuestJobEvent::CommandLost(StreamFailure::TimedOut, None);
    let (run, _) = guest_job(GuestJobStep::RunCommand, late);
    assert_eq!(
        handed(run),
        Err(("microvm command timed out after 9 seconds".to_string(), None))
    );
    let unread = GuestJobEvent::CommandLost(StreamFailure::NotRead, Some("pipe"));
    let (run, _) = guest_job(GuestJobStep::RunCommand, unread);
    assert_eq!(
        handed(run),
        Err(("failed to read streamed output from microvm ssh".to_string(), Some("pipe")))
    );

    let failed = GuestJobEvent::CommandEnded(output(false, "", "broken"));
    let (run, notes) = guest_job(GuestJobStep::RunCommand, failed);
    assert_eq!((notes[0].level, notes[0].phase), (LogLevel::Warn, "microvm.command"));
    assert_eq!(run.result.as_ref().unwrap().as_ref().unwrap().status, "failed");
    assert_eq!(handed(run), Ok("/w: broken".to_string()));
}

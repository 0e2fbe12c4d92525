use std::collections::hash_map::DefaultHasher;
use std::hash::{Hash, Hasher};

use statix_agent::agent::archive::{
    archive_plan, download_failure, extract_args, judge_extraction,
};
use statix_agent::agent::cli::{format_error_chain, LoginArgs};
use statix_agent::agent::git::{
    commit_mismatch_message, git_args, git_context, git_repo_dir, hash_key, hash_name, judge_git,
    next_git_step, runs_in_repo, Checkout, GitEvent, GitStep,
};
use statix_agent::agent::job::{
    brief_of_texts, cargo_test_args, cargo_test_command, check_test_timeout, finish_test, job_workdir,
    missing_workdir_message, plan_job, test_timeout_message, update_result, AgentJob,
    AgentJobSpec, JobPlan, JobSource,
};
use statix_agent::agent::session::{
    accepted_status, after_session, begin_round, connect_timeout_message, final_status,
    judge_incoming, judge_ready, next_phase, ready_event, ready_timeout_message,
    runtime_config_line, started_status, step_event, stop_event, AgentStep, Incoming, JobOutcome,
    ReadyVerdict, ServerMessage, SessionEvent, SessionPhase, SessionStep, SystemInfoState,
};
use statix_agent::agent::update::{
    is_denial, judge_update, needs_sudo, sudo_args, systemctl_args, update_service, FirstTry,
};
use statix_agent::jobs::JobExecutionResult;
use statix_agent::process::CommandOutput;

fn output(success: bool, stdout: &str, stderr: &str) -> CommandOutput {
    CommandOutput {
        success,
        status: "s".to_string(),
        stdout: stdout.as_bytes().to_vec(),
        stderr: stderr.as_bytes().to_vec(),
    }
}

fn strings(v: &[&str]) -> Vec<String> {
    v.iter().map(|s| s.to_string()).collect()
}

fn ready(node: &str) -> Incoming {
    Incoming::Message(ServerMessage::Ready { node_id: node.to_string() })
}

fn error(text: &str) -> Incoming {
    Incoming::Message(ServerMessage::Error { error: text.to_string() })
}

fn job() -> AgentJob {
    AgentJob {
        id: "j1".to_string(),
        issued_at: 1,
        task: AgentJobSpec::UpdateAgent { target_version: None, channel: None },
    }
}

#[test]
fn named_address_counts_before_the_other() {
    let args = LoginArgs {
        api_base_url: Some("a".to_string()),
        requested_name: Some("n".to_string()),
        api_base_url_positional: Some("b".to_string()),
    };
    let options = args.into_options();
    assert_eq!(options.api_base_url.as_deref(), Some("a"));
    assert_eq!(options.requested_name.as_deref(), Some("n"));
    let args = LoginArgs {
        api_base_url: None,
        requested_name: None,
        api_base_url_positional: Some("b".to_string()),
    };
    assert_eq!(args.into_options().api_base_url.as_deref(), Some("b"));
}

#[test]
fn causes_of_errors_are_told_once() {
    assert_eq!(format_error_chain(&strings(&["a", "a", "b", "a"])), "a: b: a");
    assert_eq!(format_error_chain(&vec![]), "");
    assert_eq!(format_error_chain(&strings(&["x"])), "x");
}

#[test]
fn server_is_ready_for_this_node_only() {
    assert!(matches!(judge_ready(&ready("n"), "n"), ReadyVerdict::Ready));
    match judge_ready(&ready("m"), "n") {
        ReadyVerdict::Refused(e) => {
            assert_eq!(e, "websocket authenticated for unexpected node: m")
        }
        other => panic!("{other:?}"),
    }
    match judge_ready(&error("no"), "n") {
        ReadyVerdict::Refused(e) => assert_eq!(e, "server error: no"),
        other => panic!("{other:?}"),
    }
    match judge_ready(&Incoming::Closed(None), "n") {
        ReadyVerdict::Refused(e) => assert_eq!(e, "websocket closed during auth"),
        other => panic!("{other:?}"),
    }
    match judge_ready(&Incoming::Closed(Some("bye".to_string())), "n") {
        ReadyVerdict::Refused(e) => assert_eq!(e, "bye"),
        other => panic!("{other:?}"),
    }
    match judge_ready(&Incoming::Gone, "n") {
        ReadyVerdict::Refused(e) => assert_eq!(e, "websocket closed before ready"),
        other => panic!("{other:?}"),
    }
    assert!(matches!(judge_ready(&Incoming::Broken, "n"), ReadyVerdict::Broken));
    assert!(matches!(judge_ready(&Incoming::Other, "n"), ReadyVerdict::Wait));
    let early = Incoming::Message(ServerMessage::Job { job: job() });
    assert!(matches!(judge_ready(&early, "n"), ReadyVerdict::Wait));
    assert_eq!(connect_timeout_message(5), "ws connect timed out after 5 ms");
    assert_eq!(ready_timeout_message(5), "websocket auth timed out after 5 ms");
}

#[test]
fn incoming_messages_are_judged() {
    match judge_incoming(ready("n"), false) {
        SessionStep::Continue(Some(s)) => assert_eq!(s, "server ready for nodeId=n"),
        other => panic!("{other:?}"),
    }
    match judge_incoming(error("no"), false) {
        SessionStep::Fail(e) => assert_eq!(e, "server error: no"),
        other => panic!("{other:?}"),
    }
    match judge_incoming(Incoming::Message(ServerMessage::Job { job: job() }), false) {
        SessionStep::Run(j) => assert_eq!(j.id, "j1"),
        other => panic!("{other:?}"),
    }
    match judge_incoming(Incoming::Unreadable("x".repeat(201)), false) {
        SessionStep::Continue(Some(s)) => assert_eq!(
            s,
            format!("ignored non-server-message websocket payload: {}...", "x".repeat(200))
        ),
        other => panic!("{other:?}"),
    }
    match judge_incoming(Incoming::Closed(None), true) {
        SessionStep::Fail(e) => assert_eq!(e, "websocket closed"),
        other => panic!("{other:?}"),
    }
    assert!(matches!(judge_incoming(Incoming::Other, false), SessionStep::Continue(None)));
    assert!(matches!(judge_incoming(Incoming::Broken, true), SessionStep::Stop));
    assert!(matches!(judge_incoming(Incoming::Broken, false), SessionStep::FailBroken));
    assert!(matches!(judge_incoming(Incoming::Gone, true), SessionStep::Stop));
    match judge_incoming(Incoming::Gone, false) {
        SessionStep::Fail(e) => assert_eq!(e, "websocket connection ended"),
        other => panic!("{other:?}"),
    }
}

#[test]
fn a_session_runs_a_job_and_stops() {
    let mut phase = SessionPhase::Connect;
    let mut seen = vec![];
    for event in [
        SessionEvent::Done,
        SessionEvent::Done,
        ready_event(&ReadyVerdict::Wait),
        ready_event(&ReadyVerdict::Ready),
        SessionEvent::NotDone,
        SessionEvent::NotDone,
        step_event(&SessionStep::Run(job())),
        SessionEvent::Done,
        SessionEvent::NotDone,
        SessionEvent::Done,
        SessionEvent::NotDone,
        SessionEvent::MetricsTick,
        SessionEvent::NotDone,
        SessionEvent::SystemTick,
        SessionEvent::Done,
        stop_event(true, false),
        stop_event(true, true),
        SessionEvent::Done,
    ] {
        seen.push(phase);
        phase = next_phase(phase, event);
    }
    assert_eq!(
        seen,
        vec![
            SessionPhase::Connect,
            SessionPhase::SendAuth,
            SessionPhase::AwaitReady,
            SessionPhase::AwaitReady,
            SessionPhase::FirstMetrics,
            SessionPhase::FirstSystemInfo,
            SessionPhase::Serve,
            SessionPhase::SendAccepted,
            SessionPhase::SendStarted,
            SessionPhase::ExecuteJob,
            SessionPhase::SendResult,
            SessionPhase::Serve,
            SessionPhase::PublishMetrics,
            SessionPhase::Serve,
            SessionPhase::PublishSystemInfo,
            SessionPhase::Serve,
            SessionPhase::Serve,
            SessionPhase::Close,
        ]
    );
    assert_eq!(phase, SessionPhase::Stopped);
}

#[test]
fn a_session_fails_where_it_must() {
    assert_eq!(next_phase(SessionPhase::Connect, SessionEvent::NotDone), SessionPhase::Failed);
    let refused = ready_event(&ReadyVerdict::Refused("x".to_string()));
    assert_eq!(next_phase(SessionPhase::AwaitReady, refused), SessionPhase::Failed);
    let fatal = step_event(&SessionStep::FailBroken);
    assert_eq!(next_phase(SessionPhase::Serve, fatal), SessionPhase::Failed);
    let gone = step_event(&SessionStep::Stop);
    assert_eq!(next_phase(SessionPhase::Serve, gone), SessionPhase::Stopped);
    assert_eq!(next_phase(SessionPhase::SendAccepted, SessionEvent::NotDone), SessionPhase::Serve);
}

#[test]
fn jobs_are_reported() {
    let accepted = accepted_status("j");
    assert_eq!((accepted.job_id.as_str(), accepted.status), ("j", "accepted"));
    assert!(accepted.message.is_none());
    assert_eq!(started_status("j").status, "started");
    let result = JobExecutionResult { status: "succeeded", message: Some("m".to_string()) };
    let done = final_status("j", JobOutcome::Result(result));
    assert_eq!((done.status, done.message.as_deref()), ("succeeded", Some("m")));
    let failed = final_status("j", JobOutcome::Error(strings(&["a", "b"])));
    assert_eq!((failed.status, failed.message.as_deref()), ("failed", Some("a: b")));
}

#[test]
fn system_info_is_told_when_due() {
    let mut state = SystemInfoState::new();
    assert!(state.due(false, "h", 0, 100));
    state.published("h", 10);
    assert!(!state.due(false, "h", 109, 100));
    assert!(state.due(false, "h", 110, 100));
    assert!(state.due(false, "other", 11, 100));
    assert!(state.due(true, "h", 11, 100));
}

#[test]
fn sessions_follow_each_other() {
    assert_eq!(begin_round(false), AgentStep::RunSession);
    assert_eq!(begin_round(true), AgentStep::Stopped);
    assert_eq!(after_session(true, false), AgentStep::Stopped);
    assert_eq!(after_session(false, true), AgentStep::Stopped);
    assert_eq!(after_session(false, false), AgentStep::Pause);
    assert_eq!(
        runtime_config_line("ws://x", "http://y", 1, 2),
        "runtime config: ws=ws://x, api=http://y, publish=1ms, system-check=2ms"
    );
}

#[test]
fn jobs_are_planned() {
    assert_eq!(plan_job(&job().task), Ok(JobPlan::Update));
    let test = |preset: &str, timeout_seconds: Option<u64>| AgentJobSpec::RunTest {
        preset: preset.to_string(),
        source: JobSource::WorkspaceArchive { subdir: None },
        args: vec![],
        timeout_seconds,
    };
    assert_eq!(
        plan_job(&test("cargo_test", None)),
        Ok(JobPlan::Test { timeout_seconds: 1_800 })
    );
    assert_eq!(
        plan_job(&test("cargo_test", Some(7))),
        Ok(JobPlan::Test { timeout_seconds: 7 })
    );
    assert_eq!(
        plan_job(&test("npm", None)),
        Err("unsupported test preset: npm".to_string())
    );
    assert_eq!(update_result().message.as_deref(), Some("agent update requested"));
}

#[test]
fn tests_are_run_in_their_directory() {
    assert_eq!(job_workdir("/r", None), "/r");
    assert_eq!(job_workdir("/r", Some("  ")), "/r");
    assert_eq!(job_workdir("/r", Some(" a/b ")), "/r/a/b");
    assert_eq!(job_workdir("/r", Some("/abs")), "/abs");
    assert_eq!(missing_workdir_message("/r"), "resolved workdir does not exist: /r");
    assert_eq!(check_test_timeout(3_600), Ok(()));
    assert_eq!(
        check_test_timeout(0),
        Err("run_test timeoutSeconds must be between 1 and 3600".to_string())
    );
    assert!(check_test_timeout(3_601).is_err());
    assert_eq!(cargo_test_args(&strings(&["--", "x"])), strings(&["test", "--", "x"]));
    let timed = cargo_test_command(&strings(&["--", "x"]), 3);
    assert_eq!((timed.program, timed.limit_ms), ("cargo", 3_000));
    assert_eq!(timed.args, strings(&["test", "--", "x"]));
    assert_eq!(test_timeout_message(3), "cargo test timed out after 3 seconds");
    assert_eq!(brief_of_texts("/w", "out", " err "), "/w: err");
    assert_eq!(brief_of_texts("/w", " out ", " "), "/w: out");
    assert_eq!(brief_of_texts("/w", "", ""), "/w: command completed with no output");
    assert_eq!(
        brief_of_texts("/w", &"x".repeat(401), ""),
        format!("/w: {}...", "x".repeat(400))
    );
    let result = finish_test("/w", &output(false, "a", "b"));
    assert_eq!((result.status, result.message.as_deref()), ("failed", Some("/w: b")));
    assert_eq!(finish_test("/w", &output(true, "a", "")).status, "succeeded");
}

#[test]
fn repositories_are_kept_under_their_hash() {
    let mut hasher = DefaultHasher::new();
    "https://x/y.git".hash(&mut hasher);
    let expected = format!("{:016x}", hasher.finish());
    assert_eq!(hash_key("https://x/y.git"), expected);
    assert_eq!(git_repo_dir("/s", "https://x/y.git"), format!("/s/jobs/git/{expected}"));
    assert_eq!(hash_name(0), "0000000000000000");
    assert_eq!(hash_name(0x0123_4567_89ab_cdef), "0123456789abcdef");
}

#[test]
fn a_checkout_goes_through_its_steps() {
    let c = Checkout {
        repo_url: "u".to_string(),
        git_ref: "main".to_string(),
        commit_sha: " abc ".to_string(),
        repo_dir: "/d".to_string(),
    };
    let clone = next_git_step(&c, GitStep::LookForRepo, &GitEvent::Answer(false));
    assert_eq!(clone, GitStep::Clone);
    assert_eq!(git_args(&c, clone), strings(&["clone", "--no-checkout", "u", "/d"]));
    assert!(!runs_in_repo(clone));
    let set = next_git_step(&c, GitStep::LookForRepo, &GitEvent::Answer(true));
    assert_eq!(set, GitStep::SetUrl);
    assert_eq!(git_args(&c, set), strings(&["remote", "set-url", "origin", "u"]));
    assert!(runs_in_repo(set));
    let fetch = next_git_step(&c, set, &GitEvent::Done);
    assert_eq!(next_git_step(&c, clone, &GitEvent::Done), fetch);
    assert_eq!(git_args(&c, fetch), strings(&["fetch", "--depth", "1", "origin", "main"]));
    let head = next_git_step(&c, fetch, &GitEvent::Done);
    assert_eq!(git_args(&c, head), strings(&["rev-parse", "FETCH_HEAD"]));
    assert_eq!(
        next_git_step(&c, head, &GitEvent::Head("abd".to_string())),
        GitStep::Failed
    );
    assert_eq!(
        commit_mismatch_message(&c, "abd\n"),
        "fetched commit abd does not match expected abc for ref main"
    );
    let check = next_git_step(&c, head, &GitEvent::Head("abc\n".to_string()));
    assert_eq!(check, GitStep::CheckOut);
    assert_eq!(git_args(&c, check), strings(&["checkout", "--force", " abc "]));
    let clean = next_git_step(&c, check, &GitEvent::Done);
    assert_eq!(git_args(&c, clean), strings(&["clean", "-fdx"]));
    assert_eq!(next_git_step(&c, clean, &GitEvent::Done), GitStep::Finished);
    assert_eq!(next_git_step(&c, fetch, &GitEvent::Failed), GitStep::Failed);
    assert_eq!(git_context(&c, GitStep::Clone), "failed to clone u");
    assert_eq!(git_context(&c, GitStep::SetUrl), "failed to update origin url for /d");
    assert_eq!(git_context(&c, GitStep::Fetch), "failed to fetch main from u");
    assert_eq!(git_context(&c, GitStep::ReadHead), "failed to resolve FETCH_HEAD");
    assert_eq!(git_context(&c, GitStep::CheckOut), "failed to checkout  abc ");
    assert_eq!(git_context(&c, GitStep::Clean), "failed to clean checkout");
}

#[test]
fn git_is_judged() {
    let args = strings(&["clean", "-fdx"]);
    assert_eq!(judge_git(&args, &output(true, " x \n", "")), Ok("x".to_string()));
    assert_eq!(
        judge_git(&args, &output(false, "", " bad ")),
        Err("git clean -fdx failed: bad".to_string())
    );
    assert_eq!(
        judge_git(&args, &output(false, "", "")),
        Err("git clean -fdx failed: unknown error".to_string())
    );
}

#[test]
fn archives_are_fetched_and_unpacked() {
    let plan = archive_plan("/s", "http://api", "j");
    assert_eq!(plan.job_root, "/s/jobs/runs/j");
    assert_eq!(plan.workspace_root, "/s/jobs/runs/j/workspace");
    assert_eq!(plan.archive_path, "/s/jobs/runs/j/source.tar.gz");
    assert_eq!(plan.archive_url, "http://api/jobs/j/source");
    assert_eq!(download_failure(404, "none"), "source archive download failed (404): none");
    assert_eq!(extract_args("/a", "/w"), strings(&["-xzf", "/a", "-C", "/w"]));
    assert_eq!(judge_extraction(&output(true, "", "x")), Ok(()));
    assert_eq!(
        judge_extraction(&output(false, "", " x ")),
        Err("tar extraction failed: x".to_string())
    );
    assert_eq!(
        judge_extraction(&output(false, "", "")),
        Err("tar extraction failed: unknown error".to_string())
    );
}

#[test]
fn updates_are_asked_for() {
    assert_eq!(update_service(None), "statix-agent-update.service");
    assert_eq!(update_service(Some(" ")), "statix-agent-update.service");
    assert_eq!(update_service(Some(" x.service")), " x.service");
    assert_eq!(systemctl_args("x"), strings(&["start", "x"]));
    assert_eq!(sudo_args("x"), strings(&["-n", "systemctl", "start", "x"]));
    assert!(is_denial("Failed: Interactive authentication required."));
    assert!(is_denial("ACCESS DENIED"));
    assert!(!is_denial("not found"));
    assert!(needs_sudo(&FirstTry::NotLaunched));
    assert!(needs_sudo(&FirstTry::Exited(output(false, "", "Permission denied"))));
    assert!(!needs_sudo(&FirstTry::Exited(output(false, "", "not found"))));
    assert!(!needs_sudo(&FirstTry::Exited(output(true, "", "Permission denied"))));
    assert_eq!(judge_update("x", &output(true, "", "")), Ok(()));
    assert_eq!(
        judge_update("x", &output(false, "", " no ")),
        Err("systemctl start x failed: no".to_string())
    );
    assert_eq!(
        judge_update("x", &output(false, "", "")),
        Err("systemctl start x failed: unknown error".to_string())
    );
}

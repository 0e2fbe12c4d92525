//! The jobs that the server hands out.
use vstd::prelude::*;
use vstd::string::*;

use crate::jobs::{is_timeout, job_result, result_of, JobExecutionResult, MAX_TIMEOUT_SECONDS};
use crate::paths::{below, join_path};
use crate::process::{more_telling, telling_text, CommandOutput, TimedCommand, TimedModel};
use crate::text::{
    append_decimal, decimal, ellipsize, ellipsized, no_texts, push_text, same, str_of, texts, trim,
    trimmed,
};

verus! {

/// A job that the server hands out.
#[derive(Debug)]
pub struct AgentJob {
    pub id: String,
    pub issued_at: u64,
    pub task: AgentJobSpec,
}

/// What a job asks for.
#[derive(Debug)]
pub enum AgentJobSpec {
    UpdateAgent { target_version: Option<String>, channel: Option<String> },
    RunTest {
        preset: String,
        source: JobSource,
        args: Vec<String>,
        timeout_seconds: Option<u64>,
    },
}

/// Where the sources of a job come from.
#[derive(Debug)]
pub enum JobSource {
    GitCheckout { repo_url: String, git_ref: String, commit_sha: String, subdir: Option<String> },
    WorkspaceArchive { subdir: Option<String> },
}

/// How long, in seconds, a test may take where the job does not say.
pub const DEFAULT_TEST_SECONDS: u64 = 1_800;

/// What is to be done for a job.
#[derive(Debug, Clone, Copy, PartialEq, Eq, Structural)]
pub enum JobPlan {
    Update,
    Test { timeout_seconds: u64 },
}

/// What is to be done for a job; the error is a message for a reader.
pub fn plan_job(job: &AgentJobSpec) -> (r: Result<JobPlan, String>)
    ensures
        match *job {
            AgentJobSpec::UpdateAgent { .. } => r == Ok::<JobPlan, String>(JobPlan::Update),
            AgentJobSpec::RunTest { preset, timeout_seconds, .. } => if preset@ == "cargo_test"@ {
                r == Ok::<JobPlan, String>(
                    JobPlan::Test {
                        timeout_seconds: match timeout_seconds {
                            Some(n) => n,
                            None => DEFAULT_TEST_SECONDS,
                        },
                    },
                )
            } else {
                r matches Err(e) && e@ == "unsupported test preset: "@ + preset@
            },
        },
{
    match job {
        AgentJobSpec::UpdateAgent { .. } => Ok(JobPlan::Update),
        AgentJobSpec::RunTest { preset, timeout_seconds, .. } => {
            if !same(preset.as_str(), "cargo_test") {
                let mut e = "unsupported test preset: ".to_string();
                e.append(preset.as_str());
                return Err(e);
            }
            let seconds: u64 = match timeout_seconds {
                Some(n) => *n,
                None => DEFAULT_TEST_SECONDS,
            };
            Ok(JobPlan::Test { timeout_seconds: seconds })
        },
    }
}

/// What came of a job that asked for an update.
pub fn update_result() -> (r: JobExecutionResult)
    ensures
        r@ == result_of(true, "agent update requested"@),
{
    job_result(true, "agent update requested".to_string())
}

// ---------------------------------------------------------------------------
// The directory of a job
// ---------------------------------------------------------------------------

/// The directory that a job works in: the part of its sources that it names.
pub open spec fn workdir_in(root: Seq<char>, subdir: Option<Seq<char>>) -> Seq<char> {
    match subdir {
        Some(s) => if trimmed(s).len() > 0 {
            below(root, trimmed(s))
        } else {
            root
        },
        None => root,
    }
}

/// The directory that a job works in.
pub fn job_workdir(root: &str, subdir: Option<&str>) -> (r: String)
    ensures
        r@ == workdir_in(root@, str_of(subdir)),
{
    match subdir {
        Some(s) => {
            let t = trim(s);
            if t.as_str().is_empty() {
                root.to_owned()
            } else {
                join_path(root, t.as_str())
            }
        },
        None => root.to_owned(),
    }
}

/// What is said where that directory does not exist.
pub fn missing_workdir_message(workdir: &str) -> (r: String)
    ensures
        r@ == "resolved workdir does not exist: "@ + workdir@,
{
    let mut r = "resolved workdir does not exist: ".to_string();
    r.append(workdir);
    r
}

// ---------------------------------------------------------------------------
// Running a test
// ---------------------------------------------------------------------------

/// Whether a test can be run for so long; the error is a message for a reader.
pub fn check_test_timeout(timeout_seconds: u64) -> (r: Result<(), String>)
    ensures
        match r {
            Ok(_) => is_timeout(timeout_seconds),
            Err(e) => !is_timeout(timeout_seconds) && e@
                == "run_test timeoutSeconds must be between 1 and 3600"@,
        },
{
    if timeout_seconds == 0 || timeout_seconds > MAX_TIMEOUT_SECONDS {
        Err("run_test timeoutSeconds must be between 1 and 3600".to_string())
    } else {
        Ok(())
    }
}

/// The arguments of `cargo` that run a test.
pub fn cargo_test_args(args: &Vec<String>) -> (r: Vec<String>)
    ensures
        texts(r@) == seq!["test"@] + texts(args@),
{
    let ghost all = texts(args@);
    let mut r = no_texts();
    push_text(&mut r, "test");
    let mut i: usize = 0;
    proof {
        assert(texts(r@) =~= seq!["test"@] + all.take(0));
    }
    while i < args.len()
        invariant
            all == texts(args@),
            i <= args@.len(),
            texts(r@) == seq!["test"@] + all.take(i as int),
        decreases args@.len() - i,
    {
        push_text(&mut r, args[i].as_str());
        proof {
            assert(all[i as int] == args@[i as int]@);
            assert(texts(r@) =~= seq!["test"@] + all.take(i + 1));
        }
        i += 1;
    }
    proof {
        assert(all.take(i as int) =~= all);
    }
    r
}

/// The command that runs a test.
pub fn cargo_test_command(args: &Vec<String>, timeout_seconds: u64) -> (r: TimedCommand)
    requires
        is_timeout(timeout_seconds),
    ensures
        r@ == (TimedModel {
            program: "cargo"@,
            args: seq!["test"@] + texts(args@),
            limit_ms: timeout_seconds * 1_000,
        }),
{
    TimedCommand {
        program: "cargo",
        args: cargo_test_args(args),
        limit_ms: timeout_seconds * 1_000,
    }
}

/// What is said where a test took too long.
pub fn test_timeout_message(timeout_seconds: u64) -> (r: String)
    ensures
        r@ == "cargo test timed out after "@ + decimal(timeout_seconds as nat) + " seconds"@,
{
    let mut r = "cargo test timed out after ".to_string();
    append_decimal(&mut r, timeout_seconds);
    r.append(" seconds");
    r
}

/// What is told of a command that ran in `cwd`, in brief.
pub open spec fn brief(cwd: Seq<char>, stdout: Seq<char>, stderr: Seq<char>) -> Seq<char> {
    let body = telling_text(stdout, stderr);
    cwd + ": "@ + ellipsized(
        if body.len() > 0 {
            body
        } else {
            "command completed with no output"@
        },
        400,
    )
}

/// What is told of a command that ran in `cwd`, in brief, out of its outputs.
pub fn brief_of_texts(cwd: &str, stdout: &str, stderr: &str) -> (r: String)
    ensures
        r@ == brief(cwd@, stdout@, stderr@),
{
    let body = more_telling(stdout, stderr);
    let body = if body.as_str().is_empty() {
        "command completed with no output".to_string()
    } else {
        body
    };
    let mut r = cwd.to_owned();
    r.append(": ");
    r.append(ellipsize(body.as_str(), 400).as_str());
    r
}

/// What is told of a command that ran in `cwd`, in brief.
pub fn summarize_briefly(cwd: &str, output: &CommandOutput) -> (r: String)
    ensures
        r@ == brief(cwd@, output.out(), output.err()),
{
    let out = output.stdout_text();
    let err = output.stderr_text();
    brief_of_texts(cwd, out.as_str(), err.as_str())
}

/// What came of a test.
pub fn finish_test(cwd: &str, output: &CommandOutput) -> (r: JobExecutionResult)
    ensures
        r@ == result_of(output.success, brief(cwd@, output.out(), output.err())),
{
    let message = summarize_briefly(cwd, output);
    job_result(output.success, message)
}

/// A job is run in the directory that it names, below the one that it came in, without
/// the white space around the name; one that names none is run where it came in.
pub proof fn job_runs_where_it_says(root: Seq<char>, subdir: Seq<char>)
    ensures
        workdir_in(root, None) == root,
        trimmed(subdir).len() == 0 ==> workdir_in(root, Some(subdir)) == root,
        trimmed(subdir).len() > 0 ==> ({
            let dir = workdir_in(root, Some(subdir));
            &&& dir == workdir_in(root, Some(trimmed(subdir)))
            &&& dir.skip(dir.len() - trimmed(subdir).len()) == trimmed(subdir)
            &&& trimmed(subdir)[0] != '/' ==> crate::text::begins_with(dir, root)
        }),
{
    crate::text::trimming_is_stable(subdir);
    crate::paths::path_begins_with_its_base(root, trimmed(subdir));
    if trimmed(subdir).len() > 0 {
        let dir = workdir_in(root, Some(subdir));
        assert(dir.skip(dir.len() - trimmed(subdir).len()) =~= trimmed(subdir));
    }
}

/// The report on a command begins with where it ran, tells what it wrote to its errors or
/// else what it wrote, and stays short.
pub proof fn reports_are_brief(cwd: Seq<char>, stdout: Seq<char>, stderr: Seq<char>)
    ensures
        crate::text::begins_with(brief(cwd, stdout, stderr), cwd),
        brief(cwd, stdout, stderr).len() <= cwd.len() + 405,
        0 < trimmed(stderr).len() <= 400 ==> brief(cwd, stdout, stderr) == cwd + ": "@ + trimmed(
            stderr,
        ),
        trimmed(stderr).len() == 0 && 0 < trimmed(stdout).len() <= 400 ==> brief(
            cwd,
            stdout,
            stderr,
        ) == cwd + ": "@ + trimmed(stdout),
        trimmed(stderr).len() == 0 && trimmed(stdout).len() == 0 ==> brief(cwd, stdout, stderr)
            == cwd + ": "@ + "command completed with no output"@,
{
    reveal_strlit(": ");
    reveal_strlit("...");
    reveal_strlit("command completed with no output");
    assert(brief(cwd, stdout, stderr).take(cwd.len() as int) =~= cwd);
}

} // verus!

//! Sources that come as an archive.
use vstd::prelude::*;
use vstd::string::*;

use crate::paths::{below, join_path};
use crate::process::CommandOutput;
use crate::text::{append_decimal, decimal, no_texts, push_text, texts, trim, trimmed};

verus! {

/// Where the archive of a job comes from, and where it goes.
#[derive(Debug)]
pub struct ArchivePlan {
    pub job_root: String,
    pub workspace_root: String,
    pub archive_path: String,
    pub archive_url: String,
}

/// Whether the plan is that for the archive of a job.
pub open spec fn is_archive_plan(
    plan: ArchivePlan,
    state_dir: Seq<char>,
    api_base_url: Seq<char>,
    job_id: Seq<char>,
) -> bool {
    let root = below(below(below(state_dir, "jobs"@), "runs"@), job_id);
    &&& plan.job_root@ == root
    &&& plan.workspace_root@ == below(root, "workspace"@)
    &&& plan.archive_path@ == below(root, "source.tar.gz"@)
    &&& plan.archive_url@ == api_base_url + "/jobs/"@ + job_id + "/source"@
}

/// Where the archive of a job comes from, and where it goes.
pub fn archive_plan(state_dir: &str, api_base_url: &str, job_id: &str) -> (r: ArchivePlan)
    ensures
        is_archive_plan(r, state_dir@, api_base_url@, job_id@),
{
    let jobs = join_path(state_dir, "jobs");
    let runs = join_path(jobs.as_str(), "runs");
    let job_root = join_path(runs.as_str(), job_id);
    let mut archive_url = api_base_url.to_owned();
    archive_url.append("/jobs/");
    archive_url.append(job_id);
    archive_url.append("/source");
    ArchivePlan {
        workspace_root: join_path(job_root.as_str(), "workspace"),
        archive_path: join_path(job_root.as_str(), "source.tar.gz"),
        archive_url,
        job_root,
    }
}

/// What is said where the server does not hand the archive out.
pub fn download_failure(status: u16, body: &str) -> (r: String)
    ensures
        r@ == "source archive download failed ("@ + decimal(status as nat) + "): "@ + body@,
{
    let mut r = "source archive download failed (".to_string();
    append_decimal(&mut r, status as u64);
    r.append("): ");
    r.append(body);
    r
}

/// The arguments of `tar` that unpack an archive.
pub fn extract_args(archive_path: &str, destination: &str) -> (r: Vec<String>)
    ensures
        texts(r@) == seq!["-xzf"@, archive_path@, "-C"@, destination@],
{
    let mut r = no_texts();
    push_text(&mut r, "-xzf");
    push_text(&mut r, archive_path);
    push_text(&mut r, "-C");
    push_text(&mut r, destination);
    r
}

/// What is said where an archive could not be unpacked.
pub open spec fn extract_failure(stderr: Seq<char>) -> Seq<char> {
    "tar extraction failed: "@ + (if trimmed(stderr).len() > 0 {
        trimmed(stderr)
    } else {
        "unknown error"@
    })
}

/// What is said where an archive could not be unpacked, given what was written.
pub fn extract_failure_message(stderr: &str) -> (r: String)
    ensures
        r@ == extract_failure(stderr@),
{
    let t = trim(stderr);
    let detail = if t.as_str().is_empty() {
        "unknown error".to_string()
    } else {
        t
    };
    let mut r = "tar extraction failed: ".to_string();
    r.append(detail.as_str());
    r
}

/// What came of unpacking an archive; the error is a message for a reader.
pub fn judge_extraction(output: &CommandOutput) -> (r: Result<(), String>)
    ensures
        match r {
            Ok(_) => output.success,
            Err(e) => !output.success && e@ == extract_failure(output.err()),
        },
{
    if output.success {
        return Ok(());
    }
    let err = output.stderr_text();
    Err(extract_failure_message(err.as_str()))
}

/// What a job is run from stands in a directory of its own below the directory of the
/// agent, and is fetched under the name of the job; two jobs share none of it.
#[verifier::rlimit(40)]
pub proof fn archives_are_kept_apart(
    a: ArchivePlan,
    b: ArchivePlan,
    state_dir: Seq<char>,
    api_base_url: Seq<char>,
    job_id: Seq<char>,
    other: Seq<char>,
)
    requires
        crate::paths::is_name(job_id),
        crate::paths::is_name(other),
        job_id != other,
        is_archive_plan(a, state_dir, api_base_url, job_id),
        is_archive_plan(b, state_dir, api_base_url, other),
    ensures
        crate::text::begins_with(a.job_root@, state_dir),
        crate::text::begins_with(a.workspace_root@, a.job_root@),
        crate::text::begins_with(a.archive_path@, a.job_root@),
        a.workspace_root@ != a.archive_path@,
        a.job_root@ != b.job_root@,
        crate::text::begins_with(a.archive_url@, api_base_url),
        crate::text::occurs(a.archive_url@, "/"@ + job_id + "/"@),
        a.archive_url@ != b.archive_url@,
{
    reveal_strlit("jobs");
    reveal_strlit("runs");
    reveal_strlit("workspace");
    reveal_strlit("source.tar.gz");
    reveal_strlit("/jobs/");
    reveal_strlit("/source");
    reveal_strlit("/");
    let jobs = below(state_dir, "jobs"@);
    let runs = below(jobs, "runs"@);
    crate::paths::path_begins_with_its_base(state_dir, "jobs"@);
    crate::paths::path_begins_with_its_base(jobs, "runs"@);
    assert(job_id.contains(job_id[0]) && other.contains(other[0]));
    crate::paths::path_begins_with_its_base(runs, job_id);
    crate::paths::path_begins_with_its_base(runs, other);
    crate::text::prefix_of_prefix(runs, jobs, state_dir);
    crate::text::prefix_of_prefix(below(runs, job_id), runs, state_dir);
    crate::paths::path_begins_with_its_base(below(runs, job_id), "workspace"@);
    crate::paths::path_begins_with_its_base(below(runs, job_id), "source.tar.gz"@);
    assert("workspace"@.last() == 'e' && "source.tar.gz"@.last() == 'z');
    let w = a.workspace_root@;
    let z = a.archive_path@;
    assert(w.skip(w.len() - "workspace"@.len()).last() == w.last());
    assert(z.skip(z.len() - "source.tar.gz"@.len()).last() == z.last());
    if a.job_root@ == b.job_root@ {
        let root = a.job_root@;
        let n = root.len() as int;
        if job_id.len() < other.len() {
            assert(root.skip(n - other.len())[other.len() - job_id.len() - 1] == root[n
                - job_id.len() - 1]);
            assert(other.contains('/'));
        } else if other.len() < job_id.len() {
            assert(root.skip(n - job_id.len())[job_id.len() - other.len() - 1] == root[n
                - other.len() - 1]);
            assert(job_id.contains('/'));
        }
    }
    let url = a.archive_url@;
    assert(url.take(api_base_url.len() as int) =~= api_base_url);
    let front = api_base_url + "/jobs"@;
    reveal_strlit("/jobs");
    reveal_strlit("source");
    crate::text::middle_occurs(front, "/"@ + job_id + "/"@, "source"@);
    assert(url =~= front + ("/"@ + job_id + "/"@) + "source"@);
    if url == b.archive_url@ {
        let at = api_base_url.len() as int + 6;
        assert(url.subrange(at, at + job_id.len() as int) =~= job_id);
        let o = b.archive_url@;
        assert(o.len() == at + other.len() + 7);
        assert(job_id.len() == other.len());
        assert(o.subrange(at, at + other.len() as int) =~= other);
    }
}

/// What is told of an archive that could not be unpacked is what was said of it, or that
/// nothing was.
pub proof fn unpacking_failures_are_told(stderr: Seq<char>)
    ensures
        trimmed(stderr).len() > 0 ==> crate::text::occurs(
            extract_failure(stderr),
            trimmed(stderr),
        ),
        trimmed(stderr).len() == 0 ==> crate::text::occurs(
            extract_failure(stderr),
            "unknown error"@,
        ),
{
    let none = Seq::<char>::empty();
    let unknown = "unknown error"@;
    crate::text::middle_occurs("tar extraction failed: "@, unknown, none);
    assert("tar extraction failed: "@ + unknown + none =~= "tar extraction failed: "@ + unknown);
    crate::text::middle_occurs("tar extraction failed: "@, trimmed(stderr), none);
    if trimmed(stderr).len() > 0 {
        assert(extract_failure(stderr) =~= "tar extraction failed: "@ + trimmed(stderr) + none);
    }
}

} // verus!

//! Sources that come out of a repository.
use std::collections::hash_map::DefaultHasher;
use std::hash::{Hash, Hasher};
use vstd::prelude::*;
use vstd::std_specs::hash::DefaultHasherAdditionalSpecFns;
use vstd::string::*;

use crate::paths::{below, join_path};
use crate::process::CommandOutput;
use crate::text::{
    digit_char, join, joined, no_texts, push_text, same, texts, to_digit_char, trim, trimmed,
};

verus! {

// ---------------------------------------------------------------------------
// Where a repository is kept
// ---------------------------------------------------------------------------

/// What a text writes to a hasher.
pub uninterp spec fn text_writes(value: Seq<char>) -> Seq<Seq<u8>>;

/// Calls `std::hash::Hash::hash` of `str`, which feeds the text to the hasher.
/// What it writes depends on the text alone. Which bytes these are, and whether
/// two texts differ in them, is left unsaid.
#[verifier::external_body]
pub(crate) fn feed_text(value: &str, hasher: &mut DefaultHasher)
    ensures
        final(hasher)@ == old(hasher)@ + text_writes(value@),
{
    value.hash(hasher);
}

/// What the standard library's default hasher makes of a text.
pub open spec fn default_hash(value: Seq<char>) -> u64 {
    DefaultHasher::spec_finish(text_writes(value))
}

/// What the standard library's default hasher makes of a text.
pub fn hash_text(value: &str) -> (r: u64)
    ensures
        r == default_hash(value@),
{
    let mut hasher = DefaultHasher::new();
    feed_text(value, &mut hasher);
    proof {
        assert(hasher@ =~= text_writes(value@));
    }
    hasher.finish()
}

/// The last `width` hexadecimal digits of a number.
pub open spec fn hex_digits(n: nat, width: nat) -> Seq<char>
    decreases width,
{
    if width == 0 {
        Seq::empty()
    } else {
        hex_digits(n / 16, (width - 1) as nat).push(digit_char(n % 16))
    }
}

/// Adds the last `width` hexadecimal digits of a number to a text.
fn append_hex(out: &mut String, n: u64, width: usize)
    ensures
        final(out)@ == old(out)@ + hex_digits(n as nat, width as nat),
    decreases width,
{
    if width > 0 {
        append_hex(out, n / 16, width - 1);
        out.push(to_digit_char((n % 16) as u8));
        proof {
            assert(out@ =~= old(out)@ + hex_digits(n as nat, width as nat));
        }
    } else {
        proof {
            assert(out@ =~= old(out)@ + hex_digits(n as nat, 0));
        }
    }
}

/// The name that goes with a hash: its sixteen hexadecimal digits.
pub fn hash_name(hash: u64) -> (r: String)
    ensures
        r@ == hex_digits(hash as nat, 16),
{
    let mut r = String::new();
    append_hex(&mut r, hash, 16);
    proof {
        assert(r@ =~= hex_digits(hash as nat, 16));
    }
    r
}

/// The name that a repository is kept under.
pub fn hash_key(value: &str) -> (r: String)
    ensures
        r@ == hex_digits(default_hash(value@) as nat, 16),
{
    hash_name(hash_text(value))
}

/// The directory that repositories are kept in.
pub open spec fn git_root(state_dir: Seq<char>) -> Seq<char> {
    below(below(state_dir, "jobs"@), "git"@)
}

/// The directory that repositories are kept in.
pub fn git_checkout_root(state_dir: &str) -> (r: String)
    ensures
        r@ == git_root(state_dir@),
{
    let jobs = join_path(state_dir, "jobs");
    join_path(jobs.as_str(), "git")
}

/// The directory that a repository is kept in.
pub fn git_repo_dir(state_dir: &str, repo_url: &str) -> (r: String)
    ensures
        r@ == below(git_root(state_dir@), hex_digits(default_hash(repo_url@) as nat, 16)),
{
    let root = git_checkout_root(state_dir);
    let key = hash_key(repo_url);
    join_path(root.as_str(), key.as_str())
}

// ---------------------------------------------------------------------------
// The steps of a checkout
// ---------------------------------------------------------------------------

/// What is to be checked out.
#[derive(Debug)]
pub struct Checkout {
    pub repo_url: String,
    pub git_ref: String,
    pub commit_sha: String,
    pub repo_dir: String,
}

/// What is done next for a checkout.
#[derive(Debug, Clone, Copy, PartialEq, Eq, Structural)]
pub enum GitStep {
    LookForRepo,
    Clone,
    SetUrl,
    Fetch,
    ReadHead,
    CheckOut,
    Clean,
    Finished,
    Failed,
}

/// How a step ended.
#[derive(Debug)]
pub enum GitEvent {
    Done,
    Failed,
    /// Whether the repository is there.
    Answer(bool),
    /// The commit that was fetched.
    Head(String),
}

/// Whether the commit that was fetched is the one that was asked for.
pub open spec fn is_commit(fetched: Seq<char>, commit_sha: Seq<char>) -> bool {
    trimmed(fetched) == trimmed(commit_sha)
}

/// The step after a step that ended in some way. Nothing is checked out but the
/// commit that was asked for.
pub open spec fn git_step_after(step: GitStep, event: GitEvent, commit_sha: Seq<char>) -> GitStep {
    match (step, event) {
        (GitStep::LookForRepo, GitEvent::Answer(there)) => if there {
            GitStep::SetUrl
        } else {
            GitStep::Clone
        },
        (GitStep::Clone, GitEvent::Done) => GitStep::Fetch,
        (GitStep::SetUrl, GitEvent::Done) => GitStep::Fetch,
        (GitStep::Fetch, GitEvent::Done) => GitStep::ReadHead,
        (GitStep::ReadHead, GitEvent::Head(fetched)) => if is_commit(fetched@, commit_sha) {
            GitStep::CheckOut
        } else {
            GitStep::Failed
        },
        (GitStep::CheckOut, GitEvent::Done) => GitStep::Clean,
        (GitStep::Clean, GitEvent::Done) => GitStep::Finished,
        (GitStep::Finished, _) => GitStep::Finished,
        _ => GitStep::Failed,
    }
}

/// The step after a step that ended in some way.
pub fn next_git_step(checkout: &Checkout, step: GitStep, event: &GitEvent) -> (r: GitStep)
    ensures
        r == git_step_after(step, *event, checkout.commit_sha@),
{
    match (step, event) {
        (GitStep::LookForRepo, GitEvent::Answer(there)) => {
            if *there {
                GitStep::SetUrl
            } else {
                GitStep::Clone
            }
        },
        (GitStep::Clone, GitEvent::Done) => GitStep::Fetch,
        (GitStep::SetUrl, GitEvent::Done) => GitStep::Fetch,
        (GitStep::Fetch, GitEvent::Done) => GitStep::ReadHead,
        (GitStep::ReadHead, GitEvent::Head(fetched)) => {
            let a = trim(fetched.as_str());
            let b = trim(checkout.commit_sha.as_str());
            if same(a.as_str(), b.as_str()) {
                GitStep::CheckOut
            } else {
                GitStep::Failed
            }
        },
        (GitStep::CheckOut, GitEvent::Done) => GitStep::Clean,
        (GitStep::Clean, GitEvent::Done) => GitStep::Finished,
        (GitStep::Finished, _) => GitStep::Finished,
        _ => GitStep::Failed,
    }
}

/// A commit is checked out only where it was fetched and is the one that was
/// asked for.
pub proof fn only_the_asked_commit_is_checked_out(
    step: GitStep,
    event: GitEvent,
    commit_sha: Seq<char>,
)
    requires
        git_step_after(step, event, commit_sha) == GitStep::CheckOut,
    ensures
        step == GitStep::ReadHead,
        event matches GitEvent::Head(fetched) && trimmed(fetched@) == trimmed(commit_sha),
{
}

/// The arguments of `git` for a step.
pub open spec fn git_arguments(checkout: Checkout, step: GitStep) -> Seq<Seq<char>> {
    match step {
        GitStep::Clone => seq![
            "clone"@,
            "--no-checkout"@,
            checkout.repo_url@,
            checkout.repo_dir@,
        ],
        GitStep::SetUrl => seq!["remote"@, "set-url"@, "origin"@, checkout.repo_url@],
        GitStep::Fetch => seq!["fetch"@, "--depth"@, "1"@, "origin"@, checkout.git_ref@],
        GitStep::ReadHead => seq!["rev-parse"@, "FETCH_HEAD"@],
        GitStep::CheckOut => seq!["checkout"@, "--force"@, checkout.commit_sha@],
        GitStep::Clean => seq!["clean"@, "-fdx"@],
        _ => Seq::empty(),
    }
}

/// The arguments of `git` for a step.
pub fn git_args(checkout: &Checkout, step: GitStep) -> (r: Vec<String>)
    ensures
        texts(r@) == git_arguments(*checkout, step),
{
    let mut r = no_texts();
    match step {
        GitStep::Clone => {
            push_text(&mut r, "clone");
            push_text(&mut r, "--no-checkout");
            push_text(&mut r, checkout.repo_url.as_str());
            push_text(&mut r, checkout.repo_dir.as_str());
        },
        GitStep::SetUrl => {
            push_text(&mut r, "remote");
            push_text(&mut r, "set-url");
            push_text(&mut r, "origin");
            push_text(&mut r, checkout.repo_url.as_str());
        },
        GitStep::Fetch => {
            push_text(&mut r, "fetch");
            push_text(&mut r, "--depth");
            push_text(&mut r, "1");
            push_text(&mut r, "origin");
            push_text(&mut r, checkout.git_ref.as_str());
        },
        GitStep::ReadHead => {
            push_text(&mut r, "rev-parse");
            push_text(&mut r, "FETCH_HEAD");
        },
        GitStep::CheckOut => {
            push_text(&mut r, "checkout");
            push_text(&mut r, "--force");
            push_text(&mut r, checkout.commit_sha.as_str());
        },
        GitStep::Clean => {
            push_text(&mut r, "clean");
            push_text(&mut r, "-fdx");
        },
        _ => {},
    }
    r
}

/// Whether `git` works inside the repository in a step.
pub fn runs_in_repo(step: GitStep) -> (r: bool)
    ensures
        r == (step != GitStep::Clone),
{
    step != GitStep::Clone
}

// ---------------------------------------------------------------------------
// Failures
// ---------------------------------------------------------------------------

/// What a failure of a step means.
pub open spec fn git_context_text(checkout: Checkout, step: GitStep) -> Seq<char> {
    match step {
        GitStep::Clone => "failed to clone "@ + checkout.repo_url@,
        GitStep::SetUrl => "failed to update origin url for "@ + checkout.repo_dir@,
        GitStep::Fetch => "failed to fetch "@ + checkout.git_ref@ + " from "@ + checkout.repo_url@,
        GitStep::ReadHead => "failed to resolve FETCH_HEAD"@,
        GitStep::CheckOut => "failed to checkout "@ + checkout.commit_sha@,
        _ => "failed to clean checkout"@,
    }
}

/// What a failure of a step means.
pub fn git_context(checkout: &Checkout, step: GitStep) -> (r: String)
    ensures
        r@ == git_context_text(*checkout, step),
{
    match step {
        GitStep::Clone => {
            let mut r = "failed to clone ".to_string();
            r.append(checkout.repo_url.as_str());
            r
        },
        GitStep::SetUrl => {
            let mut r = "failed to update origin url for ".to_string();
            r.append(checkout.repo_dir.as_str());
            r
        },
        GitStep::Fetch => {
            let mut r = "failed to fetch ".to_string();
            r.append(checkout.git_ref.as_str());
            r.append(" from ");
            r.append(checkout.repo_url.as_str());
            r
        },
        GitStep::ReadHead => "failed to resolve FETCH_HEAD".to_string(),
        GitStep::CheckOut => {
            let mut r = "failed to checkout ".to_string();
            r.append(checkout.commit_sha.as_str());
            r
        },
        _ => "failed to clean checkout".to_string(),
    }
}

/// What is said where another commit was fetched than was asked for.
pub fn commit_mismatch_message(checkout: &Checkout, fetched: &str) -> (r: String)
    ensures
        r@ == "fetched commit "@ + trimmed(fetched@) + " does not match expected "@ + trimmed(
            checkout.commit_sha@,
        ) + " for ref "@ + checkout.git_ref@,
{
    let mut r = "fetched commit ".to_string();
    r.append(trim(fetched).as_str());
    r.append(" does not match expected ");
    r.append(trim(checkout.commit_sha.as_str()).as_str());
    r.append(" for ref ");
    r.append(checkout.git_ref.as_str());
    r
}

/// What is said where `git` failed.
pub open spec fn git_failure(args: Seq<Seq<char>>, stderr: Seq<char>) -> Seq<char> {
    "git "@ + joined(args, " "@) + " failed: "@ + (if trimmed(stderr).len() > 0 {
        trimmed(stderr)
    } else {
        "unknown error"@
    })
}

/// What is said where `git` failed, given what it wrote.
pub fn git_failure_message(args: &Vec<String>, stderr: &str) -> (r: String)
    ensures
        r@ == git_failure(texts(args@), stderr@),
{
    let t = trim(stderr);
    let detail = if t.as_str().is_empty() {
        "unknown error".to_string()
    } else {
        t
    };
    let mut r = "git ".to_string();
    r.append(join(args, " ").as_str());
    r.append(" failed: ");
    r.append(detail.as_str());
    r
}

/// What `git` had to say: its output, or the report of its failure.
pub fn judge_git(args: &Vec<String>, output: &CommandOutput) -> (r: Result<String, String>)
    ensures
        match r {
            Ok(text) => output.success && text@ == trimmed(output.out()),
            Err(e) => !output.success && e@ == git_failure(texts(args@), output.err()),
        },
{
    if output.success {
        let out = output.stdout_text();
        Ok(trim(out.as_str()))
    } else {
        let err = output.stderr_text();
        Err(git_failure_message(args, err.as_str()))
    }
}

/// Where a checkout stands after these events.
pub open spec fn git_at(events: Seq<GitEvent>, commit_sha: Seq<char>) -> GitStep
    decreases events.len(),
{
    if events.len() == 0 {
        GitStep::LookForRepo
    } else {
        git_step_after(git_at(events.drop_last(), commit_sha), events.last(), commit_sha)
    }
}

/// That this step of a checkout was done.
pub open spec fn git_has_done(
    events: Seq<GitEvent>,
    commit_sha: Seq<char>,
    step: GitStep,
) -> bool {
    exists|i: int|
        0 <= i < events.len() && events[i] == GitEvent::Done && #[trigger] git_at(
            events.take(i),
            commit_sha,
        ) == step
}

/// That the commit that was asked for is the one that was fetched.
pub open spec fn git_has_seen(events: Seq<GitEvent>, commit_sha: Seq<char>) -> bool {
    exists|i: int|
        0 <= i < events.len() && #[trigger] git_at(events.take(i), commit_sha)
            == GitStep::ReadHead && (events[i] matches GitEvent::Head(fetched) && trimmed(fetched@)
            == trimmed(commit_sha))
}

proof fn lemma_git_kept(
    events: Seq<GitEvent>,
    event: GitEvent,
    commit_sha: Seq<char>,
    step: GitStep,
)
    ensures
        git_has_done(events, commit_sha, step) ==> git_has_done(
            events.push(event),
            commit_sha,
            step,
        ),
        git_has_seen(events, commit_sha) ==> git_has_seen(events.push(event), commit_sha),
        git_at(events, commit_sha) == step && event == GitEvent::Done ==> git_has_done(
            events.push(event),
            commit_sha,
            step,
        ),
{
    let more = events.push(event);
    assert forall|i: int| 0 <= i <= events.len() implies #[trigger] more.take(i) == events.take(
        i,
    ) by {
        assert(more.take(i) =~= events.take(i));
    }
    if git_has_done(events, commit_sha, step) {
        let i = choose|i: int|
            0 <= i < events.len() && events[i] == GitEvent::Done && #[trigger] git_at(
                events.take(i),
                commit_sha,
            ) == step;
        assert(more.take(i) == events.take(i) && more[i] == events[i]);
    }
    if git_has_seen(events, commit_sha) {
        let i = choose|i: int|
            0 <= i < events.len() && #[trigger] git_at(events.take(i), commit_sha)
                == GitStep::ReadHead && (events[i] matches GitEvent::Head(fetched) && trimmed(
                fetched@,
            ) == trimmed(commit_sha));
        assert(more.take(i) == events.take(i) && more[i] == events[i]);
    }
    assert(more.take(events.len() as int) =~= events);
    assert(more[events.len() as int] == event);
}

/// A checkout is finished only once the repository was brought here or told where to
/// fetch from, the reference was fetched, the commit was seen to be the one that was asked
/// for, and that was checked out and cleaned up, in this order.
pub proof fn finished_checkout_has_done_all(events: Seq<GitEvent>, commit_sha: Seq<char>)
    ensures
        ({
            let at = git_at(events, commit_sha);
            let late = at == GitStep::CheckOut || at == GitStep::Clean || at == GitStep::Finished;
            &&& at == GitStep::Finished ==> git_has_done(events, commit_sha, GitStep::Clean)
            &&& at == GitStep::Finished || at == GitStep::Clean ==> git_has_done(
                events,
                commit_sha,
                GitStep::CheckOut,
            )
            &&& late ==> git_has_seen(events, commit_sha)
            &&& late || at == GitStep::ReadHead ==> git_has_done(
                events,
                commit_sha,
                GitStep::Fetch,
            )
            &&& late || at == GitStep::ReadHead || at == GitStep::Fetch ==> git_has_done(
                events,
                commit_sha,
                GitStep::Clone,
            ) || git_has_done(events, commit_sha, GitStep::SetUrl)
        }),
    decreases events.len(),
{
    if events.len() > 0 {
        let init = events.drop_last();
        let event = events.last();
        assert(init.push(event) =~= events);
        finished_checkout_has_done_all(init, commit_sha);
        lemma_git_kept(init, event, commit_sha, GitStep::Clone);
        lemma_git_kept(init, event, commit_sha, GitStep::SetUrl);
        lemma_git_kept(init, event, commit_sha, GitStep::Fetch);
        lemma_git_kept(init, event, commit_sha, GitStep::CheckOut);
        lemma_git_kept(init, event, commit_sha, GitStep::Clean);
        assert(events.take(init.len() as int) =~= init);
        if git_at(init, commit_sha) == GitStep::ReadHead {
            assert(git_at(events.take(init.len() as int), commit_sha) == GitStep::ReadHead);
            assert(events[init.len() as int] == event);
        }
    }
}

/// A checkout in which every step works comes to its end, whether the repository was
/// there before or not; where it was not, it is brought, and where it was, it is not.
pub proof fn good_checkout_finishes(there: bool, fetched: String, commit_sha: Seq<char>)
    ensures
        ({
            let brought = git_step_after(
                GitStep::LookForRepo,
                GitEvent::Answer(there),
                commit_sha,
            );
            let asked = git_step_after(brought, GitEvent::Done, commit_sha);
            let read = git_step_after(asked, GitEvent::Done, commit_sha);
            let seen = git_step_after(read, GitEvent::Head(fetched), commit_sha);
            let out = git_step_after(seen, GitEvent::Done, commit_sha);
            &&& brought == GitStep::Clone <==> !there
            &&& brought == GitStep::SetUrl <==> there
            &&& asked == GitStep::Fetch
            &&& read == GitStep::ReadHead
            &&& trimmed(fetched@) == trimmed(commit_sha) ==> seen == GitStep::CheckOut && out
                == GitStep::Clean && git_step_after(out, GitEvent::Done, commit_sha)
                == GitStep::Finished
            &&& trimmed(fetched@) != trimmed(commit_sha) ==> seen == GitStep::Failed && out
                == GitStep::Failed
        }),
{
}

/// A step that fails ends a checkout that is not finished, and a checkout that ended stays
/// as it is.
pub proof fn failure_ends_a_checkout(step: GitStep, event: GitEvent, commit_sha: Seq<char>)
    ensures
        step != GitStep::Finished ==> git_step_after(step, GitEvent::Failed, commit_sha)
            == GitStep::Failed,
        git_step_after(GitStep::Failed, event, commit_sha) == GitStep::Failed,
        git_step_after(GitStep::Finished, event, commit_sha) == GitStep::Finished,
{
}

/// Git is told what the checkout says: where the repository is and where it goes, which
/// reference is fetched, and which commit is checked out.
pub proof fn git_is_told_what_was_asked_for(checkout: Checkout)
    ensures
        ({
            let clone = git_arguments(checkout, GitStep::Clone);
            &&& clone[0] == "clone"@ && clone.last() == checkout.repo_dir@ && clone[clone.len() - 2]
                == checkout.repo_url@
            &&& clone.contains("--no-checkout"@)
        }),
        ({
            let origin = git_arguments(checkout, GitStep::SetUrl);
            origin == seq!["remote"@, "set-url"@, "origin"@].push(checkout.repo_url@)
        }),
        ({
            let fetch = git_arguments(checkout, GitStep::Fetch);
            &&& fetch[0] == "fetch"@ && fetch.last() == checkout.git_ref@ && fetch[fetch.len() - 2]
                == "origin"@
        }),
        ({
            let head = git_arguments(checkout, GitStep::ReadHead);
            head[0] == "rev-parse"@ && head.last() == "FETCH_HEAD"@
        }),
        ({
            let out = git_arguments(checkout, GitStep::CheckOut);
            out[0] == "checkout"@ && out.last() == checkout.commit_sha@ && out.contains("--force"@)
        }),
        git_arguments(checkout, GitStep::Clean)[0] == "clean"@,
{
    let clone = git_arguments(checkout, GitStep::Clone);
    assert(clone[1] == "--no-checkout"@);
    let origin = git_arguments(checkout, GitStep::SetUrl);
    assert(origin =~= seq!["remote"@, "set-url"@, "origin"@].push(checkout.repo_url@));
    let out = git_arguments(checkout, GitStep::CheckOut);
    assert(out[1] == "--force"@);
}

/// What is told of a git command that failed names the command and what git said of it,
/// or that it said nothing.
pub proof fn git_failures_are_told(args: Seq<Seq<char>>, stderr: Seq<char>)
    ensures
        crate::text::occurs(git_failure(args, stderr), joined(args, " "@)),
        trimmed(stderr).len() > 0 ==> crate::text::occurs(
            git_failure(args, stderr),
            trimmed(stderr),
        ),
        trimmed(stderr).len() == 0 ==> crate::text::occurs(
            git_failure(args, stderr),
            "unknown error"@,
        ),
{
    let none = Seq::<char>::empty();
    let all = joined(args, " "@);
    let detail = if trimmed(stderr).len() > 0 {
        trimmed(stderr)
    } else {
        "unknown error"@
    };
    let text = git_failure(args, stderr);
    assert(crate::text::occurs(text, all)) by {
        crate::text::middle_occurs("git "@, all, " failed: "@ + detail);
        assert(text =~= "git "@ + all + (" failed: "@ + detail));
    }
    assert(crate::text::occurs(text, detail)) by {
        crate::text::middle_occurs("git "@ + all + " failed: "@, detail, none);
        assert(text =~= "git "@ + all + " failed: "@ + detail + none);
    }
}

/// What is said of a step that failed names what the step worked on.
#[verifier::rlimit(40)]
pub proof fn failed_steps_name_their_subject(checkout: Checkout)
    ensures
        crate::text::occurs(git_context_text(checkout, GitStep::Clone), checkout.repo_url@),
        crate::text::occurs(git_context_text(checkout, GitStep::SetUrl), checkout.repo_dir@),
        crate::text::occurs(git_context_text(checkout, GitStep::Fetch), checkout.git_ref@),
        crate::text::occurs(git_context_text(checkout, GitStep::Fetch), checkout.repo_url@),
        crate::text::occurs(git_context_text(checkout, GitStep::CheckOut), checkout.commit_sha@),
{
    let none = Seq::<char>::empty();
    let (url, dir, sha) = (checkout.repo_url@, checkout.repo_dir@, checkout.commit_sha@);
    assert(crate::text::occurs(git_context_text(checkout, GitStep::Clone), url)) by {
        crate::text::middle_occurs("failed to clone "@, url, none);
        assert(git_context_text(checkout, GitStep::Clone) =~= "failed to clone "@ + url + none);
    }
    assert(crate::text::occurs(git_context_text(checkout, GitStep::SetUrl), dir)) by {
        let front = "failed to update origin url for "@;
        crate::text::middle_occurs(front, dir, none);
        assert(git_context_text(checkout, GitStep::SetUrl) =~= front + dir + none);
    }
    let fetch = git_context_text(checkout, GitStep::Fetch);
    let front = "failed to fetch "@;
    let name = checkout.git_ref@;
    assert(crate::text::occurs(fetch, name)) by {
        crate::text::middle_occurs(front, name, " from "@ + url);
        assert(fetch =~= front + name + (" from "@ + url));
    }
    assert(crate::text::occurs(fetch, url)) by {
        crate::text::middle_occurs(front + name + " from "@, url, none);
        assert(fetch =~= front + name + " from "@ + url + none);
    }
    assert(crate::text::occurs(git_context_text(checkout, GitStep::CheckOut), sha)) by {
        crate::text::middle_occurs("failed to checkout "@, sha, none);
        assert(git_context_text(checkout, GitStep::CheckOut) =~= "failed to checkout "@ + sha
            + none);
    }
}

/// A number that is written in so many hexadecimal digits has that many, each of them
/// one, and the number is read back from them.
pub proof fn hex_digits_read_back(n: nat, width: nat)
    ensures
        hex_digits(n, width).len() == width,
        forall|i: int|
            0 <= i < width ==> '0' <= #[trigger] hex_digits(n, width)[i] <= '9' || 'a'
                <= hex_digits(n, width)[i] <= 'f',
        n < vstd::arithmetic::power::pow(16, width) ==> crate::netaddr::hex_number(
            hex_digits(n, width),
        ) == Some(n),
    decreases width,
{
    reveal(vstd::arithmetic::power::pow);
    if width > 0 {
        let w = (width - 1) as nat;
        hex_digits_read_back(n / 16, w);
        let all = hex_digits(n, width);
        assert(all.drop_last() =~= hex_digits(n / 16, w));
        assert(all.last() == digit_char(n % 16));
        if n < vstd::arithmetic::power::pow(16, width) {
            let p = vstd::arithmetic::power::pow(16, w);
            assert(vstd::arithmetic::power::pow(16, width) == 16 * p);
            assert(n / 16 < p);
        }
    }
}

/// The checkouts stand below the directory of the agent, each repository in a directory
/// that is named by sixteen hexadecimal digits; two with different digits are apart.
pub proof fn repositories_are_kept_apart(state_dir: Seq<char>, a: u64, b: u64)
    ensures
        ({
            let x = below(git_root(state_dir), hex_digits(a as nat, 16));
            let y = below(git_root(state_dir), hex_digits(b as nat, 16));
            &&& crate::text::begins_with(x, state_dir)
            &&& a != b ==> x != y
        }),
{
    reveal_strlit("jobs");
    reveal_strlit("git");
    let jobs = below(state_dir, "jobs"@);
    let root = git_root(state_dir);
    let p = hex_digits(a as nat, 16);
    let q = hex_digits(b as nat, 16);
    hex_digits_read_back(a as nat, 16);
    hex_digits_read_back(b as nat, 16);
    assert(vstd::arithmetic::power::pow(16, 16) == 0x1_0000_0000_0000_0000int) by {
        reveal_with_fuel(vstd::arithmetic::power::pow, 17);
    }
    assert(p[0] != '/' && q[0] != '/');
    crate::paths::path_begins_with_its_base(state_dir, "jobs"@);
    crate::paths::path_begins_with_its_base(jobs, "git"@);
    crate::paths::path_begins_with_its_base(root, p);
    crate::paths::path_begins_with_its_base(root, q);
    crate::text::prefix_of_prefix(root, jobs, state_dir);
    crate::text::prefix_of_prefix(below(root, p), root, state_dir);
}

} // verus!

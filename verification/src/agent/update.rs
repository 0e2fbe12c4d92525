//! How the agent asks for its own update.
use vstd::prelude::*;
use vstd::string::*;

use crate::process::CommandOutput;
use crate::text::{
    contains, lowered, no_texts, occurs, push_text, str_of, texts, to_lower, trim, trimmed,
};

verus! {

/// The service that updates the agent, given the value of `STATIX_UPDATE_SERVICE`.
pub open spec fn service_of(value: Option<Seq<char>>) -> Seq<char> {
    match value {
        Some(v) => if trimmed(v).len() > 0 {
            v
        } else {
            "statix-agent-update.service"@
        },
        None => "statix-agent-update.service"@,
    }
}

/// The service that updates the agent, given the value of `STATIX_UPDATE_SERVICE`.
pub fn update_service(value: Option<&str>) -> (r: String)
    ensures
        r@ == service_of(str_of(value)),
{
    match value {
        Some(v) => {
            let t = trim(v);
            if t.as_str().is_empty() {
                "statix-agent-update.service".to_string()
            } else {
                v.to_owned()
            }
        },
        None => "statix-agent-update.service".to_string(),
    }
}

/// The arguments of `systemctl` that start the service.
pub fn systemctl_args(service: &str) -> (r: Vec<String>)
    ensures
        texts(r@) == seq!["start"@, service@],
{
    let mut r = no_texts();
    push_text(&mut r, "start");
    push_text(&mut r, service);
    r
}

/// The arguments of `sudo` that start the service.
pub fn sudo_args(service: &str) -> (r: Vec<String>)
    ensures
        texts(r@) == seq!["-n"@, "systemctl"@, "start"@, service@],
{
    let mut r = no_texts();
    push_text(&mut r, "-n");
    push_text(&mut r, "systemctl");
    push_text(&mut r, "start");
    push_text(&mut r, service);
    r
}

/// How the first try ended.
#[derive(Debug)]
pub enum FirstTry {
    Exited(CommandOutput),
    NotLaunched,
}

/// Whether a text says that the agent may not do what it tried.
pub open spec fn says_denied(stderr: Seq<char>) -> bool {
    let l = lowered(stderr);
    occurs(l, "interactive authentication required"@) || occurs(l, "access denied"@) || occurs(
        l,
        "permission denied"@,
    )
}

/// Whether a text says that the agent may not do what it tried.
pub fn is_denial(stderr: &str) -> (r: bool)
    ensures
        r == says_denied(stderr@),
{
    let lower = to_lower(stderr);
    let l = lower.as_str();
    contains(l, "interactive authentication required") || contains(l, "access denied") || contains(
        l,
        "permission denied",
    )
}

/// Whether it is tried again with more rights: where the agent was denied it, or
/// could not even try.
pub fn needs_sudo(first: &FirstTry) -> (r: bool)
    ensures
        r == match *first {
            FirstTry::Exited(output) => !output.success && says_denied(output.err()),
            FirstTry::NotLaunched => true,
        },
{
    match first {
        FirstTry::Exited(output) => {
            if output.success {
                return false;
            }
            let err = output.stderr_text();
            is_denial(err.as_str())
        },
        FirstTry::NotLaunched => true,
    }
}

/// What is said where the service could not be started.
pub open spec fn start_failure(service: Seq<char>, stderr: Seq<char>) -> Seq<char> {
    "systemctl start "@ + service + " failed: "@ + (if trimmed(stderr).len() > 0 {
        trimmed(stderr)
    } else {
        "unknown error"@
    })
}

/// What is said where the service could not be started, given what was written.
pub fn start_failure_message(service: &str, stderr: &str) -> (r: String)
    ensures
        r@ == start_failure(service@, stderr@),
{
    let t = trim(stderr);
    let detail = if t.as_str().is_empty() {
        "unknown error".to_string()
    } else {
        t
    };
    let mut r = "systemctl start ".to_string();
    r.append(service);
    r.append(" failed: ");
    r.append(detail.as_str());
    r
}

/// What came of the last try; the error is a message for a reader.
pub fn judge_update(service: &str, output: &CommandOutput) -> (r: Result<(), String>)
    ensures
        match r {
            Ok(_) => output.success,
            Err(e) => !output.success && e@ == start_failure(service@, output.err()),
        },
{
    if output.success {
        return Ok(());
    }
    let err = output.stderr_text();
    Err(start_failure_message(service, err.as_str()))
}

/// The service that updates the agent is the one that was configured, and the usual one
/// where nothing was.
pub proof fn configured_service_is_started(value: Seq<char>)
    ensures
        trimmed(value).len() > 0 ==> service_of(Some(value)) == value,
        trimmed(value).len() == 0 ==> service_of(Some(value)) == service_of(None),
        service_of(None) == "statix-agent-update.service"@,
{
}

/// An answer that speaks of a missing permission is a denial, in whatever letters and
/// whatever stands around it; one without such words is none.
pub proof fn denials_are_understood(front: Seq<char>, back: Seq<char>, said: Seq<char>)
    requires
        lowered(said) == "interactive authentication required"@ || lowered(said)
            == "access denied"@ || lowered(said) == "permission denied"@,
    ensures
        says_denied(front + said + back),
        !says_denied(Seq::empty()),
{
    let all = front + said + back;
    assert(lowered(all) =~= lowered(front) + lowered(said) + lowered(back));
    crate::text::middle_occurs(lowered(front), lowered(said), lowered(back));
    reveal_strlit("interactive authentication required");
    reveal_strlit("access denied");
    reveal_strlit("permission denied");
}

/// An answer that is a denial speaks of a missing permission.
pub proof fn only_denials_are_denials(stderr: Seq<char>)
    requires
        says_denied(stderr),
    ensures
        exists|i: int|
            crate::text::occurs_at(lowered(stderr), "interactive authentication required"@, i)
                || crate::text::occurs_at(lowered(stderr), "access denied"@, i)
                || crate::text::occurs_at(lowered(stderr), "permission denied"@, i),
{
}

/// What is told of a service that did not start names the service and what was said.
pub proof fn failed_starts_are_told(service: Seq<char>, stderr: Seq<char>)
    ensures
        occurs(start_failure(service, stderr), service),
        trimmed(stderr).len() > 0 ==> occurs(start_failure(service, stderr), trimmed(stderr)),
        trimmed(stderr).len() == 0 ==> occurs(start_failure(service, stderr), "unknown error"@),
{
    let none = Seq::<char>::empty();
    let detail = if trimmed(stderr).len() > 0 {
        trimmed(stderr)
    } else {
        "unknown error"@
    };
    let text = start_failure(service, stderr);
    let front = "systemctl start "@;
    crate::text::middle_occurs(front, service, " failed: "@ + detail);
    assert(text =~= front + service + (" failed: "@ + detail));
    crate::text::middle_occurs(front + service + " failed: "@, detail, none);
    assert(text =~= front + service + " failed: "@ + detail + none);
}

} // verus!

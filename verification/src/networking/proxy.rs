//! How the proxy is told of new routes.
use vstd::prelude::*;
use vstd::string::*;

use crate::text::{no_texts, push_text, text_of, texts};

verus! {

/// What the agent asks of the proxy next.
#[derive(Debug, Clone, Copy, PartialEq, Eq, Structural)]
pub enum ProxyStep {
    Validate,
    Reload,
    Start,
    Done,
}

/// How a command of the proxy ended: with success, with a status that shows
/// failure, or not at all because it could not be launched.
#[derive(Debug)]
pub enum ProxyOutcome {
    Succeeded,
    Failed(String),
    NotLaunched(String),
}

/// The arguments of `caddy` for a step.
pub open spec fn proxy_arguments(step: ProxyStep, caddyfile: Seq<char>) -> Seq<Seq<char>> {
    match step {
        ProxyStep::Validate => seq!["validate"@, "--config"@, caddyfile],
        ProxyStep::Reload => seq!["reload"@, "--config"@, caddyfile],
        ProxyStep::Start => seq!["start"@, "--config"@, caddyfile],
        ProxyStep::Done => Seq::empty(),
    }
}

/// The arguments of `caddy` for a step.
pub fn proxy_args(step: ProxyStep, caddyfile: &str) -> (r: Vec<String>)
    ensures
        texts(r@) == proxy_arguments(step, caddyfile@),
{
    let verb = match step {
        ProxyStep::Validate => "validate",
        ProxyStep::Reload => "reload",
        ProxyStep::Start => "start",
        ProxyStep::Done => {
            return no_texts();
        },
    };
    let mut r = no_texts();
    push_text(&mut r, verb);
    push_text(&mut r, "--config");
    push_text(&mut r, caddyfile);
    r
}

/// The step after a step that ended in some way. Routes that do not pass
/// validation are not loaded. Where a reload fails, the proxy may not be
/// running; it is started if there is something to serve.
pub open spec fn step_after(
    step: ProxyStep,
    outcome: ProxyOutcome,
    start_if_stopped: bool,
) -> ProxyStep {
    match (step, outcome) {
        (ProxyStep::Validate, ProxyOutcome::Succeeded) => ProxyStep::Reload,
        (ProxyStep::Reload, ProxyOutcome::Failed(_)) => if start_if_stopped {
            ProxyStep::Start
        } else {
            ProxyStep::Done
        },
        _ => ProxyStep::Done,
    }
}

/// The warning that a step leaves, if it ended badly.
pub open spec fn step_warning(step: ProxyStep, outcome: ProxyOutcome) -> Option<Seq<char>> {
    match (step, outcome) {
        (ProxyStep::Validate, ProxyOutcome::Failed(status)) => Some(
            "caddy config validation failed with "@ + status@
                + "; exposure proxy routes were not reloaded"@,
        ),
        (ProxyStep::Validate, ProxyOutcome::NotLaunched(error)) => Some(
            "failed to launch caddy for exposure proxy routes: "@ + error@,
        ),
        (ProxyStep::Reload, ProxyOutcome::Failed(status)) => Some(
            "caddy reload failed with "@ + status@ + "; attempting to start caddy"@,
        ),
        (ProxyStep::Reload, ProxyOutcome::NotLaunched(error)) => Some(
            "failed to launch caddy reload for exposure proxy routes: "@ + error@,
        ),
        (ProxyStep::Start, ProxyOutcome::NotLaunched(error)) => Some(
            "failed to launch caddy start for exposure proxy routes: "@ + error@,
        ),
        _ => None,
    }
}

/// The step after a step that ended in some way, and the warning that it leaves.
pub fn next_proxy_step(
    step: ProxyStep,
    outcome: &ProxyOutcome,
    start_if_stopped: bool,
) -> (r: (ProxyStep, Option<String>))
    ensures
        r.0 == step_after(step, *outcome, start_if_stopped),
        text_of(r.1) == step_warning(step, *outcome),
{
    match (step, outcome) {
        (ProxyStep::Validate, ProxyOutcome::Succeeded) => (ProxyStep::Reload, None),
        (ProxyStep::Validate, ProxyOutcome::Failed(status)) => {
            let mut w = "caddy config validation failed with ".to_string();
            w.append(status.as_str());
            w.append("; exposure proxy routes were not reloaded");
            (ProxyStep::Done, Some(w))
        },
        (ProxyStep::Validate, ProxyOutcome::NotLaunched(error)) => {
            let mut w = "failed to launch caddy for exposure proxy routes: ".to_string();
            w.append(error.as_str());
            (ProxyStep::Done, Some(w))
        },
        (ProxyStep::Reload, ProxyOutcome::Failed(status)) => {
            let mut w = "caddy reload failed with ".to_string();
            w.append(status.as_str());
            w.append("; attempting to start caddy");
            let next = if start_if_stopped {
                ProxyStep::Start
            } else {
                ProxyStep::Done
            };
            (next, Some(w))
        },
        (ProxyStep::Reload, ProxyOutcome::NotLaunched(error)) => {
            let mut w = "failed to launch caddy reload for exposure proxy routes: ".to_string();
            w.append(error.as_str());
            (ProxyStep::Done, Some(w))
        },
        (ProxyStep::Start, ProxyOutcome::NotLaunched(error)) => {
            let mut w = "failed to launch caddy start for exposure proxy routes: ".to_string();
            w.append(error.as_str());
            (ProxyStep::Done, Some(w))
        },
        _ => (ProxyStep::Done, None),
    }
}

/// How many steps are left at most.
pub open spec fn steps_left(step: ProxyStep) -> nat {
    match step {
        ProxyStep::Validate => 3,
        ProxyStep::Reload => 2,
        ProxyStep::Start => 1,
        ProxyStep::Done => 0,
    }
}

/// Telling the proxy of new routes comes to an end, however its commands end.
pub proof fn proxy_steps_end(step: ProxyStep, outcome: ProxyOutcome, start_if_stopped: bool)
    ensures
        step != ProxyStep::Done ==> steps_left(step_after(step, outcome, start_if_stopped))
            < steps_left(step),
{
}

/// Routes are loaded only after they passed validation.
pub proof fn routes_are_validated_first(
    step: ProxyStep,
    outcome: ProxyOutcome,
    start_if_stopped: bool,
)
    ensures
        step_after(step, outcome, start_if_stopped) == ProxyStep::Reload ==> step
            == ProxyStep::Validate && outcome is Succeeded,
        step_after(step, outcome, start_if_stopped) == ProxyStep::Start ==> step
            == ProxyStep::Reload && start_if_stopped,
{
}

/// Routes that are in order are taken up, and that is all; a proxy that cannot be told of
/// them is started, where that is wanted, and nothing follows on that.
pub proof fn good_routes_are_taken_up(status: String, outcome: ProxyOutcome)
    ensures
        step_after(ProxyStep::Validate, ProxyOutcome::Succeeded, true) == ProxyStep::Reload,
        step_after(ProxyStep::Validate, ProxyOutcome::Succeeded, false) == ProxyStep::Reload,
        step_after(ProxyStep::Reload, ProxyOutcome::Succeeded, true) == ProxyStep::Done,
        step_after(ProxyStep::Reload, ProxyOutcome::Succeeded, false) == ProxyStep::Done,
        step_after(ProxyStep::Reload, ProxyOutcome::Failed(status), true) == ProxyStep::Start,
        step_after(ProxyStep::Reload, ProxyOutcome::Failed(status), false) == ProxyStep::Done,
        step_after(ProxyStep::Start, outcome, true) == ProxyStep::Done,
        !(outcome is Succeeded) ==> step_after(ProxyStep::Validate, outcome, true)
            == ProxyStep::Done,
{
}

/// What goes well is not warned of; what does not is, with what was said of it.
#[verifier::rlimit(40)]
pub proof fn proxy_trouble_is_told(step: ProxyStep, outcome: ProxyOutcome)
    ensures
        outcome is Succeeded ==> step_warning(step, outcome) is None,
        step == ProxyStep::Validate || step == ProxyStep::Reload ==> (step_warning(step, outcome)
            is Some <==> !(outcome is Succeeded)),
        outcome matches ProxyOutcome::NotLaunched(error) ==> (step != ProxyStep::Done
            ==> step_warning(step, outcome) is Some && crate::text::occurs(
            step_warning(step, outcome)->0,
            error@,
        )),
        outcome matches ProxyOutcome::Failed(status) ==> (step_warning(step, outcome) is Some
            ==> crate::text::occurs(step_warning(step, outcome)->0, status@)),
{
    let none = Seq::<char>::empty();
    match outcome {
        ProxyOutcome::NotLaunched(error) => {
            let a = "failed to launch caddy for exposure proxy routes: "@;
            let b = "failed to launch caddy reload for exposure proxy routes: "@;
            let c = "failed to launch caddy start for exposure proxy routes: "@;
            crate::text::middle_occurs(a, error@, none);
            crate::text::middle_occurs(b, error@, none);
            crate::text::middle_occurs(c, error@, none);
            assert(a + error@ + none =~= a + error@);
            assert(b + error@ + none =~= b + error@);
            assert(c + error@ + none =~= c + error@);
        },
        ProxyOutcome::Failed(status) => {
            crate::text::middle_occurs(
                "caddy config validation failed with "@,
                status@,
                "; exposure proxy routes were not reloaded"@,
            );
            crate::text::middle_occurs(
                "caddy reload failed with "@,
                status@,
                "; attempting to start caddy"@,
            );
        },
        ProxyOutcome::Succeeded => {},
    }
}

/// Each step of the proxy is asked for by its name and works on the file that it is given.
pub proof fn proxy_works_on_its_file(caddyfile: Seq<char>)
    ensures
        proxy_arguments(ProxyStep::Validate, caddyfile)[0] == "validate"@,
        proxy_arguments(ProxyStep::Reload, caddyfile)[0] == "reload"@,
        proxy_arguments(ProxyStep::Start, caddyfile)[0] == "start"@,
        forall|step: ProxyStep|
            step != ProxyStep::Done ==> (#[trigger] proxy_arguments(step, caddyfile)).last()
                == caddyfile && proxy_arguments(step, caddyfile)[1] == "--config"@,
{
}

} // verus!

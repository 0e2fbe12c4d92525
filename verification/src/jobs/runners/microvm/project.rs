//! How the service of a project is stopped, and its machine with it.
use vstd::prelude::*;
use vstd::string::*;

use crate::digest::hash_number;
use crate::jobs::{
    job_result, result_of, summarize_command_output, summary, JobExecutionResult, ResultModel,
};
use crate::paths::join_path;
use crate::process::CommandOutput;
use crate::segment::segment_of;
use crate::shell::{shell_join, shell_text};
use crate::text::{no_texts, push_text, texts};

use super::guest::PROBE_LIMIT_MS;
use super::service::{key_path, project_root, project_runtime_root};
use super::util::{
    project_vm_key, project_vm_ssh_port, safe_path_segment, ssh_port_from, vm_key_of,
};

verus! {

/// What stopping the service of a project takes.
#[derive(Debug)]
pub struct StopPlan {
    pub vm_key: String,
    pub runtime_root: String,
    pub private_key: String,
    pub ssh_port: u16,
    pub unit_name: String,
    pub disable_command: String,
    pub poweroff_command: String,
}

/// The name of the unit that runs the service of a project.
pub open spec fn unit_of(project_id: Seq<char>, environment: Seq<char>) -> Seq<char> {
    "statix-project-"@ + segment_of(project_id) + "-"@ + segment_of(environment) + ".service"@
}

/// Whether a plan is the one for stopping the service of a project, in the
/// machine with this key and port.
pub open spec fn is_stop_plan(
    plan: StopPlan,
    state_dir: Seq<char>,
    project_id: Seq<char>,
    environment: Seq<char>,
    vm_key: Seq<char>,
    ssh_port: u16,
) -> bool {
    let root = project_root(state_dir, vm_key);
    let unit = unit_of(project_id, environment);
    &&& plan.vm_key@ == vm_key
    &&& plan.runtime_root@ == root
    &&& plan.private_key@ == key_path(root)
    &&& plan.ssh_port == ssh_port
    &&& plan.unit_name@ == unit
    &&& plan.disable_command@ == shell_text(
        seq!["sudo"@, "systemctl"@, "disable"@, "--now"@, unit],
    )
    &&& plan.poweroff_command@ == shell_text(seq!["sudo"@, "systemctl"@, "poweroff"@])
}

/// What stopping the service of a project takes, in the machine with this key and
/// port.
pub fn stop_plan_for_key(
    state_dir: &str,
    project_id: &str,
    environment: &str,
    vm_key: &str,
    ssh_port: u16,
) -> (r: StopPlan)
    ensures
        is_stop_plan(r, state_dir@, project_id@, environment@, vm_key@, ssh_port),
{
    let runtime_root = project_runtime_root(state_dir, vm_key);
    let ssh_dir = join_path(runtime_root.as_str(), "ssh");
    let private_key = join_path(ssh_dir.as_str(), "id_ed25519");
    let mut unit_name = "statix-project-".to_string();
    unit_name.append(safe_path_segment(project_id).as_str());
    unit_name.append("-");
    unit_name.append(safe_path_segment(environment).as_str());
    unit_name.append(".service");
    let mut disable = no_texts();
    push_text(&mut disable, "sudo");
    push_text(&mut disable, "systemctl");
    push_text(&mut disable, "disable");
    push_text(&mut disable, "--now");
    push_text(&mut disable, unit_name.as_str());
    proof {
        assert(texts(disable@) =~= seq![
            "sudo"@,
            "systemctl"@,
            "disable"@,
            "--now"@,
            unit_of(project_id@, environment@),
        ]);
    }
    let mut poweroff = no_texts();
    push_text(&mut poweroff, "sudo");
    push_text(&mut poweroff, "systemctl");
    push_text(&mut poweroff, "poweroff");
    proof {
        assert(texts(poweroff@) =~= seq!["sudo"@, "systemctl"@, "poweroff"@]);
    }
    StopPlan {
        vm_key: vm_key.to_owned(),
        runtime_root,
        private_key,
        ssh_port,
        unit_name,
        disable_command: shell_join(&disable),
        poweroff_command: shell_join(&poweroff),
    }
}

/// What stopping the service of a project takes.
pub fn stop_plan(state_dir: &str, project_id: &str, environment: &str) -> (r: StopPlan)
    ensures
        is_stop_plan(
            r,
            state_dir@,
            project_id@,
            environment@,
            vm_key_of(project_id@, environment@),
            ssh_port_from(hash_number(vm_key_of(project_id@, environment@))),
        ),
{
    let vm_key = project_vm_key(project_id, environment);
    let ssh_port = project_vm_ssh_port(vm_key.as_str());
    stop_plan_for_key(state_dir, project_id, environment, vm_key.as_str(), ssh_port)
}

/// What is done next to stop a service.
#[derive(Debug, Clone, Copy, PartialEq, Eq, Structural)]
pub enum StopStep {
    LookForKey,
    /// Ask the guest for an answer, for so long at most.
    ProbeGuest { limit_ms: u64 },
    RemovePid,
    /// Stop the service in the guest, which may take so long.
    DisableUnit { limit_ms: u64 },
    /// Power the guest off, which may take so long.
    PowerOff { limit_ms: u64 },
    /// Let so much time pass.
    Pause { ms: u64 },
    StopProcess,
    /// Take the network away, and keep the address or not.
    StopNetwork { reserve_ip: bool },
    Finished,
}

/// How a step ended.
#[derive(Debug)]
pub enum StopEvent {
    Failed,
    Done,
    /// What was looked for is there, or not.
    Answer(bool),
    Output(CommandOutput),
}

/// The step after a step that ended in some way. A machine that was never made,
/// or that does not run, has nothing to stop; the machine is powered off only
/// where the service could be stopped. Powering off is given two seconds, and what
/// follows is done in any case; the project does not keep its address.
pub open spec fn stop_step_after(step: StopStep, event: StopEvent) -> StopStep {
    match (step, event) {
        (StopStep::LookForKey, StopEvent::Answer(there)) => if there {
            StopStep::ProbeGuest { limit_ms: PROBE_LIMIT_MS }
        } else {
            StopStep::Finished
        },
        (StopStep::ProbeGuest { .. }, StopEvent::Answer(ready)) => if ready {
            StopStep::DisableUnit { limit_ms: 30_000 }
        } else {
            StopStep::RemovePid
        },
        (StopStep::DisableUnit { .. }, StopEvent::Output(output)) => if output.success {
            StopStep::PowerOff { limit_ms: 30_000 }
        } else {
            StopStep::Finished
        },
        (StopStep::PowerOff { .. }, _) => StopStep::Pause { ms: 2_000 },
        (StopStep::Pause { .. }, _) => StopStep::StopProcess,
        (StopStep::StopProcess, _) => StopStep::StopNetwork { reserve_ip: false },
        _ => StopStep::Finished,
    }
}

/// What came of it, where it is over with this step.
pub open spec fn stop_result(
    plan: StopPlan,
    step: StopStep,
    event: StopEvent,
) -> Option<ResultModel> {
    match (step, event) {
        (StopStep::LookForKey, StopEvent::Answer(there)) => if there {
            None
        } else {
            Some(
                result_of(
                    true,
                    "project microvm "@ + plan.vm_key@ + " has no SSH key; nothing to stop"@,
                ),
            )
        },
        (StopStep::RemovePid, _) => Some(
            result_of(true, "project microvm "@ + plan.vm_key@ + " is not running"@),
        ),
        (StopStep::DisableUnit { .. }, StopEvent::Output(output)) => if output.success {
            None
        } else {
            Some(result_of(false, summary(plan.runtime_root@, output.out(), output.err())))
        },
        (StopStep::StopNetwork { .. }, _) => Some(
            result_of(
                true,
                "stopped "@ + plan.unit_name@ + " and project microvm "@ + plan.vm_key@,
            ),
        ),
        _ => None,
    }
}

/// What a result says.
pub open spec fn result_model(r: Option<JobExecutionResult>) -> Option<ResultModel> {
    match r {
        Some(x) => Some(x@),
        None => None,
    }
}

/// The step after a step that ended in some way, and what came of it where it is
/// then over. Where it is over without a result, it failed.
pub fn next_stop_step(plan: &StopPlan, step: StopStep, event: &StopEvent) -> (r: (
    StopStep,
    Option<JobExecutionResult>,
))
    ensures
        r.0 == stop_step_after(step, *event),
        result_model(r.1) == stop_result(*plan, step, *event),
{
    match (step, event) {
        (StopStep::LookForKey, StopEvent::Answer(there)) => {
            if *there {
                (StopStep::ProbeGuest { limit_ms: PROBE_LIMIT_MS }, None)
            } else {
                let mut s = "project microvm ".to_string();
                s.append(plan.vm_key.as_str());
                s.append(" has no SSH key; nothing to stop");
                (StopStep::Finished, Some(job_result(true, s)))
            }
        },
        (StopStep::ProbeGuest { .. }, StopEvent::Answer(ready)) => {
            if *ready {
                (StopStep::DisableUnit { limit_ms: 30_000 }, None)
            } else {
                (StopStep::RemovePid, None)
            }
        },
        (StopStep::RemovePid, _) => {
            let mut s = "project microvm ".to_string();
            s.append(plan.vm_key.as_str());
            s.append(" is not running");
            (StopStep::Finished, Some(job_result(true, s)))
        },
        (StopStep::DisableUnit { .. }, StopEvent::Output(output)) => {
            if output.success {
                (StopStep::PowerOff { limit_ms: 30_000 }, None)
            } else {
                let message = summarize_command_output(plan.runtime_root.as_str(), output);
                (StopStep::Finished, Some(job_result(false, message)))
            }
        },
        (StopStep::PowerOff { .. }, _) => (StopStep::Pause { ms: 2_000 }, None),
        (StopStep::Pause { .. }, _) => (StopStep::StopProcess, None),
        (StopStep::StopProcess, _) => (StopStep::StopNetwork { reserve_ip: false }, None),
        (StopStep::StopNetwork { .. }, _) => {
            let mut s = "stopped ".to_string();
            s.append(plan.unit_name.as_str());
            s.append(" and project microvm ");
            s.append(plan.vm_key.as_str());
            (StopStep::Finished, Some(job_result(true, s)))
        },
        _ => (StopStep::Finished, None),
    }
}

/// The machine, its process and its network are touched only after the service
/// was stopped; and then all of them are, and the address is given up.
pub proof fn machine_goes_after_its_service(step: StopStep, event: StopEvent)
    ensures
        match stop_step_after(step, event) {
            StopStep::PowerOff { .. } => step is DisableUnit && (event matches StopEvent::Output(
                output,
            ) && output.success),
            StopStep::Pause { .. } => step is PowerOff,
            StopStep::StopProcess => step is Pause,
            StopStep::StopNetwork { reserve_ip } => step is StopProcess && !reserve_ip,
            _ => true,
        },
        step is PowerOff ==> stop_step_after(step, event) is Pause,
        step is Pause ==> stop_step_after(step, event) is StopProcess,
        step is StopProcess ==> stop_step_after(step, event) is StopNetwork,
{
}

/// A machine is stopped by the names that it was launched under: its key, its directory,
/// its secret key and its port.
pub proof fn machine_is_stopped_by_its_own_names(
    stop: StopPlan,
    run: super::service::ProjectPlan,
    runner: super::runner::ProjectMicrovmRunner,
    state_dir: Seq<char>,
    project_id: Seq<char>,
    environment: Seq<char>,
    attempt_id: Seq<char>,
    vm_key: Seq<char>,
    ssh_port: u16,
)
    requires
        is_stop_plan(stop, state_dir, project_id, environment, vm_key, ssh_port),
        super::service::is_plan(run, runner, state_dir, attempt_id, vm_key, ssh_port),
    ensures
        stop.vm_key@ == run.vm_key@,
        stop.runtime_root@ == run.runtime_root@,
        stop.private_key@ == run.private_key@,
        stop.ssh_port == run.ssh_port,
{
}

/// The service of a project is disabled under its own name, in words that a shell reads
/// as they were meant.
pub proof fn service_is_disabled_by_name(
    stop: StopPlan,
    state_dir: Seq<char>,
    project_id: Seq<char>,
    environment: Seq<char>,
    vm_key: Seq<char>,
    ssh_port: u16,
)
    requires
        is_stop_plan(stop, state_dir, project_id, environment, vm_key, ssh_port),
    ensures
        crate::shell::shell_words(stop.disable_command@) == Some(
            seq!["sudo"@, "systemctl"@, "disable"@, "--now"@, stop.unit_name@],
        ),
        crate::shell::shell_words(stop.poweroff_command@) == Some(
            seq!["sudo"@, "systemctl"@, "poweroff"@],
        ),
        stop.unit_name@ == "statix-project-"@ + crate::networking::naming::key_of(
            project_id,
            environment,
        ) + ".service"@,
{
    crate::shell::shell_reads_back(
        seq!["sudo"@, "systemctl"@, "disable"@, "--now"@, stop.unit_name@],
    );
    crate::shell::shell_reads_back(seq!["sudo"@, "systemctl"@, "poweroff"@]);
    assert(stop.unit_name@ =~= "statix-project-"@ + crate::networking::naming::key_of(
        project_id,
        environment,
    ) + ".service"@);
}

/// What stopping comes to: nothing is to be done without a key, a guest that does not
/// answer is not running, a service that cannot be disabled is a failure that leaves the
/// machine as it is, and else all of it is stopped.
pub proof fn stopping_comes_to_one_of_four_ends(plan: StopPlan, step: StopStep, event: StopEvent)
    ensures
        step is LookForKey && event == StopEvent::Answer(false) ==> stop_step_after(step, event)
            is Finished && (stop_result(plan, step, event) matches Some(r) && r.status
            == "succeeded"@),
        step is LookForKey && event == StopEvent::Answer(true) ==> stop_step_after(step, event)
            == (StopStep::ProbeGuest { limit_ms: 5_000 }) && stop_result(plan, step, event)
            is None,
        step is ProbeGuest && event == StopEvent::Answer(false) ==> stop_step_after(step, event)
            is RemovePid && stop_result(plan, step, event) is None,
        step is ProbeGuest && event == StopEvent::Answer(true) ==> stop_step_after(step, event)
            == (StopStep::DisableUnit { limit_ms: 30_000 }) && stop_result(plan, step, event)
            is None,
        step is RemovePid ==> stop_step_after(step, event) is Finished && (stop_result(
            plan,
            step,
            event,
        ) matches Some(r) && r.status == "succeeded"@),
        step is DisableUnit && (event matches StopEvent::Output(output) && !output.success)
            ==> stop_step_after(step, event) is Finished && (stop_result(plan, step, event) matches
            Some(r) && r.status == "failed"@),
        step is DisableUnit && (event matches StopEvent::Output(output) && output.success)
            ==> stop_step_after(step, event) == (StopStep::PowerOff { limit_ms: 30_000 })
            && stop_result(plan, step, event) is None,
        step is PowerOff ==> stop_step_after(step, event) == (StopStep::Pause { ms: 2_000 }),
        step is StopNetwork ==> stop_step_after(step, event) is Finished && (stop_result(
            plan,
            step,
            event,
        ) matches Some(r) && r.status == "succeeded"@ && (r.message matches Some(m)
            && crate::text::occurs(m, plan.unit_name@) && crate::text::occurs(m, plan.vm_key@))),
        stop_result(plan, step, event) is Some ==> stop_step_after(step, event) is Finished,
{
    let front = "stopped "@;
    let mid = " and project microvm "@;
    let none = Seq::<char>::empty();
    crate::text::middle_occurs(front, plan.unit_name@, mid + plan.vm_key@);
    crate::text::middle_occurs(front + plan.unit_name@ + mid, plan.vm_key@, none);
    let m = front + plan.unit_name@ + mid + plan.vm_key@;
    assert(m =~= front + plan.unit_name@ + (mid + plan.vm_key@));
    assert(m =~= front + plan.unit_name@ + mid + plan.vm_key@ + none);
}

/// The step that a stop is at after these events.
pub open spec fn stop_at(events: Seq<StopEvent>) -> StopStep
    decreases events.len(),
{
    if events.len() == 0 {
        StopStep::LookForKey
    } else {
        stop_step_after(stop_at(events.drop_last()), events.last())
    }
}

/// The network of a project is taken away, and its machine ended, only after its service
/// was disabled; and once the service is disabled, nothing keeps the machine from going.
pub proof fn stopping_goes_through(events: Seq<StopEvent>)
    ensures
        ({
            let step = stop_at(events);
            step is PowerOff || step is Pause || step is StopProcess || step is StopNetwork
        }) ==> exists|i: int|
            0 <= i < events.len() && (#[trigger] stop_at(events.take(i))) is DisableUnit && (
            events[i] matches StopEvent::Output(output) && output.success),
        stop_at(events) is PowerOff ==> forall|a: StopEvent, b: StopEvent, c: StopEvent|
            #[trigger] stop_at(events.push(a).push(b).push(c)) == (StopStep::StopNetwork {
                reserve_ip: false,
            }),
    decreases events.len(),
{
    if events.len() > 0 {
        let init = events.drop_last();
        let n = init.len() as int;
        stopping_goes_through(init);
        assert(events.take(n) =~= init);
        let before = stop_at(init);
        if before is PowerOff || before is Pause || before is StopProcess || before is StopNetwork {
            let i = choose|i: int|
                0 <= i < init.len() && (#[trigger] stop_at(init.take(i))) is DisableUnit && (init[i]
                    matches StopEvent::Output(output) && output.success);
            assert(events.take(i) =~= init.take(i));
            assert(events[i] == init[i]);
        } else if before is DisableUnit {
            assert(events[n] == events.last());
            assert(stop_at(events.take(n)) is DisableUnit);
        }
    }
    if stop_at(events) is PowerOff {
        assert forall|a: StopEvent, b: StopEvent, c: StopEvent| #[trigger]
            stop_at(events.push(a).push(b).push(c)) == (StopStep::StopNetwork {
                reserve_ip: false,
            }) by {
            assert(events.push(a).drop_last() =~= events);
            assert(events.push(a).push(b).drop_last() =~= events.push(a));
            assert(events.push(a).push(b).push(c).drop_last() =~= events.push(a).push(b));
            assert(stop_at(events.push(a)) is Pause);
            assert(stop_at(events.push(a).push(b)) is StopProcess);
        }
    }
}

} // verus!

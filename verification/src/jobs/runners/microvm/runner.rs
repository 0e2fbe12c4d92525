//! How a job is run in a virtual machine.
use vstd::prelude::*;
use vstd::string::*;

use crate::jobs::{
    check_run, refusal, ExecutionContext, JobExecutionResult, RunError, StepEnd,
};
use crate::paths::{below, join_path};
use crate::text::{append_decimal, begins_with, decimal};

use super::util::{DEFAULT_CPU_COUNT, DEFAULT_MEMORY_MB, DEFAULT_SSH_PORT};

verus! {

/// Runs a job in a machine that lives as long as the job.
pub struct MicrovmRunner {
    pub image: String,
    pub cpu: Option<u8>,
    pub memory_mb: Option<u32>,
}

/// Runs a job in the machine of a project, which outlives the job.
pub struct ProjectMicrovmRunner {
    pub project_id: String,
    pub environment: String,
    pub image: String,
    pub cpu: Option<u8>,
    pub memory_mb: Option<u32>,
}

impl MicrovmRunner {
    pub fn new(image: String, cpu: Option<u8>, memory_mb: Option<u32>) -> (r: Self)
        ensures
            r.image == image,
            r.cpu == cpu,
            r.memory_mb == memory_mb,
    {
        MicrovmRunner { image, cpu, memory_mb }
    }
}

impl ProjectMicrovmRunner {
    pub fn new(
        project_id: String,
        environment: String,
        image: String,
        cpu: Option<u8>,
        memory_mb: Option<u32>,
    ) -> (r: Self)
        ensures
            r.project_id == project_id,
            r.environment == environment,
            r.image == image,
            r.cpu == cpu,
            r.memory_mb == memory_mb,
    {
        ProjectMicrovmRunner { project_id, environment, image, cpu, memory_mb }
    }
}

/// How many processors a machine gets.
pub open spec fn cpu_of(cpu: Option<u8>) -> u8 {
    match cpu {
        Some(n) => n,
        None => DEFAULT_CPU_COUNT,
    }
}

/// How much memory a machine gets, in mebibytes.
pub open spec fn memory_of(memory_mb: Option<u32>) -> u32 {
    match memory_mb {
        Some(n) => n,
        None => DEFAULT_MEMORY_MB,
    }
}

pub(crate) fn cpu_or_default(cpu: Option<u8>) -> (r: u8)
    ensures
        r == cpu_of(cpu),
{
    match cpu {
        Some(n) => n,
        None => DEFAULT_CPU_COUNT,
    }
}

pub(crate) fn memory_or_default(memory_mb: Option<u32>) -> (r: u32)
    ensures
        r == memory_of(memory_mb),
{
    match memory_mb {
        Some(n) => n,
        None => DEFAULT_MEMORY_MB,
    }
}

// ---------------------------------------------------------------------------
// The machine of a job
// ---------------------------------------------------------------------------

/// What the machine of a job is made of.
#[derive(Debug)]
pub struct MicrovmPlan {
    pub runtime_root: String,
    pub overlay_image: String,
    pub ssh_dir: String,
    pub private_key: String,
    pub public_key: String,
    pub seed_iso: String,
    pub workspace_tar: String,
    pub cpu: u8,
    pub memory_mb: u32,
    pub ssh_port: u16,
}

/// The directory of the machine of a job.
pub open spec fn job_root(
    state_dir: Seq<char>,
    job_id: Seq<char>,
    attempt_id: Seq<char>,
) -> Seq<char> {
    below(below(below(state_dir, "microvm"@), job_id), attempt_id)
}

/// Whether `plan` is what the machine of a job is made of.
pub open spec fn is_microvm_plan(
    plan: MicrovmPlan,
    runner: MicrovmRunner,
    state_dir: Seq<char>,
    job_id: Seq<char>,
    attempt_id: Seq<char>,
) -> bool {
    let root = job_root(state_dir, job_id, attempt_id);
    &&& plan.runtime_root@ == root
    &&& plan.overlay_image@ == below(root, "disk.qcow2"@)
    &&& plan.ssh_dir@ == below(root, "ssh"@)
    &&& plan.private_key@ == below(below(root, "ssh"@), "id_ed25519"@)
    &&& plan.public_key@ == below(below(root, "ssh"@), "id_ed25519.pub"@)
    &&& plan.seed_iso@ == below(root, "seed.iso"@)
    &&& plan.workspace_tar@ == below(root, "workspace.tar.gz"@)
    &&& plan.cpu == cpu_of(runner.cpu)
    &&& plan.memory_mb == memory_of(runner.memory_mb)
    &&& plan.ssh_port == DEFAULT_SSH_PORT
}

impl MicrovmRunner {
    /// Begins the run of a job that can be run: what its machine is made of, and
    /// where the run stands.
    pub fn begin<E>(&self, ctx: &ExecutionContext, command: &Vec<String>, state_dir: &str) -> (r:
        Result<(MicrovmPlan, MicrovmRun<E>), RunError>)
        ensures
            match r {
                Ok((plan, run)) => refusal(ctx.timeout_seconds, command@) is None
                    && is_microvm_plan(plan, *self, state_dir@, ctx.job_id@, ctx.attempt_id@) && run
                    == (MicrovmRun::<E> { step: MicrovmStep::CreateRoot, result: None }),
                Err(e) => refusal(ctx.timeout_seconds, command@) == Some(e),
            },
    {
        match check_run(ctx.timeout_seconds, command) {
            Ok(_) => Ok(
                (
                    self.plan(state_dir, ctx.job_id.as_str(), ctx.attempt_id.as_str()),
                    MicrovmRun::new(),
                ),
            ),
            Err(e) => Err(e),
        }
    }

    /// What the machine of a job is made of.
    pub fn plan(&self, state_dir: &str, job_id: &str, attempt_id: &str) -> (r: MicrovmPlan)
        ensures
            is_microvm_plan(r, *self, state_dir@, job_id@, attempt_id@),
    {
        let machines = join_path(state_dir, "microvm");
        let job = join_path(machines.as_str(), job_id);
        let runtime_root = join_path(job.as_str(), attempt_id);
        let root = runtime_root.as_str();
        let ssh_dir = join_path(root, "ssh");
        MicrovmPlan {
            overlay_image: join_path(root, "disk.qcow2"),
            private_key: join_path(ssh_dir.as_str(), "id_ed25519"),
            public_key: join_path(ssh_dir.as_str(), "id_ed25519.pub"),
            seed_iso: join_path(root, "seed.iso"),
            workspace_tar: join_path(root, "workspace.tar.gz"),
            cpu: cpu_or_default(self.cpu),
            memory_mb: memory_or_default(self.memory_mb),
            ssh_port: DEFAULT_SSH_PORT,
            ssh_dir,
            runtime_root,
        }
    }
}

/// What is done next for a job in a machine of its own.
#[derive(Debug, Clone, Copy, PartialEq, Eq, Structural)]
pub enum MicrovmStep {
    CreateRoot,
    ResolveImage,
    CreateOverlay,
    CreateKeyDir,
    GenerateKeys,
    ArchiveWorkspace,
    CreateSeed,
    Launch,
    AwaitReady,
    RunCommand,
    ShutDown,
    Finished,
}

/// The step after a step that succeeded or failed. What fails before the machine
/// is launched ends the run; once it is launched, it is shut down.
pub open spec fn step_after(step: MicrovmStep, ok: bool) -> MicrovmStep {
    match step {
        MicrovmStep::AwaitReady => if ok {
            MicrovmStep::RunCommand
        } else {
            MicrovmStep::ShutDown
        },
        MicrovmStep::RunCommand => MicrovmStep::ShutDown,
        MicrovmStep::ShutDown => MicrovmStep::Finished,
        MicrovmStep::Finished => MicrovmStep::Finished,
        _ => if !ok {
            MicrovmStep::Finished
        } else {
            match step {
                MicrovmStep::CreateRoot => MicrovmStep::ResolveImage,
                MicrovmStep::ResolveImage => MicrovmStep::CreateOverlay,
                MicrovmStep::CreateOverlay => MicrovmStep::CreateKeyDir,
                MicrovmStep::CreateKeyDir => MicrovmStep::GenerateKeys,
                MicrovmStep::GenerateKeys => MicrovmStep::ArchiveWorkspace,
                MicrovmStep::ArchiveWorkspace => MicrovmStep::CreateSeed,
                MicrovmStep::CreateSeed => MicrovmStep::Launch,
                _ => MicrovmStep::AwaitReady,
            }
        },
    }
}

/// The step after a step that succeeded or failed.
pub fn next_microvm_step(step: MicrovmStep, ok: bool) -> (r: MicrovmStep)
    ensures
        r == step_after(step, ok),
{
    match step {
        MicrovmStep::AwaitReady => {
            if ok {
                MicrovmStep::RunCommand
            } else {
                MicrovmStep::ShutDown
            }
        },
        MicrovmStep::RunCommand => MicrovmStep::ShutDown,
        MicrovmStep::ShutDown => MicrovmStep::Finished,
        MicrovmStep::Finished => MicrovmStep::Finished,
        _ => {
            if !ok {
                return MicrovmStep::Finished;
            }
            match step {
                MicrovmStep::CreateRoot => MicrovmStep::ResolveImage,
                MicrovmStep::ResolveImage => MicrovmStep::CreateOverlay,
                MicrovmStep::CreateOverlay => MicrovmStep::CreateKeyDir,
                MicrovmStep::CreateKeyDir => MicrovmStep::GenerateKeys,
                MicrovmStep::GenerateKeys => MicrovmStep::ArchiveWorkspace,
                MicrovmStep::ArchiveWorkspace => MicrovmStep::CreateSeed,
                MicrovmStep::CreateSeed => MicrovmStep::Launch,
                _ => MicrovmStep::AwaitReady,
            }
        },
    }
}

/// What is logged of a step that succeeded: the phase of the job, and the line.
pub open spec fn step_note(
    step: MicrovmStep,
    plan: MicrovmPlan,
    base_image: Seq<char>,
    workdir: Seq<char>,
) -> Option<(Seq<char>, Seq<char>)> {
    match step {
        MicrovmStep::CreateRoot => Some(
            ("microvm.setup"@, "preparing runtime at "@ + plan.runtime_root@),
        ),
        MicrovmStep::ResolveImage => Some(("microvm.setup"@, "using base image "@ + base_image)),
        MicrovmStep::CreateOverlay => Some(
            ("microvm.setup"@, "created overlay disk "@ + plan.overlay_image@),
        ),
        MicrovmStep::GenerateKeys => Some(("microvm.setup"@, "generated ssh keypair"@)),
        MicrovmStep::ArchiveWorkspace => Some(
            ("microvm.setup"@, "archived workspace "@ + workdir),
        ),
        MicrovmStep::CreateSeed => Some(
            ("microvm.setup"@, "created cloud-init seed "@ + plan.seed_iso@),
        ),
        MicrovmStep::Launch => Some(
            (
                "microvm.runtime"@,
                "launched with "@ + decimal(plan.cpu as nat) + " cpu(s), "@ + decimal(
                    plan.memory_mb as nat,
                ) + " MiB memory, ssh port "@ + decimal(plan.ssh_port as nat),
            ),
        ),
        MicrovmStep::AwaitReady => Some(("microvm.runtime"@, "guest is ready"@)),
        _ => None,
    }
}

/// What a note says.
pub open spec fn note_of(note: Option<(&'static str, String)>) -> Option<(Seq<char>, Seq<char>)> {
    match note {
        Some((phase, line)) => Some((phase@, line@)),
        None => None,
    }
}

/// What is logged of a step that succeeded.
pub fn microvm_step_note(
    step: MicrovmStep,
    plan: &MicrovmPlan,
    base_image: &str,
    workdir: &str,
) -> (r: Option<(&'static str, String)>)
    ensures
        note_of(r) == step_note(step, *plan, base_image@, workdir@),
{
    match step {
        MicrovmStep::CreateRoot => {
            let mut s = "preparing runtime at ".to_string();
            s.append(plan.runtime_root.as_str());
            Some(("microvm.setup", s))
        },
        MicrovmStep::ResolveImage => {
            let mut s = "using base image ".to_string();
            s.append(base_image);
            Some(("microvm.setup", s))
        },
        MicrovmStep::CreateOverlay => {
            let mut s = "created overlay disk ".to_string();
            s.append(plan.overlay_image.as_str());
            Some(("microvm.setup", s))
        },
        MicrovmStep::GenerateKeys => Some(("microvm.setup", "generated ssh keypair".to_string())),
        MicrovmStep::ArchiveWorkspace => {
            let mut s = "archived workspace ".to_string();
            s.append(workdir);
            Some(("microvm.setup", s))
        },
        MicrovmStep::CreateSeed => {
            let mut s = "created cloud-init seed ".to_string();
            s.append(plan.seed_iso.as_str());
            Some(("microvm.setup", s))
        },
        MicrovmStep::Launch => {
            let mut s = "launched with ".to_string();
            append_decimal(&mut s, plan.cpu as u64);
            s.append(" cpu(s), ");
            append_decimal(&mut s, plan.memory_mb as u64);
            s.append(" MiB memory, ssh port ");
            append_decimal(&mut s, plan.ssh_port as u64);
            Some(("microvm.runtime", s))
        },
        MicrovmStep::AwaitReady => Some(("microvm.runtime", "guest is ready".to_string())),
        _ => None,
    }
}

/// The step that a run is at after so many outcomes.
pub open spec fn step_at(outcomes: Seq<bool>) -> MicrovmStep
    decreases outcomes.len(),
{
    if outcomes.len() == 0 {
        MicrovmStep::CreateRoot
    } else {
        step_after(step_at(outcomes.drop_last()), outcomes.last())
    }
}

/// Whether a run has launched its machine.
pub open spec fn has_launched(outcomes: Seq<bool>) -> bool {
    exists|i: int|
        0 <= i < outcomes.len() && outcomes[i] && #[trigger] step_at(outcomes.take(i))
            == MicrovmStep::Launch
}

/// Whether a run has shut its machine down.
pub open spec fn has_shut_down(outcomes: Seq<bool>) -> bool {
    exists|i: int|
        0 <= i < outcomes.len() && #[trigger] step_at(outcomes.take(i)) == MicrovmStep::ShutDown
}

proof fn lemma_live(outcomes: Seq<bool>)
    ensures
        has_launched(outcomes) && !has_shut_down(outcomes) ==> step_at(outcomes)
            == MicrovmStep::AwaitReady || step_at(outcomes) == MicrovmStep::RunCommand || step_at(
            outcomes,
        ) == MicrovmStep::ShutDown,
    decreases outcomes.len(),
{
    if outcomes.len() > 0 && has_launched(outcomes) && !has_shut_down(outcomes) {
        let init = outcomes.drop_last();
        let n = init.len() as int;
        lemma_live(init);
        assert(outcomes.take(n) =~= init);
        assert(step_at(outcomes.take(n)) != MicrovmStep::ShutDown);
        if has_shut_down(init) {
            let i = choose|i: int|
                0 <= i < init.len() && #[trigger] step_at(init.take(i)) == MicrovmStep::ShutDown;
            assert(outcomes.take(i) =~= init.take(i));
        }
        let i = choose|i: int|
            0 <= i < outcomes.len() && outcomes[i] && #[trigger] step_at(outcomes.take(i))
                == MicrovmStep::Launch;
        if i < n {
            assert(outcomes.take(i) =~= init.take(i));
            assert(init[i] == outcomes[i]);
            assert(has_launched(init));
        }
    }
}

/// A machine that was launched is shut down before the run is over, however its
/// steps end.
pub proof fn launched_machine_is_shut_down(outcomes: Seq<bool>)
    requires
        has_launched(outcomes),
        step_at(outcomes) == MicrovmStep::Finished,
    ensures
        has_shut_down(outcomes),
{
    lemma_live(outcomes);
}

/// How many steps are left at most.
pub open spec fn steps_left(step: MicrovmStep) -> nat {
    match step {
        MicrovmStep::CreateRoot => 11,
        MicrovmStep::ResolveImage => 10,
        MicrovmStep::CreateOverlay => 9,
        MicrovmStep::CreateKeyDir => 8,
        MicrovmStep::GenerateKeys => 7,
        MicrovmStep::ArchiveWorkspace => 6,
        MicrovmStep::CreateSeed => 5,
        MicrovmStep::Launch => 4,
        MicrovmStep::AwaitReady => 3,
        MicrovmStep::RunCommand => 2,
        MicrovmStep::ShutDown => 1,
        MicrovmStep::Finished => 0,
    }
}

/// A run comes to an end, however its steps end.
pub proof fn run_ends(step: MicrovmStep, ok: bool)
    ensures
        step != MicrovmStep::Finished ==> steps_left(step_after(step, ok)) < steps_left(step),
{
}

// ---------------------------------------------------------------------------
// What a run hands back
// ---------------------------------------------------------------------------

/// A run: the step that it is at, and what it hands back once it is over.
#[derive(Debug)]
pub struct MicrovmRun<E> {
    pub step: MicrovmStep,
    pub result: Option<Result<JobExecutionResult, E>>,
}

/// What a run hands back after a step that ended in some way: the error of a step
/// that failed, else the result of the command. Shutting the machine down changes
/// nothing about it.
pub open spec fn result_after<E>(
    step: MicrovmStep,
    result: Option<Result<JobExecutionResult, E>>,
    end: StepEnd<E>,
) -> Option<Result<JobExecutionResult, E>> {
    if is_settled(step) {
        result
    } else {
        match end {
            StepEnd::Failed(error) => Some(Err(error)),
            StepEnd::Finished(r) => if step == MicrovmStep::RunCommand {
                Some(Ok(r))
            } else {
                result
            },
            StepEnd::Done => result,
        }
    }
}

/// A run after a step that ended in some way.
pub open spec fn microvm_run_after<E>(run: MicrovmRun<E>, end: StepEnd<E>) -> MicrovmRun<E> {
    MicrovmRun {
        step: step_after(run.step, !(end is Failed)),
        result: result_after(run.step, run.result, end),
    }
}

impl<E> MicrovmRun<E> {
    /// A run begins.
    pub fn new() -> (r: Self)
        ensures
            r == (MicrovmRun::<E> { step: MicrovmStep::CreateRoot, result: None }),
    {
        MicrovmRun { step: MicrovmStep::CreateRoot, result: None }
    }

    /// The run after a step that ended in some way.
    pub fn advance(self, end: StepEnd<E>) -> (r: Self)
        ensures
            r == microvm_run_after(self, end),
    {
        let step = self.step;
        let over = step == MicrovmStep::ShutDown || step == MicrovmStep::Finished;
        match end {
            StepEnd::Failed(error) => {
                let next = next_microvm_step(step, false);
                if over {
                    MicrovmRun { step: next, result: self.result }
                } else {
                    MicrovmRun { step: next, result: Some(Err(error)) }
                }
            },
            StepEnd::Finished(r) => {
                let next = next_microvm_step(step, true);
                if step == MicrovmStep::RunCommand {
                    MicrovmRun { step: next, result: Some(Ok(r)) }
                } else {
                    MicrovmRun { step: next, result: self.result }
                }
            },
            StepEnd::Done => MicrovmRun {
                step: next_microvm_step(step, true),
                result: self.result,
            },
        }
    }
}

/// The run after these ends of its steps.
pub open spec fn microvm_run_at<E>(ends: Seq<StepEnd<E>>) -> MicrovmRun<E>
    decreases ends.len(),
{
    if ends.len() == 0 {
        MicrovmRun { step: MicrovmStep::CreateRoot, result: None }
    } else {
        microvm_run_after(microvm_run_at(ends.drop_last()), ends.last())
    }
}

/// Which of these ends are no failures.
pub open spec fn outcomes_of<E>(ends: Seq<StepEnd<E>>) -> Seq<bool> {
    Seq::new(ends.len(), |i: int| !(ends[i] is Failed))
}

/// A run goes through the steps that follow from how they ended, so that what
/// holds of the steps holds of it.
pub proof fn run_goes_through_its_steps<E>(ends: Seq<StepEnd<E>>)
    ensures
        microvm_run_at(ends).step == step_at(outcomes_of(ends)),
    decreases ends.len(),
{
    if ends.len() > 0 {
        run_goes_through_its_steps(ends.drop_last());
        assert(outcomes_of(ends).drop_last() =~= outcomes_of(ends.drop_last()));
    }
}

/// Whether the run is past what its result depends on.
pub open spec fn is_settled(step: MicrovmStep) -> bool {
    step == MicrovmStep::ShutDown || step == MicrovmStep::Finished
}

proof fn lemma_settled_stays<E>(ends: Seq<StepEnd<E>>, n: int)
    requires
        0 <= n <= ends.len(),
        is_settled(microvm_run_at(ends.take(n)).step),
    ensures
        is_settled(microvm_run_at(ends).step),
        microvm_run_at(ends).result == microvm_run_at(ends.take(n)).result,
    decreases ends.len(),
{
    if n == ends.len() {
        assert(ends.take(n) =~= ends);
    } else {
        assert(ends.drop_last().take(n) =~= ends.take(n));
        lemma_settled_stays(ends.drop_last(), n);
    }
}

proof fn lemma_end_at<E>(ends: Seq<StepEnd<E>>, i: int)
    requires
        0 <= i < ends.len(),
    ensures
        microvm_run_at(ends.take(i + 1)) == microvm_run_after(
            microvm_run_at(ends.take(i)),
            ends[i],
        ),
{
    assert(ends.take(i + 1).drop_last() =~= ends.take(i));
    assert(ends.take(i + 1).last() == ends[i]);
}

/// A step that fails gives a run its result: the run hands back that error,
/// whatever else is done before it is over.
pub proof fn failed_step_is_handed_back<E>(ends: Seq<StepEnd<E>>, i: int)
    requires
        0 <= i < ends.len(),
        ends[i] is Failed,
        !is_settled(microvm_run_at(ends.take(i)).step),
    ensures
        microvm_run_at(ends).result == Some(
            Err::<JobExecutionResult, E>(ends[i]->Failed_0),
        ),
{
    lemma_end_at(ends, i);
    lemma_settled_stays(ends, i + 1);
}

/// A command that was run gives a run its result, whatever else is done before
/// it is over.
pub proof fn command_result_is_handed_back<E>(ends: Seq<StepEnd<E>>, i: int)
    requires
        0 <= i < ends.len(),
        ends[i] is Finished,
        microvm_run_at(ends.take(i)).step == MicrovmStep::RunCommand,
    ensures
        microvm_run_at(ends).result == Some(
            Ok::<JobExecutionResult, E>(ends[i]->Finished_0),
        ),
{
    lemma_end_at(ends, i);
    lemma_settled_stays(ends, i + 1);
}

/// A run that is over hands something back, if its command ended with a result or
/// an error where it was run.
pub proof fn finished_run_hands_something_back<E>(ends: Seq<StepEnd<E>>)
    requires
        forall|i: int|
            0 <= i < ends.len() && #[trigger] microvm_run_at(ends.take(i)).step
                == MicrovmStep::RunCommand ==> !(ends[i] is Done),
    ensures
        is_settled(microvm_run_at(ends).step) ==> microvm_run_at(ends).result is Some,
    decreases ends.len(),
{
    if ends.len() > 0 {
        let init = ends.drop_last();
        let n = init.len() as int;
        assert forall|i: int|
            0 <= i < init.len() && #[trigger] microvm_run_at(init.take(i)).step
                == MicrovmStep::RunCommand implies !(init[i] is Done) by {
            assert(init.take(i) =~= ends.take(i));
            assert(init[i] == ends[i]);
        }
        finished_run_hands_something_back(init);
        assert(ends.take(n) =~= init);
        assert(microvm_run_at(ends.take(n)).step == MicrovmStep::RunCommand ==> !(ends[n] is Done));
    }
}

// ---------------------------------------------------------------------------
// What holds of a machine of its own
// ---------------------------------------------------------------------------

/// A machine has the processors and the memory that its job names; where it names none,
/// two processors and four gibibytes.
pub proof fn machine_has_what_was_asked_for(
    plan: MicrovmPlan,
    runner: MicrovmRunner,
    state_dir: Seq<char>,
    job_id: Seq<char>,
    attempt_id: Seq<char>,
)
    requires
        is_microvm_plan(plan, runner, state_dir, job_id, attempt_id),
    ensures
        runner.cpu matches Some(n) ==> plan.cpu == n,
        runner.cpu is None ==> plan.cpu == 2,
        runner.memory_mb matches Some(n) ==> plan.memory_mb == n,
        runner.memory_mb is None ==> plan.memory_mb == 4 * 1_024,
        plan.ssh_port == 2_222,
{
}

/// Each attempt at a job has a directory of its own, and all that its machine is made of
/// stands there.
#[verifier::rlimit(40)]
pub proof fn attempt_has_its_own_directory(
    plan: MicrovmPlan,
    other: MicrovmPlan,
    runner: MicrovmRunner,
    state_dir: Seq<char>,
    job_id: Seq<char>,
    attempt_id: Seq<char>,
    other_job_id: Seq<char>,
    other_attempt_id: Seq<char>,
)
    requires
        is_microvm_plan(plan, runner, state_dir, job_id, attempt_id),
        is_microvm_plan(other, runner, state_dir, other_job_id, other_attempt_id),
        crate::paths::is_name(job_id),
        crate::paths::is_name(attempt_id),
        crate::paths::is_name(other_job_id),
        crate::paths::is_name(other_attempt_id),
        job_id != other_job_id || attempt_id != other_attempt_id,
    ensures
        plan.runtime_root@ != other.runtime_root@,
        begins_with(plan.overlay_image@, plan.runtime_root@),
        begins_with(plan.private_key@, plan.ssh_dir@),
        begins_with(plan.public_key@, plan.ssh_dir@),
        begins_with(plan.ssh_dir@, plan.runtime_root@),
        begins_with(plan.seed_iso@, plan.runtime_root@),
        begins_with(plan.workspace_tar@, plan.runtime_root@),
{
    reveal_strlit("disk.qcow2");
    reveal_strlit("ssh");
    reveal_strlit("id_ed25519");
    reveal_strlit("id_ed25519.pub");
    reveal_strlit("seed.iso");
    reveal_strlit("workspace.tar.gz");
    let root = plan.runtime_root@;
    crate::paths::names_below_differ(
        below(state_dir, "microvm"@),
        job_id,
        attempt_id,
        other_job_id,
        other_attempt_id,
    );
    crate::paths::path_begins_with_its_base(root, "disk.qcow2"@);
    crate::paths::path_begins_with_its_base(root, "ssh"@);
    crate::paths::path_begins_with_its_base(plan.ssh_dir@, "id_ed25519"@);
    crate::paths::path_begins_with_its_base(plan.ssh_dir@, "id_ed25519.pub"@);
    crate::paths::path_begins_with_its_base(root, "seed.iso"@);
    crate::paths::path_begins_with_its_base(root, "workspace.tar.gz"@);
}

/// Whether a step of a run ended well.
pub open spec fn has_done(outcomes: Seq<bool>, step: MicrovmStep) -> bool {
    exists|i: int|
        0 <= i < outcomes.len() && outcomes[i] && #[trigger] step_at(outcomes.take(i)) == step
}

proof fn lemma_done(outcomes: Seq<bool>, step: MicrovmStep)
    requires
        outcomes.len() > 0,
    ensures
        has_done(outcomes.drop_last(), step) ==> has_done(outcomes, step),
        step_at(outcomes.drop_last()) == step && outcomes.last() ==> has_done(outcomes, step),
{
    let init = outcomes.drop_last();
    if has_done(init, step) {
        let i = choose|i: int|
            0 <= i < init.len() && init[i] && #[trigger] step_at(init.take(i)) == step;
        assert(outcomes.take(i) =~= init.take(i));
        assert(outcomes[i] == init[i]);
    }
    if step_at(init) == step && outcomes.last() {
        let n = init.len() as int;
        assert(outcomes.take(n) =~= init);
        assert(outcomes[n]);
    }
}

proof fn lemma_passed(outcomes: Seq<bool>, step: MicrovmStep)
    requires
        steps_left(step) >= 3,
    ensures
        ({
            let at = step_at(outcomes);
            at != MicrovmStep::Finished && at != MicrovmStep::ShutDown && steps_left(at)
                < steps_left(step) ==> has_done(outcomes, step)
        }),
        step_at(outcomes) == MicrovmStep::ShutDown && step != MicrovmStep::AwaitReady ==> has_done(
            outcomes,
            step,
        ),
    decreases outcomes.len(),
{
    if outcomes.len() > 0 {
        lemma_passed(outcomes.drop_last(), step);
        lemma_done(outcomes, step);
    }
}

/// A machine is launched only once all that it is made of is there: its directory, its
/// image and its disk, its keys, the workspace and the seed.
pub proof fn machine_is_launched_prepared(outcomes: Seq<bool>)
    requires
        step_at(outcomes) == MicrovmStep::Launch || step_at(outcomes) == MicrovmStep::RunCommand,
    ensures
        has_done(outcomes, MicrovmStep::CreateRoot),
        has_done(outcomes, MicrovmStep::ResolveImage),
        has_done(outcomes, MicrovmStep::CreateOverlay),
        has_done(outcomes, MicrovmStep::CreateKeyDir),
        has_done(outcomes, MicrovmStep::GenerateKeys),
        has_done(outcomes, MicrovmStep::ArchiveWorkspace),
        has_done(outcomes, MicrovmStep::CreateSeed),
        step_at(outcomes) == MicrovmStep::RunCommand ==> has_done(outcomes, MicrovmStep::Launch)
            && has_done(outcomes, MicrovmStep::AwaitReady),
{
    lemma_passed(outcomes, MicrovmStep::CreateRoot);
    lemma_passed(outcomes, MicrovmStep::ResolveImage);
    lemma_passed(outcomes, MicrovmStep::CreateOverlay);
    lemma_passed(outcomes, MicrovmStep::CreateKeyDir);
    lemma_passed(outcomes, MicrovmStep::GenerateKeys);
    lemma_passed(outcomes, MicrovmStep::ArchiveWorkspace);
    lemma_passed(outcomes, MicrovmStep::CreateSeed);
    lemma_passed(outcomes, MicrovmStep::Launch);
    lemma_passed(outcomes, MicrovmStep::AwaitReady);
}

/// What is made for a machine is made in an order in which each thing can be made: the
/// disk from the image, the keys in their directory, the seed with the keys.
pub proof fn parts_are_made_in_order(outcomes: Seq<bool>)
    ensures
        step_at(outcomes) == MicrovmStep::CreateOverlay ==> has_done(
            outcomes,
            MicrovmStep::ResolveImage,
        ),
        step_at(outcomes) == MicrovmStep::GenerateKeys ==> has_done(
            outcomes,
            MicrovmStep::CreateKeyDir,
        ),
        step_at(outcomes) == MicrovmStep::CreateSeed ==> has_done(
            outcomes,
            MicrovmStep::GenerateKeys,
        ),
        step_at(outcomes) == MicrovmStep::ShutDown ==> has_done(outcomes, MicrovmStep::Launch),
{
    lemma_passed(outcomes, MicrovmStep::ResolveImage);
    lemma_passed(outcomes, MicrovmStep::CreateKeyDir);
    lemma_passed(outcomes, MicrovmStep::GenerateKeys);
    lemma_passed(outcomes, MicrovmStep::Launch);
}

/// A run whose steps all end well runs its command: after nine steps, and not before;
/// then the machine is shut down, and the run is over.
pub proof fn good_run_runs_its_command(outcomes: Seq<bool>)
    requires
        forall|i: int| 0 <= i < outcomes.len() ==> #[trigger] outcomes[i],
    ensures
        outcomes.len() < 9 ==> steps_left(step_at(outcomes)) == 11 - outcomes.len(),
        outcomes.len() == 9 ==> step_at(outcomes) == MicrovmStep::RunCommand,
        outcomes.len() == 10 ==> step_at(outcomes) == MicrovmStep::ShutDown,
        outcomes.len() >= 11 ==> step_at(outcomes) == MicrovmStep::Finished,
    decreases outcomes.len(),
{
    if outcomes.len() > 0 {
        let init = outcomes.drop_last();
        assert forall|i: int| 0 <= i < init.len() implies #[trigger] init[i] by {
            assert(init[i] == outcomes[i]);
        }
        good_run_runs_its_command(init);
        assert(outcomes[outcomes.len() - 1]);
    }
}

/// A step that fails before there is a machine ends the run; a machine that does not
/// get ready, or whose command fails, is shut down.
pub proof fn failure_ends_the_run(step: MicrovmStep)
    ensures
        step != MicrovmStep::AwaitReady && step != MicrovmStep::RunCommand ==> step_after(
            step,
            false,
        ) == MicrovmStep::Finished,
        step == MicrovmStep::AwaitReady || step == MicrovmStep::RunCommand ==> step_after(
            step,
            false,
        ) == MicrovmStep::ShutDown,
{
}

/// What is told of a step names what the step made or used, and what a machine was
/// launched with.
pub proof fn steps_are_told(plan: MicrovmPlan, base_image: Seq<char>, workdir: Seq<char>)
    ensures
        ({
            let root = step_note(MicrovmStep::CreateRoot, plan, base_image, workdir);
            root is Some && crate::text::occurs(root.unwrap().1, plan.runtime_root@)
        }),
        ({
            let image = step_note(MicrovmStep::ResolveImage, plan, base_image, workdir);
            image is Some && crate::text::occurs(image.unwrap().1, base_image)
        }),
        ({
            let disk = step_note(MicrovmStep::CreateOverlay, plan, base_image, workdir);
            disk is Some && crate::text::occurs(disk.unwrap().1, plan.overlay_image@)
        }),
        ({
            let archive = step_note(MicrovmStep::ArchiveWorkspace, plan, base_image, workdir);
            archive is Some && crate::text::occurs(archive.unwrap().1, workdir)
        }),
        ({
            let seed = step_note(MicrovmStep::CreateSeed, plan, base_image, workdir);
            seed is Some && crate::text::occurs(seed.unwrap().1, plan.seed_iso@)
        }),
        ({
            let launch = step_note(MicrovmStep::Launch, plan, base_image, workdir);
            &&& launch is Some
            &&& crate::text::begins_with(
                launch.unwrap().1,
                "launched with "@ + decimal(plan.cpu as nat) + " cpu(s), "@ + decimal(
                    plan.memory_mb as nat,
                ),
            )
            &&& crate::text::occurs(launch.unwrap().1, decimal(plan.ssh_port as nat))
        }),
{
    let none = Seq::<char>::empty();
    lemma_told_last("preparing runtime at "@, plan.runtime_root@);
    lemma_told_last("using base image "@, base_image);
    lemma_told_last("created overlay disk "@, plan.overlay_image@);
    lemma_told_last("archived workspace "@, workdir);
    lemma_told_last("created cloud-init seed "@, plan.seed_iso@);
    let front = "launched with "@ + decimal(plan.cpu as nat) + " cpu(s), "@ + decimal(
        plan.memory_mb as nat,
    );
    let line = step_note(MicrovmStep::Launch, plan, base_image, workdir).unwrap().1;
    assert(line.take(front.len() as int) =~= front);
    lemma_told_last(front + " MiB memory, ssh port "@, decimal(plan.ssh_port as nat));
}

proof fn lemma_told_last(front: Seq<char>, told: Seq<char>)
    ensures
        crate::text::occurs(front + told, told),
{
    let none = Seq::<char>::empty();
    crate::text::middle_occurs(front, told, none);
    assert(front + told + none =~= front + told);
}

} // verus!

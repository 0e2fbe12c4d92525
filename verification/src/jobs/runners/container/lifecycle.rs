//! The life of the container of a job.
use vstd::prelude::*;
use vstd::string::*;

use crate::jobs::{
    check_run, job_result, refusal, result_of, summarize_command_output, summary, ExecutionContext,
    JobExecutionResult, RunError, StepEnd,
};
use crate::paths::{below, join_path};
use crate::process::CommandOutput;
use crate::shell::{shell_join, shell_text};
use crate::text::{append_decimal, decimal, ellipsize, ellipsized, texts};

use super::image::{
    container_name, container_name_of, image_of, ContainerImageError, LxcImage,
};

verus! {

pub const DEFAULT_CPU_COUNT: u8 = 2;

pub const DEFAULT_MEMORY_MB: u32 = 4_096;

// ---------------------------------------------------------------------------
// What the container is made of
// ---------------------------------------------------------------------------

/// What the container of a job is made of.
#[derive(Debug)]
pub struct ContainerPlan {
    pub image: LxcImage,
    pub name: String,
    pub cpu: u8,
    pub memory_mb: u32,
    pub runtime_root: String,
    pub workspace_tar: String,
}

pub struct PlanModel {
    pub distribution: Seq<char>,
    pub release: Seq<char>,
    pub name: Seq<char>,
    pub cpu: u8,
    pub memory_mb: u32,
    pub runtime_root: Seq<char>,
    pub workspace_tar: Seq<char>,
}

impl View for ContainerPlan {
    type V = PlanModel;

    open spec fn view(&self) -> PlanModel {
        PlanModel {
            distribution: self.image.distribution@,
            release: self.image.release@,
            name: self.name@,
            cpu: self.cpu,
            memory_mb: self.memory_mb,
            runtime_root: self.runtime_root@,
            workspace_tar: self.workspace_tar@,
        }
    }
}

/// What the container of a job is made of, where its image can be read.
pub open spec fn planned(
    image: Seq<char>,
    cpu: Option<u8>,
    memory_mb: Option<u32>,
    state_dir: Seq<char>,
    job_id: Seq<char>,
    attempt_id: Seq<char>,
) -> Result<PlanModel, ContainerImageError> {
    match image_of(image) {
        Ok((distribution, release)) => {
            let root = below(below(below(state_dir, "container"@), job_id), attempt_id);
            Ok(
                PlanModel {
                    distribution,
                    release,
                    name: container_name_of(attempt_id),
                    cpu: match cpu {
                        Some(n) => n,
                        None => DEFAULT_CPU_COUNT,
                    },
                    memory_mb: match memory_mb {
                        Some(n) => n,
                        None => DEFAULT_MEMORY_MB,
                    },
                    runtime_root: root,
                    workspace_tar: below(root, "statix-workspace.tar.gz"@),
                },
            )
        },
        Err(e) => Err(e),
    }
}

/// What the container of a job is made of.
pub(crate) fn container_plan(
    image: &str,
    cpu: Option<u8>,
    memory_mb: Option<u32>,
    state_dir: &str,
    job_id: &str,
    attempt_id: &str,
) -> (r: Result<ContainerPlan, ContainerImageError>)
    ensures
        match r {
            Ok(p) => planned(image@, cpu, memory_mb, state_dir@, job_id@, attempt_id@) == Ok::<
                PlanModel,
                ContainerImageError,
            >(p@),
            Err(e) => planned(image@, cpu, memory_mb, state_dir@, job_id@, attempt_id@) == Err::<
                PlanModel,
                ContainerImageError,
            >(e),
        },
{
    let image = match LxcImage::parse(image) {
        Ok(i) => i,
        Err(e) => {
            return Err(e);
        },
    };
    let containers = join_path(state_dir, "container");
    let job = join_path(containers.as_str(), job_id);
    let runtime_root = join_path(job.as_str(), attempt_id);
    let workspace_tar = join_path(runtime_root.as_str(), "statix-workspace.tar.gz");
    let cpu: u8 = match cpu {
        Some(n) => n,
        None => DEFAULT_CPU_COUNT,
    };
    let memory_mb: u32 = match memory_mb {
        Some(n) => n,
        None => DEFAULT_MEMORY_MB,
    };
    Ok(
        ContainerPlan {
            image,
            name: container_name(attempt_id),
            cpu,
            memory_mb,
            runtime_root,
            workspace_tar,
        },
    )
}

/// A container has the processors and the memory that its job names; where it names
/// none, two processors and four gibibytes.
pub proof fn container_has_what_was_asked_for(
    image: Seq<char>,
    cpu: Option<u8>,
    memory_mb: Option<u32>,
    state_dir: Seq<char>,
    job_id: Seq<char>,
    attempt_id: Seq<char>,
)
    requires
        planned(image, cpu, memory_mb, state_dir, job_id, attempt_id) is Ok,
    ensures
        ({
            let plan = planned(image, cpu, memory_mb, state_dir, job_id, attempt_id)->Ok_0;
            &&& cpu matches Some(n) ==> plan.cpu == n
            &&& cpu is None ==> plan.cpu == 2
            &&& memory_mb matches Some(n) ==> plan.memory_mb == n
            &&& memory_mb is None ==> plan.memory_mb == 4 * 1_024
        }),
{
}

/// Whether a container can be planned, and from which image and under which name,
/// depends on nothing but the image and the attempt; what the job asks for beyond that
/// changes nothing about it.
pub proof fn plan_follows_image_and_attempt(
    image: Seq<char>,
    cpu: Option<u8>,
    memory_mb: Option<u32>,
    other_cpu: Option<u8>,
    other_memory_mb: Option<u32>,
    state_dir: Seq<char>,
    job_id: Seq<char>,
    attempt_id: Seq<char>,
)
    ensures
        ({
            let a = planned(image, cpu, memory_mb, state_dir, job_id, attempt_id);
            let b = planned(image, other_cpu, other_memory_mb, state_dir, job_id, attempt_id);
            &&& a is Ok <==> image_of(image) is Ok
            &&& a is Err ==> a == b && image_of(image) == Err::<
                (Seq<char>, Seq<char>),
                ContainerImageError,
            >(a->Err_0)
            &&& a is Ok ==> b is Ok && (a->Ok_0.distribution, a->Ok_0.release) == image_of(
                image,
            )->Ok_0 && a->Ok_0.distribution == b->Ok_0.distribution && a->Ok_0.release
                == b->Ok_0.release && a->Ok_0.name == b->Ok_0.name && a->Ok_0.runtime_root
                == b->Ok_0.runtime_root && a->Ok_0.workspace_tar == b->Ok_0.workspace_tar
            &&& a is Ok ==> a->Ok_0.name == container_name_of(attempt_id)
        }),
{
}

/// The workspace of an attempt is archived in the directory of that attempt, which
/// stands below the directory of its job.
pub proof fn attempt_has_its_own_directory(
    image: Seq<char>,
    cpu: Option<u8>,
    memory_mb: Option<u32>,
    state_dir: Seq<char>,
    job_id: Seq<char>,
    attempt_id: Seq<char>,
    other_job_id: Seq<char>,
    other_attempt_id: Seq<char>,
)
    requires
        planned(image, cpu, memory_mb, state_dir, job_id, attempt_id) is Ok,
        crate::paths::is_name(job_id),
        crate::paths::is_name(attempt_id),
        crate::paths::is_name(other_job_id),
        crate::paths::is_name(other_attempt_id),
        job_id != other_job_id || attempt_id != other_attempt_id,
    ensures
        ({
            let a = planned(image, cpu, memory_mb, state_dir, job_id, attempt_id)->Ok_0;
            let b = planned(
                image,
                cpu,
                memory_mb,
                state_dir,
                other_job_id,
                other_attempt_id,
            )->Ok_0;
            &&& a.runtime_root != b.runtime_root
            &&& crate::text::begins_with(a.workspace_tar, a.runtime_root)
            &&& crate::text::begins_with(a.runtime_root, state_dir)
        }),
{
    let c = below(state_dir, "container"@);
    reveal_strlit("container");
    reveal_strlit("statix-workspace.tar.gz");
    crate::paths::names_below_differ(c, job_id, attempt_id, other_job_id, other_attempt_id);
    crate::paths::path_begins_with_its_base(state_dir, "container"@);
    crate::paths::path_begins_with_its_base(c, job_id);
    crate::paths::path_begins_with_its_base(below(c, job_id), attempt_id);
    let root = below(below(c, job_id), attempt_id);
    crate::paths::path_begins_with_its_base(root, "statix-workspace.tar.gz"@);
    crate::text::prefix_of_prefix(below(c, job_id), c, state_dir);
    crate::text::prefix_of_prefix(root, below(c, job_id), state_dir);
}

// ---------------------------------------------------------------------------
// The steps of a run
// ---------------------------------------------------------------------------

/// What is done next for a job in a container.
#[derive(Debug, Clone, Copy, PartialEq, Eq, Structural)]
pub enum ContainerStep {
    CreateRoot,
    ArchiveWorkspace,
    Create,
    Start,
    ConfigureNetwork,
    ConfigureDns,
    CopyArchive,
    PrepareGuest,
    RunCommand,
    Destroy,
    Finished,
}

/// How a step ended.
#[derive(Debug, Clone, Copy, PartialEq, Eq, Structural)]
pub enum ContainerEvent {
    Done,
    Failed,
    /// The guest could not be prepared: the job has a result without its command.
    Refused,
}

/// The step after a step that ended in some way. Once there is a container, the
/// run ends with its destruction. `copy_first` says whether the workspace is
/// brought in before the guest is prepared, or after.
pub open spec fn step_after(
    copy_first: bool,
    step: ContainerStep,
    event: ContainerEvent,
) -> ContainerStep {
    match step {
        ContainerStep::Finished => ContainerStep::Finished,
        ContainerStep::Destroy => ContainerStep::Finished,
        ContainerStep::RunCommand => ContainerStep::Destroy,
        _ => if event != ContainerEvent::Done {
            match step {
                ContainerStep::CreateRoot => ContainerStep::Finished,
                ContainerStep::ArchiveWorkspace => ContainerStep::Finished,
                ContainerStep::Create => ContainerStep::Finished,
                _ => ContainerStep::Destroy,
            }
        } else {
            match step {
                ContainerStep::CreateRoot => ContainerStep::ArchiveWorkspace,
                ContainerStep::ArchiveWorkspace => ContainerStep::Create,
                ContainerStep::Create => ContainerStep::Start,
                ContainerStep::Start => ContainerStep::ConfigureNetwork,
                ContainerStep::ConfigureNetwork => ContainerStep::ConfigureDns,
                ContainerStep::ConfigureDns => if copy_first {
                    ContainerStep::CopyArchive
                } else {
                    ContainerStep::PrepareGuest
                },
                ContainerStep::CopyArchive => if copy_first {
                    ContainerStep::PrepareGuest
                } else {
                    ContainerStep::RunCommand
                },
                _ => if copy_first {
                    ContainerStep::RunCommand
                } else {
                    ContainerStep::CopyArchive
                },
            }
        },
    }
}

/// The step after a step that ended in some way.
pub fn next_step(copy_first: bool, step: ContainerStep, event: ContainerEvent) -> (r: ContainerStep)
    ensures
        r == step_after(copy_first, step, event),
{
    let done = event == ContainerEvent::Done;
    match step {
        ContainerStep::Finished => ContainerStep::Finished,
        ContainerStep::Destroy => ContainerStep::Finished,
        ContainerStep::RunCommand => ContainerStep::Destroy,
        ContainerStep::CreateRoot => {
            if done {
                ContainerStep::ArchiveWorkspace
            } else {
                ContainerStep::Finished
            }
        },
        ContainerStep::ArchiveWorkspace => {
            if done {
                ContainerStep::Create
            } else {
                ContainerStep::Finished
            }
        },
        ContainerStep::Create => {
            if done {
                ContainerStep::Start
            } else {
                ContainerStep::Finished
            }
        },
        ContainerStep::Start => {
            if done {
                ContainerStep::ConfigureNetwork
            } else {
                ContainerStep::Destroy
            }
        },
        ContainerStep::ConfigureNetwork => {
            if done {
                ContainerStep::ConfigureDns
            } else {
                ContainerStep::Destroy
            }
        },
        ContainerStep::ConfigureDns => {
            if !done {
                ContainerStep::Destroy
            } else if copy_first {
                ContainerStep::CopyArchive
            } else {
                ContainerStep::PrepareGuest
            }
        },
        ContainerStep::CopyArchive => {
            if !done {
                ContainerStep::Destroy
            } else if copy_first {
                ContainerStep::PrepareGuest
            } else {
                ContainerStep::RunCommand
            }
        },
        ContainerStep::PrepareGuest => {
            if !done {
                ContainerStep::Destroy
            } else if copy_first {
                ContainerStep::RunCommand
            } else {
                ContainerStep::CopyArchive
            }
        },
    }
}

/// The step that a run is at after these events.
pub open spec fn step_at(copy_first: bool, events: Seq<ContainerEvent>) -> ContainerStep
    decreases events.len(),
{
    if events.len() == 0 {
        ContainerStep::CreateRoot
    } else {
        step_after(copy_first, step_at(copy_first, events.drop_last()), events.last())
    }
}

/// Whether a step of a run ended well.
pub open spec fn has_done(
    copy_first: bool,
    events: Seq<ContainerEvent>,
    step: ContainerStep,
) -> bool {
    exists|i: int|
        0 <= i < events.len() && events[i] == ContainerEvent::Done && #[trigger] step_at(
            copy_first,
            events.take(i),
        ) == step
}

/// Whether a run came to a step.
pub open spec fn has_tried(
    copy_first: bool,
    events: Seq<ContainerEvent>,
    step: ContainerStep,
) -> bool {
    exists|i: int|
        0 <= i < events.len() && #[trigger] step_at(copy_first, events.take(i)) == step
}

/// Whether a step stands between the making of a container and its destruction.
pub open spec fn is_live(step: ContainerStep) -> bool {
    step == ContainerStep::Start || step == ContainerStep::ConfigureNetwork || step
        == ContainerStep::ConfigureDns || step == ContainerStep::CopyArchive || step
        == ContainerStep::PrepareGuest || step == ContainerStep::RunCommand || step
        == ContainerStep::Destroy
}

proof fn lemma_done_before(
    copy_first: bool,
    events: Seq<ContainerEvent>,
    step: ContainerStep,
)
    requires
        events.len() > 0,
        has_done(copy_first, events.drop_last(), step),
    ensures
        has_done(copy_first, events, step),
{
    let init = events.drop_last();
    let i = choose|i: int|
        0 <= i < init.len() && init[i] == ContainerEvent::Done && #[trigger] step_at(
            copy_first,
            init.take(i),
        ) == step;
    assert(events.take(i) =~= init.take(i));
    assert(events[i] == init[i]);
}

proof fn lemma_done_now(copy_first: bool, events: Seq<ContainerEvent>)
    requires
        events.len() > 0,
        events.last() == ContainerEvent::Done,
    ensures
        has_done(copy_first, events, step_at(copy_first, events.drop_last())),
{
    let n = events.len() - 1;
    assert(events.take(n) =~= events.drop_last());
    assert(events[n] == events.last());
}

proof fn lemma_live(copy_first: bool, events: Seq<ContainerEvent>)
    ensures
        has_done(copy_first, events, ContainerStep::Create) && !has_tried(
            copy_first,
            events,
            ContainerStep::Destroy,
        ) ==> is_live(step_at(copy_first, events)),
    decreases events.len(),
{
    if events.len() > 0 && has_done(copy_first, events, ContainerStep::Create) && !has_tried(
        copy_first,
        events,
        ContainerStep::Destroy,
    ) {
        let init = events.drop_last();
        let n = init.len() as int;
        lemma_live(copy_first, init);
        assert(events.take(n) =~= init);
        assert(step_at(copy_first, events.take(n)) != ContainerStep::Destroy);
        if has_tried(copy_first, init, ContainerStep::Destroy) {
            let i = choose|i: int|
                0 <= i < init.len() && #[trigger] step_at(copy_first, init.take(i))
                    == ContainerStep::Destroy;
            assert(events.take(i) =~= init.take(i));
        }
        let i = choose|i: int|
            0 <= i < events.len() && events[i] == ContainerEvent::Done && #[trigger] step_at(
                copy_first,
                events.take(i),
            ) == ContainerStep::Create;
        if i < n {
            assert(events.take(i) =~= init.take(i));
            assert(init[i] == events[i]);
            assert(has_done(copy_first, init, ContainerStep::Create));
        }
    }
}

/// A container that was made is destroyed before the run is over, however its
/// steps end.
pub proof fn made_container_is_destroyed(copy_first: bool, events: Seq<ContainerEvent>)
    requires
        has_done(copy_first, events, ContainerStep::Create),
        step_at(copy_first, events) == ContainerStep::Finished,
    ensures
        has_tried(copy_first, events, ContainerStep::Destroy),
{
    lemma_live(copy_first, events);
}

/// The command of a job is run only in a guest that was prepared and that holds
/// the workspace, in either order.
pub proof fn command_runs_in_a_prepared_guest(copy_first: bool, events: Seq<ContainerEvent>)
    ensures
        step_at(copy_first, events) == ContainerStep::RunCommand ==> has_done(
            copy_first,
            events,
            ContainerStep::PrepareGuest,
        ) && has_done(copy_first, events, ContainerStep::CopyArchive),
        step_at(copy_first, events) == ContainerStep::PrepareGuest && copy_first ==> has_done(
            copy_first,
            events,
            ContainerStep::CopyArchive,
        ),
        step_at(copy_first, events) == ContainerStep::CopyArchive && !copy_first ==> has_done(
            copy_first,
            events,
            ContainerStep::PrepareGuest,
        ),
    decreases events.len(),
{
    if events.len() > 0 {
        let init = events.drop_last();
        command_runs_in_a_prepared_guest(copy_first, init);
        if events.last() == ContainerEvent::Done {
            lemma_done_now(copy_first, events);
        }
        if has_done(copy_first, init, ContainerStep::PrepareGuest) {
            lemma_done_before(copy_first, events, ContainerStep::PrepareGuest);
        }
        if has_done(copy_first, init, ContainerStep::CopyArchive) {
            lemma_done_before(copy_first, events, ContainerStep::CopyArchive);
        }
    }
}

proof fn lemma_done(copy_first: bool, events: Seq<ContainerEvent>, step: ContainerStep)
    requires
        events.len() > 0,
    ensures
        has_done(copy_first, events.drop_last(), step) ==> has_done(copy_first, events, step),
        step_at(copy_first, events.drop_last()) == step && events.last() == ContainerEvent::Done
            ==> has_done(copy_first, events, step),
{
    if has_done(copy_first, events.drop_last(), step) {
        lemma_done_before(copy_first, events, step);
    }
    if events.last() == ContainerEvent::Done {
        lemma_done_now(copy_first, events);
    }
}

/// The command of a job is run only in a container that was made and started, with its
/// network and its resolvers set up and the workspace archived before it was made.
pub proof fn command_runs_in_a_working_container(copy_first: bool, events: Seq<ContainerEvent>)
    ensures
        ({
            let step = step_at(copy_first, events);
            let root = has_done(copy_first, events, ContainerStep::CreateRoot);
            let archived = has_done(copy_first, events, ContainerStep::ArchiveWorkspace);
            let made = has_done(copy_first, events, ContainerStep::Create);
            let started = has_done(copy_first, events, ContainerStep::Start);
            let networked = has_done(copy_first, events, ContainerStep::ConfigureNetwork);
            let resolving = has_done(copy_first, events, ContainerStep::ConfigureDns);
            &&& step == ContainerStep::ArchiveWorkspace ==> root
            &&& step == ContainerStep::Create ==> root && archived
            &&& step == ContainerStep::Start ==> root && archived && made
            &&& step == ContainerStep::ConfigureNetwork ==> root && archived && made && started
            &&& step == ContainerStep::ConfigureDns ==> root && archived && made && started
                && networked
            &&& (step == ContainerStep::CopyArchive || step == ContainerStep::PrepareGuest || step
                == ContainerStep::RunCommand) ==> root && archived && made && started && networked
                && resolving
            &&& step == ContainerStep::Destroy ==> made
        }),
    decreases events.len(),
{
    if events.len() > 0 {
        command_runs_in_a_working_container(copy_first, events.drop_last());
        lemma_done(copy_first, events, ContainerStep::CreateRoot);
        lemma_done(copy_first, events, ContainerStep::ArchiveWorkspace);
        lemma_done(copy_first, events, ContainerStep::Create);
        lemma_done(copy_first, events, ContainerStep::Start);
        lemma_done(copy_first, events, ContainerStep::ConfigureNetwork);
        lemma_done(copy_first, events, ContainerStep::ConfigureDns);
    }
}

/// A run whose steps all end well runs its command: of eleven steps the ninth is the
/// command, the tenth destroys the container, and then the run is over.
pub proof fn good_run_runs_its_command(copy_first: bool, events: Seq<ContainerEvent>)
    requires
        forall|i: int| 0 <= i < events.len() ==> #[trigger] events[i] == ContainerEvent::Done,
    ensures
        events.len() < 8 ==> is_before_command(step_at(copy_first, events)),
        events.len() == 8 ==> step_at(copy_first, events) == ContainerStep::RunCommand,
        events.len() == 9 ==> step_at(copy_first, events) == ContainerStep::Destroy,
        events.len() >= 10 ==> step_at(copy_first, events) == ContainerStep::Finished,
{
    lemma_good_run(copy_first, events);
}

/// Whether a step stands before the command.
pub open spec fn is_before_command(step: ContainerStep) -> bool {
    step != ContainerStep::RunCommand && step != ContainerStep::Destroy && step
        != ContainerStep::Finished
}

proof fn lemma_good_run(copy_first: bool, events: Seq<ContainerEvent>)
    requires
        forall|i: int| 0 <= i < events.len() ==> #[trigger] events[i] == ContainerEvent::Done,
    ensures
        ({
            let n = events.len();
            let step = step_at(copy_first, events);
            &&& n == 0 ==> step == ContainerStep::CreateRoot
            &&& n == 1 ==> step == ContainerStep::ArchiveWorkspace
            &&& n == 2 ==> step == ContainerStep::Create
            &&& n == 3 ==> step == ContainerStep::Start
            &&& n == 4 ==> step == ContainerStep::ConfigureNetwork
            &&& n == 5 ==> step == ContainerStep::ConfigureDns
            &&& n == 6 ==> step == if copy_first {
                ContainerStep::CopyArchive
            } else {
                ContainerStep::PrepareGuest
            }
            &&& n == 7 ==> step == if copy_first {
                ContainerStep::PrepareGuest
            } else {
                ContainerStep::CopyArchive
            }
            &&& n == 8 ==> step == ContainerStep::RunCommand
            &&& n == 9 ==> step == ContainerStep::Destroy
            &&& n >= 10 ==> step == ContainerStep::Finished
        }),
    decreases events.len(),
{
    if events.len() > 0 {
        let init = events.drop_last();
        assert forall|i: int| 0 <= i < init.len() implies #[trigger] init[i]
            == ContainerEvent::Done by {
            assert(init[i] == events[i]);
        }
        lemma_good_run(copy_first, init);
        assert(events[events.len() - 1] == ContainerEvent::Done);
    }
}

/// A step that does not end well is the last one before the container is destroyed;
/// where there is no container yet, the run is over at once.
pub proof fn failure_ends_the_run(copy_first: bool, step: ContainerStep, event: ContainerEvent)
    requires
        event != ContainerEvent::Done,
    ensures
        ({
            let next = step_after(copy_first, step, event);
            &&& next == ContainerStep::Destroy || next == ContainerStep::Finished
            &&& is_live(step) && step != ContainerStep::Destroy ==> next == ContainerStep::Destroy
            &&& !is_live(step) ==> next == ContainerStep::Finished
        }),
{
}

// ---------------------------------------------------------------------------
// What a run hands back
// ---------------------------------------------------------------------------

/// A run: the order that it keeps, the step that it is at, and what it hands back
/// once it is over.
#[derive(Debug)]
pub struct ContainerRun<E> {
    pub copy_first: bool,
    pub step: ContainerStep,
    pub result: Option<Result<JobExecutionResult, E>>,
}

/// What the end of a step means for the course of a run: a guest whose
/// preparation gives the job its result was refused.
pub open spec fn event_of<E>(step: ContainerStep, end: StepEnd<E>) -> ContainerEvent {
    match end {
        StepEnd::Failed(_) => ContainerEvent::Failed,
        StepEnd::Finished(_) => if step == ContainerStep::PrepareGuest {
            ContainerEvent::Refused
        } else {
            ContainerEvent::Done
        },
        StepEnd::Done => ContainerEvent::Done,
    }
}

/// What a run hands back after a step that ended in some way: the error of a step
/// that failed, else the result of a guest that could not be prepared, else that
/// of the command. Destroying the container changes nothing about it.
pub open spec fn result_after<E>(
    step: ContainerStep,
    result: Option<Result<JobExecutionResult, E>>,
    end: StepEnd<E>,
) -> Option<Result<JobExecutionResult, E>> {
    if is_settled(step) {
        result
    } else {
        match end {
            StepEnd::Failed(error) => Some(Err(error)),
            StepEnd::Finished(r) => if step == ContainerStep::PrepareGuest || step
                == ContainerStep::RunCommand {
                Some(Ok(r))
            } else {
                result
            },
            StepEnd::Done => result,
        }
    }
}

/// A run after a step that ended in some way.
pub open spec fn container_run_after<E>(run: ContainerRun<E>, end: StepEnd<E>) -> ContainerRun<E> {
    ContainerRun {
        copy_first: run.copy_first,
        step: step_after(run.copy_first, run.step, event_of(run.step, end)),
        result: result_after(run.step, run.result, end),
    }
}

impl<E> ContainerRun<E> {
    /// A run begins.
    pub fn new(copy_first: bool) -> (r: Self)
        ensures
            r == (ContainerRun::<E> { copy_first, step: ContainerStep::CreateRoot, result: None }),
    {
        ContainerRun { copy_first, step: ContainerStep::CreateRoot, result: None }
    }

    /// The run after a step that ended in some way.
    pub fn advance(self, end: StepEnd<E>) -> (r: Self)
        ensures
            r == container_run_after(self, end),
    {
        let copy_first = self.copy_first;
        let step = self.step;
        let over = step == ContainerStep::Destroy || step == ContainerStep::Finished;
        let (event, result) = match end {
            StepEnd::Failed(error) => (
                ContainerEvent::Failed,
                if over {
                    self.result
                } else {
                    Some(Err(error))
                },
            ),
            StepEnd::Finished(r) => {
                if step == ContainerStep::PrepareGuest {
                    (ContainerEvent::Refused, Some(Ok(r)))
                } else if step == ContainerStep::RunCommand {
                    (ContainerEvent::Done, Some(Ok(r)))
                } else {
                    (ContainerEvent::Done, self.result)
                }
            },
            StepEnd::Done => (ContainerEvent::Done, self.result),
        };
        ContainerRun { copy_first, step: next_step(copy_first, step, event), result }
    }
}

/// Why the run of a job in a container does not begin.
#[derive(Debug, Clone, Copy, PartialEq, Eq, Structural)]
pub enum ContainerRefusal {
    Run(RunError),
    Image(ContainerImageError),
}

impl ContainerRefusal {
    pub open spec fn text(self) -> Seq<char> {
        match self {
            ContainerRefusal::Run(e) => e.text(),
            ContainerRefusal::Image(e) => e.text(),
        }
    }

    /// What the refusal says to a reader.
    pub fn message(self) -> (r: String)
        ensures
            r@ == self.text(),
    {
        match self {
            ContainerRefusal::Run(e) => e.message(),
            ContainerRefusal::Image(e) => e.message(),
        }
    }
}

/// What the run of a job in a container begins with: what the container is made
/// of, where the job can be run and its image can be read.
pub open spec fn begun(
    image: Seq<char>,
    cpu: Option<u8>,
    memory_mb: Option<u32>,
    ctx: ExecutionContext,
    command: Seq<String>,
    state_dir: Seq<char>,
) -> Result<PlanModel, ContainerRefusal> {
    match refusal(ctx.timeout_seconds, command) {
        Some(e) => Err(ContainerRefusal::Run(e)),
        None => match planned(image, cpu, memory_mb, state_dir, ctx.job_id@, ctx.attempt_id@) {
            Ok(plan) => Ok(plan),
            Err(e) => Err(ContainerRefusal::Image(e)),
        },
    }
}

/// Whether a run began as it should, in the given order.
pub open spec fn has_begun<E>(
    r: Result<(ContainerPlan, ContainerRun<E>), ContainerRefusal>,
    copy_first: bool,
    want: Result<PlanModel, ContainerRefusal>,
) -> bool {
    match r {
        Ok((plan, run)) => want == Ok::<PlanModel, ContainerRefusal>(plan@) && run == (ContainerRun::<
            E,
        > { copy_first, step: ContainerStep::CreateRoot, result: None }),
        Err(e) => want == Err::<PlanModel, ContainerRefusal>(e),
    }
}

/// Begins the run of a job in a container.
pub(crate) fn begin_run<E>(
    copy_first: bool,
    image: &str,
    cpu: Option<u8>,
    memory_mb: Option<u32>,
    ctx: &ExecutionContext,
    command: &Vec<String>,
    state_dir: &str,
) -> (r: Result<(ContainerPlan, ContainerRun<E>), ContainerRefusal>)
    ensures
        has_begun(
            r,
            copy_first,
            begun(image@, cpu, memory_mb, *ctx, command@, state_dir@),
        ),
{
    if let Err(e) = check_run(ctx.timeout_seconds, command) {
        return Err(ContainerRefusal::Run(e));
    }
    match container_plan(
        image,
        cpu,
        memory_mb,
        state_dir,
        ctx.job_id.as_str(),
        ctx.attempt_id.as_str(),
    ) {
        Ok(plan) => Ok((plan, ContainerRun::new(copy_first))),
        Err(e) => Err(ContainerRefusal::Image(e)),
    }
}

/// The run after these ends of its steps.
pub open spec fn container_run_at<E>(copy_first: bool, ends: Seq<StepEnd<E>>) -> ContainerRun<E>
    decreases ends.len(),
{
    if ends.len() == 0 {
        ContainerRun { copy_first, step: ContainerStep::CreateRoot, result: None }
    } else {
        container_run_after(container_run_at(copy_first, ends.drop_last()), ends.last())
    }
}

/// What these ends mean for the course of a run.
pub open spec fn events_of<E>(copy_first: bool, ends: Seq<StepEnd<E>>) -> Seq<ContainerEvent>
    decreases ends.len(),
{
    if ends.len() == 0 {
        Seq::empty()
    } else {
        events_of(copy_first, ends.drop_last()).push(
            event_of(container_run_at(copy_first, ends.drop_last()).step, ends.last()),
        )
    }
}

/// A run goes through the steps that follow from how they ended, so that what
/// holds of the steps holds of it.
pub proof fn run_goes_through_its_steps<E>(copy_first: bool, ends: Seq<StepEnd<E>>)
    ensures
        container_run_at(copy_first, ends).step == step_at(
            copy_first,
            events_of(copy_first, ends),
        ),
        container_run_at(copy_first, ends).copy_first == copy_first,
    decreases ends.len(),
{
    if ends.len() > 0 {
        let init = ends.drop_last();
        run_goes_through_its_steps(copy_first, init);
        assert(events_of(copy_first, ends).drop_last() =~= events_of(copy_first, init));
    }
}

/// Whether the run is past what its result depends on.
pub open spec fn is_settled(step: ContainerStep) -> bool {
    step == ContainerStep::Destroy || step == ContainerStep::Finished
}

proof fn lemma_settled_stays<E>(copy_first: bool, ends: Seq<StepEnd<E>>, n: int)
    requires
        0 <= n <= ends.len(),
        is_settled(container_run_at(copy_first, ends.take(n)).step),
    ensures
        is_settled(container_run_at(copy_first, ends).step),
        container_run_at(copy_first, ends).result == container_run_at(
            copy_first,
            ends.take(n),
        ).result,
    decreases ends.len(),
{
    if n == ends.len() {
        assert(ends.take(n) =~= ends);
    } else {
        assert(ends.drop_last().take(n) =~= ends.take(n));
        lemma_settled_stays(copy_first, ends.drop_last(), n);
    }
}

proof fn lemma_end_at<E>(copy_first: bool, ends: Seq<StepEnd<E>>, i: int)
    requires
        0 <= i < ends.len(),
    ensures
        container_run_at(copy_first, ends.take(i + 1)) == container_run_after(
            container_run_at(copy_first, ends.take(i)),
            ends[i],
        ),
{
    assert(ends.take(i + 1).drop_last() =~= ends.take(i));
    assert(ends.take(i + 1).last() == ends[i]);
}

/// A step that fails gives a run its result: the run hands back that error,
/// whatever else is done before it is over.
pub proof fn failed_step_is_handed_back<E>(copy_first: bool, ends: Seq<StepEnd<E>>, i: int)
    requires
        0 <= i < ends.len(),
        ends[i] is Failed,
        !is_settled(container_run_at(copy_first, ends.take(i)).step),
    ensures
        container_run_at(copy_first, ends).result == Some(
            Err::<JobExecutionResult, E>(ends[i]->Failed_0),
        ),
{
    lemma_end_at(copy_first, ends, i);
    lemma_settled_stays(copy_first, ends, i + 1);
}

/// A guest that could not be prepared, or else the command, gives a run its
/// result, whatever else is done before it is over.
pub proof fn job_result_is_handed_back<E>(copy_first: bool, ends: Seq<StepEnd<E>>, i: int)
    requires
        0 <= i < ends.len(),
        ends[i] is Finished,
        ({
            let step = container_run_at(copy_first, ends.take(i)).step;
            step == ContainerStep::PrepareGuest || step == ContainerStep::RunCommand
        }),
    ensures
        container_run_at(copy_first, ends).result == Some(
            Ok::<JobExecutionResult, E>(ends[i]->Finished_0),
        ),
{
    lemma_end_at(copy_first, ends, i);
    lemma_settled_stays(copy_first, ends, i + 1);
}

/// A run that is over hands something back, if its command ended with a result or
/// an error where it was run.
pub proof fn finished_run_hands_something_back<E>(copy_first: bool, ends: Seq<StepEnd<E>>)
    requires
        forall|i: int|
            0 <= i < ends.len() && #[trigger] container_run_at(copy_first, ends.take(i)).step
                == ContainerStep::RunCommand ==> !(ends[i] is Done),
    ensures
        is_settled(container_run_at(copy_first, ends).step) ==> container_run_at(
            copy_first,
            ends,
        ).result is Some,
    decreases ends.len(),
{
    if ends.len() > 0 {
        let init = ends.drop_last();
        let n = init.len() as int;
        assert forall|i: int|
            0 <= i < init.len() && #[trigger] container_run_at(copy_first, init.take(i)).step
                == ContainerStep::RunCommand implies !(init[i] is Done) by {
            assert(init.take(i) =~= ends.take(i));
            assert(init[i] == ends[i]);
        }
        finished_run_hands_something_back(copy_first, init);
        assert(ends.take(n) =~= init);
        assert(container_run_at(copy_first, ends.take(n)).step == ContainerStep::RunCommand
            ==> !(ends[n] is Done));
    }
}

// ---------------------------------------------------------------------------
// Putting the guest to work
// ---------------------------------------------------------------------------

/// What the guest is asked to do before the command: to show its network, and to
/// fetch the tools it needs.
pub fn setup_command() -> (r: String)
    ensures
        r@
            == "echo '[statix-agent] guest network diagnostics:'; echo '[statix-agent] ip addr:'; ip addr || true; echo '[statix-agent] ip route:'; ip route || true; echo '[statix-agent] /etc/resolv.conf:'; cat /etc/resolv.conf || true; command -v cargo >/dev/null 2>&1 || (apt-get update && DEBIAN_FRONTEND=noninteractive apt-get install -y build-essential ca-certificates cargo git libssl-dev pkg-config)"@,
{
    "echo '[statix-agent] guest network diagnostics:'; echo '[statix-agent] ip addr:'; ip addr || true; echo '[statix-agent] ip route:'; ip route || true; echo '[statix-agent] /etc/resolv.conf:'; cat /etc/resolv.conf || true; command -v cargo >/dev/null 2>&1 || (apt-get update && DEBIAN_FRONTEND=noninteractive apt-get install -y build-essential ca-certificates cargo git libssl-dev pkg-config)".to_string()
}

/// What the guest is asked to do: to unpack the workspace and run the command in
/// it.
pub fn guest_command(command: &Vec<String>) -> (r: String)
    ensures
        r@
            == "rm -rf /workspace && mkdir -p /workspace && tar -xzf /var/lib/statix-agent/statix-workspace.tar.gz -C /workspace && cd /workspace && exec "@
            + shell_text(texts(command@)),
{
    let mut r =
        "rm -rf /workspace && mkdir -p /workspace && tar -xzf /var/lib/statix-agent/statix-workspace.tar.gz -C /workspace && cd /workspace && exec ".to_string();
    r.append(shell_join(command).as_str());
    r
}

/// What comes of a guest that was to be prepared: nothing where it was, else the
/// result of the job, and a line for the log.
pub fn finish_setup(workdir: &str, output: &CommandOutput) -> (r: Option<
    (JobExecutionResult, String),
>)
    ensures
        match r {
            Some((result, note)) => !output.success && result@ == result_of(
                false,
                summary(workdir@, output.out(), output.err()),
            ) && note@ == "lxc container setup failed with "@ + output.status@ + "; output: "@
                + ellipsized(summary(workdir@, output.out(), output.err()), 1_000),
            None => output.success,
        },
{
    if output.success {
        return None;
    }
    let message = summarize_command_output(workdir, output);
    let mut note = "lxc container setup failed with ".to_string();
    note.append(output.status.as_str());
    note.append("; output: ");
    note.append(ellipsize(message.as_str(), 1_000).as_str());
    Some((job_result(false, message), note))
}

/// What is logged of a command that ended in the guest.
pub open spec fn command_note(success: bool, status: Seq<char>, message: Seq<char>) -> Seq<char> {
    if success {
        "lxc container command succeeded"@
    } else {
        "lxc container command failed with "@ + status + "; output: "@ + ellipsized(message, 1_000)
    }
}

/// What comes of a job whose command ended in the guest, and a line for the log.
pub fn finish_container_command(workdir: &str, output: &CommandOutput) -> (r: (
    JobExecutionResult,
    String,
))
    ensures
        r.0@ == result_of(output.success, summary(workdir@, output.out(), output.err())),
        r.1@ == command_note(
            output.success,
            output.status@,
            summary(workdir@, output.out(), output.err()),
        ),
{
    let message = summarize_command_output(workdir, output);
    let note = if output.success {
        "lxc container command succeeded".to_string()
    } else {
        let mut s = "lxc container command failed with ".to_string();
        s.append(output.status.as_str());
        s.append("; output: ");
        s.append(ellipsize(message.as_str(), 1_000).as_str());
        s
    };
    (job_result(output.success, message), note)
}

/// What is said where a command of the guest took too long.
pub fn attach_timeout(timeout_seconds: u64) -> (r: String)
    ensures
        r@ == "lxc command timed out after "@ + decimal(timeout_seconds as nat) + " seconds"@,
{
    let mut r = "lxc command timed out after ".to_string();
    append_decimal(&mut r, timeout_seconds);
    r.append(" seconds");
    r
}

/// What is told of a command says whether it succeeded, and of one that did not how it
/// ended and what it wrote.
pub proof fn command_end_is_told(status: Seq<char>, message: Seq<char>)
    ensures
        command_note(true, status, message) == "lxc container command succeeded"@,
        crate::text::occurs(command_note(false, status, message), status),
        message.len() <= 1_000 ==> crate::text::occurs(
            command_note(false, status, message),
            message,
        ),
        command_note(false, status, message) != command_note(true, status, message),
{
    let none = Seq::<char>::empty();
    let front = "lxc container command failed with "@;
    let told = crate::text::ellipsized(message, 1_000);
    let note = command_note(false, status, message);
    reveal_strlit("lxc container command succeeded");
    reveal_strlit("lxc container command failed with ");
    assert(note.len() > "lxc container command succeeded"@.len());
    assert(crate::text::occurs(note, status)) by {
        crate::text::middle_occurs(front, status, "; output: "@ + told);
        assert(note =~= front + status + ("; output: "@ + told));
    }
    assert(crate::text::occurs(note, told)) by {
        crate::text::middle_occurs(front + status + "; output: "@, told, none);
        assert(note =~= front + status + "; output: "@ + told + none);
    }
}

/// A run begins exactly where the job may be run and its image is one; it then begins with
/// its directory, with the container that was asked for, in the directory of the agent.
pub proof fn sound_run_begins<E>(
    image: Seq<char>,
    cpu: Option<u8>,
    memory_mb: Option<u32>,
    ctx: ExecutionContext,
    command: Seq<String>,
    state_dir: Seq<char>,
    copy_first: bool,
    r: Result<(ContainerPlan, ContainerRun<E>), ContainerRefusal>,
)
    requires
        has_begun(r, copy_first, begun(image, cpu, memory_mb, ctx, command, state_dir)),
    ensures
        r is Ok <==> refusal(ctx.timeout_seconds, command) is None && image_of(image) is Ok,
        r matches Err(ContainerRefusal::Run(e)) ==> refusal(ctx.timeout_seconds, command)
            == Some(e),
        r matches Err(ContainerRefusal::Image(e)) ==> refusal(ctx.timeout_seconds, command)
            is None && image_of(image) is Err && image_of(image)->Err_0 == e,
        r is Ok ==> ({
            let plan = r->Ok_0.0@;
            let run = r->Ok_0.1;
            &&& run.step == ContainerStep::CreateRoot
            &&& run.result is None
            &&& run.copy_first == copy_first
            &&& cpu matches Some(n) ==> plan.cpu == n
            &&& memory_mb matches Some(n) ==> plan.memory_mb == n
            &&& plan.name == super::image::container_name_of(ctx.attempt_id@)
            &&& plan.runtime_root == below(
                below(below(state_dir, "container"@), ctx.job_id@),
                ctx.attempt_id@,
            )
        }),
{
}

/// What a run goes on with after a step: that it was done or failed; a guest that answers
/// with a result of its own before the command is refused.
pub proof fn ends_are_events<E>(step: ContainerStep, end: StepEnd<E>)
    ensures
        end is Failed ==> event_of(step, end) == ContainerEvent::Failed,
        end is Done ==> event_of(step, end) == ContainerEvent::Done,
        end is Finished ==> (event_of(step, end) == ContainerEvent::Refused <==> step
            == ContainerStep::PrepareGuest),
        end is Finished && step != ContainerStep::PrepareGuest ==> event_of(step, end)
            == ContainerEvent::Done,
{
}

} // verus!

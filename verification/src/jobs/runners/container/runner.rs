//! Jobs in LXC containers, each guest prepared before the workspace is brought
//! in.
use vstd::prelude::*;
use vstd::string::*;

use crate::jobs::ExecutionContext;

use super::image::ContainerImageError;
use super::lifecycle;
use super::lifecycle::{
    begin_run, begun, container_plan, has_begun, planned, ContainerEvent, ContainerPlan,
    ContainerRefusal, ContainerRun, ContainerStep, PlanModel,
};

verus! {

/// Runs a job in a container; the workspace is brought in after the guest was
/// prepared.
pub struct ContainerRunner {
    pub image: String,
    pub cpu: Option<u8>,
    pub memory_mb: Option<u32>,
}

impl ContainerRunner {
    pub fn new(image: String, cpu: Option<u8>, memory_mb: Option<u32>) -> (r: Self)
        ensures
            r.image == image,
            r.cpu == cpu,
            r.memory_mb == memory_mb,
    {
        ContainerRunner { image, cpu, memory_mb }
    }

    /// What the container of a job is made of.
    pub fn plan(&self, state_dir: &str, job_id: &str, attempt_id: &str) -> (r: Result<
        ContainerPlan,
        ContainerImageError,
    >)
        ensures
            match r {
                Ok(p) => planned(
                    self.image@,
                    self.cpu,
                    self.memory_mb,
                    state_dir@,
                    job_id@,
                    attempt_id@,
                ) == Ok::<PlanModel, ContainerImageError>(p@),
                Err(e) => planned(
                    self.image@,
                    self.cpu,
                    self.memory_mb,
                    state_dir@,
                    job_id@,
                    attempt_id@,
                ) == Err::<PlanModel, ContainerImageError>(e),
            },
    {
        container_plan(
            self.image.as_str(),
            self.cpu,
            self.memory_mb,
            state_dir,
            job_id,
            attempt_id,
        )
    }

    /// Begins the run of a job that can be run: what its container is made of, and
    /// where the run stands.
    pub fn begin<E>(&self, ctx: &ExecutionContext, command: &Vec<String>, state_dir: &str) -> (r:
        Result<(ContainerPlan, ContainerRun<E>), ContainerRefusal>)
        ensures
            has_begun(
                r,
                false,
                begun(self.image@, self.cpu, self.memory_mb, *ctx, command@, state_dir@),
            ),
    {
        begin_run(
            false,
            self.image.as_str(),
            self.cpu,
            self.memory_mb,
            ctx,
            command,
            state_dir,
        )
    }

    /// The step after a step that ended in some way.
    pub fn next_step(&self, step: ContainerStep, event: ContainerEvent) -> (r: ContainerStep)
        ensures
            r == lifecycle::step_after(false, step, event),
    {
        lifecycle::next_step(false, step, event)
    }
}

} // verus!

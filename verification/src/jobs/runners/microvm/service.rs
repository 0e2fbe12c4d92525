//! How a job is run in the machine of its project.
use vstd::prelude::*;
use vstd::string::*;

use crate::digest::hash_number;
use crate::jobs::{check_run, refusal, ExecutionContext, JobExecutionResult, RunError};
use crate::netaddr::ipv4_text;
use crate::networking::VmNetworkLease;
use crate::paths::{below, join_path};
use crate::segment::segment_of;
use crate::text::{
    append_decimal, decimal, no_texts, push_text, same, text_of, texts, trim, trimmed,
};

use super::guest::PROBE_LIMIT_MS;
use super::runner::{
    cpu_of, cpu_or_default, memory_of, memory_or_default, ProjectMicrovmRunner,
};
use super::util::{
    project_vm_key, project_vm_ssh_port, safe_path_segment, ssh_port_from, vm_key_of,
};

verus! {

// ---------------------------------------------------------------------------
// What the machine is made of
// ---------------------------------------------------------------------------

/// What the machine of a project is made of.
#[derive(Debug)]
pub struct ProjectPlan {
    pub vm_key: String,
    pub runtime_root: String,
    pub overlay_image: String,
    pub generation: &'static str,
    pub generation_path: String,
    pub backup_image: String,
    pub ssh_dir: String,
    pub private_key: String,
    pub public_key: String,
    pub seed_iso: String,
    pub seed_instance_id: String,
    pub workspace_tar: String,
    pub ssh_port: u16,
    pub cpu: u8,
    pub memory_mb: u32,
}

/// The directory of the machine with this key.
pub open spec fn project_root(state_dir: Seq<char>, vm_key: Seq<char>) -> Seq<char> {
    below(below(below(state_dir, "microvm"@), "projects"@), vm_key)
}

/// The directory of the machine with this key.
pub fn project_runtime_root(state_dir: &str, vm_key: &str) -> (r: String)
    ensures
        r@ == project_root(state_dir@, vm_key@),
{
    let machines = join_path(state_dir, "microvm");
    let projects = join_path(machines.as_str(), "projects");
    join_path(projects.as_str(), vm_key)
}

/// The key in the directory of a machine.
pub open spec fn key_path(root: Seq<char>) -> Seq<char> {
    below(below(root, "ssh"@), "id_ed25519"@)
}

/// Whether a plan is the one of a runner, for the machine with this key and port.
pub open spec fn is_plan(
    plan: ProjectPlan,
    runner: ProjectMicrovmRunner,
    state_dir: Seq<char>,
    attempt_id: Seq<char>,
    vm_key: Seq<char>,
    ssh_port: u16,
) -> bool {
    let root = project_root(state_dir, vm_key);
    &&& plan.vm_key@ == vm_key
    &&& plan.runtime_root@ == root
    &&& plan.overlay_image@ == below(root, "disk.qcow2"@)
    &&& plan.generation@ == "disk-v2"@
    &&& plan.generation_path@ == below(root, "disk.generation"@)
    &&& plan.backup_image@ == below(root, "disk.disk-v2.qcow2"@)
    &&& plan.ssh_dir@ == below(root, "ssh"@)
    &&& plan.private_key@ == key_path(root)
    &&& plan.public_key@ == below(below(root, "ssh"@), "id_ed25519.pub"@)
    &&& plan.seed_iso@ == below(root, "seed.iso"@)
    &&& plan.seed_instance_id@ == vm_key + "-disk-v2"@
    &&& plan.workspace_tar@ == below(root, "workspace-"@ + segment_of(attempt_id) + ".tar.gz"@)
    &&& plan.ssh_port == ssh_port
    &&& plan.cpu == cpu_of(runner.cpu)
    &&& plan.memory_mb == memory_of(runner.memory_mb)
}

impl ProjectMicrovmRunner {
    /// What the machine with this key and port is made of.
    pub fn plan_for_key(
        &self,
        state_dir: &str,
        attempt_id: &str,
        vm_key: &str,
        ssh_port: u16,
    ) -> (r: ProjectPlan)
        ensures
            is_plan(r, *self, state_dir@, attempt_id@, vm_key@, ssh_port),
    {
        let runtime_root = project_runtime_root(state_dir, vm_key);
        let root = runtime_root.as_str();
        let ssh_dir = join_path(root, "ssh");
        let mut seed_instance_id = vm_key.to_owned();
        seed_instance_id.append("-disk-v2");
        let mut archive = "workspace-".to_string();
        archive.append(safe_path_segment(attempt_id).as_str());
        archive.append(".tar.gz");
        ProjectPlan {
            vm_key: vm_key.to_owned(),
            overlay_image: join_path(root, "disk.qcow2"),
            generation: "disk-v2",
            generation_path: join_path(root, "disk.generation"),
            backup_image: join_path(root, "disk.disk-v2.qcow2"),
            private_key: join_path(ssh_dir.as_str(), "id_ed25519"),
            public_key: join_path(ssh_dir.as_str(), "id_ed25519.pub"),
            seed_iso: join_path(root, "seed.iso"),
            seed_instance_id,
            workspace_tar: join_path(root, archive.as_str()),
            ssh_port,
            cpu: cpu_or_default(self.cpu),
            memory_mb: memory_or_default(self.memory_mb),
            ssh_dir,
            runtime_root,
        }
    }

    /// Begins the run of a job that can be run: what the machine is made of, and
    /// where the run stands.
    pub fn begin<E>(&self, ctx: &ExecutionContext, command: &Vec<String>, state_dir: &str) -> (r:
        Result<(ProjectPlan, ProjectJobRun<E>), RunError>)
        ensures
            match r {
                Ok((plan, job)) => refusal(ctx.timeout_seconds, command@) is None && is_plan(
                    plan,
                    *self,
                    state_dir@,
                    ctx.attempt_id@,
                    vm_key_of(self.project_id@, self.environment@),
                    ssh_port_from(hash_number(vm_key_of(self.project_id@, self.environment@))),
                ) && job == (ProjectJobRun::<E> {
                    run: ProjectRun { step: ProjectStep::LookForRoot, root_was_missing: false },
                    result: None,
                }),
                Err(e) => refusal(ctx.timeout_seconds, command@) == Some(e),
            },
    {
        match check_run(ctx.timeout_seconds, command) {
            Ok(_) => Ok(
                (self.plan(state_dir, ctx.attempt_id.as_str()), ProjectJobRun::new()),
            ),
            Err(e) => Err(e),
        }
    }

    /// What the machine of the project is made of.
    pub fn plan(&self, state_dir: &str, attempt_id: &str) -> (r: ProjectPlan)
        ensures
            is_plan(
                r,
                *self,
                state_dir@,
                attempt_id@,
                vm_key_of(self.project_id@, self.environment@),
                ssh_port_from(hash_number(vm_key_of(self.project_id@, self.environment@))),
            ),
    {
        let vm_key = project_vm_key(self.project_id.as_str(), self.environment.as_str());
        let ssh_port = project_vm_ssh_port(vm_key.as_str());
        self.plan_for_key(state_dir, attempt_id, vm_key.as_str(), ssh_port)
    }
}

// ---------------------------------------------------------------------------
// The steps of a run
// ---------------------------------------------------------------------------

/// What is done next for a job in the machine of its project.
#[derive(Debug, Clone, Copy, PartialEq, Eq, Structural)]
pub enum ProjectStep {
    LookForRoot,
    CreateRoot,
    ResolveImage,
    InspectDisk,
    StopOldProcess,
    MoveDisk,
    LookForDisk,
    CreateOverlay,
    GrowOverlay,
    WriteGeneration,
    CreateKeyDir,
    LookForKeys,
    GenerateKeys,
    StopStrays,
    EnsureNetwork,
    DescribeRoutes,
    CreateSeed,
    CompareCommand,
    /// Ask the guest for an answer, for so long at most.
    ProbeGuest { limit_ms: u64 },
    StopProcess,
    StopStraysAgain,
    Launch,
    ReadCommand,
    AwaitReady,
    ArchiveWorkspace,
    RunCommand,
    RemoveArchive,
    Finished,
}

/// How a step ended, and what it found.
#[derive(Debug)]
pub enum ProjectEvent {
    Failed,
    Done,
    /// What was looked for is there, or not.
    Answer(bool),
    /// Whether there is a disk, and what its generation file holds.
    Disk { exists: bool, generation: Option<String> },
    /// So many processes were stopped.
    Count(u64),
    Lease(VmNetworkLease),
    Routes(Vec<String>),
    /// The command line that the machine runs under, and the one that it should.
    Commands { kept: Option<String>, desired: String },
    Pid(u32),
    Command(Option<String>),
}

/// Where a run stands.
#[derive(Debug, Clone, Copy, PartialEq, Eq, Structural)]
pub struct ProjectRun {
    pub step: ProjectStep,
    pub root_was_missing: bool,
}

/// Whether a generation file holds the present generation.
pub open spec fn is_current(generation: Option<Seq<char>>) -> bool {
    match generation {
        Some(g) => trimmed(g) == "disk-v2"@,
        None => false,
    }
}

/// Whether a machine runs under another command line than it should.
pub open spec fn command_changed(kept: Option<Seq<char>>, desired: Seq<char>) -> bool {
    match kept {
        Some(k) => k != desired,
        None => false,
    }
}

/// The step once the machine has its keys: where the machine is new, processes
/// that use its port are strays.
pub open spec fn step_with_keys(root_was_missing: bool) -> ProjectStep {
    if root_was_missing {
        ProjectStep::StopStrays
    } else {
        ProjectStep::EnsureNetwork
    }
}

/// The step after a step that ended in some way. A disk of another generation is
/// moved aside. The machine is launched anew where its command line changed or
/// its guest does not answer. An event that does not belong to a step ends the
/// run, as a failure does; only the archive is removed in any case.
pub open spec fn step_after_event(run: ProjectRun, event: ProjectEvent) -> ProjectStep {
    match (run.step, event) {
        (ProjectStep::LookForRoot, ProjectEvent::Answer(_)) => ProjectStep::CreateRoot,
        (ProjectStep::CreateRoot, ProjectEvent::Done) => ProjectStep::ResolveImage,
        (ProjectStep::ResolveImage, ProjectEvent::Done) => ProjectStep::InspectDisk,
        (ProjectStep::InspectDisk, ProjectEvent::Disk { exists, generation }) => if !exists {
            ProjectStep::CreateOverlay
        } else if is_current(text_of(generation)) {
            ProjectStep::WriteGeneration
        } else {
            ProjectStep::StopOldProcess
        },
        (ProjectStep::StopOldProcess, ProjectEvent::Done) => ProjectStep::MoveDisk,
        (ProjectStep::MoveDisk, ProjectEvent::Done) => ProjectStep::LookForDisk,
        (ProjectStep::LookForDisk, ProjectEvent::Answer(exists)) => if exists {
            ProjectStep::GrowOverlay
        } else {
            ProjectStep::CreateOverlay
        },
        (ProjectStep::CreateOverlay, ProjectEvent::Done) => ProjectStep::WriteGeneration,
        (ProjectStep::GrowOverlay, ProjectEvent::Done) => ProjectStep::WriteGeneration,
        (ProjectStep::WriteGeneration, ProjectEvent::Done) => ProjectStep::CreateKeyDir,
        (ProjectStep::CreateKeyDir, ProjectEvent::Done) => ProjectStep::LookForKeys,
        (ProjectStep::LookForKeys, ProjectEvent::Answer(both)) => if both {
            step_with_keys(run.root_was_missing)
        } else {
            ProjectStep::GenerateKeys
        },
        (ProjectStep::GenerateKeys, ProjectEvent::Done) => step_with_keys(run.root_was_missing),
        (ProjectStep::StopStrays, ProjectEvent::Count(_)) => ProjectStep::EnsureNetwork,
        (ProjectStep::EnsureNetwork, ProjectEvent::Lease(_)) => ProjectStep::DescribeRoutes,
        (ProjectStep::DescribeRoutes, ProjectEvent::Routes(_)) => ProjectStep::CreateSeed,
        (ProjectStep::CreateSeed, ProjectEvent::Done) => ProjectStep::CompareCommand,
        (
            ProjectStep::CompareCommand,
            ProjectEvent::Commands { kept, desired },
        ) => if command_changed(text_of(kept), desired@) {
            ProjectStep::StopProcess
        } else {
            ProjectStep::ProbeGuest { limit_ms: PROBE_LIMIT_MS }
        },
        (ProjectStep::ProbeGuest { .. }, ProjectEvent::Answer(ready)) => if ready {
            ProjectStep::AwaitReady
        } else {
            ProjectStep::StopProcess
        },
        (ProjectStep::StopProcess, ProjectEvent::Done) => ProjectStep::StopStraysAgain,
        (ProjectStep::StopStraysAgain, ProjectEvent::Count(_)) => ProjectStep::Launch,
        (ProjectStep::Launch, ProjectEvent::Pid(_)) => ProjectStep::ReadCommand,
        (ProjectStep::ReadCommand, ProjectEvent::Command(_)) => ProjectStep::AwaitReady,
        (ProjectStep::AwaitReady, ProjectEvent::Done) => ProjectStep::ArchiveWorkspace,
        (ProjectStep::ArchiveWorkspace, ProjectEvent::Done) => ProjectStep::RunCommand,
        (ProjectStep::RunCommand, _) => ProjectStep::RemoveArchive,
        _ => ProjectStep::Finished,
    }
}

/// Where a run stands after a step that ended in some way.
pub open spec fn run_after(run: ProjectRun, event: ProjectEvent) -> ProjectRun {
    ProjectRun {
        step: step_after_event(run, event),
        root_was_missing: match (run.step, event) {
            (ProjectStep::LookForRoot, ProjectEvent::Answer(exists)) => !exists,
            _ => run.root_was_missing,
        },
    }
}

fn with_keys(root_was_missing: bool) -> (r: ProjectStep)
    ensures
        r == step_with_keys(root_was_missing),
{
    if root_was_missing {
        ProjectStep::StopStrays
    } else {
        ProjectStep::EnsureNetwork
    }
}

fn generation_is_current(generation: &Option<String>) -> (r: bool)
    ensures
        r == is_current(text_of(*generation)),
{
    match generation {
        Some(g) => {
            let t = trim(g.as_str());
            same(t.as_str(), "disk-v2")
        },
        None => false,
    }
}

fn differs(kept: &Option<String>, desired: &str) -> (r: bool)
    ensures
        r == command_changed(text_of(*kept), desired@),
{
    match kept {
        Some(k) => !same(k.as_str(), desired),
        None => false,
    }
}

impl ProjectRun {
    /// A run begins.
    pub fn new() -> (r: Self)
        ensures
            r == (ProjectRun { step: ProjectStep::LookForRoot, root_was_missing: false }),
    {
        ProjectRun { step: ProjectStep::LookForRoot, root_was_missing: false }
    }

    /// Where the run stands after a step that ended in some way.
    pub fn advance(self, event: &ProjectEvent) -> (r: Self)
        ensures
            r == run_after(self, *event),
    {
        let mut root_was_missing = self.root_was_missing;
        let step = match (self.step, event) {
            (ProjectStep::LookForRoot, ProjectEvent::Answer(exists)) => {
                root_was_missing = !*exists;
                ProjectStep::CreateRoot
            },
            (ProjectStep::CreateRoot, ProjectEvent::Done) => ProjectStep::ResolveImage,
            (ProjectStep::ResolveImage, ProjectEvent::Done) => ProjectStep::InspectDisk,
            (ProjectStep::InspectDisk, ProjectEvent::Disk { exists, generation }) => {
                if !*exists {
                    ProjectStep::CreateOverlay
                } else if generation_is_current(generation) {
                    ProjectStep::WriteGeneration
                } else {
                    ProjectStep::StopOldProcess
                }
            },
            (ProjectStep::StopOldProcess, ProjectEvent::Done) => ProjectStep::MoveDisk,
            (ProjectStep::MoveDisk, ProjectEvent::Done) => ProjectStep::LookForDisk,
            (ProjectStep::LookForDisk, ProjectEvent::Answer(exists)) => {
                if *exists {
                    ProjectStep::GrowOverlay
                } else {
                    ProjectStep::CreateOverlay
                }
            },
            (ProjectStep::CreateOverlay, ProjectEvent::Done) => ProjectStep::WriteGeneration,
            (ProjectStep::GrowOverlay, ProjectEvent::Done) => ProjectStep::WriteGeneration,
            (ProjectStep::WriteGeneration, ProjectEvent::Done) => ProjectStep::CreateKeyDir,
            (ProjectStep::CreateKeyDir, ProjectEvent::Done) => ProjectStep::LookForKeys,
            (ProjectStep::LookForKeys, ProjectEvent::Answer(both)) => {
                if *both {
                    with_keys(self.root_was_missing)
                } else {
                    ProjectStep::GenerateKeys
                }
            },
            (ProjectStep::GenerateKeys, ProjectEvent::Done) => with_keys(self.root_was_missing),
            (ProjectStep::StopStrays, ProjectEvent::Count(_)) => ProjectStep::EnsureNetwork,
            (ProjectStep::EnsureNetwork, ProjectEvent::Lease(_)) => ProjectStep::DescribeRoutes,
            (ProjectStep::DescribeRoutes, ProjectEvent::Routes(_)) => ProjectStep::CreateSeed,
            (ProjectStep::CreateSeed, ProjectEvent::Done) => ProjectStep::CompareCommand,
            (ProjectStep::CompareCommand, ProjectEvent::Commands { kept, desired }) => {
                if differs(kept, desired.as_str()) {
                    ProjectStep::StopProcess
                } else {
                    ProjectStep::ProbeGuest { limit_ms: PROBE_LIMIT_MS }
                }
            },
            (ProjectStep::ProbeGuest { .. }, ProjectEvent::Answer(ready)) => {
                if *ready {
                    ProjectStep::AwaitReady
                } else {
                    ProjectStep::StopProcess
                }
            },
            (ProjectStep::StopProcess, ProjectEvent::Done) => ProjectStep::StopStraysAgain,
            (ProjectStep::StopStraysAgain, ProjectEvent::Count(_)) => ProjectStep::Launch,
            (ProjectStep::Launch, ProjectEvent::Pid(_)) => ProjectStep::ReadCommand,
            (ProjectStep::ReadCommand, ProjectEvent::Command(_)) => ProjectStep::AwaitReady,
            (ProjectStep::AwaitReady, ProjectEvent::Done) => ProjectStep::ArchiveWorkspace,
            (ProjectStep::ArchiveWorkspace, ProjectEvent::Done) => ProjectStep::RunCommand,
            (ProjectStep::RunCommand, _) => ProjectStep::RemoveArchive,
            _ => ProjectStep::Finished,
        };
        ProjectRun { step, root_was_missing }
    }
}

// ---------------------------------------------------------------------------
// What the owner of the job is told
// ---------------------------------------------------------------------------

/// What is told of processes that used the port of the machine.
pub open spec fn strays_told(count: u64, ssh_port: u16) -> Seq<Seq<char>> {
    if count > 0 {
        seq![
            "stopped "@ + decimal(count as nat)
                + " orphaned project microvm process(es) on ssh port "@ + decimal(ssh_port as nat),
        ]
    } else {
        Seq::empty()
    }
}

/// What is told of the routes of a project.
pub open spec fn routes_told(routes: Seq<Seq<char>>) -> Seq<Seq<char>> {
    if routes.len() == 0 {
        seq!["project microvm routes: no exposures requested"@]
    } else {
        Seq::new(routes.len(), |i: int| "project microvm route: "@ + routes[i])
    }
}

/// What the owner of the job is told of a step that ended in some way.
pub open spec fn told_of(
    plan: ProjectPlan,
    step: ProjectStep,
    event: ProjectEvent,
) -> Seq<Seq<char>> {
    match (step, event) {
        (ProjectStep::CreateRoot, ProjectEvent::Done) => seq![
            "preparing project microvm "@ + plan.vm_key@ + " at "@ + plan.runtime_root@,
        ],
        (ProjectStep::MoveDisk, ProjectEvent::Done) => seq![
            "backed up previous project microvm disk to "@ + plan.backup_image@
                + "; creating disk-v2 disk"@,
        ],
        (ProjectStep::StopStrays, ProjectEvent::Count(n)) => strays_told(n, plan.ssh_port),
        (ProjectStep::EnsureNetwork, ProjectEvent::Lease(lease)) => seq![
            "project microvm network: vm_ip="@ + ipv4_text(lease.vm_ip) + "/"@ + decimal(
                lease.prefix_len as nat,
            ) + " tap="@ + lease.tap_name@ + " mac="@ + lease.mac_address@ + " ssh=127.0.0.1:"@
                + decimal(plan.ssh_port as nat),
        ],
        (ProjectStep::DescribeRoutes, ProjectEvent::Routes(routes)) => routes_told(
            texts(routes@),
        ),
        (
            ProjectStep::CompareCommand,
            ProjectEvent::Commands { kept, desired },
        ) => if command_changed(text_of(kept), desired@) {
            seq!["project microvm qemu command changed; relaunching runtime"@]
        } else {
            Seq::empty()
        },
        (ProjectStep::StopStraysAgain, ProjectEvent::Count(n)) => strays_told(n, plan.ssh_port),
        (ProjectStep::Launch, ProjectEvent::Pid(pid)) => seq![
            "launched project microvm pid "@ + decimal(pid as nat) + " with "@ + decimal(
                plan.cpu as nat,
            ) + " cpu(s), "@ + decimal(plan.memory_mb as nat) + " MiB memory, ssh port "@
                + decimal(plan.ssh_port as nat),
        ],
        (ProjectStep::ReadCommand, ProjectEvent::Command(Some(command))) => seq![
            "project microvm qemu command: "@ + command@,
        ],
        (ProjectStep::AwaitReady, ProjectEvent::Done) => seq!["project microvm guest is ready"@],
        _ => Seq::empty(),
    }
}

fn one(s: String) -> (r: Vec<String>)
    ensures
        texts(r@) == seq![s@],
{
    let mut r = no_texts();
    push_text(&mut r, s.as_str());
    r
}

fn tell_strays(count: u64, ssh_port: u16) -> (r: Vec<String>)
    ensures
        texts(r@) == strays_told(count, ssh_port),
{
    if count == 0 {
        return no_texts();
    }
    let mut s = "stopped ".to_string();
    append_decimal(&mut s, count);
    s.append(" orphaned project microvm process(es) on ssh port ");
    append_decimal(&mut s, ssh_port as u64);
    one(s)
}

fn tell_routes(routes: &Vec<String>) -> (r: Vec<String>)
    ensures
        texts(r@) == routes_told(texts(routes@)),
{
    if routes.len() == 0 {
        return one("project microvm routes: no exposures requested".to_string());
    }
    let ghost want = routes_told(texts(routes@));
    let mut r = no_texts();
    let mut i: usize = 0;
    proof {
        assert(want.take(0) =~= Seq::<Seq<char>>::empty());
    }
    while i < routes.len()
        invariant
            routes@.len() > 0,
            want == routes_told(texts(routes@)),
            i <= routes@.len(),
            texts(r@) == want.take(i as int),
        decreases routes@.len() - i,
    {
        let mut s = "project microvm route: ".to_string();
        s.append(routes[i].as_str());
        proof {
            assert(texts(routes@)[i as int] == routes@[i as int]@);
            assert(want.take(i + 1) =~= want.take(i as int).push(s@));
        }
        push_text(&mut r, s.as_str());
        i += 1;
    }
    proof {
        assert(want.take(i as int) =~= want);
    }
    r
}

/// What the owner of the job is told of a step that ended in some way.
pub fn project_messages(plan: &ProjectPlan, step: ProjectStep, event: &ProjectEvent) -> (r: Vec<
    String,
>)
    ensures
        texts(r@) == told_of(*plan, step, *event),
{
    match (step, event) {
        (ProjectStep::CreateRoot, ProjectEvent::Done) => {
            let mut s = "preparing project microvm ".to_string();
            s.append(plan.vm_key.as_str());
            s.append(" at ");
            s.append(plan.runtime_root.as_str());
            one(s)
        },
        (ProjectStep::MoveDisk, ProjectEvent::Done) => {
            let mut s = "backed up previous project microvm disk to ".to_string();
            s.append(plan.backup_image.as_str());
            s.append("; creating disk-v2 disk");
            one(s)
        },
        (ProjectStep::StopStrays, ProjectEvent::Count(n)) => tell_strays(*n, plan.ssh_port),
        (ProjectStep::EnsureNetwork, ProjectEvent::Lease(lease)) => {
            let mut s = "project microvm network: vm_ip=".to_string();
            lease.vm_ip.append_to(&mut s);
            s.append("/");
            append_decimal(&mut s, lease.prefix_len as u64);
            s.append(" tap=");
            s.append(lease.tap_name.as_str());
            s.append(" mac=");
            s.append(lease.mac_address.as_str());
            s.append(" ssh=127.0.0.1:");
            append_decimal(&mut s, plan.ssh_port as u64);
            one(s)
        },
        (ProjectStep::DescribeRoutes, ProjectEvent::Routes(routes)) => tell_routes(routes),
        (ProjectStep::CompareCommand, ProjectEvent::Commands { kept, desired }) => {
            if differs(kept, desired.as_str()) {
                one("project microvm qemu command changed; relaunching runtime".to_string())
            } else {
                no_texts()
            }
        },
        (ProjectStep::StopStraysAgain, ProjectEvent::Count(n)) => tell_strays(*n, plan.ssh_port),
        (ProjectStep::Launch, ProjectEvent::Pid(pid)) => {
            let mut s = "launched project microvm pid ".to_string();
            append_decimal(&mut s, *pid as u64);
            s.append(" with ");
            append_decimal(&mut s, plan.cpu as u64);
            s.append(" cpu(s), ");
            append_decimal(&mut s, plan.memory_mb as u64);
            s.append(" MiB memory, ssh port ");
            append_decimal(&mut s, plan.ssh_port as u64);
            one(s)
        },
        (ProjectStep::ReadCommand, ProjectEvent::Command(command)) => {
            match command {
                Some(c) => {
                    let mut s = "project microvm qemu command: ".to_string();
                    s.append(c.as_str());
                    one(s)
                },
                None => no_texts(),
            }
        },
        (ProjectStep::AwaitReady, ProjectEvent::Done) => one(
            "project microvm guest is ready".to_string(),
        ),
        _ => no_texts(),
    }
}

// ---------------------------------------------------------------------------
// What holds of a run
// ---------------------------------------------------------------------------

/// A disk is made only where none was found, so that none is written over.
pub proof fn disk_is_never_overwritten(run: ProjectRun, event: ProjectEvent)
    requires
        run_after(run, event).step == ProjectStep::CreateOverlay,
    ensures
        (run.step == ProjectStep::InspectDisk && (event matches ProjectEvent::Disk { exists, .. }
            && !exists)) || (run.step == ProjectStep::LookForDisk && (event matches
            ProjectEvent::Answer(exists) && !exists)),
{
}

/// A run waits for the guest only where the guest answers under the command line
/// that it should run under, or the machine was launched in this run.
pub proof fn guest_is_waited_for_under_its_command(run: ProjectRun, event: ProjectEvent)
    requires
        run_after(run, event).step == ProjectStep::AwaitReady,
    ensures
        (run.step is ProbeGuest && (event matches ProjectEvent::Answer(ready)
            && ready)) || run.step == ProjectStep::ReadCommand,
{
}

/// The archive of the workspace is removed once the command has been tried,
/// however that ended.
pub proof fn archive_is_removed(run: ProjectRun, event: ProjectEvent)
    ensures
        run.step == ProjectStep::RunCommand ==> run_after(run, event).step
            == ProjectStep::RemoveArchive,
        run_after(run, event).step == ProjectStep::RemoveArchive ==> run.step
            == ProjectStep::RunCommand,
{
}

/// A failure before the command is tried ends the run.
pub proof fn failure_ends_the_run(run: ProjectRun)
    requires
        run.step != ProjectStep::RunCommand,
    ensures
        run_after(run, ProjectEvent::Failed).step == ProjectStep::Finished,
{
}

/// How many steps are left at most.
pub open spec fn project_steps_left(step: ProjectStep) -> nat {
    match step {
        ProjectStep::LookForRoot => 27,
        ProjectStep::CreateRoot => 26,
        ProjectStep::ResolveImage => 25,
        ProjectStep::InspectDisk => 24,
        ProjectStep::StopOldProcess => 23,
        ProjectStep::MoveDisk => 22,
        ProjectStep::LookForDisk => 21,
        ProjectStep::CreateOverlay => 20,
        ProjectStep::GrowOverlay => 20,
        ProjectStep::WriteGeneration => 19,
        ProjectStep::CreateKeyDir => 18,
        ProjectStep::LookForKeys => 17,
        ProjectStep::GenerateKeys => 16,
        ProjectStep::StopStrays => 15,
        ProjectStep::EnsureNetwork => 14,
        ProjectStep::DescribeRoutes => 13,
        ProjectStep::CreateSeed => 12,
        ProjectStep::CompareCommand => 11,
        ProjectStep::ProbeGuest { .. } => 10,
        ProjectStep::StopProcess => 9,
        ProjectStep::StopStraysAgain => 8,
        ProjectStep::Launch => 7,
        ProjectStep::ReadCommand => 6,
        ProjectStep::AwaitReady => 5,
        ProjectStep::ArchiveWorkspace => 4,
        ProjectStep::RunCommand => 3,
        ProjectStep::RemoveArchive => 2,
        ProjectStep::Finished => 0,
    }
}

/// A run comes to an end, however its steps end.
pub proof fn project_run_ends(run: ProjectRun, event: ProjectEvent)
    ensures
        run.step != ProjectStep::Finished ==> project_steps_left(run_after(run, event).step)
            < project_steps_left(run.step),
{
}

// ---------------------------------------------------------------------------
// What holds of a run from its start
// ---------------------------------------------------------------------------

/// Where a run stands after its steps ended in these ways.
pub open spec fn run_at(events: Seq<ProjectEvent>) -> ProjectRun
    decreases events.len(),
{
    if events.len() == 0 {
        ProjectRun { step: ProjectStep::LookForRoot, root_was_missing: false }
    } else {
        run_after(run_at(events.drop_last()), events.last())
    }
}

/// Whether the step in this turn of a run is `step`.
pub open spec fn is_turn(events: Seq<ProjectEvent>, i: int, step: ProjectStep) -> bool {
    0 <= i < events.len() && run_at(events.take(i)).step == step
}

/// Whether a step was tried in a run.
pub open spec fn has_tried(events: Seq<ProjectEvent>, step: ProjectStep) -> bool {
    exists|i: int| is_turn(events, i, step)
}

/// Whether a step was done in a run, and did not fail.
pub open spec fn has_done(events: Seq<ProjectEvent>, step: ProjectStep) -> bool {
    exists|i: int| #[trigger] is_turn(events, i, step) && !(events[i] is Failed)
}

/// Whether the run found a disk or made one in this turn, and did not move it aside
/// afterwards.
pub open spec fn gets_disk_at(events: Seq<ProjectEvent>, i: int) -> bool {
    &&& ({
        ||| is_turn(events, i, ProjectStep::InspectDisk) && (events[i] matches ProjectEvent::Disk {
            exists,
            ..
        } && exists)
        ||| is_turn(events, i, ProjectStep::LookForDisk) && (events[i] matches ProjectEvent::Answer(
            there,
        ) && there)
        ||| is_turn(events, i, ProjectStep::CreateOverlay) && events[i] is Done
    })
    &&& forall|j: int| i < j ==> !#[trigger] is_turn(events, j, ProjectStep::MoveDisk)
}

/// Whether the machine of the run has a disk.
pub open spec fn has_disk(events: Seq<ProjectEvent>) -> bool {
    exists|i: int| gets_disk_at(events, i)
}

/// Whether the run found its keys in this turn, or made them.
pub open spec fn gets_keys_at(events: Seq<ProjectEvent>, i: int) -> bool {
    ||| is_turn(events, i, ProjectStep::LookForKeys) && (events[i] matches ProjectEvent::Answer(
        there,
    ) && there)
    ||| is_turn(events, i, ProjectStep::GenerateKeys) && events[i] is Done
}

/// Whether the machine of the run has its keys.
pub open spec fn has_keys(events: Seq<ProjectEvent>) -> bool {
    exists|i: int| gets_keys_at(events, i)
}

proof fn lemma_turn(events: Seq<ProjectEvent>, i: int, step: ProjectStep)
    requires
        events.len() > 0,
        i < events.len() - 1,
    ensures
        is_turn(events, i, step) == is_turn(events.drop_last(), i, step),
{
    if 0 <= i {
        assert(events.drop_last().take(i) =~= events.take(i));
    }
}

proof fn lemma_last_turn(events: Seq<ProjectEvent>)
    requires
        events.len() > 0,
    ensures
        is_turn(events, events.len() - 1, run_at(events.drop_last()).step),
        events[events.len() - 1] == events.last(),
        forall|step: ProjectStep|
            #[trigger] is_turn(events, events.len() - 1, step) ==> step == run_at(
                events.drop_last(),
            ).step,
{
    assert(events.take(events.len() - 1) =~= events.drop_last());
}

proof fn lemma_done(events: Seq<ProjectEvent>, step: ProjectStep)
    requires
        events.len() > 0,
    ensures
        has_done(events, step) <==> has_done(events.drop_last(), step) || (run_at(
            events.drop_last(),
        ).step == step && !(events.last() is Failed)),
        has_tried(events, step) <==> has_tried(events.drop_last(), step) || run_at(
            events.drop_last(),
        ).step == step,
{
    let init = events.drop_last();
    let n = init.len() as int;
    lemma_last_turn(events);
    if has_done(init, step) {
        let i = choose|i: int| #[trigger] is_turn(init, i, step) && !(init[i] is Failed);
        lemma_turn(events, i, step);
        assert(events[i] == init[i]);
    }
    if has_tried(init, step) {
        let i = choose|i: int| is_turn(init, i, step);
        lemma_turn(events, i, step);
    }
    if has_done(events, step) {
        let i = choose|i: int| #[trigger] is_turn(events, i, step) && !(events[i] is Failed);
        if i < n {
            lemma_turn(events, i, step);
            assert(events[i] == init[i]);
        }
    }
    if has_tried(events, step) {
        let i = choose|i: int| is_turn(events, i, step);
        if i < n {
            lemma_turn(events, i, step);
        }
    }
}

proof fn lemma_disk(events: Seq<ProjectEvent>)
    requires
        events.len() > 0,
        has_disk(events.drop_last()),
        run_at(events.drop_last()).step != ProjectStep::MoveDisk,
    ensures
        has_disk(events),
{
    let init = events.drop_last();
    let i = choose|i: int| gets_disk_at(init, i);
    lemma_last_turn(events);
    lemma_turn(events, i, ProjectStep::InspectDisk);
    lemma_turn(events, i, ProjectStep::LookForDisk);
    lemma_turn(events, i, ProjectStep::CreateOverlay);
    assert(events[i] == init[i]);
    assert forall|j: int| i < j implies !#[trigger] is_turn(events, j, ProjectStep::MoveDisk) by {
        if j < init.len() {
            lemma_turn(events, j, ProjectStep::MoveDisk);
        }
    }
    assert(gets_disk_at(events, i));
}

proof fn lemma_new_disk(events: Seq<ProjectEvent>)
    requires
        events.len() > 0,
        ({
            let step = run_at(events.drop_last()).step;
            ||| step == ProjectStep::InspectDisk && (events.last() matches ProjectEvent::Disk {
                exists,
                ..
            } && exists)
            ||| step == ProjectStep::LookForDisk && (events.last() matches ProjectEvent::Answer(
                there,
            ) && there)
            ||| step == ProjectStep::CreateOverlay && events.last() is Done
        }),
    ensures
        has_disk(events),
{
    lemma_last_turn(events);
    assert(gets_disk_at(events, events.len() - 1));
}

proof fn lemma_keys(events: Seq<ProjectEvent>)
    requires
        events.len() > 0,
        has_keys(events.drop_last()) || (run_at(events.drop_last()).step
            == ProjectStep::LookForKeys && (events.last() matches ProjectEvent::Answer(there)
            && there)) || (run_at(events.drop_last()).step == ProjectStep::GenerateKeys
            && events.last() is Done),
    ensures
        has_keys(events),
{
    let init = events.drop_last();
    lemma_last_turn(events);
    if has_keys(init) {
        let i = choose|i: int| gets_keys_at(init, i);
        lemma_turn(events, i, ProjectStep::LookForKeys);
        lemma_turn(events, i, ProjectStep::GenerateKeys);
        assert(events[i] == init[i]);
        assert(gets_keys_at(events, i));
    } else {
        assert(gets_keys_at(events, events.len() - 1));
    }
}

/// Whether a step stands behind the preparation of the disk.
spec fn is_past_disk(step: ProjectStep) -> bool {
    0 < project_steps_left(step) <= 19
}

/// A machine is launched, and a guest waited for, only where there is a disk: one that
/// was found and not moved aside afterwards, or one that was made in this run.
pub proof fn launched_machine_has_a_disk(events: Seq<ProjectEvent>)
    ensures
        ({
            let step = run_at(events).step;
            ||| step == ProjectStep::WriteGeneration
            ||| step == ProjectStep::Launch
            ||| step == ProjectStep::AwaitReady
            ||| step == ProjectStep::RunCommand
        }) ==> has_disk(events),
{
    lemma_past_disk(events);
}

proof fn lemma_past_disk(events: Seq<ProjectEvent>)
    ensures
        is_past_disk(run_at(events).step) || run_at(events).step == ProjectStep::GrowOverlay
            ==> has_disk(events),
    decreases events.len(),
{
    if events.len() > 0 {
        let init = events.drop_last();
        lemma_past_disk(init);
        let before = run_at(init).step;
        let after = run_at(events).step;
        if is_past_disk(after) || after == ProjectStep::GrowOverlay {
            if is_past_disk(before) || before == ProjectStep::GrowOverlay {
                lemma_disk(events);
            } else {
                lemma_new_disk(events);
            }
        }
    }
}

/// Where no disk is found, one is made next.
pub proof fn missing_disk_is_made(run: ProjectRun, generation: Option<String>)
    ensures
        run.step == ProjectStep::InspectDisk ==> run_after(
            run,
            ProjectEvent::Disk { exists: false, generation },
        ).step == ProjectStep::CreateOverlay,
        run.step == ProjectStep::LookForDisk ==> run_after(run, ProjectEvent::Answer(false)).step
            == ProjectStep::CreateOverlay,
{
}

/// A disk is kept where its generation is the one that the plan of the machine has the
/// agent write down, white space around it aside; every other disk is moved aside
/// before the run goes on.
pub proof fn only_a_current_disk_is_kept(
    plan: ProjectPlan,
    runner: ProjectMicrovmRunner,
    state_dir: Seq<char>,
    attempt_id: Seq<char>,
    vm_key: Seq<char>,
    ssh_port: u16,
    run: ProjectRun,
    generation: Option<String>,
)
    requires
        is_plan(plan, runner, state_dir, attempt_id, vm_key, ssh_port),
        run.step == ProjectStep::InspectDisk,
    ensures
        ({
            let next = run_after(run, ProjectEvent::Disk { exists: true, generation });
            if generation matches Some(g) && trimmed(g@) == plan.generation@ {
                next.step == ProjectStep::WriteGeneration
            } else {
                &&& next.step == ProjectStep::StopOldProcess
                &&& run_after(next, ProjectEvent::Done).step == ProjectStep::MoveDisk
            }
        }),
{
}

/// Whether a step is one that each run goes through before it runs its command.
spec fn is_needed(step: ProjectStep) -> bool {
    ||| step == ProjectStep::LookForRoot
    ||| step == ProjectStep::CreateRoot
    ||| step == ProjectStep::ResolveImage
    ||| step == ProjectStep::InspectDisk
    ||| step == ProjectStep::WriteGeneration
    ||| step == ProjectStep::CreateKeyDir
    ||| step == ProjectStep::LookForKeys
    ||| step == ProjectStep::EnsureNetwork
    ||| step == ProjectStep::DescribeRoutes
    ||| step == ProjectStep::CreateSeed
    ||| step == ProjectStep::CompareCommand
    ||| step == ProjectStep::AwaitReady
    ||| step == ProjectStep::ArchiveWorkspace
}

proof fn lemma_needed(events: Seq<ProjectEvent>, step: ProjectStep)
    requires
        is_needed(step),
    ensures
        run_at(events).step != ProjectStep::Finished && project_steps_left(run_at(events).step)
            < project_steps_left(step) ==> has_done(events, step),
    decreases events.len(),
{
    if events.len() > 0 {
        lemma_needed(events.drop_last(), step);
        lemma_done(events, step);
    }
}

proof fn lemma_relaunched(events: Seq<ProjectEvent>)
    ensures
        ({
            let step = run_at(events).step;
            ||| step == ProjectStep::StopStraysAgain
            ||| step == ProjectStep::Launch
        }) ==> has_done(events, ProjectStep::StopProcess),
        run_at(events).step == ProjectStep::Launch ==> has_done(
            events,
            ProjectStep::StopStraysAgain,
        ),
    decreases events.len(),
{
    if events.len() > 0 {
        lemma_relaunched(events.drop_last());
        lemma_done(events, ProjectStep::StopProcess);
        lemma_done(events, ProjectStep::StopStraysAgain);
    }
}

proof fn lemma_have_keys(events: Seq<ProjectEvent>)
    ensures
        0 < project_steps_left(run_at(events).step) <= 15 ==> has_keys(events),
    decreases events.len(),
{
    if events.len() > 0 {
        lemma_have_keys(events.drop_last());
        if 0 < project_steps_left(run_at(events).step) <= 15 {
            lemma_keys(events);
        }
    }
}

/// A machine is launched only once all that it is made of is there and what ran in its
/// place is gone.
pub proof fn machine_is_launched_prepared(events: Seq<ProjectEvent>)
    requires
        run_at(events).step == ProjectStep::Launch,
    ensures
        has_done(events, ProjectStep::CreateRoot),
        has_done(events, ProjectStep::ResolveImage),
        has_disk(events),
        has_done(events, ProjectStep::WriteGeneration),
        has_done(events, ProjectStep::CreateKeyDir),
        has_keys(events),
        has_done(events, ProjectStep::EnsureNetwork),
        has_done(events, ProjectStep::CreateSeed),
        has_done(events, ProjectStep::CompareCommand),
        has_done(events, ProjectStep::StopProcess),
        has_done(events, ProjectStep::StopStraysAgain),
{
    lemma_needed(events, ProjectStep::CreateRoot);
    lemma_needed(events, ProjectStep::ResolveImage);
    lemma_past_disk(events);
    lemma_needed(events, ProjectStep::WriteGeneration);
    lemma_needed(events, ProjectStep::CreateKeyDir);
    lemma_have_keys(events);
    lemma_needed(events, ProjectStep::EnsureNetwork);
    lemma_needed(events, ProjectStep::CreateSeed);
    lemma_needed(events, ProjectStep::CompareCommand);
    lemma_relaunched(events);
}

/// The command of a job is run only in a machine that is prepared, whose guest was
/// waited for with success, and with the workspace archived.
pub proof fn command_is_run_in_a_ready_machine(events: Seq<ProjectEvent>)
    requires
        run_at(events).step == ProjectStep::RunCommand,
    ensures
        has_done(events, ProjectStep::LookForRoot),
        has_done(events, ProjectStep::CreateRoot),
        has_done(events, ProjectStep::ResolveImage),
        has_done(events, ProjectStep::InspectDisk),
        has_disk(events),
        has_done(events, ProjectStep::WriteGeneration),
        has_done(events, ProjectStep::LookForKeys),
        has_keys(events),
        has_done(events, ProjectStep::EnsureNetwork),
        has_done(events, ProjectStep::DescribeRoutes),
        has_done(events, ProjectStep::CreateSeed),
        has_done(events, ProjectStep::CompareCommand),
        has_done(events, ProjectStep::AwaitReady),
        has_done(events, ProjectStep::ArchiveWorkspace),
{
    lemma_needed(events, ProjectStep::LookForRoot);
    lemma_needed(events, ProjectStep::CreateRoot);
    lemma_needed(events, ProjectStep::ResolveImage);
    lemma_needed(events, ProjectStep::InspectDisk);
    lemma_past_disk(events);
    lemma_needed(events, ProjectStep::WriteGeneration);
    lemma_needed(events, ProjectStep::LookForKeys);
    lemma_have_keys(events);
    lemma_needed(events, ProjectStep::EnsureNetwork);
    lemma_needed(events, ProjectStep::DescribeRoutes);
    lemma_needed(events, ProjectStep::CreateSeed);
    lemma_needed(events, ProjectStep::CompareCommand);
    lemma_needed(events, ProjectStep::AwaitReady);
    lemma_needed(events, ProjectStep::ArchiveWorkspace);
}

/// The machine is launched anew exactly where the command line that it runs under is
/// another than it should be, or its guest does not answer; a guest that answers under
/// the right command line is only waited for.
pub proof fn machine_is_relaunched_for_a_reason(
    run: ProjectRun,
    kept: Option<String>,
    desired: String,
    answer: bool,
)
    ensures
        run.step == ProjectStep::CompareCommand ==> ({
            let next = run_after(run, ProjectEvent::Commands { kept, desired }).step;
            if kept matches Some(k) && k@ != desired@ {
                next == ProjectStep::StopProcess
            } else {
                next == ProjectStep::ProbeGuest { limit_ms: 5_000 }
            }
        }),
        run.step is ProbeGuest ==> ({
            let next = run_after(run, ProjectEvent::Answer(answer)).step;
            &&& answer ==> next == ProjectStep::AwaitReady
            &&& !answer ==> next == ProjectStep::StopProcess
        }),
{
}

proof fn lemma_missing(events: Seq<ProjectEvent>)
    ensures
        run_at(events).root_was_missing <==> exists|i: int| #[trigger]
            is_turn(events, i, ProjectStep::LookForRoot) && events[i] == ProjectEvent::Answer(
                false,
            ),
        run_at(events).step == ProjectStep::LookForRoot <==> events.len() == 0,
    decreases events.len(),
{
    if events.len() > 0 {
        let init = events.drop_last();
        lemma_missing(init);
        lemma_last_turn(events);
        if run_at(init).root_was_missing {
            let i = choose|i: int| #[trigger]
                is_turn(init, i, ProjectStep::LookForRoot) && init[i] == ProjectEvent::Answer(
                    false,
                );
            lemma_turn(events, i, ProjectStep::LookForRoot);
            assert(events[i] == init[i]);
        }
        if exists|i: int| #[trigger]
            is_turn(events, i, ProjectStep::LookForRoot) && events[i] == ProjectEvent::Answer(
                false,
            ) {
            let i = choose|i: int| #[trigger]
                is_turn(events, i, ProjectStep::LookForRoot) && events[i] == ProjectEvent::Answer(
                    false,
                );
            if i < init.len() {
                lemma_turn(events, i, ProjectStep::LookForRoot);
                assert(events[i] == init[i]);
            }
        }
    } else {
        if exists|i: int| #[trigger]
            is_turn(events, i, ProjectStep::LookForRoot) && events[i] == ProjectEvent::Answer(
                false,
            ) {
            let i = choose|i: int| #[trigger]
                is_turn(events, i, ProjectStep::LookForRoot) && events[i] == ProjectEvent::Answer(
                    false,
                );
            assert(i < 0);
        }
    }
}

proof fn lemma_strays(events: Seq<ProjectEvent>)
    ensures
        0 < project_steps_left(run_at(events).step) <= 14 && run_at(events).root_was_missing
            ==> has_done(events, ProjectStep::StopStrays),
        has_tried(events, ProjectStep::StopStrays) || run_at(events).step
            == ProjectStep::StopStrays ==> run_at(events).root_was_missing,
    decreases events.len(),
{
    if events.len() > 0 {
        lemma_strays(events.drop_last());
        lemma_missing(events.drop_last());
        lemma_done(events, ProjectStep::StopStrays);
    } else if has_tried(events, ProjectStep::StopStrays) {
        let i = choose|i: int| is_turn(events, i, ProjectStep::StopStrays);
        assert(i < 0);
    }
}

/// Where the directory of the machine was missing, processes that use its port are
/// stopped before it gets its network; where it was there, they are left alone.
pub proof fn strays_are_stopped_for_a_new_machine(events: Seq<ProjectEvent>)
    ensures
        run_at(events).step == ProjectStep::EnsureNetwork || run_at(events).step
            == ProjectStep::RunCommand ==> ({
            let was_missing = exists|i: int| #[trigger]
                is_turn(events, i, ProjectStep::LookForRoot) && events[i] == ProjectEvent::Answer(
                    false,
                );
            if was_missing {
                has_done(events, ProjectStep::StopStrays)
            } else {
                !has_tried(events, ProjectStep::StopStrays)
            }
        }),
{
    lemma_missing(events);
    lemma_strays(events);
}

/// Whether an event is what its step was done for.
pub open spec fn answers(step: ProjectStep, event: ProjectEvent) -> bool {
    match step {
        ProjectStep::LookForRoot
        | ProjectStep::LookForDisk
        | ProjectStep::LookForKeys
        | ProjectStep::ProbeGuest { .. } => event is Answer,
        ProjectStep::InspectDisk => event is Disk,
        ProjectStep::StopStrays | ProjectStep::StopStraysAgain => event is Count,
        ProjectStep::EnsureNetwork => event is Lease,
        ProjectStep::DescribeRoutes => event is Routes,
        ProjectStep::CompareCommand => event is Commands,
        ProjectStep::Launch => event is Pid,
        ProjectStep::ReadCommand => event is Command,
        _ => event is Done,
    }
}

/// A run whose steps all end as they should runs its command before it is over,
/// whatever they find.
pub proof fn good_run_runs_its_command(events: Seq<ProjectEvent>)
    requires
        forall|i: int|
            0 <= i < events.len() ==> answers(
                (#[trigger] run_at(events.take(i))).step,
                events[i],
            ),
    ensures
        run_at(events).step == ProjectStep::RemoveArchive || run_at(events).step
            == ProjectStep::Finished ==> has_done(events, ProjectStep::RunCommand),
    decreases events.len(),
{
    if events.len() > 0 {
        let init = events.drop_last();
        assert forall|i: int| 0 <= i < init.len() implies answers(
            (#[trigger] run_at(init.take(i))).step,
            init[i],
        ) by {
            assert(init.take(i) =~= events.take(i));
            assert(init[i] == events[i]);
        }
        good_run_runs_its_command(init);
        lemma_done(events, ProjectStep::RunCommand);
        assert(events.take(init.len() as int) =~= init);
        assert(answers(run_at(events.take(init.len() as int)).step, events[init.len() as int]));
    }
}

/// The machine has the processors and the memory that its runner names; where it names
/// none, two processors and four gibibytes.
pub proof fn machine_has_what_was_asked_for(
    plan: ProjectPlan,
    runner: ProjectMicrovmRunner,
    state_dir: Seq<char>,
    attempt_id: Seq<char>,
    vm_key: Seq<char>,
    ssh_port: u16,
)
    requires
        is_plan(plan, runner, state_dir, attempt_id, vm_key, ssh_port),
    ensures
        runner.cpu matches Some(n) ==> plan.cpu == n,
        runner.cpu is None ==> plan.cpu == 2,
        runner.memory_mb matches Some(n) ==> plan.memory_mb == n,
        runner.memory_mb is None ==> plan.memory_mb == 4 * 1_024,
        plan.vm_key@ == vm_key,
        plan.ssh_port == ssh_port,
{
}

/// Two runs for one machine share its directory, its disk and its keys, whatever the
/// attempt.
pub proof fn machine_outlives_its_attempts(
    plan: ProjectPlan,
    other: ProjectPlan,
    runner: ProjectMicrovmRunner,
    again: ProjectMicrovmRunner,
    state_dir: Seq<char>,
    attempt_id: Seq<char>,
    other_attempt_id: Seq<char>,
    vm_key: Seq<char>,
    ssh_port: u16,
)
    requires
        is_plan(plan, runner, state_dir, attempt_id, vm_key, ssh_port),
        is_plan(other, again, state_dir, other_attempt_id, vm_key, ssh_port),
    ensures
        plan.runtime_root@ == other.runtime_root@,
        plan.overlay_image@ == other.overlay_image@,
        plan.generation_path@ == other.generation_path@,
        plan.private_key@ == other.private_key@,
        plan.public_key@ == other.public_key@,
        plan.seed_instance_id@ == other.seed_instance_id@,
        segment_of(attempt_id) == segment_of(other_attempt_id) ==> plan.workspace_tar@
            == other.workspace_tar@,
{
}

// ---------------------------------------------------------------------------
// What a run hands back
// ---------------------------------------------------------------------------

/// How a step ended: with what it found, with the result of the job, or with an
/// error of whatever type.
#[derive(Debug)]
pub enum ProjectEnd<E> {
    Found(ProjectEvent),
    Finished(JobExecutionResult),
    Failed(E),
}

/// A run, and what it hands back once it is over.
#[derive(Debug)]
pub struct ProjectJobRun<E> {
    pub run: ProjectRun,
    pub result: Option<Result<JobExecutionResult, E>>,
}

/// What the end of a step means for the course of a run.
pub open spec fn event_of<E>(end: ProjectEnd<E>) -> ProjectEvent {
    match end {
        ProjectEnd::Found(event) => event,
        ProjectEnd::Finished(_) => ProjectEvent::Done,
        ProjectEnd::Failed(_) => ProjectEvent::Failed,
    }
}

/// Whether the run is past what its result depends on.
pub open spec fn is_settled(step: ProjectStep) -> bool {
    step == ProjectStep::RemoveArchive || step == ProjectStep::Finished
}

/// What a run hands back after a step that ended in some way: the error of a step
/// that failed, else the result of the command. Removing the archive changes
/// nothing about it.
pub open spec fn result_after<E>(
    step: ProjectStep,
    result: Option<Result<JobExecutionResult, E>>,
    end: ProjectEnd<E>,
) -> Option<Result<JobExecutionResult, E>> {
    if is_settled(step) {
        result
    } else {
        match end {
            ProjectEnd::Failed(error) => Some(Err(error)),
            ProjectEnd::Finished(r) => if step == ProjectStep::RunCommand {
                Some(Ok(r))
            } else {
                result
            },
            ProjectEnd::Found(_) => result,
        }
    }
}

/// A run after a step that ended in some way.
pub open spec fn job_run_after<E>(job: ProjectJobRun<E>, end: ProjectEnd<E>) -> ProjectJobRun<E> {
    ProjectJobRun {
        run: run_after(job.run, event_of(end)),
        result: result_after(job.run.step, job.result, end),
    }
}

impl<E> ProjectJobRun<E> {
    /// A run begins.
    pub fn new() -> (r: Self)
        ensures
            r == (ProjectJobRun::<E> {
                run: ProjectRun { step: ProjectStep::LookForRoot, root_was_missing: false },
                result: None,
            }),
    {
        ProjectJobRun { run: ProjectRun::new(), result: None }
    }

    /// The run after a step that ended in some way.
    pub fn advance(self, end: ProjectEnd<E>) -> (r: Self)
        ensures
            r == job_run_after(self, end),
    {
        let run = self.run;
        let over = run.step == ProjectStep::RemoveArchive || run.step == ProjectStep::Finished;
        match end {
            ProjectEnd::Found(event) => ProjectJobRun {
                run: run.advance(&event),
                result: self.result,
            },
            ProjectEnd::Finished(r) => {
                let next = run.advance(&ProjectEvent::Done);
                if run.step == ProjectStep::RunCommand {
                    ProjectJobRun { run: next, result: Some(Ok(r)) }
                } else {
                    ProjectJobRun { run: next, result: self.result }
                }
            },
            ProjectEnd::Failed(error) => {
                let next = run.advance(&ProjectEvent::Failed);
                if over {
                    ProjectJobRun { run: next, result: self.result }
                } else {
                    ProjectJobRun { run: next, result: Some(Err(error)) }
                }
            },
        }
    }
}

/// The run after these ends of its steps.
pub open spec fn job_run_at<E>(ends: Seq<ProjectEnd<E>>) -> ProjectJobRun<E>
    decreases ends.len(),
{
    if ends.len() == 0 {
        ProjectJobRun {
            run: ProjectRun { step: ProjectStep::LookForRoot, root_was_missing: false },
            result: None,
        }
    } else {
        job_run_after(job_run_at(ends.drop_last()), ends.last())
    }
}

proof fn lemma_settled_stays<E>(ends: Seq<ProjectEnd<E>>, n: int)
    requires
        0 <= n <= ends.len(),
        is_settled(job_run_at(ends.take(n)).run.step),
    ensures
        is_settled(job_run_at(ends).run.step),
        job_run_at(ends).result == job_run_at(ends.take(n)).result,
    decreases ends.len(),
{
    if n == ends.len() {
        assert(ends.take(n) =~= ends);
    } else {
        assert(ends.drop_last().take(n) =~= ends.take(n));
        lemma_settled_stays(ends.drop_last(), n);
    }
}

proof fn lemma_end_at<E>(ends: Seq<ProjectEnd<E>>, i: int)
    requires
        0 <= i < ends.len(),
    ensures
        job_run_at(ends.take(i + 1)) == job_run_after(job_run_at(ends.take(i)), ends[i]),
{
    assert(ends.take(i + 1).drop_last() =~= ends.take(i));
    assert(ends.take(i + 1).last() == ends[i]);
}

/// A run goes through the steps that follow from how they ended, so that what holds of
/// the steps holds of it.
pub proof fn run_goes_through_its_steps<E>(ends: Seq<ProjectEnd<E>>)
    ensures
        job_run_at(ends).run == run_at(Seq::new(ends.len(), |i: int| event_of(ends[i]))),
        forall|i: int|
            0 <= i < ends.len() && (#[trigger] ends[i]) is Failed ==> event_of(ends[i]) is Failed,
        forall|i: int|
            0 <= i < ends.len() ==> (#[trigger] ends[i] matches ProjectEnd::Found(event)
                ==> event_of(ends[i]) == event),
    decreases ends.len(),
{
    let events = Seq::new(ends.len(), |i: int| event_of(ends[i]));
    if ends.len() > 0 {
        let init = ends.drop_last();
        run_goes_through_its_steps(init);
        assert(events.drop_last() =~= Seq::new(init.len(), |i: int| event_of(init[i])));
        assert(events.last() == event_of(ends.last()));
    }
}

/// A step that fails gives a run its result: the run hands back that error,
/// whatever else is done before it is over.
pub proof fn failed_step_is_handed_back<E>(ends: Seq<ProjectEnd<E>>, i: int)
    requires
        0 <= i < ends.len(),
        ends[i] is Failed,
        !is_settled(job_run_at(ends.take(i)).run.step),
    ensures
        job_run_at(ends).result == Some(Err::<JobExecutionResult, E>(ends[i]->Failed_0)),
{
    lemma_end_at(ends, i);
    lemma_settled_stays(ends, i + 1);
}

/// A command that was run gives a run its result, whatever else is done before
/// it is over.
pub proof fn command_result_is_handed_back<E>(ends: Seq<ProjectEnd<E>>, i: int)
    requires
        0 <= i < ends.len(),
        ends[i] is Finished,
        job_run_at(ends.take(i)).run.step == ProjectStep::RunCommand,
    ensures
        job_run_at(ends).result == Some(Ok::<JobExecutionResult, E>(ends[i]->Finished_0)),
{
    lemma_end_at(ends, i);
    lemma_settled_stays(ends, i + 1);
}

/// Whether the end of a step is one that the step can have: an error, or what the
/// step looks for, and for the command a result.
pub open spec fn belongs<E>(run: ProjectRun, end: ProjectEnd<E>) -> bool {
    match end {
        ProjectEnd::Failed(_) => true,
        ProjectEnd::Finished(_) => run.step == ProjectStep::RunCommand,
        ProjectEnd::Found(event) => is_settled(run.step) || (run.step != ProjectStep::RunCommand
            && run_after(run, event).step != ProjectStep::Finished),
    }
}

/// A run that is over hands something back, if each step ended as it can.
pub proof fn finished_run_hands_something_back<E>(ends: Seq<ProjectEnd<E>>)
    requires
        forall|i: int|
            0 <= i < ends.len() ==> belongs(#[trigger] job_run_at(ends.take(i)).run, ends[i]),
    ensures
        is_settled(job_run_at(ends).run.step) ==> job_run_at(ends).result is Some,
    decreases ends.len(),
{
    if ends.len() > 0 {
        let init = ends.drop_last();
        let n = init.len() as int;
        assert forall|i: int| 0 <= i < init.len() implies belongs(
            #[trigger] job_run_at(init.take(i)).run,
            init[i],
        ) by {
            assert(init.take(i) =~= ends.take(i));
            assert(init[i] == ends[i]);
        }
        finished_run_hands_something_back(init);
        assert(ends.take(n) =~= init);
        assert(belongs(job_run_at(ends.take(n)).run, ends[n]));
    }
}

// ---------------------------------------------------------------------------
// What is told of a run
// ---------------------------------------------------------------------------

/// A command that differs from the one that was kept is told of, and nothing else is: not
/// the same one, and not the first.
pub proof fn changed_command_is_told(plan: ProjectPlan, kept: Option<String>, desired: String)
    ensures
        ({
            let told = told_of(
                plan,
                ProjectStep::CompareCommand,
                ProjectEvent::Commands { kept, desired },
            );
            &&& told.len() > 0 <==> kept is Some && kept->0@ != desired@
            &&& told.len() <= 1
        }),
{
}

/// Strays are told of exactly where there were any, with how many and on which port.
pub proof fn strays_are_told_of(plan: ProjectPlan, n: u64)
    ensures
        ({
            let told = told_of(plan, ProjectStep::StopStrays, ProjectEvent::Count(n));
            &&& told == told_of(plan, ProjectStep::StopStraysAgain, ProjectEvent::Count(n))
            &&& told.len() > 0 <==> n > 0
            &&& n > 0 ==> told.len() == 1 && crate::text::occurs(told[0], decimal(n as nat))
                && crate::text::occurs(told[0], decimal(plan.ssh_port as nat))
        }),
{
    let none = Seq::<char>::empty();
    let middle = " orphaned project microvm process(es) on ssh port "@;
    let port = decimal(plan.ssh_port as nat);
    let line = "stopped "@ + decimal(n as nat) + middle + port;
    assert(crate::text::occurs(line, decimal(n as nat))) by {
        crate::text::middle_occurs("stopped "@, decimal(n as nat), middle + port);
        assert(line =~= "stopped "@ + decimal(n as nat) + (middle + port));
    }
    assert(crate::text::occurs(line, port)) by {
        crate::text::middle_occurs("stopped "@ + decimal(n as nat) + middle, port, none);
        assert(line =~= "stopped "@ + decimal(n as nat) + middle + port + none);
    }
}

/// Each route is told of in a line of its own, in its order; without routes one line says
/// so.
pub proof fn routes_are_told_of(routes: Seq<Seq<char>>, i: int)
    requires
        0 <= i < routes.len(),
    ensures
        routes_told(routes).len() == routes.len(),
        crate::text::occurs(routes_told(routes)[i], routes[i]),
        routes_told(routes)[i].skip(routes_told(routes)[i].len() - routes[i].len()) == routes[i],
        routes_told(Seq::empty()).len() == 1,
{
    let none = Seq::<char>::empty();
    let front = "project microvm route: "@;
    crate::text::middle_occurs(front, routes[i], none);
    assert(front + routes[i] + none =~= front + routes[i]);
    assert((front + routes[i]).skip(front.len() as int) =~= routes[i]);
}

/// A machine that was launched is told of with its process, its processors, its memory
/// and its port.
pub proof fn launch_is_told_of(plan: ProjectPlan, pid: u32)
    ensures
        ({
            let told = told_of(plan, ProjectStep::Launch, ProjectEvent::Pid(pid));
            let front = "launched project microvm pid "@ + decimal(pid as nat) + " with "@;
            &&& told.len() == 1
            &&& crate::text::begins_with(told[0], front + decimal(plan.cpu as nat))
            &&& crate::text::occurs(told[0], decimal(plan.memory_mb as nat))
            &&& crate::text::occurs(told[0], decimal(plan.ssh_port as nat))
        }),
{
    let none = Seq::<char>::empty();
    let b = decimal(plan.cpu as nat);
    let c = decimal(plan.memory_mb as nat);
    let d = decimal(plan.ssh_port as nat);
    let front = "launched project microvm pid "@ + decimal(pid as nat) + " with "@;
    let z = " MiB memory, ssh port "@;
    let line = told_of(plan, ProjectStep::Launch, ProjectEvent::Pid(pid))[0];
    assert(crate::text::begins_with(line, front + b)) by {
        assert(line.take((front + b).len() as int) =~= front + b);
    }
    assert(crate::text::occurs(line, c)) by {
        crate::text::middle_occurs(front + b + " cpu(s), "@, c, z + d);
        assert(line =~= front + b + " cpu(s), "@ + c + (z + d));
    }
    assert(crate::text::occurs(line, d)) by {
        crate::text::middle_occurs(front + b + " cpu(s), "@ + c + z, d, none);
        assert(line =~= front + b + " cpu(s), "@ + c + z + d + none);
    }
}

/// What a run goes on with is what was found, where something was; else that the step was
/// done, or that it failed.
pub proof fn ends_are_events<E>(end: ProjectEnd<E>)
    ensures
        end matches ProjectEnd::Found(event) ==> event_of(end) == event,
        end is Finished ==> event_of(end) == ProjectEvent::Done,
        end is Failed ==> event_of(end) == ProjectEvent::Failed,
{
}

/// All that a machine has stands in its own directory, below that of the agent.
pub proof fn machine_stands_in_its_directory(
    plan: ProjectPlan,
    runner: ProjectMicrovmRunner,
    state_dir: Seq<char>,
    attempt_id: Seq<char>,
    vm_key: Seq<char>,
    ssh_port: u16,
)
    requires
        is_plan(plan, runner, state_dir, attempt_id, vm_key, ssh_port),
        crate::paths::is_name(vm_key),
    ensures
        crate::text::begins_with(plan.runtime_root@, state_dir),
        crate::text::begins_with(plan.overlay_image@, plan.runtime_root@),
        crate::text::begins_with(plan.generation_path@, plan.runtime_root@),
        crate::text::begins_with(plan.backup_image@, plan.runtime_root@),
        crate::text::begins_with(plan.seed_iso@, plan.runtime_root@),
        crate::text::begins_with(plan.ssh_dir@, plan.runtime_root@),
        crate::text::begins_with(plan.private_key@, plan.ssh_dir@),
        crate::text::begins_with(plan.public_key@, plan.ssh_dir@),
        crate::text::begins_with(plan.workspace_tar@, plan.runtime_root@),
        plan.overlay_image@ != plan.backup_image@,
        plan.private_key@ != plan.public_key@,
{
    let root = plan.runtime_root@;
    let ssh = plan.ssh_dir@;
    assert(crate::text::begins_with(root, state_dir)) by {
        reveal_strlit("microvm");
        reveal_strlit("projects");
        let base = below(state_dir, "microvm"@);
        let all = below(base, "projects"@);
        assert(vm_key.contains(vm_key[0]));
        crate::paths::path_stands_below(state_dir, "microvm"@);
        crate::paths::path_stands_below(base, "projects"@);
        crate::paths::path_stands_below(all, vm_key);
        crate::text::prefix_of_prefix(all, base, state_dir);
        crate::text::prefix_of_prefix(root, all, state_dir);
    }
    assert(crate::text::begins_with(plan.overlay_image@, root) && crate::text::begins_with(
        plan.backup_image@,
        root,
    ) && plan.overlay_image@ != plan.backup_image@) by {
        reveal_strlit("disk.qcow2");
        reveal_strlit("disk.disk-v2.qcow2");
        crate::paths::path_stands_below(root, "disk.qcow2"@);
        crate::paths::path_stands_below(root, "disk.disk-v2.qcow2"@);
        assert("disk.qcow2"@.len() == 10 && "disk.disk-v2.qcow2"@.len() == 18);
        crate::paths::names_lead_apart(root, "disk.qcow2"@, "disk.disk-v2.qcow2"@);
    }
    assert(crate::text::begins_with(plan.generation_path@, root)) by {
        reveal_strlit("disk.generation");
        crate::paths::path_stands_below(root, "disk.generation"@);
    }
    assert(crate::text::begins_with(plan.seed_iso@, root)) by {
        reveal_strlit("seed.iso");
        crate::paths::path_stands_below(root, "seed.iso"@);
    }
    assert(crate::text::begins_with(ssh, root)) by {
        reveal_strlit("ssh");
        crate::paths::path_stands_below(root, "ssh"@);
    }
    assert(crate::text::begins_with(plan.private_key@, ssh) && crate::text::begins_with(
        plan.public_key@,
        ssh,
    ) && plan.private_key@ != plan.public_key@) by {
        reveal_strlit("id_ed25519");
        reveal_strlit("id_ed25519.pub");
        crate::paths::path_stands_below(ssh, "id_ed25519"@);
        crate::paths::path_stands_below(ssh, "id_ed25519.pub"@);
        assert("id_ed25519"@.len() == 10 && "id_ed25519.pub"@.len() == 14);
        crate::paths::names_lead_apart(ssh, "id_ed25519"@, "id_ed25519.pub"@);
    }
    assert(crate::text::begins_with(plan.workspace_tar@, root)) by {
        reveal_strlit("workspace-");
        let tar = "workspace-"@ + segment_of(attempt_id) + ".tar.gz"@;
        assert(tar[0] == 'w');
        crate::paths::path_stands_below(root, tar);
    }
}

/// Two machines with different names have different directories, and the seed of each is
/// known by its name and the generation of its disk.
pub proof fn machines_are_kept_apart(
    plan: ProjectPlan,
    other: ProjectPlan,
    runner: ProjectMicrovmRunner,
    state_dir: Seq<char>,
    attempt_id: Seq<char>,
    vm_key: Seq<char>,
    other_key: Seq<char>,
    ssh_port: u16,
)
    requires
        is_plan(plan, runner, state_dir, attempt_id, vm_key, ssh_port),
        is_plan(other, runner, state_dir, attempt_id, other_key, ssh_port),
        crate::paths::is_name(vm_key),
        crate::paths::is_name(other_key),
        vm_key != other_key,
    ensures
        plan.runtime_root@ != other.runtime_root@,
        plan.seed_instance_id@ == vm_key + "-"@ + plan.generation@,
        plan.seed_instance_id@ != other.seed_instance_id@,
{
    let all = below(below(state_dir, "microvm"@), "projects"@);
    assert(vm_key.contains(vm_key[0]) && other_key.contains(other_key[0]));
    crate::paths::names_lead_apart(all, vm_key, other_key);
    assert(plan.seed_instance_id@ =~= vm_key + "-"@ + plan.generation@) by {
        reveal_strlit("-disk-v2");
        reveal_strlit("disk-v2");
        reveal_strlit("-");
        assert("-disk-v2"@ =~= "-"@ + "disk-v2"@);
    }
    if plan.seed_instance_id@ == other.seed_instance_id@ {
        let id = plan.seed_instance_id@;
        assert(vm_key.len() == other_key.len());
        assert(id.take(vm_key.len() as int) =~= vm_key);
        assert(other.seed_instance_id@.take(vm_key.len() as int) =~= other_key);
    }
}

/// What a run hands back is what its command gave, or the error of the step that failed;
/// no other step gives it a result, and taking the archive away changes nothing.
pub proof fn result_is_of_the_command_or_a_failure<E>(
    step: ProjectStep,
    result: Option<Result<JobExecutionResult, E>>,
    end: ProjectEnd<E>,
)
    ensures
        step == ProjectStep::RemoveArchive || step == ProjectStep::Finished ==> result_after(
            step,
            result,
            end,
        ) == result,
        step != ProjectStep::RemoveArchive && step != ProjectStep::Finished && end is Failed
            ==> result_after(step, result, end) == Some(
            Err::<JobExecutionResult, E>(end->Failed_0),
        ),
        step == ProjectStep::RunCommand && end is Finished ==> result_after(step, result, end)
            == Some(Ok::<JobExecutionResult, E>(end->Finished_0)),
        !(end is Failed) && step != ProjectStep::RunCommand ==> result_after(step, result, end)
            == result,
        end is Found ==> result_after(step, result, end) == result,
{
}

} // verus!

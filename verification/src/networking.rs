//! Networks of projects: the addresses, ports and proxy routes that the agent
//! hands out, and the state that it keeps of them.
use std::collections::BTreeSet;
use vstd::prelude::*;
use vstd::string::*;

use crate::netaddr::Ipv4Addr;
use crate::text::{no_texts, texts};

pub mod commands;
pub mod error;
pub mod exposure;
pub mod laws;
pub mod naming;
pub mod ports;
pub mod proxy;
pub mod state;

use self::error::NetworkError;
use self::exposure::{
    all_judged, all_valid, describe_all, descriptions, evaluate_exposures, request_models,
    ExposureRequest, RequestModel,
};
use self::naming::{
    find_open_address, key_of, naming_of, open_address, project_key, project_naming, NamingModel,
    ProjectNaming,
};
use self::ports::{
    active_claims, allocate_fresh_port, assign_host_ports, assigned, collect_active_claims,
    free_port, lemma_claims_kept, newly_granted, release_unused_host_ports, released,
};
use self::state::{
    exposure_models, lemma_map_update, AgentNetworkState, AllocationModel, ExposureModel,
    ExposureState, ProjectModel, ProjectNetworkState, SlotModel, STATE_VERSION,
};

verus! {

/// What a machine needs to know of its network.
#[derive(Debug)]
pub struct VmNetworkLease {
    pub vm_ip: Ipv4Addr,
    pub tap_name: String,
    pub mac_address: String,
    pub prefix_len: u8,
}

pub struct LeaseModel {
    pub vm_ip: Ipv4Addr,
    pub tap_name: Seq<char>,
    pub mac_address: Seq<char>,
    pub prefix_len: u8,
}

impl View for VmNetworkLease {
    type V = LeaseModel;

    open spec fn view(&self) -> LeaseModel {
        LeaseModel {
            vm_ip: self.vm_ip,
            tap_name: self.tap_name@,
            mac_address: self.mac_address@,
            prefix_len: self.prefix_len,
        }
    }
}

// ---------------------------------------------------------------------------
// Giving a project its network
// ---------------------------------------------------------------------------

/// A request for the network of a project.
pub struct NetworkRequest {
    pub project_id: Seq<char>,
    pub environment: Seq<char>,
    pub vm_id: Seq<char>,
    pub exposures: Seq<RequestModel>,
}

/// The projects, the host ports and the lease after a request was granted.
pub struct NetworkGrant {
    pub projects: Map<Seq<char>, ProjectModel>,
    pub ports: Map<u16, AllocationModel>,
    pub lease: LeaseModel,
}

/// The project as it stands before its exposures are judged: the one that is
/// filed already, else a new one with the first open address.
pub open spec fn admitted(
    projects: Map<Seq<char>, ProjectModel>,
    naming: NamingModel,
    request: NetworkRequest,
) -> Option<ProjectModel> {
    if projects.contains_key(naming.key) {
        Some(projects[naming.key])
    } else {
        match open_address(projects, naming.start) {
            Some(vm_ip) => Some(
                ProjectModel {
                    project_id: request.project_id,
                    environment: request.environment,
                    vm_id: request.vm_id,
                    vm_ip,
                    tap_name: naming.tap_name,
                    mac_address: naming.mac_address,
                    reserved: false,
                    exposures: Seq::empty(),
                },
            ),
            None => None,
        }
    }
}

/// What comes of a request for the network of a project.
pub open spec fn ensured(
    projects: Map<Seq<char>, ProjectModel>,
    ports: Map<u16, AllocationModel>,
    prefix_len: u8,
    busy: Set<u16>,
    naming: NamingModel,
    request: NetworkRequest,
) -> Result<NetworkGrant, NetworkError> {
    match admitted(projects, naming, request) {
        None => Err(NetworkError::NoFreeAddress),
        Some(p) => if !all_valid(request.exposures) {
            Err(NetworkError::InvalidTargetPort)
        } else {
            let wanted = all_judged(p.project_id, request.exposures);
            match assigned(ports, busy, naming.key, wanted) {
                None => Err(NetworkError::NoFreePort),
                Some((after, served)) => Ok(
                    NetworkGrant {
                        projects: projects.insert(
                            naming.key,
                            ProjectModel {
                                vm_id: request.vm_id,
                                reserved: false,
                                exposures: served,
                                ..p
                            },
                        ),
                        ports: released(after, naming.key, active_claims(wanted)),
                        lease: LeaseModel {
                            vm_ip: p.vm_ip,
                            tap_name: p.tap_name,
                            mac_address: p.mac_address,
                            prefix_len,
                        },
                    },
                ),
            }
        },
    }
}

/// Gives a project its network, under the names that it has on the host.
/// Nothing comes of a request that cannot be granted.
pub fn ensure_named_network(
    state: AgentNetworkState,
    busy: &BTreeSet<u16>,
    naming: &ProjectNaming,
    project_id: &str,
    environment: &str,
    vm_id: &str,
    exposures: &Vec<ExposureRequest>,
) -> (r: Result<(AgentNetworkState, VmNetworkLease), NetworkError>)
    requires
        state.wf(),
    ensures
        ({
            let request = NetworkRequest {
                project_id: project_id@,
                environment: environment@,
                vm_id: vm_id@,
                exposures: request_models(exposures@),
            };
            let outcome = ensured(
                state.project_map(),
                state.port_map(),
                state.bridge.prefix_len,
                busy@,
                naming@,
                request,
            );
            match r {
                Ok((next, lease)) => outcome == Ok::<NetworkGrant, NetworkError>(
                    NetworkGrant {
                        projects: next.project_map(),
                        ports: next.port_map(),
                        lease: lease@,
                    },
                ) && next.wf() && next.version == STATE_VERSION && next.bridge == state.bridge,
                Err(e) => outcome == Err::<NetworkGrant, NetworkError>(e),
            }
        }),
{
    let ghost projects = state.project_map();
    let ghost ports = state.port_map();
    let ghost request = NetworkRequest {
        project_id: project_id@,
        environment: environment@,
        vm_id: vm_id@,
        exposures: request_models(exposures@),
    };
    let mut state = state;
    let key = naming.key.as_str();
    let i = match state.find(key) {
        Some(i) => i,
        None => {
            let vm_ip = match find_open_address(&state, naming.start) {
                Ok(ip) => ip,
                Err(e) => {
                    return Err(e);
                },
            };
            let none: Vec<ExposureState> = Vec::new();
            proof {
                assert(exposure_models(none@) =~= Seq::<ExposureModel>::empty());
            }
            let project = ProjectNetworkState {
                project_id: project_id.to_owned(),
                environment: environment.to_owned(),
                vm_id: vm_id.to_owned(),
                vm_ip,
                tap_name: naming.tap_name.clone(),
                mac_address: naming.mac_address.clone(),
                reserved: false,
                exposures: none,
            };
            state.file_project(key, project)
        },
    };
    let ghost p = state.projects@[i as int].project@;
    proof {
        assert(admitted(projects, naming@, request) == Some(p));
        assert(state.project_map().insert(naming@.key, p) =~= projects.insert(naming@.key, p));
    }
    let mut served = match evaluate_exposures(&state.projects[i].project, exposures) {
        Ok(v) => v,
        Err(e) => {
            return Err(e);
        },
    };
    let ghost wanted = exposure_models(served@);
    if let Err(e) = assign_host_ports(&mut state.allocated_host_ports, busy, key, &mut served) {
        return Err(e);
    }
    let active = collect_active_claims(&served);
    proof {
        lemma_claims_kept(ports, busy@, naming@.key, wanted);
    }
    release_unused_host_ports(&mut state.allocated_host_ports, key, &active);
    state.occupy(i, vm_id.to_owned(), served);
    state.version = STATE_VERSION;
    proof {
        assert(state.project_map() =~= projects.insert(
            naming@.key,
            state.projects@[i as int].project@,
        ));
    }
    let lease = VmNetworkLease {
        vm_ip: state.projects[i].project.vm_ip,
        tap_name: state.projects[i].project.tap_name.clone(),
        mac_address: state.projects[i].project.mac_address.clone(),
        prefix_len: state.bridge.prefix_len,
    };
    Ok((state, lease))
}

/// Gives a project its network: its address, its tap device and the host ports
/// of its exposures. A project that has a network keeps its address and its
/// device. Nothing comes of a request that cannot be granted.
pub fn ensure_project_network(
    state: AgentNetworkState,
    busy: &BTreeSet<u16>,
    project_id: &str,
    environment: &str,
    vm_id: &str,
    exposures: &Vec<ExposureRequest>,
) -> (r: Result<(AgentNetworkState, VmNetworkLease), NetworkError>)
    requires
        state.wf(),
    ensures
        ({
            let request = NetworkRequest {
                project_id: project_id@,
                environment: environment@,
                vm_id: vm_id@,
                exposures: request_models(exposures@),
            };
            let outcome = ensured(
                state.project_map(),
                state.port_map(),
                state.bridge.prefix_len,
                busy@,
                naming_of(project_id@, environment@),
                request,
            );
            match r {
                Ok((next, lease)) => outcome == Ok::<NetworkGrant, NetworkError>(
                    NetworkGrant {
                        projects: next.project_map(),
                        ports: next.port_map(),
                        lease: lease@,
                    },
                ) && next.wf() && next.version == STATE_VERSION && next.bridge == state.bridge,
                Err(e) => outcome == Err::<NetworkGrant, NetworkError>(e),
            }
        }),
{
    let naming = project_naming(project_id, environment);
    ensure_named_network(state, busy, &naming, project_id, environment, vm_id, exposures)
}

// ---------------------------------------------------------------------------
// Taking a network away
// ---------------------------------------------------------------------------

/// The projects after the network of one is taken away.
pub open spec fn stopped(
    projects: Map<Seq<char>, ProjectModel>,
    key: Seq<char>,
    reserve_ip: bool,
) -> Map<Seq<char>, ProjectModel> {
    if !projects.contains_key(key) {
        projects
    } else if reserve_ip {
        projects.insert(
            key,
            ProjectModel { reserved: true, exposures: Seq::empty(), ..projects[key] },
        )
    } else {
        projects.remove(key)
    }
}

/// Takes the network of a project away; with `reserve_ip` the project keeps its
/// place and its address. Names the tap device that is to be deleted.
pub fn stop_project_network(
    state: AgentNetworkState,
    project_id: &str,
    environment: &str,
    reserve_ip: bool,
) -> (r: (AgentNetworkState, Option<String>))
    requires
        state.wf(),
    ensures
        r.0.wf(),
        r.0.version == STATE_VERSION,
        r.0.bridge == state.bridge,
        r.0.port_map() == state.port_map(),
        r.0.project_map() == stopped(
            state.project_map(),
            key_of(project_id@, environment@),
            reserve_ip,
        ),
        crate::text::text_of(r.1) == if state.project_map().contains_key(
            key_of(project_id@, environment@),
        ) {
            Some(state.project_map()[key_of(project_id@, environment@)].tap_name)
        } else {
            None
        },
{
    let mut state = state;
    let key = project_key(project_id, environment);
    let found = state.find(key.as_str());
    let mut tap: Option<String> = None;
    if let Some(i) = found {
        tap = Some(state.projects[i].project.tap_name.clone());
        if reserve_ip {
            state.vacate(i);
        } else {
            state.remove_at(i);
        }
    }
    state.version = STATE_VERSION;
    (state, tap)
}

// ---------------------------------------------------------------------------
// Starting up
// ---------------------------------------------------------------------------

/// The projects, in order, with the host ports that their exposures get when the
/// agent starts, and the ports then handed out.
pub open spec fn reassigned(
    ports: Map<u16, AllocationModel>,
    busy: Set<u16>,
    slots: Seq<SlotModel>,
) -> Option<(Map<u16, AllocationModel>, Seq<SlotModel>)>
    decreases slots.len(),
{
    if slots.len() == 0 {
        Some((ports, slots))
    } else {
        let slot = slots.last();
        match reassigned(ports, busy, slots.drop_last()) {
            Some((m, done)) => match assigned(m, busy, slot.key, slot.project.exposures) {
                Some((n, exposures)) => Some(
                    (
                        released(n, slot.key, active_claims(slot.project.exposures)),
                        done.push(
                            SlotModel {
                                key: slot.key,
                                project: ProjectModel { exposures, ..slot.project },
                            },
                        ),
                    ),
                ),
                None => None,
            },
            None => None,
        }
    }
}

proof fn lemma_reassigned_prefix(
    ports: Map<u16, AllocationModel>,
    busy: Set<u16>,
    slots: Seq<SlotModel>,
    i: int,
)
    requires
        0 <= i <= slots.len(),
        reassigned(ports, busy, slots.take(i)) is None,
    ensures
        reassigned(ports, busy, slots) is None,
    decreases slots.len(),
{
    if i == slots.len() {
        assert(slots.take(i) =~= slots);
    } else {
        assert(slots.drop_last().take(i) =~= slots.take(i));
        lemma_reassigned_prefix(ports, busy, slots.drop_last(), i);
    }
}

/// Gives the exposures of each project their host ports, and takes back the
/// ports that no exposure uses.
pub fn ensure_managed_exposure_ports(
    state: AgentNetworkState,
    busy: &BTreeSet<u16>,
) -> (r: Result<AgentNetworkState, NetworkError>)
    requires
        state.wf(),
    ensures
        match r {
            Ok(next) => reassigned(state.port_map(), busy@, state.slots()) == Some(
                (next.port_map(), next.slots()),
            ) && next.wf() && next.version == state.version && next.bridge == state.bridge,
            Err(e) => e == NetworkError::NoFreePort && reassigned(
                state.port_map(),
                busy@,
                state.slots(),
            ) is None,
        },
{
    let ghost slots = state.slots();
    let ghost ports = state.port_map();
    let ghost version = state.version;
    let ghost bridge = state.bridge;
    let mut next = state;
    let n = next.projects.len();
    let mut i: usize = 0;
    proof {
        assert(slots.take(0) =~= Seq::<SlotModel>::empty());
        assert(next.slots().take(0) =~= Seq::<SlotModel>::empty());
    }
    while i < n
        invariant
            slots == state.slots(),
            ports == state.port_map(),
            version == state.version,
            bridge == state.bridge,
            i <= n,
            n == slots.len(),
            n == next.projects@.len(),
            next.wf(),
            next.version == version,
            next.bridge == bridge,
            forall|j: int| i <= j < n ==> #[trigger] next.slots()[j] == slots[j],
            reassigned(ports, busy@, slots.take(i as int)) == Some(
                (next.port_map(), next.slots().take(i as int)),
            ),
        decreases n - i,
    {
        let ghost before = next.slots();
        let ghost m = next.port_map();
        let ghost slot = slots[i as int];
        proof {
            assert(before[i as int] == slot);
            assert(before[i as int] == next.projects@[i as int]@);
            assert(slots.take(i + 1).drop_last() =~= slots.take(i as int));
            assert(slots.take(i + 1).last() == slot);
        }
        let key = next.projects[i].key.clone();
        let outcome = assign_host_ports(
            &mut next.allocated_host_ports,
            busy,
            key.as_str(),
            &mut next.projects[i].project.exposures,
        );
        if let Err(e) = outcome {
            proof {
                assert(reassigned(ports, busy@, slots.take(i + 1)) is None);
                lemma_reassigned_prefix(ports, busy@, slots, i + 1);
            }
            return Err(e);
        }
        let active = collect_active_claims(&next.projects[i].project.exposures);
        proof {
            lemma_claims_kept(m, busy@, slot.key, slot.project.exposures);
        }
        release_unused_host_ports(&mut next.allocated_host_ports, key.as_str(), &active);
        proof {
            let p = next.projects@[i as int].project@;
            lemma_map_update(before, i as int, p);
            assert(next.slots() =~= before.update(
                i as int,
                SlotModel { key: slot.key, project: p },
            ));
            assert(next.slots().take(i + 1) =~= before.take(i as int).push(
                SlotModel { key: slot.key, project: p },
            ));
        }
        i += 1;
    }
    proof {
        assert(slots.take(n as int) =~= slots);
        assert(next.slots().take(n as int) =~= next.slots());
    }
    Ok(next)
}

/// Brings the state up to date when the agent starts.
pub fn reconcile_on_start(
    state: AgentNetworkState,
    busy: &BTreeSet<u16>,
) -> (r: Result<AgentNetworkState, NetworkError>)
    requires
        state.wf(),
    ensures
        match r {
            Ok(next) => reassigned(state.port_map(), busy@, state.slots()) == Some(
                (next.port_map(), next.slots()),
            ) && next.wf() && next.version == STATE_VERSION && next.bridge == state.bridge,
            Err(e) => e == NetworkError::NoFreePort && reassigned(
                state.port_map(),
                busy@,
                state.slots(),
            ) is None,
        },
{
    match ensure_managed_exposure_ports(state, busy) {
        Ok(next) => {
            let mut next = next;
            next.version = STATE_VERSION;
            Ok(next)
        },
        Err(e) => Err(e),
    }
}

// ---------------------------------------------------------------------------
// Single ports, and what a reader is told
// ---------------------------------------------------------------------------

/// Hands the lowest free host port out to a project.
pub fn allocate_managed_port(
    state: AgentNetworkState,
    busy: &BTreeSet<u16>,
    project_id: &str,
    environment: &str,
    protocol: &str,
) -> (r: Result<(AgentNetworkState, u16), NetworkError>)
    requires
        state.wf(),
    ensures
        match r {
            Ok((next, port)) => newly_granted(
                state.port_map(),
                busy@,
                key_of(project_id@, environment@),
                protocol@,
                0,
            ) == Some((port, next.port_map())) && next.wf() && next.version == STATE_VERSION
                && next.bridge == state.bridge && next.slots() == state.slots(),
            Err(e) => e == NetworkError::NoFreePort && free_port(state.port_map(), busy@) is None,
        },
{
    let mut state = state;
    let key = project_key(project_id, environment);
    match allocate_fresh_port(&mut state, busy, key.as_str(), protocol) {
        Ok(port) => {
            state.version = STATE_VERSION;
            Ok((state, port))
        },
        Err(e) => Err(e),
    }
}

/// How the exposures of a project are described to a reader; a project without a
/// network has none.
pub fn project_route_descriptions(
    state: &AgentNetworkState,
    project_id: &str,
    environment: &str,
) -> (r: Vec<String>)
    requires
        state.wf(),
    ensures
        texts(r@) == if state.project_map().contains_key(key_of(project_id@, environment@)) {
            descriptions(state.project_map()[key_of(project_id@, environment@)])
        } else {
            Seq::empty()
        },
{
    let key = project_key(project_id, environment);
    match state.find(key.as_str()) {
        Some(i) => describe_all(&state.projects[i].project),
        None => no_texts(),
    }
}

} // verus!

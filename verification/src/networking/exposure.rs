//! What projects expose: how a request is judged, and how the proxy serves it.
use vstd::prelude::*;
use vstd::string::*;

use crate::netaddr::ipv4_text;
use crate::text::{append_decimal, decimal, no_texts, push_text, text_of, texts, trim, trimmed};

use super::error::NetworkError;
use super::state::{
    exposure_models, AgentNetworkState, ExposureModel, ExposureState, ExposureStatus,
    ExposureVisibility, ProjectModel, ProjectNetworkState, RuleOwner, SlotModel,
};

verus! {

/// A request to expose a port of a project.
#[derive(Debug)]
pub struct ExposureRequest {
    pub host: Option<String>,
    pub target_port: u16,
    pub visibility: ExposureVisibility,
    pub workspace_public_http_allowed: bool,
    pub node_ingress_allowed: bool,
    pub project_exposure_allowed: bool,
}

pub struct RequestModel {
    pub host: Option<Seq<char>>,
    pub target_port: u16,
    pub visibility: ExposureVisibility,
    pub workspace_public_http_allowed: bool,
    pub node_ingress_allowed: bool,
    pub project_exposure_allowed: bool,
}

impl View for ExposureRequest {
    type V = RequestModel;

    open spec fn view(&self) -> RequestModel {
        RequestModel {
            host: text_of(self.host),
            target_port: self.target_port,
            visibility: self.visibility,
            workspace_public_http_allowed: self.workspace_public_http_allowed,
            node_ingress_allowed: self.node_ingress_allowed,
            project_exposure_allowed: self.project_exposure_allowed,
        }
    }
}

/// The models of a list of requests.
pub open spec fn request_models(v: Seq<ExposureRequest>) -> Seq<RequestModel> {
    Seq::new(v.len(), |i: int| v[i]@)
}

/// The visibility of a request that names none.
pub fn default_visibility() -> (r: ExposureVisibility)
    ensures
        r == ExposureVisibility::Private,
{
    ExposureVisibility::Private
}

/// Whether a project may expose something where the request does not say.
pub fn default_project_exposure_allowed() -> (r: bool)
    ensures
        r,
{
    true
}

// ---------------------------------------------------------------------------
// Judging requests
// ---------------------------------------------------------------------------

/// The host that a request names, if it names one.
pub open spec fn given_host(host: Option<Seq<char>>) -> Option<Seq<char>> {
    match host {
        Some(h) => if trimmed(h).len() > 0 {
            Some(trimmed(h))
        } else {
            None
        },
        None => None,
    }
}

/// Why a request is denied, if it is: only public exposure needs leave.
pub open spec fn denial(request: RequestModel) -> Option<Seq<char>> {
    if request.visibility != ExposureVisibility::Public {
        None
    } else if !request.workspace_public_http_allowed {
        Some("workspace policy does not allow public HTTP exposure"@)
    } else if !request.node_ingress_allowed {
        Some("node is not allowed to act as an ingress node"@)
    } else if !request.project_exposure_allowed {
        Some("project is not allowed to request public exposure"@)
    } else {
        None
    }
}

/// Whether a request waits for a host: a public one that names none does.
pub open spec fn is_waiting(request: RequestModel) -> bool {
    request.visibility == ExposureVisibility::Public && given_host(request.host) is None
}

/// What a request of a project comes to.
pub open spec fn judged(project_id: Seq<char>, request: RequestModel) -> ExposureModel {
    ExposureModel {
        host: match given_host(request.host) {
            Some(h) => h,
            None => project_id + ".statix.local"@,
        },
        target_port: request.target_port,
        host_port: None,
        visibility: request.visibility,
        status: if is_waiting(request) {
            ExposureStatus::Pending
        } else if denial(request) is Some {
            ExposureStatus::Denied
        } else {
            ExposureStatus::Active
        },
        reason: if is_waiting(request) {
            Some("exposure host is not assigned yet"@)
        } else {
            denial(request)
        },
        owner: "statix-agent"@,
    }
}

fn denied_reason(request: &ExposureRequest) -> (r: Option<String>)
    ensures
        text_of(r) == denial(request@),
{
    match request.visibility {
        ExposureVisibility::Internal => None,
        ExposureVisibility::Private => None,
        ExposureVisibility::Public => {
            if !request.workspace_public_http_allowed {
                Some("workspace policy does not allow public HTTP exposure".to_string())
            } else if !request.node_ingress_allowed {
                Some("node is not allowed to act as an ingress node".to_string())
            } else if !request.project_exposure_allowed {
                Some("project is not allowed to request public exposure".to_string())
            } else {
                None
            }
        },
    }
}

fn host_of(host: &Option<String>) -> (r: Option<String>)
    ensures
        text_of(r) == given_host(text_of(*host)),
{
    match host {
        Some(h) => {
            let t = trim(h.as_str());
            if t.as_str().is_empty() {
                None
            } else {
                Some(t)
            }
        },
        None => None,
    }
}

/// Judges a request of a project. Port zero cannot be exposed.
pub fn evaluate_exposure(
    project: &ProjectNetworkState,
    request: &ExposureRequest,
) -> (r: Result<ExposureState, NetworkError>)
    ensures
        match r {
            Ok(e) => request.target_port != 0 && e@ == judged(project@.project_id, request@),
            Err(e) => request.target_port == 0 && e == NetworkError::InvalidTargetPort,
        },
{
    if request.target_port == 0 {
        return Err(NetworkError::InvalidTargetPort);
    }
    let given = host_of(&request.host);
    let pending = request.visibility == ExposureVisibility::Public && given.is_none();
    let denied = denied_reason(request);
    let status = if pending {
        ExposureStatus::Pending
    } else if denied.is_some() {
        ExposureStatus::Denied
    } else {
        ExposureStatus::Active
    };
    let host = match given {
        Some(h) => h,
        None => {
            let mut h = project.project_id.clone();
            h.append(".statix.local");
            h
        },
    };
    let reason = if pending {
        Some("exposure host is not assigned yet".to_string())
    } else {
        denied
    };
    Ok(
        ExposureState {
            host,
            target_port: request.target_port,
            host_port: None,
            visibility: request.visibility,
            status,
            reason,
            owner: RuleOwner::statix(),
        },
    )
}

/// Whether each request names a port that can be exposed.
pub open spec fn all_valid(requests: Seq<RequestModel>) -> bool {
    forall|i: int| 0 <= i < requests.len() ==> (#[trigger] requests[i]).target_port != 0
}

/// What the requests of a project come to.
pub open spec fn all_judged(
    project_id: Seq<char>,
    requests: Seq<RequestModel>,
) -> Seq<ExposureModel> {
    Seq::new(requests.len(), |i: int| judged(project_id, requests[i]))
}

/// Judges the requests of a project.
pub fn evaluate_exposures(
    project: &ProjectNetworkState,
    requests: &Vec<ExposureRequest>,
) -> (r: Result<Vec<ExposureState>, NetworkError>)
    ensures
        match r {
            Ok(v) => all_valid(request_models(requests@)) && exposure_models(v@) == all_judged(
                project@.project_id,
                request_models(requests@),
            ),
            Err(e) => !all_valid(request_models(requests@)) && e
                == NetworkError::InvalidTargetPort,
        },
{
    let ghost rs = request_models(requests@);
    let mut v: Vec<ExposureState> = Vec::new();
    let mut i: usize = 0;
    while i < requests.len()
        invariant
            rs == request_models(requests@),
            i <= requests@.len(),
            v@.len() == i,
            forall|j: int| 0 <= j < i ==> (#[trigger] rs[j]).target_port != 0,
            forall|j: int|
                0 <= j < i ==> (#[trigger] v@[j])@ == judged(project@.project_id, rs[j]),
        decreases requests@.len() - i,
    {
        proof {
            assert(rs[i as int] == requests@[i as int]@);
        }
        match evaluate_exposure(project, &requests[i]) {
            Ok(e) => {
                v.push(e);
            },
            Err(e) => {
                return Err(e);
            },
        }
        i += 1;
    }
    proof {
        assert(exposure_models(v@) =~= all_judged(project@.project_id, rs));
    }
    Ok(v)
}

// ---------------------------------------------------------------------------
// Serving exposures
// ---------------------------------------------------------------------------

/// Where the proxy listens for an exposure: on the host name of a public one,
/// else on a port of the host itself.
pub open spec fn bind_of(e: ExposureModel) -> Seq<char> {
    if e.visibility == ExposureVisibility::Public {
        e.host
    } else {
        "127.0.0.1:"@ + decimal(
            match e.host_port {
                Some(p) => p as nat,
                None => e.target_port as nat,
            },
        )
    }
}

/// Where the proxy listens for an exposure.
pub fn exposure_bind(exposure: &ExposureState) -> (r: String)
    ensures
        r@ == bind_of(exposure@),
{
    if exposure.visibility == ExposureVisibility::Public {
        exposure.host.clone()
    } else {
        let mut r = "127.0.0.1:".to_string();
        let port: u16 = match exposure.host_port {
            Some(p) => p,
            None => exposure.target_port,
        };
        append_decimal(&mut r, port as u64);
        r
    }
}

/// How an exposure of a project is described to a reader.
pub open spec fn description(p: ProjectModel, e: ExposureModel) -> Seq<char> {
    if e.status == ExposureStatus::Active {
        e.visibility.text() + " exposure: "@ + bind_of(e) + " -> "@ + ipv4_text(p.vm_ip) + ":"@
            + decimal(e.target_port as nat)
    } else {
        e.visibility.text() + " exposure for "@ + ipv4_text(p.vm_ip) + ":"@ + decimal(
            e.target_port as nat,
        ) + " is "@ + e.status.text() + (match e.reason {
            Some(reason) => " ("@ + reason + ")"@,
            None => Seq::empty(),
        })
    }
}

fn describe(project: &ProjectNetworkState, exposure: &ExposureState) -> (r: String)
    ensures
        r@ == description(project@, exposure@),
{
    let mut r = exposure.visibility.as_str().to_owned();
    if exposure.status == ExposureStatus::Active {
        r.append(" exposure: ");
        r.append(exposure_bind(exposure).as_str());
        r.append(" -> ");
        project.vm_ip.append_to(&mut r);
        r.append(":");
        append_decimal(&mut r, exposure.target_port as u64);
    } else {
        r.append(" exposure for ");
        project.vm_ip.append_to(&mut r);
        r.append(":");
        append_decimal(&mut r, exposure.target_port as u64);
        r.append(" is ");
        r.append(exposure.status.as_str());
        let mut tail = String::new();
        if let Some(reason) = &exposure.reason {
            tail.append(" (");
            tail.append(reason.as_str());
            tail.append(")");
            proof {
                assert(tail@ =~= " ("@ + reason@ + ")"@);
            }
        }
        proof {
            assert(exposure.reason is None ==> tail@ =~= Seq::<char>::empty());
        }
        r.append(tail.as_str());
    }
    r
}

/// How the exposures of a project are described to a reader.
pub open spec fn descriptions(p: ProjectModel) -> Seq<Seq<char>> {
    Seq::new(p.exposures.len(), |i: int| description(p, p.exposures[i]))
}

pub(crate) fn describe_all(project: &ProjectNetworkState) -> (r: Vec<String>)
    ensures
        texts(r@) == descriptions(project@),
{
    let ghost p = project@;
    let mut r = no_texts();
    let mut i: usize = 0;
    while i < project.exposures.len()
        invariant
            p == project@,
            i <= project.exposures@.len(),
            texts(r@) == descriptions(p).take(i as int),
        decreases project.exposures@.len() - i,
    {
        let d = describe(project, &project.exposures[i]);
        proof {
            assert(p.exposures[i as int] == project.exposures@[i as int]@);
            assert(descriptions(p).take(i + 1) =~= descriptions(p).take(i as int).push(d@));
        }
        push_text(&mut r, d.as_str());
        i += 1;
    }
    proof {
        assert(descriptions(p).take(i as int) =~= descriptions(p));
    }
    r
}

// ---------------------------------------------------------------------------
// The routes of the proxy
// ---------------------------------------------------------------------------

/// The route of an active exposure; one that is not active has none.
pub open spec fn route(p: ProjectModel, e: ExposureModel) -> Seq<char> {
    if e.status == ExposureStatus::Active {
        bind_of(e) + " {\n\treverse_proxy "@ + ipv4_text(p.vm_ip) + ":"@ + decimal(
            e.target_port as nat,
        ) + "\n}\n\n"@
    } else {
        Seq::empty()
    }
}

/// The routes of the first `n` exposures of a project.
pub open spec fn project_routes(p: ProjectModel, n: nat) -> Seq<char>
    decreases n,
{
    if n == 0 {
        Seq::empty()
    } else {
        project_routes(p, (n - 1) as nat) + route(p, p.exposures[n - 1])
    }
}

/// The routes of the first `n` projects.
pub open spec fn all_routes(slots: Seq<SlotModel>, n: nat) -> Seq<char>
    decreases n,
{
    if n == 0 {
        Seq::empty()
    } else {
        let p = slots[n - 1].project;
        all_routes(slots, (n - 1) as nat) + project_routes(p, p.exposures.len())
    }
}

/// The configuration of the proxy.
pub open spec fn proxy_text(slots: Seq<SlotModel>) -> Seq<char> {
    "# Generated by statix-agent. Do not edit by hand.\n\n"@ + all_routes(slots, slots.len())
}

/// Whether the project serves something.
pub open spec fn serves(p: ProjectModel) -> bool {
    exists|i: int|
        0 <= i < p.exposures.len() && (#[trigger] p.exposures[i]).status == ExposureStatus::Active
}

/// Whether some project serves something.
pub open spec fn any_serves(slots: Seq<SlotModel>) -> bool {
    exists|i: int| 0 <= i < slots.len() && serves((#[trigger] slots[i]).project)
}

fn append_route(project: &ProjectNetworkState, exposure: &ExposureState, out: &mut String)
    requires
        exposure.status == ExposureStatus::Active,
    ensures
        final(out)@ == old(out)@ + route(project@, exposure@),
{
    let mut r = exposure_bind(exposure);
    r.append(" {\n\treverse_proxy ");
    project.vm_ip.append_to(&mut r);
    r.append(":");
    append_decimal(&mut r, exposure.target_port as u64);
    r.append("\n}\n\n");
    out.append(r.as_str());
}

fn append_project_routes(project: &ProjectNetworkState, out: &mut String) -> (r: bool)
    ensures
        final(out)@ == old(out)@ + project_routes(project@, project@.exposures.len()),
        r == serves(project@),
{
    let ghost p = project@;
    let ghost start = out@;
    let mut any = false;
    let mut i: usize = 0;
    proof {
        assert(out@ =~= start + project_routes(p, 0));
    }
    while i < project.exposures.len()
        invariant
            p == project@,
            i <= project.exposures@.len(),
            out@ == start + project_routes(p, i as nat),
            any == exists|j: int|
                0 <= j < i && (#[trigger] p.exposures[j]).status == ExposureStatus::Active,
        decreases project.exposures@.len() - i,
    {
        proof {
            assert(p.exposures[i as int] == project.exposures@[i as int]@);
        }
        if project.exposures[i].status == ExposureStatus::Active {
            append_route(project, &project.exposures[i], out);
            any = true;
        }
        proof {
            assert(out@ =~= start + project_routes(p, (i + 1) as nat));
        }
        i += 1;
    }
    any
}

/// The configuration of the proxy, and whether it serves anything.
pub fn proxy_routes(state: &AgentNetworkState) -> (r: (String, bool))
    ensures
        r.0@ == proxy_text(state.slots()),
        r.1 == any_serves(state.slots()),
{
    let ghost slots = state.slots();
    let mut out = "# Generated by statix-agent. Do not edit by hand.\n\n".to_string();
    let ghost head = out@;
    let mut any = false;
    let mut i: usize = 0;
    proof {
        assert(out@ =~= head + all_routes(slots, 0));
    }
    while i < state.projects.len()
        invariant
            slots == state.slots(),
            i <= state.projects@.len(),
            out@ == head + all_routes(slots, i as nat),
            any == exists|j: int| 0 <= j < i && serves((#[trigger] slots[j]).project),
        decreases state.projects@.len() - i,
    {
        proof {
            assert(slots[i as int] == state.projects@[i as int]@);
        }
        if append_project_routes(&state.projects[i].project, &mut out) {
            any = true;
        }
        proof {
            assert(out@ =~= head + all_routes(slots, (i + 1) as nat));
        }
        i += 1;
    }
    (out, any)
}

} // verus!

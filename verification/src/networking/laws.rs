//! What holds of the networks of projects, whatever is asked of the agent.
use vstd::prelude::*;

use crate::netaddr::ipv4_text;
use crate::text::{
    beginning_is_a_front, begins_with, decimal, decimal_reads_back, middle_occurs, occurs,
    part_occurs, parted_reads_back, trimmed,
};

use super::exposure::{
    all_judged, all_routes, any_serves, bind_of, description, given_host, judged, project_routes,
    proxy_text, route, serves, RequestModel,
};
use super::naming::{
    candidate, is_first_open, is_open, is_used, lemma_some_open, numbered_address, open_address,
    NamingModel, ADDRESS_COUNT,
};
use super::ports::{
    active_claims, allocation, assigned, claimed_port, free_port, granted, holds_claim, is_claimed,
    is_first_free, is_free, is_managed, lemma_claimed, lemma_claims_kept, lemma_some_claimed,
    lemma_free_port, newly_granted, released, reserved_ports, survives, DYNAMIC_PORT_END,
    DYNAMIC_PORT_START,
};
use super::state::{
    default_gateway_address, lemma_before_irreflexive, lemma_map_at, ordered, project_map,
    AllocationModel, ExposureModel, ExposureStatus, ExposureVisibility, ProjectModel, SlotModel,
};
use super::{admitted, ensured, reassigned, stopped, NetworkGrant, NetworkRequest};

verus! {

// ---------------------------------------------------------------------------
// Host ports
// ---------------------------------------------------------------------------

/// A port that a project gets is one that it has for that target already, or
/// one that is free: in the agent's range, not reserved, not handed out and not
/// used by another program. No other port changes hands.
pub proof fn granted_port_is_free_or_own(
    ports: Map<u16, AllocationModel>,
    busy: Set<u16>,
    key: Seq<char>,
    protocol: Seq<char>,
    target_port: u16,
)
    requires
        granted(ports, busy, key, protocol, target_port) is Some,
    ensures
        ({
            let (p, after) = granted(ports, busy, key, protocol, target_port).unwrap();
            &&& holds_claim(ports, key, protocol, target_port, p) || is_free(ports, busy, p)
            &&& holds_claim(after, key, protocol, target_port, p)
            &&& forall|q: u16|
                q != p ==> (#[trigger] after.contains_key(q) <==> ports.contains_key(q))
                    && after[q] == ports[q]
            &&& claimed_port(after, key, protocol, target_port) == Some(p)
        }),
{
    let (p, after) = granted(ports, busy, key, protocol, target_port).unwrap();
    match claimed_port(ports, key, protocol, target_port) {
        Some(c) => {
            assert(is_claimed(ports, key, protocol, target_port, c));
        },
        None => {
            lemma_free_port(ports, busy);
            assert(is_first_free(ports, busy, p));
            assert(after[p] == allocation(key, protocol, target_port, p));
            assert forall|q: u16| #[trigger]
                holds_claim(after, key, protocol, target_port, q) implies p <= q by {
                if q != p {
                    lemma_some_claimed(ports, key, protocol, target_port, q);
                }
            }
            assert(is_claimed(after, key, protocol, target_port, p));
            lemma_claimed(after, key, protocol, target_port, p);
        },
    }
}

/// The search for a free port overlooks none: it fails only where each port of
/// the agent's range is reserved, handed out or used by another program.
pub proof fn port_search_is_complete(
    ports: Map<u16, AllocationModel>,
    busy: Set<u16>,
    p: u16,
)
    requires
        free_port(ports, busy) is None,
        DYNAMIC_PORT_START <= p <= DYNAMIC_PORT_END,
    ensures
        reserved_ports().contains(p) || ports.contains_key(p) || busy.contains(p),
{
    assert(!is_free(ports, busy, p));
}

/// Whether what `before` hands out to others than `key` stands unchanged in
/// `after`.
pub open spec fn others_keep(
    before: Map<u16, AllocationModel>,
    after: Map<u16, AllocationModel>,
    key: Seq<char>,
) -> bool {
    forall|p: u16| #[trigger]
        before.contains_key(p) && before[p].project_key != key ==> after.contains_key(p)
            && after[p] == before[p]
}

/// A grant leaves the claims of other targets as they are.
proof fn lemma_grant_keeps_claims(
    ports: Map<u16, AllocationModel>,
    busy: Set<u16>,
    key: Seq<char>,
    target_port: u16,
    other: u16,
)
    requires
        granted(ports, busy, key, "tcp"@, target_port) is Some,
        claimed_port(ports, key, "tcp"@, other) is Some,
    ensures
        claimed_port(granted(ports, busy, key, "tcp"@, target_port).unwrap().1, key, "tcp"@, other)
            == claimed_port(ports, key, "tcp"@, other),
{
    let (p, after) = granted(ports, busy, key, "tcp"@, target_port).unwrap();
    let c = claimed_port(ports, key, "tcp"@, other).unwrap();
    assert(is_claimed(ports, key, "tcp"@, other, c));
    if claimed_port(ports, key, "tcp"@, target_port) is None {
        assert(other != target_port);
        lemma_free_port(ports, busy);
        assert(is_first_free(ports, busy, p));
        assert(after == ports.insert(p, allocation(key, "tcp"@, target_port, p)));
        assert(holds_claim(after, key, "tcp"@, other, c));
        assert forall|q: u16| #[trigger] holds_claim(after, key, "tcp"@, other, q) implies c
            <= q by {
            assert(q != p);
            assert(holds_claim(ports, key, "tcp"@, other, q));
        }
        assert(is_claimed(after, key, "tcp"@, other, c));
        lemma_claimed(after, key, "tcp"@, other, c);
    }
}

/// What an assignment of host ports does: each exposure that needs a port has
/// the one that is claimed for its target; nothing else of it changes; and what
/// was handed out stays handed out.
pub proof fn assignment_serves_each(
    ports: Map<u16, AllocationModel>,
    busy: Set<u16>,
    key: Seq<char>,
    exposures: Seq<ExposureModel>,
)
    requires
        assigned(ports, busy, key, exposures) is Some,
    ensures
        ({
            let (after, served) = assigned(ports, busy, key, exposures).unwrap();
            &&& served.len() == exposures.len()
            &&& forall|i: int|
                0 <= i < exposures.len() ==> #[trigger] served[i] == if is_managed(exposures[i]) {
                    ExposureModel {
                        host_port: claimed_port(after, key, "tcp"@, exposures[i].target_port),
                        ..exposures[i]
                    }
                } else {
                    exposures[i]
                }
            &&& forall|i: int|
                0 <= i < exposures.len() && is_managed(#[trigger] exposures[i]) ==> claimed_port(
                    after,
                    key,
                    "tcp"@,
                    exposures[i].target_port,
                ) is Some
            &&& forall|t: u16|
                claimed_port(ports, key, "tcp"@, t) is Some ==> #[trigger] claimed_port(
                    after,
                    key,
                    "tcp"@,
                    t,
                ) == claimed_port(ports, key, "tcp"@, t)
            &&& forall|p: u16| #[trigger]
                ports.contains_key(p) ==> after.contains_key(p) && after[p] == ports[p]
            &&& forall|p: u16| #[trigger]
                after.contains_key(p) ==> ports.contains_key(p) || (is_free(ports, busy, p)
                    && after[p].project_key == key)
        }),
    decreases exposures.len(),
{
    if exposures.len() > 0 {
        let init = exposures.drop_last();
        let e = exposures.last();
        assignment_serves_each(ports, busy, key, init);
        let (m, done) = assigned(ports, busy, key, init).unwrap();
        let (after, served) = assigned(ports, busy, key, exposures).unwrap();
        if is_managed(e) {
            granted_port_is_free_or_own(m, busy, key, "tcp"@, e.target_port);
            let (p, n) = granted(m, busy, key, "tcp"@, e.target_port).unwrap();
            assert(n == after);
            assert forall|t: u16| claimed_port(m, key, "tcp"@, t) is Some implies #[trigger]
                claimed_port(after, key, "tcp"@, t) == claimed_port(m, key, "tcp"@, t) by {
                lemma_grant_keeps_claims(m, busy, key, e.target_port, t);
            }
            assert forall|q: u16| #[trigger] m.contains_key(q) implies after.contains_key(q)
                && after[q] == m[q] by {
                if q == p && !holds_claim(m, key, "tcp"@, e.target_port, p) {
                    assert(is_free(m, busy, p));
                }
                if q == p && holds_claim(m, key, "tcp"@, e.target_port, p) {
                    lemma_some_claimed(m, key, "tcp"@, e.target_port, p);
                    assert(after == m);
                }
            }
            assert forall|q: u16| #[trigger] after.contains_key(q) implies ports.contains_key(q)
                || (is_free(ports, busy, q) && after[q].project_key == key) by {
                if q == p {
                    if is_free(m, busy, p) {
                        assert(is_free(ports, busy, p));
                    }
                } else {
                    assert(m.contains_key(q));
                }
            }
        }
        assert forall|i: int| 0 <= i < exposures.len() implies #[trigger] served[i]
            == if is_managed(exposures[i]) {
            ExposureModel {
                host_port: claimed_port(after, key, "tcp"@, exposures[i].target_port),
                ..exposures[i]
            }
        } else {
            exposures[i]
        } by {
            if i < init.len() {
                assert(served[i] == done[i]);
                assert(init[i] == exposures[i]);
            }
        }
        assert forall|i: int| 0 <= i < exposures.len() && is_managed(
            #[trigger] exposures[i],
        ) implies claimed_port(after, key, "tcp"@, exposures[i].target_port) is Some by {
            if i < init.len() {
                assert(init[i] == exposures[i]);
            }
        }
    }
}

/// Where each exposure that needs a port has one claimed already, an assignment
/// hands nothing out.
pub proof fn settled_assignment_hands_out_nothing(
    ports: Map<u16, AllocationModel>,
    busy: Set<u16>,
    key: Seq<char>,
    exposures: Seq<ExposureModel>,
)
    requires
        forall|i: int|
            0 <= i < exposures.len() && is_managed(#[trigger] exposures[i]) ==> claimed_port(
                ports,
                key,
                "tcp"@,
                exposures[i].target_port,
            ) is Some,
    ensures
        assigned(ports, busy, key, exposures) is Some,
        assigned(ports, busy, key, exposures).unwrap().0 == ports,
    decreases exposures.len(),
{
    if exposures.len() > 0 {
        let init = exposures.drop_last();
        assert forall|i: int| 0 <= i < init.len() && is_managed(
            #[trigger] init[i],
        ) implies claimed_port(ports, key, "tcp"@, init[i].target_port) is Some by {
            assert(exposures[i] == init[i]);
        }
        settled_assignment_hands_out_nothing(ports, busy, key, init);
        assert(exposures[exposures.len() - 1] == exposures.last());
    }
}

/// The target ports of the exposures that need a host port are the active ones.
proof fn lemma_active(exposures: Seq<ExposureModel>, i: int)
    requires
        0 <= i < exposures.len(),
        is_managed(exposures[i]),
    ensures
        active_claims(exposures).contains(("tcp"@, exposures[i].target_port)),
    decreases exposures.len(),
{
    let init = exposures.drop_last();
    let c = ("tcp"@, exposures[i].target_port);
    if i < exposures.len() - 1 {
        assert(init[i] == exposures[i]);
        lemma_active(init, i);
        let j = choose|j: int| 0 <= j < active_claims(init).len() && active_claims(init)[j] == c;
        assert(active_claims(exposures)[j] == c);
    } else {
        let a = active_claims(exposures);
        assert(a[a.len() - 1] == c);
    }
}

/// A release leaves the claim of an active target as it is.
proof fn lemma_release_keeps_claim(
    ports: Map<u16, AllocationModel>,
    key: Seq<char>,
    active: Seq<(Seq<char>, u16)>,
    target_port: u16,
)
    requires
        active.contains(("tcp"@, target_port)),
        claimed_port(ports, key, "tcp"@, target_port) is Some,
    ensures
        claimed_port(released(ports, key, active), key, "tcp"@, target_port) == claimed_port(
            ports,
            key,
            "tcp"@,
            target_port,
        ),
{
    let after = released(ports, key, active);
    let c = claimed_port(ports, key, "tcp"@, target_port).unwrap();
    assert(is_claimed(ports, key, "tcp"@, target_port, c));
    assert(survives(ports, key, active, c));
    assert forall|q: u16| #[trigger] holds_claim(after, key, "tcp"@, target_port, q) implies c
        <= q by {
        assert(holds_claim(ports, key, "tcp"@, target_port, q));
    }
    assert(is_claimed(after, key, "tcp"@, target_port, c));
    lemma_claimed(after, key, "tcp"@, target_port, c);
}

/// Releasing twice is releasing once.
pub proof fn release_is_stable(
    ports: Map<u16, AllocationModel>,
    key: Seq<char>,
    active: Seq<(Seq<char>, u16)>,
)
    ensures
        released(released(ports, key, active), key, active) == released(ports, key, active),
{
    assert(released(released(ports, key, active), key, active) =~= released(ports, key, active));
}

// ---------------------------------------------------------------------------
// Who holds which port
// ---------------------------------------------------------------------------

/// Whether the host port of an exposure is handed out to its project for its
/// target.
pub open spec fn holds_port(
    ports: Map<u16, AllocationModel>,
    key: Seq<char>,
    e: ExposureModel,
) -> bool {
    e.host_port is Some && holds_claim(ports, key, "tcp"@, e.target_port, e.host_port.unwrap())
}

/// Whether each exposure of a project that needs a host port holds one.
pub open spec fn project_holds(
    ports: Map<u16, AllocationModel>,
    key: Seq<char>,
    p: ProjectModel,
) -> bool {
    forall|i: int|
        0 <= i < p.exposures.len() && is_managed(#[trigger] p.exposures[i]) ==> holds_port(
            ports,
            key,
            p.exposures[i],
        )
}

/// Whether each exposure of each project that needs a host port holds one.
pub open spec fn ports_held(
    projects: Map<Seq<char>, ProjectModel>,
    ports: Map<u16, AllocationModel>,
) -> bool {
    forall|key: Seq<char>| #[trigger]
        projects.contains_key(key) ==> project_holds(ports, key, projects[key])
}

/// Two exposures that hold the same host port belong to one project and have
/// one target.
pub proof fn held_port_has_one_owner(
    ports: Map<u16, AllocationModel>,
    key_a: Seq<char>,
    a: ExposureModel,
    key_b: Seq<char>,
    b: ExposureModel,
)
    requires
        holds_port(ports, key_a, a),
        holds_port(ports, key_b, b),
        a.host_port == b.host_port,
    ensures
        key_a == key_b,
        a.target_port == b.target_port,
{
}

/// What an assignment and the release after it leave to a project and to others.
proof fn lemma_assign_then_release(
    ports: Map<u16, AllocationModel>,
    busy: Set<u16>,
    key: Seq<char>,
    p: ProjectModel,
)
    requires
        assigned(ports, busy, key, p.exposures) is Some,
    ensures
        ({
            let (after, served) = assigned(ports, busy, key, p.exposures).unwrap();
            let left = released(after, key, active_claims(p.exposures));
            &&& project_holds(left, key, ProjectModel { exposures: served, ..p })
            &&& others_keep(ports, left, key)
            &&& forall|q: u16| #[trigger]
                left.contains_key(q) ==> ports.contains_key(q) || (is_free(ports, busy, q)
                    && left[q].project_key == key)
            &&& forall|i: int|
                0 <= i < served.len() && is_managed(#[trigger] served[i]) ==> served[i].host_port
                    is Some && claimed_port(left, key, "tcp"@, served[i].target_port)
                    == served[i].host_port
        }),
{
    assignment_serves_each(ports, busy, key, p.exposures);
    let (after, served) = assigned(ports, busy, key, p.exposures).unwrap();
    let active = active_claims(p.exposures);
    let left = released(after, key, active);
    assert forall|i: int| 0 <= i < served.len() && is_managed(#[trigger] served[i]) implies (
    served[i].host_port is Some && claimed_port(left, key, "tcp"@, served[i].target_port)
        == served[i].host_port && holds_port(left, key, served[i])) by {
        let e = p.exposures[i];
        assert(is_managed(e));
        lemma_active(p.exposures, i);
        lemma_release_keeps_claim(after, key, active, e.target_port);
        let c = claimed_port(left, key, "tcp"@, e.target_port).unwrap();
        assert(is_claimed(left, key, "tcp"@, e.target_port, c));
    }
    assert forall|q: u16| #[trigger] ports.contains_key(q) && ports[q].project_key
        != key implies left.contains_key(q) && left[q] == ports[q] by {
        assert(after.contains_key(q));
        assert(survives(after, key, active, q));
    }
}

/// An exposure of another project keeps the port it holds.
proof fn lemma_other_holds(
    before: Map<u16, AllocationModel>,
    after: Map<u16, AllocationModel>,
    key: Seq<char>,
    other: Seq<char>,
    p: ProjectModel,
)
    requires
        others_keep(before, after, key),
        other != key,
        project_holds(before, other, p),
    ensures
        project_holds(after, other, p),
{
    assert forall|i: int| 0 <= i < p.exposures.len() && is_managed(
        #[trigger] p.exposures[i],
    ) implies holds_port(after, other, p.exposures[i]) by {
        let q = p.exposures[i].host_port.unwrap();
        assert(holds_port(before, other, p.exposures[i]));
        assert(before.contains_key(q));
    }
}

/// Granting a network keeps each exposure of each project in possession of its
/// host port.
pub proof fn grant_keeps_ports_held(
    projects: Map<Seq<char>, ProjectModel>,
    ports: Map<u16, AllocationModel>,
    prefix_len: u8,
    busy: Set<u16>,
    naming: NamingModel,
    request: NetworkRequest,
)
    requires
        ports_held(projects, ports),
        ensured(projects, ports, prefix_len, busy, naming, request) is Ok,
    ensures
        ports_held(
            ensured(projects, ports, prefix_len, busy, naming, request)->Ok_0.projects,
            ensured(projects, ports, prefix_len, busy, naming, request)->Ok_0.ports,
        ),
{
    let g = ensured(projects, ports, prefix_len, busy, naming, request)->Ok_0;
    let p = admitted(projects, naming, request).unwrap();
    let wanted = ProjectModel {
        exposures: all_judged(p.project_id, request.exposures),
        ..p
    };
    lemma_assign_then_release(ports, busy, naming.key, wanted);
    assert forall|key: Seq<char>| #[trigger] g.projects.contains_key(key) implies project_holds(
        g.ports,
        key,
        g.projects[key],
    ) by {
        if key != naming.key {
            assert(projects.contains_key(key));
            lemma_other_holds(ports, g.ports, naming.key, key, projects[key]);
        } else {
            let (after, served) = assigned(ports, busy, naming.key, wanted.exposures).unwrap();
            assert(g.projects[key].exposures == served);
        }
    }
}

/// Taking a network away keeps each exposure of each other project in possession
/// of its host port.
pub proof fn stop_keeps_ports_held(
    projects: Map<Seq<char>, ProjectModel>,
    ports: Map<u16, AllocationModel>,
    key: Seq<char>,
    reserve_ip: bool,
)
    requires
        ports_held(projects, ports),
    ensures
        ports_held(stopped(projects, key, reserve_ip), ports),
{
    let after = stopped(projects, key, reserve_ip);
    assert forall|k: Seq<char>| #[trigger] after.contains_key(k) implies project_holds(
        ports,
        k,
        after[k],
    ) by {
        if k != key {
            assert(projects.contains_key(k));
        }
    }
}

/// Whether each exposure of each project of a list holds its host port.
pub open spec fn slots_hold(slots: Seq<SlotModel>, ports: Map<u16, AllocationModel>) -> bool {
    forall|i: int|
        0 <= i < slots.len() ==> project_holds(
            ports,
            (#[trigger] slots[i]).key,
            slots[i].project,
        )
}

/// Starting up gives each exposure of each project that needs a host port one
/// that it holds, whatever the state was before.
pub proof fn start_makes_ports_held(
    ports: Map<u16, AllocationModel>,
    busy: Set<u16>,
    slots: Seq<SlotModel>,
)
    requires
        ordered(slots),
        reassigned(ports, busy, slots) is Some,
    ensures
        ({
            let (after, done) = reassigned(ports, busy, slots).unwrap();
            &&& done.len() == slots.len()
            &&& forall|i: int|
                0 <= i < slots.len() ==> (#[trigger] done[i]).key == slots[i].key
                    && done[i].project.vm_ip == slots[i].project.vm_ip
            &&& slots_hold(done, after)
        }),
    decreases slots.len(),
{
    if slots.len() > 0 {
        let init = slots.drop_last();
        let slot = slots.last();
        assert forall|i: int, j: int| 0 <= i < j < init.len() implies super::state::stands_before(
            #[trigger] init[i].key,
            #[trigger] init[j].key,
        ) by {
            assert(init[i] == slots[i] && init[j] == slots[j]);
        }
        start_makes_ports_held(ports, busy, init);
        let (m, before) = reassigned(ports, busy, init).unwrap();
        let (after, done) = reassigned(ports, busy, slots).unwrap();
        lemma_assign_then_release(m, busy, slot.key, slot.project);
        assert forall|i: int| 0 <= i < done.len() implies project_holds(
            after,
            (#[trigger] done[i]).key,
            done[i].project,
        ) && done[i].key == slots[i].key && done[i].project.vm_ip == slots[i].project.vm_ip by {
            if i < init.len() {
                assert(done[i] == before[i]);
                assert(init[i] == slots[i]);
                assert(slots[slots.len() - 1] == slot);
                assert(super::state::stands_before(slots[i].key, slots[slots.len() - 1].key));
                if slots[i].key == slot.key {
                    lemma_before_irreflexive(slot.key);
                }
                lemma_other_holds(m, after, slot.key, before[i].key, before[i].project);
            }
        }
    }
}

/// Whether each allocation of a project is for a target that it uses.
pub open spec fn all_used(
    ports: Map<u16, AllocationModel>,
    key: Seq<char>,
    active: Seq<(Seq<char>, u16)>,
) -> bool {
    forall|p: u16| #[trigger]
        ports.contains_key(p) && ports[p].project_key == key ==> active.contains(
            (ports[p].protocol, ports[p].target_port),
        )
}

/// Whether a project has the ports that an assignment would give it, and no
/// others.
pub open spec fn is_settled(
    ports: Map<u16, AllocationModel>,
    key: Seq<char>,
    p: ProjectModel,
) -> bool {
    &&& forall|i: int|
        0 <= i < p.exposures.len() && is_managed(#[trigger] p.exposures[i])
            ==> p.exposures[i].host_port is Some && claimed_port(
            ports,
            key,
            "tcp"@,
            p.exposures[i].target_port,
        ) == p.exposures[i].host_port
    &&& all_used(ports, key, active_claims(p.exposures))
}

/// What is settled stays as it is.
proof fn lemma_settled(
    ports: Map<u16, AllocationModel>,
    busy: Set<u16>,
    key: Seq<char>,
    p: ProjectModel,
)
    requires
        is_settled(ports, key, p),
    ensures
        assigned(ports, busy, key, p.exposures) == Some((ports, p.exposures)),
        released(ports, key, active_claims(p.exposures)) == ports,
{
    settled_assignment_hands_out_nothing(ports, busy, key, p.exposures);
    assignment_serves_each(ports, busy, key, p.exposures);
    let served = assigned(ports, busy, key, p.exposures).unwrap().1;
    assert(served =~= p.exposures);
    assert(released(ports, key, active_claims(p.exposures)) =~= ports);
}

/// An assignment and the release after it settle a project.
proof fn lemma_settles(
    ports: Map<u16, AllocationModel>,
    busy: Set<u16>,
    key: Seq<char>,
    p: ProjectModel,
)
    requires
        assigned(ports, busy, key, p.exposures) is Some,
    ensures
        ({
            let (after, served) = assigned(ports, busy, key, p.exposures).unwrap();
            is_settled(
                released(after, key, active_claims(p.exposures)),
                key,
                ProjectModel { exposures: served, ..p },
            )
        }),
{
    let (after, served) = assigned(ports, busy, key, p.exposures).unwrap();
    let active = active_claims(p.exposures);
    let left = released(after, key, active);
    lemma_assign_then_release(ports, busy, key, p);
    lemma_claims_kept(ports, busy, key, p.exposures);
    assert forall|q: u16| #[trigger] left.contains_key(q) && left[q].project_key
        == key implies active.contains((left[q].protocol, left[q].target_port)) by {
        assert(survives(after, key, active, q));
    }
}

/// What another project gets and loses does not unsettle a project.
proof fn lemma_stays_settled(
    before: Map<u16, AllocationModel>,
    after: Map<u16, AllocationModel>,
    key: Seq<char>,
    other: Seq<char>,
    p: ProjectModel,
)
    requires
        is_settled(before, other, p),
        key != other,
        others_keep(before, after, key),
        forall|q: u16| #[trigger]
            after.contains_key(q) ==> (before.contains_key(q) && after[q] == before[q])
                || after[q].project_key == key,
    ensures
        is_settled(after, other, p),
{
    assert forall|t: u16| #[trigger] claimed_port(before, other, "tcp"@, t) is Some implies
        claimed_port(after, other, "tcp"@, t) == claimed_port(before, other, "tcp"@, t) by {
        let c = claimed_port(before, other, "tcp"@, t).unwrap();
        assert(is_claimed(before, other, "tcp"@, t, c));
        assert(holds_claim(after, other, "tcp"@, t, c));
        assert forall|q: u16| #[trigger] holds_claim(after, other, "tcp"@, t, q) implies c <= q by {
            assert(after.contains_key(q));
            assert(holds_claim(before, other, "tcp"@, t, q));
        }
        assert(is_claimed(after, other, "tcp"@, t, c));
        lemma_claimed(after, other, "tcp"@, t, c);
    }
    assert forall|q: u16| #[trigger] after.contains_key(q) && after[q].project_key
        == other implies active_claims(p.exposures).contains(
        (after[q].protocol, after[q].target_port),
    ) by {
        assert(before.contains_key(q));
    }
}

/// What was handed out and is still handed out is handed out as it was.
proof fn lemma_assign_then_release_keeps(
    ports: Map<u16, AllocationModel>,
    busy: Set<u16>,
    key: Seq<char>,
    p: ProjectModel,
)
    requires
        assigned(ports, busy, key, p.exposures) is Some,
    ensures
        ({
            let (after, served) = assigned(ports, busy, key, p.exposures).unwrap();
            let left = released(after, key, active_claims(p.exposures));
            forall|q: u16| #[trigger]
                left.contains_key(q) ==> (ports.contains_key(q) && left[q] == ports[q])
                    || left[q].project_key == key
        }),
{
    assignment_serves_each(ports, busy, key, p.exposures);
    let (after, served) = assigned(ports, busy, key, p.exposures).unwrap();
    let left = released(after, key, active_claims(p.exposures));
    assert forall|q: u16| #[trigger] left.contains_key(q) implies (ports.contains_key(q)
        && left[q] == ports[q]) || left[q].project_key == key by {
        assert(after.contains_key(q));
    }
}

/// Whether each project of a list is settled.
pub open spec fn all_settled(slots: Seq<SlotModel>, ports: Map<u16, AllocationModel>) -> bool {
    forall|i: int|
        0 <= i < slots.len() ==> is_settled(ports, (#[trigger] slots[i]).key, slots[i].project)
}

proof fn lemma_ordered_init(slots: Seq<SlotModel>)
    requires
        ordered(slots),
        slots.len() > 0,
    ensures
        ordered(slots.drop_last()),
        forall|i: int|
            0 <= i < slots.len() - 1 ==> (#[trigger] slots[i]).key != slots.last().key,
{
    let init = slots.drop_last();
    assert forall|i: int, j: int| 0 <= i < j < init.len() implies super::state::stands_before(
        #[trigger] init[i].key,
        #[trigger] init[j].key,
    ) by {
        assert(init[i] == slots[i] && init[j] == slots[j]);
    }
    assert forall|i: int| 0 <= i < slots.len() - 1 implies (#[trigger] slots[i]).key
        != slots.last().key by {
        assert(super::state::stands_before(slots[i].key, slots[slots.len() - 1].key));
        if slots[i].key == slots.last().key {
            lemma_before_irreflexive(slots[i].key);
        }
    }
}

proof fn lemma_start_settles(
    ports: Map<u16, AllocationModel>,
    busy: Set<u16>,
    slots: Seq<SlotModel>,
)
    requires
        ordered(slots),
        reassigned(ports, busy, slots) is Some,
    ensures
        ({
            let (after, done) = reassigned(ports, busy, slots).unwrap();
            &&& done.len() == slots.len()
            &&& forall|i: int| 0 <= i < slots.len() ==> (#[trigger] done[i]).key == slots[i].key
            &&& all_settled(done, after)
        }),
    decreases slots.len(),
{
    if slots.len() > 0 {
        let init = slots.drop_last();
        let slot = slots.last();
        lemma_ordered_init(slots);
        lemma_start_settles(ports, busy, init);
        let (m, before) = reassigned(ports, busy, init).unwrap();
        let (after, done) = reassigned(ports, busy, slots).unwrap();
        lemma_settles(m, busy, slot.key, slot.project);
        lemma_assign_then_release(m, busy, slot.key, slot.project);
        lemma_assign_then_release_keeps(m, busy, slot.key, slot.project);
        assert forall|i: int| 0 <= i < done.len() implies is_settled(
            after,
            (#[trigger] done[i]).key,
            done[i].project,
        ) && done[i].key == slots[i].key by {
            if i < init.len() {
                assert(done[i] == before[i]);
                assert(init[i] == slots[i]);
                lemma_stays_settled(m, after, slot.key, before[i].key, before[i].project);
            }
        }
    }
}

proof fn lemma_settled_start(
    ports: Map<u16, AllocationModel>,
    busy: Set<u16>,
    slots: Seq<SlotModel>,
)
    requires
        all_settled(slots, ports),
    ensures
        reassigned(ports, busy, slots) == Some((ports, slots)),
    decreases slots.len(),
{
    if slots.len() > 0 {
        let init = slots.drop_last();
        let slot = slots.last();
        assert forall|i: int| 0 <= i < init.len() implies is_settled(
            ports,
            (#[trigger] init[i]).key,
            init[i].project,
        ) by {
            assert(init[i] == slots[i]);
        }
        lemma_settled_start(ports, busy, init);
        assert(slots[slots.len() - 1] == slot);
        lemma_settled(ports, busy, slot.key, slot.project);
        assert(init.push(slot) =~= slots);
    } else {
        assert(slots =~= Seq::<SlotModel>::empty());
    }
}

/// Starting twice is starting once: the second start changes neither the projects
/// nor the ports, whatever other programs use by then.
pub proof fn start_is_stable(
    ports: Map<u16, AllocationModel>,
    busy: Set<u16>,
    later: Set<u16>,
    slots: Seq<SlotModel>,
)
    requires
        ordered(slots),
        reassigned(ports, busy, slots) is Some,
    ensures
        ({
            let (after, done) = reassigned(ports, busy, slots).unwrap();
            reassigned(after, later, done) == Some((after, done))
        }),
{
    lemma_start_settles(ports, busy, slots);
    let (after, done) = reassigned(ports, busy, slots).unwrap();
    lemma_settled_start(after, later, done);
}

/// Whether the agent hands out only ports of its range, and none that is
/// reserved.
pub open spec fn in_range(ports: Map<u16, AllocationModel>) -> bool {
    forall|p: u16| #[trigger]
        ports.contains_key(p) ==> DYNAMIC_PORT_START <= p <= DYNAMIC_PORT_END
            && !reserved_ports().contains(p)
}

/// Neither a grant nor a start nor the hand-out of a single port leaves the
/// agent's range.
pub proof fn ports_stay_in_range(
    projects: Map<Seq<char>, ProjectModel>,
    ports: Map<u16, AllocationModel>,
    prefix_len: u8,
    busy: Set<u16>,
    naming: NamingModel,
    request: NetworkRequest,
    protocol: Seq<char>,
    slots: Seq<SlotModel>,
)
    requires
        in_range(ports),
    ensures
        ensured(projects, ports, prefix_len, busy, naming, request) is Ok ==> in_range(
            ensured(projects, ports, prefix_len, busy, naming, request)->Ok_0.ports,
        ),
        newly_granted(ports, busy, naming.key, protocol, 0) is Some ==> in_range(
            newly_granted(ports, busy, naming.key, protocol, 0).unwrap().1,
        ),
        reassigned(ports, busy, slots) is Some ==> in_range(
            reassigned(ports, busy, slots).unwrap().0,
        ),
    decreases slots.len(),
{
    if ensured(projects, ports, prefix_len, busy, naming, request) is Ok {
        let p = admitted(projects, naming, request).unwrap();
        let wanted = ProjectModel {
            exposures: all_judged(p.project_id, request.exposures),
            ..p
        };
        lemma_assign_then_release(ports, busy, naming.key, wanted);
    }
    if newly_granted(ports, busy, naming.key, protocol, 0) is Some {
        let p = newly_granted(ports, busy, naming.key, protocol, 0).unwrap().0;
        lemma_free_port(ports, busy);
        assert(is_first_free(ports, busy, p));
    }
    if slots.len() > 0 && reassigned(ports, busy, slots) is Some {
        let init = slots.drop_last();
        ports_stay_in_range(
            projects,
            ports,
            prefix_len,
            busy,
            naming,
            request,
            protocol,
            init,
        );
        let m = reassigned(ports, busy, init).unwrap().0;
        lemma_assign_then_release(m, busy, slots.last().key, slots.last().project);
    }
}

/// The hand-out of a single port keeps each exposure of each project in possession
/// of its host port.
pub proof fn single_port_keeps_ports_held(
    projects: Map<Seq<char>, ProjectModel>,
    ports: Map<u16, AllocationModel>,
    busy: Set<u16>,
    key: Seq<char>,
    protocol: Seq<char>,
)
    requires
        ports_held(projects, ports),
        newly_granted(ports, busy, key, protocol, 0) is Some,
    ensures
        ports_held(projects, newly_granted(ports, busy, key, protocol, 0).unwrap().1),
{
    let (p, after) = newly_granted(ports, busy, key, protocol, 0).unwrap();
    lemma_free_port(ports, busy);
    assert(is_first_free(ports, busy, p));
    assert forall|k: Seq<char>| #[trigger] projects.contains_key(k) implies project_holds(
        after,
        k,
        projects[k],
    ) by {
        assert(project_holds(ports, k, projects[k]));
        assert forall|i: int| 0 <= i < projects[k].exposures.len() && is_managed(
            #[trigger] projects[k].exposures[i],
        ) implies holds_port(after, k, projects[k].exposures[i]) by {
            assert(holds_port(ports, k, projects[k].exposures[i]));
        }
    }
}

// ---------------------------------------------------------------------------
// The order of projects
// ---------------------------------------------------------------------------

proof fn lemma_least_first(slots: Seq<SlotModel>, other: Seq<SlotModel>)
    requires
        ordered(slots),
        ordered(other),
        project_map(slots) == project_map(other),
        slots.len() > 0,
    ensures
        other.len() > 0,
        other[0] == slots[0],
{
    lemma_map_at(slots, 0);
    let k = slots[0].key;
    assert(project_map(other).contains_key(k));
    let j = choose|j: int| 0 <= j < other.len() && #[trigger] other[j].key == k;
    lemma_map_at(other, j);
    lemma_map_at(other, 0);
    let k0 = other[0].key;
    assert(project_map(slots).contains_key(k0));
    let i = choose|i: int| 0 <= i < slots.len() && #[trigger] slots[i].key == k0;
    if j > 0 {
        assert(super::state::stands_before(other[0].key, other[j].key));
        if i > 0 {
            assert(super::state::stands_before(slots[0].key, slots[i].key));
            super::state::lemma_before_transitive(k, k0, k);
        }
        lemma_before_irreflexive(k);
    }
}

/// A state files its projects in one order only: where two list the same projects
/// under the same keys, they are the same list.
pub proof fn order_is_determined(slots: Seq<SlotModel>, other: Seq<SlotModel>)
    requires
        ordered(slots),
        ordered(other),
        project_map(slots) == project_map(other),
    ensures
        slots == other,
    decreases slots.len(),
{
    if slots.len() == 0 {
        if other.len() > 0 {
            lemma_map_at(other, 0);
            assert(project_map(slots).contains_key(other[0].key));
        }
        assert(slots =~= other);
    } else {
        lemma_least_first(slots, other);
        super::state::lemma_map_remove(slots, 0);
        super::state::lemma_map_remove(other, 0);
        order_is_determined(slots.remove(0), other.remove(0));
        assert(slots =~= seq![slots[0]] + slots.remove(0));
        assert(other =~= seq![other[0]] + other.remove(0));
    }
}

// ---------------------------------------------------------------------------
// Addresses
// ---------------------------------------------------------------------------

/// An address that is handed out lies in the agent's network, is not the
/// bridge's, and no project has it.
pub proof fn open_address_is_unused(projects: Map<Seq<char>, ProjectModel>, start: int)
    requires
        open_address(projects, start) is Some,
    ensures
        ({
            let ip = open_address(projects, start).unwrap();
            &&& ip.a == 172
            &&& ip.b == 31
            &&& ip != default_gateway_address()
            &&& !is_used(projects, ip)
        }),
{
    let k = choose|k: int| is_first_open(projects, start, k);
    assert(is_open(projects, start, k));
}

/// The search for an address overlooks none: it fails only where a project has
/// each of the addresses.
pub proof fn address_search_is_complete(
    projects: Map<Seq<char>, ProjectModel>,
    start: int,
    n: int,
)
    requires
        open_address(projects, start) is None,
        2 <= n < 2 + ADDRESS_COUNT,
    ensures
        is_used(projects, numbered_address(n)),
{
    let k = (n - 2 - start) % 60_000;
    assert((start + k) % 60_000 == n - 2) by (nonlinear_arith)
        requires
            k == (n - 2 - start) % 60_000,
            2 <= n < 60_002,
    ;
    assert(candidate(start, k) == numbered_address(n));
    if !is_used(projects, numbered_address(n)) {
        assert(n / 256 != 0 || n % 256 != 1);
        assert(n / 256 < 256);
        assert(is_open(projects, start, k));
        lemma_some_open(projects, start, k);
    }
}

/// Whether no two projects have one address.
pub open spec fn addresses_distinct(projects: Map<Seq<char>, ProjectModel>) -> bool {
    forall|a: Seq<char>, b: Seq<char>|
        #![trigger projects.contains_key(a), projects.contains_key(b)]
        projects.contains_key(a) && projects.contains_key(b) && projects[a].vm_ip
            == projects[b].vm_ip ==> a == b
}

/// Granting a network gives no project the address of another.
pub proof fn grant_keeps_addresses_distinct(
    projects: Map<Seq<char>, ProjectModel>,
    ports: Map<u16, AllocationModel>,
    prefix_len: u8,
    busy: Set<u16>,
    naming: NamingModel,
    request: NetworkRequest,
)
    requires
        addresses_distinct(projects),
        ensured(projects, ports, prefix_len, busy, naming, request) is Ok,
    ensures
        addresses_distinct(
            ensured(projects, ports, prefix_len, busy, naming, request)->Ok_0.projects,
        ),
{
    let g = ensured(projects, ports, prefix_len, busy, naming, request)->Ok_0;
    if !projects.contains_key(naming.key) {
        open_address_is_unused(projects, naming.start);
    }
    assert forall|a: Seq<char>, b: Seq<char>|
        #![trigger g.projects.contains_key(a), g.projects.contains_key(b)]
        g.projects.contains_key(a) && g.projects.contains_key(b) && g.projects[a].vm_ip
            == g.projects[b].vm_ip implies a == b by {
        if a != naming.key {
            assert(projects.contains_key(a));
        }
        if b != naming.key {
            assert(projects.contains_key(b));
        }
        if a != b && projects.contains_key(naming.key) {
            assert(projects.contains_key(a) && projects.contains_key(b));
        }
    }
}

/// Taking a network away gives no project the address of another.
pub proof fn stop_keeps_addresses_distinct(
    projects: Map<Seq<char>, ProjectModel>,
    key: Seq<char>,
    reserve_ip: bool,
)
    requires
        addresses_distinct(projects),
    ensures
        addresses_distinct(stopped(projects, key, reserve_ip)),
{
    let after = stopped(projects, key, reserve_ip);
    assert forall|a: Seq<char>, b: Seq<char>|
        #![trigger after.contains_key(a), after.contains_key(b)]
        after.contains_key(a) && after.contains_key(b) && after[a].vm_ip
            == after[b].vm_ip implies a == b by {
        assert(projects.contains_key(a) && projects.contains_key(b));
    }
}

// ---------------------------------------------------------------------------
// What a project keeps
// ---------------------------------------------------------------------------

/// A project that has a network keeps its address, its device and its hardware
/// address when it asks again, and no other project changes.
pub proof fn grant_keeps_identity(
    projects: Map<Seq<char>, ProjectModel>,
    ports: Map<u16, AllocationModel>,
    prefix_len: u8,
    busy: Set<u16>,
    naming: NamingModel,
    request: NetworkRequest,
)
    requires
        ensured(projects, ports, prefix_len, busy, naming, request) is Ok,
    ensures
        ({
            let g = ensured(projects, ports, prefix_len, busy, naming, request)->Ok_0;
            let key = naming.key;
            &&& g.projects.contains_key(key)
            &&& g.lease.vm_ip == g.projects[key].vm_ip
            &&& g.lease.tap_name == g.projects[key].tap_name
            &&& g.lease.mac_address == g.projects[key].mac_address
            &&& projects.contains_key(key) ==> g.projects[key].vm_ip == projects[key].vm_ip
                && g.projects[key].tap_name == projects[key].tap_name
                && g.projects[key].mac_address == projects[key].mac_address
            &&& forall|k: Seq<char>|
                k != key ==> (#[trigger] g.projects.contains_key(k) <==> projects.contains_key(k))
                    && g.projects[k] == projects[k]
        }),
{
}

/// Asking twice is asking once: the second request changes neither the projects
/// nor the ports, and gives the same lease.
pub proof fn grant_is_stable(
    projects: Map<Seq<char>, ProjectModel>,
    ports: Map<u16, AllocationModel>,
    prefix_len: u8,
    busy: Set<u16>,
    naming: NamingModel,
    request: NetworkRequest,
)
    requires
        ensured(projects, ports, prefix_len, busy, naming, request) is Ok,
    ensures
        ({
            let g = ensured(projects, ports, prefix_len, busy, naming, request)->Ok_0;
            ensured(g.projects, g.ports, prefix_len, busy, naming, request) == Ok::<
                NetworkGrant,
                super::error::NetworkError,
            >(g)
        }),
{
    let g = ensured(projects, ports, prefix_len, busy, naming, request)->Ok_0;
    let key = naming.key;
    let p = admitted(projects, naming, request).unwrap();
    let wanted = all_judged(p.project_id, request.exposures);
    let active = active_claims(wanted);
    let (after, served) = assigned(ports, busy, key, wanted).unwrap();
    lemma_assign_then_release(ports, busy, key, ProjectModel { exposures: wanted, ..p });
    assignment_serves_each(ports, busy, key, wanted);
    let p2 = admitted(g.projects, naming, request).unwrap();
    assert(p2 == g.projects[key]);
    assert(p2.project_id == p.project_id);
    assert forall|i: int| 0 <= i < wanted.len() && is_managed(
        #[trigger] wanted[i],
    ) implies claimed_port(g.ports, key, "tcp"@, wanted[i].target_port) is Some by {
        assert(is_managed(served[i]));
    }
    settled_assignment_hands_out_nothing(g.ports, busy, key, wanted);
    assignment_serves_each(g.ports, busy, key, wanted);
    let (after2, served2) = assigned(g.ports, busy, key, wanted).unwrap();
    assert(served2 =~= served) by {
        assert forall|i: int| 0 <= i < served.len() implies served2[i] == #[trigger] served[i] by {
            if is_managed(wanted[i]) {
                assert(is_managed(served[i]));
            }
        }
    }
    release_is_stable(after, key, active);
    let g2 = ensured(g.projects, g.ports, prefix_len, busy, naming, request)->Ok_0;
    assert(g2.projects =~= g.projects);
}

/// A project that is stopped with its address reserved gets the same address and
/// the same device when it asks for a network again.
pub proof fn reserved_address_comes_back(
    projects: Map<Seq<char>, ProjectModel>,
    ports: Map<u16, AllocationModel>,
    prefix_len: u8,
    busy: Set<u16>,
    naming: NamingModel,
    request: NetworkRequest,
)
    requires
        projects.contains_key(naming.key),
        ensured(
            stopped(projects, naming.key, true),
            ports,
            prefix_len,
            busy,
            naming,
            request,
        ) is Ok,
    ensures
        ({
            let g = ensured(
                stopped(projects, naming.key, true),
                ports,
                prefix_len,
                busy,
                naming,
                request,
            )->Ok_0;
            &&& g.lease.vm_ip == projects[naming.key].vm_ip
            &&& g.lease.tap_name == projects[naming.key].tap_name
            &&& g.lease.mac_address == projects[naming.key].mac_address
        }),
{
}

/// A change to the networks of the agent.
pub enum NetworkChange {
    Grant { busy: Set<u16>, naming: NamingModel, request: NetworkRequest },
    Stop { key: Seq<char>, reserve_ip: bool },
}

/// The projects and ports after a change; a request that cannot be granted changes
/// nothing.
pub open spec fn changed(
    projects: Map<Seq<char>, ProjectModel>,
    ports: Map<u16, AllocationModel>,
    prefix_len: u8,
    change: NetworkChange,
) -> (Map<Seq<char>, ProjectModel>, Map<u16, AllocationModel>) {
    match change {
        NetworkChange::Grant { busy, naming, request } => match ensured(
            projects,
            ports,
            prefix_len,
            busy,
            naming,
            request,
        ) {
            Ok(g) => (g.projects, g.ports),
            Err(_) => (projects, ports),
        },
        NetworkChange::Stop { key, reserve_ip } => (stopped(projects, key, reserve_ip), ports),
    }
}

/// The projects and ports after a series of changes.
pub open spec fn changed_by_all(
    projects: Map<Seq<char>, ProjectModel>,
    ports: Map<u16, AllocationModel>,
    prefix_len: u8,
    changes: Seq<NetworkChange>,
) -> (Map<Seq<char>, ProjectModel>, Map<u16, AllocationModel>)
    decreases changes.len(),
{
    if changes.len() == 0 {
        (projects, ports)
    } else {
        let (m, n) = changed_by_all(projects, ports, prefix_len, changes.drop_last());
        changed(m, n, prefix_len, changes.last())
    }
}

/// A project keeps its address, its device and its hardware address over any series
/// of changes in which it is stopped, if at all, with its address reserved.
pub proof fn identity_lasts(
    projects: Map<Seq<char>, ProjectModel>,
    ports: Map<u16, AllocationModel>,
    prefix_len: u8,
    changes: Seq<NetworkChange>,
    key: Seq<char>,
)
    requires
        projects.contains_key(key),
        forall|i: int|
            0 <= i < changes.len() ==> (#[trigger] changes[i] matches NetworkChange::Stop {
                key: k,
                reserve_ip,
            } ==> k != key || reserve_ip),
    ensures
        ({
            let after = changed_by_all(projects, ports, prefix_len, changes).0;
            &&& after.contains_key(key)
            &&& after[key].vm_ip == projects[key].vm_ip
            &&& after[key].tap_name == projects[key].tap_name
            &&& after[key].mac_address == projects[key].mac_address
        }),
    decreases changes.len(),
{
    if changes.len() > 0 {
        let init = changes.drop_last();
        assert forall|i: int| 0 <= i < init.len() implies (#[trigger] init[i] matches
            NetworkChange::Stop { key: k, reserve_ip } ==> k != key || reserve_ip) by {
            assert(init[i] == changes[i]);
        }
        identity_lasts(projects, ports, prefix_len, init, key);
        assert(changes[changes.len() - 1] == changes.last());
    }
}

/// Over any series of changes the exposures of each project hold their host ports,
/// if they did before.
pub proof fn ports_stay_held(
    projects: Map<Seq<char>, ProjectModel>,
    ports: Map<u16, AllocationModel>,
    prefix_len: u8,
    changes: Seq<NetworkChange>,
)
    requires
        ports_held(projects, ports),
    ensures
        ports_held(
            changed_by_all(projects, ports, prefix_len, changes).0,
            changed_by_all(projects, ports, prefix_len, changes).1,
        ),
    decreases changes.len(),
{
    if changes.len() > 0 {
        let init = changes.drop_last();
        ports_stay_held(projects, ports, prefix_len, init);
        let (m, n) = changed_by_all(projects, ports, prefix_len, init);
        match changes.last() {
            NetworkChange::Grant { busy, naming, request } => {
                if ensured(m, n, prefix_len, busy, naming, request) is Ok {
                    grant_keeps_ports_held(m, n, prefix_len, busy, naming, request);
                }
            },
            NetworkChange::Stop { key, reserve_ip } => {
                stop_keeps_ports_held(m, n, key, reserve_ip);
            },
        }
    }
}

// ---------------------------------------------------------------------------
// Exposures and routes
// ---------------------------------------------------------------------------

/// An exposure is public and active only where the workspace, the node and the
/// project allow it and a host is named; what is not public is always active.
pub proof fn public_exposure_needs_leave(project_id: Seq<char>, request: RequestModel)
    ensures
        request.visibility == ExposureVisibility::Public ==> (judged(project_id, request).status
            == ExposureStatus::Active <==> request.workspace_public_http_allowed
            && request.node_ingress_allowed && request.project_exposure_allowed && given_host(
            request.host,
        ) is Some),
        request.visibility != ExposureVisibility::Public ==> judged(project_id, request).status
            == ExposureStatus::Active,
        judged(project_id, request).status == ExposureStatus::Active <==> judged(
            project_id,
            request,
        ).reason is None,
{
}

proof fn lemma_silent_project(p: ProjectModel, n: nat)
    requires
        !serves(p),
        n <= p.exposures.len(),
    ensures
        project_routes(p, n) == Seq::<char>::empty(),
    decreases n,
{
    if n > 0 {
        lemma_silent_project(p, (n - 1) as nat);
        assert(p.exposures[n - 1].status != ExposureStatus::Active);
        assert(project_routes(p, n) =~= Seq::<char>::empty());
    }
}

proof fn lemma_silent_projects(slots: Seq<SlotModel>, n: nat)
    requires
        !any_serves(slots),
        n <= slots.len(),
    ensures
        all_routes(slots, n) == Seq::<char>::empty(),
    decreases n,
{
    if n > 0 {
        lemma_silent_projects(slots, (n - 1) as nat);
        assert(!serves(slots[n - 1].project));
        let p = slots[n - 1].project;
        lemma_silent_project(p, p.exposures.len());
        assert(all_routes(slots, n) =~= Seq::<char>::empty());
    }
}

/// What is not active is not served: without an active exposure the
/// configuration of the proxy holds no route.
pub proof fn inactive_exposures_have_no_route(slots: Seq<SlotModel>)
    requires
        !any_serves(slots),
    ensures
        proxy_text(slots) == "# Generated by statix-agent. Do not edit by hand.\n\n"@,
{
    lemma_silent_projects(slots, slots.len());
    assert(proxy_text(slots) =~= "# Generated by statix-agent. Do not edit by hand.\n\n"@);
}

/// A request is recorded as it was made: the exposure has its target port and its
/// visibility, and the host that it names, else one that is named after the project.
pub proof fn exposure_is_what_was_asked_for(project_id: Seq<char>, request: RequestModel)
    ensures
        ({
            let e = judged(project_id, request);
            &&& e.target_port == request.target_port
            &&& e.visibility == request.visibility
            &&& e.host_port is None
            &&& e.host == if request.host is Some && trimmed(request.host->0).len() > 0 {
                trimmed(request.host->0)
            } else {
                project_id + ".statix.local"@
            }
            &&& e.owner == "statix-agent"@
        }),
{
}

/// An active exposure to the public comes only of a request for one that names a host
/// and has the leave of the workspace, of the node and of the project; without a host it
/// waits, and without a leave it is denied, for a reason that is told.
pub proof fn public_exposure_has_leave_and_host(project_id: Seq<char>, request: RequestModel)
    ensures
        ({
            let e = judged(project_id, request);
            let named = request.host is Some && trimmed(request.host->0).len() > 0;
            let leave = request.workspace_public_http_allowed && request.node_ingress_allowed
                && request.project_exposure_allowed;
            let public = request.visibility == ExposureVisibility::Public;
            &&& e.status == ExposureStatus::Active && e.visibility == ExposureVisibility::Public
                ==> public && named && leave
            &&& public && named && leave ==> e.status == ExposureStatus::Active
            &&& public && !named ==> e.status == ExposureStatus::Pending
            &&& public && named && !leave ==> e.status == ExposureStatus::Denied
            &&& !public ==> e.status == ExposureStatus::Active
            &&& e.status == ExposureStatus::Active ==> e.reason is None
            &&& e.status != ExposureStatus::Active ==> e.reason is Some && e.reason->0.len() > 0
        }),
{
    reveal_strlit("exposure host is not assigned yet");
    reveal_strlit("workspace policy does not allow public HTTP exposure");
    reveal_strlit("node is not allowed to act as an ingress node");
    reveal_strlit("project is not allowed to request public exposure");
}

/// A grant records each request in its turn: as many exposures as requests, each with
/// the port and the visibility that was asked for; what is not public gets a port of the
/// host, between 30000 and 39999, and what is public gets none.
pub proof fn grant_records_each_request(
    projects: Map<Seq<char>, ProjectModel>,
    ports: Map<u16, AllocationModel>,
    prefix_len: u8,
    busy: Set<u16>,
    naming: NamingModel,
    request: NetworkRequest,
)
    requires
        ensured(projects, ports, prefix_len, busy, naming, request) is Ok,
        in_range(ports),
    ensures
        ({
            let g = ensured(projects, ports, prefix_len, busy, naming, request)->Ok_0;
            let p = g.projects[naming.key];
            &&& g.projects.contains_key(naming.key)
            &&& p.exposures.len() == request.exposures.len()
            &&& forall|i: int|
                0 <= i < request.exposures.len() ==> ({
                    let asked = request.exposures[i];
                    let e = #[trigger] p.exposures[i];
                    &&& e.target_port == asked.target_port
                    &&& e.visibility == asked.visibility
                    &&& asked.visibility == ExposureVisibility::Public ==> e.host_port is None
                    &&& asked.visibility != ExposureVisibility::Public ==> e.status
                        == ExposureStatus::Active && (e.host_port matches Some(port) && 30_000
                        <= port <= 39_999 && g.ports.contains_key(port) && g.ports[port].project_key
                        == naming.key && g.ports[port].target_port == asked.target_port)
                })
        }),
{
    let g = ensured(projects, ports, prefix_len, busy, naming, request)->Ok_0;
    let p = admitted(projects, naming, request).unwrap();
    let wanted = ProjectModel { exposures: all_judged(p.project_id, request.exposures), ..p };
    lemma_assign_then_release(ports, busy, naming.key, wanted);
    assignment_serves_each(ports, busy, naming.key, wanted.exposures);
    let (after, served) = assigned(ports, busy, naming.key, wanted.exposures).unwrap();
    assert(g.projects[naming.key].exposures == served);
    ports_stay_in_range(projects, ports, prefix_len, busy, naming, request, "tcp"@, Seq::empty());
    assert forall|i: int| 0 <= i < request.exposures.len() implies ({
        let asked = request.exposures[i];
        let e = #[trigger] served[i];
        &&& e.target_port == asked.target_port
        &&& e.visibility == asked.visibility
        &&& asked.visibility == ExposureVisibility::Public ==> e.host_port is None
        &&& asked.visibility != ExposureVisibility::Public ==> e.status == ExposureStatus::Active
            && (e.host_port matches Some(port) && 30_000 <= port <= 39_999 && g.ports.contains_key(
            port,
        ) && g.ports[port].project_key == naming.key && g.ports[port].target_port
            == asked.target_port)
    }) by {
        let asked = request.exposures[i];
        assert(wanted.exposures[i] == judged(p.project_id, asked));
        if asked.visibility != ExposureVisibility::Public {
            assert(is_managed(wanted.exposures[i]));
            assert(is_managed(served[i]));
            assert(holds_port(
                g.ports,
                naming.key,
                ProjectModel { exposures: served, ..wanted }.exposures[i],
            ));
        }
    }
}

/// What a new project gets: the names that it has on the host, the machine that was
/// asked for, and an address of the agent's network; a project that has a network
/// already is only given the new machine. Either is in use then, and the lease says what
/// is recorded.
pub proof fn grant_fills_the_record(
    projects: Map<Seq<char>, ProjectModel>,
    ports: Map<u16, AllocationModel>,
    prefix_len: u8,
    busy: Set<u16>,
    naming: NamingModel,
    request: NetworkRequest,
)
    requires
        ensured(projects, ports, prefix_len, busy, naming, request) is Ok,
    ensures
        ({
            let g = ensured(projects, ports, prefix_len, busy, naming, request)->Ok_0;
            let p = g.projects[naming.key];
            &&& p.vm_id == request.vm_id
            &&& !p.reserved
            &&& g.lease.vm_ip == p.vm_ip
            &&& g.lease.tap_name == p.tap_name
            &&& g.lease.mac_address == p.mac_address
            &&& g.lease.prefix_len == prefix_len
            &&& !projects.contains_key(naming.key) ==> p.project_id == request.project_id
                && p.environment == request.environment && p.tap_name == naming.tap_name
                && p.mac_address == naming.mac_address && p.vm_ip.a == 172 && p.vm_ip.b == 31 && (
            forall|k: Seq<char>| #[trigger]
                projects.contains_key(k) ==> projects[k].vm_ip != p.vm_ip)
            &&& projects.contains_key(naming.key) ==> p.project_id
                == projects[naming.key].project_id && p.environment
                == projects[naming.key].environment
        }),
{
    if !projects.contains_key(naming.key) {
        open_address_is_unused(projects, naming.start);
    }
}

/// A request is refused for one of three reasons: a target port of zero, no address for
/// a new project, or no free port of the host.
pub proof fn request_is_refused_for_a_reason(
    projects: Map<Seq<char>, ProjectModel>,
    ports: Map<u16, AllocationModel>,
    prefix_len: u8,
    busy: Set<u16>,
    naming: NamingModel,
    request: NetworkRequest,
)
    ensures
        match ensured(projects, ports, prefix_len, busy, naming, request) {
            Ok(_) => forall|i: int|
                0 <= i < request.exposures.len() ==> (#[trigger] request.exposures[i]).target_port
                    != 0,
            Err(super::error::NetworkError::InvalidTargetPort) => exists|i: int|
                0 <= i < request.exposures.len() && (#[trigger] request.exposures[i]).target_port
                    == 0,
            Err(super::error::NetworkError::NoFreeAddress) => !projects.contains_key(naming.key)
                && forall|n: int|
                2 <= n < 60_002 ==> is_used(projects, #[trigger] numbered_address(n)),
            Err(super::error::NetworkError::NoFreePort) => exists|i: int|
                0 <= i < request.exposures.len() && (#[trigger] request.exposures[i]).visibility
                    != ExposureVisibility::Public,
        },
{
    match ensured(projects, ports, prefix_len, busy, naming, request) {
        Err(super::error::NetworkError::NoFreeAddress) => {
            assert forall|n: int| 2 <= n < 60_002 implies is_used(
                projects,
                #[trigger] numbered_address(n),
            ) by {
                address_search_is_complete(projects, naming.start, n);
            }
        },
        Err(super::error::NetworkError::NoFreePort) => {
            let p = admitted(projects, naming, request).unwrap();
            let wanted = all_judged(p.project_id, request.exposures);
            if forall|i: int|
                0 <= i < request.exposures.len() ==> (#[trigger] request.exposures[i]).visibility
                    == ExposureVisibility::Public {
                assert forall|i: int| 0 <= i < wanted.len() && is_managed(
                    #[trigger] wanted[i],
                ) implies claimed_port(
                    ports,
                    naming.key,
                    "tcp"@,
                    wanted[i].target_port,
                ) is Some by {
                    assert(request.exposures[i].visibility == ExposureVisibility::Public);
                }
                settled_assignment_hands_out_nothing(ports, busy, naming.key, wanted);
            }
        },
        _ => {},
    }
}

/// The port that is handed out is the lowest one that may be: each lower port of the
/// range is handed out already, reserved, or used by another program.
pub proof fn lowest_port_is_handed_out(
    ports: Map<u16, AllocationModel>,
    busy: Set<u16>,
    key: Seq<char>,
    protocol: Seq<char>,
    target_port: u16,
    q: u16,
)
    requires
        newly_granted(ports, busy, key, protocol, target_port) is Some,
    ensures
        ({
            let (p, after) = newly_granted(ports, busy, key, protocol, target_port).unwrap();
            &&& 30_000 <= p <= 39_999
            &&& !ports.contains_key(p) && !busy.contains(p)
            &&& 30_000 <= q < p ==> ports.contains_key(q) || busy.contains(q)
                || reserved_ports().contains(q)
            &&& after.contains_key(p)
            &&& after[p].project_key == key
            &&& after[p].protocol == protocol
            &&& after[p].target_port == target_port
            &&& after[p].port == p
            &&& after[p].owner == "statix-agent"@
            &&& q != p ==> (after.contains_key(q) <==> ports.contains_key(q)) && after[q]
                == ports[q]
        }),
{
    lemma_free_port(ports, busy);
    let p = newly_granted(ports, busy, key, protocol, target_port).unwrap().0;
    assert(is_first_free(ports, busy, p));
    if 30_000 <= q < p && !ports.contains_key(q) && !busy.contains(q) && !reserved_ports().contains(
        q,
    ) {
        assert(is_free(ports, busy, q));
    }
}

/// The ports of well-known services are never handed out: those of the secure shell, of
/// name service, of the web, of container engines, of databases and of clusters.
pub proof fn well_known_ports_are_reserved(
    ports: Map<u16, AllocationModel>,
    busy: Set<u16>,
    p: u16,
)
    requires
        p == 22 || p == 53 || p == 80 || p == 443 || p == 2375 || p == 2376 || p == 5432 || p
            == 3306 || p == 6379 || p == 6443 || p == 10250,
    ensures
        reserved_ports().contains(p),
        !is_free(ports, busy, p),
{
}

/// Taking a network away concerns one project only: it is gone, or keeps its place with
/// its address and without exposures where that is asked for.
pub proof fn stop_concerns_one_project(
    projects: Map<Seq<char>, ProjectModel>,
    key: Seq<char>,
    reserve_ip: bool,
    other: Seq<char>,
)
    ensures
        ({
            let after = stopped(projects, key, reserve_ip);
            &&& other != key ==> (after.contains_key(other) <==> projects.contains_key(other))
                && after[other] == projects[other]
            &&& after.contains_key(key) <==> projects.contains_key(key) && reserve_ip
            &&& after.contains_key(key) ==> after[key].reserved && after[key].exposures.len() == 0
                && after[key].vm_ip == projects[key].vm_ip && after[key].tap_name
                == projects[key].tap_name && after[key].mac_address == projects[key].mac_address
                && after[key].project_id == projects[key].project_id && after[key].vm_id
                == projects[key].vm_id && after[key].environment == projects[key].environment
        }),
{
}

/// An exposure to the public is served on its host name; any other is served on the host
/// itself, on its port of the host where it has one.
pub proof fn exposures_are_served_where_they_should(e: ExposureModel)
    ensures
        e.visibility == ExposureVisibility::Public ==> bind_of(e) == e.host,
        e.visibility != ExposureVisibility::Public ==> ({
            let port = if e.host_port is Some {
                e.host_port->0
            } else {
                e.target_port
            };
            super::ports::port_of(bind_of(e)) == Some(port as nat) && begins_with(
                bind_of(e),
                "127.0.0.1:"@,
            )
        }),
{
    if e.visibility != ExposureVisibility::Public {
        let port = if e.host_port is Some {
            e.host_port->0
        } else {
            e.target_port
        };
        let d = decimal(port as nat);
        decimal_reads_back(port as nat);
        reveal_strlit("127.0.0.1:");
        let front = "127.0.0.1:"@.drop_last();
        assert(bind_of(e) =~= front + seq![':'] + d);
        assert(!d.contains(':')) by {
            if d.contains(':') {
                let k = choose|k: int| 0 <= k < d.len() && d[k] == ':';
                assert(crate::text::is_digit(d[k]));
            }
        }
        parted_reads_back(front, d, ':');
        beginning_is_a_front(bind_of(e), "127.0.0.1:"@);
    }
}

proof fn lemma_project_route(p: ProjectModel, n: nat, i: int)
    requires
        0 <= i < n <= p.exposures.len(),
    ensures
        occurs(project_routes(p, n), route(p, p.exposures[i])),
    decreases n,
{
    let before = project_routes(p, (n - 1) as nat);
    let last = route(p, p.exposures[n - 1]);
    if i == n - 1 {
        middle_occurs(before, last, Seq::empty());
        assert(before + last + Seq::empty() =~= before + last);
    } else {
        lemma_project_route(p, (n - 1) as nat, i);
        part_occurs(Seq::empty(), before, last, route(p, p.exposures[i]));
        assert(Seq::empty() + before + last =~= before + last);
    }
}

proof fn lemma_all_routes(slots: Seq<SlotModel>, n: nat, j: int, needle: Seq<char>)
    requires
        0 <= j < n <= slots.len(),
        occurs(project_routes(slots[j].project, slots[j].project.exposures.len()), needle),
    ensures
        occurs(all_routes(slots, n), needle),
    decreases n,
{
    let before = all_routes(slots, (n - 1) as nat);
    let p = slots[n - 1].project;
    let last = project_routes(p, p.exposures.len());
    if j == n - 1 {
        part_occurs(before, last, Seq::empty(), needle);
        assert(before + last + Seq::empty() =~= before + last);
    } else {
        lemma_all_routes(slots, (n - 1) as nat, j, needle);
        part_occurs(Seq::empty(), before, last, needle);
        assert(Seq::empty() + before + last =~= before + last);
    }
}

/// Each active exposure of each project has a route: from where it is served to its port
/// on the machine of the project.
pub proof fn active_exposures_have_a_route(slots: Seq<SlotModel>, j: int, i: int)
    requires
        0 <= j < slots.len(),
        0 <= i < slots[j].project.exposures.len(),
        slots[j].project.exposures[i].status == ExposureStatus::Active,
    ensures
        ({
            let p = slots[j].project;
            let e = p.exposures[i];
            occurs(
                proxy_text(slots),
                bind_of(e) + " {\n\treverse_proxy "@ + ipv4_text(p.vm_ip) + ":"@ + decimal(
                    e.target_port as nat,
                ) + "\n}\n\n"@,
            )
        }),
        any_serves(slots),
{
    let p = slots[j].project;
    let e = p.exposures[i];
    lemma_project_route(p, p.exposures.len(), i);
    lemma_all_routes(slots, slots.len(), j, route(p, e));
    let head = "# Generated by statix-agent. Do not edit by hand.\n\n"@;
    part_occurs(head, all_routes(slots, slots.len()), Seq::empty(), route(p, e));
    assert(head + all_routes(slots, slots.len()) + Seq::empty() =~= proxy_text(slots));
    assert(serves(p));
}

/// What is told of an exposure names where it is served and what it serves, or else why
/// it is not served.
#[verifier::rlimit(40)]
pub proof fn exposures_are_described(p: ProjectModel, e: ExposureModel)
    ensures
        begins_with(description(p, e), e.visibility.text()),
        occurs(
            description(p, e),
            ipv4_text(p.vm_ip) + ":"@ + decimal(e.target_port as nat),
        ),
        e.status == ExposureStatus::Active ==> occurs(description(p, e), bind_of(e)),
        e.status != ExposureStatus::Active ==> occurs(description(p, e), e.status.text()) && (
        e.reason matches Some(reason) ==> occurs(description(p, e), reason)),
{
    let d = description(p, e);
    let v = e.visibility.text();
    let at = ipv4_text(p.vm_ip) + ":"@ + decimal(e.target_port as nat);
    if e.status == ExposureStatus::Active {
        let front = v + " exposure: "@;
        assert(d =~= v + (" exposure: "@ + bind_of(e) + " -> "@ + at));
        beginning_is_a_front(d, v);
        middle_occurs(front, bind_of(e), " -> "@ + at);
        assert(d =~= front + bind_of(e) + (" -> "@ + at));
        middle_occurs(front + bind_of(e) + " -> "@, at, Seq::empty());
        assert(d =~= front + bind_of(e) + " -> "@ + at + Seq::empty());
    } else {
        let tail = match e.reason {
            Some(reason) => " ("@ + reason + ")"@,
            None => Seq::empty(),
        };
        let front = v + " exposure for "@;
        let state = e.status.text();
        assert(d =~= v + (" exposure for "@ + at + " is "@ + state + tail));
        beginning_is_a_front(d, v);
        middle_occurs(front, at, " is "@ + state + tail);
        assert(d =~= front + at + (" is "@ + state + tail));
        middle_occurs(front + at + " is "@, state, tail);
        assert(d =~= front + at + " is "@ + state + tail);
        if let Some(reason) = e.reason {
            middle_occurs(front + at + " is "@ + state + " ("@, reason, ")"@);
            assert(d =~= front + at + " is "@ + state + " ("@ + reason + ")"@);
        }
    }
}

} // verus!

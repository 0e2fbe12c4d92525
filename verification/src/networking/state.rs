//! The network state that the agent keeps between runs.
use std::collections::BTreeMap;
use vstd::prelude::*;
use vstd::string::*;

use crate::netaddr::Ipv4Addr;
use crate::paths::{below, join_path};
use crate::text::{same, text_of, to_chars};

verus! {

pub const STATE_VERSION: u32 = 1;

pub const DEFAULT_SUBNET_PREFIX: u8 = 16;

/// Who may reach what a project exposes.
#[derive(Debug, Clone, Copy, PartialEq, Eq, Structural)]
pub enum ExposureVisibility {
    Internal,
    Private,
    Public,
}

/// What became of a requested exposure.
#[derive(Debug, Clone, Copy, PartialEq, Eq, Structural)]
pub enum ExposureStatus {
    Active,
    Denied,
    Pending,
}

/// The party that owns a rule on the host.
#[derive(Debug)]
pub struct RuleOwner {
    pub owner: String,
}

#[derive(Debug)]
pub struct BridgeState {
    pub name: String,
    pub gateway: Ipv4Addr,
    pub prefix_len: u8,
}

#[derive(Debug)]
pub struct ExposureState {
    pub host: String,
    pub target_port: u16,
    pub host_port: Option<u16>,
    pub visibility: ExposureVisibility,
    pub status: ExposureStatus,
    pub reason: Option<String>,
    pub owner: RuleOwner,
}

#[derive(Debug)]
pub struct ProjectNetworkState {
    pub project_id: String,
    pub environment: String,
    pub vm_id: String,
    pub vm_ip: Ipv4Addr,
    pub tap_name: String,
    pub mac_address: String,
    pub reserved: bool,
    pub exposures: Vec<ExposureState>,
}

/// A project under the key that the state files it under.
#[derive(Debug)]
pub struct ProjectSlot {
    pub key: String,
    pub project: ProjectNetworkState,
}

#[derive(Debug)]
pub struct HostPortAllocation {
    pub project_key: String,
    pub port: u16,
    pub protocol: String,
    pub target_port: u16,
    pub owner: RuleOwner,
}

/// The state of the agent's networking: the bridge, the projects in the order
/// of their keys, and the host ports that are handed out.
#[derive(Debug)]
pub struct AgentNetworkState {
    pub version: u32,
    pub bridge: BridgeState,
    pub projects: Vec<ProjectSlot>,
    pub allocated_host_ports: BTreeMap<u16, HostPortAllocation>,
}

// ---------------------------------------------------------------------------
// Models
// ---------------------------------------------------------------------------

pub struct BridgeModel {
    pub name: Seq<char>,
    pub gateway: Ipv4Addr,
    pub prefix_len: u8,
}

pub struct ExposureModel {
    pub host: Seq<char>,
    pub target_port: u16,
    pub host_port: Option<u16>,
    pub visibility: ExposureVisibility,
    pub status: ExposureStatus,
    pub reason: Option<Seq<char>>,
    pub owner: Seq<char>,
}

pub struct ProjectModel {
    pub project_id: Seq<char>,
    pub environment: Seq<char>,
    pub vm_id: Seq<char>,
    pub vm_ip: Ipv4Addr,
    pub tap_name: Seq<char>,
    pub mac_address: Seq<char>,
    pub reserved: bool,
    pub exposures: Seq<ExposureModel>,
}

pub struct SlotModel {
    pub key: Seq<char>,
    pub project: ProjectModel,
}

pub struct AllocationModel {
    pub project_key: Seq<char>,
    pub port: u16,
    pub protocol: Seq<char>,
    pub target_port: u16,
    pub owner: Seq<char>,
}

impl View for BridgeState {
    type V = BridgeModel;

    open spec fn view(&self) -> BridgeModel {
        BridgeModel { name: self.name@, gateway: self.gateway, prefix_len: self.prefix_len }
    }
}

impl View for ExposureState {
    type V = ExposureModel;

    open spec fn view(&self) -> ExposureModel {
        ExposureModel {
            host: self.host@,
            target_port: self.target_port,
            host_port: self.host_port,
            visibility: self.visibility,
            status: self.status,
            reason: text_of(self.reason),
            owner: self.owner.owner@,
        }
    }
}

/// The models of a list of exposures.
pub open spec fn exposure_models(v: Seq<ExposureState>) -> Seq<ExposureModel> {
    Seq::new(v.len(), |i: int| v[i]@)
}

impl View for ProjectNetworkState {
    type V = ProjectModel;

    open spec fn view(&self) -> ProjectModel {
        ProjectModel {
            project_id: self.project_id@,
            environment: self.environment@,
            vm_id: self.vm_id@,
            vm_ip: self.vm_ip,
            tap_name: self.tap_name@,
            mac_address: self.mac_address@,
            reserved: self.reserved,
            exposures: exposure_models(self.exposures@),
        }
    }
}

impl View for ProjectSlot {
    type V = SlotModel;

    open spec fn view(&self) -> SlotModel {
        SlotModel { key: self.key@, project: self.project@ }
    }
}

/// The models of a list of projects.
pub open spec fn slot_models(v: Seq<ProjectSlot>) -> Seq<SlotModel> {
    Seq::new(v.len(), |i: int| v[i]@)
}

impl View for HostPortAllocation {
    type V = AllocationModel;

    open spec fn view(&self) -> AllocationModel {
        AllocationModel {
            project_key: self.project_key@,
            port: self.port,
            protocol: self.protocol@,
            target_port: self.target_port,
            owner: self.owner.owner@,
        }
    }
}

/// The models of the allocations of a map.
pub open spec fn allocation_models(m: Map<u16, HostPortAllocation>) -> Map<u16, AllocationModel> {
    Map::new(|p: u16| m.contains_key(p), |p: u16| m[p]@)
}

// ---------------------------------------------------------------------------
// The order of keys
// ---------------------------------------------------------------------------

/// Whether `a` stands before `b` in the order of text: the first character in
/// which they differ decides, and a text stands behind its own beginnings.
pub open spec fn stands_before(a: Seq<char>, b: Seq<char>) -> bool
    decreases a.len(),
{
    if b.len() == 0 {
        false
    } else if a.len() == 0 {
        true
    } else {
        (a[0] as u32) < (b[0] as u32) || (a[0] == b[0] && stands_before(
            a.drop_first(),
            b.drop_first(),
        ))
    }
}

pub proof fn lemma_before_irreflexive(a: Seq<char>)
    ensures
        !stands_before(a, a),
    decreases a.len(),
{
    if a.len() > 0 {
        lemma_before_irreflexive(a.drop_first());
    }
}

pub proof fn lemma_before_transitive(a: Seq<char>, b: Seq<char>, c: Seq<char>)
    requires
        stands_before(a, b),
        stands_before(b, c),
    ensures
        stands_before(a, c),
    decreases a.len(),
{
    if a.len() > 0 && b.len() > 0 && c.len() > 0 && a[0] == b[0] && b[0] == c[0] {
        lemma_before_transitive(a.drop_first(), b.drop_first(), c.drop_first());
    }
}

proof fn lemma_same_char(x: char, y: char)
    requires
        x as u32 == y as u32,
    ensures
        x == y,
{
}

pub proof fn lemma_before_total(a: Seq<char>, b: Seq<char>)
    requires
        !stands_before(a, b),
        !stands_before(b, a),
    ensures
        a == b,
    decreases a.len(),
{
    if a.len() > 0 && b.len() > 0 {
        lemma_same_char(a[0], b[0]);
        lemma_before_total(a.drop_first(), b.drop_first());
        assert(a =~= seq![a[0]] + a.drop_first());
        assert(b =~= seq![b[0]] + b.drop_first());
    } else {
        assert(a =~= b);
    }
}

/// `stands_before`, executable.
pub fn is_before(a: &str, b: &str) -> (r: bool)
    ensures
        r == stands_before(a@, b@),
{
    let x = to_chars(a);
    let y = to_chars(b);
    let mut i: usize = 0;
    proof {
        assert(x@.skip(0) =~= x@);
        assert(y@.skip(0) =~= y@);
    }
    while i < x.len() && i < y.len() && x[i] == y[i]
        invariant
            x@ == a@,
            y@ == b@,
            i <= x@.len(),
            i <= y@.len(),
            stands_before(a@, b@) == stands_before(x@.skip(i as int), y@.skip(i as int)),
        decreases x@.len() - i,
    {
        proof {
            assert(x@.skip(i as int).drop_first() =~= x@.skip(i + 1));
            assert(y@.skip(i as int).drop_first() =~= y@.skip(i + 1));
        }
        i += 1;
    }
    if i >= y.len() {
        false
    } else if i >= x.len() {
        true
    } else {
        let m: u32 = x[i] as u32;
        let n: u32 = y[i] as u32;
        m < n
    }
}

// ---------------------------------------------------------------------------
// Projects by key
// ---------------------------------------------------------------------------

/// Whether a project is filed under `key`.
pub open spec fn has_key(slots: Seq<SlotModel>, key: Seq<char>) -> bool {
    exists|i: int| 0 <= i < slots.len() && #[trigger] slots[i].key == key
}

/// The project filed under `key`.
pub open spec fn project_at(slots: Seq<SlotModel>, key: Seq<char>) -> ProjectModel {
    slots[choose|i: int| 0 <= i < slots.len() && #[trigger] slots[i].key == key].project
}

/// The projects by their keys.
pub open spec fn project_map(slots: Seq<SlotModel>) -> Map<Seq<char>, ProjectModel> {
    Map::new(|k: Seq<char>| has_key(slots, k), |k: Seq<char>| project_at(slots, k))
}

/// Whether the projects stand in the order of their keys, each key once.
pub open spec fn ordered(slots: Seq<SlotModel>) -> bool {
    forall|i: int, j: int|
        0 <= i < j < slots.len() ==> stands_before(#[trigger] slots[i].key, #[trigger] slots[j].key)
}

/// The projects that are filed where these come one after the other.
pub open spec fn filed(slots: Seq<SlotModel>) -> Map<Seq<char>, ProjectModel>
    decreases slots.len(),
{
    if slots.len() == 0 {
        Map::empty()
    } else {
        filed(slots.drop_last()).insert(slots.last().key, slots.last().project)
    }
}

pub proof fn lemma_key_unique(slots: Seq<SlotModel>, i: int, j: int)
    requires
        ordered(slots),
        0 <= i < slots.len(),
        0 <= j < slots.len(),
        slots[i].key == slots[j].key,
    ensures
        i == j,
{
    lemma_before_irreflexive(slots[i].key);
}

/// What the map holds under the key of a slot.
pub proof fn lemma_map_at(slots: Seq<SlotModel>, i: int)
    requires
        ordered(slots),
        0 <= i < slots.len(),
    ensures
        project_map(slots).contains_key(slots[i].key),
        project_map(slots)[slots[i].key] == slots[i].project,
{
    let k = slots[i].key;
    assert(has_key(slots, k));
    let j = choose|j: int| 0 <= j < slots.len() && #[trigger] slots[j].key == k;
    lemma_key_unique(slots, i, j);
}

/// Replacing the project of a slot is an update of the map.
pub proof fn lemma_map_update(slots: Seq<SlotModel>, i: int, p: ProjectModel)
    requires
        ordered(slots),
        0 <= i < slots.len(),
    ensures
        ordered(slots.update(i, SlotModel { key: slots[i].key, project: p })),
        project_map(slots.update(i, SlotModel { key: slots[i].key, project: p })) == project_map(
            slots,
        ).insert(slots[i].key, p),
{
    let s2 = slots.update(i, SlotModel { key: slots[i].key, project: p });
    let m2 = project_map(s2);
    let want = project_map(slots).insert(slots[i].key, p);
    assert(ordered(s2));
    assert forall|k: Seq<char>| m2.contains_key(k) <==> want.contains_key(k) by {
        if has_key(s2, k) {
            let j = choose|j: int| 0 <= j < s2.len() && #[trigger] s2[j].key == k;
            assert(slots[j].key == k);
        }
        if has_key(slots, k) {
            let j = choose|j: int| 0 <= j < slots.len() && #[trigger] slots[j].key == k;
            assert(s2[j].key == k);
        }
        if k == slots[i].key {
            assert(s2[i].key == k);
        }
    }
    assert forall|k: Seq<char>| m2.contains_key(k) implies m2[k] == want[k] by {
        let j = choose|j: int| 0 <= j < s2.len() && #[trigger] s2[j].key == k;
        lemma_map_at(s2, j);
        lemma_map_at(slots, j);
        assert(slots[j].key == k);
        if k == slots[i].key {
            lemma_key_unique(slots, i, j);
        }
    }
    assert(m2 =~= want);
}

/// Filing a new project in its place in the order is an insertion into the map.
pub proof fn lemma_map_insert(slots: Seq<SlotModel>, i: int, x: SlotModel)
    requires
        ordered(slots),
        0 <= i <= slots.len(),
        forall|j: int| 0 <= j < i ==> stands_before(#[trigger] slots[j].key, x.key),
        forall|j: int| i <= j < slots.len() ==> stands_before(x.key, #[trigger] slots[j].key),
    ensures
        ordered(slots.insert(i, x)),
        project_map(slots.insert(i, x)) == project_map(slots).insert(x.key, x.project),
{
    let s2 = slots.insert(i, x);
    assert forall|a: int, b: int| 0 <= a < b < s2.len() implies stands_before(
        #[trigger] s2[a].key,
        #[trigger] s2[b].key,
    ) by {
        if b < i {
            assert(s2[a] == slots[a] && s2[b] == slots[b]);
        } else if b == i {
            assert(s2[a] == slots[a]);
        } else if a < i {
            assert(s2[a] == slots[a] && s2[b] == slots[b - 1]);
        } else if a == i {
            assert(s2[b] == slots[b - 1]);
        } else {
            assert(s2[a] == slots[a - 1] && s2[b] == slots[b - 1]);
        }
    }
    let m2 = project_map(s2);
    let want = project_map(slots).insert(x.key, x.project);
    assert forall|k: Seq<char>| m2.contains_key(k) <==> want.contains_key(k) by {
        if has_key(s2, k) {
            let j = choose|j: int| 0 <= j < s2.len() && #[trigger] s2[j].key == k;
            if j < i {
                assert(slots[j].key == k);
            } else if j > i {
                assert(slots[j - 1].key == k);
            }
        }
        if has_key(slots, k) {
            let j = choose|j: int| 0 <= j < slots.len() && #[trigger] slots[j].key == k;
            if j < i {
                assert(s2[j].key == k);
            } else {
                assert(s2[j + 1].key == k);
            }
        }
        if k == x.key {
            assert(s2[i].key == k);
        }
    }
    assert forall|k: Seq<char>| m2.contains_key(k) implies m2[k] == want[k] by {
        let j = choose|j: int| 0 <= j < s2.len() && #[trigger] s2[j].key == k;
        lemma_map_at(s2, j);
        if j == i {
        } else {
            let h = if j < i {
                j
            } else {
                j - 1
            };
            assert(slots[h].key == k);
            lemma_map_at(slots, h);
            lemma_before_irreflexive(k);
        }
    }
    assert(m2 =~= want);
}

/// Removing a slot is a removal from the map.
pub proof fn lemma_map_remove(slots: Seq<SlotModel>, i: int)
    requires
        ordered(slots),
        0 <= i < slots.len(),
    ensures
        ordered(slots.remove(i)),
        project_map(slots.remove(i)) == project_map(slots).remove(slots[i].key),
{
    let s2 = slots.remove(i);
    assert forall|a: int, b: int| 0 <= a < b < s2.len() implies stands_before(
        #[trigger] s2[a].key,
        #[trigger] s2[b].key,
    ) by {
        let x = if a < i {
            a
        } else {
            a + 1
        };
        let y = if b < i {
            b
        } else {
            b + 1
        };
        assert(s2[a] == slots[x] && s2[b] == slots[y]);
    }
    let m2 = project_map(s2);
    let want = project_map(slots).remove(slots[i].key);
    assert forall|k: Seq<char>| m2.contains_key(k) <==> want.contains_key(k) by {
        if has_key(s2, k) {
            let j = choose|j: int| 0 <= j < s2.len() && #[trigger] s2[j].key == k;
            let h = if j < i {
                j
            } else {
                j + 1
            };
            assert(slots[h].key == k);
            if k == slots[i].key {
                lemma_key_unique(slots, i, h);
            }
        }
        if has_key(slots, k) && k != slots[i].key {
            let j = choose|j: int| 0 <= j < slots.len() && #[trigger] slots[j].key == k;
            if j < i {
                assert(s2[j].key == k);
            } else {
                assert(s2[j - 1].key == k);
            }
        }
    }
    assert forall|k: Seq<char>| m2.contains_key(k) implies m2[k] == want[k] by {
        let j = choose|j: int| 0 <= j < s2.len() && #[trigger] s2[j].key == k;
        lemma_map_at(s2, j);
        let h = if j < i {
            j
        } else {
            j + 1
        };
        assert(slots[h].key == k);
        lemma_map_at(slots, h);
    }
    assert(m2 =~= want);
}

// ---------------------------------------------------------------------------
// The state
// ---------------------------------------------------------------------------

impl AgentNetworkState {
    /// The projects of the state, in order.
    pub open spec fn slots(&self) -> Seq<SlotModel> {
        slot_models(self.projects@)
    }

    /// The projects of the state by their keys.
    pub open spec fn project_map(&self) -> Map<Seq<char>, ProjectModel> {
        project_map(self.slots())
    }

    /// The host ports that the state hands out.
    pub open spec fn port_map(&self) -> Map<u16, AllocationModel> {
        allocation_models(self.allocated_host_ports@)
    }

    /// The projects stand in the order of their keys, each key once.
    pub open spec fn wf(&self) -> bool {
        ordered(self.slots())
    }

    /// The position of the project filed under `key`.
    pub fn find(&self, key: &str) -> (r: Option<usize>)
        requires
            self.wf(),
        ensures
            match r {
                Some(i) => i < self.projects@.len() && self.projects@[i as int].key@ == key@
                    && self.project_map().contains_key(key@) && self.project_map()[key@]
                    == self.projects@[i as int].project@,
                None => !self.project_map().contains_key(key@),
            },
    {
        let mut i: usize = 0;
        while i < self.projects.len()
            invariant
                self.wf(),
                i <= self.projects@.len(),
                forall|j: int| 0 <= j < i ==> (#[trigger] self.slots()[j]).key != key@,
            decreases self.projects@.len() - i,
        {
            if same(self.projects[i].key.as_str(), key) {
                proof {
                    lemma_map_at(self.slots(), i as int);
                    assert(self.slots()[i as int].key == key@);
                }
                return Some(i);
            }
            proof {
                assert(self.slots()[i as int] == self.projects@[i as int]@);
            }
            i += 1;
        }
        None
    }

    /// Files a project under a key that no project has yet.
    pub fn file_project(&mut self, key: &str, project: ProjectNetworkState) -> (r: usize)
        requires
            old(self).wf(),
            !old(self).project_map().contains_key(key@),
        ensures
            final(self).wf(),
            final(self).version == old(self).version,
            final(self).bridge == old(self).bridge,
            final(self).allocated_host_ports == old(self).allocated_host_ports,
            final(self).project_map() == old(self).project_map().insert(key@, project@),
            r < final(self).projects@.len(),
            final(self).projects@[r as int].key@ == key@,
            final(self).projects@[r as int].project@ == project@,
            exists|i: int|
                0 <= i <= old(self).slots().len() && final(self).slots() == old(
                    self,
                ).slots().insert(i, SlotModel { key: key@, project: project@ }),
    {
        let ghost slots = self.slots();
        let mut i: usize = 0;
        while i < self.projects.len() && is_before(self.projects[i].key.as_str(), key)
            invariant
                *self == *old(self),
                slots == self.slots(),
                self.wf(),
                i <= self.projects@.len(),
                forall|j: int| 0 <= j < i ==> stands_before(#[trigger] slots[j].key, key@),
            decreases self.projects@.len() - i,
        {
            proof {
                assert(slots[i as int] == self.projects@[i as int]@);
            }
            i += 1;
        }
        let ghost x = SlotModel { key: key@, project: project@ };
        proof {
            assert forall|j: int| i <= j < slots.len() implies stands_before(
                key@,
                #[trigger] slots[j].key,
            ) by {
                assert(!has_key(slots, key@));
                assert(slots[i as int] == self.projects@[i as int]@);
                if !stands_before(key@, slots[i as int].key) {
                    lemma_before_total(key@, slots[i as int].key);
                }
                if j > i {
                    lemma_before_transitive(key@, slots[i as int].key, slots[j].key);
                }
            }
            lemma_map_insert(slots, i as int, x);
        }
        let slot = ProjectSlot { key: key.to_owned(), project };
        self.projects.insert(i, slot);
        proof {
            assert(self.slots() =~= slots.insert(i as int, x));
        }
        i
    }

    /// Removes the project at position `i`.
    pub fn remove_at(&mut self, i: usize) -> (r: ProjectSlot)
        requires
            old(self).wf(),
            i < old(self).projects@.len(),
        ensures
            final(self).wf(),
            final(self).version == old(self).version,
            final(self).bridge == old(self).bridge,
            final(self).allocated_host_ports == old(self).allocated_host_ports,
            r == old(self).projects@[i as int],
            final(self).slots() == old(self).slots().remove(i as int),
            final(self).project_map() == old(self).project_map().remove(
                old(self).projects@[i as int].key@,
            ),
    {
        let ghost slots = self.slots();
        proof {
            assert(slots[i as int] == self.projects@[i as int]@);
            lemma_map_remove(slots, i as int);
        }
        let r = self.projects.remove(i);
        proof {
            assert(self.slots() =~= slots.remove(i as int));
        }
        r
    }

    /// A state out of its parts, in whatever order the projects come; of two
    /// projects with one key the later one counts.
    pub fn from_parts(
        version: u32,
        bridge: BridgeState,
        projects: Vec<ProjectSlot>,
        allocated_host_ports: BTreeMap<u16, HostPortAllocation>,
    ) -> (r: Self)
        ensures
            r.wf(),
            r.version == version,
            r.bridge == bridge,
            r.allocated_host_ports == allocated_host_ports,
            r.project_map() == filed(slot_models(projects@)),
    {
        let ghost all = slot_models(projects@);
        let none: Vec<ProjectSlot> = Vec::new();
        let mut r = AgentNetworkState { version, bridge, projects: none, allocated_host_ports };
        let mut rest = projects;
        proof {
            assert(r.project_map() =~= Map::<Seq<char>, ProjectModel>::empty());
            assert(all.take(0) =~= Seq::<SlotModel>::empty());
            assert(slot_models(rest@) =~= all.skip(0));
        }
        let n = rest.len();
        let mut i: usize = 0;
        while i < n
            invariant
                n == all.len(),
                i <= n,
                r.wf(),
                r.version == version,
                r.bridge == bridge,
                r.allocated_host_ports == allocated_host_ports,
                slot_models(rest@) == all.skip(i as int),
                r.project_map() == filed(all.take(i as int)),
            decreases n - i,
        {
            let ghost now = r.project_map();
            let ghost left = rest@;
            proof {
                assert(slot_models(left).len() == left.len());
                assert(slot_models(left)[0] == all[i as int]);
                assert(all.take(i + 1).drop_last() =~= all.take(i as int));
            }
            let slot = rest.remove(0);
            proof {
                assert forall|j: int| 0 <= j < rest@.len() implies slot_models(rest@)[j]
                    == #[trigger] all.skip(i + 1)[j] by {
                    assert(rest@[j] == left[j + 1]);
                    assert(slot_models(left)[j + 1] == all.skip(i as int)[j + 1]);
                }
                assert(slot_models(rest@) =~= all.skip(i + 1));
            }
            let found = r.find(slot.key.as_str());
            match found {
                Some(k) => {
                    r.remove_at(k);
                    r.file_project(slot.key.as_str(), slot.project);
                    proof {
                        assert(r.project_map() =~= now.insert(slot@.key, slot@.project));
                    }
                },
                None => {
                    r.file_project(slot.key.as_str(), slot.project);
                },
            }
            i += 1;
        }
        proof {
            assert(all.take(n as int) =~= all);
        }
        r
    }

    /// Gives the project at position `i` a machine and exposures.
    pub fn occupy(&mut self, i: usize, vm_id: String, exposures: Vec<ExposureState>)
        requires
            old(self).wf(),
            i < old(self).projects@.len(),
        ensures
            final(self).wf(),
            final(self).version == old(self).version,
            final(self).bridge == old(self).bridge,
            final(self).allocated_host_ports == old(self).allocated_host_ports,
            final(self).projects@.len() == old(self).projects@.len(),
            final(self).projects@[i as int].key@ == old(self).projects@[i as int].key@,
            final(self).projects@[i as int].project@ == (ProjectModel {
                vm_id: vm_id@,
                reserved: false,
                exposures: exposure_models(exposures@),
                ..old(self).projects@[i as int].project@
            }),
            final(self).project_map() == old(self).project_map().insert(
                old(self).projects@[i as int].key@,
                final(self).projects@[i as int].project@,
            ),
    {
        let ghost slots = self.slots();
        self.projects[i].project.vm_id = vm_id;
        self.projects[i].project.reserved = false;
        self.projects[i].project.exposures = exposures;
        proof {
            let p = self.projects@[i as int].project@;
            assert(slots[i as int] == old(self).projects@[i as int]@);
            lemma_map_update(slots, i as int, p);
            assert(self.slots() =~= slots.update(
                i as int,
                SlotModel { key: slots[i as int].key, project: p },
            ));
        }
    }

    /// Takes the exposures of the project at position `i` away, and keeps its
    /// place.
    pub fn vacate(&mut self, i: usize)
        requires
            old(self).wf(),
            i < old(self).projects@.len(),
        ensures
            final(self).wf(),
            final(self).version == old(self).version,
            final(self).bridge == old(self).bridge,
            final(self).allocated_host_ports == old(self).allocated_host_ports,
            final(self).project_map() == old(self).project_map().insert(
                old(self).projects@[i as int].key@,
                (ProjectModel {
                    reserved: true,
                    exposures: Seq::empty(),
                    ..old(self).projects@[i as int].project@
                }),
            ),
    {
        let ghost slots = self.slots();
        let none: Vec<ExposureState> = Vec::new();
        proof {
            assert(exposure_models(none@) =~= Seq::<ExposureModel>::empty());
        }
        self.projects[i].project.exposures = none;
        self.projects[i].project.reserved = true;
        proof {
            let p = self.projects@[i as int].project@;
            assert(slots[i as int] == old(self).projects@[i as int]@);
            lemma_map_update(slots, i as int, p);
            assert(self.slots() =~= slots.update(
                i as int,
                SlotModel { key: slots[i as int].key, project: p },
            ));
        }
    }
}

impl RuleOwner {
    /// The agent itself.
    pub fn statix() -> (r: Self)
        ensures
            r.owner@ == "statix-agent"@,
    {
        RuleOwner { owner: "statix-agent".to_string() }
    }
}

impl ExposureStatus {
    pub open spec fn text(self) -> Seq<char> {
        match self {
            ExposureStatus::Active => "active"@,
            ExposureStatus::Denied => "denied"@,
            ExposureStatus::Pending => "pending"@,
        }
    }

    pub fn as_str(self) -> (r: &'static str)
        ensures
            r@ == self.text(),
    {
        match self {
            ExposureStatus::Active => "active",
            ExposureStatus::Denied => "denied",
            ExposureStatus::Pending => "pending",
        }
    }
}

impl ExposureVisibility {
    pub open spec fn text(self) -> Seq<char> {
        match self {
            ExposureVisibility::Internal => "internal"@,
            ExposureVisibility::Private => "private"@,
            ExposureVisibility::Public => "public"@,
        }
    }

    pub fn as_str(self) -> (r: &'static str)
        ensures
            r@ == self.text(),
    {
        match self {
            ExposureVisibility::Internal => "internal",
            ExposureVisibility::Private => "private",
            ExposureVisibility::Public => "public",
        }
    }
}

/// The directory of the proxy's configuration.
pub fn proxy_dir(state_dir: &str) -> (r: String)
    ensures
        r@ == below(below(state_dir@, "networking"@), "proxy"@),
{
    let networking = join_path(state_dir, "networking");
    join_path(networking.as_str(), "proxy")
}

/// The file that the state is kept in.
pub fn state_path(state_dir: &str) -> (r: String)
    ensures
        r@ == below(below(state_dir@, "networking"@), "state.json"@),
{
    let networking = join_path(state_dir, "networking");
    join_path(networking.as_str(), "state.json")
}

/// The address of the bridge that a fresh state begins with.
pub open spec fn default_gateway_address() -> Ipv4Addr {
    Ipv4Addr { a: 172, b: 31, c: 0, d: 1 }
}

/// The address of the bridge that a fresh state begins with.
pub fn default_gateway() -> (r: Ipv4Addr)
    ensures
        r == default_gateway_address(),
{
    Ipv4Addr::new(172, 31, 0, 1)
}

/// The state that the agent begins with where none was kept: the default
/// bridge, no project and no port.
pub fn initial_state() -> (r: AgentNetworkState)
    ensures
        r.wf(),
        r.version == STATE_VERSION,
        r.bridge@ == (BridgeModel {
            name: "statix0"@,
            gateway: default_gateway_address(),
            prefix_len: DEFAULT_SUBNET_PREFIX,
        }),
        r.slots() == Seq::<SlotModel>::empty(),
        r.port_map() == Map::<u16, AllocationModel>::empty(),
{
    let r = AgentNetworkState {
        version: STATE_VERSION,
        bridge: BridgeState {
            name: "statix0".to_string(),
            gateway: default_gateway(),
            prefix_len: DEFAULT_SUBNET_PREFIX,
        },
        projects: Vec::new(),
        allocated_host_ports: BTreeMap::new(),
    };
    proof {
        assert(r.slots() =~= Seq::empty());
        assert(r.port_map() =~= Map::empty());
    }
    r
}

/// Names stand in the order of a dictionary: the first character in which two differ
/// decides, and a name stands before the longer ones that begin with it.
pub proof fn first_difference_decides(
    common: Seq<char>,
    x: char,
    y: char,
    a: Seq<char>,
    b: Seq<char>,
)
    requires
        (x as u32) < (y as u32),
    ensures
        stands_before(common + seq![x] + a, common + seq![y] + b),
        stands_before(common, common + seq![x] + a),
    decreases common.len(),
{
    let s = common + seq![x] + a;
    let t = common + seq![y] + b;
    if common.len() > 0 {
        let rest = common.drop_first();
        first_difference_decides(rest, x, y, a, b);
        assert(s.drop_first() =~= rest + seq![x] + a);
        assert(t.drop_first() =~= rest + seq![y] + b);
        assert(s[0] == common[0] && t[0] == common[0]);
    } else {
        assert(s[0] == x && t[0] == y);
    }
}

/// Of two projects under one name, the one that comes later counts; a name that is there
/// once keeps its project.
pub proof fn later_entry_counts(slots: Seq<SlotModel>, x: SlotModel, key: Seq<char>)
    ensures
        filed(slots.push(x)).contains_key(x.key),
        filed(slots.push(x))[x.key] == x.project,
        key != x.key ==> (filed(slots.push(x)).contains_key(key) <==> filed(slots).contains_key(
            key,
        )),
        key != x.key && filed(slots).contains_key(key) ==> filed(slots.push(x))[key] == filed(
            slots,
        )[key],
        !filed(Seq::empty()).contains_key(key),
{
    assert(slots.push(x).drop_last() =~= slots);
}

} // verus!

//! How projects are named on the host: their keys, tap devices, hardware
//! addresses and network addresses.
use vstd::prelude::*;
use vstd::string::*;

use crate::digest::{hash_number, hash_prefix, hash_u16, short_hash};
use crate::netaddr::Ipv4Addr;
use crate::segment::{safe_segment, segment_of};
use crate::text::{slice_text, to_chars};

use super::error::NetworkError;
use super::state::{
    default_gateway, default_gateway_address, has_key, lemma_map_at, project_map,
    AgentNetworkState, ProjectModel, SlotModel,
};

verus! {

/// How many network addresses the agent hands out.
pub const ADDRESS_COUNT: u16 = 60_000;

// ---------------------------------------------------------------------------
// Keys and device names
// ---------------------------------------------------------------------------

/// The key of a project in one of its environments.
pub open spec fn key_of(project_id: Seq<char>, environment: Seq<char>) -> Seq<char> {
    segment_of(project_id) + "-"@ + segment_of(environment)
}

/// The key of a project in one of its environments.
pub fn project_key(project_id: &str, environment: &str) -> (r: String)
    ensures
        r@ == key_of(project_id@, environment@),
{
    let mut r = safe_segment(project_id);
    r.append("-");
    r.append(safe_segment(environment).as_str());
    r
}

/// The name of the tap device of the project whose key has this digest text.
pub open spec fn tap_name_from(hash: Seq<char>) -> Seq<char> {
    "stx"@ + hash
}

/// The name of the tap device of a project.
pub fn tap_name_for(key: &str) -> (r: String)
    ensures
        r@ == tap_name_from(hash_prefix(key@, 11)),
        r@.len() == 14,
{
    let hash = short_hash(key, 11);
    let mut r = "stx".to_string();
    r.append(hash.as_str());
    proof {
        reveal_strlit("stx");
    }
    r
}

/// The hardware address of the project whose key has this digest text.
pub open spec fn mac_address_from(hash: Seq<char>) -> Seq<char> {
    "02:53:"@ + hash.subrange(0, 2) + ":"@ + hash.subrange(2, 4) + ":"@ + hash.subrange(4, 6)
        + ":"@ + hash.subrange(6, 8)
}

/// The hardware address that goes with a digest text.
pub fn mac_address_of_hash(hash: &str) -> (r: String)
    requires
        hash@.len() >= 8,
    ensures
        r@ == mac_address_from(hash@),
{
    let cs = to_chars(hash);
    let mut r = "02:53:".to_string();
    r.append(slice_text(&cs, 0, 2).as_str());
    r.append(":");
    r.append(slice_text(&cs, 2, 4).as_str());
    r.append(":");
    r.append(slice_text(&cs, 4, 6).as_str());
    r.append(":");
    r.append(slice_text(&cs, 6, 8).as_str());
    r
}

/// The hardware address of a project.
pub fn mac_address_for(key: &str) -> (r: String)
    ensures
        r@ == mac_address_from(hash_prefix(key@, 10)),
{
    let hash = short_hash(key, 10);
    mac_address_of_hash(hash.as_str())
}

// ---------------------------------------------------------------------------
// Network addresses
// ---------------------------------------------------------------------------

/// The address with the number `n` in the agent's network.
pub open spec fn numbered_address(n: int) -> Ipv4Addr {
    Ipv4Addr { a: 172, b: 31, c: (n / 256) as u8, d: (n % 256) as u8 }
}

/// The address that is tried in the turn `k` where the search begins at `start`.
pub open spec fn candidate(start: int, k: int) -> Ipv4Addr {
    numbered_address(2 + (start + k) % 60_000)
}

/// Whether some project has the address.
pub open spec fn is_used(projects: Map<Seq<char>, ProjectModel>, ip: Ipv4Addr) -> bool {
    exists|key: Seq<char>| #[trigger] projects.contains_key(key) && projects[key].vm_ip == ip
}

/// Whether the agent may hand out the address that is tried in the turn `k`.
pub open spec fn is_open(
    projects: Map<Seq<char>, ProjectModel>,
    start: int,
    k: int,
) -> bool {
    0 <= k < ADDRESS_COUNT && candidate(start, k) != default_gateway_address() && !is_used(
        projects,
        candidate(start, k),
    )
}

/// Whether `k` is the first turn in which an address may be handed out.
pub open spec fn is_first_open(
    projects: Map<Seq<char>, ProjectModel>,
    start: int,
    k: int,
) -> bool {
    is_open(projects, start, k) && forall|j: int| #[trigger] is_open(projects, start, j) ==> k <= j
}

/// The first address that may be handed out, where the search begins at `start`.
pub open spec fn open_address(
    projects: Map<Seq<char>, ProjectModel>,
    start: int,
) -> Option<Ipv4Addr> {
    if exists|k: int| is_first_open(projects, start, k) {
        Some(candidate(start, choose|k: int| is_first_open(projects, start, k)))
    } else {
        None
    }
}

pub proof fn lemma_first_open(projects: Map<Seq<char>, ProjectModel>, start: int, k: int)
    requires
        is_first_open(projects, start, k),
    ensures
        open_address(projects, start) == Some(candidate(start, k)),
{
    let c = choose|c: int| is_first_open(projects, start, c);
    assert(is_open(projects, start, c));
    assert(is_open(projects, start, k));
}

/// Where some address may be handed out, there is a first one.
pub proof fn lemma_some_open(projects: Map<Seq<char>, ProjectModel>, start: int, k: int)
    requires
        is_open(projects, start, k),
    ensures
        open_address(projects, start) is Some,
    decreases k,
{
    if !is_first_open(projects, start, k) {
        let j = choose|j: int| #[trigger] is_open(projects, start, j) && j < k;
        lemma_some_open(projects, start, j);
    }
}

proof fn lemma_used_up(projects: Map<Seq<char>, ProjectModel>, start: int, m: nat)
    requires
        projects.dom().finite(),
        start >= 0,
        m <= ADDRESS_COUNT,
        forall|k: int| 0 <= k < m ==> is_used(projects, #[trigger] candidate(start, k)),
    ensures
        projects.dom().len() >= m,
    decreases m,
{
    if m > 0 {
        let ip = candidate(start, m - 1);
        assert(is_used(projects, ip));
        let key = choose|key: Seq<char>| #[trigger]
            projects.contains_key(key) && projects[key].vm_ip == ip;
        let rest = projects.remove(key);
        assert forall|k: int| 0 <= k < m - 1 implies is_used(rest, #[trigger] candidate(start, k)) by {
            let other = choose|o: Seq<char>| #[trigger]
                projects.contains_key(o) && projects[o].vm_ip == candidate(start, k);
            assert(is_used(projects, candidate(start, k)));
            let a = 2 + (start + k) % 60_000;
            let b = 2 + (start + m - 1) % 60_000;
            assert(a != b);
            assert(numbered_address(a) != numbered_address(b));
            assert(other != key);
            assert(rest.contains_key(other));
        }
        lemma_used_up(rest, start, (m - 1) as nat);
        assert(rest.dom() =~= projects.dom().remove(key));
    }
}

/// There is an address for one more project as long as there are fewer projects than
/// the agent has addresses.
pub proof fn few_projects_leave_an_address(projects: Map<Seq<char>, ProjectModel>, start: int)
    requires
        projects.dom().finite(),
        projects.dom().len() < ADDRESS_COUNT,
        start >= 0,
    ensures
        open_address(projects, start) is Some,
{
    if open_address(projects, start) is None {
        assert forall|k: int| 0 <= k < ADDRESS_COUNT implies is_used(
            projects,
            #[trigger] candidate(start, k),
        ) by {
            if is_open(projects, start, k) {
                lemma_some_open(projects, start, k);
            }
            let n = 2 + (start + k) % 60_000;
            assert(numbered_address(n) != default_gateway_address());
        }
        lemma_used_up(projects, start, ADDRESS_COUNT as nat);
    }
}

/// There is an address for one more project in each state with fewer projects than
/// the agent has addresses.
pub proof fn small_state_leaves_an_address(slots: Seq<SlotModel>, start: int)
    requires
        slots.len() < ADDRESS_COUNT,
        start >= 0,
    ensures
        open_address(project_map(slots), start) is Some,
{
    let keys = slots.map_values(|s: SlotModel| s.key);
    let projects = project_map(slots);
    assert forall|k: Seq<char>| projects.dom().contains(k) == keys.to_set().contains(k) by {
        if has_key(slots, k) {
            let i = choose|i: int| 0 <= i < slots.len() && slots[i].key == k;
            assert(keys[i] == k);
        }
        if keys.contains(k) {
            let i = choose|i: int| 0 <= i < keys.len() && keys[i] == k;
            assert(slots[i].key == k);
        }
    }
    assert(projects.dom() =~= keys.to_set());
    vstd::seq_lib::seq_to_set_is_finite(keys);
    keys.lemma_cardinality_of_set();
    few_projects_leave_an_address(projects, start);
}

fn is_taken(state: &AgentNetworkState, ip: Ipv4Addr) -> (r: bool)
    requires
        state.wf(),
    ensures
        r == is_used(state.project_map(), ip),
{
    let ghost slots = state.slots();
    let ghost m = state.project_map();
    let mut i: usize = 0;
    while i < state.projects.len()
        invariant
            state.wf(),
            slots == state.slots(),
            m == state.project_map(),
            i <= state.projects@.len(),
            forall|j: int| 0 <= j < i ==> (#[trigger] slots[j]).project.vm_ip != ip,
        decreases state.projects@.len() - i,
    {
        proof {
            assert(slots[i as int] == state.projects@[i as int]@);
            lemma_map_at(slots, i as int);
        }
        if state.projects[i].project.vm_ip == ip {
            proof {
                assert(m.contains_key(slots[i as int].key));
            }
            return true;
        }
        i += 1;
    }
    proof {
        if is_used(m, ip) {
            let key = choose|key: Seq<char>| #[trigger] m.contains_key(key) && m[key].vm_ip == ip;
            let j = choose|j: int| 0 <= j < slots.len() && #[trigger] slots[j].key == key;
            lemma_map_at(slots, j);
        }
    }
    false
}

/// The first address that may be handed out, where the search begins at `start`.
pub fn find_open_address(state: &AgentNetworkState, start: u16) -> (r: Result<
    Ipv4Addr,
    NetworkError,
>)
    requires
        state.wf(),
    ensures
        match r {
            Ok(ip) => open_address(state.project_map(), start as int) == Some(ip),
            Err(e) => e == NetworkError::NoFreeAddress && open_address(
                state.project_map(),
                start as int,
            ) is None,
        },
{
    let ghost m = state.project_map();
    let mut offset: u32 = 0;
    while offset < ADDRESS_COUNT as u32
        invariant
            state.wf(),
            m == state.project_map(),
            offset <= ADDRESS_COUNT,
            forall|j: int| 0 <= j < offset ==> !#[trigger] is_open(m, start as int, j),
        decreases ADDRESS_COUNT - offset,
    {
        let host: u32 = 2 + (start as u32 + offset) % 60_000;
        let ip = Ipv4Addr::new(172, 31, (host / 256) as u8, (host % 256) as u8);
        proof {
            assert(ip == candidate(start as int, offset as int));
        }
        if ip != default_gateway() && !is_taken(state, ip) {
            proof {
                assert(is_open(m, start as int, offset as int));
                assert(is_first_open(m, start as int, offset as int));
                lemma_first_open(m, start as int, offset as int);
            }
            return Ok(ip);
        }
        offset += 1;
    }
    Err(NetworkError::NoFreeAddress)
}

/// Where the search for the address of a project begins.
pub open spec fn address_start(hash: nat) -> int {
    hash as int % 60_000
}

/// A free address for the project with this key.
pub fn allocate_vm_ip(state: &AgentNetworkState, key: &str) -> (r: Result<Ipv4Addr, NetworkError>)
    requires
        state.wf(),
    ensures
        match r {
            Ok(ip) => open_address(state.project_map(), address_start(hash_number(key@))) == Some(
                ip,
            ),
            Err(e) => e == NetworkError::NoFreeAddress && open_address(
                state.project_map(),
                address_start(hash_number(key@)),
            ) is None,
        },
{
    let start = hash_u16(key) % ADDRESS_COUNT;
    find_open_address(state, start)
}

/// What the agent names a project by on the host.
#[derive(Debug)]
pub struct ProjectNaming {
    pub key: String,
    pub start: u16,
    pub tap_name: String,
    pub mac_address: String,
}

pub struct NamingModel {
    pub key: Seq<char>,
    pub start: int,
    pub tap_name: Seq<char>,
    pub mac_address: Seq<char>,
}

impl View for ProjectNaming {
    type V = NamingModel;

    open spec fn view(&self) -> NamingModel {
        NamingModel {
            key: self.key@,
            start: self.start as int,
            tap_name: self.tap_name@,
            mac_address: self.mac_address@,
        }
    }
}

/// What a project is named by on the host.
pub open spec fn naming_of(project_id: Seq<char>, environment: Seq<char>) -> NamingModel {
    let key = key_of(project_id, environment);
    NamingModel {
        key,
        start: address_start(hash_number(key)),
        tap_name: tap_name_from(hash_prefix(key, 11)),
        mac_address: mac_address_from(hash_prefix(key, 10)),
    }
}

/// What a project is named by on the host.
pub fn project_naming(project_id: &str, environment: &str) -> (r: ProjectNaming)
    ensures
        r@ == naming_of(project_id@, environment@),
{
    let key = project_key(project_id, environment);
    let start = hash_u16(key.as_str()) % ADDRESS_COUNT;
    let tap_name = tap_name_for(key.as_str());
    let mac_address = mac_address_for(key.as_str());
    ProjectNaming { key, start, tap_name, mac_address }
}

/// The addresses are in one network, each number below has its own, and the number is read
/// from its last two bytes.
pub proof fn numbered_addresses_are_apart(n: int, m: int)
    requires
        0 <= n < 65_536,
        0 <= m < 65_536,
    ensures
        numbered_address(n).a == 172,
        numbered_address(n).b == 31,
        numbered_address(n).c * 256 + numbered_address(n).d == n,
        numbered_address(n) == numbered_address(m) ==> n == m,
{
}

/// The search for an address begins where it is told to, goes on one by one, comes round,
/// and looks at no address twice.
pub proof fn addresses_are_tried_in_turn(start: int, j: int, k: int)
    requires
        0 <= start < 60_000,
        0 <= j < k < 60_000,
    ensures
        candidate(start, 0) == numbered_address(start + 2),
        start + k < 60_000 ==> candidate(start, k) == numbered_address(start + k + 2),
        start + k >= 60_000 ==> candidate(start, k) == numbered_address(start + k - 60_000 + 2),
        candidate(start, j) != candidate(start, k),
{
    let x = if start + j < 60_000 {
        start + j
    } else {
        start + j - 60_000
    };
    let y = if start + k < 60_000 {
        start + k
    } else {
        start + k - 60_000
    };
    assert((start + j) % 60_000 == x);
    assert((start + k) % 60_000 == y);
    numbered_addresses_are_apart(x + 2, y + 2);
}

/// A project gets the address that its name leads to where nobody has it, and otherwise
/// the first behind it that nobody has.
pub proof fn nearest_address_is_given(projects: Map<Seq<char>, ProjectModel>, start: int, k: int)
    requires
        0 <= k < 60_000,
        candidate(start, k) != (Ipv4Addr { a: 172, b: 31, c: 0, d: 1 }),
        forall|key: Seq<char>| #[trigger]
            projects.contains_key(key) ==> projects[key].vm_ip != candidate(start, k),
        forall|j: int|
            0 <= j < k ==> (#[trigger] candidate(start, j)) == (Ipv4Addr {
                a: 172,
                b: 31,
                c: 0,
                d: 1,
            }) || exists|key: Seq<char>| #[trigger]
                projects.contains_key(key) && projects[key].vm_ip == candidate(start, j),
    ensures
        open_address(projects, start) == Some(candidate(start, k)),
{
    assert(is_open(projects, start, k));
    assert forall|j: int| #[trigger] is_open(projects, start, j) implies k <= j by {
        if j < k {
            assert(candidate(start, j) != default_gateway_address());
            assert(!is_used(projects, candidate(start, j)));
        }
    }
    lemma_first_open(projects, start, k);
}

/// The search begins at a number that is given by the name alone and is in the range.
pub proof fn search_begins_in_range(hash: nat)
    ensures
        0 <= address_start(hash) < 60_000,
        hash < 60_000 ==> address_start(hash) == hash,
        address_start(hash + 60_000) == address_start(hash),
{
}

/// The key of a project has both its names, and both are read back from it where the first
/// one holds no dash.
pub proof fn key_has_both_names(project_id: Seq<char>, environment: Seq<char>)
    ensures
        ({
            let key = key_of(project_id, environment);
            &&& crate::text::begins_with(key, segment_of(project_id))
            &&& key.skip(key.len() - segment_of(environment).len()) == segment_of(environment)
            &&& key.len() == segment_of(project_id).len() + 1 + segment_of(environment).len()
            &&& key[segment_of(project_id).len() as int] == '-'
            &&& !segment_of(project_id).contains('-') ==> crate::text::parted_first(key, '-')
                == Some((segment_of(project_id), segment_of(environment)))
            &&& crate::segment::is_segment(key)
        }),
{
    reveal_strlit("-");
    let a = segment_of(project_id);
    let b = segment_of(environment);
    let key = key_of(project_id, environment);
    assert("-"@ =~= seq!['-']);
    assert(key.take(a.len() as int) =~= a);
    assert(key.skip(key.len() - b.len()) =~= b);
    crate::text::parted_reads_back(a, b, '-');
    crate::segment::segment_is_safe(project_id);
    crate::segment::segment_is_safe(environment);
    assert(key.last() == b.last() && key[0] == a[0]);
    assert forall|i: int| 0 <= i < key.len() implies crate::segment::is_segment_char(
        #[trigger] key[i],
    ) by {
        if i < a.len() {
            assert(key[i] == a[i]);
        } else if i > a.len() {
            assert(key[i] == b[i - a.len() - 1]);
        }
    }
    assert forall|i: int| 0 <= i < key.len() - 1 implies !(#[trigger] key[i] == '-' && key[i + 1]
        == '-') by {
        if i + 1 < a.len() {
            assert(key[i] == a[i] && key[i + 1] == a[i + 1]);
        } else if i + 1 == a.len() {
            assert(key[i] == a.last());
        } else if i == a.len() {
            assert(key[i + 1] == b[0]);
        } else {
            assert(key[i] == b[i - a.len() - 1] && key[i + 1] == b[i - a.len()]);
        }
    }
}

/// The hardware address of a project begins with the bytes of the agent and goes on with
/// the first eight digits of its hash, two by two between colons; the name of its device
/// is three letters and its hash. Both are told apart by those digits.
pub proof fn names_carry_the_hash(hash: Seq<char>, other: Seq<char>)
    requires
        hash.len() >= 8,
        other.len() >= 8,
    ensures
        ({
            let mac = mac_address_from(hash);
            &&& mac.len() == 17
            &&& crate::text::begins_with(mac, "02:53:"@)
            &&& mac[6] == hash[0] && mac[7] == hash[1] && mac[8] == ':'
            &&& mac[9] == hash[2] && mac[10] == hash[3] && mac[11] == ':'
            &&& mac[12] == hash[4] && mac[13] == hash[5] && mac[14] == ':'
            &&& mac[15] == hash[6] && mac[16] == hash[7]
            &&& mac == mac_address_from(other) ==> hash.take(8) == other.take(8)
        }),
        tap_name_from(hash).len() == 3 + hash.len(),
        crate::text::begins_with(tap_name_from(hash), "stx"@),
        tap_name_from(hash).skip(3) == hash,
        tap_name_from(hash) == tap_name_from(other) ==> hash == other,
{
    reveal_strlit("02:53:");
    reveal_strlit(":");
    reveal_strlit("stx");
    let mac = mac_address_from(hash);
    let m = mac_address_from(other);
    assert(mac.take(6) =~= "02:53:"@);
    if mac == m {
        assert(m[6] == other[0] && m[7] == other[1] && m[9] == other[2] && m[10] == other[3]
            && m[12] == other[4] && m[13] == other[5] && m[15] == other[6] && m[16] == other[7]);
        assert(hash.take(8) =~= other.take(8));
    }
    assert(tap_name_from(hash).take(3) =~= "stx"@);
    assert(tap_name_from(hash).skip(3) =~= hash);
    assert(tap_name_from(other).skip(3) =~= other);
}

/// What a project is called on the network is given by its two names alone: where they
/// make the same key, all of it is the same, and each part comes of that key.
pub proof fn naming_comes_of_the_key(
    project_id: Seq<char>,
    environment: Seq<char>,
    other_id: Seq<char>,
    other_environment: Seq<char>,
)
    ensures
        naming_of(project_id, environment).key == key_of(project_id, environment),
        key_of(project_id, environment) == key_of(other_id, other_environment) ==> naming_of(
            project_id,
            environment,
        ) == naming_of(other_id, other_environment),
        naming_of(segment_of(project_id), segment_of(environment)) == naming_of(
            project_id,
            environment,
        ),
{
    crate::segment::segment_is_stable(project_id);
    crate::segment::segment_is_stable(environment);
}

} // verus!

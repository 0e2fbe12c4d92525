//! Host ports: which are taken, and which the agent hands out.
use std::collections::{BTreeMap, BTreeSet};
use vstd::prelude::*;
use vstd::string::*;

use crate::text::{
    decimal, lines, lines_of, number_of, parse_number, parted_last, pieces, rsplit_once, same,
    split, texts, trim_both, trim_with, words, words_of,
};

use super::error::NetworkError;
use super::state::{
    allocation_models, exposure_models, AgentNetworkState, AllocationModel, ExposureModel,
    ExposureState, ExposureStatus, ExposureVisibility, HostPortAllocation, RuleOwner,
};

verus! {

pub const DYNAMIC_PORT_START: u16 = 30_000;

pub const DYNAMIC_PORT_END: u16 = 39_999;

// ---------------------------------------------------------------------------
// Collections of ports
// ---------------------------------------------------------------------------

/// The ports of a set, in a list.
pub fn listed(ports: &BTreeSet<u16>) -> (r: Vec<u16>)
    ensures
        r@.to_set() == ports@,
{
    let mut r: Vec<u16> = Vec::new();
    for p in it: ports.iter()
        invariant
            it.seq().unref().to_set() == ports@,
            r@ == it.seq().unref().take(it.index()),
            it.index() == it.seq().len() ==> r@ =~= it.seq().unref(),
    {
        r.push(*p);
    }
    r
}

/// The ports that a map has allocations for, in a list.
pub fn allocated(ports: &BTreeMap<u16, HostPortAllocation>) -> (r: Vec<u16>)
    ensures
        r@.to_set() == ports@.dom(),
{
    let mut r: Vec<u16> = Vec::new();
    for p in it: ports.keys()
        invariant
            it.seq().unref().to_set() == ports@.dom(),
            r@ == it.seq().unref().take(it.index()),
            it.index() == it.seq().len() ==> r@ =~= it.seq().unref(),
    {
        r.push(*p);
    }
    r
}

/// Adds the ports of a list to a set.
pub fn add_ports(ports: &mut BTreeSet<u16>, more: &Vec<u16>)
    ensures
        final(ports)@ == old(ports)@.union(more@.to_set()),
{
    let ghost start = ports@;
    let mut i: usize = 0;
    proof {
        assert(ports@ =~= start.union(more@.take(0).to_set()));
    }
    while i < more.len()
        invariant
            i <= more@.len(),
            ports@ == start.union(more@.take(i as int).to_set()),
        decreases more@.len() - i,
    {
        let p = more[i];
        ports.insert(p);
        proof {
            let a = more@.take(i as int);
            let b = more@.take(i + 1);
            assert(b =~= a.push(p));
            assert forall|q: u16| b.contains(q) <==> (a.contains(q) || q == p) by {
                assert(b[i as int] == p);
                if a.contains(q) {
                    let j = choose|j: int| 0 <= j < a.len() && a[j] == q;
                    assert(b[j] == q);
                }
            }
            assert(ports@ =~= start.union(b.to_set()));
        }
        i += 1;
    }
    proof {
        assert(more@.take(i as int) =~= more@);
    }
}

// ---------------------------------------------------------------------------
// Ports that other programs use
// ---------------------------------------------------------------------------

/// The port behind the last colon of an address such as `0.0.0.0:22`.
pub open spec fn port_of(s: Seq<char>) -> Option<nat> {
    match parted_last(s, ':') {
        Some((_, port)) => number_of(port, 65535),
        None => None,
    }
}

/// The port behind the last colon of `value`.
pub fn parse_port(value: &str) -> (r: Option<u16>)
    ensures
        match r {
            Some(p) => port_of(value@) == Some(p as nat),
            None => port_of(value@) is None,
        },
{
    match rsplit_once(value, ':') {
        Some((_, port)) => match parse_number(port.as_str(), 65535) {
            Some(n) => Some(n as u16),
            None => None,
        },
        None => None,
    }
}

/// The set that holds the port `n` stands for, if it stands for one.
pub open spec fn maybe_port(n: Option<nat>) -> Set<u16> {
    match n {
        Some(p) => set![p as u16],
        None => Set::empty(),
    }
}

/// The local port on a line of the socket listing: it stands behind the last
/// colon of the fifth word.
pub open spec fn listening_port(line: Seq<char>) -> Option<nat> {
    let w = words_of(line);
    if w.len() > 4 {
        port_of(w[4])
    } else {
        None
    }
}

/// The local ports on the lines of a socket listing.
pub open spec fn listening_on(lines: Seq<Seq<char>>) -> Set<u16>
    decreases lines.len(),
{
    if lines.len() == 0 {
        Set::empty()
    } else {
        listening_on(lines.drop_last()).union(maybe_port(listening_port(lines.last())))
    }
}

fn collect_listening(output: &str, ports: &mut BTreeSet<u16>)
    ensures
        final(ports)@ == old(ports)@.union(listening_on(lines_of(output@))),
{
    let all = lines(output);
    let ghost ls = lines_of(output@);
    let ghost start = ports@;
    let mut i: usize = 0;
    proof {
        assert(ports@ =~= start.union(listening_on(ls.take(0))));
    }
    while i < all.len()
        invariant
            ls == texts(all@),
            i <= all@.len(),
            ports@ == start.union(listening_on(ls.take(i as int))),
        decreases all@.len() - i,
    {
        proof {
            assert(ls.take(i + 1).drop_last() =~= ls.take(i as int));
            assert(ls.take(i + 1).last() == all@[i as int]@);
        }
        let fields = words(all[i].as_str());
        if fields.len() > 4 {
            proof {
                assert(words_of(all@[i as int]@)[4] == fields@[4]@);
            }
            if let Some(p) = parse_port(fields[4].as_str()) {
                ports.insert(p);
            }
        }
        i += 1;
        proof {
            assert(ports@ =~= start.union(listening_on(ls.take(i as int))));
        }
    }
    proof {
        assert(ls.take(i as int) =~= ls);
    }
}

/// The local ports that the listings of the TCP and the UDP sockets name;
/// nothing where one of the listings could not be had.
pub fn listening_ports(tcp: Option<&str>, udp: Option<&str>) -> (r: Option<BTreeSet<u16>>)
    ensures
        match r {
            Some(ports) => tcp is Some && udp is Some && ports@ == listening_on(
                lines_of(tcp->0@),
            ).union(listening_on(lines_of(udp->0@))),
            None => tcp is None || udp is None,
        },
{
    match (tcp, udp) {
        (Some(t), Some(u)) => {
            let mut ports: BTreeSet<u16> = BTreeSet::new();
            collect_listening(t, &mut ports);
            collect_listening(u, &mut ports);
            proof {
                assert(ports@ =~= listening_on(lines_of(t@)).union(listening_on(lines_of(u@))));
            }
            Some(ports)
        },
        _ => None,
    }
}

/// The ports that a list of ports and ranges names, with a comma between
/// entries; of a range the first port counts.
pub open spec fn entry_ports(entries: Seq<Seq<char>>) -> Set<u16>
    decreases entries.len(),
{
    if entries.len() == 0 {
        Set::empty()
    } else {
        entry_ports(entries.drop_last()).union(
            maybe_port(number_of(pieces(entries.last(), '-')[0], 65535)),
        )
    }
}

/// The ports that `value` names, as a list of ports and ranges.
pub open spec fn token_ports(value: Seq<char>) -> Set<u16> {
    entry_ports(pieces(value, ','))
}

/// Adds the ports that `value` names to `ports`.
pub fn collect_port_token(value: &str, ports: &mut BTreeSet<u16>)
    ensures
        final(ports)@ == old(ports)@.union(token_ports(value@)),
{
    let entries = split(value, ',');
    let ghost es = pieces(value@, ',');
    let ghost start = ports@;
    let mut i: usize = 0;
    proof {
        assert(ports@ =~= start.union(entry_ports(es.take(0))));
    }
    while i < entries.len()
        invariant
            es == texts(entries@),
            i <= entries@.len(),
            ports@ == start.union(entry_ports(es.take(i as int))),
        decreases entries@.len() - i,
    {
        proof {
            assert(es.take(i + 1).drop_last() =~= es.take(i as int));
            assert(es.take(i + 1).last() == entries@[i as int]@);
        }
        let ends = split(entries[i].as_str(), '-');
        proof {
            assert(pieces(entries@[i as int]@, '-')[0] == ends@[0]@);
        }
        if let Some(n) = parse_number(ends[0].as_str(), 65535) {
            ports.insert(n as u16);
        }
        i += 1;
        proof {
            assert(ports@ =~= start.union(entry_ports(es.take(i as int))));
        }
    }
    proof {
        assert(es.take(i as int) =~= es);
    }
}

/// A word of a firewall listing without the punctuation around it.
pub open spec fn firewall_word(w: Seq<char>) -> Seq<char> {
    trim_both(
        trim_both(trim_both(trim_both(w, Some(',')), Some('{')), Some('}')),
        Some('"'),
    )
}

/// The words that a port follows in a firewall listing.
pub open spec fn announces_port(w: Seq<char>) -> bool {
    w == "dport"@ || w == "--dport"@ || w == "--to-port"@ || w == "--to-ports"@
}

/// The ports that a word names behind its last colon.
pub open spec fn ports_behind_colon(w: Seq<char>) -> Set<u16> {
    match parted_last(w, ':') {
        Some((_, port)) => token_ports(port),
        None => Set::empty(),
    }
}

/// The ports that the words of a firewall listing name: a word behind one that
/// announces a port, and what stands behind the last colon of a word.
pub open spec fn firewall_words_ports(words: Seq<Seq<char>>) -> Set<u16>
    decreases words.len(),
{
    if words.len() == 0 {
        Set::empty()
    } else {
        let w = firewall_word(words.last());
        let named = if words.len() > 1 && announces_port(firewall_word(words[words.len() - 2])) {
            token_ports(w)
        } else {
            Set::empty()
        };
        firewall_words_ports(words.drop_last()).union(named).union(ports_behind_colon(w))
    }
}

/// The ports that a firewall listing names.
pub fn parse_firewall_ports(output: &str) -> (r: BTreeSet<u16>)
    ensures
        r@ == firewall_words_ports(words_of(output@)),
{
    let tokens = words(output);
    let ghost ws = words_of(output@);
    let mut ports: BTreeSet<u16> = BTreeSet::new();
    let mut previous = String::new();
    let mut i: usize = 0;
    proof {
        assert(ports@ =~= firewall_words_ports(ws.take(0)));
    }
    while i < tokens.len()
        invariant
            ws == texts(tokens@),
            i <= tokens@.len(),
            i == 0 ==> previous@.len() == 0,
            i > 0 ==> previous@ == firewall_word(ws[i - 1]),
            ports@ == firewall_words_ports(ws.take(i as int)),
        decreases tokens@.len() - i,
    {
        proof {
            assert(ws.take(i + 1).drop_last() =~= ws.take(i as int));
            assert(ws.take(i + 1).last() == tokens@[i as int]@);
            if i > 0 {
                assert(ws.take(i + 1)[i - 1] == ws[i - 1]);
            }
            reveal_strlit("dport");
            reveal_strlit("--dport");
            reveal_strlit("--to-port");
            reveal_strlit("--to-ports");
        }
        let a = trim_with(tokens[i].as_str(), Some(','));
        let b = trim_with(a.as_str(), Some('{'));
        let c = trim_with(b.as_str(), Some('}'));
        let trimmed = trim_with(c.as_str(), Some('"'));
        let p = previous.as_str();
        if same(p, "dport") || same(p, "--dport") || same(p, "--to-port") || same(
            p,
            "--to-ports",
        ) {
            collect_port_token(trimmed.as_str(), &mut ports);
        }
        if let Some((_, port)) = rsplit_once(trimmed.as_str(), ':') {
            collect_port_token(port.as_str(), &mut ports);
        }
        previous = trimmed;
        i += 1;
        proof {
            assert(ports@ =~= firewall_words_ports(ws.take(i as int)));
        }
    }
    proof {
        assert(ws.take(i as int) =~= ws);
    }
    ports
}

/// The ports that a firewall listing names, if it could be had.
pub open spec fn ruleset_ports(output: Option<Seq<char>>) -> Set<u16> {
    match output {
        Some(text) => firewall_words_ports(words_of(text)),
        None => Set::empty(),
    }
}

/// The ports that the two firewall listings name; a listing that could not be
/// had names none.
pub fn firewall_ports(nft: Option<&str>, iptables: Option<&str>) -> (r: BTreeSet<u16>)
    ensures
        r@ == ruleset_ports(crate::text::str_of(nft)).union(
            ruleset_ports(crate::text::str_of(iptables)),
        ),
{
    let mut ports: BTreeSet<u16> = BTreeSet::new();
    if let Some(output) = nft {
        let found = parse_firewall_ports(output);
        let list = listed(&found);
        add_ports(&mut ports, &list);
    }
    if let Some(output) = iptables {
        let found = parse_firewall_ports(output);
        let list = listed(&found);
        add_ports(&mut ports, &list);
    }
    proof {
        assert(ports@ =~= ruleset_ports(crate::text::str_of(nft)).union(
            ruleset_ports(crate::text::str_of(iptables)),
        ));
    }
    ports
}

/// The ports that other programs use: those that are listened on, as far as
/// that is known, and those that the firewall names.
pub fn busy_ports(listening: Option<BTreeSet<u16>>, firewall: BTreeSet<u16>) -> (r: BTreeSet<u16>)
    ensures
        r@ == firewall@.union(
            match listening {
                Some(l) => l@,
                None => Set::empty(),
            },
        ),
{
    let mut r = firewall;
    match listening {
        Some(l) => {
            let list = listed(&l);
            add_ports(&mut r, &list);
        },
        None => {
            proof {
                assert(r@ =~= r@.union(Set::empty()));
            }
        },
    }
    r
}

// ---------------------------------------------------------------------------
// Ports that the agent may not hand out
// ---------------------------------------------------------------------------

/// The ports that the agent never touches.
pub open spec fn reserved_ports() -> Set<u16> {
    set![
        22u16,
        53u16,
        80u16,
        443u16,
        2375u16,
        2376u16,
        5432u16,
        3306u16,
        6379u16,
        6443u16,
        10250u16,
    ]
}

fn reserved() -> (r: BTreeSet<u16>)
    ensures
        r@ == reserved_ports(),
{
    let mut r: BTreeSet<u16> = BTreeSet::new();
    r.insert(22);
    r.insert(53);
    r.insert(80);
    r.insert(443);
    r.insert(2375);
    r.insert(2376);
    r.insert(5432);
    r.insert(3306);
    r.insert(6379);
    r.insert(6443);
    r.insert(10250);
    r
}

/// The ports that the agent may not hand out now: the reserved ones, those it
/// has handed out, and those that other programs use.
pub fn blocked_ports(state: &AgentNetworkState, busy: &BTreeSet<u16>) -> (r: BTreeSet<u16>)
    ensures
        r@ == reserved_ports().union(state.port_map().dom()).union(busy@),
{
    blocked_by(&state.allocated_host_ports, busy)
}

fn blocked_by(
    ports: &BTreeMap<u16, HostPortAllocation>,
    busy: &BTreeSet<u16>,
) -> (r: BTreeSet<u16>)
    ensures
        r@ == reserved_ports().union(allocation_models(ports@).dom()).union(busy@),
{
    let mut r = reserved();
    let taken = allocated(ports);
    add_ports(&mut r, &taken);
    let used = listed(busy);
    add_ports(&mut r, &used);
    proof {
        assert(r@ =~= reserved_ports().union(allocation_models(ports@).dom()).union(busy@));
    }
    r
}

// ---------------------------------------------------------------------------
// Handing out ports
// ---------------------------------------------------------------------------

/// Whether an allocation is the one of a project for a target port.
pub open spec fn claims(
    a: AllocationModel,
    key: Seq<char>,
    protocol: Seq<char>,
    target_port: u16,
) -> bool {
    a.project_key == key && a.protocol == protocol && a.target_port == target_port
}

/// Whether `p` is handed out to a project for a target port.
pub open spec fn holds_claim(
    ports: Map<u16, AllocationModel>,
    key: Seq<char>,
    protocol: Seq<char>,
    target_port: u16,
    p: u16,
) -> bool {
    ports.contains_key(p) && claims(ports[p], key, protocol, target_port)
}

/// Whether `p` is the lowest port handed out to a project for a target port.
pub open spec fn is_claimed(
    ports: Map<u16, AllocationModel>,
    key: Seq<char>,
    protocol: Seq<char>,
    target_port: u16,
    p: u16,
) -> bool {
    holds_claim(ports, key, protocol, target_port, p) && forall|q: u16|
        #[trigger] holds_claim(ports, key, protocol, target_port, q) ==> p <= q
}

/// The lowest port handed out to a project for a target port.
pub open spec fn claimed_port(
    ports: Map<u16, AllocationModel>,
    key: Seq<char>,
    protocol: Seq<char>,
    target_port: u16,
) -> Option<u16> {
    if exists|p: u16| is_claimed(ports, key, protocol, target_port, p) {
        Some(choose|p: u16| is_claimed(ports, key, protocol, target_port, p))
    } else {
        None
    }
}

/// Whether the agent may hand out `p`.
pub open spec fn is_free(ports: Map<u16, AllocationModel>, busy: Set<u16>, p: u16) -> bool {
    DYNAMIC_PORT_START <= p <= DYNAMIC_PORT_END && !reserved_ports().contains(p)
        && !ports.contains_key(p) && !busy.contains(p)
}

/// Whether `p` is the lowest port that the agent may hand out.
pub open spec fn is_first_free(ports: Map<u16, AllocationModel>, busy: Set<u16>, p: u16) -> bool {
    is_free(ports, busy, p) && forall|q: u16| #[trigger] is_free(ports, busy, q) ==> p <= q
}

/// The lowest port that the agent may hand out.
pub open spec fn free_port(ports: Map<u16, AllocationModel>, busy: Set<u16>) -> Option<u16> {
    if exists|p: u16| is_free(ports, busy, p) {
        Some(choose|p: u16| is_first_free(ports, busy, p))
    } else {
        None
    }
}

/// The allocation of `p` to a project.
pub open spec fn allocation(
    key: Seq<char>,
    protocol: Seq<char>,
    target_port: u16,
    p: u16,
) -> AllocationModel {
    AllocationModel { project_key: key, port: p, protocol, target_port, owner: "statix-agent"@ }
}

/// The lowest free port, handed out to a project, and the ports then handed out.
pub open spec fn newly_granted(
    ports: Map<u16, AllocationModel>,
    busy: Set<u16>,
    key: Seq<char>,
    protocol: Seq<char>,
    target_port: u16,
) -> Option<(u16, Map<u16, AllocationModel>)> {
    match free_port(ports, busy) {
        Some(p) => Some((p, ports.insert(p, allocation(key, protocol, target_port, p)))),
        None => None,
    }
}

/// The port that a project gets for a target port, and the ports then handed
/// out: the one it has already, else the lowest free one.
pub open spec fn granted(
    ports: Map<u16, AllocationModel>,
    busy: Set<u16>,
    key: Seq<char>,
    protocol: Seq<char>,
    target_port: u16,
) -> Option<(u16, Map<u16, AllocationModel>)> {
    match claimed_port(ports, key, protocol, target_port) {
        Some(p) => Some((p, ports)),
        None => newly_granted(ports, busy, key, protocol, target_port),
    }
}

pub proof fn lemma_claimed(
    ports: Map<u16, AllocationModel>,
    key: Seq<char>,
    protocol: Seq<char>,
    target_port: u16,
    p: u16,
)
    requires
        is_claimed(ports, key, protocol, target_port, p),
    ensures
        claimed_port(ports, key, protocol, target_port) == Some(p),
{
    let c = choose|c: u16| is_claimed(ports, key, protocol, target_port, c);
    assert(holds_claim(ports, key, protocol, target_port, c));
    assert(holds_claim(ports, key, protocol, target_port, p));
}

pub proof fn lemma_first_free(ports: Map<u16, AllocationModel>, busy: Set<u16>, p: u16)
    requires
        is_first_free(ports, busy, p),
    ensures
        free_port(ports, busy) == Some(p),
{
    let c = choose|c: u16| is_first_free(ports, busy, c);
    assert(is_free(ports, busy, c));
    assert(is_free(ports, busy, p));
}

proof fn lemma_some_first(ports: Map<u16, AllocationModel>, busy: Set<u16>, p: u16)
    requires
        is_free(ports, busy, p),
    ensures
        exists|q: u16| is_first_free(ports, busy, q),
    decreases p,
{
    if !is_first_free(ports, busy, p) {
        let q = choose|q: u16| #[trigger] is_free(ports, busy, q) && q < p;
        lemma_some_first(ports, busy, q);
    }
}

/// The lowest free port is free, and no lower port is.
pub proof fn lemma_free_port(ports: Map<u16, AllocationModel>, busy: Set<u16>)
    ensures
        match free_port(ports, busy) {
            Some(p) => is_first_free(ports, busy, p),
            None => forall|p: u16| !is_free(ports, busy, p),
        },
{
    if free_port(ports, busy) is Some {
        lemma_some_first(ports, busy, choose|p: u16| is_free(ports, busy, p));
    }
}

/// Where some port is handed out for a target port, there is a lowest such port.
pub proof fn lemma_some_claimed(
    ports: Map<u16, AllocationModel>,
    key: Seq<char>,
    protocol: Seq<char>,
    target_port: u16,
    p: u16,
)
    requires
        holds_claim(ports, key, protocol, target_port, p),
    ensures
        claimed_port(ports, key, protocol, target_port) is Some,
    decreases p,
{
    if !is_claimed(ports, key, protocol, target_port, p) {
        let q = choose|q: u16| #[trigger] holds_claim(ports, key, protocol, target_port, q) && q < p;
        lemma_some_claimed(ports, key, protocol, target_port, q);
    }
}

fn find_claim(
    ports: &BTreeMap<u16, HostPortAllocation>,
    key: &str,
    protocol: &str,
    target_port: u16,
) -> (r: Option<u16>)
    ensures
        r == claimed_port(allocation_models(ports@), key@, protocol@, target_port),
{
    let taken = allocated(ports);
    let ghost m = allocation_models(ports@);
    let mut best: Option<u16> = None;
    let mut i: usize = 0;
    while i < taken.len()
        invariant
            m == allocation_models(ports@),
            taken@.to_set() == ports@.dom(),
            i <= taken@.len(),
            match best {
                Some(b) => holds_claim(m, key@, protocol@, target_port, b) && forall|j: int|
                    0 <= j < i && holds_claim(m, key@, protocol@, target_port, #[trigger] taken@[j])
                        ==> b <= taken@[j],
                None => forall|j: int|
                    0 <= j < i ==> !holds_claim(
                        m,
                        key@,
                        protocol@,
                        target_port,
                        #[trigger] taken@[j],
                    ),
            },
        decreases taken@.len() - i,
    {
        let p = taken[i];
        proof {
            assert(taken@.to_set().contains(p));
        }
        if let Some(a) = ports.get(&p) {
            proof {
                assert(m[p] == a@);
            }
            if same(a.project_key.as_str(), key) && same(a.protocol.as_str(), protocol)
                && a.target_port == target_port {
                best = match best {
                    Some(b) => if b <= p {
                        Some(b)
                    } else {
                        Some(p)
                    },
                    None => Some(p),
                };
            }
        }
        i += 1;
    }
    proof {
        assert forall|q: u16| m.contains_key(q) implies exists|j: int|
            0 <= j < taken@.len() && taken@[j] == q by {
            assert(taken@.to_set().contains(q));
        }
        match best {
            Some(b) => {
                assert(is_claimed(m, key@, protocol@, target_port, b)) by {
                    assert forall|q: u16| #[trigger]
                        holds_claim(m, key@, protocol@, target_port, q) implies b <= q by {
                        let j = choose|j: int| 0 <= j < taken@.len() && taken@[j] == q;
                        assert(taken@[j] == q);
                    }
                }
                lemma_claimed(m, key@, protocol@, target_port, b);
            },
            None => {
                assert forall|q: u16| !holds_claim(m, key@, protocol@, target_port, q) by {
                    if m.contains_key(q) {
                        let j = choose|j: int| 0 <= j < taken@.len() && taken@[j] == q;
                        assert(taken@[j] == q);
                    }
                }
            },
        }
    }
    best
}

fn grant_new(
    ports: &mut BTreeMap<u16, HostPortAllocation>,
    busy: &BTreeSet<u16>,
    key: &str,
    protocol: &str,
    target_port: u16,
) -> (r: Result<u16, NetworkError>)
    ensures
        match r {
            Ok(p) => newly_granted(
                allocation_models(old(ports)@),
                busy@,
                key@,
                protocol@,
                target_port,
            ) == Some((p, allocation_models(final(ports)@))),
            Err(e) => e == NetworkError::NoFreePort && free_port(
                allocation_models(old(ports)@),
                busy@,
            ) is None && final(ports)@ == old(ports)@,
        },
{
    let ghost m = allocation_models(ports@);
    let blocked = blocked_by(ports, busy);
    let mut port: u16 = DYNAMIC_PORT_START;
    while port <= DYNAMIC_PORT_END
        invariant
            m == allocation_models(ports@),
            ports@ == old(ports)@,
            blocked@ == reserved_ports().union(m.dom()).union(busy@),
            DYNAMIC_PORT_START <= port <= DYNAMIC_PORT_END + 1,
            forall|q: u16| q < port ==> !is_free(m, busy@, q),
        decreases DYNAMIC_PORT_END + 1 - port,
    {
        if !blocked.contains(&port) {
            proof {
                assert(is_free(m, busy@, port));
                assert(is_first_free(m, busy@, port));
                lemma_first_free(m, busy@, port);
            }
            let a = HostPortAllocation {
                project_key: key.to_owned(),
                port,
                protocol: protocol.to_owned(),
                target_port,
                owner: RuleOwner::statix(),
            };
            ports.insert(port, a);
            proof {
                assert(allocation_models(ports@) =~= m.insert(
                    port,
                    allocation(key@, protocol@, target_port, port),
                ));
            }
            return Ok(port);
        }
        port += 1;
    }
    Err(NetworkError::NoFreePort)
}

fn grant(
    ports: &mut BTreeMap<u16, HostPortAllocation>,
    busy: &BTreeSet<u16>,
    key: &str,
    protocol: &str,
    target_port: u16,
) -> (r: Result<u16, NetworkError>)
    ensures
        match r {
            Ok(p) => granted(allocation_models(old(ports)@), busy@, key@, protocol@, target_port)
                == Some((p, allocation_models(final(ports)@))),
            Err(e) => e == NetworkError::NoFreePort && granted(
                allocation_models(old(ports)@),
                busy@,
                key@,
                protocol@,
                target_port,
            ) is None && final(ports)@ == old(ports)@,
        },
{
    match find_claim(ports, key, protocol, target_port) {
        Some(p) => Ok(p),
        None => grant_new(ports, busy, key, protocol, target_port),
    }
}

/// Gives a project a host port for a target port: the one it has already, else
/// the lowest free one.
pub fn allocate_managed_port_for(
    state: &mut AgentNetworkState,
    busy: &BTreeSet<u16>,
    project_key: &str,
    protocol: &str,
    target_port: u16,
) -> (r: Result<u16, NetworkError>)
    ensures
        final(state).version == old(state).version,
        final(state).bridge == old(state).bridge,
        final(state).projects == old(state).projects,
        match r {
            Ok(p) => granted(old(state).port_map(), busy@, project_key@, protocol@, target_port)
                == Some((p, final(state).port_map())),
            Err(e) => e == NetworkError::NoFreePort && granted(
                old(state).port_map(),
                busy@,
                project_key@,
                protocol@,
                target_port,
            ) is None && final(state).port_map() == old(state).port_map(),
        },
{
    grant(&mut state.allocated_host_ports, busy, project_key, protocol, target_port)
}

/// Gives a project the lowest free host port, for no target port yet.
pub fn allocate_fresh_port(
    state: &mut AgentNetworkState,
    busy: &BTreeSet<u16>,
    project_key: &str,
    protocol: &str,
) -> (r: Result<u16, NetworkError>)
    ensures
        final(state).version == old(state).version,
        final(state).bridge == old(state).bridge,
        final(state).projects == old(state).projects,
        match r {
            Ok(p) => newly_granted(old(state).port_map(), busy@, project_key@, protocol@, 0)
                == Some((p, final(state).port_map())),
            Err(e) => e == NetworkError::NoFreePort && free_port(
                old(state).port_map(),
                busy@,
            ) is None && final(state).port_map() == old(state).port_map(),
        },
{
    grant_new(&mut state.allocated_host_ports, busy, project_key, protocol, 0)
}

// ---------------------------------------------------------------------------
// The ports of the exposures of a project
// ---------------------------------------------------------------------------

/// Whether an exposure is served through a host port of the agent's choice.
pub open spec fn is_managed(e: ExposureModel) -> bool {
    e.status == ExposureStatus::Active && e.visibility != ExposureVisibility::Public
}

/// The exposures with the host ports that they get, and the ports then handed
/// out. There is no result where a port is needed and none is free.
pub open spec fn assigned(
    ports: Map<u16, AllocationModel>,
    busy: Set<u16>,
    key: Seq<char>,
    exposures: Seq<ExposureModel>,
) -> Option<(Map<u16, AllocationModel>, Seq<ExposureModel>)>
    decreases exposures.len(),
{
    if exposures.len() == 0 {
        Some((ports, exposures))
    } else {
        let e = exposures.last();
        match assigned(ports, busy, key, exposures.drop_last()) {
            Some((m, done)) => if is_managed(e) {
                match granted(m, busy, key, "tcp"@, e.target_port) {
                    Some((p, n)) => Some(
                        (n, done.push(ExposureModel { host_port: Some(p), ..e })),
                    ),
                    None => None,
                }
            } else {
                Some((m, done.push(e)))
            },
            None => None,
        }
    }
}

/// Where not all of the exposures can be served, the prefixes that could not be
/// served settle it.
proof fn lemma_assigned_prefix(
    ports: Map<u16, AllocationModel>,
    busy: Set<u16>,
    key: Seq<char>,
    exposures: Seq<ExposureModel>,
    i: int,
)
    requires
        0 <= i <= exposures.len(),
        assigned(ports, busy, key, exposures.take(i)) is None,
    ensures
        assigned(ports, busy, key, exposures) is None,
    decreases exposures.len(),
{
    if i == exposures.len() {
        assert(exposures.take(i) =~= exposures);
    } else {
        assert(exposures.drop_last().take(i) =~= exposures.take(i));
        lemma_assigned_prefix(ports, busy, key, exposures.drop_last(), i);
    }
}

/// Gives the exposures of a project their host ports.
pub(crate) fn assign_host_ports(
    ports: &mut BTreeMap<u16, HostPortAllocation>,
    busy: &BTreeSet<u16>,
    key: &str,
    exposures: &mut Vec<ExposureState>,
) -> (r: Result<(), NetworkError>)
    ensures
        match r {
            Ok(_) => assigned(
                allocation_models(old(ports)@),
                busy@,
                key@,
                exposure_models(old(exposures)@),
            ) == Some((allocation_models(final(ports)@), exposure_models(final(exposures)@))),
            Err(e) => e == NetworkError::NoFreePort && assigned(
                allocation_models(old(ports)@),
                busy@,
                key@,
                exposure_models(old(exposures)@),
            ) is None,
        },
{
    let ghost m = allocation_models(ports@);
    let ghost es = exposure_models(exposures@);
    let n = exposures.len();
    let mut i: usize = 0;
    proof {
        assert(es.take(0) =~= Seq::<ExposureModel>::empty());
        assert(exposure_models(exposures@).take(0) =~= Seq::<ExposureModel>::empty());
    }
    while i < n
        invariant
            m == allocation_models(old(ports)@),
            es == exposure_models(old(exposures)@),
            n == exposures@.len(),
            n == es.len(),
            i <= n,
            forall|j: int| i <= j < n ==> #[trigger] exposures@[j] == old(exposures)@[j],
            assigned(m, busy@, key@, es.take(i as int)) == Some(
                (
                    allocation_models(ports@),
                    exposure_models(exposures@).take(i as int),
                ),
            ),
        decreases n - i,
    {
        let ghost before = exposure_models(exposures@);
        proof {
            assert(es.take(i + 1).drop_last() =~= es.take(i as int));
            assert(es.take(i + 1).last() == exposures@[i as int]@);
        }
        let managed = exposures[i].status == ExposureStatus::Active && exposures[i].visibility
            != ExposureVisibility::Public;
        if managed {
            let target = exposures[i].target_port;
            match grant(ports, busy, key, "tcp", target) {
                Ok(p) => {
                    exposures[i].host_port = Some(p);
                },
                Err(e) => {
                    proof {
                        assert(assigned(m, busy@, key@, es.take(i + 1)) is None);
                        lemma_assigned_prefix(m, busy@, key@, es, i + 1);
                    }
                    return Err(e);
                },
            }
        }
        i += 1;
        proof {
            let after = exposure_models(exposures@);
            assert(after.take(i as int) =~= before.take(i - 1).push(after[i - 1]));
        }
    }
    proof {
        assert(es.take(n as int) =~= es);
        assert(exposure_models(exposures@).take(n as int) =~= exposure_models(exposures@));
    }
    Ok(())
}

/// The protocols and target ports of the exposures that are served through a
/// host port of the agent's choice.
pub open spec fn active_claims(exposures: Seq<ExposureModel>) -> Seq<(Seq<char>, u16)>
    decreases exposures.len(),
{
    if exposures.len() == 0 {
        Seq::empty()
    } else {
        let init = active_claims(exposures.drop_last());
        if is_managed(exposures.last()) {
            init.push(("tcp"@, exposures.last().target_port))
        } else {
            init
        }
    }
}

/// Which exposures need a port depends on nothing that a port assignment
/// changes.
pub proof fn lemma_claims_kept(
    ports: Map<u16, AllocationModel>,
    busy: Set<u16>,
    key: Seq<char>,
    exposures: Seq<ExposureModel>,
)
    requires
        assigned(ports, busy, key, exposures) is Some,
    ensures
        assigned(ports, busy, key, exposures).unwrap().1.len() == exposures.len(),
        active_claims(assigned(ports, busy, key, exposures).unwrap().1) == active_claims(exposures),
    decreases exposures.len(),
{
    if exposures.len() > 0 {
        let init = exposures.drop_last();
        lemma_claims_kept(ports, busy, key, init);
        let done = assigned(ports, busy, key, init).unwrap().1;
        let all = assigned(ports, busy, key, exposures).unwrap().1;
        assert(all.drop_last() =~= done);
    }
}

/// The protocols and target ports of an executable list.
pub open spec fn claim_models(v: Seq<(String, u16)>) -> Seq<(Seq<char>, u16)> {
    Seq::new(v.len(), |i: int| (v[i].0@, v[i].1))
}

pub(crate) fn collect_active_claims(exposures: &Vec<ExposureState>) -> (r: Vec<(String, u16)>)
    ensures
        claim_models(r@) == active_claims(exposure_models(exposures@)),
{
    let ghost es = exposure_models(exposures@);
    let mut r: Vec<(String, u16)> = Vec::new();
    let mut i: usize = 0;
    proof {
        assert(claim_models(r@) =~= active_claims(es.take(0)));
    }
    while i < exposures.len()
        invariant
            es == exposure_models(exposures@),
            i <= exposures@.len(),
            claim_models(r@) == active_claims(es.take(i as int)),
        decreases exposures@.len() - i,
    {
        proof {
            assert(es.take(i + 1).drop_last() =~= es.take(i as int));
            assert(es.take(i + 1).last() == exposures@[i as int]@);
        }
        if exposures[i].status == ExposureStatus::Active && exposures[i].visibility
            != ExposureVisibility::Public {
            let ghost before = r@;
            r.push(("tcp".to_string(), exposures[i].target_port));
            proof {
                assert(claim_models(r@) =~= claim_models(before).push(
                    ("tcp"@, exposures@[i as int].target_port),
                ));
            }
        }
        i += 1;
    }
    proof {
        assert(es.take(i as int) =~= es);
    }
    r
}

/// Whether the release of a project's unused ports keeps `p`.
pub open spec fn survives(
    ports: Map<u16, AllocationModel>,
    key: Seq<char>,
    active: Seq<(Seq<char>, u16)>,
    p: u16,
) -> bool {
    ports.contains_key(p) && (ports[p].project_key != key || active.contains(
        (ports[p].protocol, ports[p].target_port),
    ))
}

/// The ports without those of a project that it no longer uses.
pub open spec fn released(
    ports: Map<u16, AllocationModel>,
    key: Seq<char>,
    active: Seq<(Seq<char>, u16)>,
) -> Map<u16, AllocationModel> {
    Map::new(|p: u16| survives(ports, key, active, p), |p: u16| ports[p])
}

fn is_active(active: &Vec<(String, u16)>, protocol: &str, target_port: u16) -> (r: bool)
    ensures
        r == claim_models(active@).contains((protocol@, target_port)),
{
    let ghost want = (protocol@, target_port);
    let mut i: usize = 0;
    while i < active.len()
        invariant
            want == (protocol@, target_port),
            i <= active@.len(),
            forall|j: int| 0 <= j < i ==> #[trigger] claim_models(active@)[j] != want,
        decreases active@.len() - i,
    {
        if active[i].1 == target_port && same(active[i].0.as_str(), protocol) {
            proof {
                assert(claim_models(active@)[i as int] == want);
            }
            return true;
        }
        proof {
            assert(claim_models(active@)[i as int] == (
                active@[i as int].0@,
                active@[i as int].1,
            ));
        }
        i += 1;
    }
    false
}

/// Takes back the ports of a project that it no longer uses.
pub fn release_unused_host_ports(
    ports: &mut BTreeMap<u16, HostPortAllocation>,
    project_key: &str,
    active_ports: &Vec<(String, u16)>,
)
    ensures
        allocation_models(final(ports)@) == released(
            allocation_models(old(ports)@),
            project_key@,
            claim_models(active_ports@),
        ),
{
    let ghost m = allocation_models(ports@);
    let ghost active = claim_models(active_ports@);
    let ghost raw = ports@;
    let taken = allocated(ports);
    let mut i: usize = 0;
    while i < taken.len()
        invariant
            raw == old(ports)@,
            m == allocation_models(raw),
            active == claim_models(active_ports@),
            taken@.to_set() == raw.dom(),
            i <= taken@.len(),
            ports@.submap_of(raw),
            forall|p: u16| #[trigger] raw.contains_key(p) ==> (ports@.contains_key(p) <==> (survives(
                m,
                project_key@,
                active,
                p,
            ) || !taken@.take(i as int).contains(p))),
        decreases taken@.len() - i,
    {
        let p = taken[i];
        proof {
            assert(taken@.to_set().contains(p));
            assert(raw.contains_key(p));
        }
        let drop_it = match ports.get(&p) {
            Some(a) => {
                proof {
                    assert(raw[p] == *a);
                    assert(m[p] == a@);
                }
                same(a.project_key.as_str(), project_key) && !is_active(
                    active_ports,
                    a.protocol.as_str(),
                    a.target_port,
                )
            },
            None => false,
        };
        if drop_it {
            ports.remove(&p);
        }
        proof {
            assert forall|q: u16| #[trigger] raw.contains_key(q) implies (ports@.contains_key(q)
                <==> (survives(m, project_key@, active, q) || !taken@.take(i + 1).contains(q))) by {
                let a = taken@.take(i as int);
                let b = taken@.take(i + 1);
                assert(b =~= a.push(p));
                assert(b.contains(q) <==> (a.contains(q) || q == p)) by {
                    assert(b[i as int] == p);
                    if a.contains(q) {
                        let j = choose|j: int| 0 <= j < a.len() && a[j] == q;
                        assert(b[j] == q);
                    }
                }
            }
        }
        i += 1;
    }
    proof {
        assert(taken@.take(i as int) =~= taken@);
        let want = released(m, project_key@, active);
        let got = allocation_models(ports@);
        assert forall|p: u16| got.contains_key(p) <==> want.contains_key(p) by {
            if raw.contains_key(p) {
                assert(taken@.to_set().contains(p));
            }
        }
        assert(got =~= want);
    }
}

// ---------------------------------------------------------------------------
// What is read of ports
// ---------------------------------------------------------------------------

proof fn lemma_decimal_plain(n: nat)
    ensures
        decimal(n).len() > 0,
        forall|i: int| 0 <= i < decimal(n).len() ==> '0' <= #[trigger] decimal(n)[i] <= '9',
        forall|c: char| !('0' <= c <= '9') ==> !#[trigger] decimal(n).contains(c),
{
    crate::text::decimal_reads_back(n);
    assert forall|i: int| 0 <= i < decimal(n).len() implies '0' <= #[trigger] decimal(n)[i]
        <= '9' by {
        assert(crate::text::is_digit(decimal(n)[i]));
        crate::text::characters_are_told_apart(decimal(n)[i]);
    }
}

/// The port of an address is what stands behind its last colon; without a colon there is
/// none.
pub proof fn port_stands_behind_the_last_colon(host: Seq<char>, p: u16)
    ensures
        port_of(host + seq![':'] + decimal(p as nat)) == Some(p as nat),
        !host.contains(':') ==> port_of(host) is None,
{
    let d = decimal(p as nat);
    lemma_decimal_plain(p as nat);
    crate::text::decimal_reads_back(p as nat);
    crate::text::parted_reads_back(host, d, ':');
    assert(number_of(d, 65535) == Some(p as nat));
    crate::text::parted_at_the_last(host, ':');
    if !host.contains(':') && parted_last(host, ':') is Some {
        let (a, b) = parted_last(host, ':').unwrap();
        assert(host[a.len() as int] == ':');
    }
}

/// A line about a socket tells its port in the fifth word; a shorter line tells none.
pub proof fn fifth_word_has_the_port(
    front: Seq<char>,
    address: Seq<char>,
    back: Seq<char>,
)
    requires
        words_of(front).len() == 4,
        address.len() > 0,
        forall|i: int| 0 <= i < address.len() ==> !crate::text::is_white(#[trigger] address[i]),
    ensures
        listening_port(front + seq![' '] + address + seq![' '] + back) == port_of(address),
        listening_port(front) is None,
{
    crate::text::characters_are_told_apart(' ');
    crate::text::unbroken_text_is_a_word(address);
    crate::text::white_space_parts_words(front, ' ', address);
    crate::text::white_space_parts_words(front + seq![' '] + address, ' ', back);
    let w = words_of(front + seq![' '] + address + seq![' '] + back);
    assert(w == words_of(front) + seq![address] + words_of(back));
    assert(w[4] == address);
}

/// A port is in use exactly where some line tells it.
pub proof fn ports_in_use_are_told(lines: Seq<Seq<char>>, p: u16)
    ensures
        listening_on(lines).contains(p) <==> exists|i: int|
            0 <= i < lines.len() && #[trigger] listening_port(lines[i]) == Some(p as nat),
    decreases lines.len(),
{
    if lines.len() > 0 {
        let init = lines.drop_last();
        ports_in_use_are_told(init, p);
        let last = lines.last();
        assert(lines[lines.len() - 1] == last);
        lemma_told_port(last, p);
        if listening_on(lines).contains(p) {
            if listening_on(init).contains(p) {
                let i = choose|i: int|
                    0 <= i < init.len() && #[trigger] listening_port(init[i]) == Some(p as nat);
                assert(listening_port(lines[i]) == Some(p as nat));
            } else {
                assert(listening_port(lines[lines.len() - 1]) == Some(p as nat));
            }
        }
        if exists|i: int|
            0 <= i < lines.len() && #[trigger] listening_port(lines[i]) == Some(p as nat) {
            let i = choose|i: int|
                0 <= i < lines.len() && #[trigger] listening_port(lines[i]) == Some(p as nat);
            if i < init.len() {
                assert(listening_port(init[i]) == Some(p as nat));
            }
        }
    }
}

proof fn lemma_told_port(line: Seq<char>, p: u16)
    ensures
        maybe_port(listening_port(line)).contains(p) <==> listening_port(line) == Some(p as nat),
{
    let w = words_of(line);
    if w.len() > 4 && parted_last(w[4], ':') is Some {
        crate::text::lemma_number_bound(parted_last(w[4], ':').unwrap().1, 65535);
    }
}

/// That an entry of a list of ports begins with this port.
pub open spec fn names_port(entry: Seq<char>, p: u16) -> bool {
    number_of(pieces(entry, '-')[0], 65535) == Some(p as nat)
}

proof fn lemma_entry_ports(entries: Seq<Seq<char>>, p: u16)
    ensures
        entry_ports(entries).contains(p) <==> exists|i: int|
            0 <= i < entries.len() && names_port(#[trigger] entries[i], p),
    decreases entries.len(),
{
    if entries.len() > 0 {
        let init = entries.drop_last();
        let last = entries.last();
        lemma_entry_ports(init, p);
        assert(entries[entries.len() - 1] == last);
        crate::text::lemma_number_bound(pieces(last, '-')[0], 65535);
        assert(maybe_port(number_of(pieces(last, '-')[0], 65535)).contains(p) <==> names_port(
            last,
            p,
        ));
        if entry_ports(init).contains(p) {
            let i = choose|i: int| 0 <= i < init.len() && names_port(#[trigger] init[i], p);
            assert(names_port(entries[i], p));
        }
        if exists|i: int| 0 <= i < entries.len() && names_port(#[trigger] entries[i], p) {
            let i = choose|i: int| 0 <= i < entries.len() && names_port(#[trigger] entries[i], p);
            if i < init.len() {
                assert(names_port(init[i], p));
            }
        }
    }
}

/// A list of ports, with commas between them, names these ports: each number that stands
/// for itself, and of a range the first.
pub proof fn listed_ports_are_read(entries: Seq<Seq<char>>, p: u16)
    requires
        entries.len() > 0,
        forall|i: int| 0 <= i < entries.len() ==> !(#[trigger] entries[i]).contains(','),
    ensures
        token_ports(crate::text::joined(entries, seq![','])).contains(p) <==> exists|i: int|
            0 <= i < entries.len() && names_port(#[trigger] entries[i], p),
{
    crate::text::join_then_split(entries, ',');
    lemma_entry_ports(entries, p);
}

/// A number names the port that it is, and so does a range that begins with it; neither
/// names another.
pub proof fn numbers_and_ranges_name_ports(p: u16, last: Seq<char>, q: u16)
    ensures
        names_port(decimal(p as nat), q) <==> q == p,
        names_port(decimal(p as nat) + seq!['-'] + last, q) <==> q == p,
{
    let d = decimal(p as nat);
    lemma_decimal_plain(p as nat);
    crate::text::decimal_reads_back(p as nat);
    assert(number_of(d, 65535) == Some(p as nat));
    crate::text::lemma_unsplit(d, '-');
    lemma_first_piece(d, last, '-');
}

proof fn lemma_first_piece(a: Seq<char>, b: Seq<char>, sep: char)
    requires
        !a.contains(sep),
    ensures
        pieces(a + seq![sep] + b, sep).len() > 1,
        pieces(a + seq![sep] + b, sep)[0] == a,
    decreases b.len(),
{
    let s = a + seq![sep] + b;
    if b.len() == 0 {
        assert(s.drop_last() =~= a);
        assert(s.last() == sep);
        crate::text::lemma_unsplit(a, sep);
    } else {
        lemma_first_piece(a, b.drop_last(), sep);
        assert(s.drop_last() =~= a + seq![sep] + b.drop_last());
    }
}

proof fn lemma_plain_word(w: Seq<char>)
    requires
        w.len() > 0,
        w[0] != ',' && w[0] != '{' && w[0] != '}' && w[0] != '"',
        w.last() != ',' && w.last() != '{' && w.last() != '}' && w.last() != '"',
    ensures
        firewall_word(w) == w,
{
    crate::segment::lemma_trim_nothing(w, Some(','));
    crate::segment::lemma_trim_nothing(w, Some('{'));
    crate::segment::lemma_trim_nothing(w, Some('}'));
    crate::segment::lemma_trim_nothing(w, Some('"'));
}

proof fn lemma_firewall_step(words: Seq<Seq<char>>)
    requires
        words.len() > 0,
    ensures
        firewall_words_ports(words.drop_last()).subset_of(firewall_words_ports(words)),
        ports_behind_colon(firewall_word(words.last())).subset_of(firewall_words_ports(words)),
        words.len() > 1 && announces_port(firewall_word(words[words.len() - 2])) ==> token_ports(
            firewall_word(words.last()),
        ).subset_of(firewall_words_ports(words)),
{
}

proof fn lemma_firewall_more(words: Seq<Seq<char>>, more: Seq<Seq<char>>)
    ensures
        firewall_words_ports(words).subset_of(firewall_words_ports(words + more)),
    decreases more.len(),
{
    if more.len() == 0 {
        assert(words + more =~= words);
    } else {
        lemma_firewall_more(words, more.drop_last());
        assert((words + more).drop_last() =~= words + more.drop_last());
        lemma_firewall_step(words + more);
    }
}

/// A port that a rule announces is found, whatever stands around the rule: the number
/// behind one of the words that announce one, and the number behind a colon.
pub proof fn ports_of_rules_are_found(
    before: Seq<Seq<char>>,
    word: Seq<char>,
    host: Seq<char>,
    p: u16,
    after: Seq<Seq<char>>,
)
    requires
        word == "dport"@ || word == "--dport"@ || word == "--to-port"@ || word == "--to-ports"@,
        host.len() > 0,
        host[0] != ',' && host[0] != '{' && host[0] != '}' && host[0] != '"',
    ensures
        firewall_words_ports(before.push(word).push(decimal(p as nat)) + after).contains(p),
        firewall_words_ports(
            before.push(host + seq![':'] + decimal(p as nat)) + after,
        ).contains(p),
{
    reveal_strlit("dport");
    reveal_strlit("--dport");
    reveal_strlit("--to-port");
    reveal_strlit("--to-ports");
    let d = decimal(p as nat);
    lemma_decimal_plain(p as nat);
    numbers_and_ranges_name_ports(p, Seq::empty(), p);
    crate::text::lemma_unsplit(d, ',');
    lemma_entry_ports(seq![d], p);
    assert(names_port(seq![d][0], p));
    assert(token_ports(d).contains(p));
    assert(d.last() == d[d.len() - 1]);
    lemma_plain_word(d);
    lemma_plain_word(word);
    let a = before.push(word).push(d);
    assert(a[a.len() - 2] == word);
    lemma_firewall_step(a);
    assert(firewall_words_ports(a).contains(p));
    lemma_firewall_more(a, after);
    let whole = host + seq![':'] + d;
    assert(whole[0] == host[0] && whole.last() == d.last());
    lemma_plain_word(whole);
    crate::text::parted_reads_back(host, d, ':');
    let b = before.push(whole);
    assert(b.last() == whole);
    lemma_firewall_step(b);
    assert(firewall_words_ports(b).contains(p));
    lemma_firewall_more(b, after);
}

/// Braces, commas and quotes around a word of a rule do not count.
pub proof fn marks_around_words_are_ignored(w: Seq<char>)
    requires
        w.len() > 0,
        w[0] != ',' && w[0] != '{' && w[0] != '}' && w[0] != '"',
        w.last() != ',' && w.last() != '{' && w.last() != '}' && w.last() != '"',
    ensures
        firewall_word(w) == w,
        firewall_word(w.push(',')) == w,
        firewall_word(seq!['{'] + w) == w,
        firewall_word(w.push('}')) == w,
        firewall_word(seq!['"'] + w.push('"')) == w,
{
    lemma_plain_word(w);
    assert(w.push(',').drop_last() =~= w);
    assert(w.push('}').drop_last() =~= w);
    assert((seq!['{'] + w).drop_first() =~= w);
    let quoted = seq!['"'] + w.push('"');
    assert(quoted.drop_first() =~= w.push('"'));
    assert(w.push('"').drop_last() =~= w);
    assert(trim_both(w.push(','), Some(',')) == w) by {
        assert(crate::text::trim_front(w.push(','), Some(',')) == w.push(','));
        assert(crate::text::trim_back(w, Some(',')) == w);
    }
    crate::segment::lemma_trim_nothing(w, Some(','));
    crate::segment::lemma_trim_nothing(w, Some('{'));
    crate::segment::lemma_trim_nothing(w, Some('}'));
    crate::segment::lemma_trim_nothing(w, Some('"'));
    let open = seq!['{'] + w;
    assert(open.last() == w.last());
    crate::segment::lemma_trim_nothing(open, Some(','));
    assert(trim_both(open, Some('{')) == w) by {
        assert(open[0] == '{');
        assert(crate::text::trim_front(w, Some('{')) == w);
        assert(crate::text::trim_front(open, Some('{')) == w);
        assert(crate::text::trim_back(w, Some('{')) == w);
    }
    let shut = w.push('}');
    crate::segment::lemma_trim_nothing(shut, Some(','));
    crate::segment::lemma_trim_nothing(shut, Some('{'));
    assert(trim_both(shut, Some('}')) == w) by {
        assert(crate::text::trim_front(shut, Some('}')) == shut);
        assert(crate::text::trim_back(w, Some('}')) == w);
    }
    assert(quoted[0] == '"' && quoted.last() == '"');
    crate::segment::lemma_trim_nothing(quoted, Some(','));
    crate::segment::lemma_trim_nothing(quoted, Some('{'));
    crate::segment::lemma_trim_nothing(quoted, Some('}'));
    assert(trim_both(quoted, Some('"')) == w) by {
        let end = w.push('"');
        assert(end[0] == w[0]);
        assert(crate::text::trim_front(end, Some('"')) == end);
        assert(crate::text::trim_front(quoted, Some('"')) == end);
        assert(crate::text::trim_back(w, Some('"')) == w);
        assert(crate::text::trim_back(end, Some('"')) == w);
    }
}

/// Nothing is found but what stands behind a word that announces a port, or behind a
/// colon.
pub proof fn only_ports_of_rules_are_found(words: Seq<Seq<char>>, p: u16)
    requires
        firewall_words_ports(words).contains(p),
    ensures
        exists|i: int|
            0 <= i < words.len() && {
                let w = firewall_word(#[trigger] words[i]);
                ||| i > 0 && announces_port(firewall_word(words[i - 1])) && token_ports(w).contains(
                    p,
                )
                ||| parted_last(w, ':') is Some && token_ports(
                    parted_last(w, ':').unwrap().1,
                ).contains(p)
            },
    decreases words.len(),
{
    if words.len() > 0 {
        let init = words.drop_last();
        let n = words.len() - 1;
        assert(words[n] == words.last());
        if firewall_words_ports(init).contains(p) {
            only_ports_of_rules_are_found(init, p);
            let i = choose|i: int|
                0 <= i < init.len() && {
                    let w = firewall_word(#[trigger] init[i]);
                    ||| i > 0 && announces_port(firewall_word(init[i - 1])) && token_ports(
                        w,
                    ).contains(p)
                    ||| parted_last(w, ':') is Some && token_ports(
                        parted_last(w, ':').unwrap().1,
                    ).contains(p)
                };
            assert(words[i] == init[i]);
            assert(i > 0 ==> words[i - 1] == init[i - 1]);
        } else {
            assert(firewall_word(words[n]) == firewall_word(words.last()));
        }
    }
}

/// A port that is handed out anew is written down for the project that asked, with what it
/// is for, and no other port changes hands.
pub proof fn new_port_is_written_down(
    ports: Map<u16, AllocationModel>,
    busy: Set<u16>,
    key: Seq<char>,
    protocol: Seq<char>,
    target_port: u16,
)
    ensures
        newly_granted(ports, busy, key, protocol, target_port) is Some ==> ({
            let (p, after) = newly_granted(ports, busy, key, protocol, target_port).unwrap();
            &&& 30_000 <= p <= 39_999
            &&& !ports.contains_key(p)
            &&& !busy.contains(p)
            &&& after.contains_key(p)
            &&& after[p].project_key == key
            &&& after[p].port == p
            &&& after[p].protocol == protocol
            &&& after[p].target_port == target_port
            &&& after[p].owner == "statix-agent"@
            &&& after.remove(p) == ports
        }),
        newly_granted(ports, busy, key, protocol, target_port) is None <==> forall|q: u16|
            30_000 <= q <= 39_999 ==> reserved_ports().contains(q) || #[trigger] ports.contains_key(
                q,
            ) || busy.contains(q),
{
    lemma_free_port(ports, busy);
    if newly_granted(ports, busy, key, protocol, target_port) is Some {
        let (p, after) = newly_granted(ports, busy, key, protocol, target_port).unwrap();
        assert(is_free(ports, busy, p));
        assert(after.remove(p) =~= ports);
        assert(!(reserved_ports().contains(p) || ports.contains_key(p) || busy.contains(p)));
    } else {
        assert forall|q: u16| 30_000 <= q <= 39_999 implies reserved_ports().contains(q)
            || #[trigger] ports.contains_key(q) || busy.contains(q) by {
            assert(!is_free(ports, busy, q));
        }
    }
}

/// The claims of a project are the ports behind its exposures that are active and are not
/// served under a public name; all of them are for one protocol.
pub proof fn active_exposures_are_claims(exposures: Seq<ExposureModel>, target_port: u16)
    ensures
        active_claims(exposures).contains(("tcp"@, target_port)) <==> exists|i: int|
            0 <= i < exposures.len() && (#[trigger] exposures[i]).target_port == target_port
                && exposures[i].status == ExposureStatus::Active && exposures[i].visibility
                != ExposureVisibility::Public,
        forall|i: int|
            0 <= i < active_claims(exposures).len() ==> (#[trigger] active_claims(exposures)[i]).0
                == "tcp"@,
    decreases exposures.len(),
{
    let wanted = ("tcp"@, target_port);
    if exposures.len() > 0 {
        let init = exposures.drop_last();
        let e = exposures.last();
        active_exposures_are_claims(init, target_port);
        let before = active_claims(init);
        let all = active_claims(exposures);
        assert(exposures[exposures.len() - 1] == e);
        if before.contains(wanted) {
            let k = choose|k: int| 0 <= k < before.len() && before[k] == wanted;
            assert(all[k] == wanted);
            let i = choose|i: int|
                0 <= i < init.len() && (#[trigger] init[i]).target_port == target_port
                    && init[i].status == ExposureStatus::Active && init[i].visibility
                    != ExposureVisibility::Public;
            assert(exposures[i] == init[i]);
        }
        if is_managed(e) && e.target_port == target_port {
            assert(all[all.len() - 1] == wanted);
        }
        if all.contains(wanted) && !before.contains(wanted) {
            let k = choose|k: int| 0 <= k < all.len() && all[k] == wanted;
            if k < before.len() {
                assert(before[k] == wanted);
            }
        }
        if exists|i: int|
            0 <= i < exposures.len() && (#[trigger] exposures[i]).target_port == target_port
                && exposures[i].status == ExposureStatus::Active && exposures[i].visibility
                != ExposureVisibility::Public {
            let i = choose|i: int|
                0 <= i < exposures.len() && (#[trigger] exposures[i]).target_port == target_port
                    && exposures[i].status == ExposureStatus::Active && exposures[i].visibility
                    != ExposureVisibility::Public;
            if i < init.len() {
                assert(init[i] == exposures[i]);
            }
        }
    }
}

/// To release what a project does not use takes away its ports that no claim is for, and
/// nothing else.
pub proof fn only_unused_ports_are_released(
    ports: Map<u16, AllocationModel>,
    key: Seq<char>,
    active: Seq<(Seq<char>, u16)>,
    p: u16,
)
    ensures
        ({
            let after = released(ports, key, active);
            let used = exists|i: int|
                0 <= i < active.len() && #[trigger] active[i] == (
                    ports[p].protocol,
                    ports[p].target_port,
                );
            &&& after.contains_key(p) <==> ports.contains_key(p) && (ports[p].project_key != key
                || used)
            &&& after.contains_key(p) ==> after[p] == ports[p]
        }),
{
}

} // verus!

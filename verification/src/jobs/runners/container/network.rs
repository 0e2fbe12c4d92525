//! The network of a container.
use vstd::prelude::*;
use vstd::string::*;
use vstd::utf8::encode_utf8;

use crate::netaddr::{ipv4_of, ipv4_text, parse_ipv4, Ipv4Addr};
use crate::text::{
    append_decimal, decimal, number_of, parse_number, parted_first, split_once, str_of, texts,
    trim, trimmed, words, words_of,
};

verus! {

/// The network that containers are tied to.
#[derive(Debug, Clone, Copy, PartialEq, Eq, Structural)]
pub struct LxcBridgeNetwork {
    pub gateway: Ipv4Addr,
    pub prefix_len: u8,
}

/// The name of the bridge, given the value of `STATIX_LXC_NETWORK_BRIDGE`.
pub open spec fn bridge_of(value: Option<Seq<char>>) -> Seq<char> {
    match value {
        Some(v) => if trimmed(v).len() > 0 {
            trimmed(v)
        } else {
            "lxcbr0"@
        },
        None => "lxcbr0"@,
    }
}

/// The name of the bridge, given the value of `STATIX_LXC_NETWORK_BRIDGE`.
pub fn lxc_bridge_name(value: Option<&str>) -> (r: String)
    ensures
        r@ == bridge_of(str_of(value)),
{
    match value {
        Some(v) => {
            let t = trim(v);
            if t.as_str().is_empty() {
                "lxcbr0".to_string()
            } else {
                t
            }
        },
        None => "lxcbr0".to_string(),
    }
}

/// The two sides of the first slash, in the first word that holds one.
pub open spec fn first_slashed(words: Seq<Seq<char>>) -> Option<(Seq<char>, Seq<char>)>
    decreases words.len(),
{
    if words.len() == 0 {
        None
    } else {
        match parted_first(words[0], '/') {
            Some(p) => Some(p),
            None => first_slashed(words.drop_first()),
        }
    }
}

/// The network that a listing of the bridge's addresses shows: its first address,
/// where that leaves room for guests.
pub open spec fn bridge_network_in(output: Seq<char>) -> Option<LxcBridgeNetwork> {
    match first_slashed(words_of(output)) {
        Some((address, prefix)) => match (ipv4_of(address), number_of(prefix, 255)) {
            (Some(gateway), Some(n)) => if n <= 30 {
                Some(LxcBridgeNetwork { gateway, prefix_len: n as u8 })
            } else {
                None
            },
            _ => None,
        },
        None => None,
    }
}

/// The network that a listing of the bridge's addresses shows.
pub fn parse_lxc_bridge_network(output: &str) -> (r: Option<LxcBridgeNetwork>)
    ensures
        r == bridge_network_in(output@),
{
    let all = words(output);
    let ghost ws = words_of(output@);
    let mut i: usize = 0;
    let mut found: Option<(String, String)> = None;
    proof {
        assert(ws.skip(0) =~= ws);
    }
    while i < all.len() && found.is_none()
        invariant
            ws == texts(all@),
            i <= all@.len(),
            match found {
                Some((a, b)) => first_slashed(ws) == Some((a@, b@)),
                None => first_slashed(ws) == first_slashed(ws.skip(i as int)),
            },
        decreases all@.len() - i,
    {
        proof {
            assert(ws.skip(i as int)[0] == all@[i as int]@);
            assert(ws.skip(i as int).drop_first() =~= ws.skip(i + 1));
        }
        found = split_once(all[i].as_str(), '/');
        i += 1;
    }
    match found {
        Some((address, prefix)) => {
            let gateway = parse_ipv4(address.as_str());
            let len = parse_number(prefix.as_str(), 255);
            match (gateway, len) {
                (Some(gateway), Some(n)) => {
                    if n <= 30 {
                        Some(LxcBridgeNetwork { gateway, prefix_len: n as u8 })
                    } else {
                        None
                    }
                },
                _ => None,
            }
        },
        None => None,
    }
}

// ---------------------------------------------------------------------------
// The address of a guest
// ---------------------------------------------------------------------------

/// The sum of bytes, in sixteen bits.
pub open spec fn byte_sum(bytes: Seq<u8>) -> nat
    decreases bytes.len(),
{
    if bytes.len() == 0 {
        0
    } else {
        (byte_sum(bytes.drop_last()) + bytes.last() as nat) % 65_536
    }
}

/// The last part of the address of the guest whose name has this sum: never that
/// of the gateway.
pub open spec fn guest_octet(sum: nat, gateway_octet: u8) -> u8 {
    let host = 10 + sum % 240;
    if host == gateway_octet {
        (host + 1) as u8
    } else {
        host as u8
    }
}

/// The address of a guest on the network.
pub open spec fn guest_address_of(network: LxcBridgeNetwork, name: Seq<char>) -> Ipv4Addr {
    Ipv4Addr { d: guest_octet(byte_sum(encode_utf8(name)), network.gateway.d), ..network.gateway }
}

/// The address of a guest on the network.
pub fn guest_ipv4_address(network: &LxcBridgeNetwork, container_name: &str) -> (r: Ipv4Addr)
    ensures
        r == guest_address_of(*network, container_name@),
{
    let bytes = container_name.as_bytes();
    let mut sum: u16 = 0;
    let mut i: usize = 0;
    let n = bytes.len();
    proof {
        assert(bytes@.take(0) =~= Seq::<u8>::empty());
    }
    while i < n
        invariant
            n == bytes@.len(),
            i <= n,
            sum == byte_sum(bytes@.take(i as int)),
        decreases n - i,
    {
        proof {
            assert(bytes@.take(i + 1).drop_last() =~= bytes@.take(i as int));
        }
        let b: u16 = bytes[i] as u16;
        sum = sum.wrapping_add(b);
        i += 1;
    }
    proof {
        assert(bytes@.take(i as int) =~= bytes@);
    }
    let host: u8 = 10 + (sum % 240) as u8;
    let d: u8 = if host == network.gateway.d {
        host + 1
    } else {
        host
    };
    Ipv4Addr::new(network.gateway.a, network.gateway.b, network.gateway.c, d)
}

/// A guest never has the address of its gateway.
pub proof fn guest_is_not_its_gateway(network: LxcBridgeNetwork, name: Seq<char>)
    ensures
        guest_address_of(network, name) != network.gateway,
        10 <= guest_address_of(network, name).d <= 250,
{
}

/// What the guest is asked to do to have a network: unless it has one, it takes
/// the address and the route.
pub open spec fn network_command_text(network: LxcBridgeNetwork, address: Ipv4Addr) -> Seq<char> {
    "if ip -4 route show default | grep -q .; then exit 0; fi; iface=$(ip -o link show | awk -F': ' '$2 != \"lo\" {print $2; exit}' | cut -d@ -f1); test -n \"$iface\"; ip link set \"$iface\" up; ip -4 addr show dev \"$iface\" | grep -q 'inet ' || ip addr add "@
        + ipv4_text(address) + "/"@ + decimal(network.prefix_len as nat)
        + " dev \"$iface\"; ip route replace default via "@ + ipv4_text(network.gateway)
        + " dev \"$iface\""@
}

/// What the guest is asked to do to have a network.
pub fn guest_network_command(network: &LxcBridgeNetwork, guest_address: Ipv4Addr) -> (r: String)
    ensures
        r@ == network_command_text(*network, guest_address),
{
    let mut r =
        "if ip -4 route show default | grep -q .; then exit 0; fi; iface=$(ip -o link show | awk -F': ' '$2 != \"lo\" {print $2; exit}' | cut -d@ -f1); test -n \"$iface\"; ip link set \"$iface\" up; ip -4 addr show dev \"$iface\" | grep -q 'inet ' || ip addr add ".to_string();
    guest_address.append_to(&mut r);
    r.append("/");
    append_decimal(&mut r, network.prefix_len as u64);
    r.append(" dev \"$iface\"; ip route replace default via ");
    network.gateway.append_to(&mut r);
    r.append(" dev \"$iface\"");
    r
}

/// A guest is in the network of its bridge: its address is that of the gateway but for
/// the last number.
pub proof fn guest_is_in_its_network(network: LxcBridgeNetwork, name: Seq<char>)
    ensures
        ({
            let ip = guest_address_of(network, name);
            &&& ip.a == network.gateway.a
            &&& ip.b == network.gateway.b
            &&& ip.c == network.gateway.c
            &&& ip.d != network.gateway.d
            &&& 10 <= ip.d <= 250
        }),
{
    guest_is_not_its_gateway(network, name);
}

proof fn lemma_first_slashed(front: Seq<Seq<char>>, word: Seq<char>, back: Seq<Seq<char>>)
    requires
        forall|i: int| 0 <= i < front.len() ==> !(#[trigger] front[i]).contains('/'),
        word.contains('/'),
    ensures
        first_slashed(front + seq![word] + back) == parted_first(word, '/'),
    decreases front.len(),
{
    let all = front + seq![word] + back;
    if front.len() == 0 {
        assert(all[0] == word);
        crate::text::parted_at_the_first(word, '/');
    } else {
        assert(all[0] == front[0]);
        crate::text::parted_at_the_first(front[0], '/');
        if let Some((a, b)) = parted_first(front[0], '/') {
            assert((a + seq!['/'] + b)[a.len() as int] == '/');
        }
        let rest = front.drop_first();
        assert forall|i: int| 0 <= i < rest.len() implies !(#[trigger] rest[i]).contains('/') by {
            assert(rest[i] == front[i + 1]);
        }
        lemma_first_slashed(rest, word, back);
        assert(all.drop_first() =~= rest + seq![word] + back);
    }
}

/// The network of a bridge is the first address with a prefix that its listing shows,
/// if a guest fits in it.
pub proof fn bridge_network_is_read(
    output: Seq<char>,
    front: Seq<Seq<char>>,
    gateway: Ipv4Addr,
    n: nat,
    back: Seq<Seq<char>>,
)
    requires
        n <= 255,
        words_of(output) == front + seq![ipv4_text(gateway) + seq!['/'] + decimal(n)] + back,
        forall|i: int| 0 <= i < front.len() ==> !(#[trigger] front[i]).contains('/'),
    ensures
        bridge_network_in(output) == if n <= 30 {
            Some(LxcBridgeNetwork { gateway, prefix_len: n as u8 })
        } else {
            None
        },
{
    let ip = ipv4_text(gateway);
    let word = ip + seq!['/'] + decimal(n);
    assert(word[ip.len() as int] == '/');
    lemma_first_slashed(front, word, back);
    crate::netaddr::address_reads_back(gateway);
    crate::netaddr::address_is_digits_and_dots(gateway);
    assert(!ip.contains('/'));
    crate::text::parted_reads_back(ip, decimal(n), '/');
    crate::text::decimal_reads_back(n);
    assert(number_of(decimal(n), 255) == Some(n));
}

/// The bridge is the one that is named, if one is.
pub proof fn named_bridge_is_used(value: Option<Seq<char>>)
    ensures
        value is Some && trimmed(value->0).len() > 0 ==> bridge_of(value) == trimmed(value->0),
        value is None || trimmed(value->0).len() == 0 ==> bridge_of(value) == "lxcbr0"@,
{
}

/// A guest without a network is given its address, with the prefix of the network, and
/// the gateway of the network for all else.
pub proof fn guest_is_given_address_and_gateway(network: LxcBridgeNetwork, address: Ipv4Addr)
    ensures
        ({
            let text = network_command_text(network, address);
            &&& crate::text::occurs(
                text,
                ipv4_text(address) + "/"@ + decimal(network.prefix_len as nat),
            )
            &&& crate::text::occurs(
                text,
                "ip route replace default via "@ + ipv4_text(network.gateway),
            )
        }),
{
    let text = network_command_text(network, address);
    let front =
        "if ip -4 route show default | grep -q .; then exit 0; fi; iface=$(ip -o link show | awk -F': ' '$2 != \"lo\" {print $2; exit}' | cut -d@ -f1); test -n \"$iface\"; ip link set \"$iface\" up; ip -4 addr show dev \"$iface\" | grep -q 'inet ' || ip addr add "@;
    let given = ipv4_text(address) + "/"@ + decimal(network.prefix_len as nat);
    let via = " dev \"$iface\"; ip route replace default via "@;
    let gw = ipv4_text(network.gateway);
    let end = " dev \"$iface\""@;
    crate::text::middle_occurs(front, given, via + gw + end);
    assert(text =~= front + given + (via + gw + end));
    reveal_strlit(" dev \"$iface\"; ip route replace default via ");
    reveal_strlit("ip route replace default via ");
    let needle = "ip route replace default via "@ + gw;
    let at = front.len() + given.len() + via.len() - 29;
    assert(text.subrange(at, at + needle.len()) =~= needle);
    assert(crate::text::occurs_at(text, needle, at));
}

} // verus!

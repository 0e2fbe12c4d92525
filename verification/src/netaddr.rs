//! Addresses of the Internet Protocol and their textual forms.
use vstd::prelude::*;
use vstd::string::*;

use crate::text::{
    all_digits, append_decimal, decimal, decimal_reads_back, digit, digit_char, digits_value,
    is_digit, join_then_split, joined, pieces, slice_text, split, texts, to_chars,
};

verus! {

/// An IPv4 address, as its four octets.
#[derive(Debug, Clone, Copy, PartialEq, Eq, Structural)]
pub struct Ipv4Addr {
    pub a: u8,
    pub b: u8,
    pub c: u8,
    pub d: u8,
}

/// The dotted form of an address: four decimal numbers with dots between them.
pub open spec fn ipv4_text(ip: Ipv4Addr) -> Seq<char> {
    decimal(ip.a as nat) + "."@ + decimal(ip.b as nat) + "."@ + decimal(ip.c as nat) + "."@
        + decimal(ip.d as nat)
}

impl Ipv4Addr {
    pub fn new(a: u8, b: u8, c: u8, d: u8) -> (r: Self)
        ensures
            r == (Ipv4Addr { a, b, c, d }),
    {
        Ipv4Addr { a, b, c, d }
    }

    /// Appends the dotted form of the address to `out`.
    pub fn append_to(&self, out: &mut String)
        ensures
            final(out)@ == old(out)@ + ipv4_text(*self),
    {
        let ghost start = out@;
        append_decimal(out, self.a as u64);
        out.append(".");
        append_decimal(out, self.b as u64);
        out.append(".");
        append_decimal(out, self.c as u64);
        out.append(".");
        append_decimal(out, self.d as u64);
        proof {
            assert(out@ =~= start + ipv4_text(*self));
        }
    }

    /// The dotted form of the address.
    pub fn to_text(&self) -> (r: String)
        ensures
            r@ == ipv4_text(*self),
    {
        let mut r = String::new();
        self.append_to(&mut r);
        proof {
            assert(r@ =~= ipv4_text(*self));
        }
        r
    }
}

// ---------------------------------------------------------------------------
// The dotted form
// ---------------------------------------------------------------------------

/// The octet that `s` stands for: one to three decimal digits, without a
/// leading zero, and a value of at most 255.
pub open spec fn octet_of(s: Seq<char>) -> Option<u8> {
    if 1 <= s.len() <= 3 && all_digits(s) && (s.len() > 1 ==> s[0] != '0') && digits_value(s)
        <= 255 {
        Some(digits_value(s) as u8)
    } else {
        None
    }
}

/// The address whose dotted form is `s`.
pub open spec fn ipv4_of(s: Seq<char>) -> Option<Ipv4Addr> {
    let p = pieces(s, '.');
    if p.len() == 4 && octet_of(p[0]) is Some && octet_of(p[1]) is Some && octet_of(p[2]) is Some
        && octet_of(p[3]) is Some {
        Some(
            Ipv4Addr {
                a: octet_of(p[0])->0,
                b: octet_of(p[1])->0,
                c: octet_of(p[2])->0,
                d: octet_of(p[3])->0,
            },
        )
    } else {
        None
    }
}

fn parse_octet(s: &str) -> (r: Option<u8>)
    ensures
        r == octet_of(s@),
{
    let cs = to_chars(s);
    if cs.len() == 0 || cs.len() > 3 {
        return None;
    }
    if cs.len() > 1 && cs[0] == '0' {
        return None;
    }
    let mut value: u32 = 0;
    let mut i: usize = 0;
    proof {
        assert(s@.take(0) =~= Seq::<char>::empty());
    }
    while i < cs.len()
        invariant
            cs@ == s@,
            i <= cs@.len() <= 3,
            all_digits(s@.take(i as int)),
            value == digits_value(s@.take(i as int)),
            i == 0 ==> value == 0,
            i == 1 ==> value <= 9,
            i == 2 ==> value <= 99,
            i == 3 ==> value <= 999,
        decreases cs@.len() - i,
    {
        let c = cs[i];
        proof {
            assert(s@.take(i + 1).drop_last() =~= s@.take(i as int));
        }
        if !digit(c) {
            return None;
        }
        value = value * 10 + (c as u32 - 0x30);
        proof {
            assert forall|j: int| 0 <= j < s@.take(i + 1).len() implies is_digit(
                #[trigger] s@.take(i + 1)[j],
            ) by {
                if j < i {
                    assert(s@.take(i + 1)[j] == s@.take(i as int)[j]);
                }
            }
        }
        i += 1;
    }
    proof {
        assert(s@.take(i as int) =~= s@);
    }
    if value <= 255 {
        Some(value as u8)
    } else {
        None
    }
}

/// The address whose dotted form is `s`.
pub fn parse_ipv4(s: &str) -> (r: Option<Ipv4Addr>)
    ensures
        r == ipv4_of(s@),
{
    let parts = split(s, '.');
    let ghost p = pieces(s@, '.');
    if parts.len() != 4 {
        return None;
    }
    proof {
        assert(p[0] == parts@[0]@ && p[1] == parts@[1]@ && p[2] == parts@[2]@ && p[3]
            == parts@[3]@);
    }
    match (
        parse_octet(parts[0].as_str()),
        parse_octet(parts[1].as_str()),
        parse_octet(parts[2].as_str()),
        parse_octet(parts[3].as_str()),
    ) {
        (Some(a), Some(b), Some(c), Some(d)) => Some(Ipv4Addr { a, b, c, d }),
        _ => None,
    }
}

proof fn lemma_octet_reads_back(n: u8)
    ensures
        octet_of(decimal(n as nat)) == Some(n),
        !decimal(n as nat).contains('.'),
{
    let v = n as nat;
    let d = decimal(v);
    decimal_reads_back(v);
    reveal_with_fuel(decimal, 4);
    assert(!d.contains('.')) by {
        if d.contains('.') {
            let i = choose|i: int| 0 <= i < d.len() && d[i] == '.';
            assert(is_digit(d[i]));
        }
    }
    if v >= 10 {
        let m = v / 10;
        let e = decimal(m);
        assert(d == e.push(digit_char(v % 10)));
        assert(d[0] == e[0]);
        if m >= 10 {
            assert(e[0] == digit_char(m / 10));
        }
    }
}

/// An address is read back from its text.
pub proof fn address_reads_back(ip: Ipv4Addr)
    ensures
        ipv4_of(ipv4_text(ip)) == Some(ip),
{
    lemma_octet_reads_back(ip.a);
    lemma_octet_reads_back(ip.b);
    lemma_octet_reads_back(ip.c);
    lemma_octet_reads_back(ip.d);
    let a = decimal(ip.a as nat);
    let b = decimal(ip.b as nat);
    let c = decimal(ip.c as nat);
    let d = decimal(ip.d as nat);
    reveal_strlit(".");
    assert("."@ =~= seq!['.']);
    let parts = seq![a, b, c, d];
    assert(parts.drop_last() =~= seq![a, b, c]);
    assert(seq![a, b, c].drop_last() =~= seq![a, b]);
    assert(seq![a, b].drop_last() =~= seq![a]);
    reveal_with_fuel(joined, 5);
    assert(joined(parts, seq!['.']) == ipv4_text(ip));
    join_then_split(parts, '.');
}

// ---------------------------------------------------------------------------
// The colon form
// ---------------------------------------------------------------------------

/// The value of a hexadecimal digit.
pub open spec fn hex_value(c: char) -> Option<nat> {
    let n = c as u32;
    if 0x30 <= n <= 0x39 {
        Some((n - 0x30) as nat)
    } else if 0x41 <= n <= 0x46 {
        Some((n - 0x37) as nat)
    } else if 0x61 <= n <= 0x66 {
        Some((n - 0x57) as nat)
    } else {
        None
    }
}

/// The number that a row of hexadecimal digits stands for.
pub open spec fn hex_number(s: Seq<char>) -> Option<nat>
    decreases s.len(),
{
    if s.len() == 0 {
        Some(0)
    } else {
        match (hex_number(s.drop_last()), hex_value(s.last())) {
            (Some(n), Some(d)) => Some(n * 16 + d),
            _ => None,
        }
    }
}

/// The group that `s` stands for: one to four hexadecimal digits.
pub open spec fn group_of(s: Seq<char>) -> Option<nat> {
    if 1 <= s.len() <= 4 {
        hex_number(s)
    } else {
        None
    }
}

/// The groups that all the pieces stand for.
pub open spec fn groups_of(p: Seq<Seq<char>>) -> Option<Seq<nat>>
    decreases p.len(),
{
    if p.len() == 0 {
        Some(Seq::empty())
    } else {
        match (groups_of(p.drop_last()), group_of(p.last())) {
            (Some(g), Some(n)) => Some(g.push(n)),
            _ => None,
        }
    }
}

/// The groups that the pieces stand for, where the last piece may be the
/// dotted form of an address, which stands for two groups.
pub open spec fn closing_groups_of(p: Seq<Seq<char>>) -> Option<Seq<nat>> {
    match ipv4_of(p.last()) {
        Some(ip) => match groups_of(p.drop_last()) {
            Some(g) => Some(
                g.push(ip.a as nat * 256 + ip.b as nat).push(ip.c as nat * 256 + ip.d as nat),
            ),
            None => None,
        },
        None => groups_of(p),
    }
}

/// The position of the first `::` in `s`; the length of `s` where there is none.
pub open spec fn gap_position(s: Seq<char>) -> nat
    decreases s.len(),
{
    if s.len() == 0 || (s.len() > 1 && s[0] == ':' && s[1] == ':') {
        0
    } else {
        1 + gap_position(s.drop_first())
    }
}

/// The eight groups of the IPv6 address whose textual form is `s`. Where the
/// form has a `::`, that stands for one group of zero or more of them.
pub open spec fn ipv6_of(s: Seq<char>) -> Option<Seq<nat>> {
    let i = gap_position(s) as int;
    if i < s.len() {
        let front = s.take(i);
        let back = s.skip(i + 2);
        let head = if front.len() == 0 {
            Some(Seq::empty())
        } else {
            groups_of(pieces(front, ':'))
        };
        let tail = if back.len() == 0 {
            Some(Seq::empty())
        } else {
            closing_groups_of(pieces(back, ':'))
        };
        match (head, tail) {
            (Some(h), Some(t)) => if h.len() + t.len() <= 7 {
                Some(h + Seq::new((8 - h.len() - t.len()) as nat, |k: int| 0nat) + t)
            } else {
                None
            },
            _ => None,
        }
    } else {
        match closing_groups_of(pieces(s, ':')) {
            Some(g) => if g.len() == 8 {
                Some(g)
            } else {
                None
            },
            None => None,
        }
    }
}

/// The groups of an executable list.
pub open spec fn group_values(g: Seq<u16>) -> Seq<nat> {
    Seq::new(g.len(), |i: int| g[i] as nat)
}

fn parse_hex_digit(c: char) -> (r: Option<u16>)
    ensures
        match r {
            Some(d) => hex_value(c) == Some(d as nat) && d < 16,
            None => hex_value(c) is None,
        },
{
    let n: u32 = c as u32;
    if 0x30 <= n && n <= 0x39 {
        Some((n - 0x30) as u16)
    } else if 0x41 <= n && n <= 0x46 {
        Some((n - 0x37) as u16)
    } else if 0x61 <= n && n <= 0x66 {
        Some((n - 0x57) as u16)
    } else {
        None
    }
}

/// A row of digits that has a number also has one up to any position.
proof fn lemma_hex_number_prefix(s: Seq<char>, i: int)
    requires
        0 <= i <= s.len(),
        hex_number(s) is Some,
    ensures
        hex_number(s.take(i)) is Some,
    decreases s.len(),
{
    if i == s.len() {
        assert(s.take(i) =~= s);
    } else {
        assert(s.drop_last().take(i) =~= s.take(i));
        lemma_hex_number_prefix(s.drop_last(), i);
    }
}

fn parse_group(s: &str) -> (r: Option<u16>)
    ensures
        match r {
            Some(g) => group_of(s@) == Some(g as nat),
            None => group_of(s@) is None,
        },
{
    let cs = to_chars(s);
    if cs.len() == 0 || cs.len() > 4 {
        return None;
    }
    let mut value: u32 = 0;
    let mut i: usize = 0;
    proof {
        assert(s@.take(0) =~= Seq::<char>::empty());
    }
    while i < cs.len()
        invariant
            cs@ == s@,
            i <= cs@.len() <= 4,
            hex_number(s@.take(i as int)) == Some(value as nat),
            i == 0 ==> value == 0,
            i == 1 ==> value < 0x10,
            i == 2 ==> value < 0x100,
            i == 3 ==> value < 0x1000,
            i == 4 ==> value < 0x10000,
        decreases cs@.len() - i,
    {
        proof {
            assert(s@.take(i + 1).drop_last() =~= s@.take(i as int));
            assert(s@.take(i + 1).last() == s@[i as int]);
        }
        match parse_hex_digit(cs[i]) {
            Some(d) => {
                value = value * 16 + d as u32;
            },
            None => {
                proof {
                    if hex_number(s@) is Some {
                        lemma_hex_number_prefix(s@, i + 1);
                    }
                }
                return None;
            },
        }
        i += 1;
    }
    proof {
        assert(s@.take(i as int) =~= s@);
    }
    Some(value as u16)
}

/// Pieces that all stand for groups do so up to any position.
proof fn lemma_groups_prefix(p: Seq<Seq<char>>, i: int)
    requires
        0 <= i <= p.len(),
        groups_of(p) is Some,
    ensures
        groups_of(p.take(i)) is Some,
    decreases p.len(),
{
    if i == p.len() {
        assert(p.take(i) =~= p);
    } else {
        assert(p.drop_last().take(i) =~= p.take(i));
        lemma_groups_prefix(p.drop_last(), i);
    }
}

fn parse_groups(parts: &Vec<String>, n: usize) -> (r: Option<Vec<u16>>)
    requires
        n <= parts@.len(),
    ensures
        match r {
            Some(g) => groups_of(texts(parts@).take(n as int)) == Some(group_values(g@)),
            None => groups_of(texts(parts@).take(n as int)) is None,
        },
{
    let ghost p = texts(parts@).take(n as int);
    let mut g: Vec<u16> = Vec::new();
    let mut i: usize = 0;
    proof {
        assert(group_values(g@) =~= Seq::empty());
        assert(p.take(0) =~= Seq::empty());
    }
    while i < n
        invariant
            n <= parts@.len(),
            p == texts(parts@).take(n as int),
            i <= n,
            groups_of(p.take(i as int)) == Some(group_values(g@)),
        decreases n - i,
    {
        proof {
            assert(p.take(i + 1).drop_last() =~= p.take(i as int));
            assert(p.take(i + 1).last() == parts@[i as int]@);
        }
        match parse_group(parts[i].as_str()) {
            Some(v) => {
                let ghost before = g@;
                g.push(v);
                proof {
                    assert(group_values(g@) =~= group_values(before).push(v as nat));
                }
            },
            None => {
                proof {
                    if groups_of(p) is Some {
                        lemma_groups_prefix(p, i + 1);
                    }
                }
                return None;
            },
        }
        i += 1;
    }
    proof {
        assert(p.take(i as int) =~= p);
    }
    Some(g)
}

fn parse_closing_groups(parts: &Vec<String>) -> (r: Option<Vec<u16>>)
    requires
        parts@.len() > 0,
    ensures
        match r {
            Some(g) => closing_groups_of(texts(parts@)) == Some(group_values(g@)),
            None => closing_groups_of(texts(parts@)) is None,
        },
{
    let n = parts.len();
    let ghost p = texts(parts@);
    proof {
        assert(p.last() == parts@[n - 1]@);
        assert(p.take(n - 1) =~= p.drop_last());
        assert(p.take(n as int) =~= p);
    }
    match parse_ipv4(parts[n - 1].as_str()) {
        Some(ip) => match parse_groups(parts, n - 1) {
            Some(mut g) => {
                let ghost before = g@;
                let x: u16 = ip.a as u16 * 256 + ip.b as u16;
                let y: u16 = ip.c as u16 * 256 + ip.d as u16;
                g.push(x);
                g.push(y);
                proof {
                    assert(group_values(g@) =~= group_values(before).push(x as nat).push(
                        y as nat,
                    ));
                }
                Some(g)
            },
            None => None,
        },
        None => parse_groups(parts, n),
    }
}

proof fn lemma_gap_position(s: Seq<char>, i: int)
    requires
        0 <= i <= s.len(),
        forall|k: int| 0 <= k < i && k + 1 < s.len() ==> !(s[k] == ':' && #[trigger] s[k + 1] == ':'),
        i < s.len() ==> i + 1 < s.len() && s[i] == ':' && s[i + 1] == ':',
    ensures
        gap_position(s) == i,
    decreases s.len(),
{
    if s.len() > 0 && i > 0 {
        if s.len() > 1 {
            let z: int = 0;
            assert(!(s[z] == ':' && s[z + 1] == ':'));
        }
        let t = s.drop_first();
        assert forall|k: int| 0 <= k < i - 1 && k + 1 < t.len() implies !(t[k] == ':'
            && #[trigger] t[k + 1] == ':') by {
            assert(t[k] == s[k + 1]);
            assert(t[k + 1] == s[(k + 1) + 1]);
        }
        lemma_gap_position(t, i - 1);
    }
}

/// The eight groups of the IPv6 address whose textual form is `s`.
pub fn parse_ipv6(s: &str) -> (r: Option<Vec<u16>>)
    ensures
        match r {
            Some(g) => ipv6_of(s@) == Some(group_values(g@)) && g@.len() == 8,
            None => ipv6_of(s@) is None,
        },
{
    let cs = to_chars(s);
    let n = cs.len();
    let mut i: usize = 0;
    while i < n && !(n - i > 1 && cs[i] == ':' && cs[i + 1] == ':')
        invariant
            cs@ == s@,
            n == cs@.len(),
            i <= n,
            forall|k: int|
                0 <= k < i && k + 1 < s@.len() ==> !(s@[k] == ':' && #[trigger] s@[k + 1] == ':'),
        decreases n - i,
    {
        i += 1;
    }
    proof {
        lemma_gap_position(s@, i as int);
    }
    if i >= n {
        let parts = split(s, ':');
        return match parse_closing_groups(&parts) {
            Some(g) => if g.len() == 8 {
                Some(g)
            } else {
                None
            },
            None => None,
        };
    }
    let front = slice_text(&cs, 0, i);
    let back = slice_text(&cs, i + 2, n);
    proof {
        assert(front@ =~= s@.take(i as int));
        assert(back@ =~= s@.skip(i + 2));
    }
    let head: Option<Vec<u16>> = if front.as_str().is_empty() {
        let none: Vec<u16> = Vec::new();
        proof {
            assert(group_values(none@) =~= Seq::empty());
        }
        Some(none)
    } else {
        let parts = split(front.as_str(), ':');
        proof {
            assert(texts(parts@).take(parts@.len() as int) =~= texts(parts@));
        }
        parse_groups(&parts, parts.len())
    };
    let tail: Option<Vec<u16>> = if back.as_str().is_empty() {
        let none: Vec<u16> = Vec::new();
        proof {
            assert(group_values(none@) =~= Seq::empty());
        }
        Some(none)
    } else {
        let parts = split(back.as_str(), ':');
        parse_closing_groups(&parts)
    };
    match (head, tail) {
        (Some(h), Some(t)) => {
            if h.len() > 7 || t.len() > 7 - h.len() {
                return None;
            }
            let ghost zeros = Seq::new((8 - h@.len() - t@.len()) as nat, |k: int| 0nat);
            let ghost want = group_values(h@) + zeros + group_values(t@);
            let ghost h0 = h@;
            let mut g: Vec<u16> = h;
            while g.len() < 8 - t.len()
                invariant
                    t@.len() + h0.len() <= 7,
                    h0.len() <= g@.len() <= 8 - t@.len(),
                    group_values(g@) == want.take(g@.len() as int),
                    want == group_values(h0) + zeros + group_values(t@),
                    zeros == Seq::new((8 - h0.len() - t@.len()) as nat, |k: int| 0nat),
                decreases 8 - g@.len(),
            {
                g.push(0);
                proof {
                    assert(group_values(g@) =~= want.take(g@.len() as int));
                }
            }
            let mut j: usize = 0;
            while j < t.len()
                invariant
                    t@.len() + h0.len() <= 7,
                    j <= t@.len(),
                    g@.len() == 8 - t@.len() + j,
                    group_values(g@) == want.take(g@.len() as int),
                    want == group_values(h0) + zeros + group_values(t@),
                    zeros == Seq::new((8 - h0.len() - t@.len()) as nat, |k: int| 0nat),
                decreases t@.len() - j,
            {
                g.push(t[j]);
                j += 1;
                proof {
                    assert(group_values(g@) =~= want.take(g@.len() as int));
                }
            }
            proof {
                assert(want.take(8) =~= want);
            }
            Some(g)
        },
        _ => None,
    }
}

// ---------------------------------------------------------------------------
// Addresses that name no other host
// ---------------------------------------------------------------------------

/// Whether `s` is the textual form of a loopback address or of the
/// unspecified address.
pub open spec fn is_local_address(s: Seq<char>) -> bool {
    match ipv4_of(s) {
        Some(ip) => ip.a == 127 || (ip.a == 0 && ip.b == 0 && ip.c == 0 && ip.d == 0),
        None => match ipv6_of(s) {
            Some(g) => (forall|i: int| 0 <= i < 7 ==> #[trigger] g[i] == 0) && g[7] <= 1,
            None => false,
        },
    }
}

/// Whether `value` is the textual form of a loopback address or of the
/// unspecified address.
pub fn is_loopback_or_unspecified_address(value: &str) -> (r: bool)
    ensures
        r == is_local_address(value@),
{
    match parse_ipv4(value) {
        Some(ip) => ip.a == 127 || (ip.a == 0 && ip.b == 0 && ip.c == 0 && ip.d == 0),
        None => match parse_ipv6(value) {
            Some(g) => {
                let ghost v = group_values(g@);
                proof {
                    assert(v[0] == g@[0] && v[1] == g@[1] && v[2] == g@[2] && v[3] == g@[3] && v[4]
                        == g@[4] && v[5] == g@[5] && v[6] == g@[6] && v[7] == g@[7]);
                }
                g[0] == 0 && g[1] == 0 && g[2] == 0 && g[3] == 0 && g[4] == 0 && g[5] == 0 && g[6]
                    == 0 && g[7] <= 1
            },
            None => false,
        },
    }
}

/// An address is written with digits and dots alone.
pub proof fn address_is_digits_and_dots(ip: Ipv4Addr)
    ensures
        forall|i: int|
            0 <= i < ipv4_text(ip).len() ==> '0' <= #[trigger] ipv4_text(ip)[i] <= '9' || ipv4_text(
                ip,
            )[i] == '.',
        ipv4_text(ip).len() > 0,
{
    let a = decimal(ip.a as nat);
    let b = decimal(ip.b as nat);
    let c = decimal(ip.c as nat);
    let d = decimal(ip.d as nat);
    crate::text::decimal_reads_back(ip.a as nat);
    crate::text::decimal_reads_back(ip.b as nat);
    crate::text::decimal_reads_back(ip.c as nat);
    crate::text::decimal_reads_back(ip.d as nat);
    reveal_strlit(".");
    let t = ipv4_text(ip);
    let p = a.len() as int;
    let q = p + 1 + b.len();
    let r = q + 1 + c.len();
    assert forall|i: int| 0 <= i < t.len() implies '0' <= #[trigger] t[i] <= '9' || t[i] == '.' by {
        crate::text::characters_are_told_apart(t[i]);
        if i < p {
            assert(t[i] == a[i] && is_digit(a[i]));
        } else if i == p {
            assert(t[i] == "."@[0]);
        } else if i < q {
            assert(t[i] == b[i - p - 1] && is_digit(b[i - p - 1]));
        } else if i == q {
            assert(t[i] == "."@[0]);
        } else if i < r {
            assert(t[i] == c[i - q - 1] && is_digit(c[i - q - 1]));
        } else if i == r {
            assert(t[i] == "."@[0]);
        } else {
            assert(t[i] == d[i - r - 1] && is_digit(d[i - r - 1]));
        }
    }
}

proof fn lemma_digit_of(c: char)
    requires
        is_digit(c),
    ensures
        crate::text::digit_char((c as u32 - 0x30) as nat) == c,
        0x30 <= c as u32 <= 0x39,
{
}

proof fn lemma_octet_text(s: Seq<char>)
    requires
        octet_of(s) is Some,
    ensures
        decimal((octet_of(s)->0) as nat) == s,
{
    lemma_decimal_of_digits(s);
}

proof fn lemma_decimal_of_digits(s: Seq<char>)
    requires
        s.len() > 0,
        all_digits(s),
        s.len() > 1 ==> s[0] != '0',
    ensures
        decimal(digits_value(s)) == s,
        s.len() > 1 ==> digits_value(s) >= 10,
    decreases s.len(),
{
    assert(is_digit(s.last()));
    let d = (s.last() as u32 - 0x30) as nat;
    lemma_digit_of(s.last());
    if s.len() == 1 {
        assert(s.drop_last().len() == 0);
        assert(digits_value(s.drop_last()) == 0);
        assert(decimal(d) =~= s);
    } else {
        let init = s.drop_last();
        assert forall|i: int| 0 <= i < init.len() implies is_digit(#[trigger] init[i]) by {
            assert(is_digit(s[i]));
        }
        lemma_decimal_of_digits(init);
        if init.len() == 1 {
            assert(init.drop_last().len() == 0);
            assert(digits_value(init.drop_last()) == 0);
            assert(is_digit(init[0]));
            assert(init.last() == s[0]);
            assert(digits_value(init) >= 1);
        }
        let n = digits_value(s);
        assert(n == digits_value(init) * 10 + d);
        assert(n / 10 == digits_value(init) && n % 10 == d);
        assert(decimal(n) =~= s);
    }
}

/// A text is an address of four bytes exactly where it is the text of one, and it is the
/// text of that one alone.
pub proof fn addresses_are_their_texts(s: Seq<char>, ip: Ipv4Addr)
    ensures
        ipv4_of(s) == Some(ip) <==> s == ipv4_text(ip),
{
    if ipv4_of(s) == Some(ip) {
        let p = pieces(s, '.');
        lemma_octet_text(p[0]);
        lemma_octet_text(p[1]);
        lemma_octet_text(p[2]);
        lemma_octet_text(p[3]);
        crate::text::split_then_join(s, '.');
        reveal_strlit(".");
        assert("."@ =~= seq!['.']);
        let dot = seq!['.'];
        reveal_with_fuel(crate::text::joined, 4);
        let p3 = p.drop_last();
        let p2 = p3.drop_last();
        let p1 = p2.drop_last();
        assert(p1.len() == 1 && p1[0] == p[0]);
        assert(crate::text::joined(p1, dot) == p[0]);
        assert(crate::text::joined(p2, dot) == p[0] + dot + p[1]);
        assert(crate::text::joined(p3, dot) == p[0] + dot + p[1] + dot + p[2]);
        assert(crate::text::joined(p, dot) == p[0] + dot + p[1] + dot + p[2] + dot + p[3]);
    }
    if s == ipv4_text(ip) {
        address_reads_back(ip);
    }
}

/// An address of four bytes is the machine itself exactly where it is in the network
/// 127 or all of it is zero.
pub proof fn own_addresses_are_known(ip: Ipv4Addr)
    ensures
        is_local_address(ipv4_text(ip)) <==> ip.a == 127 || ip == (Ipv4Addr {
            a: 0,
            b: 0,
            c: 0,
            d: 0,
        }),
{
    address_reads_back(ip);
}

proof fn lemma_hex_bound(s: Seq<char>)
    ensures
        s.len() <= 4 && hex_number(s) is Some ==> hex_number(s)->0 <= 0xffff,
{
    reveal_with_fuel(hex_number, 5);
}

proof fn lemma_groups_bound(p: Seq<Seq<char>>)
    ensures
        groups_of(p) is Some ==> groups_of(p)->0.len() == p.len() && forall|i: int|
            0 <= i < p.len() ==> #[trigger] groups_of(p)->0[i] <= 0xffff,
    decreases p.len(),
{
    if p.len() > 0 {
        lemma_groups_bound(p.drop_last());
        lemma_hex_bound(p.last());
    }
}

proof fn lemma_closing_bound(p: Seq<Seq<char>>)
    ensures
        closing_groups_of(p) is Some ==> forall|i: int|
            0 <= i < closing_groups_of(p)->0.len() ==> #[trigger] closing_groups_of(p)->0[i]
                <= 0xffff,
{
    lemma_groups_bound(p);
    lemma_groups_bound(p.drop_last());
}

/// An address of sixteen bytes has eight groups, each of two bytes.
pub proof fn long_addresses_have_eight_groups(s: Seq<char>)
    ensures
        ipv6_of(s) is Some ==> ipv6_of(s)->0.len() == 8 && forall|i: int|
            0 <= i < 8 ==> #[trigger] ipv6_of(s)->0[i] <= 0xffff,
{
    let i = gap_position(s) as int;
    if i < s.len() {
        lemma_groups_bound(pieces(s.take(i), ':'));
        lemma_closing_bound(pieces(s.skip(i + 2), ':'));
    } else {
        lemma_closing_bound(pieces(s, ':'));
    }
}

/// What these groups of hexadecimal digits are worth.
pub open spec fn worth_of(groups: Seq<Seq<char>>) -> Seq<nat> {
    Seq::new(groups.len(), |i: int| hex_number(groups[i])->0)
}

/// That each of these is a group: one to four hexadecimal digits.
pub open spec fn are_groups(groups: Seq<Seq<char>>) -> bool {
    forall|i: int|
        0 <= i < groups.len() ==> 1 <= (#[trigger] groups[i]).len() <= 4 && hex_number(groups[i])
            is Some
}

proof fn lemma_hex_letters(s: Seq<char>)
    requires
        hex_number(s) is Some,
    ensures
        forall|i: int| 0 <= i < s.len() ==> hex_value(#[trigger] s[i]) is Some,
        !s.contains(':'),
        !s.contains('.'),
    decreases s.len(),
{
    if s.len() > 0 {
        let init = s.drop_last();
        lemma_hex_letters(init);
        assert forall|i: int| 0 <= i < s.len() implies hex_value(#[trigger] s[i]) is Some by {
            if i < init.len() {
                assert(s[i] == init[i]);
            }
        }
    }
}

proof fn lemma_worth(groups: Seq<Seq<char>>)
    requires
        are_groups(groups),
    ensures
        groups_of(groups) == Some(worth_of(groups)),
    decreases groups.len(),
{
    if groups.len() > 0 {
        let init = groups.drop_last();
        assert forall|i: int| 0 <= i < init.len() implies 1 <= (#[trigger] init[i]).len() <= 4
            && hex_number(init[i]) is Some by {
            assert(init[i] == groups[i]);
        }
        lemma_worth(init);
        assert(groups.last() == groups[groups.len() - 1]);
        assert(worth_of(groups) =~= worth_of(init).push(hex_number(groups.last())->0));
    } else {
        assert(worth_of(groups) =~= Seq::<nat>::empty());
    }
}

/// What the groups look like together: no two colons stand side by side, and none at
/// either end.
proof fn lemma_groups_together(groups: Seq<Seq<char>>)
    requires
        are_groups(groups),
        groups.len() > 0,
    ensures
        ({
            let s = crate::text::joined(groups, seq![':']);
            &&& s.len() > 0 && s[0] != ':' && s.last() != ':'
            &&& forall|i: int| 0 <= i < s.len() - 1 ==> !(#[trigger] s[i] == ':' && s[i + 1] == ':')
            &&& pieces(s, ':') == groups
        }),
    decreases groups.len(),
{
    let sep = seq![':'];
    let s = crate::text::joined(groups, sep);
    assert forall|i: int| 0 <= i < groups.len() implies !(#[trigger] groups[i]).contains(':') by {
        lemma_hex_letters(groups[i]);
    }
    crate::text::join_then_split(groups, ':');
    let last = groups.last();
    assert(last == groups[groups.len() - 1]);
    lemma_hex_letters(last);
    assert forall|i: int| 0 <= i < last.len() implies #[trigger] last[i] != ':' by {
        assert(last.contains(last[i]));
    }
    if groups.len() == 1 {
        assert(s == last);
        assert(s[0] != ':' && s[s.len() - 1] != ':');
    } else {
        let init = groups.drop_last();
        assert forall|i: int| 0 <= i < init.len() implies 1 <= (#[trigger] init[i]).len() <= 4
            && hex_number(init[i]) is Some by {
            assert(init[i] == groups[i]);
        }
        lemma_groups_together(init);
        let front = crate::text::joined(init, sep);
        assert(s == front + sep + last);
        assert(s.last() == last[last.len() - 1]);
        assert forall|i: int| 0 <= i < s.len() - 1 implies !(#[trigger] s[i] == ':' && s[i + 1]
            == ':') by {
            if i + 1 < front.len() {
                assert(s[i] == front[i] && s[i + 1] == front[i + 1]);
            } else if i + 1 == front.len() {
                assert(s[i] == front.last());
            } else if i == front.len() {
                assert(s[i + 1] == last[0]);
            } else {
                assert(s[i] == last[i - front.len() - 1]);
            }
        }
    }
}

proof fn lemma_gap_at(s: Seq<char>, i: int)
    requires
        0 <= i <= s.len(),
        i < s.len() ==> i + 1 < s.len() && s[i] == ':' && s[i + 1] == ':',
        forall|k: int| 0 <= k < i && k + 1 < s.len() ==> !(#[trigger] s[k] == ':' && s[k + 1]
            == ':'),
    ensures
        gap_position(s) == i,
    decreases s.len(),
{
    if i > 0 {
        let rest = s.drop_first();
        assert forall|k: int| 0 <= k < i - 1 && k + 1 < rest.len() implies !(#[trigger] rest[k]
            == ':' && rest[k + 1] == ':') by {
            assert(rest[k] == s[k + 1] && rest[k + 1] == s[k + 2]);
        }
        if i < s.len() {
            assert(rest[i - 1] == ':' && rest[i] == ':');
        }
        lemma_gap_at(rest, i - 1);
        assert(s.len() > 1 ==> !(s[0] == ':' && s[1] == ':'));
    }
}

proof fn lemma_closing_worth(groups: Seq<Seq<char>>)
    requires
        are_groups(groups),
        groups.len() > 0,
    ensures
        closing_groups_of(groups) == Some(worth_of(groups)),
{
    lemma_worth(groups);
    let last = groups.last();
    assert(last == groups[groups.len() - 1]);
    lemma_hex_letters(last);
    crate::text::lemma_unsplit(last, '.');
}

/// Eight groups between colons are an address, and it is those eight.
pub proof fn eight_groups_are_an_address(groups: Seq<Seq<char>>)
    requires
        are_groups(groups),
        groups.len() == 8,
    ensures
        ipv6_of(crate::text::joined(groups, seq![':'])) == Some(worth_of(groups)),
{
    let s = crate::text::joined(groups, seq![':']);
    lemma_groups_together(groups);
    lemma_gap_at(s, s.len() as int);
    lemma_closing_worth(groups);
}

/// A gap between groups stands for as many groups of zero as are missing.
pub proof fn gap_stands_for_zeros(head: Seq<Seq<char>>, tail: Seq<Seq<char>>)
    requires
        are_groups(head),
        are_groups(tail),
        head.len() + tail.len() <= 7,
    ensures
        ({
            let colon = seq![':'];
            let s = crate::text::joined(head, colon) + seq![':', ':'] + crate::text::joined(
                tail,
                colon,
            );
            &&& ipv6_of(s) == Some(
                worth_of(head) + Seq::new((8 - head.len() - tail.len()) as nat, |k: int| 0nat)
                    + worth_of(tail),
            )
            &&& ipv4_of(s) is None
        }),
{
    let colon = seq![':'];
    let a = crate::text::joined(head, colon);
    let b = crate::text::joined(tail, colon);
    let s = a + seq![':', ':'] + b;
    if head.len() > 0 {
        lemma_groups_together(head);
    }
    if tail.len() > 0 {
        lemma_groups_together(tail);
        lemma_closing_worth(tail);
    }
    lemma_worth(head);
    lemma_worth(tail);
    let i = a.len() as int;
    assert(s[i] == ':' && s[i + 1] == ':');
    assert forall|k: int| 0 <= k < i && k + 1 < s.len() implies !(#[trigger] s[k] == ':' && s[k
        + 1] == ':') by {
        if k + 1 < i {
            assert(s[k] == a[k] && s[k + 1] == a[k + 1]);
        } else {
            assert(s[k] == a.last());
        }
    }
    lemma_gap_at(s, i);
    assert(s.take(i) =~= a);
    assert(s.skip(i + 2) =~= b);
    if ipv4_of(s) is Some {
        let ip = ipv4_of(s)->0;
        addresses_are_their_texts(s, ip);
        address_is_digits_and_dots(ip);
        assert(s[i] == ':');
    }
    assert(worth_of(Seq::<Seq<char>>::empty()) =~= Seq::<nat>::empty());
    if head.len() == 0 {
        assert(worth_of(head) =~= Seq::<nat>::empty());
    }
    if tail.len() == 0 {
        assert(worth_of(tail) =~= Seq::<nat>::empty());
    }
}

/// An address of sixteen bytes that begins with a gap and has one group behind it is the
/// machine itself exactly where that group is zero or one.
pub proof fn short_own_addresses_are_known(group: Seq<char>)
    requires
        1 <= group.len() <= 4,
        hex_number(group) is Some,
    ensures
        is_local_address(seq![':', ':'] + group) <==> hex_number(group)->0 <= 1,
        is_local_address(seq![':', ':']),
{
    let none = Seq::<Seq<char>>::empty();
    let one = seq![group];
    let colon = seq![':'];
    gap_stands_for_zeros(none, one);
    gap_stands_for_zeros(none, none);
    assert(crate::text::joined(none, colon) + seq![':', ':'] + crate::text::joined(one, colon)
        =~= seq![':', ':'] + group);
    assert(crate::text::joined(none, colon) + seq![':', ':'] + crate::text::joined(none, colon)
        =~= seq![':', ':']);
    let g = ipv6_of(seq![':', ':'] + group)->0;
    assert(g.len() == 8 && g[7] == hex_number(group)->0);
    assert forall|i: int| 0 <= i < 7 implies #[trigger] g[i] == 0 by {}
    let z = ipv6_of(seq![':', ':'])->0;
    assert(z.len() == 8 && z[7] == 0);
    assert forall|i: int| 0 <= i < 7 implies #[trigger] z[i] == 0 by {}
}

/// Letters and digits are worth what they are as hexadecimal digits, large or small, and
/// nothing else is worth anything.
pub proof fn hexadecimal_digits_are_known(c: char)
    ensures
        hex_value(c) is Some <==> '0' <= c <= '9' || 'a' <= c <= 'f' || 'A' <= c <= 'F',
        hex_value(c) is Some ==> hex_value(c)->0 < 16,
        '0' <= c <= '9' ==> hex_value(c) == Some((c as u32 - '0' as u32) as nat),
        'a' <= c <= 'f' ==> hex_value(c) == Some((c as u32 - 'a' as u32 + 10) as nat),
        hex_value(c) == hex_value(crate::text::lower_char(c)) || !('A' <= c <= 'F'),
{
    crate::text::characters_are_told_apart(c);
}

/// A short address may stand at the end of a long one, for its last two groups.
pub proof fn short_address_closes_a_long_one(ip: Ipv4Addr)
    ensures
        ({
            let g = ipv6_of(seq![':', ':'] + ipv4_text(ip));
            &&& g is Some
            &&& g->0.len() == 8
            &&& g->0[6] == ip.a * 0x100 + ip.b
            &&& g->0[7] == ip.c * 0x100 + ip.d
            &&& forall|i: int| 0 <= i < 6 ==> #[trigger] g->0[i] == 0
        }),
{
    let back = ipv4_text(ip);
    let s = seq![':', ':'] + back;
    address_is_digits_and_dots(ip);
    address_reads_back(ip);
    assert(!back.contains(':'));
    crate::text::lemma_unsplit(back, ':');
    assert(s[0] == ':' && s[1] == ':');
    lemma_gap_at(s, 0);
    assert(s.take(0).len() == 0);
    assert(s.skip(2) =~= back);
    let p = pieces(back, ':');
    assert(p == seq![back] && p.last() == back && p.drop_last().len() == 0);
    assert(groups_of(p.drop_last()) == Some(Seq::<nat>::empty()));
}

} // verus!

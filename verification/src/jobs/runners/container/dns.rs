//! How a container resolves names.
use vstd::prelude::*;
use vstd::string::*;

use crate::netaddr::{is_local_address, is_loopback_or_unspecified_address};
use crate::shell::{shell_join, shell_text};
use crate::text::{
    begins_with, char_count, join, joined, lines, lines_of, no_texts, pieces, push_text, same,
    slice_text, split, starts_with, str_of, text_of, texts, to_chars, trim, trimmed, words,
    words_of,
};

verus! {

/// Where a container asks for names.
#[derive(Debug)]
pub struct ContainerDnsConfig {
    pub nameservers: Vec<String>,
    pub include_default_gateway: bool,
}

// ---------------------------------------------------------------------------
// Lists of resolvers
// ---------------------------------------------------------------------------

/// The texts without those that occurred before.
pub open spec fn deduped(s: Seq<Seq<char>>) -> Seq<Seq<char>>
    decreases s.len(),
{
    if s.len() == 0 {
        Seq::empty()
    } else {
        let init = deduped(s.drop_last());
        if init.contains(s.last()) {
            init
        } else {
            init.push(s.last())
        }
    }
}

fn holds(list: &Vec<String>, s: &str) -> (r: bool)
    ensures
        r == texts(list@).contains(s@),
{
    let ghost ts = texts(list@);
    let mut i: usize = 0;
    while i < list.len()
        invariant
            ts == texts(list@),
            i <= list@.len(),
            forall|j: int| 0 <= j < i ==> #[trigger] ts[j] != s@,
        decreases list@.len() - i,
    {
        proof {
            assert(ts[i as int] == list@[i as int]@);
        }
        if same(list[i].as_str(), s) {
            return true;
        }
        i += 1;
    }
    false
}

/// The resolvers without those that occurred before.
pub fn dedupe_nameservers(nameservers: &Vec<String>) -> (r: Vec<String>)
    ensures
        texts(r@) == deduped(texts(nameservers@)),
{
    let ghost all = texts(nameservers@);
    let mut r = no_texts();
    let mut i: usize = 0;
    proof {
        assert(all.take(0) =~= Seq::<Seq<char>>::empty());
    }
    while i < nameservers.len()
        invariant
            all == texts(nameservers@),
            i <= nameservers@.len(),
            texts(r@) == deduped(all.take(i as int)),
        decreases nameservers@.len() - i,
    {
        proof {
            assert(all.take(i + 1).drop_last() =~= all.take(i as int));
            assert(all.take(i + 1).last() == nameservers@[i as int]@);
        }
        if !holds(&r, nameservers[i].as_str()) {
            push_text(&mut r, nameservers[i].as_str());
        }
        i += 1;
    }
    proof {
        assert(all.take(i as int) =~= all);
    }
    r
}

/// Removing repetitions leaves each text once, and loses none.
pub proof fn deduped_holds_each_once(s: Seq<Seq<char>>)
    ensures
        forall|i: int, j: int|
            0 <= i < j < deduped(s).len() ==> #[trigger] deduped(s)[i] != #[trigger] deduped(s)[j],
        forall|x: Seq<char>| #[trigger] deduped(s).contains(x) <==> s.contains(x),
    decreases s.len(),
{
    if s.len() > 0 {
        let init = s.drop_last();
        deduped_holds_each_once(init);
        let d = deduped(init);
        assert forall|x: Seq<char>| #[trigger] deduped(s).contains(x) <==> s.contains(x) by {
            if s.contains(x) {
                let i = choose|i: int| 0 <= i < s.len() && s[i] == x;
                if i < init.len() {
                    assert(init[i] == x);
                    assert(init.contains(x));
                    assert(d.contains(x));
                }
            }
            if d.contains(x) {
                assert(init.contains(x));
                let i = choose|i: int| 0 <= i < init.len() && init[i] == x;
                assert(s[i] == x);
                if !d.contains(s.last()) {
                    let k = choose|k: int| 0 <= k < d.len() && d[k] == x;
                    assert(deduped(s)[k] == x);
                }
            }
            if x == s.last() {
                assert(s[s.len() - 1] == x);
                if !d.contains(x) {
                    assert(deduped(s)[d.len() as int] == x);
                }
            }
            if deduped(s).contains(x) && x != s.last() {
                let k = choose|k: int| 0 <= k < deduped(s).len() && deduped(s)[k] == x;
                if k < d.len() {
                    assert(d[k] == x);
                }
            }
        }
    }
}

/// Whether `x` stands in `s` at `p` for the first time.
pub open spec fn is_first_at(s: Seq<Seq<char>>, x: Seq<char>, p: int) -> bool {
    0 <= p < s.len() && s[p] == x && forall|q: int| 0 <= q < p ==> #[trigger] s[q] != x
}

/// What stays when repetitions go stays in the order in which it first occurred.
pub proof fn deduped_keeps_the_order(s: Seq<Seq<char>>, i: int, j: int, p: int, q: int)
    requires
        0 <= i < j < deduped(s).len(),
        is_first_at(s, deduped(s)[i], p),
        is_first_at(s, deduped(s)[j], q),
    ensures
        p < q,
    decreases s.len(),
{
    let init = s.drop_last();
    let d = deduped(init);
    let last = s.len() - 1;
    deduped_holds_each_once(init);
    assert(d[i] == deduped(s)[i]);
    assert(d.contains(d[i]));
    let k = choose|k: int| 0 <= k < init.len() && init[k] == d[i];
    assert(s[k] == d[i]);
    assert(p <= k);
    assert(is_first_at(init, d[i], p)) by {
        assert forall|t: int| 0 <= t < p implies #[trigger] init[t] != d[i] by {
            assert(s[t] == init[t]);
        }
    }
    if j < d.len() {
        assert(d[j] == deduped(s)[j]);
        assert(d.contains(d[j]));
        let m = choose|m: int| 0 <= m < init.len() && init[m] == d[j];
        assert(s[m] == d[j]);
        assert(is_first_at(init, d[j], q)) by {
            assert forall|t: int| 0 <= t < q implies #[trigger] init[t] != d[j] by {
                assert(s[t] == init[t]);
            }
        }
        deduped_keeps_the_order(init, i, j, p, q);
    } else {
        assert(deduped(s)[j] == s.last());
        if q < last {
            assert(init[q] == s.last());
            assert(init.contains(s.last()));
        }
    }
}

/// Removing repetitions twice is removing them once.
pub proof fn dedupe_is_stable(s: Seq<Seq<char>>)
    ensures
        deduped(deduped(s)) == deduped(s),
    decreases s.len(),
{
    if s.len() > 0 {
        let d = deduped(s.drop_last());
        dedupe_is_stable(s.drop_last());
        if !d.contains(s.last()) {
            assert(d.push(s.last()).drop_last() =~= d);
        }
    }
}

/// The entries of a list with commas, of the first `n` pieces: what is not empty,
/// without the white space around it.
pub open spec fn listed_entries(pieces: Seq<Seq<char>>, n: nat) -> Seq<Seq<char>>
    decreases n,
{
    if n == 0 {
        Seq::empty()
    } else {
        let init = listed_entries(pieces, (n - 1) as nat);
        let t = trimmed(pieces[n - 1]);
        if t.len() > 0 {
            init.push(t)
        } else {
            init
        }
    }
}

/// The resolvers that a setting names, with commas between them.
pub open spec fn configured_in(value: Seq<char>) -> Seq<Seq<char>> {
    deduped(listed_entries(pieces(value, ','), pieces(value, ',').len()))
}

/// The resolvers that a setting names, with commas between them.
pub fn parse_configured_nameservers(value: &str) -> (r: Vec<String>)
    ensures
        texts(r@) == configured_in(value@),
{
    let parts = split(value, ',');
    let ghost ps = pieces(value@, ',');
    let mut found = no_texts();
    let mut i: usize = 0;
    while i < parts.len()
        invariant
            ps == texts(parts@),
            i <= parts@.len(),
            texts(found@) == listed_entries(ps, i as nat),
        decreases parts@.len() - i,
    {
        proof {
            assert(ps[i as int] == parts@[i as int]@);
        }
        let t = trim(parts[i].as_str());
        if !t.as_str().is_empty() {
            push_text(&mut found, t.as_str());
        }
        i += 1;
    }
    dedupe_nameservers(&found)
}

/// The resolver that a line of a resolver file names, if it names one that a
/// container can use: the resolvers of the host itself are none.
pub open spec fn resolver_in(line: Seq<char>) -> Option<Seq<char>> {
    let t = trimmed(pieces(line, '#')[0]);
    if begins_with(t, "nameserver"@) {
        let w = words_of(t.skip("nameserver"@.len() as int));
        if w.len() > 0 && !is_local_address(w[0]) {
            Some(w[0])
        } else {
            None
        }
    } else {
        None
    }
}

/// The resolvers that the first `n` lines name.
pub open spec fn resolvers_in(lines: Seq<Seq<char>>, n: nat) -> Seq<Seq<char>>
    decreases n,
{
    if n == 0 {
        Seq::empty()
    } else {
        let init = resolvers_in(lines, (n - 1) as nat);
        match resolver_in(lines[n - 1]) {
            Some(x) => init.push(x),
            None => init,
        }
    }
}

/// The resolvers that a resolver file names.
pub open spec fn resolv_conf_in(contents: Seq<char>) -> Seq<Seq<char>> {
    deduped(resolvers_in(lines_of(contents), lines_of(contents).len()))
}

fn resolver_of_line(line: &str) -> (r: Option<String>)
    ensures
        text_of(r) == resolver_in(line@),
{
    let parts = split(line, '#');
    proof {
        assert(pieces(line@, '#')[0] == parts@[0]@);
    }
    let t = trim(parts[0].as_str());
    if !starts_with(t.as_str(), "nameserver") {
        return None;
    }
    let cs = to_chars(t.as_str());
    let n = char_count("nameserver");
    let rest = slice_text(&cs, n, cs.len());
    proof {
        assert(rest@ =~= t@.skip(n as int));
    }
    let ws = words(rest.as_str());
    if ws.len() == 0 {
        return None;
    }
    proof {
        assert(words_of(rest@)[0] == ws@[0]@);
    }
    if is_loopback_or_unspecified_address(ws[0].as_str()) {
        return None;
    }
    Some(ws[0].clone())
}

/// The resolvers that a resolver file names.
pub fn parse_resolv_conf_nameservers(contents: &str) -> (r: Vec<String>)
    ensures
        texts(r@) == resolv_conf_in(contents@),
{
    let all = lines(contents);
    let ghost ls = lines_of(contents@);
    let mut found = no_texts();
    let mut i: usize = 0;
    while i < all.len()
        invariant
            ls == texts(all@),
            i <= all@.len(),
            texts(found@) == resolvers_in(ls, i as nat),
        decreases all@.len() - i,
    {
        proof {
            assert(ls[i as int] == all@[i as int]@);
        }
        if let Some(x) = resolver_of_line(all[i].as_str()) {
            push_text(&mut found, x.as_str());
        }
        i += 1;
    }
    dedupe_nameservers(&found)
}

// ---------------------------------------------------------------------------
// The configuration
// ---------------------------------------------------------------------------

/// What a resolver file names; one that cannot be read names nothing.
pub open spec fn names_in_file(contents: Option<Seq<char>>) -> Seq<Seq<char>> {
    match contents {
        Some(c) => resolv_conf_in(c),
        None => Seq::empty(),
    }
}

/// The resolvers that a setting names, if there is one.
pub open spec fn names_in_setting(setting: Option<Seq<char>>) -> Seq<Seq<char>> {
    match setting {
        Some(v) => configured_in(v),
        None => Seq::empty(),
    }
}

/// The resolvers of a container: those of the setting, else those of the first
/// of the host's resolver files that names any.
pub open spec fn chosen_resolvers(
    setting: Option<Seq<char>>,
    systemd: Option<Seq<char>>,
    etc: Option<Seq<char>>,
) -> Seq<Seq<char>> {
    if names_in_setting(setting).len() > 0 {
        names_in_setting(setting)
    } else if names_in_file(systemd).len() > 0 {
        names_in_file(systemd)
    } else {
        names_in_file(etc)
    }
}

fn file_names(contents: Option<&str>) -> (r: Vec<String>)
    ensures
        texts(r@) == names_in_file(str_of(contents)),
{
    match contents {
        Some(c) => parse_resolv_conf_nameservers(c),
        None => no_texts(),
    }
}

/// How a container resolves names, given the value of `STATIX_CONTAINER_DNS` and
/// what the two resolver files of the host hold. Without a setting the gateway of
/// the container is asked too.
pub fn container_dns_config(
    setting: Option<&str>,
    systemd: Option<&str>,
    etc: Option<&str>,
) -> (r: ContainerDnsConfig)
    ensures
        texts(r.nameservers@) == chosen_resolvers(str_of(setting), str_of(systemd), str_of(etc)),
        r.include_default_gateway == (names_in_setting(str_of(setting)).len() == 0),
{
    let configured = match setting {
        Some(v) => parse_configured_nameservers(v),
        None => no_texts(),
    };
    proof {
        assert(texts(configured@).len() == configured@.len());
    }
    if configured.len() > 0 {
        return ContainerDnsConfig { nameservers: configured, include_default_gateway: false };
    }
    let first = file_names(systemd);
    proof {
        assert(texts(first@).len() == first@.len());
    }
    if first.len() > 0 {
        return ContainerDnsConfig { nameservers: first, include_default_gateway: true };
    }
    ContainerDnsConfig { nameservers: file_names(etc), include_default_gateway: true }
}

impl ContainerDnsConfig {
    /// The resolvers as they are told to a reader.
    pub open spec fn shown(&self) -> Seq<char> {
        joined(
            if self.include_default_gateway {
                seq!["guest default gateway"@] + texts(self.nameservers@)
            } else {
                texts(self.nameservers@)
            },
            ", "@,
        )
    }

    /// The resolvers as they are told to a reader.
    pub fn display_nameservers(&self) -> (r: String)
        ensures
            r@ == self.shown(),
    {
        if !self.include_default_gateway {
            return join(&self.nameservers, ", ");
        }
        let ghost names = texts(self.nameservers@);
        let mut all = no_texts();
        push_text(&mut all, "guest default gateway");
        let mut i: usize = 0;
        proof {
            assert(texts(all@) =~= seq!["guest default gateway"@] + names.take(0));
        }
        while i < self.nameservers.len()
            invariant
                names == texts(self.nameservers@),
                i <= self.nameservers@.len(),
                texts(all@) == seq!["guest default gateway"@] + names.take(i as int),
            decreases self.nameservers@.len() - i,
        {
            push_text(&mut all, self.nameservers[i].as_str());
            proof {
                assert(names[i as int] == self.nameservers@[i as int]@);
                assert(texts(all@) =~= seq!["guest default gateway"@] + names.take(i + 1));
            }
            i += 1;
        }
        proof {
            assert(names.take(i as int) =~= names);
        }
        join(&all, ", ")
    }

    /// Whether there is any place to ask for names.
    pub fn is_usable(&self) -> (r: bool)
        ensures
            r == (self.nameservers@.len() > 0 || self.include_default_gateway),
    {
        self.nameservers.len() > 0 || self.include_default_gateway
    }
}

// ---------------------------------------------------------------------------
// Telling the guest
// ---------------------------------------------------------------------------

/// The lines of the guest's resolver file behind its heading.
pub open spec fn resolver_lines(nameservers: Seq<Seq<char>>) -> Seq<Seq<char>> {
    Seq::new(nameservers.len(), |i: int| "nameserver "@ + nameservers[i]).push(
        "options timeout:2 attempts:2"@,
    )
}

/// What the guest is asked to do to resolve names: it writes its resolver file,
/// with its default gateway first where that is asked too.
pub open spec fn resolv_conf_text(
    nameservers: Seq<Seq<char>>,
    include_default_gateway: bool,
) -> Seq<char> {
    if include_default_gateway {
        "gateway=$(ip -4 route show default 2>/dev/null | awk '{print $3; exit}'); rm -f /etc/resolv.conf && { printf '%s\\n' '# Generated by statix-agent for job container DNS'; if [ -n \"$gateway\" ]; then printf '%s\\n' \"nameserver $gateway\"; fi; printf '%s\\n' "@
            + shell_text(resolver_lines(nameservers)) + "; } > /etc/resolv.conf"@
    } else {
        "rm -f /etc/resolv.conf && printf '%s\\n' "@ + shell_text(
            seq!["# Generated by statix-agent for job container DNS"@] + resolver_lines(
                nameservers,
            ),
        ) + " > /etc/resolv.conf"@
    }
}

fn add_resolver_lines(lines: &mut Vec<String>, nameservers: &Vec<String>)
    ensures
        texts(final(lines)@) == texts(old(lines)@) + resolver_lines(texts(nameservers@)),
{
    let ghost front = texts(lines@);
    let ghost names = texts(nameservers@);
    let ghost want = resolver_lines(names);
    let mut i: usize = 0;
    proof {
        assert(texts(lines@) =~= front + want.take(0));
    }
    while i < nameservers.len()
        invariant
            names == texts(nameservers@),
            want == resolver_lines(names),
            i <= nameservers@.len(),
            texts(lines@) == front + want.take(i as int),
        decreases nameservers@.len() - i,
    {
        let mut s = "nameserver ".to_string();
        s.append(nameservers[i].as_str());
        push_text(lines, s.as_str());
        proof {
            assert(names[i as int] == nameservers@[i as int]@);
            assert(want[i as int] == s@);
            assert(texts(lines@) =~= front + want.take(i + 1));
        }
        i += 1;
    }
    push_text(lines, "options timeout:2 attempts:2");
    proof {
        assert(texts(lines@) =~= front + want);
    }
}

/// What the guest is asked to do to resolve names.
pub fn guest_resolv_conf_command(config: &ContainerDnsConfig) -> (r: String)
    ensures
        r@ == resolv_conf_text(texts(config.nameservers@), config.include_default_gateway),
{
    let mut lines = no_texts();
    if !config.include_default_gateway {
        push_text(&mut lines, "# Generated by statix-agent for job container DNS");
        add_resolver_lines(&mut lines, &config.nameservers);
        let mut r = "rm -f /etc/resolv.conf && printf '%s\\n' ".to_string();
        r.append(shell_join(&lines).as_str());
        r.append(" > /etc/resolv.conf");
        return r;
    }
    add_resolver_lines(&mut lines, &config.nameservers);
    proof {
        assert(texts(lines@) =~= resolver_lines(texts(config.nameservers@)));
    }
    let mut r =
        "gateway=$(ip -4 route show default 2>/dev/null | awk '{print $3; exit}'); rm -f /etc/resolv.conf && { printf '%s\\n' '# Generated by statix-agent for job container DNS'; if [ -n \"$gateway\" ]; then printf '%s\\n' \"nameserver $gateway\"; fi; printf '%s\\n' ".to_string();
    r.append(shell_join(&lines).as_str());
    r.append("; } > /etc/resolv.conf");
    r
}

// ---------------------------------------------------------------------------
// What is read and written
// ---------------------------------------------------------------------------

proof fn lemma_listed(parts: Seq<Seq<char>>, n: nat)
    requires
        n <= parts.len(),
        forall|i: int|
            0 <= i < parts.len() ==> (#[trigger] parts[i]).len() > 0 && trimmed(parts[i])
                == parts[i],
    ensures
        listed_entries(parts, n) == parts.take(n as int),
    decreases n,
{
    if n == 0 {
        assert(parts.take(0) =~= Seq::<Seq<char>>::empty());
    } else {
        lemma_listed(parts, (n - 1) as nat);
        assert(parts[n - 1].len() > 0);
        assert(parts.take(n as int) =~= parts.take(n - 1).push(parts[n - 1]));
    }
}

proof fn lemma_nothing_to_dedupe(s: Seq<Seq<char>>)
    requires
        forall|i: int, j: int| 0 <= i < j < s.len() ==> #[trigger] s[i] != #[trigger] s[j],
    ensures
        deduped(s) == s,
    decreases s.len(),
{
    if s.len() > 0 {
        let init = s.drop_last();
        assert forall|i: int, j: int| 0 <= i < j < init.len() implies #[trigger] init[i]
            != #[trigger] init[j] by {
            assert(init[i] == s[i] && init[j] == s[j]);
        }
        lemma_nothing_to_dedupe(init);
        if init.contains(s.last()) {
            let i = choose|i: int| 0 <= i < init.len() && init[i] == s.last();
            assert(s[i] != s[s.len() - 1]);
        }
        assert(init.push(s.last()) =~= s);
    } else {
        assert(deduped(s) =~= s);
    }
}

/// Resolvers that are listed with commas between are the ones that are configured, in
/// that order.
pub proof fn configured_resolvers_are_read(parts: Seq<Seq<char>>)
    requires
        parts.len() > 0,
        forall|i: int|
            0 <= i < parts.len() ==> (#[trigger] parts[i]).len() > 0 && trimmed(parts[i])
                == parts[i] && !parts[i].contains(','),
        forall|i: int, j: int| 0 <= i < j < parts.len() ==> #[trigger] parts[i] != #[trigger] parts[j],
    ensures
        configured_in(joined(parts, seq![','])) == parts,
{
    crate::text::join_then_split(parts, ',');
    lemma_listed(parts, parts.len());
    assert(parts.take(parts.len() as int) =~= parts);
    lemma_nothing_to_dedupe(parts);
}

/// A line that names a resolver gives that resolver, unless it is the host itself.
pub proof fn resolver_is_read_from_its_line(address: Seq<char>)
    requires
        address.len() > 0,
        forall|i: int|
            0 <= i < address.len() ==> !crate::text::is_white(#[trigger] address[i]) && address[i]
                != '#',
    ensures
        resolver_in("nameserver "@ + address) == if is_local_address(address) {
            None
        } else {
            Some(address)
        },
{
    let line = "nameserver "@ + address;
    reveal_strlit("nameserver ");
    reveal_strlit("nameserver");
    assert(!line.contains('#')) by {
        if line.contains('#') {
            let k = choose|k: int| 0 <= k < line.len() && line[k] == '#';
            if k >= 11 {
                assert(address[k - 11] == '#');
            }
        }
    }
    crate::text::lemma_unsplit(line, '#');
    assert(!crate::text::is_white(address[address.len() - 1]));
    assert(line.last() == address[address.len() - 1]);
    crate::text::trimming_is_stable(line);
    assert(line.take(10) =~= "nameserver"@);
    let none = Seq::<char>::empty();
    assert(line.skip(10) =~= none + seq![' '] + address);
    crate::text::white_space_parts_words(none, ' ', address);
    crate::text::unbroken_text_is_a_word(none);
    crate::text::unbroken_text_is_a_word(address);
    assert(words_of(line.skip(10)) =~= seq![address]);
}

proof fn lemma_resolvers(lines: Seq<Seq<char>>, n: nat, x: Seq<char>)
    requires
        n <= lines.len(),
    ensures
        resolvers_in(lines, n).contains(x) <==> exists|i: int|
            0 <= i < n && resolver_in(#[trigger] lines[i]) == Some(x),
    decreases n,
{
    if n > 0 {
        let init = resolvers_in(lines, (n - 1) as nat);
        let all = resolvers_in(lines, n);
        lemma_resolvers(lines, (n - 1) as nat, x);
        if init.contains(x) {
            let k = choose|k: int| 0 <= k < init.len() && init[k] == x;
            assert(all[k] == x);
        }
        if resolver_in(lines[n - 1]) == Some(x) {
            assert(all[all.len() - 1] == x);
        }
        if all.contains(x) && resolver_in(lines[n - 1]) != Some(x) {
            let k = choose|k: int| 0 <= k < all.len() && all[k] == x;
            assert(k < init.len());
            assert(init[k] == x);
        }
    }
}

/// The resolvers of a file are those that its lines name, each once; none of them is the
/// host itself.
pub proof fn file_gives_the_resolvers_of_its_lines(contents: Seq<char>, x: Seq<char>)
    ensures
        resolv_conf_in(contents).contains(x) <==> exists|i: int|
            0 <= i < lines_of(contents).len() && resolver_in(#[trigger] lines_of(contents)[i])
                == Some(x),
        resolv_conf_in(contents).contains(x) ==> !is_local_address(x),
{
    let ls = lines_of(contents);
    lemma_resolvers(ls, ls.len(), x);
    deduped_holds_each_once(resolvers_in(ls, ls.len()));
}

/// What is configured goes before what the host uses, and what the resolver of the
/// system says before the general file; each is used only where those before it name
/// nothing.
pub proof fn resolvers_are_chosen_in_order(
    setting: Option<Seq<char>>,
    systemd: Option<Seq<char>>,
    etc: Option<Seq<char>>,
)
    ensures
        ({
            let r = chosen_resolvers(setting, systemd, etc);
            let configured = setting is Some && configured_in(setting->0).len() > 0;
            let system = systemd is Some && resolv_conf_in(systemd->0).len() > 0;
            &&& configured ==> r == configured_in(setting->0)
            &&& !configured && system ==> r == resolv_conf_in(systemd->0)
            &&& !configured && !system && etc is Some ==> r == resolv_conf_in(etc->0)
            &&& !configured && !system && etc is None ==> r.len() == 0
            &&& configured <==> names_in_setting(setting).len() > 0
        }),
{
}

/// The command that sets the resolvers up hands each of them to the guest, in words that
/// a shell reads as they were meant; and the gateway where it is to be asked too.
pub proof fn guest_is_told_each_resolver(nameservers: Seq<Seq<char>>, include_default_gateway: bool)
    ensures
        ({
            let text = resolv_conf_text(nameservers, include_default_gateway);
            &&& exists|words: Seq<Seq<char>>|
                {
                    &&& crate::text::occurs(text, #[trigger] shell_text(words))
                    &&& crate::shell::shell_words(shell_text(words)) == Some(words)
                    &&& forall|i: int|
                        0 <= i < nameservers.len() ==> words.contains(
                            "nameserver "@ + #[trigger] nameservers[i],
                        )
                }
            &&& include_default_gateway ==> crate::text::occurs(text, "nameserver $gateway"@)
        }),
{
    let text = resolv_conf_text(nameservers, include_default_gateway);
    let lines = resolver_lines(nameservers);
    let words = if include_default_gateway {
        lines
    } else {
        seq!["# Generated by statix-agent for job container DNS"@] + lines
    };
    crate::shell::shell_reads_back(words);
    assert forall|i: int| 0 <= i < nameservers.len() implies words.contains(
        "nameserver "@ + #[trigger] nameservers[i],
    ) by {
        assert(lines[i] == "nameserver "@ + nameservers[i]);
        if include_default_gateway {
            assert(words[i] == lines[i]);
        } else {
            assert(words[i + 1] == lines[i]);
        }
    }
    if include_default_gateway {
        let front =
            "gateway=$(ip -4 route show default 2>/dev/null | awk '{print $3; exit}'); rm -f /etc/resolv.conf && { printf '%s\\n' '# Generated by statix-agent for job container DNS'; if [ -n \"$gateway\" ]; then printf '%s\\n' \"nameserver $gateway\"; fi; printf '%s\\n' "@;
        crate::text::middle_occurs(front, shell_text(words), "; } > /etc/resolv.conf"@);
        reveal_strlit(
            "gateway=$(ip -4 route show default 2>/dev/null | awk '{print $3; exit}'); rm -f /etc/resolv.conf && { printf '%s\\n' '# Generated by statix-agent for job container DNS'; if [ -n \"$gateway\" ]; then printf '%s\\n' \"nameserver $gateway\"; fi; printf '%s\\n' ",
        );
        reveal_strlit("nameserver $gateway");
        let at: int = 211;
        assert(front.subrange(at, at + 19) =~= "nameserver $gateway"@);
        assert(crate::text::occurs_at(front, "nameserver $gateway"@, at));
        crate::text::part_occurs(
            Seq::empty(),
            front,
            shell_text(words) + "; } > /etc/resolv.conf"@,
            "nameserver $gateway"@,
        );
        assert(Seq::empty() + front + (shell_text(words) + "; } > /etc/resolv.conf"@) =~= text);
    } else {
        crate::text::middle_occurs(
            "rm -f /etc/resolv.conf && printf '%s\\n' "@,
            shell_text(words),
            " > /etc/resolv.conf"@,
        );
    }
}

/// The resolvers are shown in their order, with the gateway in front exactly where the
/// guest may ask it.
pub proof fn resolvers_are_shown(config: ContainerDnsConfig)
    ensures
        !config.include_default_gateway ==> config.shown() == joined(
            texts(config.nameservers@),
            ", "@,
        ),
        config.include_default_gateway && config.nameservers@.len() == 0 ==> config.shown()
            == "guest default gateway"@,
        config.include_default_gateway && config.nameservers@.len() > 0 ==> config.shown()
            == "guest default gateway"@ + ", "@ + joined(texts(config.nameservers@), ", "@),
{
    let all = texts(config.nameservers@);
    crate::text::joining_goes_part_by_part(seq!["guest default gateway"@], all, ", "@);
}

} // verus!

//! What is measured on the host, read out of the files that show it.
use vstd::prelude::*;
use vstd::string::*;

use crate::text::{
    begins_with, characters_are_told_apart, decimal, decimal_reads_back, is_digit, is_white,
    lemma_number_bound, lines, lines_of, number_of, numbers_are_digits, parse_number, parted_first,
    parted_reads_back, same, split_once, starts_with, str_of, text_of, texts, trim, trimmed,
    white_space_around_is_ignored, words, words_of,
};

verus! {

/// The use of memory, in bytes.
#[derive(Debug, Clone, Copy, PartialEq, Eq, Structural)]
pub struct MemorySnapshot {
    pub total: u64,
    pub used: u64,
    pub cached: Option<u64>,
    pub available: Option<u64>,
}

/// The lesser of two numbers.
pub open spec fn least(a: nat, b: nat) -> nat {
    if a <= b {
        a
    } else {
        b
    }
}

fn smaller(a: u64, b: u64) -> (r: u64)
    ensures
        r == least(a as nat, b as nat),
{
    if a <= b {
        a
    } else {
        b
    }
}

/// What is left of `a` after `b` is taken away, or nothing.
pub open spec fn without(a: nat, b: nat) -> nat {
    if a >= b {
        (a - b) as nat
    } else {
        0
    }
}

// ---------------------------------------------------------------------------
// Numbers
// ---------------------------------------------------------------------------

/// The number that a text holds, white space around it aside.
pub open spec fn number_in(raw: Seq<char>) -> Option<nat> {
    number_of(trimmed(raw), u64::MAX as nat)
}

/// What a number says that may be missing.
pub open spec fn maybe(n: Option<u64>) -> Option<nat> {
    match n {
        Some(x) => Some(x as nat),
        None => None,
    }
}

/// The number that a text holds, white space around it aside.
pub fn parse_positive_number(raw: &str) -> (r: Option<u64>)
    ensures
        maybe(r) == number_in(raw@),
{
    let t = trim(raw);
    parse_number(t.as_str(), u64::MAX)
}

/// The number that a file holds, or zero.
pub open spec fn number_or_zero(contents: Option<Seq<char>>) -> nat {
    match contents {
        Some(c) => match number_in(c) {
            Some(n) => n,
            None => 0,
        },
        None => 0,
    }
}

/// The number that a file holds, or zero.
pub fn read_u64(contents: Option<&str>) -> (r: u64)
    ensures
        r == number_or_zero(str_of(contents)),
{
    match contents {
        Some(c) => match parse_positive_number(c) {
            Some(n) => n,
            None => 0,
        },
        None => 0,
    }
}

// ---------------------------------------------------------------------------
// The memory of a control group
// ---------------------------------------------------------------------------

/// The cached memory that a line of the statistics shows.
pub open spec fn file_cache_in(line: Seq<char>) -> Option<nat> {
    let w = words_of(line);
    if w.len() > 1 && w[0] == "file"@ {
        number_in(w[1])
    } else {
        None
    }
}

/// The cached memory that the first of these lines shows that shows any.
pub open spec fn first_file_cache(lines: Seq<Seq<char>>) -> Option<nat>
    decreases lines.len(),
{
    if lines.len() == 0 {
        None
    } else {
        match file_cache_in(lines[0]) {
            Some(n) => Some(n),
            None => first_file_cache(lines.drop_first()),
        }
    }
}

/// The use of memory in a control group with a limit.
pub open spec fn cgroup_memory(
    limit: Seq<char>,
    current: Seq<char>,
    stat: Seq<char>,
) -> Option<MemorySnapshot> {
    match (number_in(limit), number_in(current)) {
        (Some(total), Some(now)) => if trimmed(limit) == "max"@ || total == 0 {
            None
        } else {
            let used = least(now, total);
            Some(
                MemorySnapshot {
                    total: total as u64,
                    used: used as u64,
                    cached: match first_file_cache(lines_of(stat)) {
                        Some(c) => Some(least(c, used) as u64),
                        None => None,
                    },
                    available: Some((total - used) as u64),
                },
            )
        },
        _ => None,
    }
}

fn find_file_cache(stat: &str) -> (r: Option<u64>)
    ensures
        maybe(r) == first_file_cache(lines_of(stat@)),
{
    let all = lines(stat);
    let ghost ls = lines_of(stat@);
    let mut i: usize = 0;
    proof {
        assert(ls.skip(0) =~= ls);
    }
    while i < all.len()
        invariant
            ls == lines_of(stat@),
            ls == texts(all@),
            i <= all@.len(),
            first_file_cache(ls) == first_file_cache(ls.skip(i as int)),
        decreases all@.len() - i,
    {
        let fields = words(all[i].as_str());
        proof {
            assert(ls.skip(i as int)[0] == all@[i as int]@);
            assert(ls.skip(i as int).drop_first() =~= ls.skip(i + 1));
            assert(words_of(all@[i as int]@) == texts(fields@));
        }
        if fields.len() > 1 && same(fields[0].as_str(), "file") {
            if let Some(n) = parse_positive_number(fields[1].as_str()) {
                return Some(n);
            }
        }
        i += 1;
    }
    None
}

/// The use of memory in the control group, given what `memory.max`,
/// `memory.current` and `memory.stat` hold; nothing where one of them cannot be
/// read or there is no limit.
pub fn read_cgroup_memory_v2(
    limit: Option<&str>,
    current: Option<&str>,
    stat: Option<&str>,
) -> (r: Option<MemorySnapshot>)
    ensures
        r == match (limit, current, stat) {
            (Some(l), Some(c), Some(s)) => cgroup_memory(l@, c@, s@),
            _ => None,
        },
{
    match (limit, current, stat) {
        (Some(l), Some(c), Some(s)) => {
            let t = trim(l);
            if same(t.as_str(), "max") {
                return None;
            }
            match (parse_positive_number(l), parse_positive_number(c)) {
                (Some(total), Some(now)) => {
                    if total == 0 {
                        return None;
                    }
                    let used = smaller(now, total);
                    let cached = match find_file_cache(s) {
                        Some(n) => Some(smaller(n, used)),
                        None => None,
                    };
                    Some(
                        MemorySnapshot { total, used, cached, available: Some(total - used) },
                    )
                },
                _ => None,
            }
        },
        _ => None,
    }
}

// ---------------------------------------------------------------------------
// The memory of the host
// ---------------------------------------------------------------------------

/// An entry of the memory information.
#[derive(Debug)]
pub struct MeminfoEntry {
    pub key: String,
    pub value: u64,
}

/// The entry that a line shows: its key, and the number behind the colon.
pub open spec fn entry_in(line: Seq<char>) -> Option<(Seq<char>, nat)> {
    match parted_first(line, ':') {
        Some((key, rest)) => if words_of(rest).len() > 0 {
            match number_of(words_of(rest)[0], u64::MAX as nat) {
                Some(n) => Some((trimmed(key), n)),
                None => None,
            }
        } else {
            None
        },
        None => None,
    }
}

/// The entries of the first `n` lines, by their keys; the last line with a key
/// counts.
pub open spec fn entries_in(lines: Seq<Seq<char>>, n: nat) -> Map<Seq<char>, nat>
    decreases n,
{
    if n == 0 {
        Map::empty()
    } else {
        let init = entries_in(lines, (n - 1) as nat);
        match entry_in(lines[n - 1]) {
            Some((key, value)) => init.insert(key, value),
            None => init,
        }
    }
}

/// The entries of the memory information, by their keys.
pub open spec fn meminfo_in(content: Seq<char>) -> Map<Seq<char>, nat> {
    entries_in(lines_of(content), lines_of(content).len())
}

/// What a list of entries says of each key.
pub open spec fn entry_map(v: Seq<MeminfoEntry>) -> Map<Seq<char>, nat>
    decreases v.len(),
{
    if v.len() == 0 {
        Map::empty()
    } else {
        entry_map(v.drop_last()).insert(v.last().key@, v.last().value as nat)
    }
}

/// The entries of the memory information.
pub fn parse_meminfo(content: &str) -> (r: Vec<MeminfoEntry>)
    ensures
        entry_map(r@) == meminfo_in(content@),
{
    let all = lines(content);
    let ghost ls = lines_of(content@);
    let mut r: Vec<MeminfoEntry> = Vec::new();
    let mut i: usize = 0;
    while i < all.len()
        invariant
            ls == texts(all@),
            i <= all@.len(),
            entry_map(r@) == entries_in(ls, i as nat),
        decreases all@.len() - i,
    {
        proof {
            assert(ls[i as int] == all@[i as int]@);
        }
        if let Some((key, rest)) = split_once(all[i].as_str(), ':') {
            let fields = words(rest.as_str());
            proof {
                assert(words_of(rest@) == texts(fields@));
            }
            if fields.len() > 0 {
                if let Some(value) = parse_number(fields[0].as_str(), u64::MAX) {
                    let ghost before = r@;
                    let entry = MeminfoEntry { key: trim(key.as_str()), value };
                    r.push(entry);
                    proof {
                        assert(r@.drop_last() =~= before);
                    }
                }
            }
        }
        i += 1;
    }
    r
}

/// The bytes of an entry that is given in kibibytes.
pub open spec fn bytes_of(values: Map<Seq<char>, nat>, key: Seq<char>) -> Option<nat> {
    if values.contains_key(key) {
        Some(least(values[key] * 1_024, u64::MAX as nat))
    } else {
        None
    }
}

/// The bytes of an entry that is given in kibibytes.
pub fn read_meminfo_value_bytes(values: &Vec<MeminfoEntry>, key: &str) -> (r: Option<u64>)
    ensures
        maybe(r) == bytes_of(entry_map(values@), key@),
{
    let mut i: usize = values.len();
    proof {
        assert(values@.take(i as int) =~= values@);
    }
    while i > 0
        invariant
            i <= values@.len(),
            entry_map(values@).contains_key(key@) <==> entry_map(
                values@.take(i as int),
            ).contains_key(key@),
            entry_map(values@).contains_key(key@) ==> entry_map(values@)[key@] == entry_map(
                values@.take(i as int),
            )[key@],
        decreases i,
    {
        i -= 1;
        proof {
            assert(values@.take(i + 1).drop_last() =~= values@.take(i as int));
            assert(values@.take(i + 1).last() == values@[i as int]);
        }
        if same(values[i].key.as_str(), key) {
            let v: u64 = values[i].value;
            return if v > u64::MAX / 1_024 {
                Some(u64::MAX)
            } else {
                Some(v * 1_024)
            };
        }
    }
    None
}

/// The bytes of an entry, or zero.
pub open spec fn bytes_or_zero(values: Map<Seq<char>, nat>, key: Seq<char>) -> nat {
    match bytes_of(values, key) {
        Some(n) => n,
        None => 0,
    }
}

fn bytes_or_none(values: &Vec<MeminfoEntry>, key: &str) -> (r: u64)
    ensures
        r == bytes_or_zero(entry_map(values@), key@),
{
    match read_meminfo_value_bytes(values, key) {
        Some(n) => n,
        None => 0,
    }
}

/// The memory that serves as a cache: buffers, cached files and what can be
/// reclaimed, but not what is shared.
pub open spec fn cache_bytes(values: Map<Seq<char>, nat>) -> nat {
    without(
        least(
            least(
                bytes_or_zero(values, "Buffers"@) + bytes_or_zero(values, "Cached"@),
                u64::MAX as nat,
            ) + bytes_or_zero(values, "SReclaimable"@),
            u64::MAX as nat,
        ),
        bytes_or_zero(values, "Shmem"@),
    )
}

/// The use of memory that the memory information shows.
pub open spec fn host_memory(values: Map<Seq<char>, nat>) -> Option<MemorySnapshot> {
    match (bytes_of(values, "MemTotal"@), bytes_of(values, "MemAvailable"@)) {
        (Some(total), Some(available)) => {
            let used = without(total, available);
            Some(
                MemorySnapshot {
                    total: total as u64,
                    used: used as u64,
                    cached: Some(least(cache_bytes(values), used) as u64),
                    available: Some((total - used) as u64),
                },
            )
        },
        _ => None,
    }
}

/// The use of memory that `/proc/meminfo` shows, where it can be read and shows
/// it.
pub fn read_proc_meminfo(content: Option<&str>) -> (r: Option<MemorySnapshot>)
    ensures
        r == match content {
            Some(c) => host_memory(meminfo_in(c@)),
            None => None,
        },
{
    let values = match content {
        Some(c) => parse_meminfo(c),
        None => {
            return None;
        },
    };
    let total = match read_meminfo_value_bytes(&values, "MemTotal") {
        Some(n) => n,
        None => {
            return None;
        },
    };
    let available = match read_meminfo_value_bytes(&values, "MemAvailable") {
        Some(n) => n,
        None => {
            return None;
        },
    };
    let buffers = bytes_or_none(&values, "Buffers");
    let cached = bytes_or_none(&values, "Cached");
    let reclaimable = bytes_or_none(&values, "SReclaimable");
    let shmem = bytes_or_none(&values, "Shmem");
    let cache = buffers.saturating_add(cached).saturating_add(reclaimable).saturating_sub(shmem);
    let used = total.saturating_sub(available);
    Some(
        MemorySnapshot {
            total,
            used,
            cached: Some(smaller(cache, used)),
            available: Some(total - used),
        },
    )
}

/// The use of memory that the system itself reports.
pub open spec fn reported_memory(total: nat, available: nat) -> MemorySnapshot {
    let t = if total == 0 {
        1
    } else {
        total
    };
    let a = least(available, t);
    MemorySnapshot {
        total: t as u64,
        used: (t - a) as u64,
        cached: None,
        available: Some(a as u64),
    }
}

/// The use of memory that the system itself reports.
pub fn system_memory(total: u64, available: u64) -> (r: MemorySnapshot)
    ensures
        r == reported_memory(total as nat, available as nat),
{
    let t: u64 = if total == 0 {
        1
    } else {
        total
    };
    let a = smaller(available, t);
    MemorySnapshot { total: t, used: t - a, cached: None, available: Some(a) }
}

/// The use of memory: that of the control group where it has a limit, else what
/// the memory information shows.
pub open spec fn chosen_memory(
    cgroup: Option<MemorySnapshot>,
    proc_meminfo: Option<MemorySnapshot>,
) -> Option<MemorySnapshot> {
    if cgroup is Some {
        cgroup
    } else {
        proc_meminfo
    }
}

/// The use of memory: that of the control group where it has a limit, else what
/// the memory information shows; nothing where neither says.
pub fn read_memory_usage(
    cgroup: Option<MemorySnapshot>,
    proc_meminfo: Option<MemorySnapshot>,
) -> (r: Option<MemorySnapshot>)
    ensures
        r == chosen_memory(cgroup, proc_meminfo),
{
    match cgroup {
        Some(s) => Some(s),
        None => proc_meminfo,
    }
}

/// Whether the numbers of a snapshot go together.
pub open spec fn is_sound(s: MemorySnapshot) -> bool {
    &&& s.used <= s.total
    &&& s.cached is Some ==> s.cached->0 <= s.used
    &&& s.available is Some ==> s.available->0 + s.used == s.total
}

/// Wherever it comes from, a snapshot's numbers go together: no more is used than
/// there is, no more is cached than is used, and what is not used is available.
pub proof fn snapshots_are_sound(
    limit: Seq<char>,
    current: Seq<char>,
    stat: Seq<char>,
    content: Seq<char>,
    total: u64,
    available: u64,
)
    ensures
        cgroup_memory(limit, current, stat) is Some ==> is_sound(
            cgroup_memory(limit, current, stat)->0,
        ),
        host_memory(meminfo_in(content)) is Some ==> is_sound(
            host_memory(meminfo_in(content))->0,
        ),
        is_sound(reported_memory(total as nat, available as nat)),
{
    crate::text::lemma_number_bound(trimmed(limit), u64::MAX as nat);
    crate::text::lemma_number_bound(trimmed(current), u64::MAX as nat);
}

// ---------------------------------------------------------------------------
// Disks
// ---------------------------------------------------------------------------

/// A disk, with the bytes that it has and those that are free.
#[derive(Debug, Clone, Copy, PartialEq, Eq, Structural)]
pub struct DiskSpace {
    pub is_root: bool,
    pub total: u64,
    pub available: u64,
}

/// The bytes of a disk that are used, and all of them.
pub open spec fn disk_use(d: DiskSpace) -> (nat, nat) {
    let total = if d.total == 0 {
        1
    } else {
        d.total as nat
    };
    ((total - least(d.available as nat, total)) as nat, total)
}

/// Whether `i` is the first disk that is the root.
pub open spec fn is_first_root(disks: Seq<DiskSpace>, i: int) -> bool {
    0 <= i < disks.len() && disks[i].is_root && forall|j: int|
        0 <= j < i ==> !(#[trigger] disks[j]).is_root
}

/// The use of the disk: of the root where there is one, else of the first disk.
pub fn read_disk_usage(disks: &Vec<DiskSpace>) -> (r: (u64, u64))
    ensures
        forall|i: int|
            #[trigger] is_first_root(disks@, i) ==> (r.0 as nat, r.1 as nat) == disk_use(disks@[i]),
        (forall|i: int| !is_first_root(disks@, i)) ==> (r.0 as nat, r.1 as nat) == (
        if disks@.len() > 0 {
            disk_use(disks@[0])
        } else {
            (0nat, 1nat)
        }),
        r.0 <= r.1,
        r.1 > 0,
{
    let mut i: usize = 0;
    while i < disks.len() && !disks[i].is_root
        invariant
            i <= disks@.len(),
            forall|j: int| 0 <= j < i ==> !(#[trigger] disks@[j]).is_root,
        decreases disks@.len() - i,
    {
        i += 1;
    }
    if disks.len() == 0 {
        return (0, 1);
    }
    let d = if i < disks.len() {
        proof {
            assert(is_first_root(disks@, i as int));
        }
        disks[i]
    } else {
        disks[0]
    };
    let total: u64 = if d.total == 0 {
        1
    } else {
        d.total
    };
    let available = smaller(d.available, total);
    (total - available, total)
}

// ---------------------------------------------------------------------------
// The network
// ---------------------------------------------------------------------------

/// A network interface, with what its files hold where they can be read.
#[derive(Debug)]
pub struct InterfaceFiles {
    pub name: String,
    pub operstate: Option<String>,
    pub rx_bytes: Option<String>,
    pub tx_bytes: Option<String>,
}

/// Whether the traffic of an interface counts: not that of the host with itself,
/// and not that of an interface that is down.
pub open spec fn counts(f: InterfaceFiles) -> bool {
    !begins_with(f.name@, "lo"@) && !(match f.operstate {
        Some(s) => trimmed(s@) == "down"@,
        None => false,
    })
}

/// The bytes that the first `n` interfaces received and sent.
pub open spec fn traffic(files: Seq<InterfaceFiles>, n: nat) -> (nat, nat)
    decreases n,
{
    if n == 0 {
        (0, 0)
    } else {
        let (rx, tx) = traffic(files, (n - 1) as nat);
        let f = files[n - 1];
        if counts(f) {
            (
                least(rx + number_or_zero(text_of(f.rx_bytes)), u64::MAX as nat),
                least(tx + number_or_zero(text_of(f.tx_bytes)), u64::MAX as nat),
            )
        } else {
            (rx, tx)
        }
    }
}

fn read_file(contents: &Option<String>) -> (r: u64)
    ensures
        r == number_or_zero(text_of(*contents)),
{
    match contents {
        Some(c) => read_u64(Some(c.as_str())),
        None => 0,
    }
}

fn is_counted(f: &InterfaceFiles) -> (r: bool)
    ensures
        r == counts(*f),
{
    if starts_with(f.name.as_str(), "lo") {
        return false;
    }
    match &f.operstate {
        Some(s) => {
            let t = trim(s.as_str());
            !same(t.as_str(), "down")
        },
        None => true,
    }
}

/// The bytes that the interfaces received and sent.
pub fn read_network_usage(files: &Vec<InterfaceFiles>) -> (r: (u64, u64))
    ensures
        (r.0 as nat, r.1 as nat) == traffic(files@, files@.len()),
{
    let mut rx: u64 = 0;
    let mut tx: u64 = 0;
    let mut i: usize = 0;
    while i < files.len()
        invariant
            i <= files@.len(),
            (rx as nat, tx as nat) == traffic(files@, i as nat),
        decreases files@.len() - i,
    {
        if is_counted(&files[i]) {
            rx = rx.saturating_add(read_file(&files[i].rx_bytes));
            tx = tx.saturating_add(read_file(&files[i].tx_bytes));
        }
        i += 1;
    }
    (rx, tx)
}

// ---------------------------------------------------------------------------
// All of it
// ---------------------------------------------------------------------------

/// What is measured on the host, but for the load of its processors.
#[derive(Debug, Clone, Copy, PartialEq, Eq, Structural)]
pub struct HostNumbers {
    pub v: u8,
    pub mem_used: u64,
    pub mem_total: u64,
    pub mem_cached: Option<u64>,
    pub mem_available: Option<u64>,
    pub disk_used: u64,
    pub disk_total: u64,
    pub net_rx: u64,
    pub net_tx: u64,
}

/// What is measured on the host, put together; a host has some memory.
pub open spec fn put_together(
    memory: MemorySnapshot,
    disk: (u64, u64),
    network: (u64, u64),
) -> HostNumbers {
    HostNumbers {
        v: 1,
        mem_used: memory.used,
        mem_total: if memory.total == 0 {
            1
        } else {
            memory.total
        },
        mem_cached: memory.cached,
        mem_available: memory.available,
        disk_used: disk.0,
        disk_total: disk.1,
        net_rx: network.0,
        net_tx: network.1,
    }
}

/// What is measured on the host, put together; a host has some memory.
pub fn host_numbers(memory: MemorySnapshot, disk: (u64, u64), network: (u64, u64)) -> (r:
    HostNumbers)
    ensures
        r == put_together(memory, disk, network),
{
    let mem_total: u64 = if memory.total == 0 {
        1
    } else {
        memory.total
    };
    HostNumbers {
        v: 1,
        mem_used: memory.used,
        mem_total,
        mem_cached: memory.cached,
        mem_available: memory.available,
        disk_used: disk.0,
        disk_total: disk.1,
        net_rx: network.0,
        net_tx: network.1,
    }
}

// ---------------------------------------------------------------------------
// What the figures mean
// ---------------------------------------------------------------------------

/// A number is read whatever white space is around it.
pub proof fn number_is_read_through_white_space(front: Seq<char>, n: nat, back: Seq<char>)
    requires
        n <= u64::MAX,
        forall|i: int| 0 <= i < front.len() ==> is_white(#[trigger] front[i]),
        forall|i: int| 0 <= i < back.len() ==> is_white(#[trigger] back[i]),
    ensures
        number_in(front + decimal(n) + back) == Some(n),
        number_or_zero(Some(front + decimal(n) + back)) == n,
        number_or_zero(None) == 0,
{
    let d = decimal(n);
    decimal_reads_back(n);
    assert(is_digit(d[0]) && is_digit(d[d.len() - 1]));
    characters_are_told_apart(d[0]);
    characters_are_told_apart(d.last());
    white_space_around_is_ignored(front, d, back);
    assert(number_of(d, u64::MAX as nat) == Some(n));
}

/// A control group with a limit: the limit is the total, what is used is used up to the
/// limit, and the rest is available.
pub proof fn group_memory_is_what_its_files_say(
    limit: Seq<char>,
    current: Seq<char>,
    stat: Seq<char>,
    total: nat,
    now: nat,
)
    requires
        number_in(limit) == Some(total),
        number_in(current) == Some(now),
    ensures
        total == 0 ==> cgroup_memory(limit, current, stat) is None,
        total > 0 ==> ({
            let s = cgroup_memory(limit, current, stat);
            &&& s is Some
            &&& s->0.total == total
            &&& s->0.used == if now <= total {
                now
            } else {
                total
            }
            &&& s->0.available == Some((total - s->0.used) as u64)
        }),
{
    lemma_number_bound(trimmed(limit), u64::MAX as nat);
    lemma_number_bound(trimmed(current), u64::MAX as nat);
    numbers_are_digits(trimmed(limit), u64::MAX as nat);
    reveal_strlit("max");
    if trimmed(limit) == "max"@ {
        assert(trimmed(limit)[0] == 'm');
    }
}

/// A control group whose files cannot be read as numbers, or that has no limit, says
/// nothing of memory.
pub proof fn group_without_limit_says_nothing(
    limit: Seq<char>,
    current: Seq<char>,
    stat: Seq<char>,
)
    requires
        trimmed(limit) == "max"@ || number_in(limit) is None || number_in(current) is None,
    ensures
        cgroup_memory(limit, current, stat) is None,
{
}

/// Whether a line of the statistics shows cached memory.
pub open spec fn shows_cache(line: Seq<char>) -> bool {
    let w = words_of(line);
    w.len() > 1 && w[0] == "file"@ && number_in(w[1]) is Some
}

proof fn lemma_first_cache(lines: Seq<Seq<char>>, i: int)
    requires
        0 <= i <= lines.len(),
        forall|j: int| 0 <= j < i ==> !shows_cache(#[trigger] lines[j]),
        i < lines.len() ==> shows_cache(lines[i]),
    ensures
        i < lines.len() ==> first_file_cache(lines) == number_in(words_of(lines[i])[1]),
        i == lines.len() ==> first_file_cache(lines) is None,
    decreases lines.len(),
{
    if lines.len() > 0 && i > 0 {
        assert(!shows_cache(lines[0]));
        let rest = lines.drop_first();
        assert forall|j: int| 0 <= j < i - 1 implies !shows_cache(#[trigger] rest[j]) by {
            assert(rest[j] == lines[j + 1]);
        }
        lemma_first_cache(rest, i - 1);
    }
}

/// The cached memory of a control group is the number on the first line of its
/// statistics that says `file` and a number, as long as no more than that is used.
pub proof fn cached_memory_is_on_the_file_line(
    limit: Seq<char>,
    current: Seq<char>,
    stat: Seq<char>,
    i: int,
    n: nat,
)
    requires
        cgroup_memory(limit, current, stat) is Some,
        0 <= i < lines_of(stat).len(),
        words_of(lines_of(stat)[i]).len() > 1,
        words_of(lines_of(stat)[i])[0] == "file"@,
        number_in(words_of(lines_of(stat)[i])[1]) == Some(n),
        forall|j: int| 0 <= j < i ==> !shows_cache(#[trigger] lines_of(stat)[j]),
    ensures
        ({
            let s = cgroup_memory(limit, current, stat)->0;
            &&& n <= s.used ==> s.cached == Some(n as u64)
            &&& n > s.used ==> s.cached == Some(s.used)
        }),
{
    lemma_first_cache(lines_of(stat), i);
    lemma_number_bound(trimmed(words_of(lines_of(stat)[i])[1]), u64::MAX as nat);
    lemma_number_bound(trimmed(limit), u64::MAX as nat);
    lemma_number_bound(trimmed(current), u64::MAX as nat);
}

/// Statistics without such a line say nothing of cached memory.
pub proof fn statistics_may_show_no_cache(limit: Seq<char>, current: Seq<char>, stat: Seq<char>)
    requires
        cgroup_memory(limit, current, stat) is Some,
        forall|j: int| 0 <= j < lines_of(stat).len() ==> !shows_cache(#[trigger] lines_of(stat)[j]),
    ensures
        cgroup_memory(limit, current, stat)->0.cached is None,
{
    lemma_first_cache(lines_of(stat), lines_of(stat).len() as int);
}

/// A line of the memory information with a key, a colon and a number is the entry of
/// that key.
pub proof fn line_is_an_entry(key: Seq<char>, rest: Seq<char>, n: nat)
    requires
        !key.contains(':'),
        n <= u64::MAX,
        words_of(rest).len() > 0,
        words_of(rest)[0] == decimal(n),
    ensures
        entry_in(key + seq![':'] + rest) == Some((trimmed(key), n)),
{
    parted_reads_back(key, rest, ':');
    decimal_reads_back(n);
    assert(number_of(decimal(n), u64::MAX as nat) == Some(n));
}

spec fn entry_key(line: Seq<char>) -> Seq<char> {
    entry_in(line).unwrap().0
}

spec fn entry_value(line: Seq<char>) -> nat {
    entry_in(line).unwrap().1
}

proof fn lemma_entries(lines: Seq<Seq<char>>, n: nat, key: Seq<char>, i: int)
    requires
        n <= lines.len(),
        0 <= i < n,
        entry_in(lines[i]) is Some,
        entry_key(lines[i]) == key,
        forall|j: int|
            i < j < n && entry_in(#[trigger] lines[j]) is Some ==> entry_key(lines[j]) != key,
    ensures
        entries_in(lines, n).contains_key(key),
        entries_in(lines, n)[key] == entry_value(lines[i]),
    decreases n,
{
    if i < n - 1 {
        lemma_entries(lines, (n - 1) as nat, key, i);
        assert(entry_in(lines[n - 1]) is Some ==> entry_key(lines[n - 1]) != key);
    }
}

/// Of the lines of the memory information with one key the last one counts.
pub proof fn last_entry_counts(content: Seq<char>, key: Seq<char>, i: int, n: nat)
    requires
        0 <= i < lines_of(content).len(),
        entry_in(lines_of(content)[i]) == Some((key, n)),
        forall|j: int|
            i < j < lines_of(content).len() && entry_in(#[trigger] lines_of(content)[j]) is Some
                ==> entry_in(lines_of(content)[j]).unwrap().0 != key,
    ensures
        meminfo_in(content).contains_key(key),
        meminfo_in(content)[key] == n,
{
    lemma_entries(lines_of(content), lines_of(content).len(), key, i);
}

/// The kibibytes of an entry; zero where there is none.
pub open spec fn kibibytes(values: Map<Seq<char>, nat>, key: Seq<char>) -> nat {
    if values.contains_key(key) {
        values[key]
    } else {
        0
    }
}

/// The memory of the host: the total and what is available are given in kibibytes, and
/// what is not available is used; the cache is buffers, cached files and what can be
/// reclaimed, less what is shared, and no more than is used.
pub proof fn host_memory_is_what_meminfo_says(values: Map<Seq<char>, nat>)
    requires
        values.contains_key("MemTotal"@),
        values.contains_key("MemAvailable"@),
        values["MemTotal"@] * 1_024 <= u64::MAX,
        values["MemAvailable"@] <= values["MemTotal"@],
        (kibibytes(values, "Buffers"@) + kibibytes(values, "Cached"@) + kibibytes(
            values,
            "SReclaimable"@,
        )) * 1_024 <= u64::MAX,
        kibibytes(values, "Shmem"@) * 1_024 <= u64::MAX,
    ensures
        ({
            let s = host_memory(values);
            let gained = kibibytes(values, "Buffers"@) + kibibytes(values, "Cached"@) + kibibytes(
                values,
                "SReclaimable"@,
            );
            let shared = kibibytes(values, "Shmem"@);
            &&& s is Some
            &&& s->0.total == values["MemTotal"@] * 1_024
            &&& s->0.used == (values["MemTotal"@] - values["MemAvailable"@]) * 1_024
            &&& s->0.available == Some((values["MemAvailable"@] * 1_024) as u64)
            &&& gained < shared ==> s->0.cached == Some(0u64)
            &&& gained >= shared && (gained - shared) * 1_024 <= s->0.used ==> s->0.cached == Some(
                ((gained - shared) * 1_024) as u64,
            )
            &&& gained >= shared && (gained - shared) * 1_024 > s->0.used ==> s->0.cached == Some(
                s->0.used,
            )
        }),
{
}

/// Without the total or what is available the memory information says nothing.
pub proof fn meminfo_may_say_nothing(values: Map<Seq<char>, nat>)
    requires
        !values.contains_key("MemTotal"@) || !values.contains_key("MemAvailable"@),
    ensures
        host_memory(values) is None,
{
}

/// Where the system itself reports memory, what is not available is used.
pub proof fn reported_memory_adds_up(total: u64, available: u64)
    ensures
        ({
            let s = reported_memory(total as nat, available as nat);
            &&& s.cached is None
            &&& total > 0 ==> s.total == total
            &&& total > 0 && available <= total ==> s.used == total - available && s.available
                == Some(available)
            &&& total > 0 && available > total ==> s.used == 0 && s.available == Some(total)
            &&& total == 0 ==> s.total == 1
        }),
{
}

/// A limit of the control group goes before what the host as a whole has.
pub proof fn group_goes_before_host(
    group: Option<MemorySnapshot>,
    host: Option<MemorySnapshot>,
)
    ensures
        group is Some ==> chosen_memory(group, host) == group,
        group is None ==> chosen_memory(group, host) == host,
{
}

/// What is not free on a disk is used.
pub proof fn disk_use_adds_up(d: DiskSpace)
    ensures
        d.total > 0 ==> disk_use(d).1 == d.total,
        d.total > 0 && d.available <= d.total ==> disk_use(d).0 + d.available == d.total,
        d.total > 0 && d.available > d.total ==> disk_use(d).0 == 0,
        d.total == 0 ==> disk_use(d).1 == 1,
{
}

proof fn lemma_traffic_front(files: Seq<InterfaceFiles>, f: InterfaceFiles, n: nat)
    requires
        n <= files.len(),
    ensures
        traffic(files.push(f), n) == traffic(files, n),
    decreases n,
{
    if n > 0 {
        lemma_traffic_front(files, f, (n - 1) as nat);
        assert(files.push(f)[n - 1] == files[n - 1]);
    }
}

/// The traffic of interfaces adds up, what was received and what was sent each on its
/// own; that of the host with itself and of an interface that is down does not count.
pub proof fn interfaces_add_up(files: Seq<InterfaceFiles>, f: InterfaceFiles, rx: nat, tx: nat)
    requires
        rx == number_or_zero(text_of(f.rx_bytes)),
        tx == number_or_zero(text_of(f.tx_bytes)),
    ensures
        traffic(files, 0) == (0nat, 0nat),
        ({
            let before = traffic(files, files.len());
            let after = traffic(files.push(f), files.len() + 1);
            let idle = begins_with(f.name@, "lo"@) || (f.operstate is Some && trimmed(
                f.operstate->0@,
            ) == "down"@);
            &&& idle ==> after == before
            &&& !idle && before.0 + rx <= u64::MAX ==> after.0 == before.0 + rx
            &&& !idle && before.1 + tx <= u64::MAX ==> after.1 == before.1 + tx
            &&& !idle && before.0 + rx > u64::MAX ==> after.0 == u64::MAX
            &&& !idle && before.1 + tx > u64::MAX ==> after.1 == u64::MAX
        }),
{
    lemma_traffic_front(files, f, files.len());
    assert(files.push(f)[files.len() as int] == f);
}

/// Each figure is sent to the server in its place.
pub proof fn figures_keep_their_places(
    memory: MemorySnapshot,
    disk: (u64, u64),
    network: (u64, u64),
)
    ensures
        ({
            let n = put_together(memory, disk, network);
            &&& n.v == 1
            &&& (n.mem_used, n.mem_cached, n.mem_available) == (
                memory.used,
                memory.cached,
                memory.available,
            )
            &&& memory.total > 0 ==> n.mem_total == memory.total
            &&& memory.total == 0 ==> n.mem_total == 1
            &&& (n.disk_used, n.disk_total) == disk
            &&& (n.net_rx, n.net_tx) == network
        }),
{
}

/// The disk that is reported is the first one that holds the system: there is no other
/// such one, and there is one wherever any disk holds the system.
pub proof fn system_disk_is_the_first_of_its_kind(disks: Seq<DiskSpace>, i: int, j: int)
    ensures
        is_first_root(disks, i) ==> 0 <= i < disks.len() && disks[i].is_root,
        is_first_root(disks, i) && is_first_root(disks, j) ==> i == j,
        0 <= j < disks.len() && disks[j].is_root ==> exists|k: int|
            #[trigger] is_first_root(disks, k) && k <= j,
    decreases j,
{
    if is_first_root(disks, i) && is_first_root(disks, j) {
        if i < j {
            assert(!disks[i].is_root);
        } else if j < i {
            assert(!disks[j].is_root);
        }
    }
    if 0 <= j < disks.len() && disks[j].is_root && !is_first_root(disks, j) {
        let k = choose|k: int| 0 <= k < j && (#[trigger] disks[k]).is_root;
        system_disk_is_the_first_of_its_kind(disks, i, k);
    }
}

} // verus!

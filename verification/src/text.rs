//! Text handling over sequences of characters.
//!
//! Every function here is described over `Seq<char>`, the view of `str` and
//! `String`, so that the rest of the crate can state what it does to text
//! without speaking of bytes.
use vstd::prelude::*;
use vstd::string::*;
use vstd::utf8::*;

verus! {

/// `String::push` appends the given character to the end of the string.
pub assume_specification[ String::push ](s: &mut String, c: char)
    ensures
        final(s)@ == old(s)@.push(c),
;

// ---------------------------------------------------------------------------
// Views of collections of text
// ---------------------------------------------------------------------------

/// The texts that a sequence of strings holds.
pub open spec fn texts(v: Seq<String>) -> Seq<Seq<char>> {
    Seq::new(v.len(), |i: int| v[i]@)
}

/// The text that an optional string holds.
pub open spec fn text_of(v: Option<String>) -> Option<Seq<char>> {
    match v {
        Some(s) => Some(s@),
        None => None,
    }
}

/// The text that an optional borrowed string holds.
pub open spec fn str_of(v: Option<&str>) -> Option<Seq<char>> {
    match v {
        Some(s) => Some(s@),
        None => None,
    }
}

pub broadcast proof fn lemma_texts_push(v: Seq<String>, s: String)
    ensures
        #[trigger] texts(v.push(s)) == texts(v).push(s@),
{
    assert(texts(v.push(s)) =~= texts(v).push(s@));
}

// ---------------------------------------------------------------------------
// Characters
// ---------------------------------------------------------------------------

/// The characters with the Unicode property `White_Space`.
pub open spec fn is_white(c: char) -> bool {
    let n = c as u32;
    ||| 0x9 <= n <= 0xd
    ||| n == 0x20
    ||| n == 0x85
    ||| n == 0xa0
    ||| n == 0x1680
    ||| 0x2000 <= n <= 0x200a
    ||| n == 0x2028
    ||| n == 0x2029
    ||| n == 0x202f
    ||| n == 0x205f
    ||| n == 0x3000
}

/// `is_white`, executable.
pub fn white(c: char) -> (r: bool)
    ensures
        r == is_white(c),
{
    let n: u32 = c as u32;
    (0x9 <= n && n <= 0xd) || n == 0x20 || n == 0x85 || n == 0xa0 || n == 0x1680 || (0x2000 <= n
        && n <= 0x200a) || n == 0x2028 || n == 0x2029 || n == 0x202f || n == 0x205f || n == 0x3000
}

/// The ASCII decimal digits.
pub open spec fn is_digit(c: char) -> bool {
    0x30 <= c as u32 <= 0x39
}

/// `is_digit`, executable.
pub fn digit(c: char) -> (r: bool)
    ensures
        r == is_digit(c),
{
    let n: u32 = c as u32;
    0x30 <= n && n <= 0x39
}

/// The ASCII letters and digits.
pub open spec fn is_alphanumeric(c: char) -> bool {
    let n = c as u32;
    ||| 0x30 <= n <= 0x39
    ||| 0x41 <= n <= 0x5a
    ||| 0x61 <= n <= 0x7a
}

/// `is_alphanumeric`, executable.
pub fn alphanumeric(c: char) -> (r: bool)
    ensures
        r == is_alphanumeric(c),
{
    let n: u32 = c as u32;
    (0x30 <= n && n <= 0x39) || (0x41 <= n && n <= 0x5a) || (0x61 <= n && n <= 0x7a)
}

/// `c` with an ASCII capital letter replaced by its small letter.
pub open spec fn lower_char(c: char) -> char {
    if 0x41 <= c as u32 <= 0x5a {
        (c as u32 + 0x20) as char
    } else {
        c
    }
}

/// `lower_char`, executable.
pub fn to_lower_char(c: char) -> (r: char)
    ensures
        r == lower_char(c),
{
    let n: u32 = c as u32;
    if 0x41 <= n && n <= 0x5a {
        let b: u8 = (n + 0x20) as u8;
        b as char
    } else {
        c
    }
}

/// The character of a decimal or hexadecimal digit, with small letters.
pub open spec fn digit_char(d: nat) -> char {
    if d < 10 {
        (0x30 + d) as char
    } else {
        (0x57 + d) as char
    }
}

/// `digit_char`, executable.
pub fn to_digit_char(d: u8) -> (r: char)
    requires
        d < 16,
    ensures
        r == digit_char(d as nat),
{
    if d < 10 {
        let b: u8 = 0x30 + d;
        b as char
    } else {
        let b: u8 = 0x57 + d;
        b as char
    }
}

// ---------------------------------------------------------------------------
// Conversion and comparison
// ---------------------------------------------------------------------------

/// The characters of `s`, in order.
pub fn to_chars(s: &str) -> (r: Vec<char>)
    ensures
        r@ == s@,
{
    let mut r: Vec<char> = Vec::new();
    for c in it: s.chars()
        invariant
            it.seq() == s@,
            r@ == s@.take(it.index()),
    {
        r.push(c);
    }
    r
}

/// The text made of `cs[from..to]`.
pub fn slice_text(cs: &Vec<char>, from: usize, to: usize) -> (r: String)
    requires
        from <= to <= cs@.len(),
    ensures
        r@ == cs@.subrange(from as int, to as int),
{
    let mut r = String::new();
    let mut i: usize = from;
    while i < to
        invariant
            from <= i <= to <= cs@.len(),
            r@ == cs@.subrange(from as int, i as int),
        decreases to - i,
    {
        r.push(cs[i]);
        i += 1;
    }
    r
}

/// Whether the two texts hold the same characters.
pub fn same(a: &str, b: &str) -> (r: bool)
    ensures
        r == (a@ == b@),
{
    a.to_owned() == b.to_owned()
}

/// Adds a text to a list.
pub fn push_text(v: &mut Vec<String>, s: &str)
    ensures
        texts(final(v)@) == texts(old(v)@).push(s@),
{
    let ghost before = v@;
    v.push(s.to_owned());
    proof {
        assert(texts(v@) =~= texts(before).push(s@));
    }
}

/// A list of no texts.
pub fn no_texts() -> (r: Vec<String>)
    ensures
        r@.len() == 0,
        texts(r@) == Seq::<Seq<char>>::empty(),
{
    let r: Vec<String> = Vec::new();
    proof {
        assert(texts(r@) =~= Seq::<Seq<char>>::empty());
    }
    r
}

/// The number of characters of `s`.
pub fn char_count(s: &str) -> (r: usize)
    ensures
        r == s@.len(),
{
    s.unicode_len()
}

/// The text that `String::from_utf8_lossy` reads from `bytes`.
pub uninterp spec fn lossy_text(bytes: Seq<u8>) -> Seq<char>;

/// Calls `String::from_utf8_lossy`: the bytes read as UTF-8, where what is not
/// UTF-8 is replaced by `U+FFFD`. Bytes that are UTF-8 give the text they
/// encode; of other bytes the contract says only that the same bytes always
/// give the same text.
#[verifier::external_body]
pub(crate) fn decode_lossy(bytes: &[u8]) -> (r: String)
    ensures
        r@ == lossy_text(bytes@),
        valid_utf8(bytes@) ==> r@ == decode_utf8(bytes@),
{
    String::from_utf8_lossy(bytes).into_owned()
}

// ---------------------------------------------------------------------------
// Prefixes, occurrences, truncation
// ---------------------------------------------------------------------------

/// Whether `s` begins with `prefix`.
pub open spec fn begins_with(s: Seq<char>, prefix: Seq<char>) -> bool {
    prefix.len() <= s.len() && s.take(prefix.len() as int) == prefix
}

/// Whether `needle` stands in `s` from position `i` on.
pub open spec fn occurs_at(s: Seq<char>, needle: Seq<char>, i: int) -> bool {
    0 <= i && i + needle.len() <= s.len() && s.subrange(i, i + needle.len()) == needle
}

/// Whether `needle` stands anywhere in `s`.
pub open spec fn occurs(s: Seq<char>, needle: Seq<char>) -> bool {
    exists|i: int| occurs_at(s, needle, i)
}

fn matches_at(s: &Vec<char>, needle: &Vec<char>, at: usize) -> (r: bool)
    requires
        at <= s@.len(),
    ensures
        r == occurs_at(s@, needle@, at as int),
{
    let n = s.len();
    if needle.len() > n - at {
        return false;
    }
    let mut j: usize = 0;
    while j < needle.len()
        invariant
            j <= needle@.len(),
            n == s@.len(),
            at + needle@.len() <= n,
            forall|k: int| 0 <= k < j ==> s@[at + k] == needle@[k],
        decreases needle@.len() - j,
    {
        if s[at + j] != needle[j] {
            proof {
                assert(s@.subrange(at as int, at + needle@.len())[j as int] == s@[at + j]);
            }
            return false;
        }
        j += 1;
    }
    proof {
        assert(s@.subrange(at as int, at + needle@.len()) =~= needle@);
    }
    true
}

/// Whether `s` begins with `prefix`.
pub fn starts_with(s: &str, prefix: &str) -> (r: bool)
    ensures
        r == begins_with(s@, prefix@),
{
    let cs = to_chars(s);
    let ps = to_chars(prefix);
    proof {
        if prefix@.len() <= s@.len() {
            assert(s@.subrange(0, prefix@.len() as int) =~= s@.take(prefix@.len() as int));
        }
    }
    matches_at(&cs, &ps, 0)
}

/// Whether `needle` stands anywhere in `s`.
pub fn contains(s: &str, needle: &str) -> (r: bool)
    ensures
        r == occurs(s@, needle@),
{
    let cs = to_chars(s);
    let ns = to_chars(needle);
    let mut i: usize = 0;
    while i <= cs.len()
        invariant
            cs@ == s@,
            ns@ == needle@,
            i <= cs@.len() + 1,
            forall|k: int| 0 <= k < i ==> !occurs_at(s@, needle@, k),
        decreases cs@.len() + 1 - i,
    {
        if matches_at(&cs, &ns, i) {
            return true;
        }
        if i == cs.len() {
            return false;
        }
        i += 1;
    }
    false
}

/// The first `n` characters of `s`, or all of them where there are fewer.
pub open spec fn first_chars(s: Seq<char>, n: nat) -> Seq<char> {
    if s.len() <= n {
        s
    } else {
        s.take(n as int)
    }
}

/// The last `n` characters of `s`, or all of them where there are fewer.
pub open spec fn last_chars(s: Seq<char>, n: nat) -> Seq<char> {
    if s.len() <= n {
        s
    } else {
        s.skip(s.len() - n)
    }
}

/// The first `n` characters of `s`, or all of them where there are fewer.
pub fn take_chars(s: &str, n: usize) -> (r: String)
    ensures
        r@ == first_chars(s@, n as nat),
{
    let cs = to_chars(s);
    let end: usize = if cs.len() < n {
        cs.len()
    } else {
        n
    };
    let r = slice_text(&cs, 0, end);
    proof {
        assert(s@.subrange(0, end as int) =~= first_chars(s@, n as nat));
    }
    r
}

/// `s` cut to `n` characters, with `...` behind it where it was longer.
pub open spec fn ellipsized(s: Seq<char>, n: nat) -> Seq<char> {
    if s.len() <= n {
        s
    } else {
        s.take(n as int) + "..."@
    }
}

/// Cutting a text twice is cutting it once.
pub proof fn cutting_is_stable(s: Seq<char>, n: nat)
    ensures
        ellipsized(ellipsized(s, n), n) == ellipsized(s, n),
{
    reveal_strlit("...");
    if s.len() > n {
        assert(ellipsized(s, n).take(n as int) =~= s.take(n as int));
    }
}

/// `s` cut to `n` characters, with `...` behind it where it was longer.
pub fn ellipsize(s: &str, n: usize) -> (r: String)
    ensures
        r@ == ellipsized(s@, n as nat),
{
    if char_count(s) <= n {
        return s.to_owned();
    }
    let mut r = take_chars(s, n);
    r.append("...");
    r
}

/// `s` with the ASCII capital letters replaced by small letters.
pub open spec fn lowered(s: Seq<char>) -> Seq<char> {
    Seq::new(s.len(), |i: int| lower_char(s[i]))
}

/// `s` with the ASCII capital letters replaced by small letters.
pub fn to_lower(s: &str) -> (r: String)
    ensures
        r@ == lowered(s@),
{
    let cs = to_chars(s);
    let mut r = String::new();
    let mut i: usize = 0;
    while i < cs.len()
        invariant
            cs@ == s@,
            i <= cs@.len(),
            r@ == lowered(s@).take(i as int),
        decreases cs@.len() - i,
    {
        r.push(to_lower_char(cs[i]));
        i += 1;
        proof {
            assert(lowered(s@).take(i as int) =~= lowered(s@).take(i - 1).push(
                lowered(s@)[i - 1],
            ));
        }
    }
    proof {
        assert(lowered(s@).take(i as int) =~= lowered(s@));
    }
    r
}

// ---------------------------------------------------------------------------
// Trimming
// ---------------------------------------------------------------------------

/// What trimming removes: white space where `m` is `None`, else the character in `m`.
pub open spec fn strips(m: Option<char>, c: char) -> bool {
    match m {
        None => is_white(c),
        Some(x) => c == x,
    }
}

/// `s` without the characters at its front that `m` strips.
pub open spec fn trim_front(s: Seq<char>, m: Option<char>) -> Seq<char>
    decreases s.len(),
{
    if s.len() > 0 && strips(m, s[0]) {
        trim_front(s.drop_first(), m)
    } else {
        s
    }
}

/// `s` without the characters at its back that `m` strips.
pub open spec fn trim_back(s: Seq<char>, m: Option<char>) -> Seq<char>
    decreases s.len(),
{
    if s.len() > 0 && strips(m, s.last()) {
        trim_back(s.drop_last(), m)
    } else {
        s
    }
}

/// `s` without the characters at both ends that `m` strips.
pub open spec fn trim_both(s: Seq<char>, m: Option<char>) -> Seq<char> {
    trim_back(trim_front(s, m), m)
}

/// `s` without the white space at its ends.
pub open spec fn trimmed(s: Seq<char>) -> Seq<char> {
    trim_both(s, None)
}

fn strip_char(m: Option<char>, c: char) -> (r: bool)
    ensures
        r == strips(m, c),
{
    match m {
        None => white(c),
        Some(x) => c == x,
    }
}

/// `s` without the characters at both ends that `m` strips.
pub fn trim_with(s: &str, m: Option<char>) -> (r: String)
    ensures
        r@ == trim_both(s@, m),
{
    let cs = to_chars(s);
    let mut i: usize = 0;
    proof {
        assert(s@.skip(0) =~= s@);
    }
    while i < cs.len() && strip_char(m, cs[i])
        invariant
            cs@ == s@,
            i <= cs@.len(),
            trim_front(s@, m) == trim_front(s@.skip(i as int), m),
        decreases cs@.len() - i,
    {
        proof {
            assert(s@.skip(i as int).drop_first() =~= s@.skip(i + 1));
        }
        i += 1;
    }
    let ghost front = s@.skip(i as int);
    let mut j: usize = cs.len();
    proof {
        assert(front =~= s@.subrange(i as int, j as int));
    }
    while i < j && strip_char(m, cs[j - 1])
        invariant
            cs@ == s@,
            i <= j <= cs@.len(),
            trim_back(front, m) == trim_back(s@.subrange(i as int, j as int), m),
        decreases j,
    {
        proof {
            assert(s@.subrange(i as int, j as int).drop_last() =~= s@.subrange(i as int, j - 1));
        }
        j -= 1;
    }
    slice_text(&cs, i, j)
}

/// `s` without the white space at its ends.
pub fn trim(s: &str) -> (r: String)
    ensures
        r@ == trimmed(s@),
{
    trim_with(s, None)
}

// ---------------------------------------------------------------------------
// Splitting
// ---------------------------------------------------------------------------

/// The pieces of `s` between the occurrences of `sep`.
pub open spec fn pieces(s: Seq<char>, sep: char) -> Seq<Seq<char>>
    decreases s.len(),
{
    if s.len() == 0 {
        seq![Seq::empty()]
    } else {
        let init = pieces(s.drop_last(), sep);
        if s.last() == sep {
            init.push(Seq::empty())
        } else {
            init.drop_last().push(init.last().push(s.last()))
        }
    }
}

/// There is always a piece, and none holds the separator.
pub proof fn lemma_pieces(s: Seq<char>, sep: char)
    ensures
        pieces(s, sep).len() > 0,
        forall|i: int| 0 <= i < pieces(s, sep).len() ==> !(#[trigger] pieces(s, sep)[i]).contains(
            sep,
        ),
    decreases s.len(),
{
    if s.len() > 0 {
        lemma_pieces(s.drop_last(), sep);
        let init = pieces(s.drop_last(), sep);
        assert forall|i: int| 0 <= i < pieces(s, sep).len() implies !(#[trigger] pieces(
            s,
            sep,
        )[i]).contains(sep) by {
            if s.last() != sep && i == init.len() - 1 {
                let p = init.last().push(s.last());
                assert(pieces(s, sep)[i] == p);
                if p.contains(sep) {
                    let k = choose|k: int| 0 <= k < p.len() && p[k] == sep;
                    assert(init.last()[k] == sep);
                    assert(init[init.len() - 1].contains(sep));
                }
            } else if i < init.len() {
                assert(pieces(s, sep)[i] == init[i]);
            }
        }
    }
}

/// The pieces of `s` between the occurrences of `sep`.
pub fn split(s: &str, sep: char) -> (r: Vec<String>)
    ensures
        texts(r@) == pieces(s@, sep),
        r@.len() > 0,
{
    let cs = to_chars(s);
    let mut done: Vec<String> = Vec::new();
    let mut cur = String::new();
    let mut i: usize = 0;
    proof {
        assert(s@.take(0) =~= Seq::<char>::empty());
        assert(texts(done@).push(cur@) =~= pieces(s@.take(0), sep));
    }
    while i < cs.len()
        invariant
            cs@ == s@,
            i <= cs@.len(),
            texts(done@).push(cur@) == pieces(s@.take(i as int), sep),
        decreases cs@.len() - i,
    {
        let c = cs[i];
        let ghost before = texts(done@);
        let ghost word = cur@;
        proof {
            assert(s@.take(i + 1).drop_last() =~= s@.take(i as int));
            assert(before.push(word).drop_last() =~= before);
        }
        if c == sep {
            let ghost d = done@;
            let ghost cs0 = cur;
            done.push(cur);
            proof {
                lemma_texts_push(d, cs0);
            }
            cur = String::new();
        } else {
            cur.push(c);
        }
        i += 1;
        proof {
            assert(texts(done@).push(cur@) =~= pieces(s@.take(i as int), sep));
        }
    }
    let ghost d = done@;
    let ghost last = cur;
    done.push(cur);
    proof {
        lemma_texts_push(d, last);
        assert(s@.take(i as int) =~= s@);
    }
    done
}

/// `s` without one carriage return at its end.
pub open spec fn without_cr(s: Seq<char>) -> Seq<char> {
    if s.len() > 0 && s.last() == '\r' {
        s.drop_last()
    } else {
        s
    }
}

/// The lines of `s`. A line ends with a line feed, or with a carriage return
/// and a line feed; what follows the last line feed is a line unless it is
/// empty.
pub open spec fn lines_of(s: Seq<char>) -> Seq<Seq<char>> {
    let p = pieces(s, '\n');
    let n = if p.last().len() == 0 {
        (p.len() - 1) as nat
    } else {
        p.len()
    };
    Seq::new(
        n,
        |i: int|
            if i == p.len() - 1 {
                p[i]
            } else {
                without_cr(p[i])
            },
    )
}

/// The lines of `s`.
pub fn lines(s: &str) -> (r: Vec<String>)
    ensures
        texts(r@) == lines_of(s@),
{
    let parts = split(s, '\n');
    let ghost p = pieces(s@, '\n');
    let n = parts.len();
    let mut r: Vec<String> = Vec::new();
    let mut i: usize = 0;
    proof {
        assert(p.len() == n);
    }
    while i < n - 1
        invariant
            n == parts@.len(),
            n > 0,
            p == texts(parts@),
            i <= n - 1,
            r@.len() == i,
            forall|k: int| 0 <= k < i ==> r@[k]@ == without_cr(p[k]),
        decreases n - i,
    {
        let cs = to_chars(parts[i].as_str());
        let end: usize = if cs.len() > 0 && cs[cs.len() - 1] == '\r' {
            cs.len() - 1
        } else {
            cs.len()
        };
        let line = slice_text(&cs, 0, end);
        proof {
            assert(line@ =~= without_cr(p[i as int]));
        }
        r.push(line);
        i += 1;
    }
    let last = parts[n - 1].clone();
    if !last.as_str().is_empty() {
        r.push(last);
    }
    proof {
        assert(texts(r@) =~= lines_of(s@));
    }
    r
}

/// The words of `s`: its longest runs of characters that are not white space.
pub open spec fn words_of(s: Seq<char>) -> Seq<Seq<char>>
    decreases s.len(),
{
    if s.len() == 0 {
        Seq::empty()
    } else {
        let init = words_of(s.drop_last());
        let c = s.last();
        if is_white(c) {
            init
        } else if s.len() == 1 || is_white(s[s.len() - 2]) {
            init.push(seq![c])
        } else {
            init.drop_last().push(init.last().push(c))
        }
    }
}

/// The words of `s`.
pub fn words(s: &str) -> (r: Vec<String>)
    ensures
        texts(r@) == words_of(s@),
{
    let cs = to_chars(s);
    let mut done: Vec<String> = Vec::new();
    let mut cur = String::new();
    let mut i: usize = 0;
    proof {
        assert(s@.take(0) =~= Seq::<char>::empty());
        assert(texts(done@) =~= words_of(s@.take(0)));
    }
    while i < cs.len()
        invariant
            cs@ == s@,
            i <= cs@.len(),
            cur@.len() > 0 <==> (i > 0 && !is_white(s@[i - 1])),
            words_of(s@.take(i as int)) == if cur@.len() > 0 {
                texts(done@).push(cur@)
            } else {
                texts(done@)
            },
        decreases cs@.len() - i,
    {
        let c = cs[i];
        let ghost before = texts(done@);
        let ghost word = cur@;
        proof {
            assert(s@.take(i + 1).drop_last() =~= s@.take(i as int));
            assert(before.push(word).drop_last() =~= before);
        }
        if white(c) {
            if !cur.as_str().is_empty() {
                let ghost d = done@;
                let ghost w = cur;
                done.push(cur);
                proof {
                    lemma_texts_push(d, w);
                }
                cur = String::new();
            }
        } else {
            cur.push(c);
            proof {
                if word.len() == 0 {
                    assert(cur@ =~= seq![c]);
                }
            }
        }
        i += 1;
    }
    if !cur.as_str().is_empty() {
        let ghost d = done@;
        let ghost w = cur;
        done.push(cur);
        proof {
            lemma_texts_push(d, w);
        }
    }
    proof {
        assert(s@.take(i as int) =~= s@);
    }
    done
}

/// The position of the first `c` in `s`; the length of `s` where there is none.
pub open spec fn first_position(s: Seq<char>, c: char) -> nat
    decreases s.len(),
{
    if s.len() == 0 || s[0] == c {
        0
    } else {
        1 + first_position(s.drop_first(), c)
    }
}

/// The position behind the last `c` in `s`; zero where there is none.
pub open spec fn last_position(s: Seq<char>, c: char) -> nat
    decreases s.len(),
{
    if s.len() == 0 || s.last() == c {
        s.len()
    } else {
        last_position(s.drop_last(), c)
    }
}

/// `s` parted at its first `sep`.
pub open spec fn parted_first(s: Seq<char>, sep: char) -> Option<(Seq<char>, Seq<char>)> {
    let i = first_position(s, sep) as int;
    if i < s.len() {
        Some((s.take(i), s.skip(i + 1)))
    } else {
        None
    }
}

/// `s` parted at its last `sep`.
pub open spec fn parted_last(s: Seq<char>, sep: char) -> Option<(Seq<char>, Seq<char>)> {
    let i = last_position(s, sep) as int;
    if i > 0 {
        Some((s.take(i - 1), s.skip(i)))
    } else {
        None
    }
}

pub proof fn lemma_first_position(s: Seq<char>, c: char, i: int)
    requires
        0 <= i <= s.len(),
        forall|k: int| 0 <= k < i ==> s[k] != c,
        i < s.len() ==> s[i] == c,
    ensures
        first_position(s, c) == i,
    decreases s.len(),
{
    if s.len() > 0 && i > 0 {
        assert(s[0] != c);
        lemma_first_position(s.drop_first(), c, i - 1);
    }
}

pub proof fn lemma_last_position(s: Seq<char>, c: char, i: int)
    requires
        0 <= i <= s.len(),
        forall|k: int| i <= k < s.len() ==> s[k] != c,
        i > 0 ==> s[i - 1] == c,
    ensures
        last_position(s, c) == i,
    decreases s.len(),
{
    if s.len() > 0 && i < s.len() {
        assert(s.last() != c);
        lemma_last_position(s.drop_last(), c, i);
    }
}

/// `s` parted at its first `sep`.
pub fn split_once(s: &str, sep: char) -> (r: Option<(String, String)>)
    ensures
        match r {
            Some((a, b)) => parted_first(s@, sep) == Some((a@, b@)),
            None => parted_first(s@, sep) is None,
        },
{
    let cs = to_chars(s);
    let mut i: usize = 0;
    while i < cs.len() && cs[i] != sep
        invariant
            cs@ == s@,
            i <= cs@.len(),
            forall|k: int| 0 <= k < i ==> s@[k] != sep,
        decreases cs@.len() - i,
    {
        i += 1;
    }
    proof {
        lemma_first_position(s@, sep, i as int);
    }
    if i < cs.len() {
        let a = slice_text(&cs, 0, i);
        let b = slice_text(&cs, i + 1, cs.len());
        proof {
            assert(a@ =~= s@.take(i as int));
            assert(b@ =~= s@.skip(i + 1));
        }
        Some((a, b))
    } else {
        None
    }
}

/// `s` parted at its last `sep`.
pub fn rsplit_once(s: &str, sep: char) -> (r: Option<(String, String)>)
    ensures
        match r {
            Some((a, b)) => parted_last(s@, sep) == Some((a@, b@)),
            None => parted_last(s@, sep) is None,
        },
{
    let cs = to_chars(s);
    let mut i: usize = cs.len();
    while i > 0 && cs[i - 1] != sep
        invariant
            cs@ == s@,
            i <= cs@.len(),
            forall|k: int| i <= k < s@.len() ==> s@[k] != sep,
        decreases i,
    {
        i -= 1;
    }
    proof {
        lemma_last_position(s@, sep, i as int);
    }
    if i > 0 {
        let a = slice_text(&cs, 0, i - 1);
        let b = slice_text(&cs, i, cs.len());
        proof {
            assert(a@ =~= s@.take(i - 1));
            assert(b@ =~= s@.skip(i as int));
        }
        Some((a, b))
    } else {
        None
    }
}

// ---------------------------------------------------------------------------
// Joining
// ---------------------------------------------------------------------------

/// The parts in order, with `sep` between neighbours.
pub open spec fn joined(parts: Seq<Seq<char>>, sep: Seq<char>) -> Seq<char>
    decreases parts.len(),
{
    if parts.len() == 0 {
        Seq::empty()
    } else if parts.len() == 1 {
        parts[0]
    } else {
        joined(parts.drop_last(), sep) + sep + parts.last()
    }
}

/// The parts in order, with `sep` between neighbours.
pub fn join(parts: &Vec<String>, sep: &str) -> (r: String)
    ensures
        r@ == joined(texts(parts@), sep@),
{
    let ghost all = texts(parts@);
    let mut r = String::new();
    let mut i: usize = 0;
    proof {
        assert(r@ =~= joined(all.take(0), sep@));
    }
    while i < parts.len()
        invariant
            all == texts(parts@),
            i <= parts@.len(),
            r@ == joined(all.take(i as int), sep@),
        decreases parts@.len() - i,
    {
        proof {
            assert(all.take(i + 1).drop_last() =~= all.take(i as int));
        }
        if i > 0 {
            r.append(sep);
        }
        r.append(parts[i].as_str());
        i += 1;
        proof {
            assert(r@ =~= joined(all.take(i as int), sep@));
        }
    }
    proof {
        assert(all.take(i as int) =~= all);
    }
    r
}

/// Splitting loses nothing: the pieces joined by the separator are the text again.
pub proof fn split_then_join(s: Seq<char>, sep: char)
    ensures
        joined(pieces(s, sep), seq![sep]) == s,
    decreases s.len(),
{
    if s.len() == 0 {
        assert(joined(pieces(s, sep), seq![sep]) =~= s);
    } else {
        let init = s.drop_last();
        let p = pieces(init, sep);
        split_then_join(init, sep);
        lemma_pieces(init, sep);
        if s.last() == sep {
            assert(pieces(s, sep).drop_last() =~= p);
            assert(joined(pieces(s, sep), seq![sep]) =~= s);
        } else {
            let q = pieces(s, sep);
            assert(q.drop_last() =~= p.drop_last());
            assert(q.last() == p.last().push(s.last()));
            if p.len() == 1 {
                assert(joined(q, seq![sep]) =~= s);
            } else {
                assert(joined(q, seq![sep]) =~= joined(p, seq![sep]).push(s.last()));
                assert(joined(q, seq![sep]) =~= s);
            }
        }
    }
}

/// A text without the separator is split into itself.
pub proof fn lemma_unsplit(s: Seq<char>, sep: char)
    requires
        !s.contains(sep),
    ensures
        pieces(s, sep) == seq![s],
    decreases s.len(),
{
    if s.len() == 0 {
        assert(s =~= Seq::<char>::empty());
    } else {
        let init = s.drop_last();
        assert(s.last() == s[s.len() - 1]);
        assert(s.last() != sep) by {
            assert(s.contains(s[s.len() - 1]));
        }
        assert(!init.contains(sep)) by {
            if init.contains(sep) {
                let i = choose|i: int| 0 <= i < init.len() && init[i] == sep;
                assert(s[i] == sep);
            }
        }
        lemma_unsplit(init, sep);
        assert(init.push(s.last()) =~= s);
        assert(pieces(s, sep) =~= seq![s]);
    }
}

proof fn lemma_split_behind(a: Seq<char>, b: Seq<char>, sep: char)
    requires
        !b.contains(sep),
    ensures
        pieces(a + seq![sep] + b, sep) == pieces(a, sep).push(b),
    decreases b.len(),
{
    let s = a + seq![sep] + b;
    if b.len() == 0 {
        assert(s.drop_last() =~= a);
        assert(s.last() == sep);
        assert(b =~= Seq::<char>::empty());
        assert(pieces(s, sep) =~= pieces(a, sep).push(b));
    } else {
        let init = b.drop_last();
        assert(b.last() == b[b.len() - 1]);
        assert(b.last() != sep) by {
            assert(b.contains(b[b.len() - 1]));
        }
        assert(!init.contains(sep)) by {
            if init.contains(sep) {
                let i = choose|i: int| 0 <= i < init.len() && init[i] == sep;
                assert(b[i] == sep);
            }
        }
        lemma_split_behind(a, init, sep);
        assert(s.drop_last() =~= a + seq![sep] + init);
        assert(s.last() == b.last());
        assert(init.push(b.last()) =~= b);
        assert(pieces(s, sep) =~= pieces(a, sep).push(b));
    }
}

/// Joining loses nothing: parts that do not hold the separator are split into
/// themselves again.
pub proof fn join_then_split(parts: Seq<Seq<char>>, sep: char)
    requires
        parts.len() > 0,
        forall|i: int| 0 <= i < parts.len() ==> !(#[trigger] parts[i]).contains(sep),
    ensures
        pieces(joined(parts, seq![sep]), sep) == parts,
    decreases parts.len(),
{
    let last = parts.len() - 1;
    assert(!parts[last].contains(sep));
    if parts.len() == 1 {
        lemma_unsplit(parts[0], sep);
        assert(seq![parts[0]] =~= parts);
    } else {
        let init = parts.drop_last();
        assert forall|i: int| 0 <= i < init.len() implies !(#[trigger] init[i]).contains(sep) by {
            assert(init[i] == parts[i]);
        }
        join_then_split(init, sep);
        lemma_split_behind(joined(init, seq![sep]), parts.last(), sep);
        assert(init.push(parts.last()) =~= parts);
    }
}

// ---------------------------------------------------------------------------
// Numbers
// ---------------------------------------------------------------------------

/// The decimal digits of `n`, without leading zeros.
pub open spec fn decimal(n: nat) -> Seq<char>
    decreases n,
{
    if n < 10 {
        seq![digit_char(n)]
    } else {
        decimal(n / 10).push(digit_char(n % 10))
    }
}

/// Appends the decimal digits of `n` to `out`.
pub fn append_decimal(out: &mut String, n: u64)
    ensures
        final(out)@ == old(out)@ + decimal(n as nat),
    decreases n,
{
    let ghost start = out@;
    if n >= 10 {
        append_decimal(out, n / 10);
    }
    let d: u8 = (n % 10) as u8;
    out.push(to_digit_char(d));
    proof {
        assert(out@ =~= start + decimal(n as nat));
    }
}

/// The decimal digits of `n`, without leading zeros.
pub fn to_decimal(n: u64) -> (r: String)
    ensures
        r@ == decimal(n as nat),
{
    let mut r = String::new();
    append_decimal(&mut r, n);
    proof {
        assert(r@ =~= decimal(n as nat));
    }
    r
}

/// Whether every character of `s` is a decimal digit.
pub open spec fn all_digits(s: Seq<char>) -> bool {
    forall|i: int| 0 <= i < s.len() ==> is_digit(#[trigger] s[i])
}

/// The number that a row of decimal digits stands for.
pub open spec fn digits_value(s: Seq<char>) -> nat
    decreases s.len(),
{
    if s.len() == 0 {
        0
    } else {
        digits_value(s.drop_last()) * 10 + (s.last() as u32 - 0x30) as nat
    }
}

/// The number that `s` stands for: decimal digits, at least one, with an
/// optional `+` in front of them, and a value of at most `max`.
pub open spec fn number_of(s: Seq<char>, max: nat) -> Option<nat> {
    let d = if s.len() > 0 && s[0] == '+' {
        s.drop_first()
    } else {
        s
    };
    if d.len() > 0 && all_digits(d) && digits_value(d) <= max {
        Some(digits_value(d))
    } else {
        None
    }
}

/// A number that is read is within its limit.
pub proof fn lemma_number_bound(s: Seq<char>, max: nat)
    ensures
        number_of(s, max) is Some ==> number_of(s, max)->0 <= max,
{
}

/// A longer row of digits stands for no smaller number.
pub proof fn lemma_digits_value_grows(s: Seq<char>, i: int)
    requires
        0 <= i <= s.len(),
        all_digits(s),
    ensures
        digits_value(s.take(i)) <= digits_value(s),
    decreases s.len(),
{
    if i == s.len() {
        assert(s.take(i) =~= s);
    } else {
        let init = s.drop_last();
        assert(init.take(i) =~= s.take(i));
        assert(is_digit(s[s.len() - 1]));
        assert forall|k: int| 0 <= k < init.len() implies is_digit(#[trigger] init[k]) by {
            assert(init[k] == s[k]);
        }
        lemma_digits_value_grows(init, i);
    }
}

/// The number that `s` stands for, if it is one of at most `max`.
pub fn parse_number(s: &str, max: u64) -> (r: Option<u64>)
    ensures
        match r {
            Some(n) => number_of(s@, max as nat) == Some(n as nat),
            None => number_of(s@, max as nat) is None,
        },
{
    let cs = to_chars(s);
    let start: usize = if cs.len() > 0 && cs[0] == '+' {
        1
    } else {
        0
    };
    let ghost d = if s@.len() > 0 && s@[0] == '+' {
        s@.drop_first()
    } else {
        s@
    };
    proof {
        assert(d =~= s@.skip(start as int));
    }
    if start >= cs.len() {
        return None;
    }
    let mut value: u64 = 0;
    let mut i: usize = start;
    proof {
        assert(d.take(0) =~= Seq::<char>::empty());
    }
    while i < cs.len()
        invariant
            cs@ == s@,
            d == s@.skip(start as int),
            start <= i <= cs@.len(),
            start < cs@.len(),
            d == (if s@.len() > 0 && s@[0] == '+' {
                s@.drop_first()
            } else {
                s@
            }),
            all_digits(d.take(i - start)),
            value == digits_value(d.take(i - start)),
            value <= max,
        decreases cs@.len() - i,
    {
        let c = cs[i];
        let ghost k = i - start;
        proof {
            assert(d[k] == c);
            assert(d.take(k + 1).drop_last() =~= d.take(k));
            assert(d.take(k + 1).last() == c);
        }
        if !digit(c) {
            return None;
        }
        let v: u64 = (c as u32 - 0x30) as u64;
        let ghost next = value as nat * 10 + v as nat;
        proof {
            assert(digits_value(d.take(k + 1)) == next);
            assert forall|j: int| 0 <= j < d.take(k + 1).len() implies is_digit(
                #[trigger] d.take(k + 1)[j],
            ) by {
                if j < k {
                    assert(d.take(k + 1)[j] == d.take(k)[j]);
                }
            }
        }
        if v > max || value > (max - v) / 10 {
            proof {
                if all_digits(d) {
                    lemma_digits_value_grows(d, k + 1);
                }
            }
            return None;
        }
        value = value * 10 + v;
        i += 1;
    }
    proof {
        assert(d.take(i - start) =~= d);
    }
    Some(value)
}

/// The decimal digits of a number are digits, read back as that number.
pub proof fn decimal_reads_back(n: nat)
    ensures
        decimal(n).len() > 0,
        all_digits(decimal(n)),
        digits_value(decimal(n)) == n,
        forall|max: nat| n <= max ==> #[trigger] number_of(decimal(n), max) == Some(n),
    decreases n,
{
    let d = decimal(n);
    assert(d.last() == digit_char(n % 10));
    assert(d.last() as u32 == 0x30 + n % 10);
    if n < 10 {
        assert(d.drop_last() =~= Seq::<char>::empty());
        assert(digits_value(d.drop_last()) == 0);
    } else {
        decimal_reads_back(n / 10);
        let front = decimal(n / 10);
        assert(d.drop_last() =~= front);
        assert forall|i: int| 0 <= i < d.len() implies is_digit(#[trigger] d[i]) by {
            if i < front.len() {
                assert(d[i] == front[i]);
            }
        }
    }
    assert(digits_value(d) == digits_value(d.drop_last()) * 10 + (d.last() as u32 - 0x30) as nat);
    assert(is_digit(d[0]));
}

// ---------------------------------------------------------------------------
// What holds of all of it
// ---------------------------------------------------------------------------

/// A text begins with another exactly where it is that text with something behind it.
pub proof fn beginning_is_a_front(s: Seq<char>, prefix: Seq<char>)
    ensures
        begins_with(s, prefix) <==> exists|rest: Seq<char>| s == #[trigger] (prefix + rest),
{
    if begins_with(s, prefix) {
        assert(s =~= prefix + s.skip(prefix.len() as int));
    }
    if exists|rest: Seq<char>| s == #[trigger] (prefix + rest) {
        let rest = choose|rest: Seq<char>| s == #[trigger] (prefix + rest);
        assert((prefix + rest).take(prefix.len() as int) =~= prefix);
    }
}

/// What a beginning of a text begins with, the text begins with.
pub proof fn prefix_of_prefix(s: Seq<char>, prefix: Seq<char>, first: Seq<char>)
    requires
        begins_with(s, prefix),
        begins_with(prefix, first),
    ensures
        begins_with(s, first),
{
    assert(s.take(first.len() as int) =~= s.take(prefix.len() as int).take(first.len() as int));
}

/// A text stands in another exactly where that is the text with something before it
/// and something behind it.
pub proof fn occurrence_has_surroundings(s: Seq<char>, needle: Seq<char>)
    ensures
        occurs(s, needle) <==> exists|a: Seq<char>, b: Seq<char>| s == #[trigger] (a + needle + b),
{
    if occurs(s, needle) {
        let i = choose|i: int| occurs_at(s, needle, i);
        let a = s.take(i);
        let b = s.skip(i + needle.len());
        assert(s =~= a + needle + b);
    }
    if exists|a: Seq<char>, b: Seq<char>| s == #[trigger] (a + needle + b) {
        let (a, b) = choose|a: Seq<char>, b: Seq<char>| s == #[trigger] (a + needle + b);
        assert(s.subrange(a.len() as int, (a.len() + needle.len()) as int) =~= needle);
        assert(occurs_at(s, needle, a.len() as int));
    }
}

/// What stands between two texts stands in the whole.
pub proof fn middle_occurs(a: Seq<char>, needle: Seq<char>, b: Seq<char>)
    ensures
        occurs(a + needle + b, needle),
{
    let s = a + needle + b;
    assert(s.subrange(a.len() as int, (a.len() + needle.len()) as int) =~= needle);
    assert(occurs_at(s, needle, a.len() as int));
}

/// What stands in a part of a text stands in the text.
pub proof fn part_occurs(a: Seq<char>, part: Seq<char>, b: Seq<char>, needle: Seq<char>)
    requires
        occurs(part, needle),
    ensures
        occurs(a + part + b, needle),
{
    let i = choose|i: int| occurs_at(part, needle, i);
    let s = a + part + b;
    assert(s.subrange(a.len() + i, a.len() + i + needle.len()) =~= part.subrange(
        i,
        i + needle.len(),
    ));
    assert(occurs_at(s, needle, a.len() + i));
}

/// A text that is short enough is not cut; of a longer one the front is kept, character
/// by character, and three dots stand behind it.
pub proof fn cut_text_keeps_its_front(s: Seq<char>, n: nat)
    ensures
        s.len() <= n ==> ellipsized(s, n) == s,
        s.len() > n ==> ellipsized(s, n).len() == n + 3 && forall|i: int|
            0 <= i < n ==> #[trigger] ellipsized(s, n)[i] == s[i],
        s.len() > n ==> ellipsized(s, n)[n as int] == '.' && ellipsized(s, n)[n as int + 1] == '.'
            && ellipsized(s, n)[n as int + 2] == '.',
{
    reveal_strlit("...");
}

/// The first and the last characters of a text are as many as were asked for, if there
/// are as many.
pub proof fn ends_are_as_long_as_asked(s: Seq<char>, n: nat)
    ensures
        first_chars(s, n).len() == if s.len() <= n {
            s.len()
        } else {
            n
        },
        last_chars(s, n).len() == first_chars(s, n).len(),
        forall|i: int| 0 <= i < first_chars(s, n).len() ==> #[trigger] first_chars(s, n)[i] == s[i],
        forall|i: int|
            0 <= i < last_chars(s, n).len() ==> #[trigger] last_chars(s, n)[i] == s[s.len()
                - last_chars(s, n).len() + i],
{
}

/// The kinds of ASCII characters: no printable character is white space, and the space,
/// the tab and the ends of lines are; a digit is one of ten.
pub proof fn characters_are_told_apart(c: char)
    ensures
        0x21 <= c as u32 <= 0x7e ==> !is_white(c),
        c == ' ' || c == '\t' || c == '\n' || c == '\r' ==> is_white(c),
        is_digit(c) <==> '0' <= c <= '9',
        is_alphanumeric(c) <==> '0' <= c <= '9' || 'a' <= c <= 'z' || 'A' <= c <= 'Z',
        'A' <= c <= 'Z' ==> 'a' <= lower_char(c) <= 'z' && lower_char(c) as u32 - 'a' as u32
            == c as u32 - 'A' as u32,
        !('A' <= c <= 'Z') ==> lower_char(c) == c,
{
}

/// Making letters small keeps the length of a text and what is small already.
pub proof fn lowering_is_stable(s: Seq<char>)
    ensures
        lowered(s).len() == s.len(),
        lowered(lowered(s)) == lowered(s),
        forall|i: int|
            0 <= i < s.len() ==> !('A' <= #[trigger] lowered(s)[i] <= 'Z') && (!('A' <= s[i]
                <= 'Z') ==> lowered(s)[i] == s[i]),
{
    assert forall|i: int| 0 <= i < s.len() implies #[trigger] lowered(lowered(s))[i] == lowered(
        s,
    )[i] by {
        assert(lowered(s)[i] == lower_char(s[i]));
    }
    assert(lowered(lowered(s)) =~= lowered(s));
    assert forall|i: int| 0 <= i < s.len() implies !('A' <= #[trigger] lowered(s)[i] <= 'Z') && (!(
    'A' <= s[i] <= 'Z') ==> lowered(s)[i] == s[i]) by {
        characters_are_told_apart(s[i]);
    }
}

proof fn lemma_trim_front(s: Seq<char>, m: Option<char>) -> (i: int)
    ensures
        0 <= i <= s.len(),
        trim_front(s, m) == s.skip(i),
        forall|k: int| 0 <= k < i ==> strips(m, #[trigger] s[k]),
        i < s.len() ==> !strips(m, s[i]),
    decreases s.len(),
{
    if s.len() > 0 && strips(m, s[0]) {
        let j = lemma_trim_front(s.drop_first(), m);
        assert(s.drop_first().skip(j) =~= s.skip(j + 1));
        assert forall|k: int| 0 <= k < j + 1 implies strips(m, #[trigger] s[k]) by {
            if k > 0 {
                assert(s.drop_first()[k - 1] == s[k]);
            }
        }
        j + 1
    } else {
        assert(s.skip(0) =~= s);
        0
    }
}

proof fn lemma_trim_back(s: Seq<char>, m: Option<char>) -> (j: int)
    ensures
        0 <= j <= s.len(),
        trim_back(s, m) == s.take(j),
        forall|k: int| j <= k < s.len() ==> strips(m, #[trigger] s[k]),
        j > 0 ==> !strips(m, s[j - 1]),
    decreases s.len(),
{
    if s.len() > 0 && strips(m, s.last()) {
        let j = lemma_trim_back(s.drop_last(), m);
        assert(s.drop_last().take(j) =~= s.take(j));
        assert forall|k: int| j <= k < s.len() implies strips(m, #[trigger] s[k]) by {
            if k < s.len() - 1 {
                assert(s.drop_last()[k] == s[k]);
            }
        }
        j
    } else {
        assert(s.take(s.len() as int) =~= s);
        s.len() as int
    }
}

/// Trimming takes away what is asked for at both ends, and nothing else: what is left
/// is the text between, and it neither begins nor ends with what is taken away.
pub proof fn trimming_takes_only_the_ends(s: Seq<char>, m: Option<char>)
    ensures
        exists|i: int, j: int|
            0 <= i <= j <= s.len() && trim_both(s, m) == #[trigger] s.subrange(i, j) && (forall|
                k: int,
            |
                0 <= k < s.len() && (k < i || j <= k) ==> strips(m, #[trigger] s[k])) && (i < j
                ==> !strips(m, s[i]) && !strips(m, s[j - 1])),
        forall|c: char| #[trigger] strips(None, c) == is_white(c),
        forall|c: char, x: char| #[trigger] strips(Some(x), c) == (c == x),
{
    let i = lemma_trim_front(s, m);
    let front = s.skip(i);
    let j = lemma_trim_back(front, m);
    assert(trim_both(s, m) =~= s.subrange(i, i + j));
    assert forall|k: int| 0 <= k < s.len() && (k < i || i + j <= k) implies strips(
        m,
        #[trigger] s[k],
    ) by {
        if k >= i + j {
            assert(front[k - i] == s[k]);
        }
    }
    if j > 0 {
        assert(front[0] == s[i]);
        assert(front[j - 1] == s[i + j - 1]);
    }
}

/// A text with white space around it reads as the text itself.
pub proof fn white_space_around_is_ignored(front: Seq<char>, s: Seq<char>, back: Seq<char>)
    requires
        forall|i: int| 0 <= i < front.len() ==> is_white(#[trigger] front[i]),
        forall|i: int| 0 <= i < back.len() ==> is_white(#[trigger] back[i]),
        s.len() > 0 ==> !is_white(s[0]) && !is_white(s.last()),
    ensures
        trimmed(front + s + back) == s,
{
    let whole = front + s + back;
    let i = lemma_trim_front(whole, None);
    let rest = whole.skip(i);
    let j = lemma_trim_back(rest, None);
    if s.len() > 0 {
        assert(whole[front.len() as int] == s[0]);
        if i > front.len() {
            assert(strips(None, whole[front.len() as int]));
        }
        if i < front.len() {
            assert(whole[i] == front[i]);
        }
        assert(i == front.len());
        assert(rest[s.len() - 1] == s.last());
        if j < s.len() {
            assert(strips(None, rest[s.len() - 1]));
        }
        if j > s.len() {
            assert(rest[j - 1] == back[j - 1 - s.len()]);
        }
        assert(trimmed(whole) =~= s);
    } else {
        if i < whole.len() {
            if i < front.len() {
                assert(whole[i] == front[i]);
            } else {
                assert(whole[i] == back[i - front.len()]);
            }
        }
        assert(trimmed(whole) =~= s);
    }
}

/// A text is parted at its first separator: nothing before that holds one. It is not
/// parted only where it holds none.
pub proof fn parted_at_the_first(s: Seq<char>, sep: char)
    ensures
        match parted_first(s, sep) {
            Some((a, b)) => s == a + seq![sep] + b && !a.contains(sep),
            None => !s.contains(sep),
        },
    decreases s.len(),
{
    if s.len() > 0 && s[0] != sep {
        let rest = s.drop_first();
        parted_at_the_first(rest, sep);
        match parted_first(rest, sep) {
            Some((a, b)) => {
                let front = s.take(first_position(s, sep) as int);
                assert(front =~= seq![s[0]] + a);
                assert(s.skip(first_position(s, sep) as int + 1) =~= b);
                assert(s =~= seq![s[0]] + rest);
                assert(seq![s[0]] + (a + seq![sep] + b) =~= front + seq![sep] + b);
                if front.contains(sep) {
                    let k = choose|k: int| 0 <= k < front.len() && front[k] == sep;
                    assert(a[k - 1] == sep);
                }
            },
            None => {
                if s.contains(sep) {
                    let k = choose|k: int| 0 <= k < s.len() && s[k] == sep;
                    assert(rest[k - 1] == sep);
                }
            },
        }
    } else if s.len() > 0 {
        assert(s =~= s.take(0) + seq![sep] + s.skip(1));
    }
}

proof fn lemma_last_bound(s: Seq<char>, c: char)
    ensures
        last_position(s, c) <= s.len(),
    decreases s.len(),
{
    if s.len() > 0 && s.last() != c {
        lemma_last_bound(s.drop_last(), c);
    }
}

/// A text is parted at its last separator: nothing behind that holds one. It is not
/// parted only where it holds none.
pub proof fn parted_at_the_last(s: Seq<char>, sep: char)
    ensures
        match parted_last(s, sep) {
            Some((a, b)) => s == a + seq![sep] + b && !b.contains(sep),
            None => !s.contains(sep),
        },
    decreases s.len(),
{
    if s.len() > 0 && s.last() != sep {
        let rest = s.drop_last();
        parted_at_the_last(rest, sep);
        match parted_last(rest, sep) {
            Some((a, b)) => {
                let i = last_position(s, sep) as int;
                lemma_last_bound(rest, sep);
                let back = s.skip(i);
                assert(rest.skip(i) == b);
                assert(back =~= b.push(s.last()));
                assert(s.take(i - 1) =~= a);
                assert(s =~= rest.push(s.last()));
                assert((a + seq![sep] + b).push(s.last()) =~= a + seq![sep] + back);
                if back.contains(sep) {
                    let k = choose|k: int| 0 <= k < back.len() && back[k] == sep;
                    assert(b[k] == sep);
                }
            },
            None => {
                if s.contains(sep) {
                    let k = choose|k: int| 0 <= k < s.len() && s[k] == sep;
                    assert(rest[k] == sep);
                }
            },
        }
    } else if s.len() > 0 {
        let i = s.len() as int;
        assert(s =~= s.take(i - 1) + seq![sep] + s.skip(i));
    }
}

/// What is put in front of a separator and behind it is what parting gives back.
pub proof fn parted_reads_back(a: Seq<char>, b: Seq<char>, sep: char)
    ensures
        !a.contains(sep) ==> parted_first(a + seq![sep] + b, sep) == Some((a, b)),
        !b.contains(sep) ==> parted_last(a + seq![sep] + b, sep) == Some((a, b)),
{
    let s = a + seq![sep] + b;
    if !a.contains(sep) {
        assert forall|k: int| 0 <= k < a.len() implies s[k] != sep by {
            assert(a.contains(a[k]));
        }
        lemma_first_position(s, sep, a.len() as int);
        assert(s.take(a.len() as int) =~= a);
        assert(s.skip(a.len() as int + 1) =~= b);
    }
    if !b.contains(sep) {
        assert forall|k: int| a.len() + 1 <= k < s.len() implies s[k] != sep by {
            assert(b.contains(b[k - a.len() - 1]));
        }
        lemma_last_position(s, sep, a.len() as int + 1);
        assert(s.take(a.len() as int) =~= a);
        assert(s.skip(a.len() as int + 1) =~= b);
    }
}

/// Joining two lists is joining each, with one separator between.
pub proof fn joining_goes_part_by_part(a: Seq<Seq<char>>, b: Seq<Seq<char>>, sep: Seq<char>)
    ensures
        a.len() == 0 ==> joined(a + b, sep) == joined(b, sep),
        b.len() == 0 ==> joined(a + b, sep) == joined(a, sep),
        a.len() > 0 && b.len() > 0 ==> joined(a + b, sep) == joined(a, sep) + sep + joined(b, sep),
        a.len() == 1 ==> joined(a, sep) == a[0],
    decreases b.len(),
{
    if b.len() == 0 {
        assert(a + b =~= a);
    } else if a.len() == 0 {
        assert(a + b =~= b);
    } else {
        let all = a + b;
        assert(all.drop_last() =~= a + b.drop_last());
        assert(all.last() == b.last());
        joining_goes_part_by_part(a, b.drop_last(), sep);
        if b.len() == 1 {
            assert(a + b.drop_last() =~= a);
        } else {
            assert(joined(all, sep) =~= joined(a, sep) + sep + joined(b, sep));
        }
    }
}

/// White space parts words: the words before it and the words behind it are the words
/// of the whole.
pub proof fn white_space_parts_words(a: Seq<char>, c: char, b: Seq<char>)
    requires
        is_white(c),
    ensures
        words_of(a + seq![c] + b) == words_of(a) + words_of(b),
    decreases b.len(),
{
    let s = a + seq![c] + b;
    if b.len() == 0 {
        assert(s.drop_last() =~= a);
        assert(s.last() == c);
        assert(words_of(b) =~= Seq::<Seq<char>>::empty());
        assert(words_of(s) =~= words_of(a) + words_of(b));
    } else {
        let init = b.drop_last();
        white_space_parts_words(a, c, init);
        assert(s.drop_last() =~= a + seq![c] + init);
        assert(s.last() == b.last());
        let x = words_of(a);
        let y = words_of(init);
        if !is_white(b.last()) {
            if b.len() == 1 {
                assert(s[s.len() - 2] == c);
            } else {
                assert(s[s.len() - 2] == b[b.len() - 2]);
                if !is_white(b[b.len() - 2]) {
                    lemma_open_word(init);
                    assert((x + y).drop_last() =~= x + y.drop_last());
                    assert((x + y).last() == y.last());
                }
            }
        }
        assert(words_of(s) =~= x + words_of(b));
    }
}

proof fn lemma_open_word(s: Seq<char>)
    requires
        s.len() > 0,
        !is_white(s.last()),
    ensures
        words_of(s).len() > 0,
{
}

/// A text without white space is one word, or none where it is empty.
pub proof fn unbroken_text_is_a_word(s: Seq<char>)
    requires
        forall|i: int| 0 <= i < s.len() ==> !is_white(#[trigger] s[i]),
    ensures
        words_of(s) == if s.len() == 0 {
            Seq::<Seq<char>>::empty()
        } else {
            seq![s]
        },
    decreases s.len(),
{
    if s.len() > 0 {
        let init = s.drop_last();
        assert forall|i: int| 0 <= i < init.len() implies !is_white(#[trigger] init[i]) by {
            assert(init[i] == s[i]);
        }
        unbroken_text_is_a_word(init);
        assert(!is_white(s[s.len() - 1]));
        if s.len() == 1 {
            assert(s =~= seq![s.last()]);
        } else {
            assert(!is_white(s[s.len() - 2]));
            assert(init.push(s.last()) =~= s);
            assert(words_of(s) =~= seq![s]);
        }
    }
}

/// A line feed ends a line, with the carriage return before it if there is one; what
/// comes behind it is read on its own.
pub proof fn line_feed_ends_a_line(a: Seq<char>, b: Seq<char>)
    requires
        !a.contains('\n'),
    ensures
        lines_of(a + seq!['\n'] + b) == seq![
            if a.len() > 0 && a.last() == '\r' {
                a.drop_last()
            } else {
                a
            },
        ] + lines_of(b),
        lines_of(a) == if a.len() == 0 {
            Seq::<Seq<char>>::empty()
        } else {
            seq![a]
        },
{
    let s = a + seq!['\n'] + b;
    let p = pieces(b, '\n');
    lemma_pieces(b, '\n');
    lemma_split_before(a, b, '\n');
    let q = pieces(s, '\n');
    assert(q == seq![a] + p);
    assert(q.last() == p.last());
    assert forall|i: int| 0 <= i < p.len() implies q[i + 1] == #[trigger] p[i] by {}
    let l = lines_of(b);
    let want = seq![
        if a.len() > 0 && a.last() == '\r' {
            a.drop_last()
        } else {
            a
        },
    ] + l;
    assert(lines_of(s).len() == want.len());
    assert forall|i: int| 0 <= i < want.len() implies lines_of(s)[i] == want[i] by {
        if i > 0 {
            assert(q[i] == p[i - 1]);
            assert(want[i] == l[i - 1]);
        }
    }
    assert(lines_of(s) =~= want);
    lemma_unsplit(a, '\n');
    assert(lines_of(a) =~= if a.len() == 0 {
        Seq::<Seq<char>>::empty()
    } else {
        seq![a]
    });
}

proof fn lemma_split_before(a: Seq<char>, b: Seq<char>, sep: char)
    requires
        !a.contains(sep),
    ensures
        pieces(a + seq![sep] + b, sep) == seq![a] + pieces(b, sep),
    decreases b.len(),
{
    let s = a + seq![sep] + b;
    if b.len() == 0 {
        assert(s.drop_last() =~= a);
        assert(s.last() == sep);
        lemma_unsplit(a, sep);
        assert(pieces(s, sep) =~= seq![a] + pieces(b, sep));
    } else {
        let init = b.drop_last();
        lemma_split_before(a, init, sep);
        lemma_pieces(init, sep);
        assert(s.drop_last() =~= a + seq![sep] + init);
        assert(s.last() == b.last());
        let p = pieces(init, sep);
        assert((seq![a] + p).drop_last() =~= seq![a] + p.drop_last());
        assert((seq![a] + p).last() == p.last());
        assert(pieces(s, sep) =~= seq![a] + pieces(b, sep));
    }
}

/// A number may have a plus sign and zeros in front of it; nothing else may stand in
/// its text.
pub proof fn numbers_are_digits(s: Seq<char>, max: nat)
    ensures
        number_of(s, max) is Some ==> s.len() > 0 && (is_digit(s[0]) || (s[0] == '+' && s.len()
            > 1)) && forall|i: int| 0 < i < s.len() ==> is_digit(#[trigger] s[i]),
        s.len() > 0 && is_digit(s[0]) ==> number_of(seq!['+'] + s, max) == number_of(s, max)
            && number_of(seq!['0'] + s, max) == number_of(s, max),
{
    if number_of(s, max) is Some {
        let d = if s[0] == '+' {
            s.drop_first()
        } else {
            s
        };
        assert forall|i: int| 0 < i < s.len() implies is_digit(#[trigger] s[i]) by {
            if s[0] == '+' {
                assert(d[i - 1] == s[i]);
            } else {
                assert(d[i] == s[i]);
            }
        }
        if s[0] != '+' {
            assert(d[0] == s[0]);
        }
    }
    if s.len() > 0 && is_digit(s[0]) {
        let plus = seq!['+'] + s;
        assert(plus.drop_first() =~= s);
        let zero = seq!['0'] + s;
        lemma_leading_zero(s);
        assert(all_digits(zero) == all_digits(s)) by {
            if all_digits(s) {
                assert forall|i: int| 0 <= i < zero.len() implies is_digit(#[trigger] zero[i]) by {
                    if i > 0 {
                        assert(zero[i] == s[i - 1]);
                    }
                }
            }
            if all_digits(zero) {
                assert forall|i: int| 0 <= i < s.len() implies is_digit(#[trigger] s[i]) by {
                    assert(s[i] == zero[i + 1]);
                }
            }
        }
    }
}

proof fn lemma_leading_zero(s: Seq<char>)
    ensures
        digits_value(seq!['0'] + s) == digits_value(s),
    decreases s.len(),
{
    let zero = seq!['0'] + s;
    if s.len() == 0 {
        assert(zero.drop_last() =~= Seq::<char>::empty());
        assert(digits_value(zero.drop_last()) == 0);
    } else {
        assert(zero.drop_last() =~= seq!['0'] + s.drop_last());
        lemma_leading_zero(s.drop_last());
    }
}

/// What is left after trimming is trimmed already; and a text that neither begins nor
/// ends with white space is.
pub proof fn trimming_is_stable(s: Seq<char>)
    ensures
        trimmed(trimmed(s)) == trimmed(s),
        trimmed(s).len() > 0 ==> !is_white(trimmed(s)[0]) && !is_white(trimmed(s).last()),
        s.len() > 0 && !is_white(s[0]) && !is_white(s.last()) ==> trimmed(s) == s,
{
    crate::segment::lemma_trim_both(s, None);
    crate::segment::lemma_trim_nothing(trimmed(s), None);
    if s.len() > 0 && !is_white(s[0]) && !is_white(s.last()) {
        crate::segment::lemma_trim_nothing(s, None);
    }
}

/// Beyond the characters of a plain keyboard, white space is what is listed here, and
/// nothing else; among those it is the space and what moves to another place or line.
pub proof fn white_space_is_known(c: char)
    ensures
        (c as u32) < 0x80 ==> (is_white(c) <==> c == ' ' || '\t' <= c <= '\r'),
        c as u32 >= 0x80 ==> (is_white(c) <==> c == '\u{85}' || c == '\u{a0}' || c == '\u{1680}'
            || '\u{2000}' <= c <= '\u{200a}' || c == '\u{2028}' || c == '\u{2029}' || c
            == '\u{202f}' || c == '\u{205f}' || c == '\u{3000}'),
{
}

/// A text that is put together begins with its first part, and what its last two parts
/// make occurs in it.
pub proof fn parts_are_found(a: Seq<char>, b: Seq<char>, c: Seq<char>)
    ensures
        begins_with(a + b, a),
        begins_with(a + b + c, a + b),
        begins_with(a + b + c, a),
        occurs(a + b + c, b + c),
{
    let ab = a + b;
    let all = ab + c;
    assert(begins_with(ab, a)) by {
        assert(ab.take(a.len() as int) =~= a);
    }
    assert(begins_with(all, ab)) by {
        assert(all.take(ab.len() as int) =~= ab);
    }
    prefix_of_prefix(all, ab, a);
    assert(occurs_at(all, b + c, a.len() as int)) by {
        assert(all.subrange(a.len() as int, all.len() as int) =~= b + c);
    }
}

} // verus!

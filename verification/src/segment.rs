//! Names that are safe as parts of keys, paths and unit names.
use vstd::prelude::*;
use vstd::string::*;

use crate::text::{
    alphanumeric, is_alphanumeric, strips, to_chars, trim_back, trim_both, trim_front, trim_with,
};

verus! {

/// The characters that a safe segment may hold.
pub open spec fn is_segment_char(c: char) -> bool {
    is_alphanumeric(c) || c == '-' || c == '_'
}

/// `s` with every character that is not a segment character replaced by a dash.
pub open spec fn dashed(s: Seq<char>) -> Seq<char> {
    Seq::new(
        s.len(),
        |i: int|
            if is_segment_char(s[i]) {
                s[i]
            } else {
                '-'
            },
    )
}

/// `s` with every run of dashes replaced by a single dash.
pub open spec fn single_dashes(s: Seq<char>) -> Seq<char>
    decreases s.len(),
{
    if s.len() == 0 {
        s
    } else {
        let init = single_dashes(s.drop_last());
        if s.len() > 1 && s.last() == '-' && s[s.len() - 2] == '-' {
            init
        } else {
            init.push(s.last())
        }
    }
}

/// The safe segment made of `s`: other characters become dashes, runs of
/// dashes become one, dashes at the ends go, and what is then empty becomes
/// `default`.
pub open spec fn segment_of(s: Seq<char>) -> Seq<char> {
    let t = trim_both(single_dashes(dashed(s)), Some('-'));
    if t.len() == 0 {
        "default"@
    } else {
        t
    }
}

/// The safe segment made of `value`.
pub fn safe_segment(value: &str) -> (r: String)
    ensures
        r@ == segment_of(value@),
{
    let cs = to_chars(value);
    let mut out = String::new();
    let mut after_dash: bool = false;
    let mut i: usize = 0;
    let ghost d = dashed(value@);
    proof {
        assert(d.take(0) =~= Seq::<char>::empty());
        assert(out@ =~= single_dashes(d.take(0)));
    }
    while i < cs.len()
        invariant
            cs@ == value@,
            d == dashed(value@),
            i <= cs@.len(),
            after_dash == (i > 0 && d[i - 1] == '-'),
            out@ == single_dashes(d.take(i as int)),
        decreases cs@.len() - i,
    {
        let c = cs[i];
        let k = if alphanumeric(c) || c == '-' || c == '_' {
            c
        } else {
            '-'
        };
        proof {
            assert(k == d[i as int]);
            assert(d.take(i + 1).drop_last() =~= d.take(i as int));
            assert(d.take(i + 1).last() == k);
            if i > 0 {
                assert(d.take(i + 1)[i - 1] == d[i - 1]);
            }
        }
        if k == '-' {
            if !after_dash {
                out.push(k);
            }
            after_dash = true;
        } else {
            out.push(k);
            after_dash = false;
        }
        i += 1;
    }
    proof {
        assert(d.take(i as int) =~= d);
    }
    let t = trim_with(out.as_str(), Some('-'));
    if t.as_str().is_empty() {
        "default".to_string()
    } else {
        t
    }
}

// ---------------------------------------------------------------------------
// What holds of every safe segment
// ---------------------------------------------------------------------------

/// Whether `s` is a safe segment: not empty, of segment characters alone, with
/// no dash at an end and no two dashes in a row.
pub open spec fn is_segment(s: Seq<char>) -> bool {
    &&& s.len() > 0
    &&& forall|i: int| 0 <= i < s.len() ==> is_segment_char(#[trigger] s[i])
    &&& s[0] != '-'
    &&& s.last() != '-'
    &&& forall|i: int|
        0 <= i < s.len() - 1 ==> !(#[trigger] s[i] == '-' && s[i + 1] == '-')
}

proof fn lemma_single_dashes(s: Seq<char>)
    requires
        forall|i: int| 0 <= i < s.len() ==> is_segment_char(#[trigger] s[i]),
    ensures
        forall|i: int|
            0 <= i < single_dashes(s).len() ==> is_segment_char(#[trigger] single_dashes(s)[i]),
        s.len() > 0 ==> single_dashes(s).len() > 0 && single_dashes(s).last() == s.last(),
        forall|i: int|
            0 <= i < single_dashes(s).len() - 1 ==> !(#[trigger] single_dashes(s)[i] == '-'
                && single_dashes(s)[i + 1] == '-'),
    decreases s.len(),
{
    if s.len() > 0 {
        let init = s.drop_last();
        assert forall|i: int| 0 <= i < init.len() implies is_segment_char(#[trigger] init[i]) by {
            assert(init[i] == s[i]);
        }
        lemma_single_dashes(init);
        assert(is_segment_char(s[s.len() - 1]));
        let r = single_dashes(s);
        let p = single_dashes(init);
        if r != p {
            assert(r == p.push(s.last()));
            assert forall|i: int| 0 <= i < r.len() - 1 implies !(#[trigger] r[i] == '-' && r[i + 1]
                == '-') by {
                if i < p.len() - 1 {
                    assert(r[i] == p[i] && r[i + 1] == p[i + 1]);
                } else {
                    assert(r[i] == p.last());
                    assert(p.last() == init.last());
                    assert(init.last() == s[s.len() - 2]);
                }
            }
        }
    }
}

proof fn lemma_trim_front(s: Seq<char>, m: Option<char>)
    ensures
        trim_front(s, m).len() <= s.len(),
        trim_front(s, m) == s.skip(s.len() - trim_front(s, m).len()),
        trim_front(s, m).len() > 0 ==> !strips(m, trim_front(s, m)[0]),
    decreases s.len(),
{
    if s.len() > 0 && strips(m, s[0]) {
        lemma_trim_front(s.drop_first(), m);
        let t = trim_front(s, m);
        assert(s.drop_first().skip(s.drop_first().len() - t.len()) =~= s.skip(s.len() - t.len()));
    } else {
        assert(s.skip(0) =~= s);
    }
}

proof fn lemma_trim_back(s: Seq<char>, m: Option<char>)
    ensures
        trim_back(s, m).len() <= s.len(),
        trim_back(s, m) == s.take(trim_back(s, m).len() as int),
        trim_back(s, m).len() > 0 ==> !strips(m, trim_back(s, m).last()),
    decreases s.len(),
{
    if s.len() > 0 && strips(m, s.last()) {
        lemma_trim_back(s.drop_last(), m);
        let t = trim_back(s, m);
        assert(s.drop_last().take(t.len() as int) =~= s.take(t.len() as int));
    } else {
        assert(s.take(s.len() as int) =~= s);
    }
}

/// Trimming leaves a part of the text whose ends are not stripped.
pub proof fn lemma_trim_both(s: Seq<char>, m: Option<char>)
    ensures
        exists|i: int, j: int|
            0 <= i <= j <= s.len() && trim_both(s, m) == #[trigger] s.subrange(i, j),
        trim_both(s, m).len() > 0 ==> !strips(m, trim_both(s, m)[0]) && !strips(
            m,
            trim_both(s, m).last(),
        ),
{
    lemma_trim_front(s, m);
    let f = trim_front(s, m);
    lemma_trim_back(f, m);
    let t = trim_both(s, m);
    let i = s.len() - f.len();
    assert(t =~= s.subrange(i, i + t.len()));
    if t.len() > 0 {
        assert(t[0] == f[0]);
    }
}

/// A text whose ends are not stripped is left as it is by trimming.
pub proof fn lemma_trim_nothing(s: Seq<char>, m: Option<char>)
    requires
        s.len() > 0 ==> !strips(m, s[0]) && !strips(m, s.last()),
    ensures
        trim_both(s, m) == s,
{
}

/// What `safe_segment` gives is a safe segment, whatever it was given.
pub proof fn segment_is_safe(s: Seq<char>)
    ensures
        is_segment(segment_of(s)),
{
    let d = dashed(s);
    let c = single_dashes(d);
    assert forall|i: int| 0 <= i < d.len() implies is_segment_char(#[trigger] d[i]) by {}
    lemma_single_dashes(d);
    lemma_trim_both(c, Some('-'));
    let t = trim_both(c, Some('-'));
    reveal_strlit("default");
    if t.len() == 0 {
        let u = "default"@;
        assert(u.len() == 7);
        assert forall|i: int| 0 <= i < u.len() implies is_segment_char(#[trigger] u[i]) && u[i]
            != '-' by {
            assert(u[0] == 'd' && u[1] == 'e' && u[2] == 'f' && u[3] == 'a' && u[4] == 'u' && u[5]
                == 'l' && u[6] == 't');
        }
    } else {
        let (i, j) = choose|i: int, j: int|
            0 <= i <= j <= c.len() && t == #[trigger] c.subrange(i, j);
        assert forall|k: int| 0 <= k < t.len() implies is_segment_char(#[trigger] t[k]) by {
            assert(t[k] == c[i + k]);
        }
        assert forall|k: int| 0 <= k < t.len() - 1 implies !(#[trigger] t[k] == '-' && t[k + 1]
            == '-') by {
            assert(t[k] == c[i + k] && t[k + 1] == c[i + k + 1]);
        }
    }
}

proof fn lemma_single_dashes_nothing(s: Seq<char>)
    requires
        forall|i: int| 0 <= i < s.len() - 1 ==> !(#[trigger] s[i] == '-' && s[i + 1] == '-'),
    ensures
        single_dashes(s) == s,
    decreases s.len(),
{
    if s.len() > 0 {
        let init = s.drop_last();
        assert forall|i: int| 0 <= i < init.len() - 1 implies !(#[trigger] init[i] == '-' && init[i
            + 1] == '-') by {
            assert(init[i] == s[i] && init[i + 1] == s[i + 1]);
        }
        lemma_single_dashes_nothing(init);
        if s.len() > 1 {
            assert(!(s[s.len() - 2] == '-' && s[s.len() - 2 + 1] == '-'));
        }
        assert(init.push(s.last()) =~= s);
    }
}

/// A text that is already a safe segment is left as it is.
pub proof fn segment_is_kept(s: Seq<char>)
    requires
        is_segment(s),
    ensures
        segment_of(s) == s,
{
    assert(dashed(s) =~= s);
    lemma_single_dashes_nothing(s);
    lemma_trim_nothing(s, Some('-'));
}

/// Making a segment safe twice is making it safe once.
pub proof fn segment_is_stable(s: Seq<char>)
    ensures
        segment_of(segment_of(s)) == segment_of(s),
{
    segment_is_safe(s);
    segment_is_kept(segment_of(s));
}

/// Of two texts, the letters and digits: what is neither is left out.
pub open spec fn letters_of(s: Seq<char>) -> Seq<char>
    decreases s.len(),
{
    if s.len() == 0 {
        s
    } else if s.last() == '-' || !('0' <= s.last() <= '9' || 'a' <= s.last() <= 'z' || 'A'
        <= s.last() <= 'Z' || s.last() == '_') {
        letters_of(s.drop_last())
    } else {
        letters_of(s.drop_last()).push(s.last())
    }
}

proof fn lemma_letters_of_parts(a: Seq<char>, b: Seq<char>)
    ensures
        letters_of(a + b) == letters_of(a) + letters_of(b),
    decreases b.len(),
{
    if b.len() == 0 {
        assert(a + b =~= a);
        assert(letters_of(a) + letters_of(b) =~= letters_of(a));
    } else {
        lemma_letters_of_parts(a, b.drop_last());
        assert((a + b).drop_last() =~= a + b.drop_last());
        assert((a + b).last() == b.last());
        assert(letters_of(a + b) =~= letters_of(a) + letters_of(b));
    }
}

proof fn lemma_letters_of_dashes(s: Seq<char>)
    requires
        forall|i: int| 0 <= i < s.len() ==> #[trigger] s[i] == '-',
    ensures
        letters_of(s).len() == 0,
    decreases s.len(),
{
    if s.len() > 0 {
        assert(s.last() == '-');
        lemma_letters_of_dashes(s.drop_last());
    }
}

proof fn lemma_dashed_letters(s: Seq<char>)
    ensures
        letters_of(single_dashes(dashed(s))) == letters_of(s),
    decreases s.len(),
{
    if s.len() > 0 {
        let init = s.drop_last();
        lemma_dashed_letters(init);
        let d = dashed(s);
        assert(d.drop_last() =~= dashed(init));
        crate::text::characters_are_told_apart(s.last());
        let whole = single_dashes(d);
        let part = single_dashes(dashed(init));
        if whole != part {
            assert(whole == part.push(d.last()));
            assert(whole.drop_last() =~= part);
        }
    }
}

/// A segment holds the letters, the digits and the underscores of the text that it was
/// made from, in their order.
pub proof fn segment_keeps_its_letters(s: Seq<char>)
    requires
        letters_of(s).len() > 0,
    ensures
        letters_of(segment_of(s)) == letters_of(s),
{
    let all = single_dashes(dashed(s));
    lemma_dashed_letters(s);
    crate::text::trimming_takes_only_the_ends(all, Some('-'));
    let (i, j) = choose|i: int, j: int|
        0 <= i <= j <= all.len() && trim_both(all, Some('-')) == #[trigger] all.subrange(i, j) && (
        forall|k: int|
            0 <= k < all.len() && (k < i || j <= k) ==> strips(Some('-'), #[trigger] all[k])) && (i
            < j ==> !strips(Some('-'), all[i]) && !strips(Some('-'), all[j - 1]));
    let t = all.subrange(i, j);
    let front = all.take(i);
    let back = all.skip(j);
    assert(all =~= front + t + back);
    assert forall|k: int| 0 <= k < front.len() implies #[trigger] front[k] == '-' by {
        assert(strips(Some('-'), all[k]));
    }
    assert forall|k: int| 0 <= k < back.len() implies #[trigger] back[k] == '-' by {
        assert(strips(Some('-'), all[j + k]));
    }
    lemma_letters_of_dashes(front);
    lemma_letters_of_dashes(back);
    lemma_letters_of_parts(front + t, back);
    lemma_letters_of_parts(front, t);
    assert(letters_of(all) =~= letters_of(t));
}

proof fn lemma_all_dashes(s: Seq<char>)
    requires
        forall|i: int| 0 <= i < s.len() ==> !is_segment_char(#[trigger] s[i]) || s[i] == '-',
    ensures
        trim_both(single_dashes(dashed(s)), Some('-')).len() == 0,
    decreases s.len(),
{
    let d = dashed(s);
    lemma_of_dashes(d);
    let all = single_dashes(d);
    crate::text::trimming_takes_only_the_ends(all, Some('-'));
}

proof fn lemma_of_dashes(d: Seq<char>)
    requires
        forall|i: int| 0 <= i < d.len() ==> #[trigger] d[i] == '-',
    ensures
        forall|i: int| 0 <= i < single_dashes(d).len() ==> #[trigger] single_dashes(d)[i] == '-',
    decreases d.len(),
{
    if d.len() > 0 {
        let init = single_dashes(d.drop_last());
        lemma_of_dashes(d.drop_last());
        assert(d.last() == '-');
        assert forall|i: int| 0 <= i < single_dashes(d).len() implies #[trigger] single_dashes(
            d,
        )[i] == '-' by {
            if i < init.len() {
                assert(init[i] == '-');
            }
        }
    }
}

/// A text without a letter, a digit or an underscore gives the same segment as no text at
/// all, which is the usual one.
pub proof fn empty_names_get_a_default(s: Seq<char>)
    requires
        forall|i: int|
            0 <= i < s.len() ==> !('0' <= #[trigger] s[i] <= '9' || 'a' <= s[i] <= 'z' || 'A'
                <= s[i] <= 'Z' || s[i] == '_'),
    ensures
        segment_of(s) == "default"@,
{
    assert forall|i: int| 0 <= i < s.len() implies !is_segment_char(#[trigger] s[i]) || s[i]
        == '-' by {
        crate::text::characters_are_told_apart(s[i]);
    }
    lemma_all_dashes(s);
}

} // verus!

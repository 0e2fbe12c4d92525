//! Paths as texts.
use vstd::prelude::*;
use vstd::string::*;

use crate::text::{begins_with, to_chars};

verus! {

/// The path of `segment` below `base`. An absolute segment stands for itself.
pub open spec fn below(base: Seq<char>, segment: Seq<char>) -> Seq<char> {
    if segment.len() > 0 && segment[0] == '/' {
        segment
    } else if base.len() == 0 || base.last() == '/' {
        base + segment
    } else {
        base + "/"@ + segment
    }
}

/// The path of `segment` below `base`.
pub fn join_path(base: &str, segment: &str) -> (r: String)
    ensures
        r@ == below(base@, segment@),
{
    let seg = to_chars(segment);
    if seg.len() > 0 && seg[0] == '/' {
        return segment.to_owned();
    }
    let cs = to_chars(base);
    let mut r = base.to_owned();
    if cs.len() > 0 && cs[cs.len() - 1] != '/' {
        r.append("/");
    }
    r.append(segment);
    r
}

/// Whether a text is the name of one entry of a directory.
pub open spec fn is_name(s: Seq<char>) -> bool {
    s.len() > 0 && !s.contains('/')
}

/// A path below a base begins with the base, ends with the segment, and has one slash
/// at least between the two; an absolute segment is a path of its own.
pub proof fn path_begins_with_its_base(base: Seq<char>, segment: Seq<char>)
    ensures
        segment.len() > 0 && segment[0] == '/' ==> below(base, segment) == segment,
        segment.len() == 0 || segment[0] != '/' ==> ({
            let path = below(base, segment);
            &&& begins_with(path, base)
            &&& path.skip(path.len() - segment.len()) == segment
            &&& base.len() == 0 ==> path == segment
            &&& base.len() > 0 ==> path[path.len() - segment.len() - 1] == '/'
            &&& path.len() <= base.len() + 1 + segment.len()
            &&& base.len() > 0 && base.last() == '/' ==> path.len() == base.len() + segment.len()
        }),
{
    reveal_strlit("/");
    if segment.len() == 0 || segment[0] != '/' {
        let path = below(base, segment);
        assert(path.take(base.len() as int) =~= base);
        assert(path.skip(path.len() - segment.len()) =~= segment);
        if base.len() == 0 {
            assert(path =~= segment);
        }
    }
}

/// A path can be put together from either end.
pub proof fn paths_nest(base: Seq<char>, middle: Seq<char>, segment: Seq<char>)
    requires
        middle.len() > 0,
        segment.len() == 0 || segment[0] != '/',
    ensures
        below(below(base, middle), segment) == below(base, below(middle, segment)),
{
    reveal_strlit("/");
    let inner = below(middle, segment);
    assert(inner[0] == middle[0]);
    assert(below(below(base, middle), segment) =~= below(base, inner));
}

proof fn lemma_same_parts(a: Seq<char>, b: Seq<char>, c: Seq<char>, d: Seq<char>)
    requires
        !a.contains('/'),
        !c.contains('/'),
        a + seq!['/'] + b == c + seq!['/'] + d,
    ensures
        a == c,
        b == d,
{
    let s = a + seq!['/'] + b;
    assert(s[a.len() as int] == '/');
    assert(s[c.len() as int] == '/');
    if a.len() < c.len() {
        assert(c[a.len() as int] == s[a.len() as int]);
    } else if c.len() < a.len() {
        assert(a[c.len() as int] == s[c.len() as int]);
    }
    assert(a =~= s.take(a.len() as int));
    assert(c =~= s.take(c.len() as int));
    assert(b =~= s.skip(a.len() as int + 1));
    assert(d =~= s.skip(c.len() as int + 1));
}

proof fn lemma_two_names(base: Seq<char>, a: Seq<char>, b: Seq<char>) -> (front: Seq<char>)
    requires
        is_name(a),
        is_name(b),
    ensures
        below(below(base, a), b) == front + (a + seq!['/'] + b),
        front == if base.len() == 0 || base.last() == '/' {
            base
        } else {
            base.push('/')
        },
{
    reveal_strlit("/");
    let front = if base.len() == 0 || base.last() == '/' {
        base
    } else {
        base.push('/')
    };
    assert(a[0] != '/') by {
        assert(a.contains(a[0]));
    }
    assert(b[0] != '/') by {
        assert(b.contains(b[0]));
    }
    let inner = below(base, a);
    assert(inner.last() == a.last());
    assert(a.last() != '/') by {
        assert(a.contains(a[a.len() - 1]));
    }
    assert(below(inner, b) =~= front + (a + seq!['/'] + b));
    front
}

/// Different names below one directory give different paths.
pub proof fn names_below_differ(
    base: Seq<char>,
    a: Seq<char>,
    b: Seq<char>,
    c: Seq<char>,
    d: Seq<char>,
)
    requires
        is_name(a),
        is_name(b),
        is_name(c),
        is_name(d),
        a != c || b != d,
    ensures
        below(below(base, a), b) != below(below(base, c), d),
{
    let front = lemma_two_names(base, a, b);
    let same = lemma_two_names(base, c, d);
    let x = a + seq!['/'] + b;
    let y = c + seq!['/'] + d;
    if below(below(base, a), b) == below(below(base, c), d) {
        assert(x =~= (front + x).skip(front.len() as int));
        assert(y =~= (front + y).skip(front.len() as int));
        lemma_same_parts(a, b, c, d);
    }
}

/// What stands below a directory begins with it.
pub proof fn path_stands_below(base: Seq<char>, segment: Seq<char>)
    requires
        segment.len() > 0,
        segment[0] != '/',
    ensures
        begins_with(below(base, segment), base),
{
    path_begins_with_its_base(base, segment);
}

/// Two names lead to two places.
pub proof fn names_lead_apart(base: Seq<char>, a: Seq<char>, b: Seq<char>)
    requires
        a.len() > 0 && a[0] != '/',
        b.len() > 0 && b[0] != '/',
        a != b,
    ensures
        below(base, a) != below(base, b),
{
    path_begins_with_its_base(base, a);
    path_begins_with_its_base(base, b);
    let front = if base.len() == 0 || base.last() == '/' {
        base
    } else {
        base + "/"@
    };
    assert(below(base, a) == front + a && below(base, b) == front + b);
    assert((front + a).skip(front.len() as int) =~= a);
    assert((front + b).skip(front.len() as int) =~= b);
}

} // verus!

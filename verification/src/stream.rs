//! Output that arrives in chunks, cut into the lines that are told.
use vstd::prelude::*;
use vstd::string::*;

use crate::text::{decode_lossy, lossy_text, text_of};

verus! {

/// Whether a byte ends a line.
pub open spec fn ends_line(b: u8) -> bool {
    b == 10 || b == 13
}

/// The byte sequences of an executable list.
pub open spec fn byte_lists(v: Seq<Vec<u8>>) -> Seq<Seq<u8>> {
    Seq::new(v.len(), |i: int| v[i]@)
}

/// The lines that are complete after `bytes` have arrived behind the unfinished
/// line `pending`, and the line that is then unfinished. Empty lines are left
/// out.
pub open spec fn cut(pending: Seq<u8>, bytes: Seq<u8>) -> (Seq<Seq<u8>>, Seq<u8>)
    decreases bytes.len(),
{
    if bytes.len() == 0 {
        (Seq::empty(), pending)
    } else {
        let (done, rest) = cut(pending, bytes.drop_last());
        let b = bytes.last();
        if !ends_line(b) {
            (done, rest.push(b))
        } else if rest.len() > 0 {
            (done.push(rest), Seq::empty())
        } else {
            (done, Seq::empty())
        }
    }
}

/// Cuts an output into lines while it arrives.
#[derive(Debug)]
pub struct SegmentReader {
    pub pending: Vec<u8>,
}

impl SegmentReader {
    pub fn new() -> (r: Self)
        ensures
            r.pending@ == Seq::<u8>::empty(),
    {
        SegmentReader { pending: Vec::new() }
    }

    /// Takes a chunk in, and gives the lines that it completes.
    pub fn feed(&mut self, chunk: &[u8]) -> (r: Vec<Vec<u8>>)
        ensures
            (byte_lists(r@), final(self).pending@) == cut(old(self).pending@, chunk@),
    {
        let ghost start = self.pending@;
        let mut r: Vec<Vec<u8>> = Vec::new();
        let mut i: usize = 0;
        proof {
            assert(byte_lists(r@) =~= Seq::<Seq<u8>>::empty());
            assert(chunk@.take(0) =~= Seq::<u8>::empty());
        }
        while i < chunk.len()
            invariant
                i <= chunk@.len(),
                (byte_lists(r@), self.pending@) == cut(start, chunk@.take(i as int)),
            decreases chunk@.len() - i,
        {
            let b = chunk[i];
            proof {
                assert(chunk@.take(i + 1).drop_last() =~= chunk@.take(i as int));
                assert(chunk@.take(i + 1).last() == b);
            }
            if b == 10 || b == 13 {
                let mut line: Vec<u8> = Vec::new();
                std::mem::swap(&mut line, &mut self.pending);
                if line.len() > 0 {
                    let ghost before = r@;
                    r.push(line);
                    proof {
                        assert(byte_lists(r@) =~= byte_lists(before).push(line@));
                    }
                }
                proof {
                    assert(self.pending@ =~= Seq::<u8>::empty());
                }
            } else {
                self.pending.push(b);
            }
            i += 1;
        }
        proof {
            assert(chunk@.take(i as int) =~= chunk@);
        }
        r
    }
}

/// A line as it is told; an empty one is not.
pub fn segment_text(segment: &[u8]) -> (r: Option<String>)
    ensures
        text_of(r) == if segment@.len() == 0 {
            None
        } else {
            Some(lossy_text(segment@))
        },
{
    if segment.len() == 0 {
        None
    } else {
        Some(decode_lossy(segment))
    }
}

// ---------------------------------------------------------------------------
// What holds of it
// ---------------------------------------------------------------------------

/// It does not matter how an output is cut into chunks: two chunks give the
/// lines that they give as one.
pub proof fn chunks_do_not_matter(pending: Seq<u8>, a: Seq<u8>, b: Seq<u8>)
    ensures
        cut(pending, a + b) == ({
            let (first, middle) = cut(pending, a);
            let (second, rest) = cut(middle, b);
            (first + second, rest)
        }),
    decreases b.len(),
{
    let (first, middle) = cut(pending, a);
    if b.len() == 0 {
        assert(a + b =~= a);
        assert(first + Seq::<Seq<u8>>::empty() =~= first);
    } else {
        chunks_do_not_matter(pending, a, b.drop_last());
        assert((a + b).drop_last() =~= a + b.drop_last());
        let (second, rest) = cut(middle, b.drop_last());
        if ends_line(b.last()) && rest.len() > 0 {
            assert((first + second).push(rest) =~= first + second.push(rest));
        }
    }
}

/// The bytes of an output that do not end a line.
pub open spec fn line_bytes(bytes: Seq<u8>) -> Seq<u8>
    decreases bytes.len(),
{
    if bytes.len() == 0 {
        Seq::empty()
    } else if ends_line(bytes.last()) {
        line_bytes(bytes.drop_last())
    } else {
        line_bytes(bytes.drop_last()).push(bytes.last())
    }
}

/// The lines one behind the other.
pub open spec fn run_together(lines: Seq<Seq<u8>>) -> Seq<u8>
    decreases lines.len(),
{
    if lines.len() == 0 {
        Seq::empty()
    } else {
        run_together(lines.drop_last()) + lines.last()
    }
}

/// Nothing is lost but the ends of the lines: the lines that were completed and
/// the unfinished one hold, in order, every other byte that arrived.
pub proof fn nothing_is_lost(pending: Seq<u8>, bytes: Seq<u8>)
    ensures
        run_together(cut(pending, bytes).0) + cut(pending, bytes).1 == pending + line_bytes(bytes),
    decreases bytes.len(),
{
    let (all, last) = cut(pending, bytes);
    if bytes.len() == 0 {
        assert(run_together(all) + last =~= pending + line_bytes(bytes));
    } else {
        let init = bytes.drop_last();
        nothing_is_lost(pending, init);
        let (done, rest) = cut(pending, init);
        if !ends_line(bytes.last()) {
            assert(run_together(all) + last =~= (run_together(done) + rest).push(bytes.last()));
            assert(pending + line_bytes(bytes) =~= (pending + line_bytes(init)).push(
                bytes.last(),
            ));
        } else if rest.len() > 0 {
            assert(all.drop_last() =~= done);
            assert(run_together(all) + last =~= run_together(done) + rest);
        } else {
            assert(run_together(all) + last =~= run_together(done) + rest);
        }
    }
}

/// Whether a line holds no byte that ends a line.
pub open spec fn is_one_line(line: Seq<u8>) -> bool {
    forall|i: int| 0 <= i < line.len() ==> !ends_line(#[trigger] line[i])
}

/// A line that is told is not empty and holds no end of a line.
pub proof fn told_lines_are_lines(pending: Seq<u8>, bytes: Seq<u8>)
    requires
        is_one_line(pending),
    ensures
        is_one_line(cut(pending, bytes).1),
        forall|i: int|
            0 <= i < cut(pending, bytes).0.len() ==> (#[trigger] cut(pending, bytes).0[i]).len() > 0
                && is_one_line(cut(pending, bytes).0[i]),
    decreases bytes.len(),
{
    if bytes.len() > 0 {
        told_lines_are_lines(pending, bytes.drop_last());
    }
}

/// A line feed and a carriage return end a line, and nothing else does; what came before
/// is told as a line unless it is empty, and the next line begins empty.
pub proof fn breaks_end_lines(pending: Seq<u8>, b: u8)
    ensures
        b == 10 || b == 13 ==> cut(pending, seq![b]).1.len() == 0,
        (b == 10 || b == 13) && pending.len() > 0 ==> cut(pending, seq![b]).0 == seq![pending],
        (b == 10 || b == 13) && pending.len() == 0 ==> cut(pending, seq![b]).0.len() == 0,
        b != 10 && b != 13 ==> cut(pending, seq![b]) == (
            Seq::<Seq<u8>>::empty(),
            pending.push(b),
        ),
{
    let one = seq![b];
    assert(one.drop_last().len() == 0);
    assert(cut(pending, one.drop_last()) == (Seq::<Seq<u8>>::empty(), pending));
    assert(one.last() == b);
    assert(Seq::<Seq<u8>>::empty().push(pending) =~= seq![pending]);
}

} // verus!

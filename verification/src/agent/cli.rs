//! What the agent is told on its command line, and what it says of errors.
use vstd::prelude::*;
use vstd::string::*;

use crate::text::{join, joined, no_texts, push_text, same, texts};

verus! {

/// The arguments of a login.
#[derive(Debug)]
pub struct LoginArgs {
    pub api_base_url: Option<String>,
    pub requested_name: Option<String>,
    pub api_base_url_positional: Option<String>,
}

/// What a login is asked to do.
#[derive(Debug)]
pub struct LoginOptions {
    pub api_base_url: Option<String>,
    pub requested_name: Option<String>,
}

impl LoginArgs {
    /// What a login is asked to do: the named address counts before the one that
    /// stands by itself.
    pub fn into_options(self) -> (r: LoginOptions)
        ensures
            r.requested_name == self.requested_name,
            r.api_base_url == if self.api_base_url is Some {
                self.api_base_url
            } else {
                self.api_base_url_positional
            },
    {
        let api_base_url = match self.api_base_url {
            Some(url) => Some(url),
            None => self.api_base_url_positional,
        };
        LoginOptions { api_base_url, requested_name: self.requested_name }
    }
}

/// The texts without those that repeat the one before them.
pub open spec fn without_repeats(s: Seq<Seq<char>>) -> Seq<Seq<char>>
    decreases s.len(),
{
    if s.len() == 0 {
        Seq::empty()
    } else {
        let init = without_repeats(s.drop_last());
        if init.len() > 0 && init.last() == s.last() {
            init
        } else {
            init.push(s.last())
        }
    }
}

/// An error as it is told, out of the texts of its causes: each once where it
/// stands beside itself.
pub fn format_error_chain(causes: &Vec<String>) -> (r: String)
    ensures
        r@ == joined(without_repeats(texts(causes@)), ": "@),
{
    let ghost all = texts(causes@);
    let mut parts = no_texts();
    let mut i: usize = 0;
    proof {
        assert(all.take(0) =~= Seq::<Seq<char>>::empty());
    }
    while i < causes.len()
        invariant
            all == texts(causes@),
            i <= causes@.len(),
            texts(parts@) == without_repeats(all.take(i as int)),
        decreases causes@.len() - i,
    {
        proof {
            assert(all.take(i + 1).drop_last() =~= all.take(i as int));
            assert(all.take(i + 1).last() == causes@[i as int]@);
            assert(texts(parts@).len() == parts@.len());
        }
        let repeats = parts.len() > 0 && same(
            parts[parts.len() - 1].as_str(),
            causes[i].as_str(),
        );
        if !repeats {
            push_text(&mut parts, causes[i].as_str());
        }
        i += 1;
    }
    proof {
        assert(all.take(i as int) =~= all);
    }
    join(&parts, ": ")
}

/// No text that is told of an error repeats the one before it.
pub proof fn told_causes_differ(s: Seq<Seq<char>>)
    ensures
        forall|i: int|
            0 < i < without_repeats(s).len() ==> #[trigger] without_repeats(s)[i]
                != without_repeats(s)[i - 1],
    decreases s.len(),
{
    if s.len() > 0 {
        let init = without_repeats(s.drop_last());
        told_causes_differ(s.drop_last());
        assert forall|i: int| 0 < i < without_repeats(s).len() implies #[trigger] without_repeats(
            s,
        )[i] != without_repeats(s)[i - 1] by {
            if i < init.len() {
                assert(without_repeats(s)[i] == init[i]);
                assert(without_repeats(s)[i - 1] == init[i - 1]);
            }
        }
    }
}

/// A chain of causes in which none follows itself is told as it is.
pub proof fn different_causes_are_all_told(s: Seq<Seq<char>>)
    requires
        forall|i: int| 0 < i < s.len() ==> #[trigger] s[i] != s[i - 1],
    ensures
        without_repeats(s) == s,
    decreases s.len(),
{
    if s.len() > 0 {
        let init = s.drop_last();
        assert forall|i: int| 0 < i < init.len() implies #[trigger] init[i] != init[i - 1] by {
            assert(s[i] != s[i - 1]);
        }
        different_causes_are_all_told(init);
        if init.len() > 0 {
            assert(s[s.len() - 1] != s[s.len() - 2]);
        }
        assert(init.push(s.last()) =~= s);
    }
}

/// To name a cause once more changes nothing, and to name another adds it at the end.
pub proof fn repeated_cause_is_told_once(s: Seq<Seq<char>>, cause: Seq<char>)
    ensures
        s.len() > 0 && s.last() == cause ==> without_repeats(s.push(cause)) == without_repeats(s),
        s.len() == 0 || s.last() != cause ==> without_repeats(s.push(cause)) == without_repeats(
            s,
        ).push(cause),
        s.len() > 0 ==> without_repeats(s).len() > 0 && without_repeats(s).last() == s.last(),
{
    assert(s.push(cause).drop_last() =~= s);
    if s.len() > 0 {
        let init = without_repeats(s.drop_last());
        assert(init.push(s.last()).last() == s.last());
    }
}

} // verus!

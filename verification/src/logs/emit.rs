//! Which log lines are written.
use vstd::prelude::*;
use vstd::string::*;

use crate::text::{lowered, same, str_of, text_of, to_lower, trim, trimmed};

use super::format::{agent_front, agent_line, LogLevel};

verus! {

/// Whether the value of an environment variable switches something on.
pub open spec fn is_on(value: Option<Seq<char>>) -> bool {
    match value {
        Some(v) => {
            let w = lowered(trimmed(v));
            w == "1"@ || w == "true"@ || w == "yes"@ || w == "on"@
        },
        None => false,
    }
}

/// Whether the value of an environment variable switches something on; what is
/// not set does not.
pub fn env_flag(value: Option<&str>) -> (r: bool)
    ensures
        r == is_on(str_of(value)),
{
    match value {
        Some(v) => {
            let t = trim(v);
            let w = to_lower(t.as_str());
            let s = w.as_str();
            same(s, "1") || same(s, "true") || same(s, "yes") || same(s, "on")
        },
        None => false,
    }
}

/// Whether debug lines are written, given the value of `STATIX_VERBOSE_LOGS`.
pub fn verbose_enabled(value: Option<&str>) -> (r: bool)
    ensures
        r == is_on(str_of(value)),
{
    env_flag(value)
}

/// A line of the agent, if it is written: a debug line only where debug lines
/// are.
pub fn emitted_line(level: LogLevel, verbose: bool, message: &str) -> (r: Option<String>)
    ensures
        text_of(r) == if level == LogLevel::Debug && !verbose {
            None
        } else {
            Some(agent_front(level) + message@)
        },
{
    if level == LogLevel::Debug && !verbose {
        None
    } else {
        Some(agent_line(level, message))
    }
}

/// A setting is on exactly where it says so in one of four words, in whatever letters and
/// with white space around it or not.
pub proof fn settings_are_on_by_words(front: Seq<char>, word: Seq<char>, back: Seq<char>)
    requires
        forall|i: int| 0 <= i < front.len() ==> crate::text::is_white(#[trigger] front[i]),
        forall|i: int| 0 <= i < back.len() ==> crate::text::is_white(#[trigger] back[i]),
        word.len() > 0 ==> !crate::text::is_white(word[0]) && !crate::text::is_white(word.last()),
    ensures
        is_on(Some(front + word + back)) <==> lowered(word) == seq!['1'] || lowered(word) == seq![
            't',
            'r',
            'u',
            'e',
        ] || lowered(word) == seq!['y', 'e', 's'] || lowered(word) == seq!['o', 'n'],
        !is_on(None),
{
    reveal_strlit("1");
    reveal_strlit("true");
    reveal_strlit("yes");
    reveal_strlit("on");
    assert("1"@ =~= seq!['1']);
    assert("true"@ =~= seq!['t', 'r', 'u', 'e']);
    assert("yes"@ =~= seq!['y', 'e', 's']);
    assert("on"@ =~= seq!['o', 'n']);
    crate::text::white_space_around_is_ignored(front, word, back);
}

} // verus!

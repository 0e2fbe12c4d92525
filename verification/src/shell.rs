//! Words for the shell: how they are quoted, and that the shell reads back what
//! was quoted.
use vstd::prelude::*;
use vstd::string::*;

use crate::text::{
    alphanumeric, is_alphanumeric, join, joined, no_texts, push_text, texts, to_chars,
};

verus! {

/// The characters that the shell takes as they stand.
pub open spec fn is_plain(c: char) -> bool {
    is_alphanumeric(c) || c == '@' || c == '%' || c == '_' || c == '-' || c == '+' || c == '='
        || c == ':' || c == ',' || c == '.' || c == '/'
}

/// Whether the shell takes the whole text as it stands.
pub open spec fn all_plain(s: Seq<char>) -> bool {
    forall|i: int| 0 <= i < s.len() ==> is_plain(#[trigger] s[i])
}

/// A text as it stands between single quotes: each single quote in it closes the
/// quotes, stands behind a backslash, and opens them again.
pub open spec fn quoted_body(s: Seq<char>) -> Seq<char>
    decreases s.len(),
{
    if s.len() == 0 {
        Seq::empty()
    } else if s.last() == '\'' {
        quoted_body(s.drop_last()) + "'\\''"@
    } else {
        quoted_body(s.drop_last()).push(s.last())
    }
}

/// A word as it is written for the shell.
pub open spec fn escaped(s: Seq<char>) -> Seq<char> {
    if s.len() == 0 {
        "''"@
    } else if all_plain(s) {
        s
    } else {
        "'"@ + quoted_body(s) + "'"@
    }
}

/// Words as they are written for the shell.
pub open spec fn all_escaped(words: Seq<Seq<char>>) -> Seq<Seq<char>> {
    Seq::new(words.len(), |i: int| escaped(words[i]))
}

/// A command as it is written for the shell.
pub open spec fn shell_text(words: Seq<Seq<char>>) -> Seq<char> {
    joined(all_escaped(words), " "@)
}

fn plain(c: char) -> (r: bool)
    ensures
        r == is_plain(c),
{
    alphanumeric(c) || c == '@' || c == '%' || c == '_' || c == '-' || c == '+' || c == '=' || c
        == ':' || c == ',' || c == '.' || c == '/'
}

/// A word as it is written for the shell.
pub fn shell_escape(value: &str) -> (r: String)
    ensures
        r@ == escaped(value@),
{
    if value.is_empty() {
        return "''".to_string();
    }
    let cs = to_chars(value);
    let mut i: usize = 0;
    while i < cs.len() && plain(cs[i])
        invariant
            cs@ == value@,
            i <= cs@.len(),
            forall|j: int| 0 <= j < i ==> is_plain(#[trigger] cs@[j]),
        decreases cs@.len() - i,
    {
        i += 1;
    }
    if i == cs.len() {
        return value.to_owned();
    }
    proof {
        assert(!is_plain(value@[i as int]));
    }
    let mut r = "'".to_string();
    let mut k: usize = 0;
    proof {
        assert(r@ =~= "'"@ + quoted_body(cs@.take(0)));
    }
    while k < cs.len()
        invariant
            k <= cs@.len(),
            r@ == "'"@ + quoted_body(cs@.take(k as int)),
        decreases cs@.len() - k,
    {
        let c = cs[k];
        proof {
            assert(cs@.take(k + 1).drop_last() =~= cs@.take(k as int));
            assert(cs@.take(k + 1).last() == c);
        }
        if c == '\'' {
            r.append("'\\''");
        } else {
            r.push(c);
        }
        proof {
            assert(r@ =~= "'"@ + quoted_body(cs@.take(k + 1)));
        }
        k += 1;
    }
    proof {
        assert(cs@.take(k as int) =~= value@);
    }
    r.append("'");
    r
}

/// A command as it is written for the shell.
pub fn shell_join(command: &Vec<String>) -> (r: String)
    ensures
        r@ == shell_text(texts(command@)),
{
    let ghost words = texts(command@);
    let mut parts = no_texts();
    let mut i: usize = 0;
    proof {
        assert(all_escaped(words).take(0) =~= Seq::<Seq<char>>::empty());
    }
    while i < command.len()
        invariant
            words == texts(command@),
            i <= command@.len(),
            texts(parts@) == all_escaped(words).take(i as int),
        decreases command@.len() - i,
    {
        let e = shell_escape(command[i].as_str());
        proof {
            assert(words[i as int] == command@[i as int]@);
            assert(all_escaped(words).take(i + 1) =~= all_escaped(words).take(i as int).push(e@));
        }
        push_text(&mut parts, e.as_str());
        i += 1;
    }
    proof {
        assert(all_escaped(words).take(i as int) =~= all_escaped(words));
    }
    join(&parts, " ")
}

// ---------------------------------------------------------------------------
// How the shell reads
// ---------------------------------------------------------------------------

/// Where the shell stands while it reads a command.
pub enum ReadingMode {
    Plain,
    Quoted,
    Escaped,
}

/// What the shell has read of a command: the words that are complete, the word
/// that it is in, and where it stands in that word.
pub struct Reading {
    pub words: Seq<Seq<char>>,
    pub word: Option<Seq<char>>,
    pub mode: ReadingMode,
}

/// The word that the shell is in, which may have no character yet.
pub open spec fn word_so_far(r: Reading) -> Seq<char> {
    match r.word {
        Some(w) => w,
        None => Seq::empty(),
    }
}

/// One step of reading. A blank ends a word; a single quote opens and closes
/// quotes, between which every character stands for itself; a character behind a
/// backslash stands for itself. Other characters than the plain ones have a
/// meaning of their own outside of quotes: there the reading is given up.
pub open spec fn read_char(r: Option<Reading>, c: char) -> Option<Reading> {
    match r {
        None => None,
        Some(r) => match r.mode {
            ReadingMode::Plain => if c == ' ' {
                Some(
                    Reading {
                        words: match r.word {
                            Some(w) => r.words.push(w),
                            None => r.words,
                        },
                        word: None,
                        mode: ReadingMode::Plain,
                    },
                )
            } else if c == '\'' {
                Some(
                    Reading {
                        words: r.words,
                        word: Some(word_so_far(r)),
                        mode: ReadingMode::Quoted,
                    },
                )
            } else if c == '\\' {
                Some(
                    Reading {
                        words: r.words,
                        word: Some(word_so_far(r)),
                        mode: ReadingMode::Escaped,
                    },
                )
            } else if is_plain(c) {
                Some(
                    Reading {
                        words: r.words,
                        word: Some(word_so_far(r).push(c)),
                        mode: ReadingMode::Plain,
                    },
                )
            } else {
                None
            },
            ReadingMode::Quoted => if c == '\'' {
                Some(Reading { words: r.words, word: r.word, mode: ReadingMode::Plain })
            } else {
                Some(
                    Reading {
                        words: r.words,
                        word: Some(word_so_far(r).push(c)),
                        mode: ReadingMode::Quoted,
                    },
                )
            },
            ReadingMode::Escaped => Some(
                Reading {
                    words: r.words,
                    word: Some(word_so_far(r).push(c)),
                    mode: ReadingMode::Plain,
                },
            ),
        },
    }
}

/// Reading on from `r` through the text.
pub open spec fn read_on(r: Option<Reading>, s: Seq<char>) -> Option<Reading>
    decreases s.len(),
{
    if s.len() == 0 {
        r
    } else {
        read_char(read_on(r, s.drop_last()), s.last())
    }
}

/// The words that the shell reads in a text, where nothing in it has a meaning
/// of its own and its quotes are closed.
pub open spec fn shell_words(s: Seq<char>) -> Option<Seq<Seq<char>>> {
    match read_on(
        Some(Reading { words: Seq::empty(), word: None, mode: ReadingMode::Plain }),
        s,
    ) {
        Some(r) => match r.mode {
            ReadingMode::Plain => Some(
                match r.word {
                    Some(w) => r.words.push(w),
                    None => r.words,
                },
            ),
            _ => None,
        },
        None => None,
    }
}

proof fn lemma_read_on(r: Option<Reading>, a: Seq<char>, b: Seq<char>)
    ensures
        read_on(r, a + b) == read_on(read_on(r, a), b),
    decreases b.len(),
{
    if b.len() == 0 {
        assert(a + b =~= a);
    } else {
        lemma_read_on(r, a, b.drop_last());
        assert((a + b).drop_last() =~= a + b.drop_last());
    }
}

proof fn lemma_read_one(r: Option<Reading>, c: char)
    ensures
        read_on(r, seq![c]) == read_char(r, c),
{
    assert(seq![c].drop_last() =~= Seq::<char>::empty());
    assert(read_on(r, seq![c].drop_last()) == r);
}

proof fn lemma_read_plain(words: Seq<Seq<char>>, s: Seq<char>)
    requires
        all_plain(s),
        s.len() > 0,
    ensures
        read_on(Some(Reading { words, word: None, mode: ReadingMode::Plain }), s) == Some(
            Reading { words, word: Some(s), mode: ReadingMode::Plain },
        ),
    decreases s.len(),
{
    let start = Some(Reading { words, word: None, mode: ReadingMode::Plain });
    let init = s.drop_last();
    assert(is_plain(s[s.len() - 1]));
    if init.len() == 0 {
        assert(read_on(start, init) == start);
        assert(Seq::<char>::empty().push(s.last()) =~= s);
    } else {
        assert forall|i: int| 0 <= i < init.len() implies is_plain(#[trigger] init[i]) by {
            assert(init[i] == s[i]);
        }
        lemma_read_plain(words, init);
        assert(init.push(s.last()) =~= s);
    }
}

proof fn lemma_read_quoted(words: Seq<Seq<char>>, x: Seq<char>, s: Seq<char>)
    ensures
        read_on(
            Some(Reading { words, word: Some(x), mode: ReadingMode::Quoted }),
            quoted_body(s),
        ) == Some(Reading { words, word: Some(x + s), mode: ReadingMode::Quoted }),
    decreases s.len(),
{
    let start = Some(Reading { words, word: Some(x), mode: ReadingMode::Quoted });
    if s.len() == 0 {
        assert(x + s =~= x);
    } else {
        let init = s.drop_last();
        let c = s.last();
        lemma_read_quoted(words, x, init);
        let q = quoted_body(init);
        assert(x + s =~= (x + init).push(c));
        if c == '\'' {
            reveal_strlit("'\\''");
            let t = "'\\''"@;
            assert(t =~= seq!['\''] + seq!['\\'] + seq!['\''] + seq!['\'']);
            let r0 = read_on(start, q);
            lemma_read_on(start, q, t);
            lemma_read_on(r0, seq!['\''] + seq!['\\'] + seq!['\''], seq!['\'']);
            lemma_read_on(r0, seq!['\''] + seq!['\\'], seq!['\'']);
            lemma_read_on(r0, seq!['\''], seq!['\\']);
            lemma_read_one(r0, '\'');
            let r1 = read_char(r0, '\'');
            lemma_read_one(r1, '\\');
            let r2 = read_char(r1, '\\');
            lemma_read_one(r2, '\'');
            let r3 = read_char(r2, '\'');
            lemma_read_one(r3, '\'');
        } else {
            let t = q.push(c);
            assert(t.drop_last() =~= q);
        }
    }
}

/// The shell reads a word that is written for it as that word.
proof fn lemma_read_escaped(words: Seq<Seq<char>>, s: Seq<char>)
    ensures
        read_on(Some(Reading { words, word: None, mode: ReadingMode::Plain }), escaped(s)) == Some(
            Reading { words, word: Some(s), mode: ReadingMode::Plain },
        ),
{
    let start = Some(Reading { words, word: None, mode: ReadingMode::Plain });
    reveal_strlit("'");
    assert("'"@ =~= seq!['\'']);
    if s.len() == 0 {
        reveal_strlit("''");
        assert("''"@ =~= seq!['\''] + seq!['\'']);
        lemma_read_on(start, seq!['\''], seq!['\'']);
        lemma_read_one(start, '\'');
        lemma_read_one(read_char(start, '\''), '\'');
        assert(s =~= Seq::<char>::empty());
    } else if all_plain(s) {
        lemma_read_plain(words, s);
    } else {
        let q = seq!['\''];
        let b = quoted_body(s);
        lemma_read_on(start, q + b, q);
        lemma_read_on(start, q, b);
        lemma_read_one(start, '\'');
        lemma_read_quoted(words, Seq::empty(), s);
        assert(Seq::<char>::empty() + s =~= s);
        lemma_read_one(
            Some(Reading { words, word: Some(s), mode: ReadingMode::Quoted }),
            '\'',
        );
    }
}

proof fn lemma_read_joined(words: Seq<Seq<char>>)
    requires
        words.len() > 0,
    ensures
        read_on(
            Some(Reading { words: Seq::empty(), word: None, mode: ReadingMode::Plain }),
            shell_text(words),
        ) == Some(
            Reading {
                words: words.drop_last(),
                word: Some(words.last()),
                mode: ReadingMode::Plain,
            },
        ),
    decreases words.len(),
{
    let start = Some(Reading { words: Seq::empty(), word: None, mode: ReadingMode::Plain });
    let parts = all_escaped(words);
    if words.len() == 1 {
        lemma_read_escaped(Seq::empty(), words[0]);
        assert(words.drop_last() =~= Seq::<Seq<char>>::empty());
    } else {
        let init = words.drop_last();
        lemma_read_joined(init);
        assert(parts.drop_last() =~= all_escaped(init));
        let front = shell_text(init);
        let last = escaped(words.last());
        reveal_strlit(" ");
        assert(" "@ =~= seq![' ']);
        lemma_read_on(start, front + seq![' '], last);
        lemma_read_on(start, front, seq![' ']);
        lemma_read_one(read_on(start, front), ' ');
        assert(init.drop_last().push(init.last()) =~= init);
        lemma_read_escaped(init, words.last());
    }
}

/// The shell reads back what was written for it: the words of a command, and
/// nothing in them has a meaning of its own to the shell.
pub proof fn shell_reads_back(words: Seq<Seq<char>>)
    ensures
        shell_words(shell_text(words)) == Some(words),
{
    if words.len() == 0 {
        assert(words =~= Seq::<Seq<char>>::empty());
    } else {
        lemma_read_joined(words);
        assert(words.drop_last().push(words.last()) =~= words);
    }
}

/// A word is sent as it is exactly where it is not empty and holds nothing but letters,
/// digits and these marks; any other is sent in quotes.
pub proof fn only_plain_words_go_unquoted(s: Seq<char>)
    ensures
        escaped(s) == s <==> s.len() > 0 && forall|i: int|
            0 <= i < s.len() ==> '0' <= #[trigger] s[i] <= '9' || 'a' <= s[i] <= 'z' || 'A' <= s[i]
                <= 'Z' || "@%_-+=:,./"@.contains(s[i]),
        escaped(s) != s ==> escaped(s).len() >= s.len() + 2 && escaped(s)[0] == '\'' && escaped(
            s,
        ).last() == '\'',
{
    reveal_strlit("@%_-+=:,./");
    reveal_strlit("''");
    reveal_strlit("'");
    let marks = "@%_-+=:,./"@;
    assert(marks[0] == '@' && marks[1] == '%' && marks[2] == '_' && marks[3] == '-' && marks[4]
        == '+' && marks[5] == '=' && marks[6] == ':' && marks[7] == ',' && marks[8] == '.'
        && marks[9] == '/');
    assert forall|c: char| #[trigger] is_plain(c) <==> '0' <= c <= '9' || 'a' <= c <= 'z' || 'A'
        <= c <= 'Z' || marks.contains(c) by {
        crate::text::characters_are_told_apart(c);
        assert(marks.contains(marks[0]) && marks.contains(marks[1]) && marks.contains(marks[2])
            && marks.contains(marks[3]) && marks.contains(marks[4]) && marks.contains(marks[5])
            && marks.contains(marks[6]) && marks.contains(marks[7]) && marks.contains(marks[8])
            && marks.contains(marks[9]));
    }
    lemma_quoting_adds(s);
    let quoted = "'"@ + quoted_body(s) + "'"@;
    assert(quoted.len() >= s.len() + 2 && quoted[0] == '\'' && quoted.last() == '\'');
    if all_plain(s) {
        assert forall|i: int| 0 <= i < s.len() implies '0' <= #[trigger] s[i] <= '9' || 'a' <= s[i]
            <= 'z' || 'A' <= s[i] <= 'Z' || marks.contains(s[i]) by {
            assert(is_plain(s[i]));
        }
    } else {
        let i = choose|i: int| 0 <= i < s.len() && !is_plain(#[trigger] s[i]);
        assert(!is_plain(s[i]));
    }
}

proof fn lemma_quoting_adds(s: Seq<char>)
    ensures
        quoted_body(s).len() >= s.len(),
    decreases s.len(),
{
    if s.len() > 0 {
        lemma_quoting_adds(s.drop_last());
        reveal_strlit("'\\''");
    }
}

} // verus!

//! Shell words: splitting a command line and quoting one word.
use crate::text;
use vstd::prelude::*;

verus! {

/// The words that `shell_words::split` finds in a command line; none when a quote
/// is left open.
pub uninterp spec fn shell_words_of(s: Seq<char>) -> Option<Seq<Seq<char>>>;

/// `shell_words::split`: the words of a command line by the shell's quoting
/// rules, or the error's text, which is always the same. What the words are is
/// left to the name `shell_words_of`.
#[verifier::external_body]
pub(crate) fn split_words(s: &str) -> (res: Result<Vec<String>, String>)
    ensures
        match res {
            Ok(words) => shell_words_of(s@) == Some(words.deep_view()),
            Err(e) => shell_words_of(s@) is None && e@ == "missing closing quote"@,
        },
{
    shell_words::split(s).map_err(|e| e.to_string())
}

/// `s` as one word for a shell: between single quotes, with every single quote
/// inside written `'\''`.
pub open spec fn quoted(s: Seq<char>) -> Seq<char> {
    "'"@ + text::replaced(s, '\'', "'\\''"@) + "'"@
}

/// Single-quotes `s` so that a shell takes it as one word.
pub fn shell_escape(s: &str) -> (res: String)
    ensures
        res@ == quoted(s@),
{
    let inner = text::replace_char(s, '\'', "'\\''");
    text::concat3("'", inner.as_str(), "'")
}

/// What a shell reads from a word of single-quoted runs and escaped single
/// quotes, `inside` telling whether a quoted run is open; none for anything else.
pub open spec fn unquoted(s: Seq<char>, inside: bool) -> Option<Seq<char>>
    decreases s.len(),
{
    if s.len() == 0 {
        if inside {
            None
        } else {
            Some(seq![])
        }
    } else if s[0] == '\'' {
        unquoted(s.drop_first(), !inside)
    } else if inside {
        match unquoted(s.drop_first(), true) {
            Some(t) => Some(seq![s[0]] + t),
            None => None,
        }
    } else if s[0] == '\\' && s.len() > 1 && s[1] == '\'' {
        match unquoted(s.skip(2), false) {
            Some(t) => Some(seq!['\''] + t),
            None => None,
        }
    } else {
        None
    }
}

/// An escaped single quote within an open run reads as one single quote.
proof fn lemma_unquoted_escape(rest: Seq<char>)
    ensures
        unquoted(seq!['\'', '\\', '\'', '\''] + rest, true) == match unquoted(rest, true) {
            Some(t) => Some(seq!['\''] + t),
            None => None,
        },
{
    let w = seq!['\'', '\\', '\'', '\''] + rest;
    let w1 = w.drop_first();
    let w2 = w1.skip(2);
    assert(w2[0] == '\'');
    assert(w2.drop_first() =~= rest);
    assert(w1[0] == '\\' && w1[1] == '\'');
    assert(unquoted(w2, false) == unquoted(rest, true));
    assert(unquoted(w, true) == unquoted(w1, false));
}

proof fn lemma_unquoted_run(s: Seq<char>, rest: Seq<char>)
    ensures
        unquoted(text::replaced(s, '\'', "'\\''"@) + rest, true) == match unquoted(rest, true) {
            Some(t) => Some(s + t),
            None => None,
        },
    decreases s.len(),
{
    reveal_strlit("'\\''");
    let esc = "'\\''"@;
    assert(esc =~= seq!['\'', '\\', '\'', '\'']);
    if s.len() == 0 {
        assert(text::replaced(s, '\'', esc) + rest =~= rest);
        if unquoted(rest, true) is Some {
            assert(s + unquoted(rest, true)->0 =~= unquoted(rest, true)->0);
        }
    } else {
        let head = s.drop_last();
        let c = s.last();
        let tail: Seq<char> = if c == '\'' {
            esc
        } else {
            seq![c]
        };
        assert(text::replaced(s, '\'', esc) + rest =~= text::replaced(head, '\'', esc) + (tail
            + rest));
        lemma_unquoted_run(head, tail + rest);
        if c == '\'' {
            lemma_unquoted_escape(rest);
        } else {
            assert((tail + rest).drop_first() =~= rest);
        }
        if unquoted(rest, true) is Some {
            let t = unquoted(rest, true)->0;
            assert(head + (seq![c] + t) =~= s + t);
        }
    }
}

/// A shell reads an escaped text back as it was.
pub proof fn law_escaped_text_reads_back(s: Seq<char>)
    ensures
        unquoted(quoted(s), false) == Some(s),
{
    reveal_strlit("'");
    let q = "'"@;
    assert(q =~= seq!['\'']);
    let inner = text::replaced(s, '\'', "'\\''"@);
    assert(quoted(s).drop_first() =~= inner + q);
    lemma_unquoted_run(s, q);
    reveal_with_fuel(unquoted, 3);
    assert(q.drop_first() =~= Seq::<char>::empty());
    assert(s + Seq::<char>::empty() =~= s);
}

} // verus!

//! Newline cleanup for tool-call argument strings.
//!
//! Streamed tool-call arguments sometimes carry literal newlines inside JSON
//! string values, which breaks downstream JSON parsing.  The cleanup walks the
//! text character by character, tracking whether it is inside a double-quoted
//! string (a quote preceded by a backslash does not toggle the state): a
//! literal newline inside a string becomes the two characters `\n`, a literal
//! newline outside a string is removed, every other character is kept, and the
//! result is trimmed.

use vstd::prelude::*;

use crate::strutil::{
    chars_to_string, is_ws_char, lemma_trim_idempotent, spec_trim, str_to_chars, trim_back,
    trim_chars, trim_front,
};

verus! {

/// The in-string state after reading `c`, given the state and previous
/// character before it.
pub open spec fn quote_step(in_quotes: bool, last: char, c: char) -> bool {
    if c == '"' && last != '\\' {
        !in_quotes
    } else {
        in_quotes
    }
}

/// The "previous character" state after reading `c`: a newline outside a
/// string is skipped without becoming the previous character.
pub open spec fn last_step(in_quotes: bool, last: char, c: char) -> char {
    if c == '\n' && !quote_step(in_quotes, last, c) {
        last
    } else {
        c
    }
}

/// What one character contributes to the cleaned text, given the in-string
/// state after reading it.
pub open spec fn clean_char(c: char, in_quotes: bool) -> Seq<char> {
    if c != '\n' {
        seq![c]
    } else if in_quotes {
        seq!['\\', 'n']
    } else {
        Seq::<char>::empty()
    }
}

/// The cleaned text of `s`, read in state (`in_quotes`, `last`), before
/// trimming: each character contributes [`clean_char`] under the running
/// quote state.
pub open spec fn clean_seq(s: Seq<char>, in_quotes: bool, last: char) -> Seq<char>
    decreases s.len(),
{
    if s.len() == 0 {
        Seq::<char>::empty()
    } else {
        let q = quote_step(in_quotes, last, s[0]);
        clean_char(s[0], q) + clean_seq(
            s.subrange(1, s.len() as int),
            q,
            last_step(in_quotes, last, s[0]),
        )
    }
}

/// The full cleanup: clean starting outside any string, then trim.
pub open spec fn spec_cleanup(s: Seq<char>) -> Seq<char> {
    spec_trim(clean_seq(s, false, ' '))
}

/// The character-by-character rule of the cleanup: the first character
/// contributes exactly [`clean_char`] under the advanced quote state — so
/// every character except a literal newline passes through unchanged, a
/// newline inside a string becomes `\n`, and a newline outside one is
/// dropped.
pub proof fn lemma_clean_char_rule(s: Seq<char>, in_quotes: bool, last: char)
    requires
        s.len() > 0,
    ensures
        clean_seq(s, in_quotes, last) == clean_char(s[0], quote_step(in_quotes, last, s[0]))
            + clean_seq(
            s.subrange(1, s.len() as int),
            quote_step(in_quotes, last, s[0]),
            last_step(in_quotes, last, s[0]),
        ),
{
}

/// Cleaned text never contains a literal newline.
pub proof fn lemma_clean_no_newline(s: Seq<char>, in_quotes: bool, last: char)
    ensures
        forall|i: int|
            0 <= i < clean_seq(s, in_quotes, last).len() ==> clean_seq(s, in_quotes, last)[i]
                != '\n',
    decreases s.len(),
{
    if s.len() > 0 {
        let q = quote_step(in_quotes, last, s[0]);
        let head = clean_char(s[0], q);
        let tail = clean_seq(s.subrange(1, s.len() as int), q, last_step(in_quotes, last, s[0]));
        lemma_clean_no_newline(s.subrange(1, s.len() as int), q, last_step(in_quotes, last, s[0]));
        assert forall|i: int|
            0 <= i < clean_seq(s, in_quotes, last).len() implies clean_seq(s, in_quotes, last)[i]
            != '\n' by {
            assert(clean_seq(s, in_quotes, last) == head + tail);
            if i < head.len() {
                assert(head[i] != '\n');
            } else {
                assert((head + tail)[i] == tail[i - head.len()]);
            }
        }
    }
}

/// Cleaning text without newlines changes nothing, whatever the state.
pub proof fn lemma_clean_identity(s: Seq<char>, in_quotes: bool, last: char)
    requires
        forall|i: int| 0 <= i < s.len() ==> s[i] != '\n',
    ensures
        clean_seq(s, in_quotes, last) == s,
    decreases s.len(),
{
    if s.len() > 0 {
        let q = quote_step(in_quotes, last, s[0]);
        let s1 = s.subrange(1, s.len() as int);
        assert(forall|i: int| 0 <= i < s1.len() ==> s1[i] != '\n');
        lemma_clean_identity(s1, q, last_step(in_quotes, last, s[0]));
        assert(clean_seq(s, in_quotes, last) =~= s);
    }
}

proof fn lemma_trim_front_keeps_no_newline(s: Seq<char>)
    requires
        forall|i: int| 0 <= i < s.len() ==> s[i] != '\n',
    ensures
        forall|i: int| 0 <= i < trim_front(s).len() ==> trim_front(s)[i] != '\n',
    decreases s.len(),
{
    if s.len() > 0 && crate::strutil::is_ws(s[0]) {
        let s1 = s.subrange(1, s.len() as int);
        assert(forall|i: int| 0 <= i < s1.len() ==> s1[i] != '\n');
        lemma_trim_front_keeps_no_newline(s1);
        assert(trim_front(s) == trim_front(s1));
    } else {
        assert(trim_front(s) == s);
    }
}

proof fn lemma_trim_back_keeps_no_newline(s: Seq<char>)
    requires
        forall|i: int| 0 <= i < s.len() ==> s[i] != '\n',
    ensures
        forall|i: int| 0 <= i < trim_back(s).len() ==> trim_back(s)[i] != '\n',
    decreases s.len(),
{
    if s.len() > 0 && crate::strutil::is_ws(s[s.len() - 1]) {
        let s1 = s.subrange(0, s.len() - 1);
        assert(forall|i: int| 0 <= i < s1.len() ==> s1[i] != '\n');
        lemma_trim_back_keeps_no_newline(s1);
        assert(trim_back(s) == trim_back(s1));
    } else {
        assert(trim_back(s) == s);
    }
}

/// The cleanup is idempotent: cleaning a second time changes nothing.
pub proof fn lemma_cleanup_idempotent(s: Seq<char>)
    ensures
        spec_cleanup(spec_cleanup(s)) == spec_cleanup(s),
{
    let c = clean_seq(s, false, ' ');
    let t = spec_trim(c);
    lemma_clean_no_newline(s, false, ' ');
    lemma_trim_front_keeps_no_newline(c);
    lemma_trim_back_keeps_no_newline(trim_front(c));
    lemma_clean_identity(t, false, ' ');
    lemma_trim_idempotent(c);
}

/// Removes literal newlines from a JSON-shaped string: a newline inside a
/// double-quoted string value becomes the escape `\n`, a newline between
/// values is dropped, every other character is kept unchanged, and the result
/// is trimmed.  Quotes and already-escaped characters are preserved.
pub fn cleanup_json_string_newlines(json_str: &str) -> (r: String)
    ensures
        r@ == spec_cleanup(json_str@),
{
    let chars = str_to_chars(json_str);
    let mut out: Vec<char> = Vec::new();
    let mut in_quotes: bool = false;
    let mut last: char = ' ';
    let mut i: usize = 0;
    let ghost s = json_str@;
    proof {
        assert(s.subrange(0, s.len() as int) =~= s);
        assert(out@ + clean_seq(s, false, ' ') =~= clean_seq(s, false, ' '));
    }
    while i < chars.len()
        invariant
            0 <= i <= chars@.len(),
            chars@ == s,
            clean_seq(s, false, ' ') == out@ + clean_seq(
                s.subrange(i as int, s.len() as int),
                in_quotes,
                last,
            ),
        decreases chars@.len() - i,
    {
        let c = chars[i];
        let ghost rest = s.subrange(i as int, s.len() as int);
        proof {
            assert(rest[0] == c);
            assert(rest.subrange(1, rest.len() as int) =~= s.subrange(i + 1, s.len() as int));
        }
        if c == '"' && last != '\\' {
            in_quotes = !in_quotes;
        }
        if c == '\n' {
            if in_quotes {
                out.push('\\');
                out.push('n');
                last = c;
            }
        } else {
            out.push(c);
            last = c;
        }
        i = i + 1;
        proof {
            assert(clean_seq(s, false, ' ') =~= out@ + clean_seq(
                s.subrange(i as int, s.len() as int),
                in_quotes,
                last,
            ));
        }
    }
    proof {
        assert(s.subrange(s.len() as int, s.len() as int) =~= Seq::<char>::empty());
        assert(out@ =~= clean_seq(s, false, ' '));
    }
    let trimmed = trim_chars(&out);
    chars_to_string(&trimmed)
}

} // verus!

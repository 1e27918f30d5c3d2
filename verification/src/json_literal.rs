//! What a JSON string literal says: the way back from the literals that are written.

use crate::payload::{quoted, quoted_all, quoted_char};
use crate::render::{escaped, escaped_all, json_text};
use crate::text::{fits_hex, hex, hex_value, lemma_hex_digits, lemma_hex_value};
use vstd::prelude::*;

verus! {

/// The character that a letter behind a backslash stands for.
pub open spec fn short_escape(c: char) -> Option<char> {
    if c == '"' || c == '\\' || c == '/' {
        Some(c)
    } else if c == 'b' {
        Some('\u{8}')
    } else if c == 'f' {
        Some('\u{c}')
    } else if c == 'n' {
        Some('\n')
    } else if c == 'r' {
        Some('\r')
    } else if c == 't' {
        Some('\t')
    } else {
        None
    }
}

/// The character with a code, where there is one.
pub open spec fn char_of(code: nat) -> Option<char> {
    if code < 0xd800 || 0xe000 <= code <= 0x10ffff {
        Some(code as char)
    } else {
        None
    }
}

/// The first character that a literal's body `t` says, and how much of it that takes. A
/// character beyond the basic plane stands as it is: pairs of escapes say nothing here.
pub open spec fn first_said(t: Seq<char>) -> Option<(char, int)> {
    if t.len() == 0 || t[0] == '"' || (t[0] as u32) < 0x20 {
        None
    } else if t[0] != '\\' {
        Some((t[0], 1))
    } else if t.len() >= 2 && short_escape(t[1]) is Some {
        Some((short_escape(t[1])->0, 2))
    } else if t.len() >= 6 && t[1] == 'u' {
        match hex_value(t.subrange(2, 6)) {
            Some(code) => match char_of(code) {
                Some(c) => Some((c, 6)),
                None => None,
            },
            None => None,
        }
    } else {
        None
    }
}

/// What the body of a literal says, if it is one.
pub open spec fn body_said(t: Seq<char>) -> Option<Seq<char>>
    decreases t.len(),
{
    if t.len() == 0 {
        Some(Seq::empty())
    } else {
        match first_said(t) {
            Some((c, n)) => if 0 < n <= t.len() {
                match body_said(t.skip(n)) {
                    Some(rest) => Some(seq![c] + rest),
                    None => None,
                }
            } else {
                None
            },
            None => None,
        }
    }
}

/// The text that a JSON string literal says, if `t` is one.
pub open spec fn said(t: Seq<char>) -> Option<Seq<char>> {
    if t.len() >= 2 && t[0] == '"' && t.last() == '"' {
        body_said(t.subrange(1, t.len() - 1))
    } else {
        None
    }
}

proof fn lemma_code(n: nat)
    requires
        n < 0x20,
    ensures
        hex(n, 4).len() == 4,
        hex_value(hex(n, 4)) == Some(n),
{
    reveal_with_fuel(fits_hex, 5);
    lemma_hex_value(n, 4);
}

proof fn lemma_escaped_said(c: char, rest: Seq<char>)
    ensures
        escaped(c).len() > 0,
        first_said(escaped(c) + rest) == Some((c, escaped(c).len() as int)),
        (escaped(c) + rest).skip(escaped(c).len() as int) == rest,
{
    reveal_strlit("\\\"");
    reveal_strlit("\\\\");
    reveal_strlit("\\n");
    reveal_strlit("\\r");
    reveal_strlit("\\t");
    reveal_strlit("\\u");
    let e = escaped(c);
    let t = e + rest;
    lemma_hex_digits(c as nat, 4);
    assert(t.skip(e.len() as int) =~= rest);
    if (c as u32) < 0x20 && c != '\n' && c != '\r' && c != '\t' {
        lemma_code(c as nat);
        assert(t.subrange(2, 6) =~= hex(c as nat, 4));
        assert(t[0] == '\\' && t[1] == 'u');
    } else {
        assert(t[0] == e[0]);
        if e.len() > 1 {
            assert(t[1] == e[1]);
        }
    }
}

proof fn lemma_quoted_said(c: char, rest: Seq<char>)
    ensures
        quoted_char(c).len() > 0,
        first_said(quoted_char(c) + rest) == Some((c, quoted_char(c).len() as int)),
        (quoted_char(c) + rest).skip(quoted_char(c).len() as int) == rest,
{
    reveal_strlit("\\b");
    reveal_strlit("\\f");
    lemma_escaped_said(c, rest);
    let t = quoted_char(c) + rest;
    assert(t.skip(quoted_char(c).len() as int) =~= rest);
    if c as u32 == 8 || c as u32 == 12 {
        assert(t[0] == quoted_char(c)[0] && t[1] == quoted_char(c)[1]);
    }
}

/// What a body says of a text and of what is behind it.
pub open spec fn said_before(s: Seq<char>, rest: Option<Seq<char>>) -> Option<Seq<char>> {
    match rest {
        Some(r) => Some(s + r),
        None => None,
    }
}

proof fn lemma_escaped_all_said(s: Seq<char>, rest: Seq<char>)
    ensures
        body_said(escaped_all(s) + rest) == said_before(s, body_said(rest)),
    decreases s.len(),
{
    if s.len() == 0 {
        assert(escaped_all(s) + rest =~= rest);
        if let Some(r) = body_said(rest) {
            assert(s + r =~= r);
        }
    } else {
        let (a, c) = (s.drop_last(), s.last());
        let t = escaped(c) + rest;
        assert(escaped_all(s) + rest =~= escaped_all(a) + t);
        lemma_escaped_all_said(a, t);
        lemma_escaped_said(c, rest);
        if let Some(r) = body_said(rest) {
            assert(a + (seq![c] + r) =~= s + r);
        }
    }
}

proof fn lemma_quoted_all_said(s: Seq<char>, rest: Seq<char>)
    ensures
        body_said(quoted_all(s) + rest) == said_before(s, body_said(rest)),
    decreases s.len(),
{
    if s.len() == 0 {
        assert(quoted_all(s) + rest =~= rest);
        if let Some(r) = body_said(rest) {
            assert(s + r =~= r);
        }
    } else {
        let (a, c) = (s.drop_last(), s.last());
        let t = quoted_char(c) + rest;
        assert(quoted_all(s) + rest =~= quoted_all(a) + t);
        lemma_quoted_all_said(a, t);
        lemma_quoted_said(c, rest);
        if let Some(r) = body_said(rest) {
            assert(a + (seq![c] + r) =~= s + r);
        }
    }
}

// ---- laws --------------------------------------------------------------------------

/// The literal that [`crate::render::json_str`] writes says the text that it was written
/// from.
pub proof fn law_json_says_its_text(s: Seq<char>)
    ensures
        said(json_text(s)) == Some(s),
{
    reveal_strlit("\"");
    let t = json_text(s);
    assert(t.subrange(1, t.len() - 1) =~= escaped_all(s) + Seq::<char>::empty());
    assert(t.last() == '"');
    lemma_escaped_all_said(s, Seq::empty());
    assert(s + Seq::<char>::empty() =~= s);
}

/// Two texts never share a literal.
pub proof fn law_json_tells_texts_apart(s: Seq<char>, t: Seq<char>)
    ensures
        json_text(s) == json_text(t) <==> s == t,
{
    law_json_says_its_text(s);
    law_json_says_its_text(t);
}

/// A literal in a payload says the text that it was written from, so two texts never share
/// one there either.
pub proof fn law_payloads_say_their_texts(s: Seq<char>, t: Seq<char>)
    ensures
        said(quoted(s)) == Some(s),
        quoted(s) == quoted(t) <==> s == t,
{
    lemma_payload_said(s);
    lemma_payload_said(t);
}

proof fn lemma_payload_said(s: Seq<char>)
    ensures
        said(quoted(s)) == Some(s),
{
    reveal(quoted);
    reveal_strlit("\"");
    let t = quoted(s);
    assert(t.subrange(1, t.len() - 1) =~= quoted_all(s) + Seq::<char>::empty());
    assert(t.last() == '"');
    lemma_quoted_all_said(s, Seq::empty());
    assert(s + Seq::<char>::empty() =~= s);
}

} // verus!

//! Colours for JSON payloads: a small lexer over the raw text, so that what is shown is
//! exactly what crossed the wire. Anything that is no JSON is still shown.

use crate::highlight::lemma_row_text_add;
use crate::style::{
    fg_style, lemma_row_text_push, plain_style, row, row_text, span, Color, Span, SpanV, Style,
};
use crate::text::{cat3, chars_of, dec, dec_u64, from_utf8, push_deep, same, text_of};
use vstd::prelude::*;
use vstd::string::*;
use vstd::utf8::*;

verus! {

// ---- characters --------------------------------------------------------------------

pub open spec fn is_digit_or_minus(c: char) -> bool {
    ('0' <= c && c <= '9') || c == '-'
}

pub open spec fn in_number(c: char) -> bool {
    ('0' <= c && c <= '9') || c == '-' || c == '+' || c == '.' || c == 'e' || c == 'E'
}

pub open spec fn is_letter(c: char) -> bool {
    ('a' <= c && c <= 'z') || ('A' <= c && c <= 'Z')
}

pub open spec fn is_punct(c: char) -> bool {
    c == '{' || c == '}' || c == '[' || c == ']' || c == ':' || c == ',' || c == ' ' || c == '\t' || c
        == '\r' || c == '\n'
}

/// White space between tokens.
pub open spec fn is_blank(c: char) -> bool {
    c == ' ' || c == '\t' || c == '\n' || c == '\x0c' || c == '\r'
}

pub open spec fn is_foreign(c: char) -> bool {
    (c as u32) > 0x7f
}

/// What kind of run a token is made of.
#[derive(Debug, Clone, Copy, PartialEq, Eq, Structural)]
pub enum Class {
    Number,
    Word,
    Punct,
    Foreign,
    Blank,
}

pub open spec fn in_class(class: Class, c: char) -> bool {
    match class {
        Class::Number => in_number(c),
        Class::Word => is_letter(c),
        Class::Punct => is_punct(c),
        Class::Foreign => is_foreign(c),
        Class::Blank => is_blank(c),
    }
}

/// How many characters of a class `s` begins with.
pub open spec fn run_len(s: Seq<char>, class: Class) -> int
    decreases s.len(),
{
    if s.len() > 0 && in_class(class, s[0]) {
        1 + run_len(s.skip(1), class)
    } else {
        0
    }
}

/// How many characters of `s`, the text behind an opening quote, belong to the string,
/// the closing quote included.
pub open spec fn string_len(s: Seq<char>) -> int
    decreases s.len(),
{
    if s.len() == 0 {
        0
    } else if s[0] == '\\' {
        if s.len() == 1 {
            1
        } else {
            2 + string_len(s.skip(2))
        }
    } else if s[0] == '"' {
        1
    } else {
        1 + string_len(s.skip(1))
    }
}

/// The length of the token that `s` begins with.
pub open spec fn token_len(s: Seq<char>) -> int {
    if s[0] == '"' {
        1 + string_len(s.skip(1))
    } else if is_digit_or_minus(s[0]) {
        run_len(s, Class::Number)
    } else if is_letter(s[0]) {
        run_len(s, Class::Word)
    } else if is_punct(s[0]) {
        run_len(s, Class::Punct)
    } else if is_foreign(s[0]) {
        run_len(s, Class::Foreign)
    } else {
        1
    }
}

/// A colon follows `s`, perhaps behind white space.
pub open spec fn before_colon(s: Seq<char>) -> bool {
    let n = run_len(s, Class::Blank);
    n < s.len() && s[n] == ':'
}

/// The style of the token that `s` begins with: keys are told from other strings, and
/// the three literals from other words.
pub open spec fn token_style(s: Seq<char>) -> Style {
    let n = token_len(s);
    if s[0] == '"' {
        fg_style(
            if before_colon(s.skip(n)) {
                Color::Cyan
            } else {
                Color::Green
            },
        )
    } else if is_digit_or_minus(s[0]) {
        fg_style(Color::Magenta)
    } else if is_letter(s[0]) {
        let w = s.take(n);
        if w == "true"@ || w == "false"@ || w == "null"@ {
            fg_style(Color::Yellow)
        } else {
            fg_style(Color::DarkGray)
        }
    } else if is_punct(s[0]) {
        fg_style(Color::DarkGray)
    } else {
        plain_style()
    }
}

proof fn lemma_run_len(s: Seq<char>, class: Class)
    ensures
        0 <= run_len(s, class) <= s.len(),
    decreases s.len(),
{
    if s.len() > 0 && in_class(class, s[0]) {
        lemma_run_len(s.skip(1), class);
    }
}

proof fn lemma_string_len(s: Seq<char>)
    ensures
        0 <= string_len(s) <= s.len(),
    decreases s.len(),
{
    if s.len() > 0 {
        if s[0] == '\\' {
            if s.len() > 1 {
                lemma_string_len(s.skip(2));
            }
        } else if s[0] != '"' {
            lemma_string_len(s.skip(1));
        }
    }
}

/// A token is at least one character, and at most all there is.
pub proof fn lemma_token_len(s: Seq<char>)
    requires
        s.len() > 0,
    ensures
        1 <= token_len(s) <= s.len(),
{
    lemma_string_len(s.skip(1));
    lemma_run_len(s.skip(1), Class::Number);
    lemma_run_len(s.skip(1), Class::Word);
    lemma_run_len(s.skip(1), Class::Punct);
    lemma_run_len(s.skip(1), Class::Foreign);
}

/// A text, token by token.
pub open spec fn lexed(s: Seq<char>) -> Seq<SpanV>
    decreases s.len(),
{
    if s.len() == 0 {
        Seq::empty()
    } else {
        let n = token_len(s);
        if 1 <= n <= s.len() {
            seq![span(s.take(n), token_style(s))] + lexed(s.skip(n))
        } else {
            Seq::empty()
        }
    }
}

/// A remark in place of a payload.
pub open spec fn remark() -> Style {
    Style { italic: true, ..fg_style(Color::DarkGray) }
}

/// A payload as it is shown: an empty one clears a topic, and bytes that are no text are
/// only counted.
pub open spec fn payload_spans(payload: Seq<u8>) -> Seq<SpanV> {
    if payload.len() == 0 {
        row("(cleared)"@, remark())
    } else if !valid_utf8(payload) {
        row("("@ + dec(payload.len()) + " B binary)"@, remark())
    } else {
        lexed(decode_utf8(payload))
    }
}

// ---- the lexer ---------------------------------------------------------------------

fn is_in_class(class: Class, c: char) -> (r: bool)
    ensures
        r == in_class(class, c),
{
    match class {
        Class::Number => ('0' <= c && c <= '9') || c == '-' || c == '+' || c == '.' || c == 'e' || c
            == 'E',
        Class::Word => ('a' <= c && c <= 'z') || ('A' <= c && c <= 'Z'),
        Class::Punct => c == '{' || c == '}' || c == '[' || c == ']' || c == ':' || c == ',' || c
            == ' ' || c == '\t' || c == '\r' || c == '\n',
        Class::Foreign => (c as u32) > 0x7f,
        Class::Blank => c == ' ' || c == '\t' || c == '\n' || c == '\x0c' || c == '\r',
    }
}

/// The end of the run of a class that begins at `from`.
fn run_end(v: &Vec<char>, from: usize, class: Class) -> (r: usize)
    requires
        from <= v@.len(),
    ensures
        from <= r <= v@.len(),
        r - from == run_len(v@.skip(from as int), class),
{
    let mut i: usize = from;
    while i < v.len() && is_in_class(class, v[i])
        invariant
            from <= i <= v@.len(),
            run_len(v@.skip(from as int), class) == (i - from) + run_len(v@.skip(i as int), class),
        decreases v@.len() - i,
    {
        assert(v@.skip(i as int).skip(1) =~= v@.skip(i + 1));
        i = i + 1;
    }
    i
}

/// The end of the string whose opening quote stands in front of `from`.
fn string_end(v: &Vec<char>, from: usize) -> (r: usize)
    requires
        from <= v@.len(),
    ensures
        from <= r <= v@.len(),
        r - from == string_len(v@.skip(from as int)),
{
    let n: usize = v.len();
    let mut i: usize = from;
    while i < n
        invariant
            from <= i <= n,
            n == v@.len(),
            string_len(v@.skip(from as int)) == (i - from) + string_len(v@.skip(i as int)),
        decreases n - i,
    {
        let c = v[i];
        assert(v@.skip(i as int).skip(1) =~= v@.skip(i + 1));
        if c == '\\' {
            if n - i == 1 {
                return n;
            }
            assert(v@.skip(i as int).skip(2) =~= v@.skip(i + 2));
            i = i + 2;
        } else if c == '"' {
            return i + 1;
        } else {
            i = i + 1;
        }
    }
    i
}

/// The end and the style of the token at `from`.
fn token_at(v: &Vec<char>, from: usize) -> (r: (usize, Style))
    requires
        from < v@.len(),
    ensures
        from < r.0 <= v@.len(),
        r.0 - from == token_len(v@.skip(from as int)),
        r.1 == token_style(v@.skip(from as int)),
{
    let c = v[from];
    let count: usize = v.len();
    let ghost s = v@.skip(from as int);
    proof {
        assert(from < count);
        lemma_token_len(s);
        assert(s.skip(1) =~= v@.skip(from + 1));
    }
    if c == '"' {
        let end = string_end(v, from + 1);
        let after = run_end(v, end, Class::Blank);
        assert(s.skip(end - from) =~= v@.skip(end as int));
        let key = after < v.len() && v[after] == ':';
        (end, Style::fg(if key { Color::Cyan } else { Color::Green }))
    } else if ('0' <= c && c <= '9') || c == '-' {
        (run_end(v, from, Class::Number), Style::fg(Color::Magenta))
    } else if is_in_class(Class::Word, c) {
        let end = run_end(v, from, Class::Word);
        let word = text_of(v, from, end);
        assert(word@ =~= s.take(end - from));
        let w = word.as_str();
        let literal = same(w, "true") || same(w, "false") || same(w, "null");
        (end, Style::fg(if literal { Color::Yellow } else { Color::DarkGray }))
    } else if is_in_class(Class::Punct, c) {
        (run_end(v, from, Class::Punct), Style::fg(Color::DarkGray))
    } else if is_in_class(Class::Foreign, c) {
        (run_end(v, from, Class::Foreign), Style::plain())
    } else {
        (from + 1, Style::plain())
    }
}

fn lex(text: &str) -> (r: Vec<Span>)
    ensures
        r.deep_view() == lexed(text@),
{
    let v = chars_of(text);
    let mut out: Vec<Span> = Vec::new();
    let mut at: usize = 0;
    assert(v@.skip(0) =~= text@);
    assert(out.deep_view() + lexed(text@) =~= lexed(text@));
    while at < v.len()
        invariant
            at <= v@.len(),
            out.deep_view() + lexed(v@.skip(at as int)) == lexed(text@),
        decreases v@.len() - at,
    {
        let ghost s = v@.skip(at as int);
        let ghost before = out.deep_view();
        let (end, style) = token_at(&v, at);
        let token = text_of(&v, at, end);
        assert(token@ =~= s.take(end - at));
        push_deep(&mut out, Span { text: token, style });
        assert(s.skip(end - at) =~= v@.skip(end as int));
        assert(out.deep_view() + lexed(v@.skip(end as int)) =~= before + (seq![
            span(s.take(end - at), token_style(s)),
        ] + lexed(s.skip(end - at))));
        at = end;
    }
    assert(out.deep_view() + lexed(v@.skip(at as int)) =~= out.deep_view());
    out
}

/// A payload in colours. Total: whatever the bytes are, something is shown.
pub fn json_spans(payload: &[u8]) -> (r: Vec<Span>)
    ensures
        r.deep_view() == payload_spans(payload@),
{
    let mut style = Style::fg(Color::DarkGray);
    style.italic = true;
    if payload.len() == 0 {
        return crate::style::row_of("(cleared)", style);
    }
    match from_utf8(payload) {
        None => {
            let text = cat3("(", dec_u64(payload.len() as u64).as_str(), " B binary)");
            crate::style::row_of(text.as_str(), style)
        },
        Some(raw) => {
            proof {
                encode_utf8_decode_utf8(raw@);
            }
            lex(raw)
        },
    }
}

// ---- laws --------------------------------------------------------------------------

/// Colours change nothing of the text.
pub proof fn law_lexer_keeps_text(s: Seq<char>)
    ensures
        row_text(lexed(s)) == s,
    decreases s.len(),
{
    if s.len() > 0 {
        lemma_token_len(s);
        let n = token_len(s);
        let first = span(s.take(n), token_style(s));
        law_lexer_keeps_text(s.skip(n));
        lemma_row_text_push(Seq::empty(), first);
        assert(Seq::<SpanV>::empty().push(first) =~= seq![first]);
        lemma_row_text_add(seq![first], lexed(s.skip(n)));
        assert(row_text(Seq::<SpanV>::empty()) + s.take(n) =~= s.take(n));
        assert(s =~= s.take(n) + s.skip(n));
    } else {
        assert(s =~= Seq::<char>::empty());
    }
}

/// What is shown of a text payload is the payload, byte for byte.
pub proof fn law_payload_is_shown_verbatim(payload: Seq<u8>)
    requires
        payload.len() > 0,
        valid_utf8(payload),
    ensures
        encode_utf8(row_text(payload_spans(payload))) == payload,
{
    law_lexer_keeps_text(decode_utf8(payload));
    decode_utf8_encode_utf8(payload);
}

} // verus!

//! How commands, answers and messages are coloured, said of their parts and colours.

use crate::highlight::{
    command_spans, key_like, pair_at, path_spans, place_of, response_spans, without_prompts,
    word_spans,
};
use crate::json_view::{
    before_colon, in_class, lexed, payload_spans, run_len, string_len, token_len, token_style, Class,
};
use crate::line_edit::bytes;
use crate::render::uptime_text;
use crate::style::{Color, Style};
use crate::text::{dec, first_index, lemma_first_index, occurs, pad_left, three_digits};
use crate::view_laws::{bare, ink, piece, single};
use vstd::prelude::*;
use vstd::utf8::*;

verus! {

/// A text without a character.
pub open spec fn without(s: Seq<char>, c: char) -> bool {
    forall|i: int| 0 <= i < s.len() ==> #[trigger] s[i] != c
}

proof fn lemma_first(a: Seq<char>, c: char, b: Seq<char>)
    requires
        without(a, c),
    ensures
        first_index(a, c) == a.len(),
        first_index(a + seq![c] + b, c) == a.len(),
        (a + seq![c] + b).take(a.len() as int) == a,
        (a + seq![c] + b).skip(a.len() as int + 1) == b,
{
    let s = a + seq![c] + b;
    lemma_first_index(a, c, a.len() as int);
    assert forall|j: int| 0 <= j < a.len() implies s[j] != c by {
        assert(s[j] == a[j]);
    }
    assert(s[a.len() as int] == c);
    lemma_first_index(s, c, a.len() as int);
    assert(s.take(a.len() as int) =~= a);
    assert(s.skip(a.len() as int + 1) =~= b);
}

/// A word with an equals sign is a key and a value; the first one of a command without one,
/// and the steps of a path, are names; any other word is a command.
pub proof fn law_words_are_coloured(a: Seq<char>, b: Seq<char>, first: bool)
    ensures
        without(a, '=') ==> word_spans(a + seq!['='] + b, first) == seq![
            piece(a, ink(Color::Magenta)),
            piece(seq!['='], ink(Color::DarkGray)),
            piece(b, ink(Color::Green)),
        ],
        a.len() > 0 && without(a, '=') && without(a, '/') ==> word_spans(a, true) == seq![
            piece(a, ink(Color::Cyan)),
        ] && word_spans(a, false) == seq![piece(a, ink(Color::Yellow))],
        word_spans(Seq::empty(), first).len() == 0,
        without(a + seq!['/'] + b, '=') && without(a, '/') ==> word_spans(
            a + seq!['/'] + b,
            first,
        ) == path_spans(a + seq!['/'] + b),
        a.len() > 0 && without(a, '/') ==> path_spans(a + seq!['/'] + b) == seq![
            piece(a, ink(Color::Cyan)),
            piece(seq!['/'], ink(Color::DarkGray)),
        ] + path_spans(b),
        a.len() > 0 && without(a, '/') ==> path_spans(a) == seq![piece(a, ink(Color::Cyan))],
        path_spans(seq!['/'] + b) == seq![piece(seq!['/'], ink(Color::DarkGray))] + path_spans(b),
{
    if without(a, '=') {
        lemma_first(a, '=', b);
    }
    if without(a, '/') {
        lemma_first(a, '/', b);
    }
    if without(a + seq!['/'] + b, '=') {
        lemma_first(a + seq!['/'] + b, '=', b);
    }
    let none = Seq::<char>::empty();
    lemma_first(none, '/', b);
    assert(none + seq!['/'] + b =~= seq!['/'] + b);
}

/// The words of a command are coloured one by one, and the spaces between them are kept.
pub proof fn law_commands_are_coloured(a: Seq<char>, b: Seq<char>, first: bool)
    requires
        without(a, ' '),
    ensures
        a.len() > 0 ==> command_spans(a, first) == word_spans(a, first),
        command_spans(a + seq![' '] + b, first) == word_spans(a, first).push(
            piece(seq![' '], bare()),
        ) + command_spans(b, false),
        command_spans(Seq::empty(), first).len() == 0,
{
    lemma_first(a, ' ', b);
}

proof fn lemma_place(a: Seq<char>, sep: Seq<char>, b: Seq<char>)
    requires
        sep.len() > 0,
        forall|i: int|
            0 <= i < a.len() ==> !#[trigger] sep.is_prefix_of((a + sep + b).skip(i)),
    ensures
        place_of(a + sep + b, sep) == Some(a.len() as int),
    decreases a.len(),
{
    let s = a + sep + b;
    if a.len() == 0 {
        assert(s.subrange(0, sep.len() as int) =~= sep);
    } else {
        let t = a.skip(1);
        assert(s.skip(1) =~= t + sep + b);
        assert(s.skip(0) =~= s);
        assert(!sep.is_prefix_of(s.skip(0)));
        assert forall|i: int| 0 <= i < t.len() implies !#[trigger] sep.is_prefix_of(
            (t + sep + b).skip(i),
        ) by {
            assert((t + sep + b).skip(i) =~= s.skip(i + 1));
            assert(!sep.is_prefix_of(s.skip(i + 1)));
        }
        lemma_place(t, sep, b);
    }
}

/// An answer that is a path or an echo is coloured as a command; one of a short key, a
/// separator and a value in three colours.
pub proof fn law_answers_are_coloured(s: Seq<char>, a: Seq<char>, b: Seq<char>)
    ensures
        s.len() > 0 && s[0] == '/' ==> response_spans(s) == command_spans(s, true),
        s.len() > 0 && s[0] == '>' ==> response_spans(s) == seq![
            piece("> "@, ink(Color::DarkGray)),
        ] + command_spans(without_prompts(s), true),
        a.len() > 0 && a[0] != '/' && a[0] != '>' && bytes(a) <= 24 && !occurs(a, "  "@) && (
        forall|i: int|
            0 <= i < a.len() ==> !#[trigger] " = "@.is_prefix_of((a + " = "@ + b).skip(i)))
            ==> response_spans(a + " = "@ + b) == seq![
            piece(a, ink(Color::Magenta)),
            piece(" = "@, ink(Color::DarkGray)),
            piece(b, ink(Color::Green)),
        ],
        a.len() > 0 && a[0] != '/' && a[0] != '>' && bytes(a) <= 24 && !occurs(a, "  "@) && pair_at(
            a + ": "@ + b,
            " = "@,
        ) is None && (forall|i: int|
            0 <= i < a.len() ==> !#[trigger] ": "@.is_prefix_of((a + ": "@ + b).skip(i)))
            ==> response_spans(a + ": "@ + b) == seq![
            piece(a, ink(Color::Magenta)),
            piece(": "@, ink(Color::DarkGray)),
            piece(b, ink(Color::Green)),
        ],
        (s.len() == 0 || s[0] != '/' && s[0] != '>') && pair_at(s, " = "@) is None && pair_at(
            s,
            ": "@,
        ) is None ==> response_spans(s) == single(s, bare()),
{
    reveal_strlit(" = ");
    reveal_strlit(": ");
    let e = a + " = "@ + b;
    let c = a + ": "@ + b;
    assert(e.take(a.len() as int) =~= a);
    assert(e.skip(a.len() as int + " = "@.len()) =~= b);
    assert(c.take(a.len() as int) =~= a);
    assert(c.skip(a.len() as int + ": "@.len()) =~= b);
    if a.len() > 0 {
        assert(e[0] == a[0] && c[0] == a[0]);
    }
    if forall|i: int| 0 <= i < a.len() ==> !#[trigger] " = "@.is_prefix_of(e.skip(i)) {
        lemma_place(a, " = "@, b);
    }
    if forall|i: int| 0 <= i < a.len() ==> !#[trigger] ": "@.is_prefix_of(c.skip(i)) {
        lemma_place(a, ": "@, b);
    }
}

/// A key is short, and has no gap in it.
pub proof fn law_keys_are_short(k: Seq<char>)
    ensures
        key_like(k) <==> k.len() > 0 && bytes(k) <= 24 && !occurs(k, "  "@),
{
}

/// A message without a payload is told as cleared, one that is no text by its length, and
/// any other is coloured piece by piece.
pub proof fn law_payloads_are_shown(payload: Seq<u8>)
    ensures
        ({
            let remark = Style { italic: true, ..ink(Color::DarkGray) };
            &&& payload.len() == 0 ==> payload_spans(payload) == single("(cleared)"@, remark)
            &&& payload.len() > 0 && !valid_utf8(payload) ==> payload_spans(payload) == single(
                "("@ + dec(payload.len()) + " B binary)"@,
                remark,
            )
            &&& payload.len() > 0 && valid_utf8(payload) ==> payload_spans(payload) == lexed(
                decode_utf8(payload),
            )
        }),
{
}

/// A string is a name where a colon follows and a value elsewhere; numbers, words and signs
/// have their colours.
pub proof fn law_pieces_are_coloured(s: Seq<char>)
    requires
        s.len() > 0,
    ensures
        ({
            let word = s.take(token_len(s));
            let letter = 'a' <= s[0] && s[0] <= 'z' || 'A' <= s[0] && s[0] <= 'Z';
            let sign = s[0] == '{' || s[0] == '}' || s[0] == '[' || s[0] == ']' || s[0] == ':' || s[0]
                == ',' || s[0] == ' ' || s[0] == '\t' || s[0] == '\r' || s[0] == '\n';
            &&& s[0] == '"' && before_colon(s.skip(token_len(s))) ==> token_style(s) == ink(
                Color::Cyan,
            )
            &&& s[0] == '"' && !before_colon(s.skip(token_len(s))) ==> token_style(s) == ink(
                Color::Green,
            )
            &&& '0' <= s[0] && s[0] <= '9' || s[0] == '-' ==> token_style(s) == ink(Color::Magenta)
            &&& letter && (word == "true"@ || word == "false"@ || word == "null"@) ==> token_style(s)
                == ink(Color::Yellow)
            &&& letter && word != "true"@ && word != "false"@ && word != "null"@ ==> token_style(s)
                == ink(Color::DarkGray)
            &&& sign ==> token_style(s) == ink(Color::DarkGray)
            &&& s[0] != '"' && !('0' <= s[0] && s[0] <= '9') && s[0] != '-' && !letter && !sign
                ==> token_style(s) == bare()
        }),
{
}

proof fn lemma_run(a: Seq<char>, b: Seq<char>, class: Class)
    requires
        forall|i: int| 0 <= i < a.len() ==> in_class(class, #[trigger] a[i]),
        b.len() > 0 ==> !in_class(class, b[0]),
    ensures
        run_len(a + b, class) == a.len(),
    decreases a.len(),
{
    let s = a + b;
    if a.len() > 0 {
        let t = a.skip(1);
        assert(s.skip(1) =~= t + b);
        assert(s[0] == a[0]);
        assert forall|i: int| 0 <= i < t.len() implies in_class(class, #[trigger] t[i]) by {
            assert(t[i] == a[i + 1]);
        }
        lemma_run(t, b, class);
    } else if b.len() > 0 {
        assert(s[0] == b[0]);
    }
}

/// A number is as long as its digits go, and a word as its letters; a string ends with the
/// first quote that is not escaped.
pub proof fn law_pieces_end(a: Seq<char>, b: Seq<char>)
    requires
        a.len() > 0,
    ensures
        (forall|i: int| 0 <= i < a.len() ==> '0' <= #[trigger] a[i] <= '9') && (b.len() == 0 || b[0]
            == ',' || b[0] == '}') ==> token_len(a + b) == a.len(),
        (forall|i: int| 0 <= i < a.len() ==> 'a' <= #[trigger] a[i] <= 'z') && (b.len() == 0 || b[0]
            == ',' || b[0] == '}') ==> token_len(a + b) == a.len(),
        (forall|i: int| 0 <= i < a.len() ==> #[trigger] a[i] != '"' && a[i] != '\\') ==> token_len(
            seq!['"'] + a + seq!['"'] + b,
        ) == a.len() + 2,
        string_len(seq!['\\'] + a + b) == 2 + string_len((a + b).skip(1)),
{
    let s = a + b;
    assert(s[0] == a[0]);
    if forall|i: int| 0 <= i < a.len() ==> '0' <= #[trigger] a[i] <= '9' {
        assert('0' <= a[0] <= '9');
        if b.len() == 0 || b[0] == ',' || b[0] == '}' {
            lemma_run(a, b, Class::Number);
        }
    }
    if forall|i: int| 0 <= i < a.len() ==> 'a' <= #[trigger] a[i] <= 'z' {
        assert('a' <= a[0] <= 'z');
        if b.len() == 0 || b[0] == ',' || b[0] == '}' {
            lemma_run(a, b, Class::Word);
        }
    }
    if forall|i: int| 0 <= i < a.len() ==> #[trigger] a[i] != '"' && a[i] != '\\' {
        let q = seq!['"'] + a + seq!['"'] + b;
        assert(q.skip(1) =~= a + (seq!['"'] + b));
        lemma_string(a, seq!['"'] + b);
    }
    let e = seq!['\\'] + a + b;
    assert(e.skip(2) =~= (a + b).skip(1));
}

proof fn lemma_string(a: Seq<char>, b: Seq<char>)
    requires
        forall|i: int| 0 <= i < a.len() ==> #[trigger] a[i] != '"' && a[i] != '\\',
        b.len() > 0 && b[0] == '"',
    ensures
        string_len(a + b) == a.len() + 1,
    decreases a.len(),
{
    let s = a + b;
    if a.len() > 0 {
        let t = a.skip(1);
        assert(s.skip(1) =~= t + b);
        assert(s[0] == a[0]);
        assert forall|i: int| 0 <= i < t.len() implies #[trigger] t[i] != '"' && t[i] != '\\' by {
            assert(t[i] == a[i + 1]);
        }
        lemma_string(t, b);
    } else {
        assert(s[0] == b[0]);
    }
}

/// A time since the start is written in seconds and thousandths.
pub proof fn law_times_are_written(s: nat, ms: nat, us: nat)
    requires
        ms < 1000 && us < 1000,
        1_000_000 * s + 1000 * ms + us <= u64::MAX,
    ensures
        uptime_text((1_000_000 * s + 1000 * ms + us) as u64) == "["@ + pad_left(dec(s), 5) + "."@
            + three_digits(ms as int) + "]"@,
{
    let t = (1_000_000 * s + 1000 * ms + us) as u64;
    let r = 1000 * ms + us;
    assert(t / 1_000_000 == s && t % 1_000_000 == r) by (nonlinear_arith)
        requires
            t == 1_000_000 * s + r,
            0 <= r < 1_000_000,
    ;
    assert(r / 1000 == ms) by (nonlinear_arith)
        requires
            r == 1000 * ms + us,
            us < 1000,
    ;
}

} // verus!

//! Syntax highlighting of shell commands and responses, shared by the console and the
//! remote-shell pane of the gateway.

use crate::line_edit::bytes;
use crate::style::{
    fg_style, lemma_row_text_push, plain_style, row, row_of, row_text, span, Color, Span, SpanV, Style,
};
use crate::text::{
    byte_len, chars_of, contains, first_index, lemma_first_index, lemma_first_index_bounds, occurs,
    push_deep, strip_prefix, text_of,
};
use vstd::prelude::*;
use vstd::string::*;

verus! {

pub const COL_PATH: Color = Color::Cyan;

pub const COL_CMD: Color = Color::Yellow;

pub const COL_KEY: Color = Color::Magenta;

pub const COL_VAL: Color = Color::Green;

pub const COL_PUNCT: Color = Color::DarkGray;

// ---- what is painted ---------------------------------------------------------------

/// A path: segments in one colour, the slashes between them in another.
pub open spec fn path_spans(w: Seq<char>) -> Seq<SpanV>
    decreases w.len(),
{
    if w.len() == 0 {
        Seq::empty()
    } else {
        let i = first_index(w, '/');
        if i < 0 || i >= w.len() {
            seq![span(w, fg_style(COL_PATH))]
        } else {
            (if i == 0 {
                Seq::empty()
            } else {
                seq![span(w.take(i), fg_style(COL_PATH))]
            }).push(span(seq!['/'], fg_style(COL_PUNCT))) + path_spans(w.skip(i + 1))
        }
    }
}

/// One word: a `key=value`, a path, or a name; the first word is part of the path.
pub open spec fn word_spans(w: Seq<char>, first: bool) -> Seq<SpanV> {
    if w.len() == 0 {
        Seq::empty()
    } else if first_index(w, '=') < w.len() {
        let i = first_index(w, '=');
        seq![
            span(w.take(i), fg_style(COL_KEY)),
            span(seq!['='], fg_style(COL_PUNCT)),
            span(w.skip(i + 1), fg_style(COL_VAL)),
        ]
    } else if first_index(w, '/') < w.len() {
        path_spans(w)
    } else if first {
        seq![span(w, fg_style(COL_PATH))]
    } else {
        seq![span(w, fg_style(COL_CMD))]
    }
}

/// A command line, word by word.
pub open spec fn command_spans(s: Seq<char>, first: bool) -> Seq<SpanV>
    decreases s.len(),
{
    if s.len() == 0 {
        Seq::empty()
    } else {
        let i = first_index(s, ' ');
        if i < 0 || i >= s.len() {
            word_spans(s, first)
        } else {
            word_spans(s.take(i), first).push(span(seq![' '], plain_style())) + command_spans(
                s.skip(i + 1),
                false,
            )
        }
    }
}

/// The place of the first `sub` in `s`.
pub open spec fn place_of(s: Seq<char>, sub: Seq<char>) -> Option<int>
    decreases s.len(),
{
    if sub.is_prefix_of(s) {
        Some(0int)
    } else if s.len() == 0 {
        None
    } else {
        match place_of(s.skip(1), sub) {
            Some(i) => Some(i + 1),
            None => None,
        }
    }
}

/// What can stand in front of a separator as a key: one short word, more or less.
pub open spec fn key_like(k: Seq<char>) -> bool {
    k.len() > 0 && bytes(k) <= 24 && !occurs(k, "  "@)
}

/// `key SEP value`, if the line reads like that.
pub open spec fn pair_at(s: Seq<char>, sep: Seq<char>) -> Option<int> {
    match place_of(s, sep) {
        Some(i) => if key_like(s.take(i)) {
            Some(i)
        } else {
            None
        },
        None => None,
    }
}

pub open spec fn pair_spans(s: Seq<char>, i: int, sep: Seq<char>) -> Seq<SpanV> {
    seq![
        span(s.take(i), fg_style(COL_KEY)),
        span(sep, fg_style(COL_PUNCT)),
        span(s.skip(i + sep.len()), fg_style(COL_VAL)),
    ]
}

/// `s` without the prompts in front.
pub open spec fn without_prompts(s: Seq<char>) -> Seq<char>
    decreases s.len(),
{
    if "> "@.is_prefix_of(s) && "> "@.len() > 0 {
        without_prompts(s.skip("> "@.len() as int))
    } else {
        s
    }
}

/// A line of a response: commands like a command, echoes like a command behind a prompt,
/// `key = value` and `key: value` in their parts, anything else as it is.
pub open spec fn response_spans(s: Seq<char>) -> Seq<SpanV> {
    if s.len() > 0 && s[0] == '/' {
        command_spans(s, true)
    } else if s.len() > 0 && s[0] == '>' {
        seq![span("> "@, fg_style(COL_PUNCT))] + command_spans(without_prompts(s), true)
    } else {
        match pair_at(s, " = "@) {
            Some(i) => pair_spans(s, i, " = "@),
            None => match pair_at(s, ": "@) {
                Some(i) => pair_spans(s, i, ": "@),
                None => row(s, plain_style()),
            },
        }
    }
}

// ---- painting ----------------------------------------------------------------------

/// The first index of `c` in `v[from..to]`, or `to`.
fn index_in(v: &Vec<char>, from: usize, to: usize, c: char) -> (r: usize)
    requires
        from <= to <= v@.len(),
    ensures
        from <= r <= to,
        r - from == first_index(v@.subrange(from as int, to as int), c),
{
    let mut i: usize = from;
    while i < to && v[i] != c
        invariant
            from <= i <= to <= v@.len(),
            forall|j: int| from <= j < i ==> #[trigger] v@[j] != c,
        decreases to - i,
    {
        i = i + 1;
    }
    proof {
        lemma_first_index(v@.subrange(from as int, to as int), c, i - from);
    }
    i
}

fn push_span(out: &mut Vec<Span>, text: String, style: Style)
    ensures
        final(out).deep_view() == old(out).deep_view().push(span(text@, style)),
{
    push_deep(out, Span { text, style });
}

fn push_path(out: &mut Vec<Span>, v: &Vec<char>, from: usize, to: usize)
    requires
        from <= to <= v@.len(),
    ensures
        final(out).deep_view() == old(out).deep_view() + path_spans(
            v@.subrange(from as int, to as int),
        ),
{
    let ghost goal = out.deep_view() + path_spans(v@.subrange(from as int, to as int));
    let mut at: usize = from;
    while at < to
        invariant
            from <= at <= to <= v@.len(),
            out.deep_view() + path_spans(v@.subrange(at as int, to as int)) == goal,
        decreases to - at,
    {
        let ghost w = v@.subrange(at as int, to as int);
        let ghost before = out.deep_view();
        let i = index_in(v, at, to, '/');
        if i == to {
            push_span(out, text_of(v, at, to), Style::fg(COL_PATH));
            assert(v@.subrange(to as int, to as int) =~= Seq::<char>::empty());
            assert(out.deep_view() + path_spans(Seq::<char>::empty()) =~= before + seq![
                span(w, fg_style(COL_PATH)),
            ]);
            at = to;
        } else {
            if i > at {
                push_span(out, text_of(v, at, i), Style::fg(COL_PATH));
                assert(v@.subrange(at as int, i as int) =~= w.take(i - at));
            }
            let slash = text_of(v, i, i + 1);
            assert(w[i - at] == '/') by {
                lemma_first_index_bounds(w, '/');
            }
            assert(slash@ =~= seq!['/']);
            push_span(out, slash, Style::fg(COL_PUNCT));
            assert(w.skip(i - at + 1) =~= v@.subrange(i + 1, to as int));
            let ghost head = (if i == at {
                Seq::empty()
            } else {
                seq![span(w.take(i - at), fg_style(COL_PATH))]
            }).push(span(seq!['/'], fg_style(COL_PUNCT)));
            assert(out.deep_view() =~= before + head);
            assert(out.deep_view() + path_spans(v@.subrange(i + 1, to as int)) =~= before + (head
                + path_spans(w.skip(i - at + 1))));
            at = i + 1;
        }
    }
    assert(v@.subrange(at as int, to as int) =~= Seq::<char>::empty());
    assert(out.deep_view() =~= goal);
}

fn push_word(out: &mut Vec<Span>, v: &Vec<char>, from: usize, to: usize, first: bool)
    requires
        from <= to <= v@.len(),
    ensures
        final(out).deep_view() == old(out).deep_view() + word_spans(
            v@.subrange(from as int, to as int),
            first,
        ),
{
    let ghost w = v@.subrange(from as int, to as int);
    let ghost before = out.deep_view();
    if from == to {
        assert(out.deep_view() =~= before + Seq::<SpanV>::empty());
        return;
    }
    let eq = index_in(v, from, to, '=');
    if eq < to {
        push_span(out, text_of(v, from, eq), Style::fg(COL_KEY));
        let sign = text_of(v, eq, eq + 1);
        assert(w[eq - from] == '=') by {
            lemma_first_index_bounds(w, '=');
        }
        assert(sign@ =~= seq!['=']);
        push_span(out, sign, Style::fg(COL_PUNCT));
        push_span(out, text_of(v, eq + 1, to), Style::fg(COL_VAL));
        assert(v@.subrange(from as int, eq as int) =~= w.take(eq - from));
        assert(v@.subrange(eq + 1, to as int) =~= w.skip(eq - from + 1));
        assert(out.deep_view() =~= before + word_spans(w, first));
        return;
    }
    let slash = index_in(v, from, to, '/');
    if slash < to {
        push_path(out, v, from, to);
        return;
    }
    push_span(out, text_of(v, from, to), Style::fg(if first { COL_PATH } else { COL_CMD }));
    assert(out.deep_view() =~= before + word_spans(w, first));
}

fn push_command(out: &mut Vec<Span>, line: &str)
    ensures
        final(out).deep_view() == old(out).deep_view() + command_spans(line@, true),
{
    let v = chars_of(line);
    let n: usize = v.len();
    let ghost goal = out.deep_view() + command_spans(line@, true);
    let mut at: usize = 0;
    let mut first = true;
    assert(v@.subrange(0, n as int) =~= line@);
    while at < n
        invariant
            at <= n,
            n == v@.len(),
            out.deep_view() + command_spans(v@.subrange(at as int, n as int), first) == goal,
        decreases n - at,
    {
        let ghost s = v@.subrange(at as int, n as int);
        let ghost before = out.deep_view();
        let ghost was_first = first;
        let i = index_in(&v, at, n, ' ');
        push_word(out, &v, at, i, first);
        if i == n {
            assert(v@.subrange(n as int, n as int) =~= Seq::<char>::empty());
            assert(out.deep_view() + command_spans(Seq::<char>::empty(), false) =~= before + word_spans(
                s,
                was_first,
            ));
            at = n;
        } else {
            assert(v@.subrange(at as int, i as int) =~= s.take(i - at));
            let space = text_of(&v, i, i + 1);
            assert(s[i - at] == ' ') by {
                lemma_first_index_bounds(s, ' ');
            }
            assert(space@ =~= seq![' ']);
            push_span(out, space, Style::plain());
            assert(s.skip(i - at + 1) =~= v@.subrange(i + 1, n as int));
            let ghost head = word_spans(s.take(i - at), was_first).push(
                span(seq![' '], plain_style()),
            );
            assert(out.deep_view() =~= before + head);
            assert(out.deep_view() + command_spans(v@.subrange(i + 1, n as int), false) =~= before + (
            head + command_spans(s.skip(i - at + 1), false)));
            at = i + 1;
        }
        first = false;
    }
    assert(v@.subrange(at as int, n as int) =~= Seq::<char>::empty());
    assert(out.deep_view() =~= goal);
}

/// Highlights a shell command line: path segments, slashes, bare words, keys and values
/// each in their colour.
pub fn command(line: &str) -> (r: Vec<Span>)
    ensures
        r.deep_view() == command_spans(line@, true),
{
    let mut out: Vec<Span> = Vec::new();
    push_command(&mut out, line);
    assert(out.deep_view() =~= command_spans(line@, true));
    out
}

/// The place of the first `sub` in `s`.
fn find(s: &Vec<char>, sub: &Vec<char>) -> (r: Option<usize>)
    ensures
        match r {
            Some(i) => place_of(s@, sub@) == Some(i as int) && i + sub@.len() <= s@.len(),
            None => place_of(s@, sub@) is None,
        },
{
    let mut i: usize = 0;
    assert(s@.skip(0) =~= s@);
    loop
        invariant
            i <= s@.len(),
            place_of(s@, sub@) == match place_of(s@.skip(i as int), sub@) {
                Some(k) => Some(k + i),
                None => None,
            },
        decreases s@.len() - i,
    {
        let ghost rest = s@.skip(i as int);
        let mut j: usize = 0;
        while j < sub.len() && i + j < s.len() && s[i + j] == sub[j]
            invariant
                j <= sub@.len(),
                i + j <= s@.len(),
                i <= s@.len(),
                s@.len() == s.len(),
                forall|k: int| 0 <= k < j ==> s@[i + k] == sub@[k],
            decreases sub@.len() - j,
        {
            j = j + 1;
        }
        if j == sub.len() {
            assert(sub@ =~= rest.subrange(0, sub@.len() as int));
            return Some(i);
        }
        assert(!sub@.is_prefix_of(rest)) by {
            if sub@.is_prefix_of(rest) {
                assert(rest.subrange(0, sub@.len() as int)[j as int] == sub@[j as int]);
            }
        }
        if i == s.len() {
            return None;
        }
        assert(rest.skip(1) =~= s@.skip(i + 1));
        i = i + 1;
    }
}

fn pair_in(line: &str, sep: &str) -> (r: Option<usize>)
    ensures
        match r {
            Some(i) => pair_at(line@, sep@) == Some(i as int) && i + sep@.len() <= line@.len(),
            None => pair_at(line@, sep@) is None,
        },
{
    let v = chars_of(line);
    let p = chars_of(sep);
    match find(&v, &p) {
        Some(i) => {
            let k = text_of(&v, 0, i);
            assert(k@ =~= line@.take(i as int));
            if i > 0 && byte_len(k.as_str()) <= 24 && !contains(k.as_str(), "  ") {
                Some(i)
            } else {
                None
            }
        },
        None => None,
    }
}

fn split_pair(line: &str, i: usize, sep: &str) -> (r: Vec<Span>)
    requires
        i + sep@.len() <= line@.len(),
    ensures
        r.deep_view() == pair_spans(line@, i as int, sep@),
{
    let v = chars_of(line);
    let n: usize = sep.unicode_len();
    let total: usize = v.len();
    assert(i + n <= total);
    let mut out: Vec<Span> = Vec::new();
    out.push(Span { text: text_of(&v, 0, i), style: Style::fg(COL_KEY) });
    out.push(Span { text: sep.to_owned(), style: Style::fg(COL_PUNCT) });
    out.push(Span { text: text_of(&v, i + n, v.len()), style: Style::fg(COL_VAL) });
    assert(v@.subrange(0, i as int) =~= line@.take(i as int));
    assert(v@.subrange(i + n, v@.len() as int) =~= line@.skip(i + sep@.len()));
    assert(out.deep_view() =~= pair_spans(line@, i as int, sep@));
    out
}

fn strip_prompts<'a>(line: &'a str) -> (r: &'a str)
    ensures
        r@ == without_prompts(line@),
{
    proof {
        reveal_strlit("> ");
    }
    let mut rest: &'a str = line;
    loop
        invariant
            without_prompts(rest@) == without_prompts(line@),
            "> "@.len() == 2,
        decreases rest@.len(),
    {
        match strip_prefix(rest, "> ") {
            Some(t) => {
                rest = t;
            },
            None => {
                return rest;
            },
        }
    }
}

/// Highlights one line of a shell response.
pub fn response(line: &str) -> (r: Vec<Span>)
    ensures
        r.deep_view() == response_spans(line@),
{
    if line.unicode_len() > 0 && line.get_char(0) == '/' {
        return command(line);
    }
    if line.unicode_len() > 0 && line.get_char(0) == '>' {
        let mut out = row_of("> ", Style::fg(COL_PUNCT));
        push_command(&mut out, strip_prompts(line));
        return out;
    }
    if let Some(i) = pair_in(line, " = ") {
        return split_pair(line, i, " = ");
    }
    if let Some(i) = pair_in(line, ": ") {
        return split_pair(line, i, ": ");
    }
    row_of(line, Style::plain())
}

// ---- laws --------------------------------------------------------------------------

/// The text of two rows is the text of both.
pub proof fn lemma_row_text_add(a: Seq<SpanV>, b: Seq<SpanV>)
    ensures
        row_text(a + b) == row_text(a) + row_text(b),
    decreases b.len(),
{
    if b.len() == 0 {
        assert(a + b =~= a);
        assert(row_text(a) + row_text(b) =~= row_text(a));
    } else {
        lemma_row_text_add(a, b.drop_last());
        assert((a + b).drop_last() =~= a + b.drop_last());
        assert(row_text(a) + (row_text(b.drop_last()) + b.last().text) =~= (row_text(a) + row_text(
            b.drop_last(),
        )) + b.last().text);
    }
}

proof fn lemma_row_text_one(s: SpanV)
    ensures
        row_text(seq![s]) == s.text,
{
    reveal_with_fuel(row_text, 2);
    assert(seq![s].drop_last() =~= Seq::<SpanV>::empty());
    assert(row_text(seq![s]) =~= s.text);
}

proof fn lemma_row_text_three(a: SpanV, b: SpanV, c: SpanV)
    ensures
        row_text(seq![a, b, c]) == a.text + b.text + c.text,
{
    lemma_row_text_one(a);
    lemma_row_text_push(seq![a], b);
    lemma_row_text_push(seq![a].push(b), c);
    assert(seq![a, b, c] =~= seq![a].push(b).push(c));
}

proof fn lemma_path_text(w: Seq<char>)
    ensures
        row_text(path_spans(w)) == w,
    decreases w.len(),
{
    if w.len() > 0 {
        let i = first_index(w, '/');
        lemma_first_index_bounds(w, '/');
        if i >= w.len() {
            lemma_row_text_one(span(w, fg_style(COL_PATH)));
        } else {
            let slash = span(seq!['/'], fg_style(COL_PUNCT));
            let seg = if i == 0 {
                Seq::empty()
            } else {
                seq![span(w.take(i), fg_style(COL_PATH))]
            };
            lemma_row_text_push(seg, slash);
            if i > 0 {
                lemma_row_text_one(span(w.take(i), fg_style(COL_PATH)));
            }
            assert(row_text(seg) =~= w.take(i));
            lemma_path_text(w.skip(i + 1));
            lemma_row_text_add(seg.push(slash), path_spans(w.skip(i + 1)));
            assert(w =~= w.take(i) + seq!['/'] + w.skip(i + 1));
        }
    } else {
        assert(w =~= Seq::<char>::empty());
    }
}

proof fn lemma_word_text(w: Seq<char>, first: bool)
    ensures
        row_text(word_spans(w, first)) == w,
{
    lemma_first_index_bounds(w, '=');
    let i = first_index(w, '=');
    if w.len() == 0 {
        assert(w =~= Seq::<char>::empty());
    } else if i < w.len() {
        lemma_row_text_three(
            span(w.take(i), fg_style(COL_KEY)),
            span(seq!['='], fg_style(COL_PUNCT)),
            span(w.skip(i + 1), fg_style(COL_VAL)),
        );
        assert(w =~= w.take(i) + seq!['='] + w.skip(i + 1));
    } else if first_index(w, '/') < w.len() {
        lemma_path_text(w);
    } else {
        lemma_row_text_one(span(w, fg_style(COL_PATH)));
        lemma_row_text_one(span(w, fg_style(COL_CMD)));
    }
}

/// Highlighting a command changes its colours, never its text.
pub proof fn law_command_keeps_text(s: Seq<char>, first: bool)
    ensures
        row_text(command_spans(s, first)) == s,
    decreases s.len(),
{
    if s.len() > 0 {
        let i = first_index(s, ' ');
        lemma_first_index_bounds(s, ' ');
        if i >= s.len() {
            lemma_word_text(s, first);
        } else {
            let space = span(seq![' '], plain_style());
            lemma_word_text(s.take(i), first);
            lemma_row_text_push(word_spans(s.take(i), first), space);
            law_command_keeps_text(s.skip(i + 1), false);
            lemma_row_text_add(
                word_spans(s.take(i), first).push(space),
                command_spans(s.skip(i + 1), false),
            );
            assert(s =~= s.take(i) + seq![' '] + s.skip(i + 1));
        }
    } else {
        assert(s =~= Seq::<char>::empty());
    }
}

proof fn lemma_place_of(s: Seq<char>, sub: Seq<char>)
    ensures
        place_of(s, sub) matches Some(i) ==> 0 <= i && i + sub.len() <= s.len() && s.subrange(
            i,
            i + sub.len(),
        ) == sub,
    decreases s.len(),
{
    if !sub.is_prefix_of(s) && s.len() > 0 {
        lemma_place_of(s.skip(1), sub);
        if let Some(i) = place_of(s.skip(1), sub) {
            assert(s.subrange(i + 1, i + 1 + sub.len()) =~= s.skip(1).subrange(i, i + sub.len()));
        }
    }
}

proof fn lemma_pair_text(s: Seq<char>, i: int, sep: Seq<char>)
    requires
        pair_at(s, sep) == Some(i),
    ensures
        row_text(pair_spans(s, i, sep)) == s,
{
    lemma_place_of(s, sep);
    lemma_row_text_three(
        span(s.take(i), fg_style(COL_KEY)),
        span(sep, fg_style(COL_PUNCT)),
        span(s.skip(i + sep.len()), fg_style(COL_VAL)),
    );
    assert(s =~= s.take(i) + s.subrange(i, i + sep.len()) + s.skip(i + sep.len()));
}

/// Highlighting a response line changes its colours, never its text. (An echo is shown
/// behind one prompt, however many stand in front of it.)
pub proof fn law_response_keeps_text(s: Seq<char>)
    requires
        s.len() == 0 || s[0] != '>',
    ensures
        row_text(response_spans(s)) == s,
{
    law_command_keeps_text(s, true);
    lemma_row_text_one(span(s, plain_style()));
    if s.len() == 0 || s[0] != '/' {
        match pair_at(s, " = "@) {
            Some(i) => lemma_pair_text(s, i, " = "@),
            None => match pair_at(s, ": "@) {
                Some(i) => lemma_pair_text(s, i, ": "@),
                None => {},
            },
        }
    }
}

/// An echo keeps its text behind one prompt.
pub proof fn law_echo_keeps_text(s: Seq<char>)
    requires
        s.len() > 0,
        s[0] == '>',
    ensures
        row_text(response_spans(s)) == "> "@ + without_prompts(s),
{
    let prompt = span("> "@, fg_style(COL_PUNCT));
    lemma_row_text_one(prompt);
    law_command_keeps_text(without_prompts(s), true);
    lemma_row_text_add(seq![prompt], command_spans(without_prompts(s), true));
}

} // verus!

//! What the console shows: header, footer, and the part of each pane that is in view.

use crate::console::{Console, ConsoleV, Pane};
use crate::line_edit::{index_at, lemma_split_bytes, line_at};
use crate::console::console_ok;
use crate::style::{
    bold_fg, fg_style, on_style, plain_style, row, span, Color, Span, SpanV, Style,
};
use crate::text::{cat2, cat3, cat4, cat5, chars_of, dec, dec_u64, join, join_of, push_deep};
use std::collections::VecDeque;
use vstd::prelude::*;
use vstd::std_specs::vecdeque::*;
use vstd::string::*;

verus! {

// ---- the width of text -------------------------------------------------------------

/// The width of a line on the screen, as `ratatui::text::Line::width` gives it for
/// `Line::raw`.
pub uninterp spec fn line_width(s: Seq<char>) -> usize;

/// The width of a stretch of text on the screen, as `ratatui::text::Span::width` gives it.
pub uninterp spec fn span_width(s: Seq<char>) -> usize;

/// `ratatui::text::Line::width` of a raw line; it depends on the characters alone.
#[verifier::external_body]
fn width_of_line(s: &str) -> (r: usize)
    ensures
        r == line_width(s@),
{
    ratatui::text::Line::raw(s).width()
}

/// `ratatui::text::Span::width` of a raw span; it depends on the characters alone.
#[verifier::external_body]
fn width_of_span(s: &str) -> (r: usize)
    ensures
        r == span_width(s@),
{
    ratatui::text::Span::raw(s).width()
}

/// How many rows a line of width `w` takes once it is wrapped to `width` columns: at
/// least one.
pub open spec fn rows(w: nat, width: nat) -> nat {
    if width == 0 || w == 0 {
        1
    } else {
        (w + width - 1) as nat / width
    }
}

/// How many rows a line of width `w` takes once it is wrapped to `width` columns.
pub fn wrapped_rows(w: usize, width: usize) -> (r: usize)
    ensures
        r == rows(w as nat, width as nat),
        r >= 1,
{
    if width == 0 || w == 0 {
        1
    } else {
        proof {
            let x = w as int;
            let n = width as int;
            assert((x + n - 1) / n == (x - 1) / n + 1) by (nonlinear_arith)
                requires
                    x >= 1,
                    n >= 1,
            ;
            assert((x - 1) / n <= x - 1) by (nonlinear_arith)
                requires
                    x >= 1,
                    n >= 1,
            ;
            assert((x - 1) / n >= 0) by (nonlinear_arith)
                requires
                    x >= 1,
                    n >= 1,
            ;
        }
        (w - 1) / width + 1
    }
}

// ---- what of a pane is in view -----------------------------------------------------

/// The rows that the last `m` items take.
pub open spec fn tail_rows(items: Seq<nat>, m: nat) -> nat
    decreases m,
{
    if m == 0 {
        0
    } else {
        tail_rows(items, (m - 1) as nat) + items[items.len() - m]
    }
}

/// The last `m` items are just enough to fill `want` rows, or all there are.
pub open spec fn enough(items: Seq<nat>, want: nat, m: nat) -> bool {
    &&& m <= items.len()
    &&& m == items.len() || tail_rows(items, m) >= want
    &&& forall|j: nat| j < m ==> #[trigger] tail_rows(items, j) < want
}

/// A window on a pane: the first item to draw, and how many of its rows to skip.
#[derive(Debug, Clone, Copy, PartialEq, Eq, Structural)]
pub struct Window {
    pub first: usize,
    pub top_row: usize,
}

/// The window that shows `inner_h` rows, scrolled up by `scrollback` rows from the newest.
pub open spec fn is_window(items: Seq<nat>, inner_h: nat, scrollback: nat, w: Window) -> bool {
    &&& w.first <= items.len()
    &&& enough(items, inner_h + scrollback, (items.len() - w.first) as nat)
    &&& w.top_row == {
        let total = tail_rows(items, (items.len() - w.first) as nat);
        if total > inner_h + scrollback {
            (total - (inner_h + scrollback)) as nat
        } else {
            0
        }
    }
}

/// The text of item `i` of a pane.
pub open spec fn item_text(s: ConsoleV, pane: Pane, i: int) -> Seq<char> {
    match pane {
        Pane::Logs => s.logs[i].0,
        Pane::Events => s.events[i],
        Pane::Responses => s.responses[i],
        Pane::Command => Seq::empty(),
    }
}

pub open spec fn item_count(s: ConsoleV, pane: Pane) -> nat {
    match pane {
        Pane::Logs => s.logs.len(),
        Pane::Events => s.events.len(),
        Pane::Responses => s.responses.len(),
        Pane::Command => 0,
    }
}

/// How many rows each item of a pane takes at a width.
pub open spec fn pane_rows(s: ConsoleV, pane: Pane, inner_w: nat) -> Seq<nat> {
    Seq::new(
        item_count(s, pane),
        |i: int|
            rows(
                if pane == Pane::Logs {
                    span_width(item_text(s, pane, i)) as nat
                } else {
                    line_width(item_text(s, pane, i)) as nat
                },
                inner_w,
            ),
    )
}

/// The rows of a pane from item `first` on.
pub open spec fn pane_lines(s: ConsoleV, pane: Pane, first: int) -> Seq<Seq<SpanV>> {
    Seq::new(
        (item_count(s, pane) - first) as nat,
        |i: int|
            row(
                item_text(s, pane, first + i),
                if pane == Pane::Logs {
                    fg_style(s.logs[first + i].1)
                } else {
                    plain_style()
                },
            ),
    )
}

impl Console {
    fn pane_len(&self, pane: Pane) -> (r: usize)
        ensures
            r == item_count(self@, pane),
    {
        match pane {
            Pane::Logs => self.logs.len(),
            Pane::Events => self.events.len(),
            Pane::Responses => self.responses.len(),
            Pane::Command => 0,
        }
    }

    fn rows_at(&self, pane: Pane, i: usize, inner_w: usize) -> (r: usize)
        requires
            i < item_count(self@, pane),
        ensures
            r == pane_rows(self@, pane, inner_w as nat)[i as int],
            r >= 1,
    {
        let w: usize = match pane {
            Pane::Logs => width_of_span(self.logs[i].0.as_str()),
            Pane::Events => width_of_line(self.events[i].as_str()),
            Pane::Responses => width_of_line(self.responses[i].as_str()),
            Pane::Command => 0,
        };
        wrapped_rows(w, inner_w)
    }

    /// The window on a pane of `inner_w` by `inner_h` cells. It is anchored at the bottom
    /// by rows, not by items, so that the newest line stays in view where lines wrap.
    pub fn pane_window(&self, pane: Pane, inner_w: usize, inner_h: usize, scrollback: usize) -> (r:
        Window)
        requires
            inner_h > 0,
        ensures
            is_window(
                pane_rows(self@, pane, inner_w as nat),
                inner_h as nat,
                scrollback as nat,
                r,
            ),
    {
        let n: usize = self.pane_len(pane);
        let ghost items = pane_rows(self@, pane, inner_w as nat);
        let want: u128 = inner_h as u128 + scrollback as u128;
        let mut total: u128 = 0;
        let mut m: usize = 0;
        while m < n && total < want
            invariant
                m <= n,
                n == items.len(),
                items == pane_rows(self@, pane, inner_w as nat),
                n == item_count(self@, pane),
                want == inner_h + scrollback,
                want > 0,
                total == tail_rows(items, m as nat),
                total < want + usize::MAX,
                forall|j: nat| j < m ==> #[trigger] tail_rows(items, j) < want,
                total > want ==> total - want < usize::MAX,
            decreases n - m,
        {
            let r: usize = self.rows_at(pane, n - 1 - m, inner_w);
            proof {
                assert(items[items.len() - (m + 1)] == r);
            }
            total = total + r as u128;
            m = m + 1;
        }
        let top: usize = if total > want { (total - want) as usize } else { 0 };
        Window { first: n - m, top_row: top }
    }

    /// The rows of a pane from item `first` on.
    pub fn pane_content(&self, pane: Pane, first: usize) -> (r: Vec<Vec<Span>>)
        requires
            first <= item_count(self@, pane),
        ensures
            r.deep_view() == pane_lines(self@, pane, first as int),
    {
        let n: usize = self.pane_len(pane);
        let mut v: Vec<Vec<Span>> = Vec::new();
        let mut i: usize = first;
        while i < n
            invariant
                first <= i <= n,
                n == item_count(self@, pane),
                v@.len() == i - first,
                forall|j: int| 0 <= j < i - first ==> (#[trigger] v@[j]).deep_view() == pane_lines(
                    self@,
                    pane,
                    first as int,
                )[j],
            decreases n - i,
        {
            let line = match pane {
                Pane::Logs => crate::style::row_of(
                    self.logs[i].0.as_str(),
                    Style::fg(self.logs[i].1),
                ),
                Pane::Events => crate::style::row_of(self.events[i].as_str(), Style::plain()),
                Pane::Responses => crate::style::row_of(self.responses[i].as_str(), Style::plain()),
                Pane::Command => crate::style::row_of("", Style::plain()),
            };
            v.push(line);
            i = i + 1;
        }
        assert(v.deep_view() =~= pane_lines(self@, pane, first as int));
        v
    }
}

// ---- header and footer -------------------------------------------------------------

/// The plural ending of a count.
pub open spec fn plural(n: u64) -> Seq<char> {
    if n == 1 {
        ""@
    } else {
        "s"@
    }
}

fn plural_of(n: u64) -> (r: &'static str)
    ensures
        r@ == plural(n),
{
    if n == 1 {
        ""
    } else {
        "s"
    }
}

pub open spec fn bad_frames_text(s: ConsoleV) -> Seq<char> {
    let d = dec(s.decode_failures as nat) + " bad frame"@ + plural(s.decode_failures);
    match s.mismatch_got {
        Some(v) => d + " (v"@ + dec(v as nat) + "?)"@,
        None => d,
    }
}

/// The parts of the diagnostics, each only where its count is not 0.
pub open spec fn diagnostic_parts(s: ConsoleV) -> Seq<Seq<char>> {
    let a = if s.decode_failures > 0 {
        seq![bad_frames_text(s)]
    } else {
        Seq::empty()
    };
    let b = if s.seq_gaps > 0 {
        a.push(dec(s.seq_gaps as nat) + " seq gap"@ + plural(s.seq_gaps))
    } else {
        a
    };
    if s.payload_errors > 0 {
        b.push(dec(s.payload_errors as nat) + " payload err"@ + plural(s.payload_errors))
    } else {
        b
    }
}

/// The tally of what went wrong, or nothing where all is clean.
pub open spec fn diagnostics(s: ConsoleV) -> Option<Seq<char>> {
    if s.decode_failures == 0 && s.seq_gaps == 0 && s.payload_errors == 0 {
        None
    } else {
        Some("✖ "@ + join(diagnostic_parts(s), " · "@))
    }
}

pub open spec fn bar() -> Style {
    on_style(Color::Black, Color::Gray)
}

pub open spec fn on_bar(fg: Color) -> Style {
    on_style(fg, Color::Gray)
}

/// The header: title, link, and what went wrong.
pub open spec fn header(s: ConsoleV, version: Seq<char>) -> Seq<SpanV> {
    let a = seq![
        span(
            " HARDWARIO TOWER Console v"@ + version + " — "@ + s.port_name + " "@,
            bar(),
        ),
    ];
    let b = if s.connected {
        a.push(span("●"@, on_bar(Color::Green)))
    } else {
        let c = a.push(span("○ reconnecting…"@, bar()));
        match s.last_open_error {
            Some(e) => c.push(span("  "@ + s.port_name + ": "@ + e, on_bar(Color::Red))),
            None => c,
        }
    };
    match diagnostics(s) {
        Some(d) => b.push(span("  "@ + d, Style { bold: true, ..on_bar(Color::Red) })),
        None => b,
    }
}

pub open spec fn chip(on: bool) -> Style {
    on_bar(
        if on {
            Color::Yellow
        } else {
            Color::Black
        },
    )
}

/// The footer: the function keys, lit where their mode is on, and the hint.
pub open spec fn footer(s: ConsoleV) -> Seq<SpanV> {
    seq![
        span(" Shift-Tab Focus  "@, plain_style()),
        span("F3 Zoom"@, chip(s.zoom)),
        span("  "@, plain_style()),
        span("F5 Pause"@, chip(s.paused)),
        span("  F8 Clear  F10/^C Quit   "@, plain_style()),
        span(
            if s.hint.len() == 0 {
                ""@
            } else {
                "["@ + s.hint + "] "@
            },
            plain_style(),
        ),
    ]
}

/// The style of a pane's border.
pub open spec fn border(focused: bool) -> Style {
    if focused {
        bold_fg(Color::Cyan)
    } else {
        plain_style()
    }
}

/// The style of a pane's border.
pub fn border_style(focused: bool) -> (r: Style)
    ensures
        r == border(focused),
{
    if focused {
        Style::bold(Color::Cyan)
    } else {
        Style::plain()
    }
}

/// Where a clock of `width` cells goes in a footer of `total` cells: at the right, with
/// one cell to spare, if it fits.
pub fn clock_offset(total: u16, width: u16) -> (r: Option<u16>)
    ensures
        r == if total > width + 1 {
            Some((total - width - 1) as u16)
        } else {
            None
        },
{
    if total as u32 > width as u32 + 1 {
        Some(total - width - 1)
    } else {
        None
    }
}

impl Console {
    /// The tally of what went wrong on the link, or nothing where all is clean.
    pub fn header_diagnostics(&self) -> (r: Option<String>)
        ensures
            r.deep_view() == diagnostics(self@),
    {
        if self.decode_failures == 0 && self.seq_gaps == 0 && self.payload_errors == 0 {
            return None;
        }
        let mut parts: Vec<String> = Vec::new();
        assert(parts.deep_view() =~= Seq::<Seq<char>>::empty());
        if self.decode_failures > 0 {
            let d = cat3(
                dec_u64(self.decode_failures).as_str(),
                " bad frame",
                plural_of(self.decode_failures),
            );
            let d = match self.mismatch_got {
                Some(v) => cat4(d.as_str(), " (v", dec_u64(v as u64).as_str(), "?)"),
                None => d,
            };
            push_deep(&mut parts, d);
            assert(parts.deep_view() =~= seq![bad_frames_text(self@)]);
        }
        if self.seq_gaps > 0 {
            push_deep(
                &mut parts,
                cat3(dec_u64(self.seq_gaps).as_str(), " seq gap", plural_of(self.seq_gaps)),
            );
        }
        if self.payload_errors > 0 {
            push_deep(
                &mut parts,
                cat3(
                    dec_u64(self.payload_errors).as_str(),
                    " payload err",
                    plural_of(self.payload_errors),
                ),
            );
        }
        Some(cat2("✖ ", join_of(&parts, " · ").as_str()))
    }

    /// The header of the screen.
    pub fn header_spans(&self, version: &str) -> (r: Vec<Span>)
        ensures
            r.deep_view() == header(self@, version@),
    {
        let on_gray = Style::on(Color::Black, Color::Gray);
        let mut v: Vec<Span> = Vec::new();
        v.push(
            Span {
                text: cat5(
                    " HARDWARIO TOWER Console v",
                    version,
                    " — ",
                    self.port_name.as_str(),
                    " ",
                ),
                style: on_gray,
            },
        );
        assert(v.deep_view() =~= seq![
            span(" HARDWARIO TOWER Console v"@ + version@ + " — "@ + self@.port_name + " "@, bar()),
        ]);
        if self.connected {
            push_deep(
                &mut v,
                Span { text: "●".to_owned(), style: Style::on(Color::Green, Color::Gray) },
            );
        } else {
            push_deep(&mut v, Span { text: "○ reconnecting…".to_owned(), style: on_gray });
            if let Some(e) = &self.last_open_error {
                push_deep(
                    &mut v,
                    Span {
                        text: cat4("  ", self.port_name.as_str(), ": ", e.as_str()),
                        style: Style::on(Color::Red, Color::Gray),
                    },
                );
            }
        }
        if let Some(d) = self.header_diagnostics() {
            let mut style = Style::on(Color::Red, Color::Gray);
            style.bold = true;
            push_deep(&mut v, Span { text: cat2("  ", d.as_str()), style });
        }
        v
    }

    /// The footer of the screen.
    pub fn footer_spans(&self) -> (r: Vec<Span>)
        ensures
            r.deep_view() == footer(self@),
    {
        let zoom = if self.zoom { Color::Yellow } else { Color::Black };
        let pause = if self.paused { Color::Yellow } else { Color::Black };
        let hint = if self.hint.as_str().unicode_len() == 0 {
            "".to_owned()
        } else {
            cat3("[", self.hint.as_str(), "] ")
        };
        let mut v: Vec<Span> = Vec::new();
        v.push(Span { text: " Shift-Tab Focus  ".to_owned(), style: Style::plain() });
        v.push(Span { text: "F3 Zoom".to_owned(), style: Style::on(zoom, Color::Gray) });
        v.push(Span { text: "  ".to_owned(), style: Style::plain() });
        v.push(Span { text: "F5 Pause".to_owned(), style: Style::on(pause, Color::Gray) });
        v.push(Span { text: "  F8 Clear  F10/^C Quit   ".to_owned(), style: Style::plain() });
        v.push(Span { text: hint, style: Style::plain() });
        assert(v.deep_view() =~= footer(self@));
        v
    }

    /// The text of the command pane.
    pub fn command_text(&self) -> (r: String)
        ensures
            r@ == "/ "@ + self@.input,
    {
        cat2("/ ", self.input.as_str())
    }

    /// The column of the cursor in a command pane whose inside begins at `x` and is
    /// `width` wide: behind the prompt and the text, but never outside.
    pub fn cursor_column(&self, x: u16, width: u16) -> (r: u16)
        requires
            console_ok(self@),
        ensures
            ({
                let wanted = x + 2 + line_at(self@.input, self@.cursor).left.len();
                let last = x + if width > 0 {
                    width - 1
                } else {
                    0
                };
                let c = if wanted < last {
                    wanted
                } else {
                    last
                };
                r == if c > u16::MAX {
                    u16::MAX as int
                } else {
                    c
                }
            }),
    {
        let v = chars_of(self.input.as_str());
        let k: usize = index_at(&v, self.cursor).unwrap();
        proof {
            lemma_split_bytes(v@, self.cursor as int);
        }
        let wanted: u128 = x as u128 + 2 + k as u128;
        let last: u128 = x as u128 + width.saturating_sub(1) as u128;
        let c: u128 = if wanted < last { wanted } else { last };
        if c > u16::MAX as u128 {
            u16::MAX
        } else {
            c as u16
        }
    }
}

// ---- laws --------------------------------------------------------------------------

/// Unless it is scrolled, a pane shows the last row of its newest item: the window's rows
/// reach to the end of what is drawn.
pub proof fn law_newest_line_in_view(items: Seq<nat>, inner_h: nat, w: Window)
    requires
        items.len() > 0,
        inner_h > 0,
        forall|i: int| 0 <= i < items.len() ==> #[trigger] items[i] >= 1,
        is_window(items, inner_h, 0, w),
    ensures
        w.first < items.len(),
        ({
            let total = tail_rows(items, (items.len() - w.first) as nat);
            w.top_row <= total - 1 < w.top_row + inner_h
        }),
{
    let m = (items.len() - w.first) as nat;
    if m == 0 {
        assert(tail_rows(items, 0) >= inner_h);
    } else {
        assert(items[items.len() - m] >= 1);
    }
}

/// Wrapping loses nothing: the rows of a line hold all its columns, and one row fewer
/// would not.
pub proof fn law_wrapped_rows_fit(w: nat, width: nat)
    requires
        w > 0,
        width > 0,
    ensures
        rows(w, width) * width >= w,
        (rows(w, width) - 1) * width < w,
{
    let n = width as int;
    let x = w as int;
    let r = (x + n - 1) / n;
    assert(r * n >= x && (r - 1) * n < x) by (nonlinear_arith)
        requires
            r == (x + n - 1) / n,
            n >= 1,
            x >= 1,
    ;
}

} // verus!

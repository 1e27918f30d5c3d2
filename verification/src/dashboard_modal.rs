//! The windows over the panes of the gateway's frontend.

use crate::dashboard::{is_open, Dashboard, DashboardV, Modal, ModalV};
use crate::dashboard_keys::queue_of;
use crate::payload::PendingEntryV;
use crate::style::{
    bold_fg, fg_style, on_style, plain_style, row, row_of, span, Color, Rect, Span, SpanV, Style,
};
use crate::text::{cat2, cat3, cat4, dec, dec_u64, push_char, push_deep};
use crate::topics::{addr_text, node_hex};
use vstd::prelude::*;
use vstd::string::*;

verus! {

/// A window: its title and its rows.
#[derive(Debug, PartialEq)]
pub struct Panel {
    pub title: String,
    pub rows: Vec<Vec<Span>>,
}

#[verifier::ext_equal]
pub struct PanelV {
    pub title: Seq<char>,
    pub rows: Seq<Seq<SpanV>>,
}

impl DeepView for Panel {
    type V = PanelV;

    open spec fn deep_view(&self) -> PanelV {
        PanelV { title: self.title@, rows: self.rows.deep_view() }
    }
}

pub open spec fn plain_row(text: Seq<char>) -> Seq<SpanV> {
    row(text, plain_style())
}

fn plain(text: &str) -> (r: Vec<Span>)
    ensures
        r.deep_view() == plain_row(text@),
{
    row_of(text, Style::plain())
}

/// Two spans in a row.
fn two(a: Span, b: Span) -> (r: Vec<Span>)
    ensures
        r.deep_view() == seq![a.deep_view(), b.deep_view()],
{
    let mut v: Vec<Span> = Vec::new();
    v.push(a);
    v.push(b);
    assert(v.deep_view() =~= seq![a.deep_view(), b.deep_view()]);
    v
}

// ---- what is shown -----------------------------------------------------------------

pub open spec fn remove_panel(node: u32) -> PanelV {
    PanelV {
        title: " Remove node "@,
        rows: seq![
            plain_row("Unpair "@ + addr_text(node) + "?"@),
            plain_row("Its key, name and queued commands are forgotten."@),
            plain_row(""@),
            plain_row("Enter/y = remove   any other key = cancel"@),
        ],
    }
}

/// The style of the input field.
pub open spec fn field() -> Style {
    on_style(Color::White, Color::DarkGray)
}

/// `n` spaces.
pub open spec fn spaces(n: nat) -> Seq<char> {
    Seq::new(n, |i: int| ' ')
}

/// The input field: the text, a cursor, and spaces up to a fixed width.
pub open spec fn field_row(buf: Seq<char>) -> Seq<SpanV> {
    seq![
        span("  "@, plain_style()),
        span(" "@, field()),
        span(buf, Style { bold: true, ..field() }),
        span(" "@, Style { reversed: true, ..field() }),
        span(
            spaces(
                if buf.len() >= 17 {
                    0
                } else {
                    (17 - buf.len()) as nat
                },
            ),
            field(),
        ),
    ]
}

pub open spec fn rename_panel(node: u32, buf: Seq<char>) -> PanelV {
    PanelV {
        title: " Rename node "@,
        rows: seq![
            plain_row("New name for "@ + addr_text(node) + ":"@),
            plain_row(""@),
            field_row(buf),
            plain_row(""@),
            plain_row("≤16 bytes — Enter = save, Esc = cancel"@),
        ],
    }
}

pub open spec fn reveal_panel(node: u32) -> PanelV {
    PanelV {
        title: " Reveal AES key "@,
        rows: seq![
            plain_row("Show "@ + addr_text(node) + "'s network key on screen?"@),
            plain_row("Anyone reading this terminal can then impersonate the node."@),
            plain_row(""@),
            plain_row("Enter/y = reveal   any other key = cancel"@),
        ],
    }
}

/// Whole seconds from `now` to `end`, 0 where that is past.
pub open spec fn seconds_left(now: u64, end: int) -> nat {
    if end > now {
        ((end - now) / 1000) as nat
    } else {
        0
    }
}

/// Seconds until a key that was shown at `shown` is hidden: 30, less one for each second
/// that went by.
pub open spec fn key_seconds(shown: u64, now: u64) -> nat {
    let gone = if now >= shown {
        (now - shown) / 1000
    } else {
        0
    };
    if gone >= 30 {
        0
    } else {
        (30 - gone) as nat
    }
}

pub open spec fn key_panel(node: u32, key: Seq<char>, shown: u64, now: u64) -> PanelV {
    PanelV {
        title: " AES key (auto-hides in "@ + dec(key_seconds(shown, now)) + " s) "@,
        rows: seq![
            plain_row("node "@ + addr_text(node)),
            row(key, bold_fg(Color::Magenta)),
            plain_row(""@),
            plain_row("any key hides it"@),
        ],
    }
}

/// A choice of a list: marked and bold where it is the selected one.
pub open spec fn choice(text: Seq<char>, selected: bool) -> Seq<SpanV> {
    if selected {
        seq![span("▸ "@, plain_style()), span(text, bold_fg(Color::Cyan))]
    } else {
        seq![span("  "@, plain_style()), span(text, plain_style())]
    }
}

pub open spec fn explained(text: Seq<char>) -> Seq<SpanV> {
    row("    "@ + text, fg_style(Color::DarkGray))
}

pub open spec fn menu_panel(selected: usize) -> PanelV {
    PanelV {
        title: " Pair a node "@,
        rows: seq![
            choice("Start over-the-air pairing"@, selected == 0),
            explained("60 s window — the node joins by holding its button"@),
            choice("Catch the cable-connected device"@, selected == 1),
            explained("plug the node in over USB; it pairs automatically"@),
            choice("Pair with the existing device"@, selected == 2),
            explained("pick the node's serial port from the list"@),
            plain_row(""@),
            plain_row("↑/↓ select — Enter = run, Esc = close"@),
        ],
    }
}

/// Text, a highlighted part, text.
pub open spec fn counting(before: Seq<char>, n: nat, after: Seq<char>) -> Seq<SpanV> {
    seq![
        span(before, plain_style()),
        span(dec(n) + " s"@, bold_fg(Color::Yellow)),
        span(after, plain_style()),
    ]
}

pub open spec fn ota_rows(s: DashboardV, seen_open: bool) -> Seq<Seq<SpanV>> {
    if is_open(s.pairing) {
        let left = match s.pairing->0.remaining_s {
            Some(n) => n as nat,
            None => 0,
        };
        seq![
            counting("window open — "@, left, " left"@),
            plain_row(""@),
            plain_row("hold the node's button ≥ 1 s to join;"@),
            plain_row("the window closes itself on the first join"@),
        ]
    } else if !seen_open {
        seq![plain_row("opening the pairing window…"@)]
    } else {
        seq![plain_row("window resolved"@)]
    }
}

pub open spec fn ota_panel(s: DashboardV, seen_open: bool) -> PanelV {
    PanelV {
        title: " OTA pairing "@,
        rows: ota_rows(s, seen_open).push(plain_row(""@)).push(plain_row("Esc = cancel now"@)),
    }
}

pub open spec fn catch_panel(deadline: u64, now: u64) -> PanelV {
    PanelV {
        title: " Catch cable device "@,
        rows: seq![
            plain_row("connect the node over USB now —"@),
            plain_row("the first new device pairs automatically"@),
            plain_row(""@),
            seq![
                span("watching for new ports… "@, plain_style()),
                span(dec(seconds_left(now, deadline as int)) + " s"@, bold_fg(Color::Yellow)),
            ],
            plain_row(""@),
            plain_row("Esc = cancel"@),
        ],
    }
}

pub open spec fn port_rows(ports: Seq<Seq<char>>, selected: usize) -> Seq<Seq<SpanV>> {
    Seq::new(ports.len(), |i: int| choice(ports[i], i == selected))
}

pub open spec fn ports_panel(ports: Seq<Seq<char>>, selected: usize) -> PanelV {
    let head = if ports.len() == 0 {
        seq![plain_row("(no serial ports visible — plug the node in)"@)]
    } else {
        Seq::empty()
    };
    PanelV {
        title: " Pair via serial port "@,
        rows: (head + port_rows(ports, selected)).push(plain_row(""@)).push(
            plain_row("↑/↓ select — Enter = pair, Esc = close"@),
        ),
    }
}

pub open spec fn step_rows(lines: Seq<Seq<char>>) -> Seq<Seq<SpanV>> {
    Seq::new(lines.len(), |i: int| plain_row("  "@ + lines[i]))
}

pub open spec fn run_panel(port: Seq<char>, lines: Seq<Seq<char>>, failed: Option<Seq<char>>) -> PanelV {
    let head = seq![plain_row("pairing over "@ + port + "…"@), plain_row(""@)];
    let body = (head + step_rows(lines)).push(plain_row(""@));
    PanelV {
        title: " Cable pairing "@,
        rows: match failed {
            Some(e) => body.push(row("✖ "@ + e, fg_style(Color::Red))).push(
                plain_row("any key closes"@),
            ),
            None => body.push(row("…"@, fg_style(Color::DarkGray))),
        },
    }
}

pub open spec fn info_panel(title: Seq<char>, text: Seq<char>) -> PanelV {
    PanelV {
        title,
        rows: seq![plain_row(text), plain_row(""@), plain_row("any key closes"@)],
    }
}

pub open spec fn queue_row(p: PendingEntryV, selected: bool) -> Seq<SpanV> {
    row(
        "#"@ + dec(p.item as nat) + " "@ + p.line,
        if selected {
            Style { bg: Some(Color::DarkGray), bold: true, ..plain_style() }
        } else {
            plain_style()
        },
    )
}

pub open spec fn queue_rows(queue: Seq<PendingEntryV>, selected: usize) -> Seq<Seq<SpanV>> {
    Seq::new(queue.len(), |i: int| queue_row(queue[i], i == selected))
}

pub open spec fn pending_panel(s: DashboardV, node: u32, selected: usize) -> PanelV {
    let queue = queue_of(s, node);
    let head = if queue.len() == 0 {
        seq![plain_row("nothing queued"@)]
    } else {
        Seq::empty()
    };
    PanelV {
        title: " Queued for "@ + addr_text(node) + " "@,
        rows: (head + queue_rows(queue, selected)).push(plain_row(""@)).push(
            plain_row("↑/↓ select · Del = dequeue · Esc = close"@),
        ),
    }
}

/// A window; `now` is the time in milliseconds.
pub open spec fn panel(s: DashboardV, m: ModalV, now: u64) -> PanelV {
    match m {
        ModalV::ConfirmRemove(node) => remove_panel(node),
        ModalV::Rename { node, buf } => rename_panel(node, buf),
        ModalV::ConfirmReveal(node) => reveal_panel(node),
        ModalV::Key { node, key, shown } => key_panel(node, key, shown, now),
        ModalV::PairMenu { selected } => menu_panel(selected),
        ModalV::PairOta { opened_at: _, seen_open } => ota_panel(s, seen_open),
        ModalV::PairCatch { baseline: _, deadline } => catch_panel(deadline, now),
        ModalV::PairPorts { ports, selected } => ports_panel(ports, selected),
        ModalV::PairRun { port, lines, failed } => run_panel(port, lines, failed),
        ModalV::Info { title, text } => info_panel(title, text),
        ModalV::Pending { node, selected } => pending_panel(s, node, selected),
    }
}

// ---- building it -------------------------------------------------------------------

fn show_remove(node: u32) -> (r: Panel)
    ensures
        r.deep_view() == remove_panel(node),
{
    let mut rows: Vec<Vec<Span>> = Vec::new();
    rows.push(plain(cat3("Unpair ", node_hex(node).as_str(), "?").as_str()));
    rows.push(plain("Its key, name and queued commands are forgotten."));
    rows.push(plain(""));
    rows.push(plain("Enter/y = remove   any other key = cancel"));
    assert(rows.deep_view() =~= remove_panel(node).rows);
    Panel { title: " Remove node ".to_owned(), rows }
}

fn spaces_of(n: usize) -> (r: String)
    ensures
        r@ == spaces(n as nat),
{
    let mut s = String::new();
    let mut i: usize = 0;
    while i < n
        invariant
            i <= n,
            s@ == spaces(i as nat),
        decreases n - i,
    {
        push_char(&mut s, ' ');
        assert(s@ =~= spaces((i + 1) as nat));
        i = i + 1;
    }
    s
}

fn show_field(buf: &str) -> (r: Vec<Span>)
    ensures
        r.deep_view() == field_row(buf@),
{
    let base = Style::on(Color::White, Color::DarkGray);
    let mut bold = base;
    bold.bold = true;
    let mut reversed = base;
    reversed.reversed = true;
    let pad: usize = (17usize).saturating_sub(buf.unicode_len());
    let mut v: Vec<Span> = Vec::new();
    v.push(Span { text: "  ".to_owned(), style: Style::plain() });
    v.push(Span { text: " ".to_owned(), style: base });
    v.push(Span { text: buf.to_owned(), style: bold });
    v.push(Span { text: " ".to_owned(), style: reversed });
    v.push(Span { text: spaces_of(pad), style: base });
    assert(v.deep_view() =~= field_row(buf@));
    v
}

fn show_rename(node: u32, buf: &str) -> (r: Panel)
    ensures
        r.deep_view() == rename_panel(node, buf@),
{
    let mut rows: Vec<Vec<Span>> = Vec::new();
    rows.push(plain(cat3("New name for ", node_hex(node).as_str(), ":").as_str()));
    rows.push(plain(""));
    rows.push(show_field(buf));
    rows.push(plain(""));
    rows.push(plain("≤16 bytes — Enter = save, Esc = cancel"));
    assert(rows.deep_view() =~= rename_panel(node, buf@).rows);
    Panel { title: " Rename node ".to_owned(), rows }
}

fn show_reveal(node: u32) -> (r: Panel)
    ensures
        r.deep_view() == reveal_panel(node),
{
    let mut rows: Vec<Vec<Span>> = Vec::new();
    rows.push(
        plain(cat3("Show ", node_hex(node).as_str(), "'s network key on screen?").as_str()),
    );
    rows.push(plain("Anyone reading this terminal can then impersonate the node."));
    rows.push(plain(""));
    rows.push(plain("Enter/y = reveal   any other key = cancel"));
    assert(rows.deep_view() =~= reveal_panel(node).rows);
    Panel { title: " Reveal AES key ".to_owned(), rows }
}

fn show_key(node: u32, key: &str, shown: u64, now: u64) -> (r: Panel)
    ensures
        r.deep_view() == key_panel(node, key@, shown, now),
{
    let gone: u64 = now.saturating_sub(shown) / 1000;
    let left: u64 = (30u64).saturating_sub(gone);
    let mut rows: Vec<Vec<Span>> = Vec::new();
    rows.push(plain(cat2("node ", node_hex(node).as_str()).as_str()));
    rows.push(row_of(key, Style::bold(Color::Magenta)));
    rows.push(plain(""));
    rows.push(plain("any key hides it"));
    assert(rows.deep_view() =~= key_panel(node, key@, shown, now).rows);
    Panel { title: cat3(" AES key (auto-hides in ", dec_u64(left).as_str(), " s) "), rows }
}

fn show_choice(text: &str, selected: bool) -> (r: Vec<Span>)
    ensures
        r.deep_view() == choice(text@, selected),
{
    if selected {
        two(
            Span { text: "▸ ".to_owned(), style: Style::plain() },
            Span { text: text.to_owned(), style: Style::bold(Color::Cyan) },
        )
    } else {
        two(
            Span { text: "  ".to_owned(), style: Style::plain() },
            Span { text: text.to_owned(), style: Style::plain() },
        )
    }
}

fn show_explained(text: &str) -> (r: Vec<Span>)
    ensures
        r.deep_view() == explained(text@),
{
    row_of(cat2("    ", text).as_str(), Style::fg(Color::DarkGray))
}

fn show_menu(selected: usize) -> (r: Panel)
    ensures
        r.deep_view() == menu_panel(selected),
{
    let mut rows: Vec<Vec<Span>> = Vec::new();
    rows.push(show_choice("Start over-the-air pairing", selected == 0));
    rows.push(show_explained("60 s window — the node joins by holding its button"));
    rows.push(show_choice("Catch the cable-connected device", selected == 1));
    rows.push(show_explained("plug the node in over USB; it pairs automatically"));
    rows.push(show_choice("Pair with the existing device", selected == 2));
    rows.push(show_explained("pick the node's serial port from the list"));
    rows.push(plain(""));
    rows.push(plain("↑/↓ select — Enter = run, Esc = close"));
    assert(rows.deep_view() =~= menu_panel(selected).rows);
    Panel { title: " Pair a node ".to_owned(), rows }
}

fn show_counting(before: &str, n: u64, after: &str) -> (r: Vec<Span>)
    ensures
        r.deep_view() == counting(before@, n as nat, after@),
{
    let mut v: Vec<Span> = Vec::new();
    v.push(Span { text: before.to_owned(), style: Style::plain() });
    v.push(Span { text: cat2(dec_u64(n).as_str(), " s"), style: Style::bold(Color::Yellow) });
    v.push(Span { text: after.to_owned(), style: Style::plain() });
    assert(v.deep_view() =~= counting(before@, n as nat, after@));
    v
}

fn show_catch(deadline: u64, now: u64) -> (r: Panel)
    ensures
        r.deep_view() == catch_panel(deadline, now),
{
    let left: u64 = deadline.saturating_sub(now) / 1000;
    let mut rows: Vec<Vec<Span>> = Vec::new();
    rows.push(plain("connect the node over USB now —"));
    rows.push(plain("the first new device pairs automatically"));
    rows.push(plain(""));
    rows.push(
        two(
            Span { text: "watching for new ports… ".to_owned(), style: Style::plain() },
            Span { text: cat2(dec_u64(left).as_str(), " s"), style: Style::bold(Color::Yellow) },
        ),
    );
    rows.push(plain(""));
    rows.push(plain("Esc = cancel"));
    assert(rows.deep_view() =~= catch_panel(deadline, now).rows);
    Panel { title: " Catch cable device ".to_owned(), rows }
}

fn show_ports(ports: &Vec<String>, selected: usize) -> (r: Panel)
    ensures
        r.deep_view() == ports_panel(ports.deep_view(), selected),
{
    let mut rows: Vec<Vec<Span>> = Vec::new();
    if ports.len() == 0 {
        rows.push(plain("(no serial ports visible — plug the node in)"));
    }
    let ghost head = rows.deep_view();
    assert(head =~= if ports@.len() == 0 {
        seq![plain_row("(no serial ports visible — plug the node in)"@)]
    } else {
        Seq::empty()
    });
    let mut i: usize = 0;
    while i < ports.len()
        invariant
            i <= ports@.len(),
            rows.deep_view() == head + port_rows(ports.deep_view(), selected).take(i as int),
        decreases ports@.len() - i,
    {
        let ghost before = rows.deep_view();
        push_deep(&mut rows, show_choice(ports[i].as_str(), i == selected));
        assert(rows.deep_view() =~= head + port_rows(ports.deep_view(), selected).take(i + 1));
        i = i + 1;
    }
    assert(port_rows(ports.deep_view(), selected).take(i as int) =~= port_rows(
        ports.deep_view(),
        selected,
    ));
    push_deep(&mut rows, plain(""));
    push_deep(&mut rows, plain("↑/↓ select — Enter = pair, Esc = close"));
    Panel { title: " Pair via serial port ".to_owned(), rows }
}

fn show_run(port: &str, lines: &Vec<String>, failed: &Option<String>) -> (r: Panel)
    ensures
        r.deep_view() == run_panel(port@, lines.deep_view(), failed.deep_view()),
{
    let mut rows: Vec<Vec<Span>> = Vec::new();
    rows.push(plain(cat3("pairing over ", port, "…").as_str()));
    rows.push(plain(""));
    let ghost head = rows.deep_view();
    assert(head =~= seq![plain_row("pairing over "@ + port@ + "…"@), plain_row(""@)]);
    let mut i: usize = 0;
    while i < lines.len()
        invariant
            i <= lines@.len(),
            rows.deep_view() == head + step_rows(lines.deep_view()).take(i as int),
        decreases lines@.len() - i,
    {
        push_deep(&mut rows, plain(cat2("  ", lines[i].as_str()).as_str()));
        assert(rows.deep_view() =~= head + step_rows(lines.deep_view()).take(i + 1));
        i = i + 1;
    }
    assert(step_rows(lines.deep_view()).take(i as int) =~= step_rows(lines.deep_view()));
    push_deep(&mut rows, plain(""));
    match failed {
        Some(e) => {
            push_deep(&mut rows, row_of(cat2("✖ ", e.as_str()).as_str(), Style::fg(Color::Red)));
            push_deep(&mut rows, plain("any key closes"));
        },
        None => {
            push_deep(&mut rows, row_of("…", Style::fg(Color::DarkGray)));
        },
    }
    Panel { title: " Cable pairing ".to_owned(), rows }
}

fn show_info(title: &str, text: &str) -> (r: Panel)
    ensures
        r.deep_view() == info_panel(title@, text@),
{
    let mut rows: Vec<Vec<Span>> = Vec::new();
    rows.push(plain(text));
    rows.push(plain(""));
    rows.push(plain("any key closes"));
    assert(rows.deep_view() =~= info_panel(title@, text@).rows);
    Panel { title: title.to_owned(), rows }
}

impl Dashboard {
    fn show_ota(&self, seen_open: bool) -> (r: Panel)
        ensures
            r.deep_view() == ota_panel(self@, seen_open),
    {
        let mut rows: Vec<Vec<Span>> = Vec::new();
        if self.pairing_open() {
            let left: u64 = match &self.pairing {
                Some(p) => match p.remaining_s {
                    Some(n) => n,
                    None => 0,
                },
                None => 0,
            };
            rows.push(show_counting("window open — ", left, " left"));
            rows.push(plain(""));
            rows.push(plain("hold the node's button ≥ 1 s to join;"));
            rows.push(plain("the window closes itself on the first join"));
        } else if !seen_open {
            rows.push(plain("opening the pairing window…"));
        } else {
            rows.push(plain("window resolved"));
        }
        assert(rows.deep_view() =~= ota_rows(self@, seen_open));
        push_deep(&mut rows, plain(""));
        push_deep(&mut rows, plain("Esc = cancel now"));
        Panel { title: " OTA pairing ".to_owned(), rows }
    }

    fn show_pending(&self, node: u32, selected: usize) -> (r: Panel)
        ensures
            r.deep_view() == pending_panel(self@, node, selected),
    {
        let ghost queue = queue_of(self@, node);
        let mut rows: Vec<Vec<Span>> = Vec::new();
        assert(rows.deep_view() =~= Seq::<Seq<SpanV>>::empty());
        match crate::dashboard::position_of(&self.nodes, node) {
            Some(k) => {
                let list = &self.nodes[k].pending;
                assert(list.deep_view() == queue);
                if list.len() == 0 {
                    push_deep(&mut rows, plain("nothing queued"));
                }
                let ghost head = rows.deep_view();
                let mut i: usize = 0;
                while i < list.len()
                    invariant
                        i <= list@.len(),
                        queue == list.deep_view(),
                        rows.deep_view() == head + queue_rows(queue, selected).take(i as int),
                    decreases list@.len() - i,
                {
                    let p = &list[i];
                    let mut style = Style::plain();
                    if i == selected {
                        style.bg = Some(Color::DarkGray);
                        style.bold = true;
                    }
                    let text = cat4("#", dec_u64(p.item as u64).as_str(), " ", p.line.as_str());
                    push_deep(&mut rows, row_of(text.as_str(), style));
                    assert(rows.deep_view() =~= head + queue_rows(queue, selected).take(i + 1));
                    i = i + 1;
                }
                assert(queue_rows(queue, selected).take(i as int) =~= queue_rows(queue, selected));
                assert(head =~= if queue.len() == 0 {
                    seq![plain_row("nothing queued"@)]
                } else {
                    Seq::empty()
                });
            },
            None => {
                push_deep(&mut rows, plain("nothing queued"));
                assert(rows.deep_view() =~= seq![plain_row("nothing queued"@)] + queue_rows(
                    queue,
                    selected,
                ));
            },
        }
        push_deep(&mut rows, plain(""));
        push_deep(&mut rows, plain("↑/↓ select · Del = dequeue · Esc = close"));
        Panel { title: cat3(" Queued for ", node_hex(node).as_str(), " "), rows }
    }

    /// The window that is open, if one is; `now` is the time in milliseconds.
    pub fn render_modal(&self, now: u64) -> (r: Option<Panel>)
        ensures
            r.deep_view() == match self@.modal {
                Some(m) => Some(panel(self@, m, now)),
                None => None,
            },
    {
        match &self.modal {
            None => None,
            Some(m) => Some(
                match m {
                    Modal::ConfirmRemove(node) => show_remove(*node),
                    Modal::Rename { node, buf } => show_rename(*node, buf.as_str()),
                    Modal::ConfirmReveal(node) => show_reveal(*node),
                    Modal::Key { node, key, shown } => show_key(*node, key.as_str(), *shown, now),
                    Modal::PairMenu { selected } => show_menu(*selected),
                    Modal::PairOta { opened_at: _, seen_open } => self.show_ota(*seen_open),
                    Modal::PairCatch { baseline: _, deadline } => show_catch(*deadline, now),
                    Modal::PairPorts { ports, selected } => show_ports(ports, *selected),
                    Modal::PairRun { port, lines, failed } => show_run(
                        port.as_str(),
                        lines,
                        failed,
                    ),
                    Modal::Info { title, text } => show_info(title.as_str(), text.as_str()),
                    Modal::Pending { node, selected } => self.show_pending(*node, *selected),
                },
            ),
        }
    }
}

// ---- where it goes -----------------------------------------------------------------

/// A rectangle of at most the given size, in the middle of `area`.
pub open spec fn middle(area: Rect, width: u16, height: u16) -> Rect {
    let w = if width <= area.width {
        width
    } else {
        area.width
    };
    let h = if height <= area.height {
        height
    } else {
        area.height
    };
    Rect {
        x: (area.x + (area.width - w) / 2) as u16,
        y: (area.y + (area.height - h) / 2) as u16,
        width: w,
        height: h,
    }
}

/// The corner of that rectangle can be written down.
pub open spec fn has_middle(area: Rect, width: u16, height: u16) -> bool {
    &&& width < area.width ==> area.x + (area.width - width) / 2 <= u16::MAX
    &&& height < area.height ==> area.y + (area.height - height) / 2 <= u16::MAX
}

/// A rectangle of at most the given size, in the middle of `area`.
pub fn centered(area: Rect, width: u16, height: u16) -> (r: Rect)
    requires
        has_middle(area, width, height),
    ensures
        r == middle(area, width, height),
{
    let w: u16 = if width <= area.width { width } else { area.width };
    let h: u16 = if height <= area.height { height } else { area.height };
    Rect { x: area.x + (area.width - w) / 2, y: area.y + (area.height - h) / 2, width: w, height: h }
}

/// The height of a window with `rows` rows: they, and a border.
pub open spec fn modal_height(body: Rect, rows: usize) -> u16 {
    if rows + 2 <= body.height {
        (rows + 2) as u16
    } else {
        body.height
    }
}

/// Whether a window with `rows` rows has a place in `body`.
pub fn has_place(body: Rect, rows: usize) -> (r: bool)
    ensures
        r == has_middle(body, 64, modal_height(body, rows)),
{
    let h: u16 = if rows < 0x1_0000 && rows + 2 <= body.height as usize {
        (rows + 2) as u16
    } else {
        body.height
    };
    let x: u16 = body.width.saturating_sub(64) / 2;
    let y: u16 = body.height.saturating_sub(h) / 2;
    body.x.checked_add(x).is_some() && body.y.checked_add(y).is_some()
}

/// The rectangle of a window with `rows` rows: 64 wide, with a border, within `body`.
pub fn modal_area(body: Rect, rows: usize) -> (r: Rect)
    requires
        has_middle(body, 64, modal_height(body, rows)),
    ensures
        r == middle(body, 64, modal_height(body, rows)),
{
    let h: u16 = if rows < 0x1_0000 && rows + 2 <= body.height as usize {
        (rows + 2) as u16
    } else {
        body.height
    };
    centered(body, 64, h)
}

// ---- laws --------------------------------------------------------------------------

/// A centered rectangle lies within the area that it is centered in.
pub proof fn law_centered_lies_within(area: Rect, width: u16, height: u16)
    requires
        has_middle(area, width, height),
    ensures
        ({
            let r = middle(area, width, height);
            &&& area.x <= r.x && r.x + r.width <= area.x + area.width
            &&& area.y <= r.y && r.y + r.height <= area.y + area.height
        }),
{
}

} // verus!

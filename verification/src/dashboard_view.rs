//! The panes of the gateway's frontend as they are shown.

use crate::dashboard::{
    dialog_of, is_open, Dashboard, DashboardV, DialogLine, DialogLineV, Pane, PaneZones,
};
use crate::dashboard_modal::plain_row;
use crate::engine_state::{MqttDir, MqttMsg, MqttMsgV, NodeView, NodeViewV};
use crate::highlight::{command, command_spans, response, response_spans};
use crate::json_view::{json_spans, payload_spans};
use crate::payload::{PendingEntry, PendingEntryV};
use crate::layout::zoomed;
use crate::style::{
    bold_fg, fg_style, on_style, plain_style, row, row_of, span, Color, Key, Rect, Span, SpanV, Style,
};
use crate::text::{
    behind, cat2, cat3, cat4, cat5, cat6, cat7, contains, dec, dec_i64, dec_int, dec_u64, deep, occurs,
    push_deep, strip_prefix,
};
use crate::topics::{addr_text, node_hex, node_of, topic_node};
use std::collections::VecDeque;
use vstd::prelude::*;
use vstd::std_specs::hash::*;
use vstd::std_specs::vecdeque::*;
use vstd::string::*;

verus! {

// ---- header ------------------------------------------------------------------------

pub open spec fn bar() -> Style {
    on_style(Color::Black, Color::Gray)
}

/// A light for a link.
pub open spec fn dot(up: bool) -> SpanV {
    span(
        "●"@,
        fg_style(
            if up {
                Color::Green
            } else {
                Color::Red
            },
        ),
    )
}

/// Black on yellow, for what is active.
pub open spec fn lit() -> Style {
    Style { bold: true, ..on_style(Color::Black, Color::Yellow) }
}

/// The header: title, port, links, prefix, and the countdown of a pairing window.
pub open spec fn header(s: DashboardV) -> Seq<SpanV> {
    let a = seq![
        span(" HARDWARIO TOWER Gateway "@, Style { bold: true, ..bar() }),
        span(s.port + " "@, bar()),
        dot(s.serial_up),
        span(" serial  "@, bar()),
        dot(s.mqtt_up),
        span(" mqtt  prefix "@ + s.prefix, bar()),
    ];
    if is_open(s.pairing) {
        let left = match s.pairing->0.remaining_s {
            Some(n) => n as nat,
            None => 0,
        };
        a.push(span("  PAIRING "@ + dec(left) + "s "@, lit()))
    } else {
        a
    }
}

fn lit_style() -> (r: Style)
    ensures
        r == lit(),
{
    let mut s = Style::on(Color::Black, Color::Yellow);
    s.bold = true;
    s
}

fn light(up: bool) -> (r: Span)
    ensures
        r.deep_view() == dot(up),
{
    Span { text: "●".to_owned(), style: Style::fg(if up { Color::Green } else { Color::Red }) }
}

impl Dashboard {
    /// The header of the screen.
    pub fn render_header(&self) -> (r: Vec<Span>)
        ensures
            r.deep_view() == header(self@),
    {
        let gray = Style::on(Color::Black, Color::Gray);
        let mut bold = gray;
        bold.bold = true;
        let mut v: Vec<Span> = Vec::new();
        v.push(Span { text: " HARDWARIO TOWER Gateway ".to_owned(), style: bold });
        v.push(Span { text: cat2(self.port.as_str(), " "), style: gray });
        v.push(light(self.serial_up));
        v.push(Span { text: " serial  ".to_owned(), style: gray });
        v.push(light(self.mqtt_up));
        v.push(Span { text: cat2(" mqtt  prefix ", self.prefix.as_str()), style: gray });
        assert(v.deep_view() =~= header(self@).take(6));
        if self.pairing_open() {
            let left: u64 = match &self.pairing {
                Some(p) => match p.remaining_s {
                    Some(n) => n,
                    None => 0,
                },
                None => 0,
            };
            let text = cat3("  PAIRING ", dec_u64(left).as_str(), "s ");
            push_deep(&mut v, Span { text, style: lit_style() });
        }
        assert(v.deep_view() =~= header(self@));
        v
    }
}

// ---- footer ------------------------------------------------------------------------

/// A button of the footer: its text, whether it is lit, and the key that it presses.
#[verifier::ext_equal]
pub struct ChipV {
    pub label: Seq<char>,
    pub active: bool,
    pub key: Key,
}

/// The buttons of the footer, from left to right.
pub open spec fn chips(s: DashboardV) -> Seq<ChipV> {
    seq![
        ChipV { label: " [Shift-]F1 Focus "@, active: false, key: Key::F(1) },
        ChipV { label: " F2 Pair "@, active: is_open(s.pairing), key: Key::F(2) },
        ChipV { label: " F3 Zoom "@, active: s.zoom, key: Key::F(3) },
        ChipV { label: " F4 Key "@, active: false, key: Key::F(4) },
        ChipV { label: " F5 Pause "@, active: s.paused, key: Key::F(5) },
        ChipV { label: " F6 Rename "@, active: false, key: Key::F(6) },
        ChipV { label: " Del Remove "@, active: false, key: Key::Delete },
        ChipV { label: " p Pending "@, active: false, key: Key::Char('p') },
        ChipV { label: " F7 Filter "@, active: s.mqtt_filter is Some, key: Key::F(7) },
        ChipV { label: " F8 Clear "@, active: false, key: Key::F(8) },
        ChipV { label: " F9 Mouse "@, active: s.mouse, key: Key::F(9) },
        ChipV { label: " F10 Quit "@, active: false, key: Key::F(10) },
    ]
}

/// The column where button `k` begins, in a footer that begins at `x`.
pub open spec fn chip_start(all: Seq<ChipV>, x: int, k: nat) -> int
    decreases k,
{
    if k == 0 {
        x
    } else {
        chip_start(all, x, (k - 1) as nat) + all[k - 1].label.len()
    }
}

/// Where an area ends, as far as there are columns.
pub open spec fn right_edge(area: Rect) -> int {
    if area.x + area.width > u16::MAX {
        u16::MAX as int
    } else {
        area.x + area.width
    }
}

/// The rectangles of the first `k` buttons; those beyond the right edge have none, and the
/// one at the edge is cut off.
pub open spec fn chip_zones(all: Seq<ChipV>, area: Rect, k: nat) -> Seq<(Rect, Key)>
    decreases k,
{
    if k == 0 {
        Seq::empty()
    } else {
        let before = chip_zones(all, area, (k - 1) as nat);
        let at = chip_start(all, area.x as int, (k - 1) as nat);
        let right = right_edge(area);
        if at < right {
            let room = right - at;
            let w = if all[k - 1].label.len() <= room {
                all[k - 1].label.len() as int
            } else {
                room
            };
            before.push(
                (Rect { x: at as u16, y: area.y, width: w as u16, height: 1 }, all[k - 1].key),
            )
        } else {
            before
        }
    }
}

pub open spec fn chip_spans(all: Seq<ChipV>) -> Seq<SpanV> {
    Seq::new(
        all.len(),
        |i: int|
            span(
                all[i].label,
                if all[i].active {
                    lit()
                } else {
                    bar()
                },
            ),
    )
}

struct Chip {
    label: &'static str,
    active: bool,
    key: Key,
}

impl DeepView for Chip {
    type V = ChipV;

    closed spec fn deep_view(&self) -> ChipV {
        ChipV { label: self.label@, active: self.active, key: self.key }
    }
}

impl Dashboard {
    fn footer_chips(&self) -> (r: Vec<Chip>)
        ensures
            r.deep_view() == chips(self@),
    {
        let open = self.pairing_open();
        let filtered = self.mqtt_filter.is_some();
        let mut v: Vec<Chip> = Vec::new();
        v.push(Chip { label: " [Shift-]F1 Focus ", active: false, key: Key::F(1) });
        v.push(Chip { label: " F2 Pair ", active: open, key: Key::F(2) });
        v.push(Chip { label: " F3 Zoom ", active: self.zoom, key: Key::F(3) });
        v.push(Chip { label: " F4 Key ", active: false, key: Key::F(4) });
        v.push(Chip { label: " F5 Pause ", active: self.paused, key: Key::F(5) });
        v.push(Chip { label: " F6 Rename ", active: false, key: Key::F(6) });
        v.push(Chip { label: " Del Remove ", active: false, key: Key::Delete });
        v.push(Chip { label: " p Pending ", active: false, key: Key::Char('p') });
        v.push(Chip { label: " F7 Filter ", active: filtered, key: Key::F(7) });
        v.push(Chip { label: " F8 Clear ", active: false, key: Key::F(8) });
        v.push(Chip { label: " F9 Mouse ", active: self.mouse, key: Key::F(9) });
        v.push(Chip { label: " F10 Quit ", active: false, key: Key::F(10) });
        assert(v.deep_view() =~= chips(self@));
        v
    }

    /// The footer of the screen in `area`; remembers where its buttons are.
    pub fn render_footer(&mut self, area: Rect) -> (r: Vec<Span>)
        ensures
            r.deep_view() == chip_spans(chips(old(self)@)),
            final(self)@ == (DashboardV {
                chips: chip_zones(chips(old(self)@), area, chips(old(self)@).len()),
                ..old(self)@
            }),
    {
        let list = self.footer_chips();
        let ghost all = chips(self@);
        let right: u16 = area.x.saturating_add(area.width);
        let mut zones: Vec<(Rect, Key)> = Vec::new();
        let mut spans: Vec<Span> = Vec::new();
        let mut x: u128 = area.x as u128;
        let mut i: usize = 0;
        while i < list.len()
            invariant
                i <= list@.len(),
                list.deep_view() == all,
                right == right_edge(area),
                x == chip_start(all, area.x as int, i as nat),
                x <= u16::MAX + i * usize::MAX,
                list@.len() <= 12,
                zones@ == chip_zones(all, area, i as nat),
                spans@.len() == i,
                forall|j: int| 0 <= j < i ==> (#[trigger] spans@[j]).deep_view() == chip_spans(all)[j],
            decreases list@.len() - i,
        {
            let chip = &list[i];
            assert(chip.deep_view() == all[i as int]);
            let w: usize = chip.label.unicode_len();
            if x < right as u128 {
                let room: u16 = right - x as u16;
                let cut: u16 = if w <= room as usize { w as u16 } else { room };
                zones.push((Rect { x: x as u16, y: area.y, width: cut, height: 1 }, chip.key));
            }
            assert((i + 1) * usize::MAX == i * usize::MAX + usize::MAX) by (nonlinear_arith);
            x = x + w as u128;
            spans.push(
                Span {
                    text: chip.label.to_owned(),
                    style: if chip.active {
                        lit_style()
                    } else {
                        Style::on(Color::Black, Color::Gray)
                    },
                },
            );
            i = i + 1;
        }
        self.chips = zones;
        assert(spans.deep_view() =~= chip_spans(all));
        spans
    }

    /// Remembers where the panes are.
    pub fn set_zones(&mut self, zones: PaneZones)
        ensures
            final(self)@ == (DashboardV { zones, ..old(self)@ }),
    {
        self.zones = zones;
    }

    /// The zones while the focused pane fills `body`.
    pub fn zoom_zones(&self, body: Rect) -> (r: PaneZones)
        ensures
            r == zoomed(self.focus, body),
    {
        let mut z = PaneZones {
            nodes: Rect::empty(),
            radio: Rect::empty(),
            shell: Rect::empty(),
            mqtt: Rect::empty(),
            log: Rect::empty(),
        };
        match self.focus {
            Pane::Nodes => {
                z.nodes = body;
            },
            Pane::Radio => {
                z.radio = body;
            },
            Pane::Shell => {
                z.shell = body;
            },
            Pane::Mqtt => {
                z.mqtt = body;
            },
            Pane::Log => {
                z.log = body;
            },
        }
        z
    }
}

// ---- nodes -------------------------------------------------------------------------

/// A text, or a sign for none.
pub open spec fn or_sign(text: Seq<char>, sign: Seq<char>) -> Seq<char> {
    if text.len() == 0 {
        sign
    } else {
        text
    }
}

/// One row of the table of nodes: address, name, kind, last seen, signal, queue, sleep.
pub open spec fn node_cells(n: NodeViewV) -> Seq<Seq<char>> {
    seq![
        addr_text(n.addr),
        or_sign(n.name, "—"@),
        or_sign(n.kind, "?"@),
        match n.last_seen_s {
            Some(s) => dec(s as nat) + "s"@,
            None => "never"@,
        },
        match n.rssi_dbm {
            Some(r) => dec_int(r as int),
            None => "—"@,
        },
        if n.pending.len() == 0 {
            "—"@
        } else {
            "⌛"@ + dec(n.pending.len())
        },
        if n.sleeping {
            "●"@
        } else {
            "○"@
        },
    ]
}

pub open spec fn nodes_table(s: DashboardV) -> Seq<Seq<Seq<char>>> {
    Seq::new(s.nodes.len(), |i: int| node_cells(s.nodes[i]))
}

fn text_or(text: &String, sign: &str) -> (r: String)
    ensures
        r@ == or_sign(text@, sign@),
{
    if text.as_str().unicode_len() == 0 {
        sign.to_owned()
    } else {
        text.clone()
    }
}

fn cells_of(n: &NodeView) -> (r: Vec<String>)
    ensures
        r.deep_view() == node_cells(n.deep_view()),
{
    let mut v: Vec<String> = Vec::new();
    v.push(node_hex(n.addr));
    v.push(text_or(&n.name, "—"));
    v.push(text_or(&n.kind, "?"));
    v.push(
        match n.last_seen_s {
            Some(s) => cat2(dec_u64(s as u64).as_str(), "s"),
            None => "never".to_owned(),
        },
    );
    v.push(
        match n.rssi_dbm {
            Some(r) => dec_i64(r as i64),
            None => "—".to_owned(),
        },
    );
    v.push(
        if n.pending.len() == 0 {
            "—".to_owned()
        } else {
            cat2("⌛", dec_u64(n.pending.len() as u64).as_str())
        },
    );
    v.push(
        if n.sleeping {
            "●".to_owned()
        } else {
            "○".to_owned()
        },
    );
    assert(v.deep_view() =~= node_cells(n.deep_view()));
    v
}

impl Dashboard {
    /// The rows of the table of nodes.
    pub fn render_nodes(&self) -> (r: Vec<Vec<String>>)
        ensures
            r.deep_view() == nodes_table(self@),
    {
        let mut v: Vec<Vec<String>> = Vec::new();
        let mut i: usize = 0;
        while i < self.nodes.len()
            invariant
                i <= self.nodes@.len(),
                v@.len() == i,
                forall|j: int| 0 <= j < i ==> (#[trigger] v@[j]).deep_view() == nodes_table(self@)[j],
            decreases self.nodes@.len() - i,
        {
            v.push(cells_of(&self.nodes[i]));
            i = i + 1;
        }
        assert(v.deep_view() =~= nodes_table(self@));
        v
    }

    /// The title of the nodes pane.
    pub fn nodes_title(&self) -> (r: String)
        ensures
            r@ == " Nodes ("@ + dec(self@.nodes.len()) + ") "@,
    {
        cat3(" Nodes (", dec_u64(self.nodes.len() as u64).as_str(), ") ")
    }
}

// ---- the dialog --------------------------------------------------------------------

pub open spec fn shell_title(s: DashboardV) -> Seq<char> {
    if s.shell_node < s.nodes.len() {
        let n = s.nodes[s.shell_node as int];
        " Shell: "@ + or_sign(n.name, addr_text(n.addr)) + " ‹"@ + dec((s.shell_node + 1) as nat)
            + "/"@ + dec(s.nodes.len()) + "› "@
    } else {
        " Shell (no nodes) "@
    }
}

/// One line of a dialog.
pub open spec fn dialog_row(l: DialogLineV) -> Seq<SpanV> {
    match l {
        DialogLineV::Sent(t) => seq![span("> "@, fg_style(Color::DarkGray))] + command_spans(t, true),
        DialogLineV::Text(t) => response_spans(t),
        DialogLineV::Failed(e) => row("✖ "@ + e, fg_style(Color::Red)),
        DialogLineV::Done(r) => if r == 0 {
            row("✓"@, fg_style(Color::Green))
        } else {
            row("✖ result "@ + dec(r as nat), fg_style(Color::Red))
        },
    }
}

/// One command that is still pending.
pub open spec fn pending_row(p: PendingEntryV) -> Seq<SpanV> {
    row(
        "⌛ "@ + p.line + " (ref "@ + dec(p.item as nat) + " — p→Del dequeues)"@,
        Style { dim: true, ..fg_style(Color::Yellow) },
    )
}

/// The line that is being typed.
pub open spec fn prompt_row(line: Seq<char>) -> Seq<SpanV> {
    seq![
        span("> "@, fg_style(Color::Cyan)),
        span(line, plain_style()),
        span(" "@, Style { reversed: true, ..plain_style() }),
    ]
}

pub open spec fn dialog_rows(lines: Seq<DialogLineV>) -> Seq<Seq<SpanV>> {
    Seq::new(lines.len(), |i: int| dialog_row(lines[i]))
}

pub open spec fn pending_rows(queue: Seq<PendingEntryV>) -> Seq<Seq<SpanV>> {
    Seq::new(queue.len(), |i: int| pending_row(queue[i]))
}

/// All rows of the dialog: what was said, what is pending, and the prompt.
pub open spec fn shell_rows(s: DashboardV) -> Seq<Seq<SpanV>> {
    if s.shell_node < s.nodes.len() {
        let addr = s.nodes[s.shell_node as int].addr;
        (dialog_rows(dialog_of(s, addr)) + pending_rows(
            crate::dashboard_keys::queue_of(s, addr),
        )).push(prompt_row(s.line))
    } else {
        seq![plain_row("pair a node first — F2 opens the pairing window"@)]
    }
}

/// The last `height` of some rows.
pub open spec fn tail<T>(rows: Seq<T>, height: nat) -> Seq<T> {
    if rows.len() > height {
        rows.skip(rows.len() - height)
    } else {
        rows
    }
}

fn show_dialog_line(l: &DialogLine) -> (r: Vec<Span>)
    ensures
        r.deep_view() == dialog_row(l.deep_view()),
{
    match l {
        DialogLine::Sent(t) => {
            let mut v = row_of("> ", Style::fg(Color::DarkGray));
            let ghost head = v.deep_view();
            let mut rest = command(t.as_str());
            let ghost more = rest.deep_view();
            v.append(&mut rest);
            assert(v.deep_view() =~= head + more);
            v
        },
        DialogLine::Text(t) => response(t.as_str()),
        DialogLine::Failed(e) => row_of(cat2("✖ ", e.as_str()).as_str(), Style::fg(Color::Red)),
        DialogLine::Done(code) => if *code == 0 {
            row_of("✓", Style::fg(Color::Green))
        } else {
            row_of(
                cat2("✖ result ", dec_u64(*code as u64).as_str()).as_str(),
                Style::fg(Color::Red),
            )
        },
    }
}

fn show_pending_line(p: &PendingEntry) -> (r: Vec<Span>)
    ensures
        r.deep_view() == pending_row(p.deep_view()),
{
    let mut style = Style::fg(Color::Yellow);
    style.dim = true;
    row_of(
        cat5(
            "⌛ ",
            p.line.as_str(),
            " (ref ",
            dec_u64(p.item as u64).as_str(),
            " — p→Del dequeues)",
        ).as_str(),
        style,
    )
}

fn show_prompt(line: &str) -> (r: Vec<Span>)
    ensures
        r.deep_view() == prompt_row(line@),
{
    let mut reversed = Style::plain();
    reversed.reversed = true;
    let mut v: Vec<Span> = Vec::new();
    v.push(Span { text: "> ".to_owned(), style: Style::fg(Color::Cyan) });
    v.push(Span { text: line.to_owned(), style: Style::plain() });
    v.push(Span { text: " ".to_owned(), style: reversed });
    assert(v.deep_view() =~= prompt_row(line@));
    v
}

/// Keeps the last `height` rows.
fn keep_tail(rows: Vec<Vec<Span>>, height: usize) -> (r: Vec<Vec<Span>>)
    ensures
        r.deep_view() == tail(rows.deep_view(), height as nat),
{
    let mut all = rows;
    let n: usize = all.len();
    if n > height {
        let ghost before = all@;
        let r = all.split_off(n - height);
        assert(r.deep_view() =~= tail(rows.deep_view(), height as nat));
        r
    } else {
        all
    }
}

impl Dashboard {
    /// The title of the dialog.
    pub fn render_shell_title(&self) -> (r: String)
        ensures
            r@ == shell_title(self@),
    {
        let total: usize = self.nodes.len();
        if self.shell_node < total {
            let n = &self.nodes[self.shell_node];
            let hex = node_hex(n.addr);
            let who = text_or(&n.name, hex.as_str());
            cat7(
                " Shell: ",
                who.as_str(),
                " ‹",
                dec_u64((self.shell_node + 1) as u64).as_str(),
                "/",
                dec_u64(total as u64).as_str(),
                "› ",
            )
        } else {
            " Shell (no nodes) ".to_owned()
        }
    }

    fn push_dialog(&self, rows: &mut Vec<Vec<Span>>, addr: u32)
        ensures
            final(rows).deep_view() == old(rows).deep_view() + dialog_rows(dialog_of(self@, addr)),
    {
        broadcast use vstd::std_specs::hash::group_hash_axioms;

        let ghost start = rows.deep_view();
        let ghost all = dialog_rows(dialog_of(self@, addr));
        match self.dialogs.get(&addr) {
            None => {
                assert(rows.deep_view() =~= start + all);
            },
            Some(d) => {
                assert(dialog_of(self@, addr) == deep(d@));
                let mut i: usize = 0;
                assert(rows.deep_view() =~= start + all.take(0));
                while i < d.len()
                    invariant
                        i <= d@.len(),
                        all == dialog_rows(deep(d@)),
                        rows.deep_view() == start + all.take(i as int),
                    decreases d@.len() - i,
                {
                    push_deep(rows, show_dialog_line(&d[i]));
                    assert(rows.deep_view() =~= start + all.take(i + 1));
                    i = i + 1;
                }
                assert(all.take(i as int) =~= all);
            },
        }
    }

    fn push_queue(&self, rows: &mut Vec<Vec<Span>>, addr: u32)
        ensures
            final(rows).deep_view() == old(rows).deep_view() + pending_rows(
                crate::dashboard_keys::queue_of(self@, addr),
            ),
    {
        let ghost start = rows.deep_view();
        let ghost all = pending_rows(crate::dashboard_keys::queue_of(self@, addr));
        match crate::dashboard::position_of(&self.nodes, addr) {
            None => {
                assert(rows.deep_view() =~= start + all);
            },
            Some(k) => {
                let list = &self.nodes[k].pending;
                let mut i: usize = 0;
                assert(rows.deep_view() =~= start + all.take(0));
                while i < list.len()
                    invariant
                        i <= list@.len(),
                        all == pending_rows(list.deep_view()),
                        rows.deep_view() == start + all.take(i as int),
                    decreases list@.len() - i,
                {
                    push_deep(rows, show_pending_line(&list[i]));
                    assert(rows.deep_view() =~= start + all.take(i + 1));
                    i = i + 1;
                }
                assert(all.take(i as int) =~= all);
            },
        }
    }

    /// The rows of the dialog that fit into `inner_h`: the last ones.
    pub fn render_shell(&self, inner_h: usize) -> (r: Vec<Vec<Span>>)
        ensures
            r.deep_view() == tail(shell_rows(self@), inner_h as nat),
    {
        let mut rows: Vec<Vec<Span>> = Vec::new();
        assert(rows.deep_view() =~= Seq::<Seq<SpanV>>::empty());
        if self.shell_node < self.nodes.len() {
            let addr = self.nodes[self.shell_node].addr;
            self.push_dialog(&mut rows, addr);
            self.push_queue(&mut rows, addr);
            push_deep(&mut rows, show_prompt(self.line.as_str()));
        } else {
            push_deep(
                &mut rows,
                row_of("pair a node first — F2 opens the pairing window", Style::plain()),
            );
        }
        assert(rows.deep_view() =~= shell_rows(self@));
        keep_tail(rows, inner_h)
    }
}

// ---- the message feed --------------------------------------------------------------

/// The topic as it is shown: without the prefix.
pub open spec fn short_topic(prefix: Seq<char>, topic: Seq<char>) -> Seq<char> {
    match behind(topic, prefix) {
        Some(rest) => rest,
        None => topic,
    }
}

/// One message: direction, topic, whether it is retained, and the payload.
pub open spec fn message_row(prefix: Seq<char>, m: MqttMsgV) -> Seq<SpanV> {
    let arrow = match m.dir {
        MqttDir::Out => span("▲ "@, fg_style(Color::Cyan)),
        MqttDir::In => span("▼ "@, bold_fg(Color::Magenta)),
    };
    let a = seq![
        arrow,
        span(short_topic(prefix, m.topic), Style { bold: true, ..plain_style() }),
    ];
    let b = if m.retain {
        a.push(span(" ®"@, fg_style(Color::DarkGray)))
    } else {
        a
    };
    b.push(span(" "@, plain_style())) + payload_spans(m.payload)
}

/// The message is shown: all are, unless only those of a node are wanted.
pub open spec fn wanted(s: DashboardV, m: MqttMsgV) -> bool {
    match s.mqtt_filter {
        None => true,
        Some(n) => topic_node(s.prefix, m.topic) == Some(n),
    }
}

/// Those of the first `k` messages that are shown.
pub open spec fn wanted_messages(s: DashboardV, k: nat) -> Seq<MqttMsgV>
    decreases k,
{
    if k == 0 {
        Seq::empty()
    } else {
        let before = wanted_messages(s, (k - 1) as nat);
        if wanted(s, s.mqtt[k - 1]) {
            before.push(s.mqtt[k - 1])
        } else {
            before
        }
    }
}

/// What of `len` lines is in view: `height` of them, `scroll` lines up from the end.
pub open spec fn in_view(len: nat, scroll: nat, height: nat) -> (int, int) {
    let end = if len >= scroll {
        len - scroll
    } else {
        0
    };
    let start = if end >= height {
        end - height
    } else {
        0
    };
    (start, end)
}

fn view_of(len: usize, scroll: usize, height: usize) -> (r: (usize, usize))
    ensures
        (r.0 as int, r.1 as int) == in_view(len as nat, scroll as nat, height as nat),
        r.0 <= r.1 <= len,
{
    let end: usize = len.saturating_sub(scroll);
    let start: usize = end.saturating_sub(height);
    (start, end)
}

pub open spec fn feed_rows(s: DashboardV, height: nat) -> Seq<Seq<SpanV>> {
    let shown = wanted_messages(s, s.mqtt.len());
    let (start, end) = in_view(shown.len(), s.mqtt_scroll as nat, height);
    Seq::new((end - start) as nat, |i: int| message_row(s.prefix, shown[start + i]))
}

pub open spec fn paused_note(paused: bool) -> Seq<char> {
    if paused {
        " (paused)"@
    } else {
        ""@
    }
}

pub open spec fn feed_title(s: DashboardV) -> Seq<char> {
    match s.mqtt_filter {
        Some(n) => " MQTT ▶ "@ + addr_text(n) + " · "@ + dec(
            wanted_messages(s, s.mqtt.len()).len(),
        ) + "/"@ + dec(s.mqtt.len()) + " msgs"@ + paused_note(s.paused) + " — F7 = all "@,
        None => " MQTT · "@ + dec(s.mqtt.len()) + " msgs"@ + paused_note(s.paused)
            + " — F7 = filter node "@,
    }
}

/// One message of the feed.
pub fn mqtt_line(prefix: &str, m: &MqttMsg) -> (r: Vec<Span>)
    ensures
        r.deep_view() == message_row(prefix@, m.deep_view()),
{
    let mut bold = Style::plain();
    bold.bold = true;
    let topic = match strip_prefix(m.topic.as_str(), prefix) {
        Some(rest) => rest,
        None => m.topic.as_str(),
    };
    let mut v: Vec<Span> = Vec::new();
    v.push(
        match m.dir {
            MqttDir::Out => Span { text: "▲ ".to_owned(), style: Style::fg(Color::Cyan) },
            MqttDir::In => Span { text: "▼ ".to_owned(), style: Style::bold(Color::Magenta) },
        },
    );
    v.push(Span { text: topic.to_owned(), style: bold });
    let ghost a = v.deep_view();
    assert(a =~= seq![
        match m.dir {
            MqttDir::Out => span("▲ "@, fg_style(Color::Cyan)),
            MqttDir::In => span("▼ "@, bold_fg(Color::Magenta)),
        },
        span(short_topic(prefix@, m.topic@), Style { bold: true, ..plain_style() }),
    ]);
    if m.retain {
        push_deep(&mut v, Span { text: " ®".to_owned(), style: Style::fg(Color::DarkGray) });
    }
    push_deep(&mut v, Span { text: " ".to_owned(), style: Style::plain() });
    let ghost head = v.deep_view();
    let mut rest = json_spans(m.payload.as_slice());
    let ghost more = rest.deep_view();
    v.append(&mut rest);
    assert(v.deep_view() =~= head + more);
    v
}

fn note_of(paused: bool) -> (r: &'static str)
    ensures
        r@ == paused_note(paused),
{
    if paused {
        " (paused)"
    } else {
        ""
    }
}

impl Dashboard {
    fn is_wanted(&self, m: &MqttMsg) -> (r: bool)
        ensures
            r == wanted(self@, m.deep_view()),
    {
        match self.mqtt_filter {
            None => true,
            Some(n) => match node_of(self.prefix.as_str(), m.topic.as_str()) {
                Some(a) => a == n,
                None => false,
            },
        }
    }

    /// The places of the messages that are shown.
    fn shown(&self) -> (r: Vec<usize>)
        ensures
            r@.len() == wanted_messages(self@, self@.mqtt.len()).len(),
            forall|j: int|
                0 <= j < r@.len() ==> (#[trigger] r@[j]) < self.mqtt@.len() && wanted_messages(
                    self@,
                    self@.mqtt.len(),
                )[j] == self@.mqtt[r@[j] as int],
    {
        let mut v: Vec<usize> = Vec::new();
        let mut i: usize = 0;
        while i < self.mqtt.len()
            invariant
                i <= self.mqtt@.len(),
                v@.len() == wanted_messages(self@, i as nat).len(),
                forall|j: int|
                    0 <= j < v@.len() ==> (#[trigger] v@[j]) < self.mqtt@.len() && wanted_messages(
                        self@,
                        i as nat,
                    )[j] == self@.mqtt[v@[j] as int],
            decreases self.mqtt@.len() - i,
        {
            if self.is_wanted(&self.mqtt[i]) {
                v.push(i);
            }
            i = i + 1;
        }
        v
    }

    /// The messages of the feed that fit into `inner_h`.
    pub fn render_mqtt(&self, inner_h: usize) -> (r: Vec<Vec<Span>>)
        ensures
            r.deep_view() == feed_rows(self@, inner_h as nat),
    {
        let places = self.shown();
        let (start, end) = view_of(places.len(), self.mqtt_scroll, inner_h);
        let mut v: Vec<Vec<Span>> = Vec::new();
        let mut i: usize = start;
        while i < end
            invariant
                start <= i <= end <= places@.len(),
                places@.len() == wanted_messages(self@, self@.mqtt.len()).len(),
                forall|j: int|
                    0 <= j < places@.len() ==> (#[trigger] places@[j]) < self.mqtt@.len()
                        && wanted_messages(self@, self@.mqtt.len())[j]
                        == self@.mqtt[places@[j] as int],
                (start as int, end as int) == in_view(
                    places@.len(),
                    self@.mqtt_scroll as nat,
                    inner_h as nat,
                ),
                v@.len() == i - start,
                forall|j: int|
                    0 <= j < i - start ==> (#[trigger] v@[j]).deep_view() == feed_rows(
                        self@,
                        inner_h as nat,
                    )[j],
            decreases end - i,
        {
            let k: usize = places[i];
            v.push(mqtt_line(self.prefix.as_str(), &self.mqtt[k]));
            i = i + 1;
        }
        assert(v.deep_view() =~= feed_rows(self@, inner_h as nat));
        v
    }

    /// The title of the feed.
    pub fn mqtt_title(&self) -> (r: String)
        ensures
            r@ == feed_title(self@),
    {
        let total = dec_u64(self.mqtt.len() as u64);
        match self.mqtt_filter {
            Some(n) => {
                let count = self.shown().len();
                let head = cat6(
                    " MQTT ▶ ",
                    node_hex(n).as_str(),
                    " · ",
                    dec_u64(count as u64).as_str(),
                    "/",
                    total.as_str(),
                );
                cat4(head.as_str(), " msgs", note_of(self.paused), " — F7 = all ")
            },
            None => cat5(
                " MQTT · ",
                total.as_str(),
                " msgs",
                note_of(self.paused),
                " — F7 = filter node ",
            ),
        }
    }
}

// ---- the log -----------------------------------------------------------------------

/// One line of the log; errors and warnings stand out.
pub open spec fn log_row(line: Seq<char>) -> Seq<SpanV> {
    row(
        line,
        if occurs(line, "ERROR"@) {
            fg_style(Color::Red)
        } else if occurs(line, "WARN"@) {
            fg_style(Color::Yellow)
        } else {
            plain_style()
        },
    )
}

pub open spec fn log_rows(s: DashboardV, height: nat) -> Seq<Seq<SpanV>> {
    let (start, end) = in_view(s.log.len(), s.log_scroll as nat, height);
    Seq::new((end - start) as nat, |i: int| log_row(s.log[start + i]))
}

fn show_log_line(line: &str) -> (r: Vec<Span>)
    ensures
        r.deep_view() == log_row(line@),
{
    let style = if contains(line, "ERROR") {
        Style::fg(Color::Red)
    } else if contains(line, "WARN") {
        Style::fg(Color::Yellow)
    } else {
        Style::plain()
    };
    row_of(line, style)
}

impl Dashboard {
    /// The lines of the log that fit into `inner_h`.
    pub fn render_log(&self, inner_h: usize) -> (r: Vec<Vec<Span>>)
        ensures
            r.deep_view() == log_rows(self@, inner_h as nat),
    {
        let (start, end) = view_of(self.log.len(), self.log_scroll, inner_h);
        let mut v: Vec<Vec<Span>> = Vec::new();
        let mut i: usize = start;
        while i < end
            invariant
                start <= i <= end <= self.log@.len(),
                (start as int, end as int) == in_view(
                    self@.log.len(),
                    self@.log_scroll as nat,
                    inner_h as nat,
                ),
                v@.len() == i - start,
                forall|j: int|
                    0 <= j < i - start ==> (#[trigger] v@[j]).deep_view() == log_rows(
                        self@,
                        inner_h as nat,
                    )[j],
            decreases end - i,
        {
            v.push(show_log_line(self.log[i].as_str()));
            i = i + 1;
        }
        assert(v.deep_view() =~= log_rows(self@, inner_h as nat));
        v
    }

    /// The title of the log.
    pub fn log_title(&self) -> (r: &'static str)
        ensures
            r@ == if self@.paused {
                " Gateway Log (paused) "@
            } else {
                " Gateway Log "@
            },
    {
        if self.paused {
            " Gateway Log (paused) "
        } else {
            " Gateway Log "
        }
    }
}

// ---- laws --------------------------------------------------------------------------

proof fn lemma_all_wanted(s: DashboardV, k: nat)
    requires
        s.mqtt_filter is None,
        k <= s.mqtt.len(),
    ensures
        wanted_messages(s, k) == s.mqtt.take(k as int),
    decreases k,
{
    if k > 0 {
        lemma_all_wanted(s, (k - 1) as nat);
        assert(s.mqtt.take(k as int) =~= s.mqtt.take(k - 1).push(s.mqtt[k - 1]));
    } else {
        assert(s.mqtt.take(0) =~= Seq::<MqttMsgV>::empty());
    }
}

/// Without a filter every message is shown.
pub proof fn law_unfiltered_feed_is_whole(s: DashboardV)
    requires
        s.mqtt_filter is None,
    ensures
        wanted_messages(s, s.mqtt.len()) == s.mqtt,
{
    lemma_all_wanted(s, s.mqtt.len());
    assert(s.mqtt.take(s.mqtt.len() as int) =~= s.mqtt);
}

proof fn lemma_wanted_only(s: DashboardV, k: nat)
    requires
        k <= s.mqtt.len(),
    ensures
        forall|i: int|
            0 <= i < wanted_messages(s, k).len() ==> wanted(s, #[trigger] wanted_messages(s, k)[i]),
    decreases k,
{
    if k > 0 {
        lemma_wanted_only(s, (k - 1) as nat);
        let before = wanted_messages(s, (k - 1) as nat);
        let now = wanted_messages(s, k);
        assert forall|i: int| 0 <= i < now.len() implies wanted(s, #[trigger] now[i]) by {
            if i < before.len() {
                assert(now[i] == before[i]);
            }
        }
    }
}

/// With a filter only messages of that node are shown.
pub proof fn law_filtered_feed_is_the_nodes(s: DashboardV, node: u32)
    requires
        s.mqtt_filter == Some(node),
    ensures
        forall|i: int|
            0 <= i < wanted_messages(s, s.mqtt.len()).len() ==> topic_node(
                s.prefix,
                (#[trigger] wanted_messages(s, s.mqtt.len())[i]).topic,
            ) == Some(node),
{
    lemma_wanted_only(s, s.mqtt.len());
}

} // verus!

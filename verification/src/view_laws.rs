//! What stands on the screens: every text, mark and colour, said of what is shown.

use crate::chart::{
    bar, bar_count, bars, chart_title, clamped, is_chart, level_of, mark_points, slots, Chart, Level,
};
use crate::console::{ConsoleV, Pane};
use crate::console_view;
use crate::console_view::{diagnostics, is_window, pane_lines, tail_rows, Window};
use crate::dashboard::{DashboardV, DialogLineV, ModalV, PaneZones};
use crate::dashboard_event_laws::dialog;
use crate::dashboard_modal::{has_middle, middle, modal_height, panel, PanelV};
use crate::dashboard_view;
use crate::dashboard_view::{
    chip_spans, chip_start, chip_zones, chips, dialog_row, feed_rows, feed_title, in_view, log_row,
    log_rows, message_row, node_cells, nodes_table, pending_row, prompt_row, shell_rows, shell_title,
    tail, wanted, wanted_messages, ChipV,
};
use crate::engine_state::{MqttDir, MqttMsgV, NodeViewV};
use crate::highlight::{command_spans, response_spans};
use crate::json_view::payload_spans;
use crate::layout::{areas_in, placed, share, zones_in, ConsoleAreas, PanePlace};
use crate::payload::PendingEntryV;
use crate::style::{Color, Key, Rect, SpanV, Style};
use crate::text::{dec, dec_int, join, occurs};
use crate::topics::{addr_text, topic_node};
use vstd::prelude::*;

verus! {

/// No colour, no weight.
pub open spec fn bare() -> Style {
    Style { fg: None, bg: None, bold: false, dim: false, italic: false, reversed: false }
}

/// In a colour.
pub open spec fn ink(c: Color) -> Style {
    Style { fg: Some(c), ..bare() }
}

/// In a colour, bold.
pub open spec fn strong(c: Color) -> Style {
    Style { fg: Some(c), bold: true, ..bare() }
}

/// In one colour on another.
pub open spec fn ink_on(c: Color, ground: Color) -> Style {
    Style { fg: Some(c), bg: Some(ground), ..bare() }
}

/// A piece of a row.
pub open spec fn piece(text: Seq<char>, style: Style) -> SpanV {
    SpanV { text, style }
}

/// A row of one piece.
pub open spec fn single(text: Seq<char>, style: Style) -> Seq<SpanV> {
    seq![piece(text, style)]
}

/// A row of one piece without a style.
pub open spec fn line(text: Seq<char>) -> Seq<SpanV> {
    single(text, bare())
}

// ---- the console -------------------------------------------------------------------

/// The numbers of what went wrong, in the order in which they are told.
pub proof fn law_diagnostics(s: ConsoleV)
    ensures
        s.decode_failures == 0 && s.seq_gaps == 0 && s.payload_errors == 0 <==> diagnostics(s)
            is None,
        s.decode_failures == 1 && s.seq_gaps == 0 && s.payload_errors == 0 && s.mismatch_got is None
            ==> diagnostics(s) == Some("✖ "@ + (dec(1) + " bad frame"@ + ""@)),
        s.decode_failures > 1 && s.seq_gaps == 0 && s.payload_errors == 0 && s.mismatch_got is None
            ==> diagnostics(s) == Some(
            "✖ "@ + (dec(s.decode_failures as nat) + " bad frame"@ + "s"@),
        ),
        s.mismatch_got matches Some(v) ==> s.decode_failures > 1 && s.seq_gaps == 0
            && s.payload_errors == 0 ==> diagnostics(s) == Some(
            "✖ "@ + (dec(s.decode_failures as nat) + " bad frame"@ + "s"@ + " (v"@ + dec(v as nat)
                + "?)"@),
        ),
        s.decode_failures == 0 && s.seq_gaps > 1 && s.payload_errors == 0 ==> diagnostics(s) == Some(
            "✖ "@ + (dec(s.seq_gaps as nat) + " seq gap"@ + "s"@),
        ),
        s.decode_failures == 0 && s.seq_gaps == 0 && s.payload_errors > 1 ==> diagnostics(s) == Some(
            "✖ "@ + (dec(s.payload_errors as nat) + " payload err"@ + "s"@),
        ),
        s.decode_failures > 1 && s.seq_gaps > 1 && s.payload_errors > 1 && s.mismatch_got is None
            ==> diagnostics(s) == Some(
            "✖ "@ + join(
                seq![
                    dec(s.decode_failures as nat) + " bad frame"@ + "s"@,
                    dec(s.seq_gaps as nat) + " seq gap"@ + "s"@,
                    dec(s.payload_errors as nat) + " payload err"@ + "s"@,
                ],
                " · "@,
            ),
        ),
{
    reveal_with_fuel(join, 2);
    let parts = crate::console_view::diagnostic_parts(s);
    if s.decode_failures > 1 && s.seq_gaps > 1 && s.payload_errors > 1 && s.mismatch_got is None {
        assert(parts =~= seq![
            dec(s.decode_failures as nat) + " bad frame"@ + "s"@,
            dec(s.seq_gaps as nat) + " seq gap"@ + "s"@,
            dec(s.payload_errors as nat) + " payload err"@ + "s"@,
        ]);
    }
}

/// The first row says which port is open and whether it is there, why not, and what went
/// wrong.
pub proof fn law_the_header_of_the_console(s: ConsoleV, version: Seq<char>)
    ensures
        ({
            let h = console_view::header(s, version);
            let name = piece(
                " HARDWARIO TOWER Console v"@ + version + " — "@ + s.port_name + " "@,
                ink_on(Color::Black, Color::Gray),
            );
            let there = if s.connected {
                seq![name, piece("●"@, ink_on(Color::Green, Color::Gray))]
            } else {
                let gone = seq![name, piece("○ reconnecting…"@, ink_on(Color::Black, Color::Gray))];
                match s.last_open_error {
                    Some(e) => gone.push(
                        piece("  "@ + s.port_name + ": "@ + e, ink_on(Color::Red, Color::Gray)),
                    ),
                    None => gone,
                }
            };
            h == match diagnostics(s) {
                Some(d) => there.push(
                    piece("  "@ + d, Style { bold: true, ..ink_on(Color::Red, Color::Gray) }),
                ),
                None => there,
            }
        }),
{
}

/// The last row names the keys, lights what is on, and shows a hint.
pub proof fn law_the_footer_of_the_console(s: ConsoleV)
    ensures
        ({
            let lamp = |b: bool|
                ink_on(
                    if b {
                        Color::Yellow
                    } else {
                        Color::Black
                    },
                    Color::Gray,
                );
            console_view::footer(s) == seq![
                piece(" Shift-Tab Focus  "@, bare()),
                piece("F3 Zoom"@, lamp(s.zoom)),
                piece("  "@, bare()),
                piece("F5 Pause"@, lamp(s.paused)),
                piece("  F8 Clear  F10/^C Quit   "@, bare()),
                piece(
                    if s.hint.len() == 0 {
                        ""@
                    } else {
                        "["@ + s.hint + "] "@
                    },
                    bare(),
                ),
            ]
        }),
{
}

/// A pane shows its lines from the first one on, the logs in their colours.
pub proof fn law_panes_show_their_lines(s: ConsoleV, first: int, i: int)
    requires
        0 <= first && 0 <= i,
    ensures
        first + i < s.logs.len() ==> pane_lines(s, Pane::Logs, first)[i] == single(
            s.logs[first + i].0,
            ink(s.logs[first + i].1),
        ),
        first + i < s.events.len() ==> pane_lines(s, Pane::Events, first)[i] == line(
            s.events[first + i],
        ),
        first + i < s.responses.len() ==> pane_lines(s, Pane::Responses, first)[i] == line(
            s.responses[first + i],
        ),
        first <= s.logs.len() ==> pane_lines(s, Pane::Logs, first).len() == s.logs.len() - first,
        first <= s.events.len() ==> pane_lines(s, Pane::Events, first).len() == s.events.len() - first,
        first <= s.responses.len() ==> pane_lines(s, Pane::Responses, first).len()
            == s.responses.len() - first,
{
}

// ---- the gateway's frontend --------------------------------------------------------

/// The first row says which port and which prefix, whether both links are up, and how long
/// a pairing window stays open.
pub proof fn law_the_header_of_the_frontend(s: DashboardV, left: u64)
    ensures
        ({
            let ground = ink_on(Color::Black, Color::Gray);
            let lamp = |up: bool|
                piece(
                    "●"@,
                    ink(
                        if up {
                            Color::Green
                        } else {
                            Color::Red
                        },
                    ),
                );
            let row = seq![
                piece(" HARDWARIO TOWER Gateway "@, Style { bold: true, ..ground }),
                piece(s.port + " "@, ground),
                lamp(s.serial_up),
                piece(" serial  "@, ground),
                lamp(s.mqtt_up),
                piece(" mqtt  prefix "@ + s.prefix, ground),
            ];
            &&& !(s.pairing matches Some(p) && p.state == "open"@) ==> dashboard_view::header(s)
                == row
            &&& s.pairing matches Some(p) ==> p.state == "open"@ && p.remaining_s == Some(left)
                ==> dashboard_view::header(s) == row.push(
                piece(
                    "  PAIRING "@ + dec(left as nat) + "s "@,
                    Style { bold: true, ..ink_on(Color::Black, Color::Yellow) },
                ),
            )
        }),
{
}

/// A button that is not a switch.
pub open spec fn button(label: Seq<char>, key: Key) -> ChipV {
    ChipV { label, active: false, key }
}

/// The buttons, each with its key, lit where what it switches is on.
pub proof fn law_the_buttons(s: DashboardV)
    ensures
        chips(s) == seq![
            button(" [Shift-]F1 Focus "@, Key::F(1)),
            (ChipV {
                label: " F2 Pair "@,
                active: s.pairing matches Some(p) && p.state == "open"@,
                key: Key::F(2),
            }),
            (ChipV { label: " F3 Zoom "@, active: s.zoom, key: Key::F(3) }),
            button(" F4 Key "@, Key::F(4)),
            (ChipV { label: " F5 Pause "@, active: s.paused, key: Key::F(5) }),
            button(" F6 Rename "@, Key::F(6)),
            button(" Del Remove "@, Key::Delete),
            button(" p Pending "@, Key::Char('p')),
            (ChipV { label: " F7 Filter "@, active: s.mqtt_filter is Some, key: Key::F(7) }),
            button(" F8 Clear "@, Key::F(8)),
            (ChipV { label: " F9 Mouse "@, active: s.mouse, key: Key::F(9) }),
            button(" F10 Quit "@, Key::F(10)),
        ],
{
}

/// What the table says of a node.
pub proof fn law_nodes_are_tabled(n: NodeViewV)
    ensures
        ({
            let c = node_cells(n);
            &&& c.len() == 7
            &&& c[0] == addr_text(n.addr)
            &&& n.name.len() > 0 ==> c[1] == n.name
            &&& n.name.len() == 0 ==> c[1] == "—"@
            &&& n.kind.len() > 0 ==> c[2] == n.kind
            &&& n.kind.len() == 0 ==> c[2] == "?"@
            &&& n.last_seen_s matches Some(s) ==> c[3] == dec(s as nat) + "s"@
            &&& n.last_seen_s is None ==> c[3] == "never"@
            &&& n.rssi_dbm matches Some(r) ==> c[4] == dec_int(r as int)
            &&& n.rssi_dbm is None ==> c[4] == "—"@
            &&& n.pending.len() == 0 ==> c[5] == "—"@
            &&& n.pending.len() > 0 ==> c[5] == "⌛"@ + dec(n.pending.len())
            &&& n.sleeping ==> c[6] == "●"@
            &&& !n.sleeping ==> c[6] == "○"@
        }),
{
}

/// What the dialog shows of a line, an answer, a failure and a result; of a line that waits;
/// and of the one that is typed.
pub proof fn law_dialogs_are_shown(t: Seq<char>, r: u8, p: PendingEntryV)
    ensures
        dialog_row(DialogLineV::Sent(t)) == seq![piece("> "@, ink(Color::DarkGray))] + command_spans(
            t,
            true,
        ),
        dialog_row(DialogLineV::Text(t)) == response_spans(t),
        dialog_row(DialogLineV::Failed(t)) == single("✖ "@ + t, ink(Color::Red)),
        dialog_row(DialogLineV::Done(0)) == single("✓"@, ink(Color::Green)),
        r != 0 ==> dialog_row(DialogLineV::Done(r)) == single(
            "✖ result "@ + dec(r as nat),
            ink(Color::Red),
        ),
        pending_row(p) == single(
            "⌛ "@ + p.line + " (ref "@ + dec(p.item as nat) + " — p→Del dequeues)"@,
            Style { dim: true, ..ink(Color::Yellow) },
        ),
        prompt_row(t) == seq![
            piece("> "@, ink(Color::Cyan)),
            piece(t, bare()),
            piece(" "@, Style { reversed: true, ..bare() }),
        ],
{
}

/// The shell shows the dialog with its node, the lines that wait for it and the line that is
/// typed, in this order, and names the node; without one it says how to get one.
pub proof fn law_the_shell_is_shown(s: DashboardV, i: int)
    ensures
        ({
            let rows = shell_rows(s);
            let node = s.nodes[s.shell_node as int];
            let told = dialog(s, node.addr);
            let waiting = crate::dashboard_keys::queue_of(s, node.addr);
            &&& s.shell_node >= s.nodes.len() ==> rows == seq![
                line("pair a node first — F2 opens the pairing window"@),
            ] && shell_title(s) == " Shell (no nodes) "@
            &&& s.shell_node < s.nodes.len() ==> {
                &&& rows.len() == told.len() + waiting.len() + 1
                &&& rows.last() == prompt_row(s.line)
                &&& 0 <= i < told.len() ==> rows[i] == dialog_row(told[i])
                &&& 0 <= i < waiting.len() ==> rows[told.len() + i] == pending_row(waiting[i])
                &&& shell_title(s) == " Shell: "@ + (if node.name.len() == 0 {
                    addr_text(node.addr)
                } else {
                    node.name
                }) + " ‹"@ + dec((s.shell_node + 1) as nat) + "/"@ + dec(s.nodes.len()) + "› "@
            }
        }),
{
}

/// A message is shown with its way, its topic behind the prefix, and all of its payload.
pub proof fn law_messages_are_shown(prefix: Seq<char>, rest: Seq<char>, m: MqttMsgV)
    requires
        m.topic == prefix + rest,
    ensures
        ({
            let head = seq![
                match m.dir {
                    MqttDir::Out => piece("▲ "@, ink(Color::Cyan)),
                    MqttDir::In => piece("▼ "@, strong(Color::Magenta)),
                },
                piece(rest, Style { bold: true, ..bare() }),
            ];
            &&& m.retain ==> message_row(prefix, m) == head.push(piece(" ®"@, ink(Color::DarkGray))).push(
                piece(" "@, bare()),
            ) + payload_spans(m.payload)
            &&& !m.retain ==> message_row(prefix, m) == head.push(piece(" "@, bare()))
                + payload_spans(m.payload)
        }),
{
    crate::text::lemma_behind(prefix, rest);
}

/// Without a filter all messages are shown, with one those of its node.
pub proof fn law_messages_are_filtered(s: DashboardV, m: MqttMsgV, n: u32)
    ensures
        s.mqtt_filter is None ==> wanted(s, m),
        s.mqtt_filter == Some(n) ==> (wanted(s, m) <==> topic_node(s.prefix, m.topic) == Some(n)),
        s.mqtt_filter is None && !s.paused ==> feed_title(s) == " MQTT · "@ + dec(s.mqtt.len())
            + " msgs"@ + ""@ + " — F7 = filter node "@,
        s.mqtt_filter is None && s.paused ==> feed_title(s) == " MQTT · "@ + dec(s.mqtt.len())
            + " msgs"@ + " (paused)"@ + " — F7 = filter node "@,
        s.mqtt_filter == Some(n) && !s.paused ==> feed_title(s) == " MQTT ▶ "@ + addr_text(n)
            + " · "@ + dec(wanted_messages(s, s.mqtt.len()).len()) + "/"@ + dec(
            s.mqtt.len(),
        ) + " msgs"@ + ""@ + " — F7 = all "@,
        s.mqtt_filter == Some(n) && s.paused ==> feed_title(s) == " MQTT ▶ "@ + addr_text(n)
            + " · "@ + dec(wanted_messages(s, s.mqtt.len()).len()) + "/"@ + dec(
            s.mqtt.len(),
        ) + " msgs"@ + " (paused)"@ + " — F7 = all "@,
{
}

/// The newest lines are in view, and scrolling moves the view by as many lines.
pub proof fn law_views_are_scrolled(len: nat, scroll: nat, height: nat)
    ensures
        ({
            let (start, end) = in_view(len, scroll, height);
            &&& scroll <= len ==> end == len - scroll
            &&& scroll > len ==> end == 0
            &&& end >= height ==> start == end - height
            &&& end < height ==> start == 0
        }),
{
}

/// The log is shown line by line, errors and warnings in their colours.
pub proof fn law_the_log_is_shown(s: DashboardV, height: nat, text: Seq<char>, i: int)
    ensures
        occurs(text, "ERROR"@) ==> log_row(text) == single(text, ink(Color::Red)),
        !occurs(text, "ERROR"@) && occurs(text, "WARN"@) ==> log_row(text) == single(
            text,
            ink(Color::Yellow),
        ),
        !occurs(text, "ERROR"@) && !occurs(text, "WARN"@) ==> log_row(text) == line(text),
        s.log_scroll == 0 && height <= s.log.len() && 0 <= i < height ==> log_rows(s, height)[i]
            == log_row(s.log[s.log.len() - height + i]),
        s.log_scroll == 0 && height > s.log.len() && 0 <= i < s.log.len() ==> log_rows(s, height)[i]
            == log_row(s.log[i]),
{
}

/// Only the last rows are shown where not all fit.
pub proof fn law_the_end_is_shown<T>(rows: Seq<T>, height: nat)
    ensures
        rows.len() <= height ==> tail(rows, height) == rows,
        rows.len() > height ==> tail(rows, height).len() == height && forall|i: int|
            0 <= i < height ==> #[trigger] tail(rows, height)[i] == rows[rows.len() - height + i],
{
}

// ---- the graph ---------------------------------------------------------------------

/// A reading is quiet up to -85 dBm, busy up to -70 dBm, and hot above; its bar stands from
/// the floor of the graph up to it, two columns wide.
pub proof fn law_bars_show_their_reading(back: int, dbm: i16, i: int)
    requires
        0 <= back <= 1000,
    ensures
        dbm <= -85 ==> level_of(dbm) == Level::Quiet,
        -85 < dbm <= -70 ==> level_of(dbm) == Level::Busy,
        dbm > -70 ==> level_of(dbm) == Level::Hot,
        -110 <= dbm <= -30 ==> clamped(dbm) == dbm,
        dbm < -110 ==> clamped(dbm) == -110,
        dbm > -30 ==> clamped(dbm) == -30,
        ({
            let n = clamped(dbm) + 111;
            &&& bar(back, dbm).len() == 2 * n
            &&& 0 <= i < n ==> bar(back, dbm)[i] == ((-3 * back) as i64, (i - 110) as i64)
            &&& 0 <= i < n ==> bar(back, dbm)[n + i] == ((-3 * back - 1) as i64, (i - 110) as i64)
        }),
{
}

/// The title of the graph says the last reading and its channel.
pub proof fn law_the_graph_is_titled(s: DashboardV, dbm: i16, channel: u8)
    ensures
        s.last_ambient == Some((dbm, channel)) && !s.paused ==> chart_title(s) == " Radio · "@
            + dec_int(dbm as int) + " dBm · ch "@ + dec(channel as nat) + ""@ + " "@,
        s.last_ambient == Some((dbm, channel)) && s.paused ==> chart_title(s) == " Radio · "@
            + dec_int(dbm as int) + " dBm · ch "@ + dec(channel as nat) + " (paused)"@ + " "@,
        s.last_ambient is None && !s.paused ==> chart_title(s) == " Radio"@ + ""@ + " "@,
        s.last_ambient is None && s.paused ==> chart_title(s) == " Radio"@ + " (paused)"@ + " "@,
{
}

// ---- windows -----------------------------------------------------------------------

/// What is asked before a node is removed or its key is shown.
pub proof fn law_questions(s: DashboardV, node: u32, now: u64)
    ensures
        panel(s, ModalV::ConfirmRemove(node), now) == (PanelV {
            title: " Remove node "@,
            rows: seq![
                line("Unpair "@ + addr_text(node) + "?"@),
                line("Its key, name and queued commands are forgotten."@),
                line(""@),
                line("Enter/y = remove   any other key = cancel"@),
            ],
        }),
        panel(s, ModalV::ConfirmReveal(node), now) == (PanelV {
            title: " Reveal AES key "@,
            rows: seq![
                line("Show "@ + addr_text(node) + "'s network key on screen?"@),
                line("Anyone reading this terminal can then impersonate the node."@),
                line(""@),
                line("Enter/y = reveal   any other key = cancel"@),
            ],
        }),
{
}

/// A key is shown with its node, and for how long.
pub proof fn law_the_key_is_shown(
    s: DashboardV,
    node: u32,
    key: Seq<char>,
    shown: u64,
    now: u64,
    left: nat,
)
    requires
        now < shown + 30_000 && now >= shown,
        left == 30 - (now - shown) / 1000,
    ensures
        panel(s, ModalV::Key { node, key, shown }, now) == (PanelV {
            title: " AES key (auto-hides in "@ + dec(left) + " s) "@,
            rows: seq![
                line("node "@ + addr_text(node)),
                single(key, strong(Color::Magenta)),
                line(""@),
                line("any key hides it"@),
            ],
        }),
{
}

/// The name that is typed stands in a field of its own.
pub proof fn law_the_name_is_shown(s: DashboardV, node: u32, buf: Seq<char>, now: u64)
    ensures
        ({
            let p = panel(s, ModalV::Rename { node, buf }, now);
            let field = ink_on(Color::White, Color::DarkGray);
            &&& p.title == " Rename node "@ && p.rows.len() == 5
            &&& p.rows[0] == line("New name for "@ + addr_text(node) + ":"@)
            &&& p.rows[2][2] == piece(buf, Style { bold: true, ..field })
            &&& p.rows[2][3] == piece(" "@, Style { reversed: true, ..field })
            &&& p.rows[2].len() == 5 && p.rows[2][4].text.len() + buf.len() == (if buf.len() <= 17 {
                17
            } else {
                buf.len()
            })
            &&& p.rows[4] == line("≤16 bytes — Enter = save, Esc = cancel"@)
        }),
{
}

/// A choice is marked where it is the selected one.
pub open spec fn option(text: Seq<char>, selected: bool) -> Seq<SpanV> {
    if selected {
        seq![piece("▸ "@, bare()), piece(text, strong(Color::Cyan))]
    } else {
        seq![piece("  "@, bare()), piece(text, bare())]
    }
}

/// The ways to pair, and the ports, as they are offered.
pub proof fn law_choices_are_offered(
    s: DashboardV,
    selected: usize,
    ports: Seq<Seq<char>>,
    now: u64,
    i: int,
)
    ensures
        ({
            let m = panel(s, ModalV::PairMenu { selected }, now);
            let p = panel(s, ModalV::PairPorts { ports, selected }, now);
            &&& m.title == " Pair a node "@ && m.rows.len() == 8
            &&& m.rows[0] == option("Start over-the-air pairing"@, selected == 0)
            &&& m.rows[2] == option("Catch the cable-connected device"@, selected == 1)
            &&& m.rows[4] == option("Pair with the existing device"@, selected == 2)
            &&& m.rows[1] == single(
                "    "@ + "60 s window — the node joins by holding its button"@,
                ink(Color::DarkGray),
            )
            &&& m.rows[3] == single(
                "    "@ + "plug the node in over USB; it pairs automatically"@,
                ink(Color::DarkGray),
            )
            &&& m.rows[5] == single(
                "    "@ + "pick the node's serial port from the list"@,
                ink(Color::DarkGray),
            )
            &&& m.rows[7] == line("↑/↓ select — Enter = run, Esc = close"@)
            &&& p.title == " Pair via serial port "@
            &&& ports.len() == 0 ==> p.rows.len() == 3 && p.rows[0] == line(
                "(no serial ports visible — plug the node in)"@,
            )
            &&& ports.len() > 0 ==> p.rows.len() == ports.len() + 2
            &&& 0 <= i < ports.len() ==> p.rows[i] == option(ports[i], i == selected)
            &&& p.rows.last() == line("↑/↓ select — Enter = pair, Esc = close"@)
        }),
{
}

/// A pairing over the cable shows its steps, and how it failed.
pub proof fn law_steps_are_shown(
    s: DashboardV,
    port: Seq<char>,
    lines: Seq<Seq<char>>,
    e: Seq<char>,
    now: u64,
    i: int,
)
    ensures
        ({
            let r = panel(s, ModalV::PairRun { port, lines, failed: None }, now);
            let f = panel(s, ModalV::PairRun { port, lines, failed: Some(e) }, now);
            &&& r.title == " Cable pairing "@ && f.title == " Cable pairing "@
            &&& r.rows.len() == lines.len() + 4 && f.rows.len() == lines.len() + 5
            &&& r.rows[0] == line("pairing over "@ + port + "…"@) && f.rows[0] == r.rows[0]
            &&& 0 <= i < lines.len() ==> r.rows[2 + i] == line("  "@ + lines[i]) && f.rows[2 + i]
                == r.rows[2 + i]
            &&& r.rows.last() == single("…"@, ink(Color::DarkGray))
            &&& f.rows[f.rows.len() - 2] == single("✖ "@ + e, ink(Color::Red))
            &&& f.rows.last() == line("any key closes"@)
        }),
{
}

/// A pairing over the air shows how long its window stays open; one by catching a port how
/// long it is waited for.
pub proof fn law_waiting_is_shown(
    s: DashboardV,
    opened_at: u64,
    seen_open: bool,
    left: u64,
    baseline: Seq<Seq<char>>,
    deadline: u64,
    now: u64,
)
    ensures
        ({
            let p = panel(s, ModalV::PairOta { opened_at, seen_open }, now);
            let c = panel(s, ModalV::PairCatch { baseline, deadline }, now);
            let seconds = |n: nat| piece(dec(n) + " s"@, strong(Color::Yellow));
            let open = s.pairing matches Some(w) && w.state == "open"@;
            &&& p.title == " OTA pairing "@ && p.rows.last() == line("Esc = cancel now"@)
            &&& s.pairing matches Some(w) ==> w.state == "open"@ && w.remaining_s == Some(left)
                ==> p.rows[0] == seq![
                piece("window open — "@, bare()),
                seconds(left as nat),
                piece(" left"@, bare()),
            ]
            &&& !open && !seen_open ==> p.rows[0] == line("opening the pairing window…"@)
            &&& !open && seen_open ==> p.rows[0] == line("window resolved"@)
            &&& c.title == " Catch cable device "@ && c.rows.len() == 6
            &&& now < deadline ==> c.rows[3] == seq![
                piece("watching for new ports… "@, bare()),
                seconds(((deadline - now) / 1000) as nat),
            ]
            &&& now >= deadline ==> c.rows[3] == seq![
                piece("watching for new ports… "@, bare()),
                seconds(0),
            ]
        }),
{
}

/// The lines that wait for a node, each with its number; and what is only told.
pub proof fn law_queues_are_shown(
    s: DashboardV,
    node: u32,
    selected: usize,
    now: u64,
    i: int,
    title: Seq<char>,
    text: Seq<char>,
)
    ensures
        ({
            let p = panel(s, ModalV::Pending { node, selected }, now);
            let queue = crate::dashboard_keys::queue_of(s, node);
            &&& p.title == " Queued for "@ + addr_text(node) + " "@
            &&& queue.len() == 0 ==> p.rows.len() == 3 && p.rows[0] == line("nothing queued"@)
            &&& queue.len() > 0 ==> p.rows.len() == queue.len() + 2
            &&& 0 <= i < queue.len() ==> p.rows[i] == single(
                "#"@ + dec(queue[i].item as nat) + " "@ + queue[i].line,
                if i == selected {
                    Style { bg: Some(Color::DarkGray), bold: true, ..bare() }
                } else {
                    bare()
                },
            )
            &&& p.rows.last() == line("↑/↓ select · Del = dequeue · Esc = close"@)
            &&& panel(s, ModalV::Info { title, text }, now) == (PanelV {
                title,
                rows: seq![line(text), line(""@), line("any key closes"@)],
            })
        }),
{
}

// ---- what is drawn where -----------------------------------------------------------

/// The newest reading is drawn rightmost, each one before it one bar further left, in the
/// colour of its level and in no other.
pub proof fn law_readings_are_drawn(ambient: Seq<i16>, level: Level, k: nat)
    requires
        k < ambient.len(),
    ensures
        bars(ambient, level, 0).len() == 0,
        ({
            let dbm = ambient[ambient.len() - 1 - k];
            &&& level_of(dbm) == level ==> bars(ambient, level, k + 1) == bars(ambient, level, k)
                + bar(k as int, dbm)
            &&& level_of(dbm) != level ==> bars(ambient, level, k + 1) == bars(ambient, level, k)
        }),
{
}

/// A mark is drawn over the reading of its time, two columns wide, where that is in view.
pub proof fn law_marks_are_drawn(marks: Seq<(u64, i16)>, newest: u64, count: nat, k: nat)
    requires
        k < marks.len(),
        count <= 1000,
    ensures
        mark_points(marks, newest, count, 0).len() == 0,
        ({
            let (seq, dbm) = marks[k as int];
            let before = mark_points(marks, newest, count, k);
            let now = mark_points(marks, newest, count, k + 1);
            let back = newest - seq;
            &&& 0 <= back < count ==> now == before.push(((-3 * back) as i64, dbm as i64)).push(
                ((-3 * back - 1) as i64, dbm as i64),
            )
            &&& !(0 <= back < count) ==> now == before
        }),
{
}

/// A graph has as many columns as there is room for within its border and its scale, and a
/// bar for every three of them.
pub proof fn law_the_graph_has_room(width: u16)
    ensures
        width >= 9 ==> slots(width, false) == width - 7,
        width < 9 ==> slots(width, false) == 2,
        width >= 7 ==> slots(width, true) == width - 5,
        width < 7 ==> slots(width, true) == 2,
        forall|n: nat| 3 * #[trigger] bar_count(n) <= n + 1 < 3 * bar_count(n) + 3,
{
}

/// The table has a row for every node, in the order of the registry.
pub proof fn law_every_node_is_tabled(s: DashboardV, i: int)
    requires
        0 <= i < s.nodes.len(),
    ensures
        nodes_table(s).len() == s.nodes.len(),
        nodes_table(s)[i] == node_cells(s.nodes[i]),
{
}

/// The feed shows the newest messages that are wanted, and further back where it is scrolled.
pub proof fn law_the_feed_is_shown(s: DashboardV, height: nat, i: int)
    ensures
        ({
            let shown = wanted_messages(s, s.mqtt.len());
            let rows = feed_rows(s, height);
            let end = shown.len() - s.mqtt_scroll;
            &&& s.mqtt_scroll <= shown.len() && height <= end ==> rows.len() == height && (0 <= i
                < height ==> rows[i] == message_row(s.prefix, shown[end - height + i]))
            &&& s.mqtt_scroll <= shown.len() && height > end ==> rows.len() == end && (0 <= i < end
                ==> rows[i] == message_row(s.prefix, shown[i]))
            &&& s.mqtt_scroll > shown.len() ==> rows.len() == 0
        }),
{
}

/// Every message that is wanted is in the feed, in its order.
pub proof fn law_wanted_messages_are_kept(s: DashboardV, k: nat)
    requires
        k < s.mqtt.len(),
    ensures
        wanted_messages(s, 0).len() == 0,
        wanted(s, s.mqtt[k as int]) ==> wanted_messages(s, k + 1) == wanted_messages(s, k).push(
            s.mqtt[k as int],
        ),
        !wanted(s, s.mqtt[k as int]) ==> wanted_messages(s, k + 1) == wanted_messages(s, k),
{
}

/// A button begins where the one before it ends, and takes the clicks on its label as far as
/// that is on the row; it is lit where it is active.
pub proof fn law_buttons_lie_side_by_side(all: Seq<ChipV>, area: Rect, k: nat)
    requires
        k < all.len(),
    ensures
        ({
            let c = all[k as int];
            let at = chip_start(all, area.x as int, k);
            let end = if area.x + area.width <= 65535 {
                area.x + area.width
            } else {
                65535
            };
            let n = c.label.len();
            let before = chip_zones(all, area, k);
            let now = chip_zones(all, area, k + 1);
            let zone = |w: int|
                (Rect { x: at as u16, y: area.y, width: w as u16, height: 1 }, c.key);
            &&& chip_start(all, area.x as int, 0) == area.x
            &&& chip_start(all, area.x as int, k + 1) == at + n
            &&& chip_zones(all, area, 0).len() == 0
            &&& at + n <= end && at < end ==> now == before.push(zone(n as int))
            &&& at < end < at + n ==> now == before.push(zone(end - at))
            &&& at >= end ==> now == before
            &&& chip_spans(all).len() == all.len()
            &&& c.active ==> chip_spans(all)[k as int] == piece(
                c.label,
                Style { bold: true, ..ink_on(Color::Black, Color::Yellow) },
            )
            &&& !c.active ==> chip_spans(all)[k as int] == piece(
                c.label,
                ink_on(Color::Black, Color::Gray),
            )
        }),
{
}

/// The frontend gives the nodes 58 and the shell 45 of a hundred columns, the log eight rows
/// at the bottom, and shares the rest five to six between the upper and the lower panes.
pub proof fn law_panes_have_their_shares(body: Rect, z: PaneZones)
    requires
        zones_in(body, z),
        body.x + body.width <= 65535 && body.y + body.height <= 65535,
    ensures
        -50 <= 100 * z.nodes.width - 58 * body.width <= 50,
        -50 <= 100 * z.shell.width - 45 * body.width <= 50,
        z.nodes.width + z.radio.width == body.width,
        z.shell.width + z.mqtt.width == body.width,
        body.height >= 8 ==> z.log.height == 8,
        body.height < 8 ==> z.log.height == body.height,
        z.nodes.height + z.shell.height + z.log.height == body.height,
        body.height >= 8 ==> -11 <= 11 * z.nodes.height - 5 * (body.height - 8) <= 11,
        z.radio.height == z.nodes.height && z.mqtt.height == z.shell.height,
        z.nodes.x == body.x && z.nodes.y == body.y,
        z.log.y + z.log.height == body.y + body.height,
{
    let n = body.height - 8;
    assert(share(5, 6, n) == ((1000 * n + 11) / 22 + 50) / 100) by (nonlinear_arith);
    let a = (1000 * n + 11) / 22;
    assert(22 * a <= 1000 * n + 11 < 22 * a + 22);
}

/// The console gives the logs half of its columns, the command line three rows, and the
/// events a quarter of the rows.
pub proof fn law_the_console_is_shared(body: Rect, a: ConsoleAreas)
    requires
        areas_in(body, a),
        body.x + body.width <= 65535 && body.y + body.height <= 65535,
    ensures
        -50 <= 100 * a.events.width - 50 * body.width <= 50,
        a.command.width == a.events.width && a.responses.width == a.events.width,
        a.logs.width + a.events.width == body.width,
        a.logs.height == body.height,
        body.height >= 4 ==> -50 <= 100 * a.events.height - 25 * body.height <= 50,
        body.height >= 3 ==> a.command.height == 3,
        a.events.x == body.x && a.logs.x == body.x + a.events.width,
        a.events.y == body.y && a.command.y == a.events.y + a.events.height && a.responses.y
            == a.command.y + a.command.height && a.responses.y + a.responses.height == body.y
            + body.height,
{
    let parts = seq![a.events, a.command, a.responses];
    assert(parts[0] == a.events && parts[1] == a.command && parts[2] == a.responses);
    assert(parts.last() == a.responses);
}

/// The graph shows as many of the newest readings as there are bars, each level in its own
/// colour, and what was received and sent over them.
pub proof fn law_the_graph_is_drawn(s: DashboardV, width: u16, zoomed: bool, c: Chart)
    requires
        is_chart(s, width, zoomed, c),
    ensures
        ({
            let count = bar_count(slots(width, zoomed));
            let n = if s.ambient.len() < count {
                s.ambient.len()
            } else {
                count
            };
            &&& c.slots == slots(width, zoomed)
            &&& c.quiet@ == bars(s.ambient, Level::Quiet, n)
            &&& c.busy@ == bars(s.ambient, Level::Busy, n)
            &&& c.hot@ == bars(s.ambient, Level::Hot, n)
            &&& c.rx@ == mark_points(s.rx_marks, s.ambient_seq, count, s.rx_marks.len())
            &&& c.tx@ == mark_points(s.tx_marks, s.ambient_seq, count, s.tx_marks.len())
        }),
{
}

/// The panes of the console are titled, and the one that has the keys is marked.
pub proof fn law_panes_are_titled(p: PanePlace, focus: Pane)
    ensures
        console_view::border(true) == strong(Color::Cyan),
        console_view::border(false) == bare(),
        placed(p, Pane::Logs, focus) ==> p.title@ == "Device Logs"@ && p.pane == Pane::Logs
            && p.focused == (focus == Pane::Logs),
        placed(p, Pane::Events, focus) ==> p.title@ == "Device Events"@ && p.pane == Pane::Events
            && p.focused == (focus == Pane::Events),
        placed(p, Pane::Responses, focus) ==> p.title@ == "Shell Responses"@ && p.pane
            == Pane::Responses && p.focused == (focus == Pane::Responses),
        placed(p, Pane::Command, focus) ==> p.title@ == "Shell Command"@ && p.pane == Pane::Command
            && p.focused == (focus == Pane::Command),
{
}

/// Lines that are in view are the last ones: as many as fill the pane and what is scrolled
/// past, and of the first of them the rows that do not fit are left out.
pub proof fn law_windows_show_the_end(items: Seq<nat>, height: nat, scrolled: nat, w: Window)
    requires
        is_window(items, height, scrolled, w),
    ensures
        ({
            let shown = tail_rows(items, (items.len() - w.first) as nat);
            &&& w.first <= items.len()
            &&& w.first > 0 ==> shown >= height + scrolled
            &&& shown >= height + scrolled ==> shown - w.top_row == height + scrolled
            &&& shown < height + scrolled ==> w.top_row == 0
        }),
        tail_rows(items, 0) == 0,
        forall|m: nat|
            m < items.len() ==> #[trigger] tail_rows(items, m + 1) == tail_rows(items, m)
                + items[items.len() - m - 1],
{
}

/// A window has the size that is asked for, as far as there is room, and stands in the middle.
pub proof fn law_windows_stand_in_the_middle(area: Rect, width: u16, height: u16)
    requires
        has_middle(area, width, height),
    ensures
        ({
            let r = middle(area, width, height);
            &&& r.width == if width < area.width {
                width
            } else {
                area.width
            }
            &&& r.height == if height < area.height {
                height
            } else {
                area.height
            }
            &&& 0 <= (area.x + area.width - r.x - r.width) - (r.x - area.x) <= 1
            &&& 0 <= (area.y + area.height - r.y - r.height) - (r.y - area.y) <= 1
        }),
{
}

/// A window is as high as its rows and its border, as far as there is room.
pub proof fn law_windows_hold_their_rows(body: Rect, rows: usize)
    ensures
        rows + 2 <= body.height ==> modal_height(body, rows) == rows + 2,
        rows + 2 > body.height ==> modal_height(body, rows) == body.height,
{
}

} // verus!

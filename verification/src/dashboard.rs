//! The gateway's interactive frontend: a view over the bridge, never a second
//! implementation. It folds the engine's events into what is shown, and turns keys and
//! clicks into the same requests that other clients make.
//!
//! Panes: nodes and radio graph on top, remote-shell dialog and message feed below, the
//! gateway's log at the bottom.

use crate::console::capped;
use crate::engine_state::{
    Event, EventV, MqttMsg, MqttMsgV, NodeView, NodeViewV, RadioSample,
};
use crate::line_edit::cursor_ok;
use crate::payload::{
    Pairing, PairingV, RpcData, RpcDataV, RpcResponse, RpcResponseV, ShellRsp, ShellRspV,
};
use crate::style::{Key, Rect};
use crate::text::{
    cat2, chars_of, deep, first_index, lemma_first_index, push_deep, same, strip_prefix, text_of,
    trim_back,
};
use crate::topics::{addr_of, parse_node_hex};
use std::collections::HashMap;
use std::collections::VecDeque;
use vstd::prelude::*;
use vstd::std_specs::hash::*;
use vstd::std_specs::vecdeque::*;
use vstd::string::*;

verus! {

/// How many log lines are kept.
pub const LOG_CAP: usize = 1000;

/// How many lines of a node's dialog are kept.
pub const DIALOG_CAP: usize = 500;

/// How many messages of the feed are kept. The filter only chooses what is shown of them.
pub const MQTT_CAP: usize = 500;

/// How many readings of the radio graph are kept.
pub const CHART_HISTORY: usize = 600;

/// Where transmissions are drawn on the radio graph (they have no level of their own).
pub const TX_LANE_DBM: i16 = -35;

/// How long a revealed key is shown, in milliseconds.
pub const KEY_SHOWN_MS: u64 = 30_000;

#[derive(Debug, Clone, Copy, PartialEq, Eq, Structural)]
pub enum Pane {
    Nodes,
    Radio,
    Shell,
    Mqtt,
    Log,
}

/// A window over the panes that takes all keys.
#[derive(Debug, PartialEq)]
pub enum Modal {
    ConfirmRemove(u32),
    Rename { node: u32, buf: String },
    ConfirmReveal(u32),
    Key { node: u32, key: String, shown: u64 },
    /// The ways to pair.
    PairMenu { selected: usize },
    /// A pairing window is open over the air, or about to be.
    PairOta { opened_at: u64, seen_open: bool },
    /// Waits for a serial port that was not there at the start; the first is paired.
    PairCatch { baseline: Vec<String>, deadline: u64 },
    /// Picks a port from a list that only grows, so that nothing moves under the cursor;
    /// ports that went away are the exception.
    PairPorts { ports: Vec<String>, selected: usize },
    /// A pairing over the cable is running. Success closes this, a failure stays.
    PairRun { port: String, lines: Vec<String>, failed: Option<String> },
    /// A notice.
    Info { title: String, text: String },
    /// The queue of a node.
    Pending { node: u32, selected: usize },
}

#[verifier::ext_equal]
pub enum ModalV {
    ConfirmRemove(u32),
    Rename { node: u32, buf: Seq<char> },
    ConfirmReveal(u32),
    Key { node: u32, key: Seq<char>, shown: u64 },
    PairMenu { selected: usize },
    PairOta { opened_at: u64, seen_open: bool },
    PairCatch { baseline: Seq<Seq<char>>, deadline: u64 },
    PairPorts { ports: Seq<Seq<char>>, selected: usize },
    PairRun { port: Seq<char>, lines: Seq<Seq<char>>, failed: Option<Seq<char>> },
    Info { title: Seq<char>, text: Seq<char> },
    Pending { node: u32, selected: usize },
}

impl DeepView for Modal {
    type V = ModalV;

    open spec fn deep_view(&self) -> ModalV {
        match self {
            Modal::ConfirmRemove(n) => ModalV::ConfirmRemove(*n),
            Modal::Rename { node, buf } => ModalV::Rename { node: *node, buf: buf@ },
            Modal::ConfirmReveal(n) => ModalV::ConfirmReveal(*n),
            Modal::Key { node, key, shown } => ModalV::Key { node: *node, key: key@, shown: *shown },
            Modal::PairMenu { selected } => ModalV::PairMenu { selected: *selected },
            Modal::PairOta { opened_at, seen_open } => ModalV::PairOta {
                opened_at: *opened_at,
                seen_open: *seen_open,
            },
            Modal::PairCatch { baseline, deadline } => ModalV::PairCatch {
                baseline: baseline.deep_view(),
                deadline: *deadline,
            },
            Modal::PairPorts { ports, selected } => ModalV::PairPorts {
                ports: ports.deep_view(),
                selected: *selected,
            },
            Modal::PairRun { port, lines, failed } => ModalV::PairRun {
                port: port@,
                lines: lines.deep_view(),
                failed: failed.deep_view(),
            },
            Modal::Info { title, text } => ModalV::Info { title: title@, text: text@ },
            Modal::Pending { node, selected } => ModalV::Pending { node: *node, selected: *selected },
        }
    }
}

/// One line of a node's dialog.
#[derive(Debug, PartialEq)]
pub enum DialogLine {
    Sent(String),
    Text(String),
    Failed(String),
    Done(u8),
}

#[verifier::ext_equal]
pub enum DialogLineV {
    Sent(Seq<char>),
    Text(Seq<char>),
    Failed(Seq<char>),
    Done(u8),
}

impl DeepView for DialogLine {
    type V = DialogLineV;

    open spec fn deep_view(&self) -> DialogLineV {
        match self {
            DialogLine::Sent(s) => DialogLineV::Sent(s@),
            DialogLine::Text(s) => DialogLineV::Text(s@),
            DialogLine::Failed(s) => DialogLineV::Failed(s@),
            DialogLine::Done(r) => DialogLineV::Done(*r),
        }
    }
}

/// Where the panes are on the screen.
#[derive(Debug, Clone, Copy, PartialEq, Eq, Structural)]
pub struct PaneZones {
    pub nodes: Rect,
    pub radio: Rect,
    pub shell: Rect,
    pub mqtt: Rect,
    pub log: Rect,
}

/// The state of the frontend.
pub struct Dashboard {
    pub prefix: String,
    pub port: String,
    pub quit: bool,
    pub focus: Pane,
    /// The focused pane fills the screen.
    pub zoom: bool,
    /// The mouse is captured (clicks work; the terminal's own selection does not).
    pub mouse: bool,
    pub paused: bool,
    pub serial_up: bool,
    pub mqtt_up: bool,
    pub nodes: Vec<NodeView>,
    pub selected: usize,
    /// The node whose dialog is shown (index into `nodes`).
    pub shell_node: usize,
    pub dialogs: HashMap<u32, VecDeque<DialogLine>>,
    /// For each node the start of a line whose end has not come yet, with the id of the
    /// response that it belongs to.
    pub shell_partial: HashMap<u32, (String, String)>,
    pub line: String,
    /// Byte offset into `line`.
    pub cursor: usize,
    pub history: Vec<String>,
    pub hist_idx: Option<usize>,
    pub log: VecDeque<String>,
    pub log_scroll: usize,
    pub mqtt: VecDeque<MqttMsg>,
    pub mqtt_scroll: usize,
    /// Show only the topics of this node.
    pub mqtt_filter: Option<u32>,
    /// Ambient readings, the newest last.
    pub ambient: VecDeque<i16>,
    /// How many ambient readings there ever were.
    pub ambient_seq: u64,
    /// Receptions and transmissions, each with the reading during which it came.
    pub rx_marks: VecDeque<(u64, i16)>,
    pub tx_marks: VecDeque<(u64, i16)>,
    pub last_ambient: Option<(i16, u8)>,
    pub pairing: Option<Pairing>,
    pub modal: Option<Modal>,
    pub next_req: u64,
    /// A pairing over the cable is running.
    pub cable: bool,
    /// When the serial ports were last listed.
    pub last_port_poll: u64,
    pub zones: PaneZones,
    /// The buttons of the footer, and the keys that they press.
    pub chips: Vec<(Rect, Key)>,
}

pub open spec fn deep_dialogs(m: Map<u32, VecDeque<DialogLine>>) -> Map<u32, Seq<DialogLineV>> {
    Map::new(|k: u32| m.dom().contains(k), |k: u32| deep(m[k]@))
}

pub open spec fn deep_partial(m: Map<u32, (String, String)>) -> Map<u32, (Seq<char>, Seq<char>)> {
    Map::new(|k: u32| m.dom().contains(k), |k: u32| (m[k].0@, m[k].1@))
}

#[verifier::ext_equal]
pub struct DashboardV {
    pub prefix: Seq<char>,
    pub port: Seq<char>,
    pub quit: bool,
    pub focus: Pane,
    pub zoom: bool,
    pub mouse: bool,
    pub paused: bool,
    pub serial_up: bool,
    pub mqtt_up: bool,
    pub nodes: Seq<NodeViewV>,
    pub selected: usize,
    pub shell_node: usize,
    pub dialogs: Map<u32, Seq<DialogLineV>>,
    pub shell_partial: Map<u32, (Seq<char>, Seq<char>)>,
    pub line: Seq<char>,
    pub cursor: usize,
    pub history: Seq<Seq<char>>,
    pub hist_idx: Option<usize>,
    pub log: Seq<Seq<char>>,
    pub log_scroll: usize,
    pub mqtt: Seq<MqttMsgV>,
    pub mqtt_scroll: usize,
    pub mqtt_filter: Option<u32>,
    pub ambient: Seq<i16>,
    pub ambient_seq: u64,
    pub rx_marks: Seq<(u64, i16)>,
    pub tx_marks: Seq<(u64, i16)>,
    pub last_ambient: Option<(i16, u8)>,
    pub pairing: Option<PairingV>,
    pub modal: Option<ModalV>,
    pub next_req: u64,
    pub cable: bool,
    pub last_port_poll: u64,
    pub zones: PaneZones,
    pub chips: Seq<(Rect, Key)>,
}

impl View for Dashboard {
    type V = DashboardV;

    open spec fn view(&self) -> DashboardV {
        DashboardV {
            prefix: self.prefix@,
            port: self.port@,
            quit: self.quit,
            focus: self.focus,
            zoom: self.zoom,
            mouse: self.mouse,
            paused: self.paused,
            serial_up: self.serial_up,
            mqtt_up: self.mqtt_up,
            nodes: self.nodes.deep_view(),
            selected: self.selected,
            shell_node: self.shell_node,
            dialogs: deep_dialogs(self.dialogs@),
            shell_partial: deep_partial(self.shell_partial@),
            line: self.line@,
            cursor: self.cursor,
            history: self.history.deep_view(),
            hist_idx: self.hist_idx,
            log: deep(self.log@),
            log_scroll: self.log_scroll,
            mqtt: deep(self.mqtt@),
            mqtt_scroll: self.mqtt_scroll,
            mqtt_filter: self.mqtt_filter,
            ambient: self.ambient@,
            ambient_seq: self.ambient_seq,
            rx_marks: self.rx_marks@,
            tx_marks: self.tx_marks@,
            last_ambient: self.last_ambient,
            pairing: self.pairing.deep_view(),
            modal: self.modal.deep_view(),
            next_req: self.next_req,
            cable: self.cable,
            last_port_poll: self.last_port_poll,
            zones: self.zones,
            chips: self.chips@,
        }
    }
}

/// The cursor stands between two characters, and the history index within the history.
pub open spec fn dashboard_ok(s: DashboardV) -> bool {
    &&& cursor_ok(s.line, s.cursor)
    &&& s.hist_idx matches Some(i) ==> i < s.history.len()
}

// ---- folding events ----------------------------------------------------------------

pub open spec fn logged(s: DashboardV, line: Seq<char>) -> DashboardV {
    DashboardV { log: capped(s.log, line, LOG_CAP as nat), ..s }
}

pub open spec fn dialog_of(s: DashboardV, node: u32) -> Seq<DialogLineV> {
    if s.dialogs.dom().contains(node) {
        s.dialogs[node]
    } else {
        Seq::empty()
    }
}

/// One more line in a node's dialog.
pub open spec fn told(s: DashboardV, node: u32, line: DialogLineV) -> DashboardV {
    DashboardV {
        dialogs: s.dialogs.insert(node, capped(dialog_of(s, node), line, DIALOG_CAP as nat)),
        ..s
    }
}

/// The first `k` of `lines`, one after the other.
pub open spec fn told_lines(s: DashboardV, node: u32, lines: Seq<Seq<char>>, k: nat) -> DashboardV
    decreases k,
{
    if k == 0 {
        s
    } else {
        told(told_lines(s, node, lines, (k - 1) as nat), node, DialogLineV::Text(lines[k - 1]))
    }
}

/// A line, unless it is empty.
pub open spec fn told_text(s: DashboardV, node: u32, text: Seq<char>) -> DashboardV {
    if text.len() == 0 {
        s
    } else {
        told(s, node, DialogLineV::Text(text))
    }
}

pub open spec fn no_partial(s: DashboardV, node: u32) -> DashboardV {
    DashboardV { shell_partial: s.shell_partial.remove(node), ..s }
}

/// Ends a node's unfinished line.
pub open spec fn flushed(s: DashboardV, node: u32) -> DashboardV {
    if s.shell_partial.dom().contains(node) {
        told_text(no_partial(s, node), node, s.shell_partial[node].1)
    } else {
        s
    }
}

/// The complete lines of a text, without the characters that end them.
pub open spec fn complete_lines(s: Seq<char>) -> Seq<Seq<char>>
    decreases s.len(),
{
    let i = first_index(s, '\n');
    if 0 <= i < s.len() {
        seq![trim_back(s.take(i), '\r')] + complete_lines(s.skip(i + 1))
    } else {
        Seq::empty()
    }
}

/// What is behind the last complete line.
pub open spec fn unfinished(s: Seq<char>) -> Seq<char>
    decreases s.len(),
{
    let i = first_index(s, '\n');
    if 0 <= i < s.len() {
        unfinished(s.skip(i + 1))
    } else {
        s
    }
}

/// What is at hand when a chunk of the response `id` comes: the unfinished line of that
/// response. One of another response is ended first.
pub open spec fn resumed(s: DashboardV, node: u32, id: Seq<char>) -> (DashboardV, Seq<char>) {
    if s.shell_partial.dom().contains(node) {
        if s.shell_partial[node].0 == id {
            (no_partial(s, node), s.shell_partial[node].1)
        } else {
            (told_text(no_partial(s, node), node, s.shell_partial[node].1), Seq::empty())
        }
    } else {
        (s, Seq::empty())
    }
}

/// A chunk of text. Chunks end anywhere: what is not a complete line waits for the next
/// chunk, or for the end.
pub open spec fn shell_text(s: DashboardV, node: u32, rsp: ShellRspV) -> DashboardV {
    let (s1, rest) = resumed(s, node, rsp.id);
    let buf = rest + rsp.text;
    let s2 = told_lines(s1, node, complete_lines(buf), complete_lines(buf).len());
    if rsp.done {
        told(told_text(s2, node, unfinished(buf)), node, DialogLineV::Done(rsp.result))
    } else {
        DashboardV {
            shell_partial: s2.shell_partial.insert(node, (rsp.id, unfinished(buf))),
            ..s2
        }
    }
}

/// A chunk of a remote-shell response, or its final error.
pub open spec fn shell_event(s: DashboardV, node: u32, rsp: ShellRspV) -> DashboardV {
    match rsp.error {
        Some(e) => told(flushed(s, node), node, DialogLineV::Failed(e)),
        None => shell_text(s, node, rsp),
    }
}

pub open spec fn has_addr(addr: u32) -> spec_fn(NodeViewV) -> bool {
    |n: NodeViewV| n.addr == addr
}

pub open spec fn position(nodes: Seq<NodeViewV>, addr: u32) -> Option<int> {
    crate::text::first_where(nodes, has_addr(addr))
}

/// Where an index into the old nodes points after a refresh: at the same node, or as near
/// as the new list allows.
pub open spec fn anchored(old_nodes: Seq<NodeViewV>, nodes: Seq<NodeViewV>, index: usize) -> usize {
    let same_node = if index < old_nodes.len() {
        position(nodes, old_nodes[index as int].addr)
    } else {
        None
    };
    match same_node {
        Some(i) => i as usize,
        None => if nodes.len() == 0 {
            0
        } else if index < nodes.len() {
            index
        } else {
            (nodes.len() - 1) as usize
        },
    }
}

pub open spec fn registry_event(s: DashboardV, nodes: Seq<NodeViewV>) -> DashboardV {
    DashboardV {
        nodes,
        selected: anchored(s.nodes, nodes, s.selected),
        shell_node: anchored(s.nodes, nodes, s.shell_node),
        ..s
    }
}

/// A sample for the radio graph. While paused the graph stands still.
pub open spec fn radio_event(s: DashboardV, sample: RadioSample) -> DashboardV {
    if s.paused {
        s
    } else {
        match sample {
            RadioSample::Ambient { dbm, channel } => DashboardV {
                last_ambient: Some((dbm, channel)),
                ambient_seq: crate::render::one_more(s.ambient_seq),
                ambient: capped(s.ambient, dbm, CHART_HISTORY as nat),
                ..s
            },
            RadioSample::Rx { src: _, rssi_dbm } => DashboardV {
                rx_marks: capped(s.rx_marks, (s.ambient_seq, rssi_dbm), CHART_HISTORY as nat),
                ..s
            },
            RadioSample::Tx { dest: _, delivered: _ } => DashboardV {
                tx_marks: capped(s.tx_marks, (s.ambient_seq, TX_LANE_DBM), CHART_HISTORY as nat),
                ..s
            },
        }
    }
}

pub open spec fn is_open(p: Option<PairingV>) -> bool {
    match p {
        Some(p) => p.state == "open"@,
        None => false,
    }
}

/// The pairing window changed; how it ended is logged.
pub open spec fn pairing_event(s: DashboardV, p: PairingV) -> DashboardV {
    let s1 = if p.state == "idle"@ && is_open(s.pairing) {
        logged(
            s,
            match p.joined {
                Some(j) => "paired "@ + j,
                None => "pairing window closed"@,
            },
        )
    } else {
        s
    };
    DashboardV { pairing: Some(p), ..s1 }
}

/// The response belongs to the pairing over the cable.
pub open spec fn for_cable(rsp: RpcResponseV) -> bool {
    "tui-cbl-"@.is_prefix_of(rsp.id)
}

/// A request of the frontend was answered: failures are logged, a revealed key is shown.
pub open spec fn rpc_event(s: DashboardV, rsp: RpcResponseV, now: u64) -> DashboardV {
    if for_cable(rsp) {
        s
    } else if !rsp.ok {
        logged(
            s,
            "action failed: "@ + match rsp.error {
                Some(e) => e,
                None => "gateway refused"@,
            },
        )
    } else {
        match rsp.data {
            RpcDataV::Key { node, key } => DashboardV {
                modal: Some(
                    ModalV::Key {
                        node: match addr_of(node) {
                            Some(a) => a,
                            None => 0,
                        },
                        key,
                        shown: now,
                    },
                ),
                ..s
            },
            _ => s,
        }
    }
}

/// One event of the engine; `now` is the time in milliseconds.
pub open spec fn event_folded(s: DashboardV, ev: EventV, now: u64) -> DashboardV {
    match ev {
        EventV::Log(l) => if s.paused {
            s
        } else {
            logged(s, l)
        },
        EventV::Link { serial_up, mqtt_up } => DashboardV { serial_up, mqtt_up, ..s },
        EventV::Registry(nodes) => registry_event(s, nodes),
        EventV::Shell { node, rsp } => shell_event(s, node, rsp),
        EventV::Radio(sample) => radio_event(s, sample),
        EventV::Mqtt(m) => if s.paused {
            s
        } else {
            DashboardV { mqtt: capped(s.mqtt, m, MQTT_CAP as nat), ..s }
        },
        EventV::Pairing(p) => pairing_event(s, p),
        EventV::Rpc(rsp) => rpc_event(s, rsp, now),
    }
}

/// What goes on to the pairing over the cable, if one is running.
pub open spec fn forwarded(s: DashboardV, ev: EventV) -> Option<RpcResponseV> {
    match ev {
        EventV::Rpc(rsp) => if for_cable(rsp) && s.cable {
            Some(rsp)
        } else {
            None
        },
        _ => None,
    }
}

/// Appends to a bounded list.
pub(crate) fn push_bounded<T>(buf: &mut VecDeque<T>, item: T, cap: usize)
    requires
        cap > 0,
    ensures
        final(buf)@ == capped(old(buf)@, item, cap as nat),
{
    proof {
        reveal(capped);
    }
    if buf.len() >= cap {
        let _ = buf.pop_front();
        assert(buf@ =~= old(buf)@.skip(1));
    }
    buf.push_back(item);
}

pub(crate) fn push_bounded_deep<T: DeepView>(buf: &mut VecDeque<T>, item: T, cap: usize)
    requires
        cap > 0,
    ensures
        deep(final(buf)@) == capped(deep(old(buf)@), item.deep_view(), cap as nat),
{
    push_bounded(buf, item, cap);
    proof {
        reveal(capped);
    }
    assert(deep(buf@) =~= capped(deep(old(buf)@), item.deep_view(), cap as nat));
}

pub(crate) fn position_of(nodes: &Vec<NodeView>, addr: u32) -> (r: Option<usize>)
    ensures
        match r {
            Some(i) => i < nodes@.len() && position(nodes.deep_view(), addr) == Some(i as int),
            None => position(nodes.deep_view(), addr) is None,
        },
{
    let mut i: usize = 0;
    while i < nodes.len()
        invariant
            i <= nodes@.len(),
            forall|j: int| 0 <= j < i ==> !has_addr(addr)(#[trigger] nodes.deep_view()[j]),
        decreases nodes@.len() - i,
    {
        if nodes[i].addr == addr {
            proof {
                crate::text::lemma_first_where(nodes.deep_view(), has_addr(addr), i as int);
            }
            return Some(i);
        }
        i = i + 1;
    }
    proof {
        crate::text::lemma_first_where(nodes.deep_view(), has_addr(addr), i as int);
    }
    None
}

fn anchor(old_nodes: &Vec<NodeView>, nodes: &Vec<NodeView>, index: usize) -> (r: usize)
    ensures
        r == anchored(old_nodes.deep_view(), nodes.deep_view(), index),
{
    if index < old_nodes.len() {
        if let Some(i) = position_of(nodes, old_nodes[index].addr) {
            return i;
        }
    }
    let n: usize = nodes.len();
    if n == 0 {
        0
    } else if index < n {
        index
    } else {
        n - 1
    }
}

/// Splits a text into its complete lines and what is behind them.
fn split_lines(text: &str) -> (r: (Vec<String>, String))
    ensures
        r.0.deep_view() == complete_lines(text@),
        r.1@ == unfinished(text@),
{
    let v = chars_of(text);
    let n: usize = v.len();
    let mut out: Vec<String> = Vec::new();
    let mut from: usize = 0;
    assert(v@.skip(0) =~= text@);
    assert(out.deep_view() + complete_lines(text@) =~= complete_lines(text@));
    loop
        invariant
            from <= n,
            n == v@.len(),
            out.deep_view() + complete_lines(v@.skip(from as int)) == complete_lines(text@),
            unfinished(v@.skip(from as int)) == unfinished(text@),
        decreases n - from,
    {
        let ghost rest = v@.skip(from as int);
        let mut i: usize = from;
        while i < n && v[i] != '\n'
            invariant
                from <= i <= n,
                n == v@.len(),
                forall|j: int| from <= j < i ==> #[trigger] v@[j] != '\n',
            decreases n - i,
        {
            i = i + 1;
        }
        proof {
            lemma_first_index(rest, '\n', i - from);
        }
        if i == n {
            let tail = text_of(&v, from, n);
            assert(tail@ =~= rest);
            assert(out.deep_view() =~= complete_lines(text@));
            return (out, tail);
        }
        let ghost goal = trim_back(rest.take(i - from), '\r');
        assert(rest.take(i - from) =~= v@.subrange(from as int, i as int));
        let mut end: usize = i;
        while end > from && v[end - 1] == '\r'
            invariant
                from <= end <= n,
                n == v@.len(),
                trim_back(v@.subrange(from as int, end as int), '\r') == goal,
            decreases end,
        {
            assert(v@.subrange(from as int, end as int).drop_last() =~= v@.subrange(
                from as int,
                end - 1,
            ));
            end = end - 1;
        }
        let line = text_of(&v, from, end);
        let ghost before = out.deep_view();
        push_deep(&mut out, line);
        assert(rest.skip(i - from + 1) =~= v@.skip(i + 1));
        assert(out.deep_view() + complete_lines(v@.skip(i + 1)) =~= before + (seq![goal]
            + complete_lines(rest.skip(i - from + 1))));
        from = i + 1;
    }
}

impl Dashboard {
    pub fn push_log(&mut self, line: String)
        ensures
            final(self)@ == logged(old(self)@, line@),
    {
        push_bounded_deep(&mut self.log, line, LOG_CAP);
    }

    pub(crate) fn dialog_push(&mut self, node: u32, line: DialogLine)
        ensures
            final(self)@ == told(old(self)@, node, line.deep_view()),
    {
        broadcast use vstd::std_specs::hash::group_hash_axioms;

        let ghost before = self.dialogs@;
        let mut d = match self.dialogs.remove(&node) {
            Some(d) => d,
            None => VecDeque::new(),
        };
        assert(deep(d@) =~= dialog_of(old(self)@, node));
        let ghost lv = line.deep_view();
        push_bounded_deep(&mut d, line, DIALOG_CAP);
        self.dialogs.insert(node, d);
        assert(deep_dialogs(self.dialogs@) =~= deep_dialogs(before).insert(
            node,
            capped(dialog_of(old(self)@, node), lv, DIALOG_CAP as nat),
        ));
    }

    fn push_text(&mut self, node: u32, text: String)
        ensures
            final(self)@ == told_text(old(self)@, node, text@),
    {
        if text.as_str().unicode_len() > 0 {
            self.dialog_push(node, DialogLine::Text(text));
        }
    }

    fn push_lines(&mut self, node: u32, lines: Vec<String>)
        ensures
            final(self)@ == told_lines(old(self)@, node, lines.deep_view(), lines@.len()),
    {
        let ghost s0 = self@;
        let mut i: usize = 0;
        while i < lines.len()
            invariant
                i <= lines@.len(),
                self@ == told_lines(s0, node, lines.deep_view(), i as nat),
            decreases lines@.len() - i,
        {
            self.dialog_push(node, DialogLine::Text(lines[i].clone()));
            i = i + 1;
        }
    }

    /// Takes a node's unfinished line out.
    fn take_partial(&mut self, node: u32) -> (r: Option<(String, String)>)
        ensures
            match r {
                Some((id, p)) => old(self)@.shell_partial.dom().contains(node)
                    && old(self)@.shell_partial[node] == (id@, p@) && final(self)@ == no_partial(
                    old(self)@,
                    node,
                ),
                None => !old(self)@.shell_partial.dom().contains(node) && final(self)@ == old(
                    self,
                )@,
            },
    {
        broadcast use vstd::std_specs::hash::group_hash_axioms;

        let ghost before = self.shell_partial@;
        let r = self.shell_partial.remove(&node);
        assert(deep_partial(self.shell_partial@) =~= deep_partial(before).remove(node));
        assert(r is None ==> deep_partial(self.shell_partial@) =~= deep_partial(before));
        r
    }

    fn shell_flush(&mut self, node: u32)
        ensures
            final(self)@ == flushed(old(self)@, node),
    {
        if let Some((_, p)) = self.take_partial(node) {
            self.push_text(node, p);
        }
    }

    fn resume(&mut self, node: u32, id: &str) -> (r: String)
        ensures
            resumed(old(self)@, node, id@) == (final(self)@, r@),
    {
        match self.take_partial(node) {
            Some((pid, p)) => {
                if same(pid.as_str(), id) {
                    p
                } else {
                    self.push_text(node, p);
                    String::new()
                }
            },
            None => String::new(),
        }
    }

    fn on_shell_text(&mut self, node: u32, rsp: ShellRsp)
        ensures
            final(self)@ == shell_text(old(self)@, node, rsp.deep_view()),
    {
        broadcast use vstd::std_specs::hash::group_hash_axioms;

        let rest = self.resume(node, rsp.id.as_str());
        let buf = cat2(rest.as_str(), rsp.text.as_str());
        let (lines, tail) = split_lines(buf.as_str());
        self.push_lines(node, lines);
        if rsp.done {
            self.push_text(node, tail);
            self.dialog_push(node, DialogLine::Done(rsp.result));
        } else {
            let ghost before = self.shell_partial@;
            let ghost id = rsp.id@;
            self.shell_partial.insert(node, (rsp.id, tail));
            assert(deep_partial(self.shell_partial@) =~= deep_partial(before).insert(
                node,
                (id, tail@),
            ));
        }
    }

    fn on_shell(&mut self, node: u32, rsp: ShellRsp)
        ensures
            final(self)@ == shell_event(old(self)@, node, rsp.deep_view()),
    {
        match rsp.error {
            Some(e) => {
                self.shell_flush(node);
                self.dialog_push(node, DialogLine::Failed(e));
            },
            None => self.on_shell_text(node, rsp),
        }
    }

    fn on_registry(&mut self, nodes: Vec<NodeView>)
        ensures
            final(self)@ == registry_event(old(self)@, nodes.deep_view()),
    {
        let selected = anchor(&self.nodes, &nodes, self.selected);
        let shell_node = anchor(&self.nodes, &nodes, self.shell_node);
        self.nodes = nodes;
        self.selected = selected;
        self.shell_node = shell_node;
    }

    fn on_radio(&mut self, sample: RadioSample)
        ensures
            final(self)@ == radio_event(old(self)@, sample),
    {
        if self.paused {
            return;
        }
        match sample {
            RadioSample::Ambient { dbm, channel } => {
                self.last_ambient = Some((dbm, channel));
                self.ambient_seq = self.ambient_seq.saturating_add(1);
                push_bounded(&mut self.ambient, dbm, CHART_HISTORY);
            },
            RadioSample::Rx { src: _, rssi_dbm } => {
                let seq = self.ambient_seq;
                push_bounded(&mut self.rx_marks, (seq, rssi_dbm), CHART_HISTORY);
            },
            RadioSample::Tx { dest: _, delivered: _ } => {
                let seq = self.ambient_seq;
                push_bounded(&mut self.tx_marks, (seq, TX_LANE_DBM), CHART_HISTORY);
            },
        }
    }

    /// Whether a pairing window is open.
    pub fn pairing_open(&self) -> (r: bool)
        ensures
            r == is_open(self@.pairing),
    {
        match &self.pairing {
            Some(p) => same(p.state.as_str(), "open"),
            None => false,
        }
    }

    fn on_pairing(&mut self, p: Pairing)
        ensures
            final(self)@ == pairing_event(old(self)@, p.deep_view()),
    {
        if same(p.state.as_str(), "idle") && self.pairing_open() {
            let line = match &p.joined {
                Some(j) => cat2("paired ", j.as_str()),
                None => "pairing window closed".to_owned(),
            };
            self.push_log(line);
        }
        self.pairing = Some(p);
    }

    fn on_rpc(&mut self, rsp: RpcResponse, now: u64) -> (r: Option<RpcResponse>)
        ensures
            final(self)@ == rpc_event(old(self)@, rsp.deep_view(), now),
            r.deep_view() == forwarded(old(self)@, EventV::Rpc(rsp.deep_view())),
    {
        if strip_prefix(rsp.id.as_str(), "tui-cbl-").is_some() {
            return if self.cable { Some(rsp) } else { None };
        }
        if !rsp.ok {
            let line = match &rsp.error {
                Some(e) => cat2("action failed: ", e.as_str()),
                None => cat2("action failed: ", "gateway refused"),
            };
            self.push_log(line);
            return None;
        }
        match rsp.data {
            RpcData::Key { node, key } => {
                let addr = match parse_node_hex(node.as_str()) {
                    Some(a) => a,
                    None => 0,
                };
                self.modal = Some(Modal::Key { node: addr, key, shown: now });
            },
            _ => {},
        }
        None
    }

    /// Folds one event of the engine into what is shown; `now` is the time in
    /// milliseconds. A response for a running pairing over the cable is handed on.
    pub fn on_event(&mut self, ev: Event, now: u64) -> (r: Option<RpcResponse>)
        ensures
            final(self)@ == event_folded(old(self)@, ev.deep_view(), now),
            r.deep_view() == forwarded(old(self)@, ev.deep_view()),
            dashboard_ok(old(self)@) ==> dashboard_ok(final(self)@),
    {
        proof {
            law_events_leave_the_user_alone(self@, ev.deep_view(), now);
        }
        match ev {
            Event::Log(l) => {
                if !self.paused {
                    self.push_log(l);
                }
                None
            },
            Event::Link { serial_up, mqtt_up } => {
                self.serial_up = serial_up;
                self.mqtt_up = mqtt_up;
                None
            },
            Event::Registry(nodes) => {
                self.on_registry(nodes);
                None
            },
            Event::Shell { node, rsp } => {
                self.on_shell(node, rsp);
                None
            },
            Event::Radio(sample) => {
                self.on_radio(sample);
                None
            },
            Event::Mqtt(m) => {
                if !self.paused {
                    push_bounded_deep(&mut self.mqtt, m, MQTT_CAP);
                }
                None
            },
            Event::Pairing(p) => {
                self.on_pairing(p);
                None
            },
            Event::Rpc(rsp) => self.on_rpc(rsp, now),
        }
    }

    /// A frontend that has just started.
    pub fn new(prefix: String, port: String, now: u64) -> (r: Dashboard)
        ensures
            dashboard_ok(r@),
            r@ == (DashboardV {
                prefix: prefix@,
                port: port@,
                quit: false,
                focus: Pane::Nodes,
                zoom: false,
                mouse: true,
                paused: false,
                serial_up: true,
                mqtt_up: false,
                nodes: Seq::empty(),
                selected: 0,
                shell_node: 0,
                dialogs: Map::empty(),
                shell_partial: Map::empty(),
                line: Seq::empty(),
                cursor: 0,
                history: Seq::empty(),
                hist_idx: None,
                log: Seq::empty(),
                log_scroll: 0,
                mqtt: Seq::empty(),
                mqtt_scroll: 0,
                mqtt_filter: None,
                ambient: Seq::empty(),
                ambient_seq: 0,
                rx_marks: Seq::empty(),
                tx_marks: Seq::empty(),
                last_ambient: None,
                pairing: None,
                modal: None,
                next_req: 0,
                cable: false,
                last_port_poll: now,
                zones: no_zones(),
                chips: Seq::empty(),
            }),
    {
        let zones = PaneZones {
            nodes: Rect::empty(),
            radio: Rect::empty(),
            shell: Rect::empty(),
            mqtt: Rect::empty(),
            log: Rect::empty(),
        };
        let d = Dashboard {
            prefix,
            port,
            quit: false,
            focus: Pane::Nodes,
            zoom: false,
            mouse: true,
            paused: false,
            serial_up: true,
            mqtt_up: false,
            nodes: Vec::new(),
            selected: 0,
            shell_node: 0,
            dialogs: HashMap::new(),
            shell_partial: HashMap::new(),
            line: String::new(),
            cursor: 0,
            history: Vec::new(),
            hist_idx: None,
            log: VecDeque::new(),
            log_scroll: 0,
            mqtt: VecDeque::new(),
            mqtt_scroll: 0,
            mqtt_filter: None,
            ambient: VecDeque::new(),
            ambient_seq: 0,
            rx_marks: VecDeque::new(),
            tx_marks: VecDeque::new(),
            last_ambient: None,
            pairing: None,
            modal: None,
            next_req: 0,
            cable: false,
            last_port_poll: now,
            zones,
            chips: Vec::new(),
        };
        assert(d@.dialogs =~= Map::<u32, Seq<DialogLineV>>::empty());
        assert(d@.shell_partial =~= Map::<u32, (Seq<char>, Seq<char>)>::empty());
        d
    }
}

/// No pane is on the screen.
pub open spec fn no_zones() -> PaneZones {
    let none = Rect { x: 0, y: 0, width: 0, height: 0 };
    PaneZones { nodes: none, radio: none, shell: none, mqtt: none, log: none }
}

// ---- laws --------------------------------------------------------------------------

/// What the user has set up or is typing.
pub open spec fn same_user_state(a: DashboardV, b: DashboardV) -> bool {
    &&& b.line == a.line && b.cursor == a.cursor
    &&& b.history == a.history && b.hist_idx == a.hist_idx
    &&& b.focus == a.focus && b.zoom == a.zoom && b.mouse == a.mouse && b.paused == a.paused
    &&& b.mqtt_filter == a.mqtt_filter && b.quit == a.quit
}

proof fn lemma_told_lines_leave_the_user_alone(
    s: DashboardV,
    node: u32,
    lines: Seq<Seq<char>>,
    k: nat,
)
    ensures
        same_user_state(s, told_lines(s, node, lines, k)),
    decreases k,
{
    if k > 0 {
        lemma_told_lines_leave_the_user_alone(s, node, lines, (k - 1) as nat);
    }
}

/// Events of the engine never touch what the user is typing, nor what they have set up:
/// the line, the history, the focus, the zoom, the filter and the pause.
pub proof fn law_events_leave_the_user_alone(s: DashboardV, ev: EventV, now: u64)
    ensures
        same_user_state(s, event_folded(s, ev, now)),
{
    if let EventV::Shell { node, rsp } = ev {
        let (s1, rest) = resumed(s, node, rsp.id);
        let lines = complete_lines(rest + rsp.text);
        lemma_told_lines_leave_the_user_alone(s1, node, lines, lines.len());
    }
}

/// While paused, logs, messages and samples change nothing that is shown.
pub proof fn law_pause_freezes_the_feeds(s: DashboardV, ev: EventV, now: u64)
    requires
        s.paused,
        ev is Log || ev is Mqtt || ev is Radio,
    ensures
        event_folded(s, ev, now) == s,
{
}

/// A refresh of the registry leaves the selection on the same node as long as that node is
/// listed.
pub proof fn law_selection_follows_its_node(s: DashboardV, nodes: Seq<NodeViewV>, k: int)
    requires
        s.selected < s.nodes.len(),
        0 <= k < nodes.len(),
        nodes[k].addr == s.nodes[s.selected as int].addr,
        nodes.len() <= usize::MAX,
    ensures
        ({
            let t = registry_event(s, nodes);
            t.selected < nodes.len() && nodes[t.selected as int].addr == s.nodes[s.selected as int].addr
        }),
{
    let addr = s.nodes[s.selected as int].addr;
    crate::text::lemma_first_where_holds(nodes, has_addr(addr));
    assert(has_addr(addr)(nodes[k]));
}

/// How a text is cut into chunks does not matter to its lines: the lines of both chunks
/// together are those of the first, then those of its unfinished end with the second.
pub proof fn law_chunks_reassemble(a: Seq<char>, b: Seq<char>)
    ensures
        complete_lines(a + b) == complete_lines(a) + complete_lines(unfinished(a) + b),
        unfinished(a + b) == unfinished(unfinished(a) + b),
    decreases a.len(),
{
    let i = first_index(a, '\n');
    crate::text::lemma_first_index_bounds(a, '\n');
    if i < a.len() {
        lemma_first_index(a + b, '\n', i);
        assert((a + b).take(i) =~= a.take(i));
        assert((a + b).skip(i + 1) =~= a.skip(i + 1) + b);
        law_chunks_reassemble(a.skip(i + 1), b);
        let head = seq![trim_back(a.take(i), '\r')];
        assert(complete_lines(a + b) =~= head + (complete_lines(a.skip(i + 1)) + complete_lines(
            unfinished(a) + b,
        )));
        assert(head + (complete_lines(a.skip(i + 1)) + complete_lines(unfinished(a) + b)) =~= (head
            + complete_lines(a.skip(i + 1))) + complete_lines(unfinished(a) + b));
    } else {
        assert(complete_lines(a) + complete_lines(a + b) =~= complete_lines(a + b));
    }
}

} // verus!

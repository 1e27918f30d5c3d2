//! Keys, clicks and the passing of time on the gateway's frontend.

use crate::dashboard::{
    dashboard_ok, logged, position, told, Dashboard, DashboardV, DialogLine, DialogLineV, Modal,
    ModalV, Pane,
};
use crate::engine_state::{FrontendCmd, MqttMsgV, NodeView, NodeViewV};
use crate::line_edit;
use crate::line_edit::{
    bytes, cursor_ok, erased, lemma_home, lemma_line, line_at, moved_left, moved_right, now_line, typed,
    LineV,
};
use crate::payload::{no_params, RpcParams, RpcParamsV, RpcRequest, RpcRequestV, ShellReq};
use crate::render::one_more;
use crate::style::{no_mods, Key, Mods};
use crate::text::{
    byte_len, cat2, chars_of, dec, dec_u64, push_char, push_deep, text_of, trim, trimmed,
};
use crate::topics::{addr_text, node_hex};
use std::collections::VecDeque;
use vstd::prelude::*;
use vstd::std_specs::vecdeque::*;
use vstd::string::*;

verus! {

/// How long a search for a new port goes on, in milliseconds.
pub const CATCH_MS: u64 = 60_000;

/// How long a pairing window may take to open, in milliseconds.
pub const OTA_OPEN_MS: u64 = 5_000;

/// The time between two listings of the serial ports, in milliseconds.
pub const PORT_POLL_MS: u64 = 1_000;

/// The longest name that can be typed, in bytes.
pub const NAME_MAX: usize = 16;

/// Something that the frontend wants done.
#[derive(Debug, PartialEq)]
pub enum Action {
    /// A request to the engine.
    Send(FrontendCmd),
    /// Pair the node on this port over the cable.
    StartCable(String),
    /// Capture the mouse, or let it go.
    CaptureMouse(bool),
}

#[verifier::ext_equal]
pub enum ActionV {
    Rpc(RpcRequestV),
    Shell { node: u32, id: Seq<char>, line: Seq<char>, ttl_s: u16 },
    StartCable(Seq<char>),
    CaptureMouse(bool),
}

impl DeepView for Action {
    type V = ActionV;

    open spec fn deep_view(&self) -> ActionV {
        match self {
            Action::Send(FrontendCmd::Rpc(r)) => ActionV::Rpc(r.deep_view()),
            Action::Send(FrontendCmd::Shell { node, req }) => ActionV::Shell {
                node: *node,
                id: req.id@,
                line: req.line@,
                ttl_s: req.ttl_s,
            },
            Action::StartCable(p) => ActionV::StartCable(p@),
            Action::CaptureMouse(on) => ActionV::CaptureMouse(*on),
        }
    }
}

/// The state after something, and what has to be done.
#[verifier::ext_equal]
pub struct Next {
    pub s: DashboardV,
    pub act: Option<ActionV>,
}

pub open spec fn still(s: DashboardV) -> Next {
    Next { s, act: None }
}

/// A request of the engine, under the next id.
pub open spec fn request(s: DashboardV, op: Seq<char>, params: RpcParamsV) -> Next {
    let n = one_more(s.next_req);
    Next {
        s: DashboardV { next_req: n, ..s },
        act: Some(ActionV::Rpc(RpcRequestV { id: "tui-"@ + dec(n as nat), op, params })),
    }
}

pub open spec fn node_params(node: u32) -> RpcParamsV {
    RpcParamsV { node: Some(addr_text(node)), ..no_params() }
}

pub open spec fn with_modal(s: DashboardV, m: ModalV) -> DashboardV {
    DashboardV { modal: Some(m), ..s }
}

/// The next index, up to the last of `count`.
pub open spec fn index_down(i: usize, count: nat) -> usize {
    if count == 0 {
        0
    } else if i + 1 < count {
        (i + 1) as usize
    } else {
        (count - 1) as usize
    }
}

pub open spec fn index_up(i: usize) -> usize {
    if i == 0 {
        0
    } else {
        (i - 1) as usize
    }
}

/// Pairs the node on `port` over the cable.
pub open spec fn start_cable(s: DashboardV, port: Seq<char>) -> Next {
    Next {
        s: with_modal(
            DashboardV { cable: true, ..s },
            ModalV::PairRun { port, lines: Seq::empty(), failed: None },
        ),
        act: Some(ActionV::StartCable(port)),
    }
}

// ---- modal windows -----------------------------------------------------------------

#[verifier::opaque]
pub open spec fn rename_key(s: DashboardV, node: u32, buf: Seq<char>, key: Key) -> Next {
    match key {
        Key::Enter => if buf.len() > 0 {
            request(
                s,
                "node_rename"@,
                RpcParamsV { name: Some(buf), ..node_params(node) },
            )
        } else {
            still(s)
        },
        Key::Esc => still(s),
        Key::Backspace => still(
            with_modal(
                s,
                ModalV::Rename {
                    node,
                    buf: if buf.len() > 0 {
                        buf.drop_last()
                    } else {
                        buf
                    },
                },
            ),
        ),
        Key::Char(c) => still(
            with_modal(
                s,
                ModalV::Rename {
                    node,
                    buf: if bytes(buf) < NAME_MAX {
                        buf.push(c)
                    } else {
                        buf
                    },
                },
            ),
        ),
        _ => still(with_modal(s, ModalV::Rename { node, buf })),
    }
}

/// The way to pair that is chosen: over the air, by watching for a new port, or by
/// picking one.
pub open spec fn menu_enter(s: DashboardV, selected: usize, now: u64, ports: Seq<Seq<char>>) -> Next {
    if selected == 0 {
        let n = request(
            s,
            "node_add_ota"@,
            RpcParamsV { window_s: Some(60u64), ..no_params() },
        );
        Next {
            s: with_modal(n.s, ModalV::PairOta { opened_at: now, seen_open: false }),
            act: n.act,
        }
    } else if selected == 1 {
        still(
            with_modal(
                DashboardV { last_port_poll: now, ..s },
                ModalV::PairCatch {
                    baseline: ports,
                    deadline: crate::engine_model::sat(now + CATCH_MS),
                },
            ),
        )
    } else {
        still(with_modal(s, ModalV::PairPorts { ports, selected: 0 }))
    }
}

#[verifier::opaque]
pub open spec fn menu_key(
    s: DashboardV,
    selected: usize,
    key: Key,
    now: u64,
    ports: Seq<Seq<char>>,
) -> Next {
    match key {
        Key::Up => still(with_modal(s, ModalV::PairMenu { selected: index_up(selected) })),
        Key::Down => still(with_modal(s, ModalV::PairMenu { selected: index_down(selected, 3) })),
        Key::Enter => menu_enter(s, selected, now, ports),
        Key::Esc => still(s),
        Key::Char('q') => still(s),
        _ => still(with_modal(s, ModalV::PairMenu { selected })),
    }
}

#[verifier::opaque]
pub open spec fn ports_key(s: DashboardV, ports: Seq<Seq<char>>, selected: usize, key: Key) -> Next {
    match key {
        Key::Up => still(
            with_modal(s, ModalV::PairPorts { ports, selected: index_up(selected) }),
        ),
        Key::Down => still(
            with_modal(s, ModalV::PairPorts { ports, selected: index_down(selected, ports.len()) }),
        ),
        Key::Enter => if selected < ports.len() {
            start_cable(s, ports[selected as int])
        } else {
            still(with_modal(s, ModalV::PairPorts { ports, selected }))
        },
        Key::Esc => still(s),
        Key::Char('q') => still(s),
        _ => still(with_modal(s, ModalV::PairPorts { ports, selected })),
    }
}

/// The queue of a node as it is shown.
pub open spec fn queue_of(s: DashboardV, node: u32) -> Seq<crate::payload::PendingEntryV> {
    match position(s.nodes, node) {
        Some(i) => s.nodes[i].pending,
        None => Seq::empty(),
    }
}

#[verifier::opaque]
pub open spec fn pending_key(s: DashboardV, node: u32, selected: usize, key: Key) -> Next {
    let queue = queue_of(s, node);
    match key {
        Key::Up => still(with_modal(s, ModalV::Pending { node, selected: index_up(selected) })),
        Key::Down => still(
            with_modal(s, ModalV::Pending { node, selected: index_down(selected, queue.len()) }),
        ),
        Key::Delete => dequeue(s, node, selected),
        Key::Char('x') => dequeue(s, node, selected),
        Key::Esc => still(s),
        Key::Char('q') => still(s),
        _ => still(with_modal(s, ModalV::Pending { node, selected })),
    }
}

/// Drops the chosen entry of a node's queue.
pub open spec fn dequeue(s: DashboardV, node: u32, selected: usize) -> Next {
    let queue = queue_of(s, node);
    let n = if selected < queue.len() {
        request(
            s,
            "queue_drop"@,
            RpcParamsV { item: Some(queue[selected as int].item as u64), ..node_params(node) },
        )
    } else {
        still(s)
    };
    Next { s: with_modal(n.s, ModalV::Pending { node, selected }), act: n.act }
}

/// A key while a window is open; `s` is the state with the window closed.
#[verifier::opaque]
pub open spec fn modal_key(
    s: DashboardV,
    m: ModalV,
    key: Key,
    now: u64,
    ports: Seq<Seq<char>>,
) -> Next {
    let yes = key == Key::Enter || key == Key::Char('y');
    match m {
        ModalV::ConfirmRemove(node) => if yes {
            request(s, "node_remove"@, node_params(node))
        } else {
            still(s)
        },
        ModalV::Rename { node, buf } => rename_key(s, node, buf, key),
        ModalV::ConfirmReveal(node) => if yes {
            request(s, "reveal_key"@, node_params(node))
        } else {
            still(s)
        },
        ModalV::Key { .. } => still(s),
        ModalV::PairMenu { selected } => menu_key(s, selected, key, now, ports),
        ModalV::PairOta { .. } => if key == Key::Esc {
            request(s, "pairing_cancel"@, no_params())
        } else {
            still(with_modal(s, m))
        },
        ModalV::PairCatch { .. } => if key == Key::Esc {
            still(s)
        } else {
            still(with_modal(s, m))
        },
        ModalV::PairPorts { ports: list, selected } => ports_key(s, list, selected, key),
        ModalV::PairRun { port: _, lines: _, failed } => if failed is None && key != Key::Esc {
            still(with_modal(s, m))
        } else {
            still(s)
        },
        ModalV::Info { .. } => still(s),
        ModalV::Pending { node, selected } => pending_key(s, node, selected, key),
    }
}

// ---- panes -------------------------------------------------------------------------

pub open spec fn clockwise(p: Pane) -> Pane {
    match p {
        Pane::Nodes => Pane::Radio,
        Pane::Radio => Pane::Mqtt,
        Pane::Mqtt => Pane::Log,
        Pane::Log => Pane::Shell,
        Pane::Shell => Pane::Nodes,
    }
}

pub open spec fn counter_clockwise(p: Pane) -> Pane {
    match p {
        Pane::Nodes => Pane::Shell,
        Pane::Shell => Pane::Log,
        Pane::Log => Pane::Mqtt,
        Pane::Mqtt => Pane::Radio,
        Pane::Radio => Pane::Nodes,
    }
}

/// Shows all messages, or only those of the selected node.
#[verifier::opaque]
pub open spec fn filter_toggled(s: DashboardV) -> DashboardV {
    DashboardV {
        mqtt_filter: match s.mqtt_filter {
            Some(_) => None,
            None => if s.selected < s.nodes.len() {
                Some(s.nodes[s.selected as int].addr)
            } else {
                None
            },
        },
        mqtt_scroll: 0,
        ..s
    }
}

/// A window about the selected node, if there is one.
pub open spec fn about_selected(s: DashboardV, what: spec_fn(NodeViewV) -> ModalV) -> DashboardV {
    if s.selected < s.nodes.len() {
        with_modal(s, what(s.nodes[s.selected as int]))
    } else {
        s
    }
}

pub open spec fn removal() -> spec_fn(NodeViewV) -> ModalV {
    |n: NodeViewV| ModalV::ConfirmRemove(n.addr)
}

pub open spec fn renaming() -> spec_fn(NodeViewV) -> ModalV {
    |n: NodeViewV| ModalV::Rename { node: n.addr, buf: n.name }
}

pub open spec fn revealing() -> spec_fn(NodeViewV) -> ModalV {
    |n: NodeViewV| ModalV::ConfirmReveal(n.addr)
}

pub open spec fn queueing() -> spec_fn(NodeViewV) -> ModalV {
    |n: NodeViewV| ModalV::Pending { node: n.addr, selected: 0 }
}

/// A key that acts on the nodes.
#[verifier::opaque]
pub open spec fn nodes_key(s: DashboardV, key: Key) -> DashboardV {
    match key {
        Key::Up => DashboardV { selected: index_up(s.selected), ..s },
        Key::Down => DashboardV { selected: index_down(s.selected, s.nodes.len()), ..s },
        Key::Enter => if s.nodes.len() > 0 {
            DashboardV { shell_node: s.selected, focus: Pane::Shell, ..s }
        } else {
            s
        },
        Key::Delete => about_selected(s, removal()),
        Key::Char('x') => about_selected(s, removal()),
        Key::F(6) => about_selected(s, renaming()),
        Key::Char('r') => about_selected(s, renaming()),
        Key::F(4) => about_selected(s, revealing()),
        Key::Char('k') => about_selected(s, revealing()),
        Key::Char('p') => about_selected(s, queueing()),
        Key::Char('f') => filter_toggled(s),
        Key::Char('q') => DashboardV { quit: true, ..s },
        _ => s,
    }
}

pub open spec fn with_line(s: DashboardV, l: LineV) -> DashboardV {
    DashboardV { line: l.left + l.right, cursor: bytes(l.left) as usize, ..s }
}

pub open spec fn recalled(s: DashboardV, i: int) -> DashboardV {
    DashboardV {
        hist_idx: Some(i as usize),
        line: s.history[i],
        cursor: bytes(s.history[i]) as usize,
        ..s
    }
}

pub open spec fn no_line(s: DashboardV) -> DashboardV {
    DashboardV { line: Seq::empty(), cursor: 0, ..s }
}

pub open spec fn history_back(s: DashboardV) -> DashboardV {
    if s.history.len() == 0 {
        s
    } else {
        recalled(
            s,
            match s.hist_idx {
                None => s.history.len() - 1,
                Some(i) => if i == 0 {
                    0
                } else {
                    i - 1
                },
            },
        )
    }
}

pub open spec fn history_forth(s: DashboardV, i: usize) -> DashboardV {
    if i + 1 < s.history.len() {
        recalled(s, i + 1)
    } else {
        no_line(DashboardV { hist_idx: None, ..s })
    }
}

/// Sends the line to the node whose dialog is shown.
#[verifier::opaque]
pub open spec fn submitted(s: DashboardV) -> Next {
    let line = trimmed(s.line);
    if line.len() == 0 {
        still(s)
    } else if s.shell_node >= s.nodes.len() {
        still(logged(s, "no node selected — pair one first (F2)"@))
    } else {
        let target = s.nodes[s.shell_node as int].addr;
        let n = one_more(s.next_req);
        let s1 = no_line(
            DashboardV { history: s.history.push(line), hist_idx: None, next_req: n, ..s },
        );
        Next {
            s: told(s1, target, DialogLineV::Sent(line)),
            act: Some(
                ActionV::Shell { node: target, id: "tui-sh-"@ + dec(n as nat), line, ttl_s: 0 },
            ),
        }
    }
}

/// The node before the one whose dialog is shown.
pub open spec fn shell_left(s: DashboardV) -> DashboardV {
    DashboardV { shell_node: index_up(s.shell_node), ..s }
}

/// The node behind the one whose dialog is shown.
pub open spec fn shell_right(s: DashboardV) -> DashboardV {
    DashboardV { shell_node: index_down(s.shell_node, s.nodes.len()), ..s }
}

pub open spec fn only_alt(m: Mods) -> bool {
    m == Mods { alt: true, ..no_mods() }
}

pub open spec fn only_ctrl(m: Mods) -> bool {
    m == Mods { ctrl: true, ..no_mods() }
}

pub open spec fn at_most_shift(m: Mods) -> bool {
    m == no_mods() || m == Mods { shift: true, ..no_mods() }
}

/// A letter in the dialog. On an empty line brackets change the node.
#[verifier::opaque]
pub open spec fn shell_char(s: DashboardV, c: char, mods: Mods) -> DashboardV {
    if c == '[' && s.line.len() == 0 {
        shell_left(s)
    } else if c == ']' && s.line.len() == 0 {
        shell_right(s)
    } else if c == 'u' && only_ctrl(mods) {
        no_line(s)
    } else if at_most_shift(mods) {
        with_line(s, typed(line_at(s.line, s.cursor), c))
    } else {
        s
    }
}

/// An arrow in the dialog: along the line, or with alt along the nodes.
#[verifier::opaque]
pub open spec fn shell_move(s: DashboardV, key: Key, mods: Mods) -> DashboardV {
    let l = line_at(s.line, s.cursor);
    match key {
        Key::Left => if only_alt(mods) {
            shell_left(s)
        } else {
            with_line(s, moved_left(l))
        },
        _ => if only_alt(mods) {
            shell_right(s)
        } else {
            with_line(s, moved_right(l))
        },
    }
}

/// An arrow in the dialog that goes through the history: upwards from an empty line, or
/// on from the entry that is shown.
#[verifier::opaque]
pub open spec fn shell_history(s: DashboardV, key: Key) -> DashboardV {
    match key {
        Key::Up => if s.line.len() == 0 || s.hist_idx is Some {
            history_back(s)
        } else {
            s
        },
        _ => match s.hist_idx {
            Some(i) => history_forth(s, i),
            None => s,
        },
    }
}

/// A key in the dialog.
#[verifier::opaque]
pub open spec fn shell_key(s: DashboardV, key: Key, mods: Mods) -> Next {
    match key {
        Key::Left => still(shell_move(s, key, mods)),
        Key::Right => still(shell_move(s, key, mods)),
        Key::Char(c) => still(shell_char(s, c, mods)),
        Key::Backspace => still(with_line(s, erased(line_at(s.line, s.cursor)))),
        Key::Up => still(shell_history(s, key)),
        Key::Down => still(shell_history(s, key)),
        Key::Enter => submitted(s),
        _ => still(s),
    }
}

/// Ten up, at most to the top.
pub open spec fn page_up(scroll: usize, len: nat) -> usize {
    if scroll + 10 <= len {
        (scroll + 10) as usize
    } else {
        len as usize
    }
}

pub open spec fn page_down(scroll: usize) -> usize {
    if scroll < 10 {
        0
    } else {
        (scroll - 10) as usize
    }
}

/// Clears what the focused pane shows; the log where that has nothing to clear.
#[verifier::opaque]
pub open spec fn feed_cleared(s: DashboardV) -> DashboardV {
    match s.focus {
        Pane::Mqtt => DashboardV { mqtt: Seq::empty(), mqtt_scroll: 0, ..s },
        Pane::Radio => DashboardV {
            ambient: Seq::empty(),
            rx_marks: Seq::empty(),
            tx_marks: Seq::empty(),
            ..s
        },
        _ => DashboardV { log: Seq::empty(), log_scroll: 0, ..s },
    }
}

/// A key that the focused pane takes.
#[verifier::opaque]
pub open spec fn pane_key(s: DashboardV, key: Key, mods: Mods) -> Next {
    match s.focus {
        Pane::Nodes => still(nodes_key(s, key)),
        Pane::Radio => still(
            if key == Key::Char('q') {
                DashboardV { quit: true, ..s }
            } else {
                s
            },
        ),
        Pane::Shell => shell_key(s, key, mods),
        Pane::Mqtt => still(
            match key {
                Key::PageUp => DashboardV { mqtt_scroll: page_up(s.mqtt_scroll, s.mqtt.len()), ..s },
                Key::PageDown => DashboardV { mqtt_scroll: page_down(s.mqtt_scroll), ..s },
                Key::Char('f') => filter_toggled(s),
                Key::Char('q') => DashboardV { quit: true, ..s },
                _ => s,
            },
        ),
        Pane::Log => still(
            match key {
                Key::PageUp => DashboardV { log_scroll: page_up(s.log_scroll, s.log.len()), ..s },
                Key::PageDown => DashboardV { log_scroll: page_down(s.log_scroll), ..s },
                Key::Char('q') => DashboardV { quit: true, ..s },
                _ => s,
            },
        ),
    }
}

/// A key while no window is open.
#[verifier::opaque]
pub open spec fn open_key(s: DashboardV, key: Key, mods: Mods) -> Next {
    match key {
        Key::F(10) => still(DashboardV { quit: true, ..s }),
        Key::F(1) => still(
            DashboardV {
                focus: if mods.shift {
                    counter_clockwise(s.focus)
                } else {
                    clockwise(s.focus)
                },
                ..s
            },
        ),
        Key::F(13) => still(DashboardV { focus: counter_clockwise(s.focus), ..s }),
        Key::F(3) => still(DashboardV { zoom: !s.zoom, ..s }),
        Key::F(9) => Next {
            s: DashboardV { mouse: !s.mouse, ..s },
            act: Some(ActionV::CaptureMouse(!s.mouse)),
        },
        Key::F(5) => still(DashboardV { paused: !s.paused, ..s }),
        Key::F(7) => still(filter_toggled(s)),
        Key::F(4) => still(nodes_key(s, key)),
        Key::F(6) => still(nodes_key(s, key)),
        Key::F(8) => still(feed_cleared(s)),
        Key::F(2) => still(with_modal(s, ModalV::PairMenu { selected: 0 })),
        Key::Delete => if s.focus != Pane::Shell {
            still(nodes_key(s, Key::Delete))
        } else {
            pane_key(s, key, mods)
        },
        Key::Backspace => if s.focus != Pane::Shell {
            still(nodes_key(s, Key::Delete))
        } else {
            pane_key(s, key, mods)
        },
        Key::Char('c') => if only_ctrl(mods) {
            still(DashboardV { quit: true, ..s })
        } else {
            pane_key(s, key, mods)
        },
        _ => pane_key(s, key, mods),
    }
}

/// A key was pressed; `now` is the time in milliseconds, `ports` the serial ports.
pub open spec fn key_pressed(
    s: DashboardV,
    key: Key,
    mods: Mods,
    now: u64,
    ports: Seq<Seq<char>>,
) -> Next {
    match s.modal {
        Some(m) => modal_key(DashboardV { modal: None, ..s }, m, key, now, ports),
        None => open_key(s, key, mods),
    }
}

// ---- exec: modal windows -----------------------------------------------------------

fn up(i: usize) -> (r: usize)
    ensures
        r == index_up(i),
{
    i.saturating_sub(1)
}

fn down(i: usize, count: usize) -> (r: usize)
    ensures
        r == index_down(i, count as nat),
{
    if count == 0 {
        0
    } else if i < count - 1 {
        i + 1
    } else {
        count - 1
    }
}

fn params_for(node: u32) -> (r: RpcParams)
    ensures
        r.deep_view() == node_params(node),
{
    let mut p = RpcParams::none();
    p.node = Some(node_hex(node));
    p
}

fn find_node(nodes: &Vec<NodeView>, addr: u32) -> (r: Option<usize>)
    ensures
        match r {
            Some(i) => i < nodes@.len() && position(nodes.deep_view(), addr) == Some(i as int),
            None => position(nodes.deep_view(), addr) is None,
        },
{
    crate::dashboard::position_of(nodes, addr)
}

impl Dashboard {
    fn set_modal(&mut self, m: Modal)
        ensures
            dashboard_ok(old(self)@) ==> dashboard_ok(final(self)@),
            final(self)@ == with_modal(old(self)@, m.deep_view()),
    {
        self.modal = Some(m);
    }

    fn rpc(&mut self, op: &str, params: RpcParams) -> (r: Option<Action>)
        ensures
            dashboard_ok(old(self)@) ==> dashboard_ok(final(self)@),
            (Next { s: final(self)@, act: r.deep_view() }) == request(
                old(self)@,
                op@,
                params.deep_view(),
            ),
    {
        self.next_req = self.next_req.saturating_add(1);
        let id = cat2("tui-", dec_u64(self.next_req).as_str());
        Some(Action::Send(FrontendCmd::Rpc(RpcRequest { id, op: op.to_owned(), params })))
    }

    pub(crate) fn begin_cable(&mut self, port: String) -> (r: Option<Action>)
        ensures
            dashboard_ok(old(self)@) ==> dashboard_ok(final(self)@),
            (Next { s: final(self)@, act: r.deep_view() }) == start_cable(old(self)@, port@),
    {
        let lines: Vec<String> = Vec::new();
        assert(lines.deep_view() =~= Seq::<Seq<char>>::empty());
        self.cable = true;
        self.set_modal(Modal::PairRun { port: port.clone(), lines, failed: None });
        Some(Action::StartCable(port))
    }

    fn on_rename_key(&mut self, node: u32, buf: String, key: Key) -> (r: Option<Action>)
        ensures
            dashboard_ok(old(self)@) ==> dashboard_ok(final(self)@),
            (Next { s: final(self)@, act: r.deep_view() }) == rename_key(
                old(self)@,
                node,
                buf@,
                key,
            ),
    {
        proof {
            reveal(rename_key);
        }
        match key {
            Key::Enter => {
                if buf.as_str().unicode_len() > 0 {
                    let mut p = params_for(node);
                    p.name = Some(buf);
                    self.rpc("node_rename", p)
                } else {
                    None
                }
            },
            Key::Esc => None,
            Key::Backspace => {
                let v = chars_of(buf.as_str());
                let shorter = if v.len() > 0 {
                    let t = text_of(&v, 0, v.len() - 1);
                    assert(t@ =~= buf@.drop_last());
                    t
                } else {
                    buf
                };
                self.set_modal(Modal::Rename { node, buf: shorter });
                None
            },
            Key::Char(c) => {
                let mut longer = buf;
                if byte_len(longer.as_str()) < NAME_MAX {
                    push_char(&mut longer, c);
                }
                self.set_modal(Modal::Rename { node, buf: longer });
                None
            },
            _ => {
                self.set_modal(Modal::Rename { node, buf });
                None
            },
        }
    }

    fn on_menu_enter(&mut self, selected: usize, now: u64, ports: Vec<String>) -> (r: Option<Action>)
        ensures
            dashboard_ok(old(self)@) ==> dashboard_ok(final(self)@),
            (Next { s: final(self)@, act: r.deep_view() }) == menu_enter(
                old(self)@,
                selected,
                now,
                ports.deep_view(),
            ),
    {
        if selected == 0 {
            let mut p = RpcParams::none();
            p.window_s = Some(60);
            let act = self.rpc("node_add_ota", p);
            self.set_modal(Modal::PairOta { opened_at: now, seen_open: false });
            act
        } else if selected == 1 {
            self.last_port_poll = now;
            self.set_modal(
                Modal::PairCatch { baseline: ports, deadline: now.saturating_add(CATCH_MS) },
            );
            None
        } else {
            self.set_modal(Modal::PairPorts { ports, selected: 0 });
            None
        }
    }

    fn on_menu_key(
        &mut self,
        selected: usize,
        key: Key,
        now: u64,
        ports: Vec<String>,
    ) -> (r: Option<Action>)
        ensures
            dashboard_ok(old(self)@) ==> dashboard_ok(final(self)@),
            (Next { s: final(self)@, act: r.deep_view() }) == menu_key(
                old(self)@,
                selected,
                key,
                now,
                ports.deep_view(),
            ),
    {
        proof {
            reveal(menu_key);
        }
        match key {
            Key::Up => {
                self.set_modal(Modal::PairMenu { selected: up(selected) });
                None
            },
            Key::Down => {
                self.set_modal(Modal::PairMenu { selected: down(selected, 3) });
                None
            },
            Key::Enter => self.on_menu_enter(selected, now, ports),
            Key::Esc => None,
            Key::Char('q') => None,
            _ => {
                self.set_modal(Modal::PairMenu { selected });
                None
            },
        }
    }

    fn on_ports_key(&mut self, ports: Vec<String>, selected: usize, key: Key) -> (r: Option<Action>)
        ensures
            dashboard_ok(old(self)@) ==> dashboard_ok(final(self)@),
            (Next { s: final(self)@, act: r.deep_view() }) == ports_key(
                old(self)@,
                ports.deep_view(),
                selected,
                key,
            ),
    {
        proof {
            reveal(ports_key);
        }
        match key {
            Key::Up => {
                self.set_modal(Modal::PairPorts { ports, selected: up(selected) });
                None
            },
            Key::Down => {
                let n: usize = ports.len();
                self.set_modal(Modal::PairPorts { ports, selected: down(selected, n) });
                None
            },
            Key::Enter => {
                if selected < ports.len() {
                    let p = ports[selected].clone();
                    self.begin_cable(p)
                } else {
                    self.set_modal(Modal::PairPorts { ports, selected });
                    None
                }
            },
            Key::Esc => None,
            Key::Char('q') => None,
            _ => {
                self.set_modal(Modal::PairPorts { ports, selected });
                None
            },
        }
    }

    fn on_dequeue(&mut self, node: u32, selected: usize) -> (r: Option<Action>)
        ensures
            dashboard_ok(old(self)@) ==> dashboard_ok(final(self)@),
            (Next { s: final(self)@, act: r.deep_view() }) == dequeue(old(self)@, node, selected),
    {
        let item: Option<u16> = match find_node(&self.nodes, node) {
            Some(i) => if selected < self.nodes[i].pending.len() {
                Some(self.nodes[i].pending[selected].item)
            } else {
                None
            },
            None => None,
        };
        let act = match item {
            Some(it) => {
                let mut p = params_for(node);
                p.item = Some(it as u64);
                self.rpc("queue_drop", p)
            },
            None => None,
        };
        self.set_modal(Modal::Pending { node, selected });
        act
    }

    fn on_pending_key(&mut self, node: u32, selected: usize, key: Key) -> (r: Option<Action>)
        ensures
            dashboard_ok(old(self)@) ==> dashboard_ok(final(self)@),
            (Next { s: final(self)@, act: r.deep_view() }) == pending_key(
                old(self)@,
                node,
                selected,
                key,
            ),
    {
        proof {
            reveal(pending_key);
        }
        match key {
            Key::Up => {
                self.set_modal(Modal::Pending { node, selected: up(selected) });
                None
            },
            Key::Down => {
                let n: usize = match find_node(&self.nodes, node) {
                    Some(i) => self.nodes[i].pending.len(),
                    None => 0,
                };
                self.set_modal(Modal::Pending { node, selected: down(selected, n) });
                None
            },
            Key::Delete => self.on_dequeue(node, selected),
            Key::Char('x') => self.on_dequeue(node, selected),
            Key::Esc => None,
            Key::Char('q') => None,
            _ => {
                self.set_modal(Modal::Pending { node, selected });
                None
            },
        }
    }

    /// A key while a window is open.
    fn handle_modal_key(&mut self, modal: Modal, key: Key, now: u64, ports: Vec<String>) -> (r:
        Option<Action>)
        ensures
            dashboard_ok(old(self)@) ==> dashboard_ok(final(self)@),
            (Next { s: final(self)@, act: r.deep_view() }) == modal_key(
                old(self)@,
                modal.deep_view(),
                key,
                now,
                ports.deep_view(),
            ),
    {
        proof {
            reveal(modal_key);
        }
        let yes = key == Key::Enter || key == Key::Char('y');
        match modal {
            Modal::ConfirmRemove(node) => {
                if yes {
                    self.rpc("node_remove", params_for(node))
                } else {
                    None
                }
            },
            Modal::Rename { node, buf } => self.on_rename_key(node, buf, key),
            Modal::ConfirmReveal(node) => {
                if yes {
                    self.rpc("reveal_key", params_for(node))
                } else {
                    None
                }
            },
            Modal::Key { .. } => None,
            Modal::PairMenu { selected } => self.on_menu_key(selected, key, now, ports),
            Modal::PairOta { opened_at, seen_open } => {
                if key == Key::Esc {
                    self.rpc("pairing_cancel", RpcParams::none())
                } else {
                    self.set_modal(Modal::PairOta { opened_at, seen_open });
                    None
                }
            },
            Modal::PairCatch { baseline, deadline } => {
                if key != Key::Esc {
                    self.set_modal(Modal::PairCatch { baseline, deadline });
                }
                None
            },
            Modal::PairPorts { ports: list, selected } => self.on_ports_key(list, selected, key),
            Modal::PairRun { port, lines, failed } => {
                if failed.is_none() && key != Key::Esc {
                    self.set_modal(Modal::PairRun { port, lines, failed });
                }
                None
            },
            Modal::Info { .. } => None,
            Modal::Pending { node, selected } => self.on_pending_key(node, selected, key),
        }
    }

    // ---- exec: panes ---------------------------------------------------------------

    fn toggle_mqtt_filter(&mut self)
        ensures
            dashboard_ok(old(self)@) ==> dashboard_ok(final(self)@),
            final(self)@ == filter_toggled(old(self)@),
    {
        proof {
            reveal(filter_toggled);
        }
        self.mqtt_filter = match self.mqtt_filter {
            Some(_) => None,
            None => if self.selected < self.nodes.len() {
                Some(self.nodes[self.selected].addr)
            } else {
                None
            },
        };
        self.mqtt_scroll = 0;
    }

    pub(crate) fn handle_nodes_key(&mut self, key: Key)
        ensures
            dashboard_ok(old(self)@) ==> dashboard_ok(final(self)@),
            final(self)@ == nodes_key(old(self)@, key),
    {
        proof {
            reveal(nodes_key);
        }
        let n: usize = self.nodes.len();
        let here = self.selected < n;
        match key {
            Key::Up => {
                self.selected = up(self.selected);
            },
            Key::Down => {
                self.selected = down(self.selected, n);
            },
            Key::Enter => {
                if n > 0 {
                    self.shell_node = self.selected;
                    self.focus = Pane::Shell;
                }
            },
            Key::Delete | Key::Char('x') => {
                if here {
                    let addr = self.nodes[self.selected].addr;
                    self.set_modal(Modal::ConfirmRemove(addr));
                }
            },
            Key::F(6) | Key::Char('r') => {
                if here {
                    let addr = self.nodes[self.selected].addr;
                    let buf = self.nodes[self.selected].name.clone();
                    self.set_modal(Modal::Rename { node: addr, buf });
                }
            },
            Key::F(4) | Key::Char('k') => {
                if here {
                    let addr = self.nodes[self.selected].addr;
                    self.set_modal(Modal::ConfirmReveal(addr));
                }
            },
            Key::Char('p') => {
                if here {
                    let addr = self.nodes[self.selected].addr;
                    self.set_modal(Modal::Pending { node: addr, selected: 0 });
                }
            },
            Key::Char('f') => self.toggle_mqtt_filter(),
            Key::Char('q') => {
                self.quit = true;
            },
            _ => {},
        }
    }

    fn set_line(&mut self, line: String, cursor: usize, Ghost(l): Ghost<LineV>)
        requires
            now_line((line, cursor), l),
        ensures
            final(self)@ == with_line(old(self)@, l),
            cursor_ok(final(self)@.line, final(self)@.cursor),
    {
        proof {
            lemma_line(line@, cursor, l);
        }
        self.line = line;
        self.cursor = cursor;
    }

    fn clear_line(&mut self)
        ensures
            final(self)@ == no_line(old(self)@),
            cursor_ok(final(self)@.line, final(self)@.cursor),
    {
        self.line = String::new();
        self.cursor = 0;
        proof {
            lemma_home(self.line@);
        }
    }

    fn recall(&mut self, i: usize)
        requires
            i < old(self).history@.len(),
        ensures
            final(self)@ == recalled(old(self)@, i as int),
            cursor_ok(final(self)@.line, final(self)@.cursor),
    {
        self.hist_idx = Some(i);
        self.line = self.history[i].clone();
        self.cursor = line_edit::end_of(self.line.as_str());
        proof {
            lemma_line(self.line@, self.cursor, LineV { left: self.line@, right: Seq::empty() });
        }
    }

    fn submit_line(&mut self) -> (r: Option<Action>)
        requires
            dashboard_ok(old(self)@),
        ensures
            dashboard_ok(final(self)@),
            (Next { s: final(self)@, act: r.deep_view() }) == submitted(old(self)@),
    {
        proof {
            reveal(submitted);
        }
        let line = trim(self.line.as_str()).to_owned();
        if line.as_str().unicode_len() == 0 {
            return None;
        }
        if self.shell_node >= self.nodes.len() {
            self.push_log("no node selected — pair one first (F2)".to_owned());
            return None;
        }
        let target = self.nodes[self.shell_node].addr;
        push_deep(&mut self.history, line.clone());
        self.hist_idx = None;
        self.clear_line();
        self.next_req = self.next_req.saturating_add(1);
        let id = cat2("tui-sh-", dec_u64(self.next_req).as_str());
        self.dialog_push(target, DialogLine::Sent(line.clone()));
        Some(
            Action::Send(
                FrontendCmd::Shell { node: target, req: ShellReq { id, line, ttl_s: 0 } },
            ),
        )
    }

    fn handle_shell_char(&mut self, c: char, mods: Mods)
        requires
            dashboard_ok(old(self)@),
        ensures
            dashboard_ok(final(self)@),
            final(self)@ == shell_char(old(self)@, c, mods),
    {
        proof {
            reveal(shell_char);
        }
        let empty = self.line.as_str().unicode_len() == 0;
        let n: usize = self.nodes.len();
        if c == '[' && empty {
            self.shell_node = up(self.shell_node);
        } else if c == ']' && empty {
            self.shell_node = down(self.shell_node, n);
        } else if c == 'u' && mods.only_ctrl() {
            self.clear_line();
        } else if mods.at_most_shift() {
            let ghost l = line_at(self.line@, self.cursor);
            let (line, cursor) = line_edit::insert(self.line.as_str(), self.cursor, c);
            self.set_line(line, cursor, Ghost(typed(l, c)));
        }
    }

    fn handle_shell_move(&mut self, key: Key, mods: Mods)
        requires
            dashboard_ok(old(self)@),
        ensures
            dashboard_ok(final(self)@),
            final(self)@ == shell_move(old(self)@, key, mods),
    {
        proof {
            reveal(shell_move);
        }
        let ghost l = line_at(self.line@, self.cursor);
        proof {
            lemma_line(self.line@, self.cursor, l);
        }
        let n: usize = self.nodes.len();
        let left = key == Key::Left;
        if mods.only_alt() {
            self.shell_node = if left { up(self.shell_node) } else { down(self.shell_node, n) };
        } else if left {
            self.cursor = line_edit::left_of(self.line.as_str(), self.cursor);
            proof {
                lemma_line(self.line@, self.cursor, moved_left(l));
            }
        } else {
            self.cursor = line_edit::right_of(self.line.as_str(), self.cursor);
            proof {
                lemma_line(self.line@, self.cursor, moved_right(l));
            }
        }
    }

    fn handle_shell_history(&mut self, key: Key)
        requires
            dashboard_ok(old(self)@),
        ensures
            dashboard_ok(final(self)@),
            final(self)@ == shell_history(old(self)@, key),
    {
        proof {
            reveal(shell_history);
        }
        let count: usize = self.history.len();
        if key == Key::Up {
            if (self.line.as_str().unicode_len() == 0 || self.hist_idx.is_some()) && count > 0 {
                let i: usize = match self.hist_idx {
                    None => count - 1,
                    Some(i) => if i == 0 {
                        0
                    } else {
                        i - 1
                    },
                };
                self.recall(i);
            }
        } else if let Some(i) = self.hist_idx {
            if i + 1 < count {
                self.recall(i + 1);
            } else {
                self.hist_idx = None;
                self.clear_line();
            }
        }
    }

    fn handle_shell_key(&mut self, key: Key, mods: Mods) -> (r: Option<Action>)
        requires
            dashboard_ok(old(self)@),
        ensures
            dashboard_ok(final(self)@),
            (Next { s: final(self)@, act: r.deep_view() }) == shell_key(old(self)@, key, mods),
    {
        proof {
            reveal(shell_key);
        }
        match key {
            Key::Left | Key::Right => {
                self.handle_shell_move(key, mods);
                None
            },
            Key::Char(c) => {
                self.handle_shell_char(c, mods);
                None
            },
            Key::Backspace => {
                let ghost l = line_at(self.line@, self.cursor);
                let (line, cursor) = line_edit::erase(self.line.as_str(), self.cursor);
                self.set_line(line, cursor, Ghost(erased(l)));
                None
            },
            Key::Up | Key::Down => {
                self.handle_shell_history(key);
                None
            },
            Key::Enter => self.submit_line(),
            _ => None,
        }
    }

    fn clear_feed(&mut self)
        ensures
            dashboard_ok(old(self)@) ==> dashboard_ok(final(self)@),
            final(self)@ == feed_cleared(old(self)@),
    {
        proof {
            reveal(feed_cleared);
        }
        match self.focus {
            Pane::Mqtt => {
                self.mqtt = VecDeque::new();
                self.mqtt_scroll = 0;
                assert(self@.mqtt =~= Seq::<MqttMsgV>::empty());
            },
            Pane::Radio => {
                self.ambient = VecDeque::new();
                self.rx_marks = VecDeque::new();
                self.tx_marks = VecDeque::new();
            },
            _ => {
                self.log = VecDeque::new();
                self.log_scroll = 0;
                assert(self@.log =~= Seq::<Seq<char>>::empty());
            },
        }
    }

    fn handle_pane_key(&mut self, key: Key, mods: Mods) -> (r: Option<Action>)
        requires
            dashboard_ok(old(self)@),
        ensures
            dashboard_ok(final(self)@),
            (Next { s: final(self)@, act: r.deep_view() }) == pane_key(old(self)@, key, mods),
    {
        proof {
            reveal(pane_key);
        }
        match self.focus {
            Pane::Nodes => {
                self.handle_nodes_key(key);
                None
            },
            Pane::Radio => {
                if key == Key::Char('q') {
                    self.quit = true;
                }
                None
            },
            Pane::Shell => self.handle_shell_key(key, mods),
            Pane::Mqtt => {
                let n: usize = self.mqtt.len();
                match key {
                    Key::PageUp => {
                        let m: usize = self.mqtt_scroll.saturating_add(10);
                        self.mqtt_scroll = if m <= n { m } else { n };
                    },
                    Key::PageDown => {
                        self.mqtt_scroll = self.mqtt_scroll.saturating_sub(10);
                    },
                    Key::Char('f') => self.toggle_mqtt_filter(),
                    Key::Char('q') => {
                        self.quit = true;
                    },
                    _ => {},
                }
                None
            },
            Pane::Log => {
                let n: usize = self.log.len();
                match key {
                    Key::PageUp => {
                        let m: usize = self.log_scroll.saturating_add(10);
                        self.log_scroll = if m <= n { m } else { n };
                    },
                    Key::PageDown => {
                        self.log_scroll = self.log_scroll.saturating_sub(10);
                    },
                    Key::Char('q') => {
                        self.quit = true;
                    },
                    _ => {},
                }
                None
            },
        }
    }

    fn handle_open_key(&mut self, key: Key, mods: Mods) -> (r: Option<Action>)
        requires
            dashboard_ok(old(self)@),
        ensures
            dashboard_ok(final(self)@),
            (Next { s: final(self)@, act: r.deep_view() }) == open_key(old(self)@, key, mods),
    {
        proof {
            reveal(open_key);
        }
        match key {
            Key::F(10) => {
                self.quit = true;
                None
            },
            Key::F(1) => {
                self.focus = if mods.shift {
                    walk_back(self.focus)
                } else {
                    walk(self.focus)
                };
                None
            },
            Key::F(13) => {
                self.focus = walk_back(self.focus);
                None
            },
            Key::F(3) => {
                self.zoom = !self.zoom;
                None
            },
            Key::F(9) => {
                self.mouse = !self.mouse;
                Some(Action::CaptureMouse(self.mouse))
            },
            Key::F(5) => {
                self.paused = !self.paused;
                None
            },
            Key::F(7) => {
                self.toggle_mqtt_filter();
                None
            },
            Key::F(4) | Key::F(6) => {
                self.handle_nodes_key(key);
                None
            },
            Key::F(8) => {
                self.clear_feed();
                None
            },
            Key::F(2) => {
                self.set_modal(Modal::PairMenu { selected: 0 });
                None
            },
            Key::Delete | Key::Backspace => {
                if self.focus != Pane::Shell {
                    self.handle_nodes_key(Key::Delete);
                    None
                } else {
                    self.handle_pane_key(key, mods)
                }
            },
            Key::Char('c') => {
                if mods.only_ctrl() {
                    self.quit = true;
                    None
                } else {
                    self.handle_pane_key(key, mods)
                }
            },
            _ => self.handle_pane_key(key, mods),
        }
    }

    /// Whether a key needs the list of serial ports: only the choice of a way to pair
    /// over the cable does.
    pub fn wants_ports(&self, key: Key) -> (r: bool)
        ensures
            r == (key == Key::Enter && match self@.modal {
                Some(ModalV::PairMenu { selected }) => selected > 0,
                _ => false,
            }),
    {
        match &self.modal {
            Some(Modal::PairMenu { selected }) => key == Key::Enter && *selected > 0,
            _ => false,
        }
    }

    /// A key was pressed. `now` is the time in milliseconds, `ports` the serial ports
    /// besides the gateway's own, for the keys that want them.
    pub fn handle_key(&mut self, key: Key, mods: Mods, now: u64, ports: Vec<String>) -> (r: Option<
        Action,
    >)
        requires
            dashboard_ok(old(self)@),
        ensures
            dashboard_ok(final(self)@),
            (Next { s: final(self)@, act: r.deep_view() }) == key_pressed(
                old(self)@,
                key,
                mods,
                now,
                ports.deep_view(),
            ),
    {
        match self.modal.take() {
            Some(m) => self.handle_modal_key(m, key, now, ports),
            None => self.handle_open_key(key, mods),
        }
    }
}

fn walk(p: Pane) -> (r: Pane)
    ensures
        r == clockwise(p),
{
    match p {
        Pane::Nodes => Pane::Radio,
        Pane::Radio => Pane::Mqtt,
        Pane::Mqtt => Pane::Log,
        Pane::Log => Pane::Shell,
        Pane::Shell => Pane::Nodes,
    }
}

fn walk_back(p: Pane) -> (r: Pane)
    ensures
        r == counter_clockwise(p),
{
    match p {
        Pane::Nodes => Pane::Shell,
        Pane::Shell => Pane::Log,
        Pane::Log => Pane::Mqtt,
        Pane::Mqtt => Pane::Radio,
        Pane::Radio => Pane::Nodes,
    }
}

// ---- laws --------------------------------------------------------------------------

/// Walking back undoes walking on, and five steps lead round.
pub proof fn law_focus_walks_both_ways(p: Pane)
    ensures
        counter_clockwise(clockwise(p)) == p,
        clockwise(counter_clockwise(p)) == p,
        clockwise(clockwise(clockwise(clockwise(clockwise(p))))) == p,
{
}

/// The filter chooses what is shown and drops nothing: every message stays.
pub proof fn law_filter_keeps_the_feed(s: DashboardV)
    ensures
        filter_toggled(s).mqtt == s.mqtt,
        s.mqtt_filter is Some ==> filter_toggled(s).mqtt_filter is None,
{
    reveal(filter_toggled);
}

/// A key is revealed, a node removed or renamed only by a key pressed in the window that
/// asks for it: without a window no key makes such a request.
pub proof fn law_no_request_without_confirmation(s: DashboardV, key: Key, mods: Mods)
    requires
        s.modal is None,
    ensures
        !(open_key(s, key, mods).act matches Some(ActionV::Rpc(_))),
{
    reveal(open_key);
    reveal(pane_key);
    reveal(shell_key);
    reveal(submitted);
}

} // verus!

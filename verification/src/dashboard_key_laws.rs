//! What the keys of the frontend do, said of the panes, the windows and the requests.

use crate::console_laws::{kept, law_panes_keep_the_newest};
use crate::dashboard::{has_addr, told, DashboardV, DialogLineV, ModalV, Pane};
use crate::dashboard_event_laws::same_board;
use crate::dashboard_keys::{
    feed_cleared, filter_toggled, key_pressed, menu_key, modal_key, nodes_key, open_key, pane_key,
    pending_key, ports_key, rename_key, shell_char, shell_history, shell_key, shell_move, submitted,
    ActionV, Next,
};
use crate::line_edit::{bytes, lemma_line, LineV};
use crate::nodes_laws::{just_node, nothing};
use crate::payload::{RpcParamsV, RpcRequestV};
use crate::style::{no_mods, Key, Mods};
use crate::text::{dec, lemma_first_where, trimmed};
use crate::topics::addr_text;
use vstd::prelude::*;

verus! {

/// A key did nothing but make `t` of the state.
pub open spec fn just(n: Next, t: DashboardV) -> bool {
    n.act is None && same_board(n.s, t)
}

/// The number of the next request.
pub open spec fn next_number(s: DashboardV) -> u64 {
    if s.next_req < u64::MAX {
        (s.next_req + 1) as u64
    } else {
        s.next_req
    }
}

/// A key asked the gateway for something, under a number of its own, and made `t` of the rest
/// of the state.
pub open spec fn asked(
    n: Next,
    s: DashboardV,
    op: Seq<char>,
    params: RpcParamsV,
    t: DashboardV,
) -> bool {
    &&& n.act == Some(
        ActionV::Rpc(RpcRequestV { id: "tui-"@ + dec(next_number(s) as nat), op, params }),
    )
    &&& same_board(n.s, DashboardV { next_req: next_number(s), ..t })
}

/// A window over the panes.
pub open spec fn under(s: DashboardV, m: ModalV) -> DashboardV {
    DashboardV { modal: Some(m), ..s }
}

/// While a window is open the keys are its own, and without one they are the panes'.
pub proof fn law_windows_take_the_keys(
    s: DashboardV,
    m: ModalV,
    key: Key,
    mods: Mods,
    now: u64,
    ports: Seq<Seq<char>>,
)
    ensures
        s.modal == Some(m) ==> key_pressed(s, key, mods, now, ports) == modal_key(
            (DashboardV { modal: None, ..s }),
            m,
            key,
            now,
            ports,
        ),
        s.modal is None ==> key_pressed(s, key, mods, now, ports) == open_key(s, key, mods),
{
}

/// A node is removed, and its key asked for, only once that is confirmed with Enter or y; any
/// other key closes the window.
pub proof fn law_confirmations(
    s: DashboardV,
    node: u32,
    key: Key,
    now: u64,
    ports: Seq<Seq<char>>,
)
    ensures
        ({
            let yes = key == Key::Enter || key == Key::Char('y');
            let rm = modal_key(s, ModalV::ConfirmRemove(node), key, now, ports);
            let rv = modal_key(s, ModalV::ConfirmReveal(node), key, now, ports);
            &&& yes ==> asked(rm, s, "node_remove"@, just_node(addr_text(node)), s)
            &&& yes ==> asked(rv, s, "reveal_key"@, just_node(addr_text(node)), s)
            &&& !yes ==> just(rm, s) && just(rv, s)
        }),
{
    reveal(modal_key);
}

/// A name is typed, up to sixteen bytes, and Enter asks for it unless it is empty.
pub proof fn law_renaming(
    s: DashboardV,
    node: u32,
    buf: Seq<char>,
    c: char,
    now: u64,
    ports: Seq<Seq<char>>,
)
    ensures
        ({
            let k = |key: Key| modal_key(s, ModalV::Rename { node, buf }, key, now, ports);
            &&& buf.len() > 0 ==> asked(
                k(Key::Enter),
                s,
                "node_rename"@,
                RpcParamsV { name: Some(buf), ..just_node(addr_text(node)) },
                s,
            )
            &&& buf.len() == 0 ==> just(k(Key::Enter), s)
            &&& just(k(Key::Esc), s)
            &&& buf.len() > 0 ==> just(
                k(Key::Backspace),
                under(s, ModalV::Rename { node, buf: buf.drop_last() }),
            )
            &&& bytes(buf) < 16 ==> just(
                k(Key::Char(c)),
                under(s, ModalV::Rename { node, buf: buf.push(c) }),
            )
            &&& bytes(buf) >= 16 ==> just(k(Key::Char(c)), under(s, ModalV::Rename { node, buf }))
        }),
{
    reveal(modal_key);
    reveal(rename_key);
}

/// The ways to pair: over the air, by catching a port that appears, and by choosing one.
pub proof fn law_the_pairing_menu(
    s: DashboardV,
    selected: usize,
    now: u64,
    ports: Seq<Seq<char>>,
)
    requires
        selected < 3,
        now <= u64::MAX - 60_000,
    ensures
        ({
            let k = |key: Key| modal_key(s, ModalV::PairMenu { selected }, key, now, ports);
            &&& selected == 0 ==> asked(
                k(Key::Enter),
                s,
                "node_add_ota"@,
                RpcParamsV { window_s: Some(60u64), ..nothing() },
                under(s, ModalV::PairOta { opened_at: now, seen_open: false }),
            )
            &&& selected == 1 ==> just(
                k(Key::Enter),
                under(
                    DashboardV { last_port_poll: now, ..s },
                    ModalV::PairCatch { baseline: ports, deadline: (now + 60_000) as u64 },
                ),
            )
            &&& selected == 2 ==> just(
                k(Key::Enter),
                under(s, ModalV::PairPorts { ports, selected: 0 }),
            )
            &&& selected > 0 ==> just(
                k(Key::Up),
                under(s, ModalV::PairMenu { selected: (selected - 1) as usize }),
            )
            &&& selected == 0 ==> just(k(Key::Up), under(s, ModalV::PairMenu { selected: 0 }))
            &&& selected < 2 ==> just(
                k(Key::Down),
                under(s, ModalV::PairMenu { selected: (selected + 1) as usize }),
            )
            &&& selected == 2 ==> just(k(Key::Down), under(s, ModalV::PairMenu { selected: 2 }))
            &&& just(k(Key::Esc), s) && just(k(Key::Char('q')), s)
        }),
{
    reveal(modal_key);
    reveal(menu_key);
}

/// The cable is taken up on the port that is chosen.
pub proof fn law_ports_are_chosen(
    s: DashboardV,
    list: Seq<Seq<char>>,
    selected: usize,
    now: u64,
    ports: Seq<Seq<char>>,
)
    requires
        selected < list.len(),
    ensures
        ({
            let k = |key: Key|
                modal_key(s, ModalV::PairPorts { ports: list, selected }, key, now, ports);
            let enter = k(Key::Enter);
            &&& enter.act == Some(ActionV::StartCable(list[selected as int]))
            &&& same_board(
                enter.s,
                under(
                    DashboardV { cable: true, ..s },
                    ModalV::PairRun {
                        port: list[selected as int],
                        lines: Seq::empty(),
                        failed: None,
                    },
                ),
            )
            &&& selected > 0 ==> just(
                k(Key::Up),
                under(s, ModalV::PairPorts { ports: list, selected: (selected - 1) as usize }),
            )
            &&& selected + 1 < list.len() ==> just(
                k(Key::Down),
                under(s, ModalV::PairPorts { ports: list, selected: (selected + 1) as usize }),
            )
            &&& selected + 1 == list.len() ==> just(
                k(Key::Down),
                under(s, ModalV::PairPorts { ports: list, selected }),
            )
            &&& just(k(Key::Esc), s) && just(k(Key::Char('q')), s)
        }),
{
    reveal(modal_key);
    reveal(ports_key);
}

/// A line that waits for a node is dropped by its own number.
pub proof fn law_waiting_lines_are_dropped(
    s: DashboardV,
    node: u32,
    selected: usize,
    now: u64,
    ports: Seq<Seq<char>>,
    i: int,
)
    requires
        0 <= i < s.nodes.len(),
        s.nodes[i].addr == node,
        forall|j: int| 0 <= j < i ==> (#[trigger] s.nodes[j]).addr != node,
    ensures
        ({
            let m = ModalV::Pending { node, selected };
            let k = |key: Key| modal_key(s, m, key, now, ports);
            let queue = s.nodes[i].pending;
            &&& selected < queue.len() ==> asked(
                k(Key::Delete),
                s,
                "queue_drop"@,
                RpcParamsV {
                    item: Some(queue[selected as int].item as u64),
                    ..just_node(addr_text(node))
                },
                under(s, m),
            ) && k(Key::Char('x')) == k(Key::Delete)
            &&& selected >= queue.len() ==> just(k(Key::Delete), under(s, m)) && just(
                k(Key::Char('x')),
                under(s, m),
            )
            &&& selected > 0 ==> just(
                k(Key::Up),
                under(s, ModalV::Pending { node, selected: (selected - 1) as usize }),
            )
            &&& selected + 1 < queue.len() ==> just(
                k(Key::Down),
                under(s, ModalV::Pending { node, selected: (selected + 1) as usize }),
            )
            &&& just(k(Key::Esc), s) && just(k(Key::Char('q')), s)
        }),
{
    reveal(modal_key);
    reveal(pending_key);
    lemma_first_where(s.nodes, has_addr(node), i);
}

/// Esc ends a pairing; over the air that is asked of the gateway. What only shows something
/// is closed by any key.
pub proof fn law_windows_are_closed(
    s: DashboardV,
    key: Key,
    now: u64,
    ports: Seq<Seq<char>>,
    opened_at: u64,
    seen_open: bool,
    a: Seq<char>,
    b: Seq<char>,
    lines: Seq<Seq<char>>,
    node: u32,
)
    ensures
        ({
            let k = |m: ModalV, key: Key| modal_key(s, m, key, now, ports);
            let ota = ModalV::PairOta { opened_at, seen_open };
            let catch = ModalV::PairCatch { baseline: lines, deadline: opened_at };
            let run = ModalV::PairRun { port: a, lines, failed: None };
            let failed = ModalV::PairRun { port: a, lines, failed: Some(b) };
            &&& asked(k(ota, Key::Esc), s, "pairing_cancel"@, nothing(), s)
            &&& key != Key::Esc ==> just(k(ota, key), under(s, ota)) && just(
                k(catch, key),
                under(s, catch),
            ) && just(k(run, key), under(s, run))
            &&& just(k(catch, Key::Esc), s) && just(k(run, Key::Esc), s)
            &&& just(k(failed, key), s)
            &&& just(k(ModalV::Info { title: a, text: b }, key), s)
            &&& just(k(ModalV::Key { node, key: a, shown: now }, key), s)
        }),
{
    reveal(modal_key);
}

/// The keys that hold in every pane.
pub proof fn law_keys_of_all_panes(s: DashboardV, mods: Mods)
    ensures
        ({
            let k = |n: u8| open_key(s, Key::F(n), mods);
            &&& just(k(10), DashboardV { quit: true, ..s })
            &&& just(k(2), under(s, ModalV::PairMenu { selected: 0 }))
            &&& just(k(3), DashboardV { zoom: !s.zoom, ..s })
            &&& just(k(5), DashboardV { paused: !s.paused, ..s })
            &&& k(9).act == Some(ActionV::CaptureMouse(!s.mouse)) && same_board(
                k(9).s,
                DashboardV { mouse: !s.mouse, ..s },
            )
            &&& mods == (Mods { ctrl: true, ..no_mods() }) ==> just(
                open_key(s, Key::Char('c'), mods),
                DashboardV { quit: true, ..s },
            )
            &&& k(4) == (Next { s: nodes_key(s, Key::F(4)), act: None })
            &&& k(6) == (Next { s: nodes_key(s, Key::F(6)), act: None })
            &&& k(7) == (Next { s: filter_toggled(s), act: None })
            &&& k(8) == (Next { s: feed_cleared(s), act: None })
            &&& s.focus != Pane::Shell ==> open_key(s, Key::Delete, mods) == (Next {
                s: nodes_key(s, Key::Delete),
                act: None,
            }) && open_key(s, Key::Backspace, mods) == (Next {
                s: nodes_key(s, Key::Delete),
                act: None,
            })
        }),
{
    reveal(open_key);
}

/// F1 goes on to the next pane, with Shift to the one before.
pub proof fn law_panes_are_walked(s: DashboardV, mods: Mods)
    ensures
        ({
            let on = open_key(s, Key::F(1), mods).s.focus;
            let back = open_key(s, Key::F(13), mods).s.focus;
            &&& mods.shift ==> on == back
            &&& !mods.shift && s.focus == Pane::Nodes ==> on == Pane::Radio
            &&& !mods.shift && s.focus == Pane::Radio ==> on == Pane::Mqtt
            &&& !mods.shift && s.focus == Pane::Mqtt ==> on == Pane::Log
            &&& !mods.shift && s.focus == Pane::Log ==> on == Pane::Shell
            &&& !mods.shift && s.focus == Pane::Shell ==> on == Pane::Nodes
            &&& s.focus == Pane::Nodes ==> back == Pane::Shell
            &&& s.focus == Pane::Shell ==> back == Pane::Log
            &&& s.focus == Pane::Log ==> back == Pane::Mqtt
            &&& s.focus == Pane::Mqtt ==> back == Pane::Radio
            &&& s.focus == Pane::Radio ==> back == Pane::Nodes
        }),
{
    reveal(open_key);
}

/// What the keys open for the selected node, and how the selection moves.
pub proof fn law_keys_of_the_nodes(s: DashboardV)
    requires
        s.selected < s.nodes.len(),
    ensures
        ({
            let n = s.nodes[s.selected as int];
            let k = |key: Key| nodes_key(s, key);
            &&& same_board(k(Key::Delete), under(s, ModalV::ConfirmRemove(n.addr)))
            &&& same_board(k(Key::Char('x')), under(s, ModalV::ConfirmRemove(n.addr)))
            &&& same_board(k(Key::F(6)), under(s, ModalV::Rename { node: n.addr, buf: n.name }))
            &&& same_board(k(Key::Char('r')), under(s, ModalV::Rename { node: n.addr, buf: n.name }))
            &&& same_board(k(Key::F(4)), under(s, ModalV::ConfirmReveal(n.addr)))
            &&& same_board(k(Key::Char('k')), under(s, ModalV::ConfirmReveal(n.addr)))
            &&& same_board(
                k(Key::Char('p')),
                under(s, ModalV::Pending { node: n.addr, selected: 0 }),
            )
            &&& same_board(k(Key::Char('q')), DashboardV { quit: true, ..s })
            &&& same_board(
                k(Key::Enter),
                DashboardV { shell_node: s.selected, focus: Pane::Shell, ..s },
            )
            &&& s.selected > 0 ==> same_board(
                k(Key::Up),
                DashboardV { selected: (s.selected - 1) as usize, ..s },
            )
            &&& s.selected == 0 ==> same_board(k(Key::Up), s)
            &&& s.selected + 1 < s.nodes.len() ==> same_board(
                k(Key::Down),
                DashboardV { selected: (s.selected + 1) as usize, ..s },
            )
            &&& s.selected + 1 == s.nodes.len() ==> same_board(k(Key::Down), s)
        }),
{
    reveal(nodes_key);
}

/// Without a node the keys open nothing.
pub proof fn law_no_node_no_window(s: DashboardV)
    requires
        s.nodes.len() == 0,
    ensures
        same_board(nodes_key(s, Key::Delete), s),
        same_board(nodes_key(s, Key::F(6)), s),
        same_board(nodes_key(s, Key::F(4)), s),
        same_board(nodes_key(s, Key::Char('p')), s),
        same_board(nodes_key(s, Key::Enter), s),
{
    reveal(nodes_key);
}

/// The feed is narrowed to the selected node, and widened again.
pub proof fn law_the_filter(s: DashboardV)
    ensures
        s.mqtt_filter is Some ==> same_board(
            filter_toggled(s),
            DashboardV { mqtt_filter: None, mqtt_scroll: 0, ..s },
        ),
        s.mqtt_filter is None && s.selected < s.nodes.len() ==> same_board(
            filter_toggled(s),
            DashboardV {
                mqtt_filter: Some(s.nodes[s.selected as int].addr),
                mqtt_scroll: 0,
                ..s
            },
        ),
        s.mqtt_filter is None && s.selected >= s.nodes.len() ==> same_board(
            filter_toggled(s),
            DashboardV { mqtt_scroll: 0, ..s },
        ),
        same_board(nodes_key(s, Key::Char('f')), filter_toggled(s)),
{
    reveal(filter_toggled);
    reveal(nodes_key);
}

/// F8 clears the messages, the graph, or else the log.
pub proof fn law_feeds_are_cleared(s: DashboardV)
    ensures
        s.focus == Pane::Mqtt ==> same_board(
            feed_cleared(s),
            DashboardV { mqtt: Seq::empty(), mqtt_scroll: 0, ..s },
        ),
        s.focus == Pane::Radio ==> same_board(
            feed_cleared(s),
            DashboardV {
                ambient: Seq::empty(),
                rx_marks: Seq::empty(),
                tx_marks: Seq::empty(),
                ..s
            },
        ),
        s.focus != Pane::Mqtt && s.focus != Pane::Radio ==> same_board(
            feed_cleared(s),
            DashboardV { log: Seq::empty(), log_scroll: 0, ..s },
        ),
{
    reveal(feed_cleared);
}

/// The feeds are scrolled by ten lines, and not beyond their ends; q quits.
pub proof fn law_feeds_are_scrolled(s: DashboardV, mods: Mods)
    ensures
        ({
            let k = |key: Key| pane_key(s, key, mods);
            let quit = DashboardV { quit: true, ..s };
            &&& s.focus == Pane::Mqtt ==> {
                &&& s.mqtt_scroll + 10 <= s.mqtt.len() ==> just(
                    k(Key::PageUp),
                    DashboardV { mqtt_scroll: (s.mqtt_scroll + 10) as usize, ..s },
                )
                &&& s.mqtt_scroll + 10 > s.mqtt.len() ==> just(
                    k(Key::PageUp),
                    DashboardV { mqtt_scroll: s.mqtt.len() as usize, ..s },
                )
                &&& s.mqtt_scroll >= 10 ==> just(
                    k(Key::PageDown),
                    DashboardV { mqtt_scroll: (s.mqtt_scroll - 10) as usize, ..s },
                )
                &&& s.mqtt_scroll < 10 ==> just(
                    k(Key::PageDown),
                    DashboardV { mqtt_scroll: 0, ..s },
                )
                &&& just(k(Key::Char('f')), filter_toggled(s)) && just(k(Key::Char('q')), quit)
            }
            &&& s.focus == Pane::Log ==> {
                &&& s.log_scroll + 10 <= s.log.len() ==> just(
                    k(Key::PageUp),
                    DashboardV { log_scroll: (s.log_scroll + 10) as usize, ..s },
                )
                &&& s.log_scroll + 10 > s.log.len() ==> just(
                    k(Key::PageUp),
                    DashboardV { log_scroll: s.log.len() as usize, ..s },
                )
                &&& s.log_scroll >= 10 ==> just(
                    k(Key::PageDown),
                    DashboardV { log_scroll: (s.log_scroll - 10) as usize, ..s },
                )
                &&& s.log_scroll < 10 ==> just(k(Key::PageDown), DashboardV { log_scroll: 0, ..s })
                &&& just(k(Key::Char('q')), quit)
            }
            &&& s.focus == Pane::Radio ==> just(k(Key::Char('q')), quit)
            &&& s.focus == Pane::Nodes ==> forall|key: Key| #[trigger]
                pane_key(s, key, mods) == (Next { s: nodes_key(s, key), act: None })
            &&& s.focus == Pane::Shell ==> forall|key: Key| #[trigger]
                pane_key(s, key, mods) == shell_key(s, key, mods)
        }),
{
    reveal(pane_key);
}

/// Enter sends the line, without the white space around it, to the node of the shell, shows
/// it in the dialog and remembers it; without a node it is told that there is none.
pub proof fn law_lines_are_sent(s: DashboardV, mods: Mods)
    ensures
        ({
            let n = shell_key(s, Key::Enter, mods);
            let line = trimmed(s.line);
            let node = s.nodes[s.shell_node as int].addr;
            &&& line.len() == 0 ==> just(n, s)
            &&& line.len() > 0 && s.shell_node >= s.nodes.len() ==> just(
                n,
                DashboardV {
                    log: kept(s.log, "no node selected — pair one first (F2)"@, 1000),
                    ..s
                },
            )
            &&& line.len() > 0 && s.shell_node < s.nodes.len() ==> {
                &&& n.act == Some(
                    ActionV::Shell {
                        node,
                        id: "tui-sh-"@ + dec(next_number(s) as nat),
                        line,
                        ttl_s: 0,
                    },
                )
                &&& same_board(
                    n.s,
                    told(
                        DashboardV {
                            history: s.history.push(line),
                            hist_idx: None,
                            next_req: next_number(s),
                            line: Seq::empty(),
                            cursor: 0,
                            ..s
                        },
                        node,
                        DialogLineV::Sent(line),
                    ),
                )
            }
        }),
{
    reveal(shell_key);
    reveal(submitted);
    law_panes_keep_the_newest(s.log, "no node selected — pair one first (F2)"@, 1000);
}

/// A line with the cursor between `left` and `right`.
pub open spec fn with(s: DashboardV, left: Seq<char>, right: Seq<char>) -> DashboardV {
    DashboardV { line: left + right, cursor: bytes(left) as usize, ..s }
}

/// What the keys do in the line of the shell.
pub proof fn law_keys_of_the_line(
    s: DashboardV,
    left: Seq<char>,
    a: char,
    b: char,
    right: Seq<char>,
    c: char,
)
    requires
        s.line == left.push(a) + (seq![b] + right),
        s.cursor == bytes(left.push(a)),
    ensures
        ({
            let k = |key: Key| shell_key(s, key, no_mods());
            &&& just(k(Key::Char(c)), with(s, left.push(a).push(c), seq![b] + right))
            &&& just(k(Key::Backspace), with(s, left, seq![b] + right))
            &&& just(k(Key::Left), with(s, left, seq![a] + (seq![b] + right)))
            &&& just(k(Key::Right), with(s, left.push(a).push(b), right))
            &&& just(
                shell_key(s, Key::Char('u'), Mods { ctrl: true, ..no_mods() }),
                DashboardV { line: Seq::empty(), cursor: 0, ..s },
            )
        }),
{
    reveal(shell_key);
    reveal(shell_char);
    reveal(shell_move);
    lemma_line(s.line, s.cursor, LineV { left: left.push(a), right: seq![b] + right });
    assert(left.push(a).drop_last() =~= left);
    assert((seq![b] + right).skip(1) =~= right);
    assert(s.line.len() > 0);
}

/// On an empty line the brackets, and Alt with the arrows on any, go to the node before and
/// behind.
pub proof fn law_the_shell_goes_to_other_nodes(s: DashboardV, mods: Mods)
    requires
        s.shell_node < s.nodes.len(),
    ensures
        ({
            let alt = Mods { alt: true, ..no_mods() };
            let before = DashboardV {
                shell_node: if s.shell_node > 0 {
                    (s.shell_node - 1) as usize
                } else {
                    0
                },
                ..s
            };
            let next = DashboardV {
                shell_node: if s.shell_node + 1 < s.nodes.len() {
                    (s.shell_node + 1) as usize
                } else {
                    s.shell_node
                },
                ..s
            };
            &&& s.line.len() == 0 ==> just(shell_key(s, Key::Char('['), mods), before)
            &&& s.line.len() == 0 ==> just(shell_key(s, Key::Char(']'), mods), next)
            &&& just(shell_key(s, Key::Left, alt), before)
            &&& just(shell_key(s, Key::Right, alt), next)
        }),
{
    reveal(shell_key);
    reveal(shell_char);
    reveal(shell_move);
}

/// Up and Down walk through the history, from an empty line or from within it.
pub proof fn law_the_history_of_the_shell(s: DashboardV, mods: Mods, i: usize)
    ensures
        ({
            let up = shell_key(s, Key::Up, mods);
            let down = shell_key(s, Key::Down, mods);
            let n = s.history.len();
            let at = |k: int|
                DashboardV {
                    hist_idx: Some(k as usize),
                    line: s.history[k],
                    cursor: bytes(s.history[k]) as usize,
                    ..s
                };
            &&& n == 0 ==> just(up, s)
            &&& s.line.len() > 0 && s.hist_idx is None ==> just(up, s)
            &&& n > 0 && s.line.len() == 0 && s.hist_idx is None ==> just(up, at(n - 1))
            &&& n > 0 && s.hist_idx == Some(i) && i > 0 ==> just(up, at(i - 1))
            &&& n > 0 && s.hist_idx == Some(0usize) ==> just(up, at(0))
            &&& s.hist_idx is None ==> just(down, s)
            &&& s.hist_idx == Some(i) && i + 1 < n ==> just(down, at(i + 1))
            &&& s.hist_idx == Some(i) && i + 1 >= n ==> just(
                down,
                DashboardV { hist_idx: None, line: Seq::empty(), cursor: 0, ..s },
            )
        }),
{
    reveal(shell_key);
    reveal(shell_history);
}

} // verus!

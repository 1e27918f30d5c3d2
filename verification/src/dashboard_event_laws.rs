//! What the frontend makes of the gateway's events, said of the panes themselves.

use crate::console_laws::{kept, law_panes_keep_the_newest};
use crate::dashboard::{
    complete_lines, event_folded, forwarded, has_addr, told, told_lines, unfinished, DashboardV,
    DialogLineV, ModalV,
};
use crate::engine_state::{EventV, MqttMsgV, NodeViewV, RadioSample};
use crate::payload::{PairingV, RpcDataV, RpcResponseV, ShellRspV};
use crate::text::{first_index, lemma_first_index_bounds, lemma_first_where, trim_back};
use crate::topics::addr_of;
use vstd::prelude::*;

verus! {

/// Two states of the frontend are the same.
pub open spec fn same_board(a: DashboardV, b: DashboardV) -> bool {
    a == b
}

/// The gateway's log, the messages and the samples are shown in their panes, each of which
/// keeps its newest lines; while the frontend is paused they are not. The state of the links
/// is always shown.
pub proof fn law_feeds_are_shown(
    s: DashboardV,
    line: Seq<char>,
    m: MqttMsgV,
    serial_up: bool,
    mqtt_up: bool,
    now: u64,
)
    ensures
        s.paused ==> same_board(event_folded(s, EventV::Log(line), now), s),
        s.paused ==> same_board(event_folded(s, EventV::Mqtt(m), now), s),
        !s.paused ==> same_board(
            event_folded(s, EventV::Log(line), now),
            DashboardV { log: kept(s.log, line, 1000), ..s },
        ),
        !s.paused ==> same_board(
            event_folded(s, EventV::Mqtt(m), now),
            DashboardV { mqtt: kept(s.mqtt, m, 500), ..s },
        ),
        same_board(
            event_folded(s, EventV::Link { serial_up, mqtt_up }, now),
            DashboardV { serial_up, mqtt_up, ..s },
        ),
{
    law_panes_keep_the_newest(s.log, line, 1000);
    law_panes_keep_the_newest(s.mqtt, m, 500);
}

/// A sample of the channel is the newest of the graph; what was received and what was sent
/// are marked at the sample of their time, the latter in its own lane.
pub proof fn law_samples_are_drawn(
    s: DashboardV,
    dbm: i16,
    channel: u8,
    addr: u32,
    delivered: bool,
    now: u64,
    sample: RadioSample,
)
    ensures
        s.paused ==> same_board(event_folded(s, EventV::Radio(sample), now), s),
        !s.paused ==> same_board(
            event_folded(s, EventV::Radio(RadioSample::Ambient { dbm, channel }), now),
            DashboardV {
                last_ambient: Some((dbm, channel)),
                ambient_seq: if s.ambient_seq < u64::MAX {
                    (s.ambient_seq + 1) as u64
                } else {
                    s.ambient_seq
                },
                ambient: kept(s.ambient, dbm, 600),
                ..s
            },
        ),
        !s.paused ==> same_board(
            event_folded(s, EventV::Radio(RadioSample::Rx { src: addr, rssi_dbm: dbm }), now),
            DashboardV { rx_marks: kept(s.rx_marks, (s.ambient_seq, dbm), 600), ..s },
        ),
        !s.paused ==> same_board(
            event_folded(s, EventV::Radio(RadioSample::Tx { dest: addr, delivered }), now),
            DashboardV { tx_marks: kept(s.tx_marks, (s.ambient_seq, -35i16), 600), ..s },
        ),
{
    law_panes_keep_the_newest(s.ambient, dbm, 600);
    law_panes_keep_the_newest(s.rx_marks, (s.ambient_seq, dbm), 600);
    law_panes_keep_the_newest(s.tx_marks, (s.ambient_seq, -35i16), 600);
}

/// What is said of a pairing window is kept; that an open one was closed is logged, with who
/// joined.
pub proof fn law_windows_are_told(s: DashboardV, p: PairingV, now: u64)
    ensures
        ({
            let t = event_folded(s, EventV::Pairing(p), now);
            let open = s.pairing matches Some(q) && q.state == "open"@;
            let closes = open && p.state == "idle"@;
            &&& !closes ==> same_board(t, DashboardV { pairing: Some(p), ..s })
            &&& closes && p.joined is None ==> same_board(
                t,
                DashboardV {
                    pairing: Some(p),
                    log: kept(s.log, "pairing window closed"@, 1000),
                    ..s
                },
            )
            &&& p.joined matches Some(j) ==> closes ==> same_board(
                t,
                DashboardV { pairing: Some(p), log: kept(s.log, "paired "@ + j, 1000), ..s },
            )
        }),
{
    law_panes_keep_the_newest(s.log, "pairing window closed"@, 1000);
    if let Some(j) = p.joined {
        law_panes_keep_the_newest(s.log, "paired "@ + j, 1000);
    }
}

/// A reply to the cable is handed on and shown nowhere; a refusal of another is logged, a key
/// is shown, and any other success changes nothing.
pub proof fn law_replies_are_shown(
    s: DashboardV,
    rsp: RpcResponseV,
    now: u64,
    node: Seq<char>,
    key: Seq<char>,
    a: u32,
)
    ensures
        ({
            let t = event_folded(s, EventV::Rpc(rsp), now);
            let cable = "tui-cbl-"@.is_prefix_of(rsp.id);
            &&& cable ==> same_board(t, s)
            &&& forwarded(s, EventV::Rpc(rsp)) == (if cable && s.cable {
                Some(rsp)
            } else {
                None
            })
            &&& rsp.error matches Some(e) ==> !cable && !rsp.ok ==> same_board(
                t,
                DashboardV { log: kept(s.log, "action failed: "@ + e, 1000), ..s },
            )
            &&& !cable && !rsp.ok && rsp.error is None ==> same_board(
                t,
                DashboardV {
                    log: kept(s.log, "action failed: "@ + "gateway refused"@, 1000),
                    ..s
                },
            )
            &&& !cable && rsp.ok && rsp.data == (RpcDataV::Key { node, key }) && addr_of(node)
                == Some(a) ==> same_board(
                t,
                DashboardV { modal: Some(ModalV::Key { node: a, key, shown: now }), ..s },
            )
            &&& !cable && rsp.ok && !(rsp.data is Key) ==> same_board(t, s)
        }),
{
    law_panes_keep_the_newest(s.log, "action failed: "@ + "gateway refused"@, 1000);
    if let Some(e) = rsp.error {
        law_panes_keep_the_newest(s.log, "action failed: "@ + e, 1000);
    }
}

/// The registry is shown as it is, and whatever was selected stays selected where it still
/// is: the first with its address. Where it is gone, the selection stays in place or moves to
/// the last.
pub proof fn law_selections_stay(s: DashboardV, nodes: Seq<NodeViewV>, now: u64, i: int)
    requires
        s.selected < s.nodes.len(),
        0 <= i <= nodes.len() <= usize::MAX,
        forall|j: int| 0 <= j < i ==> (#[trigger] nodes[j]).addr != s.nodes[s.selected as int].addr,
        i < nodes.len() ==> nodes[i].addr == s.nodes[s.selected as int].addr,
    ensures
        ({
            let t = event_folded(s, EventV::Registry(nodes), now);
            &&& t.nodes == nodes
            &&& i < nodes.len() ==> t.selected == i
            &&& i == nodes.len() && s.selected < nodes.len() ==> t.selected == s.selected
            &&& i == nodes.len() && 0 < nodes.len() <= s.selected ==> t.selected == nodes.len() - 1
            &&& nodes.len() == 0 ==> t.selected == 0
        }),
{
    lemma_first_where(nodes, has_addr(s.nodes[s.selected as int].addr), i);
}

/// The same of the node that the shell speaks to.
pub proof fn law_the_shell_stays_at_its_node(
    s: DashboardV,
    nodes: Seq<NodeViewV>,
    now: u64,
    i: int,
)
    requires
        s.shell_node < s.nodes.len(),
        0 <= i <= nodes.len() <= usize::MAX,
        forall|j: int|
            0 <= j < i ==> (#[trigger] nodes[j]).addr != s.nodes[s.shell_node as int].addr,
        i < nodes.len() ==> nodes[i].addr == s.nodes[s.shell_node as int].addr,
    ensures
        ({
            let t = event_folded(s, EventV::Registry(nodes), now);
            &&& i < nodes.len() ==> t.shell_node == i
            &&& i == nodes.len() && s.shell_node < nodes.len() ==> t.shell_node == s.shell_node
            &&& i == nodes.len() && 0 < nodes.len() <= s.shell_node ==> t.shell_node == nodes.len()
                - 1
            &&& nodes.len() == 0 ==> t.shell_node == 0
        }),
{
    lemma_first_where(nodes, has_addr(s.nodes[s.shell_node as int].addr), i);
}

/// The dialog with a node.
pub open spec fn dialog(s: DashboardV, node: u32) -> Seq<DialogLineV> {
    if s.dialogs.dom().contains(node) {
        s.dialogs[node]
    } else {
        Seq::empty()
    }
}

/// A line is put at the end of the dialog with its node, and no other dialog changes.
pub proof fn law_dialogs_grow(s: DashboardV, node: u32, line: DialogLineV, other: u32)
    ensures
        dialog(told(s, node, line), node) == kept(dialog(s, node), line, 500),
        other != node ==> dialog(told(s, node, line), other) == dialog(s, other),
        same_board(DashboardV { dialogs: s.dialogs, ..told(s, node, line) }, s),
{
    law_panes_keep_the_newest(dialog(s, node), line, 500);
}

/// Several lines are told one behind the other, each as a text.
pub proof fn law_lines_are_told_in_turn(s: DashboardV, node: u32, lines: Seq<Seq<char>>, k: nat)
    requires
        k < lines.len(),
    ensures
        same_board(told_lines(s, node, lines, 0), s),
        same_board(
            told_lines(s, node, lines, k + 1),
            told(told_lines(s, node, lines, k), node, DialogLineV::Text(lines[k as int])),
        ),
{
}

/// A text is cut behind each line feed: in front of it is a line, without the carriage
/// returns at its end; what has no line feed behind is not finished.
pub proof fn law_texts_are_cut_into_lines(a: Seq<char>, b: Seq<char>)
    requires
        forall|i: int| 0 <= i < a.len() ==> #[trigger] a[i] != '\n',
    ensures
        complete_lines(a).len() == 0,
        unfinished(a) == a,
        complete_lines(a + seq!['\n'] + b) == seq![trim_back(a, '\r')] + complete_lines(b),
        unfinished(a + seq!['\n'] + b) == unfinished(b),
{
    lemma_first_index_bounds(a, '\n');
    let s = a + seq!['\n'] + b;
    lemma_first_index_bounds(s, '\n');
    assert(s[a.len() as int] == '\n');
    let i = first_index(s, '\n');
    if i < a.len() {
        assert(s[i] == a[i]);
    }
    assert(i == a.len());
    assert(s.take(i) =~= a && s.skip(i + 1) =~= b);
}

/// A chunk of an answer shows the lines that it finishes, together with what was left of the
/// same answer, and keeps what it leaves; the last one shows that too, and the result.
pub proof fn law_chunks_are_told(s: DashboardV, node: u32, rsp: ShellRspV, now: u64)
    requires
        rsp.error is None,
        s.shell_partial.dom().contains(node) ==> s.shell_partial[node].0 == rsp.id,
    ensures
        ({
            let t = event_folded(s, EventV::Shell { node, rsp }, now);
            let rest = if s.shell_partial.dom().contains(node) {
                s.shell_partial[node].1
            } else {
                Seq::empty()
            };
            let text = rest + rsp.text;
            let left = if s.shell_partial.dom().contains(node) {
                DashboardV { shell_partial: s.shell_partial.remove(node), ..s }
            } else {
                s
            };
            let shown = told_lines(left, node, complete_lines(text), complete_lines(text).len());
            &&& !rsp.done ==> same_board(
                t,
                DashboardV {
                    shell_partial: shown.shell_partial.insert(node, (rsp.id, unfinished(text))),
                    ..shown
                },
            )
            &&& rsp.done && unfinished(text).len() > 0 ==> same_board(
                t,
                told(
                    told(shown, node, DialogLineV::Text(unfinished(text))),
                    node,
                    DialogLineV::Done(rsp.result),
                ),
            )
            &&& rsp.done && unfinished(text).len() == 0 ==> same_board(
                t,
                told(shown, node, DialogLineV::Done(rsp.result)),
            )
        }),
{
}

/// What was left of another answer is shown before a new one begins.
pub proof fn law_other_answers_are_ended(s: DashboardV, node: u32, rsp: ShellRspV, now: u64)
    requires
        rsp.error is None,
        s.shell_partial.dom().contains(node) && s.shell_partial[node].0 != rsp.id,
    ensures
        ({
            let left = DashboardV { shell_partial: s.shell_partial.remove(node), ..s };
            let old_text = s.shell_partial[node].1;
            let ended = if old_text.len() > 0 {
                told(left, node, DialogLineV::Text(old_text))
            } else {
                left
            };
            same_board(
                event_folded(s, EventV::Shell { node, rsp }, now),
                event_folded(ended, EventV::Shell { node, rsp }, now),
            )
        }),
{
    let left = DashboardV { shell_partial: s.shell_partial.remove(node), ..s };
    let old_text = s.shell_partial[node].1;
    let ended = if old_text.len() > 0 {
        told(left, node, DialogLineV::Text(old_text))
    } else {
        left
    };
    assert(!ended.shell_partial.dom().contains(node));
}

/// A failed line is told with its reason, behind what was left of an answer.
pub proof fn law_failures_are_told(
    s: DashboardV,
    node: u32,
    rsp: ShellRspV,
    now: u64,
    e: Seq<char>,
)
    requires
        rsp.error == Some(e),
    ensures
        ({
            let t = event_folded(s, EventV::Shell { node, rsp }, now);
            let left = DashboardV { shell_partial: s.shell_partial.remove(node), ..s };
            let rest = s.shell_partial[node].1;
            let had = s.shell_partial.dom().contains(node);
            &&& !had ==> same_board(t, told(s, node, DialogLineV::Failed(e)))
            &&& had && rest.len() == 0 ==> same_board(t, told(left, node, DialogLineV::Failed(e)))
            &&& had && rest.len() > 0 ==> same_board(
                t,
                told(told(left, node, DialogLineV::Text(rest)), node, DialogLineV::Failed(e)),
            )
        }),
{
}

} // verus!

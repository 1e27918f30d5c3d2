//! What the gateway engine does, as functions on its state and the outputs so far. The
//! contracts of `engine` say that the code computes these functions.

use crate::engine_state::{
    EngineV, EventV, FrontendCmd, Input, NodeMirrorV, NodeViewV, OpKindV, OutputV, PendingMgmtV,
    PendingShellV, RadioSample, SerialMsg, ShellOriginV,
};
use crate::frame::{AccelKind, ButtonKind, NodeInfo, NodeMsg, NodeShellChunk, RadioStat, Uplink};
use crate::mgmt::{
    device_info_in, next_index, node_entries, queue_entries, read_node_key,
    read_paired, read_queue_id, MgmtOpV, NodeEntryV, QueueEntryV,
};
use crate::payload::{
    accel_json, button_json, node_json, pairing_json, pending_json, radio_rssi_json, radio_rx_json,
    radio_tx_json, rpc_response_json, shell_rsp_json, stats_json, status_json, temperature_json,
    uplink_json, NodeV, PairingV, PendingEntryV, QueueRowV, RpcDataV, RpcParamsV, RpcRequestV,
    RpcResponseV, ShellReq, ShellRspV, SCHEMA,
};
use crate::text::{behind, dec, digit_value, first_where, hex_bytes};
use crate::topics::{addr_of, addr_text, meaning, node_topic, Inbound};
use crate::wire::{mgmt_error, tx_outcome};
use vstd::prelude::*;
use vstd::utf8::*;

verus! {

/// Ticks before a management request in flight is given up.
pub const MGMT_TIMEOUT_TICKS: u64 = 8;

/// Ticks before a remote-shell command that was delivered but not answered is given up.
pub const SHELL_REPLY_TIMEOUT_TICKS: u64 = 30;

/// Ticks between two refreshes of the retained `gateway/stats`.
pub const STATS_EVERY_TICKS: u64 = 10;

/// Seconds beyond its window that a pairing request may take to answer.
pub const PAIRING_SLACK_TICKS: u64 = 5;

/// The engine and what it has put out so far.
#[verifier::ext_equal]
pub struct World {
    pub e: EngineV,
    pub out: Seq<OutputV>,
}

pub open spec fn world(e: EngineV, out: Seq<OutputV>) -> World {
    World { e, out }
}

// ---- putting things out ------------------------------------------------------------

pub open spec fn emit(w: World, o: OutputV) -> World {
    World { e: w.e, out: w.out.push(o) }
}

/// A line for people.
pub open spec fn say(w: World, text: Seq<char>) -> World {
    emit(w, OutputV::Event(EventV::Log(text)))
}

pub open spec fn publish(w: World, topic: Seq<char>, text: Seq<char>, retain: bool) -> World {
    emit(w, OutputV::Publish { topic, payload: encode_utf8(text), retain })
}

/// Clears a retained topic.
pub open spec fn clear_topic(w: World, topic: Seq<char>) -> World {
    emit(w, OutputV::Publish { topic, payload: Seq::empty(), retain: true })
}

pub open spec fn subscribe(w: World, topic: Seq<char>) -> World {
    emit(w, OutputV::Subscribe(topic))
}

/// A sum that stays at the largest value.
pub open spec fn sat(n: int) -> u64 {
    if n > u64::MAX {
        u64::MAX
    } else {
        n as u64
    }
}

// ---- what the mirror shows ---------------------------------------------------------

pub open spec fn last_seen(e: EngineV, n: NodeMirrorV) -> Option<u32> {
    if n.entry.last_seen_s != e.wire.last_seen_never {
        Some(n.entry.last_seen_s)
    } else {
        None
    }
}

pub open spec fn rssi(e: EngineV, n: NodeMirrorV) -> Option<i8> {
    if n.entry.rssi_dbm != e.wire.rssi_none {
        Some(n.entry.rssi_dbm)
    } else {
        None
    }
}

/// The larger of what the device says is queued and what the mirror holds.
pub open spec fn queued(n: NodeMirrorV) -> u8 {
    let held = (n.pending.len() % 0x100) as u8;
    if n.entry.queued >= held {
        n.entry.queued
    } else {
        held
    }
}

#[verifier::opaque]
pub open spec fn node_payload(e: EngineV, n: NodeMirrorV) -> NodeV {
    NodeV {
        id: addr_text(n.entry.id),
        name: n.entry.name,
        kind: n.kind,
        sleeping: n.entry.flags & e.wire.flag_sleeping != 0,
        unnamed: n.entry.flags & e.wire.flag_unnamed != 0,
        last_seen_s: last_seen(e, n),
        rssi_dbm: rssi(e, n),
        uplinks: n.entry.uplinks,
        queued: queued(n),
    }
}

#[verifier::opaque]
pub open spec fn node_payloads(e: EngineV) -> Seq<NodeV> {
    Seq::new(e.nodes.len(), |i: int| node_payload(e, e.nodes[i]))
}

pub open spec fn pending_entry(p: PendingShellV) -> PendingEntryV {
    PendingEntryV { item: p.item, id: p.rpc, line: p.line }
}

#[verifier::opaque]
pub open spec fn pending_entries(pending: Seq<PendingShellV>) -> Seq<PendingEntryV> {
    Seq::new(pending.len(), |i: int| pending_entry(pending[i]))
}

pub open spec fn node_view(e: EngineV, n: NodeMirrorV) -> NodeViewV {
    NodeViewV {
        addr: n.entry.id,
        name: n.entry.name,
        kind: n.kind,
        sleeping: n.entry.flags & e.wire.flag_sleeping != 0,
        unnamed: n.entry.flags & e.wire.flag_unnamed != 0,
        last_seen_s: last_seen(e, n),
        rssi_dbm: rssi(e, n),
        uplinks: n.entry.uplinks,
        queued: queued(n),
        pending: pending_entries(n.pending),
    }
}

#[verifier::opaque]
pub open spec fn node_views(e: EngineV) -> Seq<NodeViewV> {
    Seq::new(e.nodes.len(), |i: int| node_view(e, e.nodes[i]))
}

pub open spec fn emit_registry(w: World) -> World {
    emit(w, OutputV::Event(EventV::Registry(node_views(w.e))))
}

pub open spec fn publish_node(w: World, i: int) -> World {
    publish(
        w,
        node_topic(w.e.prefix, w.e.nodes[i].entry.id, ""@),
        node_json(node_payload(w.e, w.e.nodes[i])),
        true,
    )
}

pub open spec fn publish_pending(w: World, i: int) -> World {
    emit_registry(
        publish(
            w,
            node_topic(w.e.prefix, w.e.nodes[i].entry.id, "/shell/pending"@),
            pending_json(pending_entries(w.e.nodes[i].pending)),
            true,
        ),
    )
}

pub open spec fn publish_status(w: World) -> World {
    publish(
        w,
        w.e.prefix + "gateway/status"@,
        status_json(
            if w.e.serial_up {
                "online"@
            } else {
                "degraded"@
            },
            SCHEMA,
            addr_text(w.e.describe.net_id),
            w.e.describe.firmware_name,
            w.e.firmware_version,
            match w.e.hello_session {
                Some(s) => s,
                None => 0,
            },
            w.e.wire.protocol_version,
            w.e.port_name,
            w.e.serial_up,
        ),
        true,
    )
}

/// How many commands the first `k` nodes have in their queues, at most `u32::MAX`.
pub open spec fn total_queued(nodes: Seq<NodeMirrorV>, k: nat) -> u32
    decreases k,
{
    if k == 0 {
        0
    } else {
        let n = total_queued(nodes, (k - 1) as nat) + nodes[k - 1].pending.len();
        if n > u32::MAX {
            u32::MAX
        } else {
            n as u32
        }
    }
}

pub open spec fn publish_stats(w: World) -> World {
    publish(
        w,
        w.e.prefix + "gateway/stats"@,
        stats_json(
            w.e.tick,
            (w.e.nodes.len() % 0x1_0000_0000) as u32,
            w.e.uplinks,
            total_queued(w.e.nodes, w.e.nodes.len()),
            match w.e.last_ambient {
                Some((dbm, _)) => Some(dbm),
                None => None,
            },
            match w.e.last_ambient {
                Some((_, channel)) => Some(channel),
                None => None,
            },
        ),
        true,
    )
}

pub open spec fn pairing_state(e: EngineV, joined: Option<Seq<char>>) -> PairingV {
    match e.pairing_until {
        Some(until) => PairingV {
            state: "open"@,
            remaining_s: Some(
                if until >= e.tick {
                    (until - e.tick) as u64
                } else {
                    0
                },
            ),
            joined,
        },
        None => PairingV { state: "idle"@, remaining_s: None, joined },
    }
}

pub open spec fn publish_pairing(w: World, joined: Option<Seq<char>>) -> World {
    let p = pairing_state(w.e, joined);
    emit(
        publish(w, w.e.prefix + "gateway/pairing"@, pairing_json(p), true),
        OutputV::Event(EventV::Pairing(p)),
    )
}

// ---- answering requests ------------------------------------------------------------

/// Routes a response to where its request came from: ids of the frontend in this process
/// go back as events, all others to the response topic.
pub open spec fn rpc_respond(w: World, rsp: RpcResponseV) -> World {
    if "tui-"@.is_prefix_of(rsp.id) {
        emit(w, OutputV::Event(EventV::Rpc(rsp)))
    } else {
        publish(w, w.e.prefix + "gateway/rsp/"@ + rsp.id, rpc_response_json(rsp), false)
    }
}

pub open spec fn rpc_ok(w: World, rpc: Option<Seq<char>>, data: RpcDataV) -> World {
    match rpc {
        Some(id) => rpc_respond(w, RpcResponseV { id, ok: true, error: None, data }),
        None => w,
    }
}

pub open spec fn rpc_err_direct(w: World, id: Seq<char>, error: Seq<char>) -> World {
    rpc_respond(w, RpcResponseV { id, ok: false, error: Some(error), data: RpcDataV::Null })
}

pub open spec fn rpc_err(w: World, rpc: Option<Seq<char>>, error: Seq<char>) -> World {
    match rpc {
        Some(id) => rpc_err_direct(w, id, error),
        None => w,
    }
}

/// One response chunk, to the response topic and to the frontend.
pub open spec fn shell_reply(w: World, node: u32, rsp: ShellRspV) -> World {
    emit(
        publish(w, node_topic(w.e.prefix, node, "/shell/rsp"@), shell_rsp_json(rsp), false),
        OutputV::Event(EventV::Shell { node, rsp }),
    )
}

/// The final error of a command that is pending.
pub open spec fn shell_error(w: World, node: u32, p: PendingShellV, error: Seq<char>) -> World {
    shell_reply(
        w,
        node,
        ShellRspV {
            id: p.rpc,
            chunk: p.next_chunk,
            text: Seq::empty(),
            done: true,
            result: 1,
            truncated: p.truncated,
            error: Some(error),
        },
    )
}

/// The final error of a command that never became pending.
pub open spec fn shell_fail(w: World, node: u32, id: Seq<char>, result: u8, error: Seq<char>) -> World {
    shell_reply(
        w,
        node,
        ShellRspV {
            id,
            chunk: 0,
            text: Seq::empty(),
            done: true,
            result,
            truncated: false,
            error: Some(error),
        },
    )
}

/// The final errors of the first `k` commands of `ps`, one after the other.
pub open spec fn shell_errors(
    w: World,
    node: u32,
    ps: Seq<PendingShellV>,
    error: Seq<char>,
    k: nat,
) -> World
    decreases k,
{
    if k == 0 {
        w
    } else {
        shell_error(shell_errors(w, node, ps, error, (k - 1) as nat), node, ps[k - 1], error)
    }
}

// ---- sending requests --------------------------------------------------------------

/// The id behind `id`. Ids run from 1 to the largest and around again; 0 is never used.
pub open spec fn next_id(id: u16) -> u16 {
    if id == u16::MAX {
        1u16
    } else {
        (id + 1) as u16
    }
}

/// Sends `op` under the next id and waits `timeout` ticks for the reply.
pub open spec fn issue_delayed(
    w: World,
    kind: OpKindV,
    op: MgmtOpV,
    rpc: Option<Seq<char>>,
    timeout: u64,
) -> World {
    World {
        e: EngineV {
            next_req: next_id(w.e.next_req),
            seq: next_index(w.e.seq),
            pending_mgmt: w.e.pending_mgmt.push(
                PendingMgmtV {
                    req_id: w.e.next_req,
                    op: kind,
                    rpc,
                    data: Seq::empty(),
                    next_chunk: 0,
                    truncated: false,
                    deadline: sat(w.e.tick + timeout),
                },
            ),
            ..w.e
        },
        out: w.out.push(OutputV::SerialSend { seq: w.e.seq, req_id: w.e.next_req, op }),
    }
}

pub open spec fn issue(w: World, kind: OpKindV, op: MgmtOpV, rpc: Option<Seq<char>>) -> World {
    issue_delayed(w, kind, op, rpc, MGMT_TIMEOUT_TICKS)
}

pub open spec fn list_nodes(w: World) -> World {
    issue(w, OpKindV::NodeList, MgmtOpV::NodeList, None)
}

// ---- finding things ----------------------------------------------------------------

pub open spec fn has_addr(id: u32) -> spec_fn(NodeMirrorV) -> bool {
    |n: NodeMirrorV| n.entry.id == id
}

pub open spec fn has_name(name: Seq<char>) -> spec_fn(NodeMirrorV) -> bool {
    |n: NodeMirrorV| n.entry.name == name
}

pub open spec fn has_item(item: u16) -> spec_fn(PendingShellV) -> bool {
    |p: PendingShellV| p.item == item
}

pub open spec fn has_cmd(cmd_id: u16) -> spec_fn(PendingShellV) -> bool {
    |p: PendingShellV| p.cmd_id == cmd_id
}

pub open spec fn has_req(req_id: u16) -> spec_fn(PendingMgmtV) -> bool {
    |p: PendingMgmtV| p.req_id == req_id
}

pub open spec fn find_node(e: EngineV, id: u32) -> Option<int> {
    first_where(e.nodes, has_addr(id))
}

pub open spec fn with_node(w: World, i: int, n: NodeMirrorV) -> World {
    World { e: EngineV { nodes: w.e.nodes.update(i, n), ..w.e }, out: w.out }
}

pub open spec fn with_pending(w: World, i: int, pending: Seq<PendingShellV>) -> World {
    with_node(w, i, NodeMirrorV { pending, ..w.e.nodes[i] })
}

// ---- the dongle's messages ---------------------------------------------------------

/// Fails what the first `k` nodes have pending: the gateway rebooted and its queue is
/// gone.
pub open spec fn fail_queues(w: World, k: nat) -> World
    decreases k,
{
    if k == 0 {
        w
    } else {
        let w1 = fail_queues(w, (k - 1) as nat);
        let i = k - 1;
        let ps = w1.e.nodes[i].pending;
        publish_pending(
            shell_errors(
                with_pending(w1, i, Seq::empty()),
                w1.e.nodes[i].entry.id,
                ps,
                "gateway rebooted — command lost"@,
                ps.len(),
            ),
            i,
        )
    }
}

#[verifier::opaque]
pub open spec fn on_hello(
    w: World,
    firmware_name: Seq<char>,
    firmware_version: Seq<char>,
    session_id: u32,
) -> World {
    let rebooted = match w.e.hello_session {
        Some(s) => s != session_id,
        None => false,
    };
    let w1 = World {
        e: EngineV {
            hello_session: Some(session_id),
            firmware_version,
            describe: crate::mgmt::DeviceInfoV { firmware_name, ..w.e.describe },
            ..w.e
        },
        out: w.out,
    };
    let w2 = if rebooted {
        let a = say(
            w1,
            "gateway rebooted (session "@ + dec(session_id as nat)
                + ") — resyncing; queued downlinks were lost"@,
        );
        list_nodes(
            issue(
                fail_queues(a, a.e.nodes.len()),
                OpKindV::Describe,
                MgmtOpV::Describe,
                None,
            ),
        )
    } else {
        w1
    };
    publish_status(w2)
}

/// Counts an uplink of a registered node and notes its signal.
pub open spec fn touch_node(w: World, id: u32, rssi_dbm: i16) -> World {
    match find_node(w.e, id) {
        None => w,
        Some(i) => {
            let n = w.e.nodes[i];
            with_node(
                w,
                i,
                NodeMirrorV {
                    entry: NodeEntryV {
                        last_seen_s: 0,
                        rssi_dbm: if rssi_dbm < -128 {
                            -128i8
                        } else if rssi_dbm > 127 {
                            127i8
                        } else {
                            rssi_dbm as i8
                        },
                        uplinks: if n.entry.uplinks == u32::MAX {
                            u32::MAX
                        } else {
                            (n.entry.uplinks + 1) as u32
                        },
                        ..n.entry
                    },
                    ..n
                },
            )
        },
    }
}

#[verifier::opaque]
pub open spec fn on_uplink(w: World, u: Uplink, ts: u64) -> World {
    let w1 = World { e: EngineV { uplinks: sat(w.e.uplinks + 1), ..w.e }, out: w.out };
    let w2 = emit(
        touch_node(w1, u.src, u.rssi_dbm),
        OutputV::Event(EventV::Radio(RadioSample::Rx { src: u.src, rssi_dbm: u.rssi_dbm })),
    );
    let w3 = publish(
        w2,
        w2.e.prefix + "radio/rx"@,
        radio_rx_json(addr_text(u.src), u.rssi_dbm, u.lqi, u.data@.len(), ts),
        false,
    );
    let w4 = publish(
        w3,
        node_topic(w3.e.prefix, u.src, "/uplink"@),
        uplink_json(u.counter, u.rssi_dbm, u.lqi, u.data@.len(), hex_bytes(u.data@), ts),
        false,
    );
    on_node_msg(w4, u.src, u.counter, u.data@.len(), u.body, ts)
}

pub open spec fn button_text(kind: ButtonKind) -> Seq<char> {
    match kind {
        ButtonKind::Press => "press"@,
        ButtonKind::Release => "release"@,
        ButtonKind::Click => "click"@,
        ButtonKind::Hold => "hold"@,
    }
}

pub open spec fn accel_text(kind: AccelKind) -> Seq<char> {
    match kind {
        AccelKind::Motion => "motion"@,
        AccelKind::Orientation => "orientation"@,
    }
}

#[verifier::opaque]
pub open spec fn on_node_msg(w: World, src: u32, counter: u32, len: nat, msg: NodeMsg, ts: u64) -> World {
    match msg {
        NodeMsg::Button { kind, count } => publish(
            w,
            node_topic(w.e.prefix, src, "/event/button"@),
            button_json(button_text(kind), count, counter, ts),
            false,
        ),
        NodeMsg::Temperature { millic } => publish(
            w,
            node_topic(w.e.prefix, src, "/measure/temperature"@),
            temperature_json(millic, ts),
            true,
        ),
        NodeMsg::Accel { kind, face } => publish(
            w,
            node_topic(w.e.prefix, src, "/event/accel"@),
            accel_json(accel_text(kind), face, counter, ts),
            false,
        ),
        NodeMsg::Info(info) => on_node_info(w, src, info),
        NodeMsg::Shell(chunk) => on_shell_chunk(w, src, chunk),
        NodeMsg::BadVersion { got } => say(
            w,
            "node "@ + addr_text(src) + " speaks radio schema v"@ + dec(got as nat) + ", this build v"@
                + dec(w.e.wire.radio_schema_version as nat) + " — update tower-cli or the node"@,
        ),
        NodeMsg::Undecodable => say(
            w,
            "node "@ + addr_text(src) + ": undecodable application payload ("@ + dec(len) + " B)"@,
        ),
    }
}

pub open spec fn dashed(c: char) -> char {
    if c == '_' {
        '-'
    } else {
        c
    }
}

/// The device kind that a firmware name stands for: `radio_push_button` is `push-button`.
#[verifier::opaque]
pub open spec fn kind_text(firmware_name: Seq<char>) -> Seq<char> {
    let base = match behind(firmware_name, "radio_"@) {
        Some(rest) => rest,
        None => firmware_name,
    };
    Seq::new(base.len(), |i: int| dashed(base[i]))
}

/// The `n`-th automatic name of a kind.
pub open spec fn numbered(kind: Seq<char>, n: nat) -> Seq<char> {
    kind + ":"@ + dec(n)
}

pub open spec fn name_taken(nodes: Seq<NodeMirrorV>, name: Seq<char>) -> bool {
    exists|i: int| 0 <= i < nodes.len() && (#[trigger] nodes[i]).entry.name == name
}

/// `n` is the smallest number whose automatic name is free.
pub open spec fn smallest_free(nodes: Seq<NodeMirrorV>, kind: Seq<char>, n: nat) -> bool {
    &&& !name_taken(nodes, numbered(kind, n))
    &&& forall|m: nat| m < n ==> name_taken(nodes, #[trigger] numbered(kind, m))
}

/// The automatic name of a node of this kind: the smallest free number.
pub open spec fn auto_name(nodes: Seq<NodeMirrorV>, kind: Seq<char>) -> Seq<char> {
    numbered(kind, choose|n: nat| smallest_free(nodes, kind, n))
}

pub open spec fn sleeping_flags(e: EngineV, flags: u8, sleeping: bool) -> u8 {
    if sleeping {
        flags | e.wire.flag_sleeping
    } else {
        flags & !e.wire.flag_sleeping
    }
}

/// A heartbeat: notes the kind and the session, and tells the device where the node's
/// flags changed or it has no name yet. Nodes that are not registered are left alone.
#[verifier::opaque]
pub open spec fn on_node_info(w: World, src: u32, info: NodeInfo) -> World {
    match find_node(w.e, src) {
        None => w,
        Some(i) => {
            let kind = kind_text(info.firmware_name@);
            let w1 = with_node(
                w,
                i,
                NodeMirrorV { kind, session_id: Some(info.session_id), ..w.e.nodes[i] },
            );
            let had = w1.e.nodes[i].entry.flags;
            let flags = sleeping_flags(w1.e, had, info.sleeping);
            let w2 = if had & w1.e.wire.flag_unnamed != 0 {
                let name = auto_name(w1.e.nodes, kind);
                issue(
                    say(w1, "auto-naming node "@ + addr_text(src) + " \""@ + name + "\""@),
                    OpKindV::NodeUpdate,
                    MgmtOpV::NodeUpdate {
                        id: src,
                        name: Some(name),
                        flags: Some(flags & !w1.e.wire.flag_unnamed),
                    },
                    None,
                )
            } else if flags != had {
                issue(
                    w1,
                    OpKindV::NodeUpdate,
                    MgmtOpV::NodeUpdate { id: src, name: None, flags: Some(flags) },
                    None,
                )
            } else {
                w1
            };
            publish_node(w2, i)
        },
    }
}

/// One chunk of a node's answer. A gap marks the dialog as truncated for good; the last
/// chunk ends it.
#[verifier::opaque]
pub open spec fn on_shell_chunk(w: World, src: u32, chunk: NodeShellChunk) -> World {
    match find_node(w.e, src) {
        None => w,
        Some(i) => {
            let ps = w.e.nodes[i].pending;
            match first_where(ps, has_cmd(chunk.cmd_id)) {
                None => say(
                    w,
                    "node "@ + addr_text(src) + ": shell chunk for unknown cmd_id "@ + dec(
                        chunk.cmd_id as nat,
                    ),
                ),
                Some(k) => {
                    let p = PendingShellV {
                        truncated: ps[k].truncated || ps[k].next_chunk != chunk.chunk,
                        next_chunk: next_index(chunk.chunk),
                        ..ps[k]
                    };
                    let w1 = shell_reply(
                        with_pending(w, i, ps.update(k, p)),
                        src,
                        ShellRspV {
                            id: p.rpc,
                            chunk: chunk.chunk,
                            text: chunk.text@,
                            done: chunk.last,
                            result: chunk.result,
                            truncated: p.truncated,
                            error: None,
                        },
                    );
                    if chunk.last {
                        publish_pending(with_pending(w1, i, ps.update(k, p).remove(k)), i)
                    } else {
                        w1
                    }
                },
            }
        },
    }
}

#[verifier::opaque]
pub open spec fn on_radio_stat(w: World, stat: RadioStat, ts: u64) -> World {
    match stat {
        RadioStat::Channel { channel, rssi_dbm } => {
            let w1 = World {
                e: EngineV { last_ambient: Some((rssi_dbm, channel)), ..w.e },
                out: w.out,
            };
            publish(
                emit(
                    w1,
                    OutputV::Event(EventV::Radio(RadioSample::Ambient { dbm: rssi_dbm, channel })),
                ),
                w.e.prefix + "radio/rssi"@,
                radio_rssi_json(rssi_dbm, channel, ts),
                false,
            )
        },
        RadioStat::Tx { dest, item, outcome, ack_rssi_dbm } => {
            let w1 = publish(
                emit(
                    w,
                    OutputV::Event(
                        EventV::Radio(
                            RadioSample::Tx { dest, delivered: outcome == w.e.wire.tx_delivered },
                        ),
                    ),
                ),
                w.e.prefix + "radio/tx"@,
                radio_tx_json(
                    addr_text(dest),
                    item,
                    tx_outcome(w.e.wire, outcome),
                    ack_rssi_dbm,
                    ts,
                ),
                false,
            );
            if item != 0 {
                on_queue_outcome(w1, dest, item, outcome)
            } else {
                w1
            }
        },
    }
}

/// A queue item was delivered or expired; any other outcome is retried by the gateway.
#[verifier::opaque]
pub open spec fn on_queue_outcome(w: World, node: u32, item: u16, outcome: u8) -> World {
    match find_node(w.e, node) {
        None => w,
        Some(i) => {
            let ps = w.e.nodes[i].pending;
            match first_where(ps, has_item(item)) {
                None => w,
                Some(k) => if outcome == w.e.wire.tx_delivered {
                    with_pending(
                        w,
                        i,
                        ps.update(k, PendingShellV { delivered_tick: Some(w.e.tick), ..ps[k] }),
                    )
                } else if outcome == w.e.wire.tx_expired {
                    publish_pending(
                        shell_error(
                            with_pending(w, i, ps.remove(k)),
                            node,
                            ps[k],
                            "queue TTL expired before delivery"@,
                        ),
                        i,
                    )
                } else {
                    w
                },
            }
        },
    }
}

// ---- management replies ------------------------------------------------------------

/// A chunk of a reply. Chunks that answer nothing in flight are dropped; the last chunk
/// completes the request.
#[verifier::opaque]
pub open spec fn on_mgmt_chunk(
    w: World,
    req_id: u16,
    result: u8,
    chunk: u16,
    last: bool,
    data: Seq<u8>,
) -> World {
    match first_where(w.e.pending_mgmt, has_req(req_id)) {
        None => w,
        Some(k) => {
            let old = w.e.pending_mgmt[k];
            let p = PendingMgmtV {
                truncated: old.truncated || old.next_chunk != chunk,
                next_chunk: next_index(chunk),
                data: old.data + data,
                ..old
            };
            if last {
                on_mgmt_done(
                    World {
                        e: EngineV {
                            pending_mgmt: w.e.pending_mgmt.update(k, p).remove(k),
                            ..w.e
                        },
                        out: w.out,
                    },
                    p,
                    result,
                )
            } else {
                World {
                    e: EngineV { pending_mgmt: w.e.pending_mgmt.update(k, p), ..w.e },
                    out: w.out,
                }
            }
        },
    }
}

/// No pairing window is open.
pub open spec fn pairing_closed(w: World) -> World {
    World { e: EngineV { pairing_rpc: None, pairing_until: None, ..w.e }, out: w.out }
}

pub open spec fn queue_row(q: QueueEntryV) -> QueueRowV {
    QueueRowV { node: addr_text(q.node), item: q.item, age_s: q.age_s, ttl_s: q.ttl_s }
}

pub open spec fn queue_rows(entries: Seq<QueueEntryV>) -> Seq<QueueRowV> {
    Seq::new(entries.len(), |i: int| queue_row(entries[i]))
}

/// A node left the registry: its pending commands fail, and its retained topics are
/// cleared.
#[verifier::opaque]
pub open spec fn forget_node(w: World, id: u32) -> World {
    let w1 = match find_node(w.e, id) {
        None => w,
        Some(i) => {
            let ps = w.e.nodes[i].pending;
            let a = shell_errors(w, id, ps, "node removed"@, ps.len());
            World { e: EngineV { nodes: a.e.nodes.remove(i), ..a.e }, out: a.out }
        },
    };
    emit_registry(
        clear_topic(
            clear_topic(
                clear_topic(w1, node_topic(w1.e.prefix, id, ""@)),
                node_topic(w1.e.prefix, id, "/measure/temperature"@),
            ),
            node_topic(w1.e.prefix, id, "/shell/pending"@),
        ),
    )
}

/// A queue item was made for a remote-shell command: it is pending from now on.
#[verifier::opaque]
pub open spec fn now_pending(w: World, node: u32, origin: Option<ShellOriginV>, item: u16) -> World {
    match origin {
        None => w,
        Some(o) => match find_node(w.e, node) {
            None => w,
            Some(i) => {
                let w1 = with_pending(
                    w,
                    i,
                    w.e.nodes[i].pending.push(
                        PendingShellV {
                            item,
                            rpc: o.rpc,
                            line: o.line,
                            cmd_id: o.cmd_id,
                            delivered_tick: None,
                            next_chunk: 0,
                            truncated: false,
                        },
                    ),
                );
                publish_node(publish_pending(w1, i), i)
            },
        },
    }
}

/// What a request that succeeded leads to.
#[verifier::opaque]
pub open spec fn on_success(w: World, p: PendingMgmtV) -> World {
    match p.op {
        OpKindV::Describe => {
            let w1 = match device_info_in(w.e.wire, p.data) {
                Some(d) => publish_status(
                    World {
                        e: EngineV { describe: d, ..w.e },
                        out: w.out,
                    },
                ),
                None => w,
            };
            rpc_ok(w1, p.rpc, RpcDataV::Gateway(addr_text(w1.e.describe.net_id)))
        },
        OpKindV::NodeList => {
            let w1 = merge_registry(w, node_entries(p.data));
            rpc_ok(w1, p.rpc, RpcDataV::Nodes(node_payloads(w1.e)))
        },
        OpKindV::NodeAdd { id, name } => list_nodes(
            rpc_ok(
                say(w, "node "@ + addr_text(id) + " added ("@ + name + ")"@),
                p.rpc,
                RpcDataV::Null,
            ),
        ),
        OpKindV::NodeRemove { id } => rpc_ok(forget_node(w, id), p.rpc, RpcDataV::Null),
        OpKindV::NodeUpdate => list_nodes(rpc_ok(w, p.rpc, RpcDataV::Null)),
        OpKindV::RevealKey { id } => match read_node_key(p.data) {
            Some(key) => rpc_ok(
                w,
                p.rpc,
                RpcDataV::Key { node: addr_text(id), key: hex_bytes(key) },
            ),
            None => rpc_err(w, p.rpc, "malformed key record"@),
        },
        OpKindV::PairingOpen => {
            let joined = match read_paired(p.data) {
                Some(a) => Some(addr_text(a)),
                None => None,
            };
            let line = match joined {
                Some(h) => "node "@ + h + " paired"@,
                None => "pairing window resolved"@,
            };
            list_nodes(
                rpc_ok(
                    publish_pairing(say(pairing_closed(w), line), joined),
                    p.rpc,
                    RpcDataV::Joined(joined),
                ),
            )
        },
        OpKindV::PairingCancel => rpc_ok(w, p.rpc, RpcDataV::Null),
        OpKindV::QueuePush { node, shell } => match read_queue_id(p.data) {
            Some(item) => rpc_ok(now_pending(w, node, shell, item), p.rpc, RpcDataV::Item(item)),
            None => rpc_err(w, p.rpc, "malformed queue id"@),
        },
        OpKindV::QueueList => rpc_ok(
            w,
            p.rpc,
            RpcDataV::Queue(queue_rows(queue_entries(p.data))),
        ),
        OpKindV::QueueDrop { node } => {
            let w1 = rpc_ok(w, p.rpc, RpcDataV::Null);
            list_nodes(
                match find_node(w1.e, node) {
                    Some(i) => publish_pending(w1, i),
                    None => w1,
                },
            )
        },
        OpKindV::StatsConfig => rpc_ok(w, p.rpc, RpcDataV::Null),
    }
}

/// What a request that the device refused leads to.
#[verifier::opaque]
pub open spec fn on_refusal(w: World, p: PendingMgmtV, result: u8, error: Seq<char>) -> World {
    match p.op {
        OpKindV::PairingOpen => {
            let w1 = publish_pairing(pairing_closed(w), None);
            if result == w1.e.wire.mgmt_timeout {
                // The window closed without a join: a normal outcome.
                rpc_ok(w1, p.rpc, RpcDataV::Joined(None))
            } else {
                rpc_err(w1, p.rpc, error)
            }
        },
        OpKindV::QueuePush { node, shell } => {
            let w1 = match shell {
                Some(o) => shell_fail(
                    w,
                    node,
                    o.rpc,
                    if result >= 1 {
                        result
                    } else {
                        1
                    },
                    error,
                ),
                None => w,
            };
            rpc_err(w1, p.rpc, error)
        },
        _ => rpc_err(w, p.rpc, error),
    }
}

/// A reply is complete.
#[verifier::opaque]
pub open spec fn on_mgmt_done(w: World, p: PendingMgmtV, result: u8) -> World {
    let w1 = match mgmt_error(w.e.wire, result) {
        None => on_success(w, p),
        Some(error) => on_refusal(w, p, result, error),
    };
    if p.truncated {
        say(
            w1,
            "management reply "@ + dec(p.req_id as nat) + " arrived truncated (chunk gap)"@,
        )
    } else {
        w1
    }
}

/// The mirror row of the `i`-th fresh entry: what the host knew of that node is kept, its
/// pending commands by the first entry that names it.
pub open spec fn merged_row(olds: Seq<NodeMirrorV>, fresh: Seq<NodeEntryV>, i: int) -> NodeMirrorV {
    match first_where(olds, has_addr(fresh[i].id)) {
        Some(k) => NodeMirrorV {
            entry: fresh[i],
            kind: olds[k].kind,
            session_id: olds[k].session_id,
            pending: if listed_before(fresh, i) {
                Seq::empty()
            } else {
                olds[k].pending
            },
        },
        None => NodeMirrorV {
            entry: fresh[i],
            kind: Seq::empty(),
            session_id: None,
            pending: Seq::empty(),
        },
    }
}

/// An earlier entry names the same node.
pub open spec fn listed_before(fresh: Seq<NodeEntryV>, i: int) -> bool {
    exists|j: int| 0 <= j < i && (#[trigger] fresh[j]).id == fresh[i].id
}

pub open spec fn merged(olds: Seq<NodeMirrorV>, fresh: Seq<NodeEntryV>) -> Seq<NodeMirrorV> {
    Seq::new(fresh.len(), |i: int| merged_row(olds, fresh, i))
}

pub open spec fn still_listed(fresh: Seq<NodeEntryV>, id: u32) -> bool {
    exists|j: int| 0 <= j < fresh.len() && (#[trigger] fresh[j]).id == id
}

/// Clears the topics of those of the first `k` old nodes that are not listed any more.
pub open spec fn clear_gone(w: World, fresh: Seq<NodeEntryV>, k: nat) -> World
    decreases k,
{
    if k == 0 {
        w
    } else {
        let w1 = clear_gone(w, fresh, (k - 1) as nat);
        let id = w.e.nodes[k - 1].entry.id;
        if still_listed(fresh, id) {
            w1
        } else {
            clear_topic(w1, node_topic(w1.e.prefix, id, ""@))
        }
    }
}

/// Publishes the first `k` nodes.
pub open spec fn publish_nodes(w: World, k: nat) -> World
    decreases k,
{
    if k == 0 {
        w
    } else {
        publish_node(publish_nodes(w, (k - 1) as nat), k - 1)
    }
}

/// Takes over a fresh listing of the registry: what the host knows of the nodes that are
/// still there is kept, the others are cleared, and all is published.
#[verifier::opaque]
pub open spec fn merge_registry(w: World, fresh: Seq<NodeEntryV>) -> World {
    let w1 = clear_gone(w, fresh, w.e.nodes.len());
    let w2 = World { e: EngineV { nodes: merged(w.e.nodes, fresh), ..w1.e }, out: w1.out };
    emit_registry(publish_nodes(w2, w2.e.nodes.len()))
}

// ---- requests ----------------------------------------------------------------------

pub open spec fn on_mqtt(
    w: World,
    topic: Seq<char>,
    rpc: Result<crate::payload::RpcRequest, String>,
    shell: Result<ShellReq, String>,
    key: Option<Seq<u8>>,
) -> World {
    match meaning(w.e.prefix, topic) {
        Inbound::Cmd => match rpc {
            Ok(req) => on_rpc(w, req.deep_view(), key),
            Err(error) => say(w, "bad RPC payload: "@ + error@),
        },
        Inbound::ShellReq(node) => match shell {
            Ok(req) => on_shell_req(w, node, req),
            Err(error) => say(w, "bad shell request: "@ + error@),
        },
        Inbound::Other => w,
    }
}

/// Queues one remote-shell line for a node.
pub open spec fn on_shell_req(w: World, node: u32, req: ShellReq) -> World {
    if find_node(w.e, node) is None {
        shell_fail(w, node, req.id@, 1, "unknown node"@)
    } else if encode_utf8(req.line@).len() > w.e.wire.radio_shell_chunk {
        shell_fail(
            w,
            node,
            req.id@,
            1,
            "line too long for the radio MTU (max "@ + dec(w.e.wire.radio_shell_chunk as nat)
                + " bytes)"@,
        )
    } else {
        let cmd_id = w.e.next_cmd;
        issue(
            World { e: EngineV { next_cmd: next_id(cmd_id), ..w.e }, out: w.out },
            OpKindV::QueuePush {
                node,
                shell: Some(ShellOriginV { rpc: req.id@, line: req.line@, cmd_id }),
            },
            MgmtOpV::QueuePush { node, ttl_s: req.ttl_s, cmd_id, line: req.line@ },
            None,
        )
    }
}

/// The node that a request names, by address or by name.
pub open spec fn node_param(e: EngineV, params: RpcParamsV) -> Option<u32> {
    match params.node {
        None => None,
        Some(v) => match addr_of(v) {
            Some(a) => Some(a),
            None => match first_where(e.nodes, has_name(v)) {
                Some(i) => Some(e.nodes[i].entry.id),
                None => None,
            },
        },
    }
}

/// The key that 32 hexadecimal digits write.
pub open spec fn key_of(s: Seq<char>) -> Option<Seq<u8>> {
    if s.len() == 32 && forall|i: int| 0 <= i < 32 ==> digit_value(#[trigger] s[i]) is Some {
        Some(Seq::new(16, |i: int| key_byte(s, i)))
    } else {
        None
    }
}

pub open spec fn key_byte(s: Seq<char>, i: int) -> u8 {
    (16 * digit_value(s[2 * i])->0 + digit_value(s[2 * i + 1])->0) as u8
}

pub open spec fn opt_addr(s: Option<Seq<char>>) -> Option<u32> {
    match s {
        Some(t) => addr_of(t),
        None => None,
    }
}

pub open spec fn opt_key(s: Option<Seq<char>>) -> Option<Seq<u8>> {
    match s {
        Some(t) => key_of(t),
        None => None,
    }
}

pub open spec fn rpc_node_add(w: World, req: RpcRequestV) -> World {
    match (opt_addr(req.params.id), opt_key(req.params.key)) {
        (Some(id), Some(key)) => {
            let name = match req.params.name {
                Some(n) => n,
                None => ""@,
            };
            let sleeping = match req.params.sleeping {
                Some(b) => b,
                None => true,
            };
            let base = if sleeping {
                w.e.wire.flag_sleeping
            } else {
                0u8
            };
            let flags = if name.len() == 0 {
                base | w.e.wire.flag_unnamed
            } else {
                base
            };
            issue(
                w,
                OpKindV::NodeAdd { id, name },
                MgmtOpV::NodeAdd { id, key, name, flags },
                Some(req.id),
            )
        },
        _ => rpc_err_direct(w, req.id, "node_add needs id + key (hex)"@),
    }
}

pub open spec fn rpc_node_rename(w: World, req: RpcRequestV) -> World {
    match node_param(w.e, req.params) {
        None => rpc_err_direct(w, req.id, "unknown node"@),
        Some(id) => match req.params.name {
            None => rpc_err_direct(w, req.id, "missing name"@),
            Some(name) => if name.len() == 0 || encode_utf8(name).len() > w.e.wire.max_node_name {
                rpc_err_direct(
                    w,
                    req.id,
                    "name must be 1..="@ + dec(w.e.wire.max_node_name as nat) + " bytes"@,
                )
            } else {
                let flags = match find_node(w.e, id) {
                    Some(i) => Some(w.e.nodes[i].entry.flags & !w.e.wire.flag_unnamed),
                    None => None,
                };
                issue(
                    w,
                    OpKindV::NodeUpdate,
                    MgmtOpV::NodeUpdate { id, name: Some(name), flags },
                    Some(req.id),
                )
            },
        },
    }
}

/// The length of a pairing window: 60 s unless given, and 1 to 600 s in any case.
pub open spec fn window(params: RpcParamsV) -> u16 {
    match params.window_s {
        None => 60,
        Some(n) => if n < 1 {
            1
        } else if n > 600 {
            600
        } else {
            n as u16
        },
    }
}

pub open spec fn rpc_add_ota(w: World, req: RpcRequestV, key: Option<Seq<u8>>) -> World {
    if w.e.pairing_rpc is Some {
        rpc_err_direct(w, req.id, "a pairing window is already open"@)
    } else {
        match key {
            None => rpc_err_direct(w, req.id, "no entropy source for the node key"@),
            Some(k) => {
                let window_s = window(req.params);
                issue_delayed(
                    publish_pairing(
                        World {
                            e: EngineV {
                                pairing_rpc: Some(req.id),
                                pairing_until: Some(sat(w.e.tick + window_s)),
                                ..w.e
                            },
                            out: w.out,
                        },
                        None,
                    ),
                    OpKindV::PairingOpen,
                    MgmtOpV::PairingOpen { window_s, key: k },
                    Some(req.id),
                    (window_s + PAIRING_SLACK_TICKS) as u64,
                )
            },
        }
    }
}

/// A queue item that the mirror holds is dropped at once; the device is told either way.
pub open spec fn rpc_queue_drop(w: World, req: RpcRequestV) -> World {
    match node_param(w.e, req.params) {
        None => rpc_err_direct(w, req.id, "unknown node"@),
        Some(node) => {
            let item = match req.params.item {
                Some(n) => Some((n % 0x1_0000) as u16),
                None => None,
            };
            let w1 = match (item, find_node(w.e, node)) {
                (Some(it), Some(i)) => {
                    let ps = w.e.nodes[i].pending;
                    match first_where(ps, has_item(it)) {
                        Some(k) => publish_pending(
                            shell_error(
                                with_pending(w, i, ps.remove(k)),
                                node,
                                ps[k],
                                "dequeued"@,
                            ),
                            i,
                        ),
                        None => w,
                    }
                },
                _ => w,
            };
            issue(
                w1,
                OpKindV::QueueDrop { node },
                MgmtOpV::QueueDrop { node, item },
                Some(req.id),
            )
        },
    }
}

/// The period between two ambient samples: a second unless given, a minute at most.
pub open spec fn stats_period(params: RpcParamsV) -> u32 {
    match params.period_ms {
        None => 1000,
        Some(n) => if n > 60_000 {
            60_000
        } else {
            n as u32
        },
    }
}

/// The request surface of `gateway/cmd`.
#[verifier::opaque]
pub open spec fn on_rpc(w: World, req: RpcRequestV, key: Option<Seq<u8>>) -> World {
    if req.op == "describe"@ {
        issue(w, OpKindV::Describe, MgmtOpV::Describe, Some(req.id))
    } else if req.op == "node_list"@ {
        issue(w, OpKindV::NodeList, MgmtOpV::NodeList, Some(req.id))
    } else if req.op == "node_add"@ {
        rpc_node_add(w, req)
    } else if req.op == "node_remove"@ {
        match node_param(w.e, req.params) {
            Some(id) => issue(
                w,
                OpKindV::NodeRemove { id },
                MgmtOpV::NodeRemove { id },
                Some(req.id),
            ),
            None => rpc_err_direct(w, req.id, "unknown node"@),
        }
    } else if req.op == "node_rename"@ {
        rpc_node_rename(w, req)
    } else if req.op == "reveal_key"@ {
        match node_param(w.e, req.params) {
            Some(id) => issue(
                w,
                OpKindV::RevealKey { id },
                MgmtOpV::NodeRevealKey { id },
                Some(req.id),
            ),
            None => rpc_err_direct(w, req.id, "unknown node"@),
        }
    } else if req.op == "node_add_ota"@ {
        rpc_add_ota(w, req, key)
    } else if req.op == "pairing_cancel"@ {
        issue(
            publish_pairing(pairing_closed(w), None),
            OpKindV::PairingCancel,
            MgmtOpV::PairingCancel,
            Some(req.id),
        )
    } else if req.op == "queue_list"@ {
        let node = match node_param(w.e, req.params) {
            Some(n) => n,
            None => 0,
        };
        issue(w, OpKindV::QueueList, MgmtOpV::QueueList { node }, Some(req.id))
    } else if req.op == "queue_drop"@ {
        rpc_queue_drop(w, req)
    } else if req.op == "stats_config"@ {
        issue(
            w,
            OpKindV::StatsConfig,
            MgmtOpV::StatsConfig { channel_period_ms: stats_period(req.params) },
            Some(req.id),
        )
    } else {
        rpc_err_direct(w, req.id, "unknown op \""@ + req.op + "\""@)
    }
}

/// The request `req_id` was never made: where it was the last one, its number and the one
/// of its frame are free again.
pub open spec fn taken_back(e: EngineV, req_id: u16) -> EngineV {
    if req_id != 0 && e.next_req == next_id(req_id) {
        EngineV {
            next_req: req_id,
            seq: if e.seq == 0 {
                u16::MAX
            } else {
                (e.seq - 1) as u16
            },
            ..e
        }
    } else {
        e
    }
}

/// A request could not be encoded: it is not in flight after all, and who asked for it is
/// told. Without its radio envelope it was not even made.
pub open spec fn on_encode_failed(w: World, req_id: u16, envelope: bool) -> World {
    match first_where(w.e.pending_mgmt, has_req(req_id)) {
        None => w,
        Some(k) => {
            let p = w.e.pending_mgmt[k];
            let w1 = World {
                e: EngineV { pending_mgmt: w.e.pending_mgmt.remove(k), ..w.e },
                out: w.out,
            };
            match (envelope, p.op) {
                (true, OpKindV::QueuePush { node, shell: Some(o) }) => shell_fail(
                    World { e: taken_back(w1.e, req_id), out: w1.out },
                    node,
                    o.rpc,
                    1,
                    "envelope encode failed"@,
                ),
                _ => rpc_err(w1, p.rpc, "request encode failed"@),
            }
        },
    }
}

// ---- housekeeping ------------------------------------------------------------------

/// Gives up the request at `k`.
pub open spec fn mgmt_timeout(w: World, k: int) -> World {
    let p = w.e.pending_mgmt[k];
    let w1 = World {
        e: EngineV { pending_mgmt: w.e.pending_mgmt.remove(k), ..w.e },
        out: w.out,
    };
    let w2 = if p.op is PairingOpen {
        publish_pairing(pairing_closed(w1), None)
    } else {
        w1
    };
    rpc_err(
        say(w2, "management op timed out (req "@ + dec(p.req_id as nat) + ")"@),
        p.rpc,
        "device did not answer (timeout)"@,
    )
}

/// Gives up those of the first `k` requests whose time is over, the last one first.
pub open spec fn mgmt_timeouts(w: World, k: nat) -> World
    decreases k,
{
    if k == 0 {
        w
    } else if w.e.tick >= w.e.pending_mgmt[k - 1].deadline {
        mgmt_timeouts(mgmt_timeout(w, k - 1), (k - 1) as nat)
    } else {
        mgmt_timeouts(w, (k - 1) as nat)
    }
}

/// A command was delivered too long ago.
pub open spec fn unanswered(e: EngineV, p: PendingShellV) -> bool {
    match p.delivered_tick {
        Some(t) => e.tick >= t + SHELL_REPLY_TIMEOUT_TICKS,
        None => false,
    }
}

/// Fails those of the first `k` commands of node `i` that were never answered, the last
/// one first.
pub open spec fn shell_timeouts(w: World, i: int, k: nat) -> World
    decreases k,
{
    if k == 0 {
        w
    } else {
        let ps = w.e.nodes[i].pending;
        if unanswered(w.e, ps[k - 1]) {
            shell_timeouts(
                shell_error(
                    with_pending(w, i, ps.remove(k - 1)),
                    w.e.nodes[i].entry.id,
                    ps[k - 1],
                    "delivered but no reply from the node"@,
                ),
                i,
                (k - 1) as nat,
            )
        } else {
            shell_timeouts(w, i, (k - 1) as nat)
        }
    }
}

/// The timeouts of node `i`, and its queue where that changed.
pub open spec fn node_timeouts(w: World, i: int) -> World {
    let n = w.e.nodes[i].pending.len();
    let w1 = shell_timeouts(w, i, n);
    if w1.e.nodes[i].pending.len() != n {
        publish_pending(w1, i)
    } else {
        w1
    }
}

/// The timeouts of the first `k` nodes.
pub open spec fn nodes_timeouts(w: World, k: nat) -> World
    decreases k,
{
    if k == 0 {
        w
    } else {
        node_timeouts(nodes_timeouts(w, (k - 1) as nat), k - 1)
    }
}

/// One second went by.
pub open spec fn on_tick(w: World) -> World {
    let w1 = World { e: EngineV { tick: sat(w.e.tick + 1), ..w.e }, out: w.out };
    let w2 = mgmt_timeouts(w1, w1.e.pending_mgmt.len());
    let w3 = nodes_timeouts(w2, w2.e.nodes.len());
    let w4 = if w3.e.pairing_until is Some {
        publish_pairing(w3, None)
    } else {
        w3
    };
    if w4.e.tick % STATS_EVERY_TICKS == 0 {
        publish_stats(w4)
    } else {
        w4
    }
}

// ---- the whole ---------------------------------------------------------------------

pub open spec fn subscriptions(w: World) -> World {
    subscribe(
        subscribe(w, w.e.prefix + "gateway/cmd"@),
        w.e.prefix + "nodes/+/shell/req"@,
    )
}

/// Publishes the first `k` nodes and their queues.
pub open spec fn publish_world(w: World, k: nat) -> World
    decreases k,
{
    if k == 0 {
        w
    } else {
        publish_pending(publish_node(publish_world(w, (k - 1) as nat), k - 1), k - 1)
    }
}

pub open spec fn link(w: World, serial_up: bool, mqtt_up: bool) -> World {
    emit(w, OutputV::Event(EventV::Link { serial_up, mqtt_up }))
}

pub open spec fn on_mqtt_up(w: World) -> World {
    let w1 = publish_pairing(
        publish_stats(
            publish_status(
                subscriptions(World { e: EngineV { mqtt_up: true, ..w.e }, out: w.out }),
            ),
        ),
        None,
    );
    link(publish_world(w1, w1.e.nodes.len()), w.e.serial_up, true)
}

pub open spec fn on_serial(w: World, msg: SerialMsg, ts: u64) -> World {
    match msg {
        SerialMsg::Hello { firmware_name, firmware_version, session_id } => on_hello(
            w,
            firmware_name@,
            firmware_version@,
            session_id,
        ),
        SerialMsg::Log { line } => say(w, line@),
        SerialMsg::Uplink(u) => on_uplink(w, u, ts),
        SerialMsg::Mgmt { req_id, result, chunk, last, data } => on_mgmt_chunk(
            w,
            req_id,
            result,
            chunk,
            last,
            data@,
        ),
        SerialMsg::Stat(stat) => on_radio_stat(w, stat, ts),
        SerialMsg::Dropped(count) => say(
            w,
            "gateway console dropped "@ + dec(count as nat) + " frame(s) (link congestion)"@,
        ),
    }
}

/// What one input does: `ts` is the time, `key` a fresh node key if one could be made.
pub open spec fn step(w: World, input: Input, ts: u64, key: Option<Seq<u8>>) -> World {
    match input {
        Input::SerialUp => issue(
            link(
                publish_status(World { e: EngineV { serial_up: true, ..w.e }, out: w.out }),
                true,
                w.e.mqtt_up,
            ),
            OpKindV::Describe,
            MgmtOpV::Describe,
            None,
        ),
        Input::SerialDown { error } => say(
            link(
                publish_status(World { e: EngineV { serial_up: false, ..w.e }, out: w.out }),
                false,
                w.e.mqtt_up,
            ),
            "serial lost: "@ + error@,
        ),
        Input::SerialFrame(msg) => on_serial(w, msg, ts),
        Input::EncodeFailed { req_id, envelope } => on_encode_failed(w, req_id, envelope),
        Input::MqttUp => on_mqtt_up(w),
        Input::MqttDown { error } => say(
            link(
                World { e: EngineV { mqtt_up: false, ..w.e }, out: w.out },
                w.e.serial_up,
                false,
            ),
            "mqtt lost: "@ + error@,
        ),
        Input::MqttIn { topic, rpc, shell } => on_mqtt(w, topic@, rpc, shell, key),
        Input::Frontend(FrontendCmd::Rpc(req)) => on_rpc(w, req.deep_view(), key),
        Input::Frontend(FrontendCmd::Shell { node, req }) => on_shell_req(w, node, req),
        Input::Tick => on_tick(w),
    }
}

/// One input, with the time and a fresh key.
pub struct Happening {
    pub input: Input,
    pub ts: u64,
    pub key: Option<Seq<u8>>,
}

/// What a whole run makes of the engine.
pub open spec fn run(w: World, inputs: Seq<Happening>) -> World
    decreases inputs.len(),
{
    if inputs.len() == 0 {
        w
    } else {
        let h = inputs.last();
        step(run(w, inputs.drop_last()), h.input, h.ts, h.key)
    }
}

/// What the engine begins with.
pub open spec fn on_start(w: World) -> World {
    say(
        list_nodes(subscriptions(w)),
        "gateway "@ + addr_text(w.e.describe.net_id) + " on "@ + w.e.port_name + " ("@ + dec(
            w.e.describe.node_capacity as nat,
        ) + " node slots)"@,
    )
}

} // verus!

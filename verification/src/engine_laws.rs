//! What holds of the gateway engine as a whole.

use crate::engine_model::{
    clear_gone, clear_topic, emit, emit_registry, fail_queues, find_node, forget_node, issue,
    issue_delayed, link, list_nodes, merge_registry, mgmt_timeout, mgmt_timeouts, next_id,
    node_timeouts, nodes_timeouts, now_pending, on_encode_failed, on_hello, on_mgmt_chunk,
    on_mgmt_done, on_mqtt, on_mqtt_up, on_node_info, on_node_msg, on_queue_outcome, on_radio_stat,
    on_refusal, on_rpc, on_serial, on_shell_chunk, on_shell_req, on_start, on_success, on_tick,
    on_uplink, pairing_closed, publish, publish_node, publish_nodes, publish_pairing,
    publish_pending, publish_stats, publish_status, publish_world, rpc_add_ota, rpc_err,
    rpc_err_direct, rpc_node_add, rpc_node_rename, rpc_ok, rpc_queue_drop, rpc_respond, run, say,
    shell_error, shell_errors, shell_fail, shell_reply, shell_timeouts, step, subscribe,
    subscriptions, touch_node, with_node, with_pending, world, Happening, World,
};
use crate::engine_state::{
    EngineV, EventV, FrontendCmd, Input, NodeMirrorV, OpKindV, OutputV, PendingMgmtV,
    PendingShellV, SerialMsg, ShellOriginV,
};
use crate::frame::{NodeInfo, NodeMsg, NodeShellChunk, RadioStat, Uplink};
use crate::mgmt::{MgmtOpV, NodeEntryV};
use crate::payload::{RpcDataV, RpcRequestV, RpcResponseV, ShellReq, ShellRspV};
use crate::topics::node_topic;
use vstd::prelude::*;

verus! {

// ---- what every step keeps ---------------------------------------------------------

/// The counters of the ids stand on ids that can be used.
pub open spec fn ids_ok(e: EngineV) -> bool {
    e.next_req != 0 && e.next_cmd != 0
}

/// An output that this engine may put out: all that it publishes or subscribes to lies
/// under its prefix, and no request carries the id 0.
pub open spec fn sound(prefix: Seq<char>, o: OutputV) -> bool {
    match o {
        OutputV::Publish { topic, .. } => prefix.is_prefix_of(topic),
        OutputV::Subscribe(topic) => prefix.is_prefix_of(topic),
        OutputV::SerialSend { req_id, .. } => req_id != 0,
        OutputV::Event(_) => true,
    }
}

/// `b` comes out of `a`: identity and prefix are the same, outputs were only added, and
/// each of the new ones is sound.
pub open spec fn follows(a: World, b: World) -> bool {
    &&& b.e.prefix == a.e.prefix && b.e.wire == a.e.wire && b.e.port_name == a.e.port_name
    &&& ids_ok(b.e)
    &&& a.out.is_prefix_of(b.out)
    &&& forall|i: int|
        a.out.len() <= i < b.out.len() ==> sound(a.e.prefix, #[trigger] b.out[i])
}

pub proof fn lemma_follows(a: World, b: World, c: World)
    requires
        follows(a, b),
        follows(b, c),
    ensures
        follows(a, c),
{
    assert(a.out =~= b.out.take(a.out.len() as int));
    assert(b.out =~= c.out.take(b.out.len() as int));
    assert(a.out =~= c.out.take(a.out.len() as int));
    assert forall|i: int| a.out.len() <= i < c.out.len() implies sound(
        a.e.prefix,
        #[trigger] c.out[i],
    ) by {
        if i < b.out.len() {
            assert(c.out[i] == b.out[i]);
        }
    }
}

/// A state in which only what the engine knows changed follows.
pub proof fn lemma_changed(w: World, e: EngineV)
    requires
        ids_ok(e),
        e.prefix == w.e.prefix && e.wire == w.e.wire && e.port_name == w.e.port_name,
    ensures
        follows(w, world(e, w.out)),
{
    assert(w.out =~= w.out.take(w.out.len() as int));
}

pub proof fn lemma_emit(w: World, o: OutputV)
    requires
        ids_ok(w.e),
        sound(w.e.prefix, o),
    ensures
        follows(w, emit(w, o)),
{
    assert(w.out =~= w.out.push(o).take(w.out.len() as int));
}

proof fn lemma_under(prefix: Seq<char>, rest: Seq<char>)
    ensures
        prefix.is_prefix_of(prefix + rest),
{
    assert(prefix =~= (prefix + rest).take(prefix.len() as int));
}

proof fn lemma_node_topic_under(prefix: Seq<char>, addr: u32, tail: Seq<char>)
    ensures
        prefix.is_prefix_of(node_topic(prefix, addr, tail)),
{
    let rest = "nodes/"@ + crate::topics::addr_text(addr) + tail;
    assert(node_topic(prefix, addr, tail) =~= prefix + rest);
    lemma_under(prefix, rest);
}

pub proof fn lemma_say(w: World, text: Seq<char>)
    requires
        ids_ok(w.e),
    ensures
        follows(w, say(w, text)),
{
    lemma_emit(w, OutputV::Event(EventV::Log(text)));
}

proof fn lemma_publish(w: World, rest: Seq<char>, text: Seq<char>, retain: bool)
    requires
        ids_ok(w.e),
    ensures
        follows(w, publish(w, w.e.prefix + rest, text, retain)),
{
    lemma_under(w.e.prefix, rest);
    lemma_emit(
        w,
        OutputV::Publish {
            topic: w.e.prefix + rest,
            payload: vstd::utf8::encode_utf8(text),
            retain,
        },
    );
}

proof fn lemma_publish_node_topic(
    w: World,
    addr: u32,
    tail: Seq<char>,
    text: Seq<char>,
    retain: bool,
)
    requires
        ids_ok(w.e),
    ensures
        follows(w, publish(w, node_topic(w.e.prefix, addr, tail), text, retain)),
{
    lemma_node_topic_under(w.e.prefix, addr, tail);
    lemma_emit(
        w,
        OutputV::Publish {
            topic: node_topic(w.e.prefix, addr, tail),
            payload: vstd::utf8::encode_utf8(text),
            retain,
        },
    );
}

pub proof fn lemma_clear(w: World, addr: u32, tail: Seq<char>)
    requires
        ids_ok(w.e),
    ensures
        follows(w, clear_topic(w, node_topic(w.e.prefix, addr, tail))),
{
    lemma_node_topic_under(w.e.prefix, addr, tail);
    lemma_emit(
        w,
        OutputV::Publish {
            topic: node_topic(w.e.prefix, addr, tail),
            payload: Seq::empty(),
            retain: true,
        },
    );
}

proof fn lemma_issue(w: World, kind: OpKindV, op: MgmtOpV, rpc: Option<Seq<char>>, timeout: u64)
    requires
        ids_ok(w.e),
    ensures
        follows(w, issue_delayed(w, kind, op, rpc, timeout)),
{
    let b = issue_delayed(w, kind, op, rpc, timeout);
    assert(w.out =~= b.out.take(w.out.len() as int));
}

pub proof fn lemma_emit_registry(w: World)
    requires
        ids_ok(w.e),
    ensures
        follows(w, emit_registry(w)),
{
    lemma_emit(w, OutputV::Event(EventV::Registry(crate::engine_model::node_views(w.e))));
}

pub proof fn lemma_publish_node(w: World, i: int)
    requires
        ids_ok(w.e),
    ensures
        follows(w, publish_node(w, i)),
{
    lemma_publish_node_topic(
        w,
        w.e.nodes[i].entry.id,
        ""@,
        crate::payload::node_json(crate::engine_model::node_payload(w.e, w.e.nodes[i])),
        true,
    );
}

pub proof fn lemma_publish_pending(w: World, i: int)
    requires
        ids_ok(w.e),
    ensures
        follows(w, publish_pending(w, i)),
{
    let text = crate::payload::pending_json(
        crate::engine_model::pending_entries(w.e.nodes[i].pending),
    );
    let w1 = publish(
        w,
        node_topic(w.e.prefix, w.e.nodes[i].entry.id, "/shell/pending"@),
        text,
        true,
    );
    lemma_publish_node_topic(w, w.e.nodes[i].entry.id, "/shell/pending"@, text, true);
    lemma_emit_registry(w1);
    lemma_follows(w, w1, emit_registry(w1));
}

pub proof fn lemma_publish_status(w: World)
    requires
        ids_ok(w.e),
    ensures
        follows(w, publish_status(w)),
{
    lemma_under(w.e.prefix, "gateway/status"@);
    let w1 = publish_status(w);
    assert(w.out =~= w1.out.take(w.out.len() as int));
}

pub proof fn lemma_publish_stats(w: World)
    requires
        ids_ok(w.e),
    ensures
        follows(w, publish_stats(w)),
{
    lemma_under(w.e.prefix, "gateway/stats"@);
    let w1 = publish_stats(w);
    assert(w.out =~= w1.out.take(w.out.len() as int));
}

pub proof fn lemma_publish_pairing(w: World, joined: Option<Seq<char>>)
    requires
        ids_ok(w.e),
    ensures
        follows(w, publish_pairing(w, joined)),
{
    lemma_under(w.e.prefix, "gateway/pairing"@);
    let w1 = publish_pairing(w, joined);
    assert(w.out =~= w1.out.take(w.out.len() as int));
}

proof fn lemma_respond(w: World, rsp: RpcResponseV)
    requires
        ids_ok(w.e),
    ensures
        follows(w, rpc_respond(w, rsp)),
{
    if "tui-"@.is_prefix_of(rsp.id) {
        lemma_emit(w, OutputV::Event(EventV::Rpc(rsp)));
    } else {
        let rest = "gateway/rsp/"@ + rsp.id;
        assert(w.e.prefix + "gateway/rsp/"@ + rsp.id =~= w.e.prefix + rest);
        lemma_publish(w, rest, crate::payload::rpc_response_json(rsp), false);
    }
}

proof fn lemma_rpc_ok(w: World, rpc: Option<Seq<char>>, data: RpcDataV)
    requires
        ids_ok(w.e),
    ensures
        follows(w, rpc_ok(w, rpc, data)),
{
    match rpc {
        Some(id) => lemma_respond(w, RpcResponseV { id, ok: true, error: None, data }),
        None => lemma_changed(w, w.e),
    }
}

proof fn lemma_rpc_err_direct(w: World, id: Seq<char>, error: Seq<char>)
    requires
        ids_ok(w.e),
    ensures
        follows(w, rpc_err_direct(w, id, error)),
{
    lemma_respond(w, RpcResponseV { id, ok: false, error: Some(error), data: RpcDataV::Null });
}

proof fn lemma_rpc_err(w: World, rpc: Option<Seq<char>>, error: Seq<char>)
    requires
        ids_ok(w.e),
    ensures
        follows(w, rpc_err(w, rpc, error)),
{
    match rpc {
        Some(id) => lemma_rpc_err_direct(w, id, error),
        None => lemma_changed(w, w.e),
    }
}

pub proof fn lemma_shell_reply(w: World, node: u32, rsp: ShellRspV)
    requires
        ids_ok(w.e),
    ensures
        follows(w, shell_reply(w, node, rsp)),
{
    let text = crate::payload::shell_rsp_json(rsp);
    let w1 = publish(w, node_topic(w.e.prefix, node, "/shell/rsp"@), text, false);
    lemma_publish_node_topic(w, node, "/shell/rsp"@, text, false);
    lemma_emit(w1, OutputV::Event(EventV::Shell { node, rsp }));
    lemma_follows(w, w1, shell_reply(w, node, rsp));
}

pub proof fn lemma_shell_error(w: World, node: u32, p: PendingShellV, error: Seq<char>)
    requires
        ids_ok(w.e),
    ensures
        follows(w, shell_error(w, node, p, error)),
{
    lemma_shell_reply(
        w,
        node,
        ShellRspV {
            id: p.rpc,
            chunk: p.next_chunk,
            text: Seq::empty(),
            done: true,
            result: 1,
            truncated: p.truncated,
            error: Some(error),
        },
    );
}

proof fn lemma_shell_fail(w: World, node: u32, id: Seq<char>, result: u8, error: Seq<char>)
    requires
        ids_ok(w.e),
    ensures
        follows(w, shell_fail(w, node, id, result, error)),
{
    lemma_shell_reply(
        w,
        node,
        ShellRspV {
            id,
            chunk: 0,
            text: Seq::empty(),
            done: true,
            result,
            truncated: false,
            error: Some(error),
        },
    );
}

pub proof fn lemma_shell_errors(
    w: World,
    node: u32,
    ps: Seq<PendingShellV>,
    error: Seq<char>,
    k: nat,
)
    requires
        ids_ok(w.e),
    ensures
        follows(w, shell_errors(w, node, ps, error, k)),
        shell_errors(w, node, ps, error, k).e == w.e,
    decreases k,
{
    if k == 0 {
        lemma_changed(w, w.e);
    } else {
        let w1 = shell_errors(w, node, ps, error, (k - 1) as nat);
        lemma_shell_errors(w, node, ps, error, (k - 1) as nat);
        lemma_shell_error(w1, node, ps[k - 1], error);
        lemma_follows(w, w1, shell_errors(w, node, ps, error, k));
    }
}

pub proof fn lemma_fail_queues(w: World, k: nat)
    requires
        ids_ok(w.e),
    ensures
        follows(w, fail_queues(w, k)),
    decreases k,
{
    if k == 0 {
        lemma_changed(w, w.e);
    } else {
        let w1 = fail_queues(w, (k - 1) as nat);
        let i = k - 1;
        let ps = w1.e.nodes[i].pending;
        let id = w1.e.nodes[i].entry.id;
        lemma_fail_queues(w, (k - 1) as nat);
        let w2 = with_pending(w1, i, Seq::empty());
        lemma_changed(w1, w2.e);
        lemma_follows(w, w1, w2);
        let w3 = shell_errors(w2, id, ps, "gateway rebooted — command lost"@, ps.len());
        lemma_shell_errors(w2, id, ps, "gateway rebooted — command lost"@, ps.len());
        lemma_follows(w, w2, w3);
        lemma_publish_pending(w3, i);
        lemma_follows(w, w3, publish_pending(w3, i));
    }
}

pub proof fn lemma_list_nodes(w: World)
    requires
        ids_ok(w.e),
    ensures
        follows(w, list_nodes(w)),
{
    lemma_issue(
        w,
        OpKindV::NodeList,
        MgmtOpV::NodeList,
        None,
        crate::engine_model::MGMT_TIMEOUT_TICKS,
    );
}

pub proof fn lemma_plain_issue(w: World, kind: OpKindV, op: MgmtOpV, rpc: Option<Seq<char>>)
    requires
        ids_ok(w.e),
    ensures
        follows(w, issue(w, kind, op, rpc)),
{
    lemma_issue(w, kind, op, rpc, crate::engine_model::MGMT_TIMEOUT_TICKS);
}

proof fn lemma_on_hello(
    w: World,
    firmware_name: Seq<char>,
    firmware_version: Seq<char>,
    session_id: u32,
)
    requires
        ids_ok(w.e),
    ensures
        follows(w, on_hello(w, firmware_name, firmware_version, session_id)),
{
    reveal(on_hello);
    let w1 = world(
        EngineV {
            hello_session: Some(session_id),
            firmware_version,
            describe: crate::mgmt::DeviceInfoV { firmware_name, ..w.e.describe },
            ..w.e
        },
        w.out,
    );
    lemma_changed(w, w1.e);
    let rebooted = match w.e.hello_session {
        Some(s) => s != session_id,
        None => false,
    };
    if rebooted {
        let text = "gateway rebooted (session "@ + crate::text::dec(session_id as nat)
            + ") — resyncing; queued downlinks were lost"@;
        let a = say(w1, text);
        lemma_say(w1, text);
        lemma_follows(w, w1, a);
        let b = fail_queues(a, a.e.nodes.len());
        lemma_fail_queues(a, a.e.nodes.len());
        lemma_follows(w, a, b);
        let c = issue(b, OpKindV::Describe, MgmtOpV::Describe, None);
        lemma_plain_issue(b, OpKindV::Describe, MgmtOpV::Describe, None);
        lemma_follows(w, b, c);
        let d = list_nodes(c);
        lemma_list_nodes(c);
        lemma_follows(w, c, d);
        lemma_publish_status(d);
        lemma_follows(w, d, publish_status(d));
    } else {
        lemma_publish_status(w1);
        lemma_follows(w, w1, publish_status(w1));
    }
}

proof fn lemma_on_shell_chunk(w: World, src: u32, chunk: NodeShellChunk)
    requires
        ids_ok(w.e),
    ensures
        follows(w, on_shell_chunk(w, src, chunk)),
{
    reveal(on_shell_chunk);
    match find_node(w.e, src) {
        None => lemma_changed(w, w.e),
        Some(i) => {
            let ps = w.e.nodes[i].pending;
            match crate::text::first_where(ps, crate::engine_model::has_cmd(chunk.cmd_id)) {
                None => lemma_say(
                    w,
                    "node "@ + crate::topics::addr_text(src) + ": shell chunk for unknown cmd_id "@
                        + crate::text::dec(chunk.cmd_id as nat),
                ),
                Some(k) => {
                    let p = PendingShellV {
                        truncated: ps[k].truncated || ps[k].next_chunk != chunk.chunk,
                        next_chunk: crate::mgmt::next_index(chunk.chunk),
                        ..ps[k]
                    };
                    let w0 = with_pending(w, i, ps.update(k, p));
                    let rsp = ShellRspV {
                        id: p.rpc,
                        chunk: chunk.chunk,
                        text: chunk.text@,
                        done: chunk.last,
                        result: chunk.result,
                        truncated: p.truncated,
                        error: None,
                    };
                    let w1 = shell_reply(w0, src, rsp);
                    lemma_changed(w, w0.e);
                    lemma_shell_reply(w0, src, rsp);
                    lemma_follows(w, w0, w1);
                    if chunk.last {
                        let w2 = with_pending(w1, i, ps.update(k, p).remove(k));
                        lemma_changed(w1, w2.e);
                        lemma_follows(w, w1, w2);
                        lemma_publish_pending(w2, i);
                        lemma_follows(w, w2, publish_pending(w2, i));
                    }
                },
            }
        },
    }
}

proof fn lemma_on_node_info(w: World, src: u32, info: NodeInfo)
    requires
        ids_ok(w.e),
    ensures
        follows(w, on_node_info(w, src, info)),
{
    reveal(on_node_info);
    match find_node(w.e, src) {
        None => lemma_changed(w, w.e),
        Some(i) => {
            let kind = crate::engine_model::kind_text(info.firmware_name@);
            let w1 = with_node(
                w,
                i,
                NodeMirrorV { kind, session_id: Some(info.session_id), ..w.e.nodes[i] },
            );
            lemma_changed(w, w1.e);
            let had = w1.e.nodes[i].entry.flags;
            let flags = crate::engine_model::sleeping_flags(w1.e, had, info.sleeping);
            if had & w1.e.wire.flag_unnamed != 0 {
                let name = crate::engine_model::auto_name(w1.e.nodes, kind);
                let text = "auto-naming node "@ + crate::topics::addr_text(src) + " \""@ + name
                    + "\""@;
                let a = say(w1, text);
                lemma_say(w1, text);
                lemma_follows(w, w1, a);
                let op = MgmtOpV::NodeUpdate {
                    id: src,
                    name: Some(name),
                    flags: Some(flags & !w1.e.wire.flag_unnamed),
                };
                let b = issue(a, OpKindV::NodeUpdate, op, None);
                lemma_plain_issue(a, OpKindV::NodeUpdate, op, None);
                lemma_follows(w, a, b);
                lemma_publish_node(b, i);
                lemma_follows(w, b, publish_node(b, i));
            } else if flags != had {
                let op = MgmtOpV::NodeUpdate { id: src, name: None, flags: Some(flags) };
                let b = issue(w1, OpKindV::NodeUpdate, op, None);
                lemma_plain_issue(w1, OpKindV::NodeUpdate, op, None);
                lemma_follows(w, w1, b);
                lemma_publish_node(b, i);
                lemma_follows(w, b, publish_node(b, i));
            } else {
                lemma_publish_node(w1, i);
                lemma_follows(w, w1, publish_node(w1, i));
            }
        },
    }
}

proof fn lemma_on_node_msg(w: World, src: u32, counter: u32, len: nat, msg: NodeMsg, ts: u64)
    requires
        ids_ok(w.e),
    ensures
        follows(w, on_node_msg(w, src, counter, len, msg, ts)),
{
    reveal(on_node_msg);
    match msg {
        NodeMsg::Button { kind, count } => lemma_publish_node_topic(
            w,
            src,
            "/event/button"@,
            crate::payload::button_json(crate::engine_model::button_text(kind), count, counter, ts),
            false,
        ),
        NodeMsg::Temperature { millic } => lemma_publish_node_topic(
            w,
            src,
            "/measure/temperature"@,
            crate::payload::temperature_json(millic, ts),
            true,
        ),
        NodeMsg::Accel { kind, face } => lemma_publish_node_topic(
            w,
            src,
            "/event/accel"@,
            crate::payload::accel_json(crate::engine_model::accel_text(kind), face, counter, ts),
            false,
        ),
        NodeMsg::Info(info) => lemma_on_node_info(w, src, info),
        NodeMsg::Shell(chunk) => lemma_on_shell_chunk(w, src, chunk),
        NodeMsg::BadVersion { .. } => {
            let b = on_node_msg(w, src, counter, len, msg, ts);
            lemma_emit(w, b.out.last());
        },
        NodeMsg::Undecodable => {
            let b = on_node_msg(w, src, counter, len, msg, ts);
            lemma_emit(w, b.out.last());
        },
    }
}

proof fn lemma_on_uplink(w: World, u: Uplink, ts: u64)
    requires
        ids_ok(w.e),
    ensures
        follows(w, on_uplink(w, u, ts)),
{
    reveal(on_uplink);
    let w1 = world(
        EngineV { uplinks: crate::engine_model::sat(w.e.uplinks + 1), ..w.e },
        w.out,
    );
    let wt = touch_node(w1, u.src, u.rssi_dbm);
    lemma_changed(w, wt.e);
    let o = OutputV::Event(
        EventV::Radio(
            crate::engine_state::RadioSample::Rx { src: u.src, rssi_dbm: u.rssi_dbm },
        ),
    );
    let w2 = emit(wt, o);
    lemma_emit(wt, o);
    lemma_follows(w, wt, w2);
    let rx = crate::payload::radio_rx_json(
        crate::topics::addr_text(u.src),
        u.rssi_dbm,
        u.lqi,
        u.data@.len(),
        ts,
    );
    let w3 = publish(w2, w2.e.prefix + "radio/rx"@, rx, false);
    lemma_publish(w2, "radio/rx"@, rx, false);
    lemma_follows(w, w2, w3);
    let up = crate::payload::uplink_json(
        u.counter,
        u.rssi_dbm,
        u.lqi,
        u.data@.len(),
        crate::text::hex_bytes(u.data@),
        ts,
    );
    let w4 = publish(w3, node_topic(w3.e.prefix, u.src, "/uplink"@), up, false);
    lemma_publish_node_topic(w3, u.src, "/uplink"@, up, false);
    lemma_follows(w, w3, w4);
    lemma_on_node_msg(w4, u.src, u.counter, u.data@.len(), u.body, ts);
    lemma_follows(w, w4, on_uplink(w, u, ts));
}

proof fn lemma_on_queue_outcome(w: World, node: u32, item: u16, outcome: u8)
    requires
        ids_ok(w.e),
    ensures
        follows(w, on_queue_outcome(w, node, item, outcome)),
{
    reveal(on_queue_outcome);
    lemma_changed(w, w.e);
    match find_node(w.e, node) {
        None => {},
        Some(i) => {
            let ps = w.e.nodes[i].pending;
            match crate::text::first_where(ps, crate::engine_model::has_item(item)) {
                None => {},
                Some(k) => if outcome == w.e.wire.tx_delivered {
                    lemma_changed(w, on_queue_outcome(w, node, item, outcome).e);
                } else if outcome == w.e.wire.tx_expired {
                    let w1 = with_pending(w, i, ps.remove(k));
                    lemma_changed(w, w1.e);
                    let w2 = shell_error(w1, node, ps[k], "queue TTL expired before delivery"@);
                    lemma_shell_error(w1, node, ps[k], "queue TTL expired before delivery"@);
                    lemma_follows(w, w1, w2);
                    lemma_publish_pending(w2, i);
                    lemma_follows(w, w2, publish_pending(w2, i));
                },
            }
        },
    }
}

proof fn lemma_on_radio_stat(w: World, stat: RadioStat, ts: u64)
    requires
        ids_ok(w.e),
    ensures
        follows(w, on_radio_stat(w, stat, ts)),
{
    reveal(on_radio_stat);
    match stat {
        RadioStat::Channel { channel, rssi_dbm } => {
            let w1 = world(EngineV { last_ambient: Some((rssi_dbm, channel)), ..w.e }, w.out);
            lemma_changed(w, w1.e);
            let o = OutputV::Event(
                EventV::Radio(
                    crate::engine_state::RadioSample::Ambient { dbm: rssi_dbm, channel },
                ),
            );
            let w2 = emit(w1, o);
            lemma_emit(w1, o);
            lemma_follows(w, w1, w2);
            let text = crate::payload::radio_rssi_json(rssi_dbm, channel, ts);
            lemma_publish(w2, "radio/rssi"@, text, false);
            lemma_follows(w, w2, on_radio_stat(w, stat, ts));
        },
        RadioStat::Tx { dest, item, outcome, ack_rssi_dbm } => {
            let o = OutputV::Event(
                EventV::Radio(
                    crate::engine_state::RadioSample::Tx {
                        dest,
                        delivered: outcome == w.e.wire.tx_delivered,
                    },
                ),
            );
            let w1 = emit(w, o);
            lemma_emit(w, o);
            let text = crate::payload::radio_tx_json(
                crate::topics::addr_text(dest),
                item,
                crate::wire::tx_outcome(w.e.wire, outcome),
                ack_rssi_dbm,
                ts,
            );
            let w2 = publish(w1, w1.e.prefix + "radio/tx"@, text, false);
            lemma_publish(w1, "radio/tx"@, text, false);
            lemma_follows(w, w1, w2);
            if item != 0 {
                lemma_on_queue_outcome(w2, dest, item, outcome);
                lemma_follows(w, w2, on_radio_stat(w, stat, ts));
            }
        },
    }
}

proof fn lemma_forget_node(w: World, id: u32)
    requires
        ids_ok(w.e),
    ensures
        follows(w, forget_node(w, id)),
{
    reveal(forget_node);
    let w1 = match find_node(w.e, id) {
        None => w,
        Some(i) => {
            let ps = w.e.nodes[i].pending;
            let a = shell_errors(w, id, ps, "node removed"@, ps.len());
            world(EngineV { nodes: a.e.nodes.remove(i), ..a.e }, a.out)
        },
    };
    match find_node(w.e, id) {
        None => lemma_changed(w, w.e),
        Some(i) => {
            let ps = w.e.nodes[i].pending;
            let a = shell_errors(w, id, ps, "node removed"@, ps.len());
            lemma_shell_errors(w, id, ps, "node removed"@, ps.len());
            lemma_changed(a, w1.e);
            lemma_follows(w, a, w1);
        },
    }
    let w2 = clear_topic(w1, node_topic(w1.e.prefix, id, ""@));
    lemma_clear(w1, id, ""@);
    lemma_follows(w, w1, w2);
    let w3 = clear_topic(w2, node_topic(w1.e.prefix, id, "/measure/temperature"@));
    lemma_clear(w2, id, "/measure/temperature"@);
    lemma_follows(w, w2, w3);
    let w4 = clear_topic(w3, node_topic(w1.e.prefix, id, "/shell/pending"@));
    lemma_clear(w3, id, "/shell/pending"@);
    lemma_follows(w, w3, w4);
    lemma_emit_registry(w4);
    lemma_follows(w, w4, emit_registry(w4));
}

proof fn lemma_now_pending(w: World, node: u32, origin: Option<ShellOriginV>, item: u16)
    requires
        ids_ok(w.e),
    ensures
        follows(w, now_pending(w, node, origin, item)),
{
    reveal(now_pending);
    lemma_changed(w, w.e);
    match origin {
        None => {},
        Some(o) => match find_node(w.e, node) {
            None => {},
            Some(i) => {
                let w1 = with_pending(
                    w,
                    i,
                    w.e.nodes[i].pending.push(
                        PendingShellV {
                            item,
                            rpc: o.rpc,
                            line: o.line,
                            cmd_id: o.cmd_id,
                            delivered_tick: None,
                            next_chunk: 0,
                            truncated: false,
                        },
                    ),
                );
                lemma_changed(w, w1.e);
                let w2 = publish_pending(w1, i);
                lemma_publish_pending(w1, i);
                lemma_follows(w, w1, w2);
                lemma_publish_node(w2, i);
                lemma_follows(w, w2, publish_node(w2, i));
            },
        },
    }
}

pub proof fn lemma_clear_gone(w: World, fresh: Seq<NodeEntryV>, k: nat)
    requires
        ids_ok(w.e),
    ensures
        follows(w, clear_gone(w, fresh, k)),
        clear_gone(w, fresh, k).e == w.e,
    decreases k,
{
    if k == 0 {
        lemma_changed(w, w.e);
    } else {
        let w1 = clear_gone(w, fresh, (k - 1) as nat);
        lemma_clear_gone(w, fresh, (k - 1) as nat);
        let id = w.e.nodes[k - 1].entry.id;
        if !crate::engine_model::still_listed(fresh, id) {
            lemma_clear(w1, id, ""@);
            lemma_follows(w, w1, clear_gone(w, fresh, k));
        }
    }
}

pub proof fn lemma_publish_nodes(w: World, k: nat)
    requires
        ids_ok(w.e),
    ensures
        follows(w, publish_nodes(w, k)),
        publish_nodes(w, k).e == w.e,
    decreases k,
{
    if k == 0 {
        lemma_changed(w, w.e);
    } else {
        let w1 = publish_nodes(w, (k - 1) as nat);
        lemma_publish_nodes(w, (k - 1) as nat);
        lemma_publish_node(w1, k - 1);
        lemma_follows(w, w1, publish_nodes(w, k));
    }
}

proof fn lemma_merge_registry(w: World, fresh: Seq<NodeEntryV>)
    requires
        ids_ok(w.e),
    ensures
        follows(w, merge_registry(w, fresh)),
{
    reveal(merge_registry);
    let w1 = clear_gone(w, fresh, w.e.nodes.len());
    lemma_clear_gone(w, fresh, w.e.nodes.len());
    let w2 = world(
        EngineV { nodes: crate::engine_model::merged(w.e.nodes, fresh), ..w1.e },
        w1.out,
    );
    lemma_changed(w1, w2.e);
    lemma_follows(w, w1, w2);
    let w3 = publish_nodes(w2, w2.e.nodes.len());
    lemma_publish_nodes(w2, w2.e.nodes.len());
    lemma_follows(w, w2, w3);
    lemma_emit_registry(w3);
    lemma_follows(w, w3, emit_registry(w3));
}

// ---- answers -----------------------------------------------------------------------

/// An output that answers the request `id`: an event for the frontend in this process, a
/// message on the response topic for any other.
pub open spec fn is_answer(prefix: Seq<char>, o: OutputV, id: Seq<char>) -> bool {
    match o {
        OutputV::Event(EventV::Rpc(rsp)) => "tui-"@.is_prefix_of(id) && rsp.id == id,
        OutputV::Publish { topic, .. } => !"tui-"@.is_prefix_of(id) && topic == prefix
            + "gateway/rsp/"@ + id,
        _ => false,
    }
}

/// Between `a` and `b` the request `id` was answered.
pub open spec fn answers(a: World, b: World, id: Seq<char>) -> bool {
    exists|i: int|
        a.out.len() <= i < b.out.len() && is_answer(a.e.prefix, #[trigger] b.out[i], id)
}

proof fn lemma_answered_later(a: World, b: World, c: World, id: Seq<char>)
    requires
        follows(a, b),
        answers(b, c, id),
    ensures
        answers(a, c, id),
{
    let i = choose|i: int|
        b.out.len() <= i < c.out.len() && is_answer(b.e.prefix, #[trigger] c.out[i], id);
    assert(is_answer(a.e.prefix, c.out[i], id));
}

proof fn lemma_answered_before(a: World, b: World, c: World, id: Seq<char>)
    requires
        answers(a, b, id),
        follows(b, c),
    ensures
        answers(a, c, id),
{
    let i = choose|i: int|
        a.out.len() <= i < b.out.len() && is_answer(a.e.prefix, #[trigger] b.out[i], id);
    assert(b.out =~= c.out.take(b.out.len() as int));
    assert(c.out[i] == b.out[i]);
}

/// A response answers its own request, as its last output.
proof fn lemma_respond_answers(w: World, rsp: RpcResponseV)
    ensures
        answers(w, rpc_respond(w, rsp), rsp.id),
        rpc_respond(w, rsp).out.len() == w.out.len() + 1,
        is_answer(w.e.prefix, rpc_respond(w, rsp).out.last(), rsp.id),
{
    let b = rpc_respond(w, rsp);
    assert(is_answer(w.e.prefix, b.out[w.out.len() as int], rsp.id));
}

proof fn lemma_ok_answers(w: World, id: Seq<char>, data: RpcDataV)
    ensures
        answers(w, rpc_ok(w, Some(id), data), id),
{
    lemma_respond_answers(w, RpcResponseV { id, ok: true, error: None, data });
}

proof fn lemma_err_answers(w: World, id: Seq<char>, error: Seq<char>)
    ensures
        answers(w, rpc_err(w, Some(id), error), id),
{
    lemma_respond_answers(
        w,
        RpcResponseV { id, ok: false, error: Some(error), data: RpcDataV::Null },
    );
}

/// `b` follows `a`, and the request of a client, if it was one, is answered on the way.
pub open spec fn completes(a: World, b: World, rpc: Option<Seq<char>>) -> bool {
    follows(a, b) && match rpc {
        Some(id) => answers(a, b, id),
        None => true,
    }
}

proof fn lemma_completes_ok(a: World, b: World, rpc: Option<Seq<char>>, data: RpcDataV)
    requires
        follows(a, b),
    ensures
        completes(a, rpc_ok(b, rpc, data), rpc),
{
    lemma_rpc_ok(b, rpc, data);
    lemma_follows(a, b, rpc_ok(b, rpc, data));
    if let Some(id) = rpc {
        lemma_ok_answers(b, id, data);
        lemma_answered_later(a, b, rpc_ok(b, rpc, data), id);
    }
}

proof fn lemma_completes_err(a: World, b: World, rpc: Option<Seq<char>>, error: Seq<char>)
    requires
        follows(a, b),
    ensures
        completes(a, rpc_err(b, rpc, error), rpc),
{
    lemma_rpc_err(b, rpc, error);
    lemma_follows(a, b, rpc_err(b, rpc, error));
    if let Some(id) = rpc {
        lemma_err_answers(b, id, error);
        lemma_answered_later(a, b, rpc_err(b, rpc, error), id);
    }
}

proof fn lemma_completes_then(a: World, b: World, c: World, rpc: Option<Seq<char>>)
    requires
        completes(a, b, rpc),
        follows(b, c),
    ensures
        completes(a, c, rpc),
{
    lemma_follows(a, b, c);
    if let Some(id) = rpc {
        lemma_answered_before(a, b, c, id);
    }
}

proof fn lemma_pairing_closed(w: World, joined: Option<Seq<char>>)
    requires
        ids_ok(w.e),
    ensures
        follows(w, publish_pairing(pairing_closed(w), joined)),
{
    let w1 = pairing_closed(w);
    lemma_changed(w, w1.e);
    lemma_publish_pairing(w1, joined);
    lemma_follows(w, w1, publish_pairing(w1, joined));
}

proof fn lemma_on_success(w: World, p: PendingMgmtV)
    requires
        ids_ok(w.e),
    ensures
        completes(w, on_success(w, p), p.rpc),
{
    reveal(on_success);
    lemma_changed(w, w.e);
    match p.op {
        OpKindV::Describe => {
            let w1 = match crate::mgmt::device_info_in(w.e.wire, p.data) {
                Some(d) => publish_status(
                    world(
                        EngineV { describe: d, ..w.e },
                        w.out,
                    ),
                ),
                None => w,
            };
            if let Some(d) = crate::mgmt::device_info_in(w.e.wire, p.data) {
                let w0 = world(
                    EngineV { describe: d, ..w.e },
                    w.out,
                );
                lemma_changed(w, w0.e);
                lemma_publish_status(w0);
                lemma_follows(w, w0, w1);
            }
            lemma_completes_ok(
                w,
                w1,
                p.rpc,
                RpcDataV::Gateway(crate::topics::addr_text(w1.e.describe.net_id)),
            );
        },
        OpKindV::NodeList => {
            let fresh = crate::mgmt::node_entries(p.data);
            let w1 = merge_registry(w, fresh);
            lemma_merge_registry(w, fresh);
            lemma_completes_ok(
                w,
                w1,
                p.rpc,
                RpcDataV::Nodes(crate::engine_model::node_payloads(w1.e)),
            );
        },
        OpKindV::NodeAdd { id, name } => {
            let text = "node "@ + crate::topics::addr_text(id) + " added ("@ + name + ")"@;
            lemma_say(w, text);
            let w1 = say(w, text);
            lemma_completes_ok(w, w1, p.rpc, RpcDataV::Null);
            let w2 = rpc_ok(w1, p.rpc, RpcDataV::Null);
            lemma_list_nodes(w2);
            lemma_completes_then(w, w2, list_nodes(w2), p.rpc);
        },
        OpKindV::NodeRemove { id } => {
            lemma_forget_node(w, id);
            lemma_completes_ok(w, forget_node(w, id), p.rpc, RpcDataV::Null);
        },
        OpKindV::NodeUpdate => {
            lemma_completes_ok(w, w, p.rpc, RpcDataV::Null);
            let w2 = rpc_ok(w, p.rpc, RpcDataV::Null);
            lemma_list_nodes(w2);
            lemma_completes_then(w, w2, list_nodes(w2), p.rpc);
        },
        OpKindV::RevealKey { id } => match crate::mgmt::read_node_key(p.data) {
            Some(key) => lemma_completes_ok(
                w,
                w,
                p.rpc,
                RpcDataV::Key {
                    node: crate::topics::addr_text(id),
                    key: crate::text::hex_bytes(key),
                },
            ),
            None => lemma_completes_err(w, w, p.rpc, "malformed key record"@),
        },
        OpKindV::PairingOpen => {
            let joined = match crate::mgmt::read_paired(p.data) {
                Some(a) => Some(crate::topics::addr_text(a)),
                None => None,
            };
            let line = match joined {
                Some(h) => "node "@ + h + " paired"@,
                None => "pairing window resolved"@,
            };
            let w0 = pairing_closed(w);
            lemma_changed(w, w0.e);
            let w1 = say(w0, line);
            lemma_say(w0, line);
            lemma_follows(w, w0, w1);
            let w2 = publish_pairing(w1, joined);
            lemma_publish_pairing(w1, joined);
            lemma_follows(w, w1, w2);
            lemma_completes_ok(w, w2, p.rpc, RpcDataV::Joined(joined));
            let w3 = rpc_ok(w2, p.rpc, RpcDataV::Joined(joined));
            lemma_list_nodes(w3);
            lemma_completes_then(w, w3, list_nodes(w3), p.rpc);
        },
        OpKindV::PairingCancel => lemma_completes_ok(w, w, p.rpc, RpcDataV::Null),
        OpKindV::QueuePush { node, shell } => match crate::mgmt::read_queue_id(p.data) {
            Some(item) => {
                lemma_now_pending(w, node, shell, item);
                lemma_completes_ok(w, now_pending(w, node, shell, item), p.rpc, RpcDataV::Item(item));
            },
            None => lemma_completes_err(w, w, p.rpc, "malformed queue id"@),
        },
        OpKindV::QueueList => lemma_completes_ok(
            w,
            w,
            p.rpc,
            RpcDataV::Queue(crate::engine_model::queue_rows(crate::mgmt::queue_entries(p.data))),
        ),
        OpKindV::QueueDrop { node } => {
            lemma_completes_ok(w, w, p.rpc, RpcDataV::Null);
            let w1 = rpc_ok(w, p.rpc, RpcDataV::Null);
            match find_node(w1.e, node) {
                Some(i) => {
                    let w2 = publish_pending(w1, i);
                    lemma_publish_pending(w1, i);
                    lemma_completes_then(w, w1, w2, p.rpc);
                    lemma_list_nodes(w2);
                    lemma_completes_then(w, w2, list_nodes(w2), p.rpc);
                },
                None => {
                    lemma_list_nodes(w1);
                    lemma_completes_then(w, w1, list_nodes(w1), p.rpc);
                },
            }
        },
        OpKindV::StatsConfig => lemma_completes_ok(w, w, p.rpc, RpcDataV::Null),
    }
}

proof fn lemma_on_refusal(w: World, p: PendingMgmtV, result: u8, error: Seq<char>)
    requires
        ids_ok(w.e),
    ensures
        completes(w, on_refusal(w, p, result, error), p.rpc),
{
    reveal(on_refusal);
    lemma_changed(w, w.e);
    match p.op {
        OpKindV::PairingOpen => {
            let w1 = publish_pairing(pairing_closed(w), None);
            lemma_pairing_closed(w, None);
            if result == w1.e.wire.mgmt_timeout {
                lemma_completes_ok(w, w1, p.rpc, RpcDataV::Joined(None));
            } else {
                lemma_completes_err(w, w1, p.rpc, error);
            }
        },
        OpKindV::QueuePush { node, shell } => match shell {
            Some(o) => {
                let code = if result >= 1 {
                    result
                } else {
                    1
                };
                lemma_shell_fail(w, node, o.rpc, code, error);
                lemma_completes_err(w, shell_fail(w, node, o.rpc, code, error), p.rpc, error);
            },
            None => lemma_completes_err(w, w, p.rpc, error),
        },
        _ => lemma_completes_err(w, w, p.rpc, error),
    }
}

proof fn lemma_on_mgmt_done(w: World, p: PendingMgmtV, result: u8)
    requires
        ids_ok(w.e),
    ensures
        completes(w, on_mgmt_done(w, p, result), p.rpc),
{
    reveal(on_mgmt_done);
    let w1 = match crate::wire::mgmt_error(w.e.wire, result) {
        None => on_success(w, p),
        Some(error) => on_refusal(w, p, result, error),
    };
    match crate::wire::mgmt_error(w.e.wire, result) {
        None => lemma_on_success(w, p),
        Some(error) => lemma_on_refusal(w, p, result, error),
    }
    if p.truncated {
        let w2 = on_mgmt_done(w, p, result);
        lemma_emit(w1, w2.out.last());
        lemma_completes_then(w, w1, w2, p.rpc);
    }
}

proof fn lemma_on_mgmt_chunk(
    w: World,
    req_id: u16,
    result: u8,
    chunk: u16,
    last: bool,
    data: Seq<u8>,
)
    requires
        ids_ok(w.e),
    ensures
        follows(w, on_mgmt_chunk(w, req_id, result, chunk, last, data)),
{
    reveal(on_mgmt_chunk);
    lemma_changed(w, w.e);
    match crate::text::first_where(w.e.pending_mgmt, crate::engine_model::has_req(req_id)) {
        None => {},
        Some(k) => {
            let old = w.e.pending_mgmt[k];
            let p = PendingMgmtV {
                truncated: old.truncated || old.next_chunk != chunk,
                next_chunk: crate::mgmt::next_index(chunk),
                data: old.data + data,
                ..old
            };
            if last {
                let w1 = world(
                    EngineV { pending_mgmt: w.e.pending_mgmt.update(k, p).remove(k), ..w.e },
                    w.out,
                );
                lemma_changed(w, w1.e);
                lemma_on_mgmt_done(w1, p, result);
                lemma_follows(w, w1, on_mgmt_done(w1, p, result));
            } else {
                lemma_changed(w, on_mgmt_chunk(w, req_id, result, chunk, last, data).e);
            }
        },
    }
}

// ---- requests ----------------------------------------------------------------------

/// A request was taken up: it is in flight, as the last of the requests to the device, or
/// it was answered, by the last output. Never both, and never neither.
pub open spec fn taken_up(a: World, b: World, id: Seq<char>) -> bool {
    let n = a.e.pending_mgmt.len();
    let in_flight = b.e.pending_mgmt.len() == n + 1 && b.e.pending_mgmt.last().rpc == Some(id);
    let answered = b.e.pending_mgmt.len() == n && b.out.len() > a.out.len() && is_answer(
        a.e.prefix,
        b.out.last(),
        id,
    );
    in_flight || answered
}

proof fn lemma_issued(
    a: World,
    b: World,
    kind: OpKindV,
    op: MgmtOpV,
    id: Seq<char>,
    timeout: u64,
)
    requires
        ids_ok(a.e),
        follows(a, b),
        b.e.pending_mgmt == a.e.pending_mgmt,
    ensures
        follows(a, issue_delayed(b, kind, op, Some(id), timeout)),
        taken_up(a, issue_delayed(b, kind, op, Some(id), timeout), id),
{
    lemma_issue(b, kind, op, Some(id), timeout);
    lemma_follows(a, b, issue_delayed(b, kind, op, Some(id), timeout));
}

proof fn lemma_refused(w: World, id: Seq<char>, error: Seq<char>)
    requires
        ids_ok(w.e),
    ensures
        follows(w, rpc_err_direct(w, id, error)),
        taken_up(w, rpc_err_direct(w, id, error), id),
{
    lemma_rpc_err_direct(w, id, error);
    lemma_respond_answers(
        w,
        RpcResponseV { id, ok: false, error: Some(error), data: RpcDataV::Null },
    );
}

proof fn lemma_rpc_queue_drop(w: World, req: RpcRequestV)
    requires
        ids_ok(w.e),
    ensures
        follows(w, rpc_queue_drop(w, req)),
        taken_up(w, rpc_queue_drop(w, req), req.id),
{
    let ticks = crate::engine_model::MGMT_TIMEOUT_TICKS;
    match crate::engine_model::node_param(w.e, req.params) {
        None => lemma_refused(w, req.id, "unknown node"@),
        Some(node) => {
            let item = match req.params.item {
                Some(n) => Some((n % 0x1_0000) as u16),
                None => None,
            };
            let kind = OpKindV::QueueDrop { node };
            let op = MgmtOpV::QueueDrop { node, item };
            lemma_changed(w, w.e);
            match (item, find_node(w.e, node)) {
                (Some(it), Some(i)) => {
                    let ps = w.e.nodes[i].pending;
                    match crate::text::first_where(ps, crate::engine_model::has_item(it)) {
                        Some(k) => {
                            let w1 = with_pending(w, i, ps.remove(k));
                            lemma_changed(w, w1.e);
                            let w2 = shell_error(w1, node, ps[k], "dequeued"@);
                            lemma_shell_error(w1, node, ps[k], "dequeued"@);
                            lemma_follows(w, w1, w2);
                            let w3 = publish_pending(w2, i);
                            lemma_publish_pending(w2, i);
                            lemma_follows(w, w2, w3);
                            lemma_issued(w, w3, kind, op, req.id, ticks);
                        },
                        None => lemma_issued(w, w, kind, op, req.id, ticks),
                    }
                },
                _ => lemma_issued(w, w, kind, op, req.id, ticks),
            }
        },
    }
}

proof fn lemma_rpc_add_ota(w: World, req: RpcRequestV, key: Option<Seq<u8>>)
    requires
        ids_ok(w.e),
    ensures
        follows(w, rpc_add_ota(w, req, key)),
        taken_up(w, rpc_add_ota(w, req, key), req.id),
{
    if w.e.pairing_rpc is Some {
        lemma_refused(w, req.id, "a pairing window is already open"@);
    } else {
        match key {
            None => lemma_refused(w, req.id, "no entropy source for the node key"@),
            Some(k) => {
                let window_s = crate::engine_model::window(req.params);
                let w1 = world(
                    EngineV {
                        pairing_rpc: Some(req.id),
                        pairing_until: Some(crate::engine_model::sat(w.e.tick + window_s)),
                        ..w.e
                    },
                    w.out,
                );
                lemma_changed(w, w1.e);
                let w2 = publish_pairing(w1, None);
                lemma_publish_pairing(w1, None);
                lemma_follows(w, w1, w2);
                lemma_issued(
                    w,
                    w2,
                    OpKindV::PairingOpen,
                    MgmtOpV::PairingOpen { window_s, key: k },
                    req.id,
                    (window_s + crate::engine_model::PAIRING_SLACK_TICKS) as u64,
                );
            },
        }
    }
}

proof fn lemma_rpc_changes(w: World, req: RpcRequestV)
    requires
        ids_ok(w.e),
    ensures
        follows(w, rpc_node_add(w, req)),
        taken_up(w, rpc_node_add(w, req), req.id),
        follows(w, rpc_node_rename(w, req)),
        taken_up(w, rpc_node_rename(w, req), req.id),
{
    lemma_changed(w, w.e);
    let ticks = crate::engine_model::MGMT_TIMEOUT_TICKS;
    let added = rpc_node_add(w, req);
    match (
        crate::engine_model::opt_addr(req.params.id),
        crate::engine_model::opt_key(req.params.key),
    ) {
        (Some(_), Some(_)) => {
            let kind = added.e.pending_mgmt.last().op;
            let op = match added.out.last() {
                OutputV::SerialSend { op, .. } => op,
                _ => MgmtOpV::Describe,
            };
            lemma_issued(w, w, kind, op, req.id, ticks);
        },
        _ => lemma_refused(w, req.id, "node_add needs id + key (hex)"@),
    }
    let renamed = rpc_node_rename(w, req);
    match crate::engine_model::node_param(w.e, req.params) {
        None => lemma_refused(w, req.id, "unknown node"@),
        Some(id) => match req.params.name {
            None => lemma_refused(w, req.id, "missing name"@),
            Some(name) => if name.len() == 0 || vstd::utf8::encode_utf8(name).len()
                > w.e.wire.max_node_name {
                lemma_refused(
                    w,
                    req.id,
                    "name must be 1..="@ + crate::text::dec(w.e.wire.max_node_name as nat)
                        + " bytes"@,
                );
            } else {
                let op = match renamed.out.last() {
                    OutputV::SerialSend { op, .. } => op,
                    _ => MgmtOpV::Describe,
                };
                lemma_issued(w, w, OpKindV::NodeUpdate, op, req.id, ticks);
            },
        },
    }
}

proof fn lemma_on_rpc(w: World, req: RpcRequestV, key: Option<Seq<u8>>)
    requires
        ids_ok(w.e),
    ensures
        follows(w, on_rpc(w, req, key)),
        taken_up(w, on_rpc(w, req, key), req.id),
{
    reveal(on_rpc);
    let b = on_rpc(w, req, key);
    let ticks = crate::engine_model::MGMT_TIMEOUT_TICKS;
    let node = crate::engine_model::node_param(w.e, req.params);
    lemma_changed(w, w.e);
    if req.op == "describe"@ {
        lemma_issued(w, w, OpKindV::Describe, MgmtOpV::Describe, req.id, ticks);
    } else if req.op == "node_list"@ {
        lemma_issued(w, w, OpKindV::NodeList, MgmtOpV::NodeList, req.id, ticks);
    } else if req.op == "node_add"@ || req.op == "node_rename"@ {
        lemma_rpc_changes(w, req);
    } else if req.op == "node_remove"@ {
        match node {
            Some(id) => lemma_issued(
                w,
                w,
                OpKindV::NodeRemove { id },
                MgmtOpV::NodeRemove { id },
                req.id,
                ticks,
            ),
            None => lemma_refused(w, req.id, "unknown node"@),
        }
    } else if req.op == "reveal_key"@ {
        match node {
            Some(id) => lemma_issued(
                w,
                w,
                OpKindV::RevealKey { id },
                MgmtOpV::NodeRevealKey { id },
                req.id,
                ticks,
            ),
            None => lemma_refused(w, req.id, "unknown node"@),
        }
    } else if req.op == "node_add_ota"@ {
        lemma_rpc_add_ota(w, req, key);
    } else if req.op == "pairing_cancel"@ {
        lemma_pairing_closed(w, None);
        lemma_issued(
            w,
            publish_pairing(pairing_closed(w), None),
            OpKindV::PairingCancel,
            MgmtOpV::PairingCancel,
            req.id,
            ticks,
        );
    } else if req.op == "queue_list"@ {
        let node = match node {
            Some(n) => n,
            None => 0,
        };
        lemma_issued(w, w, OpKindV::QueueList, MgmtOpV::QueueList { node }, req.id, ticks);
    } else if req.op == "queue_drop"@ {
        lemma_rpc_queue_drop(w, req);
    } else if req.op == "stats_config"@ {
        lemma_issued(
            w,
            w,
            OpKindV::StatsConfig,
            MgmtOpV::StatsConfig {
                channel_period_ms: crate::engine_model::stats_period(req.params),
            },
            req.id,
            ticks,
        );
    } else {
        lemma_refused(w, req.id, "unknown op \""@ + req.op + "\""@);
    }
}

proof fn lemma_on_shell_req(w: World, node: u32, req: ShellReq)
    requires
        ids_ok(w.e),
    ensures
        follows(w, on_shell_req(w, node, req)),
{
    if find_node(w.e, node) is None {
        lemma_shell_fail(w, node, req.id@, 1, "unknown node"@);
    } else if vstd::utf8::encode_utf8(req.line@).len() > w.e.wire.radio_shell_chunk {
        lemma_shell_fail(
            w,
            node,
            req.id@,
            1,
            "line too long for the radio MTU (max "@ + crate::text::dec(
                w.e.wire.radio_shell_chunk as nat,
            ) + " bytes)"@,
        );
    } else {
        let cmd_id = w.e.next_cmd;
        let w1 = world(EngineV { next_cmd: next_id(cmd_id), ..w.e }, w.out);
        lemma_changed(w, w1.e);
        let kind = OpKindV::QueuePush {
            node,
            shell: Some(ShellOriginV { rpc: req.id@, line: req.line@, cmd_id }),
        };
        let op = MgmtOpV::QueuePush { node, ttl_s: req.ttl_s, cmd_id, line: req.line@ };
        lemma_plain_issue(w1, kind, op, None);
        lemma_follows(w, w1, issue(w1, kind, op, None));
    }
}

proof fn lemma_on_encode_failed(w: World, req_id: u16, envelope: bool)
    requires
        ids_ok(w.e),
    ensures
        follows(w, on_encode_failed(w, req_id, envelope)),
{
    lemma_changed(w, w.e);
    match crate::text::first_where(w.e.pending_mgmt, crate::engine_model::has_req(req_id)) {
        None => {},
        Some(k) => {
            let p = w.e.pending_mgmt[k];
            let w1 = world(EngineV { pending_mgmt: w.e.pending_mgmt.remove(k), ..w.e }, w.out);
            lemma_changed(w, w1.e);
            match (envelope, p.op) {
                (true, OpKindV::QueuePush { node, shell: Some(o) }) => {
                    let w2 = world(crate::engine_model::taken_back(w1.e, req_id), w1.out);
                    lemma_changed(w, w2.e);
                    lemma_shell_fail(w2, node, o.rpc, 1, "envelope encode failed"@);
                    lemma_follows(w, w2, on_encode_failed(w, req_id, envelope));
                },
                _ => {
                    lemma_rpc_err(w1, p.rpc, "request encode failed"@);
                    lemma_follows(w, w1, on_encode_failed(w, req_id, envelope));
                },
            }
        },
    }
}

// ---- housekeeping ------------------------------------------------------------------

proof fn lemma_mgmt_timeout(w: World, k: int)
    requires
        ids_ok(w.e),
    ensures
        completes(w, mgmt_timeout(w, k), w.e.pending_mgmt[k].rpc),
        mgmt_timeout(w, k).e.pending_mgmt == w.e.pending_mgmt.remove(k),
        mgmt_timeout(w, k).e.tick == w.e.tick,
        mgmt_timeout(w, k).e.nodes == w.e.nodes,
{
    let p = w.e.pending_mgmt[k];
    let w1 = world(EngineV { pending_mgmt: w.e.pending_mgmt.remove(k), ..w.e }, w.out);
    lemma_changed(w, w1.e);
    let w2 = if p.op is PairingOpen {
        publish_pairing(pairing_closed(w1), None)
    } else {
        w1
    };
    if p.op is PairingOpen {
        lemma_pairing_closed(w1, None);
        lemma_follows(w, w1, w2);
    }
    let text = "management op timed out (req "@ + crate::text::dec(p.req_id as nat) + ")"@;
    lemma_say(w2, text);
    lemma_follows(w, w2, say(w2, text));
    lemma_completes_err(w, say(w2, text), p.rpc, "device did not answer (timeout)"@);
}

/// None of the requests from `k` on is overdue.
pub open spec fn none_overdue(e: EngineV, k: int) -> bool {
    forall|i: int|
        k <= i < e.pending_mgmt.len() ==> (#[trigger] e.pending_mgmt[i]).deadline > e.tick
}

/// The requests of clients among the first `k` that are overdue in `a` are answered in `b`.
pub open spec fn overdue_answered(a: World, b: World, k: int) -> bool {
    forall|i: int|
        0 <= i < k && (#[trigger] a.e.pending_mgmt[i]).deadline <= a.e.tick
            && a.e.pending_mgmt[i].rpc is Some ==> answers(a, b, a.e.pending_mgmt[i].rpc->0)
}

proof fn lemma_mgmt_timeouts(w: World, k: nat)
    requires
        ids_ok(w.e),
        k <= w.e.pending_mgmt.len(),
        none_overdue(w.e, k as int),
    ensures
        follows(w, mgmt_timeouts(w, k)),
        none_overdue(mgmt_timeouts(w, k).e, 0),
        mgmt_timeouts(w, k).e.tick == w.e.tick,
        mgmt_timeouts(w, k).e.nodes == w.e.nodes,
        overdue_answered(w, mgmt_timeouts(w, k), k as int),
    decreases k,
{
    if k == 0 {
        lemma_changed(w, w.e);
    } else if w.e.tick >= w.e.pending_mgmt[k - 1].deadline {
        let w1 = mgmt_timeout(w, k - 1);
        lemma_mgmt_timeout(w, k - 1);
        assert forall|i: int| k - 1 <= i < w1.e.pending_mgmt.len() implies (
        #[trigger] w1.e.pending_mgmt[i]).deadline > w1.e.tick by {
            assert(w1.e.pending_mgmt[i] == w.e.pending_mgmt[i + 1]);
        }
        let w2 = mgmt_timeouts(w1, (k - 1) as nat);
        lemma_mgmt_timeouts(w1, (k - 1) as nat);
        lemma_follows(w, w1, w2);
        assert forall|i: int|
            0 <= i < k && (#[trigger] w.e.pending_mgmt[i]).deadline <= w.e.tick
                && w.e.pending_mgmt[i].rpc is Some implies answers(
            w,
            w2,
            w.e.pending_mgmt[i].rpc->0,
        ) by {
            let id = w.e.pending_mgmt[i].rpc->0;
            if i == k - 1 {
                lemma_answered_before(w, w1, w2, id);
            } else {
                assert(w1.e.pending_mgmt[i] == w.e.pending_mgmt[i]);
                lemma_answered_later(w, w1, w2, id);
            }
        }
    } else {
        lemma_mgmt_timeouts(w, (k - 1) as nat);
    }
}

/// None of the commands of node `i` from `k` on waits too long.
pub open spec fn none_unanswered(e: EngineV, i: int, k: int) -> bool {
    forall|j: int|
        k <= j < e.nodes[i].pending.len() ==> !crate::engine_model::unanswered(
            e,
            #[trigger] e.nodes[i].pending[j],
        )
}

/// Only the commands of node `i` changed, and the outputs.
pub open spec fn only_queue_of(a: World, b: World, i: int) -> bool {
    &&& b.e.tick == a.e.tick && b.e.pending_mgmt == a.e.pending_mgmt
    &&& b.e.nodes.len() == a.e.nodes.len()
    &&& b.e.pairing_until == a.e.pairing_until
    &&& forall|j: int|
        0 <= j < a.e.nodes.len() && j != i ==> #[trigger] b.e.nodes[j] == a.e.nodes[j]
}

proof fn lemma_shell_timeouts(w: World, i: int, k: nat)
    requires
        ids_ok(w.e),
        0 <= i < w.e.nodes.len(),
        k <= w.e.nodes[i].pending.len(),
        none_unanswered(w.e, i, k as int),
    ensures
        follows(w, shell_timeouts(w, i, k)),
        only_queue_of(w, shell_timeouts(w, i, k), i),
        none_unanswered(shell_timeouts(w, i, k).e, i, 0),
    decreases k,
{
    if k == 0 {
        lemma_changed(w, w.e);
    } else {
        let ps = w.e.nodes[i].pending;
        if crate::engine_model::unanswered(w.e, ps[k - 1]) {
            let w0 = with_pending(w, i, ps.remove(k - 1));
            lemma_changed(w, w0.e);
            let text = "delivered but no reply from the node"@;
            let w1 = shell_error(w0, w.e.nodes[i].entry.id, ps[k - 1], text);
            lemma_shell_error(w0, w.e.nodes[i].entry.id, ps[k - 1], text);
            lemma_follows(w, w0, w1);
            assert forall|j: int| k - 1 <= j < w1.e.nodes[i].pending.len() implies
                !crate::engine_model::unanswered(w1.e, #[trigger] w1.e.nodes[i].pending[j]) by {
                assert(w1.e.nodes[i].pending[j] == ps[j + 1]);
            }
            lemma_shell_timeouts(w1, i, (k - 1) as nat);
            lemma_follows(w, w1, shell_timeouts(w, i, k));
        } else {
            lemma_shell_timeouts(w, i, (k - 1) as nat);
        }
    }
}

proof fn lemma_node_timeouts(w: World, i: int)
    requires
        ids_ok(w.e),
        0 <= i < w.e.nodes.len(),
    ensures
        follows(w, node_timeouts(w, i)),
        only_queue_of(w, node_timeouts(w, i), i),
        none_unanswered(node_timeouts(w, i).e, i, 0),
{
    let n = w.e.nodes[i].pending.len();
    let w1 = shell_timeouts(w, i, n);
    lemma_shell_timeouts(w, i, n);
    if w1.e.nodes[i].pending.len() != n {
        lemma_publish_pending(w1, i);
        lemma_follows(w, w1, publish_pending(w1, i));
    }
}

proof fn lemma_nodes_timeouts(w: World, k: nat)
    requires
        ids_ok(w.e),
        k <= w.e.nodes.len(),
    ensures
        follows(w, nodes_timeouts(w, k)),
        nodes_timeouts(w, k).e.tick == w.e.tick,
        nodes_timeouts(w, k).e.pending_mgmt == w.e.pending_mgmt,
        nodes_timeouts(w, k).e.nodes.len() == w.e.nodes.len(),
        forall|i: int| 0 <= i < k ==> #[trigger] none_unanswered(nodes_timeouts(w, k).e, i, 0),
    decreases k,
{
    if k == 0 {
        lemma_changed(w, w.e);
    } else {
        let w1 = nodes_timeouts(w, (k - 1) as nat);
        lemma_nodes_timeouts(w, (k - 1) as nat);
        let w2 = node_timeouts(w1, k - 1);
        lemma_node_timeouts(w1, k - 1);
        lemma_follows(w, w1, w2);
        assert forall|i: int| 0 <= i < k implies #[trigger] none_unanswered(w2.e, i, 0) by {
            if i < k - 1 {
                assert(none_unanswered(w1.e, i, 0));
                assert(w2.e.nodes[i] == w1.e.nodes[i]);
            }
        }
    }
}

proof fn lemma_on_tick(w: World)
    requires
        ids_ok(w.e),
    ensures
        follows(w, on_tick(w)),
        none_overdue(on_tick(w).e, 0),
        forall|i: int|
            0 <= i < on_tick(w).e.nodes.len() ==> #[trigger] none_unanswered(on_tick(w).e, i, 0),
        overdue_answered(
            world(EngineV { tick: crate::engine_model::sat(w.e.tick + 1), ..w.e }, w.out),
            on_tick(w),
            w.e.pending_mgmt.len() as int,
        ),
{
    let w1 = world(EngineV { tick: crate::engine_model::sat(w.e.tick + 1), ..w.e }, w.out);
    lemma_changed(w, w1.e);
    let w2 = mgmt_timeouts(w1, w1.e.pending_mgmt.len());
    lemma_mgmt_timeouts(w1, w1.e.pending_mgmt.len());
    lemma_follows(w, w1, w2);
    let w3 = nodes_timeouts(w2, w2.e.nodes.len());
    lemma_nodes_timeouts(w2, w2.e.nodes.len());
    lemma_follows(w, w2, w3);
    let w4 = if w3.e.pairing_until is Some {
        publish_pairing(w3, None)
    } else {
        w3
    };
    lemma_changed(w3, w3.e);
    if w3.e.pairing_until is Some {
        lemma_publish_pairing(w3, None);
    }
    lemma_follows(w, w3, w4);
    let w5 = on_tick(w);
    lemma_changed(w4, w4.e);
    if w4.e.tick % crate::engine_model::STATS_EVERY_TICKS == 0 {
        lemma_publish_stats(w4);
    }
    lemma_follows(w, w4, w5);
    lemma_follows(w3, w4, w5);
    lemma_follows(w2, w3, w5);
    assert(w5.e.nodes == w3.e.nodes && w5.e.tick == w3.e.tick);
    assert forall|i: int| 0 <= i < w5.e.nodes.len() implies #[trigger] none_unanswered(
        w5.e,
        i,
        0,
    ) by {
        assert(none_unanswered(w3.e, i, 0));
    }
    assert forall|i: int|
        0 <= i < w1.e.pending_mgmt.len() && (#[trigger] w1.e.pending_mgmt[i]).deadline <= w1.e.tick
            && w1.e.pending_mgmt[i].rpc is Some implies answers(
        w1,
        w5,
        w1.e.pending_mgmt[i].rpc->0,
    ) by {
        lemma_answered_before(w1, w2, w5, w1.e.pending_mgmt[i].rpc->0);
    }
}

// ---- the whole ---------------------------------------------------------------------

pub proof fn lemma_subscriptions(w: World)
    requires
        ids_ok(w.e),
    ensures
        follows(w, subscriptions(w)),
{
    lemma_under(w.e.prefix, "gateway/cmd"@);
    lemma_under(w.e.prefix, "nodes/+/shell/req"@);
    let w1 = subscribe(w, w.e.prefix + "gateway/cmd"@);
    lemma_emit(w, OutputV::Subscribe(w.e.prefix + "gateway/cmd"@));
    lemma_emit(w1, OutputV::Subscribe(w.e.prefix + "nodes/+/shell/req"@));
    lemma_follows(w, w1, subscriptions(w));
}

pub proof fn lemma_publish_world(w: World, k: nat)
    requires
        ids_ok(w.e),
    ensures
        follows(w, publish_world(w, k)),
        publish_world(w, k).e == w.e,
    decreases k,
{
    if k == 0 {
        lemma_changed(w, w.e);
    } else {
        let w1 = publish_world(w, (k - 1) as nat);
        lemma_publish_world(w, (k - 1) as nat);
        let w2 = publish_node(w1, k - 1);
        lemma_publish_node(w1, k - 1);
        lemma_follows(w, w1, w2);
        lemma_publish_pending(w2, k - 1);
        lemma_follows(w, w2, publish_pending(w2, k - 1));
    }
}

pub proof fn lemma_link(w: World, serial_up: bool, mqtt_up: bool)
    requires
        ids_ok(w.e),
    ensures
        follows(w, link(w, serial_up, mqtt_up)),
{
    lemma_emit(w, OutputV::Event(EventV::Link { serial_up, mqtt_up }));
}

proof fn lemma_on_mqtt_up(w: World)
    requires
        ids_ok(w.e),
    ensures
        follows(w, on_mqtt_up(w)),
{
    let a = world(EngineV { mqtt_up: true, ..w.e }, w.out);
    lemma_changed(w, a.e);
    let b = subscriptions(a);
    lemma_subscriptions(a);
    lemma_follows(w, a, b);
    let c = publish_status(b);
    lemma_publish_status(b);
    lemma_follows(w, b, c);
    let d = publish_stats(c);
    lemma_publish_stats(c);
    lemma_follows(w, c, d);
    let e = publish_pairing(d, None);
    lemma_publish_pairing(d, None);
    lemma_follows(w, d, e);
    let f = publish_world(e, e.e.nodes.len());
    lemma_publish_world(e, e.e.nodes.len());
    lemma_follows(w, e, f);
    lemma_link(f, w.e.serial_up, true);
    lemma_follows(w, f, on_mqtt_up(w));
}

proof fn lemma_on_serial(w: World, msg: SerialMsg, ts: u64)
    requires
        ids_ok(w.e),
    ensures
        follows(w, on_serial(w, msg, ts)),
{
    match msg {
        SerialMsg::Hello { firmware_name, firmware_version, session_id } => lemma_on_hello(
            w,
            firmware_name@,
            firmware_version@,
            session_id,
        ),
        SerialMsg::Log { line } => lemma_say(w, line@),
        SerialMsg::Uplink(u) => lemma_on_uplink(w, u, ts),
        SerialMsg::Mgmt { req_id, result, chunk, last, data } => lemma_on_mgmt_chunk(
            w,
            req_id,
            result,
            chunk,
            last,
            data@,
        ),
        SerialMsg::Stat(stat) => lemma_on_radio_stat(w, stat, ts),
        SerialMsg::Dropped(_) => {
            let b = on_serial(w, msg, ts);
            lemma_emit(w, b.out.last());
        },
    }
}

proof fn lemma_on_mqtt(
    w: World,
    topic: Seq<char>,
    rpc: Result<crate::payload::RpcRequest, String>,
    shell: Result<ShellReq, String>,
    key: Option<Seq<u8>>,
)
    requires
        ids_ok(w.e),
    ensures
        follows(w, on_mqtt(w, topic, rpc, shell, key)),
{
    lemma_changed(w, w.e);
    match crate::topics::meaning(w.e.prefix, topic) {
        crate::topics::Inbound::Cmd => match rpc {
            Ok(req) => lemma_on_rpc(w, req.deep_view(), key),
            Err(error) => lemma_say(w, "bad RPC payload: "@ + error@),
        },
        crate::topics::Inbound::ShellReq(node) => match shell {
            Ok(req) => lemma_on_shell_req(w, node, req),
            Err(error) => lemma_say(w, "bad shell request: "@ + error@),
        },
        crate::topics::Inbound::Other => {},
    }
}

/// Whatever happens, the engine keeps its identity, takes nothing back that it put out, and
/// publishes and subscribes only under its own prefix; a request to the device never has
/// the id 0.
pub proof fn law_every_step_is_sound(w: World, input: Input, ts: u64, key: Option<Seq<u8>>)
    requires
        ids_ok(w.e),
    ensures
        follows(w, step(w, input, ts, key)),
{
    match input {
        Input::SerialUp => {
            let a = world(EngineV { serial_up: true, ..w.e }, w.out);
            lemma_changed(w, a.e);
            lemma_publish_status(a);
            let b = publish_status(a);
            lemma_follows(w, a, b);
            lemma_link(b, true, w.e.mqtt_up);
            let c = link(b, true, w.e.mqtt_up);
            lemma_follows(w, b, c);
            lemma_plain_issue(c, OpKindV::Describe, MgmtOpV::Describe, None);
            lemma_follows(w, c, step(w, input, ts, key));
        },
        Input::SerialDown { error } => {
            let a = world(EngineV { serial_up: false, ..w.e }, w.out);
            lemma_changed(w, a.e);
            lemma_publish_status(a);
            let b = publish_status(a);
            lemma_follows(w, a, b);
            lemma_link(b, false, w.e.mqtt_up);
            let c = link(b, false, w.e.mqtt_up);
            lemma_follows(w, b, c);
            lemma_say(c, "serial lost: "@ + error@);
            lemma_follows(w, c, step(w, input, ts, key));
        },
        Input::SerialFrame(msg) => lemma_on_serial(w, msg, ts),
        Input::EncodeFailed { req_id, envelope } => lemma_on_encode_failed(w, req_id, envelope),
        Input::MqttUp => lemma_on_mqtt_up(w),
        Input::MqttDown { error } => {
            let a = world(EngineV { mqtt_up: false, ..w.e }, w.out);
            lemma_changed(w, a.e);
            lemma_link(a, w.e.serial_up, false);
            let b = link(a, w.e.serial_up, false);
            lemma_follows(w, a, b);
            lemma_say(b, "mqtt lost: "@ + error@);
            lemma_follows(w, b, step(w, input, ts, key));
        },
        Input::MqttIn { topic, rpc, shell } => lemma_on_mqtt(w, topic@, rpc, shell, key),
        Input::Frontend(FrontendCmd::Rpc(req)) => lemma_on_rpc(w, req.deep_view(), key),
        Input::Frontend(FrontendCmd::Shell { node, req }) => lemma_on_shell_req(w, node, req),
        Input::Tick => lemma_on_tick(w),
    }
}

/// The same holds of any run.
pub proof fn law_every_run_is_sound(w: World, inputs: Seq<Happening>)
    requires
        ids_ok(w.e),
    ensures
        follows(w, run(w, inputs)),
    decreases inputs.len(),
{
    if inputs.len() == 0 {
        lemma_changed(w, w.e);
    } else {
        let h = inputs.last();
        let before = run(w, inputs.drop_last());
        law_every_run_is_sound(w, inputs.drop_last());
        law_every_step_is_sound(before, h.input, h.ts, h.key);
        lemma_follows(w, before, run(w, inputs));
    }
}

/// The same holds of what the engine begins with.
pub proof fn law_start_is_sound(w: World)
    requires
        ids_ok(w.e),
    ensures
        follows(w, on_start(w)),
{
    let a = subscriptions(w);
    lemma_subscriptions(w);
    let b = list_nodes(a);
    lemma_list_nodes(a);
    lemma_follows(w, a, b);
    lemma_emit(b, on_start(w).out.last());
    lemma_follows(w, b, on_start(w));
}

/// Every request is taken up: either it goes to the device and is in flight, or it is
/// answered at once.
pub proof fn law_requests_are_taken_up(w: World, req: RpcRequestV, key: Option<Seq<u8>>)
    requires
        ids_ok(w.e),
    ensures
        taken_up(w, on_rpc(w, req, key), req.id),
{
    lemma_on_rpc(w, req, key);
}

/// A request in flight is answered when the device has replied, whatever the reply; until
/// its last chunk it stays in flight.
pub proof fn law_replies_answer_requests(
    w: World,
    k: int,
    req_id: u16,
    result: u8,
    chunk: u16,
    last: bool,
    data: Seq<u8>,
)
    requires
        ids_ok(w.e),
        crate::text::first_where(w.e.pending_mgmt, crate::engine_model::has_req(req_id)) == Some(k),
    ensures
        ({
            let b = on_mgmt_chunk(w, req_id, result, chunk, last, data);
            if last {
                w.e.pending_mgmt[k].rpc matches Some(id) ==> answers(w, b, id)
            } else {
                &&& b.out == w.out
                &&& b.e.pending_mgmt.len() == w.e.pending_mgmt.len()
                &&& b.e.pending_mgmt[k].rpc == w.e.pending_mgmt[k].rpc
                &&& b.e.pending_mgmt[k].data == w.e.pending_mgmt[k].data + data
            }
        }),
{
    reveal(on_mgmt_chunk);
    crate::text::lemma_first_where_holds(w.e.pending_mgmt, crate::engine_model::has_req(req_id));
    let old = w.e.pending_mgmt[k];
    let p = PendingMgmtV {
        truncated: old.truncated || old.next_chunk != chunk,
        next_chunk: crate::mgmt::next_index(chunk),
        data: old.data + data,
        ..old
    };
    if last {
        let w1 = world(
            EngineV { pending_mgmt: w.e.pending_mgmt.update(k, p).remove(k), ..w.e },
            w.out,
        );
        lemma_changed(w, w1.e);
        lemma_on_mgmt_done(w1, p, result);
        if let Some(id) = p.rpc {
            lemma_answered_later(w, w1, on_mgmt_done(w1, p, result), id);
        }
    }
}

/// A device that stays silent blocks nobody: after a tick no request is overdue, no
/// delivered command waits for an answer beyond its time, and every client whose request
/// was given up has its answer.
pub proof fn law_silence_is_answered(w: World)
    requires
        ids_ok(w.e),
    ensures
        ({
            let b = on_tick(w);
            let now = crate::engine_model::sat(w.e.tick + 1);
            &&& none_overdue(b.e, 0)
            &&& forall|i: int| 0 <= i < b.e.nodes.len() ==> #[trigger] none_unanswered(b.e, i, 0)
            &&& forall|i: int|
                0 <= i < w.e.pending_mgmt.len() && (#[trigger] w.e.pending_mgmt[i]).deadline <= now
                    && w.e.pending_mgmt[i].rpc is Some ==> answers(
                    w,
                    b,
                    w.e.pending_mgmt[i].rpc->0,
                )
        }),
{
    lemma_on_tick(w);
    let w1 = world(EngineV { tick: crate::engine_model::sat(w.e.tick + 1), ..w.e }, w.out);
    let b = on_tick(w);
    assert forall|i: int|
        0 <= i < w.e.pending_mgmt.len() && (#[trigger] w.e.pending_mgmt[i]).deadline <= w1.e.tick
            && w.e.pending_mgmt[i].rpc is Some implies answers(
        w,
        b,
        w.e.pending_mgmt[i].rpc->0,
    ) by {
        assert(w1.e.pending_mgmt[i] == w.e.pending_mgmt[i]);
        assert(answers(w1, b, w1.e.pending_mgmt[i].rpc->0));
        let id = w.e.pending_mgmt[i].rpc->0;
        let j = choose|j: int|
            w1.out.len() <= j < b.out.len() && is_answer(w1.e.prefix, #[trigger] b.out[j], id);
        assert(is_answer(w.e.prefix, b.out[j], id));
    }
}

} // verus!

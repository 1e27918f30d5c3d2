//! Every request is answered exactly once: a balance of requests in flight and answers.

use crate::engine_laws::is_answer;
use crate::engine_model::{
    clear_gone, clear_topic, emit, emit_registry, fail_queues, find_node, forget_node, issue,
    issue_delayed, link, list_nodes, merge_registry, mgmt_timeout, mgmt_timeouts, next_id,
    nodes_timeouts, now_pending, on_encode_failed, on_hello, on_mgmt_chunk, on_mgmt_done, on_mqtt,
    on_mqtt_up, on_node_info, on_node_msg, on_queue_outcome, on_radio_stat, on_refusal, on_rpc,
    on_serial, on_shell_chunk, on_shell_req, on_start, on_success, on_tick, on_uplink,
    pairing_closed, publish, publish_node, publish_nodes, publish_pairing, publish_pending,
    publish_stats, publish_status, publish_world, rpc_add_ota, rpc_err, rpc_err_direct,
    rpc_node_add, rpc_node_rename, rpc_ok, rpc_queue_drop, rpc_respond, run, say, shell_error,
    shell_errors, shell_fail, shell_reply, shell_timeouts, step, subscribe, subscriptions,
    touch_node, with_node, with_pending, world, Happening, World,
};
use crate::engine_state::{
    EngineV, EventV, FrontendCmd, Input, NodeMirrorV, OpKindV, OutputV, PendingMgmtV,
    PendingShellV, SerialMsg, ShellOriginV,
};
use crate::frame::{NodeInfo, NodeMsg, NodeShellChunk, RadioStat, Uplink};
use crate::mgmt::{MgmtOpV, NodeEntryV};
use crate::payload::{RpcDataV, RpcRequestV, RpcResponseV, ShellReq, ShellRspV};
use crate::topics::node_topic;
use vstd::prelude::*;

verus! {

// ---- the balance -------------------------------------------------------------------

/// One, where a request under the id `q` is concerned.
pub open spec fn due(rpc: Option<Seq<char>>, q: Seq<char>) -> int {
    if rpc == Some(q) {
        1
    } else {
        0
    }
}

/// How often the request `q` was answered.
pub open spec fn count_answers(prefix: Seq<char>, out: Seq<OutputV>, q: Seq<char>) -> int
    decreases out.len(),
{
    if out.len() == 0 {
        0
    } else {
        count_answers(prefix, out.drop_last(), q) + if is_answer(prefix, out.last(), q) {
            1int
        } else {
            0
        }
    }
}

/// How many requests in flight are to answer the request `q`.
pub open spec fn count_pending(pending: Seq<PendingMgmtV>, q: Seq<char>) -> int
    decreases pending.len(),
{
    if pending.len() == 0 {
        0
    } else {
        count_pending(pending.drop_last(), q) + due(pending.last().rpc, q)
    }
}

/// The answers to the request `q` that were given, and those that are still to come.
#[verifier::opaque]
pub open spec fn balance(w: World, q: Seq<char>) -> int {
    count_answers(w.e.prefix, w.out, q) + count_pending(w.e.pending_mgmt, q)
}

/// Remote-shell lines are answered to their own dialog, not to a request.
pub open spec fn shells_ok(e: EngineV) -> bool {
    dialogs_apart(e.pending_mgmt)
}

#[verifier::opaque]
pub open spec fn dialogs_apart(pending: Seq<PendingMgmtV>) -> bool {
    forall|i: int|
        0 <= i < pending.len() ==> for_dialog((#[trigger] pending[i]).op)
            ==> pending[i].rpc is None
}

pub open spec fn for_dialog(kind: OpKindV) -> bool {
    match kind {
        OpKindV::QueuePush { shell, .. } => shell is Some,
        _ => false,
    }
}

/// From `a` to `b` the balance of the request `q` changes by `n`.
pub open spec fn moves(a: World, b: World, q: Seq<char>, n: int) -> bool {
    &&& b.e.prefix == a.e.prefix
    &&& balance(b, q) == balance(a, q) + n
    &&& shells_ok(a.e) ==> shells_ok(b.e)
}

proof fn lemma_count_remove(s: Seq<PendingMgmtV>, k: int, q: Seq<char>)
    requires
        0 <= k < s.len(),
    ensures
        count_pending(s.remove(k), q) == count_pending(s, q) - due(s[k].rpc, q),
    decreases s.len(),
{
    if k == s.len() - 1 {
        assert(s.remove(k) =~= s.drop_last());
    } else {
        lemma_count_remove(s.drop_last(), k, q);
        assert(s.remove(k).drop_last() =~= s.drop_last().remove(k));
        assert(s.remove(k).last() == s.last());
    }
}

proof fn lemma_count_update(s: Seq<PendingMgmtV>, k: int, p: PendingMgmtV, q: Seq<char>)
    requires
        0 <= k < s.len(),
        p.rpc == s[k].rpc,
    ensures
        count_pending(s.update(k, p), q) == count_pending(s, q),
    decreases s.len(),
{
    if k == s.len() - 1 {
        assert(s.update(k, p).drop_last() =~= s.drop_last());
    } else {
        lemma_count_update(s.drop_last(), k, p, q);
        assert(s.update(k, p).drop_last() =~= s.drop_last().update(k, p));
    }
}

proof fn lemma_changed(w: World, e: EngineV, q: Seq<char>)
    requires
        e.prefix == w.e.prefix && e.pending_mgmt == w.e.pending_mgmt,
    ensures
        moves(w, world(e, w.out), q, 0),
{
    reveal(balance);
}

proof fn lemma_emit(w: World, o: OutputV, q: Seq<char>)
    ensures
        moves(
            w,
            emit(w, o),
            q,
            if is_answer(w.e.prefix, o, q) {
                1
            } else {
                0
            },
        ),
{
    reveal(balance);
    assert(w.out.push(o).drop_last() =~= w.out);
}

/// A topic under the prefix that is no response topic.
pub open spec fn quiet(rest: Seq<char>) -> bool {
    rest.len() > 0 && (rest[0] != 'g' || (rest.len() > 8 && rest[8] != 'r'))
}

proof fn lemma_quiet(prefix: Seq<char>, rest: Seq<char>, q: Seq<char>)
    requires
        quiet(rest),
    ensures
        prefix + rest != prefix + "gateway/rsp/"@ + q,
{
    reveal_strlit("gateway/rsp/");
    let t = prefix + "gateway/rsp/"@ + q;
    let n = prefix.len() as int;
    assert(t[n] == 'g' && t[n + 8] == 'r');
    assert((prefix + rest)[n] == rest[0]);
    if rest.len() > 8 {
        assert((prefix + rest)[n + 8] == rest[8]);
    }
}

proof fn lemma_say(w: World, text: Seq<char>, q: Seq<char>)
    ensures
        moves(w, say(w, text), q, 0),
{
    lemma_emit(w, OutputV::Event(EventV::Log(text)), q);
}

proof fn lemma_publish(w: World, rest: Seq<char>, text: Seq<char>, retain: bool, q: Seq<char>)
    requires
        quiet(rest),
    ensures
        moves(w, publish(w, w.e.prefix + rest, text, retain), q, 0),
{
    lemma_quiet(w.e.prefix, rest, q);
    lemma_emit(
        w,
        OutputV::Publish {
            topic: w.e.prefix + rest,
            payload: vstd::utf8::encode_utf8(text),
            retain,
        },
        q,
    );
}

proof fn lemma_node_topic(prefix: Seq<char>, addr: u32, tail: Seq<char>, q: Seq<char>)
    ensures
        node_topic(prefix, addr, tail) != prefix + "gateway/rsp/"@ + q,
{
    reveal_strlit("nodes/");
    let rest = "nodes/"@ + crate::topics::addr_text(addr) + tail;
    assert(node_topic(prefix, addr, tail) =~= prefix + rest);
    assert(rest[0] == 'n');
    lemma_quiet(prefix, rest, q);
}

proof fn lemma_publish_node_topic(
    w: World,
    addr: u32,
    tail: Seq<char>,
    text: Seq<char>,
    retain: bool,
    q: Seq<char>,
)
    ensures
        moves(w, publish(w, node_topic(w.e.prefix, addr, tail), text, retain), q, 0),
{
    lemma_node_topic(w.e.prefix, addr, tail, q);
    lemma_emit(
        w,
        OutputV::Publish {
            topic: node_topic(w.e.prefix, addr, tail),
            payload: vstd::utf8::encode_utf8(text),
            retain,
        },
        q,
    );
}

proof fn lemma_clear(w: World, addr: u32, tail: Seq<char>, q: Seq<char>)
    ensures
        moves(w, clear_topic(w, node_topic(w.e.prefix, addr, tail)), q, 0),
{
    lemma_node_topic(w.e.prefix, addr, tail, q);
    lemma_emit(
        w,
        OutputV::Publish {
            topic: node_topic(w.e.prefix, addr, tail),
            payload: Seq::empty(),
            retain: true,
        },
        q,
    );
}

proof fn lemma_issue(
    w: World,
    kind: OpKindV,
    op: MgmtOpV,
    rpc: Option<Seq<char>>,
    timeout: u64,
    q: Seq<char>,
)
    requires
        for_dialog(kind) ==> rpc is None,
    ensures
        moves(w, issue_delayed(w, kind, op, rpc, timeout), q, due(rpc, q)),
{
    reveal(balance);
    reveal(dialogs_apart);
    let b = issue_delayed(w, kind, op, rpc, timeout);
    assert(b.out.drop_last() =~= w.out);
    assert(b.e.pending_mgmt.drop_last() =~= w.e.pending_mgmt);
    assert forall|i: int| shells_ok(w.e) && 0 <= i < b.e.pending_mgmt.len() implies for_dialog(
        (#[trigger] b.e.pending_mgmt[i]).op,
    ) ==> b.e.pending_mgmt[i].rpc is None by {
        if i < w.e.pending_mgmt.len() {
            assert(b.e.pending_mgmt[i] == w.e.pending_mgmt[i]);
        }
    }
}

proof fn lemma_plain_issue(
    w: World,
    kind: OpKindV,
    op: MgmtOpV,
    rpc: Option<Seq<char>>,
    q: Seq<char>,
)
    requires
        for_dialog(kind) ==> rpc is None,
    ensures
        moves(w, issue(w, kind, op, rpc), q, due(rpc, q)),
{
    lemma_issue(w, kind, op, rpc, crate::engine_model::MGMT_TIMEOUT_TICKS, q);
}

proof fn lemma_respond(w: World, rsp: RpcResponseV, q: Seq<char>)
    ensures
        moves(w, rpc_respond(w, rsp), q, due(Some(rsp.id), q)),
{
    let lit = "gateway/rsp/"@;
    let head = w.e.prefix + lit;
    let o = rpc_respond(w, rsp).out.last();
    if head + rsp.id == head + q {
        let n = head.len() as int;
        assert((head + rsp.id).skip(n) =~= rsp.id);
        assert((head + q).skip(n) =~= q);
    }
    lemma_emit(w, o, q);
}

proof fn lemma_completes_ok(
    b: World,
    rpc: Option<Seq<char>>,
    data: RpcDataV,
    q: Seq<char>,
)
    ensures
        moves(b, rpc_ok(b, rpc, data), q, due(rpc, q)),
{
    if let Some(id) = rpc {
        lemma_respond(b, RpcResponseV { id, ok: true, error: None, data }, q);
    }
}

proof fn lemma_completes_err(
    b: World,
    rpc: Option<Seq<char>>,
    error: Seq<char>,
    q: Seq<char>,
)
    ensures
        moves(b, rpc_err(b, rpc, error), q, due(rpc, q)),
{
    if let Some(id) = rpc {
        lemma_respond(
            b,
            RpcResponseV { id, ok: false, error: Some(error), data: RpcDataV::Null },
            q,
        );
    }
}

proof fn lemma_issued(
    b: World,
    kind: OpKindV,
    op: MgmtOpV,
    id: Seq<char>,
    timeout: u64,
    q: Seq<char>,
)
    requires
        !for_dialog(kind),
    ensures
        moves(b, issue_delayed(b, kind, op, Some(id), timeout), q, due(Some(id), q)),
{
    lemma_issue(b, kind, op, Some(id), timeout, q);
}

proof fn lemma_refused(w: World, id: Seq<char>, error: Seq<char>, q: Seq<char>)
    ensures
        moves(w, rpc_err_direct(w, id, error), q, due(Some(id), q)),
{
    lemma_respond(
        w,
        RpcResponseV { id, ok: false, error: Some(error), data: RpcDataV::Null },
        q,
    );
}

// ---- what the engine does ----------------------------------------------------------

proof fn lemma_emit_registry(w: World, q: Seq<char>)
    ensures
        moves(w, emit_registry(w), q, 0),
{
    lemma_emit(w, OutputV::Event(EventV::Registry(crate::engine_model::node_views(w.e))), q);
}

proof fn lemma_publish_node(w: World, i: int, q: Seq<char>)
    ensures
        moves(w, publish_node(w, i), q, 0),
{
    lemma_publish_node_topic(
        w,
        w.e.nodes[i].entry.id,
        ""@,
        crate::payload::node_json(crate::engine_model::node_payload(w.e, w.e.nodes[i])),
        true,
        q,
    );
}

proof fn lemma_publish_pending(w: World, i: int, q: Seq<char>)
    ensures
        moves(w, publish_pending(w, i), q, 0),
{
    let text = crate::payload::pending_json(
        crate::engine_model::pending_entries(w.e.nodes[i].pending),
    );
    let w1 = publish(
        w,
        node_topic(w.e.prefix, w.e.nodes[i].entry.id, "/shell/pending"@),
        text,
        true,
    );
    lemma_publish_node_topic(w, w.e.nodes[i].entry.id, "/shell/pending"@, text, true, q);
    lemma_emit_registry(w1, q);
}

proof fn lemma_publish_status(w: World, q: Seq<char>)
    ensures
        moves(w, publish_status(w), q, 0),
{
    reveal_strlit("gateway/status");
    lemma_quiet(w.e.prefix, "gateway/status"@, q);
    lemma_emit(w, publish_status(w).out.last(), q);
}

proof fn lemma_publish_stats(w: World, q: Seq<char>)
    ensures
        moves(w, publish_stats(w), q, 0),
{
    reveal_strlit("gateway/stats");
    lemma_quiet(w.e.prefix, "gateway/stats"@, q);
    lemma_emit(w, publish_stats(w).out.last(), q);
}

proof fn lemma_publish_pairing(w: World, joined: Option<Seq<char>>, q: Seq<char>)
    ensures
        moves(w, publish_pairing(w, joined), q, 0),
{
    reveal_strlit("gateway/pairing");
    lemma_quiet(w.e.prefix, "gateway/pairing"@, q);
    let b = publish_pairing(w, joined);
    let n = w.out.len() as int;
    lemma_emit(w, b.out[n], q);
    lemma_emit(emit(w, b.out[n]), b.out[n + 1], q);
}

proof fn lemma_shell_reply(w: World, node: u32, rsp: ShellRspV, q: Seq<char>)
    ensures
        moves(w, shell_reply(w, node, rsp), q, 0),
{
    let text = crate::payload::shell_rsp_json(rsp);
    let w1 = publish(w, node_topic(w.e.prefix, node, "/shell/rsp"@), text, false);
    lemma_publish_node_topic(w, node, "/shell/rsp"@, text, false, q);
    lemma_emit(w1, OutputV::Event(EventV::Shell { node, rsp }), q);
}

proof fn lemma_shell_error(w: World, node: u32, p: PendingShellV, error: Seq<char>, q: Seq<char>)
    ensures
        moves(w, shell_error(w, node, p, error), q, 0),
{
    lemma_shell_reply(
        w,
        node,
        ShellRspV {
            id: p.rpc,
            chunk: p.next_chunk,
            text: Seq::empty(),
            done: true,
            result: 1,
            truncated: p.truncated,
            error: Some(error),
        },
        q,
    );
}

proof fn lemma_shell_fail(w: World, node: u32, id: Seq<char>, result: u8, error: Seq<char>, q: Seq<char>)
    ensures
        moves(w, shell_fail(w, node, id, result, error), q, 0),
{
    lemma_shell_reply(
        w,
        node,
        ShellRspV {
            id,
            chunk: 0,
            text: Seq::empty(),
            done: true,
            result,
            truncated: false,
            error: Some(error),
        },
        q,
    );
}

proof fn lemma_shell_errors(
    w: World,
    node: u32,
    ps: Seq<PendingShellV>,
    error: Seq<char>,
    k: nat,
    q: Seq<char>,
)
    ensures
        moves(w, shell_errors(w, node, ps, error, k), q, 0),
        shell_errors(w, node, ps, error, k).e == w.e,
    decreases k,
{
    if k == 0 {
        lemma_changed(w, w.e, q);
    } else {
        let w1 = shell_errors(w, node, ps, error, (k - 1) as nat);
        lemma_shell_errors(w, node, ps, error, (k - 1) as nat, q);
        lemma_shell_error(w1, node, ps[k - 1], error, q);
    }
}

proof fn lemma_fail_queues(w: World, k: nat, q: Seq<char>)
    ensures
        moves(w, fail_queues(w, k), q, 0),
    decreases k,
{
    if k == 0 {
        lemma_changed(w, w.e, q);
    } else {
        let w1 = fail_queues(w, (k - 1) as nat);
        let i = k - 1;
        let ps = w1.e.nodes[i].pending;
        let id = w1.e.nodes[i].entry.id;
        lemma_fail_queues(w, (k - 1) as nat, q);
        let w2 = with_pending(w1, i, Seq::empty());
        lemma_changed(w1, w2.e, q);
        let w3 = shell_errors(w2, id, ps, "gateway rebooted — command lost"@, ps.len());
        lemma_shell_errors(w2, id, ps, "gateway rebooted — command lost"@, ps.len(), q);
        lemma_publish_pending(w3, i, q);
    }
}

proof fn lemma_list_nodes(w: World, q: Seq<char>)
    ensures
        moves(w, list_nodes(w), q, 0),
{
    lemma_issue(
        w,
        OpKindV::NodeList,
        MgmtOpV::NodeList,
        None,
        crate::engine_model::MGMT_TIMEOUT_TICKS,
        q,
    );
}

proof fn lemma_on_hello(
    w: World,
    firmware_name: Seq<char>,
    firmware_version: Seq<char>,
    session_id: u32,
    q: Seq<char>,
)
    ensures
        moves(w, on_hello(w, firmware_name, firmware_version, session_id), q, 0),
{
    reveal(on_hello);
    let w1 = world(
        EngineV {
            hello_session: Some(session_id),
            firmware_version,
            describe: crate::mgmt::DeviceInfoV { firmware_name, ..w.e.describe },
            ..w.e
        },
        w.out,
    );
    lemma_changed(w, w1.e, q);
    let rebooted = match w.e.hello_session {
        Some(s) => s != session_id,
        None => false,
    };
    if rebooted {
        let text = "gateway rebooted (session "@ + crate::text::dec(session_id as nat)
            + ") — resyncing; queued downlinks were lost"@;
        let a = say(w1, text);
        lemma_say(w1, text, q);
        let b = fail_queues(a, a.e.nodes.len());
        lemma_fail_queues(a, a.e.nodes.len(), q);
        let c = issue(b, OpKindV::Describe, MgmtOpV::Describe, None);
        lemma_plain_issue(b, OpKindV::Describe, MgmtOpV::Describe, None, q);
        let d = list_nodes(c);
        lemma_list_nodes(c, q);
        lemma_publish_status(d, q);
    } else {
        lemma_publish_status(w1, q);
    }
}

proof fn lemma_on_shell_chunk(w: World, src: u32, chunk: NodeShellChunk, q: Seq<char>)
    ensures
        moves(w, on_shell_chunk(w, src, chunk), q, 0),
{
    reveal(on_shell_chunk);
    match find_node(w.e, src) {
        None => lemma_changed(w, w.e, q),
        Some(i) => {
            let ps = w.e.nodes[i].pending;
            match crate::text::first_where(ps, crate::engine_model::has_cmd(chunk.cmd_id)) {
                None => lemma_say(
                    w,
                    "node "@ + crate::topics::addr_text(src) + ": shell chunk for unknown cmd_id "@
                        + crate::text::dec(chunk.cmd_id as nat),
                    q,
                ),
                Some(k) => {
                    let p = PendingShellV {
                        truncated: ps[k].truncated || ps[k].next_chunk != chunk.chunk,
                        next_chunk: crate::mgmt::next_index(chunk.chunk),
                        ..ps[k]
                    };
                    let w0 = with_pending(w, i, ps.update(k, p));
                    let rsp = ShellRspV {
                        id: p.rpc,
                        chunk: chunk.chunk,
                        text: chunk.text@,
                        done: chunk.last,
                        result: chunk.result,
                        truncated: p.truncated,
                        error: None,
                    };
                    let w1 = shell_reply(w0, src, rsp);
                    lemma_changed(w, w0.e, q);
                    lemma_shell_reply(w0, src, rsp, q);
                    if chunk.last {
                        let w2 = with_pending(w1, i, ps.update(k, p).remove(k));
                        lemma_changed(w1, w2.e, q);
                        lemma_publish_pending(w2, i, q);
                    }
                },
            }
        },
    }
}

proof fn lemma_on_node_info(w: World, src: u32, info: NodeInfo, q: Seq<char>)
    ensures
        moves(w, on_node_info(w, src, info), q, 0),
{
    reveal(on_node_info);
    match find_node(w.e, src) {
        None => lemma_changed(w, w.e, q),
        Some(i) => {
            let kind = crate::engine_model::kind_text(info.firmware_name@);
            let w1 = with_node(
                w,
                i,
                NodeMirrorV { kind, session_id: Some(info.session_id), ..w.e.nodes[i] },
            );
            lemma_changed(w, w1.e, q);
            let had = w1.e.nodes[i].entry.flags;
            let flags = crate::engine_model::sleeping_flags(w1.e, had, info.sleeping);
            if had & w1.e.wire.flag_unnamed != 0 {
                let name = crate::engine_model::auto_name(w1.e.nodes, kind);
                let text = "auto-naming node "@ + crate::topics::addr_text(src) + " \""@ + name
                    + "\""@;
                let a = say(w1, text);
                lemma_say(w1, text, q);
                let op = MgmtOpV::NodeUpdate {
                    id: src,
                    name: Some(name),
                    flags: Some(flags & !w1.e.wire.flag_unnamed),
                };
                let b = issue(a, OpKindV::NodeUpdate, op, None);
                lemma_plain_issue(a, OpKindV::NodeUpdate, op, None, q);
                lemma_publish_node(b, i, q);
            } else if flags != had {
                let op = MgmtOpV::NodeUpdate { id: src, name: None, flags: Some(flags) };
                let b = issue(w1, OpKindV::NodeUpdate, op, None);
                lemma_plain_issue(w1, OpKindV::NodeUpdate, op, None, q);
                lemma_publish_node(b, i, q);
            } else {
                lemma_publish_node(w1, i, q);
            }
        },
    }
}

proof fn lemma_on_node_msg(w: World, src: u32, counter: u32, len: nat, msg: NodeMsg, ts: u64, q: Seq<char>)
    ensures
        moves(w, on_node_msg(w, src, counter, len, msg, ts), q, 0),
{
    reveal(on_node_msg);
    match msg {
        NodeMsg::Button { kind, count } => lemma_publish_node_topic(
            w,
            src,
            "/event/button"@,
            crate::payload::button_json(crate::engine_model::button_text(kind), count, counter, ts),
            false,
            q,
        ),
        NodeMsg::Temperature { millic } => lemma_publish_node_topic(
            w,
            src,
            "/measure/temperature"@,
            crate::payload::temperature_json(millic, ts),
            true,
            q,
        ),
        NodeMsg::Accel { kind, face } => lemma_publish_node_topic(
            w,
            src,
            "/event/accel"@,
            crate::payload::accel_json(crate::engine_model::accel_text(kind), face, counter, ts),
            false,
            q,
        ),
        NodeMsg::Info(info) => lemma_on_node_info(w, src, info, q),
        NodeMsg::Shell(chunk) => lemma_on_shell_chunk(w, src, chunk, q),
        NodeMsg::BadVersion { .. } => {
            let b = on_node_msg(w, src, counter, len, msg, ts);
            lemma_emit(w, b.out.last(), q);
        },
        NodeMsg::Undecodable => {
            let b = on_node_msg(w, src, counter, len, msg, ts);
            lemma_emit(w, b.out.last(), q);
        },
    }
}

proof fn lemma_on_uplink(w: World, u: Uplink, ts: u64, q: Seq<char>)
    ensures
        moves(w, on_uplink(w, u, ts), q, 0),
{
    reveal(on_uplink);
    let w1 = world(
        EngineV { uplinks: crate::engine_model::sat(w.e.uplinks + 1), ..w.e },
        w.out,
    );
    let wt = touch_node(w1, u.src, u.rssi_dbm);
    lemma_changed(w, wt.e, q);
    let o = OutputV::Event(
        EventV::Radio(
            crate::engine_state::RadioSample::Rx { src: u.src, rssi_dbm: u.rssi_dbm },
        ),
    );
    let w2 = emit(wt, o);
    lemma_emit(wt, o, q);
    let rx = crate::payload::radio_rx_json(
        crate::topics::addr_text(u.src),
        u.rssi_dbm,
        u.lqi,
        u.data@.len(),
        ts,
    );
    let w3 = publish(w2, w2.e.prefix + "radio/rx"@, rx, false);
    reveal_strlit("radio/rx");
    lemma_publish(w2, "radio/rx"@, rx, false, q);
    let up = crate::payload::uplink_json(
        u.counter,
        u.rssi_dbm,
        u.lqi,
        u.data@.len(),
        crate::text::hex_bytes(u.data@),
        ts,
    );
    let w4 = publish(w3, node_topic(w3.e.prefix, u.src, "/uplink"@), up, false);
    lemma_publish_node_topic(w3, u.src, "/uplink"@, up, false, q);
    lemma_on_node_msg(w4, u.src, u.counter, u.data@.len(), u.body, ts, q);
}

proof fn lemma_on_queue_outcome(w: World, node: u32, item: u16, outcome: u8, q: Seq<char>)
    ensures
        moves(w, on_queue_outcome(w, node, item, outcome), q, 0),
{
    reveal(on_queue_outcome);
    lemma_changed(w, w.e, q);
    match find_node(w.e, node) {
        None => {},
        Some(i) => {
            let ps = w.e.nodes[i].pending;
            match crate::text::first_where(ps, crate::engine_model::has_item(item)) {
                None => {},
                Some(k) => if outcome == w.e.wire.tx_delivered {
                    lemma_changed(w, on_queue_outcome(w, node, item, outcome).e, q);
                } else if outcome == w.e.wire.tx_expired {
                    let w1 = with_pending(w, i, ps.remove(k));
                    lemma_changed(w, w1.e, q);
                    let w2 = shell_error(w1, node, ps[k], "queue TTL expired before delivery"@);
                    lemma_shell_error(w1, node, ps[k], "queue TTL expired before delivery"@, q);
                    lemma_publish_pending(w2, i, q);
                },
            }
        },
    }
}

proof fn lemma_on_radio_stat(w: World, stat: RadioStat, ts: u64, q: Seq<char>)
    ensures
        moves(w, on_radio_stat(w, stat, ts), q, 0),
{
    reveal(on_radio_stat);
    match stat {
        RadioStat::Channel { channel, rssi_dbm } => {
            let w1 = world(EngineV { last_ambient: Some((rssi_dbm, channel)), ..w.e }, w.out);
            lemma_changed(w, w1.e, q);
            let o = OutputV::Event(
                EventV::Radio(
                    crate::engine_state::RadioSample::Ambient { dbm: rssi_dbm, channel },
                ),
            );
            let w2 = emit(w1, o);
            lemma_emit(w1, o, q);
            let text = crate::payload::radio_rssi_json(rssi_dbm, channel, ts);
            reveal_strlit("radio/rssi");
            lemma_publish(w2, "radio/rssi"@, text, false, q);
        },
        RadioStat::Tx { dest, item, outcome, ack_rssi_dbm } => {
            let o = OutputV::Event(
                EventV::Radio(
                    crate::engine_state::RadioSample::Tx {
                        dest,
                        delivered: outcome == w.e.wire.tx_delivered,
                    },
                ),
            );
            let w1 = emit(w, o);
            lemma_emit(w, o, q);
            let text = crate::payload::radio_tx_json(
                crate::topics::addr_text(dest),
                item,
                crate::wire::tx_outcome(w.e.wire, outcome),
                ack_rssi_dbm,
                ts,
            );
            let w2 = publish(w1, w1.e.prefix + "radio/tx"@, text, false);
            reveal_strlit("radio/tx");
            lemma_publish(w1, "radio/tx"@, text, false, q);
            if item != 0 {
                lemma_on_queue_outcome(w2, dest, item, outcome, q);
            }
        },
    }
}

proof fn lemma_forget_node(w: World, id: u32, q: Seq<char>)
    ensures
        moves(w, forget_node(w, id), q, 0),
{
    reveal(forget_node);
    let w1 = match find_node(w.e, id) {
        None => w,
        Some(i) => {
            let ps = w.e.nodes[i].pending;
            let a = shell_errors(w, id, ps, "node removed"@, ps.len());
            world(EngineV { nodes: a.e.nodes.remove(i), ..a.e }, a.out)
        },
    };
    match find_node(w.e, id) {
        None => lemma_changed(w, w.e, q),
        Some(i) => {
            let ps = w.e.nodes[i].pending;
            let a = shell_errors(w, id, ps, "node removed"@, ps.len());
            lemma_shell_errors(w, id, ps, "node removed"@, ps.len(), q);
            lemma_changed(a, w1.e, q);
        },
    }
    let w2 = clear_topic(w1, node_topic(w1.e.prefix, id, ""@));
    lemma_clear(w1, id, ""@, q);
    let w3 = clear_topic(w2, node_topic(w1.e.prefix, id, "/measure/temperature"@));
    lemma_clear(w2, id, "/measure/temperature"@, q);
    let w4 = clear_topic(w3, node_topic(w1.e.prefix, id, "/shell/pending"@));
    lemma_clear(w3, id, "/shell/pending"@, q);
    lemma_emit_registry(w4, q);
}

proof fn lemma_now_pending(w: World, node: u32, origin: Option<ShellOriginV>, item: u16, q: Seq<char>)
    ensures
        moves(w, now_pending(w, node, origin, item), q, 0),
{
    reveal(now_pending);
    lemma_changed(w, w.e, q);
    match origin {
        None => {},
        Some(o) => match find_node(w.e, node) {
            None => {},
            Some(i) => {
                let w1 = with_pending(
                    w,
                    i,
                    w.e.nodes[i].pending.push(
                        PendingShellV {
                            item,
                            rpc: o.rpc,
                            line: o.line,
                            cmd_id: o.cmd_id,
                            delivered_tick: None,
                            next_chunk: 0,
                            truncated: false,
                        },
                    ),
                );
                lemma_changed(w, w1.e, q);
                let w2 = publish_pending(w1, i);
                lemma_publish_pending(w1, i, q);
                lemma_publish_node(w2, i, q);
            },
        },
    }
}

proof fn lemma_clear_gone(w: World, fresh: Seq<NodeEntryV>, k: nat, q: Seq<char>)
    ensures
        moves(w, clear_gone(w, fresh, k), q, 0),
        clear_gone(w, fresh, k).e == w.e,
    decreases k,
{
    if k == 0 {
        lemma_changed(w, w.e, q);
    } else {
        let w1 = clear_gone(w, fresh, (k - 1) as nat);
        lemma_clear_gone(w, fresh, (k - 1) as nat, q);
        let id = w.e.nodes[k - 1].entry.id;
        if !crate::engine_model::still_listed(fresh, id) {
            lemma_clear(w1, id, ""@, q);
        }
    }
}

proof fn lemma_publish_nodes(w: World, k: nat, q: Seq<char>)
    ensures
        moves(w, publish_nodes(w, k), q, 0),
        publish_nodes(w, k).e == w.e,
    decreases k,
{
    if k == 0 {
        lemma_changed(w, w.e, q);
    } else {
        let w1 = publish_nodes(w, (k - 1) as nat);
        lemma_publish_nodes(w, (k - 1) as nat, q);
        lemma_publish_node(w1, k - 1, q);
    }
}

proof fn lemma_merge_registry(w: World, fresh: Seq<NodeEntryV>, q: Seq<char>)
    ensures
        moves(w, merge_registry(w, fresh), q, 0),
{
    reveal(merge_registry);
    let w1 = clear_gone(w, fresh, w.e.nodes.len());
    lemma_clear_gone(w, fresh, w.e.nodes.len(), q);
    let w2 = world(
        EngineV { nodes: crate::engine_model::merged(w.e.nodes, fresh), ..w1.e },
        w1.out,
    );
    lemma_changed(w1, w2.e, q);
    let w3 = publish_nodes(w2, w2.e.nodes.len());
    lemma_publish_nodes(w2, w2.e.nodes.len(), q);
    lemma_emit_registry(w3, q);
}

proof fn lemma_pairing_closed(w: World, joined: Option<Seq<char>>, q: Seq<char>)
    ensures
        moves(w, publish_pairing(pairing_closed(w), joined), q, 0),
{
    let w1 = pairing_closed(w);
    lemma_changed(w, w1.e, q);
    lemma_publish_pairing(w1, joined, q);
}

proof fn lemma_on_success(w: World, p: PendingMgmtV, q: Seq<char>)
    ensures
        moves(w, on_success(w, p), q, due(p.rpc, q)),
{
    reveal(on_success);
    lemma_changed(w, w.e, q);
    match p.op {
        OpKindV::Describe => {
            let w1 = match crate::mgmt::device_info_in(w.e.wire, p.data) {
                Some(d) => publish_status(
                    world(
                        EngineV { describe: d, ..w.e },
                        w.out,
                    ),
                ),
                None => w,
            };
            if let Some(d) = crate::mgmt::device_info_in(w.e.wire, p.data) {
                let w0 = world(
                    EngineV { describe: d, ..w.e },
                    w.out,
                );
                lemma_changed(w, w0.e, q);
                lemma_publish_status(w0, q);
            }
            lemma_completes_ok(
                w1,
                p.rpc,
                RpcDataV::Gateway(crate::topics::addr_text(w1.e.describe.net_id)),
                q,
            );
        },
        OpKindV::NodeList => {
            let fresh = crate::mgmt::node_entries(p.data);
            let w1 = merge_registry(w, fresh);
            lemma_merge_registry(w, fresh, q);
            lemma_completes_ok(
                w1,
                p.rpc,
                RpcDataV::Nodes(crate::engine_model::node_payloads(w1.e)),
                q,
            );
        },
        OpKindV::NodeAdd { id, name } => {
            let text = "node "@ + crate::topics::addr_text(id) + " added ("@ + name + ")"@;
            lemma_say(w, text, q);
            let w1 = say(w, text);
            lemma_completes_ok(w1, p.rpc, RpcDataV::Null, q);
            let w2 = rpc_ok(w1, p.rpc, RpcDataV::Null);
            lemma_list_nodes(w2, q);
        },
        OpKindV::NodeRemove { id } => {
            lemma_forget_node(w, id, q);
            lemma_completes_ok(forget_node(w, id), p.rpc, RpcDataV::Null, q);
        },
        OpKindV::NodeUpdate => {
            lemma_completes_ok(w, p.rpc, RpcDataV::Null, q);
            let w2 = rpc_ok(w, p.rpc, RpcDataV::Null);
            lemma_list_nodes(w2, q);
        },
        OpKindV::RevealKey { id } => match crate::mgmt::read_node_key(p.data) {
            Some(key) => lemma_completes_ok(
                w,
                p.rpc,
                RpcDataV::Key {
                    node: crate::topics::addr_text(id),
                    key: crate::text::hex_bytes(key),
                },
                q,
            ),
            None => lemma_completes_err(w, p.rpc, "malformed key record"@, q),
        },
        OpKindV::PairingOpen => {
            let joined = match crate::mgmt::read_paired(p.data) {
                Some(a) => Some(crate::topics::addr_text(a)),
                None => None,
            };
            let line = match joined {
                Some(h) => "node "@ + h + " paired"@,
                None => "pairing window resolved"@,
            };
            let w0 = pairing_closed(w);
            lemma_changed(w, w0.e, q);
            let w1 = say(w0, line);
            lemma_say(w0, line, q);
            let w2 = publish_pairing(w1, joined);
            lemma_publish_pairing(w1, joined, q);
            lemma_completes_ok(w2, p.rpc, RpcDataV::Joined(joined), q);
            let w3 = rpc_ok(w2, p.rpc, RpcDataV::Joined(joined));
            lemma_list_nodes(w3, q);
        },
        OpKindV::PairingCancel => lemma_completes_ok(w, p.rpc, RpcDataV::Null, q),
        OpKindV::QueuePush { node, shell } => match crate::mgmt::read_queue_id(p.data) {
            Some(item) => {
                lemma_now_pending(w, node, shell, item, q);
                lemma_completes_ok(now_pending(w, node, shell, item), p.rpc, RpcDataV::Item(item), q);
            },
            None => lemma_completes_err(w, p.rpc, "malformed queue id"@, q),
        },
        OpKindV::QueueList => lemma_completes_ok(
            w,
            p.rpc,
            RpcDataV::Queue(crate::engine_model::queue_rows(crate::mgmt::queue_entries(p.data))),
            q,
        ),
        OpKindV::QueueDrop { node } => {
            lemma_completes_ok(w, p.rpc, RpcDataV::Null, q);
            let w1 = rpc_ok(w, p.rpc, RpcDataV::Null);
            match find_node(w1.e, node) {
                Some(i) => {
                    let w2 = publish_pending(w1, i);
                    lemma_publish_pending(w1, i, q);
                    lemma_list_nodes(w2, q);
                },
                None => {
                    lemma_list_nodes(w1, q);
                },
            }
        },
        OpKindV::StatsConfig => lemma_completes_ok(w, p.rpc, RpcDataV::Null, q),
    }
}

proof fn lemma_on_refusal(w: World, p: PendingMgmtV, result: u8, error: Seq<char>, q: Seq<char>)
    ensures
        moves(w, on_refusal(w, p, result, error), q, due(p.rpc, q)),
{
    reveal(on_refusal);
    lemma_changed(w, w.e, q);
    match p.op {
        OpKindV::PairingOpen => {
            let w1 = publish_pairing(pairing_closed(w), None);
            lemma_pairing_closed(w, None, q);
            if result == w1.e.wire.mgmt_timeout {
                lemma_completes_ok(w1, p.rpc, RpcDataV::Joined(None), q);
            } else {
                lemma_completes_err(w1, p.rpc, error, q);
            }
        },
        OpKindV::QueuePush { node, shell } => match shell {
            Some(o) => {
                let code = if result >= 1 {
                    result
                } else {
                    1
                };
                lemma_shell_fail(w, node, o.rpc, code, error, q);
                lemma_completes_err(shell_fail(w, node, o.rpc, code, error), p.rpc, error, q);
            },
            None => lemma_completes_err(w, p.rpc, error, q),
        },
        _ => lemma_completes_err(w, p.rpc, error, q),
    }
}

proof fn lemma_on_mgmt_done(w: World, p: PendingMgmtV, result: u8, q: Seq<char>)
    ensures
        moves(w, on_mgmt_done(w, p, result), q, due(p.rpc, q)),
{
    reveal(on_mgmt_done);
    let w1 = match crate::wire::mgmt_error(w.e.wire, result) {
        None => on_success(w, p),
        Some(error) => on_refusal(w, p, result, error),
    };
    match crate::wire::mgmt_error(w.e.wire, result) {
        None => lemma_on_success(w, p, q),
        Some(error) => lemma_on_refusal(w, p, result, error, q),
    }
    if p.truncated {
        let w2 = on_mgmt_done(w, p, result);
        lemma_emit(w1, w2.out.last(), q);
    }
}

proof fn lemma_rpc_queue_drop(w: World, req: RpcRequestV, q: Seq<char>)
    ensures
        moves(w, rpc_queue_drop(w, req), q, due(Some(req.id), q)),
{
    let ticks = crate::engine_model::MGMT_TIMEOUT_TICKS;
    match crate::engine_model::node_param(w.e, req.params) {
        None => lemma_refused(w, req.id, "unknown node"@, q),
        Some(node) => {
            let item = match req.params.item {
                Some(n) => Some((n % 0x1_0000) as u16),
                None => None,
            };
            let kind = OpKindV::QueueDrop { node };
            let op = MgmtOpV::QueueDrop { node, item };
            lemma_changed(w, w.e, q);
            match (item, find_node(w.e, node)) {
                (Some(it), Some(i)) => {
                    let ps = w.e.nodes[i].pending;
                    match crate::text::first_where(ps, crate::engine_model::has_item(it)) {
                        Some(k) => {
                            let w1 = with_pending(w, i, ps.remove(k));
                            lemma_changed(w, w1.e, q);
                            let w2 = shell_error(w1, node, ps[k], "dequeued"@);
                            lemma_shell_error(w1, node, ps[k], "dequeued"@, q);
                            let w3 = publish_pending(w2, i);
                            lemma_publish_pending(w2, i, q);
                            lemma_issued(w3, kind, op, req.id, ticks, q);
                        },
                        None => lemma_issued(w, kind, op, req.id, ticks, q),
                    }
                },
                _ => lemma_issued(w, kind, op, req.id, ticks, q),
            }
        },
    }
}

proof fn lemma_rpc_add_ota(w: World, req: RpcRequestV, key: Option<Seq<u8>>, q: Seq<char>)
    ensures
        moves(w, rpc_add_ota(w, req, key), q, due(Some(req.id), q)),
{
    if w.e.pairing_rpc is Some {
        lemma_refused(w, req.id, "a pairing window is already open"@, q);
    } else {
        match key {
            None => lemma_refused(w, req.id, "no entropy source for the node key"@, q),
            Some(k) => {
                let window_s = crate::engine_model::window(req.params);
                let w1 = world(
                    EngineV {
                        pairing_rpc: Some(req.id),
                        pairing_until: Some(crate::engine_model::sat(w.e.tick + window_s)),
                        ..w.e
                    },
                    w.out,
                );
                lemma_changed(w, w1.e, q);
                let w2 = publish_pairing(w1, None);
                lemma_publish_pairing(w1, None, q);
                lemma_issued(
                    w2,
                    OpKindV::PairingOpen,
                    MgmtOpV::PairingOpen { window_s, key: k },
                    req.id,
                    (window_s + crate::engine_model::PAIRING_SLACK_TICKS) as u64,
                    q,
                );
            },
        }
    }
}

proof fn lemma_rpc_changes(w: World, req: RpcRequestV, q: Seq<char>)
    ensures
        moves(w, rpc_node_add(w, req), q, due(Some(req.id), q)),
        moves(w, rpc_node_rename(w, req), q, due(Some(req.id), q)),
{
    lemma_changed(w, w.e, q);
    let ticks = crate::engine_model::MGMT_TIMEOUT_TICKS;
    let added = rpc_node_add(w, req);
    match (
        crate::engine_model::opt_addr(req.params.id),
        crate::engine_model::opt_key(req.params.key),
    ) {
        (Some(_), Some(_)) => {
            let kind = added.e.pending_mgmt.last().op;
            let op = match added.out.last() {
                OutputV::SerialSend { op, .. } => op,
                _ => MgmtOpV::Describe,
            };
            lemma_issued(w, kind, op, req.id, ticks, q);
        },
        _ => lemma_refused(w, req.id, "node_add needs id + key (hex)"@, q),
    }
    let renamed = rpc_node_rename(w, req);
    match crate::engine_model::node_param(w.e, req.params) {
        None => lemma_refused(w, req.id, "unknown node"@, q),
        Some(id) => match req.params.name {
            None => lemma_refused(w, req.id, "missing name"@, q),
            Some(name) => if name.len() == 0 || vstd::utf8::encode_utf8(name).len()
                > w.e.wire.max_node_name {
                lemma_refused(
                    w,
                    req.id,
                    "name must be 1..="@ + crate::text::dec(w.e.wire.max_node_name as nat)
                        + " bytes"@,
                    q,
                );
            } else {
                let op = match renamed.out.last() {
                    OutputV::SerialSend { op, .. } => op,
                    _ => MgmtOpV::Describe,
                };
                lemma_issued(w, OpKindV::NodeUpdate, op, req.id, ticks, q);
            },
        },
    }
}

proof fn lemma_on_rpc(w: World, req: RpcRequestV, key: Option<Seq<u8>>, q: Seq<char>)
    ensures
        moves(w, on_rpc(w, req, key), q, due(Some(req.id), q)),
{
    reveal(on_rpc);
    let ticks = crate::engine_model::MGMT_TIMEOUT_TICKS;
    let node = crate::engine_model::node_param(w.e, req.params);
    lemma_changed(w, w.e, q);
    if req.op == "describe"@ {
        lemma_issued(w, OpKindV::Describe, MgmtOpV::Describe, req.id, ticks, q);
    } else if req.op == "node_list"@ {
        lemma_issued(w, OpKindV::NodeList, MgmtOpV::NodeList, req.id, ticks, q);
    } else if req.op == "node_add"@ || req.op == "node_rename"@ {
        reveal_strlit("node_rename");
        reveal_strlit("node_remove");
        assert("node_rename"@[7] == 'n');
        assert("node_remove"@[7] == 'm');
        lemma_rpc_changes(w, req, q);
    } else if req.op == "node_remove"@ {
        match node {
            Some(id) => lemma_issued(
                w,
                OpKindV::NodeRemove { id },
                MgmtOpV::NodeRemove { id },
                req.id,
                ticks,
                q,
            ),
            None => lemma_refused(w, req.id, "unknown node"@, q),
        }
    } else if req.op == "reveal_key"@ {
        match node {
            Some(id) => lemma_issued(
                w,
                OpKindV::RevealKey { id },
                MgmtOpV::NodeRevealKey { id },
                req.id,
                ticks,
                q,
            ),
            None => lemma_refused(w, req.id, "unknown node"@, q),
        }
    } else if req.op == "node_add_ota"@ {
        lemma_rpc_add_ota(w, req, key, q);
    } else if req.op == "pairing_cancel"@ {
        lemma_pairing_closed(w, None, q);
        lemma_issued(
            publish_pairing(pairing_closed(w), None),
            OpKindV::PairingCancel,
            MgmtOpV::PairingCancel,
            req.id,
            ticks,
            q,
        );
    } else if req.op == "queue_list"@ {
        let node = match node {
            Some(n) => n,
            None => 0,
        };
        lemma_issued(w, OpKindV::QueueList, MgmtOpV::QueueList { node }, req.id, ticks, q);
    } else if req.op == "queue_drop"@ {
        lemma_rpc_queue_drop(w, req, q);
    } else if req.op == "stats_config"@ {
        lemma_issued(
            w,
            OpKindV::StatsConfig,
            MgmtOpV::StatsConfig {
                channel_period_ms: crate::engine_model::stats_period(req.params),
            },
            req.id,
            ticks,
            q,
        );
    } else {
        lemma_refused(w, req.id, "unknown op \""@ + req.op + "\""@, q);
    }
}

proof fn lemma_on_shell_req(w: World, node: u32, req: ShellReq, q: Seq<char>)
    ensures
        moves(w, on_shell_req(w, node, req), q, 0),
{
    if find_node(w.e, node) is None {
        lemma_shell_fail(w, node, req.id@, 1, "unknown node"@, q);
    } else if vstd::utf8::encode_utf8(req.line@).len() > w.e.wire.radio_shell_chunk {
        lemma_shell_fail(
            w,
            node,
            req.id@,
            1,
            "line too long for the radio MTU (max "@ + crate::text::dec(
                w.e.wire.radio_shell_chunk as nat,
            ) + " bytes)"@,
            q,
        );
    } else {
        let cmd_id = w.e.next_cmd;
        let w1 = world(EngineV { next_cmd: next_id(cmd_id), ..w.e }, w.out);
        lemma_changed(w, w1.e, q);
        let kind = OpKindV::QueuePush {
            node,
            shell: Some(ShellOriginV { rpc: req.id@, line: req.line@, cmd_id }),
        };
        let op = MgmtOpV::QueuePush { node, ttl_s: req.ttl_s, cmd_id, line: req.line@ };
        lemma_plain_issue(w1, kind, op, None, q);
    }
}

proof fn lemma_on_encode_failed(w: World, req_id: u16, envelope: bool, q: Seq<char>)
    requires
        shells_ok(w.e),
    ensures
        moves(w, on_encode_failed(w, req_id, envelope), q, 0),
{
    reveal(balance);
    match crate::text::first_where(w.e.pending_mgmt, crate::engine_model::has_req(req_id)) {
        None => {},
        Some(k) => {
            crate::text::lemma_first_where_holds(
                w.e.pending_mgmt,
                crate::engine_model::has_req(req_id),
            );
            let p = w.e.pending_mgmt[k];
            let w1 = world(EngineV { pending_mgmt: w.e.pending_mgmt.remove(k), ..w.e }, w.out);
            lemma_count_remove(w.e.pending_mgmt, k, q);
            assert(w.e.pending_mgmt.update(k, p) =~= w.e.pending_mgmt);
            lemma_removed(w.e, w1.e, k, p);
            match (envelope, p.op) {
                (true, OpKindV::QueuePush { node, shell: Some(o) }) => {
                    reveal(dialogs_apart);
                    assert(for_dialog(w.e.pending_mgmt[k].op));
                    let w2 = world(crate::engine_model::taken_back(w1.e, req_id), w1.out);
                    lemma_changed(w1, w2.e, q);
                    lemma_shell_fail(w2, node, o.rpc, 1, "envelope encode failed"@, q);
                },
                _ => lemma_completes_err(w1, p.rpc, "request encode failed"@, q),
            }
        },
    }
}

proof fn lemma_mgmt_timeout(w: World, k: int, q: Seq<char>)
    requires
        0 <= k < w.e.pending_mgmt.len(),
    ensures
        moves(w, mgmt_timeout(w, k), q, 0),
        mgmt_timeout(w, k).e.pending_mgmt == w.e.pending_mgmt.remove(k),
{
    reveal(balance);
    let p = w.e.pending_mgmt[k];
    let w1 = world(EngineV { pending_mgmt: w.e.pending_mgmt.remove(k), ..w.e }, w.out);
    lemma_count_remove(w.e.pending_mgmt, k, q);
    assert(w.e.pending_mgmt.update(k, p) =~= w.e.pending_mgmt);
    lemma_removed(w.e, w1.e, k, p);
    let w2 = if p.op is PairingOpen {
        publish_pairing(pairing_closed(w1), None)
    } else {
        w1
    };
    if p.op is PairingOpen {
        lemma_pairing_closed(w1, None, q);
    }
    let text = "management op timed out (req "@ + crate::text::dec(p.req_id as nat) + ")"@;
    lemma_say(w2, text, q);
    lemma_completes_err(say(w2, text), p.rpc, "device did not answer (timeout)"@, q);
}

proof fn lemma_shell_timeouts(w: World, i: int, k: nat, q: Seq<char>)
    ensures
        moves(w, shell_timeouts(w, i, k), q, 0),
    decreases k,
{
    if k > 0 {
        let ps = w.e.nodes[i].pending;
        if crate::engine_model::unanswered(w.e, ps[k - 1]) {
            let w0 = with_pending(w, i, ps.remove(k - 1));
            lemma_changed(w, w0.e, q);
            let text = "delivered but no reply from the node"@;
            let w1 = shell_error(w0, w.e.nodes[i].entry.id, ps[k - 1], text);
            lemma_shell_error(w0, w.e.nodes[i].entry.id, ps[k - 1], text, q);
            lemma_shell_timeouts(w1, i, (k - 1) as nat, q);
        } else {
            lemma_shell_timeouts(w, i, (k - 1) as nat, q);
        }
    }
}

proof fn lemma_nodes_timeouts(w: World, k: nat, q: Seq<char>)
    ensures
        moves(w, nodes_timeouts(w, k), q, 0),
    decreases k,
{
    if k > 0 {
        let w1 = nodes_timeouts(w, (k - 1) as nat);
        lemma_nodes_timeouts(w, (k - 1) as nat, q);
        let n = w1.e.nodes[k - 1].pending.len();
        lemma_shell_timeouts(w1, k - 1, n, q);
        lemma_publish_pending(shell_timeouts(w1, k - 1, n), k - 1, q);
    }
}

proof fn lemma_subscriptions(w: World, q: Seq<char>)
    ensures
        moves(w, subscriptions(w), q, 0),
{
    let w1 = subscribe(w, w.e.prefix + "gateway/cmd"@);
    lemma_emit(w, OutputV::Subscribe(w.e.prefix + "gateway/cmd"@), q);
    lemma_emit(w1, OutputV::Subscribe(w.e.prefix + "nodes/+/shell/req"@), q);
}

proof fn lemma_publish_world(w: World, k: nat, q: Seq<char>)
    ensures
        moves(w, publish_world(w, k), q, 0),
        publish_world(w, k).e == w.e,
    decreases k,
{
    if k == 0 {
        lemma_changed(w, w.e, q);
    } else {
        let w1 = publish_world(w, (k - 1) as nat);
        lemma_publish_world(w, (k - 1) as nat, q);
        let w2 = publish_node(w1, k - 1);
        lemma_publish_node(w1, k - 1, q);
        lemma_publish_pending(w2, k - 1, q);
    }
}

proof fn lemma_link(w: World, serial_up: bool, mqtt_up: bool, q: Seq<char>)
    ensures
        moves(w, link(w, serial_up, mqtt_up), q, 0),
{
    lemma_emit(w, OutputV::Event(EventV::Link { serial_up, mqtt_up }), q);
}

proof fn lemma_on_mqtt_up(w: World, q: Seq<char>)
    ensures
        moves(w, on_mqtt_up(w), q, 0),
{
    let a = world(EngineV { mqtt_up: true, ..w.e }, w.out);
    lemma_changed(w, a.e, q);
    let b = subscriptions(a);
    lemma_subscriptions(a, q);
    let c = publish_status(b);
    lemma_publish_status(b, q);
    let d = publish_stats(c);
    lemma_publish_stats(c, q);
    let e = publish_pairing(d, None);
    lemma_publish_pairing(d, None, q);
    let f = publish_world(e, e.e.nodes.len());
    lemma_publish_world(e, e.e.nodes.len(), q);
    lemma_link(f, w.e.serial_up, true, q);
}

proof fn lemma_on_serial(w: World, msg: SerialMsg, ts: u64, q: Seq<char>)
    ensures
        moves(w, on_serial(w, msg, ts), q, 0),
{
    match msg {
        SerialMsg::Hello { firmware_name, firmware_version, session_id } => lemma_on_hello(
            w,
            firmware_name@,
            firmware_version@,
            session_id,
            q,
        ),
        SerialMsg::Log { line } => lemma_say(w, line@, q),
        SerialMsg::Uplink(u) => lemma_on_uplink(w, u, ts, q),
        SerialMsg::Mgmt { req_id, result, chunk, last, data } => lemma_on_mgmt_chunk(
            w,
            req_id,
            result,
            chunk,
            last,
            data@,
            q,
        ),
        SerialMsg::Stat(stat) => lemma_on_radio_stat(w, stat, ts, q),
        SerialMsg::Dropped(_) => {
            let b = on_serial(w, msg, ts);
            lemma_emit(w, b.out.last(), q);
        },
    }
}

proof fn lemma_on_mqtt(
    w: World,
    topic: Seq<char>,
    rpc: Result<crate::payload::RpcRequest, String>,
    shell: Result<ShellReq, String>,
    key: Option<Seq<u8>>,
    q: Seq<char>,
)
    ensures
        moves(
            w,
            on_mqtt(w, topic, rpc, shell, key),
            q,
            match (crate::topics::meaning(w.e.prefix, topic), rpc) {
                (crate::topics::Inbound::Cmd, Ok(req)) => due(Some(req.id@), q),
                _ => 0,
            },
        ),
{
    lemma_changed(w, w.e, q);
    match crate::topics::meaning(w.e.prefix, topic) {
        crate::topics::Inbound::Cmd => match rpc {
            Ok(req) => lemma_on_rpc(w, req.deep_view(), key, q),
            Err(error) => lemma_say(w, "bad RPC payload: "@ + error@, q),
        },
        crate::topics::Inbound::ShellReq(node) => match shell {
            Ok(req) => lemma_on_shell_req(w, node, req, q),
            Err(error) => lemma_say(w, "bad shell request: "@ + error@, q),
        },
        crate::topics::Inbound::Other => {},
    }
}

proof fn lemma_on_mgmt_chunk(
    w: World,
    req_id: u16,
    result: u8,
    chunk: u16,
    last: bool,
    data: Seq<u8>,
    q: Seq<char>,
)
    ensures
        moves(w, on_mgmt_chunk(w, req_id, result, chunk, last, data), q, 0),
{
    reveal(balance);
    reveal(on_mgmt_chunk);
    match crate::text::first_where(w.e.pending_mgmt, crate::engine_model::has_req(req_id)) {
        None => {},
        Some(k) => {
            crate::text::lemma_first_where_holds(
                w.e.pending_mgmt,
                crate::engine_model::has_req(req_id),
            );
            let old = w.e.pending_mgmt[k];
            let p = PendingMgmtV {
                truncated: old.truncated || old.next_chunk != chunk,
                next_chunk: crate::mgmt::next_index(chunk),
                data: old.data + data,
                ..old
            };
            let updated = w.e.pending_mgmt.update(k, p);
            lemma_count_update(w.e.pending_mgmt, k, p, q);
            lemma_updated(w.e.pending_mgmt, k, p);
            if last {
                let w1 = world(EngineV { pending_mgmt: updated.remove(k), ..w.e }, w.out);
                lemma_count_remove(updated, k, q);
                lemma_removed(w.e, w1.e, k, p);
                lemma_on_mgmt_done(w1, p, result, q);
            }
        },
    }
}

proof fn lemma_updated(s: Seq<PendingMgmtV>, k: int, p: PendingMgmtV)
    requires
        0 <= k < s.len(),
        p.rpc == s[k].rpc && p.op == s[k].op,
    ensures
        dialogs_apart(s) ==> dialogs_apart(s.update(k, p)),
{
    reveal(dialogs_apart);
    if dialogs_apart(s) {
        assert forall|i: int| 0 <= i < s.len() implies for_dialog((#[trigger] s.update(k, p)[i]).op)
            ==> s.update(k, p)[i].rpc is None by {
            assert(for_dialog(s[i].op) ==> s[i].rpc is None);
        }
    }
}

/// Taking a request out keeps the others what they were.
proof fn lemma_removed(a: EngineV, b: EngineV, k: int, p: PendingMgmtV)
    requires
        0 <= k < a.pending_mgmt.len(),
        b.pending_mgmt == a.pending_mgmt.update(k, p).remove(k),
    ensures
        shells_ok(a) ==> shells_ok(b),
{
    reveal(dialogs_apart);
    if shells_ok(a) {
        assert forall|i: int| 0 <= i < b.pending_mgmt.len() implies for_dialog(
            (#[trigger] b.pending_mgmt[i]).op,
        ) ==> b.pending_mgmt[i].rpc is None by {
            if i < k {
                assert(b.pending_mgmt[i] == a.pending_mgmt[i]);
            } else {
                assert(b.pending_mgmt[i] == a.pending_mgmt[i + 1]);
            }
        }
    }
}

proof fn lemma_mgmt_timeouts(w: World, k: nat, q: Seq<char>)
    requires
        k <= w.e.pending_mgmt.len(),
    ensures
        moves(w, mgmt_timeouts(w, k), q, 0),
    decreases k,
{
    if k > 0 {
        if w.e.tick >= w.e.pending_mgmt[k - 1].deadline {
            lemma_mgmt_timeout(w, k - 1, q);
            lemma_mgmt_timeouts(mgmt_timeout(w, k - 1), (k - 1) as nat, q);
        } else {
            lemma_mgmt_timeouts(w, (k - 1) as nat, q);
        }
    }
}

proof fn lemma_on_tick(w: World, q: Seq<char>)
    ensures
        moves(w, on_tick(w), q, 0),
{
    let w1 = world(EngineV { tick: crate::engine_model::sat(w.e.tick + 1), ..w.e }, w.out);
    lemma_changed(w, w1.e, q);
    let w2 = mgmt_timeouts(w1, w1.e.pending_mgmt.len());
    lemma_mgmt_timeouts(w1, w1.e.pending_mgmt.len(), q);
    let w3 = nodes_timeouts(w2, w2.e.nodes.len());
    lemma_nodes_timeouts(w2, w2.e.nodes.len(), q);
    let w4 = if w3.e.pairing_until is Some {
        publish_pairing(w3, None)
    } else {
        w3
    };
    if w3.e.pairing_until is Some {
        lemma_publish_pairing(w3, None, q);
    }
    if w4.e.tick % crate::engine_model::STATS_EVERY_TICKS == 0 {
        lemma_publish_stats(w4, q);
    }
}

/// The request that an input makes, if it makes one.
pub open spec fn request_in(e: EngineV, input: Input) -> Option<Seq<char>> {
    match input {
        Input::MqttIn { topic, rpc: Ok(req), .. } => if crate::topics::meaning(e.prefix, topic@)
            == crate::topics::Inbound::Cmd {
            Some(req.id@)
        } else {
            None
        },
        Input::Frontend(FrontendCmd::Rpc(req)) => Some(req.id@),
        _ => None,
    }
}

proof fn lemma_serial_link(w: World, error: Seq<char>, q: Seq<char>)
    ensures
        moves(
            w,
            issue(
                link(
                    publish_status(world(EngineV { serial_up: true, ..w.e }, w.out)),
                    true,
                    w.e.mqtt_up,
                ),
                OpKindV::Describe,
                MgmtOpV::Describe,
                None,
            ),
            q,
            0,
        ),
        moves(
            w,
            say(
                link(
                    publish_status(world(EngineV { serial_up: false, ..w.e }, w.out)),
                    false,
                    w.e.mqtt_up,
                ),
                "serial lost: "@ + error,
            ),
            q,
            0,
        ),
{
    let a = world(EngineV { serial_up: true, ..w.e }, w.out);
    lemma_changed(w, a.e, q);
    lemma_publish_status(a, q);
    let b = publish_status(a);
    lemma_link(b, true, w.e.mqtt_up, q);
    let c = link(b, true, w.e.mqtt_up);
    lemma_plain_issue(c, OpKindV::Describe, MgmtOpV::Describe, None, q);
    let d = world(EngineV { serial_up: false, ..w.e }, w.out);
    lemma_changed(w, d.e, q);
    lemma_publish_status(d, q);
    let e = publish_status(d);
    lemma_link(e, false, w.e.mqtt_up, q);
    lemma_say(link(e, false, w.e.mqtt_up), "serial lost: "@ + error, q);
}

proof fn lemma_broker_lost(w: World, error: Seq<char>, q: Seq<char>)
    ensures
        moves(
            w,
            say(
                link(
                    world(EngineV { mqtt_up: false, ..w.e }, w.out),
                    w.e.serial_up,
                    false,
                ),
                "mqtt lost: "@ + error,
            ),
            q,
            0,
        ),
{
    let a = world(EngineV { mqtt_up: false, ..w.e }, w.out);
    lemma_changed(w, a.e, q);
    lemma_link(a, w.e.serial_up, false, q);
    lemma_say(link(a, w.e.serial_up, false), "mqtt lost: "@ + error, q);
}

/// Every request is answered exactly once. Whatever happens to the engine, the answers that
/// were given to a request and those that are still to come from requests in flight stay
/// the same together; only the request itself adds one. So no answer is ever given twice,
/// and none gets lost: what is in flight is answered by the reply, by a failure to send it,
/// or when its time is over.
#[verifier::rlimit(60)]
pub proof fn law_requests_are_answered_once(
    w: World,
    input: Input,
    ts: u64,
    key: Option<Seq<u8>>,
    q: Seq<char>,
)
    requires
        shells_ok(w.e),
    ensures
        balance(step(w, input, ts, key), q) == balance(w, q) + due(request_in(w.e, input), q),
        shells_ok(step(w, input, ts, key).e),
        step(w, input, ts, key).e.prefix == w.e.prefix,
{
    match input {
        Input::SerialUp => lemma_serial_link(w, Seq::empty(), q),
        Input::SerialDown { error } => lemma_serial_link(w, error@, q),
        Input::SerialFrame(msg) => lemma_on_serial(w, msg, ts, q),
        Input::EncodeFailed { req_id, envelope } => lemma_on_encode_failed(w, req_id, envelope, q),
        Input::MqttUp => lemma_on_mqtt_up(w, q),
        Input::MqttDown { error } => lemma_broker_lost(w, error@, q),
        Input::MqttIn { topic, rpc, shell } => lemma_on_mqtt(w, topic@, rpc, shell, key, q),
        Input::Frontend(FrontendCmd::Rpc(req)) => lemma_on_rpc(w, req.deep_view(), key, q),
        Input::Frontend(FrontendCmd::Shell { node, req }) => lemma_on_shell_req(w, node, req, q),
        Input::Tick => lemma_on_tick(w, q),
    }
}

/// An engine that has just started has answered nothing and owes nothing.
pub proof fn law_start_owes_nothing(w: World, q: Seq<char>)
    requires
        w.out.len() == 0,
        w.e.pending_mgmt.len() == 0,
    ensures
        balance(w, q) == 0,
        balance(on_start(w), q) == 0,
        shells_ok(on_start(w).e),
{
    reveal(balance);
    assert(shells_ok(w.e)) by {
        reveal(dialogs_apart);
    }
    let a = subscriptions(w);
    lemma_subscriptions(w, q);
    lemma_list_nodes(a, q);
    lemma_emit(list_nodes(a), on_start(w).out.last(), q);
}

/// How often the request `q` was made in a run.
pub open spec fn count_requests(e: EngineV, inputs: Seq<Happening>, q: Seq<char>) -> int
    decreases inputs.len(),
{
    if inputs.len() == 0 {
        0
    } else {
        count_requests(e, inputs.drop_last(), q) + due(request_in(e, inputs.last().input), q)
    }
}

proof fn lemma_run(w: World, inputs: Seq<Happening>, q: Seq<char>)
    requires
        shells_ok(w.e),
    ensures
        balance(run(w, inputs), q) == balance(w, q) + count_requests(w.e, inputs, q),
        shells_ok(run(w, inputs).e),
        run(w, inputs).e.prefix == w.e.prefix,
    decreases inputs.len(),
{
    if inputs.len() > 0 {
        let h = inputs.last();
        let before = run(w, inputs.drop_last());
        lemma_run(w, inputs.drop_last(), q);
        law_requests_are_answered_once(before, h.input, h.ts, h.key, q);
        assert(request_in(before.e, h.input) == request_in(w.e, h.input));
    }
}

/// Over a whole run from the start of the engine, each request has as many answers as it
/// was made, but for those that are still in flight; and never more.
pub proof fn law_as_many_answers_as_requests(w: World, inputs: Seq<Happening>, q: Seq<char>)
    requires
        w.out.len() == 0,
        w.e.pending_mgmt.len() == 0,
    ensures
        ({
            let b = run(on_start(w), inputs);
            let made = count_requests(w.e, inputs, q);
            &&& count_answers(w.e.prefix, b.out, q) + count_pending(b.e.pending_mgmt, q) == made
            &&& count_answers(w.e.prefix, b.out, q) <= made
            &&& b.e.pending_mgmt.len() == 0 ==> count_answers(w.e.prefix, b.out, q) == made
        }),
{
    law_start_owes_nothing(w, q);
    let a = on_start(w);
    lemma_run(a, inputs, q);
    lemma_same_requests(w.e, a.e, inputs, q);
    let b = run(a, inputs);
    lemma_pending_bounds(b.e.pending_mgmt, q);
    reveal(balance);
}

proof fn lemma_same_requests(a: EngineV, b: EngineV, inputs: Seq<Happening>, q: Seq<char>)
    requires
        a.prefix == b.prefix,
    ensures
        count_requests(a, inputs, q) == count_requests(b, inputs, q),
    decreases inputs.len(),
{
    if inputs.len() > 0 {
        lemma_same_requests(a, b, inputs.drop_last(), q);
    }
}

proof fn lemma_pending_bounds(s: Seq<PendingMgmtV>, q: Seq<char>)
    ensures
        count_pending(s, q) >= 0,
    decreases s.len(),
{
    if s.len() > 0 {
        lemma_pending_bounds(s.drop_last(), q);
    }
}

} // verus!

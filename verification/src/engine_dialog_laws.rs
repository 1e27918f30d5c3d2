//! A remote-shell dialog ends at most once: a balance of lines that wait and final messages.

use crate::engine_answer_laws::due;
use crate::engine_model::{
    clear_gone, clear_topic, emit, emit_registry, fail_queues, find_node, forget_node, has_addr,
    has_cmd, has_item, issue, issue_delayed, link, list_nodes, listed_before, merge_registry,
    merged, merged_row, mgmt_timeout, mgmt_timeouts, next_id, nodes_timeouts, now_pending,
    on_encode_failed, on_hello, on_mgmt_chunk, on_mgmt_done, on_mqtt, on_mqtt_up, on_node_info,
    on_node_msg, on_queue_outcome, on_radio_stat, on_refusal, on_rpc, on_serial, on_shell_chunk,
    on_shell_req, on_start, on_success, on_tick, on_uplink, pairing_closed, publish, publish_node,
    publish_nodes, publish_pairing, publish_pending, publish_stats, publish_status, publish_world,
    rpc_add_ota, rpc_err, rpc_err_direct, rpc_node_add, rpc_node_rename, rpc_ok, rpc_queue_drop,
    rpc_respond, run, say, shell_error, shell_errors, shell_fail, shell_reply, shell_timeouts, step,
    subscribe, subscriptions, touch_node, with_node, with_pending, world, Happening, World,
};
use crate::engine_state::{
    EngineV, EventV, FrontendCmd, Input, NodeMirrorV, OpKindV, OutputV, PendingMgmtV,
    PendingShellV, SerialMsg, ShellOriginV,
};
use crate::frame::{NodeInfo, NodeMsg, NodeShellChunk, RadioStat, Uplink};
use crate::mgmt::{MgmtOpV, NodeEntryV};
use crate::payload::{RpcDataV, RpcRequestV, RpcResponseV, ShellReq, ShellRspV};
use crate::text::{first_where, lemma_first_where_holds};
use crate::topics::node_topic;
use vstd::prelude::*;

verus! {

// ---- the balance -------------------------------------------------------------------

/// A message that ends the dialog `q`.
pub open spec fn ends_dialog(o: OutputV, q: Seq<char>) -> bool {
    match o {
        OutputV::Event(EventV::Shell { rsp, .. }) => rsp.done && rsp.id == q,
        _ => false,
    }
}

/// How often the dialog `q` was ended.
pub open spec fn count_ends(out: Seq<OutputV>, q: Seq<char>) -> int
    decreases out.len(),
{
    if out.len() == 0 {
        0
    } else {
        count_ends(out.drop_last(), q) + if ends_dialog(out.last(), q) {
            1int
        } else {
            0
        }
    }
}

/// How many commands of a queue belong to the dialog `q`.
pub open spec fn waits(ps: Seq<PendingShellV>, q: Seq<char>) -> int
    decreases ps.len(),
{
    if ps.len() == 0 {
        0
    } else {
        waits(ps.drop_last(), q) + due(Some(ps.last().rpc), q)
    }
}

/// How many commands in all queues belong to the dialog `q`.
pub open spec fn count_nodes(nodes: Seq<NodeMirrorV>, q: Seq<char>) -> int
    decreases nodes.len(),
{
    if nodes.len() == 0 {
        0
    } else {
        count_nodes(nodes.drop_last(), q) + waits(nodes.last().pending, q)
    }
}

/// The dialog that a request to the device carries a line of.
pub open spec fn origin(kind: OpKindV) -> Option<Seq<char>> {
    match kind {
        OpKindV::QueuePush { shell: Some(o), .. } => Some(o.rpc),
        _ => None,
    }
}

/// How many requests in flight carry a line of the dialog `q`.
pub open spec fn count_lines(pending: Seq<PendingMgmtV>, q: Seq<char>) -> int
    decreases pending.len(),
{
    if pending.len() == 0 {
        0
    } else {
        count_lines(pending.drop_last(), q) + due(origin(pending.last().op), q)
    }
}

/// The ends of the dialog `q` that were told, and the lines of it that still wait for one.
#[verifier::opaque]
pub open spec fn dialogs(w: World, q: Seq<char>) -> int {
    count_ends(w.out, q) + count_nodes(w.e.nodes, q) + count_lines(w.e.pending_mgmt, q)
}

/// From `a` to `b` the balance of the dialog `q` grows by `n` at most.
pub open spec fn bounded(a: World, b: World, q: Seq<char>, n: int) -> bool {
    &&& b.e.prefix == a.e.prefix
    &&& dialogs(b, q) <= dialogs(a, q) + n
}

// ---- counting ----------------------------------------------------------------------

proof fn lemma_waits_remove(s: Seq<PendingShellV>, k: int, q: Seq<char>)
    requires
        0 <= k < s.len(),
    ensures
        waits(s.remove(k), q) == waits(s, q) - due(Some(s[k].rpc), q),
    decreases s.len(),
{
    if k == s.len() - 1 {
        assert(s.remove(k) =~= s.drop_last());
    } else {
        lemma_waits_remove(s.drop_last(), k, q);
        assert(s.remove(k).drop_last() =~= s.drop_last().remove(k));
        assert(s.remove(k).last() == s.last());
    }
}

proof fn lemma_waits_update(s: Seq<PendingShellV>, k: int, p: PendingShellV, q: Seq<char>)
    requires
        0 <= k < s.len(),
        p.rpc == s[k].rpc,
    ensures
        waits(s.update(k, p), q) == waits(s, q),
    decreases s.len(),
{
    if k == s.len() - 1 {
        assert(s.update(k, p).drop_last() =~= s.drop_last());
    } else {
        lemma_waits_update(s.drop_last(), k, p, q);
        assert(s.update(k, p).drop_last() =~= s.drop_last().update(k, p));
    }
}

proof fn lemma_waits_bounds(s: Seq<PendingShellV>, q: Seq<char>)
    ensures
        waits(s, q) >= 0,
    decreases s.len(),
{
    if s.len() > 0 {
        lemma_waits_bounds(s.drop_last(), q);
    }
}

proof fn lemma_nodes_update(s: Seq<NodeMirrorV>, i: int, n: NodeMirrorV, q: Seq<char>)
    requires
        0 <= i < s.len(),
    ensures
        count_nodes(s.update(i, n), q) == count_nodes(s, q) - waits(s[i].pending, q) + waits(
            n.pending,
            q,
        ),
    decreases s.len(),
{
    if i == s.len() - 1 {
        assert(s.update(i, n).drop_last() =~= s.drop_last());
    } else {
        lemma_nodes_update(s.drop_last(), i, n, q);
        assert(s.update(i, n).drop_last() =~= s.drop_last().update(i, n));
    }
}

proof fn lemma_nodes_remove(s: Seq<NodeMirrorV>, i: int, q: Seq<char>)
    requires
        0 <= i < s.len(),
    ensures
        count_nodes(s.remove(i), q) == count_nodes(s, q) - waits(s[i].pending, q),
    decreases s.len(),
{
    if i == s.len() - 1 {
        assert(s.remove(i) =~= s.drop_last());
    } else {
        lemma_nodes_remove(s.drop_last(), i, q);
        assert(s.remove(i).drop_last() =~= s.drop_last().remove(i));
        assert(s.remove(i).last() == s.last());
    }
}

proof fn lemma_lines_remove(s: Seq<PendingMgmtV>, k: int, q: Seq<char>)
    requires
        0 <= k < s.len(),
    ensures
        count_lines(s.remove(k), q) == count_lines(s, q) - due(origin(s[k].op), q),
    decreases s.len(),
{
    if k == s.len() - 1 {
        assert(s.remove(k) =~= s.drop_last());
    } else {
        lemma_lines_remove(s.drop_last(), k, q);
        assert(s.remove(k).drop_last() =~= s.drop_last().remove(k));
        assert(s.remove(k).last() == s.last());
    }
}

proof fn lemma_lines_update(s: Seq<PendingMgmtV>, k: int, p: PendingMgmtV, q: Seq<char>)
    requires
        0 <= k < s.len(),
        p.op == s[k].op,
    ensures
        count_lines(s.update(k, p), q) == count_lines(s, q),
    decreases s.len(),
{
    if k == s.len() - 1 {
        assert(s.update(k, p).drop_last() =~= s.drop_last());
    } else {
        lemma_lines_update(s.drop_last(), k, p, q);
        assert(s.update(k, p).drop_last() =~= s.drop_last().update(k, p));
    }
}

/// A node that was found is there.
proof fn lemma_found(e: EngineV, id: u32, i: int)
    requires
        find_node(e, id) == Some(i),
    ensures
        0 <= i < e.nodes.len(),
        e.nodes[i].entry.id == id,
{
    lemma_first_where_holds(e.nodes, has_addr(id));
}

// ---- steps -------------------------------------------------------------------------

proof fn lemma_changed(w: World, e: EngineV, q: Seq<char>)
    requires
        e.prefix == w.e.prefix,
        count_lines(e.pending_mgmt, q) <= count_lines(w.e.pending_mgmt, q),
        count_nodes(e.nodes, q) <= count_nodes(w.e.nodes, q),
    ensures
        bounded(w, world(e, w.out), q, 0),
{
    reveal(dialogs);
}

/// The queue of a node is replaced.
proof fn lemma_queue(w: World, i: int, ps: Seq<PendingShellV>, q: Seq<char>)
    requires
        0 <= i < w.e.nodes.len(),
    ensures
        bounded(w, with_pending(w, i, ps), q, waits(ps, q) - waits(w.e.nodes[i].pending, q)),
{
    reveal(dialogs);
    lemma_nodes_update(w.e.nodes, i, NodeMirrorV { pending: ps, ..w.e.nodes[i] }, q);
}

proof fn lemma_emit(w: World, o: OutputV, q: Seq<char>)
    ensures
        bounded(
            w,
            emit(w, o),
            q,
            if ends_dialog(o, q) {
                1
            } else {
                0
            },
        ),
{
    reveal(dialogs);
    assert(w.out.push(o).drop_last() =~= w.out);
}

proof fn lemma_say(w: World, text: Seq<char>, q: Seq<char>)
    ensures
        bounded(w, say(w, text), q, 0),
{
    lemma_emit(w, OutputV::Event(EventV::Log(text)), q);
}

proof fn lemma_publish(w: World, rest: Seq<char>, text: Seq<char>, retain: bool, q: Seq<char>)
    ensures
        bounded(w, publish(w, w.e.prefix + rest, text, retain), q, 0),
{
    lemma_emit(
        w,
        OutputV::Publish {
            topic: w.e.prefix + rest,
            payload: vstd::utf8::encode_utf8(text),
            retain,
        },
        q,
    );
}

proof fn lemma_publish_node_topic(
    w: World,
    addr: u32,
    tail: Seq<char>,
    text: Seq<char>,
    retain: bool,
    q: Seq<char>,
)
    ensures
        bounded(w, publish(w, node_topic(w.e.prefix, addr, tail), text, retain), q, 0),
{
    lemma_emit(
        w,
        OutputV::Publish {
            topic: node_topic(w.e.prefix, addr, tail),
            payload: vstd::utf8::encode_utf8(text),
            retain,
        },
        q,
    );
}

proof fn lemma_clear(w: World, addr: u32, tail: Seq<char>, q: Seq<char>)
    ensures
        bounded(w, clear_topic(w, node_topic(w.e.prefix, addr, tail)), q, 0),
{
    lemma_emit(
        w,
        OutputV::Publish {
            topic: node_topic(w.e.prefix, addr, tail),
            payload: Seq::empty(),
            retain: true,
        },
        q,
    );
}

proof fn lemma_issue(
    w: World,
    kind: OpKindV,
    op: MgmtOpV,
    rpc: Option<Seq<char>>,
    timeout: u64,
    q: Seq<char>,
)
    ensures
        bounded(w, issue_delayed(w, kind, op, rpc, timeout), q, due(origin(kind), q)),
{
    reveal(dialogs);
    let b = issue_delayed(w, kind, op, rpc, timeout);
    assert(b.out.drop_last() =~= w.out);
    assert(b.e.pending_mgmt.drop_last() =~= w.e.pending_mgmt);
}

proof fn lemma_plain_issue(
    w: World,
    kind: OpKindV,
    op: MgmtOpV,
    rpc: Option<Seq<char>>,
    q: Seq<char>,
)
    ensures
        bounded(w, issue(w, kind, op, rpc), q, due(origin(kind), q)),
{
    lemma_issue(w, kind, op, rpc, crate::engine_model::MGMT_TIMEOUT_TICKS, q);
}

proof fn lemma_issued(
    b: World,
    kind: OpKindV,
    op: MgmtOpV,
    id: Seq<char>,
    timeout: u64,
    q: Seq<char>,
)
    ensures
        bounded(b, issue_delayed(b, kind, op, Some(id), timeout), q, due(origin(kind), q)),
{
    lemma_issue(b, kind, op, Some(id), timeout, q);
}

proof fn lemma_respond(w: World, rsp: RpcResponseV, q: Seq<char>)
    ensures
        bounded(w, rpc_respond(w, rsp), q, 0),
{
    lemma_emit(w, rpc_respond(w, rsp).out.last(), q);
}

proof fn lemma_completes_ok(b: World, rpc: Option<Seq<char>>, data: RpcDataV, q: Seq<char>)
    ensures
        bounded(b, rpc_ok(b, rpc, data), q, 0),
{
    if let Some(id) = rpc {
        lemma_respond(b, RpcResponseV { id, ok: true, error: None, data }, q);
    }
}

proof fn lemma_completes_err(b: World, rpc: Option<Seq<char>>, error: Seq<char>, q: Seq<char>)
    ensures
        bounded(b, rpc_err(b, rpc, error), q, 0),
{
    if let Some(id) = rpc {
        lemma_refused(b, id, error, q);
    }
}

proof fn lemma_refused(w: World, id: Seq<char>, error: Seq<char>, q: Seq<char>)
    ensures
        bounded(w, rpc_err_direct(w, id, error), q, 0),
{
    lemma_respond(
        w,
        RpcResponseV { id, ok: false, error: Some(error), data: RpcDataV::Null },
        q,
    );
}

// ---- what the engine does ----------------------------------------------------------

proof fn lemma_emit_registry(w: World, q: Seq<char>)
    ensures
        bounded(w, emit_registry(w), q, 0),
{
    lemma_emit(w, OutputV::Event(EventV::Registry(crate::engine_model::node_views(w.e))), q);
}

proof fn lemma_publish_node(w: World, i: int, q: Seq<char>)
    ensures
        bounded(w, publish_node(w, i), q, 0),
{
    lemma_publish_node_topic(
        w,
        w.e.nodes[i].entry.id,
        ""@,
        crate::payload::node_json(crate::engine_model::node_payload(w.e, w.e.nodes[i])),
        true,
        q,
    );
}

proof fn lemma_publish_pending(w: World, i: int, q: Seq<char>)
    ensures
        bounded(w, publish_pending(w, i), q, 0),
{
    let text = crate::payload::pending_json(
        crate::engine_model::pending_entries(w.e.nodes[i].pending),
    );
    let w1 = publish(
        w,
        node_topic(w.e.prefix, w.e.nodes[i].entry.id, "/shell/pending"@),
        text,
        true,
    );
    lemma_publish_node_topic(w, w.e.nodes[i].entry.id, "/shell/pending"@, text, true, q);
    lemma_emit_registry(w1, q);
}

proof fn lemma_publish_status(w: World, q: Seq<char>)
    ensures
        bounded(w, publish_status(w), q, 0),
{
    lemma_emit(w, publish_status(w).out.last(), q);
}

proof fn lemma_publish_stats(w: World, q: Seq<char>)
    ensures
        bounded(w, publish_stats(w), q, 0),
{
    lemma_emit(w, publish_stats(w).out.last(), q);
}

proof fn lemma_publish_pairing(w: World, joined: Option<Seq<char>>, q: Seq<char>)
    ensures
        bounded(w, publish_pairing(w, joined), q, 0),
{
    let b = publish_pairing(w, joined);
    let n = w.out.len() as int;
    lemma_emit(w, b.out[n], q);
    lemma_emit(emit(w, b.out[n]), b.out[n + 1], q);
}

proof fn lemma_list_nodes(w: World, q: Seq<char>)
    ensures
        bounded(w, list_nodes(w), q, 0),
{
    lemma_issue(
        w,
        OpKindV::NodeList,
        MgmtOpV::NodeList,
        None,
        crate::engine_model::MGMT_TIMEOUT_TICKS,
        q,
    );
}

proof fn lemma_clear_gone(w: World, fresh: Seq<NodeEntryV>, k: nat, q: Seq<char>)
    ensures
        bounded(w, clear_gone(w, fresh, k), q, 0),
        clear_gone(w, fresh, k).e == w.e,
    decreases k,
{
    if k == 0 {
        lemma_changed(w, w.e, q);
    } else {
        let w1 = clear_gone(w, fresh, (k - 1) as nat);
        lemma_clear_gone(w, fresh, (k - 1) as nat, q);
        let id = w.e.nodes[k - 1].entry.id;
        if !crate::engine_model::still_listed(fresh, id) {
            lemma_clear(w1, id, ""@, q);
        }
    }
}

proof fn lemma_publish_nodes(w: World, k: nat, q: Seq<char>)
    ensures
        bounded(w, publish_nodes(w, k), q, 0),
        publish_nodes(w, k).e == w.e,
    decreases k,
{
    if k == 0 {
        lemma_changed(w, w.e, q);
    } else {
        let w1 = publish_nodes(w, (k - 1) as nat);
        lemma_publish_nodes(w, (k - 1) as nat, q);
        lemma_publish_node(w1, k - 1, q);
    }
}

proof fn lemma_pairing_closed(w: World, joined: Option<Seq<char>>, q: Seq<char>)
    ensures
        bounded(w, publish_pairing(pairing_closed(w), joined), q, 0),
{
    let w1 = pairing_closed(w);
    lemma_changed(w, w1.e, q);
    lemma_publish_pairing(w1, joined, q);
}

proof fn lemma_shell_reply(w: World, node: u32, rsp: ShellRspV, q: Seq<char>)
    ensures
        bounded(
            w,
            shell_reply(w, node, rsp),
            q,
            if rsp.done {
                due(Some(rsp.id), q)
            } else {
                0
            },
        ),
{
    let text = crate::payload::shell_rsp_json(rsp);
    let w1 = publish(w, node_topic(w.e.prefix, node, "/shell/rsp"@), text, false);
    lemma_publish_node_topic(w, node, "/shell/rsp"@, text, false, q);
    lemma_emit(w1, OutputV::Event(EventV::Shell { node, rsp }), q);
}

proof fn lemma_shell_error(w: World, node: u32, p: PendingShellV, error: Seq<char>, q: Seq<char>)
    ensures
        bounded(w, shell_error(w, node, p, error), q, due(Some(p.rpc), q)),
{
    lemma_shell_reply(
        w,
        node,
        ShellRspV {
            id: p.rpc,
            chunk: p.next_chunk,
            text: Seq::empty(),
            done: true,
            result: 1,
            truncated: p.truncated,
            error: Some(error),
        },
        q,
    );
}

proof fn lemma_shell_fail(
    w: World,
    node: u32,
    id: Seq<char>,
    result: u8,
    error: Seq<char>,
    q: Seq<char>,
)
    ensures
        bounded(w, shell_fail(w, node, id, result, error), q, due(Some(id), q)),
{
    lemma_shell_reply(
        w,
        node,
        ShellRspV {
            id,
            chunk: 0,
            text: Seq::empty(),
            done: true,
            result,
            truncated: false,
            error: Some(error),
        },
        q,
    );
}

proof fn lemma_shell_errors(
    w: World,
    node: u32,
    ps: Seq<PendingShellV>,
    error: Seq<char>,
    k: nat,
    q: Seq<char>,
)
    requires
        k <= ps.len(),
    ensures
        bounded(w, shell_errors(w, node, ps, error, k), q, waits(ps.take(k as int), q)),
        shell_errors(w, node, ps, error, k).e == w.e,
    decreases k,
{
    if k > 0 {
        let w1 = shell_errors(w, node, ps, error, (k - 1) as nat);
        lemma_shell_errors(w, node, ps, error, (k - 1) as nat, q);
        lemma_shell_error(w1, node, ps[k - 1], error, q);
        assert(ps.take(k as int).drop_last() =~= ps.take(k - 1));
        assert(ps.take(k as int).last() == ps[k - 1]);
    } else {
        assert(ps.take(0).len() == 0);
    }
}

proof fn lemma_fail_queues(w: World, k: nat, q: Seq<char>)
    requires
        k <= w.e.nodes.len(),
    ensures
        bounded(w, fail_queues(w, k), q, 0),
        fail_queues(w, k).e.nodes.len() == w.e.nodes.len(),
    decreases k,
{
    if k > 0 {
        let w1 = fail_queues(w, (k - 1) as nat);
        let i = k - 1;
        lemma_fail_queues(w, (k - 1) as nat, q);
        let ps = w1.e.nodes[i].pending;
        let id = w1.e.nodes[i].entry.id;
        let w2 = with_pending(w1, i, Seq::empty());
        lemma_queue(w1, i, Seq::empty(), q);
        let w3 = shell_errors(w2, id, ps, "gateway rebooted — command lost"@, ps.len());
        lemma_shell_errors(w2, id, ps, "gateway rebooted — command lost"@, ps.len(), q);
        assert(ps.take(ps.len() as int) =~= ps);
        lemma_publish_pending(w3, i, q);
    }
}

proof fn lemma_on_shell_chunk(w: World, src: u32, chunk: NodeShellChunk, q: Seq<char>)
    ensures
        bounded(w, on_shell_chunk(w, src, chunk), q, 0),
{
    reveal(on_shell_chunk);
    match find_node(w.e, src) {
        None => {},
        Some(i) => {
            lemma_found(w.e, src, i);
            let ps = w.e.nodes[i].pending;
            match first_where(ps, has_cmd(chunk.cmd_id)) {
                None => lemma_say(
                    w,
                    "node "@ + crate::topics::addr_text(src) + ": shell chunk for unknown cmd_id "@
                        + crate::text::dec(chunk.cmd_id as nat),
                    q,
                ),
                Some(k) => {
                    lemma_first_where_holds(ps, has_cmd(chunk.cmd_id));
                    let p = PendingShellV {
                        truncated: ps[k].truncated || ps[k].next_chunk != chunk.chunk,
                        next_chunk: crate::mgmt::next_index(chunk.chunk),
                        ..ps[k]
                    };
                    let up = ps.update(k, p);
                    lemma_waits_update(ps, k, p, q);
                    let w0 = with_pending(w, i, up);
                    lemma_queue(w, i, up, q);
                    let rsp = ShellRspV {
                        id: p.rpc,
                        chunk: chunk.chunk,
                        text: chunk.text@,
                        done: chunk.last,
                        result: chunk.result,
                        truncated: p.truncated,
                        error: None,
                    };
                    let w1 = shell_reply(w0, src, rsp);
                    lemma_shell_reply(w0, src, rsp, q);
                    if chunk.last {
                        lemma_waits_remove(up, k, q);
                        let w2 = with_pending(w1, i, up.remove(k));
                        lemma_queue(w1, i, up.remove(k), q);
                        lemma_publish_pending(w2, i, q);
                    }
                },
            }
        },
    }
}

proof fn lemma_on_queue_outcome(w: World, node: u32, item: u16, outcome: u8, q: Seq<char>)
    ensures
        bounded(w, on_queue_outcome(w, node, item, outcome), q, 0),
{
    reveal(on_queue_outcome);
    if let Some(i) = find_node(w.e, node) {
        lemma_found(w.e, node, i);
        let ps = w.e.nodes[i].pending;
        if let Some(k) = first_where(ps, has_item(item)) {
            lemma_first_where_holds(ps, has_item(item));
            if outcome == w.e.wire.tx_delivered {
                let p = PendingShellV { delivered_tick: Some(w.e.tick), ..ps[k] };
                lemma_waits_update(ps, k, p, q);
                lemma_queue(w, i, ps.update(k, p), q);
            } else if outcome == w.e.wire.tx_expired {
                lemma_waits_remove(ps, k, q);
                let w1 = with_pending(w, i, ps.remove(k));
                lemma_queue(w, i, ps.remove(k), q);
                let w2 = shell_error(w1, node, ps[k], "queue TTL expired before delivery"@);
                lemma_shell_error(w1, node, ps[k], "queue TTL expired before delivery"@, q);
                lemma_publish_pending(w2, i, q);
            }
        }
    }
}

proof fn lemma_forget_node(w: World, id: u32, q: Seq<char>)
    ensures
        bounded(w, forget_node(w, id), q, 0),
{
    reveal(forget_node);
    let w1 = match find_node(w.e, id) {
        None => w,
        Some(i) => {
            let ps = w.e.nodes[i].pending;
            let a = shell_errors(w, id, ps, "node removed"@, ps.len());
            world(EngineV { nodes: a.e.nodes.remove(i), ..a.e }, a.out)
        },
    };
    if let Some(i) = find_node(w.e, id) {
        lemma_found(w.e, id, i);
        let ps = w.e.nodes[i].pending;
        lemma_shell_errors(w, id, ps, "node removed"@, ps.len(), q);
        assert(ps.take(ps.len() as int) =~= ps);
        lemma_nodes_remove(w.e.nodes, i, q);
        reveal(dialogs);
    }
    let w2 = clear_topic(w1, node_topic(w1.e.prefix, id, ""@));
    lemma_clear(w1, id, ""@, q);
    let w3 = clear_topic(w2, node_topic(w1.e.prefix, id, "/measure/temperature"@));
    lemma_clear(w2, id, "/measure/temperature"@, q);
    let w4 = clear_topic(w3, node_topic(w1.e.prefix, id, "/shell/pending"@));
    lemma_clear(w3, id, "/shell/pending"@, q);
    lemma_emit_registry(w4, q);
}

proof fn lemma_now_pending(
    w: World,
    node: u32,
    from: Option<ShellOriginV>,
    item: u16,
    q: Seq<char>,
)
    ensures
        bounded(
            w,
            now_pending(w, node, from, item),
            q,
            match from {
                Some(o) => due(Some(o.rpc), q),
                None => 0,
            },
        ),
{
    reveal(now_pending);
    if let Some(o) = from {
        if let Some(i) = find_node(w.e, node) {
            lemma_found(w.e, node, i);
            let ps = w.e.nodes[i].pending;
            let p = PendingShellV {
                item,
                rpc: o.rpc,
                line: o.line,
                cmd_id: o.cmd_id,
                delivered_tick: None,
                next_chunk: 0,
                truncated: false,
            };
            assert(ps.push(p).drop_last() =~= ps);
            let w1 = with_pending(w, i, ps.push(p));
            lemma_queue(w, i, ps.push(p), q);
            let w2 = publish_pending(w1, i);
            lemma_publish_pending(w1, i, q);
            lemma_publish_node(w2, i, q);
        }
    }
}

// ---- a fresh listing ---------------------------------------------------------------

/// One of the first `n` entries names the node.
pub open spec fn listed_in(fresh: Seq<NodeEntryV>, n: int, id: u32) -> bool {
    exists|j: int| 0 <= j < n && (#[trigger] fresh[j]).id == id
}

/// The commands of those of the first `k` old nodes that one of the first `n` entries names.
pub open spec fn count_listed(
    olds: Seq<NodeMirrorV>,
    k: nat,
    fresh: Seq<NodeEntryV>,
    n: int,
    q: Seq<char>,
) -> int
    decreases k,
{
    if k == 0 {
        0
    } else {
        count_listed(olds, (k - 1) as nat, fresh, n, q) + if listed_in(
            fresh,
            n,
            olds[k - 1].entry.id,
        ) {
            waits(olds[k - 1].pending, q)
        } else {
            0
        }
    }
}

proof fn lemma_listed_at_most_all(
    olds: Seq<NodeMirrorV>,
    k: nat,
    fresh: Seq<NodeEntryV>,
    n: int,
    q: Seq<char>,
)
    requires
        k <= olds.len(),
    ensures
        count_listed(olds, k, fresh, n, q) <= count_nodes(olds.take(k as int), q),
    decreases k,
{
    if k > 0 {
        lemma_listed_at_most_all(olds, (k - 1) as nat, fresh, n, q);
        assert(olds.take(k as int).drop_last() =~= olds.take(k - 1));
        assert(olds.take(k as int).last() == olds[k - 1]);
        lemma_waits_bounds(olds[k - 1].pending, q);
    } else {
        assert(olds.take(0).len() == 0);
    }
}

/// One more entry adds at least the commands of the old node that it names for the first
/// time.
proof fn lemma_listed_grows(
    olds: Seq<NodeMirrorV>,
    k: nat,
    fresh: Seq<NodeEntryV>,
    n: int,
    at: int,
    q: Seq<char>,
)
    requires
        k <= olds.len(),
        0 <= n < fresh.len(),
        0 <= at < olds.len(),
        olds[at].entry.id == fresh[n].id,
        !listed_in(fresh, n, fresh[n].id),
    ensures
        count_listed(olds, k, fresh, n + 1, q) >= count_listed(olds, k, fresh, n, q) + if at < k {
            waits(olds[at].pending, q)
        } else {
            0
        },
    decreases k,
{
    if k > 0 {
        lemma_listed_grows(olds, (k - 1) as nat, fresh, n, at, q);
        let id = olds[k - 1].entry.id;
        lemma_waits_bounds(olds[k - 1].pending, q);
        if listed_in(fresh, n, id) {
            let j = choose|j: int| 0 <= j < n && (#[trigger] fresh[j]).id == id;
            assert(fresh[j].id == id);
            assert(listed_in(fresh, n + 1, id));
        }
        if k - 1 == at {
            assert(fresh[n].id == id);
            assert(listed_in(fresh, n + 1, id));
        }
    }
}

proof fn lemma_listed_keeps(
    olds: Seq<NodeMirrorV>,
    k: nat,
    fresh: Seq<NodeEntryV>,
    n: int,
    q: Seq<char>,
)
    requires
        k <= olds.len(),
        0 <= n < fresh.len(),
    ensures
        count_listed(olds, k, fresh, n + 1, q) >= count_listed(olds, k, fresh, n, q),
    decreases k,
{
    if k > 0 {
        lemma_listed_keeps(olds, (k - 1) as nat, fresh, n, q);
        let id = olds[k - 1].entry.id;
        lemma_waits_bounds(olds[k - 1].pending, q);
        if listed_in(fresh, n, id) {
            let j = choose|j: int| 0 <= j < n && (#[trigger] fresh[j]).id == id;
            assert(fresh[j].id == id);
            assert(listed_in(fresh, n + 1, id));
        }
    }
}

/// The rows of a fresh listing share the commands of the old nodes, none of them twice.
proof fn lemma_merged(olds: Seq<NodeMirrorV>, fresh: Seq<NodeEntryV>, n: nat, q: Seq<char>)
    requires
        n <= fresh.len(),
    ensures
        count_nodes(merged(olds, fresh).take(n as int), q) <= count_listed(
            olds,
            olds.len(),
            fresh,
            n as int,
            q,
        ),
    decreases n,
{
    let rows = merged(olds, fresh);
    if n == 0 {
        assert(rows.take(0).len() == 0);
        lemma_listed_none(olds, olds.len(), fresh, q);
    } else {
        let i = n - 1;
        lemma_merged(olds, fresh, i as nat, q);
        assert(rows.take(n as int).drop_last() =~= rows.take(i));
        assert(rows.take(n as int).last() == merged_row(olds, fresh, i));
        lemma_listed_keeps(olds, olds.len(), fresh, i, q);
        match first_where(olds, has_addr(fresh[i].id)) {
            Some(at) => {
                lemma_first_where_holds(olds, has_addr(fresh[i].id));
                if !listed_before(fresh, i) {
                    assert(!listed_in(fresh, i, fresh[i].id));
                    lemma_listed_grows(olds, olds.len(), fresh, i, at, q);
                }
            },
            None => {},
        }
    }
}

proof fn lemma_listed_none(olds: Seq<NodeMirrorV>, k: nat, fresh: Seq<NodeEntryV>, q: Seq<char>)
    requires
        k <= olds.len(),
    ensures
        count_listed(olds, k, fresh, 0, q) == 0,
    decreases k,
{
    if k > 0 {
        lemma_listed_none(olds, (k - 1) as nat, fresh, q);
    }
}

proof fn lemma_merge_registry(w: World, fresh: Seq<NodeEntryV>, q: Seq<char>)
    ensures
        bounded(w, merge_registry(w, fresh), q, 0),
{
    reveal(merge_registry);
    let olds = w.e.nodes;
    let w1 = clear_gone(w, fresh, olds.len());
    lemma_clear_gone(w, fresh, olds.len(), q);
    let rows = merged(olds, fresh);
    lemma_merged(olds, fresh, fresh.len(), q);
    lemma_listed_at_most_all(olds, olds.len(), fresh, fresh.len() as int, q);
    assert(rows.take(fresh.len() as int) =~= rows);
    assert(olds.take(olds.len() as int) =~= olds);
    let w2 = world(EngineV { nodes: rows, ..w1.e }, w1.out);
    lemma_changed(w1, w2.e, q);
    let w3 = publish_nodes(w2, w2.e.nodes.len());
    lemma_publish_nodes(w2, w2.e.nodes.len(), q);
    lemma_emit_registry(w3, q);
}

// ---- requests and time -------------------------------------------------------------

proof fn lemma_rpc_queue_drop(w: World, req: RpcRequestV, q: Seq<char>)
    ensures
        bounded(w, rpc_queue_drop(w, req), q, 0),
{
    let ticks = crate::engine_model::MGMT_TIMEOUT_TICKS;
    match crate::engine_model::node_param(w.e, req.params) {
        None => lemma_refused(w, req.id, "unknown node"@, q),
        Some(node) => {
            let item = match req.params.item {
                Some(n) => Some((n % 0x1_0000) as u16),
                None => None,
            };
            let kind = OpKindV::QueueDrop { node };
            let op = MgmtOpV::QueueDrop { node, item };
            match (item, find_node(w.e, node)) {
                (Some(it), Some(i)) => {
                    lemma_found(w.e, node, i);
                    let ps = w.e.nodes[i].pending;
                    match first_where(ps, has_item(it)) {
                        Some(k) => {
                            lemma_first_where_holds(ps, has_item(it));
                            lemma_waits_remove(ps, k, q);
                            let w1 = with_pending(w, i, ps.remove(k));
                            lemma_queue(w, i, ps.remove(k), q);
                            let w2 = shell_error(w1, node, ps[k], "dequeued"@);
                            lemma_shell_error(w1, node, ps[k], "dequeued"@, q);
                            let w3 = publish_pending(w2, i);
                            lemma_publish_pending(w2, i, q);
                            lemma_issued(w3, kind, op, req.id, ticks, q);
                        },
                        None => lemma_issued(w, kind, op, req.id, ticks, q),
                    }
                },
                _ => lemma_issued(w, kind, op, req.id, ticks, q),
            }
        },
    }
}

proof fn lemma_on_shell_req(w: World, node: u32, req: ShellReq, q: Seq<char>)
    ensures
        bounded(w, on_shell_req(w, node, req), q, due(Some(req.id@), q)),
{
    if find_node(w.e, node) is None {
        lemma_shell_fail(w, node, req.id@, 1, "unknown node"@, q);
    } else if vstd::utf8::encode_utf8(req.line@).len() > w.e.wire.radio_shell_chunk {
        lemma_shell_fail(
            w,
            node,
            req.id@,
            1,
            "line too long for the radio MTU (max "@ + crate::text::dec(
                w.e.wire.radio_shell_chunk as nat,
            ) + " bytes)"@,
            q,
        );
    } else {
        let cmd_id = w.e.next_cmd;
        let w1 = world(EngineV { next_cmd: next_id(cmd_id), ..w.e }, w.out);
        lemma_changed(w, w1.e, q);
        let kind = OpKindV::QueuePush {
            node,
            shell: Some(ShellOriginV { rpc: req.id@, line: req.line@, cmd_id }),
        };
        let op = MgmtOpV::QueuePush { node, ttl_s: req.ttl_s, cmd_id, line: req.line@ };
        lemma_plain_issue(w1, kind, op, None, q);
    }
}

/// A request in flight is taken out.
proof fn lemma_taken_out(w: World, k: int, q: Seq<char>)
    requires
        0 <= k < w.e.pending_mgmt.len(),
    ensures
        bounded(
            w,
            world(EngineV { pending_mgmt: w.e.pending_mgmt.remove(k), ..w.e }, w.out),
            q,
            -due(origin(w.e.pending_mgmt[k].op), q),
        ),
{
    reveal(dialogs);
    lemma_lines_remove(w.e.pending_mgmt, k, q);
}

proof fn lemma_on_encode_failed(w: World, req_id: u16, envelope: bool, q: Seq<char>)
    ensures
        bounded(w, on_encode_failed(w, req_id, envelope), q, 0),
{
    if let Some(k) = first_where(w.e.pending_mgmt, crate::engine_model::has_req(req_id)) {
        lemma_first_where_holds(w.e.pending_mgmt, crate::engine_model::has_req(req_id));
        let p = w.e.pending_mgmt[k];
        let w1 = world(EngineV { pending_mgmt: w.e.pending_mgmt.remove(k), ..w.e }, w.out);
        lemma_taken_out(w, k, q);
        match (envelope, p.op) {
            (true, OpKindV::QueuePush { node, shell: Some(o) }) => {
                let w2 = world(crate::engine_model::taken_back(w1.e, req_id), w1.out);
                lemma_changed(w1, w2.e, q);
                lemma_shell_fail(w2, node, o.rpc, 1, "envelope encode failed"@, q);
            },
            _ => lemma_completes_err(w1, p.rpc, "request encode failed"@, q),
        }
    }
}

proof fn lemma_on_mgmt_chunk(
    w: World,
    req_id: u16,
    result: u8,
    chunk: u16,
    last: bool,
    data: Seq<u8>,
    q: Seq<char>,
)
    ensures
        bounded(w, on_mgmt_chunk(w, req_id, result, chunk, last, data), q, 0),
{
    reveal(on_mgmt_chunk);
    if let Some(k) = first_where(w.e.pending_mgmt, crate::engine_model::has_req(req_id)) {
        lemma_first_where_holds(w.e.pending_mgmt, crate::engine_model::has_req(req_id));
        let old = w.e.pending_mgmt[k];
        let p = PendingMgmtV {
            truncated: old.truncated || old.next_chunk != chunk,
            next_chunk: crate::mgmt::next_index(chunk),
            data: old.data + data,
            ..old
        };
        let updated = w.e.pending_mgmt.update(k, p);
        lemma_lines_update(w.e.pending_mgmt, k, p, q);
        let w0 = world(EngineV { pending_mgmt: updated, ..w.e }, w.out);
        lemma_changed(w, w0.e, q);
        if last {
            let w1 = world(EngineV { pending_mgmt: updated.remove(k), ..w.e }, w.out);
            lemma_taken_out(w0, k, q);
            lemma_on_mgmt_done(w1, p, result, q);
        }
    }
}

proof fn lemma_mgmt_timeout(w: World, k: int, q: Seq<char>)
    requires
        0 <= k < w.e.pending_mgmt.len(),
    ensures
        bounded(w, mgmt_timeout(w, k), q, 0),
        mgmt_timeout(w, k).e.pending_mgmt == w.e.pending_mgmt.remove(k),
{
    let p = w.e.pending_mgmt[k];
    let w1 = world(EngineV { pending_mgmt: w.e.pending_mgmt.remove(k), ..w.e }, w.out);
    lemma_taken_out(w, k, q);
    let w2 = if p.op is PairingOpen {
        publish_pairing(pairing_closed(w1), None)
    } else {
        w1
    };
    if p.op is PairingOpen {
        lemma_pairing_closed(w1, None, q);
    }
    let text = "management op timed out (req "@ + crate::text::dec(p.req_id as nat) + ")"@;
    lemma_say(w2, text, q);
    lemma_completes_err(say(w2, text), p.rpc, "device did not answer (timeout)"@, q);
}

proof fn lemma_shell_timeouts(w: World, i: int, k: nat, q: Seq<char>)
    requires
        0 <= i < w.e.nodes.len(),
        k <= w.e.nodes[i].pending.len(),
    ensures
        bounded(w, shell_timeouts(w, i, k), q, 0),
        shell_timeouts(w, i, k).e.nodes.len() == w.e.nodes.len(),
    decreases k,
{
    if k > 0 {
        let ps = w.e.nodes[i].pending;
        if crate::engine_model::unanswered(w.e, ps[k - 1]) {
            lemma_waits_remove(ps, k - 1, q);
            let w0 = with_pending(w, i, ps.remove(k - 1));
            lemma_queue(w, i, ps.remove(k - 1), q);
            let text = "delivered but no reply from the node"@;
            let w1 = shell_error(w0, w.e.nodes[i].entry.id, ps[k - 1], text);
            lemma_shell_error(w0, w.e.nodes[i].entry.id, ps[k - 1], text, q);
            lemma_shell_timeouts(w1, i, (k - 1) as nat, q);
        } else {
            lemma_shell_timeouts(w, i, (k - 1) as nat, q);
        }
    }
}

proof fn lemma_nodes_timeouts(w: World, k: nat, q: Seq<char>)
    requires
        k <= w.e.nodes.len(),
    ensures
        bounded(w, nodes_timeouts(w, k), q, 0),
        nodes_timeouts(w, k).e.nodes.len() == w.e.nodes.len(),
    decreases k,
{
    if k > 0 {
        let w1 = nodes_timeouts(w, (k - 1) as nat);
        lemma_nodes_timeouts(w, (k - 1) as nat, q);
        let n = w1.e.nodes[k - 1].pending.len();
        lemma_shell_timeouts(w1, k - 1, n, q);
        lemma_publish_pending(shell_timeouts(w1, k - 1, n), k - 1, q);
    }
}

proof fn lemma_on_hello(
    w: World,
    firmware_name: Seq<char>,
    firmware_version: Seq<char>,
    session_id: u32,
    q: Seq<char>,
)
    ensures
        bounded(w, on_hello(w, firmware_name, firmware_version, session_id), q, 0),
{
    reveal(on_hello);
    let w1 = world(
        EngineV {
            hello_session: Some(session_id),
            firmware_version,
            describe: crate::mgmt::DeviceInfoV { firmware_name, ..w.e.describe },
            ..w.e
        },
        w.out,
    );
    lemma_changed(w, w1.e, q);
    let rebooted = match w.e.hello_session {
        Some(s) => s != session_id,
        None => false,
    };
    if rebooted {
        let text = "gateway rebooted (session "@ + crate::text::dec(session_id as nat)
            + ") — resyncing; queued downlinks were lost"@;
        let a = say(w1, text);
        lemma_say(w1, text, q);
        let b = fail_queues(a, a.e.nodes.len());
        lemma_fail_queues(a, a.e.nodes.len(), q);
        let c = issue(b, OpKindV::Describe, MgmtOpV::Describe, None);
        lemma_plain_issue(b, OpKindV::Describe, MgmtOpV::Describe, None, q);
        let d = list_nodes(c);
        lemma_list_nodes(c, q);
        lemma_publish_status(d, q);
    } else {
        lemma_publish_status(w1, q);
    }
}

proof fn lemma_on_node_info(w: World, src: u32, info: NodeInfo, q: Seq<char>)
    ensures
        bounded(w, on_node_info(w, src, info), q, 0),
{
    reveal(on_node_info);
    match find_node(w.e, src) {
        None => lemma_changed(w, w.e, q),
        Some(i) => {
            let kind = crate::engine_model::kind_text(info.firmware_name@);
            let w1 = with_node(
                w,
                i,
                NodeMirrorV { kind, session_id: Some(info.session_id), ..w.e.nodes[i] },
            );
            lemma_found(w.e, src, i);
            lemma_nodes_update(w.e.nodes, i, w1.e.nodes[i], q);
            lemma_changed(w, w1.e, q);
            let had = w1.e.nodes[i].entry.flags;
            let flags = crate::engine_model::sleeping_flags(w1.e, had, info.sleeping);
            if had & w1.e.wire.flag_unnamed != 0 {
                let name = crate::engine_model::auto_name(w1.e.nodes, kind);
                let text = "auto-naming node "@ + crate::topics::addr_text(src) + " \""@ + name
                    + "\""@;
                let a = say(w1, text);
                lemma_say(w1, text, q);
                let op = MgmtOpV::NodeUpdate {
                    id: src,
                    name: Some(name),
                    flags: Some(flags & !w1.e.wire.flag_unnamed),
                };
                let b = issue(a, OpKindV::NodeUpdate, op, None);
                lemma_plain_issue(a, OpKindV::NodeUpdate, op, None, q);
                lemma_publish_node(b, i, q);
            } else if flags != had {
                let op = MgmtOpV::NodeUpdate { id: src, name: None, flags: Some(flags) };
                let b = issue(w1, OpKindV::NodeUpdate, op, None);
                lemma_plain_issue(w1, OpKindV::NodeUpdate, op, None, q);
                lemma_publish_node(b, i, q);
            } else {
                lemma_publish_node(w1, i, q);
            }
        },
    }
}

proof fn lemma_on_node_msg(w: World, src: u32, counter: u32, len: nat, msg: NodeMsg, ts: u64, q: Seq<char>)
    ensures
        bounded(w, on_node_msg(w, src, counter, len, msg, ts), q, 0),
{
    reveal(on_node_msg);
    match msg {
        NodeMsg::Button { kind, count } => lemma_publish_node_topic(
            w,
            src,
            "/event/button"@,
            crate::payload::button_json(crate::engine_model::button_text(kind), count, counter, ts),
            false,
            q,
        ),
        NodeMsg::Temperature { millic } => lemma_publish_node_topic(
            w,
            src,
            "/measure/temperature"@,
            crate::payload::temperature_json(millic, ts),
            true,
            q,
        ),
        NodeMsg::Accel { kind, face } => lemma_publish_node_topic(
            w,
            src,
            "/event/accel"@,
            crate::payload::accel_json(crate::engine_model::accel_text(kind), face, counter, ts),
            false,
            q,
        ),
        NodeMsg::Info(info) => lemma_on_node_info(w, src, info, q),
        NodeMsg::Shell(chunk) => lemma_on_shell_chunk(w, src, chunk, q),
        NodeMsg::BadVersion { .. } => {
            let b = on_node_msg(w, src, counter, len, msg, ts);
            lemma_emit(w, b.out.last(), q);
        },
        NodeMsg::Undecodable => {
            let b = on_node_msg(w, src, counter, len, msg, ts);
            lemma_emit(w, b.out.last(), q);
        },
    }
}

proof fn lemma_on_uplink(w: World, u: Uplink, ts: u64, q: Seq<char>)
    ensures
        bounded(w, on_uplink(w, u, ts), q, 0),
{
    reveal(on_uplink);
    let w1 = world(
        EngineV { uplinks: crate::engine_model::sat(w.e.uplinks + 1), ..w.e },
        w.out,
    );
    let wt = touch_node(w1, u.src, u.rssi_dbm);
    if let Some(i) = find_node(w1.e, u.src) {
        lemma_found(w1.e, u.src, i);
        lemma_nodes_update(w1.e.nodes, i, wt.e.nodes[i], q);
    }
    lemma_changed(w, wt.e, q);
    let o = OutputV::Event(
        EventV::Radio(
            crate::engine_state::RadioSample::Rx { src: u.src, rssi_dbm: u.rssi_dbm },
        ),
    );
    let w2 = emit(wt, o);
    lemma_emit(wt, o, q);
    let rx = crate::payload::radio_rx_json(
        crate::topics::addr_text(u.src),
        u.rssi_dbm,
        u.lqi,
        u.data@.len(),
        ts,
    );
    let w3 = publish(w2, w2.e.prefix + "radio/rx"@, rx, false);
    lemma_publish(w2, "radio/rx"@, rx, false, q);
    let up = crate::payload::uplink_json(
        u.counter,
        u.rssi_dbm,
        u.lqi,
        u.data@.len(),
        crate::text::hex_bytes(u.data@),
        ts,
    );
    let w4 = publish(w3, node_topic(w3.e.prefix, u.src, "/uplink"@), up, false);
    lemma_publish_node_topic(w3, u.src, "/uplink"@, up, false, q);
    lemma_on_node_msg(w4, u.src, u.counter, u.data@.len(), u.body, ts, q);
}

proof fn lemma_on_radio_stat(w: World, stat: RadioStat, ts: u64, q: Seq<char>)
    ensures
        bounded(w, on_radio_stat(w, stat, ts), q, 0),
{
    reveal(on_radio_stat);
    match stat {
        RadioStat::Channel { channel, rssi_dbm } => {
            let w1 = world(EngineV { last_ambient: Some((rssi_dbm, channel)), ..w.e }, w.out);
            lemma_changed(w, w1.e, q);
            let o = OutputV::Event(
                EventV::Radio(
                    crate::engine_state::RadioSample::Ambient { dbm: rssi_dbm, channel },
                ),
            );
            let w2 = emit(w1, o);
            lemma_emit(w1, o, q);
            let text = crate::payload::radio_rssi_json(rssi_dbm, channel, ts);
                    lemma_publish(w2, "radio/rssi"@, text, false, q);
        },
        RadioStat::Tx { dest, item, outcome, ack_rssi_dbm } => {
            let o = OutputV::Event(
                EventV::Radio(
                    crate::engine_state::RadioSample::Tx {
                        dest,
                        delivered: outcome == w.e.wire.tx_delivered,
                    },
                ),
            );
            let w1 = emit(w, o);
            lemma_emit(w, o, q);
            let text = crate::payload::radio_tx_json(
                crate::topics::addr_text(dest),
                item,
                crate::wire::tx_outcome(w.e.wire, outcome),
                ack_rssi_dbm,
                ts,
            );
            let w2 = publish(w1, w1.e.prefix + "radio/tx"@, text, false);
                    lemma_publish(w1, "radio/tx"@, text, false, q);
            if item != 0 {
                lemma_on_queue_outcome(w2, dest, item, outcome, q);
            }
        },
    }
}

proof fn lemma_on_success(w: World, p: PendingMgmtV, q: Seq<char>)
    ensures
        bounded(w, on_success(w, p), q, due(origin(p.op), q)),
{
    reveal(on_success);
    lemma_changed(w, w.e, q);
    match p.op {
        OpKindV::Describe => {
            let w1 = match crate::mgmt::device_info_in(w.e.wire, p.data) {
                Some(d) => publish_status(
                    world(
                        EngineV { describe: d, ..w.e },
                        w.out,
                    ),
                ),
                None => w,
            };
            if let Some(d) = crate::mgmt::device_info_in(w.e.wire, p.data) {
                let w0 = world(
                    EngineV { describe: d, ..w.e },
                    w.out,
                );
                lemma_changed(w, w0.e, q);
                lemma_publish_status(w0, q);
            }
            lemma_completes_ok(
                w1,
                p.rpc,
                RpcDataV::Gateway(crate::topics::addr_text(w1.e.describe.net_id)),
                q,
            );
        },
        OpKindV::NodeList => {
            let fresh = crate::mgmt::node_entries(p.data);
            let w1 = merge_registry(w, fresh);
            lemma_merge_registry(w, fresh, q);
            lemma_completes_ok(
                w1,
                p.rpc,
                RpcDataV::Nodes(crate::engine_model::node_payloads(w1.e)),
                q,
            );
        },
        OpKindV::NodeAdd { id, name } => {
            let text = "node "@ + crate::topics::addr_text(id) + " added ("@ + name + ")"@;
            lemma_say(w, text, q);
            let w1 = say(w, text);
            lemma_completes_ok(w1, p.rpc, RpcDataV::Null, q);
            let w2 = rpc_ok(w1, p.rpc, RpcDataV::Null);
            lemma_list_nodes(w2, q);
        },
        OpKindV::NodeRemove { id } => {
            lemma_forget_node(w, id, q);
            lemma_completes_ok(forget_node(w, id), p.rpc, RpcDataV::Null, q);
        },
        OpKindV::NodeUpdate => {
            lemma_completes_ok(w, p.rpc, RpcDataV::Null, q);
            let w2 = rpc_ok(w, p.rpc, RpcDataV::Null);
            lemma_list_nodes(w2, q);
        },
        OpKindV::RevealKey { id } => match crate::mgmt::read_node_key(p.data) {
            Some(key) => lemma_completes_ok(
                w,
                p.rpc,
                RpcDataV::Key {
                    node: crate::topics::addr_text(id),
                    key: crate::text::hex_bytes(key),
                },
                q,
            ),
            None => lemma_completes_err(w, p.rpc, "malformed key record"@, q),
        },
        OpKindV::PairingOpen => {
            let joined = match crate::mgmt::read_paired(p.data) {
                Some(a) => Some(crate::topics::addr_text(a)),
                None => None,
            };
            let line = match joined {
                Some(h) => "node "@ + h + " paired"@,
                None => "pairing window resolved"@,
            };
            let w0 = pairing_closed(w);
            lemma_changed(w, w0.e, q);
            let w1 = say(w0, line);
            lemma_say(w0, line, q);
            let w2 = publish_pairing(w1, joined);
            lemma_publish_pairing(w1, joined, q);
            lemma_completes_ok(w2, p.rpc, RpcDataV::Joined(joined), q);
            let w3 = rpc_ok(w2, p.rpc, RpcDataV::Joined(joined));
            lemma_list_nodes(w3, q);
        },
        OpKindV::PairingCancel => lemma_completes_ok(w, p.rpc, RpcDataV::Null, q),
        OpKindV::QueuePush { node, shell } => match crate::mgmt::read_queue_id(p.data) {
            Some(item) => {
                lemma_now_pending(w, node, shell, item, q);
                lemma_completes_ok(now_pending(w, node, shell, item), p.rpc, RpcDataV::Item(item), q);
            },
            None => lemma_completes_err(w, p.rpc, "malformed queue id"@, q),
        },
        OpKindV::QueueList => lemma_completes_ok(
            w,
            p.rpc,
            RpcDataV::Queue(crate::engine_model::queue_rows(crate::mgmt::queue_entries(p.data))),
            q,
        ),
        OpKindV::QueueDrop { node } => {
            lemma_completes_ok(w, p.rpc, RpcDataV::Null, q);
            let w1 = rpc_ok(w, p.rpc, RpcDataV::Null);
            match find_node(w1.e, node) {
                Some(i) => {
                    let w2 = publish_pending(w1, i);
                    lemma_publish_pending(w1, i, q);
                    lemma_list_nodes(w2, q);
                },
                None => {
                    lemma_list_nodes(w1, q);
                },
            }
        },
        OpKindV::StatsConfig => lemma_completes_ok(w, p.rpc, RpcDataV::Null, q),
    }
}

proof fn lemma_on_refusal(w: World, p: PendingMgmtV, result: u8, error: Seq<char>, q: Seq<char>)
    ensures
        bounded(w, on_refusal(w, p, result, error), q, due(origin(p.op), q)),
{
    reveal(on_refusal);
    lemma_changed(w, w.e, q);
    match p.op {
        OpKindV::PairingOpen => {
            let w1 = publish_pairing(pairing_closed(w), None);
            lemma_pairing_closed(w, None, q);
            if result == w1.e.wire.mgmt_timeout {
                lemma_completes_ok(w1, p.rpc, RpcDataV::Joined(None), q);
            } else {
                lemma_completes_err(w1, p.rpc, error, q);
            }
        },
        OpKindV::QueuePush { node, shell } => match shell {
            Some(o) => {
                let code = if result >= 1 {
                    result
                } else {
                    1
                };
                lemma_shell_fail(w, node, o.rpc, code, error, q);
                lemma_completes_err(shell_fail(w, node, o.rpc, code, error), p.rpc, error, q);
            },
            None => lemma_completes_err(w, p.rpc, error, q),
        },
        _ => lemma_completes_err(w, p.rpc, error, q),
    }
}

proof fn lemma_on_mgmt_done(w: World, p: PendingMgmtV, result: u8, q: Seq<char>)
    ensures
        bounded(w, on_mgmt_done(w, p, result), q, due(origin(p.op), q)),
{
    reveal(on_mgmt_done);
    let w1 = match crate::wire::mgmt_error(w.e.wire, result) {
        None => on_success(w, p),
        Some(error) => on_refusal(w, p, result, error),
    };
    match crate::wire::mgmt_error(w.e.wire, result) {
        None => lemma_on_success(w, p, q),
        Some(error) => lemma_on_refusal(w, p, result, error, q),
    }
    if p.truncated {
        let w2 = on_mgmt_done(w, p, result);
        lemma_emit(w1, w2.out.last(), q);
    }
}

proof fn lemma_rpc_add_ota(w: World, req: RpcRequestV, key: Option<Seq<u8>>, q: Seq<char>)
    ensures
        bounded(w, rpc_add_ota(w, req, key), q, 0),
{
    if w.e.pairing_rpc is Some {
        lemma_refused(w, req.id, "a pairing window is already open"@, q);
    } else {
        match key {
            None => lemma_refused(w, req.id, "no entropy source for the node key"@, q),
            Some(k) => {
                let window_s = crate::engine_model::window(req.params);
                let w1 = world(
                    EngineV {
                        pairing_rpc: Some(req.id),
                        pairing_until: Some(crate::engine_model::sat(w.e.tick + window_s)),
                        ..w.e
                    },
                    w.out,
                );
                lemma_changed(w, w1.e, q);
                let w2 = publish_pairing(w1, None);
                lemma_publish_pairing(w1, None, q);
                lemma_issued(
                    w2,
                    OpKindV::PairingOpen,
                    MgmtOpV::PairingOpen { window_s, key: k },
                    req.id,
                    (window_s + crate::engine_model::PAIRING_SLACK_TICKS) as u64,
                    q,
                );
            },
        }
    }
}

proof fn lemma_rpc_changes(w: World, req: RpcRequestV, q: Seq<char>)
    ensures
        bounded(w, rpc_node_add(w, req), q, 0),
        bounded(w, rpc_node_rename(w, req), q, 0),
{
    lemma_changed(w, w.e, q);
    let ticks = crate::engine_model::MGMT_TIMEOUT_TICKS;
    let added = rpc_node_add(w, req);
    match (
        crate::engine_model::opt_addr(req.params.id),
        crate::engine_model::opt_key(req.params.key),
    ) {
        (Some(_), Some(_)) => {
            let kind = added.e.pending_mgmt.last().op;
            let op = match added.out.last() {
                OutputV::SerialSend { op, .. } => op,
                _ => MgmtOpV::Describe,
            };
            lemma_issued(w, kind, op, req.id, ticks, q);
        },
        _ => lemma_refused(w, req.id, "node_add needs id + key (hex)"@, q),
    }
    let renamed = rpc_node_rename(w, req);
    match crate::engine_model::node_param(w.e, req.params) {
        None => lemma_refused(w, req.id, "unknown node"@, q),
        Some(id) => match req.params.name {
            None => lemma_refused(w, req.id, "missing name"@, q),
            Some(name) => if name.len() == 0 || vstd::utf8::encode_utf8(name).len()
                > w.e.wire.max_node_name {
                lemma_refused(
                    w,
                    req.id,
                    "name must be 1..="@ + crate::text::dec(w.e.wire.max_node_name as nat)
                        + " bytes"@,
                    q,
                );
            } else {
                let op = match renamed.out.last() {
                    OutputV::SerialSend { op, .. } => op,
                    _ => MgmtOpV::Describe,
                };
                lemma_issued(w, OpKindV::NodeUpdate, op, req.id, ticks, q);
            },
        },
    }
}

proof fn lemma_on_rpc(w: World, req: RpcRequestV, key: Option<Seq<u8>>, q: Seq<char>)
    ensures
        bounded(w, on_rpc(w, req, key), q, 0),
{
    reveal(on_rpc);
    let ticks = crate::engine_model::MGMT_TIMEOUT_TICKS;
    let node = crate::engine_model::node_param(w.e, req.params);
    lemma_changed(w, w.e, q);
    if req.op == "describe"@ {
        lemma_issued(w, OpKindV::Describe, MgmtOpV::Describe, req.id, ticks, q);
    } else if req.op == "node_list"@ {
        lemma_issued(w, OpKindV::NodeList, MgmtOpV::NodeList, req.id, ticks, q);
    } else if req.op == "node_add"@ || req.op == "node_rename"@ {
        reveal_strlit("node_rename");
        reveal_strlit("node_remove");
        assert("node_rename"@[7] == 'n');
        assert("node_remove"@[7] == 'm');
        lemma_rpc_changes(w, req, q);
    } else if req.op == "node_remove"@ {
        match node {
            Some(id) => lemma_issued(
                w,
                OpKindV::NodeRemove { id },
                MgmtOpV::NodeRemove { id },
                req.id,
                ticks,
                q,
            ),
            None => lemma_refused(w, req.id, "unknown node"@, q),
        }
    } else if req.op == "reveal_key"@ {
        match node {
            Some(id) => lemma_issued(
                w,
                OpKindV::RevealKey { id },
                MgmtOpV::NodeRevealKey { id },
                req.id,
                ticks,
                q,
            ),
            None => lemma_refused(w, req.id, "unknown node"@, q),
        }
    } else if req.op == "node_add_ota"@ {
        lemma_rpc_add_ota(w, req, key, q);
    } else if req.op == "pairing_cancel"@ {
        lemma_pairing_closed(w, None, q);
        lemma_issued(
            publish_pairing(pairing_closed(w), None),
            OpKindV::PairingCancel,
            MgmtOpV::PairingCancel,
            req.id,
            ticks,
            q,
        );
    } else if req.op == "queue_list"@ {
        let node = match node {
            Some(n) => n,
            None => 0,
        };
        lemma_issued(w, OpKindV::QueueList, MgmtOpV::QueueList { node }, req.id, ticks, q);
    } else if req.op == "queue_drop"@ {
        lemma_rpc_queue_drop(w, req, q);
    } else if req.op == "stats_config"@ {
        lemma_issued(
            w,
            OpKindV::StatsConfig,
            MgmtOpV::StatsConfig {
                channel_period_ms: crate::engine_model::stats_period(req.params),
            },
            req.id,
            ticks,
            q,
        );
    } else {
        lemma_refused(w, req.id, "unknown op \""@ + req.op + "\""@, q);
    }
}

proof fn lemma_subscriptions(w: World, q: Seq<char>)
    ensures
        bounded(w, subscriptions(w), q, 0),
{
    let w1 = subscribe(w, w.e.prefix + "gateway/cmd"@);
    lemma_emit(w, OutputV::Subscribe(w.e.prefix + "gateway/cmd"@), q);
    lemma_emit(w1, OutputV::Subscribe(w.e.prefix + "nodes/+/shell/req"@), q);
}

proof fn lemma_publish_world(w: World, k: nat, q: Seq<char>)
    ensures
        bounded(w, publish_world(w, k), q, 0),
        publish_world(w, k).e == w.e,
    decreases k,
{
    if k == 0 {
        lemma_changed(w, w.e, q);
    } else {
        let w1 = publish_world(w, (k - 1) as nat);
        lemma_publish_world(w, (k - 1) as nat, q);
        let w2 = publish_node(w1, k - 1);
        lemma_publish_node(w1, k - 1, q);
        lemma_publish_pending(w2, k - 1, q);
    }
}

proof fn lemma_link(w: World, serial_up: bool, mqtt_up: bool, q: Seq<char>)
    ensures
        bounded(w, link(w, serial_up, mqtt_up), q, 0),
{
    lemma_emit(w, OutputV::Event(EventV::Link { serial_up, mqtt_up }), q);
}

proof fn lemma_on_mqtt_up(w: World, q: Seq<char>)
    ensures
        bounded(w, on_mqtt_up(w), q, 0),
{
    let a = world(EngineV { mqtt_up: true, ..w.e }, w.out);
    lemma_changed(w, a.e, q);
    let b = subscriptions(a);
    lemma_subscriptions(a, q);
    let c = publish_status(b);
    lemma_publish_status(b, q);
    let d = publish_stats(c);
    lemma_publish_stats(c, q);
    let e = publish_pairing(d, None);
    lemma_publish_pairing(d, None, q);
    let f = publish_world(e, e.e.nodes.len());
    lemma_publish_world(e, e.e.nodes.len(), q);
    lemma_link(f, w.e.serial_up, true, q);
}

proof fn lemma_on_serial(w: World, msg: SerialMsg, ts: u64, q: Seq<char>)
    ensures
        bounded(w, on_serial(w, msg, ts), q, 0),
{
    match msg {
        SerialMsg::Hello { firmware_name, firmware_version, session_id } => lemma_on_hello(
            w,
            firmware_name@,
            firmware_version@,
            session_id,
            q,
        ),
        SerialMsg::Log { line } => lemma_say(w, line@, q),
        SerialMsg::Uplink(u) => lemma_on_uplink(w, u, ts, q),
        SerialMsg::Mgmt { req_id, result, chunk, last, data } => lemma_on_mgmt_chunk(
            w,
            req_id,
            result,
            chunk,
            last,
            data@,
            q,
        ),
        SerialMsg::Stat(stat) => lemma_on_radio_stat(w, stat, ts, q),
        SerialMsg::Dropped(_) => {
            let b = on_serial(w, msg, ts);
            lemma_emit(w, b.out.last(), q);
        },
    }
}

proof fn lemma_on_mqtt(
    w: World,
    topic: Seq<char>,
    rpc: Result<crate::payload::RpcRequest, String>,
    shell: Result<ShellReq, String>,
    key: Option<Seq<u8>>,
    q: Seq<char>,
)
    ensures
        bounded(
            w,
            on_mqtt(w, topic, rpc, shell, key),
            q,
            match (crate::topics::meaning(w.e.prefix, topic), shell) {
                (crate::topics::Inbound::ShellReq(_), Ok(req)) => due(Some(req.id@), q),
                _ => 0,
            },
        ),
{
    lemma_changed(w, w.e, q);
    match crate::topics::meaning(w.e.prefix, topic) {
        crate::topics::Inbound::Cmd => match rpc {
            Ok(req) => lemma_on_rpc(w, req.deep_view(), key, q),
            Err(error) => lemma_say(w, "bad RPC payload: "@ + error@, q),
        },
        crate::topics::Inbound::ShellReq(node) => match shell {
            Ok(req) => lemma_on_shell_req(w, node, req, q),
            Err(error) => lemma_say(w, "bad shell request: "@ + error@, q),
        },
        crate::topics::Inbound::Other => {},
    }
}

proof fn lemma_mgmt_timeouts(w: World, k: nat, q: Seq<char>)
    requires
        k <= w.e.pending_mgmt.len(),
    ensures
        bounded(w, mgmt_timeouts(w, k), q, 0),
    decreases k,
{
    if k > 0 {
        if w.e.tick >= w.e.pending_mgmt[k - 1].deadline {
            lemma_mgmt_timeout(w, k - 1, q);
            lemma_mgmt_timeouts(mgmt_timeout(w, k - 1), (k - 1) as nat, q);
        } else {
            lemma_mgmt_timeouts(w, (k - 1) as nat, q);
        }
    }
}

proof fn lemma_on_tick(w: World, q: Seq<char>)
    ensures
        bounded(w, on_tick(w), q, 0),
{
    let w1 = world(EngineV { tick: crate::engine_model::sat(w.e.tick + 1), ..w.e }, w.out);
    lemma_changed(w, w1.e, q);
    let w2 = mgmt_timeouts(w1, w1.e.pending_mgmt.len());
    lemma_mgmt_timeouts(w1, w1.e.pending_mgmt.len(), q);
    let w3 = nodes_timeouts(w2, w2.e.nodes.len());
    lemma_nodes_timeouts(w2, w2.e.nodes.len(), q);
    let w4 = if w3.e.pairing_until is Some {
        publish_pairing(w3, None)
    } else {
        w3
    };
    if w3.e.pairing_until is Some {
        lemma_publish_pairing(w3, None, q);
    }
    if w4.e.tick % crate::engine_model::STATS_EVERY_TICKS == 0 {
        lemma_publish_stats(w4, q);
    }
}

proof fn lemma_serial_link(w: World, error: Seq<char>, q: Seq<char>)
    ensures
        bounded(
            w,
            issue(
                link(
                    publish_status(world(EngineV { serial_up: true, ..w.e }, w.out)),
                    true,
                    w.e.mqtt_up,
                ),
                OpKindV::Describe,
                MgmtOpV::Describe,
                None,
            ),
            q,
            0,
        ),
        bounded(
            w,
            say(
                link(
                    publish_status(world(EngineV { serial_up: false, ..w.e }, w.out)),
                    false,
                    w.e.mqtt_up,
                ),
                "serial lost: "@ + error,
            ),
            q,
            0,
        ),
{
    let a = world(EngineV { serial_up: true, ..w.e }, w.out);
    lemma_changed(w, a.e, q);
    lemma_publish_status(a, q);
    let b = publish_status(a);
    lemma_link(b, true, w.e.mqtt_up, q);
    let c = link(b, true, w.e.mqtt_up);
    lemma_plain_issue(c, OpKindV::Describe, MgmtOpV::Describe, None, q);
    let d = world(EngineV { serial_up: false, ..w.e }, w.out);
    lemma_changed(w, d.e, q);
    lemma_publish_status(d, q);
    let e = publish_status(d);
    lemma_link(e, false, w.e.mqtt_up, q);
    lemma_say(link(e, false, w.e.mqtt_up), "serial lost: "@ + error, q);
}

proof fn lemma_broker_lost(w: World, error: Seq<char>, q: Seq<char>)
    ensures
        bounded(
            w,
            say(
                link(
                    world(EngineV { mqtt_up: false, ..w.e }, w.out),
                    w.e.serial_up,
                    false,
                ),
                "mqtt lost: "@ + error,
            ),
            q,
            0,
        ),
{
    let a = world(EngineV { mqtt_up: false, ..w.e }, w.out);
    lemma_changed(w, a.e, q);
    lemma_link(a, w.e.serial_up, false, q);
    lemma_say(link(a, w.e.serial_up, false), "mqtt lost: "@ + error, q);
}

/// The dialog that an input opens, if it opens one.
pub open spec fn dialog_in(e: EngineV, input: Input) -> Option<Seq<char>> {
    match input {
        Input::MqttIn { topic, shell: Ok(req), .. } => match crate::topics::meaning(
            e.prefix,
            topic@,
        ) {
            crate::topics::Inbound::ShellReq(_) => Some(req.id@),
            _ => None,
        },
        Input::Frontend(FrontendCmd::Shell { req, .. }) => Some(req.id@),
        _ => None,
    }
}

/// A dialog ends at most once. Whatever happens to the engine, the final messages that were
/// told of a dialog and the lines of it that still wait for one never become more together,
/// but for the line that opens it.
#[verifier::rlimit(60)]
pub proof fn law_dialogs_end_once(
    w: World,
    input: Input,
    ts: u64,
    key: Option<Seq<u8>>,
    q: Seq<char>,
)
    ensures
        dialogs(step(w, input, ts, key), q) <= dialogs(w, q) + due(dialog_in(w.e, input), q),
        step(w, input, ts, key).e.prefix == w.e.prefix,
{
    match input {
        Input::SerialUp => lemma_serial_link(w, Seq::empty(), q),
        Input::SerialDown { error } => lemma_serial_link(w, error@, q),
        Input::SerialFrame(msg) => lemma_on_serial(w, msg, ts, q),
        Input::EncodeFailed { req_id, envelope } => lemma_on_encode_failed(w, req_id, envelope, q),
        Input::MqttUp => lemma_on_mqtt_up(w, q),
        Input::MqttDown { error } => lemma_broker_lost(w, error@, q),
        Input::MqttIn { topic, rpc, shell } => lemma_on_mqtt(w, topic@, rpc, shell, key, q),
        Input::Frontend(FrontendCmd::Rpc(req)) => lemma_on_rpc(w, req.deep_view(), key, q),
        Input::Frontend(FrontendCmd::Shell { node, req }) => lemma_on_shell_req(w, node, req, q),
        Input::Tick => lemma_on_tick(w, q),
    }
}

/// Nothing of a dialog is told or waits before the engine has started.
pub proof fn law_start_opens_no_dialog(w: World, q: Seq<char>)
    requires
        w.out.len() == 0,
        w.e.pending_mgmt.len() == 0,
        w.e.nodes.len() == 0,
    ensures
        dialogs(w, q) == 0,
        dialogs(on_start(w), q) <= 0,
{
    reveal(dialogs);
    let a = subscriptions(w);
    lemma_subscriptions(w, q);
    lemma_list_nodes(a, q);
    lemma_emit(list_nodes(a), on_start(w).out.last(), q);
}

/// How often the dialog `q` was opened in a run.
pub open spec fn count_opened(e: EngineV, inputs: Seq<Happening>, q: Seq<char>) -> int
    decreases inputs.len(),
{
    if inputs.len() == 0 {
        0
    } else {
        count_opened(e, inputs.drop_last(), q) + due(dialog_in(e, inputs.last().input), q)
    }
}

proof fn lemma_run(w: World, inputs: Seq<Happening>, q: Seq<char>)
    ensures
        dialogs(run(w, inputs), q) <= dialogs(w, q) + count_opened(w.e, inputs, q),
        run(w, inputs).e.prefix == w.e.prefix,
    decreases inputs.len(),
{
    if inputs.len() > 0 {
        let h = inputs.last();
        let before = run(w, inputs.drop_last());
        lemma_run(w, inputs.drop_last(), q);
        law_dialogs_end_once(before, h.input, h.ts, h.key, q);
        assert(dialog_in(before.e, h.input) == dialog_in(w.e, h.input));
    }
}

/// Over a whole run from the start of the engine, a dialog ends no more often than it was
/// opened.
pub proof fn law_no_more_ends_than_dialogs(w: World, inputs: Seq<Happening>, q: Seq<char>)
    requires
        w.out.len() == 0,
        w.e.pending_mgmt.len() == 0,
        w.e.nodes.len() == 0,
    ensures
        count_ends(run(on_start(w), inputs).out, q) <= count_opened(w.e, inputs, q),
{
    law_start_opens_no_dialog(w, q);
    let a = on_start(w);
    lemma_run(a, inputs, q);
    lemma_same_dialogs(w.e, a.e, inputs, q);
    let b = run(a, inputs);
    lemma_lines_bounds(b.e.pending_mgmt, q);
    lemma_nodes_bounds(b.e.nodes, q);
    reveal(dialogs);
}

proof fn lemma_same_dialogs(a: EngineV, b: EngineV, inputs: Seq<Happening>, q: Seq<char>)
    requires
        a.prefix == b.prefix,
    ensures
        count_opened(a, inputs, q) == count_opened(b, inputs, q),
    decreases inputs.len(),
{
    if inputs.len() > 0 {
        lemma_same_dialogs(a, b, inputs.drop_last(), q);
    }
}

proof fn lemma_lines_bounds(s: Seq<PendingMgmtV>, q: Seq<char>)
    ensures
        count_lines(s, q) >= 0,
    decreases s.len(),
{
    if s.len() > 0 {
        lemma_lines_bounds(s.drop_last(), q);
    }
}

proof fn lemma_nodes_bounds(s: Seq<NodeMirrorV>, q: Seq<char>)
    ensures
        count_nodes(s, q) >= 0,
    decreases s.len(),
{
    if s.len() > 0 {
        lemma_nodes_bounds(s.drop_last(), q);
        lemma_waits_bounds(s.last().pending, q);
    }
}

} // verus!

//! What holds of the gateway's registry mirror and of its remote-shell dialogs.

use crate::engine_laws::{
    follows, ids_ok, lemma_changed, lemma_clear, lemma_clear_gone, lemma_emit_registry,
    lemma_fail_queues, lemma_follows, lemma_link, lemma_list_nodes, lemma_plain_issue,
    lemma_publish_node, lemma_publish_nodes, lemma_publish_pairing, lemma_publish_pending,
    lemma_publish_stats, lemma_publish_status, lemma_publish_world, lemma_say, lemma_shell_error,
    lemma_shell_errors, lemma_subscriptions,
};
use crate::engine_model::{
    clear_gone, clear_topic, emit_registry, fail_queues, find_node, forget_node, has_addr, has_cmd,
    has_req, issue, key_of, list_nodes, listed_before, merge_registry, merged, merged_row, next_id, node_payload, now_pending,
    on_encode_failed, on_hello, on_mqtt_up, on_rpc, on_shell_chunk, on_shell_req, pending_entries, publish_node,
    publish_nodes, publish_pairing, publish_pending, publish_stats, publish_status, publish_world,
    rpc_respond, say, shell_errors, still_listed, subscriptions, with_pending, world, World,
};
use crate::engine_state::{
    EngineV, EventV, NodeMirrorV, OpKindV, OutputV, PendingShellV, ShellOriginV,
};
use crate::frame::NodeShellChunk;
use crate::mgmt::{next_index, MgmtOpV, NodeEntryV};
use crate::payload::{
    node_json, pending_json, RpcRequestV, RpcResponseV, ShellReq, ShellRspV,
};
use crate::text::{first_where, lemma_first_where, lemma_first_where_holds};
use crate::topics::{law_node_topics_belong_to_their_node, node_topic};
use vstd::prelude::*;

verus! {

// ---- outputs on the way ------------------------------------------------------------

/// `o` was put out on the way from `a` to `b`.
pub open spec fn added(a: World, b: World, o: OutputV) -> bool {
    exists|i: int| a.out.len() <= i < b.out.len() && #[trigger] b.out[i] == o
}

proof fn lemma_added_later(a: World, b: World, c: World, o: OutputV)
    requires
        follows(a, b),
        added(b, c, o),
    ensures
        added(a, c, o),
{
    let i = choose|i: int| b.out.len() <= i < c.out.len() && #[trigger] c.out[i] == o;
    assert(c.out[i] == o);
}

proof fn lemma_added_before(a: World, b: World, c: World, o: OutputV)
    requires
        added(a, b, o),
        follows(b, c),
    ensures
        added(a, c, o),
{
    let i = choose|i: int| a.out.len() <= i < b.out.len() && #[trigger] b.out[i] == o;
    assert(b.out =~= c.out.take(b.out.len() as int));
    assert(c.out[i] == o);
}

/// The last output of `b` was put out on the way.
proof fn lemma_added_last(a: World, b: World)
    requires
        b.out.len() > a.out.len(),
    ensures
        added(a, b, b.out.last()),
{
    assert(b.out[b.out.len() - 1] == b.out.last());
}

// ---- remote shell ------------------------------------------------------------------

/// The final error of a pending command.
pub open spec fn error_rsp(p: PendingShellV, error: Seq<char>) -> ShellRspV {
    ShellRspV {
        id: p.rpc,
        chunk: p.next_chunk,
        text: Seq::empty(),
        done: true,
        result: 1,
        truncated: p.truncated,
        error: Some(error),
    }
}

/// What a dialog is told of a command that failed.
pub open spec fn failed(node: u32, p: PendingShellV, error: Seq<char>) -> OutputV {
    OutputV::Event(EventV::Shell { node, rsp: error_rsp(p, error) })
}

proof fn lemma_each_is_told(
    w: World,
    node: u32,
    ps: Seq<PendingShellV>,
    error: Seq<char>,
    k: nat,
)
    requires
        ids_ok(w.e),
        k <= ps.len(),
    ensures
        forall|j: int|
            0 <= j < k ==> added(
                w,
                shell_errors(w, node, ps, error, k),
                failed(node, #[trigger] ps[j], error),
            ),
    decreases k,
{
    if k > 0 {
        let w1 = shell_errors(w, node, ps, error, (k - 1) as nat);
        let w2 = shell_errors(w, node, ps, error, k);
        lemma_each_is_told(w, node, ps, error, (k - 1) as nat);
        lemma_shell_errors(w, node, ps, error, (k - 1) as nat);
        lemma_shell_error(w1, node, ps[k - 1], error);
        assert forall|j: int| 0 <= j < k implies added(
            w,
            w2,
            failed(node, #[trigger] ps[j], error),
        ) by {
            if j < k - 1 {
                lemma_added_before(w, w1, w2, failed(node, ps[j], error));
            } else {
                lemma_added_last(w1, w2);
                assert(w2.out.last() == failed(node, ps[j], error));
                lemma_added_later(w, w1, w2, failed(node, ps[j], error));
            }
        }
    }
}

/// The first `k` queues are empty, and the rest is as it was.
pub open spec fn emptied(a: EngineV, b: EngineV, k: int) -> bool {
    &&& b.nodes.len() == a.nodes.len()
    &&& forall|i: int|
        0 <= i < a.nodes.len() ==> #[trigger] b.nodes[i] == if i < k {
            NodeMirrorV { pending: Seq::empty(), ..a.nodes[i] }
        } else {
            a.nodes[i]
        }
}

/// Every command that was pending in the first `k` queues of `a` failed on the way to `b`.
pub open spec fn all_failed(a: World, b: World, error: Seq<char>, k: int) -> bool {
    forall|i: int, j: int|
        0 <= i < k && 0 <= j < a.e.nodes[i].pending.len() ==> added(
            a,
            b,
            failed(a.e.nodes[i].entry.id, #[trigger] a.e.nodes[i].pending[j], error),
        )
}

proof fn lemma_queues_fail(w: World, k: nat)
    requires
        ids_ok(w.e),
        k <= w.e.nodes.len(),
    ensures
        emptied(w.e, fail_queues(w, k).e, k as int),
        all_failed(w, fail_queues(w, k), "gateway rebooted — command lost"@, k as int),
        fail_queues(w, k).e == (EngineV { nodes: fail_queues(w, k).e.nodes, ..w.e }),
    decreases k,
{
    if k > 0 {
        let error = "gateway rebooted — command lost"@;
        let w1 = fail_queues(w, (k - 1) as nat);
        lemma_queues_fail(w, (k - 1) as nat);
        lemma_fail_queues(w, (k - 1) as nat);
        let i = k - 1;
        assert(w1.e.nodes[i] == w.e.nodes[i]);
        let ps = w1.e.nodes[i].pending;
        let id = w1.e.nodes[i].entry.id;
        let w2 = with_pending(w1, i, Seq::empty());
        lemma_changed(w1, w2.e);
        let w3 = shell_errors(w2, id, ps, error, ps.len());
        lemma_shell_errors(w2, id, ps, error, ps.len());
        lemma_each_is_told(w2, id, ps, error, ps.len());
        let w4 = publish_pending(w3, i);
        lemma_publish_pending(w3, i);
        lemma_follows(w1, w2, w3);
        lemma_follows(w1, w3, w4);
        lemma_follows(w, w1, w2);
        assert forall|a: int, j: int|
            0 <= a < k && 0 <= j < w.e.nodes[a].pending.len() implies added(
            w,
            w4,
            failed(w.e.nodes[a].entry.id, #[trigger] w.e.nodes[a].pending[j], error),
        ) by {
            let o = failed(w.e.nodes[a].entry.id, w.e.nodes[a].pending[j], error);
            if a < k - 1 {
                assert(added(w, w1, o));
                lemma_added_before(w, w1, w4, o);
            } else {
                assert(w.e.nodes[a].pending[j] == ps[j]);
                assert(added(w2, w3, o));
                lemma_added_before(w2, w3, w4, o);
                lemma_added_later(w, w2, w4, o);
            }
        }
    }
}

/// A reboot of the gateway loses its queue, and nobody is left waiting: every command that
/// was pending fails, all queues of the mirror are empty, and description and registry are
/// asked for anew.
pub proof fn law_reboot_fails_all_pending(
    w: World,
    firmware_name: Seq<char>,
    firmware_version: Seq<char>,
    session_id: u32,
)
    requires
        ids_ok(w.e),
        w.e.hello_session is Some,
        w.e.hello_session != Some(session_id),
    ensures
        ({
            let b = on_hello(w, firmware_name, firmware_version, session_id);
            &&& emptied(w.e, b.e, w.e.nodes.len() as int)
            &&& all_failed(
                w,
                b,
                "gateway rebooted — command lost"@,
                w.e.nodes.len() as int,
            )
            &&& b.e.pending_mgmt.len() == w.e.pending_mgmt.len() + 2
            &&& b.e.pending_mgmt[w.e.pending_mgmt.len() as int].op is Describe
            &&& b.e.pending_mgmt[w.e.pending_mgmt.len() as int + 1].op is NodeList
            &&& b.e.hello_session == Some(session_id)
        }),
{
    reveal(on_hello);
    let error = "gateway rebooted — command lost"@;
    let n = w.e.nodes.len();
    let w1 = world(
        EngineV {
            hello_session: Some(session_id),
            firmware_version,
            describe: crate::mgmt::DeviceInfoV { firmware_name, ..w.e.describe },
            ..w.e
        },
        w.out,
    );
    lemma_changed(w, w1.e);
    let text = "gateway rebooted (session "@ + crate::text::dec(session_id as nat)
        + ") — resyncing; queued downlinks were lost"@;
    let a = say(w1, text);
    lemma_say(w1, text);
    lemma_follows(w, w1, a);
    let b = fail_queues(a, n);
    lemma_queues_fail(a, n);
    lemma_fail_queues(a, n);
    let c = issue(b, OpKindV::Describe, MgmtOpV::Describe, None);
    lemma_plain_issue(b, OpKindV::Describe, MgmtOpV::Describe, None);
    let d = list_nodes(c);
    lemma_list_nodes(c);
    lemma_follows(b, c, d);
    let e = publish_status(d);
    lemma_publish_status(d);
    lemma_follows(b, d, e);
    assert(b.e.pending_mgmt == w.e.pending_mgmt);
    assert forall|i: int, j: int|
        0 <= i < n && 0 <= j < w.e.nodes[i].pending.len() implies added(
        w,
        e,
        failed(w.e.nodes[i].entry.id, #[trigger] w.e.nodes[i].pending[j], error),
    ) by {
        let o = failed(w.e.nodes[i].entry.id, w.e.nodes[i].pending[j], error);
        assert(a.e.nodes[i].pending[j] == w.e.nodes[i].pending[j]);
        assert(added(a, b, o));
        lemma_added_before(a, b, e, o);
        lemma_added_later(w, a, e, o);
    }
    assert(emptied(a.e, b.e, n as int));
    assert(e.e.nodes == b.e.nodes);
}

/// A chunk that does not continue where the last one ended marks its dialog as truncated,
/// in what is passed on and for all that follows; the last chunk ends the dialog, any other
/// keeps it open.
pub proof fn law_chunks_of_a_dialog(w: World, src: u32, chunk: NodeShellChunk, i: int, k: int)
    requires
        ids_ok(w.e),
        find_node(w.e, src) == Some(i),
        first_where(w.e.nodes[i].pending, has_cmd(chunk.cmd_id)) == Some(k),
    ensures
        ({
            let b = on_shell_chunk(w, src, chunk);
            let p = w.e.nodes[i].pending[k];
            let gap = p.truncated || p.next_chunk != chunk.chunk;
            &&& added(
                w,
                b,
                OutputV::Event(
                    EventV::Shell {
                        node: src,
                        rsp: ShellRspV {
                            id: p.rpc,
                            chunk: chunk.chunk,
                            text: chunk.text@,
                            done: chunk.last,
                            result: chunk.result,
                            truncated: gap,
                            error: None,
                        },
                    },
                ),
            )
            &&& if chunk.last {
                b.e.nodes[i].pending == w.e.nodes[i].pending.remove(k)
            } else {
                &&& b.e.nodes[i].pending.len() == w.e.nodes[i].pending.len()
                &&& b.e.nodes[i].pending[k].truncated == gap
                &&& b.e.nodes[i].pending[k].next_chunk == next_index(chunk.chunk)
            }
        }),
{
    reveal(on_shell_chunk);
    lemma_first_where_holds(w.e.nodes, has_addr(src));
    lemma_first_where_holds(w.e.nodes[i].pending, has_cmd(chunk.cmd_id));
    let ps = w.e.nodes[i].pending;
    let p = PendingShellV {
        truncated: ps[k].truncated || ps[k].next_chunk != chunk.chunk,
        next_chunk: next_index(chunk.chunk),
        ..ps[k]
    };
    let w0 = with_pending(w, i, ps.update(k, p));
    let rsp = ShellRspV {
        id: p.rpc,
        chunk: chunk.chunk,
        text: chunk.text@,
        done: chunk.last,
        result: chunk.result,
        truncated: p.truncated,
        error: None,
    };
    let w1 = crate::engine_model::shell_reply(w0, src, rsp);
    lemma_added_last(w, w1);
    assert(ps.update(k, p).remove(k) =~= ps.remove(k));
    if chunk.last {
        let w2 = with_pending(w1, i, ps.update(k, p).remove(k));
        lemma_changed(w1, w2.e);
        lemma_publish_pending(w2, i);
        let w3 = publish_pending(w2, i);
        lemma_follows(w1, w2, w3);
        lemma_added_before(w, w1, w3, w1.out.last());
    }
}

/// A line for a node that is not registered, or one that is too long, is refused at once
/// and leaves the engine as it was; any other goes to the device under a command id of its
/// own.
pub proof fn law_lines_are_refused_or_sent(w: World, node: u32, req: ShellReq)
    requires
        ids_ok(w.e),
    ensures
        ({
            let b = on_shell_req(w, node, req);
            if find_node(w.e, node) is None || vstd::utf8::encode_utf8(req.line@).len()
                > w.e.wire.radio_shell_chunk {
                &&& b.e == w.e
                &&& exists|error: Seq<char>|
                    #[trigger] added(
                        w,
                        b,
                        OutputV::Event(
                            EventV::Shell {
                                node,
                                rsp: ShellRspV {
                                    id: req.id@,
                                    chunk: 0,
                                    text: Seq::empty(),
                                    done: true,
                                    result: 1,
                                    truncated: false,
                                    error: Some(error),
                                },
                            },
                        ),
                    )
            } else {
                &&& b.e.next_cmd != w.e.next_cmd && b.e.next_cmd != 0
                &&& b.out.last() == OutputV::SerialSend {
                    seq: w.e.seq,
                    req_id: w.e.next_req,
                    op: MgmtOpV::QueuePush {
                        node,
                        ttl_s: req.ttl_s,
                        cmd_id: w.e.next_cmd,
                        line: req.line@,
                    },
                }
            }
        }),
{
    let b = on_shell_req(w, node, req);
    if find_node(w.e, node) is None {
        lemma_added_last(w, b);
        assert(added(
            w,
            b,
            OutputV::Event(
                EventV::Shell {
                    node,
                    rsp: ShellRspV {
                        id: req.id@,
                        chunk: 0,
                        text: Seq::empty(),
                        done: true,
                        result: 1,
                        truncated: false,
                        error: Some("unknown node"@),
                    },
                },
            ),
        ));
    } else if vstd::utf8::encode_utf8(req.line@).len() > w.e.wire.radio_shell_chunk {
        lemma_added_last(w, b);
        let error = "line too long for the radio MTU (max "@ + crate::text::dec(
            w.e.wire.radio_shell_chunk as nat,
        ) + " bytes)"@;
        assert(added(
            w,
            b,
            OutputV::Event(
                EventV::Shell {
                    node,
                    rsp: ShellRspV {
                        id: req.id@,
                        chunk: 0,
                        text: Seq::empty(),
                        done: true,
                        result: 1,
                        truncated: false,
                        error: Some(error),
                    },
                },
            ),
        ));
    }
}

// ---- the registry ------------------------------------------------------------------

/// The retained message of a node.
pub open spec fn node_message(e: EngineV, i: int) -> OutputV {
    OutputV::Publish {
        topic: node_topic(e.prefix, e.nodes[i].entry.id, ""@),
        payload: vstd::utf8::encode_utf8(node_json(node_payload(e, e.nodes[i]))),
        retain: true,
    }
}

/// The retained message of a node's queue.
pub open spec fn queue_message(e: EngineV, i: int) -> OutputV {
    OutputV::Publish {
        topic: node_topic(e.prefix, e.nodes[i].entry.id, "/shell/pending"@),
        payload: vstd::utf8::encode_utf8(pending_json(pending_entries(e.nodes[i].pending))),
        retain: true,
    }
}

/// The message that clears a retained topic of a node.
pub open spec fn cleared(e: EngineV, id: u32, tail: Seq<char>) -> OutputV {
    OutputV::Publish {
        topic: node_topic(e.prefix, id, tail),
        payload: Seq::empty(),
        retain: true,
    }
}

proof fn lemma_world_published(w: World, k: nat)
    requires
        ids_ok(w.e),
        k <= w.e.nodes.len(),
    ensures
        forall|i: int|
            0 <= i < k ==> added(w, publish_world(w, k), #[trigger] node_message(w.e, i)),
        forall|i: int|
            0 <= i < k ==> added(w, publish_world(w, k), #[trigger] queue_message(w.e, i)),
    decreases k,
{
    if k > 0 {
        let w1 = publish_world(w, (k - 1) as nat);
        lemma_world_published(w, (k - 1) as nat);
        lemma_publish_world(w, (k - 1) as nat);
        let w2 = publish_node(w1, k - 1);
        lemma_publish_node(w1, k - 1);
        let w3 = publish_pending(w2, k - 1);
        lemma_publish_pending(w2, k - 1);
        lemma_follows(w, w1, w2);
        lemma_follows(w1, w2, w3);
        lemma_added_last(w1, w2);
        lemma_added_later(w, w1, w2, node_message(w.e, k - 1));
        lemma_added_before(w, w2, w3, node_message(w.e, k - 1));
        assert(w3.out[w2.out.len() as int] == queue_message(w.e, k - 1));
        lemma_added_later(w, w2, w3, queue_message(w.e, k - 1));
        assert forall|i: int| 0 <= i < k implies added(w, w3, #[trigger] node_message(w.e, i)) by {
            if i < k - 1 {
                assert(added(w, w1, node_message(w.e, i)));
                lemma_added_before(w, w1, w3, node_message(w.e, i));
            }
        }
        assert forall|i: int| 0 <= i < k implies added(w, w3, #[trigger] queue_message(w.e, i)) by {
            if i < k - 1 {
                assert(added(w, w1, queue_message(w.e, i)));
                lemma_added_before(w, w1, w3, queue_message(w.e, i));
            }
        }
    }
}

/// A broker that comes back, perhaps without its retained messages, is given all of them
/// again: every node and every queue.
pub proof fn law_reconnect_republishes_the_world(w: World)
    requires
        ids_ok(w.e),
    ensures
        ({
            let b = on_mqtt_up(w);
            &&& b.e == (EngineV { mqtt_up: true, ..w.e })
            &&& forall|i: int|
                0 <= i < w.e.nodes.len() ==> added(w, b, #[trigger] node_message(b.e, i))
            &&& forall|i: int|
                0 <= i < w.e.nodes.len() ==> added(w, b, #[trigger] queue_message(b.e, i))
        }),
{
    let a = world(EngineV { mqtt_up: true, ..w.e }, w.out);
    lemma_changed(w, a.e);
    let b = subscriptions(a);
    lemma_subscriptions(a);
    lemma_follows(w, a, b);
    let c = publish_status(b);
    lemma_publish_status(b);
    lemma_follows(w, b, c);
    let d = publish_stats(c);
    lemma_publish_stats(c);
    lemma_follows(w, c, d);
    let e = publish_pairing(d, None);
    lemma_publish_pairing(d, None);
    lemma_follows(w, d, e);
    let n = e.e.nodes.len();
    let f = publish_world(e, n);
    lemma_publish_world(e, n);
    lemma_world_published(e, n);
    let g = on_mqtt_up(w);
    lemma_link(f, w.e.serial_up, true);
    assert(e.e == a.e);
    assert forall|i: int| 0 <= i < n implies added(w, g, #[trigger] node_message(g.e, i)) by {
        assert(added(e, f, node_message(e.e, i)));
        lemma_added_before(e, f, g, node_message(e.e, i));
        lemma_added_later(w, e, g, node_message(e.e, i));
    }
    assert forall|i: int| 0 <= i < n implies added(w, g, #[trigger] queue_message(g.e, i)) by {
        assert(added(e, f, queue_message(e.e, i)));
        lemma_added_before(e, f, g, queue_message(e.e, i));
        lemma_added_later(w, e, g, queue_message(e.e, i));
    }
}

proof fn lemma_gone_cleared(w: World, fresh: Seq<NodeEntryV>, k: nat)
    requires
        ids_ok(w.e),
        k <= w.e.nodes.len(),
    ensures
        forall|i: int|
            0 <= i < k && !still_listed(fresh, (#[trigger] w.e.nodes[i]).entry.id) ==> added(
                w,
                clear_gone(w, fresh, k),
                cleared(w.e, w.e.nodes[i].entry.id, ""@),
            ),
    decreases k,
{
    if k > 0 {
        let w1 = clear_gone(w, fresh, (k - 1) as nat);
        let w2 = clear_gone(w, fresh, k);
        lemma_gone_cleared(w, fresh, (k - 1) as nat);
        lemma_clear_gone(w, fresh, (k - 1) as nat);
        let id = w.e.nodes[k - 1].entry.id;
        lemma_changed(w1, w1.e);
        if !still_listed(fresh, id) {
            lemma_clear(w1, id, ""@);
            lemma_added_last(w1, w2);
            lemma_added_later(w, w1, w2, cleared(w.e, id, ""@));
        }
        assert forall|i: int|
            0 <= i < k && !still_listed(fresh, (#[trigger] w.e.nodes[i]).entry.id) implies added(
            w,
            w2,
            cleared(w.e, w.e.nodes[i].entry.id, ""@),
        ) by {
            if i < k - 1 {
                lemma_added_before(w, w1, w2, cleared(w.e, w.e.nodes[i].entry.id, ""@));
            }
        }
    }
}

proof fn lemma_nodes_published(w: World, k: nat)
    requires
        ids_ok(w.e),
        k <= w.e.nodes.len(),
    ensures
        forall|i: int|
            0 <= i < k ==> added(w, publish_nodes(w, k), #[trigger] node_message(w.e, i)),
    decreases k,
{
    if k > 0 {
        let w1 = publish_nodes(w, (k - 1) as nat);
        let w2 = publish_nodes(w, k);
        lemma_nodes_published(w, (k - 1) as nat);
        lemma_publish_nodes(w, (k - 1) as nat);
        lemma_publish_node(w1, k - 1);
        lemma_added_last(w1, w2);
        lemma_added_later(w, w1, w2, node_message(w.e, k - 1));
        assert forall|i: int| 0 <= i < k implies added(w, w2, #[trigger] node_message(w.e, i)) by {
            if i < k - 1 {
                assert(added(w, w1, node_message(w.e, i)));
                lemma_added_before(w, w1, w2, node_message(w.e, i));
            }
        }
    }
}

/// A fresh listing of the registry replaces the mirror, row by row. What only the host
/// knows of a node (its kind, its session, its pending commands) survives; a node that is
/// not listed any more has its retained topic cleared; every listed node is published.
pub proof fn law_merge_keeps_and_clears(w: World, fresh: Seq<NodeEntryV>)
    requires
        ids_ok(w.e),
    ensures
        ({
            let b = merge_registry(w, fresh);
            &&& b.e == (EngineV { nodes: b.e.nodes, ..w.e })
            &&& b.e.nodes.len() == fresh.len()
            &&& forall|i: int| 0 <= i < fresh.len() ==> (#[trigger] b.e.nodes[i]).entry == fresh[i]
            &&& forall|i: int|
                0 <= i < fresh.len() ==> match find_node(w.e, fresh[i].id) {
                    Some(k) => {
                        &&& (#[trigger] b.e.nodes[i]).kind == w.e.nodes[k].kind
                        &&& b.e.nodes[i].session_id == w.e.nodes[k].session_id
                        &&& !listed_before(fresh, i) ==> b.e.nodes[i].pending
                            == w.e.nodes[k].pending
                    },
                    None => {
                        &&& b.e.nodes[i].kind.len() == 0
                        &&& b.e.nodes[i].session_id is None
                        &&& b.e.nodes[i].pending.len() == 0
                    },
                }
            &&& forall|i: int|
                0 <= i < w.e.nodes.len() && !still_listed(
                    fresh,
                    (#[trigger] w.e.nodes[i]).entry.id,
                ) ==> added(w, b, cleared(w.e, w.e.nodes[i].entry.id, ""@))
            &&& forall|i: int|
                0 <= i < fresh.len() ==> added(w, b, #[trigger] node_message(b.e, i))
        }),
{
    reveal(merge_registry);
    let n = w.e.nodes.len();
    let w1 = clear_gone(w, fresh, n);
    lemma_clear_gone(w, fresh, n);
    lemma_gone_cleared(w, fresh, n);
    let w2 = world(EngineV { nodes: merged(w.e.nodes, fresh), ..w1.e }, w1.out);
    lemma_changed(w1, w2.e);
    let m = w2.e.nodes.len();
    let w3 = publish_nodes(w2, m);
    lemma_publish_nodes(w2, m);
    lemma_nodes_published(w2, m);
    let w4 = emit_registry(w3);
    lemma_emit_registry(w3);
    lemma_follows(w, w1, w2);
    lemma_follows(w1, w2, w3);
    lemma_follows(w1, w3, w4);
    assert forall|i: int|
        0 <= i < n && !still_listed(fresh, (#[trigger] w.e.nodes[i]).entry.id) implies added(
        w,
        w4,
        cleared(w.e, w.e.nodes[i].entry.id, ""@),
    ) by {
        lemma_added_before(w, w1, w4, cleared(w.e, w.e.nodes[i].entry.id, ""@));
    }
    assert forall|i: int| 0 <= i < fresh.len() implies added(
        w,
        w4,
        #[trigger] node_message(w4.e, i),
    ) by {
        assert(added(w2, w3, node_message(w2.e, i)));
        lemma_added_before(w2, w3, w4, node_message(w2.e, i));
        lemma_added_later(w, w2, w4, node_message(w2.e, i));
    }
}

/// Taking over the same listing a second time changes nothing in the mirror.
pub proof fn law_merge_is_stable(w: World, fresh: Seq<NodeEntryV>)
    requires
        ids_ok(w.e),
    ensures
        merge_registry(merge_registry(w, fresh), fresh).e == merge_registry(w, fresh).e,
{
    let b = merge_registry(w, fresh);
    let c = merge_registry(b, fresh);
    law_merge_keeps_and_clears(w, fresh);
    lemma_merge_nodes(w, fresh);
    lemma_merge_nodes(b, fresh);
    law_merge_keeps_and_clears(b, fresh);
    assert forall|i: int| 0 <= i < fresh.len() implies merged_row(b.e.nodes, fresh, i)
        == #[trigger] b.e.nodes[i] by {
        lemma_stable_row(w.e.nodes, fresh, i);
    }
    assert(c.e.nodes =~= b.e.nodes);
}

proof fn lemma_merge_nodes(w: World, fresh: Seq<NodeEntryV>)
    requires
        ids_ok(w.e),
    ensures
        merge_registry(w, fresh).e == (EngineV { nodes: merged(w.e.nodes, fresh), ..w.e }),
{
    reveal(merge_registry);
    let w1 = clear_gone(w, fresh, w.e.nodes.len());
    lemma_clear_gone(w, fresh, w.e.nodes.len());
    let w2 = world(EngineV { nodes: merged(w.e.nodes, fresh), ..w1.e }, w1.out);
    lemma_changed(w1, w2.e);
    lemma_publish_nodes(w2, w2.e.nodes.len());
}

/// A row that was merged stays as it is when its listing is merged into the rows again.
proof fn lemma_stable_row(olds: Seq<NodeMirrorV>, fresh: Seq<NodeEntryV>, i: int)
    requires
        0 <= i < fresh.len(),
    ensures
        merged_row(merged(olds, fresh), fresh, i) == merged_row(olds, fresh, i),
{
    let rows = merged(olds, fresh);
    let p = has_addr(fresh[i].id);
    lemma_first_where_holds(rows, p);
    assert(rows[i].entry == fresh[i]);
    assert(p(rows[i]));
    let k = first_where(rows, p)->0;
    assert(rows[k].entry == fresh[k]);
    if !listed_before(fresh, i) {
        assert(k >= i) by {
            if k < i {
                assert(fresh[k].id == fresh[i].id);
            }
        }
    }
}

/// The retained message of a node is not empty: it never clears the topic.
proof fn lemma_message_says_something(e: EngineV, i: int)
    ensures
        node_message(e, i) matches OutputV::Publish { topic: _, payload, retain: _ } && payload.len()
            > 0,
{
    reveal(node_json);
    reveal_strlit("{\"id\":");
    let text = node_json(node_payload(e, e.nodes[i]));
    assert(text.len() > 0);
}

/// The output clears a retained topic.
pub open spec fn clears(o: OutputV) -> bool {
    match o {
        OutputV::Publish { topic: _, payload, retain } => payload.len() == 0 && retain,
        _ => false,
    }
}

/// The retained topic of one of the first `k` nodes, which is not listed any more, is
/// cleared by `o`.
pub open spec fn clears_gone(e: EngineV, fresh: Seq<NodeEntryV>, k: nat, o: OutputV) -> bool {
    exists|i: int|
        0 <= i < k && !still_listed(fresh, (#[trigger] e.nodes[i]).entry.id) && o == cleared(
            e,
            e.nodes[i].entry.id,
            ""@,
        )
}

proof fn lemma_clear_gone_clears(w: World, fresh: Seq<NodeEntryV>, k: nat)
    requires
        ids_ok(w.e),
        k <= w.e.nodes.len(),
    ensures
        forall|j: int|
            w.out.len() <= j < clear_gone(w, fresh, k).out.len() ==> clears_gone(
                w.e,
                fresh,
                k,
                #[trigger] clear_gone(w, fresh, k).out[j],
            ),
    decreases k,
{
    if k > 0 {
        let w1 = clear_gone(w, fresh, (k - 1) as nat);
        let w2 = clear_gone(w, fresh, k);
        lemma_clear_gone_clears(w, fresh, (k - 1) as nat);
        lemma_clear_gone(w, fresh, (k - 1) as nat);
        let id = w.e.nodes[k - 1].entry.id;
        assert forall|j: int| w.out.len() <= j < w2.out.len() implies clears_gone(
            w.e,
            fresh,
            k,
            #[trigger] w2.out[j],
        ) by {
            if j < w1.out.len() {
                assert(w2.out[j] == w1.out[j]);
                assert(clears_gone(w.e, fresh, (k - 1) as nat, w1.out[j]));
            } else {
                assert(w2.out[j] == cleared(w.e, id, ""@));
            }
        }
    }
}

proof fn lemma_publish_clears_nothing(w: World, k: nat)
    requires
        ids_ok(w.e),
        k <= w.e.nodes.len(),
    ensures
        forall|j: int|
            w.out.len() <= j < publish_nodes(w, k).out.len() ==> !clears(
                #[trigger] publish_nodes(w, k).out[j],
            ),
    decreases k,
{
    if k > 0 {
        let w1 = publish_nodes(w, (k - 1) as nat);
        let w2 = publish_nodes(w, k);
        lemma_publish_clears_nothing(w, (k - 1) as nat);
        lemma_publish_nodes(w, (k - 1) as nat);
        lemma_message_says_something(w.e, k - 1);
        assert forall|j: int| w.out.len() <= j < w2.out.len() implies !clears(
            #[trigger] w2.out[j],
        ) by {
            if j < w1.out.len() {
                assert(w2.out[j] == w1.out[j]);
            } else {
                assert(w2.out[j] == node_message(w.e, k - 1));
            }
        }
    }
}

/// A listing clears exactly the nodes that it misses: every retained topic that is cleared
/// is that of a node that was there and is not listed, and each of those is cleared. A
/// listed node has a retained message that says something.
pub proof fn law_only_vanished_nodes_are_cleared(w: World, fresh: Seq<NodeEntryV>)
    requires
        ids_ok(w.e),
    ensures
        ({
            let b = merge_registry(w, fresh);
            &&& forall|id: u32|
                #[trigger] added(w, b, cleared(w.e, id, ""@)) <==> find_node(w.e, id) is Some
                    && !still_listed(fresh, id)
            &&& forall|j: int|
                w.out.len() <= j < b.out.len() && clears(#[trigger] b.out[j]) ==> clears_gone(
                    w.e,
                    fresh,
                    w.e.nodes.len(),
                    b.out[j],
                )
            &&& forall|i: int|
                0 <= i < fresh.len() ==> !clears(#[trigger] node_message(b.e, i))
        }),
{
    let n = w.e.nodes.len();
    let b = merge_registry(w, fresh);
    law_merge_keeps_and_clears(w, fresh);
    assert forall|i: int| 0 <= i < fresh.len() implies !clears(
        #[trigger] node_message(b.e, i),
    ) by {
        lemma_message_says_something(b.e, i);
    }
    lemma_cleared_on_merge(w, fresh);
    assert forall|id: u32| #[trigger] added(w, b, cleared(w.e, id, ""@)) implies find_node(w.e, id)
        is Some && !still_listed(fresh, id) by {
        let j = choose|j: int|
            w.out.len() <= j < b.out.len() && #[trigger] b.out[j] == cleared(w.e, id, ""@);
        assert(clears(b.out[j]));
        assert(clears_gone(w.e, fresh, n, b.out[j]));
        let i = choose|i: int|
            0 <= i < n && !still_listed(fresh, (#[trigger] w.e.nodes[i]).entry.id) && b.out[j]
                == cleared(w.e, w.e.nodes[i].entry.id, ""@);
        reveal_strlit("");
        law_node_topics_belong_to_their_node(w.e.prefix, id, ""@);
        law_node_topics_belong_to_their_node(w.e.prefix, w.e.nodes[i].entry.id, ""@);
        assert(w.e.nodes[i].entry.id == id);
        lemma_first_where_holds(w.e.nodes, has_addr(id));
        assert(has_addr(id)(w.e.nodes[i]));
    }
    assert forall|id: u32| find_node(w.e, id) is Some && !still_listed(fresh, id) implies
        #[trigger] added(w, b, cleared(w.e, id, ""@)) by {
        lemma_first_where_holds(w.e.nodes, has_addr(id));
        let i = find_node(w.e, id)->0;
        assert(w.e.nodes[i].entry.id == id);
    }
}

proof fn lemma_cleared_on_merge(w: World, fresh: Seq<NodeEntryV>)
    requires
        ids_ok(w.e),
    ensures
        ({
            let b = merge_registry(w, fresh);
            forall|j: int|
                w.out.len() <= j < b.out.len() && clears(#[trigger] b.out[j]) ==> clears_gone(
                    w.e,
                    fresh,
                    w.e.nodes.len(),
                    b.out[j],
                )
        }),
{
    reveal(merge_registry);
    let n = w.e.nodes.len();
    let w1 = clear_gone(w, fresh, n);
    lemma_clear_gone(w, fresh, n);
    lemma_clear_gone_clears(w, fresh, n);
    let w2 = world(EngineV { nodes: merged(w.e.nodes, fresh), ..w1.e }, w1.out);
    lemma_changed(w1, w2.e);
    let m = w2.e.nodes.len();
    let w3 = publish_nodes(w2, m);
    lemma_publish_nodes(w2, m);
    lemma_publish_clears_nothing(w2, m);
    let b = merge_registry(w, fresh);
    assert forall|j: int|
        w.out.len() <= j < b.out.len() && clears(#[trigger] b.out[j]) implies clears_gone(
        w.e,
        fresh,
        n,
        b.out[j],
    ) by {
        if j < w1.out.len() {
            assert(b.out[j] == w3.out[j] && w3.out[j] == w1.out[j]);
        } else if j < w3.out.len() {
            assert(b.out[j] == w3.out[j]);
        }
    }
}

/// A line whose radio envelope cannot be encoded was never sent: but for the command id
/// that it used up, the engine is as it was before.
pub proof fn law_unsendable_lines_leave_no_request(w: World, node: u32, req: ShellReq)
    requires
        ids_ok(w.e),
        find_node(w.e, node) is Some,
        vstd::utf8::encode_utf8(req.line@).len() <= w.e.wire.radio_shell_chunk,
        first_where(w.e.pending_mgmt, has_req(w.e.next_req)) is None,
    ensures
        ({
            let b = on_encode_failed(on_shell_req(w, node, req), w.e.next_req, true);
            &&& b.e == (EngineV { next_cmd: next_id(w.e.next_cmd), ..w.e })
            &&& added(
                w,
                b,
                OutputV::Event(
                    EventV::Shell {
                        node,
                        rsp: ShellRspV {
                            id: req.id@,
                            chunk: 0,
                            text: Seq::empty(),
                            done: true,
                            result: 1,
                            truncated: false,
                            error: Some("envelope encode failed"@),
                        },
                    },
                ),
            )
        }),
{
    let w1 = on_shell_req(w, node, req);
    let k = w.e.pending_mgmt.len();
    let p = has_req(w.e.next_req);
    lemma_first_where_holds(w.e.pending_mgmt, p);
    assert forall|j: int| 0 <= j < k implies !p(#[trigger] w1.e.pending_mgmt[j]) by {
        assert(w1.e.pending_mgmt[j] == w.e.pending_mgmt[j]);
    }
    lemma_first_where(w1.e.pending_mgmt, p, k as int);
    assert(w1.e.pending_mgmt.remove(k as int) =~= w.e.pending_mgmt);
    let b = on_encode_failed(w1, w.e.next_req, true);
    lemma_added_last(w, b);
}

/// A node that was removed leaves nothing behind: its retained topics are cleared, its
/// pending commands fail, and its row is gone.
pub proof fn law_removed_nodes_leave_nothing(w: World, id: u32, i: int)
    requires
        ids_ok(w.e),
        find_node(w.e, id) == Some(i),
    ensures
        ({
            let b = forget_node(w, id);
            &&& b.e == (EngineV { nodes: w.e.nodes.remove(i), ..w.e })
            &&& added(w, b, cleared(w.e, id, ""@))
            &&& added(w, b, cleared(w.e, id, "/measure/temperature"@))
            &&& added(w, b, cleared(w.e, id, "/shell/pending"@))
            &&& forall|j: int|
                0 <= j < w.e.nodes[i].pending.len() ==> added(
                    w,
                    b,
                    failed(id, #[trigger] w.e.nodes[i].pending[j], "node removed"@),
                )
        }),
{
    reveal(forget_node);
    let ps = w.e.nodes[i].pending;
    let a = shell_errors(w, id, ps, "node removed"@, ps.len());
    lemma_shell_errors(w, id, ps, "node removed"@, ps.len());
    lemma_each_is_told(w, id, ps, "node removed"@, ps.len());
    let w1 = world(EngineV { nodes: a.e.nodes.remove(i), ..a.e }, a.out);
    lemma_changed(a, w1.e);
    lemma_follows(w, a, w1);
    let w2 = clear_topic(w1, node_topic(w.e.prefix, id, ""@));
    lemma_clear(w1, id, ""@);
    lemma_follows(w, w1, w2);
    let w3 = clear_topic(w2, node_topic(w.e.prefix, id, "/measure/temperature"@));
    lemma_clear(w2, id, "/measure/temperature"@);
    lemma_follows(w, w2, w3);
    let w4 = clear_topic(w3, node_topic(w.e.prefix, id, "/shell/pending"@));
    lemma_clear(w3, id, "/shell/pending"@);
    let b = emit_registry(w4);
    lemma_emit_registry(w4);
    lemma_follows(w3, w4, b);
    lemma_follows(w2, w3, b);
    lemma_follows(w1, w2, b);
    lemma_follows(a, w1, b);
    lemma_added_last(w1, w2);
    lemma_added_later(w, w1, w2, cleared(w.e, id, ""@));
    lemma_added_before(w, w2, b, cleared(w.e, id, ""@));
    lemma_added_last(w2, w3);
    lemma_added_later(w, w2, w3, cleared(w.e, id, "/measure/temperature"@));
    lemma_added_before(w, w3, b, cleared(w.e, id, "/measure/temperature"@));
    lemma_added_last(w3, w4);
    lemma_follows(w, w2, w3);
    lemma_added_later(w, w3, w4, cleared(w.e, id, "/shell/pending"@));
    lemma_added_before(w, w4, b, cleared(w.e, id, "/shell/pending"@));
    assert forall|j: int| 0 <= j < ps.len() implies added(
        w,
        b,
        failed(id, #[trigger] w.e.nodes[i].pending[j], "node removed"@),
    ) by {
        assert(w.e.nodes[i].pending[j] == ps[j]);
        lemma_added_before(w, a, b, failed(id, ps[j], "node removed"@));
    }
}

// ---- routing and keys --------------------------------------------------------------

/// The responses of the frontend in this process never reach the broker, and those of the
/// clients reach it alone, on the topic of their request.
pub proof fn law_responses_are_routed(w: World, rsp: RpcResponseV)
    ensures
        rpc_respond(w, rsp).out.len() == w.out.len() + 1,
        "tui-"@.is_prefix_of(rsp.id) ==> rpc_respond(w, rsp).out.last() == OutputV::Event(
            EventV::Rpc(rsp),
        ),
        !"tui-"@.is_prefix_of(rsp.id) ==> rpc_respond(w, rsp).out.last() == (OutputV::Publish {
            topic: w.e.prefix + "gateway/rsp/"@ + rsp.id,
            payload: vstd::utf8::encode_utf8(crate::payload::rpc_response_json(rsp)),
            retain: false,
        }),
{
}

/// `gateway/status` tells the truth about the serial link whenever that changes.
pub proof fn law_link_changes_are_published(w: World, error: String, ts: u64, key: Option<Seq<u8>>)
    requires
        ids_ok(w.e),
    ensures
        ({
            let up = crate::engine_model::step(w, crate::engine_state::Input::SerialUp, ts, key);
            let down = crate::engine_model::step(
                w,
                crate::engine_state::Input::SerialDown { error },
                ts,
                key,
            );
            &&& up.e.serial_up && up.out[w.out.len() as int] == status_message(up.e)
            &&& !down.e.serial_up && down.out[w.out.len() as int] == status_message(down.e)
        }),
{
}

/// The retained status of the gateway.
pub open spec fn status_message(e: EngineV) -> OutputV {
    publish_status(world(e, Seq::empty())).out[0]
}

proof fn lemma_hex_bytes_at(k: Seq<u8>, i: int)
    requires
        0 <= i < k.len(),
    ensures
        crate::text::hex_bytes(k).len() == 2 * k.len(),
        crate::text::hex_bytes(k)[2 * i] == crate::text::digit_char(k[i] as int / 16),
        crate::text::hex_bytes(k)[2 * i + 1] == crate::text::digit_char(k[i] as int % 16),
    decreases k.len(),
{
    let last = k.last() as nat;
    let front = k.drop_last();
    reveal_with_fuel(crate::text::hex, 3);
    assert(crate::text::hex(last, 2).len() == 2);
    assert(crate::text::hex(last, 2)[0] == crate::text::digit_char(last as int / 16));
    assert(crate::text::hex(last, 2)[1] == crate::text::digit_char(last as int % 16));
    assert(crate::text::hex_bytes(k) == crate::text::hex_bytes(front) + crate::text::hex(last, 2));
    if k.len() > 1 {
        lemma_hex_bytes_at(front, 0);
        if i < k.len() - 1 {
            lemma_hex_bytes_at(front, i);
        }
    } else {
        assert(crate::text::hex_bytes(front).len() == 0);
    }
}

/// A key that is written in hexadecimal reads back as itself.
pub proof fn law_key_round_trip(k: Seq<u8>)
    requires
        k.len() == 16,
    ensures
        key_of(crate::text::hex_bytes(k)) == Some(k),
{
    let s = crate::text::hex_bytes(k);
    lemma_hex_bytes_at(k, 0);
    assert forall|i: int| 0 <= i < 32 implies crate::text::digit_value(#[trigger] s[i]) is Some by {
        lemma_hex_bytes_at(k, i / 2);
        let d = k[i / 2] as int;
        crate::text::lemma_digit_value(d / 16);
        crate::text::lemma_digit_value(d % 16);
        assert(i == 2 * (i / 2) || i == 2 * (i / 2) + 1);
    }
    assert forall|i: int| 0 <= i < 16 implies crate::engine_model::key_byte(s, i) == k[i] by {
        lemma_hex_bytes_at(k, i);
        crate::text::lemma_digit_value(k[i] as int / 16);
        crate::text::lemma_digit_value(k[i] as int % 16);
    }
    assert(key_of(s)->0 =~= k);
}

// ---- clients and engine ------------------------------------------------------------

/// A line that the device has queued is correlated with the request that it came from: the
/// node's answer to its command id goes to that request.
pub proof fn law_dialogs_are_correlated(w: World, node: u32, i: int, o: ShellOriginV, item: u16)
    requires
        find_node(w.e, node) == Some(i),
        forall|j: int|
            0 <= j < w.e.nodes[i].pending.len() ==> (#[trigger] w.e.nodes[i].pending[j]).cmd_id
                != o.cmd_id,
    ensures
        ({
            let b = now_pending(w, node, Some(o), item);
            let n = w.e.nodes[i].pending.len() as int;
            &&& find_node(b.e, node) == Some(i)
            &&& first_where(b.e.nodes[i].pending, has_cmd(o.cmd_id)) == Some(n)
            &&& b.e.nodes[i].pending[n].rpc == o.rpc
            &&& b.e.nodes[i].pending[n].next_chunk == 0 && !b.e.nodes[i].pending[n].truncated
        }),
{
    reveal(now_pending);
    lemma_first_where_holds(w.e.nodes, has_addr(node));
    let b = now_pending(w, node, Some(o), item);
    let ps = b.e.nodes[i].pending;
    let n = w.e.nodes[i].pending.len() as int;
    assert forall|j: int| 0 <= j < n implies !has_cmd(o.cmd_id)(#[trigger] ps[j]) by {
        assert(ps[j] == w.e.nodes[i].pending[j]);
    }
    lemma_first_where(ps, has_cmd(o.cmd_id), n);
    assert forall|j: int| 0 <= j < i implies !has_addr(node)(#[trigger] b.e.nodes[j]) by {
        assert(b.e.nodes[j] == w.e.nodes[j]);
    }
    lemma_first_where(b.e.nodes, has_addr(node), i);
}

/// What the cable pairing sends to register a node, the engine understands: the device is
/// given that address and that key.
pub proof fn law_registrations_are_understood(
    w: World,
    id: Seq<char>,
    node: u32,
    key: Seq<u8>,
    name: Seq<char>,
    unused: Option<Seq<u8>>,
)
    requires
        key.len() == 16,
    ensures
        ({
            let req = RpcRequestV {
                id,
                op: "node_add"@,
                params: crate::cable::registration(node, key, name),
            };
            let b = on_rpc(w, req, unused);
            &&& b.e.pending_mgmt.last().op == (OpKindV::NodeAdd { id: node, name })
            &&& b.e.pending_mgmt.last().rpc == Some(id)
            &&& match b.out.last() {
                OutputV::SerialSend { op: MgmtOpV::NodeAdd { id: a, key: k, name: n, .. }, .. } => a
                    == node && k == key && n == name,
                _ => false,
            }
        }),
{
    reveal(on_rpc);
    law_key_round_trip(key);
    crate::topics::law_addr_round_trip(node);
    reveal_strlit("node_add");
    reveal_strlit("describe");
    reveal_strlit("node_list");
    assert("node_add"@[5] == 'a');
    assert("node_list"@[5] == 'l');
    assert("describe"@[0] == 'd');
}

/// A client's request is answered where the client listens: the engine's response goes to
/// the topic that the call waits on, and ends the wait.
pub proof fn law_clients_hear_the_engine(
    w: World,
    rsp: RpcResponseV,
    topic: String,
    answer: crate::client::Answer,
    call_topic: Seq<char>,
)
    requires
        crate::client::is_uuid(rsp.id),
        call_topic == w.e.prefix + "gateway/rsp/"@ + rsp.id,
        match rpc_respond(w, rsp).out.last() {
            OutputV::Publish { topic: t, .. } => topic@ == t,
            _ => true,
        },
        answer.id@ == rsp.id,
    ensures
        rpc_respond(w, rsp).out.last() is Publish,
        crate::client::rpc_step(
            rsp.id,
            call_topic,
            crate::client::RpcEvent::Message { topic, answer: Some(answer) },
            crate::client::RpcStep::Done(answer),
        ),
{
    crate::client::law_client_ids_are_not_the_frontends(rsp.id);
}

} // verus!

//! What the gateway's engine does with time, with its links and with the registry, said of
//! what it publishes.

use crate::engine_dispatch_laws::alike;
use crate::engine_model::{
    clear_gone, fail_queues, has_addr, has_req, key_of, merge_registry, merged, mgmt_timeouts,
    name_taken, node_payload, node_timeouts, node_views, nodes_timeouts, numbered, on_encode_failed,
    on_hello, on_mgmt_chunk, on_mqtt_up, on_radio_stat, on_serial, on_tick, on_uplink,
    pending_entries, publish_node, publish_nodes, publish_pairing, publish_pending, publish_stats,
    publish_status, publish_world, rpc_err, rpc_ok, shell_errors, shell_fail, shell_timeouts,
    sleeping_flags, smallest_free, stats_period, window, World,
};
use crate::engine_reply_laws::{answered_with, refused_with};
use crate::engine_state::{
    EngineV, EventV, NodeMirrorV, OpKindV, OutputV, PendingShellV, SerialMsg,
};
use crate::engine_uplink_laws::{logs, publishes};
use crate::mgmt::NodeEntryV;
use crate::payload::{node_json, pending_json, shell_rsp_json, RpcDataV, RpcParamsV, ShellRspV};
use crate::text::{dec, digit_value, hex_value, lemma_first_where};
use crate::topics::addr_text;
use vstd::prelude::*;
use vstd::utf8::encode_utf8;

verus! {

/// Who asked is answered or refused, if anybody did.
pub proof fn law_who_asked_is_told(
    w: World,
    rpc: Option<Seq<char>>,
    data: RpcDataV,
    error: Seq<char>,
)
    ensures
        alike(rpc_ok(w, rpc, data), answered_with(w, rpc, data)),
        alike(rpc_err(w, rpc, error), refused_with(w, rpc, error)),
{
}

/// With every tick what is late is given up, the requests before the lines; an open pairing
/// window is told with every tick, and the numbers with every tenth.
pub proof fn law_ticks(w: World)
    requires
        w.e.tick < u64::MAX,
    ensures
        ({
            let a = World { e: EngineV { tick: (w.e.tick + 1) as u64, ..w.e }, out: w.out };
            let b = mgmt_timeouts(a, w.e.pending_mgmt.len());
            let c = nodes_timeouts(b, b.e.nodes.len());
            let d = if c.e.pairing_until is Some {
                publish_pairing(c, None)
            } else {
                c
            };
            &&& d.e.tick % 10 == 0 ==> alike(on_tick(w), publish_stats(d))
            &&& d.e.tick % 10 != 0 ==> alike(on_tick(w), d)
        }),
{
}

/// The late lines of every node are given up, and where there were some, what still waits is
/// told.
pub proof fn law_nodes_are_looked_through(w: World, k: nat, i: int)
    ensures
        alike(nodes_timeouts(w, 0), w),
        alike(nodes_timeouts(w, k + 1), node_timeouts(nodes_timeouts(w, k), k as int)),
        ({
            let n = w.e.nodes[i].pending.len();
            let a = shell_timeouts(w, i, n);
            &&& a.e.nodes[i].pending.len() == n ==> alike(node_timeouts(w, i), a)
            &&& a.e.nodes[i].pending.len() != n ==> alike(node_timeouts(w, i), publish_pending(a, i))
        }),
{
}

/// What the device sends goes to its part of the engine; what it logs and what it lost are
/// logged.
pub proof fn law_messages_of_the_device(
    w: World,
    msg: SerialMsg,
    ts: u64,
)
    ensures
        msg matches SerialMsg::Hello { firmware_name, firmware_version, session_id } ==> alike(
            on_serial(w, msg, ts),
            on_hello(w, firmware_name@, firmware_version@, session_id),
        ),
        msg matches SerialMsg::Log { line } ==> logs(w, on_serial(w, msg, ts), line@),
        msg matches SerialMsg::Uplink(u) ==> alike(on_serial(w, msg, ts), on_uplink(w, u, ts)),
        msg matches SerialMsg::Mgmt { req_id, result, chunk, last, data } ==> alike(
            on_serial(w, msg, ts),
            on_mgmt_chunk(w, req_id, result, chunk, last, data@),
        ),
        msg matches SerialMsg::Stat(s) ==> alike(on_serial(w, msg, ts), on_radio_stat(w, s, ts)),
        msg matches SerialMsg::Dropped(count) ==> logs(
            w,
            on_serial(w, msg, ts),
            "gateway console dropped "@ + dec(count as nat) + " frame(s) (link congestion)"@,
        ),
{
}

/// Once the broker is there, the gateway subscribes to its requests, publishes its status,
/// its numbers and the pairing window, then each node and what waits for it, and tells that
/// the link is up.
pub proof fn law_the_broker_is_there(w: World)
    ensures
        ({
            let a = World {
                e: EngineV { mqtt_up: true, ..w.e },
                out: w.out.push(OutputV::Subscribe(w.e.prefix + "gateway/cmd"@)).push(
                    OutputV::Subscribe(w.e.prefix + "nodes/+/shell/req"@),
                ),
            };
            let b = publish_pairing(publish_stats(publish_status(a)), None);
            let c = publish_world(b, b.e.nodes.len());
            alike(
                on_mqtt_up(w),
                World {
                    e: c.e,
                    out: c.out.push(
                        OutputV::Event(EventV::Link { serial_up: w.e.serial_up, mqtt_up: true }),
                    ),
                },
            )
        }),
{
}

/// A node is published on its topic, what waits for it on a topic below; both are kept.
pub proof fn law_nodes_are_published(w: World, i: int)
    requires
        0 <= i < w.e.nodes.len(),
    ensures
        publishes(
            w,
            publish_node(w, i),
            w.e.prefix + "nodes/"@ + addr_text(w.e.nodes[i].entry.id) + ""@,
            node_json(node_payload(w.e, w.e.nodes[i])),
            true,
        ),
        ({
            let b = publish_pending(w, i);
            &&& b.e == w.e
            &&& b.out == w.out.push(
                OutputV::Publish {
                    topic: w.e.prefix + "nodes/"@ + addr_text(w.e.nodes[i].entry.id)
                        + "/shell/pending"@,
                    payload: encode_utf8(pending_json(pending_entries(w.e.nodes[i].pending))),
                    retain: true,
                },
            ).push(OutputV::Event(EventV::Registry(node_views(w.e))))
        }),
{
}

/// Every node is published, one behind the other.
pub proof fn law_all_nodes_are_published(w: World, k: nat)
    ensures
        alike(publish_nodes(w, 0), w),
        alike(publish_nodes(w, k + 1), publish_node(publish_nodes(w, k), k as int)),
        alike(publish_world(w, 0), w),
        alike(
            publish_world(w, k + 1),
            publish_pending(publish_node(publish_world(w, k), k as int), k as int),
        ),
{
}

/// A fresh list of nodes is taken over as it is; of a node that was there before the kind,
/// the session and the lines that wait for it are kept; a new one has none.
pub proof fn law_lists_are_taken_over(
    olds: Seq<NodeMirrorV>,
    fresh: Seq<NodeEntryV>,
    i: int,
    k: int,
)
    requires
        0 <= i < fresh.len(),
        0 <= k <= olds.len(),
        forall|j: int| 0 <= j < k ==> (#[trigger] olds[j]).entry.id != fresh[i].id,
        k < olds.len() ==> olds[k].entry.id == fresh[i].id,
        forall|j: int| 0 <= j < i ==> (#[trigger] fresh[j]).id != fresh[i].id,
    ensures
        merged(olds, fresh).len() == fresh.len(),
        k < olds.len() ==> merged(olds, fresh)[i] == (NodeMirrorV {
            entry: fresh[i],
            kind: olds[k].kind,
            session_id: olds[k].session_id,
            pending: olds[k].pending,
        }),
        k == olds.len() ==> merged(olds, fresh)[i] == (NodeMirrorV {
            entry: fresh[i],
            kind: Seq::empty(),
            session_id: None,
            pending: Seq::empty(),
        }),
{
    lemma_first_where(olds, has_addr(fresh[i].id), k);
}

/// The topic of a node that is gone is cleared, and no other.
pub proof fn law_gone_nodes_are_cleared(w: World, fresh: Seq<NodeEntryV>, k: nat, j: int)
    requires
        k < w.e.nodes.len(),
    ensures
        ({
            let id = w.e.nodes[k as int].entry.id;
            let a = clear_gone(w, fresh, k);
            &&& alike(clear_gone(w, fresh, 0), w)
            &&& 0 <= j < fresh.len() && fresh[j].id == id ==> alike(
                clear_gone(w, fresh, k + 1),
                a,
            )
            &&& (forall|i: int| 0 <= i < fresh.len() ==> (#[trigger] fresh[i]).id != id) ==> alike(
                clear_gone(w, fresh, k + 1),
                World {
                    e: a.e,
                    out: a.out.push(
                        OutputV::Publish {
                            topic: a.e.prefix + "nodes/"@ + addr_text(id) + ""@,
                            payload: Seq::empty(),
                            retain: true,
                        },
                    ),
                },
            )
        }),
{
}

/// A fresh list clears the nodes that are gone, takes over the others, publishes them all and
/// tells the frontend.
pub proof fn law_the_registry_is_renewed(w: World, fresh: Seq<NodeEntryV>)
    ensures
        ({
            let a = clear_gone(w, fresh, w.e.nodes.len());
            let b = World { e: EngineV { nodes: merged(w.e.nodes, fresh), ..a.e }, out: a.out };
            let c = publish_nodes(b, fresh.len());
            alike(
                merge_registry(w, fresh),
                World { e: c.e, out: c.out.push(OutputV::Event(EventV::Registry(node_views(c.e)))) },
            )
        }),
{
    reveal(merge_registry);
}

/// A request that could not be written is refused, and does not wait any longer; a line for
/// a node ends its dialog, and its numbers are taken back.
pub proof fn law_requests_that_cannot_be_written(w: World, req_id: u16, envelope: bool, k: int)
    requires
        0 <= k <= w.e.pending_mgmt.len(),
        forall|j: int| 0 <= j < k ==> (#[trigger] w.e.pending_mgmt[j]).req_id != req_id,
        k < w.e.pending_mgmt.len() ==> w.e.pending_mgmt[k].req_id == req_id,
    ensures
        ({
            let b = on_encode_failed(w, req_id, envelope);
            let p = w.e.pending_mgmt[k];
            let a = World {
                e: EngineV { pending_mgmt: w.e.pending_mgmt.remove(k), ..w.e },
                out: w.out,
            };
            let line = p.op matches OpKindV::QueuePush { shell: Some(_), .. };
            &&& k == w.e.pending_mgmt.len() ==> alike(b, w)
            &&& k < w.e.pending_mgmt.len() && (!envelope || !line) ==> alike(
                b,
                rpc_err(a, p.rpc, "request encode failed"@),
            )
            &&& p.op matches OpKindV::QueuePush { node, shell: Some(o) } ==> k
                < w.e.pending_mgmt.len() && envelope && 0 < req_id < 65535 && w.e.next_req == req_id
                + 1 && w.e.seq > 0 ==> alike(
                b,
                shell_fail(
                    World {
                        e: EngineV { next_req: req_id, seq: (w.e.seq - 1) as u16, ..a.e },
                        out: a.out,
                    },
                    node,
                    o.rpc,
                    1,
                    "envelope encode failed"@,
                ),
            )
        }),
{
    lemma_first_where(w.e.pending_mgmt, has_req(req_id), k);
}

/// A dialog ends with an error on the topic of its node, and the frontend is told.
pub proof fn law_dialogs_end(w: World, node: u32, id: Seq<char>, result: u8, error: Seq<char>)
    ensures
        ({
            let b = shell_fail(w, node, id, result, error);
            let rsp = ShellRspV {
                id,
                chunk: 0,
                text: Seq::empty(),
                done: true,
                result,
                truncated: false,
                error: Some(error),
            };
            &&& b.e == w.e
            &&& b.out == w.out.push(
                OutputV::Publish {
                    topic: w.e.prefix + "nodes/"@ + addr_text(node) + "/shell/rsp"@,
                    payload: encode_utf8(shell_rsp_json(rsp)),
                    retain: false,
                },
            ).push(OutputV::Event(EventV::Shell { node, rsp }))
        }),
{
}

/// Where the gateway came up anew, every line that waited is lost: its dialog ends, from the
/// chunk that was next, and nothing waits any longer.
pub proof fn law_waiting_lines_are_lost(
    w: World,
    k: nat,
    node: u32,
    ps: Seq<PendingShellV>,
    error: Seq<char>,
    j: nat,
)
    requires
        k < fail_queues(w, k).e.nodes.len(),
        j < ps.len(),
    ensures
        ({
            let a = fail_queues(w, k);
            let i = k as int;
            let b = World {
                e: EngineV {
                    nodes: a.e.nodes.update(
                        i,
                        NodeMirrorV { pending: Seq::empty(), ..a.e.nodes[i] },
                    ),
                    ..a.e
                },
                out: a.out,
            };
            let queue = a.e.nodes[i].pending;
            &&& alike(fail_queues(w, 0), w)
            &&& alike(
                fail_queues(w, k + 1),
                publish_pending(
                    shell_errors(
                        b,
                        a.e.nodes[i].entry.id,
                        queue,
                        "gateway rebooted — command lost"@,
                        queue.len(),
                    ),
                    i,
                ),
            )
        }),
        ({
            let a = shell_errors(w, node, ps, error, j);
            let p = ps[j as int];
            let rsp = ShellRspV {
                id: p.rpc,
                chunk: p.next_chunk,
                text: Seq::empty(),
                done: true,
                result: 1,
                truncated: p.truncated,
                error: Some(error),
            };
            &&& alike(shell_errors(w, node, ps, error, 0), w)
            &&& alike(
                shell_errors(w, node, ps, error, j + 1),
                World {
                    e: a.e,
                    out: a.out.push(
                        OutputV::Publish {
                            topic: a.e.prefix + "nodes/"@ + addr_text(node) + "/shell/rsp"@,
                            payload: encode_utf8(shell_rsp_json(rsp)),
                            retain: false,
                        },
                    ).push(OutputV::Event(EventV::Shell { node, rsp })),
                },
            )
        }),
{
}

/// A pairing window is open for a minute unless another time is asked for, and between one
/// second and ten minutes; samples come every second unless asked for otherwise, and at the
/// latest every minute; a node is marked as sleeping by its flag alone.
pub proof fn law_what_is_asked_for(p: RpcParamsV, n: u64, e: EngineV, flags: u8)
    ensures
        p.window_s is None ==> window(p) == 60,
        p.window_s == Some(n) && 1 <= n <= 600 ==> window(p) == n,
        p.window_s == Some(0u64) ==> window(p) == 1,
        p.window_s == Some(n) && n > 600 ==> window(p) == 600,
        p.period_ms is None ==> stats_period(p) == 1000,
        p.period_ms == Some(n) && n <= 60_000 ==> stats_period(p) == n,
        p.period_ms == Some(n) && n > 60_000 ==> stats_period(p) == 60_000,
        sleeping_flags(e, flags, true) == flags | e.wire.flag_sleeping,
        sleeping_flags(e, flags, false) == flags & !e.wire.flag_sleeping,
{
}

/// A key of 32 hexadecimal digits is sixteen bytes, each of which reads back from its two
/// digits; anything else is no key.
pub proof fn law_keys_are_read(s: Seq<char>, i: int)
    ensures
        s.len() != 32 ==> key_of(s) is None,
        0 <= i < s.len() && digit_value(s[i]) is None ==> key_of(s) is None,
        s.len() == 32 && (forall|j: int| 0 <= j < 32 ==> digit_value(#[trigger] s[j]) is Some) ==> {
            &&& key_of(s) matches Some(k) && k.len() == 16 && (0 <= i < 16 ==> hex_value(
                s.subrange(2 * i, 2 * i + 2),
            ) == Some(k[i] as nat))
        },
{
    if s.len() == 32 && (forall|j: int| 0 <= j < 32 ==> digit_value(#[trigger] s[j]) is Some) && 0
        <= i < 16 {
        let t = s.subrange(2 * i, 2 * i + 2);
        assert(t.drop_last().drop_last() =~= Seq::<char>::empty());
        reveal_with_fuel(hex_value, 3);
        assert(t.last() == s[2 * i + 1]);
        assert(t.drop_last().last() == s[2 * i]);
        assert(digit_value(s[2 * i]) is Some && digit_value(s[2 * i + 1]) is Some);
    }
}

/// An automatic name is the kind with the smallest number that no node has yet, from zero.
pub proof fn law_automatic_names(nodes: Seq<NodeMirrorV>, kind: Seq<char>, n: nat, m: nat)
    requires
        smallest_free(nodes, kind, n),
    ensures
        numbered(kind, n) == kind + ":"@ + dec(n),
        forall|i: int|
            0 <= i < nodes.len() ==> (#[trigger] nodes[i]).entry.name != kind + ":"@ + dec(n),
        m < n ==> exists|i: int|
            0 <= i < nodes.len() && (#[trigger] nodes[i]).entry.name == kind + ":"@ + dec(m),
{
    if m < n {
        assert(name_taken(nodes, numbered(kind, m)));
    }
}

} // verus!

//! What the replies of the device come to, and what the passing of time does, said of what is
//! published and answered.

use crate::engine_dispatch_laws::alike;
use crate::engine_model::{
    fail_queues, find_node, forget_node, has_req, issue, list_nodes, merge_registry, mgmt_timeout,
    mgmt_timeouts, node_payloads, now_pending, on_hello, on_mgmt_chunk, on_mgmt_done, on_refusal,
    on_start, on_success, publish_pairing, publish_pending, publish_stats, publish_status, rpc_err,
    rpc_ok, say, shell_fail, shell_timeouts, total_queued, unanswered, World,
};
use crate::engine_request_laws::answer;
use crate::engine_state::{
    EngineV, EventV, NodeMirrorV, OpKindV, OutputV, PendingMgmtV, PendingShellV, ShellOriginV,
};
use crate::engine_uplink_laws::publishes;
use crate::mgmt::{
    device_info_in, node_entries, queue_entries, read_paired, read_queue_id, DeviceInfoV, MgmtOpV,
};
use crate::payload::{quoted, stats_json, status_json, QueueRowV, RpcDataV, RpcResponseV, ShellRspV};
use crate::text::{dec, dec_int, hex_bytes, lemma_first_where};
use crate::topics::addr_text;
use vstd::prelude::*;
use vstd::utf8::encode_utf8;

verus! {

/// Who asked is answered, if anybody did.
pub open spec fn answered_with(a: World, rpc: Option<Seq<char>>, data: RpcDataV) -> World {
    match rpc {
        Some(id) => World {
            e: a.e,
            out: a.out.push(
                answer(a.e.prefix, RpcResponseV { id, ok: true, error: None, data }),
            ),
        },
        None => a,
    }
}

/// Who asked is refused, if anybody did.
pub open spec fn refused_with(a: World, rpc: Option<Seq<char>>, error: Seq<char>) -> World {
    match rpc {
        Some(id) => World {
            e: a.e,
            out: a.out.push(
                answer(
                    a.e.prefix,
                    RpcResponseV { id, ok: false, error: Some(error), data: RpcDataV::Null },
                ),
            ),
        },
        None => a,
    }
}

/// A chunk of a reply belongs to the request with its id: its bytes go behind those that
/// came, and a number out of turn marks the reply. The last one completes the request, with
/// all the bytes; a chunk that nobody waits for changes nothing.
pub proof fn law_replies_are_put_together(
    w: World,
    req_id: u16,
    result: u8,
    chunk: u16,
    last: bool,
    data: Seq<u8>,
    k: int,
)
    requires
        0 <= k < w.e.pending_mgmt.len() && w.e.pending_mgmt[k].req_id == req_id,
        forall|j: int| 0 <= j < k ==> (#[trigger] w.e.pending_mgmt[j]).req_id != req_id,
    ensures
        ({
            let b = on_mgmt_chunk(w, req_id, result, chunk, last, data);
            let old = w.e.pending_mgmt[k];
            let p = PendingMgmtV {
                data: old.data + data,
                truncated: old.truncated || chunk != old.next_chunk,
                next_chunk: ((chunk + 1) % 0x1_0000) as u16,
                ..old
            };
            if last {
                alike(
                    b,
                    on_mgmt_done(
                        World {
                            e: EngineV { pending_mgmt: w.e.pending_mgmt.remove(k), ..w.e },
                            out: w.out,
                        },
                        p,
                        result,
                    ),
                )
            } else {
                b.out == w.out && b.e == EngineV {
                    pending_mgmt: w.e.pending_mgmt.update(k, p),
                    ..w.e
                }
            }
        }),
{
    reveal(on_mgmt_chunk);
    lemma_first_where(w.e.pending_mgmt, has_req(req_id), k);
    let old = w.e.pending_mgmt[k];
    let p = PendingMgmtV {
        truncated: old.truncated || old.next_chunk != chunk,
        next_chunk: crate::mgmt::next_index(chunk),
        data: old.data + data,
        ..old
    };
    assert(w.e.pending_mgmt.update(k, p).remove(k) =~= w.e.pending_mgmt.remove(k));
}

/// A chunk that nobody waits for changes nothing.
pub proof fn law_stray_replies_are_dropped(
    w: World,
    req_id: u16,
    result: u8,
    chunk: u16,
    last: bool,
    data: Seq<u8>,
)
    requires
        forall|j: int| 0 <= j < w.e.pending_mgmt.len() ==> (#[trigger] w.e.pending_mgmt[j]).req_id != req_id,
    ensures
        alike(on_mgmt_chunk(w, req_id, result, chunk, last, data), w),
{
    reveal(on_mgmt_chunk);
    lemma_first_where(w.e.pending_mgmt, has_req(req_id), w.e.pending_mgmt.len() as int);
}

/// The code of a reply decides: success is acted on, any other code is passed on as its
/// text; a reply that misses a piece is told in the log besides.
pub proof fn law_codes_decide(w: World, p: PendingMgmtV, result: u8)
    ensures
        ({
            let wire = w.e.wire;
            let acted = on_success(w, p);
            let failed = |text: Seq<char>| on_refusal(w, p, result, text);
            let end = |a: World|
                if p.truncated {
                    say(
                        a,
                        "management reply "@ + dec(p.req_id as nat)
                            + " arrived truncated (chunk gap)"@,
                    )
                } else {
                    a
                };
            alike(
                on_mgmt_done(w, p, result),
                end(
                    match crate::wire::mgmt_error(wire, result) {
                        None => acted,
                        Some(text) => failed(text),
                    },
                ),
            )
        }),
{
    reveal(on_mgmt_done);
}

/// The description is taken over and published, and its address answered; one that cannot be
/// read changes nothing.
pub proof fn law_descriptions_are_taken(w: World, p: PendingMgmtV, d: DeviceInfoV)
    requires
        p.op == OpKindV::Describe,
    ensures
        device_info_in(w.e.wire, p.data) == Some(d) ==> alike(
            on_success(w, p),
            rpc_ok(
                publish_status(World { e: EngineV { describe: d, ..w.e }, out: w.out }),
                p.rpc,
                RpcDataV::Gateway(addr_text(d.net_id)),
            ),
        ),
        device_info_in(w.e.wire, p.data) is None ==> alike(
            on_success(w, p),
            rpc_ok(w, p.rpc, RpcDataV::Gateway(addr_text(w.e.describe.net_id))),
        ),
{
    reveal(on_success);
}

/// A listing is merged, and what the registry then holds is the answer.
pub proof fn law_listings_are_answered(w: World, p: PendingMgmtV)
    requires
        p.op == OpKindV::NodeList,
    ensures
        ({
            let m = merge_registry(w, node_entries(p.data));
            alike(on_success(w, p), rpc_ok(m, p.rpc, RpcDataV::Nodes(node_payloads(m.e))))
        }),
{
    reveal(on_success);
}

/// A node that was added is told in the log, the request is answered, and the registry is
/// listed anew.
pub proof fn law_additions_are_answered(w: World, p: PendingMgmtV, id: u32, name: Seq<char>)
    requires
        p.op == (OpKindV::NodeAdd { id, name }),
    ensures
        alike(
            on_success(w, p),
            list_nodes(
                rpc_ok(
                    say(w, "node "@ + addr_text(id) + " added ("@ + name + ")"@),
                    p.rpc,
                    RpcDataV::Null,
                ),
            ),
        ),
{
    reveal(on_success);
}

/// A node that was removed is forgotten, and the request answered; a node that was changed is
/// answered, and the registry listed anew; cancelling and setting the period are answered.
pub proof fn law_changes_are_answered(w: World, p: PendingMgmtV, id: u32)
    ensures
        p.op == (OpKindV::NodeRemove { id }) ==> alike(
            on_success(w, p),
            rpc_ok(forget_node(w, id), p.rpc, RpcDataV::Null),
        ),
        p.op == OpKindV::NodeUpdate ==> alike(
            on_success(w, p),
            list_nodes(rpc_ok(w, p.rpc, RpcDataV::Null)),
        ),
        p.op == OpKindV::PairingCancel || p.op == OpKindV::StatsConfig ==> alike(
            on_success(w, p),
            rpc_ok(w, p.rpc, RpcDataV::Null),
        ),
{
    reveal(on_success);
}

/// A key is answered for the node that it was asked for, in hexadecimal: the first sixteen
/// bytes of the reply. A shorter reply is none.
pub proof fn law_keys_are_answered(w: World, p: PendingMgmtV, id: u32)
    requires
        p.op == (OpKindV::RevealKey { id }),
    ensures
        p.data.len() >= 16 ==> alike(
            on_success(w, p),
            rpc_ok(
                w,
                p.rpc,
                RpcDataV::Key { node: addr_text(id), key: hex_bytes(p.data.take(16)) },
            ),
        ),
        p.data.len() < 16 ==> alike(on_success(w, p), rpc_err(w, p.rpc, "malformed key record"@)),
{
    reveal(on_success);
}

/// A pairing window that ended is closed for everybody, with the node that joined in it, and
/// the registry is listed anew.
pub proof fn law_joins_are_answered(w: World, p: PendingMgmtV)
    requires
        p.op == OpKindV::PairingOpen,
    ensures
        ({
            let joined = match read_paired(p.data) {
                Some(a) => Some(addr_text(a)),
                None => None,
            };
            let line = match read_paired(p.data) {
                Some(a) => "node "@ + addr_text(a) + " paired"@,
                None => "pairing window resolved"@,
            };
            let closed = World {
                e: EngineV { pairing_rpc: None, pairing_until: None, ..w.e },
                out: w.out,
            };
            alike(
                on_success(w, p),
                list_nodes(
                    rpc_ok(
                        publish_pairing(say(closed, line), joined),
                        p.rpc,
                        RpcDataV::Joined(joined),
                    ),
                ),
            )
        }),
{
    reveal(on_success);
}

/// A line that the device queued is pending from then on, under the number that the device
/// gave it, which is the answer; a reply without a number is none.
pub proof fn law_queued_lines_are_answered(
    w: World,
    p: PendingMgmtV,
    node: u32,
    shell: Option<ShellOriginV>,
    item: u16,
)
    requires
        p.op == (OpKindV::QueuePush { node, shell }),
    ensures
        read_queue_id(p.data) == Some(item) ==> alike(
            on_success(w, p),
            rpc_ok(now_pending(w, node, shell, item), p.rpc, RpcDataV::Item(item)),
        ),
        read_queue_id(p.data) is None ==> alike(
            on_success(w, p),
            rpc_err(w, p.rpc, "malformed queue id"@),
        ),
{
    reveal(on_success);
}

/// The queue is answered row by row: the node, the number, the age and the lifetime.
pub proof fn law_queues_are_answered(w: World, p: PendingMgmtV)
    requires
        p.op == OpKindV::QueueList,
    ensures
        ({
            let q = queue_entries(p.data);
            alike(
                on_success(w, p),
                rpc_ok(
                    w,
                    p.rpc,
                    RpcDataV::Queue(
                        Seq::new(
                            q.len(),
                            |i: int|
                                QueueRowV {
                                    node: addr_text(q[i].node),
                                    item: q[i].item,
                                    age_s: q[i].age_s,
                                    ttl_s: q[i].ttl_s,
                                },
                        ),
                    ),
                ),
            )
        }),
{
    reveal(on_success);
    let q = queue_entries(p.data);
    assert(crate::engine_model::queue_rows(q) =~= Seq::new(
        q.len(),
        |i: int|
            QueueRowV {
                node: addr_text(q[i].node),
                item: q[i].item,
                age_s: q[i].age_s,
                ttl_s: q[i].ttl_s,
            },
    ));
}

/// What was dropped from the queue is answered; the queue of the node is published, and the
/// registry listed anew.
pub proof fn law_drops_are_answered(w: World, p: PendingMgmtV, node: u32)
    requires
        p.op == (OpKindV::QueueDrop { node }),
    ensures
        ({
            let a = rpc_ok(w, p.rpc, RpcDataV::Null);
            alike(
                on_success(w, p),
                list_nodes(
                    match find_node(a.e, node) {
                        Some(i) => publish_pending(a, i),
                        None => a,
                    },
                ),
            )
        }),
{
    reveal(on_success);
}

/// A refusal of the device is passed on as it is. A window that closed without a node is no
/// error; a line that was not queued ends its dialog with the device's code.
pub proof fn law_refusals_are_passed_on(
    w: World,
    p: PendingMgmtV,
    result: u8,
    error: Seq<char>,
    node: u32,
    o: ShellOriginV,
)
    ensures
        !(p.op is PairingOpen) && !(p.op is QueuePush) ==> alike(
            on_refusal(w, p, result, error),
            rpc_err(w, p.rpc, error),
        ),
        p.op is PairingOpen ==> {
            let closed = publish_pairing(
                World {
                    e: EngineV { pairing_rpc: None, pairing_until: None, ..w.e },
                    out: w.out,
                },
                None,
            );
            alike(
                on_refusal(w, p, result, error),
                if result == w.e.wire.mgmt_timeout {
                    rpc_ok(closed, p.rpc, RpcDataV::Joined(None))
                } else {
                    rpc_err(closed, p.rpc, error)
                },
            )
        },
        p.op == (OpKindV::QueuePush { node, shell: Some(o) }) ==> alike(
            on_refusal(w, p, result, error),
            rpc_err(
                shell_fail(
                    w,
                    node,
                    o.rpc,
                    if result == 0 {
                        1
                    } else {
                        result
                    },
                    error,
                ),
                p.rpc,
                error,
            ),
        ),
{
    reveal(on_refusal);
}

/// A line that is pending is remembered with its number, its request, its text and its
/// command id, behind the others of its node; no other node changes.
pub proof fn law_lines_become_pending(w: World, node: u32, o: ShellOriginV, item: u16, i: int)
    requires
        0 <= i < w.e.nodes.len() && w.e.nodes[i].entry.id == node,
        forall|j: int| 0 <= j < i ==> (#[trigger] w.e.nodes[j]).entry.id != node,
    ensures
        now_pending(w, node, Some(o), item).e.nodes == w.e.nodes.update(
            i,
            NodeMirrorV {
                pending: w.e.nodes[i].pending.push(
                    PendingShellV {
                        item,
                        rpc: o.rpc,
                        line: o.line,
                        cmd_id: o.cmd_id,
                        delivered_tick: None,
                        next_chunk: 0,
                        truncated: false,
                    },
                ),
                ..w.e.nodes[i]
            },
        ),
{
    reveal(now_pending);
    lemma_first_where(w.e.nodes, crate::engine_model::has_addr(node), i);
}

// ---- the gateway itself ------------------------------------------------------------

/// The status says whether the link to the device is up, what the device is and says of
/// itself, and stays published.
pub proof fn law_status_is_published(w: World)
    ensures
        publishes(
            w,
            publish_status(w),
            w.e.prefix + "gateway/status"@,
            "{\"state\":"@ + quoted(
                if w.e.serial_up {
                    "online"@
                } else {
                    "degraded"@
                },
            ) + ",\"schema\":"@ + dec(1) + ",\"gateway\":"@ + quoted(addr_text(w.e.describe.net_id))
                + ",\"firmware\":"@ + quoted(w.e.describe.firmware_name)
                + ",\"firmware_version\":"@ + quoted(w.e.firmware_version) + ",\"session_id\":"@
                + dec(
                match w.e.hello_session {
                    Some(s) => s as nat,
                    None => 0,
                },
            ) + ",\"protocol\":"@ + dec(w.e.wire.protocol_version as nat) + ",\"serial_port\":"@
                + quoted(w.e.port_name) + ",\"serial_up\":"@ + (if w.e.serial_up {
                "true"@
            } else {
                "false"@
            }) + "}"@,
            true,
        ),
{
    reveal(status_json);
}

/// The numbers say how long the gateway runs, how many nodes and uplinks there were, what is
/// queued, and the last sample of the channel, if there was one.
pub proof fn law_numbers_are_published(w: World)
    requires
        w.e.nodes.len() <= u32::MAX,
    ensures
        publishes(
            w,
            publish_stats(w),
            w.e.prefix + "gateway/stats"@,
            "{\"uptime_s\":"@ + dec(w.e.tick as nat) + ",\"nodes\":"@ + dec(w.e.nodes.len())
                + ",\"uplinks\":"@ + dec(w.e.uplinks as nat) + ",\"queued\":"@ + dec(
                total_queued(w.e.nodes, w.e.nodes.len()) as nat,
            ) + ",\"rssi_dbm\":"@ + (match w.e.last_ambient {
                Some((dbm, _)) => dec_int(dbm as int),
                None => "null"@,
            }) + ",\"channel\":"@ + (match w.e.last_ambient {
                Some((_, channel)) => dec_int(channel as int),
                None => "null"@,
            }) + "}"@,
            true,
        ),
{
    reveal(stats_json);
}

/// What all nodes have queued, one node after the other.
pub proof fn law_queues_add_up(nodes: Seq<NodeMirrorV>, k: nat)
    requires
        k < nodes.len(),
        total_queued(nodes, k) + nodes[k as int].pending.len() <= u32::MAX,
    ensures
        total_queued(nodes, 0) == 0,
        total_queued(nodes, k + 1) == total_queued(nodes, k) + nodes[k as int].pending.len(),
{
}

/// The gateway begins by subscribing to the requests and to the lines for all nodes, listing
/// its nodes, and saying where it is.
pub proof fn law_gateway_begins(w: World)
    ensures
        ({
            let b = on_start(w);
            let n = w.out.len() as int;
            &&& b.out.len() == n + 4
            &&& b.out[n] == OutputV::Subscribe(w.e.prefix + "gateway/cmd"@)
            &&& b.out[n + 1] == OutputV::Subscribe(w.e.prefix + "nodes/+/shell/req"@)
            &&& b.out[n + 2] == OutputV::SerialSend {
                seq: w.e.seq,
                req_id: w.e.next_req,
                op: MgmtOpV::NodeList,
            }
            &&& b.out[n + 3] == OutputV::Event(
                EventV::Log(
                    "gateway "@ + addr_text(w.e.describe.net_id) + " on "@ + w.e.port_name + " ("@
                        + dec(w.e.describe.node_capacity as nat) + " node slots)"@,
                ),
            )
        }),
{
}

/// A device that comes up is taken with its name, version and session, and the status is
/// published; where its session is another than before, everything is asked for anew.
pub proof fn law_devices_come_up(
    w: World,
    name: Seq<char>,
    version: Seq<char>,
    session: u32,
)
    ensures
        ({
            let b = on_hello(w, name, version, session);
            let a = World {
                e: EngineV {
                    hello_session: Some(session),
                    firmware_version: version,
                    describe: DeviceInfoV { firmware_name: name, ..w.e.describe },
                    ..w.e
                },
                out: w.out,
            };
            let c = say(
                a,
                "gateway rebooted (session "@ + dec(session as nat)
                    + ") — resyncing; queued downlinks were lost"@,
            );
            alike(
                b,
                publish_status(
                    if w.e.hello_session is Some && w.e.hello_session != Some(session) {
                        list_nodes(
                            issue(
                                fail_queues(c, c.e.nodes.len()),
                                OpKindV::Describe,
                                MgmtOpV::Describe,
                                None,
                            ),
                        )
                    } else {
                        a
                    },
                ),
            )
        }),
{
    reveal(on_hello);
}

// ---- time --------------------------------------------------------------------------

/// A request whose reply never came is given up: it is not waited for any more, it is told in
/// the log, and who asked is told; a pairing window is closed for everybody.
pub proof fn law_requests_are_given_up(w: World, k: int)
    requires
        0 <= k < w.e.pending_mgmt.len(),
    ensures
        ({
            let p = w.e.pending_mgmt[k];
            let a = World {
                e: EngineV { pending_mgmt: w.e.pending_mgmt.remove(k), ..w.e },
                out: w.out,
            };
            let b = if p.op is PairingOpen {
                publish_pairing(
                    World {
                        e: EngineV { pairing_rpc: None, pairing_until: None, ..a.e },
                        out: a.out,
                    },
                    None,
                )
            } else {
                a
            };
            alike(
                mgmt_timeout(w, k),
                rpc_err(
                    say(b, "management op timed out (req "@ + dec(p.req_id as nat) + ")"@),
                    p.rpc,
                    "device did not answer (timeout)"@,
                ),
            )
        }),
{
}

/// A request is given up exactly when its time is over.
pub proof fn law_only_late_requests_are_given_up(w: World, k: nat)
    requires
        0 < k <= w.e.pending_mgmt.len(),
    ensures
        w.e.pending_mgmt[k - 1].deadline > w.e.tick ==> alike(
            mgmt_timeouts(w, k),
            mgmt_timeouts(w, (k - 1) as nat),
        ),
        w.e.pending_mgmt[k - 1].deadline <= w.e.tick ==> alike(
            mgmt_timeouts(w, k),
            mgmt_timeouts(mgmt_timeout(w, k - 1), (k - 1) as nat),
        ),
        alike(mgmt_timeouts(w, 0), w),
{
}

/// A line is late once thirty seconds went by since it was delivered, and not before it was.
pub proof fn law_lines_are_late(e: EngineV, p: PendingShellV)
    ensures
        unanswered(e, p) <==> p.delivered_tick is Some && e.tick - p.delivered_tick->0 >= 30,
{
}

/// A late line leaves the queue, and its dialog ends without an answer; any other stays.
pub proof fn law_late_lines_end(w: World, i: int, k: nat)
    requires
        0 <= i < w.e.nodes.len(),
        0 < k <= w.e.nodes[i].pending.len(),
    ensures
        ({
            let ps = w.e.nodes[i].pending;
            let node = w.e.nodes[i].entry.id;
            let rsp = ShellRspV {
                id: ps[k - 1].rpc,
                chunk: ps[k - 1].next_chunk,
                text: Seq::empty(),
                done: true,
                result: 1,
                truncated: ps[k - 1].truncated,
                error: Some("delivered but no reply from the node"@),
            };
            let without = World {
                e: EngineV {
                    nodes: w.e.nodes.update(
                        i,
                        NodeMirrorV { pending: ps.remove(k - 1), ..w.e.nodes[i] },
                    ),
                    ..w.e
                },
                out: w.out.push(
                    OutputV::Publish {
                        topic: w.e.prefix + "nodes/"@ + addr_text(node) + "/shell/rsp"@,
                        payload: encode_utf8(crate::payload::shell_rsp_json(rsp)),
                        retain: false,
                    },
                ).push(OutputV::Event(EventV::Shell { node, rsp })),
            };
            &&& unanswered(w.e, ps[k - 1]) ==> alike(
                shell_timeouts(w, i, k),
                shell_timeouts(without, i, (k - 1) as nat),
            )
            &&& !unanswered(w.e, ps[k - 1]) ==> alike(
                shell_timeouts(w, i, k),
                shell_timeouts(w, i, (k - 1) as nat),
            )
        }),
{
}

} // verus!

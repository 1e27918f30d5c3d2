//! What each request makes the gateway do, said of the request and of what goes to the device
//! and back to the client.

use crate::engine_model::{
    find_node, has_addr, has_item, has_name, issue, issue_delayed, key_of, node_param, on_shell_req,
    pending_entries, publish_pairing, rpc_add_ota, rpc_err_direct, rpc_node_add, rpc_node_rename,
    rpc_ok, rpc_queue_drop, World,
};
use crate::engine_state::{EngineV, EventV, OpKindV, OutputV, PendingMgmtV, ShellOriginV};
use crate::mgmt::MgmtOpV;
use crate::payload::{
    pairing_json, pending_json, quoted, rpc_data_json, rpc_response_json, shell_rsp_json, PairingV,
    RpcDataV, RpcParamsV, RpcRequestV, RpcResponseV, ShellReq, ShellRspV,
};
use crate::text::{dec, lemma_first_where, lemma_first_where_holds};
use crate::topics::{addr_of, addr_text};
use vstd::prelude::*;
use vstd::utf8::encode_utf8;

verus! {

// ---- what a request leads to -------------------------------------------------------

/// The device is sent `op`, and the reply is waited for on behalf of the request `id` for
/// `ticks` seconds; nothing else changes.
pub open spec fn sends(
    a: World,
    b: World,
    op: MgmtOpV,
    kind: OpKindV,
    id: Option<Seq<char>>,
    ticks: int,
) -> bool {
    &&& b.out == a.out.push(OutputV::SerialSend { seq: a.e.seq, req_id: a.e.next_req, op })
    &&& b.e == EngineV {
        next_req: if a.e.next_req == 0xffff {
            1
        } else {
            (a.e.next_req + 1) as u16
        },
        seq: ((a.e.seq + 1) % 0x1_0000) as u16,
        pending_mgmt: a.e.pending_mgmt.push(
            PendingMgmtV {
                req_id: a.e.next_req,
                op: kind,
                rpc: id,
                data: Seq::empty(),
                next_chunk: 0,
                truncated: false,
                deadline: if a.e.tick + ticks > u64::MAX {
                    u64::MAX
                } else {
                    (a.e.tick + ticks) as u64
                },
            },
        ),
        ..a.e
    }
}

/// The client that asked under `id` gets this answer: on its own topic, or, where it is the
/// frontend of this process, as an event.
pub open spec fn answer(prefix: Seq<char>, rsp: RpcResponseV) -> OutputV {
    if "tui-"@.is_prefix_of(rsp.id) {
        OutputV::Event(EventV::Rpc(rsp))
    } else {
        OutputV::Publish {
            topic: prefix + "gateway/rsp/"@ + rsp.id,
            payload: encode_utf8(rpc_response_json(rsp)),
            retain: false,
        }
    }
}

/// The request `id` is refused at once with this text, and nothing changes.
pub open spec fn refuses(a: World, b: World, id: Seq<char>, error: Seq<char>) -> bool {
    &&& b.e == a.e
    &&& b.out == a.out.push(
        answer(
            a.e.prefix,
            RpcResponseV { id, ok: false, error: Some(error), data: RpcDataV::Null },
        ),
    )
}

/// A text names the node `id`: it is its address, or the name of a registered node, of which
/// the first counts.
pub open spec fn names(e: EngineV, text: Seq<char>, id: u32) -> bool {
    match addr_of(text) {
        Some(a) => a == id,
        None => exists|i: int|
            0 <= i < e.nodes.len() && (#[trigger] e.nodes[i]).entry.name == text
                && e.nodes[i].entry.id == id && forall|j: int|
                0 <= j < i ==> (#[trigger] e.nodes[j]).entry.name != text,
    }
}

/// A text names no node.
pub open spec fn names_nothing(e: EngineV, text: Seq<char>) -> bool {
    addr_of(text) is None && forall|i: int|
        0 <= i < e.nodes.len() ==> (#[trigger] e.nodes[i]).entry.name != text
}

proof fn lemma_names(e: EngineV, text: Seq<char>, id: u32, params: RpcParamsV)
    requires
        params.node == Some(text),
    ensures
        names(e, text, id) ==> node_param(e, params) == Some(id),
        names_nothing(e, text) ==> node_param(e, params) is None,
{
    lemma_first_where_holds(e.nodes, has_name(text));
    if names(e, text, id) && addr_of(text) is None {
        let i = choose|i: int|
            0 <= i < e.nodes.len() && (#[trigger] e.nodes[i]).entry.name == text
                && e.nodes[i].entry.id == id && forall|j: int|
                0 <= j < i ==> (#[trigger] e.nodes[j]).entry.name != text;
        lemma_first_where(e.nodes, has_name(text), i);
    }
}

// ---- laws --------------------------------------------------------------------------

/// A text names the node with that address, and otherwise the first registered node with
/// that name; a text that is neither names none, and so does no text at all.
pub proof fn law_nodes_are_named(e: EngineV, params: RpcParamsV, id: u32)
    ensures
        params.node is None ==> node_param(e, params) is None,
        params.node matches Some(text) ==> {
            &&& names(e, text, id) ==> node_param(e, params) == Some(id)
            &&& names_nothing(e, text) ==> node_param(e, params) is None
        },
{
    if let Some(text) = params.node {
        lemma_names(e, text, id, params);
    }
}

/// A request to the device goes out at once, and its reply is waited for on behalf of who
/// asked, for eight seconds, or for as long as it is given.
pub proof fn law_requests_go_out(
    w: World,
    kind: OpKindV,
    op: MgmtOpV,
    rpc: Option<Seq<char>>,
    ticks: u64,
)
    ensures
        sends(w, issue(w, kind, op, rpc), op, kind, rpc, 8),
        sends(w, issue_delayed(w, kind, op, rpc, ticks), op, kind, rpc, ticks as int),
{
}

/// A refusal says so to who asked, with the reason, and changes nothing; a success says so,
/// with the data.
pub proof fn law_answers_are_given(w: World, id: Seq<char>, error: Seq<char>, data: RpcDataV)
    ensures
        refuses(w, rpc_err_direct(w, id, error), id, error),
        rpc_ok(w, Some(id), data).e == w.e,
        rpc_ok(w, Some(id), data).out == w.out.push(
            answer(w.e.prefix, RpcResponseV { id, ok: true, error: None, data }),
        ),
        rpc_ok(w, None, data) == w,
{
}

/// How an answer is written: its id, whether it is a success, the error of a refusal, and
/// the data of a success that has some.
pub proof fn law_answers_are_written(id: Seq<char>, error: Seq<char>, data: RpcDataV)
    ensures
        rpc_response_json(
            RpcResponseV { id, ok: false, error: Some(error), data: RpcDataV::Null },
        ) == "{\"id\":"@ + quoted(id) + ",\"ok\":"@ + "false"@ + ",\"error\":"@ + quoted(error) + "}"@,
        rpc_response_json(RpcResponseV { id, ok: true, error: None, data: RpcDataV::Null })
            == "{\"id\":"@ + quoted(id) + ",\"ok\":"@ + "true"@ + "}"@,
        !(data is Null) ==> rpc_response_json(RpcResponseV { id, ok: true, error: None, data })
            == "{\"id\":"@ + quoted(id) + ",\"ok\":"@ + "true"@ + ",\"data\":"@ + rpc_data_json(data)
            + "}"@,
{
    reveal(rpc_response_json);
}

/// Renaming tells the device the new name of the node that is named, and that the node is
/// not without a name any more; its other flags stay. A missing name, an empty one and one
/// that is too long are refused.
pub proof fn law_renaming_names_the_node(w: World, req: RpcRequestV, text: Seq<char>, id: u32)
    requires
        req.params.node == Some(text),
    ensures
        ({
            let b = rpc_node_rename(w, req);
            let most = w.e.wire.max_node_name;
            &&& names_nothing(w.e, text) ==> refuses(w, b, req.id, "unknown node"@)
            &&& names(w.e, text, id) ==> match req.params.name {
                None => refuses(w, b, req.id, "missing name"@),
                Some(name) => if name.len() == 0 || encode_utf8(name).len() > most {
                    refuses(w, b, req.id, "name must be 1..="@ + dec(most as nat) + " bytes"@)
                } else {
                    &&& forall|i: int|
                        0 <= i < w.e.nodes.len() && (#[trigger] w.e.nodes[i]).entry.id == id && (
                        forall|j: int| 0 <= j < i ==> (#[trigger] w.e.nodes[j]).entry.id != id)
                            ==> sends(
                            w,
                            b,
                            MgmtOpV::NodeUpdate {
                                id,
                                name: Some(name),
                                flags: Some(w.e.nodes[i].entry.flags & !w.e.wire.flag_unnamed),
                            },
                            OpKindV::NodeUpdate,
                            Some(req.id),
                            8,
                        )
                    &&& (forall|i: int|
                        0 <= i < w.e.nodes.len() ==> (#[trigger] w.e.nodes[i]).entry.id != id)
                        ==> sends(
                        w,
                        b,
                        MgmtOpV::NodeUpdate { id, name: Some(name), flags: None },
                        OpKindV::NodeUpdate,
                        Some(req.id),
                        8,
                    )
                },
            }
        }),
{
    lemma_names(w.e, text, id, req.params);
    lemma_first_where_holds(w.e.nodes, has_addr(id));
    assert forall|i: int|
        0 <= i < w.e.nodes.len() && (#[trigger] w.e.nodes[i]).entry.id == id && (forall|j: int|
            0 <= j < i ==> (#[trigger] w.e.nodes[j]).entry.id != id) implies find_node(w.e, id)
        == Some(i) by {
        lemma_first_where(w.e.nodes, has_addr(id), i);
    }
}

/// Adding a node gives the device its address, its key and its name. It is taken to sleep
/// unless the request says otherwise, and to be without a name where none is given. Without
/// an address, or a key of 32 hexadecimal digits, the request is refused.
pub proof fn law_adding_adds_the_node(w: World, req: RpcRequestV)
    ensures
        ({
            let b = rpc_node_add(w, req);
            let id = match req.params.id {
                Some(t) => addr_of(t),
                None => None,
            };
            let k = match req.params.key {
                Some(t) => key_of(t),
                None => None,
            };
            let name = match req.params.name {
                Some(n) => n,
                None => ""@,
            };
            let asleep = if req.params.sleeping == Some(false) {
                0u8
            } else {
                w.e.wire.flag_sleeping
            };
            match (id, k) {
                (Some(id), Some(k)) => sends(
                    w,
                    b,
                    MgmtOpV::NodeAdd {
                        id,
                        key: k,
                        name,
                        flags: if name.len() == 0 {
                            asleep | w.e.wire.flag_unnamed
                        } else {
                            asleep
                        },
                    },
                    OpKindV::NodeAdd { id, name },
                    Some(req.id),
                    8,
                ),
                _ => refuses(w, b, req.id, "node_add needs id + key (hex)"@),
            }
        }),
{
}

/// What is published and told of the pairing window.
pub open spec fn tells_pairing(a: World, p: PairingV) -> World {
    World {
        e: a.e,
        out: a.out.push(
            OutputV::Publish {
                topic: a.e.prefix + "gateway/pairing"@,
                payload: encode_utf8(pairing_json(p)),
                retain: true,
            },
        ).push(OutputV::Event(EventV::Pairing(p))),
    }
}

/// The pairing window is published as open with the seconds that are left of it, or as idle,
/// with the node that joined.
pub proof fn law_pairing_is_published(w: World, joined: Option<Seq<char>>)
    ensures
        publish_pairing(w, joined) == tells_pairing(
            w,
            match w.e.pairing_until {
                Some(until) => PairingV {
                    state: "open"@,
                    remaining_s: Some(
                        if until > w.e.tick {
                            (until - w.e.tick) as u64
                        } else {
                            0
                        },
                    ),
                    joined,
                },
                None => PairingV { state: "idle"@, remaining_s: None, joined },
            },
        ),
{
}

/// Pairing over the air opens one window at a time: it is published as open for the seconds
/// asked for (60 unless given, 1 to 600 in any case), the device is sent them with a fresh
/// key, and gets five seconds more to answer.
pub proof fn law_pairing_opens_a_window(w: World, req: RpcRequestV, key: Option<Seq<u8>>)
    requires
        w.e.tick < u64::MAX - 600,
    ensures
        ({
            let b = rpc_add_ota(w, req, key);
            let secs: u16 = match req.params.window_s {
                None => 60,
                Some(n) => if n < 1 {
                    1
                } else if n > 600 {
                    600
                } else {
                    n as u16
                },
            };
            if w.e.pairing_rpc is Some {
                refuses(w, b, req.id, "a pairing window is already open"@)
            } else {
                match key {
                    None => refuses(w, b, req.id, "no entropy source for the node key"@),
                    Some(k) => sends(
                        tells_pairing(
                            World {
                                e: EngineV {
                                    pairing_rpc: Some(req.id),
                                    pairing_until: Some((w.e.tick + secs) as u64),
                                    ..w.e
                                },
                                out: w.out,
                            },
                            PairingV {
                                state: "open"@,
                                remaining_s: Some(secs as u64),
                                joined: None,
                            },
                        ),
                        b,
                        MgmtOpV::PairingOpen { window_s: secs, key: k },
                        OpKindV::PairingOpen,
                        Some(req.id),
                        secs + 5,
                    ),
                }
            }
        }),
{
}

/// Dropping a queued line tells the device which one. Where the gateway holds that line, its
/// dialog ends as dequeued, it leaves the queue, and the queue is published.
pub proof fn law_dropping_drops_the_line(
    w: World,
    req: RpcRequestV,
    text: Seq<char>,
    node: u32,
    i: int,
    k: int,
)
    requires
        req.params.node == Some(text),
        names(w.e, text, node),
        req.params.item matches Some(n) && n <= 0xffff,
        0 <= i < w.e.nodes.len() && w.e.nodes[i].entry.id == node,
        forall|j: int| 0 <= j < i ==> (#[trigger] w.e.nodes[j]).entry.id != node,
        0 <= k < w.e.nodes[i].pending.len(),
        w.e.nodes[i].pending[k].item == req.params.item->0,
        forall|j: int|
            0 <= j < k ==> (#[trigger] w.e.nodes[i].pending[j]).item != req.params.item->0,
    ensures
        ({
            let b = rpc_queue_drop(w, req);
            let p = w.e.nodes[i].pending[k];
            let rsp = ShellRspV {
                id: p.rpc,
                chunk: p.next_chunk,
                text: Seq::empty(),
                done: true,
                result: 1,
                truncated: p.truncated,
                error: Some("dequeued"@),
            };
            let n = w.out.len() as int;
            &&& b.out.len() == n + 5
            &&& b.out[n] == OutputV::Publish {
                topic: w.e.prefix + "nodes/"@ + addr_text(node) + "/shell/rsp"@,
                payload: encode_utf8(shell_rsp_json(rsp)),
                retain: false,
            }
            &&& b.out[n + 1] == OutputV::Event(EventV::Shell { node, rsp })
            &&& b.out[n + 2] == OutputV::Publish {
                topic: w.e.prefix + "nodes/"@ + addr_text(node) + "/shell/pending"@,
                payload: encode_utf8(
                    pending_json(pending_entries(w.e.nodes[i].pending.remove(k))),
                ),
                retain: true,
            }
            &&& b.out[n + 4] == OutputV::SerialSend {
                seq: w.e.seq,
                req_id: w.e.next_req,
                op: MgmtOpV::QueueDrop { node, item: Some(req.params.item->0 as u16) },
            }
            &&& b.e.nodes[i].pending == w.e.nodes[i].pending.remove(k)
            &&& b.e.pending_mgmt.last().rpc == Some(req.id)
        }),
{
    lemma_names(w.e, text, node, req.params);
    lemma_first_where(w.e.nodes, has_addr(node), i);
    let it = req.params.item->0 as u16;
    lemma_first_where(w.e.nodes[i].pending, has_item(it), k);
}

/// Without a line in particular the whole queue of the node is dropped by the device.
pub proof fn law_dropping_without_a_line(w: World, req: RpcRequestV, text: Seq<char>, node: u32)
    requires
        req.params.node == Some(text),
        req.params.item is None,
    ensures
        names(w.e, text, node) ==> sends(
            w,
            rpc_queue_drop(w, req),
            MgmtOpV::QueueDrop { node, item: None },
            OpKindV::QueueDrop { node },
            Some(req.id),
            8,
        ),
        names_nothing(w.e, text) ==> refuses(w, rpc_queue_drop(w, req), req.id, "unknown node"@),
{
    lemma_names(w.e, text, node, req.params);
}

/// A line for a registered node goes into the device's queue for that node, with its
/// lifetime, under the next command id; its dialog is remembered with the request.
pub proof fn law_lines_are_queued(w: World, node: u32, i: int, req: ShellReq)
    requires
        0 <= i < w.e.nodes.len() && w.e.nodes[i].entry.id == node,
        encode_utf8(req.line@).len() <= w.e.wire.radio_shell_chunk,
    ensures
        sends(
            World {
                e: EngineV {
                    next_cmd: if w.e.next_cmd == 0xffff {
                        1
                    } else {
                        (w.e.next_cmd + 1) as u16
                    },
                    ..w.e
                },
                out: w.out,
            },
            on_shell_req(w, node, req),
            MgmtOpV::QueuePush { node, ttl_s: req.ttl_s, cmd_id: w.e.next_cmd, line: req.line@ },
            OpKindV::QueuePush {
                node,
                shell: Some(
                    ShellOriginV { rpc: req.id@, line: req.line@, cmd_id: w.e.next_cmd },
                ),
            },
            None,
            8,
        ),
{
    lemma_first_where_holds(w.e.nodes, has_addr(node));
    assert(has_addr(node)(w.e.nodes[i]));
}

/// A dialog of the node that ends at once with this error.
pub open spec fn ends_dialog(a: World, b: World, node: u32, id: Seq<char>, error: Seq<char>) -> bool {
    let rsp = ShellRspV {
        id,
        chunk: 0,
        text: Seq::empty(),
        done: true,
        result: 1,
        truncated: false,
        error: Some(error),
    };
    &&& b.e == a.e
    &&& b.out == a.out.push(
        OutputV::Publish {
            topic: a.e.prefix + "nodes/"@ + addr_text(node) + "/shell/rsp"@,
            payload: encode_utf8(shell_rsp_json(rsp)),
            retain: false,
        },
    ).push(OutputV::Event(EventV::Shell { node, rsp }))
}

/// A line for a node that nobody registered, or one that is too long, is refused with its
/// reason, on the node's topic and to the frontend.
pub proof fn law_lines_are_refused(w: World, node: u32, req: ShellReq)
    ensures
        if forall|i: int| 0 <= i < w.e.nodes.len() ==> (#[trigger] w.e.nodes[i]).entry.id != node {
            ends_dialog(w, on_shell_req(w, node, req), node, req.id@, "unknown node"@)
        } else {
            encode_utf8(req.line@).len() > w.e.wire.radio_shell_chunk ==> ends_dialog(
                w,
                on_shell_req(w, node, req),
                node,
                req.id@,
                "line too long for the radio MTU (max "@ + dec(w.e.wire.radio_shell_chunk as nat)
                    + " bytes)"@,
            )
        },
{
    lemma_first_where_holds(w.e.nodes, has_addr(node));
}

} // verus!

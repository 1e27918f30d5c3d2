//! Which request does what: the operations by their names.

use crate::engine_model::{
    issue, node_param, on_rpc, publish_pairing, rpc_add_ota, rpc_err_direct, rpc_node_add,
    rpc_node_rename, rpc_queue_drop, World,
};
use crate::engine_state::{EngineV, OpKindV};
use crate::mgmt::MgmtOpV;
use crate::payload::RpcRequestV;
use vstd::prelude::*;

verus! {

/// The two come to the same.
pub open spec fn alike(a: World, b: World) -> bool {
    a == b
}

/// Describing asks the device what it is.
pub proof fn law_describe(w: World, req: RpcRequestV, key: Option<Seq<u8>>)
    requires
        req.op == "describe"@,
    ensures
        alike(
            on_rpc(w, req, key),
            issue(w, OpKindV::Describe, MgmtOpV::Describe, Some(req.id)),
        ),
{
    reveal(on_rpc);
}

/// Listing asks the device for its nodes.
pub proof fn law_node_list(w: World, req: RpcRequestV, key: Option<Seq<u8>>)
    requires
        req.op == "node_list"@,
    ensures
        alike(
            on_rpc(w, req, key),
            issue(w, OpKindV::NodeList, MgmtOpV::NodeList, Some(req.id)),
        ),
{
    reveal(on_rpc);
    reveal_strlit("describe");
    reveal_strlit("node_list");
}

/// Adding is what `node_add` does.
pub proof fn law_node_add(w: World, req: RpcRequestV, key: Option<Seq<u8>>)
    requires
        req.op == "node_add"@,
    ensures
        alike(
            on_rpc(w, req, key),
            rpc_node_add(w, req),
        ),
{
    reveal(on_rpc);
    reveal_strlit("describe");
    reveal_strlit("node_list");
    reveal_strlit("node_add");
    assert("describe"@[0] != "node_add"@[0]);
}

/// Removing tells the device to forget the node that is named, and nothing where none is.
pub proof fn law_node_remove(w: World, req: RpcRequestV, key: Option<Seq<u8>>)
    requires
        req.op == "node_remove"@,
    ensures
        alike(
            on_rpc(w, req, key),
            match node_param(w.e, req.params) {
                Some(id) => issue(
                    w,
                    OpKindV::NodeRemove { id },
                    MgmtOpV::NodeRemove { id },
                    Some(req.id),
                ),
                None => rpc_err_direct(w, req.id, "unknown node"@),
            },
        ),
{
    reveal(on_rpc);
    reveal_strlit("describe");
    reveal_strlit("node_list");
    reveal_strlit("node_add");
    reveal_strlit("node_remove");
}

/// Renaming is what `node_rename` does.
pub proof fn law_node_rename(w: World, req: RpcRequestV, key: Option<Seq<u8>>)
    requires
        req.op == "node_rename"@,
    ensures
        alike(
            on_rpc(w, req, key),
            rpc_node_rename(w, req),
        ),
{
    reveal(on_rpc);
    reveal_strlit("describe");
    reveal_strlit("node_list");
    reveal_strlit("node_add");
    reveal_strlit("node_remove");
    reveal_strlit("node_rename");
    assert("node_remove"@[7] != "node_rename"@[7]);
}

/// Revealing asks the device for the key of the node that is named, and of no other.
pub proof fn law_reveal_key(w: World, req: RpcRequestV, key: Option<Seq<u8>>)
    requires
        req.op == "reveal_key"@,
    ensures
        alike(
            on_rpc(w, req, key),
            match node_param(w.e, req.params) {
                Some(id) => issue(
                    w,
                    OpKindV::RevealKey { id },
                    MgmtOpV::NodeRevealKey { id },
                    Some(req.id),
                ),
                None => rpc_err_direct(w, req.id, "unknown node"@),
            },
        ),
{
    reveal(on_rpc);
    reveal_strlit("describe");
    reveal_strlit("node_list");
    reveal_strlit("node_add");
    reveal_strlit("node_remove");
    reveal_strlit("node_rename");
    reveal_strlit("reveal_key");
}

/// Pairing over the air is what `node_add_ota` does.
pub proof fn law_node_add_ota(w: World, req: RpcRequestV, key: Option<Seq<u8>>)
    requires
        req.op == "node_add_ota"@,
    ensures
        alike(
            on_rpc(w, req, key),
            rpc_add_ota(w, req, key),
        ),
{
    reveal(on_rpc);
    reveal_strlit("describe");
    reveal_strlit("node_list");
    reveal_strlit("node_add");
    reveal_strlit("node_remove");
    reveal_strlit("node_rename");
    reveal_strlit("reveal_key");
    reveal_strlit("node_add_ota");
}

/// Cancelling closes the window, tells everybody, and tells the device.
pub proof fn law_pairing_cancel(w: World, req: RpcRequestV, key: Option<Seq<u8>>)
    requires
        req.op == "pairing_cancel"@,
    ensures
        alike(
            on_rpc(w, req, key),
            issue(
                publish_pairing(
                    World {
                        e: EngineV { pairing_rpc: None, pairing_until: None, ..w.e },
                        out: w.out,
                    },
                    None,
                ),
                OpKindV::PairingCancel,
                MgmtOpV::PairingCancel,
                Some(req.id),
            ),
        ),
{
    reveal(on_rpc);
    reveal_strlit("describe");
    reveal_strlit("node_list");
    reveal_strlit("node_add");
    reveal_strlit("node_remove");
    reveal_strlit("node_rename");
    reveal_strlit("reveal_key");
    reveal_strlit("node_add_ota");
    reveal_strlit("pairing_cancel");
}

/// Listing the queue asks for the one of the node that is named, or of all nodes.
pub proof fn law_queue_list(w: World, req: RpcRequestV, key: Option<Seq<u8>>)
    requires
        req.op == "queue_list"@,
    ensures
        alike(
            on_rpc(w, req, key),
            issue(
                w,
                OpKindV::QueueList,
                MgmtOpV::QueueList {
                    node: match node_param(w.e, req.params) {
                        Some(node) => node,
                        None => 0,
                    },
                },
                Some(req.id),
            ),
        ),
{
    reveal(on_rpc);
    reveal_strlit("describe");
    reveal_strlit("node_list");
    reveal_strlit("node_add");
    reveal_strlit("node_remove");
    reveal_strlit("node_rename");
    reveal_strlit("reveal_key");
    reveal_strlit("node_add_ota");
    reveal_strlit("pairing_cancel");
    reveal_strlit("queue_list");
    assert("reveal_key"@[0] != "queue_list"@[0]);
}

/// Dropping from the queue is what `queue_drop` does.
pub proof fn law_queue_drop(w: World, req: RpcRequestV, key: Option<Seq<u8>>)
    requires
        req.op == "queue_drop"@,
    ensures
        alike(
            on_rpc(w, req, key),
            rpc_queue_drop(w, req),
        ),
{
    reveal(on_rpc);
    reveal_strlit("describe");
    reveal_strlit("node_list");
    reveal_strlit("node_add");
    reveal_strlit("node_remove");
    reveal_strlit("node_rename");
    reveal_strlit("reveal_key");
    reveal_strlit("node_add_ota");
    reveal_strlit("pairing_cancel");
    reveal_strlit("queue_list");
    reveal_strlit("queue_drop");
    assert("reveal_key"@[0] != "queue_drop"@[0]);
    assert("queue_list"@[6] != "queue_drop"@[6]);
}

/// The sampling period goes to the device: a second unless given, a minute at most.
pub proof fn law_stats_config(w: World, req: RpcRequestV, key: Option<Seq<u8>>)
    requires
        req.op == "stats_config"@,
    ensures
        alike(
            on_rpc(w, req, key),
            issue(
                w,
                OpKindV::StatsConfig,
                MgmtOpV::StatsConfig {
                    channel_period_ms: match req.params.period_ms {
                        Some(ms) => if ms > 60_000 {
                            60_000
                        } else {
                            ms as u32
                        },
                        None => 1_000,
                    },
                },
                Some(req.id),
            ),
        ),
{
    reveal(on_rpc);
    reveal_strlit("describe");
    reveal_strlit("node_list");
    reveal_strlit("node_add");
    reveal_strlit("node_remove");
    reveal_strlit("node_rename");
    reveal_strlit("reveal_key");
    reveal_strlit("node_add_ota");
    reveal_strlit("pairing_cancel");
    reveal_strlit("queue_list");
    reveal_strlit("queue_drop");
    reveal_strlit("stats_config");
    assert("node_add_ota"@[0] != "stats_config"@[0]);
}

/// An operation of any other name is refused.
pub proof fn law_other_operations(w: World, req: RpcRequestV, key: Option<Seq<u8>>)
    requires
        req.op != "describe"@,
        req.op != "node_list"@,
        req.op != "node_add"@,
        req.op != "node_remove"@,
        req.op != "node_rename"@,
        req.op != "reveal_key"@,
        req.op != "node_add_ota"@,
        req.op != "pairing_cancel"@,
        req.op != "queue_list"@,
        req.op != "queue_drop"@,
        req.op != "stats_config"@,
    ensures
        alike(
            on_rpc(w, req, key),
            rpc_err_direct(w, req.id, "unknown op \""@ + req.op + "\""@),
        ),
{
    reveal(on_rpc);
}

} // verus!

//! What the engine does with replies on the management channel.

use crate::engine::{clear_topic, say};
use crate::engine_model;
use crate::engine_model::{has_addr, listed_before, merged_row, still_listed, world};
use crate::engine_serial::lemma_shell_errors_keep;
use crate::engine_state::{
    Engine, EngineV, NodeMirror, NodeMirrorV, OpKind, Output, PendingMgmt, PendingShell,
    PendingShellV,
};
use crate::mgmt::{
    append_bytes, decode_node_key, decode_paired, decode_queue_id, parse_device_info,
    parse_node_entries, parse_queue_entries, NodeEntry, NodeEntryV, QueueEntry,
};
use crate::payload::{copy_opt, QueueRow, RpcData};
use crate::text::{
    bytes_hex, cat3, cat5, dec_u64, first_where, lemma_deep_push, lemma_deep_remove,
    lemma_deep_update, lemma_first_where, lemma_first_where_holds,
};
use crate::topics;
use crate::wire::mgmt_error_str;
use vstd::prelude::*;
use vstd::string::*;

verus! {

fn copy_entry(e: &NodeEntry) -> (r: NodeEntry)
    ensures
        r.deep_view() == e.deep_view(),
{
    NodeEntry {
        id: e.id,
        name: e.name.clone(),
        flags: e.flags,
        last_seen_s: e.last_seen_s,
        rssi_dbm: e.rssi_dbm,
        uplinks: e.uplinks,
        queued: e.queued,
    }
}

fn queue_rows(entries: &Vec<QueueEntry>) -> (r: Vec<QueueRow>)
    ensures
        r.deep_view() == engine_model::queue_rows(entries.deep_view()),
{
    let mut v: Vec<QueueRow> = Vec::new();
    let mut i: usize = 0;
    while i < entries.len()
        invariant
            i <= entries@.len(),
            v@.len() == i,
            forall|j: int| 0 <= j < i ==> (#[trigger] v@[j]).deep_view() == engine_model::queue_row(
                entries@[j].deep_view(),
            ),
        decreases entries@.len() - i,
    {
        let e = &entries[i];
        v.push(
            QueueRow { node: topics::node_hex(e.node), item: e.item, age_s: e.age_s, ttl_s: e.ttl_s },
        );
        i = i + 1;
    }
    assert(v.deep_view() =~= engine_model::queue_rows(entries.deep_view()));
    v
}

fn is_listed(fresh: &Vec<NodeEntry>, id: u32) -> (r: bool)
    ensures
        r == still_listed(fresh.deep_view(), id),
{
    let mut i: usize = 0;
    while i < fresh.len()
        invariant
            i <= fresh@.len(),
            forall|j: int| 0 <= j < i ==> (#[trigger] fresh.deep_view()[j]).id != id,
        decreases fresh@.len() - i,
    {
        if fresh[i].id == id {
            assert(fresh.deep_view()[i as int].id == id);
            return true;
        }
        assert(fresh.deep_view()[i as int].id != id);
        i = i + 1;
    }
    false
}

/// The pending commands of old node `k` went to one of the first `i` fresh entries.
spec fn given_away(olds: Seq<NodeMirrorV>, fresh: Seq<NodeEntryV>, i: int, k: int) -> bool {
    exists|j: int| 0 <= j < i && first_where(olds, has_addr((#[trigger] fresh[j]).id)) == Some(k)
}

/// Old node `k` after the first `i` fresh entries took what is theirs.
spec fn left_over(olds: Seq<NodeMirrorV>, fresh: Seq<NodeEntryV>, i: int, k: int) -> NodeMirrorV {
    NodeMirrorV {
        pending: if given_away(olds, fresh, i, k) {
            Seq::empty()
        } else {
            olds[k].pending
        },
        ..olds[k]
    }
}

/// What of the old mirror is left after the first `i` fresh entries took what is theirs.
spec fn left_overs(olds: Seq<NodeMirrorV>, fresh: Seq<NodeEntryV>, i: int) -> Seq<NodeMirrorV> {
    Seq::new(olds.len(), |k: int| left_over(olds, fresh, i, k))
}

/// The addresses stay where they are, so a node is found at the same place.
proof fn lemma_same_place(olds: Seq<NodeMirrorV>, fresh: Seq<NodeEntryV>, i: int, id: u32)
    ensures
        first_where(left_overs(olds, fresh, i), has_addr(id)) == first_where(olds, has_addr(id)),
{
    let now = left_overs(olds, fresh, i);
    lemma_first_where_holds(olds, has_addr(id));
    match first_where(olds, has_addr(id)) {
        Some(k) => {
            assert forall|j: int| 0 <= j < k implies !has_addr(id)(#[trigger] now[j]) by {
                assert(!has_addr(id)(olds[j]));
            }
            lemma_first_where(now, has_addr(id), k);
        },
        None => {
            assert forall|j: int| 0 <= j < now.len() implies !has_addr(id)(#[trigger] now[j]) by {
                assert(!has_addr(id)(olds[j]));
            }
            lemma_first_where(now, has_addr(id), now.len() as int);
        },
    }
}

/// An entry finds the commands of its node given away exactly where an earlier entry
/// names the same node.
proof fn lemma_given_away(olds: Seq<NodeMirrorV>, fresh: Seq<NodeEntryV>, i: int, k: int)
    requires
        0 <= i < fresh.len(),
        first_where(olds, has_addr(fresh[i].id)) == Some(k),
    ensures
        given_away(olds, fresh, i, k) == listed_before(fresh, i),
{
    lemma_first_where_holds(olds, has_addr(fresh[i].id));
    if given_away(olds, fresh, i, k) {
        let j = choose|j: int|
            0 <= j < i && first_where(olds, has_addr((#[trigger] fresh[j]).id)) == Some(k);
        lemma_first_where_holds(olds, has_addr(fresh[j].id));
        assert(fresh[j].id == fresh[i].id);
    }
    if listed_before(fresh, i) {
        let j = choose|j: int| 0 <= j < i && (#[trigger] fresh[j]).id == fresh[i].id;
        assert(first_where(olds, has_addr(fresh[j].id)) == Some(k));
    }
}

/// Entry `i` takes the commands of the one node that it names.
proof fn lemma_left_overs_step(olds: Seq<NodeMirrorV>, fresh: Seq<NodeEntryV>, i: int)
    requires
        0 <= i < fresh.len(),
    ensures
        left_overs(olds, fresh, i + 1) == match first_where(olds, has_addr(fresh[i].id)) {
            Some(k) => left_overs(olds, fresh, i).update(
                k,
                NodeMirrorV { pending: Seq::empty(), ..left_over(olds, fresh, i, k) },
            ),
            None => left_overs(olds, fresh, i),
        },
{
    let found = first_where(olds, has_addr(fresh[i].id));
    lemma_first_where_holds(olds, has_addr(fresh[i].id));
    assert forall|k: int| 0 <= k < olds.len() implies given_away(olds, fresh, i + 1, k) == (
    given_away(olds, fresh, i, k) || found == Some(k)) by {
        if given_away(olds, fresh, i + 1, k) && found != Some(k) {
            let j = choose|j: int|
                0 <= j < i + 1 && first_where(olds, has_addr((#[trigger] fresh[j]).id)) == Some(k);
            assert(j < i);
        }
        if given_away(olds, fresh, i, k) {
            let j = choose|j: int|
                0 <= j < i && first_where(olds, has_addr((#[trigger] fresh[j]).id)) == Some(k);
            assert(j < i + 1);
        }
        if found == Some(k) {
            assert(first_where(olds, has_addr(fresh[i].id)) == Some(k));
        }
    }
    let next = match found {
        Some(k) => left_overs(olds, fresh, i).update(
            k,
            NodeMirrorV { pending: Seq::empty(), ..left_over(olds, fresh, i, k) },
        ),
        None => left_overs(olds, fresh, i),
    };
    assert forall|k: int| 0 <= k < olds.len() implies left_overs(olds, fresh, i + 1)[k] == #[trigger] next[k] by {
        assert(given_away(olds, fresh, i + 1, k) == (given_away(olds, fresh, i, k) || found == Some(k)));
    }
    assert(left_overs(olds, fresh, i + 1) =~= next);
}

/// Clearing topics leaves the engine as it is.
proof fn lemma_clear_gone_keeps(w: engine_model::World, fresh: Seq<NodeEntryV>, k: nat)
    ensures
        engine_model::clear_gone(w, fresh, k).e == w.e,
    decreases k,
{
    if k > 0 {
        lemma_clear_gone_keeps(w, fresh, (k - 1) as nat);
    }
}

impl Engine {
    /// The rows of the new mirror: what the host knows of the nodes is carried over.
    fn merged_rows(&mut self, fresh: &Vec<NodeEntry>) -> (r: Vec<NodeMirror>)
        ensures
            r.deep_view() == engine_model::merged(old(self)@.nodes, fresh.deep_view()),
            final(self)@ == (EngineV { nodes: final(self)@.nodes, ..old(self)@ }),
    {
        let ghost olds = self@.nodes;
        let ghost fv = fresh.deep_view();
        let ghost before = self@;
        let mut next: Vec<NodeMirror> = Vec::new();
        let mut i: usize = 0;
        assert(self@.nodes =~= left_overs(olds, fv, 0));
        while i < fresh.len()
            invariant
                i <= fresh@.len(),
                fv == fresh.deep_view(),
                next@.len() == i,
                forall|j: int| 0 <= j < i ==> (#[trigger] next@[j]).deep_view() == merged_row(
                    olds,
                    fv,
                    j,
                ),
                self@.nodes == left_overs(olds, fv, i as int),
                self@ == (EngineV { nodes: self@.nodes, ..before }),
            decreases fresh@.len() - i,
        {
            proof {
                lemma_same_place(olds, fv, i as int, fv[i as int].id);
                lemma_left_overs_step(olds, fv, i as int);
            }
            let entry = copy_entry(&fresh[i]);
            match self.find_node(entry.id) {
                Some(k) => {
                    proof {
                        lemma_given_away(olds, fv, i as int, k as int);
                        lemma_first_where_holds(olds, has_addr(fv[i as int].id));
                    }
                    let kind = self.nodes[k].kind.clone();
                    let session_id = self.nodes[k].session_id;
                    let pending = self.take_pending(k);
                    next.push(NodeMirror { entry, kind, session_id, pending });
                },
                None => {
                    let pending: Vec<PendingShell> = Vec::new();
                    assert(pending.deep_view() =~= Seq::<PendingShellV>::empty());
                    next.push(
                        NodeMirror { entry, kind: String::new(), session_id: None, pending },
                    );
                },
            }
            assert(next@[i as int].deep_view() == merged_row(olds, fv, i as int));
            i = i + 1;
        }
        assert(next.deep_view() =~= engine_model::merged(olds, fv));
        next
    }

    /// Takes over a fresh listing of the registry: keeps what the host knows of the nodes
    /// that are still there, publishes them, and clears the others.
    pub(crate) fn merge_registry(&mut self, fresh: Vec<NodeEntry>, out: &mut Vec<Output>)
        ensures
            world(final(self)@, final(out).deep_view()) == engine_model::merge_registry(
                world(old(self)@, old(out).deep_view()),
                fresh.deep_view(),
            ),
    {
        proof {
            reveal(engine_model::merge_registry);
        }
        let ghost w0 = world(self@, out.deep_view());
        let ghost fv = fresh.deep_view();
        let mut i: usize = 0;
        while i < self.nodes.len()
            invariant
                i <= self.nodes@.len(),
                fv == fresh.deep_view(),
                w0.e == self@,
                world(self@, out.deep_view()) == engine_model::clear_gone(w0, fv, i as nat),
            decreases self.nodes@.len() - i,
        {
            let id = self.nodes[i].entry.id;
            if !is_listed(&fresh, id) {
                clear_topic(out, topics::node(self.prefix.as_str(), id));
            }
            i = i + 1;
        }
        proof {
            lemma_clear_gone_keeps(w0, fv, w0.e.nodes.len());
        }
        let next = self.merged_rows(&fresh);
        self.nodes = next;
        let ghost w2 = world(self@, out.deep_view());
        let mut i: usize = 0;
        while i < self.nodes.len()
            invariant
                i <= self.nodes@.len(),
                w2.e == self@,
                world(self@, out.deep_view()) == engine_model::publish_nodes(w2, i as nat),
            decreases self.nodes@.len() - i,
        {
            self.publish_node(out, i);
            i = i + 1;
        }
        self.emit_registry(out);
    }

    fn forget_node(&mut self, id: u32, out: &mut Vec<Output>)
        ensures
            world(final(self)@, final(out).deep_view()) == engine_model::forget_node(
                world(old(self)@, old(out).deep_view()),
                id,
            ),
    {
        proof {
            reveal(engine_model::forget_node);
        }
        if let Some(i) = self.find_node(id) {
            self.shell_errors(out, id, &self.nodes[i].pending, "node removed");
            proof {
                let ps = self@.nodes[i as int].pending;
                lemma_shell_errors_keep(
                    world(old(self)@, old(out).deep_view()),
                    id,
                    ps,
                    "node removed"@,
                    ps.len(),
                );
                lemma_deep_remove(self.nodes@, i as int);
            }
            let _ = self.nodes.remove(i);
            assert(self.nodes.deep_view() =~= old(self).nodes.deep_view().remove(i as int));
        }
        clear_topic(out, topics::node(self.prefix.as_str(), id));
        clear_topic(out, topics::node_temperature(self.prefix.as_str(), id));
        clear_topic(out, topics::node_shell_pending(self.prefix.as_str(), id));
        self.emit_registry(out);
    }

    fn now_pending(
        &mut self,
        node: u32,
        origin: Option<crate::engine_state::ShellOrigin>,
        item: u16,
        out: &mut Vec<Output>,
    )
        ensures
            world(final(self)@, final(out).deep_view()) == engine_model::now_pending(
                world(old(self)@, old(out).deep_view()),
                node,
                origin.deep_view(),
                item,
            ),
    {
        proof {
            reveal(engine_model::now_pending);
        }
        if let Some(o) = origin {
            if let Some(i) = self.find_node(node) {
                let ghost before = self.nodes@;
                let p = PendingShell {
                    item,
                    rpc: o.rpc,
                    line: o.line,
                    cmd_id: o.cmd_id,
                    delivered_tick: None,
                    next_chunk: 0,
                    truncated: false,
                };
                proof {
                    lemma_deep_push(before[i as int].pending@, p);
                }
                self.nodes[i].pending.push(p);
                proof {
                    assert(self.nodes@ =~= before.update(i as int, self.nodes@[i as int]));
                    lemma_deep_update(before, i as int, self.nodes@[i as int]);
                    assert(self.nodes@[i as int].pending.deep_view()
                        =~= before[i as int].pending.deep_view().push(p.deep_view()));
                }
                self.publish_pending(out, i);
                self.publish_node(out, i);
            }
        }
    }

    fn on_success(&mut self, op: OpKind, rpc: &Option<String>, data: &Vec<u8>, out: &mut Vec<Output>)
        ensures
            forall|p: crate::engine_state::PendingMgmtV|
                p.op == op.deep_view() && p.rpc == rpc.deep_view() && p.data == data@ ==> world(
                    final(self)@,
                    final(out).deep_view(),
                ) == #[trigger] engine_model::on_success(
                    world(old(self)@, old(out).deep_view()),
                    p,
                ),
    {
        proof {
            reveal(engine_model::on_success);
        }
        match op {
            OpKind::Describe => {
                if let Some(info) = parse_device_info(&self.wire, data.as_slice()) {
                    self.describe = info;
                    self.publish_status(out);
                }
                let gateway = topics::node_hex(self.describe.net_id);
                self.rpc_ok(out, rpc, RpcData::Gateway(gateway));
            },
            OpKind::NodeList => {
                let fresh = parse_node_entries(data.as_slice());
                self.merge_registry(fresh, out);
                let nodes = self.node_payloads();
                self.rpc_ok(out, rpc, RpcData::Nodes(nodes));
            },
            OpKind::NodeAdd { id, name } => {
                say(
                    out,
                    cat5(
                        "node ",
                        topics::node_hex(id).as_str(),
                        " added (",
                        name.as_str(),
                        ")",
                    ),
                );
                self.rpc_ok(out, rpc, RpcData::Null);
                self.list_nodes(out);
            },
            OpKind::NodeRemove { id } => {
                self.forget_node(id, out);
                self.rpc_ok(out, rpc, RpcData::Null);
            },
            OpKind::NodeUpdate => {
                self.rpc_ok(out, rpc, RpcData::Null);
                self.list_nodes(out);
            },
            OpKind::RevealKey { id } => match decode_node_key(data.as_slice()) {
                Some(key) => {
                    let d = RpcData::Key { node: topics::node_hex(id), key: bytes_hex(&key) };
                    self.rpc_ok(out, rpc, d);
                },
                None => self.rpc_err(out, rpc, "malformed key record"),
            },
            OpKind::PairingOpen => {
                self.pairing_rpc = None;
                self.pairing_until = None;
                let joined = match decode_paired(data.as_slice()) {
                    Some(a) => Some(topics::node_hex(a)),
                    None => None,
                };
                let line = match &joined {
                    Some(h) => cat3("node ", h.as_str(), " paired"),
                    None => "pairing window resolved".to_owned(),
                };
                say(out, line);
                self.publish_pairing(out, copy_opt(&joined));
                self.rpc_ok(out, rpc, RpcData::Joined(joined));
                self.list_nodes(out);
            },
            OpKind::PairingCancel => self.rpc_ok(out, rpc, RpcData::Null),
            OpKind::QueuePush { node, shell } => match decode_queue_id(data.as_slice()) {
                Some(item) => {
                    self.now_pending(node, shell, item, out);
                    self.rpc_ok(out, rpc, RpcData::Item(item));
                },
                None => self.rpc_err(out, rpc, "malformed queue id"),
            },
            OpKind::QueueList => {
                let rows = queue_rows(&parse_queue_entries(data.as_slice()));
                self.rpc_ok(out, rpc, RpcData::Queue(rows));
            },
            OpKind::QueueDrop { node } => {
                self.rpc_ok(out, rpc, RpcData::Null);
                if let Some(i) = self.find_node(node) {
                    self.publish_pending(out, i);
                }
                self.list_nodes(out);
            },
            OpKind::StatsConfig => self.rpc_ok(out, rpc, RpcData::Null),
        }
    }

    fn on_refusal(
        &mut self,
        op: OpKind,
        rpc: &Option<String>,
        result: u8,
        error: &str,
        out: &mut Vec<Output>,
    )
        ensures
            forall|p: crate::engine_state::PendingMgmtV|
                p.op == op.deep_view() && p.rpc == rpc.deep_view() ==> world(
                    final(self)@,
                    final(out).deep_view(),
                ) == #[trigger] engine_model::on_refusal(
                    world(old(self)@, old(out).deep_view()),
                    p,
                    result,
                    error@,
                ),
    {
        proof {
            reveal(engine_model::on_refusal);
        }
        match op {
            OpKind::PairingOpen => {
                self.pairing_rpc = None;
                self.pairing_until = None;
                self.publish_pairing(out, None);
                if result == self.wire.mgmt_timeout {
                    self.rpc_ok(out, rpc, RpcData::Joined(None));
                } else {
                    self.rpc_err(out, rpc, error);
                }
            },
            OpKind::QueuePush { node, shell } => {
                if let Some(o) = shell {
                    let code: u8 = if result >= 1 { result } else { 1 };
                    self.shell_fail(out, node, o.rpc.as_str(), code, error);
                }
                self.rpc_err(out, rpc, error);
            },
            _ => self.rpc_err(out, rpc, error),
        }
    }

    /// A reply is complete: what it means depends on what was asked.
    fn on_mgmt_done(&mut self, p: PendingMgmt, result: u8, out: &mut Vec<Output>)
        ensures
            world(final(self)@, final(out).deep_view()) == engine_model::on_mgmt_done(
                world(old(self)@, old(out).deep_view()),
                p.deep_view(),
                result,
            ),
    {
        proof {
            reveal(engine_model::on_mgmt_done);
        }
        let ghost pv = p.deep_view();
        let ghost w0 = world(self@, out.deep_view());
        match mgmt_error_str(&self.wire, result) {
            None => {
                self.on_success(p.op, &p.rpc, &p.data, out);
                assert(world(self@, out.deep_view()) == engine_model::on_success(w0, pv));
            },
            Some(error) => {
                self.on_refusal(p.op, &p.rpc, result, error, out);
                assert(world(self@, out.deep_view()) == engine_model::on_refusal(
                    w0,
                    pv,
                    result,
                    error@,
                ));
            },
        }
        if p.truncated {
            say(
                out,
                cat3(
                    "management reply ",
                    dec_u64(p.req_id as u64).as_str(),
                    " arrived truncated (chunk gap)",
                ),
            );
        }
    }

    /// One chunk of a management reply.
    pub(crate) fn on_mgmt_chunk(
        &mut self,
        req_id: u16,
        result: u8,
        chunk: u16,
        last: bool,
        data: Vec<u8>,
        out: &mut Vec<Output>,
    )
        ensures
            world(final(self)@, final(out).deep_view()) == engine_model::on_mgmt_chunk(
                world(old(self)@, old(out).deep_view()),
                req_id,
                result,
                chunk,
                last,
                data@,
            ),
    {
        proof {
            reveal(engine_model::on_mgmt_chunk);
        }
        let k = match self.find_req(req_id) {
            Some(k) => k,
            None => {
                return;
            },
        };
        let ghost before = self.pending_mgmt@;
        if self.pending_mgmt[k].next_chunk != chunk {
            self.pending_mgmt[k].truncated = true;
        }
        self.pending_mgmt[k].next_chunk = chunk.wrapping_add(1);
        append_bytes(&mut self.pending_mgmt[k].data, &data);
        proof {
            assert(self.pending_mgmt@ =~= before.update(k as int, self.pending_mgmt@[k as int]));
            lemma_deep_update(before, k as int, self.pending_mgmt@[k as int]);
        }
        if last {
            proof {
                lemma_deep_remove(self.pending_mgmt@, k as int);
            }
            let ghost now = self.pending_mgmt@;
            let done = self.pending_mgmt.remove(k);
            assert(self.pending_mgmt.deep_view() =~= crate::text::deep(now).remove(k as int));
            self.on_mgmt_done(done, result, out);
        }
    }
}

} // verus!

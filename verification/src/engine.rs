//! The gateway engine: a state machine from inputs to outputs, without I/O, threads or
//! clocks. It mirrors the dongle's registry into retained topics, turns uplinks into
//! telemetry topics, correlates remote-shell requests with queue items and replies,
//! serves the requests of `gateway/cmd`, streams radio diagnostics, and keeps
//! `gateway/status` true across link changes and reboots of the gateway.

use crate::engine_model;
use crate::engine_model::{
    has_addr, has_cmd, has_item, has_name, has_req, world, MGMT_TIMEOUT_TICKS,
};
use crate::engine_state::{
    Engine, EngineV, Event, EventV, NodeMirror, NodeView, OpKind, Output, OutputV, PendingMgmt,
    PendingShell,
};
use crate::mgmt::{DeviceInfo, MgmtOp};
use crate::payload::{
    pending_text, Node, Pairing, PendingEntry, RpcData, RpcResponse, ShellRsp, Stats, Status,
    SCHEMA,
};
use crate::text::{first_where, lemma_first_where, push_deep, same, strip_prefix};
use crate::topics;
use crate::wire::Wire;
use vstd::prelude::*;
use vstd::string::*;
use vstd::utf8::*;

verus! {

/// Publishes a text.
pub(crate) fn publish_text(out: &mut Vec<Output>, topic: String, text: &str, retain: bool)
    ensures
        final(out).deep_view() == old(out).deep_view().push(
            OutputV::Publish { topic: topic@, payload: encode_utf8(text@), retain },
        ),
{
    let payload = text.as_bytes_vec();
    push_deep(out, Output::Publish { topic, payload, retain });
}

/// Clears a retained topic.
pub(crate) fn clear_topic(out: &mut Vec<Output>, topic: String)
    ensures
        final(out).deep_view() == old(out).deep_view().push(
            OutputV::Publish { topic: topic@, payload: Seq::empty(), retain: true },
        ),
{
    let payload: Vec<u8> = Vec::new();
    assert(payload@ =~= Seq::<u8>::empty());
    push_deep(out, Output::Publish { topic, payload, retain: true });
}

/// Puts out a line for people.
pub(crate) fn say(out: &mut Vec<Output>, line: String)
    ensures
        final(out).deep_view() == old(out).deep_view().push(OutputV::Event(EventV::Log(line@))),
{
    push_deep(out, Output::Event(Event::Log(line)));
}

/// The queue of a node as it is published.
fn pending_list(pending: &Vec<PendingShell>) -> (r: Vec<PendingEntry>)
    ensures
        r.deep_view() == engine_model::pending_entries(pending.deep_view()),
{
    proof {
        reveal(engine_model::pending_entries);
    }
    let mut v: Vec<PendingEntry> = Vec::new();
    let mut i: usize = 0;
    while i < pending.len()
        invariant
            i <= pending@.len(),
            v@.len() == i,
            forall|j: int| 0 <= j < i ==> (#[trigger] v@[j]).deep_view() == engine_model::pending_entry(
                pending@[j].deep_view(),
            ),
        decreases pending@.len() - i,
    {
        let p = &pending[i];
        v.push(PendingEntry { item: p.item, id: p.rpc.clone(), line: p.line.clone() });
        i = i + 1;
    }
    assert(v.deep_view() =~= engine_model::pending_entries(pending.deep_view()));
    v
}

impl Engine {
    /// An engine that has just attached to the gateway on `port_name`.
    pub fn new(wire: Wire, prefix: String, port_name: String, describe: DeviceInfo) -> (r: Engine)
        ensures
            r@ == (EngineV {
                wire,
                prefix: prefix@,
                port_name: port_name@,
                describe: describe.deep_view(),
                hello_session: None,
                firmware_version: Seq::empty(),
                serial_up: true,
                mqtt_up: false,
                seq: 0,
                next_req: 1,
                next_cmd: 1,
                pending_mgmt: Seq::empty(),
                nodes: Seq::empty(),
                pairing_rpc: None,
                pairing_until: None,
                tick: 0,
                uplinks: 0,
                last_ambient: None,
            }),
    {
        Engine {
            wire,
            prefix,
            port_name,
            describe,
            hello_session: None,
            firmware_version: String::new(),
            serial_up: true,
            mqtt_up: false,
            seq: 0,
            next_req: 1,
            next_cmd: 1,
            pending_mgmt: Vec::new(),
            nodes: Vec::new(),
            pairing_rpc: None,
            pairing_until: None,
            tick: 0,
            uplinks: 0,
            last_ambient: None,
        }
    }

    // ---- what the mirror shows -----------------------------------------------------

    fn last_seen(&self, n: &NodeMirror) -> (r: Option<u32>)
        ensures
            r == engine_model::last_seen(self@, n.deep_view()),
    {
        if n.entry.last_seen_s != self.wire.last_seen_never {
            Some(n.entry.last_seen_s)
        } else {
            None
        }
    }

    fn rssi(&self, n: &NodeMirror) -> (r: Option<i8>)
        ensures
            r == engine_model::rssi(self@, n.deep_view()),
    {
        if n.entry.rssi_dbm != self.wire.rssi_none {
            Some(n.entry.rssi_dbm)
        } else {
            None
        }
    }

    fn queued(&self, n: &NodeMirror) -> (r: u8)
        ensures
            r == engine_model::queued(n.deep_view()),
    {
        let held: u8 = (n.pending.len() % 0x100) as u8;
        if n.entry.queued >= held {
            n.entry.queued
        } else {
            held
        }
    }

    fn node_payload(&self, n: &NodeMirror) -> (r: Node)
        ensures
            r.deep_view() == engine_model::node_payload(self@, n.deep_view()),
    {
        proof {
            reveal(engine_model::node_payload);
        }
        Node {
            id: topics::node_hex(n.entry.id),
            name: n.entry.name.clone(),
            kind: n.kind.clone(),
            sleeping: n.entry.flags & self.wire.flag_sleeping != 0,
            unnamed: n.entry.flags & self.wire.flag_unnamed != 0,
            last_seen_s: self.last_seen(n),
            rssi_dbm: self.rssi(n),
            uplinks: n.entry.uplinks,
            queued: self.queued(n),
        }
    }

    /// The registry as it is published.
    pub fn node_payloads(&self) -> (r: Vec<Node>)
        ensures
            r.deep_view() == engine_model::node_payloads(self@),
    {
        proof {
            reveal(engine_model::node_payloads);
        }
        let mut v: Vec<Node> = Vec::new();
        let mut i: usize = 0;
        while i < self.nodes.len()
            invariant
                i <= self.nodes@.len(),
                v@.len() == i,
                forall|j: int| 0 <= j < i ==> (#[trigger] v@[j]).deep_view()
                    == engine_model::node_payload(self@, self.nodes@[j].deep_view()),
            decreases self.nodes@.len() - i,
        {
            v.push(self.node_payload(&self.nodes[i]));
            i = i + 1;
        }
        assert(v.deep_view() =~= engine_model::node_payloads(self@));
        v
    }

    fn node_view(&self, n: &NodeMirror) -> (r: NodeView)
        ensures
            r.deep_view() == engine_model::node_view(self@, n.deep_view()),
    {
        NodeView {
            addr: n.entry.id,
            name: n.entry.name.clone(),
            kind: n.kind.clone(),
            sleeping: n.entry.flags & self.wire.flag_sleeping != 0,
            unnamed: n.entry.flags & self.wire.flag_unnamed != 0,
            last_seen_s: self.last_seen(n),
            rssi_dbm: self.rssi(n),
            uplinks: n.entry.uplinks,
            queued: self.queued(n),
            pending: pending_list(&n.pending),
        }
    }

    pub(crate) fn emit_registry(&self, out: &mut Vec<Output>)
        ensures
            world(self@, final(out).deep_view()) == engine_model::emit_registry(
                world(self@, old(out).deep_view()),
            ),
    {
        let mut v: Vec<NodeView> = Vec::new();
        let mut i: usize = 0;
        while i < self.nodes.len()
            invariant
                i <= self.nodes@.len(),
                v@.len() == i,
                forall|j: int| 0 <= j < i ==> (#[trigger] v@[j]).deep_view()
                    == engine_model::node_view(self@, self.nodes@[j].deep_view()),
            decreases self.nodes@.len() - i,
        {
            v.push(self.node_view(&self.nodes[i]));
            i = i + 1;
        }
        proof {
            reveal(engine_model::node_views);
        }
        assert(v.deep_view() =~= engine_model::node_views(self@));
        push_deep(out, Output::Event(Event::Registry(v)));
    }

    pub(crate) fn publish_node(&self, out: &mut Vec<Output>, i: usize)
        requires
            i < self.nodes@.len(),
        ensures
            world(self@, final(out).deep_view()) == engine_model::publish_node(
                world(self@, old(out).deep_view()),
                i as int,
            ),
    {
        let n = &self.nodes[i];
        let topic = topics::node(self.prefix.as_str(), n.entry.id);
        let text = self.node_payload(n).to_json();
        publish_text(out, topic, text.as_str(), true);
    }

    pub(crate) fn publish_pending(&self, out: &mut Vec<Output>, i: usize)
        requires
            i < self.nodes@.len(),
        ensures
            world(self@, final(out).deep_view()) == engine_model::publish_pending(
                world(self@, old(out).deep_view()),
                i as int,
            ),
    {
        let n = &self.nodes[i];
        let topic = topics::node_shell_pending(self.prefix.as_str(), n.entry.id);
        let text = pending_text(&pending_list(&n.pending));
        publish_text(out, topic, text.as_str(), true);
        self.emit_registry(out);
    }

    pub(crate) fn publish_status(&self, out: &mut Vec<Output>)
        ensures
            world(self@, final(out).deep_view()) == engine_model::publish_status(
                world(self@, old(out).deep_view()),
            ),
    {
        let state = if self.serial_up { "online" } else { "degraded" };
        let status = Status {
            state: state.to_owned(),
            schema: SCHEMA,
            gateway: topics::node_hex(self.describe.net_id),
            firmware: self.describe.firmware_name.clone(),
            firmware_version: self.firmware_version.clone(),
            session_id: self.hello_session.unwrap_or(0),
            protocol: self.wire.protocol_version,
            serial_port: self.port_name.clone(),
            serial_up: self.serial_up,
        };
        let topic = topics::gateway_status(self.prefix.as_str());
        let text = status.to_json();
        publish_text(out, topic, text.as_str(), true);
    }

    fn total_queued(&self) -> (r: u32)
        ensures
            r == engine_model::total_queued(self@.nodes, self@.nodes.len()),
    {
        let mut total: u32 = 0;
        let mut i: usize = 0;
        while i < self.nodes.len()
            invariant
                i <= self.nodes@.len(),
                total == engine_model::total_queued(self@.nodes, i as nat),
            decreases self.nodes@.len() - i,
        {
            let n: usize = self.nodes[i].pending.len();
            total = if n > u32::MAX as usize {
                u32::MAX
            } else {
                total.saturating_add(n as u32)
            };
            i = i + 1;
        }
        total
    }

    pub(crate) fn publish_stats(&self, out: &mut Vec<Output>)
        ensures
            world(self@, final(out).deep_view()) == engine_model::publish_stats(
                world(self@, old(out).deep_view()),
            ),
    {
        let nodes: u32 = (self.nodes.len() as u64 % 0x1_0000_0000) as u32;
        let stats = Stats {
            uptime_s: self.tick,
            nodes,
            uplinks: self.uplinks,
            queued: self.total_queued(),
            rssi_dbm: match self.last_ambient {
                Some((dbm, _)) => Some(dbm),
                None => None,
            },
            channel: match self.last_ambient {
                Some((_, channel)) => Some(channel),
                None => None,
            },
        };
        let topic = topics::gateway_stats(self.prefix.as_str());
        let text = stats.to_json();
        publish_text(out, topic, text.as_str(), true);
    }

    pub(crate) fn publish_pairing(&self, out: &mut Vec<Output>, joined: Option<String>)
        ensures
            world(self@, final(out).deep_view()) == engine_model::publish_pairing(
                world(self@, old(out).deep_view()),
                joined.deep_view(),
            ),
    {
        let p = match self.pairing_until {
            Some(until) => Pairing {
                state: "open".to_owned(),
                remaining_s: Some(until.saturating_sub(self.tick)),
                joined,
            },
            None => Pairing { state: "idle".to_owned(), remaining_s: None, joined },
        };
        let topic = topics::gateway_pairing(self.prefix.as_str());
        let text = p.to_json();
        publish_text(out, topic, text.as_str(), true);
        push_deep(out, Output::Event(Event::Pairing(p)));
    }

    // ---- answering requests --------------------------------------------------------

    fn rpc_respond(&self, out: &mut Vec<Output>, rsp: RpcResponse)
        ensures
            world(self@, final(out).deep_view()) == engine_model::rpc_respond(
                world(self@, old(out).deep_view()),
                rsp.deep_view(),
            ),
    {
        match strip_prefix(rsp.id.as_str(), "tui-") {
            Some(_) => push_deep(out, Output::Event(Event::Rpc(rsp))),
            None => {
                let topic = topics::gateway_rsp(self.prefix.as_str(), rsp.id.as_str());
                let text = rsp.to_json();
                publish_text(out, topic, text.as_str(), false);
            },
        }
    }

    pub(crate) fn rpc_ok(&self, out: &mut Vec<Output>, rpc: &Option<String>, data: RpcData)
        ensures
            world(self@, final(out).deep_view()) == engine_model::rpc_ok(
                world(self@, old(out).deep_view()),
                rpc.deep_view(),
                data.deep_view(),
            ),
    {
        if let Some(id) = rpc {
            self.rpc_respond(out, RpcResponse { id: id.clone(), ok: true, error: None, data });
        }
    }

    pub(crate) fn rpc_err_direct(&self, out: &mut Vec<Output>, id: &str, error: &str)
        ensures
            world(self@, final(out).deep_view()) == engine_model::rpc_err_direct(
                world(self@, old(out).deep_view()),
                id@,
                error@,
            ),
    {
        self.rpc_respond(
            out,
            RpcResponse {
                id: id.to_owned(),
                ok: false,
                error: Some(error.to_owned()),
                data: RpcData::Null,
            },
        );
    }

    pub(crate) fn rpc_err(&self, out: &mut Vec<Output>, rpc: &Option<String>, error: &str)
        ensures
            world(self@, final(out).deep_view()) == engine_model::rpc_err(
                world(self@, old(out).deep_view()),
                rpc.deep_view(),
                error@,
            ),
    {
        if let Some(id) = rpc {
            self.rpc_err_direct(out, id.as_str(), error);
        }
    }

    pub(crate) fn shell_reply(&self, out: &mut Vec<Output>, node: u32, rsp: ShellRsp)
        ensures
            world(self@, final(out).deep_view()) == engine_model::shell_reply(
                world(self@, old(out).deep_view()),
                node,
                rsp.deep_view(),
            ),
    {
        let topic = topics::node_shell_rsp(self.prefix.as_str(), node);
        let text = rsp.to_json();
        publish_text(out, topic, text.as_str(), false);
        push_deep(out, Output::Event(Event::Shell { node, rsp }));
    }

    /// Publishes the final error of a pending command.
    pub(crate) fn shell_error(&self, out: &mut Vec<Output>, node: u32, p: &PendingShell, error: &str)
        ensures
            world(self@, final(out).deep_view()) == engine_model::shell_error(
                world(self@, old(out).deep_view()),
                node,
                p.deep_view(),
                error@,
            ),
    {
        let rsp = ShellRsp {
            id: p.rpc.clone(),
            chunk: p.next_chunk,
            text: String::new(),
            done: true,
            result: 1,
            truncated: p.truncated,
            error: Some(error.to_owned()),
        };
        self.shell_reply(out, node, rsp);
    }

    pub(crate) fn shell_fail(
        &self,
        out: &mut Vec<Output>,
        node: u32,
        id: &str,
        result: u8,
        error: &str,
    )
        ensures
            world(self@, final(out).deep_view()) == engine_model::shell_fail(
                world(self@, old(out).deep_view()),
                node,
                id@,
                result,
                error@,
            ),
    {
        let rsp = ShellRsp {
            id: id.to_owned(),
            chunk: 0,
            text: String::new(),
            done: true,
            result,
            truncated: false,
            error: Some(error.to_owned()),
        };
        self.shell_reply(out, node, rsp);
    }

    /// Publishes the final errors of commands that were pending.
    pub(crate) fn shell_errors(
        &self,
        out: &mut Vec<Output>,
        node: u32,
        ps: &Vec<PendingShell>,
        error: &str,
    )
        ensures
            world(self@, final(out).deep_view()) == engine_model::shell_errors(
                world(self@, old(out).deep_view()),
                node,
                ps.deep_view(),
                error@,
                ps@.len(),
            ),
    {
        let ghost w0 = world(self@, out.deep_view());
        let mut i: usize = 0;
        while i < ps.len()
            invariant
                i <= ps@.len(),
                world(self@, out.deep_view()) == engine_model::shell_errors(
                    w0,
                    node,
                    ps.deep_view(),
                    error@,
                    i as nat,
                ),
            decreases ps@.len() - i,
        {
            self.shell_error(out, node, &ps[i], error);
            i = i + 1;
        }
    }

    // ---- sending requests ----------------------------------------------------------

    /// Takes the next id, sends `op` and waits `timeout_ticks` for its reply.
    pub(crate) fn issue_delayed(
        &mut self,
        out: &mut Vec<Output>,
        kind: OpKind,
        op: MgmtOp,
        rpc: Option<String>,
        timeout_ticks: u64,
    )
        ensures
            world(final(self)@, final(out).deep_view()) == engine_model::issue_delayed(
                world(old(self)@, old(out).deep_view()),
                kind.deep_view(),
                op.deep_view(),
                rpc.deep_view(),
                timeout_ticks,
            ),
    {
        let req_id = self.next_req;
        let seq = self.seq;
        self.next_req = next_id(req_id);
        self.seq = seq.wrapping_add(1);
        let deadline = self.tick.saturating_add(timeout_ticks);
        let data: Vec<u8> = Vec::new();
        assert(data@ =~= Seq::<u8>::empty());
        push_deep(
            &mut self.pending_mgmt,
            PendingMgmt { req_id, op: kind, rpc, data, next_chunk: 0, truncated: false, deadline },
        );
        push_deep(out, Output::SerialSend { seq, req_id, op });
    }

    /// Sends `op` and waits the usual time for its reply.
    pub fn issue(
        &mut self,
        out: &mut Vec<Output>,
        kind: OpKind,
        op: MgmtOp,
        rpc: Option<String>,
    )
        ensures
            world(final(self)@, final(out).deep_view()) == engine_model::issue(
                world(old(self)@, old(out).deep_view()),
                kind.deep_view(),
                op.deep_view(),
                rpc.deep_view(),
            ),
    {
        self.issue_delayed(out, kind, op, rpc, MGMT_TIMEOUT_TICKS);
    }

    pub(crate) fn list_nodes(&mut self, out: &mut Vec<Output>)
        ensures
            world(final(self)@, final(out).deep_view()) == engine_model::list_nodes(
                world(old(self)@, old(out).deep_view()),
            ),
    {
        self.issue(out, OpKind::NodeList, MgmtOp::NodeList, None);
    }

    // ---- finding things ------------------------------------------------------------

    pub(crate) fn find_node(&self, id: u32) -> (r: Option<usize>)
        ensures
            match r {
                Some(i) => i < self.nodes@.len() && engine_model::find_node(self@, id) == Some(i as int),
                None => engine_model::find_node(self@, id) is None,
            },
    {
        let mut i: usize = 0;
        while i < self.nodes.len()
            invariant
                i <= self.nodes@.len(),
                forall|j: int| 0 <= j < i ==> !has_addr(id)(#[trigger] self@.nodes[j]),
            decreases self.nodes@.len() - i,
        {
            if self.nodes[i].entry.id == id {
                proof {
                    lemma_first_where(self@.nodes, has_addr(id), i as int);
                }
                return Some(i);
            }
            i = i + 1;
        }
        proof {
            lemma_first_where(self@.nodes, has_addr(id), i as int);
        }
        None
    }

    pub(crate) fn find_name(&self, name: &str) -> (r: Option<usize>)
        ensures
            match r {
                Some(i) => i < self.nodes@.len() && first_where(self@.nodes, has_name(name@)) == Some(
                    i as int,
                ),
                None => first_where(self@.nodes, has_name(name@)) is None,
            },
    {
        let mut i: usize = 0;
        while i < self.nodes.len()
            invariant
                i <= self.nodes@.len(),
                forall|j: int| 0 <= j < i ==> !has_name(name@)(#[trigger] self@.nodes[j]),
            decreases self.nodes@.len() - i,
        {
            if same(self.nodes[i].entry.name.as_str(), name) {
                proof {
                    lemma_first_where(self@.nodes, has_name(name@), i as int);
                }
                return Some(i);
            }
            i = i + 1;
        }
        proof {
            lemma_first_where(self@.nodes, has_name(name@), i as int);
        }
        None
    }

    pub(crate) fn find_req(&self, req_id: u16) -> (r: Option<usize>)
        ensures
            match r {
                Some(i) => i < self.pending_mgmt@.len() && first_where(
                    self@.pending_mgmt,
                    has_req(req_id),
                ) == Some(i as int),
                None => first_where(self@.pending_mgmt, has_req(req_id)) is None,
            },
    {
        let mut i: usize = 0;
        while i < self.pending_mgmt.len()
            invariant
                i <= self.pending_mgmt@.len(),
                forall|j: int| 0 <= j < i ==> !has_req(req_id)(#[trigger] self@.pending_mgmt[j]),
            decreases self.pending_mgmt@.len() - i,
        {
            if self.pending_mgmt[i].req_id == req_id {
                proof {
                    lemma_first_where(self@.pending_mgmt, has_req(req_id), i as int);
                }
                return Some(i);
            }
            i = i + 1;
        }
        proof {
            lemma_first_where(self@.pending_mgmt, has_req(req_id), i as int);
        }
        None
    }
}

/// The id behind `id`: never 0.
pub(crate) fn next_id(id: u16) -> (r: u16)
    ensures
        r == engine_model::next_id(id),
{
    match id.checked_add(1) {
        Some(n) => n,
        None => 1,
    }
}

pub(crate) fn find_item(ps: &Vec<PendingShell>, item: u16) -> (r: Option<usize>)
    ensures
        match r {
            Some(i) => i < ps@.len() && first_where(ps.deep_view(), has_item(item)) == Some(i as int),
            None => first_where(ps.deep_view(), has_item(item)) is None,
        },
{
    let mut i: usize = 0;
    while i < ps.len()
        invariant
            i <= ps@.len(),
            forall|j: int| 0 <= j < i ==> !has_item(item)(#[trigger] ps.deep_view()[j]),
        decreases ps@.len() - i,
    {
        if ps[i].item == item {
            proof {
                lemma_first_where(ps.deep_view(), has_item(item), i as int);
            }
            return Some(i);
        }
        i = i + 1;
    }
    proof {
        lemma_first_where(ps.deep_view(), has_item(item), i as int);
    }
    None
}

pub(crate) fn find_cmd(ps: &Vec<PendingShell>, cmd_id: u16) -> (r: Option<usize>)
    ensures
        match r {
            Some(i) => i < ps@.len() && first_where(ps.deep_view(), has_cmd(cmd_id)) == Some(i as int),
            None => first_where(ps.deep_view(), has_cmd(cmd_id)) is None,
        },
{
    let mut i: usize = 0;
    while i < ps.len()
        invariant
            i <= ps@.len(),
            forall|j: int| 0 <= j < i ==> !has_cmd(cmd_id)(#[trigger] ps.deep_view()[j]),
        decreases ps@.len() - i,
    {
        if ps[i].cmd_id == cmd_id {
            proof {
                lemma_first_where(ps.deep_view(), has_cmd(cmd_id), i as int);
            }
            return Some(i);
        }
        i = i + 1;
    }
    proof {
        lemma_first_where(ps.deep_view(), has_cmd(cmd_id), i as int);
    }
    None
}

} // verus!

//! What the engine does with requests, ticks and link changes, and the engine as a whole.

use crate::engine::{next_id, say};
use crate::engine_model;
use crate::engine_model::{
    key_byte, key_of, world, PAIRING_SLACK_TICKS, SHELL_REPLY_TIMEOUT_TICKS, STATS_EVERY_TICKS,
};
use crate::engine_state::{
    Engine, Event, FrontendCmd, Input, OpKind, Output, OutputV, ShellOrigin,
};
use crate::entropy::{mint_key, now_ts};
use crate::mgmt::MgmtOp;
use crate::payload::{RpcParams, RpcRequest, ShellReq};
use crate::text::{
    byte_len, cat2, cat3, cat7, chars_of, dec_u64, digit_value, lemma_deep_remove, push_deep, same,
    value_of,
};
use crate::topics;
use crate::topics::Inbound;
use vstd::prelude::*;
use vstd::string::*;

verus! {

/// Parses an AES key of 32 hexadecimal digits.
pub fn parse_key_hex(s: &str) -> (r: Option<[u8; 16]>)
    ensures
        match r {
            Some(k) => key_of(s@) == Some(k@),
            None => key_of(s@) is None,
        },
{
    let v = chars_of(s);
    if v.len() != 32 {
        return None;
    }
    let mut key = [0u8; 16];
    let mut i: usize = 0;
    while i < 16
        invariant
            i <= 16,
            v@ == s@,
            v@.len() == 32,
            forall|j: int| 0 <= j < 2 * i ==> digit_value(#[trigger] s@[j]) is Some,
            forall|j: int| 0 <= j < i ==> #[trigger] key@[j] == key_byte(s@, j),
        decreases 16 - i,
    {
        let hi: u32 = match value_of(v[2 * i]) {
            Some(d) => d,
            None => {
                assert(digit_value(s@[2 * i]) is None);
                return None;
            },
        };
        let lo: u32 = match value_of(v[2 * i + 1]) {
            Some(d) => d,
            None => {
                assert(digit_value(s@[2 * i + 1]) is None);
                return None;
            },
        };
        key[i] = (16 * hi + lo) as u8;
        i = i + 1;
    }
    assert(key@ =~= Seq::new(16, |i: int| key_byte(s@, i)));
    Some(key)
}

fn opt_addr(s: &Option<String>) -> (r: Option<u32>)
    ensures
        r == engine_model::opt_addr(s.deep_view()),
{
    match s {
        Some(t) => topics::parse_node_hex(t.as_str()),
        None => None,
    }
}

fn opt_key(s: &Option<String>) -> (r: Option<[u8; 16]>)
    ensures
        match r {
            Some(k) => engine_model::opt_key(s.deep_view()) == Some(k@),
            None => engine_model::opt_key(s.deep_view()) is None,
        },
{
    match s {
        Some(t) => parse_key_hex(t.as_str()),
        None => None,
    }
}

fn window(params: &RpcParams) -> (r: u16)
    ensures
        r == engine_model::window(params.deep_view()),
        1 <= r <= 600,
{
    match params.window_s {
        None => 60,
        Some(n) => if n < 1 {
            1
        } else if n > 600 {
            600
        } else {
            n as u16
        },
    }
}

fn stats_period(params: &RpcParams) -> (r: u32)
    ensures
        r == engine_model::stats_period(params.deep_view()),
{
    match params.period_ms {
        None => 1000,
        Some(n) => if n > 60_000 {
            60_000
        } else {
            n as u32
        },
    }
}

impl Engine {
    fn node_param(&self, params: &RpcParams) -> (r: Option<u32>)
        ensures
            r == engine_model::node_param(self@, params.deep_view()),
    {
        match &params.node {
            None => None,
            Some(v) => match topics::parse_node_hex(v.as_str()) {
                Some(a) => Some(a),
                None => match self.find_name(v.as_str()) {
                    Some(i) => Some(self.nodes[i].entry.id),
                    None => None,
                },
            },
        }
    }

    fn rpc_node_add(&mut self, req: RpcRequest, out: &mut Vec<Output>)
        ensures
            world(final(self)@, final(out).deep_view()) == engine_model::rpc_node_add(
                world(old(self)@, old(out).deep_view()),
                req.deep_view(),
            ),
    {
        let id = match opt_addr(&req.params.id) {
            Some(id) => id,
            None => {
                self.rpc_err_direct(out, req.id.as_str(), "node_add needs id + key (hex)");
                return;
            },
        };
        let key = match opt_key(&req.params.key) {
            Some(key) => key,
            None => {
                self.rpc_err_direct(out, req.id.as_str(), "node_add needs id + key (hex)");
                return;
            },
        };
        let name = match req.params.name {
            Some(n) => n,
            None => "".to_owned(),
        };
        let sleeping = match req.params.sleeping {
            Some(b) => b,
            None => true,
        };
        let base: u8 = if sleeping { self.wire.flag_sleeping } else { 0 };
        let flags: u8 = if name.as_str().unicode_len() == 0 {
            base | self.wire.flag_unnamed
        } else {
            base
        };
        self.issue(
            out,
            OpKind::NodeAdd { id, name: name.clone() },
            MgmtOp::NodeAdd { id, key, name, flags },
            Some(req.id),
        );
    }

    fn rpc_node_rename(&mut self, req: RpcRequest, out: &mut Vec<Output>)
        ensures
            world(final(self)@, final(out).deep_view()) == engine_model::rpc_node_rename(
                world(old(self)@, old(out).deep_view()),
                req.deep_view(),
            ),
    {
        let id = match self.node_param(&req.params) {
            Some(id) => id,
            None => {
                self.rpc_err_direct(out, req.id.as_str(), "unknown node");
                return;
            },
        };
        let name = match req.params.name {
            Some(n) => n,
            None => {
                self.rpc_err_direct(out, req.id.as_str(), "missing name");
                return;
            },
        };
        if name.as_str().unicode_len() == 0 || byte_len(name.as_str()) > self.wire.max_node_name {
            let error = cat3(
                "name must be 1..=",
                dec_u64(self.wire.max_node_name as u64).as_str(),
                " bytes",
            );
            self.rpc_err_direct(out, req.id.as_str(), error.as_str());
            return;
        }
        let flags = match self.find_node(id) {
            Some(i) => Some(self.nodes[i].entry.flags & !self.wire.flag_unnamed),
            None => None,
        };
        self.issue(
            out,
            OpKind::NodeUpdate,
            MgmtOp::NodeUpdate { id, name: Some(name), flags },
            Some(req.id),
        );
    }

    fn rpc_add_ota(&mut self, req: RpcRequest, key: Option<[u8; 16]>, out: &mut Vec<Output>)
        ensures
            world(final(self)@, final(out).deep_view()) == engine_model::rpc_add_ota(
                world(old(self)@, old(out).deep_view()),
                req.deep_view(),
                key_view(key),
            ),
    {
        if self.pairing_rpc.is_some() {
            self.rpc_err_direct(out, req.id.as_str(), "a pairing window is already open");
            return;
        }
        let key = match key {
            Some(k) => k,
            None => {
                self.rpc_err_direct(out, req.id.as_str(), "no entropy source for the node key");
                return;
            },
        };
        let window_s = window(&req.params);
        self.pairing_rpc = Some(req.id.clone());
        self.pairing_until = Some(self.tick.saturating_add(window_s as u64));
        self.publish_pairing(out, None);
        self.issue_delayed(
            out,
            OpKind::PairingOpen,
            MgmtOp::PairingOpen { window_s, key },
            Some(req.id),
            window_s as u64 + PAIRING_SLACK_TICKS,
        );
    }

    fn rpc_queue_drop(&mut self, req: RpcRequest, out: &mut Vec<Output>)
        ensures
            world(final(self)@, final(out).deep_view()) == engine_model::rpc_queue_drop(
                world(old(self)@, old(out).deep_view()),
                req.deep_view(),
            ),
    {
        let node = match self.node_param(&req.params) {
            Some(node) => node,
            None => {
                self.rpc_err_direct(out, req.id.as_str(), "unknown node");
                return;
            },
        };
        let item: Option<u16> = match req.params.item {
            Some(n) => Some((n % 0x1_0000) as u16),
            None => None,
        };
        if let Some(it) = item {
            if let Some(i) = self.find_node(node) {
                if let Some(k) = crate::engine::find_item(&self.nodes[i].pending, it) {
                    let p = self.remove_pending(i, k);
                    self.shell_error(out, node, &p, "dequeued");
                    self.publish_pending(out, i);
                }
            }
        }
        self.issue(
            out,
            OpKind::QueueDrop { node },
            MgmtOp::QueueDrop { node, item },
            Some(req.id),
        );
    }

    /// Serves one request of `gateway/cmd` (or of the frontend). `key` is a fresh node
    /// key, for the one request that needs it.
    pub fn on_rpc(&mut self, req: RpcRequest, key: Option<[u8; 16]>, out: &mut Vec<Output>)
        ensures
            world(final(self)@, final(out).deep_view()) == engine_model::on_rpc(
                world(old(self)@, old(out).deep_view()),
                req.deep_view(),
                key_view(key),
            ),
    {
        proof {
            reveal(engine_model::on_rpc);
        }
        if same(req.op.as_str(), "describe") {
            self.issue(out, OpKind::Describe, MgmtOp::Describe, Some(req.id));
        } else if same(req.op.as_str(), "node_list") {
            self.issue(out, OpKind::NodeList, MgmtOp::NodeList, Some(req.id));
        } else if same(req.op.as_str(), "node_add") {
            self.rpc_node_add(req, out);
        } else if same(req.op.as_str(), "node_remove") {
            match self.node_param(&req.params) {
                Some(id) => self.issue(
                    out,
                    OpKind::NodeRemove { id },
                    MgmtOp::NodeRemove { id },
                    Some(req.id),
                ),
                None => self.rpc_err_direct(out, req.id.as_str(), "unknown node"),
            }
        } else if same(req.op.as_str(), "node_rename") {
            self.rpc_node_rename(req, out);
        } else if same(req.op.as_str(), "reveal_key") {
            match self.node_param(&req.params) {
                Some(id) => self.issue(
                    out,
                    OpKind::RevealKey { id },
                    MgmtOp::NodeRevealKey { id },
                    Some(req.id),
                ),
                None => self.rpc_err_direct(out, req.id.as_str(), "unknown node"),
            }
        } else if same(req.op.as_str(), "node_add_ota") {
            self.rpc_add_ota(req, key, out);
        } else if same(req.op.as_str(), "pairing_cancel") {
            self.pairing_rpc = None;
            self.pairing_until = None;
            self.publish_pairing(out, None);
            self.issue(out, OpKind::PairingCancel, MgmtOp::PairingCancel, Some(req.id));
        } else if same(req.op.as_str(), "queue_list") {
            let node = match self.node_param(&req.params) {
                Some(n) => n,
                None => 0,
            };
            self.issue(out, OpKind::QueueList, MgmtOp::QueueList { node }, Some(req.id));
        } else if same(req.op.as_str(), "queue_drop") {
            self.rpc_queue_drop(req, out);
        } else if same(req.op.as_str(), "stats_config") {
            let channel_period_ms = stats_period(&req.params);
            self.issue(
                out,
                OpKind::StatsConfig,
                MgmtOp::StatsConfig { channel_period_ms },
                Some(req.id),
            );
        } else {
            let error = cat3("unknown op \"", req.op.as_str(), "\"");
            self.rpc_err_direct(out, req.id.as_str(), error.as_str());
        }
    }

    /// Queues one remote-shell line for `node`.
    pub fn on_shell_req(&mut self, node: u32, req: ShellReq, out: &mut Vec<Output>)
        ensures
            world(final(self)@, final(out).deep_view()) == engine_model::on_shell_req(
                world(old(self)@, old(out).deep_view()),
                node,
                req,
            ),
    {
        if self.find_node(node).is_none() {
            self.shell_fail(out, node, req.id.as_str(), 1, "unknown node");
            return;
        }
        if byte_len(req.line.as_str()) > self.wire.radio_shell_chunk {
            let error = cat3(
                "line too long for the radio MTU (max ",
                dec_u64(self.wire.radio_shell_chunk as u64).as_str(),
                " bytes)",
            );
            self.shell_fail(out, node, req.id.as_str(), 1, error.as_str());
            return;
        }
        let cmd_id = self.next_cmd;
        self.next_cmd = next_id(cmd_id);
        let origin = ShellOrigin { rpc: req.id, line: req.line.clone(), cmd_id };
        self.issue(
            out,
            OpKind::QueuePush { node, shell: Some(origin) },
            MgmtOp::QueuePush { node, ttl_s: req.ttl_s, cmd_id, line: req.line },
            None,
        );
    }

    fn on_mqtt(
        &mut self,
        topic: &str,
        rpc: Result<RpcRequest, String>,
        shell: Result<ShellReq, String>,
        key: Option<[u8; 16]>,
        out: &mut Vec<Output>,
    )
        ensures
            world(final(self)@, final(out).deep_view()) == engine_model::on_mqtt(
                world(old(self)@, old(out).deep_view()),
                topic@,
                rpc,
                shell,
                key_view(key),
            ),
    {
        match topics::classify(self.prefix.as_str(), topic) {
            Inbound::Cmd => match rpc {
                Ok(req) => self.on_rpc(req, key, out),
                Err(error) => say(out, cat2("bad RPC payload: ", error.as_str())),
            },
            Inbound::ShellReq(node) => match shell {
                Ok(req) => self.on_shell_req(node, req, out),
                Err(error) => say(out, cat2("bad shell request: ", error.as_str())),
            },
            Inbound::Other => {},
        }
    }

    fn on_encode_failed(&mut self, req_id: u16, envelope: bool, out: &mut Vec<Output>)
        ensures
            world(final(self)@, final(out).deep_view()) == engine_model::on_encode_failed(
                world(old(self)@, old(out).deep_view()),
                req_id,
                envelope,
            ),
    {
        let k = match self.find_req(req_id) {
            Some(k) => k,
            None => {
                return;
            },
        };
        proof {
            lemma_deep_remove(self.pending_mgmt@, k as int);
        }
        let p = self.pending_mgmt.remove(k);
        assert(self.pending_mgmt.deep_view() =~= old(self).pending_mgmt.deep_view().remove(k as int));
        match p.op {
            OpKind::QueuePush { node, shell: Some(o) } => {
                if envelope {
                    if req_id != 0 && self.next_req == next_id(req_id) {
                        self.next_req = req_id;
                        self.seq = self.seq.wrapping_sub(1);
                    }
                    self.shell_fail(out, node, o.rpc.as_str(), 1, "envelope encode failed");
                } else {
                    self.rpc_err(out, &p.rpc, "request encode failed");
                }
            },
            _ => self.rpc_err(out, &p.rpc, "request encode failed"),
        }
    }

    // ---- housekeeping --------------------------------------------------------------

    /// Gives up the request at `k`.
    fn mgmt_timeout(&mut self, k: usize, out: &mut Vec<Output>)
        requires
            k < old(self).pending_mgmt@.len(),
        ensures
            world(final(self)@, final(out).deep_view()) == engine_model::mgmt_timeout(
                world(old(self)@, old(out).deep_view()),
                k as int,
            ),
            final(self).pending_mgmt@.len() == old(self).pending_mgmt@.len() - 1,
    {
        proof {
            lemma_deep_remove(self.pending_mgmt@, k as int);
        }
        let p = self.pending_mgmt.remove(k);
        assert(self.pending_mgmt.deep_view() =~= old(self).pending_mgmt.deep_view().remove(k as int));
        if let OpKind::PairingOpen = p.op {
            self.pairing_rpc = None;
            self.pairing_until = None;
            self.publish_pairing(out, None);
        }
        say(
            out,
            cat3("management op timed out (req ", dec_u64(p.req_id as u64).as_str(), ")"),
        );
        self.rpc_err(out, &p.rpc, "device did not answer (timeout)");
    }

    fn mgmt_timeouts(&mut self, out: &mut Vec<Output>)
        ensures
            world(final(self)@, final(out).deep_view()) == engine_model::mgmt_timeouts(
                world(old(self)@, old(out).deep_view()),
                old(self)@.pending_mgmt.len(),
            ),
    {
        let ghost goal = engine_model::mgmt_timeouts(
            world(self@, out.deep_view()),
            self@.pending_mgmt.len(),
        );
        let mut k: usize = self.pending_mgmt.len();
        while k > 0
            invariant
                k <= self.pending_mgmt@.len(),
                engine_model::mgmt_timeouts(world(self@, out.deep_view()), k as nat) == goal,
            decreases k,
        {
            k = k - 1;
            if self.tick >= self.pending_mgmt[k].deadline {
                self.mgmt_timeout(k, out);
            }
        }
    }

    fn shell_timeouts(&mut self, i: usize, out: &mut Vec<Output>)
        requires
            i < old(self).nodes@.len(),
        ensures
            world(final(self)@, final(out).deep_view()) == engine_model::shell_timeouts(
                world(old(self)@, old(out).deep_view()),
                i as int,
                old(self)@.nodes[i as int].pending.len(),
            ),
            final(self).nodes@.len() == old(self).nodes@.len(),
    {
        let ghost goal = engine_model::shell_timeouts(
            world(self@, out.deep_view()),
            i as int,
            self@.nodes[i as int].pending.len(),
        );
        let node = self.nodes[i].entry.id;
        let mut k: usize = self.nodes[i].pending.len();
        while k > 0
            invariant
                i < self.nodes@.len(),
                self.nodes@.len() == old(self).nodes@.len(),
                node == self@.nodes[i as int].entry.id,
                k <= self.nodes@[i as int].pending@.len(),
                engine_model::shell_timeouts(world(self@, out.deep_view()), i as int, k as nat)
                    == goal,
            decreases k,
        {
            k = k - 1;
            let late = match self.nodes[i].pending[k].delivered_tick {
                Some(t) => self.tick >= t && self.tick - t >= SHELL_REPLY_TIMEOUT_TICKS,
                None => false,
            };
            assert(late == engine_model::unanswered(self@, self@.nodes[i as int].pending[k as int]));
            if late {
                let p = self.remove_pending(i, k);
                assert(self@.nodes[i as int].pending.len() == self.nodes@[i as int].pending@.len());
                self.shell_error(out, node, &p, "delivered but no reply from the node");
            }
        }
    }

    fn node_timeouts(&mut self, i: usize, out: &mut Vec<Output>)
        requires
            i < old(self).nodes@.len(),
        ensures
            world(final(self)@, final(out).deep_view()) == engine_model::node_timeouts(
                world(old(self)@, old(out).deep_view()),
                i as int,
            ),
            final(self).nodes@.len() == old(self).nodes@.len(),
    {
        let n: usize = self.nodes[i].pending.len();
        self.shell_timeouts(i, out);
        assert(self@.nodes[i as int].pending.len() == self.nodes@[i as int].pending@.len());
        if self.nodes[i].pending.len() != n {
            self.publish_pending(out, i);
        }
    }

    fn on_tick(&mut self, out: &mut Vec<Output>)
        ensures
            world(final(self)@, final(out).deep_view()) == engine_model::on_tick(
                world(old(self)@, old(out).deep_view()),
            ),
    {
        self.tick = self.tick.saturating_add(1);
        self.mgmt_timeouts(out);
        let ghost w2 = world(self@, out.deep_view());
        let n: usize = self.nodes.len();
        let mut i: usize = 0;
        while i < n
            invariant
                i <= n,
                n == self.nodes@.len(),
                world(self@, out.deep_view()) == engine_model::nodes_timeouts(w2, i as nat),
            decreases n - i,
        {
            self.node_timeouts(i, out);
            i = i + 1;
        }
        if self.pairing_until.is_some() {
            self.publish_pairing(out, None);
        }
        if self.tick % STATS_EVERY_TICKS == 0 {
            self.publish_stats(out);
        }
    }

    // ---- the whole -----------------------------------------------------------------

    fn subscriptions(&self, out: &mut Vec<Output>)
        ensures
            world(self@, final(out).deep_view()) == engine_model::subscriptions(
                world(self@, old(out).deep_view()),
            ),
    {
        push_deep(out, Output::Subscribe(topics::gateway_cmd(self.prefix.as_str())));
        push_deep(out, Output::Subscribe(cat2(self.prefix.as_str(), "nodes/+/shell/req")));
    }

    fn on_mqtt_up(&mut self, out: &mut Vec<Output>)
        ensures
            world(final(self)@, final(out).deep_view()) == engine_model::on_mqtt_up(
                world(old(self)@, old(out).deep_view()),
            ),
    {
        self.mqtt_up = true;
        self.subscriptions(out);
        self.publish_status(out);
        self.publish_stats(out);
        self.publish_pairing(out, None);
        let ghost w1 = world(self@, out.deep_view());
        let mut i: usize = 0;
        while i < self.nodes.len()
            invariant
                i <= self.nodes@.len(),
                self@ == w1.e,
                world(self@, out.deep_view()) == engine_model::publish_world(w1, i as nat),
            decreases self.nodes@.len() - i,
        {
            self.publish_node(out, i);
            self.publish_pending(out, i);
            i = i + 1;
        }
        push_deep(
            out,
            Output::Event(Event::Link { serial_up: self.serial_up, mqtt_up: true }),
        );
    }

    /// The outputs to begin with: subscriptions and a listing of the registry.
    pub fn start(&mut self) -> (out: Vec<Output>)
        ensures
            world(final(self)@, out.deep_view()) == engine_model::on_start(
                world(old(self)@, Seq::empty()),
            ),
    {
        let mut out: Vec<Output> = Vec::new();
        assert(out.deep_view() =~= Seq::<OutputV>::empty());
        self.subscriptions(&mut out);
        self.list_nodes(&mut out);
        say(
            &mut out,
            cat7(
                "gateway ",
                topics::node_hex(self.describe.net_id).as_str(),
                " on ",
                self.port_name.as_str(),
                " (",
                dec_u64(self.describe.node_capacity as u64).as_str(),
                " node slots)",
            ),
        );
        out
    }

    /// Takes one input. `ts` is the time in seconds, `key` a fresh node key if one could
    /// be made.
    pub fn step(&mut self, input: Input, ts: u64, key: Option<[u8; 16]>) -> (out: Vec<Output>)
        ensures
            world(final(self)@, out.deep_view()) == engine_model::step(
                world(old(self)@, Seq::empty()),
                input,
                ts,
                key_view(key),
            ),
    {
        let mut out: Vec<Output> = Vec::new();
        assert(out.deep_view() =~= Seq::<OutputV>::empty());
        match input {
            Input::SerialUp => {
                self.serial_up = true;
                self.publish_status(&mut out);
                push_deep(
                    &mut out,
                    Output::Event(Event::Link { serial_up: true, mqtt_up: self.mqtt_up }),
                );
                // The dongle may have rebooted in the meantime.
                self.issue(&mut out, OpKind::Describe, MgmtOp::Describe, None);
            },
            Input::SerialDown { error } => {
                self.serial_up = false;
                self.publish_status(&mut out);
                push_deep(
                    &mut out,
                    Output::Event(Event::Link { serial_up: false, mqtt_up: self.mqtt_up }),
                );
                say(&mut out, cat2("serial lost: ", error.as_str()));
            },
            Input::SerialFrame(msg) => self.on_serial(msg, ts, &mut out),
            Input::EncodeFailed { req_id, envelope } => self.on_encode_failed(
                req_id,
                envelope,
                &mut out,
            ),
            Input::MqttUp => self.on_mqtt_up(&mut out),
            Input::MqttDown { error } => {
                self.mqtt_up = false;
                push_deep(
                    &mut out,
                    Output::Event(Event::Link { serial_up: self.serial_up, mqtt_up: false }),
                );
                say(&mut out, cat2("mqtt lost: ", error.as_str()));
            },
            Input::MqttIn { topic, rpc, shell } => self.on_mqtt(
                topic.as_str(),
                rpc,
                shell,
                key,
                &mut out,
            ),
            Input::Frontend(FrontendCmd::Rpc(req)) => self.on_rpc(req, key, &mut out),
            Input::Frontend(FrontendCmd::Shell { node, req }) => self.on_shell_req(
                node,
                req,
                &mut out,
            ),
            Input::Tick => self.on_tick(&mut out),
        }
        out
    }

    /// Takes one input, with the time and a key of the operating system.
    pub fn handle(&mut self, input: Input) -> (out: Vec<Output>)
        ensures
            exists|ts: u64, key: Option<[u8; 16]>|
                world(final(self)@, out.deep_view()) == #[trigger] engine_model::step(
                    world(old(self)@, Seq::empty()),
                    input,
                    ts,
                    key_view(key),
                ),
    {
        let ts = now_ts();
        let key = if wants_key(&input) {
            match mint_key() {
                Ok(k) => Some(k),
                Err(_) => None,
            }
        } else {
            None
        };
        self.step(input, ts, key)
    }
}

/// A key as a sequence of bytes.
pub open spec fn key_view(key: Option<[u8; 16]>) -> Option<Seq<u8>> {
    match key {
        Some(k) => Some(k@),
        None => None,
    }
}

/// The request that an input may carry.
pub open spec fn request_in(input: Input) -> Option<Seq<char>> {
    match input {
        Input::MqttIn { topic: _, rpc: Ok(req), shell: _ } => Some(req.op@),
        Input::Frontend(FrontendCmd::Rpc(req)) => Some(req.op@),
        _ => None,
    }
}

/// Whether an input may need a fresh key: only a request to pair over the air does.
pub fn wants_key(input: &Input) -> (r: bool)
    ensures
        r == (request_in(*input) == Some("node_add_ota"@)),
{
    match input {
        Input::MqttIn { topic: _, rpc: Ok(req), shell: _ } => same(req.op.as_str(), "node_add_ota"),
        Input::Frontend(FrontendCmd::Rpc(req)) => same(req.op.as_str(), "node_add_ota"),
        _ => false,
    }
}

} // verus!

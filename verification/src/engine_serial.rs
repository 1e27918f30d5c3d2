//! What the engine does with messages of the dongle.

use crate::engine::{find_cmd, find_item, publish_text, say};
use crate::engine_model;
use crate::engine_model::world;
use crate::engine_state::{
    Engine, Event, OpKind, Output, PendingShell, PendingShellV, RadioSample, SerialMsg,
};
use crate::frame::{AccelKind, ButtonKind, NodeInfo, NodeMsg, NodeShellChunk, RadioStat, Uplink};
use crate::mgmt::MgmtOp;
use crate::naming::{auto_name, kind_of};
use crate::payload::{
    AccelEvent, ButtonEvent, RadioRssi, RadioRx, RadioTx, ShellRsp, Temperature, UplinkDebug,
};
use crate::text::{
    bytes_hex, cat3, cat4, cat5, dec_u64, lemma_deep_remove, lemma_deep_update, push_deep,
};
use crate::topics;
use crate::wire::tx_outcome_str;
use vstd::prelude::*;
use vstd::string::*;

verus! {

impl Engine {
    /// Takes the pending commands out of node `i`.
    pub(crate) fn take_pending(&mut self, i: usize) -> (r: Vec<PendingShell>)
        requires
            i < old(self).nodes@.len(),
        ensures
            r.deep_view() == old(self)@.nodes[i as int].pending,
            final(self).nodes@.len() == old(self).nodes@.len(),
            world(final(self)@, Seq::empty()) == engine_model::with_pending(
                world(old(self)@, Seq::empty()),
                i as int,
                Seq::empty(),
            ),
    {
        let mut ps: Vec<PendingShell> = Vec::new();
        assert(ps.deep_view() =~= Seq::<PendingShellV>::empty());
        let ghost before = self.nodes@;
        std::mem::swap(&mut self.nodes[i].pending, &mut ps);
        proof {
            lemma_deep_update(before, i as int, self.nodes@[i as int]);
        }
        ps
    }

    fn on_hello(
        &mut self,
        firmware_name: String,
        firmware_version: String,
        session_id: u32,
        out: &mut Vec<Output>,
    )
        ensures
            world(final(self)@, final(out).deep_view()) == engine_model::on_hello(
                world(old(self)@, old(out).deep_view()),
                firmware_name@,
                firmware_version@,
                session_id,
            ),
    {
        proof {
            reveal(engine_model::on_hello);
        }
        let rebooted = match self.hello_session {
            Some(s) => s != session_id,
            None => false,
        };
        self.hello_session = Some(session_id);
        self.firmware_version = firmware_version;
        self.describe.firmware_name = firmware_name;
        if rebooted {
            say(
                out,
                cat3(
                    "gateway rebooted (session ",
                    dec_u64(session_id as u64).as_str(),
                    ") — resyncing; queued downlinks were lost",
                ),
            );
            let ghost w0 = world(self@, out.deep_view());
            let n: usize = self.nodes.len();
            let mut i: usize = 0;
            while i < n
                invariant
                    i <= n,
                    n == self.nodes@.len(),
                    n == w0.e.nodes.len(),
                    world(self@, out.deep_view()) == engine_model::fail_queues(w0, i as nat),
                decreases n - i,
            {
                let node = self.nodes[i].entry.id;
                let ps = self.take_pending(i);
                self.shell_errors(out, node, &ps, "gateway rebooted — command lost");
                proof {
                    lemma_shell_errors_keep(
                        engine_model::with_pending(
                            engine_model::fail_queues(w0, i as nat),
                            i as int,
                            Seq::empty(),
                        ),
                        node,
                        ps.deep_view(),
                        "gateway rebooted — command lost"@,
                        ps@.len(),
                    );
                }
                assert(self@.nodes.len() == n);
                self.publish_pending(out, i);
                i = i + 1;
            }
            self.issue(out, OpKind::Describe, MgmtOp::Describe, None);
            self.list_nodes(out);
        }
        self.publish_status(out);
    }

    fn touch_node(&mut self, id: u32, rssi_dbm: i16)
        ensures
            world(final(self)@, Seq::empty()) == engine_model::touch_node(
                world(old(self)@, Seq::empty()),
                id,
                rssi_dbm,
            ),
    {
        if let Some(i) = self.find_node(id) {
            let clamped: i8 = if rssi_dbm < -128 {
                -128
            } else if rssi_dbm > 127 {
                127
            } else {
                rssi_dbm as i8
            };
            let ghost before = self.nodes@;
            let uplinks = self.nodes[i].entry.uplinks;
            self.nodes[i].entry.last_seen_s = 0;
            self.nodes[i].entry.rssi_dbm = clamped;
            self.nodes[i].entry.uplinks = uplinks.saturating_add(1);
            proof {
                lemma_deep_update(before, i as int, self.nodes@[i as int]);
                assert(self.nodes@ =~= before.update(i as int, self.nodes@[i as int]));
            }
        }
    }

    fn on_uplink(&mut self, u: Uplink, ts: u64, out: &mut Vec<Output>)
        ensures
            world(final(self)@, final(out).deep_view()) == engine_model::on_uplink(
                world(old(self)@, old(out).deep_view()),
                u,
                ts,
            ),
    {
        proof {
            reveal(engine_model::on_uplink);
        }
        self.uplinks = self.uplinks.saturating_add(1);
        self.touch_node(u.src, u.rssi_dbm);
        push_deep(
            out,
            Output::Event(Event::Radio(RadioSample::Rx { src: u.src, rssi_dbm: u.rssi_dbm })),
        );
        let len: usize = u.data.len();
        let rx = RadioRx {
            src: topics::node_hex(u.src),
            rssi_dbm: u.rssi_dbm,
            lqi: u.lqi,
            len,
            ts,
        };
        publish_text(out, topics::radio_rx(self.prefix.as_str()), rx.to_json().as_str(), false);
        let debug = UplinkDebug {
            counter: u.counter,
            rssi_dbm: u.rssi_dbm,
            lqi: u.lqi,
            len,
            hex: bytes_hex(u.data.as_slice()),
            ts,
        };
        publish_text(
            out,
            topics::node_uplink(self.prefix.as_str(), u.src),
            debug.to_json().as_str(),
            false,
        );
        self.on_node_msg(u.src, u.counter, len, &u.body, ts, out);
    }

    /// Publishes what one radio message says.
    fn on_node_msg(
        &mut self,
        src: u32,
        counter: u32,
        len: usize,
        msg: &NodeMsg,
        ts: u64,
        out: &mut Vec<Output>,
    )
        ensures
            world(final(self)@, final(out).deep_view()) == engine_model::on_node_msg(
                world(old(self)@, old(out).deep_view()),
                src,
                counter,
                len as nat,
                *msg,
                ts,
            ),
    {
        proof {
            reveal(engine_model::on_node_msg);
        }
        match msg {
            NodeMsg::Button { kind, count } => {
                let event = match *kind {
                    ButtonKind::Press => "press",
                    ButtonKind::Release => "release",
                    ButtonKind::Click => "click",
                    ButtonKind::Hold => "hold",
                };
                let e = ButtonEvent { event: event.to_owned(), count: *count, counter, ts };
                publish_text(
                    out,
                    topics::node_button(self.prefix.as_str(), src),
                    e.to_json().as_str(),
                    false,
                );
            },
            NodeMsg::Temperature { millic } => {
                let t = Temperature { millic: *millic, ts };
                publish_text(
                    out,
                    topics::node_temperature(self.prefix.as_str(), src),
                    t.to_json().as_str(),
                    true,
                );
            },
            NodeMsg::Accel { kind, face } => {
                let event = match *kind {
                    AccelKind::Motion => "motion",
                    AccelKind::Orientation => "orientation",
                };
                let e = AccelEvent { event: event.to_owned(), face: *face, counter, ts };
                publish_text(
                    out,
                    topics::node_accel(self.prefix.as_str(), src),
                    e.to_json().as_str(),
                    false,
                );
            },
            NodeMsg::Info(info) => self.on_node_info(src, info, out),
            NodeMsg::Shell(chunk) => self.on_shell_chunk(src, chunk, out),
            NodeMsg::BadVersion { got } => {
                let head = cat5(
                    "node ",
                    topics::node_hex(src).as_str(),
                    " speaks radio schema v",
                    dec_u64(*got as u64).as_str(),
                    ", this build v",
                );
                say(
                    out,
                    cat3(
                        head.as_str(),
                        dec_u64(self.wire.radio_schema_version as u64).as_str(),
                        " — update tower-cli or the node",
                    ),
                );
            },
            NodeMsg::Undecodable => {
                say(
                    out,
                    cat5(
                        "node ",
                        topics::node_hex(src).as_str(),
                        ": undecodable application payload (",
                        dec_u64(len as u64).as_str(),
                        " B)",
                    ),
                );
            },
        }
    }

    /// A heartbeat: enriches the mirror and names nodes that have no name yet.
    fn on_node_info(&mut self, src: u32, info: &NodeInfo, out: &mut Vec<Output>)
        ensures
            world(final(self)@, final(out).deep_view()) == engine_model::on_node_info(
                world(old(self)@, old(out).deep_view()),
                src,
                *info,
            ),
    {
        proof {
            reveal(engine_model::on_node_info);
        }
        let i = match self.find_node(src) {
            Some(i) => i,
            None => {
                return;
            },
        };
        let kind = kind_of(info.firmware_name.as_str());
        let ghost before = self.nodes@;
        self.nodes[i].kind = kind.clone();
        self.nodes[i].session_id = Some(info.session_id);
        proof {
            lemma_deep_update(before, i as int, self.nodes@[i as int]);
            assert(self.nodes@ =~= before.update(i as int, self.nodes@[i as int]));
        }
        let had = self.nodes[i].entry.flags;
        let flags: u8 = if info.sleeping {
            had | self.wire.flag_sleeping
        } else {
            had & !self.wire.flag_sleeping
        };
        if had & self.wire.flag_unnamed != 0 {
            let name = auto_name(&self.nodes, kind.as_str());
            say(
                out,
                cat5(
                    "auto-naming node ",
                    topics::node_hex(src).as_str(),
                    " \"",
                    name.as_str(),
                    "\"",
                ),
            );
            let named: u8 = flags & !self.wire.flag_unnamed;
            self.issue(
                out,
                OpKind::NodeUpdate,
                MgmtOp::NodeUpdate { id: src, name: Some(name), flags: Some(named) },
                None,
            );
        } else if flags != had {
            self.issue(
                out,
                OpKind::NodeUpdate,
                MgmtOp::NodeUpdate { id: src, name: None, flags: Some(flags) },
                None,
            );
        }
        assert(self@.nodes.len() == before.len());
        self.publish_node(out, i);
    }

    /// Removes the pending command `k` of node `i`.
    pub(crate) fn remove_pending(&mut self, i: usize, k: usize) -> (r: PendingShell)
        requires
            i < old(self).nodes@.len(),
            k < old(self).nodes@[i as int].pending@.len(),
        ensures
            r.deep_view() == old(self)@.nodes[i as int].pending[k as int],
            final(self).nodes@.len() == old(self).nodes@.len(),
            world(final(self)@, Seq::empty()) == engine_model::with_pending(
                world(old(self)@, Seq::empty()),
                i as int,
                old(self)@.nodes[i as int].pending.remove(k as int),
            ),
    {
        let ghost before = self.nodes@;
        let p = self.nodes[i].pending.remove(k);
        proof {
            lemma_deep_remove(before[i as int].pending@, k as int);
            lemma_deep_update(before, i as int, self.nodes@[i as int]);
            assert(self.nodes@ =~= before.update(i as int, self.nodes@[i as int]));
            assert(self.nodes@[i as int].pending.deep_view() =~= before[i as int].pending.deep_view().remove(
                k as int,
            ));
        }
        p
    }

    /// One chunk of a remote-shell response.
    fn on_shell_chunk(&mut self, src: u32, chunk: &NodeShellChunk, out: &mut Vec<Output>)
        ensures
            world(final(self)@, final(out).deep_view()) == engine_model::on_shell_chunk(
                world(old(self)@, old(out).deep_view()),
                src,
                *chunk,
            ),
    {
        proof {
            reveal(engine_model::on_shell_chunk);
        }
        let i = match self.find_node(src) {
            Some(i) => i,
            None => {
                return;
            },
        };
        let k = match find_cmd(&self.nodes[i].pending, chunk.cmd_id) {
            Some(k) => k,
            None => {
                say(
                    out,
                    cat4(
                        "node ",
                        topics::node_hex(src).as_str(),
                        ": shell chunk for unknown cmd_id ",
                        dec_u64(chunk.cmd_id as u64).as_str(),
                    ),
                );
                return;
            },
        };
        let ghost before = self.nodes@;
        let gap = self.nodes[i].pending[k].next_chunk != chunk.chunk;
        if gap {
            self.nodes[i].pending[k].truncated = true;
        }
        self.nodes[i].pending[k].next_chunk = chunk.chunk.wrapping_add(1);
        let p = &self.nodes[i].pending[k];
        let rsp = ShellRsp {
            id: p.rpc.clone(),
            chunk: chunk.chunk,
            text: chunk.text.clone(),
            done: chunk.last,
            result: chunk.result,
            truncated: p.truncated,
            error: None,
        };
        proof {
            let ps = before[i as int].pending@;
            let now = self.nodes@[i as int].pending@;
            assert(now =~= ps.update(k as int, now[k as int]));
            lemma_deep_update(ps, k as int, now[k as int]);
            assert(self.nodes@ =~= before.update(i as int, self.nodes@[i as int]));
            lemma_deep_update(before, i as int, self.nodes@[i as int]);
            assert(self.nodes@[i as int].pending.deep_view() =~= before[i as int].pending.deep_view().update(
                k as int,
                now[k as int].deep_view(),
            ));
        }
        self.shell_reply(out, src, rsp);
        if chunk.last {
            let _ = self.remove_pending(i, k);
            self.publish_pending(out, i);
        }
    }

    fn on_radio_stat(&mut self, stat: RadioStat, ts: u64, out: &mut Vec<Output>)
        ensures
            world(final(self)@, final(out).deep_view()) == engine_model::on_radio_stat(
                world(old(self)@, old(out).deep_view()),
                stat,
                ts,
            ),
    {
        proof {
            reveal(engine_model::on_radio_stat);
        }
        match stat {
            RadioStat::Channel { channel, rssi_dbm } => {
                self.last_ambient = Some((rssi_dbm, channel));
                push_deep(
                    out,
                    Output::Event(Event::Radio(RadioSample::Ambient { dbm: rssi_dbm, channel })),
                );
                let r = RadioRssi { dbm: rssi_dbm, channel, ts };
                publish_text(
                    out,
                    topics::radio_rssi(self.prefix.as_str()),
                    r.to_json().as_str(),
                    false,
                );
            },
            RadioStat::Tx { dest, item, outcome, ack_rssi_dbm } => {
                let delivered = outcome == self.wire.tx_delivered;
                push_deep(out, Output::Event(Event::Radio(RadioSample::Tx { dest, delivered })));
                let t = RadioTx {
                    dest: topics::node_hex(dest),
                    item,
                    outcome: tx_outcome_str(&self.wire, outcome).to_owned(),
                    ack_rssi_dbm,
                    ts,
                };
                publish_text(
                    out,
                    topics::radio_tx(self.prefix.as_str()),
                    t.to_json().as_str(),
                    false,
                );
                if item != 0 {
                    self.on_queue_outcome(dest, item, outcome, out);
                }
            },
        }
    }

    /// A queue item left the gateway (delivered) or died (expired); other outcomes are
    /// retried on the next uplink.
    fn on_queue_outcome(&mut self, node: u32, item: u16, outcome: u8, out: &mut Vec<Output>)
        ensures
            world(final(self)@, final(out).deep_view()) == engine_model::on_queue_outcome(
                world(old(self)@, old(out).deep_view()),
                node,
                item,
                outcome,
            ),
    {
        proof {
            reveal(engine_model::on_queue_outcome);
        }
        let i = match self.find_node(node) {
            Some(i) => i,
            None => {
                return;
            },
        };
        let k = match find_item(&self.nodes[i].pending, item) {
            Some(k) => k,
            None => {
                return;
            },
        };
        if outcome == self.wire.tx_delivered {
            let ghost before = self.nodes@;
            let tick = self.tick;
            self.nodes[i].pending[k].delivered_tick = Some(tick);
            proof {
                let ps = before[i as int].pending@;
                let now = self.nodes@[i as int].pending@;
                assert(now =~= ps.update(k as int, now[k as int]));
                lemma_deep_update(ps, k as int, now[k as int]);
                assert(self.nodes@ =~= before.update(i as int, self.nodes@[i as int]));
                lemma_deep_update(before, i as int, self.nodes@[i as int]);
                assert(self.nodes@[i as int].pending.deep_view()
                    =~= before[i as int].pending.deep_view().update(
                    k as int,
                    now[k as int].deep_view(),
                ));
            }
        } else if outcome == self.wire.tx_expired {
            let p = self.remove_pending(i, k);
            self.shell_error(out, node, &p, "queue TTL expired before delivery");
            self.publish_pending(out, i);
        }
    }

    /// Takes one message of the dongle; `ts` is the time in seconds.
    pub(crate) fn on_serial(&mut self, msg: SerialMsg, ts: u64, out: &mut Vec<Output>)
        ensures
            world(final(self)@, final(out).deep_view()) == engine_model::on_serial(
                world(old(self)@, old(out).deep_view()),
                msg,
                ts,
            ),
    {
        match msg {
            SerialMsg::Hello { firmware_name, firmware_version, session_id } => self.on_hello(
                firmware_name,
                firmware_version,
                session_id,
                out,
            ),
            SerialMsg::Log { line } => say(out, line),
            SerialMsg::Uplink(u) => self.on_uplink(u, ts, out),
            SerialMsg::Mgmt { req_id, result, chunk, last, data } => self.on_mgmt_chunk(
                req_id,
                result,
                chunk,
                last,
                data,
                out,
            ),
            SerialMsg::Stat(stat) => self.on_radio_stat(stat, ts, out),
            SerialMsg::Dropped(count) => say(
                out,
                cat3(
                    "gateway console dropped ",
                    dec_u64(count as u64).as_str(),
                    " frame(s) (link congestion)",
                ),
            ),
        }
    }
}

/// Putting out errors leaves the engine as it is.
pub proof fn lemma_shell_errors_keep(
    w: engine_model::World,
    node: u32,
    ps: Seq<PendingShellV>,
    error: Seq<char>,
    k: nat,
)
    ensures
        engine_model::shell_errors(w, node, ps, error, k).e == w.e,
    decreases k,
{
    if k > 0 {
        lemma_shell_errors_keep(w, node, ps, error, (k - 1) as nat);
    }
}

} // verus!

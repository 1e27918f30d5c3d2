//! What the gateway makes of the radio: what is published of each message of a node, said of
//! the topics and the payloads themselves.

use crate::engine_dispatch_laws::alike;
use crate::engine_model::{
    auto_name, find_node, has_addr, has_cmd, has_item, kind_text, node_payload, on_node_info,
    on_node_msg, on_queue_outcome, on_radio_stat, on_shell_chunk, on_uplink, pending_entries,
    touch_node, World,
};
use crate::engine_state::{
    EngineV, EventV, NodeMirrorV, OutputV, PendingShellV, RadioSample,
};
use crate::frame::{
    AccelKind, ButtonKind, NodeInfo, NodeMsg, NodeShellChunk, RadioStat, Uplink,
};
use crate::mgmt::MgmtOpV;
use crate::payload::{
    accel_json, button_json, node_json, pending_json, quoted, radio_rssi_json, radio_rx_json,
    radio_tx_json, shell_rsp_json, temperature_json, thousandths, uplink_json, NodeV, ShellRspV,
};
use crate::text::{dec, dec_int, hex_bytes, lemma_first_where, lemma_first_where_holds};
use crate::topics::addr_text;
use vstd::prelude::*;
use vstd::utf8::encode_utf8;

verus! {

/// `text` is published on `topic`, and nothing else happens.
pub open spec fn publishes(a: World, b: World, topic: Seq<char>, text: Seq<char>, retain: bool) -> bool {
    &&& b.e == a.e
    &&& b.out == a.out.push(OutputV::Publish { topic, payload: encode_utf8(text), retain })
}

/// A line is logged, and nothing else happens.
pub open spec fn logs(a: World, b: World, line: Seq<char>) -> bool {
    b.e == a.e && b.out == a.out.push(OutputV::Event(EventV::Log(line)))
}

/// What a node's button does is published on its topic, under the name of what it did.
pub proof fn law_buttons_are_published(
    w: World,
    src: u32,
    counter: u32,
    len: nat,
    kind: ButtonKind,
    count: u32,
    ts: u64,
)
    ensures
        publishes(
            w,
            on_node_msg(w, src, counter, len, NodeMsg::Button { kind, count }, ts),
            w.e.prefix + "nodes/"@ + addr_text(src) + "/event/button"@,
            "{\"event\":"@ + quoted(
                match kind {
                    ButtonKind::Press => "press"@,
                    ButtonKind::Release => "release"@,
                    ButtonKind::Click => "click"@,
                    ButtonKind::Hold => "hold"@,
                },
            ) + ",\"count\":"@ + dec(count as nat) + ",\"counter\":"@ + dec(counter as nat)
                + ",\"ts\":"@ + dec(ts as nat) + "}"@,
            false,
        ),
{
    reveal(on_node_msg);
    reveal(button_json);
}

/// A temperature is published on the node's topic, in degrees and in thousandths, and kept
/// there for those who come later.
pub proof fn law_temperatures_are_published(
    w: World,
    src: u32,
    counter: u32,
    len: nat,
    millic: i32,
    ts: u64,
)
    ensures
        publishes(
            w,
            on_node_msg(w, src, counter, len, NodeMsg::Temperature { millic }, ts),
            w.e.prefix + "nodes/"@ + addr_text(src) + "/measure/temperature"@,
            "{\"celsius\":"@ + thousandths(millic as int) + ",\"millic\":"@ + dec_int(millic as int)
                + ",\"ts\":"@ + dec(ts as nat) + "}"@,
            true,
        ),
{
    reveal(on_node_msg);
    reveal(temperature_json);
}

/// What a node's accelerometer noticed is published on its topic, with the face that is up.
pub proof fn law_motions_are_published(
    w: World,
    src: u32,
    counter: u32,
    len: nat,
    kind: AccelKind,
    face: u8,
    ts: u64,
)
    ensures
        publishes(
            w,
            on_node_msg(w, src, counter, len, NodeMsg::Accel { kind, face }, ts),
            w.e.prefix + "nodes/"@ + addr_text(src) + "/event/accel"@,
            "{\"event\":"@ + quoted(
                match kind {
                    AccelKind::Motion => "motion"@,
                    AccelKind::Orientation => "orientation"@,
                },
            ) + ",\"face\":"@ + dec(face as nat) + ",\"counter\":"@ + dec(counter as nat)
                + ",\"ts\":"@ + dec(ts as nat) + "}"@,
            false,
        ),
{
    reveal(on_node_msg);
    reveal(accel_json);
}

/// A message of another schema, and one that cannot be read, are told in the log.
pub proof fn law_strange_messages_are_told(w: World, src: u32, counter: u32, len: nat, got: u8, ts: u64)
    ensures
        logs(
            w,
            on_node_msg(w, src, counter, len, NodeMsg::BadVersion { got }, ts),
            "node "@ + addr_text(src) + " speaks radio schema v"@ + dec(got as nat)
                + ", this build v"@ + dec(w.e.wire.radio_schema_version as nat)
                + " — update tower-cli or the node"@,
        ),
        logs(
            w,
            on_node_msg(w, src, counter, len, NodeMsg::Undecodable, ts),
            "node "@ + addr_text(src) + ": undecodable application payload ("@ + dec(len) + " B)"@,
        ),
{
    reveal(on_node_msg);
}

/// A heartbeat and a chunk of an answer are taken as such.
pub proof fn law_messages_are_told_apart(
    w: World,
    src: u32,
    counter: u32,
    len: nat,
    info: NodeInfo,
    chunk: NodeShellChunk,
    ts: u64,
)
    ensures
        on_node_msg(w, src, counter, len, NodeMsg::Info(info), ts).out == on_node_info(w, src, info).out,
        on_node_msg(w, src, counter, len, NodeMsg::Info(info), ts).e == on_node_info(w, src, info).e,
        on_node_msg(w, src, counter, len, NodeMsg::Shell(chunk), ts).out == on_shell_chunk(
            w,
            src,
            chunk,
        ).out,
        on_node_msg(w, src, counter, len, NodeMsg::Shell(chunk), ts).e == on_shell_chunk(
            w,
            src,
            chunk,
        ).e,
{
    reveal(on_node_msg);
}

/// Every uplink is counted, shown to the frontend, and published twice, for the radio and
/// for the node; then its message is taken.
pub proof fn law_uplinks_are_published(w: World, u: Uplink, ts: u64)
    requires
        w.e.uplinks < u64::MAX,
    ensures
        ({
            let a = touch_node(
                World { e: EngineV { uplinks: (w.e.uplinks + 1) as u64, ..w.e }, out: w.out },
                u.src,
                u.rssi_dbm,
            );
            let m = World {
                e: a.e,
                out: w.out.push(
                    OutputV::Event(
                        EventV::Radio(RadioSample::Rx { src: u.src, rssi_dbm: u.rssi_dbm }),
                    ),
                ).push(
                    OutputV::Publish {
                        topic: w.e.prefix + "radio/rx"@,
                        payload: encode_utf8(
                            "{\"src\":"@ + quoted(addr_text(u.src)) + ",\"rssi_dbm\":"@ + dec_int(
                                u.rssi_dbm as int,
                            ) + ",\"lqi\":"@ + dec(u.lqi as nat) + ",\"len\":"@ + dec(u.data@.len())
                                + ",\"ts\":"@ + dec(ts as nat) + "}"@,
                        ),
                        retain: false,
                    },
                ).push(
                    OutputV::Publish {
                        topic: w.e.prefix + "nodes/"@ + addr_text(u.src) + "/uplink"@,
                        payload: encode_utf8(
                            "{\"counter\":"@ + dec(u.counter as nat) + ",\"rssi_dbm\":"@ + dec_int(
                                u.rssi_dbm as int,
                            ) + ",\"lqi\":"@ + dec(u.lqi as nat) + ",\"len\":"@ + dec(u.data@.len())
                                + ",\"hex\":"@ + quoted(hex_bytes(u.data@)) + ",\"ts\":"@ + dec(
                                ts as nat,
                            ) + "}"@,
                        ),
                        retain: false,
                    },
                ),
            };
            alike(
                on_uplink(w, u, ts),
                on_node_msg(m, u.src, u.counter, u.data@.len(), u.body, ts),
            )
        }),
{
    reveal(on_uplink);
    reveal(radio_rx_json);
    reveal(uplink_json);
}

/// An uplink of a registered node makes it just seen, with the signal it came with (within
/// what a byte holds) and one more uplink; no other node changes, and a stranger changes
/// nothing.
pub proof fn law_uplinks_touch_their_node(w: World, id: u32, rssi_dbm: i16)
    ensures
        ({
            let b = touch_node(w, id, rssi_dbm);
            &&& b.out == w.out
            &&& b.e == (EngineV { nodes: b.e.nodes, ..w.e })
            &&& b.e.nodes.len() == w.e.nodes.len()
            &&& forall|i: int|
                0 <= i < w.e.nodes.len() ==> {
                    let (n, m) = (#[trigger] w.e.nodes[i], b.e.nodes[i]);
                    if n.entry.id == id && (forall|j: int|
                        0 <= j < i ==> (#[trigger] w.e.nodes[j]).entry.id != id) {
                        &&& m.entry.last_seen_s == 0
                        &&& m.entry.rssi_dbm == if rssi_dbm < -128 {
                            -128
                        } else if rssi_dbm > 127 {
                            127
                        } else {
                            rssi_dbm as int
                        }
                        &&& m.entry.uplinks == if n.entry.uplinks == u32::MAX {
                            u32::MAX as int
                        } else {
                            n.entry.uplinks + 1
                        }
                        &&& m.entry.id == id && m.entry.name == n.entry.name
                        &&& m.entry.flags == n.entry.flags && m.entry.queued == n.entry.queued
                        &&& m.kind == n.kind && m.session_id == n.session_id && m.pending == n.pending
                    } else {
                        m == n
                    }
                }
        }),
{
    lemma_first_where_holds(w.e.nodes, has_addr(id));
    if let Some(k) = find_node(w.e, id) {
        assert(w.e.nodes[k].entry.id == id);
    }
}

/// A sample of the channel is remembered, shown, and published.
pub proof fn law_channel_samples_are_published(w: World, channel: u8, rssi_dbm: i16, ts: u64)
    ensures
        on_radio_stat(w, RadioStat::Channel { channel, rssi_dbm }, ts) == (World {
            e: EngineV { last_ambient: Some((rssi_dbm, channel)), ..w.e },
            out: w.out.push(
                OutputV::Event(EventV::Radio(RadioSample::Ambient { dbm: rssi_dbm, channel })),
            ).push(
                OutputV::Publish {
                    topic: w.e.prefix + "radio/rssi"@,
                    payload: encode_utf8(
                        "{\"dbm\":"@ + dec_int(rssi_dbm as int) + ",\"channel\":"@ + dec(
                            channel as nat,
                        ) + ",\"ts\":"@ + dec(ts as nat) + "}"@,
                    ),
                    retain: false,
                },
            ),
        }),
{
    reveal(on_radio_stat);
    reveal(radio_rssi_json);
}

/// A transmission is shown and published with its outcome; one of the queue is also the end
/// of waiting there.
pub proof fn law_transmissions_are_published(
    w: World,
    dest: u32,
    item: u16,
    outcome: u8,
    ack_rssi_dbm: Option<i8>,
    ts: u64,
)
    ensures
        ({
            let b = on_radio_stat(w, RadioStat::Tx { dest, item, outcome, ack_rssi_dbm }, ts);
            let m = World {
                e: w.e,
                out: w.out.push(
                    OutputV::Event(
                        EventV::Radio(
                            RadioSample::Tx { dest, delivered: outcome == w.e.wire.tx_delivered },
                        ),
                    ),
                ).push(
                    OutputV::Publish {
                        topic: w.e.prefix + "radio/tx"@,
                        payload: encode_utf8(
                            "{\"dest\":"@ + quoted(addr_text(dest)) + ",\"item\":"@ + dec(item as nat)
                                + ",\"outcome\":"@ + quoted(
                                crate::wire::tx_outcome(w.e.wire, outcome),
                            ) + ",\"ack_rssi_dbm\":"@ + (match ack_rssi_dbm {
                                Some(r) => dec_int(r as int),
                                None => "null"@,
                            }) + ",\"ts\":"@ + dec(ts as nat) + "}"@,
                        ),
                        retain: false,
                    },
                ),
            };
            if item == 0 {
                b == m
            } else {
                alike(b, on_queue_outcome(m, dest, item, outcome))
            }
        }),
{
    reveal(on_radio_stat);
    reveal(radio_tx_json);
}

/// A queued line that was delivered is marked with the time; one that expired ends its
/// dialog, leaves the queue, and the queue is published. Any other outcome, line or node
/// changes nothing.
pub proof fn law_queue_outcomes(w: World, node: u32, item: u16, outcome: u8, i: int, k: int)
    requires
        0 <= i < w.e.nodes.len() && w.e.nodes[i].entry.id == node,
        forall|j: int| 0 <= j < i ==> (#[trigger] w.e.nodes[j]).entry.id != node,
        0 <= k < w.e.nodes[i].pending.len() && w.e.nodes[i].pending[k].item == item,
        forall|j: int| 0 <= j < k ==> (#[trigger] w.e.nodes[i].pending[j]).item != item,
        w.e.wire.tx_delivered != w.e.wire.tx_expired,
    ensures
        ({
            let b = on_queue_outcome(w, node, item, outcome);
            let ps = w.e.nodes[i].pending;
            let n = w.out.len() as int;
            &&& outcome == w.e.wire.tx_delivered ==> b.out == w.out && b.e.nodes[i].pending
                == ps.update(k, PendingShellV { delivered_tick: Some(w.e.tick), ..ps[k] })
            &&& outcome == w.e.wire.tx_expired ==> {
                let rsp = ShellRspV {
                    id: ps[k].rpc,
                    chunk: ps[k].next_chunk,
                    text: Seq::empty(),
                    done: true,
                    result: 1,
                    truncated: ps[k].truncated,
                    error: Some("queue TTL expired before delivery"@),
                };
                &&& b.e.nodes[i].pending == ps.remove(k)
                &&& b.out.len() == n + 4
                &&& b.out[n] == OutputV::Publish {
                    topic: w.e.prefix + "nodes/"@ + addr_text(node) + "/shell/rsp"@,
                    payload: encode_utf8(shell_rsp_json(rsp)),
                    retain: false,
                }
                &&& b.out[n + 1] == OutputV::Event(EventV::Shell { node, rsp })
                &&& b.out[n + 2] == OutputV::Publish {
                    topic: w.e.prefix + "nodes/"@ + addr_text(node) + "/shell/pending"@,
                    payload: encode_utf8(pending_json(pending_entries(ps.remove(k)))),
                    retain: true,
                }
            }
            &&& outcome != w.e.wire.tx_delivered && outcome != w.e.wire.tx_expired ==> b == w
        }),
{
    reveal(on_queue_outcome);
    lemma_first_where(w.e.nodes, has_addr(node), i);
    lemma_first_where(w.e.nodes[i].pending, has_item(item), k);
}

/// A chunk of a node's answer is published on the node's topic and shown, under the id of
/// the request whose command it answers, with its number, text and result; a number that is
/// out of turn marks it and all that follow as truncated. The last one takes the command out
/// of the queue.
pub proof fn law_answers_of_nodes_are_published(w: World, src: u32, c: NodeShellChunk, i: int, k: int)
    requires
        0 <= i < w.e.nodes.len() && w.e.nodes[i].entry.id == src,
        forall|j: int| 0 <= j < i ==> (#[trigger] w.e.nodes[j]).entry.id != src,
        0 <= k < w.e.nodes[i].pending.len() && w.e.nodes[i].pending[k].cmd_id == c.cmd_id,
        forall|j: int| 0 <= j < k ==> (#[trigger] w.e.nodes[i].pending[j]).cmd_id != c.cmd_id,
    ensures
        ({
            let b = on_shell_chunk(w, src, c);
            let ps = w.e.nodes[i].pending;
            let n = w.out.len() as int;
            let truncated = ps[k].truncated || c.chunk != ps[k].next_chunk;
            let rsp = ShellRspV {
                id: ps[k].rpc,
                chunk: c.chunk,
                text: c.text@,
                done: c.last,
                result: c.result,
                truncated,
                error: None,
            };
            &&& b.out[n] == OutputV::Publish {
                topic: w.e.prefix + "nodes/"@ + addr_text(src) + "/shell/rsp"@,
                payload: encode_utf8(shell_rsp_json(rsp)),
                retain: false,
            }
            &&& b.out[n + 1] == OutputV::Event(EventV::Shell { node: src, rsp })
            &&& if c.last {
                &&& b.out.len() == n + 4
                &&& b.e.nodes[i].pending == ps.remove(k)
                &&& b.out[n + 2] == OutputV::Publish {
                    topic: w.e.prefix + "nodes/"@ + addr_text(src) + "/shell/pending"@,
                    payload: encode_utf8(pending_json(pending_entries(ps.remove(k)))),
                    retain: true,
                }
            } else {
                &&& b.out.len() == n + 2
                &&& b.e.nodes[i].pending == ps.update(
                    k,
                    PendingShellV {
                        truncated,
                        next_chunk: ((c.chunk + 1) % 0x1_0000) as u16,
                        ..ps[k]
                    },
                )
            }
        }),
{
    reveal(on_shell_chunk);
    lemma_first_where(w.e.nodes, has_addr(src), i);
    let ps = w.e.nodes[i].pending;
    lemma_first_where(ps, has_cmd(c.cmd_id), k);
    let p = PendingShellV {
        truncated: ps[k].truncated || ps[k].next_chunk != c.chunk,
        next_chunk: crate::mgmt::next_index(c.chunk),
        ..ps[k]
    };
    assert(ps.update(k, p).remove(k) =~= ps.remove(k));
}

/// A heartbeat of a registered node notes its kind and its session. Where the node has no
/// name yet, the device is told a free one, and that it sleeps or not; where only that
/// changed, the device is told that; either way the node is published.
pub proof fn law_heartbeats(w: World, src: u32, info: NodeInfo, i: int)
    requires
        0 <= i < w.e.nodes.len() && w.e.nodes[i].entry.id == src,
        forall|j: int| 0 <= j < i ==> (#[trigger] w.e.nodes[j]).entry.id != src,
    ensures
        ({
            let b = on_node_info(w, src, info);
            let had = w.e.nodes[i].entry.flags;
            let flags = if info.sleeping {
                had | w.e.wire.flag_sleeping
            } else {
                had & !w.e.wire.flag_sleeping
            };
            let kind = kind_text(info.firmware_name@);
            let n = w.out.len() as int;
            &&& b.e.nodes == w.e.nodes.update(
                i,
                NodeMirrorV { kind, session_id: Some(info.session_id), ..w.e.nodes[i] },
            )
            &&& b.out.last() == OutputV::Publish {
                topic: w.e.prefix + "nodes/"@ + addr_text(src),
                payload: encode_utf8(node_json(node_payload(b.e, b.e.nodes[i]))),
                retain: true,
            }
            &&& if had & w.e.wire.flag_unnamed != 0 {
                &&& b.out.len() == n + 3
                &&& b.out[n] == OutputV::Event(
                    EventV::Log(
                        "auto-naming node "@ + addr_text(src) + " \""@ + auto_name(b.e.nodes, kind)
                            + "\""@,
                    ),
                )
                &&& b.out[n + 1] == OutputV::SerialSend {
                    seq: w.e.seq,
                    req_id: w.e.next_req,
                    op: MgmtOpV::NodeUpdate {
                        id: src,
                        name: Some(auto_name(b.e.nodes, kind)),
                        flags: Some(flags & !w.e.wire.flag_unnamed),
                    },
                }
            } else if flags != had {
                &&& b.out.len() == n + 2
                &&& b.out[n] == OutputV::SerialSend {
                    seq: w.e.seq,
                    req_id: w.e.next_req,
                    op: MgmtOpV::NodeUpdate { id: src, name: None, flags: Some(flags) },
                }
            } else {
                b.out.len() == n + 1
            }
        }),
{
    reveal(on_node_info);
    lemma_first_where(w.e.nodes, has_addr(src), i);
    reveal_strlit("");
    assert(w.e.prefix + "nodes/"@ + addr_text(src) + ""@ =~= w.e.prefix + "nodes/"@ + addr_text(src));
}

/// The kind of a node is the name of its firmware without `radio_` in front, with dashes for
/// underscores.
pub proof fn law_kinds_come_from_firmware_names(name: Seq<char>)
    ensures
        ({
            let k = kind_text("radio_"@ + name);
            &&& k.len() == name.len()
            &&& forall|i: int|
                0 <= i < name.len() ==> #[trigger] k[i] == if name[i] == '_' {
                    '-'
                } else {
                    name[i]
                }
        }),
{
    reveal(kind_text);
    crate::text::lemma_behind("radio_"@, name);
}

/// A node is shown with its address and name, its kind, whether it sleeps and has a name,
/// when it was last seen and how well, if ever, its uplinks, and the larger of the two counts
/// of its queue.
pub proof fn law_nodes_are_shown(e: EngineV, n: NodeMirrorV)
    requires
        n.pending.len() < 0x100,
    ensures
        node_payload(e, n) == (NodeV {
            id: addr_text(n.entry.id),
            name: n.entry.name,
            kind: n.kind,
            sleeping: n.entry.flags & e.wire.flag_sleeping != 0,
            unnamed: n.entry.flags & e.wire.flag_unnamed != 0,
            last_seen_s: if n.entry.last_seen_s == e.wire.last_seen_never {
                None
            } else {
                Some(n.entry.last_seen_s)
            },
            rssi_dbm: if n.entry.rssi_dbm == e.wire.rssi_none {
                None
            } else {
                Some(n.entry.rssi_dbm)
            },
            uplinks: n.entry.uplinks,
            queued: if n.entry.queued >= n.pending.len() {
                n.entry.queued
            } else {
                n.pending.len() as u8
            },
        }),
{
    reveal(node_payload);
}

} // verus!

//! What the bridge takes from its two links and tells of its events, said of the frames and
//! the texts themselves.

use crate::bridge::{
    broker_after, broker_edge, names_text, serial_edge, serial_msg, service_text, BrokerEvent,
    SerialEvent, SerialMsgV,
};
use crate::engine_state::{EventV, Input, NodeViewV, RadioSample};
use crate::frame::{Body, Frame, Hello, Log, MgmtResponse, MsgType, RadioStat, Uplink};
use crate::payload::{PairingV, RpcRequest, RpcResponseV, ShellReq, ShellRspV};
use crate::render::uptime_text;
use crate::render_laws::label;
use crate::text::{dec, dec_int, hex, trim_end_ws};
use vstd::prelude::*;

verus! {

/// A message with a number.
pub open spec fn carries(kind: MsgType, seq: u16, body: Body) -> Frame {
    Frame::Message { kind, seq, body }
}

/// Every frame that the gateway needs is handed on with all that it carries; what the device
/// logs and prints is a line of the log.
pub proof fn law_frames_are_handed_on(
    kind: MsgType,
    seq: u16,
    h: Hello,
    l: Log,
    text: String,
    u: Uplink,
    m: MgmtResponse,
    s: RadioStat,
    count: u32,
)
    ensures
        serial_msg(carries(kind, seq, Body::Hello(h))) == Some(
            SerialMsgV::Hello {
                firmware_name: h.firmware_name@,
                firmware_version: h.firmware_version@,
                session_id: h.session_id,
            },
        ),
        serial_msg(carries(kind, seq, Body::Log(l))) == Some(
            SerialMsgV::Log {
                line: uptime_text(l.uptime_us) + " "@ + label(l.level) + " "@ + l.module@ + ": "@
                    + l.message@,
            },
        ),
        serial_msg(carries(kind, seq, Body::Print { text })) == Some(
            SerialMsgV::Log { line: trim_end_ws(text@) },
        ),
        serial_msg(carries(kind, seq, Body::Uplink(u))) == Some(SerialMsgV::Uplink(u)),
        serial_msg(carries(kind, seq, Body::MgmtResponse(m))) == Some(
            SerialMsgV::Mgmt {
                req_id: m.req_id,
                result: m.result,
                chunk: m.chunk,
                last: m.last,
                data: m.data@,
            },
        ),
        serial_msg(carries(kind, seq, Body::RadioStat(s))) == Some(SerialMsgV::Stat(s)),
        serial_msg(carries(kind, seq, Body::Dropped { count })) == Some(SerialMsgV::Dropped(count)),
        serial_msg(carries(kind, seq, Body::Malformed)) is None,
{
}

/// A device that has another version now is told; any other frame that is refused is not.
pub proof fn law_refused_frames_are_logged(error: String, got: u8)
    ensures
        serial_msg(Frame::Refused { error, bad_version: None }) is None,
        serial_msg(Frame::Refused { error, bad_version: Some(got) }) == Some(
            SerialMsgV::Log {
                line: "PROTOCOL MISMATCH: device now speaks v"@ + dec(got as nat)
                    + " — reflash or rebuild"@,
            },
        ),
{
}

/// The engine is told where the serial link goes down, and why, and where it is up again.
pub proof fn law_the_serial_link_is_told(error: String, told: Option<Input>)
    ensures
        serial_edge(SerialEvent::ReadFailed { error }, told) <==> told == Some(
            Input::SerialDown { error },
        ),
        serial_edge(SerialEvent::Reopened, told) <==> told == Some(Input::SerialUp),
        serial_edge(SerialEvent::WriteFailed, told) <==> (told matches Some(
            Input::SerialDown { error: e },
        ) && e@ == "write failed"@),
        serial_edge(SerialEvent::Written, told) <==> told is None,
        serial_edge(SerialEvent::Read, told) <==> told is None,
        serial_edge(SerialEvent::ReopenFailed, told) <==> told is None,
{
}

/// The engine is told where the broker is there, each of its messages, and, once, that it is
/// gone.
pub proof fn law_the_broker_is_told(
    was_up: bool,
    topic: String,
    rpc: Result<RpcRequest, String>,
    shell: Result<ShellReq, String>,
    error: String,
)
    ensures
        broker_edge(was_up, BrokerEvent::ConnAck) == Some(Input::MqttUp),
        broker_edge(was_up, BrokerEvent::Publish { topic, rpc, shell }) == Some(
            Input::MqttIn { topic, rpc, shell },
        ),
        broker_edge(was_up, BrokerEvent::Other) is None,
        broker_edge(true, BrokerEvent::Failed { error }) == Some(Input::MqttDown { error }),
        broker_edge(false, BrokerEvent::Failed { error }) is None,
        broker_after(was_up, BrokerEvent::ConnAck),
        !broker_after(was_up, BrokerEvent::Failed { error }),
        broker_after(was_up, BrokerEvent::Other) == was_up,
        broker_after(was_up, BrokerEvent::Publish { topic, rpc, shell }) == was_up,
{
}

/// How a link is.
pub open spec fn state_name(up: bool) -> Seq<char> {
    if up {
        "up"@
    } else {
        "DOWN"@
    }
}

/// Every node of the registry is named behind its number.
pub proof fn law_nodes_are_listed(nodes: Seq<NodeViewV>, n: NodeViewV)
    ensures
        service_text(EventV::Registry(nodes)) == Some(
            "registry: "@ + dec(nodes.len()) + " node(s)"@ + names_text(nodes),
        ),
        names_text(Seq::empty()).len() == 0,
        n.name.len() > 0 ==> names_text(nodes.push(n)) == names_text(nodes) + " · "@ + n.name,
        n.name.len() == 0 ==> names_text(nodes.push(n)) == names_text(nodes) + " · "@ + dec(
            n.addr as nat,
        ),
{
    assert(nodes.push(n).drop_last() =~= nodes);
}

/// What the service writes of each event, and of which it writes nothing.
pub proof fn law_events_are_told(
    line: Seq<char>,
    a: bool,
    b: bool,
    node: u32,
    rsp: ShellRspV,
    dbm: i16,
    channel: u8,
    p: PairingV,
    left: u64,
    reply: RpcResponseV,
)
    ensures
        service_text(EventV::Log(line)) == Some(line),
        service_text(EventV::Link { serial_up: a, mqtt_up: b }) == Some(
            "link: serial "@ + state_name(a) + " · mqtt "@ + state_name(b),
        ),
        rsp.error matches Some(e) ==> service_text(EventV::Shell { node, rsp }) == Some(
            "shell "@ + hex(node as nat, 8) + " #"@ + rsp.id + ": error: "@ + e,
        ),
        rsp.error is None && rsp.done ==> service_text(EventV::Shell { node, rsp }) == Some(
            "shell "@ + hex(node as nat, 8) + " #"@ + rsp.id + ": done (result "@ + dec(
                rsp.result as nat,
            ) + ")"@,
        ),
        rsp.error is None && !rsp.done ==> service_text(EventV::Shell { node, rsp }) is None,
        service_text(EventV::Radio(RadioSample::Ambient { dbm, channel })) is None,
        service_text(EventV::Radio(RadioSample::Rx { src: node, rssi_dbm: dbm })) == Some(
            "rx "@ + hex(node as nat, 8) + " "@ + dec_int(dbm as int) + " dBm"@,
        ),
        service_text(EventV::Radio(RadioSample::Tx { dest: node, delivered: true })) == Some(
            "tx "@ + hex(node as nat, 8) + " "@ + "delivered"@,
        ),
        service_text(EventV::Radio(RadioSample::Tx { dest: node, delivered: false })) == Some(
            "tx "@ + hex(node as nat, 8) + " "@ + "pending"@,
        ),
        p.state == "open"@ && p.remaining_s == Some(left) ==> service_text(EventV::Pairing(p)) == Some(
            "pairing window open ("@ + dec(left as nat) + "s left)"@,
        ),
        p.joined matches Some(j) ==> p.remaining_s is None ==> service_text(EventV::Pairing(p))
            == Some("paired "@ + j),
        p.joined is None && p.remaining_s is None ==> service_text(EventV::Pairing(p)) is None,
        service_text(EventV::Rpc(reply)) is None,
{
}

} // verus!

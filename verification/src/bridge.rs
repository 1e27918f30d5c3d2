//! What stands between the links and the engine: which frames concern it, when a link went
//! up or down, and what the headless service says of its events.

use crate::clock::{is_clock, line_now, stamped};
use crate::engine_state::{Event, EventV, Input, NodeView, NodeViewV, RadioSample, SerialMsg};
use crate::frame::{Body, Frame, RadioStat, Uplink};
use crate::payload::{RpcRequest, ShellReq, Status};
use crate::render::{label_text, log_line, log_text};
use crate::text::{
    cat2, cat3, cat4, cat5, cat6, cat7, dec, dec_i64, dec_int, dec_u64, hex, hex_text, same, trim_end,
    trim_end_ws,
};
use crate::topics::gateway_status;
use vstd::prelude::*;
use vstd::string::*;

verus! {

// ---- frames of the serial link -----------------------------------------------------

#[verifier::ext_equal]
pub enum SerialMsgV {
    Hello { firmware_name: Seq<char>, firmware_version: Seq<char>, session_id: u32 },
    Log { line: Seq<char> },
    Uplink(Uplink),
    Mgmt { req_id: u16, result: u8, chunk: u16, last: bool, data: Seq<u8> },
    Stat(RadioStat),
    Dropped(u32),
}

impl DeepView for SerialMsg {
    type V = SerialMsgV;

    open spec fn deep_view(&self) -> SerialMsgV {
        match self {
            SerialMsg::Hello { firmware_name, firmware_version, session_id } => SerialMsgV::Hello {
                firmware_name: firmware_name@,
                firmware_version: firmware_version@,
                session_id: *session_id,
            },
            SerialMsg::Log { line } => SerialMsgV::Log { line: line@ },
            SerialMsg::Uplink(u) => SerialMsgV::Uplink(*u),
            SerialMsg::Mgmt { req_id, result, chunk, last, data } => SerialMsgV::Mgmt {
                req_id: *req_id,
                result: *result,
                chunk: *chunk,
                last: *last,
                data: data@,
            },
            SerialMsg::Stat(s) => SerialMsgV::Stat(*s),
            SerialMsg::Dropped(n) => SerialMsgV::Dropped(*n),
        }
    }
}

/// What a frame is to the engine; shell traffic and what cannot be read is nothing to it.
/// Another version tag means that the device was flashed meanwhile.
pub open spec fn serial_msg(frame: Frame) -> Option<SerialMsgV> {
    match frame {
        Frame::Refused { bad_version: Some(got), .. } => Some(
            SerialMsgV::Log {
                line: "PROTOCOL MISMATCH: device now speaks v"@ + dec(got as nat)
                    + " — reflash or rebuild"@,
            },
        ),
        Frame::Refused { bad_version: None, .. } => None,
        Frame::Message { body, .. } => match body {
            Body::Hello(h) => Some(
                SerialMsgV::Hello {
                    firmware_name: h.firmware_name@,
                    firmware_version: h.firmware_version@,
                    session_id: h.session_id,
                },
            ),
            Body::Log(l) => Some(SerialMsgV::Log { line: log_text(l, label_text(l.level)) }),
            Body::Print { text } => Some(SerialMsgV::Log { line: trim_end_ws(text@) }),
            Body::Uplink(u) => Some(SerialMsgV::Uplink(u)),
            Body::MgmtResponse(m) => Some(
                SerialMsgV::Mgmt {
                    req_id: m.req_id,
                    result: m.result,
                    chunk: m.chunk,
                    last: m.last,
                    data: m.data@,
                },
            ),
            Body::RadioStat(s) => Some(SerialMsgV::Stat(s)),
            Body::Dropped { count } => Some(SerialMsgV::Dropped(count)),
            _ => None,
        },
    }
}

/// What a frame is to the engine (`None`: nothing).
pub fn to_serial_msg(frame: Frame) -> (r: Option<SerialMsg>)
    ensures
        r.deep_view() == serial_msg(frame),
{
    match frame {
        Frame::Refused { error: _, bad_version } => match bad_version {
            Some(got) => Some(
                SerialMsg::Log {
                    line: cat3(
                        "PROTOCOL MISMATCH: device now speaks v",
                        dec_u64(got as u64).as_str(),
                        " — reflash or rebuild",
                    ),
                },
            ),
            None => None,
        },
        Frame::Message { kind: _, seq: _, body } => match body {
            Body::Hello(h) => Some(
                SerialMsg::Hello {
                    firmware_name: h.firmware_name,
                    firmware_version: h.firmware_version,
                    session_id: h.session_id,
                },
            ),
            Body::Log(l) => Some(SerialMsg::Log { line: log_line(&l) }),
            Body::Print { text } => Some(
                SerialMsg::Log { line: trim_end(text.as_str()).to_owned() },
            ),
            Body::Uplink(u) => Some(SerialMsg::Uplink(u)),
            Body::MgmtResponse(m) => Some(
                SerialMsg::Mgmt {
                    req_id: m.req_id,
                    result: m.result,
                    chunk: m.chunk,
                    last: m.last,
                    data: m.data,
                },
            ),
            Body::RadioStat(s) => Some(SerialMsg::Stat(s)),
            Body::Dropped { count } => Some(SerialMsg::Dropped(count)),
            _ => None,
        },
    }
}

// ---- the serial link ---------------------------------------------------------------

/// How long to wait before the port is opened again, in milliseconds.
pub const REOPEN_MS: u64 = 800;

/// The serial link of a running gateway. It starts on an open, verified port.
#[derive(Debug, Clone, Copy, PartialEq, Eq, Structural)]
pub struct SerialLink {
    pub up: bool,
}

/// What happened on the serial link.
#[derive(Debug, PartialEq)]
pub enum SerialEvent {
    /// The engine's frame was written.
    Written,
    WriteFailed,
    /// Bytes came, or none did in time.
    Read,
    ReadFailed { error: String },
    Reopened,
    ReopenFailed,
}

/// What the engine is told of an event on the serial link.
pub open spec fn serial_edge(ev: SerialEvent, told: Option<Input>) -> bool {
    match ev {
        SerialEvent::WriteFailed => match told {
            Some(Input::SerialDown { error }) => error@ == "write failed"@,
            _ => false,
        },
        SerialEvent::ReadFailed { error } => told == Some(Input::SerialDown { error }),
        SerialEvent::Reopened => told == Some(Input::SerialUp),
        _ => told is None,
    }
}

impl SerialLink {
    pub fn new() -> (r: SerialLink)
        ensures
            r.up,
    {
        SerialLink { up: true }
    }

    /// Whether a frame of the engine is written. While the link is down it is dropped: the
    /// engine's timeout and the resync after a reconnect recover.
    pub fn writes(&self) -> (r: bool)
        ensures
            r == self.up,
    {
        self.up
    }

    /// Takes an event. A failure closes the link, so that the port is opened again.
    pub fn on(&mut self, ev: SerialEvent) -> (told: Option<Input>)
        ensures
            serial_edge(ev, told),
            final(self).up == match ev {
                SerialEvent::WriteFailed => false,
                SerialEvent::ReadFailed { .. } => false,
                SerialEvent::Reopened => true,
                _ => old(self).up,
            },
    {
        match ev {
            SerialEvent::WriteFailed => {
                self.up = false;
                Some(Input::SerialDown { error: "write failed".to_owned() })
            },
            SerialEvent::ReadFailed { error } => {
                self.up = false;
                Some(Input::SerialDown { error })
            },
            SerialEvent::Reopened => {
                self.up = true;
                Some(Input::SerialUp)
            },
            _ => None,
        }
    }
}

// ---- the broker --------------------------------------------------------------------

/// The link to the broker. The client reconnects by itself; only edges are reported.
#[derive(Debug, Clone, Copy, PartialEq, Eq, Structural)]
pub struct BrokerLink {
    pub was_up: bool,
}

/// What the client of the broker reports.
#[derive(Debug, PartialEq)]
pub enum BrokerEvent {
    ConnAck,
    /// A message, with its payload read as either kind of request.
    Publish {
        topic: String,
        rpc: Result<RpcRequest, String>,
        shell: Result<ShellReq, String>,
    },
    Other,
    Failed { error: String },
}

/// What the engine is told of a report, on a link that was up or not.
pub open spec fn broker_edge(was_up: bool, ev: BrokerEvent) -> Option<Input> {
    match ev {
        BrokerEvent::ConnAck => Some(Input::MqttUp),
        BrokerEvent::Publish { topic, rpc, shell } => Some(Input::MqttIn { topic, rpc, shell }),
        BrokerEvent::Other => None,
        BrokerEvent::Failed { error } => if was_up {
            Some(Input::MqttDown { error })
        } else {
            None
        },
    }
}

/// Whether the link is taken to be up after a report.
pub open spec fn broker_after(was_up: bool, ev: BrokerEvent) -> bool {
    match ev {
        BrokerEvent::ConnAck => true,
        BrokerEvent::Failed { .. } => false,
        _ => was_up,
    }
}

impl BrokerLink {
    pub fn new() -> (r: BrokerLink)
        ensures
            !r.was_up,
    {
        BrokerLink { was_up: false }
    }

    /// Takes a report. A broker that stays away is reported once.
    pub fn on(&mut self, ev: BrokerEvent) -> (told: Option<Input>)
        ensures
            told == broker_edge(old(self).was_up, ev),
            final(self).was_up == broker_after(old(self).was_up, ev),
    {
        match ev {
            BrokerEvent::ConnAck => {
                self.was_up = true;
                Some(Input::MqttUp)
            },
            BrokerEvent::Publish { topic, rpc, shell } => Some(Input::MqttIn { topic, rpc, shell }),
            BrokerEvent::Other => None,
            BrokerEvent::Failed { error } => if self.was_up {
                self.was_up = false;
                Some(Input::MqttDown { error })
            } else {
                None
            },
        }
    }
}

/// Topic and payload that the broker publishes, retained, once the gateway is gone.
pub fn last_will(prefix: &str) -> (r: (String, String))
    ensures
        r.0@ == prefix@ + "gateway/status"@,
        r.1@ == "{\"schema\":"@ + dec(crate::payload::SCHEMA as nat) + ",\"state\":\"offline\"}"@,
{
    (gateway_status(prefix), Status::offline())
}

// ---- the headless service ----------------------------------------------------------

pub open spec fn up_text(up: bool) -> Seq<char> {
    if up {
        "up"@
    } else {
        "DOWN"@
    }
}

pub fn up_str(up: bool) -> (r: &'static str)
    ensures
        r@ == up_text(up),
{
    if up {
        "up"
    } else {
        "DOWN"
    }
}

/// The names of the nodes, each behind a dot; the address where a node has no name.
pub open spec fn names_text(nodes: Seq<NodeViewV>) -> Seq<char>
    decreases nodes.len(),
{
    if nodes.len() == 0 {
        Seq::empty()
    } else {
        names_text(nodes.drop_last()) + " · "@ + if nodes.last().name.len() == 0 {
            dec(nodes.last().addr as nat)
        } else {
            nodes.last().name
        }
    }
}

fn names_of(nodes: &Vec<NodeView>) -> (r: String)
    ensures
        r@ == names_text(nodes.deep_view()),
{
    let mut s = String::new();
    let mut i: usize = 0;
    assert(s@ =~= names_text(nodes.deep_view().take(0)));
    while i < nodes.len()
        invariant
            i <= nodes@.len(),
            s@ == names_text(nodes.deep_view().take(i as int)),
        decreases nodes@.len() - i,
    {
        let n = &nodes[i];
        s.append(" · ");
        if n.name.as_str().unicode_len() == 0 {
            s.append(dec_u64(n.addr as u64).as_str());
        } else {
            s.append(n.name.as_str());
        }
        assert(nodes.deep_view().take(i + 1).drop_last() =~= nodes.deep_view().take(i as int));
        i = i + 1;
    }
    assert(nodes.deep_view().take(i as int) =~= nodes.deep_view());
    s
}

/// What the service says of an event. Requests and the ambient level are not worth a line.
pub open spec fn service_text(ev: EventV) -> Option<Seq<char>> {
    match ev {
        EventV::Log(l) => Some(l),
        EventV::Link { serial_up, mqtt_up } => Some(
            "link: serial "@ + up_text(serial_up) + " · mqtt "@ + up_text(mqtt_up),
        ),
        EventV::Registry(nodes) => Some(
            "registry: "@ + dec(nodes.len()) + " node(s)"@ + names_text(nodes),
        ),
        EventV::Shell { node, rsp } => match rsp.error {
            Some(e) => Some("shell "@ + hex(node as nat, 8) + " #"@ + rsp.id + ": error: "@ + e),
            None => if rsp.done {
                Some(
                    "shell "@ + hex(node as nat, 8) + " #"@ + rsp.id + ": done (result "@ + dec(
                        rsp.result as nat,
                    ) + ")"@,
                )
            } else {
                None
            },
        },
        EventV::Radio(RadioSample::Ambient { .. }) => None,
        EventV::Radio(RadioSample::Rx { src, rssi_dbm }) => Some(
            "rx "@ + hex(src as nat, 8) + " "@ + dec_int(rssi_dbm as int) + " dBm"@,
        ),
        EventV::Radio(RadioSample::Tx { dest, delivered }) => Some(
            "tx "@ + hex(dest as nat, 8) + " "@ + if delivered {
                "delivered"@
            } else {
                "pending"@
            },
        ),
        EventV::Rpc(_) => None,
        EventV::Pairing(p) => if p.remaining_s is Some && p.state == "open"@ {
            Some("pairing window open ("@ + dec(p.remaining_s->0 as nat) + "s left)"@)
        } else {
            match p.joined {
                Some(j) => Some("paired "@ + j),
                None => None,
            }
        },
        EventV::Mqtt(_) => None,
    }
}

/// What the service says of an event (`None`: nothing).
pub fn service_line(ev: &Event) -> (r: Option<String>)
    ensures
        r.deep_view() == service_text(ev.deep_view()),
{
    match ev {
        Event::Log(l) => Some(l.as_str().to_owned()),
        Event::Link { serial_up, mqtt_up } => Some(
            cat4("link: serial ", up_str(*serial_up), " · mqtt ", up_str(*mqtt_up)),
        ),
        Event::Registry(nodes) => Some(
            cat4(
                "registry: ",
                dec_u64(nodes.len() as u64).as_str(),
                " node(s)",
                names_of(nodes).as_str(),
            ),
        ),
        Event::Shell { node, rsp } => match &rsp.error {
            Some(e) => Some(
                cat6(
                    "shell ",
                    hex_text(*node, 8).as_str(),
                    " #",
                    rsp.id.as_str(),
                    ": error: ",
                    e.as_str(),
                ),
            ),
            None => if rsp.done {
                Some(
                    cat7(
                        "shell ",
                        hex_text(*node, 8).as_str(),
                        " #",
                        rsp.id.as_str(),
                        ": done (result ",
                        dec_u64(rsp.result as u64).as_str(),
                        ")",
                    ),
                )
            } else {
                None
            },
        },
        Event::Radio(sample) => match sample {
            RadioSample::Ambient { .. } => None,
            RadioSample::Rx { src, rssi_dbm } => Some(
                cat5(
                    "rx ",
                    hex_text(*src, 8).as_str(),
                    " ",
                    dec_i64(*rssi_dbm as i64).as_str(),
                    " dBm",
                ),
            ),
            RadioSample::Tx { dest, delivered } => Some(
                cat4(
                    "tx ",
                    hex_text(*dest, 8).as_str(),
                    " ",
                    if *delivered {
                        "delivered"
                    } else {
                        "pending"
                    },
                ),
            ),
        },
        Event::Rpc(_) => None,
        Event::Pairing(p) => {
            if let Some(s) = p.remaining_s {
                if same(p.state.as_str(), "open") {
                    return Some(
                        cat3("pairing window open (", dec_u64(s).as_str(), "s left)"),
                    );
                }
            }
            match &p.joined {
                Some(j) => Some(cat2("paired ", j.as_str())),
                None => None,
            }
        },
        Event::Mqtt(_) => None,
    }
}

/// The line that the service writes of an event, at the present time of day.
pub fn service_output(ev: &Event) -> (r: Option<String>)
    ensures
        match service_text(ev.deep_view()) {
            Some(text) => r is Some && exists|clock: Seq<char>| #[trigger]
                is_clock(clock) && r->0@ == stamped(clock, text),
            None => r is None,
        },
{
    match service_line(ev) {
        Some(l) => Some(line_now(l.as_str())),
        None => None,
    }
}

// ---- laws --------------------------------------------------------------------------

/// The broker's absence is reported once: after a failure further ones tell the engine
/// nothing, until the broker has accepted the client again.
pub proof fn law_broker_loss_is_reported_once(was_up: bool, first: BrokerEvent, second: BrokerEvent)
    requires
        first is Failed,
        second is Failed,
    ensures
        broker_edge(broker_after(was_up, first), second) is None,
        broker_edge(broker_after(was_up, BrokerEvent::ConnAck), second) is Some,
{
}

} // verus!

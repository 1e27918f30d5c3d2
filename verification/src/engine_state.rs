//! What the gateway engine takes in, gives out and remembers, with the mathematical
//! views that its contracts speak of.

use crate::frame::{RadioStat, Uplink};
use crate::mgmt::{DeviceInfo, DeviceInfoV, MgmtOp, MgmtOpV, NodeEntry, NodeEntryV};
use crate::payload::{
    Pairing, PairingV, PendingEntry, PendingEntryV, RpcRequest, RpcResponse, RpcResponseV, ShellReq,
    ShellRsp, ShellRspV,
};
use crate::wire::Wire;
use vstd::prelude::*;

verus! {

// ---- inputs ------------------------------------------------------------------------

/// One message of the dongle.
#[derive(Debug, PartialEq)]
pub enum SerialMsg {
    Hello { firmware_name: String, firmware_version: String, session_id: u32 },
    Log { line: String },
    Uplink(Uplink),
    Mgmt { req_id: u16, result: u8, chunk: u16, last: bool, data: Vec<u8> },
    Stat(RadioStat),
    Dropped(u32),
}

/// Everything that can happen to the engine.
#[derive(Debug, PartialEq)]
pub enum Input {
    SerialUp,
    SerialDown { error: String },
    SerialFrame(SerialMsg),
    /// A request that was to be sent could not be encoded: its radio envelope
    /// (`envelope`), or the frame round it.
    EncodeFailed { req_id: u16, envelope: bool },
    MqttUp,
    MqttDown { error: String },
    /// A message of the broker, with its payload read as either kind of request, or what
    /// keeps it from being one.
    MqttIn { topic: String, rpc: Result<RpcRequest, String>, shell: Result<ShellReq, String> },
    /// An action of the frontend in the same process. Ids that begin with `tui-` route
    /// their responses back as events.
    Frontend(FrontendCmd),
    /// Housekeeping, once a second.
    Tick,
}

/// What the frontend can ask for.
#[derive(Debug, PartialEq)]
pub enum FrontendCmd {
    Rpc(RpcRequest),
    Shell { node: u32, req: ShellReq },
}

// ---- outputs -----------------------------------------------------------------------

/// Everything the engine wants done.
#[derive(Debug, PartialEq)]
pub enum Output {
    /// Encode one request and write it to the dongle.
    SerialSend { seq: u16, req_id: u16, op: MgmtOp },
    Publish { topic: String, payload: Vec<u8>, retain: bool },
    Subscribe(String),
    /// Something for the frontend to show.
    Event(Event),
}

/// What the frontend is told: the service prints it, the terminal interface folds it into
/// what it shows.
#[derive(Debug, PartialEq)]
pub enum Event {
    /// A line for people (device logs, milestones, warnings).
    Log(String),
    /// The state of a link changed.
    Link { serial_up: bool, mqtt_up: bool },
    /// The registry mirror changed (all of it).
    Registry(Vec<NodeView>),
    /// A chunk of a remote-shell response (or a final error) for a node's dialog.
    Shell { node: u32, rsp: ShellRsp },
    /// One sample for the radio graph.
    Radio(RadioSample),
    /// The pairing window changed.
    Pairing(Pairing),
    /// The response to a request of the frontend.
    Rpc(RpcResponse),
    /// A message that went to the broker or came from it.
    Mqtt(MqttMsg),
}

/// The frontend's view of one node (mirror row and live queue).
#[derive(Debug, PartialEq)]
pub struct NodeView {
    pub addr: u32,
    pub name: String,
    pub kind: String,
    pub sleeping: bool,
    pub unnamed: bool,
    pub last_seen_s: Option<u32>,
    pub rssi_dbm: Option<i8>,
    pub uplinks: u32,
    pub queued: u8,
    pub pending: Vec<PendingEntry>,
}

/// One sample for the radio graph.
#[derive(Debug, Clone, Copy, PartialEq, Eq, Structural)]
pub enum RadioSample {
    Ambient { dbm: i16, channel: u8 },
    Rx { src: u32, rssi_dbm: i16 },
    Tx { dest: u32, delivered: bool },
}

/// Which way a message went.
#[derive(Debug, Clone, Copy, PartialEq, Eq, Structural)]
pub enum MqttDir {
    In,
    Out,
}

/// One message of the broker's traffic.
#[derive(Debug, PartialEq)]
pub struct MqttMsg {
    pub dir: MqttDir,
    pub topic: String,
    pub payload: Vec<u8>,
    pub retain: bool,
}

#[verifier::ext_equal]
pub struct MqttMsgV {
    pub dir: MqttDir,
    pub topic: Seq<char>,
    pub payload: Seq<u8>,
    pub retain: bool,
}

impl DeepView for MqttMsg {
    type V = MqttMsgV;

    open spec fn deep_view(&self) -> MqttMsgV {
        MqttMsgV {
            dir: self.dir,
            topic: self.topic@,
            payload: self.payload@,
            retain: self.retain,
        }
    }
}

#[verifier::ext_equal]
pub struct NodeViewV {
    pub addr: u32,
    pub name: Seq<char>,
    pub kind: Seq<char>,
    pub sleeping: bool,
    pub unnamed: bool,
    pub last_seen_s: Option<u32>,
    pub rssi_dbm: Option<i8>,
    pub uplinks: u32,
    pub queued: u8,
    pub pending: Seq<PendingEntryV>,
}

impl DeepView for NodeView {
    type V = NodeViewV;

    open spec fn deep_view(&self) -> NodeViewV {
        NodeViewV {
            addr: self.addr,
            name: self.name@,
            kind: self.kind@,
            sleeping: self.sleeping,
            unnamed: self.unnamed,
            last_seen_s: self.last_seen_s,
            rssi_dbm: self.rssi_dbm,
            uplinks: self.uplinks,
            queued: self.queued,
            pending: self.pending.deep_view(),
        }
    }
}

#[verifier::ext_equal]
pub enum EventV {
    Log(Seq<char>),
    Link { serial_up: bool, mqtt_up: bool },
    Registry(Seq<NodeViewV>),
    Shell { node: u32, rsp: ShellRspV },
    Radio(RadioSample),
    Pairing(PairingV),
    Rpc(RpcResponseV),
    Mqtt(MqttMsgV),
}

impl DeepView for Event {
    type V = EventV;

    open spec fn deep_view(&self) -> EventV {
        match self {
            Event::Log(l) => EventV::Log(l@),
            Event::Link { serial_up, mqtt_up } => EventV::Link {
                serial_up: *serial_up,
                mqtt_up: *mqtt_up,
            },
            Event::Registry(v) => EventV::Registry(v.deep_view()),
            Event::Shell { node, rsp } => EventV::Shell { node: *node, rsp: rsp.deep_view() },
            Event::Radio(s) => EventV::Radio(*s),
            Event::Pairing(p) => EventV::Pairing(p.deep_view()),
            Event::Rpc(r) => EventV::Rpc(r.deep_view()),
            Event::Mqtt(m) => EventV::Mqtt(m.deep_view()),
        }
    }
}

#[verifier::ext_equal]
pub enum OutputV {
    SerialSend { seq: u16, req_id: u16, op: MgmtOpV },
    Publish { topic: Seq<char>, payload: Seq<u8>, retain: bool },
    Subscribe(Seq<char>),
    Event(EventV),
}

impl DeepView for Output {
    type V = OutputV;

    open spec fn deep_view(&self) -> OutputV {
        match self {
            Output::SerialSend { seq, req_id, op } => OutputV::SerialSend {
                seq: *seq,
                req_id: *req_id,
                op: op.deep_view(),
            },
            Output::Publish { topic, payload, retain } => OutputV::Publish {
                topic: topic@,
                payload: payload@,
                retain: *retain,
            },
            Output::Subscribe(t) => OutputV::Subscribe(t@),
            Output::Event(e) => OutputV::Event(e.deep_view()),
        }
    }
}

// ---- state -------------------------------------------------------------------------

/// What a request in flight was for (drives how its reply is read and what follows).
#[derive(Debug, PartialEq)]
pub enum OpKind {
    /// Describe again after a reconnect or a reboot of the gateway.
    Describe,
    NodeList,
    NodeAdd { id: u32, name: String },
    NodeRemove { id: u32 },
    NodeUpdate,
    RevealKey { id: u32 },
    PairingOpen,
    PairingCancel,
    QueuePush { node: u32, shell: Option<ShellOrigin> },
    QueueList,
    QueueDrop { node: u32 },
    StatsConfig,
}

/// Where a remote-shell command came from (for routing its response).
#[derive(Debug, PartialEq)]
pub struct ShellOrigin {
    pub rpc: String,
    pub line: String,
    pub cmd_id: u16,
}

/// One management request in flight.
#[derive(Debug, PartialEq)]
pub struct PendingMgmt {
    pub req_id: u16,
    pub op: OpKind,
    /// The request to answer (`None`: the engine's own).
    pub rpc: Option<String>,
    pub data: Vec<u8>,
    pub next_chunk: u16,
    pub truncated: bool,
    /// The tick at which it is given up.
    pub deadline: u64,
}

/// A mirrored row of the registry: what the device says, and what the host knows besides.
#[derive(Debug, PartialEq)]
pub struct NodeMirror {
    pub entry: NodeEntry,
    /// The kind that the firmware name in the node's heartbeat maps to.
    pub kind: String,
    /// The session of the last heartbeat.
    pub session_id: Option<u32>,
    /// Remote-shell commands that are queued or wait for their reply.
    pub pending: Vec<PendingShell>,
}

#[derive(Debug, PartialEq)]
pub struct PendingShell {
    pub item: u16,
    pub rpc: String,
    pub line: String,
    pub cmd_id: u16,
    /// The tick at which the gateway reported delivery.
    pub delivered_tick: Option<u64>,
    pub next_chunk: u16,
    pub truncated: bool,
}

/// The gateway engine: a state machine without input or output of its own. The time is a
/// tick once a second.
pub struct Engine {
    pub wire: Wire,
    pub prefix: String,
    pub port_name: String,
    pub describe: DeviceInfo,
    pub hello_session: Option<u32>,
    pub firmware_version: String,
    pub serial_up: bool,
    pub mqtt_up: bool,
    pub seq: u16,
    pub next_req: u16,
    pub next_cmd: u16,
    pub pending_mgmt: Vec<PendingMgmt>,
    pub nodes: Vec<NodeMirror>,
    pub pairing_rpc: Option<String>,
    pub pairing_until: Option<u64>,
    pub tick: u64,
    pub uplinks: u64,
    pub last_ambient: Option<(i16, u8)>,
}

#[verifier::ext_equal]
pub struct ShellOriginV {
    pub rpc: Seq<char>,
    pub line: Seq<char>,
    pub cmd_id: u16,
}

impl DeepView for ShellOrigin {
    type V = ShellOriginV;

    open spec fn deep_view(&self) -> ShellOriginV {
        ShellOriginV { rpc: self.rpc@, line: self.line@, cmd_id: self.cmd_id }
    }
}

#[verifier::ext_equal]
pub enum OpKindV {
    Describe,
    NodeList,
    NodeAdd { id: u32, name: Seq<char> },
    NodeRemove { id: u32 },
    NodeUpdate,
    RevealKey { id: u32 },
    PairingOpen,
    PairingCancel,
    QueuePush { node: u32, shell: Option<ShellOriginV> },
    QueueList,
    QueueDrop { node: u32 },
    StatsConfig,
}

impl DeepView for OpKind {
    type V = OpKindV;

    open spec fn deep_view(&self) -> OpKindV {
        match self {
            OpKind::Describe => OpKindV::Describe,
            OpKind::NodeList => OpKindV::NodeList,
            OpKind::NodeAdd { id, name } => OpKindV::NodeAdd { id: *id, name: name@ },
            OpKind::NodeRemove { id } => OpKindV::NodeRemove { id: *id },
            OpKind::NodeUpdate => OpKindV::NodeUpdate,
            OpKind::RevealKey { id } => OpKindV::RevealKey { id: *id },
            OpKind::PairingOpen => OpKindV::PairingOpen,
            OpKind::PairingCancel => OpKindV::PairingCancel,
            OpKind::QueuePush { node, shell } => OpKindV::QueuePush {
                node: *node,
                shell: shell.deep_view(),
            },
            OpKind::QueueList => OpKindV::QueueList,
            OpKind::QueueDrop { node } => OpKindV::QueueDrop { node: *node },
            OpKind::StatsConfig => OpKindV::StatsConfig,
        }
    }
}

#[verifier::ext_equal]
pub struct PendingMgmtV {
    pub req_id: u16,
    pub op: OpKindV,
    pub rpc: Option<Seq<char>>,
    pub data: Seq<u8>,
    pub next_chunk: u16,
    pub truncated: bool,
    pub deadline: u64,
}

impl DeepView for PendingMgmt {
    type V = PendingMgmtV;

    open spec fn deep_view(&self) -> PendingMgmtV {
        PendingMgmtV {
            req_id: self.req_id,
            op: self.op.deep_view(),
            rpc: self.rpc.deep_view(),
            data: self.data@,
            next_chunk: self.next_chunk,
            truncated: self.truncated,
            deadline: self.deadline,
        }
    }
}

#[verifier::ext_equal]
pub struct PendingShellV {
    pub item: u16,
    pub rpc: Seq<char>,
    pub line: Seq<char>,
    pub cmd_id: u16,
    pub delivered_tick: Option<u64>,
    pub next_chunk: u16,
    pub truncated: bool,
}

impl DeepView for PendingShell {
    type V = PendingShellV;

    open spec fn deep_view(&self) -> PendingShellV {
        PendingShellV {
            item: self.item,
            rpc: self.rpc@,
            line: self.line@,
            cmd_id: self.cmd_id,
            delivered_tick: self.delivered_tick,
            next_chunk: self.next_chunk,
            truncated: self.truncated,
        }
    }
}

#[verifier::ext_equal]
pub struct NodeMirrorV {
    pub entry: NodeEntryV,
    pub kind: Seq<char>,
    pub session_id: Option<u32>,
    pub pending: Seq<PendingShellV>,
}

impl DeepView for NodeMirror {
    type V = NodeMirrorV;

    open spec fn deep_view(&self) -> NodeMirrorV {
        NodeMirrorV {
            entry: self.entry.deep_view(),
            kind: self.kind@,
            session_id: self.session_id,
            pending: self.pending.deep_view(),
        }
    }
}

/// The state of the engine.
#[verifier::ext_equal]
pub struct EngineV {
    pub wire: Wire,
    pub prefix: Seq<char>,
    pub port_name: Seq<char>,
    pub describe: DeviceInfoV,
    pub hello_session: Option<u32>,
    pub firmware_version: Seq<char>,
    pub serial_up: bool,
    pub mqtt_up: bool,
    pub seq: u16,
    pub next_req: u16,
    pub next_cmd: u16,
    pub pending_mgmt: Seq<PendingMgmtV>,
    pub nodes: Seq<NodeMirrorV>,
    pub pairing_rpc: Option<Seq<char>>,
    pub pairing_until: Option<u64>,
    pub tick: u64,
    pub uplinks: u64,
    pub last_ambient: Option<(i16, u8)>,
}

impl View for Engine {
    type V = EngineV;

    open spec fn view(&self) -> EngineV {
        EngineV {
            wire: self.wire,
            prefix: self.prefix@,
            port_name: self.port_name@,
            describe: self.describe.deep_view(),
            hello_session: self.hello_session,
            firmware_version: self.firmware_version@,
            serial_up: self.serial_up,
            mqtt_up: self.mqtt_up,
            seq: self.seq,
            next_req: self.next_req,
            next_cmd: self.next_cmd,
            pending_mgmt: self.pending_mgmt.deep_view(),
            nodes: self.nodes.deep_view(),
            pairing_rpc: self.pairing_rpc.deep_view(),
            pairing_until: self.pairing_until,
            tick: self.tick,
            uplinks: self.uplinks,
            last_ambient: self.last_ambient,
        }
    }
}

} // verus!

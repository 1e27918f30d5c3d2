//! Frames of the serial link as plain values: what the codec hands to the library once
//! it has checked a frame and read its payload.

use vstd::prelude::*;

verus! {

#[derive(Debug, Clone, Copy, PartialEq, Eq, Structural)]
pub enum Level {
    Error,
    Warn,
    Info,
    Debug,
    Trace,
}

/// What a completion candidate names.
#[derive(Debug, Clone, Copy, PartialEq, Eq, Structural)]
pub enum CandidateKind {
    Menu,
    Command,
    Arg,
    Value,
}

/// The type that a frame's header announces.
#[derive(Debug, Clone, Copy, PartialEq, Eq, Structural)]
pub enum MsgType {
    Hello,
    Log,
    Print,
    Event,
    Dropped,
    ShellResponse,
    ShellCompletions,
    Uplink,
    MgmtResponse,
    RadioStat,
    /// A type that only the host sends.
    Other,
}

/// The announcement of a device at the start of a session.
#[derive(Debug, PartialEq)]
pub struct Hello {
    pub protocol_version: u8,
    pub firmware_name: String,
    pub firmware_version: String,
    pub session_id: u32,
}

#[derive(Debug, PartialEq)]
pub struct Log {
    pub level: Level,
    pub uptime_us: u64,
    pub module: String,
    pub message: String,
}

#[derive(Debug, PartialEq)]
pub struct EventMsg {
    pub name: String,
    pub fields: Vec<(String, String)>,
}

/// One chunk of the answer to a shell command.
#[derive(Debug, PartialEq)]
pub struct ShellResponse {
    pub cmd_id: u16,
    /// Counts only on the last chunk.
    pub result: u8,
    pub chunk: u16,
    pub last: bool,
    pub text: String,
}

#[derive(Debug, PartialEq)]
pub struct Candidate {
    pub text: String,
    pub kind: CandidateKind,
}

#[derive(Debug, PartialEq)]
pub struct ShellCompletions {
    pub req_id: u16,
    /// Byte offset of the word that is being completed.
    pub token_start: u16,
    pub common_prefix: String,
    pub candidates: Vec<Candidate>,
    pub more: bool,
}

/// One chunk of the answer to a management request.
#[derive(Debug, PartialEq)]
pub struct MgmtResponse {
    pub req_id: u16,
    /// Counts only on the last chunk.
    pub result: u8,
    pub chunk: u16,
    pub last: bool,
    pub data: Vec<u8>,
}

/// A radio packet that the gateway forwards.
#[derive(Debug, PartialEq)]
pub struct Uplink {
    pub src: u32,
    pub counter: u32,
    pub rssi_dbm: i16,
    pub lqi: u8,
    pub data: Vec<u8>,
    /// What `data` says, read as a message of the radio application schema.
    pub body: NodeMsg,
}

#[derive(Debug, Clone, Copy, PartialEq, Eq, Structural)]
pub enum ButtonKind {
    Press,
    Release,
    Click,
    Hold,
}

#[derive(Debug, Clone, Copy, PartialEq, Eq, Structural)]
pub enum AccelKind {
    Motion,
    Orientation,
}

/// A message of a node, or why its bytes are none.
#[derive(Debug, PartialEq)]
pub enum NodeMsg {
    Button { kind: ButtonKind, count: u32 },
    Temperature { millic: i32 },
    Accel { kind: AccelKind, face: u8 },
    Info(NodeInfo),
    Shell(NodeShellChunk),
    /// The bytes carry the tag of another schema version.
    BadVersion { got: u8 },
    Undecodable,
}

/// The heartbeat of a node.
#[derive(Debug, PartialEq)]
pub struct NodeInfo {
    pub firmware_name: String,
    pub session_id: u32,
    pub sleeping: bool,
}

/// One chunk of a node's answer to a remote-shell line.
#[derive(Debug, PartialEq)]
pub struct NodeShellChunk {
    pub cmd_id: u16,
    pub result: u8,
    pub chunk: u16,
    pub last: bool,
    pub text: String,
}

/// Diagnostics of the gateway's radio.
#[derive(Debug, Clone, Copy, PartialEq, Eq, Structural)]
pub enum RadioStat {
    Channel { channel: u8, rssi_dbm: i16 },
    Tx { dest: u32, item: u16, outcome: u8, ack_rssi_dbm: Option<i8> },
}

/// The payload of a frame.
#[derive(Debug, PartialEq)]
pub enum Body {
    Hello(Hello),
    Log(Log),
    Print { text: String },
    Event(EventMsg),
    Dropped { count: u32 },
    ShellResponse(ShellResponse),
    ShellCompletions(ShellCompletions),
    Uplink(Uplink),
    MgmtResponse(MgmtResponse),
    RadioStat(RadioStat),
    /// The frame is whole, but its payload is no message of the announced type.
    Malformed,
}

/// One frame that came off the link.
#[derive(Debug, PartialEq)]
pub enum Frame {
    /// The codec refused the frame: why, and the version tag where that was the reason.
    Refused { error: String, bad_version: Option<u8> },
    Message { kind: MsgType, seq: u16, body: Body },
}

} // verus!

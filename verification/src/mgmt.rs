//! The management channel: requests, the records that answer them, and the reassembly
//! of chunked replies.

use crate::frame::{Body, Frame};
use crate::text::push_deep;
use crate::wire::{role, role_of, DeviceRole, Wire};
use vstd::prelude::*;

verus! {

/// A management request.
#[derive(Debug, PartialEq)]
pub enum MgmtOp {
    Describe,
    NodeList,
    NodeAdd { id: u32, key: [u8; 16], name: String, flags: u8 },
    NodeRemove { id: u32 },
    NodeUpdate { id: u32, name: Option<String>, flags: Option<u8> },
    NodeRevealKey { id: u32 },
    PairingOpen { window_s: u16, key: [u8; 16] },
    PairingCancel,
    /// Queue a remote-shell line (as a radio envelope) for a node.
    QueuePush { node: u32, ttl_s: u16, cmd_id: u16, line: String },
    QueueList { node: u32 },
    QueueDrop { node: u32, item: Option<u16> },
    StatsConfig { channel_period_ms: u32 },
    Provision { gw_id: u32, key: [u8; 16], band: u8, channel: u8 },
}

#[verifier::ext_equal]
pub enum MgmtOpV {
    Describe,
    NodeList,
    NodeAdd { id: u32, key: Seq<u8>, name: Seq<char>, flags: u8 },
    NodeRemove { id: u32 },
    NodeUpdate { id: u32, name: Option<Seq<char>>, flags: Option<u8> },
    NodeRevealKey { id: u32 },
    PairingOpen { window_s: u16, key: Seq<u8> },
    PairingCancel,
    QueuePush { node: u32, ttl_s: u16, cmd_id: u16, line: Seq<char> },
    QueueList { node: u32 },
    QueueDrop { node: u32, item: Option<u16> },
    StatsConfig { channel_period_ms: u32 },
    Provision { gw_id: u32, key: Seq<u8>, band: u8, channel: u8 },
}

impl DeepView for MgmtOp {
    type V = MgmtOpV;

    open spec fn deep_view(&self) -> MgmtOpV {
        match self {
            MgmtOp::Describe => MgmtOpV::Describe,
            MgmtOp::NodeList => MgmtOpV::NodeList,
            MgmtOp::NodeAdd { id, key, name, flags } => MgmtOpV::NodeAdd {
                id: *id,
                key: key@,
                name: name@,
                flags: *flags,
            },
            MgmtOp::NodeRemove { id } => MgmtOpV::NodeRemove { id: *id },
            MgmtOp::NodeUpdate { id, name, flags } => MgmtOpV::NodeUpdate {
                id: *id,
                name: name.deep_view(),
                flags: *flags,
            },
            MgmtOp::NodeRevealKey { id } => MgmtOpV::NodeRevealKey { id: *id },
            MgmtOp::PairingOpen { window_s, key } => MgmtOpV::PairingOpen {
                window_s: *window_s,
                key: key@,
            },
            MgmtOp::PairingCancel => MgmtOpV::PairingCancel,
            MgmtOp::QueuePush { node, ttl_s, cmd_id, line } => MgmtOpV::QueuePush {
                node: *node,
                ttl_s: *ttl_s,
                cmd_id: *cmd_id,
                line: line@,
            },
            MgmtOp::QueueList { node } => MgmtOpV::QueueList { node: *node },
            MgmtOp::QueueDrop { node, item } => MgmtOpV::QueueDrop { node: *node, item: *item },
            MgmtOp::StatsConfig { channel_period_ms } => MgmtOpV::StatsConfig {
                channel_period_ms: *channel_period_ms,
            },
            MgmtOp::Provision { gw_id, key, band, channel } => MgmtOpV::Provision {
                gw_id: *gw_id,
                key: key@,
                band: *band,
                channel: *channel,
            },
        }
    }
}

// ---- records -----------------------------------------------------------------------

/// What a device says of itself.
#[derive(Debug, PartialEq)]
pub struct DeviceInfo {
    pub role: DeviceRole,
    pub radio_schema_version: u8,
    pub net_id: u32,
    pub band: u8,
    pub channel: u8,
    pub node_capacity: u8,
    pub node_count: u8,
    pub provisioned: bool,
    pub gw_id: u32,
    pub firmware_name: String,
}

#[verifier::ext_equal]
pub struct DeviceInfoV {
    pub role: DeviceRole,
    pub radio_schema_version: u8,
    pub net_id: u32,
    pub band: u8,
    pub channel: u8,
    pub node_capacity: u8,
    pub node_count: u8,
    pub provisioned: bool,
    pub gw_id: u32,
    pub firmware_name: Seq<char>,
}

impl DeepView for DeviceInfo {
    type V = DeviceInfoV;

    open spec fn deep_view(&self) -> DeviceInfoV {
        DeviceInfoV {
            role: self.role,
            radio_schema_version: self.radio_schema_version,
            net_id: self.net_id,
            band: self.band,
            channel: self.channel,
            node_capacity: self.node_capacity,
            node_count: self.node_count,
            provisioned: self.provisioned,
            gw_id: self.gw_id,
            firmware_name: self.firmware_name@,
        }
    }
}

/// One row of the device's registry.
#[derive(Debug, PartialEq)]
pub struct NodeEntry {
    pub id: u32,
    pub name: String,
    pub flags: u8,
    pub last_seen_s: u32,
    pub rssi_dbm: i8,
    pub uplinks: u32,
    pub queued: u8,
}

#[verifier::ext_equal]
pub struct NodeEntryV {
    pub id: u32,
    pub name: Seq<char>,
    pub flags: u8,
    pub last_seen_s: u32,
    pub rssi_dbm: i8,
    pub uplinks: u32,
    pub queued: u8,
}

impl DeepView for NodeEntry {
    type V = NodeEntryV;

    open spec fn deep_view(&self) -> NodeEntryV {
        NodeEntryV {
            id: self.id,
            name: self.name@,
            flags: self.flags,
            last_seen_s: self.last_seen_s,
            rssi_dbm: self.rssi_dbm,
            uplinks: self.uplinks,
            queued: self.queued,
        }
    }
}

/// One downlink that waits in the device's queue.
#[derive(Debug, PartialEq)]
pub struct QueueEntry {
    pub node: u32,
    pub item: u16,
    pub age_s: u16,
    pub ttl_s: u16,
    pub data: Vec<u8>,
}

#[verifier::ext_equal]
pub struct QueueEntryV {
    pub node: u32,
    pub item: u16,
    pub age_s: u16,
    pub ttl_s: u16,
    pub data: Seq<u8>,
}

impl DeepView for QueueEntry {
    type V = QueueEntryV;

    open spec fn deep_view(&self) -> QueueEntryV {
        QueueEntryV {
            node: self.node,
            item: self.item,
            age_s: self.age_s,
            ttl_s: self.ttl_s,
            data: self.data@,
        }
    }
}

/// The fields of a device description, in the order of the wire: role, radio schema,
/// address, band, channel, capacity, count, provisioned, gateway, firmware name.
pub type DeviceInfoFields = (u32, u8, u32, u8, u8, u8, u8, bool, u32, String);

/// The fields of a registry row, in the order of the wire.
pub type NodeEntryFields = (u32, String, u8, u32, i8, u32, u8);

/// The fields of a queue row, in the order of the wire.
pub type QueueEntryFields = (u32, u16, u16, u16, Vec<u8>);

/// What `postcard::from_bytes` reads as a device description.
pub uninterp spec fn read_device_info(bytes: Seq<u8>) -> Option<
    (u32, u8, u32, u8, u8, u8, u8, bool, u32, Seq<char>),
>;

/// The key that bytes start with: sixteen of them, as they are.
pub open spec fn read_node_key(bytes: Seq<u8>) -> Option<Seq<u8>> {
    if bytes.len() >= 16 {
        Some(bytes.take(16))
    } else {
        None
    }
}

/// The number that bytes start with, seven bits in each, the lowest first. All but its last
/// byte have the top bit set. It takes at most `most` bytes, and where it takes them all,
/// the last one is at most `top`.
pub open spec fn varint(bytes: Seq<u8>, most: nat, top: u8) -> Option<nat>
    decreases most,
{
    if most == 0 || bytes.len() == 0 || (most == 1 && bytes[0] > top) {
        None
    } else if bytes[0] < 0x80 {
        Some(bytes[0] as nat)
    } else {
        match varint(bytes.skip(1), (most - 1) as nat, top) {
            Some(n) => Some((bytes[0] - 0x80 + 0x80 * n) as nat),
            None => None,
        }
    }
}

/// The address of a paired node that bytes start with: a number of 32 bits.
pub open spec fn read_paired(bytes: Seq<u8>) -> Option<u32> {
    match varint(bytes, 5, 0x0f) {
        Some(n) => Some(n as u32),
        None => None,
    }
}

/// The id of a queue item that bytes start with: a number of 16 bits.
pub open spec fn read_queue_id(bytes: Seq<u8>) -> Option<u16> {
    match varint(bytes, 3, 0x03) {
        Some(n) => Some(n as u16),
        None => None,
    }
}

/// What `postcard::take_from_bytes` reads as a registry row, and the bytes behind it.
pub uninterp spec fn take_node_entry(bytes: Seq<u8>) -> Option<
    ((u32, Seq<char>, u8, u32, i8, u32, u8), Seq<u8>),
>;

/// What `postcard::take_from_bytes` reads as a queue row, and the bytes behind it.
pub uninterp spec fn take_queue_entry(bytes: Seq<u8>) -> Option<
    ((u32, u16, u16, u16, Seq<u8>), Seq<u8>),
>;

/// `postcard::from_bytes` at the fields of a device description. The result depends on
/// the bytes alone.
#[verifier::external_body]
fn decode_device_info(bytes: &[u8]) -> (r: Option<DeviceInfoFields>)
    ensures
        match r {
            Some(t) => read_device_info(bytes@) == Some(
                (t.0, t.1, t.2, t.3, t.4, t.5, t.6, t.7, t.8, t.9@),
            ),
            None => read_device_info(bytes@) is None,
        },
{
    postcard::from_bytes::<DeviceInfoFields>(bytes).ok()
}

/// `postcard::from_bytes` at sixteen bytes: the first sixteen, and nothing where there are
/// fewer. What is behind them is left alone.
#[verifier::external_body]
pub(crate) fn decode_node_key(bytes: &[u8]) -> (r: Option<[u8; 16]>)
    ensures
        match r {
            Some(k) => read_node_key(bytes@) == Some(k@),
            None => read_node_key(bytes@) is None,
        },
{
    postcard::from_bytes::<[u8; 16]>(bytes).ok()
}

/// `postcard::from_bytes` at a 32-bit number: the one that the bytes start with, and nothing
/// where they start with none. What is behind it is left alone.
#[verifier::external_body]
pub(crate) fn decode_paired(bytes: &[u8]) -> (r: Option<u32>)
    ensures
        r == read_paired(bytes@),
{
    postcard::from_bytes::<u32>(bytes).ok()
}

/// `postcard::from_bytes` at a 16-bit number: the one that the bytes start with, and nothing
/// where they start with none. What is behind it is left alone.
#[verifier::external_body]
pub(crate) fn decode_queue_id(bytes: &[u8]) -> (r: Option<u16>)
    ensures
        r == read_queue_id(bytes@),
{
    postcard::from_bytes::<u16>(bytes).ok()
}

/// `postcard::take_from_bytes` at the fields of a registry row: the row, and the bytes
/// that it did not use. A row takes at least one byte. The result depends on the bytes
/// alone.
#[verifier::external_body]
fn decode_node_entry(bytes: &[u8]) -> (r: Option<(NodeEntryFields, &[u8])>)
    ensures
        match r {
            Some((t, rest)) => take_node_entry(bytes@) == Some(
                ((t.0, t.1@, t.2, t.3, t.4, t.5, t.6), rest@),
            ) && rest@.len() < bytes@.len(),
            None => take_node_entry(bytes@) is None,
        },
{
    postcard::take_from_bytes::<NodeEntryFields>(bytes).ok()
}

/// `postcard::take_from_bytes` at the fields of a queue row: the row, and the bytes that
/// it did not use. A row takes at least one byte. The result depends on the bytes alone.
#[verifier::external_body]
fn decode_queue_entry(bytes: &[u8]) -> (r: Option<(QueueEntryFields, &[u8])>)
    ensures
        match r {
            Some((t, rest)) => take_queue_entry(bytes@) == Some(
                ((t.0, t.1, t.2, t.3, t.4@), rest@),
            ) && rest@.len() < bytes@.len(),
            None => take_queue_entry(bytes@) is None,
        },
{
    postcard::take_from_bytes::<QueueEntryFields>(bytes).ok()
}

/// A device description out of its fields, if its role is one.
pub open spec fn device_info_of(
    wire: Wire,
    t: (u32, u8, u32, u8, u8, u8, u8, bool, u32, Seq<char>),
) -> Option<DeviceInfoV> {
    match role(wire, t.0) {
        Some(role) => Some(
            DeviceInfoV {
                role,
                radio_schema_version: t.1,
                net_id: t.2,
                band: t.3,
                channel: t.4,
                node_capacity: t.5,
                node_count: t.6,
                provisioned: t.7,
                gw_id: t.8,
                firmware_name: t.9,
            },
        ),
        None => None,
    }
}

/// The description that a reply holds.
pub open spec fn device_info_in(wire: Wire, bytes: Seq<u8>) -> Option<DeviceInfoV> {
    match read_device_info(bytes) {
        Some(t) => device_info_of(wire, t),
        None => None,
    }
}

/// A device description out of its fields, if its role is one.
pub fn device_info(wire: &Wire, t: DeviceInfoFields) -> (r: Option<DeviceInfo>)
    ensures
        r.deep_view() == device_info_of(
            *wire,
            (t.0, t.1, t.2, t.3, t.4, t.5, t.6, t.7, t.8, t.9@),
        ),
{
    match role_of(wire, t.0) {
        Some(role) => Some(
            DeviceInfo {
                role,
                radio_schema_version: t.1,
                net_id: t.2,
                band: t.3,
                channel: t.4,
                node_capacity: t.5,
                node_count: t.6,
                provisioned: t.7,
                gw_id: t.8,
                firmware_name: t.9,
            },
        ),
        None => None,
    }
}

/// Reads the description that a reply holds.
pub fn parse_device_info(wire: &Wire, bytes: &[u8]) -> (r: Option<DeviceInfo>)
    ensures
        r.deep_view() == device_info_in(*wire, bytes@),
{
    match decode_device_info(bytes) {
        Some(t) => device_info(wire, t),
        None => None,
    }
}

/// The registry rows at the front of a record stream, up to the first that cannot be
/// read.
pub open spec fn node_entries(bytes: Seq<u8>) -> Seq<NodeEntryV>
    decreases bytes.len(),
{
    match take_node_entry(bytes) {
        Some((t, rest)) => if bytes.len() > 0 && rest.len() < bytes.len() {
            seq![
                NodeEntryV {
                    id: t.0,
                    name: t.1,
                    flags: t.2,
                    last_seen_s: t.3,
                    rssi_dbm: t.4,
                    uplinks: t.5,
                    queued: t.6,
                },
            ] + node_entries(rest)
        } else {
            Seq::empty()
        },
        None => Seq::empty(),
    }
}

/// The queue rows at the front of a record stream, up to the first that cannot be read.
pub open spec fn queue_entries(bytes: Seq<u8>) -> Seq<QueueEntryV>
    decreases bytes.len(),
{
    match take_queue_entry(bytes) {
        Some((t, rest)) => if bytes.len() > 0 && rest.len() < bytes.len() {
            seq![QueueEntryV { node: t.0, item: t.1, age_s: t.2, ttl_s: t.3, data: t.4 }]
                + queue_entries(rest)
        } else {
            Seq::empty()
        },
        None => Seq::empty(),
    }
}

/// Reads a stream of registry rows; stops at the first tail that cannot be read.
pub fn parse_node_entries(data: &[u8]) -> (r: Vec<NodeEntry>)
    ensures
        r.deep_view() == node_entries(data@),
{
    let mut out: Vec<NodeEntry> = Vec::new();
    let mut rest: &[u8] = data;
    assert(out.deep_view() =~= Seq::<NodeEntryV>::empty());
    assert(out.deep_view() + node_entries(rest@) =~= node_entries(data@));
    while rest.len() > 0
        invariant
            out.deep_view() + node_entries(rest@) == node_entries(data@),
        ensures
            out.deep_view() == node_entries(data@),
        decreases rest@.len(),
    {
        match decode_node_entry(rest) {
            Some((t, tail)) => {
                let e = NodeEntry {
                    id: t.0,
                    name: t.1,
                    flags: t.2,
                    last_seen_s: t.3,
                    rssi_dbm: t.4,
                    uplinks: t.5,
                    queued: t.6,
                };
                let ghost before = out.deep_view();
                let ghost ev = e.deep_view();
                push_deep(&mut out, e);
                assert(out.deep_view() + node_entries(tail@) =~= before + (seq![ev] + node_entries(
                    tail@,
                )));
                rest = tail;
            },
            None => {
                assert(out.deep_view() =~= node_entries(data@));
                return out;
            },
        }
        if rest.len() == 0 {
            assert(out.deep_view() + node_entries(rest@) =~= out.deep_view());
        }
    }
    out
}

/// Reads a stream of queue rows; stops at the first tail that cannot be read.
pub fn parse_queue_entries(data: &[u8]) -> (r: Vec<QueueEntry>)
    ensures
        r.deep_view() == queue_entries(data@),
{
    let mut out: Vec<QueueEntry> = Vec::new();
    let mut rest: &[u8] = data;
    assert(out.deep_view() =~= Seq::<QueueEntryV>::empty());
    assert(out.deep_view() + queue_entries(rest@) =~= queue_entries(data@));
    while rest.len() > 0
        invariant
            out.deep_view() + queue_entries(rest@) == queue_entries(data@),
        decreases rest@.len(),
    {
        match decode_queue_entry(rest) {
            Some((t, tail)) => {
                let e = QueueEntry { node: t.0, item: t.1, age_s: t.2, ttl_s: t.3, data: t.4 };
                let ghost before = out.deep_view();
                let ghost ev = e.deep_view();
                push_deep(&mut out, e);
                assert(out.deep_view() + queue_entries(tail@) =~= before + (seq![ev]
                    + queue_entries(tail@)));
                rest = tail;
            },
            None => {
                assert(out.deep_view() =~= queue_entries(data@));
                return out;
            },
        }
    }
    assert(out.deep_view() =~= out.deep_view() + queue_entries(rest@));
    out
}

// ---- reassembly --------------------------------------------------------------------

/// A complete management reply: the final result code, the concatenated record stream,
/// and whether a gap between chunks was seen.
#[derive(Debug, PartialEq)]
pub struct MgmtReply {
    pub result: u8,
    pub data: Vec<u8>,
    /// A chunk was lost: `data` misses a piece in the middle.
    pub truncated: bool,
}

/// What came of waiting for a reply. Where the time is over, it says whether frames
/// with another version tag were seen, so that a mismatch does not read as a mute device.
#[derive(Debug, PartialEq)]
pub enum MgmtOutcome {
    Reply(MgmtReply),
    Timeout { bad_version: Option<u8> },
}

/// A management request that waits for its reply.
#[derive(Debug, PartialEq)]
pub struct MgmtWait {
    pub req_id: u16,
    pub data: Vec<u8>,
    pub next_chunk: u16,
    pub truncated: bool,
    pub bad_version: Option<u8>,
}

/// What one frame did to a waiting request.
#[derive(Debug, PartialEq)]
pub enum MgmtStep {
    /// The frame was not for this request.
    Ignored,
    /// A chunk of the reply: the idle deadline starts anew.
    Progress,
    /// The last chunk.
    Done(MgmtReply),
}

/// Where a waiting request stands.
#[verifier::ext_equal]
pub struct MgmtWaitV {
    pub req_id: u16,
    pub data: Seq<u8>,
    pub next_chunk: u16,
    pub truncated: bool,
    pub bad_version: Option<u8>,
}

impl View for MgmtWait {
    type V = MgmtWaitV;

    open spec fn view(&self) -> MgmtWaitV {
        MgmtWaitV {
            req_id: self.req_id,
            data: self.data@,
            next_chunk: self.next_chunk,
            truncated: self.truncated,
            bad_version: self.bad_version,
        }
    }
}

/// The chunk of this request's reply that a frame carries, if it carries one.
pub open spec fn mgmt_chunk(frame: Frame, req_id: u16) -> Option<(u16, bool, u8, Seq<u8>)> {
    match frame {
        Frame::Message { kind: _, seq: _, body: Body::MgmtResponse(r) } => if r.req_id == req_id {
            Some((r.chunk, r.last, r.result, r.data@))
        } else {
            None
        },
        _ => None,
    }
}

/// A waiting request once a frame has come.
pub open spec fn mgmt_after(w: MgmtWaitV, frame: Frame) -> MgmtWaitV {
    match mgmt_chunk(frame, w.req_id) {
        Some((chunk, _, _, data)) => MgmtWaitV {
            data: w.data + data,
            next_chunk: next_index(chunk),
            truncated: w.truncated || chunk != w.next_chunk,
            ..w
        },
        None => match frame {
            Frame::Refused { error: _, bad_version: Some(got) } => MgmtWaitV {
                bad_version: Some(got),
                ..w
            },
            _ => w,
        },
    }
}

/// The index behind `chunk`; indices wrap around.
pub open spec fn next_index(chunk: u16) -> u16 {
    if chunk == u16::MAX {
        0u16
    } else {
        (chunk + 1) as u16
    }
}

impl MgmtWait {
    /// Nothing has come yet for the request `req_id`.
    pub fn new(req_id: u16) -> (r: MgmtWait)
        ensures
            r@ == (MgmtWaitV {
                req_id,
                data: Seq::empty(),
                next_chunk: 0,
                truncated: false,
                bad_version: None,
            }),
    {
        let w = MgmtWait { req_id, data: Vec::new(), next_chunk: 0, truncated: false, bad_version: None };
        assert(w.data@ =~= Seq::<u8>::empty());
        w
    }

    /// Takes one frame. Frames that answer no request or another one (logs, uplinks)
    /// change nothing; a refused version tag is remembered.
    pub fn on_frame(&mut self, frame: &Frame) -> (r: MgmtStep)
        ensures
            final(self)@ == mgmt_after(old(self)@, *frame),
            match mgmt_chunk(*frame, old(self).req_id) {
                None => r == MgmtStep::Ignored,
                Some((_, false, _, _)) => r == MgmtStep::Progress,
                Some((_, true, result, _)) => r matches MgmtStep::Done(reply) && reply.result == result
                    && reply.data@ == final(self)@.data && reply.truncated == final(self)@.truncated,
            },
    {
        match frame {
            Frame::Refused { error: _, bad_version } => {
                if let Some(got) = bad_version {
                    self.bad_version = Some(*got);
                }
                MgmtStep::Ignored
            },
            Frame::Message { kind: _, seq: _, body } => match body {
                Body::MgmtResponse(m) => {
                    if m.req_id != self.req_id {
                        return MgmtStep::Ignored;
                    }
                    if m.chunk != self.next_chunk {
                        self.truncated = true;
                    }
                    self.next_chunk = m.chunk.wrapping_add(1);
                    append_bytes(&mut self.data, &m.data);
                    if m.last {
                        MgmtStep::Done(
                            MgmtReply {
                                result: m.result,
                                data: copy_bytes(&self.data),
                                truncated: self.truncated,
                            },
                        )
                    } else {
                        MgmtStep::Progress
                    }
                },
                _ => MgmtStep::Ignored,
            },
        }
    }

    /// The time is over.
    pub fn timed_out(&self) -> (r: MgmtOutcome)
        ensures
            r == (MgmtOutcome::Timeout { bad_version: self.bad_version }),
    {
        MgmtOutcome::Timeout { bad_version: self.bad_version }
    }
}

#[verifier::ext_equal]
pub enum MgmtOutcomeV {
    Reply { result: u8, data: Seq<u8>, truncated: bool },
    Timeout { bad_version: Option<u8> },
}

impl DeepView for MgmtOutcome {
    type V = MgmtOutcomeV;

    open spec fn deep_view(&self) -> MgmtOutcomeV {
        match self {
            MgmtOutcome::Reply(r) => MgmtOutcomeV::Reply {
                result: r.result,
                data: r.data@,
                truncated: r.truncated,
            },
            MgmtOutcome::Timeout { bad_version } => MgmtOutcomeV::Timeout {
                bad_version: *bad_version,
            },
        }
    }
}

/// Nothing has come yet for a request.
pub open spec fn mgmt_start(req_id: u16) -> MgmtWaitV {
    MgmtWaitV { req_id, data: Seq::empty(), next_chunk: 0, truncated: false, bad_version: None }
}

/// What the frames that came in time make of a waiting request.
pub open spec fn mgmt_outcome(w: MgmtWaitV, frames: Seq<Frame>) -> MgmtOutcomeV
    decreases frames.len(),
{
    if frames.len() == 0 {
        MgmtOutcomeV::Timeout { bad_version: w.bad_version }
    } else {
        let next = mgmt_after(w, frames[0]);
        match mgmt_chunk(frames[0], w.req_id) {
            Some((_, true, result, _)) => MgmtOutcomeV::Reply {
                result,
                data: next.data,
                truncated: next.truncated,
            },
            _ => mgmt_outcome(next, frames.skip(1)),
        }
    }
}

/// Reads the reply to `req_id` out of the frames that came in time.
pub fn mgmt_roundtrip(req_id: u16, frames: &Vec<Frame>) -> (r: MgmtOutcome)
    ensures
        r.deep_view() == mgmt_outcome(mgmt_start(req_id), frames@),
{
    let mut w = MgmtWait::new(req_id);
    let mut i: usize = 0;
    assert(frames@.skip(0) =~= frames@);
    while i < frames.len()
        invariant
            i <= frames@.len(),
            w.req_id == req_id,
            mgmt_outcome(mgmt_start(req_id), frames@) == mgmt_outcome(w@, frames@.skip(i as int)),
        decreases frames@.len() - i,
    {
        assert(frames@.skip(i as int).skip(1) =~= frames@.skip(i + 1));
        if let MgmtStep::Done(r) = w.on_frame(&frames[i]) {
            return MgmtOutcome::Reply(r);
        }
        i = i + 1;
    }
    w.timed_out()
}

/// Appends bytes.
pub fn append_bytes(v: &mut Vec<u8>, more: &Vec<u8>)
    ensures
        final(v)@ == old(v)@ + more@,
{
    let ghost start = v@;
    let mut i: usize = 0;
    assert(start + more@.take(0) =~= start);
    while i < more.len()
        invariant
            i <= more@.len(),
            v@ == start + more@.take(i as int),
        decreases more@.len() - i,
    {
        v.push(more[i]);
        assert(start + more@.take(i + 1) =~= (start + more@.take(i as int)).push(more@[i as int]));
        i = i + 1;
    }
    assert(more@.take(i as int) =~= more@);
}

/// A copy of some bytes.
pub fn copy_bytes(v: &Vec<u8>) -> (r: Vec<u8>)
    ensures
        r@ == v@,
{
    let mut out: Vec<u8> = Vec::new();
    append_bytes(&mut out, v);
    assert(out@ =~= v@);
    out
}

// ---- the role probe ----------------------------------------------------------------

/// What a device answered when it was asked to describe itself. This is the check that
/// counts: the firmware name of a `Hello` is for display only.
#[derive(Debug, PartialEq)]
pub enum DescribeOutcome {
    Info(DeviceInfo),
    /// The device answered but refused, or its answer cannot be read.
    Refused(u8),
    Timeout { bad_version: Option<u8> },
}

#[verifier::ext_equal]
pub enum DescribeOutcomeV {
    Info(DeviceInfoV),
    Refused(u8),
    Timeout { bad_version: Option<u8> },
}

impl DeepView for DescribeOutcome {
    type V = DescribeOutcomeV;

    open spec fn deep_view(&self) -> DescribeOutcomeV {
        match self {
            DescribeOutcome::Info(i) => DescribeOutcomeV::Info(i.deep_view()),
            DescribeOutcome::Refused(c) => DescribeOutcomeV::Refused(*c),
            DescribeOutcome::Timeout { bad_version } => DescribeOutcomeV::Timeout {
                bad_version: *bad_version,
            },
        }
    }
}

/// What an outcome of the probe says of the device.
pub open spec fn described(wire: Wire, outcome: MgmtOutcome) -> DescribeOutcomeV {
    match outcome {
        MgmtOutcome::Timeout { bad_version } => DescribeOutcomeV::Timeout { bad_version },
        MgmtOutcome::Reply(r) => if r.result == wire.mgmt_ok {
            match device_info_in(wire, r.data@) {
                Some(d) => DescribeOutcomeV::Info(d),
                None => DescribeOutcomeV::Refused(u8::MAX),
            }
        } else {
            DescribeOutcomeV::Refused(r.result)
        },
    }
}

/// Reads the outcome of a `Describe` request.
pub fn describe(wire: &Wire, outcome: MgmtOutcome) -> (r: DescribeOutcome)
    ensures
        r.deep_view() == described(*wire, outcome),
{
    match outcome {
        MgmtOutcome::Timeout { bad_version } => DescribeOutcome::Timeout { bad_version },
        MgmtOutcome::Reply(reply) => {
            if reply.result == wire.mgmt_ok {
                match parse_device_info(wire, reply.data.as_slice()) {
                    Some(d) => DescribeOutcome::Info(d),
                    None => DescribeOutcome::Refused(u8::MAX),
                }
            } else {
                DescribeOutcome::Refused(reply.result)
            }
        },
    }
}

// ---- laws --------------------------------------------------------------------------

/// A number that is read fits into its type, so none of its bits is lost.
pub proof fn law_numbers_fit(bytes: Seq<u8>)
    ensures
        varint(bytes, 5, 0x0f) matches Some(n) ==> n <= u32::MAX,
        varint(bytes, 3, 0x03) matches Some(n) ==> n <= u16::MAX,
{
    reveal_with_fuel(varint, 6);
}

} // verus!

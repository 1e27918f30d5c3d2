//! What the wire codec fixes and this library only reads: version tags, size limits,
//! result codes and flag bits, as plain values.

use vstd::prelude::*;

verus! {

/// The constants of the wire protocol that the host was built against.
#[derive(Debug, Clone, Copy, PartialEq, Eq, Structural)]
pub struct Wire {
    /// The version tag of serial frames.
    pub protocol_version: u8,
    /// The version of the radio application schema.
    pub radio_schema_version: u8,
    /// The longest remote-shell line that one radio packet carries, in bytes.
    pub radio_shell_chunk: usize,
    /// The longest node name, in bytes.
    pub max_node_name: usize,
    /// The largest serial frame, in bytes.
    pub max_frame: usize,
    /// The discriminant of the gateway role in a device description.
    pub role_gateway: u32,
    /// The discriminant of the node role in a device description.
    pub role_node: u32,
    /// The discriminant of any other known role in a device description.
    pub role_other: u32,
    /// Registry flag: the node sleeps between its wake-ups.
    pub flag_sleeping: u8,
    /// Registry flag: nobody has named the node yet.
    pub flag_unnamed: u8,
    /// The `last_seen` of a node that was never heard.
    pub last_seen_never: u32,
    /// The signal strength of a node that was never heard.
    pub rssi_none: i8,
    pub mgmt_ok: u8,
    pub mgmt_unsupported: u8,
    pub mgmt_bad_arg: u8,
    pub mgmt_not_found: u8,
    pub mgmt_full: u8,
    pub mgmt_busy: u8,
    pub mgmt_storage: u8,
    pub mgmt_timeout: u8,
    pub tx_delivered: u8,
    pub tx_not_delivered: u8,
    pub tx_busy: u8,
    pub tx_duty_limited: u8,
    pub tx_expired: u8,
}

/// What the firmware of a device is for.
#[derive(Debug, Clone, Copy, PartialEq, Eq, Structural)]
pub enum DeviceRole {
    Gateway,
    Node,
    Other,
}

/// The role that a discriminant stands for, if it stands for one.
pub open spec fn role(wire: Wire, code: u32) -> Option<DeviceRole> {
    if code == wire.role_gateway {
        Some(DeviceRole::Gateway)
    } else if code == wire.role_node {
        Some(DeviceRole::Node)
    } else if code == wire.role_other {
        Some(DeviceRole::Other)
    } else {
        None
    }
}

/// The name of a role.
pub open spec fn role_text(r: DeviceRole) -> Seq<char> {
    match r {
        DeviceRole::Gateway => "Gateway"@,
        DeviceRole::Node => "Node"@,
        DeviceRole::Other => "Other"@,
    }
}

/// The role that a discriminant stands for, if it stands for one.
pub fn role_of(wire: &Wire, code: u32) -> (r: Option<DeviceRole>)
    ensures
        r == role(*wire, code),
{
    if code == wire.role_gateway {
        Some(DeviceRole::Gateway)
    } else if code == wire.role_node {
        Some(DeviceRole::Node)
    } else if code == wire.role_other {
        Some(DeviceRole::Other)
    } else {
        None
    }
}

/// The name of a role.
pub fn role_name(r: DeviceRole) -> (s: &'static str)
    ensures
        s@ == role_text(r),
{
    match r {
        DeviceRole::Gateway => "Gateway",
        DeviceRole::Node => "Node",
        DeviceRole::Other => "Other",
    }
}

/// The wire string of a transmission outcome.
pub open spec fn tx_outcome(wire: Wire, code: u8) -> Seq<char> {
    if code == wire.tx_delivered {
        "delivered"@
    } else if code == wire.tx_not_delivered {
        "not-delivered"@
    } else if code == wire.tx_busy {
        "busy"@
    } else if code == wire.tx_duty_limited {
        "duty-limited"@
    } else if code == wire.tx_expired {
        "expired"@
    } else {
        "error"@
    }
}

/// What a management result code means to a person (`None`: it succeeded).
pub open spec fn mgmt_error(wire: Wire, code: u8) -> Option<Seq<char>> {
    if code == wire.mgmt_ok {
        None
    } else if code == wire.mgmt_unsupported {
        Some("operation not supported by this device"@)
    } else if code == wire.mgmt_bad_arg {
        Some("invalid argument"@)
    } else if code == wire.mgmt_not_found {
        Some("not found"@)
    } else if code == wire.mgmt_full {
        Some("capacity exhausted"@)
    } else if code == wire.mgmt_busy {
        Some("busy (conflicting operation in flight)"@)
    } else if code == wire.mgmt_storage {
        Some("device storage error"@)
    } else if code == wire.mgmt_timeout {
        Some("window expired"@)
    } else {
        Some("unknown device error"@)
    }
}

/// Maps a transmission outcome code to its wire string.
pub fn tx_outcome_str(wire: &Wire, code: u8) -> (r: &'static str)
    ensures
        r@ == tx_outcome(*wire, code),
{
    if code == wire.tx_delivered {
        "delivered"
    } else if code == wire.tx_not_delivered {
        "not-delivered"
    } else if code == wire.tx_busy {
        "busy"
    } else if code == wire.tx_duty_limited {
        "duty-limited"
    } else if code == wire.tx_expired {
        "expired"
    } else {
        "error"
    }
}

/// Maps a management result code to a human error string (`None`: it succeeded).
pub fn mgmt_error_str(wire: &Wire, code: u8) -> (r: Option<&'static str>)
    ensures
        match r {
            Some(s) => mgmt_error(*wire, code) == Some(s@),
            None => mgmt_error(*wire, code) is None,
        },
{
    if code == wire.mgmt_ok {
        None
    } else if code == wire.mgmt_unsupported {
        Some("operation not supported by this device")
    } else if code == wire.mgmt_bad_arg {
        Some("invalid argument")
    } else if code == wire.mgmt_not_found {
        Some("not found")
    } else if code == wire.mgmt_full {
        Some("capacity exhausted")
    } else if code == wire.mgmt_busy {
        Some("busy (conflicting operation in flight)")
    } else if code == wire.mgmt_storage {
        Some("device storage error")
    } else if code == wire.mgmt_timeout {
        Some("window expired")
    } else {
        Some("unknown device error")
    }
}

} // verus!

//! JSON payloads for every topic of the tree: the other half of the public interface.
//! Names and order of the fields are part of it. `Status::schema` versions the whole
//! tree; clients refuse a mismatch.

use crate::render::escaped;
use crate::text::{
    cat2, cat3, cat7, dec, dec_i64, dec_int, dec_u64, digit, digit_char, join, join_of, push_char,
    push_deep,
};
use vstd::prelude::*;
use vstd::string::*;

verus! {

/// Version of the topic and payload tree, carried in the retained `gateway/status`.
pub const SCHEMA: u32 = 1;

// ---- JSON values -------------------------------------------------------------------

/// One character of the string literals in a payload: those of [`escaped`], and the short
/// forms of backspace and form feed.
pub open spec fn quoted_char(c: char) -> Seq<char> {
    if c as u32 == 8 {
        "\\b"@
    } else if c as u32 == 12 {
        "\\f"@
    } else {
        escaped(c)
    }
}

/// The characters of a string literal in a payload.
pub open spec fn quoted_all(s: Seq<char>) -> Seq<char>
    decreases s.len(),
{
    if s.len() == 0 {
        Seq::empty()
    } else {
        quoted_all(s.drop_last()) + quoted_char(s.last())
    }
}

/// The JSON string literal of a text in a payload.
#[verifier::opaque]
pub open spec fn quoted(s: Seq<char>) -> Seq<char> {
    "\""@ + quoted_all(s) + "\""@
}

/// `serde_json::to_string` on a string: its JSON literal, where quotes, backslashes and
/// the control characters below 0x20 are escaped and all else stands as it is. (Writing a
/// string never fails; an error would give nothing.)
#[verifier::external_body]
pub(crate) fn quote(s: &str) -> (r: String)
    ensures
        r@ == quoted(s@),
{
    serde_json::to_string(s).unwrap_or_default()
}

pub open spec fn bool_json(b: bool) -> Seq<char> {
    if b {
        "true"@
    } else {
        "false"@
    }
}

pub fn bool_text(b: bool) -> (r: &'static str)
    ensures
        r@ == bool_json(b),
{
    if b {
        "true"
    } else {
        "false"
    }
}

/// A number, or `null`.
pub open spec fn opt_json(n: Option<int>) -> Seq<char> {
    match n {
        Some(v) => dec_int(v),
        None => "null"@,
    }
}

fn opt_text(n: Option<i64>) -> (r: String)
    ensures
        r@ == opt_json(match n {
            Some(v) => Some(v as int),
            None => None,
        }),
{
    match n {
        Some(v) => dec_i64(v),
        None => "null".to_owned(),
    }
}

/// Values one after the other, with a comma between two.
pub open spec fn listed(parts: Seq<Seq<char>>) -> Seq<char>
    decreases parts.len(),
{
    if parts.len() == 0 {
        Seq::empty()
    } else if parts.len() == 1 {
        parts[0]
    } else {
        listed(parts.drop_last()) + ","@ + parts.last()
    }
}

/// One more value behind a list.
pub proof fn lemma_listed_push(parts: Seq<Seq<char>>, x: Seq<char>)
    ensures
        listed(parts.push(x)) == if parts.len() == 0 {
            x
        } else {
            listed(parts) + ","@ + x
        },
{
    assert(parts.push(x).drop_last() =~= parts);
}

// ---- gateway topics ----------------------------------------------------------------

/// `gateway/status` (retained; the last will publishes `state: "offline"`).
#[derive(Debug, PartialEq)]
pub struct Status {
    /// `online` (serial and MQTT up), `degraded` (serial down) or `offline` (last will).
    pub state: String,
    pub schema: u32,
    pub gateway: String,
    pub firmware: String,
    pub firmware_version: String,
    pub session_id: u32,
    pub protocol: u8,
    pub serial_port: String,
    pub serial_up: bool,
}

#[verifier::opaque]
pub open spec fn status_json(
    state: Seq<char>,
    schema: u32,
    gateway: Seq<char>,
    firmware: Seq<char>,
    firmware_version: Seq<char>,
    session_id: u32,
    protocol: u8,
    serial_port: Seq<char>,
    serial_up: bool,
) -> Seq<char> {
    "{\"state\":"@ + quoted(state) + ",\"schema\":"@ + dec(schema as nat) + ",\"gateway\":"@ + quoted(
        gateway,
    ) + ",\"firmware\":"@ + quoted(firmware) + ",\"firmware_version\":"@ + quoted(firmware_version)
        + ",\"session_id\":"@ + dec(session_id as nat) + ",\"protocol\":"@ + dec(protocol as nat)
        + ",\"serial_port\":"@ + quoted(serial_port) + ",\"serial_up\":"@ + bool_json(serial_up)
        + "}"@
}

impl Status {
    pub fn to_json(&self) -> (r: String)
        ensures
            r@ == status_json(
                self.state@,
                self.schema,
                self.gateway@,
                self.firmware@,
                self.firmware_version@,
                self.session_id,
                self.protocol,
                self.serial_port@,
                self.serial_up,
            ),
    {
        proof {
            reveal(status_json);
        }
        let mut s = "{\"state\":".to_owned();
        s.append(quote(self.state.as_str()).as_str());
        s.append(",\"schema\":");
        s.append(dec_u64(self.schema as u64).as_str());
        s.append(",\"gateway\":");
        s.append(quote(self.gateway.as_str()).as_str());
        s.append(",\"firmware\":");
        s.append(quote(self.firmware.as_str()).as_str());
        s.append(",\"firmware_version\":");
        s.append(quote(self.firmware_version.as_str()).as_str());
        s.append(",\"session_id\":");
        s.append(dec_u64(self.session_id as u64).as_str());
        s.append(",\"protocol\":");
        s.append(dec_u64(self.protocol as u64).as_str());
        s.append(",\"serial_port\":");
        s.append(quote(self.serial_port.as_str()).as_str());
        s.append(",\"serial_up\":");
        s.append(bool_text(self.serial_up));
        s.append("}");
        s
    }

    /// The last-will payload: everything a broker can say once the gateway is gone.
    pub fn offline() -> (r: String)
        ensures
            r@ == "{\"schema\":"@ + dec(SCHEMA as nat) + ",\"state\":\"offline\"}"@,
    {
        let mut s = "{\"schema\":".to_owned();
        s.append(dec_u64(SCHEMA as u64).as_str());
        s.append(",\"state\":\"offline\"}");
        s
    }
}

/// `gateway/stats` (retained, refreshed on a slow tick).
#[derive(Debug, PartialEq)]
pub struct Stats {
    pub uptime_s: u64,
    pub nodes: u32,
    pub uplinks: u64,
    pub queued: u32,
    /// Last ambient sample of the channel, if any.
    pub rssi_dbm: Option<i16>,
    pub channel: Option<u8>,
}

#[verifier::opaque]
pub open spec fn stats_json(
    uptime_s: u64,
    nodes: u32,
    uplinks: u64,
    queued: u32,
    rssi_dbm: Option<i16>,
    channel: Option<u8>,
) -> Seq<char> {
    "{\"uptime_s\":"@ + dec(uptime_s as nat) + ",\"nodes\":"@ + dec(nodes as nat) + ",\"uplinks\":"@
        + dec(uplinks as nat) + ",\"queued\":"@ + dec(queued as nat) + ",\"rssi_dbm\":"@ + opt_json(
        opt_i16(rssi_dbm),
    ) + ",\"channel\":"@ + opt_json(opt_u8(channel)) + "}"@
}

pub open spec fn opt_i16(n: Option<i16>) -> Option<int> {
    match n {
        Some(v) => Some(v as int),
        None => None,
    }
}

pub open spec fn opt_i8(n: Option<i8>) -> Option<int> {
    match n {
        Some(v) => Some(v as int),
        None => None,
    }
}

pub open spec fn opt_u8(n: Option<u8>) -> Option<int> {
    match n {
        Some(v) => Some(v as int),
        None => None,
    }
}

pub open spec fn opt_u32(n: Option<u32>) -> Option<int> {
    match n {
        Some(v) => Some(v as int),
        None => None,
    }
}

fn i16_text(n: Option<i16>) -> (r: String)
    ensures
        r@ == opt_json(opt_i16(n)),
{
    match n {
        Some(v) => opt_text(Some(v as i64)),
        None => opt_text(None),
    }
}

fn i8_text(n: Option<i8>) -> (r: String)
    ensures
        r@ == opt_json(opt_i8(n)),
{
    match n {
        Some(v) => opt_text(Some(v as i64)),
        None => opt_text(None),
    }
}

fn u8_text(n: Option<u8>) -> (r: String)
    ensures
        r@ == opt_json(opt_u8(n)),
{
    match n {
        Some(v) => opt_text(Some(v as i64)),
        None => opt_text(None),
    }
}

fn u32_text(n: Option<u32>) -> (r: String)
    ensures
        r@ == opt_json(opt_u32(n)),
{
    match n {
        Some(v) => opt_text(Some(v as i64)),
        None => opt_text(None),
    }
}

impl Stats {
    pub fn to_json(&self) -> (r: String)
        ensures
            r@ == stats_json(
                self.uptime_s,
                self.nodes,
                self.uplinks,
                self.queued,
                self.rssi_dbm,
                self.channel,
            ),
    {
        proof {
            reveal(stats_json);
        }
        let mut s = "{\"uptime_s\":".to_owned();
        s.append(dec_u64(self.uptime_s).as_str());
        s.append(",\"nodes\":");
        s.append(dec_u64(self.nodes as u64).as_str());
        s.append(",\"uplinks\":");
        s.append(dec_u64(self.uplinks).as_str());
        s.append(",\"queued\":");
        s.append(dec_u64(self.queued as u64).as_str());
        s.append(",\"rssi_dbm\":");
        s.append(i16_text(self.rssi_dbm).as_str());
        s.append(",\"channel\":");
        s.append(u8_text(self.channel).as_str());
        s.append("}");
        s
    }
}

/// `gateway/pairing` (retained).
#[derive(Debug, PartialEq)]
pub struct Pairing {
    /// `idle` or `open`.
    pub state: String,
    /// Seconds until the open window closes.
    pub remaining_s: Option<u64>,
    /// The node that joined (set on the final `idle` after a join).
    pub joined: Option<String>,
}

#[verifier::ext_equal]
pub struct PairingV {
    pub state: Seq<char>,
    pub remaining_s: Option<u64>,
    pub joined: Option<Seq<char>>,
}

impl DeepView for Pairing {
    type V = PairingV;

    open spec fn deep_view(&self) -> PairingV {
        PairingV {
            state: self.state@,
            remaining_s: self.remaining_s,
            joined: self.joined.deep_view(),
        }
    }
}

#[verifier::opaque]
pub open spec fn pairing_json(p: PairingV) -> Seq<char> {
    let a = "{\"state\":"@ + quoted(p.state);
    let b = match p.remaining_s {
        Some(n) => a + ",\"remaining_s\":"@ + dec(n as nat),
        None => a,
    };
    let c = match p.joined {
        Some(j) => b + ",\"joined\":"@ + quoted(j),
        None => b,
    };
    c + "}"@
}

impl Pairing {
    pub fn to_json(&self) -> (r: String)
        ensures
            r@ == pairing_json(self.deep_view()),
    {
        proof {
            reveal(pairing_json);
        }
        let mut s = "{\"state\":".to_owned();
        s.append(quote(self.state.as_str()).as_str());
        if let Some(n) = self.remaining_s {
            s.append(",\"remaining_s\":");
            s.append(dec_u64(n).as_str());
        }
        if let Some(j) = &self.joined {
            s.append(",\"joined\":");
            s.append(quote(j.as_str()).as_str());
        }
        s.append("}");
        s
    }
}

/// A copy of an optional text.
pub fn copy_opt(s: &Option<String>) -> (r: Option<String>)
    ensures
        r.deep_view() == s.deep_view(),
{
    match s {
        Some(t) => Some(t.clone()),
        None => None,
    }
}

// ---- node topics -------------------------------------------------------------------

/// `nodes/{addr}` (retained; an empty payload, which is no JSON, clears a removed node).
#[derive(Debug, PartialEq)]
pub struct Node {
    pub id: String,
    pub name: String,
    /// Device kind derived from the firmware name that the node reported (such as
    /// `push-button`); empty until its first heartbeat.
    pub kind: String,
    pub sleeping: bool,
    /// No name assigned yet, by an operator or automatically.
    pub unnamed: bool,
    /// Seconds since the last uplink when this was published; `null`: never.
    pub last_seen_s: Option<u32>,
    pub rssi_dbm: Option<i8>,
    pub uplinks: u32,
    /// Downlink items currently queued on the gateway.
    pub queued: u8,
}

#[verifier::ext_equal]
pub struct NodeV {
    pub id: Seq<char>,
    pub name: Seq<char>,
    pub kind: Seq<char>,
    pub sleeping: bool,
    pub unnamed: bool,
    pub last_seen_s: Option<u32>,
    pub rssi_dbm: Option<i8>,
    pub uplinks: u32,
    pub queued: u8,
}

impl DeepView for Node {
    type V = NodeV;

    open spec fn deep_view(&self) -> NodeV {
        NodeV {
            id: self.id@,
            name: self.name@,
            kind: self.kind@,
            sleeping: self.sleeping,
            unnamed: self.unnamed,
            last_seen_s: self.last_seen_s,
            rssi_dbm: self.rssi_dbm,
            uplinks: self.uplinks,
            queued: self.queued,
        }
    }
}

#[verifier::opaque]
pub open spec fn node_json(n: NodeV) -> Seq<char> {
    "{\"id\":"@ + quoted(n.id) + ",\"name\":"@ + quoted(n.name) + ",\"kind\":"@ + quoted(n.kind)
        + ",\"sleeping\":"@ + bool_json(n.sleeping) + ",\"unnamed\":"@ + bool_json(n.unnamed)
        + ",\"last_seen_s\":"@ + opt_json(opt_u32(n.last_seen_s)) + ",\"rssi_dbm\":"@ + opt_json(
        opt_i8(n.rssi_dbm),
    ) + ",\"uplinks\":"@ + dec(n.uplinks as nat) + ",\"queued\":"@ + dec(n.queued as nat) + "}"@
}

/// The same members with the names in alphabetical order, as a response carries them.
#[verifier::opaque]
pub open spec fn node_value_json(n: NodeV) -> Seq<char> {
    "{\"id\":"@ + quoted(n.id) + ",\"kind\":"@ + quoted(n.kind) + ",\"last_seen_s\":"@ + opt_json(
        opt_u32(n.last_seen_s),
    ) + ",\"name\":"@ + quoted(n.name) + ",\"queued\":"@ + dec(n.queued as nat) + ",\"rssi_dbm\":"@
        + opt_json(opt_i8(n.rssi_dbm)) + ",\"sleeping\":"@ + bool_json(n.sleeping)
        + ",\"unnamed\":"@ + bool_json(n.unnamed) + ",\"uplinks\":"@ + dec(n.uplinks as nat) + "}"@
}

impl Node {
    pub fn to_json(&self) -> (r: String)
        ensures
            r@ == node_json(self.deep_view()),
    {
        proof {
            reveal(node_json);
        }
        let mut s = "{\"id\":".to_owned();
        s.append(quote(self.id.as_str()).as_str());
        s.append(",\"name\":");
        s.append(quote(self.name.as_str()).as_str());
        s.append(",\"kind\":");
        s.append(quote(self.kind.as_str()).as_str());
        s.append(",\"sleeping\":");
        s.append(bool_text(self.sleeping));
        s.append(",\"unnamed\":");
        s.append(bool_text(self.unnamed));
        s.append(",\"last_seen_s\":");
        s.append(u32_text(self.last_seen_s).as_str());
        s.append(",\"rssi_dbm\":");
        s.append(i8_text(self.rssi_dbm).as_str());
        s.append(",\"uplinks\":");
        s.append(dec_u64(self.uplinks as u64).as_str());
        s.append(",\"queued\":");
        s.append(dec_u64(self.queued as u64).as_str());
        s.append("}");
        s
    }

    fn to_value_json(&self) -> (r: String)
        ensures
            r@ == node_value_json(self.deep_view()),
    {
        proof {
            reveal(node_value_json);
        }
        let mut s = "{\"id\":".to_owned();
        s.append(quote(self.id.as_str()).as_str());
        s.append(",\"kind\":");
        s.append(quote(self.kind.as_str()).as_str());
        s.append(",\"last_seen_s\":");
        s.append(u32_text(self.last_seen_s).as_str());
        s.append(",\"name\":");
        s.append(quote(self.name.as_str()).as_str());
        s.append(",\"queued\":");
        s.append(dec_u64(self.queued as u64).as_str());
        s.append(",\"rssi_dbm\":");
        s.append(i8_text(self.rssi_dbm).as_str());
        s.append(",\"sleeping\":");
        s.append(bool_text(self.sleeping));
        s.append(",\"unnamed\":");
        s.append(bool_text(self.unnamed));
        s.append(",\"uplinks\":");
        s.append(dec_u64(self.uplinks as u64).as_str());
        s.append("}");
        s
    }
}

/// `nodes/{addr}/event/button`.
#[derive(Debug, PartialEq)]
pub struct ButtonEvent {
    /// `press`, `release`, `click` or `hold`.
    pub event: String,
    /// The node's running count for this kind of event since its boot.
    pub count: u32,
    /// Frame counter of the network layer (key against redelivery).
    pub counter: u32,
    pub ts: u64,
}

#[verifier::opaque]
pub open spec fn button_json(event: Seq<char>, count: u32, counter: u32, ts: u64) -> Seq<char> {
    "{\"event\":"@ + quoted(event) + ",\"count\":"@ + dec(count as nat) + ",\"counter\":"@ + dec(
        counter as nat,
    ) + ",\"ts\":"@ + dec(ts as nat) + "}"@
}

impl ButtonEvent {
    pub fn to_json(&self) -> (r: String)
        ensures
            r@ == button_json(self.event@, self.count, self.counter, self.ts),
    {
        proof {
            reveal(button_json);
        }
        let mut s = "{\"event\":".to_owned();
        s.append(quote(self.event.as_str()).as_str());
        s.append(",\"count\":");
        s.append(dec_u64(self.count as u64).as_str());
        s.append(",\"counter\":");
        s.append(dec_u64(self.counter as u64).as_str());
        s.append(",\"ts\":");
        s.append(dec_u64(self.ts).as_str());
        s.append("}");
        s
    }
}

/// `nodes/{addr}/event/accel`.
#[derive(Debug, PartialEq)]
pub struct AccelEvent {
    /// `motion` or `orientation`.
    pub event: String,
    /// The face that is up, 1 to 6; 0: unknown or moving.
    pub face: u8,
    pub counter: u32,
    pub ts: u64,
}

#[verifier::opaque]
pub open spec fn accel_json(event: Seq<char>, face: u8, counter: u32, ts: u64) -> Seq<char> {
    "{\"event\":"@ + quoted(event) + ",\"face\":"@ + dec(face as nat) + ",\"counter\":"@ + dec(
        counter as nat,
    ) + ",\"ts\":"@ + dec(ts as nat) + "}"@
}

impl AccelEvent {
    pub fn to_json(&self) -> (r: String)
        ensures
            r@ == accel_json(self.event@, self.face, self.counter, self.ts),
    {
        proof {
            reveal(accel_json);
        }
        let mut s = "{\"event\":".to_owned();
        s.append(quote(self.event.as_str()).as_str());
        s.append(",\"face\":");
        s.append(dec_u64(self.face as u64).as_str());
        s.append(",\"counter\":");
        s.append(dec_u64(self.counter as u64).as_str());
        s.append(",\"ts\":");
        s.append(dec_u64(self.ts).as_str());
        s.append("}");
        s
    }
}

/// `nodes/{addr}/measure/temperature` (the last value is retained).
#[derive(Debug, Clone, Copy, PartialEq, Eq)]
pub struct Temperature {
    pub millic: i32,
    pub ts: u64,
}

/// Thousandths as a decimal fraction with at least one place and no needless zeros:
/// 21500 is `21.5`, 21000 is `21.0`, -5 is `-0.005`.
pub open spec fn thousandths(n: int) -> Seq<char> {
    let a = if n < 0 { -n } else { n };
    let f = a % 1000;
    let sign = if n < 0 { seq!['-'] } else { Seq::<char>::empty() };
    let whole = sign + dec((a / 1000) as nat) + "."@;
    let one = whole.push(digit_char(f / 100));
    let two = one.push(digit_char((f / 10) % 10));
    if f % 100 == 0 {
        one
    } else if f % 10 == 0 {
        two
    } else {
        two.push(digit_char(f % 10))
    }
}

fn thousandths_text(n: i32) -> (r: String)
    ensures
        r@ == thousandths(n as int),
{
    let a: i64 = if n < 0 { -(n as i64) } else { n as i64 };
    let f: u32 = (a % 1000) as u32;
    let mut s = String::new();
    if n < 0 {
        push_char(&mut s, '-');
    }
    assert(s@ =~= if n < 0 { seq!['-'] } else { Seq::<char>::empty() });
    s.append(dec_u64((a / 1000) as u64).as_str());
    s.append(".");
    push_char(&mut s, digit(f / 100));
    if f % 100 != 0 {
        push_char(&mut s, digit((f / 10) % 10));
        if f % 10 != 0 {
            push_char(&mut s, digit(f % 10));
        }
    }
    s
}

#[verifier::opaque]
pub open spec fn temperature_json(millic: i32, ts: u64) -> Seq<char> {
    "{\"celsius\":"@ + thousandths(millic as int) + ",\"millic\":"@ + dec_int(millic as int)
        + ",\"ts\":"@ + dec(ts as nat) + "}"@
}

impl Temperature {
    pub fn to_json(&self) -> (r: String)
        ensures
            r@ == temperature_json(self.millic, self.ts),
    {
        proof {
            reveal(temperature_json);
        }
        let mut s = "{\"celsius\":".to_owned();
        s.append(thousandths_text(self.millic).as_str());
        s.append(",\"millic\":");
        s.append(dec_i64(self.millic as i64).as_str());
        s.append(",\"ts\":");
        s.append(dec_u64(self.ts).as_str());
        s.append("}");
        s
    }
}

/// `nodes/{addr}/uplink`: the raw envelope (debug feed).
#[derive(Debug, PartialEq)]
pub struct UplinkDebug {
    pub counter: u32,
    pub rssi_dbm: i16,
    pub lqi: u8,
    pub len: usize,
    pub hex: String,
    pub ts: u64,
}

#[verifier::opaque]
pub open spec fn uplink_json(
    counter: u32,
    rssi_dbm: i16,
    lqi: u8,
    len: nat,
    hex: Seq<char>,
    ts: u64,
) -> Seq<char> {
    "{\"counter\":"@ + dec(counter as nat) + ",\"rssi_dbm\":"@ + dec_int(rssi_dbm as int)
        + ",\"lqi\":"@ + dec(lqi as nat) + ",\"len\":"@ + dec(len) + ",\"hex\":"@ + quoted(hex)
        + ",\"ts\":"@ + dec(ts as nat) + "}"@
}

impl UplinkDebug {
    pub fn to_json(&self) -> (r: String)
        ensures
            r@ == uplink_json(
                self.counter,
                self.rssi_dbm,
                self.lqi,
                self.len as nat,
                self.hex@,
                self.ts,
            ),
    {
        proof {
            reveal(uplink_json);
        }
        let mut s = "{\"counter\":".to_owned();
        s.append(dec_u64(self.counter as u64).as_str());
        s.append(",\"rssi_dbm\":");
        s.append(dec_i64(self.rssi_dbm as i64).as_str());
        s.append(",\"lqi\":");
        s.append(dec_u64(self.lqi as u64).as_str());
        s.append(",\"len\":");
        s.append(dec_u64(self.len as u64).as_str());
        s.append(",\"hex\":");
        s.append(quote(self.hex.as_str()).as_str());
        s.append(",\"ts\":");
        s.append(dec_u64(self.ts).as_str());
        s.append("}");
        s
    }
}

/// `nodes/{addr}/shell/req` (client to gateway): one remote-shell line to enqueue.
#[derive(Debug, PartialEq)]
pub struct ShellReq {
    /// Correlation id of the client's own making, echoed in every response chunk.
    pub id: String,
    pub line: String,
    /// Time to live in the queue; 0: the gateway's default (3600 s).
    pub ttl_s: u16,
}

#[verifier::opaque]
pub open spec fn shell_req_json(id: Seq<char>, line: Seq<char>, ttl_s: u16) -> Seq<char> {
    "{\"id\":"@ + quoted(id) + ",\"line\":"@ + quoted(line) + ",\"ttl_s\":"@ + dec(ttl_s as nat) + "}"@
}

impl ShellReq {
    pub fn to_json(&self) -> (r: String)
        ensures
            r@ == shell_req_json(self.id@, self.line@, self.ttl_s),
    {
        proof {
            reveal(shell_req_json);
        }
        let mut s = "{\"id\":".to_owned();
        s.append(quote(self.id.as_str()).as_str());
        s.append(",\"line\":");
        s.append(quote(self.line.as_str()).as_str());
        s.append(",\"ttl_s\":");
        s.append(dec_u64(self.ttl_s as u64).as_str());
        s.append("}");
        s
    }
}

/// `nodes/{addr}/shell/rsp` (gateway to clients): one response chunk.
#[derive(Debug, PartialEq)]
pub struct ShellRsp {
    pub id: String,
    pub chunk: u16,
    pub text: String,
    pub done: bool,
    /// Counts only where `done`.
    pub result: u8,
    /// A gap between chunks was seen: the text is incomplete.
    pub truncated: bool,
    /// Set on failures on the gateway's side (queue expiry, undeliverable) in place of a
    /// reply of the node.
    pub error: Option<String>,
}

#[verifier::ext_equal]
pub struct ShellRspV {
    pub id: Seq<char>,
    pub chunk: u16,
    pub text: Seq<char>,
    pub done: bool,
    pub result: u8,
    pub truncated: bool,
    pub error: Option<Seq<char>>,
}

impl DeepView for ShellRsp {
    type V = ShellRspV;

    open spec fn deep_view(&self) -> ShellRspV {
        ShellRspV {
            id: self.id@,
            chunk: self.chunk,
            text: self.text@,
            done: self.done,
            result: self.result,
            truncated: self.truncated,
            error: self.error.deep_view(),
        }
    }
}

#[verifier::opaque]
pub open spec fn shell_rsp_json(r: ShellRspV) -> Seq<char> {
    let a = "{\"id\":"@ + quoted(r.id) + ",\"chunk\":"@ + dec(r.chunk as nat) + ",\"text\":"@ + quoted(
        r.text,
    ) + ",\"done\":"@ + bool_json(r.done) + ",\"result\":"@ + dec(r.result as nat)
        + ",\"truncated\":"@ + bool_json(r.truncated);
    let b = match r.error {
        Some(e) => a + ",\"error\":"@ + quoted(e),
        None => a,
    };
    b + "}"@
}

impl ShellRsp {
    pub fn to_json(&self) -> (r: String)
        ensures
            r@ == shell_rsp_json(self.deep_view()),
    {
        proof {
            reveal(shell_rsp_json);
        }
        let mut s = "{\"id\":".to_owned();
        s.append(quote(self.id.as_str()).as_str());
        s.append(",\"chunk\":");
        s.append(dec_u64(self.chunk as u64).as_str());
        s.append(",\"text\":");
        s.append(quote(self.text.as_str()).as_str());
        s.append(",\"done\":");
        s.append(bool_text(self.done));
        s.append(",\"result\":");
        s.append(dec_u64(self.result as u64).as_str());
        s.append(",\"truncated\":");
        s.append(bool_text(self.truncated));
        if let Some(e) = &self.error {
            s.append(",\"error\":");
            s.append(quote(e.as_str()).as_str());
        }
        s.append("}");
        s
    }
}

/// One entry of `nodes/{addr}/shell/pending` (retained; the whole queue of the node).
#[derive(Debug, PartialEq)]
pub struct PendingEntry {
    /// The gateway's id of the queue item (`ref` in JSON): the handle to dequeue it by.
    pub item: u16,
    /// The correlation id of the request that it came from.
    pub id: String,
    pub line: String,
}

#[verifier::ext_equal]
pub struct PendingEntryV {
    pub item: u16,
    pub id: Seq<char>,
    pub line: Seq<char>,
}

impl DeepView for PendingEntry {
    type V = PendingEntryV;

    open spec fn deep_view(&self) -> PendingEntryV {
        PendingEntryV { item: self.item, id: self.id@, line: self.line@ }
    }
}

#[verifier::opaque]
pub open spec fn pending_entry_json(p: PendingEntryV) -> Seq<char> {
    "{\"ref\":"@ + dec(p.item as nat) + ",\"id\":"@ + quoted(p.id) + ",\"line\":"@ + quoted(p.line)
        + "}"@
}

#[verifier::opaque]
pub open spec fn pending_json(entries: Seq<PendingEntryV>) -> Seq<char> {
    "["@ + listed(Seq::new(entries.len(), |i: int| pending_entry_json(entries[i]))) + "]"@
}

impl PendingEntry {
    pub fn to_json(&self) -> (r: String)
        ensures
            r@ == pending_entry_json(self.deep_view()),
    {
        proof {
            reveal(pending_entry_json);
        }
        let mut s = "{\"ref\":".to_owned();
        s.append(dec_u64(self.item as u64).as_str());
        s.append(",\"id\":");
        s.append(quote(self.id.as_str()).as_str());
        s.append(",\"line\":");
        s.append(quote(self.line.as_str()).as_str());
        s.append("}");
        s
    }
}

/// The JSON array of a node's queue.
pub fn pending_text(entries: &Vec<PendingEntry>) -> (r: String)
    ensures
        r@ == pending_json(entries.deep_view()),
{
    proof {
        reveal(pending_json);
    }
    let ghost all = Seq::new(entries@.len(), |i: int| pending_entry_json(entries@[i].deep_view()));
    let mut body = String::new();
    let mut i: usize = 0;
    assert(all.take(0) =~= Seq::<Seq<char>>::empty());
    while i < entries.len()
        invariant
            i <= entries@.len(),
            all.len() == entries@.len(),
            forall|k: int| 0 <= k < all.len() ==> all[k] == pending_entry_json(
                #[trigger] entries@[k].deep_view(),
            ),
            body@ == listed(all.take(i as int)),
        decreases entries@.len() - i,
    {
        let item = entries[i].to_json();
        proof {
            lemma_listed_push(all.take(i as int), item@);
            assert(all.take(i + 1) =~= all.take(i as int).push(item@));
        }
        if i > 0 {
            body.append(",");
        }
        body.append(item.as_str());
        if i == 0 {
            assert(body@ =~= item@);
        }
        i = i + 1;
    }
    assert(all.take(i as int) =~= all);
    assert(all =~= Seq::new(
        entries.deep_view().len(),
        |i: int| pending_entry_json(entries.deep_view()[i]),
    ));
    let mut s = "[".to_owned();
    s.append(body.as_str());
    s.append("]");
    s
}

// ---- radio topics ------------------------------------------------------------------

/// `radio/rssi`: one ambient sample of the channel.
#[derive(Debug, Clone, Copy, PartialEq, Eq)]
pub struct RadioRssi {
    pub dbm: i16,
    pub channel: u8,
    pub ts: u64,
}

#[verifier::opaque]
pub open spec fn radio_rssi_json(dbm: i16, channel: u8, ts: u64) -> Seq<char> {
    "{\"dbm\":"@ + dec_int(dbm as int) + ",\"channel\":"@ + dec(channel as nat) + ",\"ts\":"@ + dec(
        ts as nat,
    ) + "}"@
}

impl RadioRssi {
    pub fn to_json(&self) -> (r: String)
        ensures
            r@ == radio_rssi_json(self.dbm, self.channel, self.ts),
    {
        proof {
            reveal(radio_rssi_json);
        }
        let mut s = "{\"dbm\":".to_owned();
        s.append(dec_i64(self.dbm as i64).as_str());
        s.append(",\"channel\":");
        s.append(dec_u64(self.channel as u64).as_str());
        s.append(",\"ts\":");
        s.append(dec_u64(self.ts).as_str());
        s.append("}");
        s
    }
}

/// `radio/rx`: one received packet.
#[derive(Debug, PartialEq)]
pub struct RadioRx {
    pub src: String,
    pub rssi_dbm: i16,
    pub lqi: u8,
    pub len: usize,
    pub ts: u64,
}

#[verifier::opaque]
pub open spec fn radio_rx_json(src: Seq<char>, rssi_dbm: i16, lqi: u8, len: nat, ts: u64) -> Seq<char> {
    "{\"src\":"@ + quoted(src) + ",\"rssi_dbm\":"@ + dec_int(rssi_dbm as int) + ",\"lqi\":"@ + dec(
        lqi as nat,
    ) + ",\"len\":"@ + dec(len) + ",\"ts\":"@ + dec(ts as nat) + "}"@
}

impl RadioRx {
    pub fn to_json(&self) -> (r: String)
        ensures
            r@ == radio_rx_json(self.src@, self.rssi_dbm, self.lqi, self.len as nat, self.ts),
    {
        proof {
            reveal(radio_rx_json);
        }
        let mut s = "{\"src\":".to_owned();
        s.append(quote(self.src.as_str()).as_str());
        s.append(",\"rssi_dbm\":");
        s.append(dec_i64(self.rssi_dbm as i64).as_str());
        s.append(",\"lqi\":");
        s.append(dec_u64(self.lqi as u64).as_str());
        s.append(",\"len\":");
        s.append(dec_u64(self.len as u64).as_str());
        s.append(",\"ts\":");
        s.append(dec_u64(self.ts).as_str());
        s.append("}");
        s
    }
}

/// `radio/tx`: one attempt of the gateway to transmit.
#[derive(Debug, PartialEq)]
pub struct RadioTx {
    pub dest: String,
    /// The queue item (0: not a queue item).
    pub item: u16,
    /// `delivered`, `not-delivered`, `busy`, `duty-limited`, `error` or `expired`.
    pub outcome: String,
    pub ack_rssi_dbm: Option<i8>,
    pub ts: u64,
}

#[verifier::opaque]
pub open spec fn radio_tx_json(
    dest: Seq<char>,
    item: u16,
    outcome: Seq<char>,
    ack_rssi_dbm: Option<i8>,
    ts: u64,
) -> Seq<char> {
    "{\"dest\":"@ + quoted(dest) + ",\"item\":"@ + dec(item as nat) + ",\"outcome\":"@ + quoted(outcome)
        + ",\"ack_rssi_dbm\":"@ + opt_json(opt_i8(ack_rssi_dbm)) + ",\"ts\":"@ + dec(ts as nat) + "}"@
}

impl RadioTx {
    pub fn to_json(&self) -> (r: String)
        ensures
            r@ == radio_tx_json(self.dest@, self.item, self.outcome@, self.ack_rssi_dbm, self.ts),
    {
        proof {
            reveal(radio_tx_json);
        }
        let mut s = "{\"dest\":".to_owned();
        s.append(quote(self.dest.as_str()).as_str());
        s.append(",\"item\":");
        s.append(dec_u64(self.item as u64).as_str());
        s.append(",\"outcome\":");
        s.append(quote(self.outcome.as_str()).as_str());
        s.append(",\"ack_rssi_dbm\":");
        s.append(i8_text(self.ack_rssi_dbm).as_str());
        s.append(",\"ts\":");
        s.append(dec_u64(self.ts).as_str());
        s.append("}");
        s
    }
}

// ---- requests and responses --------------------------------------------------------

/// What the engine reads of a request's parameters.
#[derive(Debug, PartialEq)]
pub struct RpcParams {
    /// A node, by address or by name.
    pub node: Option<String>,
    /// The address of a node to add.
    pub id: Option<String>,
    /// Its key, in hexadecimal.
    pub key: Option<String>,
    pub name: Option<String>,
    pub sleeping: Option<bool>,
    pub window_s: Option<u64>,
    /// A queue item (`ref` in JSON).
    pub item: Option<u64>,
    pub period_ms: Option<u64>,
}

/// `gateway/cmd`: a request of a client command.
#[derive(Debug, PartialEq)]
pub struct RpcRequest {
    /// An id of the client's own making; the response arrives on `gateway/rsp/{id}`.
    pub id: String,
    pub op: String,
    pub params: RpcParams,
}

#[verifier::ext_equal]
pub struct RpcParamsV {
    pub node: Option<Seq<char>>,
    pub id: Option<Seq<char>>,
    pub key: Option<Seq<char>>,
    pub name: Option<Seq<char>>,
    pub sleeping: Option<bool>,
    pub window_s: Option<u64>,
    pub item: Option<u64>,
    pub period_ms: Option<u64>,
}

#[verifier::ext_equal]
pub struct RpcRequestV {
    pub id: Seq<char>,
    pub op: Seq<char>,
    pub params: RpcParamsV,
}

impl DeepView for RpcParams {
    type V = RpcParamsV;

    open spec fn deep_view(&self) -> RpcParamsV {
        RpcParamsV {
            node: self.node.deep_view(),
            id: self.id.deep_view(),
            key: self.key.deep_view(),
            name: self.name.deep_view(),
            sleeping: self.sleeping,
            window_s: self.window_s,
            item: self.item,
            period_ms: self.period_ms,
        }
    }
}

impl DeepView for RpcRequest {
    type V = RpcRequestV;

    open spec fn deep_view(&self) -> RpcRequestV {
        RpcRequestV { id: self.id@, op: self.op@, params: self.params.deep_view() }
    }
}

/// One more member of a JSON object, where there is a text for it.
pub open spec fn with_text(parts: Seq<Seq<char>>, name: Seq<char>, v: Option<Seq<char>>) -> Seq<
    Seq<char>,
> {
    match v {
        Some(t) => parts.push(name + quoted(t)),
        None => parts,
    }
}

/// One more member of a JSON object, where there is a number for it.
pub open spec fn with_number(parts: Seq<Seq<char>>, name: Seq<char>, v: Option<u64>) -> Seq<
    Seq<char>,
> {
    match v {
        Some(n) => parts.push(name + dec(n as nat)),
        None => parts,
    }
}

/// One more member of a JSON object, where there is a truth value for it.
pub open spec fn with_bool(parts: Seq<Seq<char>>, name: Seq<char>, v: Option<bool>) -> Seq<
    Seq<char>,
> {
    match v {
        Some(b) => parts.push(name + bool_json(b)),
        None => parts,
    }
}

/// The members of a request's parameters, in alphabetical order.
pub open spec fn param_members(p: RpcParamsV) -> Seq<Seq<char>> {
    let a = with_text(Seq::empty(), "\"id\":"@, p.id);
    let b = with_text(a, "\"key\":"@, p.key);
    let c = with_text(b, "\"name\":"@, p.name);
    let d = with_text(c, "\"node\":"@, p.node);
    let e = with_number(d, "\"period_ms\":"@, p.period_ms);
    let f = with_number(e, "\"ref\":"@, p.item);
    let g = with_bool(f, "\"sleeping\":"@, p.sleeping);
    with_number(g, "\"window_s\":"@, p.window_s)
}

/// The parameters of a request; without any, `null`.
pub open spec fn params_json(p: RpcParamsV) -> Seq<char> {
    let members = param_members(p);
    if members.len() == 0 {
        "null"@
    } else {
        "{"@ + join(members, ","@) + "}"@
    }
}

#[verifier::opaque]
pub open spec fn rpc_request_json(r: RpcRequestV) -> Seq<char> {
    "{\"id\":"@ + quoted(r.id) + ",\"op\":"@ + quoted(r.op) + ",\"params\":"@ + params_json(r.params)
        + "}"@
}

fn add_text(parts: &mut Vec<String>, name: &str, v: &Option<String>)
    ensures
        final(parts).deep_view() == with_text(old(parts).deep_view(), name@, v.deep_view()),
{
    if let Some(t) = v {
        push_deep(parts, cat2(name, quote(t.as_str()).as_str()));
    }
}

fn add_number(parts: &mut Vec<String>, name: &str, v: Option<u64>)
    ensures
        final(parts).deep_view() == with_number(old(parts).deep_view(), name@, v),
{
    if let Some(n) = v {
        push_deep(parts, cat2(name, dec_u64(n).as_str()));
    }
}

fn add_bool(parts: &mut Vec<String>, name: &str, v: Option<bool>)
    ensures
        final(parts).deep_view() == with_bool(old(parts).deep_view(), name@, v),
{
    if let Some(b) = v {
        push_deep(parts, cat2(name, bool_text(b)));
    }
}

impl RpcParams {
    /// The parameters in JSON.
    pub fn to_json(&self) -> (r: String)
        ensures
            r@ == params_json(self.deep_view()),
    {
        let mut parts: Vec<String> = Vec::new();
        assert(parts.deep_view() =~= Seq::<Seq<char>>::empty());
        add_text(&mut parts, "\"id\":", &self.id);
        add_text(&mut parts, "\"key\":", &self.key);
        add_text(&mut parts, "\"name\":", &self.name);
        add_text(&mut parts, "\"node\":", &self.node);
        add_number(&mut parts, "\"period_ms\":", self.period_ms);
        add_number(&mut parts, "\"ref\":", self.item);
        add_bool(&mut parts, "\"sleeping\":", self.sleeping);
        add_number(&mut parts, "\"window_s\":", self.window_s);
        assert(parts.deep_view().len() == parts@.len());
        if parts.len() == 0 {
            "null".to_owned()
        } else {
            cat3("{", join_of(&parts, ",").as_str(), "}")
        }
    }
}

impl RpcRequest {
    /// The request in JSON.
    pub fn to_json(&self) -> (r: String)
        ensures
            r@ == rpc_request_json(self.deep_view()),
    {
        proof {
            reveal(rpc_request_json);
        }
        cat7(
            "{\"id\":",
            quote(self.id.as_str()).as_str(),
            ",\"op\":",
            quote(self.op.as_str()).as_str(),
            ",\"params\":",
            self.params.to_json().as_str(),
            "}",
        )
    }
}

impl RpcParams {
    /// No parameters.
    pub fn none() -> (r: RpcParams)
        ensures
            r.deep_view() == no_params(),
    {
        RpcParams {
            node: None,
            id: None,
            key: None,
            name: None,
            sleeping: None,
            window_s: None,
            item: None,
            period_ms: None,
        }
    }
}

/// No parameters.
pub open spec fn no_params() -> RpcParamsV {
    RpcParamsV {
        node: None,
        id: None,
        key: None,
        name: None,
        sleeping: None,
        window_s: None,
        item: None,
        period_ms: None,
    }
}

/// One row of a queue listing.
#[derive(Debug, PartialEq)]
pub struct QueueRow {
    pub node: String,
    pub item: u16,
    pub age_s: u16,
    pub ttl_s: u16,
}

#[verifier::ext_equal]
pub struct QueueRowV {
    pub node: Seq<char>,
    pub item: u16,
    pub age_s: u16,
    pub ttl_s: u16,
}

impl DeepView for QueueRow {
    type V = QueueRowV;

    open spec fn deep_view(&self) -> QueueRowV {
        QueueRowV { node: self.node@, item: self.item, age_s: self.age_s, ttl_s: self.ttl_s }
    }
}

#[verifier::opaque]
pub open spec fn queue_row_json(q: QueueRowV) -> Seq<char> {
    "{\"age_s\":"@ + dec(q.age_s as nat) + ",\"node\":"@ + quoted(q.node) + ",\"ref\":"@ + dec(
        q.item as nat,
    ) + ",\"ttl_s\":"@ + dec(q.ttl_s as nat) + "}"@
}

impl QueueRow {
    fn to_value_json(&self) -> (r: String)
        ensures
            r@ == queue_row_json(self.deep_view()),
    {
        proof {
            reveal(queue_row_json);
        }
        let mut s = "{\"age_s\":".to_owned();
        s.append(dec_u64(self.age_s as u64).as_str());
        s.append(",\"node\":");
        s.append(quote(self.node.as_str()).as_str());
        s.append(",\"ref\":");
        s.append(dec_u64(self.item as u64).as_str());
        s.append(",\"ttl_s\":");
        s.append(dec_u64(self.ttl_s as u64).as_str());
        s.append("}");
        s
    }
}

/// What a successful response carries.
#[derive(Debug, PartialEq)]
pub enum RpcData {
    Null,
    /// The gateway's own address.
    Gateway(String),
    /// The registry.
    Nodes(Vec<Node>),
    /// A revealed key.
    Key { node: String, key: String },
    /// The node that joined, if one did.
    Joined(Option<String>),
    /// The queue item that was made.
    Item(u16),
    /// The queue.
    Queue(Vec<QueueRow>),
}

#[verifier::ext_equal]
pub enum RpcDataV {
    Null,
    Gateway(Seq<char>),
    Nodes(Seq<NodeV>),
    Key { node: Seq<char>, key: Seq<char> },
    Joined(Option<Seq<char>>),
    Item(u16),
    Queue(Seq<QueueRowV>),
}

impl DeepView for RpcData {
    type V = RpcDataV;

    open spec fn deep_view(&self) -> RpcDataV {
        match self {
            RpcData::Null => RpcDataV::Null,
            RpcData::Gateway(g) => RpcDataV::Gateway(g@),
            RpcData::Nodes(v) => RpcDataV::Nodes(v.deep_view()),
            RpcData::Key { node, key } => RpcDataV::Key { node: node@, key: key@ },
            RpcData::Joined(j) => RpcDataV::Joined(j.deep_view()),
            RpcData::Item(i) => RpcDataV::Item(*i),
            RpcData::Queue(q) => RpcDataV::Queue(q.deep_view()),
        }
    }
}

/// The JSON of a response's data (`Null` is `null`).
#[verifier::opaque]
pub open spec fn rpc_data_json(d: RpcDataV) -> Seq<char> {
    match d {
        RpcDataV::Null => "null"@,
        RpcDataV::Gateway(g) => "{\"gateway\":"@ + quoted(g) + "}"@,
        RpcDataV::Nodes(v) => "["@ + listed(Seq::new(v.len(), |i: int| node_value_json(v[i]))) + "]"@,
        RpcDataV::Key { node, key } => "{\"key\":"@ + quoted(key) + ",\"node\":"@ + quoted(node)
            + "}"@,
        RpcDataV::Joined(j) => "{\"joined\":"@ + (match j {
            Some(h) => quoted(h),
            None => "null"@,
        }) + "}"@,
        RpcDataV::Item(i) => "{\"ref\":"@ + dec(i as nat) + "}"@,
        RpcDataV::Queue(q) => "["@ + listed(Seq::new(q.len(), |i: int| queue_row_json(q[i]))) + "]"@,
    }
}

fn nodes_text(nodes: &Vec<Node>) -> (r: String)
    ensures
        r@ == rpc_data_json(RpcDataV::Nodes(nodes.deep_view())),
{
    proof {
        reveal(rpc_data_json);
    }
    let ghost all = Seq::new(nodes@.len(), |i: int| node_value_json(nodes@[i].deep_view()));
    let mut body = String::new();
    let mut i: usize = 0;
    assert(all.take(0) =~= Seq::<Seq<char>>::empty());
    while i < nodes.len()
        invariant
            i <= nodes@.len(),
            all.len() == nodes@.len(),
            forall|k: int| 0 <= k < all.len() ==> all[k] == node_value_json(
                #[trigger] nodes@[k].deep_view(),
            ),
            body@ == listed(all.take(i as int)),
        decreases nodes@.len() - i,
    {
        let item = nodes[i].to_value_json();
        proof {
            lemma_listed_push(all.take(i as int), item@);
            assert(all.take(i + 1) =~= all.take(i as int).push(item@));
        }
        if i > 0 {
            body.append(",");
        }
        body.append(item.as_str());
        if i == 0 {
            assert(body@ =~= item@);
        }
        i = i + 1;
    }
    assert(all.take(i as int) =~= all);
    assert(all =~= Seq::new(nodes.deep_view().len(), |i: int| node_value_json(nodes.deep_view()[i])));
    let mut s = "[".to_owned();
    s.append(body.as_str());
    s.append("]");
    s
}

fn queue_text(rows: &Vec<QueueRow>) -> (r: String)
    ensures
        r@ == rpc_data_json(RpcDataV::Queue(rows.deep_view())),
{
    proof {
        reveal(rpc_data_json);
    }
    let ghost all = Seq::new(rows@.len(), |i: int| queue_row_json(rows@[i].deep_view()));
    let mut body = String::new();
    let mut i: usize = 0;
    assert(all.take(0) =~= Seq::<Seq<char>>::empty());
    while i < rows.len()
        invariant
            i <= rows@.len(),
            all.len() == rows@.len(),
            forall|k: int| 0 <= k < all.len() ==> all[k] == queue_row_json(
                #[trigger] rows@[k].deep_view(),
            ),
            body@ == listed(all.take(i as int)),
        decreases rows@.len() - i,
    {
        let item = rows[i].to_value_json();
        proof {
            lemma_listed_push(all.take(i as int), item@);
            assert(all.take(i + 1) =~= all.take(i as int).push(item@));
        }
        if i > 0 {
            body.append(",");
        }
        body.append(item.as_str());
        if i == 0 {
            assert(body@ =~= item@);
        }
        i = i + 1;
    }
    assert(all.take(i as int) =~= all);
    assert(all =~= Seq::new(rows.deep_view().len(), |i: int| queue_row_json(rows.deep_view()[i])));
    let mut s = "[".to_owned();
    s.append(body.as_str());
    s.append("]");
    s
}

impl RpcData {
    pub fn to_json(&self) -> (r: String)
        ensures
            r@ == rpc_data_json(self.deep_view()),
    {
        proof {
            reveal(rpc_data_json);
        }
        match self {
            RpcData::Null => "null".to_owned(),
            RpcData::Gateway(g) => {
                let mut s = "{\"gateway\":".to_owned();
                s.append(quote(g.as_str()).as_str());
                s.append("}");
                s
            },
            RpcData::Nodes(v) => nodes_text(v),
            RpcData::Key { node, key } => {
                let mut s = "{\"key\":".to_owned();
                s.append(quote(key.as_str()).as_str());
                s.append(",\"node\":");
                s.append(quote(node.as_str()).as_str());
                s.append("}");
                s
            },
            RpcData::Joined(j) => {
                let mut s = "{\"joined\":".to_owned();
                match j {
                    Some(h) => s.append(quote(h.as_str()).as_str()),
                    None => s.append("null"),
                }
                s.append("}");
                s
            },
            RpcData::Item(i) => {
                let mut s = "{\"ref\":".to_owned();
                s.append(dec_u64(*i as u64).as_str());
                s.append("}");
                s
            },
            RpcData::Queue(q) => queue_text(q),
        }
    }
}

/// `gateway/rsp/{id}`: the response to a request.
#[derive(Debug, PartialEq)]
pub struct RpcResponse {
    pub id: String,
    pub ok: bool,
    pub error: Option<String>,
    pub data: RpcData,
}

#[verifier::ext_equal]
pub struct RpcResponseV {
    pub id: Seq<char>,
    pub ok: bool,
    pub error: Option<Seq<char>>,
    pub data: RpcDataV,
}

impl DeepView for RpcResponse {
    type V = RpcResponseV;

    open spec fn deep_view(&self) -> RpcResponseV {
        RpcResponseV {
            id: self.id@,
            ok: self.ok,
            error: self.error.deep_view(),
            data: self.data.deep_view(),
        }
    }
}

#[verifier::opaque]
pub open spec fn rpc_response_json(r: RpcResponseV) -> Seq<char> {
    let a = "{\"id\":"@ + quoted(r.id) + ",\"ok\":"@ + bool_json(r.ok);
    let b = match r.error {
        Some(e) => a + ",\"error\":"@ + quoted(e),
        None => a,
    };
    let c = if r.data is Null {
        b
    } else {
        b + ",\"data\":"@ + rpc_data_json(r.data)
    };
    c + "}"@
}

impl RpcResponse {
    pub fn to_json(&self) -> (r: String)
        ensures
            r@ == rpc_response_json(self.deep_view()),
    {
        proof {
            reveal(rpc_response_json);
        }
        let mut s = "{\"id\":".to_owned();
        s.append(quote(self.id.as_str()).as_str());
        s.append(",\"ok\":");
        s.append(bool_text(self.ok));
        if let Some(e) = &self.error {
            s.append(",\"error\":");
            s.append(quote(e.as_str()).as_str());
        }
        match &self.data {
            RpcData::Null => {},
            d => {
                s.append(",\"data\":");
                s.append(d.to_json().as_str());
            },
        }
        s.append("}");
        s
    }
}

} // verus!

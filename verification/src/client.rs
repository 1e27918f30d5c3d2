//! Talking to a running gateway through the broker: options, connecting, and one request
//! with its response.

use crate::commands::{EXIT_DEVICE_TIMEOUT, EXIT_ERROR};
use crate::payload::{Node, NodeV, RpcParams, RpcRequest, RpcRequestV};
use crate::render::{Emit, EmitV};
use crate::text::{
    bytes_hex, cat2, cat3, cat5, cat6, chars_of, dec, dec_u64, hex_bytes, join, join_of, same,
    text_of,
};
use crate::topics::{
    addr_of, gateway_cmd, gateway_rsp, normal_prefix, normalize_prefix, parse_node_hex,
};
use vstd::prelude::*;
use vstd::string::*;

verus! {

// ---- options -----------------------------------------------------------------------

/// The broker options of every client command.
#[derive(Debug, PartialEq)]
pub struct MqttOpts {
    /// `HOST[:PORT]` of the broker.
    pub mqtt: String,
    pub mqtt_user: Option<String>,
    pub mqtt_password: Option<String>,
    pub prefix: String,
    /// How long the gateway may take to answer, in milliseconds.
    pub timeout: u64,
}

impl MqttOpts {
    /// The topic prefix in its normal form.
    pub fn prefix(&self) -> (r: String)
        ensures
            r@ == normal_prefix(self.prefix@),
    {
        normalize_prefix(self.prefix.as_str())
    }

    /// How long the gateway may take to answer, in milliseconds.
    pub fn timeout(&self) -> (r: u64)
        ensures
            r == self.timeout,
    {
        self.timeout
    }
}

/// The port of a broker unless given.
pub const MQTT_PORT: u16 = 1883;

/// Every character is a decimal digit.
pub open spec fn all_digits(s: Seq<char>) -> bool {
    forall|i: int| 0 <= i < s.len() ==> '0' <= #[trigger] s[i] <= '9'
}

/// The number that decimal digits write.
pub open spec fn dec_value(s: Seq<char>) -> nat
    decreases s.len(),
{
    if s.len() == 0 {
        0
    } else {
        dec_value(s.drop_last()) * 10 + (s.last() as nat - '0' as nat) as nat
    }
}

/// The last index of `c` in `s`, or -1.
pub open spec fn last_index(s: Seq<char>, c: char) -> int
    decreases s.len(),
{
    if s.len() == 0 {
        -1
    } else if s.last() == c {
        s.len() - 1
    } else {
        last_index(s.drop_last(), c)
    }
}

/// Host and port in `HOST[:PORT]`. What stands behind the last colon is a port where it is
/// made of digits; one that is out of range counts as the usual port.
pub open spec fn host_port(s: Seq<char>) -> (Seq<char>, u16) {
    let i = last_index(s, ':');
    let p = s.skip(i + 1);
    if i >= 0 && p.len() > 0 && all_digits(p) {
        (
            s.take(i),
            if dec_value(p) <= u16::MAX {
                dec_value(p) as u16
            } else {
                MQTT_PORT
            },
        )
    } else {
        (s, MQTT_PORT)
    }
}

pub proof fn lemma_last_index(s: Seq<char>, c: char, i: int)
    requires
        -1 <= i < s.len(),
        i >= 0 ==> s[i] == c,
        forall|j: int| i < j < s.len() ==> s[j] != c,
    ensures
        last_index(s, c) == i,
    decreases s.len(),
{
    if s.len() > 0 && i < s.len() - 1 {
        lemma_last_index(s.drop_last(), c, i);
    }
}

proof fn lemma_dec_value_grows(s: Seq<char>, n: int)
    requires
        0 <= n <= s.len(),
        all_digits(s),
    ensures
        dec_value(s.take(n)) <= dec_value(s),
    decreases s.len() - n,
{
    if n < s.len() {
        lemma_dec_value_grows(s, n + 1);
        assert(s.take(n + 1).drop_last() =~= s.take(n));
        assert('0' <= s[n] <= '9');
    } else {
        assert(s.take(n) =~= s);
    }
}

/// The port that `v[from..]` writes in decimal digits; `None` where it is no number.
fn port_in(v: &Vec<char>, from: usize) -> (r: Option<u16>)
    requires
        from <= v@.len(),
    ensures
        r == ({
            let p = v@.skip(from as int);
            if p.len() > 0 && all_digits(p) {
                Some(
                    if dec_value(p) <= u16::MAX {
                        dec_value(p) as u16
                    } else {
                        MQTT_PORT
                    },
                )
            } else {
                None
            }
        }),
{
    let ghost p = v@.skip(from as int);
    let n: usize = v.len();
    if from == n {
        return None;
    }
    let mut k: usize = from;
    while k < n
        invariant
            n == v@.len(),
            from <= k <= n,
            p == v@.skip(from as int),
            forall|j: int| 0 <= j < k - from ==> '0' <= #[trigger] p[j] <= '9',
        decreases n - k,
    {
        if v[k] < '0' || v[k] > '9' {
            assert(p[k - from] == v@[k as int]);
            return None;
        }
        assert(p[k - from] == v@[k as int]);
        k = k + 1;
    }
    let mut value: u32 = 0;
    let mut i: usize = from;
    assert(p.take(0).len() == 0);
    while i < n
        invariant
            n == v@.len(),
            from <= i <= n,
            p == v@.skip(from as int),
            all_digits(p),
            value == dec_value(p.take(i - from)),
            value <= u16::MAX,
        decreases n - i,
    {
        assert(p[i - from] == v@[i as int]);
        assert(p.take(i + 1 - from).drop_last() =~= p.take(i - from));
        value = value * 10 + (v[i] as u32 - '0' as u32);
        i = i + 1;
        if value > u16::MAX as u32 {
            proof {
                lemma_dec_value_grows(p, i - from);
            }
            return Some(MQTT_PORT);
        }
    }
    assert(p.take(i - from) =~= p);
    Some(value as u16)
}

/// Splits a `HOST[:PORT]` argument.
pub fn split_host_port(s: &str) -> (r: (String, u16))
    ensures
        (r.0@, r.1) == host_port(s@),
{
    let v = chars_of(s);
    let n: usize = v.len();
    let mut i: usize = n;
    while i > 0
        invariant
            n == v@.len(),
            v@ == s@,
            i <= n,
            forall|j: int| i <= j < n ==> v@[j] != ':',
        decreases i,
    {
        i = i - 1;
        if v[i] == ':' {
            proof {
                lemma_last_index(s@, ':', i as int);
            }
            return match port_in(&v, i + 1) {
                Some(port) => {
                    let host = text_of(&v, 0, i);
                    assert(host@ =~= s@.take(i as int));
                    (host, port)
                },
                None => (s.to_owned(), MQTT_PORT),
            };
        }
    }
    proof {
        lemma_last_index(s@, ':', -1);
    }
    (s.to_owned(), MQTT_PORT)
}

/// A key in hexadecimal.
pub fn key_hex(key: &[u8; 16]) -> (r: String)
    ensures
        r@ == hex_bytes(key@),
{
    bytes_hex(key.as_slice())
}

// ---- errors ------------------------------------------------------------------------

/// Why a client command failed.
#[derive(Debug, PartialEq)]
pub enum ClientError {
    /// The gateway did not answer in time.
    Timeout,
    /// The gateway did not answer in time; what for.
    TimeoutIn(String),
    Failed(String),
}

#[verifier::ext_equal]
pub enum ClientErrorV {
    Timeout,
    TimeoutIn(Seq<char>),
    Failed(Seq<char>),
}

impl DeepView for ClientError {
    type V = ClientErrorV;

    open spec fn deep_view(&self) -> ClientErrorV {
        match self {
            ClientError::Timeout => ClientErrorV::Timeout,
            ClientError::TimeoutIn(c) => ClientErrorV::TimeoutIn(c@),
            ClientError::Failed(e) => ClientErrorV::Failed(e@),
        }
    }
}

/// The exit code of a failure: a silent gateway has the same code as a silent device.
pub fn exit_of(e: &ClientError) -> (r: u8)
    ensures
        r == if e is Failed {
            EXIT_ERROR
        } else {
            EXIT_DEVICE_TIMEOUT
        },
{
    match e {
        ClientError::Timeout => EXIT_DEVICE_TIMEOUT,
        ClientError::TimeoutIn(_) => EXIT_DEVICE_TIMEOUT,
        ClientError::Failed(_) => EXIT_ERROR,
    }
}

pub open spec fn timeout_text() -> Seq<char> {
    "no gateway response (is `tower gateway` running against this broker?)"@
}

pub open spec fn error_text(e: ClientErrorV) -> Seq<char> {
    match e {
        ClientErrorV::Timeout => timeout_text(),
        ClientErrorV::TimeoutIn(c) => c + ": "@ + timeout_text(),
        ClientErrorV::Failed(t) => t,
    }
}

/// What a failure says.
pub fn error_str(e: &ClientError) -> (r: String)
    ensures
        r@ == error_text(e.deep_view()),
{
    let timeout = "no gateway response (is `tower gateway` running against this broker?)";
    match e {
        ClientError::Timeout => timeout.to_owned(),
        ClientError::TimeoutIn(c) => cat3(c.as_str(), ": ", timeout),
        ClientError::Failed(t) => t.as_str().to_owned(),
    }
}

pub open spec fn failure_note(e: ClientErrorV) -> EmitV {
    EmitV::Note("[tower] error: "@ + error_text(e))
}

/// A failed command: what is said, and the exit code.
pub fn run(e: &ClientError) -> (r: (Emit, u8))
    ensures
        r.0.deep_view() == failure_note(e.deep_view()),
        r.1 == if e is Failed {
            EXIT_ERROR
        } else {
            EXIT_DEVICE_TIMEOUT
        },
{
    let text = error_str(e);
    (Emit::Note(cat2("[tower] error: ", text.as_str())), exit_of(e))
}

// ---- connecting --------------------------------------------------------------------

/// How long the broker may take to accept the client, in milliseconds.
pub const CONNECT_MS: u64 = 5000;

/// What came from the broker.
#[derive(Debug, PartialEq)]
pub enum Incoming {
    ConnAck,
    Other,
    Lost(String),
    /// Nothing, for as long as was waited.
    Quiet,
}

/// Whether the client is connected.
#[derive(Debug, PartialEq)]
pub enum Connecting {
    Ready,
    Wait,
    Failed(String),
}

#[verifier::ext_equal]
pub enum ConnectingV {
    Ready,
    Wait,
    Failed(Seq<char>),
}

impl DeepView for Connecting {
    type V = ConnectingV;

    open spec fn deep_view(&self) -> ConnectingV {
        match self {
            Connecting::Ready => ConnectingV::Ready,
            Connecting::Wait => ConnectingV::Wait,
            Connecting::Failed(e) => ConnectingV::Failed(e@),
        }
    }
}

pub open spec fn broker_error(host: Seq<char>, port: u16, e: Seq<char>) -> Seq<char> {
    "broker "@ + host + ":"@ + dec(port as nat) + ": "@ + e
}

/// Takes what came while the client waits to be accepted: a broker that refuses or cannot
/// be reached fails the command at once.
pub fn connect_step(host: &str, port: u16, ev: &Incoming) -> (r: Connecting)
    ensures
        r.deep_view() == match *ev {
            Incoming::ConnAck => ConnectingV::Ready,
            Incoming::Other => ConnectingV::Wait,
            Incoming::Lost(e) => ConnectingV::Failed(broker_error(host@, port, e@)),
            Incoming::Quiet => ConnectingV::Failed(
                broker_error(host@, port, "connect timeout"@),
            ),
        },
{
    let e: &str = match ev {
        Incoming::ConnAck => {
            return Connecting::Ready;
        },
        Incoming::Other => {
            return Connecting::Wait;
        },
        Incoming::Lost(e) => e.as_str(),
        Incoming::Quiet => "connect timeout",
    };
    Connecting::Failed(cat6("broker ", host, ":", dec_u64(port as u64).as_str(), ": ", e))
}

/// The name under which a client connects.
pub fn cli_client_id(pid: u32) -> (r: String)
    ensures
        r@ == "tower-cli-"@ + dec(pid as nat),
{
    cat2("tower-cli-", dec_u64(pid as u64).as_str())
}

// ---- request ids -------------------------------------------------------------------

/// A lower-case hexadecimal digit.
pub open spec fn is_hex_digit(c: char) -> bool {
    '0' <= c <= '9' || 'a' <= c <= 'f'
}

/// A random identifier: 32 hexadecimal digits in groups of 8, 4, 4, 4 and 12.
pub open spec fn is_uuid(s: Seq<char>) -> bool {
    &&& s.len() == 36
    &&& forall|i: int|
        0 <= i < 36 ==> if i == 8 || i == 13 || i == 18 || i == 23 {
            #[trigger] s[i] == '-'
        } else {
            is_hex_digit(s[i])
        }
    &&& s[14] == '4'
}

/// `uuid::Uuid::new_v4` in its text form: 36 characters, lower-case digits and hyphens,
/// with the version in its place. Which digits is left to chance. The operating system's
/// random source is taken to be there; without one `new_v4` gives up.
#[verifier::external_body]
fn new_uuid() -> (r: String)
    ensures
        is_uuid(r@),
{
    uuid::Uuid::new_v4().to_string()
}

/// A fresh id for a request.
pub fn request_id() -> (r: String)
    ensures
        is_uuid(r@),
{
    new_uuid()
}

// ---- one request -------------------------------------------------------------------

/// What a response carries, as far as the commands read it.
#[derive(Debug, PartialEq)]
pub enum Reply {
    /// The registry, or why the data is none.
    Nodes(Result<Vec<Node>, String>),
    /// The gateway's description.
    Gateway { gateway: Option<String>, band: Option<u64>, channel: Option<u64> },
    /// The node that joined, if one did.
    Joined(Option<String>),
    /// A node's key, if the response has one.
    Key(Option<String>),
    /// Nothing that is read.
    Empty,
}

/// The response to a request.
#[derive(Debug, PartialEq)]
pub struct Answer {
    pub id: String,
    pub ok: bool,
    pub error: Option<String>,
    pub data: Reply,
}

/// A request that waits for its response.
#[derive(Debug, PartialEq)]
pub struct RpcCall {
    pub id: String,
    /// Where the response is published.
    pub rsp_topic: String,
    /// Where the request is published.
    pub cmd_topic: String,
}

/// What came from the broker while a request waits.
#[derive(Debug, PartialEq)]
pub enum RpcEvent {
    /// A message; its payload, where that is a response.
    Message { topic: String, answer: Option<Answer> },
    Other,
    Lost(String),
    /// Nothing until the deadline.
    Quiet,
}

/// Whether a request is done.
#[derive(Debug, PartialEq)]
pub enum RpcStep {
    Wait,
    Done(Answer),
    Failed(ClientError),
}

/// What an event does to a request with this id and response topic.
pub open spec fn rpc_step(id: Seq<char>, rsp_topic: Seq<char>, ev: RpcEvent, step: RpcStep) -> bool {
    match ev {
        RpcEvent::Message { topic, answer } => if topic@ == rsp_topic && answer is Some
            && answer->0.id@ == id {
            step == RpcStep::Done(answer->0)
        } else {
            step is Wait
        },
        RpcEvent::Other => step is Wait,
        RpcEvent::Lost(e) => match step {
            RpcStep::Failed(f) => f.deep_view() == ClientErrorV::Failed(
                "broker connection lost: "@ + e@,
            ),
            _ => false,
        },
        RpcEvent::Quiet => match step {
            RpcStep::Failed(f) => f is Timeout,
            _ => false,
        },
    }
}

impl RpcCall {
    /// A request under the id `id`: what is published, and the call that waits for it.
    pub fn new(prefix: &str, id: String, op: &str, params: RpcParams) -> (r: (RpcCall, RpcRequest))
        ensures
            r.0.id@ == id@,
            r.0.rsp_topic@ == prefix@ + "gateway/rsp/"@ + id@,
            r.0.cmd_topic@ == prefix@ + "gateway/cmd"@,
            r.1.deep_view() == (RpcRequestV { id: id@, op: op@, params: params.deep_view() }),
    {
        let rsp_topic = gateway_rsp(prefix, id.as_str());
        let request = RpcRequest { id: id.as_str().to_owned(), op: op.to_owned(), params };
        (RpcCall { id, rsp_topic, cmd_topic: gateway_cmd(prefix) }, request)
    }

    /// A request under a fresh id.
    pub fn start(prefix: &str, op: &str, params: RpcParams) -> (r: (RpcCall, RpcRequest))
        ensures
            is_uuid(r.0.id@),
            r.0.rsp_topic@ == prefix@ + "gateway/rsp/"@ + r.0.id@,
            r.0.cmd_topic@ == prefix@ + "gateway/cmd"@,
            r.1.deep_view() == (RpcRequestV { id: r.0.id@, op: op@, params: params.deep_view() }),
    {
        RpcCall::new(prefix, request_id(), op, params)
    }

    /// Takes what came from the broker. Only a response on the request's own topic with the
    /// request's own id ends the wait.
    pub fn on(&self, ev: RpcEvent) -> (step: RpcStep)
        ensures
            rpc_step(self.id@, self.rsp_topic@, ev, step),
    {
        match ev {
            RpcEvent::Message { topic, answer } => {
                if !same(topic.as_str(), self.rsp_topic.as_str()) {
                    return RpcStep::Wait;
                }
                match answer {
                    Some(a) => if same(a.id.as_str(), self.id.as_str()) {
                        RpcStep::Done(a)
                    } else {
                        RpcStep::Wait
                    },
                    None => RpcStep::Wait,
                }
            },
            RpcEvent::Other => RpcStep::Wait,
            RpcEvent::Lost(e) => RpcStep::Failed(
                ClientError::Failed(cat2("broker connection lost: ", e.as_str())),
            ),
            RpcEvent::Quiet => RpcStep::Failed(ClientError::Timeout),
        }
    }
}

/// What a refusal says.
pub open spec fn refusal_text(error: Option<String>) -> Seq<char> {
    match error {
        Some(e) => e@,
        None => "gateway refused"@,
    }
}

/// The data of a response that must be a success; otherwise what the gateway said.
pub fn rpc_ok(a: Answer) -> (r: Result<Reply, String>)
    ensures
        match r {
            Ok(d) => a.ok && d == a.data,
            Err(e) => !a.ok && e@ == refusal_text(a.error),
        },
{
    if a.ok {
        Ok(a.data)
    } else {
        match a.error {
            Some(e) => Err(e),
            None => Err("gateway refused".to_owned()),
        }
    }
}

/// How long a retained message is waited for, in milliseconds.
pub const RETAINED_MS: u64 = 2000;

/// Whether the message on `topic` is the retained one that is waited for.
pub fn is_retained(wanted: &str, topic: &str) -> (r: bool)
    ensures
        r == (wanted@ == topic@),
{
    same(wanted, topic)
}

// ---- nodes by name -----------------------------------------------------------------

/// A node of this name with a proper address.
pub open spec fn named(n: NodeV, arg: Seq<char>) -> bool {
    n.name == arg && addr_of(n.id) is Some
}

/// The index of the first node of this name.
pub open spec fn first_named(nodes: Seq<NodeV>, arg: Seq<char>) -> Option<int>
    decreases nodes.len(),
{
    if nodes.len() == 0 {
        None
    } else if named(nodes[0], arg) {
        Some(0)
    } else {
        match first_named(nodes.skip(1), arg) {
            Some(i) => Some(i + 1),
            None => None,
        }
    }
}

/// How a node is called: by its name, or by its address where it has none.
pub open spec fn called(n: NodeV) -> Seq<char> {
    if n.name.len() == 0 {
        n.id
    } else {
        n.name
    }
}

/// The address that an argument stands for among the registered nodes, or an error that
/// lists what is known.
pub open spec fn resolved(nodes: Seq<NodeV>, arg: Seq<char>) -> Result<u32, Seq<char>> {
    match first_named(nodes, arg) {
        Some(i) => Ok(addr_of(nodes[i].id)->0),
        None => Err(
            "no node named \""@ + arg + "\" (known: "@ + join(
                Seq::new(nodes.len(), |i: int| called(nodes[i])),
                ", "@,
            ) + ")"@,
        ),
    }
}

pub proof fn lemma_first_named(nodes: Seq<NodeV>, arg: Seq<char>, i: int)
    requires
        0 <= i <= nodes.len(),
        forall|j: int| 0 <= j < i ==> !named(#[trigger] nodes[j], arg),
        i < nodes.len() ==> named(nodes[i], arg),
    ensures
        first_named(nodes, arg) == if i < nodes.len() {
            Some(i)
        } else {
            None
        },
    decreases nodes.len(),
{
    if nodes.len() > 0 && i > 0 {
        assert(!named(nodes[0], arg));
        assert forall|j: int| 0 <= j < i - 1 implies !named(#[trigger] nodes.skip(1)[j], arg) by {
            assert(nodes.skip(1)[j] == nodes[j + 1]);
        }
        if i < nodes.len() {
            assert(nodes.skip(1)[i - 1] == nodes[i]);
        }
        lemma_first_named(nodes.skip(1), arg, i - 1);
    }
}

/// Resolves a name against the gateway's registry.
pub fn resolve_node(nodes: &Vec<Node>, arg: &str) -> (r: Result<u32, String>)
    ensures
        match r {
            Ok(id) => resolved(nodes.deep_view(), arg@) == Ok::<u32, Seq<char>>(id),
            Err(e) => resolved(nodes.deep_view(), arg@) == Err::<u32, Seq<char>>(e@),
        },
{
    let mut known: Vec<String> = Vec::new();
    let mut i: usize = 0;
    while i < nodes.len()
        invariant
            i <= nodes@.len(),
            forall|j: int| 0 <= j < i ==> !named(#[trigger] nodes.deep_view()[j], arg@),
            known@.len() == i,
            forall|j: int|
                0 <= j < i ==> (#[trigger] known@[j]).deep_view() == called(nodes.deep_view()[j]),
        decreases nodes@.len() - i,
    {
        let n = &nodes[i];
        assert(nodes.deep_view()[i as int] == n.deep_view());
        if same(n.name.as_str(), arg) {
            if let Some(id) = parse_node_hex(n.id.as_str()) {
                proof {
                    lemma_first_named(nodes.deep_view(), arg@, i as int);
                }
                return Ok(id);
            }
        }
        if n.name.as_str().unicode_len() == 0 {
            known.push(n.id.as_str().to_owned());
        } else {
            known.push(n.name.as_str().to_owned());
        }
        i = i + 1;
    }
    proof {
        lemma_first_named(nodes.deep_view(), arg@, i as int);
    }
    assert(known.deep_view() =~= Seq::new(
        nodes.deep_view().len(),
        |i: int| called(nodes.deep_view()[i]),
    ));
    Err(
        cat5(
            "no node named \"",
            arg,
            "\" (known: ",
            join_of(&known, ", ").as_str(),
            ")",
        ),
    )
}

// ---- laws --------------------------------------------------------------------------

/// A client's request is answered over the broker: its id is never one of those that route
/// the response to the frontend of the gateway's own process.
pub proof fn law_client_ids_are_not_the_frontends(id: Seq<char>)
    requires
        is_uuid(id),
    ensures
        !"tui-"@.is_prefix_of(id),
{
    reveal_strlit("tui-");
    assert(is_hex_digit(id[0]) || id[0] == '-');
    if "tui-"@.is_prefix_of(id) {
        assert("tui-"@[0] == 't');
        assert(id.subrange(0, 4)[0] == id[0]);
    }
}

/// A host without a colon keeps the usual port, and a port that is given is the port used.
pub proof fn law_host_and_port(host: Seq<char>, port: Seq<char>)
    requires
        forall|i: int| 0 <= i < port.len() ==> #[trigger] port[i] != ':',
    ensures
        all_digits(port) && port.len() > 0 && dec_value(port) <= u16::MAX ==> host_port(
            host + ":"@ + port,
        ) == (host, dec_value(port) as u16),
        host_port(port) == (port, MQTT_PORT),
{
    reveal_strlit(":");
    let s = host + ":"@ + port;
    assert forall|j: int| host.len() < j < s.len() implies s[j] != ':' by {
        assert(s[j] == port[j - host.len() - 1]);
    }
    lemma_last_index(s, ':', host.len() as int);
    assert(s.skip(host.len() as int + 1) =~= port);
    assert(s.take(host.len() as int) =~= host);
    lemma_last_index(port, ':', -1);
}

} // verus!

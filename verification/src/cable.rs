//! Pairing a node over its cable: the host probes the node, mints its key, registers it at
//! the gateway, and installs the credentials on the node. A node that does not take them is
//! taken off the gateway again. Two flows share this: the client command, which reaches the
//! gateway over the broker, and the worker of the dashboard, which reaches it in process.

use crate::client::{key_hex, refusal_text, rpc_ok, Answer, ClientError, ClientErrorV, Reply};
use crate::commands::{
    EXIT_DEVICE_TIMEOUT, EXIT_OK, EXIT_PROTOCOL_MISMATCH, EXIT_WRONG_FIRMWARE,
};
use crate::dashboard_time::CableMsg;
use crate::entropy::mint_key;
use crate::mgmt::{
    DescribeOutcome, DescribeOutcomeV, MgmtOp, MgmtOpV, MgmtOutcome, MgmtOutcomeV,
};
use crate::nodes::{on_node, on_node_of};
use crate::payload::{
    no_params, RpcParams, RpcParamsV, RpcRequest, RpcRequestV, RpcResponse,
};
use crate::render::{banner, warn_protocol_mismatch, Emit, EmitV};
use crate::text::{cat2, cat3, cat4, cat5, cat6, cat7, dec, dec_u64, hex_bytes, push_deep, same};
use crate::topics::{addr_of, addr_text, node_hex, parse_node_hex};
use crate::wire::{mgmt_error, mgmt_error_str, role_name, role_text, DeviceRole, Wire};
use vstd::prelude::*;
use vstd::string::*;

verus! {

/// The request id of the role probe.
pub const PROBE_ID: u16 = 0x7100;

/// The request id of the installation of the credentials.
pub const PROVISION_ID: u16 = 0x7101;

/// How long the node may take to answer, in milliseconds.
pub const NODE_MS: u64 = 4000;

/// The network that a node is told to join.
#[derive(Debug, Clone, Copy, PartialEq, Eq, Structural)]
pub struct GwParams {
    pub addr: u32,
    pub band: u8,
    pub channel: u8,
}

// ---- what both flows share ---------------------------------------------------------

/// The registration of a node at the gateway.
pub open spec fn registration(node: u32, key: Seq<u8>, name: Seq<char>) -> RpcParamsV {
    RpcParamsV {
        id: Some(addr_text(node)),
        key: Some(hex_bytes(key)),
        name: Some(name),
        sleeping: Some(true),
        ..no_params()
    }
}

/// The credentials of a node.
pub open spec fn credentials(gw: GwParams, key: Seq<u8>) -> MgmtOpV {
    MgmtOpV::Provision { gw_id: gw.addr, key, band: gw.band, channel: gw.channel }
}

/// The node took its credentials.
pub open spec fn took(wire: Wire, outcome: MgmtOutcomeV) -> bool {
    match outcome {
        MgmtOutcomeV::Reply { result, .. } => result == wire.mgmt_ok,
        MgmtOutcomeV::Timeout { .. } => false,
    }
}

/// What a result code means, or that nobody knows.
pub open spec fn meaning_of(wire: Wire, code: u8) -> Seq<char> {
    match mgmt_error(wire, code) {
        Some(t) => t,
        None => "unknown"@,
    }
}

/// Why a node did not take its credentials; `what` was rolled back.
pub open spec fn not_taken(wire: Wire, outcome: MgmtOutcomeV, what: Seq<char>) -> Seq<char> {
    match outcome {
        MgmtOutcomeV::Reply { result, .. } => "node refused provisioning ("@ + meaning_of(
            wire,
            result,
        ) + ") — "@ + what + " rolled back"@,
        MgmtOutcomeV::Timeout { .. } => "node did not ack provisioning — "@ + what
            + " rolled back"@,
    }
}

/// What is said of a node that can be paired.
pub open spec fn node_found(node: u32, firmware: Seq<char>, provisioned: bool) -> Seq<char> {
    "node "@ + addr_text(node) + " (\""@ + firmware + "\")"@ + if provisioned {
        " — already provisioned, re-pairing"@
    } else {
        ""@
    }
}

fn registration_of(node: u32, key: &[u8; 16], name: &str) -> (r: RpcParams)
    ensures
        r.deep_view() == registration(node, key@, name@),
{
    let mut p = RpcParams::none();
    p.id = Some(node_hex(node));
    p.key = Some(key_hex(key));
    p.name = Some(name.to_owned());
    p.sleeping = Some(true);
    p
}

fn took_credentials(wire: &Wire, outcome: &MgmtOutcome) -> (r: bool)
    ensures
        r == took(*wire, outcome.deep_view()),
{
    match outcome {
        MgmtOutcome::Reply(reply) => reply.result == wire.mgmt_ok,
        MgmtOutcome::Timeout { .. } => false,
    }
}

fn why_not(wire: &Wire, outcome: &MgmtOutcome, what: &str) -> (r: String)
    ensures
        r@ == not_taken(*wire, outcome.deep_view(), what@),
{
    match outcome {
        MgmtOutcome::Reply(reply) => cat5(
            "node refused provisioning (",
            match mgmt_error_str(wire, reply.result) {
                Some(t) => t,
                None => "unknown",
            },
            ") — ",
            what,
            " rolled back",
        ),
        MgmtOutcome::Timeout { .. } => cat3("node did not ack provisioning — ", what, " rolled back"),
    }
}

fn node_found_text(node: u32, firmware: &str, provisioned: bool) -> (r: String)
    ensures
        r@ == node_found(node, firmware@, provisioned),
{
    cat6(
        "node ",
        node_hex(node).as_str(),
        " (\"",
        firmware,
        "\")",
        if provisioned {
            " — already provisioned, re-pairing"
        } else {
            ""
        },
    )
}

/// A key that was minted, or why there is none.
pub open spec fn minted(key: Result<[u8; 16], String>) -> Result<Seq<u8>, Seq<char>> {
    match key {
        Ok(k) => Ok(k@),
        Err(e) => Err(e@),
    }
}

// ---- the client command ------------------------------------------------------------

/// How far the client command is.
#[derive(Debug, PartialEq)]
pub enum PairStage {
    /// The node is asked what it is.
    Probing,
    /// The gateway is asked for its network.
    Describing { node: u32 },
    /// The gateway is told of the node.
    Registering { node: u32, gw: GwParams, key: [u8; 16] },
    /// The node is given its credentials.
    Provisioning { node: u32 },
    /// The registration is undone.
    Undoing { reason: String },
    Over,
}

#[verifier::ext_equal]
pub enum PairStageV {
    Probing,
    Describing { node: u32 },
    Registering { node: u32, gw: GwParams, key: Seq<u8> },
    Provisioning { node: u32 },
    Undoing { reason: Seq<char> },
    Over,
}

impl DeepView for PairStage {
    type V = PairStageV;

    open spec fn deep_view(&self) -> PairStageV {
        match self {
            PairStage::Probing => PairStageV::Probing,
            PairStage::Describing { node } => PairStageV::Describing { node: *node },
            PairStage::Registering { node, gw, key } => PairStageV::Registering {
                node: *node,
                gw: *gw,
                key: key@,
            },
            PairStage::Provisioning { node } => PairStageV::Provisioning { node: *node },
            PairStage::Undoing { reason } => PairStageV::Undoing { reason: reason@ },
            PairStage::Over => PairStageV::Over,
        }
    }
}

/// What a pairing asks for.
#[derive(Debug, PartialEq)]
pub enum PairStep {
    /// Open the port of the node and ask what it is.
    Probe,
    /// A request to the gateway.
    Rpc { op: String, params: RpcParams },
    /// A request to the node.
    Provision(MgmtOp),
    Exit(u8),
    Failed(ClientError),
}

#[verifier::ext_equal]
pub enum PairStepV {
    Probe,
    Rpc { op: Seq<char>, params: RpcParamsV },
    Provision(MgmtOpV),
    Exit(u8),
    Failed(ClientErrorV),
}

impl DeepView for PairStep {
    type V = PairStepV;

    open spec fn deep_view(&self) -> PairStepV {
        match self {
            PairStep::Probe => PairStepV::Probe,
            PairStep::Rpc { op, params } => PairStepV::Rpc { op: op@, params: params.deep_view() },
            PairStep::Provision(op) => PairStepV::Provision(op.deep_view()),
            PairStep::Exit(c) => PairStepV::Exit(*c),
            PairStep::Failed(e) => PairStepV::Failed(e.deep_view()),
        }
    }
}

/// One turn of the client command.
#[derive(Debug, PartialEq)]
pub struct PairTurn {
    pub out: Vec<Emit>,
    pub step: PairStep,
}

#[verifier::ext_equal]
pub struct PairTurnV {
    pub stage: PairStageV,
    /// The gateway's address as it gave it.
    pub gw_hex: Seq<char>,
    pub out: Seq<EmitV>,
    pub step: PairStepV,
}

/// The client command on its way.
#[derive(Debug, PartialEq)]
pub struct CablePair {
    /// The port of the node.
    pub port: String,
    /// The name to give it.
    pub name: Option<String>,
    /// The gateway's address as it gave it.
    pub gw_hex: String,
    pub stage: PairStage,
}

pub open spec fn pair_exit(gw_hex: Seq<char>, out: Seq<EmitV>, code: u8) -> PairTurnV {
    PairTurnV { stage: PairStageV::Over, gw_hex, out, step: PairStepV::Exit(code) }
}

pub open spec fn pair_fails(gw_hex: Seq<char>, e: ClientErrorV) -> PairTurnV {
    PairTurnV {
        stage: PairStageV::Over,
        gw_hex,
        out: Seq::empty(),
        step: PairStepV::Failed(e),
    }
}

/// What the probe of the node leads to: only a node is paired.
pub open spec fn pair_probed(
    wire: Wire,
    port: Seq<char>,
    gw_hex: Seq<char>,
    outcome: DescribeOutcomeV,
) -> PairTurnV {
    match outcome {
        DescribeOutcomeV::Refused(code) => pair_exit(
            gw_hex,
            seq![
                EmitV::Note(
                    "[tower] "@ + port + ": refused the role probe (code "@ + dec(code as nat) + ")"@,
                ),
            ],
            EXIT_WRONG_FIRMWARE,
        ),
        DescribeOutcomeV::Timeout { bad_version: Some(v) } => pair_exit(
            gw_hex,
            banner(wire, v),
            EXIT_PROTOCOL_MISMATCH,
        ),
        DescribeOutcomeV::Timeout { bad_version: None } => pair_exit(
            gw_hex,
            seq![EmitV::Note("[tower] "@ + port + ": no answer — is this a v3 TOWER node?"@)],
            EXIT_DEVICE_TIMEOUT,
        ),
        DescribeOutcomeV::Info(i) => if i.role != DeviceRole::Node {
            pair_exit(
                gw_hex,
                seq![
                    EmitV::Note(
                        "[tower] "@ + port + " runs \""@ + i.firmware_name + "\" (role "@
                            + role_text(i.role)
                            + ") — that's not a node; use the gateway's own port with `tower gateway`"@,
                    ),
                ],
                EXIT_WRONG_FIRMWARE,
            )
        } else {
            PairTurnV {
                stage: PairStageV::Describing { node: i.net_id },
                gw_hex,
                out: seq![
                    EmitV::Note(
                        "[tower] "@ + node_found(i.net_id, i.firmware_name, i.provisioned),
                    ),
                ],
                step: PairStepV::Rpc { op: "describe"@, params: no_params() },
            }
        },
    }
}

/// The low byte of what the gateway says; 0 where it says nothing.
pub open spec fn low_byte(n: Option<u64>) -> u8 {
    match n {
        Some(v) => (v % 256) as u8,
        None => 0,
    }
}

/// The network that a description of the gateway names, or what is wrong with it.
pub open spec fn network(data: Reply) -> Result<(Seq<char>, GwParams), Seq<char>> {
    match data {
        Reply::Gateway { gateway: Some(hex), band, channel } => match addr_of(hex@) {
            Some(addr) => Ok(
                (hex@, GwParams { addr, band: low_byte(band), channel: low_byte(channel) }),
            ),
            None => Err("gateway describe: bad id"@),
        },
        _ => Err("gateway describe: missing id"@),
    }
}

/// The name to give, or none.
pub open spec fn name_or_none(name: Option<String>) -> Seq<char> {
    match name {
        Some(n) => n@,
        None => ""@,
    }
}

/// What an answer of the gateway leads to. `key` is the key that was minted.
pub open spec fn pair_answered(
    name: Option<String>,
    gw_hex: Seq<char>,
    stage: PairStageV,
    a: Answer,
    key: Result<Seq<u8>, Seq<char>>,
) -> PairTurnV {
    match stage {
        PairStageV::Describing { node } => if !a.ok {
            pair_fails(gw_hex, ClientErrorV::Failed(refusal_text(a.error)))
        } else {
            match network(a.data) {
                Err(e) => pair_fails(gw_hex, ClientErrorV::Failed(e)),
                Ok((hex, gw)) => match key {
                    Err(e) => pair_fails(hex, ClientErrorV::Failed(e)),
                    Ok(k) => PairTurnV {
                        stage: PairStageV::Registering { node, gw, key: k },
                        gw_hex: hex,
                        out: Seq::empty(),
                        step: PairStepV::Rpc {
                            op: "node_add"@,
                            params: registration(node, k, name_or_none(name)),
                        },
                    },
                },
            }
        },
        PairStageV::Registering { node, gw, key } => if !a.ok {
            pair_fails(
                gw_hex,
                ClientErrorV::Failed(
                    "registering the node on the gateway: "@ + refusal_text(a.error),
                ),
            )
        } else {
            PairTurnV {
                stage: PairStageV::Provisioning { node },
                gw_hex,
                out: Seq::empty(),
                step: PairStepV::Provision(credentials(gw, key)),
            }
        },
        PairStageV::Undoing { reason } => pair_fails(gw_hex, ClientErrorV::Failed(reason)),
        _ => pair_fails(gw_hex, ClientErrorV::Failed("unexpected gateway response"@)),
    }
}

/// What a failed request to the gateway leads to. The rollback is tried once, whatever
/// comes of it.
pub open spec fn pair_unanswered(gw_hex: Seq<char>, stage: PairStageV, e: ClientErrorV) -> PairTurnV {
    match stage {
        PairStageV::Registering { .. } => pair_fails(
            gw_hex,
            match e {
                ClientErrorV::Failed(t) => ClientErrorV::Failed(
                    "registering the node on the gateway: "@ + t,
                ),
                _ => ClientErrorV::TimeoutIn("registering the node on the gateway"@),
            },
        ),
        PairStageV::Undoing { reason } => pair_fails(gw_hex, ClientErrorV::Failed(reason)),
        _ => pair_fails(gw_hex, e),
    }
}

pub open spec fn as_name(name: Option<String>) -> Seq<char> {
    match name {
        Some(n) => " as \""@ + n@ + "\""@,
        None => ""@,
    }
}

/// What the node's answer to its credentials leads to.
pub open spec fn pair_provisioned(
    wire: Wire,
    name: Option<String>,
    gw_hex: Seq<char>,
    node: u32,
    outcome: MgmtOutcomeV,
) -> PairTurnV {
    if took(wire, outcome) {
        pair_exit(
            gw_hex,
            seq![
                EmitV::Line(
                    "paired "@ + addr_text(node) + " → gateway "@ + gw_hex + as_name(name),
                ),
                EmitV::Note("[tower] node is rebooting into its new identity"@),
            ],
            EXIT_OK,
        )
    } else {
        PairTurnV {
            stage: PairStageV::Undoing {
                reason: not_taken(wire, outcome, "gateway registration"@),
            },
            gw_hex,
            out: Seq::empty(),
            step: PairStepV::Rpc { op: "node_remove"@, params: on_node(addr_text(node)) },
        }
    }
}

/// The same, at a stage: only a node that was given credentials can take them.
pub open spec fn pair_installed(
    wire: Wire,
    name: Option<String>,
    gw_hex: Seq<char>,
    stage: PairStageV,
    outcome: MgmtOutcomeV,
) -> PairTurnV {
    match stage {
        PairStageV::Provisioning { node } => pair_provisioned(wire, name, gw_hex, node, outcome),
        _ => pair_fails(gw_hex, ClientErrorV::Failed("unexpected answer of the node"@)),
    }
}

/// A turn led to `t`; port and name stay what they were.
pub open spec fn paired_to(
    before: CablePair,
    after: CablePair,
    turn: PairTurn,
    t: PairTurnV,
) -> bool {
    &&& after.port == before.port && after.name == before.name
    &&& after.gw_hex@ == t.gw_hex
    &&& after.stage.deep_view() == t.stage
    &&& turn.out.deep_view() == t.out
    &&& turn.step.deep_view() == t.step
}

fn nothing() -> (r: Vec<Emit>)
    ensures
        r.deep_view() == Seq::<EmitV>::empty(),
{
    let v: Vec<Emit> = Vec::new();
    assert(v.deep_view() =~= Seq::<EmitV>::empty());
    v
}

fn said(e: Emit) -> (r: Vec<Emit>)
    ensures
        r.deep_view() == seq![e.deep_view()],
{
    let mut v: Vec<Emit> = Vec::new();
    v.push(e);
    assert(v.deep_view() =~= seq![e.deep_view()]);
    v
}

fn low_byte_of(n: Option<u64>) -> (r: u8)
    ensures
        r == low_byte(n),
{
    match n {
        Some(v) => (v % 256) as u8,
        None => 0,
    }
}

/// The network that a description of the gateway names.
fn network_in(data: Reply) -> (r: Result<(String, GwParams), String>)
    ensures
        match r {
            Ok((hex, gw)) => network(data) == Ok::<(Seq<char>, GwParams), Seq<char>>((hex@, gw)),
            Err(e) => network(data) == Err::<(Seq<char>, GwParams), Seq<char>>(e@),
        },
{
    match data {
        Reply::Gateway { gateway: Some(hex), band, channel } => match parse_node_hex(hex.as_str()) {
            Some(addr) => Ok(
                (hex, GwParams { addr, band: low_byte_of(band), channel: low_byte_of(channel) }),
            ),
            None => Err("gateway describe: bad id".to_owned()),
        },
        _ => Err("gateway describe: missing id".to_owned()),
    }
}

impl CablePair {
    /// Starts to pair the node on `port`.
    pub fn start(port: String, name: Option<String>) -> (r: (CablePair, PairTurn))
        ensures
            r.0.port == port && r.0.name == name && r.0.stage is Probing && r.0.gw_hex@ == ""@,
            r.1.out.deep_view() == seq![EmitV::Note("[tower] probing "@ + port@ + "…"@)],
            r.1.step is Probe,
    {
        let head = said(Emit::Note(cat3("[tower] probing ", port.as_str(), "…")));
        (
            CablePair { port, name, gw_hex: "".to_owned(), stage: PairStage::Probing },
            PairTurn { out: head, step: PairStep::Probe },
        )
    }

    fn exit(&mut self, out: Vec<Emit>, code: u8) -> (r: PairTurn)
        ensures
            paired_to(
                *old(self),
                *final(self),
                r,
                pair_exit(old(self).gw_hex@, out.deep_view(), code),
            ),
    {
        self.stage = PairStage::Over;
        PairTurn { out, step: PairStep::Exit(code) }
    }

    fn fail(&mut self, e: ClientError) -> (r: PairTurn)
        ensures
            paired_to(*old(self), *final(self), r, pair_fails(old(self).gw_hex@, e.deep_view())),
    {
        self.stage = PairStage::Over;
        PairTurn { out: nothing(), step: PairStep::Failed(e) }
    }

    /// Takes what the node says of itself.
    pub fn on_described(&mut self, wire: &Wire, outcome: DescribeOutcome) -> (r: PairTurn)
        ensures
            paired_to(
                *old(self),
                *final(self),
                r,
                pair_probed(*wire, old(self).port@, old(self).gw_hex@, outcome.deep_view()),
            ),
    {
        let info = match outcome {
            DescribeOutcome::Info(info) => info,
            DescribeOutcome::Refused(code) => {
                let out = said(
                    Emit::Note(
                        cat5(
                            "[tower] ",
                            self.port.as_str(),
                            ": refused the role probe (code ",
                            dec_u64(code as u64).as_str(),
                            ")",
                        ),
                    ),
                );
                return self.exit(out, EXIT_WRONG_FIRMWARE);
            },
            DescribeOutcome::Timeout { bad_version } => {
                return match bad_version {
                    Some(v) => {
                        let out = warn_protocol_mismatch(wire, v);
                        self.exit(out, EXIT_PROTOCOL_MISMATCH)
                    },
                    None => {
                        let out = said(
                            Emit::Note(
                                cat3(
                                    "[tower] ",
                                    self.port.as_str(),
                                    ": no answer — is this a v3 TOWER node?",
                                ),
                            ),
                        );
                        self.exit(out, EXIT_DEVICE_TIMEOUT)
                    },
                };
            },
        };
        if info.role != DeviceRole::Node {
            let out = said(
                Emit::Note(
                    cat7(
                        "[tower] ",
                        self.port.as_str(),
                        " runs \"",
                        info.firmware_name.as_str(),
                        "\" (role ",
                        role_name(info.role),
                        ") — that's not a node; use the gateway's own port with `tower gateway`",
                    ),
                ),
            );
            return self.exit(out, EXIT_WRONG_FIRMWARE);
        }
        let found = node_found_text(info.net_id, info.firmware_name.as_str(), info.provisioned);
        self.stage = PairStage::Describing { node: info.net_id };
        PairTurn {
            out: said(Emit::Note(cat2("[tower] ", found.as_str()))),
            step: PairStep::Rpc { op: "describe".to_owned(), params: RpcParams::none() },
        }
    }

    /// Takes an answer of the gateway; `key` is used where the node is to be registered.
    pub fn on_answer(&mut self, a: Answer, key: Result<[u8; 16], String>) -> (r: PairTurn)
        ensures
            paired_to(
                *old(self),
                *final(self),
                r,
                pair_answered(
                    old(self).name,
                    old(self).gw_hex@,
                    old(self).stage.deep_view(),
                    a,
                    minted(key),
                ),
            ),
    {
        let mut stage = PairStage::Over;
        std::mem::swap(&mut self.stage, &mut stage);
        match stage {
            PairStage::Describing { node } => match rpc_ok(a) {
                Err(e) => self.fail(ClientError::Failed(e)),
                Ok(data) => match network_in(data) {
                    Err(e) => self.fail(ClientError::Failed(e)),
                    Ok((hex, gw)) => {
                        self.gw_hex = hex;
                        match key {
                            Err(e) => self.fail(ClientError::Failed(e)),
                            Ok(k) => {
                                let params = registration_of(
                                    node,
                                    &k,
                                    match &self.name {
                                        Some(n) => n.as_str(),
                                        None => "",
                                    },
                                );
                                self.stage = PairStage::Registering { node, gw, key: k };
                                PairTurn {
                                    out: nothing(),
                                    step: PairStep::Rpc { op: "node_add".to_owned(), params },
                                }
                            },
                        }
                    },
                },
            },
            PairStage::Registering { node, gw, key: k } => match rpc_ok(a) {
                Err(e) => self.fail(
                    ClientError::Failed(
                        cat2("registering the node on the gateway: ", e.as_str()),
                    ),
                ),
                Ok(_) => {
                    self.stage = PairStage::Provisioning { node };
                    let op = MgmtOp::Provision {
                        gw_id: gw.addr,
                        key: k,
                        band: gw.band,
                        channel: gw.channel,
                    };
                    PairTurn { out: nothing(), step: PairStep::Provision(op) }
                },
            },
            PairStage::Undoing { reason } => self.fail(ClientError::Failed(reason)),
            _ => self.fail(ClientError::Failed("unexpected gateway response".to_owned())),
        }
    }

    /// Takes an answer of the gateway, with a fresh key where one is needed.
    pub fn on_answer_minting(&mut self, a: Answer) -> (r: PairTurn)
        ensures
            exists|key: Result<[u8; 16], String>|
                paired_to(
                    *old(self),
                    *final(self),
                    r,
                    #[trigger] pair_answered(
                        old(self).name,
                        old(self).gw_hex@,
                        old(self).stage.deep_view(),
                        a,
                        minted(key),
                    ),
                ),
    {
        let key = match &self.stage {
            PairStage::Describing { .. } => mint_key(),
            _ => Err("".to_owned()),
        };
        self.on_answer(a, key)
    }

    /// A request to the gateway failed.
    pub fn on_error(&mut self, e: ClientError) -> (r: PairTurn)
        ensures
            paired_to(
                *old(self),
                *final(self),
                r,
                pair_unanswered(old(self).gw_hex@, old(self).stage.deep_view(), e.deep_view()),
            ),
    {
        let mut stage = PairStage::Over;
        std::mem::swap(&mut self.stage, &mut stage);
        match stage {
            PairStage::Registering { .. } => match e {
                ClientError::Failed(t) => self.fail(
                    ClientError::Failed(
                        cat2("registering the node on the gateway: ", t.as_str()),
                    ),
                ),
                _ => self.fail(
                    ClientError::TimeoutIn("registering the node on the gateway".to_owned()),
                ),
            },
            PairStage::Undoing { reason } => self.fail(ClientError::Failed(reason)),
            _ => self.fail(e),
        }
    }

    /// Takes the node's answer to its credentials.
    pub fn on_provisioned(&mut self, wire: &Wire, outcome: MgmtOutcome) -> (r: PairTurn)
        ensures
            paired_to(
                *old(self),
                *final(self),
                r,
                pair_installed(
                    *wire,
                    old(self).name,
                    old(self).gw_hex@,
                    old(self).stage.deep_view(),
                    outcome.deep_view(),
                ),
            ),
    {
        let node: u32 = match &self.stage {
            PairStage::Provisioning { node } => *node,
            _ => {
                return self.fail(ClientError::Failed("unexpected answer of the node".to_owned()));
            },
        };
        if took_credentials(wire, &outcome) {
            let tail = match &self.name {
                Some(n) => cat3(" as \"", n.as_str(), "\""),
                None => "".to_owned(),
            };
            let mut out = said(
                Emit::Line(
                    cat5(
                        "paired ",
                        node_hex(node).as_str(),
                        " → gateway ",
                        self.gw_hex.as_str(),
                        tail.as_str(),
                    ),
                ),
            );
            push_deep(
                &mut out,
                Emit::Note("[tower] node is rebooting into its new identity".to_owned()),
            );
            assert(out.deep_view() =~= pair_provisioned(
                *wire,
                self.name,
                self.gw_hex@,
                node,
                outcome.deep_view(),
            ).out);
            self.exit(out, EXIT_OK)
        } else {
            self.stage = PairStage::Undoing {
                reason: why_not(wire, &outcome, "gateway registration"),
            };
            PairTurn {
                out: nothing(),
                step: PairStep::Rpc {
                    op: "node_remove".to_owned(),
                    params: on_node_of(node_hex(node).as_str()),
                },
            }
        }
    }
}

// ---- the worker of the dashboard ---------------------------------------------------

#[verifier::ext_equal]
pub enum CableMsgV {
    Progress(Seq<char>),
    Done { addr: u32 },
    Failed(Seq<char>),
}

impl DeepView for CableMsg {
    type V = CableMsgV;

    open spec fn deep_view(&self) -> CableMsgV {
        match self {
            CableMsg::Progress(l) => CableMsgV::Progress(l@),
            CableMsg::Done { addr } => CableMsgV::Done { addr: *addr },
            CableMsg::Failed(e) => CableMsgV::Failed(e@),
        }
    }
}

/// How far the worker is.
#[derive(Debug, PartialEq)]
pub enum WorkStage {
    Probing,
    Registering { node: u32, key: [u8; 16] },
    Provisioning { node: u32 },
    Undoing { reason: String },
    Over,
}

#[verifier::ext_equal]
pub enum WorkStageV {
    Probing,
    Registering { node: u32, key: Seq<u8> },
    Provisioning { node: u32 },
    Undoing { reason: Seq<char> },
    Over,
}

impl DeepView for WorkStage {
    type V = WorkStageV;

    open spec fn deep_view(&self) -> WorkStageV {
        match self {
            WorkStage::Probing => WorkStageV::Probing,
            WorkStage::Registering { node, key } => WorkStageV::Registering {
                node: *node,
                key: key@,
            },
            WorkStage::Provisioning { node } => WorkStageV::Provisioning { node: *node },
            WorkStage::Undoing { reason } => WorkStageV::Undoing { reason: reason@ },
            WorkStage::Over => WorkStageV::Over,
        }
    }
}

/// What the worker asks for; nothing once its last message is out.
#[derive(Debug, PartialEq)]
pub enum WorkStep {
    Probe,
    Rpc { op: String, params: RpcParams },
    Provision(MgmtOp),
    Stop,
}

#[verifier::ext_equal]
pub enum WorkStepV {
    Probe,
    Rpc { op: Seq<char>, params: RpcParamsV },
    Provision(MgmtOpV),
    Stop,
}

impl DeepView for WorkStep {
    type V = WorkStepV;

    open spec fn deep_view(&self) -> WorkStepV {
        match self {
            WorkStep::Probe => WorkStepV::Probe,
            WorkStep::Rpc { op, params } => WorkStepV::Rpc { op: op@, params: params.deep_view() },
            WorkStep::Provision(op) => WorkStepV::Provision(op.deep_view()),
            WorkStep::Stop => WorkStepV::Stop,
        }
    }
}

#[derive(Debug, PartialEq)]
pub struct WorkTurn {
    pub out: Vec<CableMsg>,
    pub step: WorkStep,
}

#[verifier::ext_equal]
pub struct WorkTurnV {
    pub stage: WorkStageV,
    pub out: Seq<CableMsgV>,
    pub step: WorkStepV,
}

/// The worker that pairs the node on a port with the gateway of this process.
#[derive(Debug, PartialEq)]
pub struct CableWorker {
    pub gw: GwParams,
    pub stage: WorkStage,
}

pub open spec fn work_ends(msg: CableMsgV) -> WorkTurnV {
    WorkTurnV { stage: WorkStageV::Over, out: seq![msg], step: WorkStepV::Stop }
}

pub open spec fn work_fails(e: Seq<char>) -> WorkTurnV {
    work_ends(CableMsgV::Failed(e))
}

/// What the probe of the node leads to, with the key that was minted.
pub open spec fn work_probed(
    outcome: DescribeOutcomeV,
    key: Result<Seq<u8>, Seq<char>>,
) -> WorkTurnV {
    match outcome {
        DescribeOutcomeV::Refused(code) => work_fails(
            "role probe refused (code "@ + dec(code as nat) + ")"@,
        ),
        DescribeOutcomeV::Timeout { bad_version: Some(v) } => work_fails(
            "protocol mismatch: device speaks v"@ + dec(v as nat) + " — rebuild/reflash"@,
        ),
        DescribeOutcomeV::Timeout { bad_version: None } => work_fails(
            "no answer — is this a v3 TOWER node?"@,
        ),
        DescribeOutcomeV::Info(i) => if i.role != DeviceRole::Node {
            work_fails(
                "\""@ + i.firmware_name + "\" is a "@ + role_text(i.role) + ", not a node"@,
            )
        } else {
            let found = CableMsgV::Progress(
                node_found(i.net_id, i.firmware_name, i.provisioned),
            );
            match key {
                Err(_) => WorkTurnV {
                    stage: WorkStageV::Over,
                    out: seq![found, CableMsgV::Failed("no entropy source for the node key"@)],
                    step: WorkStepV::Stop,
                },
                Ok(k) => WorkTurnV {
                    stage: WorkStageV::Registering { node: i.net_id, key: k },
                    out: seq![found, CableMsgV::Progress("registering on the gateway…"@)],
                    step: WorkStepV::Rpc {
                        op: "node_add"@,
                        params: registration(i.net_id, k, ""@),
                    },
                },
            }
        },
    }
}

/// What an answer of the gateway leads to (`Err`: what kept it away).
pub open spec fn work_answered(
    gw: GwParams,
    stage: WorkStageV,
    ok: bool,
    error: Option<String>,
) -> WorkTurnV {
    match stage {
        WorkStageV::Registering { node, key } => if ok {
            WorkTurnV {
                stage: WorkStageV::Provisioning { node },
                out: seq![CableMsgV::Progress("provisioning the node…"@)],
                step: WorkStepV::Provision(credentials(gw, key)),
            }
        } else {
            work_fails(
                match error {
                    Some(e) => e@,
                    None => "gateway refused node_add"@,
                },
            )
        },
        WorkStageV::Undoing { reason } => work_fails(reason),
        _ => work_fails("unexpected gateway response"@),
    }
}

/// What a request that got no answer leads to.
pub open spec fn work_unanswered(stage: WorkStageV, e: Seq<char>) -> WorkTurnV {
    match stage {
        WorkStageV::Undoing { reason } => work_fails(reason),
        _ => work_fails(e),
    }
}

/// What the node's answer to its credentials leads to.
pub open spec fn work_installed(wire: Wire, stage: WorkStageV, outcome: MgmtOutcomeV) -> WorkTurnV {
    match stage {
        WorkStageV::Provisioning { node } => if took(wire, outcome) {
            work_ends(CableMsgV::Done { addr: node })
        } else {
            WorkTurnV {
                stage: WorkStageV::Undoing { reason: not_taken(wire, outcome, "registration"@) },
                out: Seq::empty(),
                step: WorkStepV::Rpc { op: "node_remove"@, params: on_node(addr_text(node)) },
            }
        },
        _ => work_fails("unexpected answer of the node"@),
    }
}

pub open spec fn worked_to(
    before: CableWorker,
    after: CableWorker,
    turn: WorkTurn,
    t: WorkTurnV,
) -> bool {
    &&& after.gw == before.gw
    &&& after.stage.deep_view() == t.stage
    &&& turn.out.deep_view() == t.out
    &&& turn.step.deep_view() == t.step
}

fn told(m: CableMsg) -> (r: Vec<CableMsg>)
    ensures
        r.deep_view() == seq![m.deep_view()],
{
    let mut v: Vec<CableMsg> = Vec::new();
    v.push(m);
    assert(v.deep_view() =~= seq![m.deep_view()]);
    v
}

/// The id of the worker's `n`th request: the response comes back as an event, and is told
/// apart from the dashboard's own.
pub fn cable_rpc_id(n: u64) -> (r: String)
    ensures
        r@ == "tui-cbl-"@ + dec(n as nat),
{
    cat2("tui-cbl-", dec_u64(n).as_str())
}

/// What is said where the gateway did not answer a request of the worker.
pub fn no_answer(op: &str) -> (r: String)
    ensures
        r@ == "gateway did not answer "@ + op@,
{
    cat2("gateway did not answer ", op)
}

/// A request of the worker that waits for its response.
#[derive(Debug, PartialEq)]
pub struct CableCall {
    pub id: String,
    pub op: String,
}

/// Whether a request of the worker is done.
#[derive(Debug, PartialEq)]
pub enum CallStep {
    Wait,
    Done(RpcResponse),
    Failed(String),
}

impl CableCall {
    /// The worker's `n`th request: what is sent, and the call that waits for it.
    pub fn new(n: u64, op: &str, params: RpcParams) -> (r: (CableCall, RpcRequest))
        ensures
            r.0.id@ == "tui-cbl-"@ + dec(n as nat) && r.0.op@ == op@,
            r.1.deep_view() == (RpcRequestV { id: r.0.id@, op: op@, params: params.deep_view() }),
    {
        let id = cable_rpc_id(n);
        let request = RpcRequest { id: id.as_str().to_owned(), op: op.to_owned(), params };
        (CableCall { id, op: op.to_owned() }, request)
    }

    /// Takes a response, or that none came in time. Only the one with the request's own id
    /// ends the wait: a late one for an abandoned worker is passed over.
    pub fn on(&self, rsp: Option<RpcResponse>) -> (step: CallStep)
        ensures
            match rsp {
                Some(a) => step == if a.id@ == self.id@ {
                    CallStep::Done(a)
                } else {
                    CallStep::Wait
                },
                None => step matches CallStep::Failed(e) && e@ == "gateway did not answer "@
                    + self.op@,
            },
    {
        match rsp {
            Some(a) => if same(a.id.as_str(), self.id.as_str()) {
                CallStep::Done(a)
            } else {
                CallStep::Wait
            },
            None => CallStep::Failed(no_answer(self.op.as_str())),
        }
    }
}

impl CableWorker {
    /// Starts to pair the node on `port`.
    pub fn start(port: &str, gw: GwParams) -> (r: (CableWorker, WorkTurn))
        ensures
            r.0.gw == gw && r.0.stage is Probing,
            r.1.out.deep_view() == seq![CableMsgV::Progress("probing "@ + port@ + "…"@)],
            r.1.step is Probe,
    {
        (
            CableWorker { gw, stage: WorkStage::Probing },
            WorkTurn {
                out: told(CableMsg::Progress(cat3("probing ", port, "…"))),
                step: WorkStep::Probe,
            },
        )
    }

    fn stop(&mut self, msg: CableMsg) -> (r: WorkTurn)
        ensures
            worked_to(*old(self), *final(self), r, work_ends(msg.deep_view())),
    {
        self.stage = WorkStage::Over;
        WorkTurn { out: told(msg), step: WorkStep::Stop }
    }

    fn fail(&mut self, e: String) -> (r: WorkTurn)
        ensures
            worked_to(*old(self), *final(self), r, work_fails(e@)),
    {
        self.stop(CableMsg::Failed(e))
    }

    /// The port of the node could not be opened.
    pub fn on_closed(&mut self, port: &str, e: &str) -> (r: WorkTurn)
        ensures
            worked_to(
                *old(self),
                *final(self),
                r,
                work_fails("open "@ + port@ + ": "@ + e@),
            ),
    {
        self.fail(cat4("open ", port, ": ", e))
    }

    /// Takes what the node says of itself; `key` is used where it is to be registered.
    pub fn on_described(&mut self, outcome: DescribeOutcome, key: Result<[u8; 16], String>) -> (r:
        WorkTurn)
        ensures
            worked_to(
                *old(self),
                *final(self),
                r,
                work_probed(outcome.deep_view(), minted(key)),
            ),
    {
        let info = match outcome {
            DescribeOutcome::Info(info) => info,
            DescribeOutcome::Refused(code) => {
                return self.fail(
                    cat3("role probe refused (code ", dec_u64(code as u64).as_str(), ")"),
                );
            },
            DescribeOutcome::Timeout { bad_version } => {
                return match bad_version {
                    Some(v) => self.fail(
                        cat3(
                            "protocol mismatch: device speaks v",
                            dec_u64(v as u64).as_str(),
                            " — rebuild/reflash",
                        ),
                    ),
                    None => self.fail("no answer — is this a v3 TOWER node?".to_owned()),
                };
            },
        };
        if info.role != DeviceRole::Node {
            return self.fail(
                cat5(
                    "\"",
                    info.firmware_name.as_str(),
                    "\" is a ",
                    role_name(info.role),
                    ", not a node",
                ),
            );
        }
        let node = info.net_id;
        let mut out = told(
            CableMsg::Progress(
                node_found_text(node, info.firmware_name.as_str(), info.provisioned),
            ),
        );
        let ghost found = out.deep_view();
        match key {
            Err(_) => {
                push_deep(
                    &mut out,
                    CableMsg::Failed("no entropy source for the node key".to_owned()),
                );
                self.stage = WorkStage::Over;
                assert(out.deep_view() =~= work_probed(outcome.deep_view(), minted(key)).out);
                WorkTurn { out, step: WorkStep::Stop }
            },
            Ok(k) => {
                push_deep(&mut out, CableMsg::Progress("registering on the gateway…".to_owned()));
                assert(out.deep_view() =~= work_probed(outcome.deep_view(), minted(key)).out);
                let params = registration_of(node, &k, "");
                self.stage = WorkStage::Registering { node, key: k };
                WorkTurn { out, step: WorkStep::Rpc { op: "node_add".to_owned(), params } }
            },
        }
    }

    /// Takes what the node says of itself, with a fresh key.
    pub fn on_described_minting(&mut self, outcome: DescribeOutcome) -> (r: WorkTurn)
        ensures
            exists|key: Result<[u8; 16], String>|
                worked_to(
                    *old(self),
                    *final(self),
                    r,
                    #[trigger] work_probed(outcome.deep_view(), minted(key)),
                ),
    {
        let key = mint_key();
        self.on_described(outcome, key)
    }

    /// Takes an answer of the gateway.
    pub fn on_answer(&mut self, ok: bool, error: Option<String>) -> (r: WorkTurn)
        ensures
            worked_to(
                *old(self),
                *final(self),
                r,
                work_answered(old(self).gw, old(self).stage.deep_view(), ok, error),
            ),
    {
        let mut stage = WorkStage::Over;
        std::mem::swap(&mut self.stage, &mut stage);
        match stage {
            WorkStage::Registering { node, key: k } => if ok {
                let gw = self.gw;
                self.stage = WorkStage::Provisioning { node };
                WorkTurn {
                    out: told(CableMsg::Progress("provisioning the node…".to_owned())),
                    step: WorkStep::Provision(
                        MgmtOp::Provision {
                            gw_id: gw.addr,
                            key: k,
                            band: gw.band,
                            channel: gw.channel,
                        },
                    ),
                }
            } else {
                match error {
                    Some(e) => self.fail(e),
                    None => self.fail("gateway refused node_add".to_owned()),
                }
            },
            WorkStage::Undoing { reason } => self.fail(reason),
            _ => self.fail("unexpected gateway response".to_owned()),
        }
    }

    /// A request got no answer.
    pub fn on_error(&mut self, e: String) -> (r: WorkTurn)
        ensures
            worked_to(
                *old(self),
                *final(self),
                r,
                work_unanswered(old(self).stage.deep_view(), e@),
            ),
    {
        let mut stage = WorkStage::Over;
        std::mem::swap(&mut self.stage, &mut stage);
        match stage {
            WorkStage::Undoing { reason } => self.fail(reason),
            _ => self.fail(e),
        }
    }

    /// Takes the node's answer to its credentials.
    pub fn on_provisioned(&mut self, wire: &Wire, outcome: MgmtOutcome) -> (r: WorkTurn)
        ensures
            worked_to(
                *old(self),
                *final(self),
                r,
                work_installed(*wire, old(self).stage.deep_view(), outcome.deep_view()),
            ),
    {
        let node: u32 = match &self.stage {
            WorkStage::Provisioning { node } => *node,
            _ => {
                return self.fail("unexpected answer of the node".to_owned());
            },
        };
        if took_credentials(wire, &outcome) {
            self.stop(CableMsg::Done { addr: node })
        } else {
            self.stage = WorkStage::Undoing { reason: why_not(wire, &outcome, "registration") };
            let out: Vec<CableMsg> = Vec::new();
            assert(out.deep_view() =~= Seq::<CableMsgV>::empty());
            WorkTurn {
                out,
                step: WorkStep::Rpc {
                    op: "node_remove".to_owned(),
                    params: on_node_of(node_hex(node).as_str()),
                },
            }
        }
    }
}

// ---- laws --------------------------------------------------------------------------

/// No phantom peers: once the gateway has registered the node, the command ends either with
/// the node paired, or with the registration of that same node taken back; and it then
/// fails whatever the gateway answers to that.
pub proof fn law_no_phantom_peers(
    wire: Wire,
    name: Option<String>,
    gw_hex: Seq<char>,
    node: u32,
    gw: GwParams,
    key: Seq<u8>,
    registered: Answer,
    unused: Result<Seq<u8>, Seq<char>>,
    outcome: MgmtOutcomeV,
    undone: Answer,
    lost: ClientErrorV,
)
    requires
        registered.ok,
    ensures
        ({
            let t1 = pair_answered(
                name,
                gw_hex,
                PairStageV::Registering { node, gw, key },
                registered,
                unused,
            );
            let t2 = pair_installed(wire, name, t1.gw_hex, t1.stage, outcome);
            if took(wire, outcome) {
                t2.step == PairStepV::Exit(EXIT_OK)
            } else {
                &&& t2.step == PairStepV::Rpc {
                    op: "node_remove"@,
                    params: on_node(addr_text(node)),
                }
                &&& pair_answered(name, gw_hex, t2.stage, undone, unused).step is Failed
                &&& pair_unanswered(gw_hex, t2.stage, lost).step is Failed
            }
        }),
{
}

/// The same holds of the dashboard's worker.
pub proof fn law_no_phantom_peers_in_process(
    wire: Wire,
    gw: GwParams,
    node: u32,
    key: Seq<u8>,
    error: Option<String>,
    outcome: MgmtOutcomeV,
    ok: bool,
    lost: Seq<char>,
)
    ensures
        ({
            let t1 = work_answered(gw, WorkStageV::Registering { node, key }, true, error);
            let t2 = work_installed(wire, t1.stage, outcome);
            if took(wire, outcome) {
                t2.out == seq![CableMsgV::Done { addr: node }]
            } else {
                let reason = not_taken(wire, outcome, "registration"@);
                &&& t2.step == WorkStepV::Rpc {
                    op: "node_remove"@,
                    params: on_node(addr_text(node)),
                }
                &&& work_answered(gw, t2.stage, ok, error).out == seq![CableMsgV::Failed(reason)]
                &&& work_unanswered(t2.stage, lost).out == seq![CableMsgV::Failed(reason)]
            }
        }),
{
}

/// The gateway and the node are given the same key, and the node the network that the
/// gateway described.
pub proof fn law_both_sides_get_the_same_key(
    name: Option<String>,
    gw_hex: Seq<char>,
    node: u32,
    described: Answer,
    registered: Answer,
    key: Seq<u8>,
    unused: Result<Seq<u8>, Seq<char>>,
)
    requires
        described.ok && registered.ok,
        network(described.data) is Ok,
    ensures
        ({
            let t1 = pair_answered(
                name,
                gw_hex,
                PairStageV::Describing { node },
                described,
                Ok(key),
            );
            let t2 = pair_answered(name, t1.gw_hex, t1.stage, registered, unused);
            &&& t1.step == PairStepV::Rpc {
                op: "node_add"@,
                params: registration(node, key, name_or_none(name)),
            }
            &&& t2.step == PairStepV::Provision(
                credentials(network(described.data)->Ok_0.1, key),
            )
            &&& t2.stage == PairStageV::Provisioning { node }
        }),
{
}

/// Until the node has shown what it is and the gateway its network, neither is touched: no
/// failure up to then leaves anything to undo.
pub proof fn law_first_steps_touch_nothing(
    wire: Wire,
    port: Seq<char>,
    gw_hex: Seq<char>,
    outcome: DescribeOutcomeV,
)
    ensures
        match pair_probed(wire, port, gw_hex, outcome).step {
            PairStepV::Exit(code) => code != EXIT_OK,
            PairStepV::Rpc { op, params } => op == "describe"@ && params == no_params(),
            _ => false,
        },
{
}

} // verus!

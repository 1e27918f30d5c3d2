//! What the client commands report, and how a node is paired over its cable, said of the
//! answers and of the texts themselves.

use crate::cable::{
    network, pair_answered, pair_installed, pair_probed, pair_unanswered, paired_to, work_answered,
    work_installed, work_probed, work_unanswered, worked_to, CableMsgV, CablePair, CableWorker,
    GwParams, PairStageV, PairStepV, PairTurn, PairTurnV, WorkStageV, WorkStepV, WorkTurn, WorkTurnV,
};
use crate::client::{
    broker_error, dec_value, error_text, failure_note, host_port, law_host_and_port,
    lemma_first_named, lemma_last_index, named, resolved, rpc_step, Answer, ClientErrorV, Reply,
    RpcEvent, RpcStep,
};
use crate::gate::{gate_decision, gate_notes, probe_notes, probe_step, GateDecisionV, Probe};
use crate::mgmt::{DescribeOutcomeV, DeviceInfoV, MgmtOpV, MgmtOutcomeV};
use crate::net::{report, state_lines, stats_lines, status_refusal};
use crate::nodes::{chunk_taken, is_for, shell_sent, ShellWatch};
use crate::nodes_laws::{just_node, nothing};
use crate::payload::{NodeV, RpcParamsV, ShellRsp, Stats, Status};
use crate::port::{attach_steps, likely_names, picked, LineStep, ListedPortV};
use crate::render::{banner, EmitV};
use crate::text::{dec, dec_int, hex_bytes, join, occurs};
use crate::topics::{addr_of, addr_text};
use crate::wire::{mgmt_error, role, role_text, tx_outcome, DeviceRole, Wire};
use vstd::prelude::*;

verus! {

// ---- codes and what they mean ------------------------------------------------------

/// The wire codes are told apart.
pub open spec fn distinct_codes(w: Wire) -> bool {
    let m = seq![
        w.mgmt_ok,
        w.mgmt_unsupported,
        w.mgmt_bad_arg,
        w.mgmt_not_found,
        w.mgmt_full,
        w.mgmt_busy,
        w.mgmt_storage,
        w.mgmt_timeout,
    ];
    let t = seq![w.tx_delivered, w.tx_not_delivered, w.tx_busy, w.tx_duty_limited, w.tx_expired];
    &&& forall|i: int, j: int| 0 <= i < j < 8 ==> #[trigger] m[i] != #[trigger] m[j]
    &&& forall|i: int, j: int| 0 <= i < j < 5 ==> #[trigger] t[i] != #[trigger] t[j]
}

/// Every code of a reply has its text; only success has none.
pub proof fn law_codes_have_their_texts(w: Wire, code: u8)
    requires
        distinct_codes(w),
    ensures
        mgmt_error(w, w.mgmt_ok) is None,
        mgmt_error(w, w.mgmt_unsupported) == Some("operation not supported by this device"@),
        mgmt_error(w, w.mgmt_bad_arg) == Some("invalid argument"@),
        mgmt_error(w, w.mgmt_not_found) == Some("not found"@),
        mgmt_error(w, w.mgmt_full) == Some("capacity exhausted"@),
        mgmt_error(w, w.mgmt_busy) == Some("busy (conflicting operation in flight)"@),
        mgmt_error(w, w.mgmt_storage) == Some("device storage error"@),
        mgmt_error(w, w.mgmt_timeout) == Some("window expired"@),
        mgmt_error(w, code) is None <==> code == w.mgmt_ok,
        tx_outcome(w, w.tx_delivered) == "delivered"@,
        tx_outcome(w, w.tx_not_delivered) == "not-delivered"@,
        tx_outcome(w, w.tx_busy) == "busy"@,
        tx_outcome(w, w.tx_duty_limited) == "duty-limited"@,
        tx_outcome(w, w.tx_expired) == "expired"@,
{
    let m = seq![
        w.mgmt_ok,
        w.mgmt_unsupported,
        w.mgmt_bad_arg,
        w.mgmt_not_found,
        w.mgmt_full,
        w.mgmt_busy,
        w.mgmt_storage,
        w.mgmt_timeout,
    ];
    let t = seq![w.tx_delivered, w.tx_not_delivered, w.tx_busy, w.tx_duty_limited, w.tx_expired];
    assert(m[0] != m[1] && m[0] != m[2] && m[0] != m[3] && m[0] != m[4] && m[0] != m[5]);
    assert(m[0] != m[6] && m[0] != m[7] && m[1] != m[2] && m[1] != m[3] && m[1] != m[4]);
    assert(m[1] != m[5] && m[1] != m[6] && m[1] != m[7] && m[2] != m[3] && m[2] != m[4]);
    assert(m[2] != m[5] && m[2] != m[6] && m[2] != m[7] && m[3] != m[4] && m[3] != m[5]);
    assert(m[3] != m[6] && m[3] != m[7] && m[4] != m[5] && m[4] != m[6] && m[4] != m[7]);
    assert(m[5] != m[6] && m[5] != m[7] && m[6] != m[7]);
    assert(t[0] != t[1] && t[0] != t[2] && t[0] != t[3] && t[0] != t[4] && t[1] != t[2]);
    assert(t[1] != t[3] && t[1] != t[4] && t[2] != t[3] && t[2] != t[4] && t[3] != t[4]);
}

/// Roles go by their codes and names.
pub proof fn law_roles(w: Wire, code: u32)
    requires
        w.role_gateway != w.role_node && w.role_gateway != w.role_other && w.role_node
            != w.role_other,
    ensures
        role(w, w.role_gateway) == Some(DeviceRole::Gateway),
        role(w, w.role_node) == Some(DeviceRole::Node),
        role(w, w.role_other) == Some(DeviceRole::Other),
        role(w, code) is Some ==> code == w.role_gateway || code == w.role_node || code
            == w.role_other,
        role_text(DeviceRole::Gateway) == "Gateway"@,
        role_text(DeviceRole::Node) == "Node"@,
        role_text(DeviceRole::Other) == "Other"@,
{
}

/// What a failure of a client command says.
pub proof fn law_failures_are_told(e: Seq<char>, host: Seq<char>, port: u16)
    ensures
        failure_note(ClientErrorV::Failed(e)) == EmitV::Note("[tower] error: "@ + e),
        failure_note(ClientErrorV::Timeout) == EmitV::Note(
            "[tower] error: "@
                + "no gateway response (is `tower gateway` running against this broker?)"@,
        ),
        error_text(ClientErrorV::TimeoutIn(e)) == e + ": "@
            + "no gateway response (is `tower gateway` running against this broker?)"@,
        broker_error(host, port, e) == "broker "@ + host + ":"@ + dec(port as nat) + ": "@ + e,
{
}

/// A name stands for the first node that has it and a proper address; an unknown one is told
/// together with all that are known.
pub proof fn law_names_are_resolved(nodes: Seq<NodeV>, arg: Seq<char>, i: int, a: u32)
    requires
        0 <= i <= nodes.len(),
        forall|j: int|
            0 <= j < i ==> (#[trigger] nodes[j]).name != arg || addr_of(nodes[j].id) is None,
        i < nodes.len() ==> nodes[i].name == arg && addr_of(nodes[i].id) == Some(a),
    ensures
        i < nodes.len() ==> resolved(nodes, arg) == Ok::<u32, Seq<char>>(a),
        i == nodes.len() ==> resolved(nodes, arg) == Err::<u32, Seq<char>>(
            "no node named \""@ + arg + "\" (known: "@ + join(
                Seq::new(
                    nodes.len(),
                    |k: int|
                        if nodes[k].name.len() == 0 {
                            nodes[k].id
                        } else {
                            nodes[k].name
                        },
                ),
                ", "@,
            ) + ")"@,
        ),
{
    assert forall|j: int| 0 <= j < i implies !named(#[trigger] nodes[j], arg) by {}
    lemma_first_named(nodes, arg, i);
    assert(Seq::new(nodes.len(), |k: int| crate::client::called(nodes[k])) =~= Seq::new(
        nodes.len(),
        |k: int|
            if nodes[k].name.len() == 0 {
                nodes[k].id
            } else {
                nodes[k].name
            },
    ));
}

// ---- the network -------------------------------------------------------------------

/// A gateway that was never there, and one of another schema, are told and exit with 1 and
/// 125; any other status is reported.
pub proof fn law_status_is_checked(prefix: Seq<char>, s: Status)
    ensures
        status_refusal(prefix, None) == Some(
            (
                EmitV::Note(
                    "[tower] no retained gateway status under \""@ + prefix
                        + "\" — no gateway has ever bridged to this broker"@,
                ),
                1u8,
            ),
        ),
        s.schema != 1 ==> status_refusal(prefix, Some(s)) == Some(
            (
                EmitV::Note(
                    "[tower] gateway publishes MQTT schema v"@ + dec(s.schema as nat)
                        + ", this build speaks v"@ + dec(1) + " — update one side"@,
                ),
                125u8,
            ),
        ),
        s.schema == 1 ==> status_refusal(prefix, Some(s)) is None,
{
}

/// The report says what the gateway is and whether it is there, the versions, and the numbers
/// of the network as far as they are known.
pub proof fn law_status_is_reported(s: Status, stats: Option<Stats>)
    ensures
        state_lines(s).len() == if s.state@ == "offline"@ {
            1int
        } else {
            2
        },
        s.state@ == "offline"@ ==> state_lines(s)[0] == EmitV::Line(
            "state:    offline (the gateway's last-will fired — the bridge process is gone)"@,
        ),
        s.state@ != "offline"@ ==> state_lines(s)[0] == EmitV::Line(
            "gateway:  "@ + s.gateway@ + " ("@ + s.firmware@ + " "@ + s.firmware_version@ + ")"@,
        ),
        s.state@ != "offline"@ ==> state_lines(s)[1] == EmitV::Line(
            "state:    "@ + s.state@ + " (serial "@ + (if s.serial_up {
                "up"@
            } else {
                "DOWN"@
            }) + " on "@ + s.serial_port@ + ")"@,
        ),
        stats is None ==> stats_lines(stats).len() == 0,
        stats matches Some(t) ==> {
            &&& stats_lines(stats)[0] == EmitV::Line(
                "network:  "@ + dec(t.nodes as nat) + " node(s), "@ + dec(t.uplinks as nat)
                    + " uplink(s), "@ + dec(t.queued as nat) + " queued downlink(s)"@,
            )
            &&& match (t.rssi_dbm, t.channel) {
                (Some(dbm), Some(ch)) => stats_lines(stats).len() == 2 && stats_lines(stats)[1]
                    == EmitV::Line(
                    "radio:    ch "@ + dec(ch as nat) + " ambient "@ + dec_int(dbm as int) + " dBm"@,
                ),
                _ => stats_lines(stats).len() == 1,
            }
        },
        report(s, stats) == state_lines(s) + seq![
            EmitV::Line(
                "protocol: v"@ + dec(s.protocol as nat) + " · mqtt schema v"@ + dec(s.schema as nat),
            ),
        ] + stats_lines(stats),
{
}

// ---- which port --------------------------------------------------------------------

/// The port that was asked for is taken; otherwise the only one there is. None and several
/// are told apart.
pub proof fn law_ports_are_picked(explicit: Seq<char>, ports: Seq<Seq<char>>)
    ensures
        picked(Some(explicit), ports) == Ok::<Seq<char>, Seq<char>>(explicit),
        ports.len() == 1 ==> picked(None, ports) == Ok::<Seq<char>, Seq<char>>(ports[0]),
        ports.len() == 0 ==> picked(None, ports) == Err::<Seq<char>, Seq<char>>(
            "no USB serial device found; pass --device"@,
        ),
        ports.len() > 1 ==> picked(None, ports) == Err::<Seq<char>, Seq<char>>(
            "multiple USB serial devices; pass --device (one of: "@ + join(ports, ", "@) + ")"@,
        ),
{
}

/// A device is looked for on USB ports and on those that are named like one, in their order;
/// no other port is.
pub proof fn law_ports_are_looked_through(ports: Seq<ListedPortV>, k: nat)
    requires
        k < ports.len(),
    ensures
        likely_names(ports, 0).len() == 0,
        ports[k as int].usb || occurs(ports[k as int].name, "usbserial"@) || occurs(
            ports[k as int].name,
            "ttyUSB"@,
        ) || occurs(ports[k as int].name, "ttyACM"@) ==> likely_names(ports, k + 1) == likely_names(
            ports,
            k,
        ).push(ports[k as int].name),
        !(ports[k as int].usb || occurs(ports[k as int].name, "usbserial"@) || occurs(
            ports[k as int].name,
            "ttyUSB"@,
        ) || occurs(ports[k as int].name, "ttyACM"@)) ==> likely_names(ports, k + 1)
            == likely_names(ports, k),
{
}

/// With a reset the device is held in reset for a moment, and what came before is dropped;
/// without one it is left running, and what came before is dropped.
pub proof fn law_opening_a_console()
    ensures
        attach_steps(true) == seq![
            LineStep::Rts(true),
            LineStep::Dtr(true),
            LineStep::RunSettle,
            LineStep::Rts(true),
            LineStep::Dtr(false),
            LineStep::ResetPulse,
            LineStep::ClearInput,
            LineStep::Rts(false),
            LineStep::NoteReset,
        ],
        attach_steps(false) == seq![
            LineStep::Rts(true),
            LineStep::Dtr(true),
            LineStep::RunSettle,
            LineStep::ClearInput,
        ],
{
    assert(attach_steps(true) =~= seq![
        LineStep::Rts(true),
        LineStep::Dtr(true),
        LineStep::RunSettle,
        LineStep::Rts(true),
        LineStep::Dtr(false),
        LineStep::ResetPulse,
        LineStep::ClearInput,
        LineStep::Rts(false),
        LineStep::NoteReset,
    ]);
    assert(attach_steps(false) =~= seq![
        LineStep::Rts(true),
        LineStep::Dtr(true),
        LineStep::RunSettle,
        LineStep::ClearInput,
    ]);
}

// ---- who is let in -----------------------------------------------------------------

/// A gateway is let in without a word; another role and a refusal exit with 126, another
/// protocol version with 125, each with its reason; silence is tried once more and then exits
/// with 124.
pub proof fn law_the_gate(wire: Wire, port: Seq<char>, i: DeviceInfoV, code: u8, v: u8)
    ensures
        ({
            let info = DescribeOutcomeV::Info(i);
            let refused = DescribeOutcomeV::Refused(code);
            let other = DescribeOutcomeV::Timeout { bad_version: Some(v) };
            let mute = DescribeOutcomeV::Timeout { bad_version: None };
            &&& i.role == DeviceRole::Gateway ==> gate_decision(info) == GateDecisionV::Accept(i)
                && gate_notes(wire, port, info).len() == 0
            &&& i.role != DeviceRole::Gateway ==> gate_decision(info) == GateDecisionV::Reject(126)
                && gate_notes(wire, port, info) == seq![
                EmitV::Note(
                    "[tower] "@ + port + " runs \""@ + i.firmware_name + "\" (role "@ + role_text(
                        i.role,
                    ) + "), not the gateway firmware — flash apps/radio_dongle_gateway first"@,
                ),
            ]
            &&& gate_decision(refused) == GateDecisionV::Reject(126)
            &&& gate_notes(wire, port, refused) == seq![
                EmitV::Note(
                    "[tower] "@ + port + ": device refused the role probe (code "@ + dec(code as nat)
                        + ")"@,
                ),
            ]
            &&& gate_decision(other) == GateDecisionV::Reject(125)
            &&& gate_notes(wire, port, other) == banner(wire, v)
            &&& probe_step(Probe { mute: 0 }, mute) == GateDecisionV::Retry
            &&& probe_step(Probe { mute: 1 }, mute) == GateDecisionV::Reject(124)
            &&& probe_notes(wire, port, Probe { mute: 0 }, mute).len() == 0
            &&& probe_notes(wire, port, Probe { mute: 1 }, mute) == seq![
                EmitV::Note(
                    "[tower] "@ + port
                        + ": no answer to the management probe — not a gateway (or pre-v3 firmware)?"@,
                ),
            ]
            &&& forall|n: u16| #[trigger]
                probe_step(Probe { mute: n }, info) == gate_decision(info)
        }),
{
}

// ---- pairing over the cable --------------------------------------------------------

/// What a node is registered with: its address, the fresh key in hexadecimal, its name, and
/// that it sleeps.
pub open spec fn registers(p: RpcParamsV, node: u32, key: Seq<u8>, name: Seq<char>) -> bool {
    p == RpcParamsV {
        id: Some(addr_text(node)),
        key: Some(hex_bytes(key)),
        name: Some(name),
        sleeping: Some(true),
        ..nothing()
    }
}

/// Only a node is paired: it is told, and the gateway is asked for its network. Anything else
/// exits with 126, another protocol version with 125, and silence with 124.
pub proof fn law_pairing_probes_the_node(
    wire: Wire,
    port: Seq<char>,
    gw_hex: Seq<char>,
    i: DeviceInfoV,
    code: u8,
    v: u8,
)
    ensures
        ({
            let t = pair_probed(wire, port, gw_hex, DescribeOutcomeV::Info(i));
            let r = pair_probed(wire, port, gw_hex, DescribeOutcomeV::Refused(code));
            let o = pair_probed(
                wire,
                port,
                gw_hex,
                DescribeOutcomeV::Timeout { bad_version: Some(v) },
            );
            let m = pair_probed(wire, port, gw_hex, DescribeOutcomeV::Timeout { bad_version: None });
            &&& if i.role == DeviceRole::Node {
                &&& t.stage == PairStageV::Describing { node: i.net_id }
                &&& t.step == PairStepV::Rpc { op: "describe"@, params: nothing() }
                &&& t.out == seq![
                    EmitV::Note(
                        "[tower] "@ + ("node "@ + addr_text(i.net_id) + " (\""@ + i.firmware_name
                            + "\")"@ + (if i.provisioned {
                            " — already provisioned, re-pairing"@
                        } else {
                            ""@
                        })),
                    ),
                ]
            } else {
                &&& t.step == PairStepV::Exit(126) && t.stage == PairStageV::Over
                &&& t.out == seq![
                    EmitV::Note(
                        "[tower] "@ + port + " runs \""@ + i.firmware_name + "\" (role "@
                            + role_text(i.role)
                            + ") — that's not a node; use the gateway's own port with `tower gateway`"@,
                    ),
                ]
            }
            &&& r.step == PairStepV::Exit(126) && r.out == seq![
                EmitV::Note(
                    "[tower] "@ + port + ": refused the role probe (code "@ + dec(code as nat) + ")"@,
                ),
            ]
            &&& o.step == PairStepV::Exit(125) && o.out == banner(wire, v)
            &&& m.step == PairStepV::Exit(124) && m.out == seq![
                EmitV::Note("[tower] "@ + port + ": no answer — is this a v3 TOWER node?"@),
            ]
        }),
{
}

/// The gateway is told of the node with a fresh key; once it knows, the node is given the
/// gateway's address, band and channel and that same key. A refusal ends the pairing.
pub proof fn law_pairing_registers_and_provisions(
    name: Option<String>,
    gw_hex: Seq<char>,
    node: u32,
    a: Answer,
    hex: String,
    addr: u32,
    band: u8,
    channel: u8,
    key: Seq<u8>,
    gw: GwParams,
    minted: Result<Seq<u8>, Seq<char>>,
)
    requires
        a.ok,
        addr_of(hex@) == Some(addr),
        a.data == (Reply::Gateway {
            gateway: Some(hex),
            band: Some(band as u64),
            channel: Some(channel as u64),
        }),
    ensures
        ({
            let t = pair_answered(name, gw_hex, PairStageV::Describing { node }, a, Ok(key));
            let u = pair_answered(
                name,
                gw_hex,
                PairStageV::Registering { node, gw, key },
                a,
                minted,
            );
            &&& t.stage == PairStageV::Registering { node, gw: GwParams { addr, band, channel }, key }
            &&& t.gw_hex == hex@
            &&& t.step matches PairStepV::Rpc { op, params } && op == "node_add"@ && registers(
                params,
                node,
                key,
                match name {
                    Some(n) => n@,
                    None => ""@,
                },
            )
            &&& u.stage == PairStageV::Provisioning { node } && u.gw_hex == gw_hex
            &&& u.step == PairStepV::Provision(
                MgmtOpV::Provision {
                    gw_id: gw.addr,
                    key,
                    band: gw.band,
                    channel: gw.channel,
                },
            )
        }),
{
}

/// A refusal of the gateway ends the pairing with what it said; so does a key that could not
/// be made.
pub proof fn law_pairing_is_refused(
    name: Option<String>,
    gw_hex: Seq<char>,
    node: u32,
    a: Answer,
    gw: GwParams,
    key: Seq<u8>,
    minted: Result<Seq<u8>, Seq<char>>,
)
    requires
        !a.ok,
    ensures
        ({
            let said = match a.error {
                Some(e) => e@,
                None => "gateway refused"@,
            };
            let t = pair_answered(name, gw_hex, PairStageV::Describing { node }, a, minted);
            let u = pair_answered(
                name,
                gw_hex,
                PairStageV::Registering { node, gw, key },
                a,
                minted,
            );
            &&& t.step == PairStepV::Failed(ClientErrorV::Failed(said))
            &&& u.step == PairStepV::Failed(
                ClientErrorV::Failed("registering the node on the gateway: "@ + said),
            )
            &&& t.out.len() == 0 && u.out.len() == 0
        }),
{
}

/// A node that took its credentials is paired, and that is told; one that did not is taken
/// off the gateway again, and then the pairing fails with the reason.
pub proof fn law_pairing_ends(
    wire: Wire,
    name: Option<String>,
    gw_hex: Seq<char>,
    node: u32,
    outcome: MgmtOutcomeV,
    a: Answer,
    minted: Result<Seq<u8>, Seq<char>>,
    e: ClientErrorV,
    reason: Seq<char>,
)
    ensures
        ({
            let t = pair_installed(wire, name, gw_hex, PairStageV::Provisioning { node }, outcome);
            let took = outcome matches MgmtOutcomeV::Reply { result, .. } && result == wire.mgmt_ok;
            &&& took ==> t.step == PairStepV::Exit(0) && t.stage == PairStageV::Over && t.out == seq![
                EmitV::Line(
                    "paired "@ + addr_text(node) + " → gateway "@ + gw_hex + (match name {
                        Some(n) => " as \""@ + n@ + "\""@,
                        None => ""@,
                    }),
                ),
                EmitV::Note("[tower] node is rebooting into its new identity"@),
            ]
            &&& !took ==> t.step == PairStepV::Rpc {
                op: "node_remove"@,
                params: just_node(addr_text(node)),
            } && t.out.len() == 0 && t.stage == PairStageV::Undoing {
                reason: match outcome {
                    MgmtOutcomeV::Reply { result, .. } => "node refused provisioning ("@ + (
                    match mgmt_error(wire, result) {
                        Some(x) => x,
                        None => "unknown"@,
                    }) + ") — "@ + "gateway registration"@ + " rolled back"@,
                    MgmtOutcomeV::Timeout { .. } => "node did not ack provisioning — "@
                        + "gateway registration"@ + " rolled back"@,
                },
            }
            &&& pair_answered(name, gw_hex, PairStageV::Undoing { reason }, a, minted).step
                == PairStepV::Failed(ClientErrorV::Failed(reason))
            &&& pair_unanswered(gw_hex, PairStageV::Undoing { reason }, e).step == PairStepV::Failed(
                ClientErrorV::Failed(reason),
            )
        }),
{
}

/// The dashboard pairs in the same way: only a node, with a fresh key and no name, and that
/// same key for both sides.
pub proof fn law_the_worker_pairs(
    wire: Wire,
    gw: GwParams,
    i: DeviceInfoV,
    key: Seq<u8>,
    node: u32,
    error: Option<String>,
    outcome: MgmtOutcomeV,
)
    ensures
        ({
            let t = work_probed(DescribeOutcomeV::Info(i), Ok(key));
            let u = work_answered(gw, WorkStageV::Registering { node, key }, true, error);
            let r = work_answered(gw, WorkStageV::Registering { node, key }, false, error);
            let v = work_installed(wire, WorkStageV::Provisioning { node }, outcome);
            let took = outcome matches MgmtOutcomeV::Reply { result, .. } && result == wire.mgmt_ok;
            &&& i.role == DeviceRole::Node ==> {
                &&& t.stage == WorkStageV::Registering { node: i.net_id, key }
                &&& t.step matches WorkStepV::Rpc { op, params } && op == "node_add"@ && registers(
                    params,
                    i.net_id,
                    key,
                    ""@,
                )
                &&& t.out.last() == CableMsgV::Progress("registering on the gateway…"@)
            }
            &&& i.role != DeviceRole::Node ==> t.step == WorkStepV::Stop && t.out == seq![
                CableMsgV::Failed(
                    "\""@ + i.firmware_name + "\" is a "@ + role_text(i.role) + ", not a node"@,
                ),
            ]
            &&& u.stage == WorkStageV::Provisioning { node }
            &&& u.out == seq![CableMsgV::Progress("provisioning the node…"@)]
            &&& u.step == WorkStepV::Provision(
                MgmtOpV::Provision { gw_id: gw.addr, key, band: gw.band, channel: gw.channel },
            )
            &&& r.step == WorkStepV::Stop && r.out == seq![
                CableMsgV::Failed(
                    match error {
                        Some(e) => e@,
                        None => "gateway refused node_add"@,
                    },
                ),
            ]
            &&& took ==> v.step == WorkStepV::Stop && v.out == seq![CableMsgV::Done { addr: node }]
            &&& !took ==> v.out.len() == 0 && v.step == WorkStepV::Rpc {
                op: "node_remove"@,
                params: just_node(addr_text(node)),
            }
        }),
{
}

/// What kept the dashboard from pairing is told, once; a rollback changes nothing of it.
pub proof fn law_the_worker_fails(
    gw: GwParams,
    code: u8,
    v: u8,
    key: Result<Seq<u8>, Seq<char>>,
    reason: Seq<char>,
    ok: bool,
    error: Option<String>,
    e: Seq<char>,
    node: u32,
    k: Seq<u8>,
)
    ensures
        ({
            let failed = |t: WorkTurnV, text: Seq<char>|
                t.step == WorkStepV::Stop && t.out == seq![CableMsgV::Failed(text)];
            &&& failed(
                work_probed(DescribeOutcomeV::Refused(code), key),
                "role probe refused (code "@ + dec(code as nat) + ")"@,
            )
            &&& failed(
                work_probed(DescribeOutcomeV::Timeout { bad_version: Some(v) }, key),
                "protocol mismatch: device speaks v"@ + dec(v as nat) + " — rebuild/reflash"@,
            )
            &&& failed(
                work_probed(DescribeOutcomeV::Timeout { bad_version: None }, key),
                "no answer — is this a v3 TOWER node?"@,
            )
            &&& failed(work_answered(gw, WorkStageV::Undoing { reason }, ok, error), reason)
            &&& failed(work_unanswered(WorkStageV::Undoing { reason }, e), reason)
            &&& failed(work_unanswered(WorkStageV::Registering { node, key: k }, e), e)
        }),
{
}

/// A turn of either pairing says what it leads to.
pub proof fn law_pairing_turns_are_taken(
    a: CablePair,
    b: CablePair,
    turn: PairTurn,
    t: PairTurnV,
    c: CableWorker,
    d: CableWorker,
    work: WorkTurn,
    v: WorkTurnV,
)
    ensures
        paired_to(a, b, turn, t) ==> turn.out.deep_view() == t.out && turn.step.deep_view() == t.step
            && b.stage.deep_view() == t.stage && b.gw_hex@ == t.gw_hex && b.port == a.port && b.name
            == a.name,
        worked_to(c, d, work, v) ==> work.out.deep_view() == v.out && work.step.deep_view() == v.step
            && d.stage.deep_view() == v.stage && d.gw == c.gw,
{
}

// ---- the remote shell --------------------------------------------------------------

/// A chunk of a remote answer is written as it is, and a lost one is told and not forgotten;
/// the last one ends the command with the device's result, or with 1 where a chunk was lost.
/// An error of the gateway is told and exits with 1.
pub proof fn law_remote_answers_are_written(result: u8, rsp: ShellRsp)
    ensures
        ({
            let (now, out, code) = chunk_taken(result, rsp);
            match rsp.error {
                Some(e) => out == seq![EmitV::Note("[tower] "@ + e@)] && code == Some(1u8),
                None => {
                    &&& out[0] == EmitV::Text(rsp.text@)
                    &&& out.len() == if rsp.truncated {
                        2int
                    } else {
                        1
                    }
                    &&& rsp.truncated ==> out[1] == EmitV::Note(
                        "[tower] response truncated (chunk lost over the air)"@,
                    )
                    &&& now == if rsp.truncated && result == 0 {
                        1
                    } else {
                        result
                    }
                    &&& !rsp.done ==> code is None
                    &&& rsp.done && result == 0 && !rsp.truncated && rsp.result <= 123 ==> code
                        == Some(rsp.result)
                    &&& rsp.done && rsp.result > 123 ==> code == Some(123u8)
                    &&& rsp.done && rsp.result == 0 && (rsp.truncated || result == 1) && result <= 1
                        ==> code == Some(1u8)
                },
            }
        }),
{
}

/// A line that is not waited for says where its reply will be.
pub proof fn law_remote_lines_are_told(prefix: Seq<char>, node: u32)
    ensures
        shell_sent(prefix, node, true) == seq![
            EmitV::Line(
                "queued for "@ + addr_text(node) + " (reply will publish on "@ + (prefix + "nodes/"@
                    + addr_text(node) + "/shell/rsp"@) + ")"@,
            ),
        ],
        shell_sent(prefix, node, false) == seq![
            EmitV::Note(
                "[tower] queued — waiting for the node to wake (Ctrl-C to stop waiting)…"@,
            ),
        ],
{
}

// ---- requests to the gateway -------------------------------------------------------

/// A request is done with the answer that has its id on its topic, and with nothing else; a
/// broker that is lost fails it with the reason, and silence with a timeout.
pub proof fn law_requests_are_awaited(
    id: Seq<char>,
    rsp_topic: Seq<char>,
    topic: String,
    a: Answer,
    e: String,
    step: RpcStep,
)
    ensures
        ({
            let on = |ev: RpcEvent| rpc_step(id, rsp_topic, ev, step);
            let mine = RpcEvent::Message { topic, answer: Some(a) };
            &&& topic@ == rsp_topic && a.id@ == id ==> (on(mine) <==> step == RpcStep::Done(a))
            &&& topic@ != rsp_topic || a.id@ != id ==> (on(mine) <==> step is Wait)
            &&& on(RpcEvent::Message { topic, answer: None }) <==> step is Wait
            &&& on(RpcEvent::Other) <==> step is Wait
            &&& on(RpcEvent::Lost(e)) ==> (step matches RpcStep::Failed(f) && f.deep_view()
                == ClientErrorV::Failed("broker connection lost: "@ + e@))
            &&& on(RpcEvent::Quiet) ==> (step matches RpcStep::Failed(f) && f is Timeout)
        }),
{
}

/// A chunk belongs to a line where it has its id and came on its topic.
pub proof fn law_chunks_belong_to_their_line(w: ShellWatch, topic: Seq<char>, rsp: ShellRsp)
    ensures
        is_for(w, topic, Some(rsp)) <==> topic == w.rsp_topic@ && rsp.id@ == w.req_id@,
        !is_for(w, topic, None),
{
}

/// A port that is no number belongs to the host, and one that is too large is the usual one.
pub proof fn law_ports_that_are_none(host: Seq<char>, port: Seq<char>)
    requires
        port.len() > 0,
        forall|i: int| 0 <= i < port.len() ==> #[trigger] port[i] != ':',
    ensures
        !(forall|i: int| 0 <= i < port.len() ==> '0' <= #[trigger] port[i] <= '9') ==> host_port(
            host + ":"@ + port,
        ) == (host + ":"@ + port, 1883u16),
        (forall|i: int| 0 <= i < port.len() ==> '0' <= #[trigger] port[i] <= '9') && dec_value(port)
            > 65535 ==> host_port(host + ":"@ + port) == (host, 1883u16),
        (forall|i: int| 0 <= i < port.len() ==> '0' <= #[trigger] port[i] <= '9') && dec_value(port)
            <= 65535 ==> host_port(host + ":"@ + port) == (host, dec_value(port) as u16),
        host_port(port) == (port, 1883u16),
{
    law_host_and_port(host, port);
    reveal_strlit(":");
    let s = host + ":"@ + port;
    assert forall|j: int| host.len() < j < s.len() implies s[j] != ':' by {
        assert(s[j] == port[j - host.len() - 1]);
    }
    lemma_last_index(s, ':', host.len() as int);
    assert(s.skip(host.len() as int + 1) =~= port);
    assert(s.take(host.len() as int) =~= host);
}

/// The network is read from the gateway's description: its address, and the lowest bytes of
/// band and channel; without a proper address the pairing fails.
pub proof fn law_networks_are_read(hex: String, band: Option<u64>, channel: Option<u64>, b: u64)
    ensures
        ({
            let read = |g: Option<String>| network(Reply::Gateway { gateway: g, band, channel });
            &&& addr_of(hex@) is None ==> read(Some(hex)) == Err::<(Seq<char>, GwParams), Seq<char>>(
                "gateway describe: bad id"@,
            )
            &&& read(None) == Err::<(Seq<char>, GwParams), Seq<char>>(
                "gateway describe: missing id"@,
            )
            &&& addr_of(hex@) matches Some(a) ==> (read(Some(hex)) matches Ok((h, gw)) && h == hex@
                && gw.addr == a && (band == Some(b) ==> gw.band == b % 256) && (channel == Some(b)
                ==> gw.channel == b % 256) && (band is None ==> gw.band == 0) && (channel is None
                ==> gw.channel == 0))
        }),
{
}

/// A pairing whose request is not answered fails with the reason; while the node is being
/// registered that is said too.
pub proof fn law_unanswered_pairings(
    gw_hex: Seq<char>,
    node: u32,
    gw: GwParams,
    key: Seq<u8>,
    t: Seq<char>,
    e: ClientErrorV,
)
    ensures
        pair_unanswered(gw_hex, PairStageV::Describing { node }, e).step == PairStepV::Failed(e),
        pair_unanswered(
            gw_hex,
            PairStageV::Registering { node, gw, key },
            ClientErrorV::Failed(t),
        ).step == PairStepV::Failed(
            ClientErrorV::Failed("registering the node on the gateway: "@ + t),
        ),
        pair_unanswered(
            gw_hex,
            PairStageV::Registering { node, gw, key },
            ClientErrorV::Timeout,
        ).step == PairStepV::Failed(
            ClientErrorV::TimeoutIn("registering the node on the gateway"@),
        ),
{
}

/// Without a key nothing is registered, and that is told; where the node does not take its
/// credentials, the reason is kept until the registration is undone.
pub proof fn law_the_worker_keeps_the_reason(
    wire: Wire,
    i: DeviceInfoV,
    e: Seq<char>,
    node: u32,
    result: u8,
    data: Seq<u8>,
    truncated: bool,
    v: Option<u8>,
)
    requires
        i.role == DeviceRole::Node,
    ensures
        ({
            let t = work_probed(DescribeOutcomeV::Info(i), Err(e));
            let at = WorkStageV::Provisioning { node };
            let said = match mgmt_error(wire, result) {
                Some(x) => x,
                None => "unknown"@,
            };
            &&& t.step == WorkStepV::Stop && t.out.last() == CableMsgV::Failed(
                "no entropy source for the node key"@,
            )
            &&& t.out[0] == CableMsgV::Progress(
                "node "@ + addr_text(i.net_id) + " (\""@ + i.firmware_name + "\")"@ + (
                if i.provisioned {
                    " — already provisioned, re-pairing"@
                } else {
                    ""@
                }),
            )
            &&& result != wire.mgmt_ok ==> work_installed(
                wire,
                at,
                MgmtOutcomeV::Reply { result, data, truncated },
            ).stage == (WorkStageV::Undoing {
                reason: "node refused provisioning ("@ + said + ") — "@ + "registration"@
                    + " rolled back"@,
            })
            &&& work_installed(wire, at, MgmtOutcomeV::Timeout { bad_version: v }).stage
                == (WorkStageV::Undoing {
                reason: "node did not ack provisioning — "@ + "registration"@ + " rolled back"@,
            })
        }),
{
}

} // verus!

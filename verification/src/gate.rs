//! Attaching to a gateway: the role probe before anything else starts, and what is said
//! where a device is refused.

use crate::commands::{EXIT_DEVICE_TIMEOUT, EXIT_PROTOCOL_MISMATCH, EXIT_WRONG_FIRMWARE};
use crate::mgmt::{DescribeOutcome, DescribeOutcomeV, DeviceInfo, DeviceInfoV};
use crate::render::{banner, warn_protocol_mismatch, Emit, EmitV};
use crate::text::{cat2, cat5, cat7, dec, dec_u64};
use crate::topics::{addr_text, node_hex};
use crate::wire::{role_name, role_text, DeviceRole, Wire};
use vstd::prelude::*;
use vstd::string::*;

verus! {

/// What one probe decides.
#[derive(Debug, PartialEq)]
pub enum GateDecision {
    /// A real gateway.
    Accept(DeviceInfo),
    /// Refused, with this exit code.
    Reject(u8),
    /// No answer yet: worth another attempt.
    Retry,
}

#[verifier::ext_equal]
pub enum GateDecisionV {
    Accept(DeviceInfoV),
    Reject(u8),
    Retry,
}

impl DeepView for GateDecision {
    type V = GateDecisionV;

    open spec fn deep_view(&self) -> GateDecisionV {
        match self {
            GateDecision::Accept(i) => GateDecisionV::Accept(i.deep_view()),
            GateDecision::Reject(c) => GateDecisionV::Reject(*c),
            GateDecision::Retry => GateDecisionV::Retry,
        }
    }
}

/// What a probe decides: only a gateway is let in.
pub open spec fn gate_decision(outcome: DescribeOutcomeV) -> GateDecisionV {
    match outcome {
        DescribeOutcomeV::Info(i) => if i.role == DeviceRole::Gateway {
            GateDecisionV::Accept(i)
        } else {
            GateDecisionV::Reject(EXIT_WRONG_FIRMWARE)
        },
        DescribeOutcomeV::Refused(_) => GateDecisionV::Reject(EXIT_WRONG_FIRMWARE),
        DescribeOutcomeV::Timeout { bad_version: Some(_) } => GateDecisionV::Reject(
            EXIT_PROTOCOL_MISMATCH,
        ),
        DescribeOutcomeV::Timeout { bad_version: None } => GateDecisionV::Retry,
    }
}

/// What is said of a probe.
pub open spec fn gate_notes(wire: Wire, port: Seq<char>, outcome: DescribeOutcomeV) -> Seq<EmitV> {
    match outcome {
        DescribeOutcomeV::Info(i) => if i.role == DeviceRole::Gateway {
            Seq::empty()
        } else {
            seq![
                EmitV::Note(
                    "[tower] "@ + port + " runs \""@ + i.firmware_name + "\" (role "@ + role_text(
                        i.role,
                    ) + "), not the gateway firmware — flash apps/radio_dongle_gateway first"@,
                ),
            ]
        },
        DescribeOutcomeV::Refused(code) => seq![
            EmitV::Note(
                "[tower] "@ + port + ": device refused the role probe (code "@ + dec(code as nat)
                    + ")"@,
            ),
        ],
        DescribeOutcomeV::Timeout { bad_version: Some(v) } => banner(wire, v),
        DescribeOutcomeV::Timeout { bad_version: None } => Seq::empty(),
    }
}

/// Decides on one probe of the device on `port`: another role, or a refused probe, is wrong
/// firmware; another version tag is a protocol mismatch; silence is worth a retry.
pub fn gate_describe(wire: &Wire, port: &str, outcome: DescribeOutcome) -> (r: (
    GateDecision,
    Vec<Emit>,
))
    ensures
        r.0.deep_view() == gate_decision(outcome.deep_view()),
        r.1.deep_view() == gate_notes(*wire, port@, outcome.deep_view()),
{
    let mut notes: Vec<Emit> = Vec::new();
    let ghost told = gate_notes(*wire, port@, outcome.deep_view());
    match outcome {
        DescribeOutcome::Info(info) => {
            if info.role == DeviceRole::Gateway {
                assert(notes.deep_view() =~= told);
                (GateDecision::Accept(info), notes)
            } else {
                notes.push(
                    Emit::Note(
                        cat7(
                            "[tower] ",
                            port,
                            " runs \"",
                            info.firmware_name.as_str(),
                            "\" (role ",
                            role_name(info.role),
                            "), not the gateway firmware — flash apps/radio_dongle_gateway first",
                        ),
                    ),
                );
                assert(notes.deep_view() =~= told);
                (GateDecision::Reject(EXIT_WRONG_FIRMWARE), notes)
            }
        },
        DescribeOutcome::Refused(code) => {
            notes.push(
                Emit::Note(
                    cat5(
                        "[tower] ",
                        port,
                        ": device refused the role probe (code ",
                        dec_u64(code as u64).as_str(),
                        ")",
                    ),
                ),
            );
            assert(notes.deep_view() =~= told);
            (GateDecision::Reject(EXIT_WRONG_FIRMWARE), notes)
        },
        DescribeOutcome::Timeout { bad_version } => match bad_version {
            Some(got) => (
                GateDecision::Reject(EXIT_PROTOCOL_MISMATCH),
                warn_protocol_mismatch(wire, got),
            ),
            None => {
                assert(notes.deep_view() =~= told);
                (GateDecision::Retry, notes)
            },
        },
    }
}

/// How often a device is probed: the first probe can fall into its boot.
pub const PROBES: u16 = 2;

/// How long one probe waits, in milliseconds.
pub const PROBE_MS: u64 = 4000;

/// How long a device that was just reset boots before it is probed, in milliseconds.
pub const BOOT_MS: u64 = 300;

/// The probing of one device.
#[derive(Debug, Clone, Copy, PartialEq, Eq, Structural)]
pub struct Probe {
    /// Probes that got no answer.
    pub mute: u16,
}

/// What the next outcome of a probe leads to.
pub open spec fn probe_step(p: Probe, outcome: DescribeOutcomeV) -> GateDecisionV {
    match gate_decision(outcome) {
        GateDecisionV::Retry => if p.mute + 1 < PROBES {
            GateDecisionV::Retry
        } else {
            GateDecisionV::Reject(EXIT_DEVICE_TIMEOUT)
        },
        d => d,
    }
}

/// What is said of the last silent probe.
pub open spec fn mute_note(port: Seq<char>) -> EmitV {
    EmitV::Note(
        "[tower] "@ + port
            + ": no answer to the management probe — not a gateway (or pre-v3 firmware)?"@,
    )
}

/// What is said of the next outcome of a probe.
pub open spec fn probe_notes(
    wire: Wire,
    port: Seq<char>,
    p: Probe,
    outcome: DescribeOutcomeV,
) -> Seq<EmitV> {
    if gate_decision(outcome) == GateDecisionV::Retry && p.mute + 1 >= PROBES {
        seq![mute_note(port)]
    } else {
        gate_notes(wire, port, outcome)
    }
}

impl Probe {
    pub fn new() -> (r: Probe)
        ensures
            r.mute == 0,
    {
        Probe { mute: 0 }
    }

    /// The request id of the next probe.
    pub fn req_id(&self) -> (r: u16)
        requires
            self.mute < PROBES,
        ensures
            r == 0x7000 + self.mute,
    {
        0x7000 + self.mute
    }

    /// Takes the outcome of a probe: a silent device is given up after the last one.
    pub fn verify_gateway(&mut self, wire: &Wire, port: &str, outcome: DescribeOutcome) -> (r: (
        GateDecision,
        Vec<Emit>,
    ))
        requires
            old(self).mute < PROBES,
        ensures
            r.0.deep_view() == probe_step(*old(self), outcome.deep_view()),
            r.1.deep_view() == probe_notes(*wire, port@, *old(self), outcome.deep_view()),
            final(self).mute == old(self).mute + if gate_decision(outcome.deep_view())
                == GateDecisionV::Retry {
                1int
            } else {
                0
            },
            r.0 is Retry ==> final(self).mute < PROBES,
    {
        let (decision, notes) = gate_describe(wire, port, outcome);
        match decision {
            GateDecision::Retry => {
                self.mute = self.mute + 1;
                if self.mute < PROBES {
                    (GateDecision::Retry, notes)
                } else {
                    let mut said: Vec<Emit> = Vec::new();
                    said.push(Emit::Note(silence(port)));
                    assert(said.deep_view() =~= seq![mute_note(port@)]);
                    (GateDecision::Reject(EXIT_DEVICE_TIMEOUT), said)
                }
            },
            d => (d, notes),
        }
    }
}

fn silence(port: &str) -> (r: String)
    ensures
        EmitV::Note(r@) == mute_note(port@),
{
    let head = cat2("[tower] ", port);
    cat2(
        head.as_str(),
        ": no answer to the management probe — not a gateway (or pre-v3 firmware)?",
    )
}

/// What is said once a gateway is attached.
pub fn attached_note(port: &str, info: &DeviceInfo) -> (r: String)
    ensures
        r@ == "[tower] gateway "@ + addr_text(info.net_id) + " on "@ + port@ + " ("@ + dec(
            info.node_count as nat,
        ) + " of "@ + dec(info.node_capacity as nat) + " node slots)"@,
{
    let addr = node_hex(info.net_id);
    let head = cat5("[tower] gateway ", addr.as_str(), " on ", port, " (");
    cat5(
        head.as_str(),
        dec_u64(info.node_count as u64).as_str(),
        " of ",
        dec_u64(info.node_capacity as u64).as_str(),
        " node slots)",
    )
}

/// The name under which a gateway connects to the broker.
pub fn client_id(info: &DeviceInfo) -> (r: String)
    ensures
        r@ == "tower-gateway-"@ + addr_text(info.net_id),
{
    let addr = node_hex(info.net_id);
    cat2("tower-gateway-", addr.as_str())
}

// ---- laws --------------------------------------------------------------------------

/// Only a device that says it is a gateway is attached to; every refusal has one of the
/// codes 124, 125 and 126, and a silent device is told apart from a wrong one.
pub proof fn law_only_gateways_pass(p: Probe, outcome: DescribeOutcomeV)
    ensures
        match probe_step(p, outcome) {
            GateDecisionV::Accept(i) => i.role == DeviceRole::Gateway
                && outcome == DescribeOutcomeV::Info(i),
            GateDecisionV::Reject(code) => {
                &&& code == EXIT_DEVICE_TIMEOUT <==> outcome == DescribeOutcomeV::Timeout {
                    bad_version: None,
                }
                &&& code == EXIT_PROTOCOL_MISMATCH <==> (outcome matches DescribeOutcomeV::Timeout {
                    bad_version: Some(_),
                })
                &&& code == EXIT_WRONG_FIRMWARE <==> !(outcome is Timeout)
            },
            GateDecisionV::Retry => outcome == DescribeOutcomeV::Timeout { bad_version: None },
        },
{
}

/// A device that stays silent is refused after the second probe.
pub proof fn law_silence_ends(first: DescribeOutcomeV, second: DescribeOutcomeV)
    requires
        first == (DescribeOutcomeV::Timeout { bad_version: None }),
        second == (DescribeOutcomeV::Timeout { bad_version: None }),
    ensures
        probe_step(Probe { mute: 0 }, first) == GateDecisionV::Retry,
        probe_step(Probe { mute: 1 }, second) == GateDecisionV::Reject(EXIT_DEVICE_TIMEOUT),
{
}

} // verus!

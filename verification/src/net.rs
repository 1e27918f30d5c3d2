//! `tower net`: the health of a gateway, read from its retained topics.

use crate::bridge::{up_str, up_text};
use crate::commands::{EXIT_ERROR, EXIT_OK, EXIT_PROTOCOL_MISMATCH};
use crate::payload::{Stats, Status, SCHEMA};
use crate::render::{Emit, EmitV};
use crate::text::{cat2, cat3, cat5, cat7, dec, dec_i64, dec_int, dec_u64, push_deep, same};
use vstd::prelude::*;
use vstd::string::*;

verus! {

/// Whether a retained status can be reported; otherwise why not, and the exit code.
pub open spec fn status_refusal(prefix: Seq<char>, status: Option<Status>) -> Option<(EmitV, u8)> {
    match status {
        None => Some(
            (
                EmitV::Note(
                    "[tower] no retained gateway status under \""@ + prefix
                        + "\" — no gateway has ever bridged to this broker"@,
                ),
                EXIT_ERROR,
            ),
        ),
        Some(s) => if s.schema != SCHEMA {
            Some(
                (
                    EmitV::Note(
                        "[tower] gateway publishes MQTT schema v"@ + dec(s.schema as nat)
                            + ", this build speaks v"@ + dec(SCHEMA as nat) + " — update one side"@,
                    ),
                    EXIT_PROTOCOL_MISMATCH,
                ),
            )
        } else {
            None
        },
    }
}

/// Whether a retained status can be reported: there must be one, of this schema.
pub fn check_status(prefix: &str, status: &Option<Status>) -> (r: Option<(Emit, u8)>)
    ensures
        match r {
            Some((e, code)) => status_refusal(prefix@, *status) == Some((e.deep_view(), code)),
            None => status_refusal(prefix@, *status) is None,
        },
{
    match status {
        None => Some(
            (
                Emit::Note(
                    cat3(
                        "[tower] no retained gateway status under \"",
                        prefix,
                        "\" — no gateway has ever bridged to this broker",
                    ),
                ),
                EXIT_ERROR,
            ),
        ),
        Some(s) => if s.schema != SCHEMA {
            Some(
                (
                    Emit::Note(
                        cat5(
                            "[tower] gateway publishes MQTT schema v",
                            dec_u64(s.schema as u64).as_str(),
                            ", this build speaks v",
                            dec_u64(SCHEMA as u64).as_str(),
                            " — update one side",
                        ),
                    ),
                    EXIT_PROTOCOL_MISMATCH,
                ),
            )
        } else {
            None
        },
    }
}

/// What is reported of the gateway. Once its last will fired, only that is known.
pub open spec fn state_lines(s: Status) -> Seq<EmitV> {
    if s.state@ == "offline"@ {
        seq![
            EmitV::Line(
                "state:    offline (the gateway's last-will fired — the bridge process is gone)"@,
            ),
        ]
    } else {
        seq![
            EmitV::Line(
                "gateway:  "@ + s.gateway@ + " ("@ + s.firmware@ + " "@ + s.firmware_version@ + ")"@,
            ),
            EmitV::Line(
                "state:    "@ + s.state@ + " (serial "@ + up_text(s.serial_up) + " on "@
                    + s.serial_port@ + ")"@,
            ),
        ]
    }
}

/// What is reported of the network.
pub open spec fn stats_lines(stats: Option<Stats>) -> Seq<EmitV> {
    match stats {
        Some(st) => {
            let network = EmitV::Line(
                "network:  "@ + dec(st.nodes as nat) + " node(s), "@ + dec(st.uplinks as nat)
                    + " uplink(s), "@ + dec(st.queued as nat) + " queued downlink(s)"@,
            );
            match (st.rssi_dbm, st.channel) {
                (Some(dbm), Some(ch)) => seq![
                    network,
                    EmitV::Line(
                        "radio:    ch "@ + dec(ch as nat) + " ambient "@ + dec_int(dbm as int)
                            + " dBm"@,
                    ),
                ],
                _ => seq![network],
            }
        },
        None => Seq::empty(),
    }
}

/// The whole report.
pub open spec fn report(s: Status, stats: Option<Stats>) -> Seq<EmitV> {
    state_lines(s) + seq![
        EmitV::Line(
            "protocol: v"@ + dec(s.protocol as nat) + " · mqtt schema v"@ + dec(s.schema as nat),
        ),
    ] + stats_lines(stats)
}

/// What is reported of a gateway.
pub fn status(s: &Status, stats: &Option<Stats>) -> (r: Vec<Emit>)
    ensures
        r.deep_view() == report(*s, *stats),
{
    let mut out: Vec<Emit> = Vec::new();
    if same(s.state.as_str(), "offline") {
        push_deep(
            &mut out,
            Emit::Line(
                "state:    offline (the gateway's last-will fired — the bridge process is gone)".to_owned(),
            ),
        );
    } else {
        push_deep(
            &mut out,
            Emit::Line(
                cat7(
                    "gateway:  ",
                    s.gateway.as_str(),
                    " (",
                    s.firmware.as_str(),
                    " ",
                    s.firmware_version.as_str(),
                    ")",
                ),
            ),
        );
        push_deep(
            &mut out,
            Emit::Line(
                cat7(
                    "state:    ",
                    s.state.as_str(),
                    " (serial ",
                    up_str(s.serial_up),
                    " on ",
                    s.serial_port.as_str(),
                    ")",
                ),
            ),
        );
    }
    assert(out.deep_view() =~= state_lines(*s));
    let head = cat2("protocol: v", dec_u64(s.protocol as u64).as_str());
    push_deep(
        &mut out,
        Emit::Line(
            cat3(head.as_str(), " · mqtt schema v", dec_u64(s.schema as u64).as_str()),
        ),
    );
    let ghost start = out.deep_view();
    if let Some(st) = stats {
        push_deep(
            &mut out,
            Emit::Line(
                cat7(
                    "network:  ",
                    dec_u64(st.nodes as u64).as_str(),
                    " node(s), ",
                    dec_u64(st.uplinks).as_str(),
                    " uplink(s), ",
                    dec_u64(st.queued as u64).as_str(),
                    " queued downlink(s)",
                ),
            ),
        );
        if let Some(dbm) = st.rssi_dbm {
            if let Some(ch) = st.channel {
                push_deep(
                    &mut out,
                    Emit::Line(
                        cat5(
                            "radio:    ch ",
                            dec_u64(ch as u64).as_str(),
                            " ambient ",
                            dec_i64(dbm as i64).as_str(),
                            " dBm",
                        ),
                    ),
                );
            }
        }
    }
    assert(out.deep_view() =~= start + stats_lines(*stats));
    assert(out.deep_view() =~= report(*s, *stats));
    out
}

/// The exit code of a report: scripts branch on whether the gateway is alive.
pub fn status_exit(s: &Status) -> (r: u8)
    ensures
        r == if s.state@ == "offline"@ {
            EXIT_ERROR
        } else {
            EXIT_OK
        },
{
    if same(s.state.as_str(), "offline") {
        EXIT_ERROR
    } else {
        EXIT_OK
    }
}

} // verus!

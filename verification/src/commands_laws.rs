//! What the local commands do with what a device sent, said of the texts, the codes and the
//! numbers themselves.

use crate::bridge::REOPEN_MS;
use crate::cable::{NODE_MS, PROBE_ID, PROVISION_ID};
use crate::client::{CONNECT_MS, RETAINED_MS};
use crate::commands::{
    attach, bar_after, bar_steps, candidate_lines, cmd_id_of, complete_verdict, device_code,
    exec_verdict, gate, monitored, offers, outcome_version, shell_shown, size_error, spaced_hex,
    stream_next, stream_resets, text_emits, tick_due, Attach, BarStepV, BootTicker, OfferV, Progress,
    StreamPlan, VerdictV, DEFAULT_TIMEOUT_MS, RECONNECT_MS,
};
use crate::frame::CandidateKind;
use crate::gate::{BOOT_MS, PROBE_MS};
use crate::render::{banner, EmitV};
use crate::session::{CompletionOutcomeV, CompletionResultV, ReadOutcomeV, Readiness, HELLO_WAIT_MS};
use crate::text::{debug_text, dec, hex, hex_bytes, pad_right};
use crate::wire::Wire;
use vstd::prelude::*;

verus! {

/// An answer is written as it is, with a line break where it ends without one.
pub proof fn law_answers_end_a_line(text: Seq<char>)
    ensures
        text.len() == 0 || text.last() == '\n' ==> text_emits(text) == seq![EmitV::Text(text)],
        text.len() > 0 && text.last() != '\n' ==> text_emits(text) == seq![
            EmitV::Text(text),
            EmitV::Line(""@),
        ],
{
}

/// A device's result is the exit code, kept below the ones that are the program's own; a
/// failure that the device reported is told.
pub proof fn law_results_become_codes(wire: Wire, result: u8, text: Seq<char>)
    ensures
        result <= 123 ==> device_code(result) == result,
        result > 123 ==> device_code(result) == 123,
        ({
            let v = exec_verdict(wire, ReadOutcomeV::Response { result, text, incomplete: false });
            &&& v.code == if result <= 123 {
                result
            } else {
                123
            }
            &&& result == 0 ==> v.out == text_emits(text)
            &&& result != 0 ==> v.out == text_emits(text).push(
                EmitV::Note("[result "@ + dec(result as nat) + "]"@),
            )
        }),
{
}

/// What came of an incomplete answer is written, told to be incomplete, and fails; a device
/// of another version and a silent one have codes of their own.
pub proof fn law_failures_have_their_codes(wire: Wire, result: u8, text: Seq<char>, v: u8)
    ensures
        ({
            let torn = VerdictV {
                code: 1,
                out: text_emits(text).push(EmitV::Note("[tower] response incomplete"@)),
            };
            let other = VerdictV {
                code: 125,
                out: banner(wire, v).push(
                    EmitV::Note(
                        "[tower] no "@ + "response"@ + " — device speaks protocol v"@ + dec(v as nat)
                            + ", tower speaks v"@ + dec(wire.protocol_version as nat)
                            + " (lockstep mismatch)"@,
                    ),
                ),
            };
            &&& exec_verdict(wire, ReadOutcomeV::Response { result, text, incomplete: true }) == torn
            &&& exec_verdict(wire, ReadOutcomeV::Cut { text, bad_version: None }) == torn
            &&& exec_verdict(wire, ReadOutcomeV::Cut { text, bad_version: Some(v) }) == other
            &&& exec_verdict(wire, ReadOutcomeV::Timeout { bad_version: Some(v) }) == other
            &&& exec_verdict(wire, ReadOutcomeV::Timeout { bad_version: None }) == VerdictV {
                code: 124,
                out: seq![EmitV::Note("[tower] no response (timeout)"@)],
            }
        }),
{
}

/// The interactive shell writes the answers in the same way, and shows the banner once.
pub proof fn law_the_shell_shows_answers(
    wire: Wire,
    result: u8,
    text: Seq<char>,
    incomplete: bool,
    warned: bool,
    v: u8,
)
    ensures
        ({
            let note = EmitV::Note(
                "[tower] no "@ + "response"@ + " — device speaks protocol v"@ + dec(v as nat)
                    + ", tower speaks v"@ + dec(wire.protocol_version as nat)
                    + " (lockstep mismatch)"@,
            );
            let answer = shell_shown(
                wire,
                ReadOutcomeV::Response { result, text, incomplete },
                warned,
            );
            &&& result == 0 ==> answer == text_emits(text)
            &&& result != 0 ==> answer == text_emits(text).push(
                EmitV::Note("[result "@ + dec(result as nat) + "]"@),
            )
            &&& shell_shown(wire, ReadOutcomeV::Cut { text, bad_version: None }, warned) == text_emits(
                text,
            ).push(EmitV::Note("[tower] response incomplete"@))
            &&& shell_shown(wire, ReadOutcomeV::Timeout { bad_version: None }, warned) == seq![
                EmitV::Note("[tower] no response (timeout)"@),
            ]
            &&& shell_shown(wire, ReadOutcomeV::Timeout { bad_version: Some(v) }, true) == seq![note]
            &&& shell_shown(wire, ReadOutcomeV::Cut { text, bad_version: Some(v) }, true) == seq![note]
            &&& shell_shown(wire, ReadOutcomeV::Timeout { bad_version: Some(v) }, false) == banner(
                wire,
                v,
            ).push(note)
            &&& shell_shown(wire, ReadOutcomeV::Cut { text, bad_version: Some(v) }, false) == banner(
                wire,
                v,
            ).push(note)
            &&& outcome_version(ReadOutcomeV::Response { result, text, incomplete }) is None
            &&& outcome_version(ReadOutcomeV::Cut { text, bad_version: Some(v) }) == Some(v)
            &&& outcome_version(ReadOutcomeV::Timeout { bad_version: Some(v) }) == Some(v)
        }),
{
}

/// A device of another version is refused before anything is sent; one of ours and a silent
/// one are not.
pub proof fn law_other_versions_are_refused(wire: Wire, v: u8, what: Seq<char>)
    ensures
        ({
            let refused = Some(
                VerdictV {
                    code: 125,
                    out: banner(wire, v).push(
                        EmitV::Note(
                            "[tower] protocol version mismatch (device v"@ + dec(v as nat)
                                + ", tower v"@ + dec(wire.protocol_version as nat)
                                + ") — refusing to "@ + what
                                + "; rebuild/repin against the same tower-protocol tag"@,
                        ),
                    ),
                },
            );
            &&& gate(wire, Readiness::BadVersion(v), what) == refused
            &&& v != wire.protocol_version ==> gate(wire, Readiness::Hello(v), what) == refused
            &&& gate(wire, Readiness::Hello(wire.protocol_version), what) is None
            &&& gate(wire, Readiness::Timeout, what) is None
        }),
{
}

/// The number of a command is never zero and fits into fifteen bits; within them it is the
/// number of the process.
pub proof fn law_command_numbers(pid: u32)
    ensures
        1 <= cmd_id_of(pid) <= 32767,
        pid % 32768 != 0 ==> cmd_id_of(pid) == pid % 32768,
        pid % 32768 == 0 ==> cmd_id_of(pid) == 1,
{
    assert(pid & 0x7fff == pid % 32768) by (bit_vector);
}

/// What follows a completed word.
pub open spec fn behind(kind: CandidateKind) -> Seq<char> {
    match kind {
        CandidateKind::Menu => "/"@,
        CandidateKind::Command => " "@,
        CandidateKind::Arg => "="@,
        CandidateKind::Value => ""@,
    }
}

/// What a word is.
pub open spec fn sort_of(kind: CandidateKind) -> Seq<char> {
    match kind {
        CandidateKind::Menu => "Menu"@,
        CandidateKind::Command => "Command"@,
        CandidateKind::Arg => "Arg"@,
        CandidateKind::Value => "Value"@,
    }
}

/// Every candidate is offered, in its order, and completed by what follows its kind; every
/// one is listed in a line of its own.
pub proof fn law_candidates_are_offered(c: Seq<(Seq<char>, CandidateKind)>)
    ensures
        offers(c).len() == c.len() && candidate_lines(c).len() == c.len(),
        forall|i: int|
            0 <= i < c.len() ==> #[trigger] offers(c)[i] == (OfferV {
                display: c[i].0,
                replacement: c[i].0 + behind(c[i].1),
            }),
        forall|i: int|
            0 <= i < c.len() ==> #[trigger] candidate_lines(c)[i] == EmitV::Line(
                "  "@ + sort_of(c[i].1) + "  "@ + c[i].0,
            ),
{
}

/// Completions are written with a headline in front; a device of another version and a
/// silent one have codes of their own.
pub proof fn law_completions_are_written(wire: Wire, c: CompletionResultV, v: u8)
    ensures
        ({
            let r = complete_verdict(wire, CompletionOutcomeV::Completions(c));
            &&& r.code == 0
            &&& r.out.len() == 1 + c.candidates.len()
            &&& r.out[0] == EmitV::Line(
                "token_start="@ + dec(c.token_start as nat) + " common_prefix="@
                    + debug_text(c.common_prefix) + (if c.more {
                    " (more…)"@
                } else {
                    ""@
                }),
            )
            &&& forall|i: int|
                0 <= i < c.candidates.len() ==> r.out[1 + i] == EmitV::Line(
                    "  "@ + sort_of((#[trigger] c.candidates[i]).1) + "  "@ + c.candidates[i].0,
                )
        }),
        complete_verdict(wire, CompletionOutcomeV::Timeout { bad_version: Some(v) }) == (VerdictV {
            code: 125,
            out: banner(wire, v).push(
                EmitV::Note(
                    "[tower] no "@ + "completions"@ + " — device speaks protocol v"@ + dec(v as nat)
                        + ", tower speaks v"@ + dec(wire.protocol_version as nat)
                        + " (lockstep mismatch)"@,
                ),
            ),
        }),
        complete_verdict(wire, CompletionOutcomeV::Timeout { bad_version: None }) == (VerdictV {
            code: 124,
            out: seq![EmitV::Note("[tower] no completions (timeout)"@)],
        }),
{
    law_candidates_are_offered(c.candidates);
    let r = complete_verdict(wire, CompletionOutcomeV::Completions(c));
    assert forall|i: int| 0 <= i < c.candidates.len() implies r.out[1 + i] == EmitV::Line(
        "  "@ + sort_of((#[trigger] c.candidates[i]).1) + "  "@ + c.candidates[i].0,
    ) by {
        assert(r.out[1 + i] == candidate_lines(c.candidates)[i]);
    }
}

/// The monitor shows the number, the type, the length and all of the payload; of a refused
/// frame the reason and all of it; of raw bytes each one.
pub proof fn law_the_monitor_shows_all(
    seq: u16,
    kind: Seq<char>,
    payload: Seq<u8>,
    error: Seq<char>,
    b: u8,
)
    ensures
        monitored(Ok((seq, kind, payload))) == "frame seq="@ + pad_right(dec(seq as nat), 5)
            + " type="@ + kind + " payload="@ + dec(payload.len()) + "B  "@ + hex_bytes(payload),
        monitored(Err((error, payload))) == "bad frame ("@ + error + "): "@ + hex_bytes(payload),
        spaced_hex(Seq::empty()).len() == 0,
        spaced_hex(payload.push(b)) == spaced_hex(payload) + hex(b as nat, 2) + " "@,
{
    assert(payload.push(b).drop_last() =~= payload);
}

/// A text is sent once, on the first link, and only behind a reset is the device waited for;
/// only the first link resets it; only a lost link is opened again, and where that is wanted;
/// one that was up before is tried for good.
pub proof fn law_links(p: StreamPlan)
    ensures
        attach(p) == Attach::Read <==> !p.first || p.send is None,
        attach(p) == Attach::WaitSendRead ==> p.reset,
        attach(p) == Attach::SendRead ==> !p.reset,
        stream_resets(p) <==> p.first && p.reset,
        stream_next(p, true) is None <==> !p.reconnect,
        stream_next(p, false) is None <==> p.first,
        stream_next(p, true) matches Some(q) ==> !q.first && q.send == p.send && q.reset == p.reset
            && q.reconnect == p.reconnect,
        stream_next(p, false) matches Some(q) ==> q == p,
{
}

/// While a device boots nothing is drawn for 600 ms, and then not more often than every
/// 200 ms.
pub proof fn law_the_ticker_is_slow(t: BootTicker, el_ms: u64)
    ensures
        tick_due(t, el_ms) <==> el_ms >= 600 && el_ms >= t.last_ms + 200,
{
}

/// A firmware that is larger than any device is refused, and told by how much it may be.
pub proof fn law_large_firmware_is_refused(len: nat, max: nat)
    ensures
        len <= max ==> size_error(len, max) is None,
        len > max ==> size_error(len, max) == Some(
            "firmware is "@ + dec(len) + " bytes, exceeding the "@ + dec(max / 1024)
                + " KiB maximum for any STM32L0 device"@,
        ),
{
}

/// The bar of one stage of flashing: opened once, moved, and finished when all is done.
pub proof fn law_progress_is_shown(shown: bool, done: u64, total: u64, id: u16)
    ensures
        ({
            let e = bar_steps(shown, Progress::Erase { done, total });
            let w = bar_steps(shown, Progress::Write { done, total });
            let v = bar_steps(shown, Progress::Verify { done, total });
            let k: int = if shown {
                0
            } else {
                1
            };
            let f: int = if done == total {
                1
            } else {
                0
            };
            &&& e.len() == k + 2 + f && w.len() == k + 1 + f && v.len() == k + 1 + f
            &&& !shown ==> e[0] == BarStepV::OpenPages { total, label: "erasing"@ }
            &&& !shown ==> w[0] == BarStepV::OpenBytes { total, label: "writing"@ }
            &&& !shown ==> v[0] == BarStepV::OpenBytes { total, label: "verifying"@ }
            &&& e[k] == BarStepV::Length(total) && e[k + 1] == BarStepV::Position(done)
            &&& w[k] == BarStepV::Position(done) && v[k] == BarStepV::Position(done)
            &&& done == total ==> e.last() == BarStepV::Finish("erased"@) && w.last()
                == BarStepV::Finish("written"@) && v.last() == BarStepV::Finish("verified"@)
            &&& bar_steps(shown, Progress::ChipIdentified { id }) == seq![BarStepV::Chip(id)]
            &&& bar_steps(true, Progress::Starting) == seq![BarStepV::Clear]
            &&& bar_steps(false, Progress::Starting).len() == 0
            &&& bar_steps(shown, Progress::Other).len() == 0
            &&& bar_after(shown, Progress::Erase { done, total }) == (done != total)
            &&& bar_after(shown, Progress::Write { done, total }) == (done != total)
            &&& bar_after(shown, Progress::Verify { done, total }) == (done != total)
            &&& bar_after(shown, Progress::ChipIdentified { id }) == shown
            &&& bar_after(shown, Progress::Other) == shown
            &&& !bar_after(shown, Progress::Starting)
        }),
{
}

/// How long is waited: for a greeting, an answer, a node on the cable, a broker and what it
/// keeps, before a link is opened again, and for a device to boot. A probe and what follows
/// it are told apart.
pub proof fn law_waiting_times()
    ensures
        HELLO_WAIT_MS == 8_000 && DEFAULT_TIMEOUT_MS == 7_000,
        NODE_MS == 4_000 && PROBE_MS == 4_000 && BOOT_MS == 300,
        CONNECT_MS == 5_000 && RETAINED_MS == 2_000,
        RECONNECT_MS == 800 && REOPEN_MS == 800,
        PROBE_ID != PROVISION_ID,
{
}

} // verus!

//! What the commands of the tool decide: exit codes, what is said, and when to go on.
//!
//! Exit codes: 0 success, 1 tool error, 2 usage error, 124 no answer of the device, 125
//! protocol mismatch, 126 wrong firmware. The result of a device is kept within 1 to 123, so
//! that it is never taken for one of these.

use crate::frame::CandidateKind;
use crate::render::{banner, warn_protocol_mismatch, Emit, EmitV};
use crate::session::{
    mismatch, mismatch_in, CompletionOutcome, CompletionOutcomeV, ReadOutcome, ReadOutcomeV, Readiness,
};
use crate::console::{separator, separator_of};
use crate::text::{
    bytes_hex, cat2, cat3, cat4, cat5, cat7, chars_of, debug_of, debug_text, dec, dec_u64, hex,
    hex_bytes, hex_text, pad_right, padded_right, push_deep, same, trim, trimmed,
};
use crate::wire::Wire;
use vstd::prelude::*;
use vstd::string::*;

verus! {

pub const EXIT_OK: u8 = 0;

pub const EXIT_ERROR: u8 = 1;

/// The device did not answer at all.
pub const EXIT_DEVICE_TIMEOUT: u8 = 124;

/// The device speaks another protocol version.
pub const EXIT_PROTOCOL_MISMATCH: u8 = 125;

/// The device runs firmware for another role.
pub const EXIT_WRONG_FIRMWARE: u8 = 126;

/// How long a command may take to answer, in milliseconds, unless given.
pub const DEFAULT_TIMEOUT_MS: u64 = 7000;

/// An exit code and what is written on the way.
#[derive(Debug, PartialEq)]
pub struct Verdict {
    pub code: u8,
    pub out: Vec<Emit>,
}

#[verifier::ext_equal]
pub struct VerdictV {
    pub code: u8,
    pub out: Seq<EmitV>,
}

impl DeepView for Verdict {
    type V = VerdictV;

    open spec fn deep_view(&self) -> VerdictV {
        VerdictV { code: self.code, out: self.out.deep_view() }
    }
}

/// The result of a device as an exit code: never one of the reserved ones.
pub open spec fn device_code(result: u8) -> u8 {
    if result == 0 {
        EXIT_OK
    } else if result > 123 {
        123
    } else {
        result
    }
}

/// The result of a device as an exit code.
pub fn clamp_result(result: u8) -> (r: u8)
    ensures
        r == device_code(result),
{
    if result == 0 {
        EXIT_OK
    } else if result > 123 {
        123
    } else {
        result
    }
}

fn one(e: Emit) -> (r: Vec<Emit>)
    ensures
        r.deep_view() == seq![e.deep_view()],
{
    let mut v: Vec<Emit> = Vec::new();
    v.push(e);
    assert(v.deep_view() =~= seq![e.deep_view()]);
    v
}

// ---- exec --------------------------------------------------------------------------

/// The id of a one-shot command: the low 15 bits of the process id, but never 0. A late
/// answer to another run does not match it.
pub open spec fn cmd_id_of(pid: u32) -> u16 {
    let id = (pid & 0x7fff) as u16;
    if id == 0 {
        1
    } else {
        id
    }
}

/// The id of a one-shot command, out of the process id.
pub fn exec_cmd_id(pid: u32) -> (r: u16)
    ensures
        r == cmd_id_of(pid),
        1 <= r <= 0x7fff,
{
    assert(pid & 0x7fff <= 0x7fff) by (bit_vector);
    let id: u16 = (pid & 0x7fff) as u16;
    if id == 0 {
        1
    } else {
        id
    }
}

/// The versions of both sides, for a refusal.
pub open spec fn refusal(wire: Wire, v: u8, what: Seq<char>) -> Seq<EmitV> {
    banner(wire, v).push(
        EmitV::Note(
            "[tower] protocol version mismatch (device v"@ + dec(v as nat) + ", tower v"@ + dec(
                wire.protocol_version as nat,
            ) + ") — refusing to "@ + what
                + "; rebuild/repin against the same tower-protocol tag"@,
        ),
    )
}

fn refuse(wire: &Wire, v: u8, what: &str) -> (r: Vec<Emit>)
    ensures
        r.deep_view() == refusal(*wire, v, what@),
{
    let mut out = warn_protocol_mismatch(wire, v);
    let head = cat5(
        "[tower] protocol version mismatch (device v",
        dec_u64(v as u64).as_str(),
        ", tower v",
        dec_u64(wire.protocol_version as u64).as_str(),
        ") — refusing to ",
    );
    push_deep(
        &mut out,
        Emit::Note(
            cat3(
                head.as_str(),
                what,
                "; rebuild/repin against the same tower-protocol tag",
            ),
        ),
    );
    out
}

/// Whether a device that was just reset can be used; otherwise why not, and the exit code.
pub open spec fn gate(wire: Wire, r: Readiness, what: Seq<char>) -> Option<VerdictV> {
    match mismatch_in(wire, r) {
        Some(v) => Some(VerdictV { code: EXIT_PROTOCOL_MISMATCH, out: refusal(wire, v, what) }),
        None => None,
    }
}

/// Whether a device that was just reset can take a one-shot command.
pub fn exec_gate(wire: &Wire, r: Readiness) -> (v: Option<Verdict>)
    ensures
        v.deep_view() == gate(*wire, r, "exec"@),
{
    match mismatch(wire, r) {
        Some(got) => Some(
            Verdict { code: EXIT_PROTOCOL_MISMATCH, out: refuse(wire, got, "exec") },
        ),
        None => None,
    }
}

/// Whether a shell can be opened on a device that was just reset.
pub fn shell_gate(wire: &Wire, r: Readiness) -> (v: Option<Verdict>)
    ensures
        v.deep_view() == gate(*wire, r, "open the shell"@),
{
    match mismatch(wire, r) {
        Some(got) => Some(
            Verdict { code: EXIT_PROTOCOL_MISMATCH, out: refuse(wire, got, "open the shell") },
        ),
        None => None,
    }
}

/// The text of an answer, ended with a line feed where it has none.
pub open spec fn text_emits(text: Seq<char>) -> Seq<EmitV> {
    if text.len() > 0 && text.last() != '\n' {
        seq![EmitV::Text(text), EmitV::Line(""@)]
    } else {
        seq![EmitV::Text(text)]
    }
}

fn show_text(text: String) -> (r: Vec<Emit>)
    ensures
        r.deep_view() == text_emits(text@),
{
    let v = chars_of(text.as_str());
    let open = v.len() > 0 && v[v.len() - 1] != '\n';
    let mut out = one(Emit::Text(text));
    if open {
        push_deep(&mut out, Emit::Line("".to_owned()));
    }
    assert(out.deep_view() =~= text_emits(text@));
    out
}

pub open spec fn result_note(result: u8) -> EmitV {
    EmitV::Note("[result "@ + dec(result as nat) + "]"@)
}

fn note_result(result: u8) -> (r: Emit)
    ensures
        r.deep_view() == result_note(result),
{
    Emit::Note(cat3("[result ", dec_u64(result as u64).as_str(), "]"))
}

/// No answer, but frames with another version tag.
pub open spec fn lockstep_note(wire: Wire, v: u8, what: Seq<char>) -> EmitV {
    EmitV::Note(
        "[tower] no "@ + what + " — device speaks protocol v"@ + dec(v as nat) + ", tower speaks v"@
            + dec(wire.protocol_version as nat) + " (lockstep mismatch)"@,
    )
}

fn note_lockstep(wire: &Wire, v: u8, what: &str) -> (r: Emit)
    ensures
        r.deep_view() == lockstep_note(*wire, v, what@),
{
    Emit::Note(
        cat7(
            "[tower] no ",
            what,
            " — device speaks protocol v",
            dec_u64(v as u64).as_str(),
            ", tower speaks v",
            dec_u64(wire.protocol_version as u64).as_str(),
            " (lockstep mismatch)",
        ),
    )
}

fn lockstep(wire: &Wire, v: u8) -> (r: Vec<Emit>)
    ensures
        r.deep_view() == banner(*wire, v).push(lockstep_note(*wire, v, "response"@)),
{
    let mut out = warn_protocol_mismatch(wire, v);
    push_deep(&mut out, note_lockstep(wire, v, "response"));
    out
}

/// How a one-shot command ends. An answer that misses a piece or its end is an error:
/// the device did answer.
pub open spec fn exec_verdict(wire: Wire, outcome: ReadOutcomeV) -> VerdictV {
    match outcome {
        ReadOutcomeV::Response { result, text, incomplete } => {
            let shown = text_emits(text);
            if incomplete {
                VerdictV {
                    code: EXIT_ERROR,
                    out: shown.push(EmitV::Note("[tower] response incomplete"@)),
                }
            } else if result != 0 {
                VerdictV { code: device_code(result), out: shown.push(result_note(result)) }
            } else {
                VerdictV { code: EXIT_OK, out: shown }
            }
        },
        ReadOutcomeV::Cut { text: _, bad_version: Some(v) } => VerdictV {
            code: EXIT_PROTOCOL_MISMATCH,
            out: banner(wire, v).push(lockstep_note(wire, v, "response"@)),
        },
        ReadOutcomeV::Cut { text, bad_version: None } => VerdictV {
            code: EXIT_ERROR,
            out: text_emits(text).push(EmitV::Note("[tower] response incomplete"@)),
        },
        ReadOutcomeV::Timeout { bad_version: Some(v) } => VerdictV {
            code: EXIT_PROTOCOL_MISMATCH,
            out: banner(wire, v).push(lockstep_note(wire, v, "response"@)),
        },
        ReadOutcomeV::Timeout { bad_version: None } => VerdictV {
            code: EXIT_DEVICE_TIMEOUT,
            out: seq![EmitV::Note("[tower] no response (timeout)"@)],
        },
    }
}

/// How a one-shot command ends: with the result of the device, with an error where a piece
/// of the answer was lost (whatever the device said), or with the code that says why there
/// was no answer.
pub fn exec_cmd(wire: &Wire, outcome: ReadOutcome) -> (r: Verdict)
    ensures
        r.deep_view() == exec_verdict(*wire, outcome.deep_view()),
{
    match outcome {
        ReadOutcome::Response(rsp) => {
            let mut out = show_text(rsp.text);
            if rsp.incomplete {
                push_deep(&mut out, Emit::Note("[tower] response incomplete".to_owned()));
                Verdict { code: EXIT_ERROR, out }
            } else if rsp.result != 0 {
                push_deep(&mut out, note_result(rsp.result));
                Verdict { code: clamp_result(rsp.result), out }
            } else {
                Verdict { code: EXIT_OK, out }
            }
        },
        ReadOutcome::Cut { text, bad_version } => match bad_version {
            Some(v) => Verdict { code: EXIT_PROTOCOL_MISMATCH, out: lockstep(wire, v) },
            None => {
                let mut out = show_text(text);
                push_deep(&mut out, Emit::Note("[tower] response incomplete".to_owned()));
                Verdict { code: EXIT_ERROR, out }
            },
        },
        ReadOutcome::Timeout { bad_version } => match bad_version {
            Some(v) => Verdict { code: EXIT_PROTOCOL_MISMATCH, out: lockstep(wire, v) },
            None => Verdict {
                code: EXIT_DEVICE_TIMEOUT,
                out: one(Emit::Note("[tower] no response (timeout)".to_owned())),
            },
        },
    }
}

// ---- shell -------------------------------------------------------------------------

/// What a line of the interactive shell asks for.
#[derive(Debug, PartialEq)]
pub enum ShellInput {
    /// Nothing.
    Skip,
    Quit,
    Run(String),
}

#[verifier::ext_equal]
pub enum ShellInputV {
    Skip,
    Quit,
    Run(Seq<char>),
}

impl DeepView for ShellInput {
    type V = ShellInputV;

    open spec fn deep_view(&self) -> ShellInputV {
        match self {
            ShellInput::Skip => ShellInputV::Skip,
            ShellInput::Quit => ShellInputV::Quit,
            ShellInput::Run(l) => ShellInputV::Run(l@),
        }
    }
}

/// What a line of the interactive shell asks for.
pub fn shell_input(input: &str) -> (r: ShellInput)
    ensures
        r.deep_view() == ({
            let line = trimmed(input@);
            if line.len() == 0 {
                ShellInputV::Skip
            } else if line == "exit"@ || line == "quit"@ {
                ShellInputV::Quit
            } else {
                ShellInputV::Run(line)
            }
        }),
{
    let line = trim(input);
    if line.unicode_len() == 0 {
        ShellInput::Skip
    } else if same(line, "exit") || same(line, "quit") {
        ShellInput::Quit
    } else {
        ShellInput::Run(line.to_owned())
    }
}

/// The hint for a line that does not fit into a frame.
pub fn too_long(wire: &Wire) -> (r: Emit)
    ensures
        r.deep_view() == EmitV::Note(
            "[tower] line too long (max ~"@ + dec(
                if wire.max_frame >= 12 {
                    (wire.max_frame - 12) as nat
                } else {
                    0
                },
            ) + " bytes) — not sent"@,
        ),
{
    Emit::Note(
        cat3(
            "[tower] line too long (max ~",
            dec_u64(wire.max_frame.saturating_sub(12) as u64).as_str(),
            " bytes) — not sent",
        ),
    )
}

/// No answer to a line, but frames with another version tag; `warned`: the banner was shown
/// already.
pub open spec fn lockstep_shown(wire: Wire, v: u8, warned: bool) -> Seq<EmitV> {
    (if warned {
        Seq::empty()
    } else {
        banner(wire, v)
    }).push(lockstep_note(wire, v, "response"@))
}

fn show_lockstep(wire: &Wire, v: u8, warned: &mut bool) -> (r: Vec<Emit>)
    ensures
        r.deep_view() == lockstep_shown(*wire, v, *old(warned)),
        *final(warned),
{
    let mut out: Vec<Emit> = if *warned {
        Vec::new()
    } else {
        warn_protocol_mismatch(wire, v)
    };
    assert(out.deep_view() =~= if *old(warned) {
        Seq::empty()
    } else {
        banner(*wire, v)
    });
    *warned = true;
    push_deep(&mut out, note_lockstep(wire, v, "response"));
    out
}

/// The version tag of the frames that were refused while there was no whole answer.
pub open spec fn outcome_version(outcome: ReadOutcomeV) -> Option<u8> {
    match outcome {
        ReadOutcomeV::Response { .. } => None,
        ReadOutcomeV::Cut { text: _, bad_version } => bad_version,
        ReadOutcomeV::Timeout { bad_version } => bad_version,
    }
}

/// What the interactive shell shows of an answer; `warned`: the banner was shown already.
pub open spec fn shell_shown(wire: Wire, outcome: ReadOutcomeV, warned: bool) -> Seq<EmitV> {
    match outcome {
        ReadOutcomeV::Response { result, text, incomplete: _ } => if result != 0 {
            text_emits(text).push(result_note(result))
        } else {
            text_emits(text)
        },
        ReadOutcomeV::Cut { text: _, bad_version: Some(v) } => lockstep_shown(wire, v, warned),
        ReadOutcomeV::Cut { text, bad_version: None } => text_emits(text).push(
            EmitV::Note("[tower] response incomplete"@),
        ),
        ReadOutcomeV::Timeout { bad_version: Some(v) } => lockstep_shown(wire, v, warned),
        ReadOutcomeV::Timeout { bad_version: None } => seq![
            EmitV::Note("[tower] no response (timeout)"@),
        ],
    }
}

/// What the interactive shell shows of an answer. The whole banner comes once a session.
pub fn shell_reply(wire: &Wire, outcome: ReadOutcome, warned: &mut bool) -> (r: Vec<Emit>)
    ensures
        r.deep_view() == shell_shown(*wire, outcome.deep_view(), *old(warned)),
        *final(warned) == (*old(warned) || outcome_version(outcome.deep_view()) is Some),
{
    match outcome {
        ReadOutcome::Response(rsp) => {
            let mut out = show_text(rsp.text);
            if rsp.result != 0 {
                push_deep(&mut out, note_result(rsp.result));
            }
            out
        },
        ReadOutcome::Cut { text, bad_version } => match bad_version {
            Some(v) => show_lockstep(wire, v, warned),
            None => {
                let mut out = show_text(text);
                push_deep(&mut out, Emit::Note("[tower] response incomplete".to_owned()));
                out
            },
        },
        ReadOutcome::Timeout { bad_version } => match bad_version {
            Some(v) => show_lockstep(wire, v, warned),
            None => one(Emit::Note("[tower] no response (timeout)".to_owned())),
        },
    }
}

/// One candidate of the interactive shell: what is shown, and what is inserted.
#[derive(Debug, PartialEq)]
pub struct Offer {
    pub display: String,
    pub replacement: String,
}

#[verifier::ext_equal]
pub struct OfferV {
    pub display: Seq<char>,
    pub replacement: Seq<char>,
}

impl DeepView for Offer {
    type V = OfferV;

    open spec fn deep_view(&self) -> OfferV {
        OfferV { display: self.display@, replacement: self.replacement@ }
    }
}

pub open spec fn offers(c: Seq<(Seq<char>, CandidateKind)>) -> Seq<OfferV> {
    Seq::new(
        c.len(),
        |i: int| OfferV { display: c[i].0, replacement: c[i].0 + separator(c[i].1) },
    )
}

/// What the interactive shell offers at `pos`: where the word starts, and the candidates
/// with what separates them from the next word. Nothing where no answer came.
pub fn complete(pos: usize, outcome: CompletionOutcome) -> (r: (usize, Vec<Offer>))
    ensures
        (r.0, r.1.deep_view()) == match outcome.deep_view() {
            CompletionOutcomeV::Completions(c) => (c.token_start as usize, offers(c.candidates)),
            CompletionOutcomeV::Timeout { .. } => (pos, Seq::empty()),
        },
{
    let mut v: Vec<Offer> = Vec::new();
    match outcome {
        CompletionOutcome::Completions(c) => {
            let ghost cands = crate::session::candidate_views(c.candidates@);
            let mut i: usize = 0;
            while i < c.candidates.len()
                invariant
                    i <= c.candidates@.len(),
                    cands == crate::session::candidate_views(c.candidates@),
                    v@.len() == i,
                    forall|j: int| 0 <= j < i ==> (#[trigger] v@[j]).deep_view() == offers(cands)[j],
                decreases c.candidates@.len() - i,
            {
                let text = c.candidates[i].0.as_str();
                let sep = separator_of(c.candidates[i].1);
                v.push(Offer { display: text.to_owned(), replacement: cat2(text, sep) });
                i = i + 1;
            }
            assert(v.deep_view() =~= offers(cands));
            (c.token_start as usize, v)
        },
        CompletionOutcome::Timeout { .. } => {
            assert(v.deep_view() =~= Seq::<OfferV>::empty());
            (pos, v)
        },
    }
}

// ---- complete ----------------------------------------------------------------------

pub open spec fn kind_name(kind: CandidateKind) -> Seq<char> {
    match kind {
        CandidateKind::Menu => "Menu"@,
        CandidateKind::Command => "Command"@,
        CandidateKind::Arg => "Arg"@,
        CandidateKind::Value => "Value"@,
    }
}

fn name_of_kind(kind: CandidateKind) -> (r: &'static str)
    ensures
        r@ == kind_name(kind),
{
    match kind {
        CandidateKind::Menu => "Menu",
        CandidateKind::Command => "Command",
        CandidateKind::Arg => "Arg",
        CandidateKind::Value => "Value",
    }
}

pub open spec fn candidate_lines(c: Seq<(Seq<char>, CandidateKind)>) -> Seq<EmitV> {
    Seq::new(c.len(), |i: int| EmitV::Line("  "@ + kind_name(c[i].1) + "  "@ + c[i].0))
}

/// How a request for completions ends.
pub open spec fn complete_verdict(wire: Wire, outcome: CompletionOutcomeV) -> VerdictV {
    match outcome {
        CompletionOutcomeV::Completions(c) => VerdictV {
            code: EXIT_OK,
            out: seq![
                EmitV::Line(
                    "token_start="@ + dec(c.token_start as nat) + " common_prefix="@ + debug_text(
                        c.common_prefix,
                    ) + if c.more {
                        " (more…)"@
                    } else {
                        ""@
                    },
                ),
            ] + candidate_lines(c.candidates),
        },
        CompletionOutcomeV::Timeout { bad_version: Some(v) } => VerdictV {
            code: EXIT_PROTOCOL_MISMATCH,
            out: banner(wire, v).push(lockstep_note(wire, v, "completions"@)),
        },
        CompletionOutcomeV::Timeout { bad_version: None } => VerdictV {
            code: EXIT_DEVICE_TIMEOUT,
            out: seq![EmitV::Note("[tower] no completions (timeout)"@)],
        },
    }
}

/// How a request for completions ends.
pub fn complete_cmd(wire: &Wire, outcome: CompletionOutcome) -> (r: Verdict)
    ensures
        r.deep_view() == complete_verdict(*wire, outcome.deep_view()),
{
    match outcome {
        CompletionOutcome::Completions(c) => {
            let ghost cands = crate::session::candidate_views(c.candidates@);
            let head = cat5(
                "token_start=",
                dec_u64(c.token_start as u64).as_str(),
                " common_prefix=",
                debug_of(c.common_prefix.as_str()).as_str(),
                if c.more {
                    " (more…)"
                } else {
                    ""
                },
            );
            let mut out = one(Emit::Line(head));
            let ghost start = out.deep_view();
            let ghost all = candidate_lines(cands);
            let mut i: usize = 0;
            assert(out.deep_view() =~= start + all.take(0));
            while i < c.candidates.len()
                invariant
                    i <= c.candidates@.len(),
                    cands == crate::session::candidate_views(c.candidates@),
                    all == candidate_lines(cands),
                    out.deep_view() == start + all.take(i as int),
                decreases c.candidates@.len() - i,
            {
                let line = cat4(
                    "  ",
                    name_of_kind(c.candidates[i].1),
                    "  ",
                    c.candidates[i].0.as_str(),
                );
                push_deep(&mut out, Emit::Line(line));
                assert(out.deep_view() =~= start + all.take(i + 1));
                i = i + 1;
            }
            assert(all.take(i as int) =~= all);
            Verdict { code: EXIT_OK, out }
        },
        CompletionOutcome::Timeout { bad_version } => match bad_version {
            Some(v) => {
                let mut out = warn_protocol_mismatch(wire, v);
                push_deep(&mut out, note_lockstep(wire, v, "completions"));
                Verdict { code: EXIT_PROTOCOL_MISMATCH, out }
            },
            None => Verdict {
                code: EXIT_DEVICE_TIMEOUT,
                out: one(Emit::Note("[tower] no completions (timeout)".to_owned())),
            },
        },
    }
}

// ---- monitor -----------------------------------------------------------------------

/// A frame as the monitor shows it: its number, its type, and its payload in hexadecimal;
/// or why it was refused, and all of it.
pub open spec fn monitored(frame: Result<(u16, Seq<char>, Seq<u8>), (Seq<char>, Seq<u8>)>) -> Seq<char> {
    match frame {
        Ok((seq, kind, payload)) => "frame seq="@ + pad_right(dec(seq as nat), 5) + " type="@ + kind
            + " payload="@ + dec(payload.len()) + "B  "@ + hex_bytes(payload),
        Err((error, inner)) => "bad frame ("@ + error + "): "@ + hex_bytes(inner),
    }
}

/// A frame that was taken, as the monitor shows it.
pub fn monitor_frame(seq: u16, kind: &str, payload: &[u8]) -> (r: String)
    ensures
        r@ == monitored(Ok((seq, kind@, payload@))),
{
    let head = cat5(
        "frame seq=",
        padded_right(dec_u64(seq as u64), 5).as_str(),
        " type=",
        kind,
        " payload=",
    );
    cat4(
        head.as_str(),
        dec_u64(payload.len() as u64).as_str(),
        "B  ",
        bytes_hex(payload).as_str(),
    )
}

/// A frame that was refused, as the monitor shows it.
pub fn monitor_refused(error: &str, inner: &[u8]) -> (r: String)
    ensures
        r@ == monitored(Err((error@, inner@))),
{
    cat4("bad frame (", error, "): ", bytes_hex(inner).as_str())
}

/// Raw bytes, each in two digits with a space behind.
pub open spec fn spaced_hex(s: Seq<u8>) -> Seq<char>
    decreases s.len(),
{
    if s.len() == 0 {
        Seq::empty()
    } else {
        spaced_hex(s.drop_last()) + hex(s.last() as nat, 2) + " "@
    }
}

/// Raw bytes as the monitor shows them.
pub fn monitor_bytes(bytes: &[u8]) -> (r: String)
    ensures
        r@ == spaced_hex(bytes@),
{
    let mut s = String::new();
    let mut i: usize = 0;
    assert(s@ =~= spaced_hex(bytes@.take(0)));
    while i < bytes.len()
        invariant
            i <= bytes@.len(),
            s@ == spaced_hex(bytes@.take(i as int)),
        decreases bytes@.len() - i,
    {
        s.append(hex_text(bytes[i] as u32, 2).as_str());
        s.append(" ");
        assert(bytes@.take(i + 1).drop_last() =~= bytes@.take(i as int));
        i = i + 1;
    }
    assert(bytes@.take(i as int) =~= bytes@);
    s
}

// ---- streams -----------------------------------------------------------------------

/// How long to wait before a lost link is opened again, in milliseconds.
pub const RECONNECT_MS: u64 = 800;

/// A streaming command (`logs`, `events`) along its links.
#[derive(Debug, PartialEq)]
pub struct StreamPlan {
    /// To be sent once, on the first link.
    pub send: Option<String>,
    pub reset: bool,
    pub reconnect: bool,
    /// No link was lost yet: the one that is opened next, or that is up, is the first.
    pub first: bool,
}

/// What to do on a link that has just been opened.
#[derive(Debug, Clone, Copy, PartialEq, Eq, Structural)]
pub enum Attach {
    /// Wait for the device to come up, then send, then read.
    WaitSendRead,
    /// Send, then read.
    SendRead,
    /// Read.
    Read,
}

/// What is to be done on a new link.
pub open spec fn attach(p: StreamPlan) -> Attach {
    if p.first && p.send is Some {
        if p.reset {
            Attach::WaitSendRead
        } else {
            Attach::SendRead
        }
    } else {
        Attach::Read
    }
}

/// The device is reset as the next link is opened.
pub open spec fn stream_resets(p: StreamPlan) -> bool {
    p.first && p.reset
}

impl StreamPlan {
    /// The plan before the first link.
    pub fn new(send: Option<String>, reset: bool, reconnect: bool) -> (r: StreamPlan)
        ensures
            r.send == send && r.reset == reset && r.reconnect == reconnect && r.first,
    {
        StreamPlan { send, reset, reconnect, first: true }
    }

    /// Whether the device is reset as the next link is opened: only on the first one, so
    /// that a flaky link does not become a loop of reboots.
    pub fn resets(&self) -> (r: bool)
        ensures
            r == stream_resets(*self),
    {
        self.first && self.reset
    }

    /// A link could not be opened. Whether that ends the command: where it is the first one;
    /// another is tried again.
    pub fn on_open_failed(&self) -> (fatal: bool)
        ensures
            fatal == self.first,
            fatal <==> stream_next(*self, false) is None,
    {
        self.first
    }

    /// What to do on a link that has just been opened. The text goes out once, on the first
    /// link; the device is waited for only where it was reset.
    pub fn on_open(&self) -> (r: Attach)
        ensures
            r == attach(*self),
    {
        if self.first && self.send.is_some() {
            if self.reset {
                Attach::WaitSendRead
            } else {
                Attach::SendRead
            }
        } else {
            Attach::Read
        }
    }

    /// A link was lost. Whether to open another.
    pub fn on_lost(&mut self) -> (again: bool)
        ensures
            again == old(self).reconnect,
            *final(self) == (StreamPlan { first: false, ..*old(self) }),
            stream_next(*old(self), true) == if again {
                Some(*final(self))
            } else {
                None
            },
    {
        self.first = false;
        self.reconnect
    }
}

/// The plan once the command has tried to open a link, which was up (`up`) and then lost, or
/// failed to open; nothing where the command is over.
pub open spec fn stream_next(p: StreamPlan, up: bool) -> Option<StreamPlan> {
    if up {
        if p.reconnect {
            Some(StreamPlan { first: false, ..p })
        } else {
            None
        }
    } else if p.first {
        None
    } else {
        Some(p)
    }
}

/// The plan behind the first `k` attempts to open a link, with the outcomes `opens`; nothing
/// where the command is over by then.
pub open spec fn stream_after(p: StreamPlan, opens: Seq<bool>, k: nat) -> Option<StreamPlan>
    decreases k,
{
    if k == 0 {
        Some(p)
    } else {
        match stream_after(p, opens, (k - 1) as nat) {
            Some(q) => stream_next(q, opens[k - 1]),
            None => None,
        }
    }
}

/// A first link that cannot be opened ends the command at once, and so does the loss of the
/// first link where no other is wanted: there is no second attempt. Where there is one, the
/// command goes on for good, and no attempt but the first resets the device or sends.
pub proof fn law_stream_opens(p: StreamPlan, opens: Seq<bool>, k: nat)
    requires
        p.first,
        1 <= k <= opens.len(),
    ensures
        match stream_after(p, opens, k) {
            Some(q) => {
                &&& opens[0] && p.reconnect
                &&& q == StreamPlan { first: false, ..p }
                &&& attach(q) == Attach::Read
                &&& !stream_resets(q)
            },
            None => !opens[0] || !p.reconnect,
        },
    decreases k,
{
    reveal_with_fuel(stream_after, 2);
    if k > 1 {
        law_stream_opens(p, opens, (k - 1) as nat);
    }
}

/// After a lost link nothing is sent again and the device is not waited for, however many
/// links follow.
pub proof fn law_stream_sends_once(p: StreamPlan)
    ensures
        attach(StreamPlan { first: false, ..p }) == Attach::Read,
{
}

// ---- the boot ticker ---------------------------------------------------------------

/// Feedback while a device boots: nothing at first, then a line that is redrawn on a
/// terminal, or written once elsewhere.
#[derive(Debug, Clone, Copy, PartialEq, Eq, Structural)]
pub struct BootTicker {
    pub shown: bool,
    pub is_tty: bool,
    pub last_ms: u64,
}

/// What the ticker draws.
#[derive(Debug, Clone, Copy, PartialEq, Eq, Structural)]
pub enum Tick {
    Nothing,
    /// Redraw the line with the time.
    Redraw,
    /// Write the line, once.
    Once,
}

/// How the ticker's line ends.
#[derive(Debug, Clone, Copy, PartialEq, Eq, Structural)]
pub enum Closing {
    Nothing,
    /// Say how long the boot took.
    Booted,
    /// Clear the line.
    Clear,
}

/// It is time to draw: not in the first 600 ms, and not within 200 ms of the last time.
pub open spec fn tick_due(t: BootTicker, el_ms: u64) -> bool {
    el_ms >= 600 && el_ms - t.last_ms >= 200
}

impl BootTicker {
    pub fn new(is_tty: bool) -> (r: BootTicker)
        ensures
            r == (BootTicker { shown: false, is_tty, last_ms: 0 }),
    {
        BootTicker { shown: false, is_tty, last_ms: 0 }
    }

    /// `el_ms` have gone by.
    pub fn tick(&mut self, el_ms: u64) -> (r: Tick)
        ensures
            r == if !tick_due(*old(self), el_ms) {
                Tick::Nothing
            } else if old(self).is_tty {
                Tick::Redraw
            } else if !old(self).shown {
                Tick::Once
            } else {
                Tick::Nothing
            },
            *final(self) == if tick_due(*old(self), el_ms) {
                BootTicker { shown: true, is_tty: old(self).is_tty, last_ms: el_ms }
            } else {
                *old(self)
            },
    {
        if el_ms < 600 || el_ms < self.last_ms || el_ms - self.last_ms < 200 {
            return Tick::Nothing;
        }
        self.last_ms = el_ms;
        if self.is_tty {
            self.shown = true;
            Tick::Redraw
        } else if !self.shown {
            self.shown = true;
            Tick::Once
        } else {
            Tick::Nothing
        }
    }

    /// The wait is over.
    pub fn finish(&self, r: Readiness) -> (c: Closing)
        ensures
            c == if !(self.shown && self.is_tty) {
                Closing::Nothing
            } else if r is Hello {
                Closing::Booted
            } else {
                Closing::Clear
            },
    {
        if !(self.shown && self.is_tty) {
            return Closing::Nothing;
        }
        match r {
            Readiness::Hello(_) => Closing::Booted,
            _ => Closing::Clear,
        }
    }
}

// ---- flashing ----------------------------------------------------------------------

/// The refusal of a firmware that fits no device.
pub open spec fn size_error(len: nat, max: nat) -> Option<Seq<char>> {
    if len > max {
        Some(
            "firmware is "@ + dec(len) + " bytes, exceeding the "@ + dec(max / 1024)
                + " KiB maximum for any STM32L0 device"@,
        )
    } else {
        None
    }
}

/// The refusal of a firmware that fits no device.
pub fn check_size(len: u32, max: u32) -> (r: Option<String>)
    ensures
        r.deep_view() == size_error(len as nat, max as nat),
{
    if len > max {
        Some(
            cat5(
                "firmware is ",
                dec_u64(len as u64).as_str(),
                " bytes, exceeding the ",
                dec_u64((max / 1024) as u64).as_str(),
                " KiB maximum for any STM32L0 device",
            ),
        )
    } else {
        None
    }
}

/// What the bootloader reports.
#[derive(Debug, Clone, Copy, PartialEq, Eq, Structural)]
pub enum Progress {
    ChipIdentified { id: u16 },
    Erase { done: u64, total: u64 },
    Write { done: u64, total: u64 },
    Verify { done: u64, total: u64 },
    Starting,
    Other,
}

/// What to do with the progress bar.
#[derive(Debug, PartialEq)]
pub enum BarStep {
    /// A line: which chip it is.
    Chip(u16),
    OpenPages { total: u64, label: &'static str },
    OpenBytes { total: u64, label: &'static str },
    Length(u64),
    Position(u64),
    Finish(&'static str),
    Clear,
}

#[verifier::ext_equal]
pub enum BarStepV {
    Chip(u16),
    OpenPages { total: u64, label: Seq<char> },
    OpenBytes { total: u64, label: Seq<char> },
    Length(u64),
    Position(u64),
    Finish(Seq<char>),
    Clear,
}

impl DeepView for BarStep {
    type V = BarStepV;

    open spec fn deep_view(&self) -> BarStepV {
        match self {
            BarStep::Chip(id) => BarStepV::Chip(*id),
            BarStep::OpenPages { total, label } => BarStepV::OpenPages {
                total: *total,
                label: label@,
            },
            BarStep::OpenBytes { total, label } => BarStepV::OpenBytes {
                total: *total,
                label: label@,
            },
            BarStep::Length(n) => BarStepV::Length(*n),
            BarStep::Position(n) => BarStepV::Position(*n),
            BarStep::Finish(s) => BarStepV::Finish(s@),
            BarStep::Clear => BarStepV::Clear,
        }
    }
}

/// The steps of a phase that counts bytes.
pub open spec fn byte_steps(
    shown: bool,
    done: u64,
    total: u64,
    label: Seq<char>,
    finished: Seq<char>,
) -> Seq<BarStepV> {
    let a = if shown {
        Seq::empty()
    } else {
        seq![BarStepV::OpenBytes { total, label }]
    };
    let b = a.push(BarStepV::Position(done));
    if done == total {
        b.push(BarStepV::Finish(finished))
    } else {
        b
    }
}

/// What a report does to the one bar; `shown`: it is on the screen.
pub open spec fn bar_steps(shown: bool, p: Progress) -> Seq<BarStepV> {
    match p {
        Progress::ChipIdentified { id } => seq![BarStepV::Chip(id)],
        Progress::Erase { done, total } => {
            let a = if shown {
                Seq::empty()
            } else {
                seq![BarStepV::OpenPages { total, label: "erasing"@ }]
            };
            let b = a.push(BarStepV::Length(total)).push(BarStepV::Position(done));
            if done == total {
                b.push(BarStepV::Finish("erased"@))
            } else {
                b
            }
        },
        Progress::Write { done, total } => byte_steps(shown, done, total, "writing"@, "written"@),
        Progress::Verify { done, total } => byte_steps(
            shown,
            done,
            total,
            "verifying"@,
            "verified"@,
        ),
        Progress::Starting => if shown {
            seq![BarStepV::Clear]
        } else {
            Seq::empty()
        },
        Progress::Other => Seq::empty(),
    }
}

/// Whether the bar is on the screen after a report.
pub open spec fn bar_after(shown: bool, p: Progress) -> bool {
    match p {
        Progress::Erase { done, total } => done != total,
        Progress::Write { done, total } => done != total,
        Progress::Verify { done, total } => done != total,
        Progress::Starting => false,
        _ => shown,
    }
}

/// The progress of flashing: one bar, which each phase takes over.
#[derive(Debug, Clone, Copy, PartialEq, Eq, Structural)]
pub struct FlashProgress {
    /// A bar is on the screen.
    pub shown: bool,
}

fn byte_steps_of(
    shown: bool,
    done: u64,
    total: u64,
    label: &'static str,
    finished: &'static str,
) -> (r: Vec<BarStep>)
    ensures
        r.deep_view() == byte_steps(shown, done, total, label@, finished@),
{
    let mut v: Vec<BarStep> = Vec::new();
    if !shown {
        v.push(BarStep::OpenBytes { total, label });
    }
    v.push(BarStep::Position(done));
    if done == total {
        v.push(BarStep::Finish(finished));
    }
    assert(v.deep_view() =~= byte_steps(shown, done, total, label@, finished@));
    v
}

impl FlashProgress {
    /// Takes a report of the bootloader.
    pub fn on(&mut self, p: Progress) -> (r: Vec<BarStep>)
        ensures
            r.deep_view() == bar_steps(old(self).shown, p),
            final(self).shown == bar_after(old(self).shown, p),
    {
        let shown = self.shown;
        let mut v: Vec<BarStep> = Vec::new();
        match p {
            Progress::ChipIdentified { id } => {
                v.push(BarStep::Chip(id));
            },
            Progress::Erase { done, total } => {
                if !shown {
                    v.push(BarStep::OpenPages { total, label: "erasing" });
                }
                v.push(BarStep::Length(total));
                v.push(BarStep::Position(done));
                if done == total {
                    v.push(BarStep::Finish("erased"));
                }
                self.shown = done != total;
            },
            Progress::Write { done, total } => {
                self.shown = done != total;
                return byte_steps_of(shown, done, total, "writing", "written");
            },
            Progress::Verify { done, total } => {
                self.shown = done != total;
                return byte_steps_of(shown, done, total, "verifying", "verified");
            },
            Progress::Starting => {
                if shown {
                    v.push(BarStep::Clear);
                }
                self.shown = false;
            },
            Progress::Other => {},
        }
        assert(v.deep_view() =~= bar_steps(shown, p));
        v
    }
}

// ---- laws --------------------------------------------------------------------------

/// A device's result is never taken for one of the reserved codes, and a failure of the
/// device never for success.
pub proof fn law_device_results_are_not_reserved(result: u8)
    ensures
        device_code(result) <= 123,
        device_code(result) == EXIT_OK <==> result == 0,
        1 <= result <= 123 ==> device_code(result) == result,
{
}

/// An answer that misses a piece or its end fails the command, whatever the device said; no
/// answer at all is told apart from that and from a version mismatch.
pub proof fn law_exec_codes(wire: Wire, outcome: ReadOutcomeV)
    ensures
        match outcome {
            ReadOutcomeV::Response { result, text: _, incomplete } => exec_verdict(wire, outcome).code
                == if incomplete {
                EXIT_ERROR
            } else {
                device_code(result)
            },
            ReadOutcomeV::Cut { text: _, bad_version } => exec_verdict(wire, outcome).code == if bad_version is Some {
                EXIT_PROTOCOL_MISMATCH
            } else {
                EXIT_ERROR
            },
            ReadOutcomeV::Timeout { bad_version } => exec_verdict(wire, outcome).code == if bad_version is Some {
                EXIT_PROTOCOL_MISMATCH
            } else {
                EXIT_DEVICE_TIMEOUT
            },
        },
{
}

} // verus!

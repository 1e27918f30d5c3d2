//! The framed session over the serial link: the boot `Hello`, the reassembly of shell
//! responses, and completions. Each wait takes the frames that come in one by one; how
//! long to wait is the caller's business.

use crate::frame::{Body, CandidateKind, Candidate, Frame, ShellCompletions, ShellResponse};
use crate::mgmt::next_index;
use crate::render::{Emit, EmitV};
use crate::text::{cat3, cat5, dec, dec_u64, push_deep};
use crate::wire::Wire;
use vstd::prelude::*;
use vstd::string::*;

verus! {

/// How long to wait for the boot `Hello`, in milliseconds. The slowest boots take more
/// than five seconds; fast ones end the wait as soon as they announce themselves.
pub const HELLO_WAIT_MS: u64 = 8000;

/// How long to settle where no `Hello` came and no delay was asked for.
pub const DEFAULT_SETTLE_MS: u64 = 250;

/// How long to settle after a `Hello`: right after it a device may be too busy sending to
/// hear. A delay that was asked for extends this, but never shortens it.
pub const POST_HELLO_GUARD_MS: u64 = 150;

// ---- the boot announcement ---------------------------------------------------------

/// What came of waiting for a device that was just reset.
#[derive(Debug, Clone, Copy, PartialEq, Eq, Structural)]
pub enum Readiness {
    /// It announced itself, with this protocol version.
    Hello(u8),
    /// A frame carried another version tag: nothing it says can be read.
    BadVersion(u8),
    /// Neither came in time.
    Timeout,
}

/// What one frame says of the device, if it decides the wait.
pub open spec fn announced(frame: Frame) -> Option<Readiness> {
    match frame {
        Frame::Refused { error: _, bad_version: Some(got) } => Some(Readiness::BadVersion(got)),
        Frame::Message { kind: _, seq: _, body: Body::Hello(h) } => Some(
            Readiness::Hello(h.protocol_version),
        ),
        _ => None,
    }
}

/// What one frame says of the device, if it decides the wait.
pub fn hello_step(frame: &Frame) -> (r: Option<Readiness>)
    ensures
        r == announced(*frame),
{
    match frame {
        Frame::Refused { error: _, bad_version } => match bad_version {
            Some(got) => Some(Readiness::BadVersion(*got)),
            None => None,
        },
        Frame::Message { kind: _, seq: _, body } => match body {
            Body::Hello(h) => Some(Readiness::Hello(h.protocol_version)),
            _ => None,
        },
    }
}

/// What the frames that came in time say: the first that decides.
pub open spec fn readiness(frames: Seq<Frame>) -> Readiness
    decreases frames.len(),
{
    if frames.len() == 0 {
        Readiness::Timeout
    } else {
        match announced(frames[0]) {
            Some(r) => r,
            None => readiness(frames.skip(1)),
        }
    }
}

/// Waits for the announcement of a device among the frames that came in time.
pub fn wait_for_hello(frames: &Vec<Frame>) -> (r: Readiness)
    ensures
        r == readiness(frames@),
{
    let mut i: usize = 0;
    assert(frames@.skip(0) =~= frames@);
    while i < frames.len()
        invariant
            i <= frames@.len(),
            readiness(frames@) == readiness(frames@.skip(i as int)),
        decreases frames@.len() - i,
    {
        if let Some(r) = hello_step(&frames[i]) {
            return r;
        }
        assert(frames@.skip(i as int).skip(1) =~= frames@.skip(i + 1));
        i = i + 1;
    }
    Readiness::Timeout
}

/// How long to settle before the first command, in milliseconds.
pub open spec fn settle(r: Readiness, delay: Option<u64>) -> u64 {
    match r {
        Readiness::Hello(_) => match delay {
            Some(d) => if d > POST_HELLO_GUARD_MS {
                d
            } else {
                POST_HELLO_GUARD_MS
            },
            None => POST_HELLO_GUARD_MS,
        },
        Readiness::BadVersion(_) => 0,
        Readiness::Timeout => match delay {
            Some(d) => d,
            None => DEFAULT_SETTLE_MS,
        },
    }
}

/// What to do once the wait is over: how long to settle, and what to say where nothing
/// came.
pub fn await_ready(r: Readiness, delay: Option<u64>) -> (s: (u64, Option<Emit>))
    ensures
        s.0 == settle(r, delay),
        s.1.deep_view() == if r == Readiness::Timeout {
            Some(
                EmitV::Note(
                    "[tower] no boot Hello within "@ + dec((HELLO_WAIT_MS / 1000) as nat)
                        + "s of the reset — device wedged or console-less? sending anyway"@,
                ),
            )
        } else {
            None
        },
{
    match r {
        Readiness::Hello(_) => {
            let extra: u64 = match delay {
                Some(d) => d,
                None => 0,
            };
            (if extra > POST_HELLO_GUARD_MS { extra } else { POST_HELLO_GUARD_MS }, None)
        },
        Readiness::BadVersion(_) => (0, None),
        Readiness::Timeout => {
            let note = cat3(
                "[tower] no boot Hello within ",
                dec_u64(HELLO_WAIT_MS / 1000).as_str(),
                "s of the reset — device wedged or console-less? sending anyway",
            );
            let ms: u64 = match delay {
                Some(d) => d,
                None => DEFAULT_SETTLE_MS,
            };
            (ms, Some(Emit::Note(note)))
        },
    }
}

/// The version of a device that does not speak ours.
pub open spec fn mismatch_in(wire: Wire, r: Readiness) -> Option<u8> {
    match r {
        Readiness::BadVersion(got) => Some(got),
        Readiness::Hello(v) => if v != wire.protocol_version {
            Some(v)
        } else {
            None
        },
        Readiness::Timeout => None,
    }
}

/// The version of a device that does not speak ours.
pub fn mismatch(wire: &Wire, r: Readiness) -> (v: Option<u8>)
    ensures
        v == mismatch_in(*wire, r),
{
    match r {
        Readiness::BadVersion(got) => Some(got),
        Readiness::Hello(v) => if v != wire.protocol_version {
            Some(v)
        } else {
            None
        },
        Readiness::Timeout => None,
    }
}

// ---- shell responses ---------------------------------------------------------------

/// The reassembled answer to a shell command.
#[derive(Debug, PartialEq)]
pub struct Response {
    /// The device's result (that of the last chunk).
    pub result: u8,
    pub text: String,
    /// A chunk was lost: the text misses a piece.
    pub incomplete: bool,
}

/// What came of waiting for an answer. Where the time is over, it says whether frames with
/// another version tag were seen: then the link is not dead, but the two ends speak
/// different versions.
#[derive(Debug, PartialEq)]
pub enum ReadOutcome {
    Response(Response),
    /// The answer began and never ended: this is what came of it.
    Cut { text: String, bad_version: Option<u8> },
    /// Nothing of an answer came.
    Timeout { bad_version: Option<u8> },
}

#[verifier::ext_equal]
pub enum ReadOutcomeV {
    Response { result: u8, text: Seq<char>, incomplete: bool },
    Cut { text: Seq<char>, bad_version: Option<u8> },
    Timeout { bad_version: Option<u8> },
}

impl DeepView for ReadOutcome {
    type V = ReadOutcomeV;

    open spec fn deep_view(&self) -> ReadOutcomeV {
        match self {
            ReadOutcome::Response(r) => ReadOutcomeV::Response {
                result: r.result,
                text: r.text@,
                incomplete: r.incomplete,
            },
            ReadOutcome::Cut { text, bad_version } => ReadOutcomeV::Cut {
                text: text@,
                bad_version: *bad_version,
            },
            ReadOutcome::Timeout { bad_version } => ReadOutcomeV::Timeout {
                bad_version: *bad_version,
            },
        }
    }
}

impl ReadOutcome {
    /// The answer that came.
    pub fn unwrap(self) -> (r: Response)
        requires
            self is Response,
        ensures
            self == ReadOutcome::Response(r),
    {
        match self {
            ReadOutcome::Response(r) => r,
            _ => Response { result: 0, text: String::new(), incomplete: true },
        }
    }

    /// Nothing of an answer came.
    pub fn is_none(&self) -> (r: bool)
        ensures
            r == (self is Timeout),
    {
        match self {
            ReadOutcome::Timeout { .. } => true,
            _ => false,
        }
    }
}

/// A shell command that waits for its answer.
#[derive(Debug, PartialEq)]
pub struct ShellWait {
    pub cmd_id: u16,
    /// A chunk has come.
    pub begun: bool,
    pub text: String,
    pub next_chunk: u16,
    pub incomplete: bool,
    pub bad_version: Option<u8>,
}

#[verifier::ext_equal]
pub struct ShellWaitV {
    pub cmd_id: u16,
    pub begun: bool,
    pub text: Seq<char>,
    pub next_chunk: u16,
    pub incomplete: bool,
    pub bad_version: Option<u8>,
}

impl View for ShellWait {
    type V = ShellWaitV;

    open spec fn view(&self) -> ShellWaitV {
        ShellWaitV {
            cmd_id: self.cmd_id,
            begun: self.begun,
            text: self.text@,
            next_chunk: self.next_chunk,
            incomplete: self.incomplete,
            bad_version: self.bad_version,
        }
    }
}

/// What one frame did to a waiting command.
#[derive(Debug, PartialEq)]
pub enum ShellStep {
    /// The frame was not for this command.
    Ignored,
    /// A chunk of the answer: the idle deadline starts anew.
    Progress,
    /// The last chunk.
    Done(Response),
}

/// The chunk of this command's answer that a frame carries, if it carries one.
pub open spec fn shell_chunk(frame: Frame, cmd_id: u16) -> Option<ShellResponse> {
    match frame {
        Frame::Message { kind: _, seq: _, body: Body::ShellResponse(r) } => if r.cmd_id == cmd_id {
            Some(r)
        } else {
            None
        },
        _ => None,
    }
}

/// A waiting command once a frame has come.
pub open spec fn shell_after(w: ShellWaitV, frame: Frame) -> ShellWaitV {
    match shell_chunk(frame, w.cmd_id) {
        Some(r) => ShellWaitV {
            begun: true,
            text: w.text + r.text@,
            next_chunk: next_index(r.chunk),
            incomplete: w.incomplete || r.chunk != w.next_chunk,
            ..w
        },
        None => match frame {
            Frame::Refused { error: _, bad_version: Some(got) } => ShellWaitV {
                bad_version: Some(got),
                ..w
            },
            _ => w,
        },
    }
}

/// What is said of a frame: a lost chunk is reported.
pub open spec fn shell_notes(w: ShellWaitV, frame: Frame) -> Seq<EmitV> {
    match shell_chunk(frame, w.cmd_id) {
        Some(r) => if r.chunk != w.next_chunk {
            seq![
                EmitV::Note(
                    "[tower] response chunk dropped (expected #"@ + dec(w.next_chunk as nat)
                        + ", got #"@ + dec(r.chunk as nat) + ") — output truncated"@,
                ),
            ]
        } else {
            Seq::empty()
        },
        None => Seq::empty(),
    }
}

/// Nothing has come yet for a command.
pub open spec fn shell_start(cmd_id: u16) -> ShellWaitV {
    ShellWaitV {
        cmd_id,
        begun: false,
        text: Seq::empty(),
        next_chunk: 0,
        incomplete: false,
        bad_version: None,
    }
}

impl ShellWait {
    pub fn new(cmd_id: u16) -> (r: ShellWait)
        ensures
            r@ == shell_start(cmd_id),
    {
        ShellWait {
            cmd_id,
            begun: false,
            text: String::new(),
            next_chunk: 0,
            incomplete: false,
            bad_version: None,
        }
    }

    /// Takes one frame; what has to be said goes to `notes`. Frames that answer no command
    /// or another one (logs, events) change nothing.
    pub fn on_frame(&mut self, frame: &Frame, notes: &mut Vec<Emit>) -> (r: ShellStep)
        ensures
            final(self)@ == shell_after(old(self)@, *frame),
            final(notes).deep_view() == old(notes).deep_view() + shell_notes(old(self)@, *frame),
            match shell_chunk(*frame, old(self).cmd_id) {
                None => r == ShellStep::Ignored,
                Some(c) => if c.last {
                    r matches ShellStep::Done(rsp) && rsp.result == c.result && rsp.text@
                        == final(self)@.text && rsp.incomplete == final(self)@.incomplete
                } else {
                    r == ShellStep::Progress
                },
            },
    {
        let ghost before = notes.deep_view();
        match frame {
            Frame::Refused { error: _, bad_version } => {
                if let Some(got) = bad_version {
                    self.bad_version = Some(*got);
                }
                assert(notes.deep_view() =~= before + shell_notes(old(self)@, *frame));
                ShellStep::Ignored
            },
            Frame::Message { kind: _, seq: _, body } => match body {
                Body::ShellResponse(c) => {
                    if c.cmd_id != self.cmd_id {
                        assert(notes.deep_view() =~= before + shell_notes(old(self)@, *frame));
                        return ShellStep::Ignored;
                    }
                    if c.chunk != self.next_chunk {
                        let note = cat5(
                            "[tower] response chunk dropped (expected #",
                            dec_u64(self.next_chunk as u64).as_str(),
                            ", got #",
                            dec_u64(c.chunk as u64).as_str(),
                            ") — output truncated",
                        );
                        push_deep(notes, Emit::Note(note));
                        self.incomplete = true;
                    }
                    assert(notes.deep_view() =~= before + shell_notes(old(self)@, *frame));
                    self.begun = true;
                    self.next_chunk = c.chunk.wrapping_add(1);
                    self.text.append(c.text.as_str());
                    if c.last {
                        ShellStep::Done(
                            Response {
                                result: c.result,
                                text: self.text.clone(),
                                incomplete: self.incomplete,
                            },
                        )
                    } else {
                        ShellStep::Progress
                    }
                },
                _ => {
                    assert(notes.deep_view() =~= before + shell_notes(old(self)@, *frame));
                    ShellStep::Ignored
                },
            },
        }
    }

    /// No more frames come: the answer is cut off, or nothing of it came at all.
    pub fn timed_out(self) -> (r: ReadOutcome)
        ensures
            r.deep_view() == shell_ended(self@),
    {
        if self.begun {
            ReadOutcome::Cut { text: self.text, bad_version: self.bad_version }
        } else {
            ReadOutcome::Timeout { bad_version: self.bad_version }
        }
    }
}

/// What there is of the answer where no more frames come.
pub open spec fn shell_ended(w: ShellWaitV) -> ReadOutcomeV {
    if w.begun {
        ReadOutcomeV::Cut { text: w.text, bad_version: w.bad_version }
    } else {
        ReadOutcomeV::Timeout { bad_version: w.bad_version }
    }
}

/// What the frames that came in time make of a waiting command.
pub open spec fn shell_outcome(w: ShellWaitV, frames: Seq<Frame>) -> ReadOutcomeV
    decreases frames.len(),
{
    if frames.len() == 0 {
        shell_ended(w)
    } else {
        let next = shell_after(w, frames[0]);
        match shell_chunk(frames[0], w.cmd_id) {
            Some(c) => if c.last {
                ReadOutcomeV::Response {
                    result: c.result,
                    text: next.text,
                    incomplete: next.incomplete,
                }
            } else {
                shell_outcome(next, frames.skip(1))
            },
            None => shell_outcome(next, frames.skip(1)),
        }
    }
}

/// What is said of the frames up to the end of the answer.
pub open spec fn shell_remarks(w: ShellWaitV, frames: Seq<Frame>) -> Seq<EmitV>
    decreases frames.len(),
{
    if frames.len() == 0 {
        Seq::empty()
    } else {
        let first = shell_notes(w, frames[0]);
        match shell_chunk(frames[0], w.cmd_id) {
            Some(c) => if c.last {
                first
            } else {
                first + shell_remarks(shell_after(w, frames[0]), frames.skip(1))
            },
            None => first + shell_remarks(shell_after(w, frames[0]), frames.skip(1)),
        }
    }
}

/// Reads the answer to `cmd_id` out of the frames that came in time; lost chunks are
/// reported in `notes`.
pub fn read_response(cmd_id: u16, frames: &Vec<Frame>, notes: &mut Vec<Emit>) -> (r: ReadOutcome)
    ensures
        r.deep_view() == shell_outcome(shell_start(cmd_id), frames@),
        final(notes).deep_view() == old(notes).deep_view() + shell_remarks(
            shell_start(cmd_id),
            frames@,
        ),
{
    let mut w = ShellWait::new(cmd_id);
    let mut i: usize = 0;
    let ghost goal = notes.deep_view() + shell_remarks(shell_start(cmd_id), frames@);
    assert(frames@.skip(0) =~= frames@);
    while i < frames.len()
        invariant
            i <= frames@.len(),
            w.cmd_id == cmd_id,
            shell_outcome(shell_start(cmd_id), frames@) == shell_outcome(w@, frames@.skip(i as int)),
            goal == old(notes).deep_view() + shell_remarks(shell_start(cmd_id), frames@),
            notes.deep_view() + shell_remarks(w@, frames@.skip(i as int)) == goal,
        decreases frames@.len() - i,
    {
        assert(frames@.skip(i as int).skip(1) =~= frames@.skip(i + 1));
        let ghost before = notes.deep_view();
        let ghost rest = shell_remarks(shell_after(w@, frames@[i as int]), frames@.skip(i + 1));
        let ghost first = shell_notes(w@, frames@[i as int]);
        if let ShellStep::Done(r) = w.on_frame(&frames[i], notes) {
            assert(notes.deep_view() =~= goal);
            return ReadOutcome::Response(r);
        }
        assert((before + first) + rest =~= before + (first + rest));
        i = i + 1;
    }
    assert(notes.deep_view() =~= goal);
    w.timed_out()
}

// ---- completions -------------------------------------------------------------------

/// What a completion offers.
#[derive(Debug, PartialEq)]
pub struct CompletionResult {
    pub token_start: u16,
    pub common_prefix: String,
    pub candidates: Vec<(String, CandidateKind)>,
    pub more: bool,
}

/// What came of a request for completions.
#[derive(Debug, PartialEq)]
pub enum CompletionOutcome {
    Completions(CompletionResult),
    Timeout { bad_version: Option<u8> },
}

#[verifier::ext_equal]
pub struct CompletionResultV {
    pub token_start: u16,
    pub common_prefix: Seq<char>,
    pub candidates: Seq<(Seq<char>, CandidateKind)>,
    pub more: bool,
}

#[verifier::ext_equal]
pub enum CompletionOutcomeV {
    Completions(CompletionResultV),
    Timeout { bad_version: Option<u8> },
}

pub open spec fn candidate_views(c: Seq<(String, CandidateKind)>) -> Seq<(Seq<char>, CandidateKind)> {
    Seq::new(c.len(), |i: int| (c[i].0@, c[i].1))
}

impl DeepView for CompletionResult {
    type V = CompletionResultV;

    open spec fn deep_view(&self) -> CompletionResultV {
        CompletionResultV {
            token_start: self.token_start,
            common_prefix: self.common_prefix@,
            candidates: candidate_views(self.candidates@),
            more: self.more,
        }
    }
}

impl DeepView for CompletionOutcome {
    type V = CompletionOutcomeV;

    open spec fn deep_view(&self) -> CompletionOutcomeV {
        match self {
            CompletionOutcome::Completions(c) => CompletionOutcomeV::Completions(c.deep_view()),
            CompletionOutcome::Timeout { bad_version } => CompletionOutcomeV::Timeout {
                bad_version: *bad_version,
            },
        }
    }
}

impl CompletionOutcome {
    /// The completions that came.
    pub fn unwrap(self) -> (r: CompletionResult)
        requires
            self is Completions,
        ensures
            self == CompletionOutcome::Completions(r),
    {
        match self {
            CompletionOutcome::Completions(c) => c,
            CompletionOutcome::Timeout { .. } => CompletionResult {
                token_start: 0,
                common_prefix: String::new(),
                candidates: Vec::new(),
                more: false,
            },
        }
    }

    /// No completions came.
    pub fn is_none(&self) -> (r: bool)
        ensures
            r == (self is Timeout),
    {
        match self {
            CompletionOutcome::Completions(_) => false,
            CompletionOutcome::Timeout { .. } => true,
        }
    }
}

pub open spec fn offered(c: Seq<Candidate>) -> Seq<(Seq<char>, CandidateKind)> {
    Seq::new(c.len(), |i: int| (c[i].text@, c[i].kind))
}

pub open spec fn result_of(c: ShellCompletions) -> CompletionResultV {
    CompletionResultV {
        token_start: c.token_start,
        common_prefix: c.common_prefix@,
        candidates: offered(c.candidates@),
        more: c.more,
    }
}

/// The completions for this request that a frame carries, if it carries them.
pub open spec fn completions_in(frame: Frame, req_id: u16) -> Option<CompletionResultV> {
    match frame {
        Frame::Message { kind: _, seq: _, body: Body::ShellCompletions(c) } => if c.req_id == req_id {
            Some(result_of(c))
        } else {
            None
        },
        _ => None,
    }
}

fn take_completions(c: &ShellCompletions) -> (r: CompletionResult)
    ensures
        r.deep_view() == result_of(*c),
{
    let mut v: Vec<(String, CandidateKind)> = Vec::new();
    let mut i: usize = 0;
    while i < c.candidates.len()
        invariant
            i <= c.candidates@.len(),
            v@.len() == i,
            forall|j: int|
                0 <= j < i ==> (#[trigger] v@[j]).0@ == c.candidates@[j].text@ && v@[j].1
                    == c.candidates@[j].kind,
        decreases c.candidates@.len() - i,
    {
        v.push((c.candidates[i].text.clone(), c.candidates[i].kind));
        i = i + 1;
    }
    assert(candidate_views(v@) =~= offered(c.candidates@));
    CompletionResult {
        token_start: c.token_start,
        common_prefix: c.common_prefix.clone(),
        candidates: v,
        more: c.more,
    }
}

/// The completions for this request that a frame carries, if it carries them.
fn completion_step(frame: &Frame, req_id: u16) -> (r: Option<CompletionResult>)
    ensures
        r.deep_view() == completions_in(*frame, req_id),
{
    match frame {
        Frame::Message { kind: _, seq: _, body } => match body {
            Body::ShellCompletions(c) => if c.req_id == req_id {
                Some(take_completions(c))
            } else {
                None
            },
            _ => None,
        },
        Frame::Refused { .. } => None,
    }
}

/// The version tag that a frame was refused for.
pub open spec fn refused_version(frame: Frame) -> Option<u8> {
    match frame {
        Frame::Refused { error: _, bad_version } => bad_version,
        _ => None,
    }
}

/// What the frames that came in time make of a request for completions.
pub open spec fn completion_outcome(
    req_id: u16,
    frames: Seq<Frame>,
    bad_version: Option<u8>,
) -> CompletionOutcomeV
    decreases frames.len(),
{
    if frames.len() == 0 {
        CompletionOutcomeV::Timeout { bad_version }
    } else {
        match completions_in(frames[0], req_id) {
            Some(c) => CompletionOutcomeV::Completions(c),
            None => completion_outcome(
                req_id,
                frames.skip(1),
                latest_version(frames[0], bad_version),
            ),
        }
    }
}

/// The version tag that was seen last.
pub open spec fn latest_version(frame: Frame, before: Option<u8>) -> Option<u8> {
    match refused_version(frame) {
        Some(got) => Some(got),
        None => before,
    }
}

/// A request for completions that waits for them.
#[derive(Debug, Clone, Copy, PartialEq, Eq, Structural)]
pub struct CompletionWait {
    pub req_id: u16,
    /// The version tag of the last frame that was refused for it.
    pub bad_version: Option<u8>,
}

impl CompletionWait {
    pub fn new(req_id: u16) -> (r: CompletionWait)
        ensures
            r == (CompletionWait { req_id, bad_version: None }),
    {
        CompletionWait { req_id, bad_version: None }
    }

    /// Takes a frame: the completions, once they have come.
    pub fn on_frame(&mut self, frame: &Frame) -> (r: Option<CompletionResult>)
        ensures
            r.deep_view() == completions_in(*frame, old(self).req_id),
            *final(self) == (CompletionWait {
                req_id: old(self).req_id,
                bad_version: latest_version(*frame, old(self).bad_version),
            }),
    {
        if let Frame::Refused { error: _, bad_version: Some(got) } = frame {
            self.bad_version = Some(*got);
        }
        completion_step(frame, self.req_id)
    }

    /// The time is over.
    pub fn timed_out(&self) -> (r: CompletionOutcome)
        ensures
            r.deep_view() == (CompletionOutcomeV::Timeout { bad_version: self.bad_version }),
    {
        CompletionOutcome::Timeout { bad_version: self.bad_version }
    }
}

/// Reads the completions for `req_id` out of the frames that came in time.
pub fn request_completions(req_id: u16, frames: &Vec<Frame>) -> (r: CompletionOutcome)
    ensures
        r.deep_view() == completion_outcome(req_id, frames@, None),
{
    let mut w = CompletionWait::new(req_id);
    let mut i: usize = 0;
    assert(frames@.skip(0) =~= frames@);
    while i < frames.len()
        invariant
            i <= frames@.len(),
            w.req_id == req_id,
            completion_outcome(req_id, frames@, None) == completion_outcome(
                req_id,
                frames@.skip(i as int),
                w.bad_version,
            ),
        decreases frames@.len() - i,
    {
        assert(frames@.skip(i as int).skip(1) =~= frames@.skip(i + 1));
        if let Some(c) = w.on_frame(&frames[i]) {
            return CompletionOutcome::Completions(c);
        }
        i = i + 1;
    }
    w.timed_out()
}

// ---- laws --------------------------------------------------------------------------

/// A chunk that is out of its turn marks the answer as incomplete, and nothing takes that
/// back.
pub proof fn law_gap_is_never_forgotten(w: ShellWaitV, frame: Frame)
    ensures
        w.incomplete ==> shell_after(w, frame).incomplete,
        shell_chunk(frame, w.cmd_id) matches Some(r) && r.chunk != w.next_chunk ==> shell_after(
            w,
            frame,
        ).incomplete,
{
}

/// An answer that has begun is never taken for silence, whatever else comes.
pub proof fn law_begun_answers_are_no_silence(w: ShellWaitV, frames: Seq<Frame>)
    requires
        w.begun,
    ensures
        !(shell_outcome(w, frames) is Timeout),
    decreases frames.len(),
{
    if frames.len() > 0 {
        law_begun_answers_are_no_silence(shell_after(w, frames[0]), frames.skip(1));
    }
}

/// Frames of other commands change nothing of an answer.
pub proof fn law_foreign_frames_are_ignored(w: ShellWaitV, frame: Frame, frames: Seq<Frame>)
    requires
        shell_chunk(frame, w.cmd_id) is None,
        refused_version(frame) is None,
    ensures
        shell_outcome(w, seq![frame] + frames) == shell_outcome(w, frames),
{
    assert((seq![frame] + frames).skip(1) =~= frames);
    assert((seq![frame] + frames)[0] == frame);
}

} // verus!

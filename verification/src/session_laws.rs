//! What the answers of a device come to, said of the frames themselves.

use crate::commands::{exec_verdict, shell_shown};
use crate::frame::{Body, Candidate, Frame, ShellResponse};
use crate::render::EmitV;
use crate::session::{
    completion_outcome, readiness, settle, shell_after, shell_notes, shell_outcome, shell_remarks, shell_start,
    CompletionOutcomeV, CompletionResultV, ReadOutcomeV, Readiness, ShellWaitV,
};
use crate::text::dec;
use crate::wire::Wire;
use vstd::prelude::*;

verus! {

// ---- the chunks among the frames ---------------------------------------------------

/// The frame is a chunk of the answer to `cmd_id`.
pub open spec fn is_chunk(f: Frame, cmd_id: u16) -> bool {
    match f {
        Frame::Message { kind: _, seq: _, body: Body::ShellResponse(r) } => r.cmd_id == cmd_id,
        _ => false,
    }
}

/// The chunk that such a frame carries.
pub open spec fn chunk_in(f: Frame) -> ShellResponse
    recommends
        f matches Frame::Message { body: Body::ShellResponse(_), .. },
{
    match f {
        Frame::Message { kind: _, seq: _, body: Body::ShellResponse(r) } => r,
        _ => arbitrary(),
    }
}

/// The chunks of the answer to `cmd_id`, as they came.
pub open spec fn chunks(frames: Seq<Frame>, cmd_id: u16) -> Seq<ShellResponse>
    decreases frames.len(),
{
    if frames.len() == 0 {
        Seq::empty()
    } else if is_chunk(frames[0], cmd_id) {
        seq![chunk_in(frames[0])] + chunks(frames.skip(1), cmd_id)
    } else {
        chunks(frames.skip(1), cmd_id)
    }
}

/// All that the chunks say, in a row.
pub open spec fn whole_text(cs: Seq<ShellResponse>) -> Seq<char>
    decreases cs.len(),
{
    if cs.len() == 0 {
        Seq::empty()
    } else {
        cs[0].text@ + whole_text(cs.skip(1))
    }
}

/// Each chunk has the number behind the one before it, the first one `from`.
pub open spec fn numbered_from(cs: Seq<ShellResponse>, from: u16) -> bool
    decreases cs.len(),
{
    cs.len() > 0 ==> cs[0].chunk == from && numbered_from(
        cs.skip(1),
        ((from + 1) % 0x1_0000) as u16,
    )
}

/// The last chunk, and no other, is marked as the last.
pub open spec fn ends_once(cs: Seq<ShellResponse>) -> bool {
    &&& cs.len() > 0
    &&& forall|i: int| 0 <= i < cs.len() ==> (#[trigger] cs[i]).last == (i == cs.len() - 1)
}

/// The version tag of the last frame that was refused for it.
pub open spec fn last_tag(frames: Seq<Frame>, before: Option<u8>) -> Option<u8>
    decreases frames.len(),
{
    if frames.len() == 0 {
        before
    } else {
        last_tag(
            frames.skip(1),
            match frames[0] {
                Frame::Refused { error: _, bad_version: Some(got) } => Some(got),
                _ => before,
            },
        )
    }
}

proof fn lemma_numbered(cs: Seq<ShellResponse>, from: u16)
    requires
        forall|j: int| 0 <= j < cs.len() ==> (#[trigger] cs[j]).chunk == (from + j) % 0x1_0000,
    ensures
        numbered_from(cs, from),
    decreases cs.len(),
{
    if cs.len() > 0 {
        let next = ((from + 1) % 0x1_0000) as u16;
        assert forall|j: int| 0 <= j < cs.skip(1).len() implies (#[trigger] cs.skip(1)[j]).chunk == (
        next + j) % 0x1_0000 by {
            assert(cs.skip(1)[j] == cs[j + 1]);
        }
        assert(cs[0].chunk == from);
        lemma_numbered(cs.skip(1), next);
    }
}

proof fn lemma_complete(w: ShellWaitV, frames: Seq<Frame>)
    requires
        ends_once(chunks(frames, w.cmd_id)),
    ensures
        ({
            let cs = chunks(frames, w.cmd_id);
            shell_outcome(w, frames) == ReadOutcomeV::Response {
                result: cs.last().result,
                text: w.text + whole_text(cs),
                incomplete: w.incomplete || !numbered_from(cs, w.next_chunk),
            }
        }),
    decreases frames.len(),
{
    let cs = chunks(frames, w.cmd_id);
    let rest = frames.skip(1);
    if is_chunk(frames[0], w.cmd_id) {
        let c = chunk_in(frames[0]);
        let more = chunks(rest, w.cmd_id);
        assert(cs.skip(1) =~= more);
        assert(cs[0] == c);
        let next = shell_after(w, frames[0]);
        assert(next.next_chunk == (c.chunk + 1) % 0x1_0000);
        if more.len() == 0 {
            assert(whole_text(cs) =~= c.text@) by {
                assert(whole_text(more) =~= Seq::<char>::empty());
            }
            assert(numbered_from(more, next.next_chunk));
        } else {
            assert forall|i: int| 0 <= i < more.len() implies (#[trigger] more[i]).last == (i
                == more.len() - 1) by {
                assert(more[i] == cs[i + 1]);
            }
            assert(cs.last() == more.last());
            assert(!c.last);
            lemma_complete(next, rest);
            assert(w.text + whole_text(cs) =~= next.text + whole_text(more));
            if c.chunk != w.next_chunk {
                assert(next.incomplete);
            }
        }
    } else {
        lemma_complete(shell_after(w, frames[0]), rest);
    }
}

proof fn lemma_unfinished(w: ShellWaitV, frames: Seq<Frame>)
    requires
        forall|i: int| 0 <= i < chunks(frames, w.cmd_id).len() ==> !(#[trigger] chunks(frames, w.cmd_id)[i]).last,
    ensures
        ({
            let cs = chunks(frames, w.cmd_id);
            shell_outcome(w, frames) == if w.begun || cs.len() > 0 {
                ReadOutcomeV::Cut {
                    text: w.text + whole_text(cs),
                    bad_version: last_tag(frames, w.bad_version),
                }
            } else {
                ReadOutcomeV::Timeout { bad_version: last_tag(frames, w.bad_version) }
            }
        }),
    decreases frames.len(),
{
    let cs = chunks(frames, w.cmd_id);
    if frames.len() == 0 {
        assert(w.text + whole_text(cs) =~= w.text);
    } else {
        let rest = frames.skip(1);
        let more = chunks(rest, w.cmd_id);
        let next = shell_after(w, frames[0]);
        if is_chunk(frames[0], w.cmd_id) {
            let c = chunk_in(frames[0]);
            assert(cs.skip(1) =~= more);
            assert(cs[0] == c);
            assert(!cs[0].last);
            assert forall|i: int| 0 <= i < more.len() implies !(#[trigger] more[i]).last by {
                assert(more[i] == cs[i + 1]);
            }
            lemma_unfinished(next, rest);
            assert(w.text + whole_text(cs) =~= next.text + whole_text(more));
        } else {
            lemma_unfinished(next, rest);
        }
    }
}

// ---- laws --------------------------------------------------------------------------

/// An answer whose chunks all came, in their order, is whole: it has the text of every one
/// of them in a row and the result of the last, whatever other frames came between.
pub proof fn law_whole_answers_are_whole(cmd_id: u16, frames: Seq<Frame>)
    requires
        ends_once(chunks(frames, cmd_id)),
        forall|i: int|
            0 <= i < chunks(frames, cmd_id).len() ==> (#[trigger] chunks(frames, cmd_id)[i]).chunk
                == i % 0x1_0000,
    ensures
        ({
            let cs = chunks(frames, cmd_id);
            shell_outcome(shell_start(cmd_id), frames) == ReadOutcomeV::Response {
                result: cs.last().result,
                text: whole_text(cs),
                incomplete: false,
            }
        }),
{
    let cs = chunks(frames, cmd_id);
    lemma_numbered(cs, 0);
    lemma_complete(shell_start(cmd_id), frames);
    assert(Seq::<char>::empty() + whole_text(cs) =~= whole_text(cs));
}

/// An answer that came to its end says what its chunks say, and is called incomplete exactly
/// where their numbers do not follow each other from 0.
pub proof fn law_gaps_are_told(cmd_id: u16, frames: Seq<Frame>)
    requires
        ends_once(chunks(frames, cmd_id)),
    ensures
        ({
            let cs = chunks(frames, cmd_id);
            shell_outcome(shell_start(cmd_id), frames) == ReadOutcomeV::Response {
                result: cs.last().result,
                text: whole_text(cs),
                incomplete: !numbered_from(cs, 0),
            }
        }),
{
    let cs = chunks(frames, cmd_id);
    lemma_complete(shell_start(cmd_id), frames);
    assert(Seq::<char>::empty() + whole_text(cs) =~= whole_text(cs));
}

/// Without a last chunk the answer is cut off, with all that came of it, or, where nothing
/// came, there was none; either way the last refused version tag is told.
pub proof fn law_answers_without_an_end(cmd_id: u16, frames: Seq<Frame>)
    requires
        forall|i: int|
            0 <= i < chunks(frames, cmd_id).len() ==> !(#[trigger] chunks(frames, cmd_id)[i]).last,
    ensures
        ({
            let cs = chunks(frames, cmd_id);
            shell_outcome(shell_start(cmd_id), frames) == if cs.len() > 0 {
                ReadOutcomeV::Cut { text: whole_text(cs), bad_version: last_tag(frames, None) }
            } else {
                ReadOutcomeV::Timeout { bad_version: last_tag(frames, None) }
            }
        }),
{
    lemma_unfinished(shell_start(cmd_id), frames);
    let cs = chunks(frames, cmd_id);
    assert(Seq::<char>::empty() + whole_text(cs) =~= whole_text(cs));
}

/// Every chunk that is out of its turn is reported, with the number that was due and the one
/// that came; nothing else is.
pub proof fn law_each_gap_is_reported(w: ShellWaitV, frame: Frame)
    ensures
        shell_notes(w, frame) == if is_chunk(frame, w.cmd_id) && chunk_in(frame).chunk
            != w.next_chunk {
            seq![
                EmitV::Note(
                    "[tower] response chunk dropped (expected #"@ + dec(w.next_chunk as nat)
                        + ", got #"@ + dec(chunk_in(frame).chunk as nat) + ") — output truncated"@,
                ),
            ]
        } else {
            Seq::empty()
        },
{
}

/// A command whose answer is whole writes that answer, ends its last line, and exits with
/// the device's result.
pub proof fn law_exec_writes_the_answer(wire: Wire, result: u8, text: Seq<char>)
    ensures
        ({
            let v = exec_verdict(
                wire,
                ReadOutcomeV::Response { result, text, incomplete: false },
            );
            &&& v.out[0] == EmitV::Text(text)
            &&& text.len() > 0 && text.last() != '\n' ==> v.out[1] == EmitV::Line(""@)
            &&& result == 0 ==> v.code == 0 && v.out.len() == if text.len() > 0 && text.last() != '\n' {
                2int
            } else {
                1
            }
            &&& 1 <= result <= 123 ==> v.code == result
            &&& result > 123 ==> v.code == 123
            &&& result > 0 ==> v.out.last() == EmitV::Note("[result "@ + dec(result as nat) + "]"@)
                && v.out.len() == if text.len() > 0 && text.last() != '\n' {
                3int
            } else {
                2
            }
        }),
{
}

/// The interactive shell writes the same of a whole answer.
pub proof fn law_shell_writes_the_answer(wire: Wire, result: u8, text: Seq<char>, incomplete: bool, warned: bool)
    ensures
        shell_shown(wire, ReadOutcomeV::Response { result, text, incomplete }, warned) == exec_verdict(
            wire,
            ReadOutcomeV::Response { result, text, incomplete: false },
        ).out,
        shell_shown(wire, ReadOutcomeV::Cut { text, bad_version: None }, warned) == exec_verdict(
            wire,
            ReadOutcomeV::Cut { text, bad_version: None },
        ).out,
        shell_shown(wire, ReadOutcomeV::Timeout { bad_version: None }, warned) == seq![
            EmitV::Note("[tower] no response (timeout)"@),
        ],
{
}

/// An answer that misses a piece or its end is written, called incomplete, and exits with 1;
/// silence exits with 124, and another protocol version with 125.
pub proof fn law_exec_writes_what_came(wire: Wire, result: u8, text: Seq<char>, v: u8)
    ensures
        ({
            let a = exec_verdict(wire, ReadOutcomeV::Response { result, text, incomplete: true });
            let b = exec_verdict(wire, ReadOutcomeV::Cut { text, bad_version: None });
            let c = exec_verdict(wire, ReadOutcomeV::Timeout { bad_version: None });
            let d = exec_verdict(wire, ReadOutcomeV::Timeout { bad_version: Some(v) });
            let e = exec_verdict(wire, ReadOutcomeV::Cut { text, bad_version: Some(v) });
            &&& a.code == 1 && a.out[0] == EmitV::Text(text) && a.out.last() == EmitV::Note(
                "[tower] response incomplete"@,
            )
            &&& b == a
            &&& c.code == 124 && c.out == seq![EmitV::Note("[tower] no response (timeout)"@)]
            &&& d.code == 125 && e == d
            &&& d.out.last() == EmitV::Note(
                "[tower] no "@ + "response"@ + " — device speaks protocol v"@ + dec(v as nat)
                    + ", tower speaks v"@ + dec(wire.protocol_version as nat)
                    + " (lockstep mismatch)"@,
            )
        }),
{
}

// ---- coming up, and completions ----------------------------------------------------

/// A device is up with its first greeting, whatever came before, or is of another version
/// with the first frame that is refused for its tag; without either it is not up in time.
pub proof fn law_devices_announce_themselves(frames: Seq<Frame>, i: int)
    requires
        0 <= i <= frames.len(),
        forall|j: int|
            0 <= j < i ==> !is_greeting(#[trigger] frames[j]) && !is_other_version(frames[j]),
        i < frames.len() ==> is_greeting(frames[i]) || is_other_version(frames[i]),
    ensures
        i == frames.len() ==> readiness(frames) == Readiness::Timeout,
        i < frames.len() ==> readiness(frames) == match frames[i] {
            Frame::Message { kind: _, seq: _, body: Body::Hello(h) } => Readiness::Hello(
                h.protocol_version,
            ),
            Frame::Refused { error: _, bad_version: Some(got) } => Readiness::BadVersion(got),
            _ => Readiness::Timeout,
        },
    decreases i,
{
    if i > 0 {
        let rest = frames.skip(1);
        assert(!is_greeting(frames[0]) && !is_other_version(frames[0]));
        assert forall|j: int| 0 <= j < i - 1 implies !is_greeting(#[trigger] rest[j])
            && !is_other_version(rest[j]) by {
            assert(rest[j] == frames[j + 1]);
        }
        law_devices_announce_themselves(rest, i - 1);
    }
}

/// The frame greets.
pub open spec fn is_greeting(f: Frame) -> bool {
    f matches Frame::Message { body: Body::Hello(_), .. }
}

/// The frame is refused for its version tag.
pub open spec fn is_other_version(f: Frame) -> bool {
    f matches Frame::Refused { bad_version: Some(_), .. }
}

/// Behind a greeting at least 150 ms are waited, and without one 250 ms, unless another time
/// is asked for; a device of another version is not waited for.
pub proof fn law_devices_settle(v: u8, d: u64)
    ensures
        settle(Readiness::Hello(v), None) == 150,
        d <= 150 ==> settle(Readiness::Hello(v), Some(d)) == 150,
        d > 150 ==> settle(Readiness::Hello(v), Some(d)) == d,
        settle(Readiness::Timeout, None) == 250,
        settle(Readiness::Timeout, Some(d)) == d,
        settle(Readiness::BadVersion(v), None) == 0,
        settle(Readiness::BadVersion(v), Some(d)) == 0,
{
}

/// The frame completes the request.
pub open spec fn completes(f: Frame, req_id: u16) -> bool {
    match f {
        Frame::Message { kind: _, seq: _, body: Body::ShellCompletions(c) } => c.req_id == req_id,
        _ => false,
    }
}

proof fn lemma_completions(req_id: u16, frames: Seq<Frame>, before: Option<u8>, i: int)
    requires
        0 <= i <= frames.len(),
        forall|j: int| 0 <= j < i ==> !completes(#[trigger] frames[j], req_id),
        i < frames.len() ==> completes(frames[i], req_id),
    ensures
        i == frames.len() ==> completion_outcome(req_id, frames, before)
            == (CompletionOutcomeV::Timeout { bad_version: last_tag(frames, before) }),
        i < frames.len() ==> completion_outcome(req_id, frames, before) == completion_outcome(
            req_id,
            seq![frames[i]],
            None,
        ),
    decreases i,
{
    if i > 0 {
        let rest = frames.skip(1);
        assert(!completes(frames[0], req_id));
        assert forall|j: int| 0 <= j < i - 1 implies !completes(#[trigger] rest[j], req_id) by {
            assert(rest[j] == frames[j + 1]);
        }
        lemma_completions(
            req_id,
            rest,
            match frames[0] {
                Frame::Refused { error: _, bad_version: Some(got) } => Some(got),
                _ => before,
            },
            i - 1,
        );
    }
}

/// The completions are those of the first frame that answers the request, with every
/// candidate in its order; without one there are none, and the last refused version tag is
/// told.
pub proof fn law_completions_are_those_asked_for(req_id: u16, frames: Seq<Frame>, i: int)
    requires
        0 <= i <= frames.len(),
        forall|j: int| 0 <= j < i ==> !completes(#[trigger] frames[j], req_id),
        i < frames.len() ==> completes(frames[i], req_id),
    ensures
        i == frames.len() ==> completion_outcome(req_id, frames, None)
            == (CompletionOutcomeV::Timeout { bad_version: last_tag(frames, None) }),
        i < frames.len() ==> (frames[i] matches Frame::Message {
            body: Body::ShellCompletions(c),
            ..
        } && completion_outcome(req_id, frames, None) == CompletionOutcomeV::Completions(
            CompletionResultV {
                token_start: c.token_start,
                common_prefix: c.common_prefix@,
                candidates: c.candidates@.map_values(|x: Candidate| (x.text@, x.kind)),
                more: c.more,
            },
        )),
{
    lemma_completions(req_id, frames, None, i);
    if i < frames.len() {
        if let Frame::Message { kind: _, seq: _, body: Body::ShellCompletions(c) } = frames[i] {
            assert(crate::session::offered(c.candidates@) =~= c.candidates@.map_values(
                |x: Candidate| (x.text@, x.kind),
            ));
        }
    }
}

/// The reports of an answer are those of its frames, in their order, up to its last chunk.
pub proof fn law_reports_are_put_together(w: ShellWaitV, frame: Frame, rest: Seq<Frame>)
    ensures
        shell_remarks(w, Seq::empty()).len() == 0,
        is_chunk(frame, w.cmd_id) && chunk_in(frame).last ==> shell_remarks(w, seq![frame] + rest)
            == shell_notes(w, frame),
        !is_chunk(frame, w.cmd_id) || !chunk_in(frame).last ==> shell_remarks(
            w,
            seq![frame] + rest,
        ) == shell_notes(w, frame) + shell_remarks(shell_after(w, frame), rest),
{
    let all = seq![frame] + rest;
    assert(all.skip(1) =~= rest);
    assert(all[0] == frame);
}

/// What is waited for next: the number behind that of the last chunk.
pub proof fn law_the_next_chunk_is_due(w: ShellWaitV, frame: Frame)
    ensures
        ({
            let next = shell_after(w, frame);
            let c = chunk_in(frame);
            &&& next.cmd_id == w.cmd_id
            &&& is_chunk(frame, w.cmd_id) ==> next.text == w.text + c.text@ && next.begun
                && next.next_chunk == (c.chunk + 1) % 0x1_0000 && next.incomplete == (w.incomplete
                || c.chunk != w.next_chunk) && next.bad_version == w.bad_version
            &&& !is_chunk(frame, w.cmd_id) ==> next.text == w.text && next.begun == w.begun
                && next.next_chunk == w.next_chunk && next.incomplete == w.incomplete
        }),
{
}

} // verus!

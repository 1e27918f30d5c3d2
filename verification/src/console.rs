//! The interactive console: four panes over one serial link. Keys edit a command line,
//! frames fill the panes. What has to be sent is handed out as a request; how the sending
//! went is handed back.

use crate::clock::{is_clock_ms, now};
use crate::frame::{
    Body, Candidate, CandidateKind, Frame, Level, Log, MsgType, ShellCompletions, ShellResponse,
};
use crate::line_edit;
use crate::line_edit::{
    bytes, cursor_ok, index_at, lemma_line, lemma_split_bytes, line_at, replaced, split_index,
    LineV,
};
use crate::render::{
    baseline, event_fields, field_texts, follower, label_text, log_line, log_text, one_more,
};
use crate::style::Color;
use crate::text::{
    byte_len, cat2, cat3, cat5, chars_of, dec, dec_u64, deep, join, join_of, lines, lines_of, same,
    trim_end, trim_end_ws,
};
use crate::wire::Wire;
use std::collections::VecDeque;
use vstd::prelude::*;
use vstd::std_specs::vecdeque::*;
use vstd::string::*;

verus! {

/// How many lines a pane keeps.
pub const CAP: usize = 5000;

#[derive(Debug, Clone, Copy, PartialEq, Eq, Structural)]
pub enum Pane {
    Command,
    Responses,
    Events,
    Logs,
}

/// The state of the console.
#[derive(Debug)]
pub struct Console {
    pub wire: Wire,
    pub port_name: String,
    pub connected: bool,
    pub logs: VecDeque<(String, Color)>,
    pub events: VecDeque<String>,
    pub responses: VecDeque<String>,
    pub input: String,
    /// Byte offset into `input`.
    pub cursor: usize,
    pub history: Vec<String>,
    pub hist_idx: Option<usize>,
    pub focus: Pane,
    pub zoom: bool,
    pub paused: bool,
    /// How many rows logs, events and responses are scrolled up from the bottom.
    pub scroll: [usize; 3],
    pub cmd_id: u16,
    pub req_id: u16,
    pub seq: u16,
    /// The chunks of a response so far.
    pub resp_buf: String,
    /// The command whose response is awaited. Chunks for any other are dropped.
    pub pending_cmd: Option<u16>,
    /// The chunk that should come next; another one means that a chunk was lost.
    pub next_chunk: u16,
    pub pending_req: Option<u16>,
    /// A passing hint (completions, status).
    pub hint: String,
    /// A version mismatch was reported already.
    pub warned_mismatch: bool,
    /// The number of the last frame; a `Hello` starts anew.
    pub last_seq: Option<u16>,
    /// Frames that the codec refused.
    pub decode_failures: u64,
    /// Frames whose number did not follow the one before.
    pub seq_gaps: u64,
    /// Frames whose payload could not be read.
    pub payload_errors: u64,
    /// The version tag of the first frame that was refused for it; before that, the version
    /// that a `Hello` gave.
    pub mismatch_got: Option<u8>,
    /// A frame was refused for its version tag.
    pub tag_refused: bool,
    /// Why the last attempt to reconnect failed.
    pub last_open_error: Option<String>,
    pub quit: bool,
}

#[verifier::ext_equal]
pub struct ConsoleV {
    pub wire: Wire,
    pub port_name: Seq<char>,
    pub connected: bool,
    pub logs: Seq<(Seq<char>, Color)>,
    pub events: Seq<Seq<char>>,
    pub responses: Seq<Seq<char>>,
    pub input: Seq<char>,
    pub cursor: usize,
    pub history: Seq<Seq<char>>,
    pub hist_idx: Option<usize>,
    pub focus: Pane,
    pub zoom: bool,
    pub paused: bool,
    pub scroll: Seq<usize>,
    pub cmd_id: u16,
    pub req_id: u16,
    pub seq: u16,
    pub resp_buf: Seq<char>,
    pub pending_cmd: Option<u16>,
    pub next_chunk: u16,
    pub pending_req: Option<u16>,
    pub hint: Seq<char>,
    pub warned_mismatch: bool,
    pub last_seq: Option<u16>,
    pub decode_failures: u64,
    pub seq_gaps: u64,
    pub payload_errors: u64,
    pub mismatch_got: Option<u8>,
    pub tag_refused: bool,
    pub last_open_error: Option<Seq<char>>,
    pub quit: bool,
}

/// Coloured lines by their text.
pub open spec fn colored(s: Seq<(String, Color)>) -> Seq<(Seq<char>, Color)> {
    Seq::new(s.len(), |i: int| (s[i].0@, s[i].1))
}

impl View for Console {
    type V = ConsoleV;

    open spec fn view(&self) -> ConsoleV {
        ConsoleV {
            wire: self.wire,
            port_name: self.port_name@,
            connected: self.connected,
            logs: colored(self.logs@),
            events: deep(self.events@),
            responses: deep(self.responses@),
            input: self.input@,
            cursor: self.cursor,
            history: self.history.deep_view(),
            hist_idx: self.hist_idx,
            focus: self.focus,
            zoom: self.zoom,
            paused: self.paused,
            scroll: self.scroll@,
            cmd_id: self.cmd_id,
            req_id: self.req_id,
            seq: self.seq,
            resp_buf: self.resp_buf@,
            pending_cmd: self.pending_cmd,
            next_chunk: self.next_chunk,
            pending_req: self.pending_req,
            hint: self.hint@,
            warned_mismatch: self.warned_mismatch,
            last_seq: self.last_seq,
            decode_failures: self.decode_failures,
            seq_gaps: self.seq_gaps,
            payload_errors: self.payload_errors,
            mismatch_got: self.mismatch_got,
            tag_refused: self.tag_refused,
            last_open_error: self.last_open_error.deep_view(),
            quit: self.quit,
        }
    }
}

/// The cursor stands between two characters, and the history index within the history.
pub open spec fn console_ok(s: ConsoleV) -> bool {
    &&& cursor_ok(s.input, s.cursor)
    &&& s.hist_idx matches Some(i) ==> i < s.history.len()
    &&& s.scroll.len() == 3
}

/// What has to be sent.
#[derive(Debug, PartialEq)]
pub enum Request {
    Nothing,
    Complete { req_id: u16, line: String, cursor: u16 },
    Command { cmd_id: u16, line: String },
}

#[verifier::ext_equal]
pub enum RequestV {
    Nothing,
    Complete { req_id: u16, line: Seq<char>, cursor: u16 },
    Command { cmd_id: u16, line: Seq<char> },
}

impl DeepView for Request {
    type V = RequestV;

    open spec fn deep_view(&self) -> RequestV {
        match self {
            Request::Nothing => RequestV::Nothing,
            Request::Complete { req_id, line, cursor } => RequestV::Complete {
                req_id: *req_id,
                line: line@,
                cursor: *cursor,
            },
            Request::Command { cmd_id, line } => RequestV::Command { cmd_id: *cmd_id, line: line@ },
        }
    }
}

/// How sending a request went.
#[derive(Debug, Clone, Copy, PartialEq, Eq, Structural)]
pub enum Sent {
    Done,
    /// The frame could not be encoded: the line is too long.
    TooLong,
    /// There is no link, or writing to it failed.
    LinkLost,
}

// ---- the panes ---------------------------------------------------------------------

/// A bounded list with one more item: the oldest leaves where it is full.
#[verifier::opaque]
pub open spec fn capped<T>(s: Seq<T>, item: T, cap: nat) -> Seq<T> {
    if s.len() >= cap {
        s.skip(1).push(item)
    } else {
        s.push(item)
    }
}

/// Appends to a pane; the oldest line leaves where it is full.
pub fn push_cap<T>(buf: &mut VecDeque<T>, item: T)
    ensures
        final(buf)@ == capped(old(buf)@, item, CAP as nat),
{
    proof {
        reveal(capped);
    }
    if buf.len() >= CAP {
        let _ = buf.pop_front();
        assert(buf@ =~= old(buf)@.skip(1));
    }
    buf.push_back(item);
}

pub(crate) fn push_text(buf: &mut VecDeque<String>, item: String)
    ensures
        deep(final(buf)@) == capped(deep(old(buf)@), item@, CAP as nat),
{
    proof {
        reveal(capped);
    }
    push_cap(buf, item);
    assert(deep(buf@) =~= capped(deep(old(buf)@), item@, CAP as nat));
}

fn push_colored(buf: &mut VecDeque<(String, Color)>, text: String, color: Color)
    ensures
        colored(final(buf)@) == capped(colored(old(buf)@), (text@, color), CAP as nat),
{
    proof {
        reveal(capped);
    }
    push_cap(buf, (text, color));
    assert(colored(buf@) =~= capped(colored(old(buf)@), (text@, color), CAP as nat));
}

pub open spec fn with_log(s: ConsoleV, text: Seq<char>, color: Color) -> ConsoleV {
    ConsoleV { logs: capped(s.logs, (text, color), CAP as nat), ..s }
}

pub open spec fn with_event(s: ConsoleV, text: Seq<char>) -> ConsoleV {
    ConsoleV { events: capped(s.events, text, CAP as nat), ..s }
}

pub open spec fn with_response(s: ConsoleV, text: Seq<char>) -> ConsoleV {
    ConsoleV { responses: capped(s.responses, text, CAP as nat), ..s }
}

/// The first `k` of `more`, appended one after the other.
pub open spec fn with_responses(s: ConsoleV, more: Seq<Seq<char>>, k: nat) -> ConsoleV
    decreases k,
{
    if k == 0 {
        s
    } else {
        with_response(with_responses(s, more, (k - 1) as nat), more[k - 1])
    }
}

// ---- frames ------------------------------------------------------------------------

/// The colour of a log line.
pub open spec fn level_tint(l: Level) -> Color {
    match l {
        Level::Error => Color::Red,
        Level::Warn => Color::Yellow,
        Level::Info => Color::Green,
        Level::Debug => Color::Cyan,
        Level::Trace => Color::DarkGray,
    }
}

pub fn level_color(l: Level) -> (r: Color)
    ensures
        r == level_tint(l),
{
    match l {
        Level::Error => Color::Red,
        Level::Warn => Color::Yellow,
        Level::Info => Color::Green,
        Level::Debug => Color::Cyan,
        Level::Trace => Color::DarkGray,
    }
}

/// A frame was refused: it is counted. Another version tag is reported once, and the first
/// one is remembered.
pub open spec fn refused(s: ConsoleV, bad_version: Option<u8>) -> ConsoleV {
    let s1 = ConsoleV { decode_failures: one_more(s.decode_failures), ..s };
    match bad_version {
        None => s1,
        Some(got) => {
            let s2 = ConsoleV {
                mismatch_got: if s.tag_refused && s.mismatch_got is Some {
                    s.mismatch_got
                } else {
                    Some(got)
                },
                tag_refused: true,
                ..s1
            };
            if s2.warned_mismatch {
                s2
            } else {
                ConsoleV {
                    warned_mismatch: true,
                    ..with_log(
                        s2,
                        "✖ PROTOCOL MISMATCH: device frames are tagged v"@ + dec(got as nat)
                            + ", but this `tower` was built for v"@ + dec(
                            s.wire.protocol_version as nat,
                        )
                            + " — every frame will mis-decode. Rebuild the firmware and `tower` against the SAME tower-protocol tag (the lockstep rule)."@,
                        Color::Red,
                    )
                }
            }
        },
    }
}

/// Holds the number of a frame against the one before.
pub open spec fn counted(s: ConsoleV, kind: MsgType, seq: u16) -> ConsoleV {
    ConsoleV {
        seq_gaps: match baseline(s.last_seq, kind) {
            Some(prev) => if seq != follower(prev) {
                one_more(s.seq_gaps)
            } else {
                s.seq_gaps
            },
            None => s.seq_gaps,
        },
        last_seq: Some(seq),
        ..s
    }
}

/// Frames that only fill the panes; they are held back while paused.
pub open spec fn streaming(kind: MsgType) -> bool {
    kind == MsgType::Log || kind == MsgType::Print || kind == MsgType::Event || kind
        == MsgType::Dropped
}

/// Frames whose payload the console reads.
pub open spec fn of_interest(kind: MsgType) -> bool {
    streaming(kind) || kind == MsgType::Hello || kind == MsgType::ShellResponse || kind
        == MsgType::ShellCompletions
}

/// A chunk is added to the awaited response; a gap is reported.
pub open spec fn chunk_added(s: ConsoleV, r: ShellResponse) -> ConsoleV {
    let s1 = if r.chunk != s.next_chunk {
        with_response(
            s,
            "[tower] response chunk dropped (expected #"@ + dec(s.next_chunk as nat) + ", got #"@
                + dec(r.chunk as nat) + ") — output truncated"@,
        )
    } else {
        s
    };
    ConsoleV { next_chunk: follower(r.chunk), resp_buf: s1.resp_buf + r.text@, ..s1 }
}

/// The awaited response is complete: its lines are shown, and its result where that is
/// not 0.
pub open spec fn response_shown(s: ConsoleV, result: u8) -> ConsoleV {
    let s1 = with_responses(s, lines(s.resp_buf), lines(s.resp_buf).len());
    let s2 = if result != 0 {
        with_response(s1, "[result "@ + dec(result as nat) + "]"@)
    } else {
        s1
    };
    ConsoleV { resp_buf: Seq::empty(), pending_cmd: None, ..s2 }
}

/// One chunk of the awaited response.
pub open spec fn response_chunk(s: ConsoleV, r: ShellResponse) -> ConsoleV {
    if r.last {
        response_shown(chunk_added(s, r), r.result)
    } else {
        chunk_added(s, r)
    }
}

/// What separates a completed word from the next, by what the word names.
pub open spec fn separator(kind: CandidateKind) -> Seq<char> {
    match kind {
        CandidateKind::Menu => "/"@,
        CandidateKind::Command => " "@,
        CandidateKind::Arg => "="@,
        CandidateKind::Value => ""@,
    }
}

pub fn separator_of(kind: CandidateKind) -> (r: &'static str)
    ensures
        r@ == separator(kind),
{
    match kind {
        CandidateKind::Menu => "/",
        CandidateKind::Command => " ",
        CandidateKind::Arg => "=",
        CandidateKind::Value => "",
    }
}

pub open spec fn with_line(s: ConsoleV, l: LineV) -> ConsoleV {
    ConsoleV { input: l.left + l.right, cursor: bytes(l.left) as usize, ..s }
}

pub open spec fn candidate_texts(c: Seq<Candidate>) -> Seq<Seq<char>> {
    Seq::new(c.len(), |i: int| c[i].text@)
}

/// Where the word to complete starts, in characters: the device says it in bytes, and it
/// counts only where it stands between two characters and not behind the cursor.
pub open spec fn token_index(s: ConsoleV, token_start: u16) -> Option<int> {
    let start = if token_start <= bytes(s.input) {
        token_start as int
    } else {
        bytes(s.input) as int
    };
    if start > s.cursor {
        None
    } else {
        split_index(s.input, start)
    }
}

/// Completions arrived for the current line.
pub open spec fn completed(s: ConsoleV, c: ShellCompletions) -> ConsoleV {
    match token_index(s, c.token_start) {
        None => s,
        Some(k) => {
            let l = line_at(s.input, s.cursor);
            let cands = c.candidates@;
            if cands.len() == 1 {
                ConsoleV {
                    hint: Seq::empty(),
                    ..with_line(s, replaced(l, k, cands[0].text@ + separator(cands[0].kind)))
                }
            } else if cands.len() == 0 {
                ConsoleV { hint: "(no completions)"@, ..s }
            } else {
                let s1 = if c.common_prefix@.len() > 0 {
                    with_line(s, replaced(l, k, c.common_prefix@))
                } else {
                    s
                };
                let list = join(candidate_texts(cands), "  "@);
                ConsoleV {
                    hint: if c.more {
                        list + "  …"@
                    } else {
                        list
                    },
                    ..s1
                }
            }
        },
    }
}

/// The payload of a frame; `now` is the time of day.
pub open spec fn body_taken(s: ConsoleV, kind: MsgType, body: Body, now: Seq<char>) -> ConsoleV {
    match body {
        Body::Hello(h) => if h.protocol_version != s.wire.protocol_version && !s.warned_mismatch {
            ConsoleV {
                warned_mismatch: true,
                mismatch_got: Some(h.protocol_version),
                ..with_log(
                    s,
                    "⚠ PROTOCOL MISMATCH: device v"@ + dec(h.protocol_version as nat)
                        + ", tower built for v"@ + dec(s.wire.protocol_version as nat)
                        + " — frames will mis-decode; rebuild both against the same tower-protocol tag."@,
                    Color::Red,
                )
            }
        } else {
            s
        },
        Body::Log(l) => with_log(
            s,
            now + " "@ + log_text(l, label_text(l.level)),
            level_tint(l.level),
        ),
        Body::Print { text } => with_log(s, trim_end_ws(text@), Color::Reset),
        Body::Event(e) => with_event(
            s,
            now + " "@ + e.name@ + "  "@ + join(field_texts(e.fields@), " "@),
        ),
        Body::Dropped { count } => with_log(
            s,
            "⚠ "@ + dec(count as nat) + " log frame(s) dropped"@,
            Color::Yellow,
        ),
        Body::ShellResponse(r) => if s.pending_cmd == Some(r.cmd_id) {
            response_chunk(s, r)
        } else {
            s
        },
        Body::ShellCompletions(c) => if s.pending_req == Some(c.req_id) {
            ConsoleV { pending_req: None, ..completed(s, c) }
        } else {
            s
        },
        Body::Malformed => if of_interest(kind) {
            ConsoleV { payload_errors: one_more(s.payload_errors), ..s }
        } else {
            s
        },
        _ => s,
    }
}

/// One frame; `now` is the time of day.
pub open spec fn frame_taken(s: ConsoleV, frame: Frame, now: Seq<char>) -> ConsoleV {
    match frame {
        Frame::Refused { error: _, bad_version } => refused(s, bad_version),
        Frame::Message { kind, seq, body } => {
            let s1 = counted(s, kind, seq);
            if s1.paused && streaming(kind) {
                s1
            } else {
                body_taken(s1, kind, body, now)
            }
        },
    }
}

fn texts_of(c: &Vec<Candidate>) -> (r: Vec<String>)
    ensures
        r.deep_view() == candidate_texts(c@),
{
    let mut v: Vec<String> = Vec::new();
    let mut i: usize = 0;
    while i < c.len()
        invariant
            i <= c@.len(),
            v@.len() == i,
            forall|j: int| 0 <= j < i ==> (#[trigger] v@[j])@ == c@[j].text@,
        decreases c@.len() - i,
    {
        v.push(c[i].text.clone());
        i = i + 1;
    }
    assert(v.deep_view() =~= candidate_texts(c@));
    v
}

impl Console {
    /// A console that is about to attach to `port_name`.
    pub fn new(wire: Wire, port_name: String) -> (r: Console)
        ensures
            console_ok(r@),
            r@ == (ConsoleV {
                wire,
                port_name: port_name@,
                connected: false,
                logs: Seq::empty(),
                events: Seq::empty(),
                responses: Seq::empty(),
                input: Seq::empty(),
                cursor: 0,
                history: Seq::empty(),
                hist_idx: None,
                focus: Pane::Command,
                zoom: false,
                paused: false,
                scroll: seq![0usize, 0usize, 0usize],
                cmd_id: 1,
                req_id: 1,
                seq: 0,
                resp_buf: Seq::empty(),
                pending_cmd: None,
                next_chunk: 0,
                pending_req: None,
                hint: Seq::empty(),
                warned_mismatch: false,
                last_seq: None,
                decode_failures: 0,
                seq_gaps: 0,
                payload_errors: 0,
                mismatch_got: None,
                tag_refused: false,
                last_open_error: None,
                quit: false,
            }),
    {
        let c = Console {
            wire,
            port_name,
            connected: false,
            logs: VecDeque::new(),
            events: VecDeque::new(),
            responses: VecDeque::new(),
            input: String::new(),
            cursor: 0,
            history: Vec::new(),
            hist_idx: None,
            focus: Pane::Command,
            zoom: false,
            paused: false,
            scroll: [0, 0, 0],
            cmd_id: 1,
            req_id: 1,
            seq: 0,
            resp_buf: String::new(),
            pending_cmd: None,
            next_chunk: 0,
            pending_req: None,
            hint: String::new(),
            warned_mismatch: false,
            last_seq: None,
            decode_failures: 0,
            seq_gaps: 0,
            payload_errors: 0,
            mismatch_got: None,
            tag_refused: false,
            last_open_error: None,
            quit: false,
        };
        assert(c@.scroll =~= seq![0usize, 0usize, 0usize]);
        c
    }

    // ---- frames --------------------------------------------------------------------

    fn on_refused(&mut self, bad_version: Option<u8>)
        ensures
            final(self)@ == refused(old(self)@, bad_version),
    {
        self.decode_failures = self.decode_failures.saturating_add(1);
        if let Some(got) = bad_version {
            if !self.tag_refused || self.mismatch_got.is_none() {
                self.mismatch_got = Some(got);
            }
            self.tag_refused = true;
            if !self.warned_mismatch {
                let line = cat5(
                    "✖ PROTOCOL MISMATCH: device frames are tagged v",
                    dec_u64(got as u64).as_str(),
                    ", but this `tower` was built for v",
                    dec_u64(self.wire.protocol_version as u64).as_str(),
                    " — every frame will mis-decode. Rebuild the firmware and `tower` against the SAME tower-protocol tag (the lockstep rule).",
                );
                push_colored(&mut self.logs, line, Color::Red);
                self.warned_mismatch = true;
            }
        }
    }

    fn count(&mut self, kind: MsgType, seq: u16)
        ensures
            final(self)@ == counted(old(self)@, kind, seq),
    {
        let before = match kind {
            MsgType::Hello => None,
            _ => self.last_seq,
        };
        if let Some(prev) = before {
            if seq != prev.wrapping_add(1) {
                self.seq_gaps = self.seq_gaps.saturating_add(1);
            }
        }
        self.last_seq = Some(seq);
    }

    fn push_responses(&mut self, more: &Vec<String>)
        ensures
            final(self)@ == with_responses(old(self)@, more.deep_view(), more@.len()),
    {
        let ghost s0 = self@;
        let mut i: usize = 0;
        while i < more.len()
            invariant
                i <= more@.len(),
                self@ == with_responses(s0, more.deep_view(), i as nat),
            decreases more@.len() - i,
        {
            push_text(&mut self.responses, more[i].clone());
            i = i + 1;
        }
    }

    fn add_chunk(&mut self, r: &ShellResponse)
        ensures
            final(self)@ == chunk_added(old(self)@, *r),
    {
        if r.chunk != self.next_chunk {
            let line = cat5(
                "[tower] response chunk dropped (expected #",
                dec_u64(self.next_chunk as u64).as_str(),
                ", got #",
                dec_u64(r.chunk as u64).as_str(),
                ") — output truncated",
            );
            push_text(&mut self.responses, line);
        }
        self.next_chunk = r.chunk.wrapping_add(1);
        self.resp_buf.append(r.text.as_str());
    }

    fn show_response(&mut self, result: u8)
        ensures
            final(self)@ == response_shown(old(self)@, result),
    {
        let all = lines_of(self.resp_buf.as_str());
        self.push_responses(&all);
        if result != 0 {
            let line = cat3("[result ", dec_u64(result as u64).as_str(), "]");
            push_text(&mut self.responses, line);
        }
        self.resp_buf = String::new();
        self.pending_cmd = None;
    }

    fn on_response(&mut self, r: &ShellResponse)
        ensures
            final(self)@ == response_chunk(old(self)@, *r),
    {
        self.add_chunk(r);
        if r.last {
            self.show_response(r.result);
        }
    }

    /// Completions arrived for the current line. What the device says of the line is
    /// checked before it is used.
    pub fn apply_completion(&mut self, c: &ShellCompletions)
        requires
            console_ok(old(self)@),
        ensures
            console_ok(final(self)@),
            final(self)@ == completed(old(self)@, *c),
    {
        let n = byte_len(self.input.as_str());
        let start: usize = if (c.token_start as usize) <= n { c.token_start as usize } else { n };
        if start > self.cursor {
            return;
        }
        let v = chars_of(self.input.as_str());
        let k = match index_at(&v, start) {
            Some(k) => k,
            None => {
                return;
            },
        };
        let ghost l = line_at(self.input@, self.cursor);
        proof {
            lemma_line(self.input@, self.cursor, l);
            lemma_split_bytes(self.input@, start as int);
            lemma_split_bytes(self.input@, self.cursor as int);
            lemma_prefix_order(self.input@, k as int, l.left.len() as int);
        }
        if c.candidates.len() == 1 {
            let cand = &c.candidates[0];
            let repl = cat2(cand.text.as_str(), separator_of(cand.kind));
            let (input, cursor) = line_edit::replace(
                self.input.as_str(),
                self.cursor,
                k,
                repl.as_str(),
            );
            proof {
                lemma_line(input@, cursor, replaced(l, k as int, repl@));
            }
            self.input = input;
            self.cursor = cursor;
            self.hint = String::new();
        } else if c.candidates.len() == 0 {
            self.hint = "(no completions)".to_owned();
        } else {
            if c.common_prefix.as_str().unicode_len() > 0 {
                let (input, cursor) = line_edit::replace(
                    self.input.as_str(),
                    self.cursor,
                    k,
                    c.common_prefix.as_str(),
                );
                proof {
                    lemma_line(input@, cursor, replaced(l, k as int, c.common_prefix@));
                }
                self.input = input;
                self.cursor = cursor;
            }
            let list = join_of(&texts_of(&c.candidates), "  ");
            self.hint = if c.more { cat2(list.as_str(), "  …") } else { list };
        }
    }

    fn on_body(&mut self, kind: MsgType, body: &Body, now: &str)
        requires
            console_ok(old(self)@),
        ensures
            console_ok(final(self)@),
            final(self)@ == body_taken(old(self)@, kind, *body, now@),
    {
        match body {
            Body::Hello(h) => {
                if h.protocol_version != self.wire.protocol_version && !self.warned_mismatch {
                    let line = cat5(
                        "⚠ PROTOCOL MISMATCH: device v",
                        dec_u64(h.protocol_version as u64).as_str(),
                        ", tower built for v",
                        dec_u64(self.wire.protocol_version as u64).as_str(),
                        " — frames will mis-decode; rebuild both against the same tower-protocol tag.",
                    );
                    push_colored(&mut self.logs, line, Color::Red);
                    self.warned_mismatch = true;
                    self.mismatch_got = Some(h.protocol_version);
                }
            },
            Body::Log(l) => {
                let line = cat3(now, " ", log_line(l).as_str());
                push_colored(&mut self.logs, line, level_color(l.level));
            },
            Body::Print { text } => {
                push_colored(&mut self.logs, trim_end(text.as_str()).to_owned(), Color::Reset);
            },
            Body::Event(e) => {
                let line = cat5(now, " ", e.name.as_str(), "  ", event_fields(e).as_str());
                push_text(&mut self.events, line);
            },
            Body::Dropped { count } => {
                let line = cat3("⚠ ", dec_u64(*count as u64).as_str(), " log frame(s) dropped");
                push_colored(&mut self.logs, line, Color::Yellow);
            },
            Body::ShellResponse(r) => {
                if self.pending_cmd == Some(r.cmd_id) {
                    self.on_response(r);
                    proof {
                        lemma_response_keeps_line(old(self)@, *r);
                    }
                }
            },
            Body::ShellCompletions(c) => {
                if self.pending_req == Some(c.req_id) {
                    self.apply_completion(c);
                    self.pending_req = None;
                }
            },
            Body::Malformed => {
                let counts = match kind {
                    MsgType::Log
                    | MsgType::Print
                    | MsgType::Event
                    | MsgType::Dropped
                    | MsgType::Hello
                    | MsgType::ShellResponse
                    | MsgType::ShellCompletions => true,
                    _ => false,
                };
                if counts {
                    self.payload_errors = self.payload_errors.saturating_add(1);
                }
            },
            _ => {},
        }
    }

    /// Takes a frame at the present time of day.
    pub fn handle_frame_now(&mut self, frame: &Frame)
        requires
            console_ok(old(self)@),
        ensures
            console_ok(final(self)@),
            exists|clock: Seq<char>| #[trigger]
                is_clock_ms(clock) && final(self)@ == frame_taken(old(self)@, *frame, clock),
    {
        let clock = now();
        self.handle_frame(frame, clock.as_str());
    }

    /// Takes one frame; `now` is the time of day.
    pub fn handle_frame(&mut self, frame: &Frame, now: &str)
        requires
            console_ok(old(self)@),
        ensures
            console_ok(final(self)@),
            final(self)@ == frame_taken(old(self)@, *frame, now@),
    {
        match frame {
            Frame::Refused { error: _, bad_version } => self.on_refused(*bad_version),
            Frame::Message { kind, seq, body } => {
                self.count(*kind, *seq);
                let held = match *kind {
                    MsgType::Log | MsgType::Print | MsgType::Event | MsgType::Dropped => true,
                    _ => false,
                };
                if self.paused && held {
                    return;
                }
                self.on_body(*kind, body, now);
            },
        }
    }
}

/// Of two places in a text, the one with fewer bytes in front has fewer characters in
/// front.
proof fn lemma_prefix_order(s: Seq<char>, a: int, b: int)
    requires
        0 <= a <= s.len(),
        0 <= b <= s.len(),
        bytes(s.take(a)) <= bytes(s.take(b)),
    ensures
        a <= b,
{
    if b < a {
        let d = s.subrange(b, a);
        assert(s.take(a) =~= s.take(b) + d);
        line_edit::lemma_bytes_add(s.take(b), d);
        line_edit::lemma_width(d[0]);
        assert(bytes(d) >= 1);
    }
}

/// Appending responses leaves everything else as it is.
pub proof fn lemma_with_responses_keeps(s: ConsoleV, more: Seq<Seq<char>>, k: nat)
    ensures
        with_responses(s, more, k) == (ConsoleV { responses: with_responses(s, more, k).responses, ..s }),
    decreases k,
{
    if k > 0 {
        lemma_with_responses_keeps(s, more, (k - 1) as nat);
    }
}

/// A response leaves the command line as it is.
proof fn lemma_response_keeps_line(s: ConsoleV, r: ShellResponse)
    ensures
        ({
            let t = response_chunk(s, r);
            t.input == s.input && t.cursor == s.cursor && t.history == s.history && t.hist_idx
                == s.hist_idx && t.scroll == s.scroll
        }),
{
    let s2 = chunk_added(s, r);
    lemma_with_responses_keeps(s2, lines(s2.resp_buf), lines(s2.resp_buf).len());
}

// ---- laws --------------------------------------------------------------------------

/// The first version tag that a frame was refused for stands, whatever other frames come.
pub proof fn law_first_refused_tag_stands(
    s: ConsoleV,
    error: String,
    got: u8,
    frame: Frame,
    now: Seq<char>,
)
    ensures
        ({
            let s1 = frame_taken(
                s,
                Frame::Refused { error, bad_version: Some(got) },
                now,
            );
            &&& !s.tag_refused ==> s1.mismatch_got == Some(got)
            &&& s1.mismatch_got is Some && s1.tag_refused && s1.warned_mismatch
        }),
        s.mismatch_got is Some && s.tag_refused && s.warned_mismatch ==> {
            let s2 = frame_taken(s, frame, now);
            &&& s2.mismatch_got == s.mismatch_got
            &&& s2.tag_refused && s2.warned_mismatch
        },
{
    if let Frame::Message { kind, seq, body } = frame {
        if let Body::ShellResponse(r) = body {
            let s1 = chunk_added(counted(s, kind, seq), r);
            lemma_responses_keep_the_tag(s1, lines(s1.resp_buf), lines(s1.resp_buf).len());
        }
    }
}

proof fn lemma_responses_keep_the_tag(s: ConsoleV, all: Seq<Seq<char>>, k: nat)
    ensures
        ({
            let t = with_responses(s, all, k);
            &&& t.mismatch_got == s.mismatch_got
            &&& t.tag_refused == s.tag_refused && t.warned_mismatch == s.warned_mismatch
        }),
    decreases k,
{
    if k > 0 {
        lemma_responses_keep_the_tag(s, all, (k - 1) as nat);
    }
}

} // verus!

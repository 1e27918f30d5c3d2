//! What the console shows of the frames that come in, and what its keys do, said of the panes,
//! the line and the requests themselves.

use crate::commands_laws::behind;
use crate::console::{
    body_taken, capped, completed, frame_taken, with_responses, ConsoleV, Pane, RequestV, Sent,
};
use crate::console_keys::{after_send, key_pressed, key_request, next_pane, reopened};
use crate::frame::{Body, EventMsg, Frame, Hello, Level, Log, MsgType, ShellCompletions, ShellResponse};
use crate::line_edit::{bytes, lemma_bytes_add, lemma_line, without_spaces, without_word, LineV};
use crate::render::uptime_text;
use crate::render_laws::label;
use crate::style::{Color, Key, Mods};
use crate::text::{dec, join, lines, trim_end_ws, trimmed};
use vstd::prelude::*;

verus! {

/// Two states of the console are the same.
pub open spec fn same_console(a: ConsoleV, b: ConsoleV) -> bool {
    a == b
}

/// The last `cap` of the lines with one more.
pub open spec fn kept<T>(s: Seq<T>, item: T, cap: nat) -> Seq<T> {
    let all = s.push(item);
    if all.len() > cap {
        all.skip(1)
    } else {
        all
    }
}

/// A pane keeps its newest 5000 lines.
pub proof fn law_panes_keep_the_newest<T>(s: Seq<T>, item: T, cap: nat)
    requires
        cap > 0,
    ensures
        capped(s, item, cap) == kept(s, item, cap),
{
    reveal(capped);
    if s.len() >= cap {
        assert(s.push(item).skip(1) =~= s.skip(1).push(item));
    }
}

/// The colour of a level.
pub open spec fn tint(l: Level) -> Color {
    match l {
        Level::Error => Color::Red,
        Level::Warn => Color::Yellow,
        Level::Info => Color::Green,
        Level::Debug => Color::Cyan,
        Level::Trace => Color::DarkGray,
    }
}

/// Logs, prints and lost frames are shown among the logs, events among the events; nothing
/// else changes.
pub proof fn law_streams_are_shown(
    s: ConsoleV,
    kind: MsgType,
    l: Log,
    text: String,
    e: EventMsg,
    now: Seq<char>,
)
    ensures
        ({
            let logged = |line: Seq<char>, c: Color|
                ConsoleV { logs: kept(s.logs, (line, c), 5000), ..s };
            &&& same_console(
                body_taken(s, kind, Body::Log(l), now),
                logged(
                    now + " "@ + (uptime_text(l.uptime_us) + " "@ + label(l.level) + " "@ + l.module@
                        + ": "@ + l.message@),
                    tint(l.level),
                ),
            )
            &&& same_console(
                body_taken(s, kind, Body::Print { text }, now),
                logged(trim_end_ws(text@), Color::Reset),
            )
            &&& same_console(
                body_taken(s, kind, Body::Event(e), now),
                ConsoleV {
                    events: kept(
                        s.events,
                        now + " "@ + e.name@ + "  "@ + join(
                            Seq::new(
                                e.fields@.len(),
                                |i: int| e.fields@[i].0@ + "="@ + e.fields@[i].1@,
                            ),
                            " "@,
                        ),
                        5000,
                    ),
                    ..s
                },
            )
        }),
{
    law_panes_keep_the_newest(
        s.logs,
        (
            now + " "@ + (uptime_text(l.uptime_us) + " "@ + label(l.level) + " "@ + l.module@ + ": "@
                + l.message@),
            tint(l.level),
        ),
        5000,
    );
    law_panes_keep_the_newest(s.logs, (trim_end_ws(text@), Color::Reset), 5000);
    law_panes_keep_the_newest(
        s.events,
        now + " "@ + e.name@ + "  "@ + join(
            Seq::new(e.fields@.len(), |i: int| e.fields@[i].0@ + "="@ + e.fields@[i].1@),
            " "@,
        ),
        5000,
    );
}

/// Frames that the device dropped are told by their number.
pub proof fn law_drops_are_shown(s: ConsoleV, kind: MsgType, body: Body, now: Seq<char>)
    requires
        body is Dropped,
    ensures
        body matches Body::Dropped { count } ==> same_console(
            body_taken(s, kind, body, now),
            ConsoleV {
                logs: kept(
                    s.logs,
                    ("⚠ "@ + dec(count as nat) + " log frame(s) dropped"@, Color::Yellow),
                    5000,
                ),
                ..s
            },
        ),
{
    if let Body::Dropped { count } = body {
        law_panes_keep_the_newest(
            s.logs,
            ("⚠ "@ + dec(count as nat) + " log frame(s) dropped"@, Color::Yellow),
            5000,
        );
    }
}

/// A device of another version is warned of once; one of ours says nothing.
pub proof fn law_hellos_are_checked(s: ConsoleV, kind: MsgType, h: Hello, now: Seq<char>)
    ensures
        h.protocol_version == s.wire.protocol_version || s.warned_mismatch ==> same_console(
            body_taken(s, kind, Body::Hello(h), now),
            s,
        ),
        h.protocol_version != s.wire.protocol_version && !s.warned_mismatch ==> same_console(
            body_taken(s, kind, Body::Hello(h), now),
            ConsoleV {
                warned_mismatch: true,
                mismatch_got: Some(h.protocol_version),
                logs: kept(
                    s.logs,
                    (
                        "⚠ PROTOCOL MISMATCH: device v"@ + dec(h.protocol_version as nat)
                            + ", tower built for v"@ + dec(s.wire.protocol_version as nat)
                            + " — frames will mis-decode; rebuild both against the same tower-protocol tag."@,
                        Color::Red,
                    ),
                    5000,
                ),
                ..s
            },
        ),
{
    law_panes_keep_the_newest(
        s.logs,
        (
            "⚠ PROTOCOL MISMATCH: device v"@ + dec(h.protocol_version as nat)
                + ", tower built for v"@ + dec(s.wire.protocol_version as nat)
                + " — frames will mis-decode; rebuild both against the same tower-protocol tag."@,
            Color::Red,
        ),
        5000,
    );
}

/// The number behind a number, which goes round.
pub open spec fn next(n: u16) -> u16 {
    if n == 65535 {
        0
    } else {
        (n + 1) as u16
    }
}

/// A chunk of the awaited answer in its turn is put behind the others; one out of turn is too,
/// and that something was lost is told. Others' answers change nothing.
pub proof fn law_chunks_are_gathered(s: ConsoleV, kind: MsgType, r: ShellResponse, now: Seq<char>)
    ensures
        ({
            let t = body_taken(s, kind, Body::ShellResponse(r), now);
            let added = ConsoleV { next_chunk: next(r.chunk), resp_buf: s.resp_buf + r.text@, ..s };
            let mine = s.pending_cmd == Some(r.cmd_id);
            &&& !mine ==> same_console(t, s)
            &&& mine && r.chunk == s.next_chunk && !r.last ==> same_console(t, added)
            &&& mine && r.chunk != s.next_chunk && !r.last ==> same_console(
                t,
                ConsoleV {
                    responses: kept(
                        s.responses,
                        "[tower] response chunk dropped (expected #"@ + dec(s.next_chunk as nat)
                            + ", got #"@ + dec(r.chunk as nat) + ") — output truncated"@,
                        5000,
                    ),
                    ..added
                },
            )
        }),
{
    law_panes_keep_the_newest(
        s.responses,
        "[tower] response chunk dropped (expected #"@ + dec(s.next_chunk as nat) + ", got #"@ + dec(
            r.chunk as nat,
        ) + ") — output truncated"@,
        5000,
    );
}

/// The last chunk shows the lines of the whole answer, and a failure in a line of its own;
/// then nothing more is awaited.
pub proof fn law_answers_are_shown(s: ConsoleV, kind: MsgType, r: ShellResponse, now: Seq<char>)
    requires
        s.pending_cmd == Some(r.cmd_id) && r.chunk == s.next_chunk && r.last,
    ensures
        ({
            let t = body_taken(s, kind, Body::ShellResponse(r), now);
            let text = s.resp_buf + r.text@;
            let added = ConsoleV { next_chunk: next(r.chunk), resp_buf: text, ..s };
            let shown = with_responses(added, lines(text), lines(text).len());
            &&& r.result == 0 ==> same_console(
                t,
                ConsoleV { resp_buf: Seq::empty(), pending_cmd: None, ..shown },
            )
            &&& r.result != 0 ==> same_console(
                t,
                ConsoleV {
                    resp_buf: Seq::empty(),
                    pending_cmd: None,
                    responses: kept(
                        shown.responses,
                        "[result "@ + dec(r.result as nat) + "]"@,
                        5000,
                    ),
                    ..shown
                },
            )
        }),
{
    let text = s.resp_buf + r.text@;
    let added = ConsoleV { next_chunk: next(r.chunk), resp_buf: text, ..s };
    let shown = with_responses(added, lines(text), lines(text).len());
    law_panes_keep_the_newest(
        shown.responses,
        "[result "@ + dec(r.result as nat) + "]"@,
        5000,
    );
}

/// Several lines are shown one behind the other.
pub proof fn law_lines_are_shown_in_turn(s: ConsoleV, more: Seq<Seq<char>>, k: nat)
    requires
        k < more.len(),
    ensures
        same_console(with_responses(s, more, 0), s),
        same_console(
            with_responses(s, more, k + 1),
            ConsoleV {
                responses: kept(with_responses(s, more, k).responses, more[k as int], 5000),
                ..with_responses(s, more, k)
            },
        ),
{
    law_panes_keep_the_newest(with_responses(s, more, k).responses, more[k as int], 5000);
}

/// One candidate is put into the line, with what follows its kind; several are shown, and
/// what they have in common is put there; none is told.
pub proof fn law_completions_are_taken(
    s: ConsoleV,
    c: ShellCompletions,
    a: Seq<char>,
    b: Seq<char>,
    right: Seq<char>,
)
    requires
        s.input == a + b + right,
        s.cursor == bytes(a + b),
        c.token_start == bytes(a),
    ensures
        ({
            let t = completed(s, c);
            let n = c.candidates@.len();
            let texts = Seq::new(n, |i: int| c.candidates@[i].text@);
            let one = c.candidates@[0].text@ + behind(c.candidates@[0].kind);
            &&& n == 1 ==> t.input == a + one + right && t.cursor == bytes(a + one) as usize
                && t.hint.len() == 0
            &&& n == 0 ==> t.hint == "(no completions)"@ && t.input == s.input && t.cursor == s.cursor
            &&& n > 1 ==> t.hint == (if c.more {
                join(texts, "  "@) + "  …"@
            } else {
                join(texts, "  "@)
            })
            &&& n > 1 && c.common_prefix@.len() > 0 ==> t.input == a + c.common_prefix@ + right
                && t.cursor == bytes(a + c.common_prefix@) as usize
            &&& n > 1 && c.common_prefix@.len() == 0 ==> t.input == s.input && t.cursor == s.cursor
        }),
{
    let l = LineV { left: a + b, right };
    lemma_line(s.input, s.cursor, l);
    lemma_bytes_add(a, b);
    lemma_bytes_add(a + b, right);
    assert(s.input.take(a.len() as int) =~= a);
    crate::line_edit::lemma_split_at(s.input, a.len() as int);
    assert((a + b).take(a.len() as int) =~= a);
    let texts = Seq::new(c.candidates@.len(), |i: int| c.candidates@[i].text@);
    assert(crate::console::candidate_texts(c.candidates@) =~= texts);
}

/// Completions are taken where they were asked for, and then no more are awaited.
pub proof fn law_completions_are_awaited(
    s: ConsoleV,
    kind: MsgType,
    c: ShellCompletions,
    now: Seq<char>,
)
    ensures
        s.pending_req == Some(c.req_id) ==> same_console(
            body_taken(s, kind, Body::ShellCompletions(c), now),
            ConsoleV { pending_req: None, ..completed(s, c) },
        ),
        s.pending_req != Some(c.req_id) ==> same_console(
            body_taken(s, kind, Body::ShellCompletions(c), now),
            s,
        ),
{
}

/// Numbers are followed: a gap is counted, but not behind a greeting. While paused, nothing
/// of the streams is shown.
pub proof fn law_numbers_are_followed(
    s: ConsoleV,
    kind: MsgType,
    seq: u16,
    body: Body,
    now: Seq<char>,
)
    ensures
        ({
            let t = frame_taken(s, Frame::Message { kind, seq, body }, now);
            let gap = kind != MsgType::Hello && (s.last_seq matches Some(p) && seq != next(p));
            let counted = ConsoleV {
                last_seq: Some(seq),
                seq_gaps: if gap && s.seq_gaps < u64::MAX {
                    (s.seq_gaps + 1) as u64
                } else {
                    s.seq_gaps
                },
                ..s
            };
            let stream = kind == MsgType::Log || kind == MsgType::Print || kind == MsgType::Event
                || kind == MsgType::Dropped;
            &&& s.paused && stream ==> same_console(t, counted)
            &&& !(s.paused && stream) ==> same_console(t, body_taken(counted, kind, body, now))
        }),
{
}

/// A refused frame is counted. One of another version is warned of once.
pub proof fn law_refused_frames_are_told(s: ConsoleV, error: String, got: u8, now: Seq<char>)
    ensures
        ({
            let t = frame_taken(s, Frame::Refused { error, bad_version: None }, now);
            let u = frame_taken(s, Frame::Refused { error, bad_version: Some(got) }, now);
            let more = if s.decode_failures < u64::MAX {
                (s.decode_failures + 1) as u64
            } else {
                s.decode_failures
            };
            &&& same_console(t, ConsoleV { decode_failures: more, ..s })
            &&& u.decode_failures == more && u.tag_refused && u.warned_mismatch
            &&& u.mismatch_got == (if s.tag_refused && s.mismatch_got is Some {
                s.mismatch_got
            } else {
                Some(got)
            })
            &&& s.warned_mismatch ==> u.logs == s.logs
            &&& !s.warned_mismatch ==> u.logs == kept(
                s.logs,
                (
                    "✖ PROTOCOL MISMATCH: device frames are tagged v"@ + dec(got as nat)
                        + ", but this `tower` was built for v"@ + dec(s.wire.protocol_version as nat)
                        + " — every frame will mis-decode. Rebuild the firmware and `tower` against the SAME tower-protocol tag (the lockstep rule)."@,
                    Color::Red,
                ),
                5000,
            )
        }),
{
    law_panes_keep_the_newest(
        s.logs,
        (
            "✖ PROTOCOL MISMATCH: device frames are tagged v"@ + dec(got as nat)
                + ", but this `tower` was built for v"@ + dec(s.wire.protocol_version as nat)
                + " — every frame will mis-decode. Rebuild the firmware and `tower` against the SAME tower-protocol tag (the lockstep rule)."@,
            Color::Red,
        ),
        5000,
    );
}

/// A frame that cannot be read is counted where it is of a kind that the console shows.
pub proof fn law_malformed_frames_are_counted(s: ConsoleV, kind: MsgType, now: Seq<char>)
    ensures
        ({
            let known = kind == MsgType::Log || kind == MsgType::Print || kind == MsgType::Event
                || kind == MsgType::Dropped || kind == MsgType::Hello || kind
                == MsgType::ShellResponse || kind == MsgType::ShellCompletions;
            let t = body_taken(s, kind, Body::Malformed, now);
            &&& !known ==> same_console(t, s)
            &&& known ==> same_console(
                t,
                ConsoleV {
                    payload_errors: if s.payload_errors < u64::MAX {
                        (s.payload_errors + 1) as u64
                    } else {
                        s.payload_errors
                    },
                    ..s
                },
            )
        }),
{
}

// ---- keys --------------------------------------------------------------------------

/// No modifier that makes a key another one.
pub open spec fn plain(mods: Mods) -> bool {
    !mods.ctrl && !mods.alt
}

/// A line with the cursor between `left` and `right`.
pub open spec fn with(s: ConsoleV, left: Seq<char>, right: Seq<char>) -> ConsoleV {
    ConsoleV { input: left + right, cursor: bytes(left) as usize, ..s }
}

/// What the keys do in the line: a character goes in before the cursor, Backspace takes the
/// one before it away, the arrows move the cursor by one, Home and End to the ends.
pub proof fn law_keys_edit_the_line(
    s: ConsoleV,
    mods: Mods,
    left: Seq<char>,
    a: char,
    b: char,
    right: Seq<char>,
    c: char,
)
    requires
        s.focus == Pane::Command && plain(mods),
        s.input == left.push(a) + (seq![b] + right),
        s.cursor == bytes(left.push(a)),
    ensures
        same_console(
            key_pressed(s, Key::Char(c), mods),
            ConsoleV { hint: Seq::empty(), ..with(s, left.push(a).push(c), seq![b] + right) },
        ),
        same_console(key_pressed(s, Key::Backspace, mods), with(s, left, seq![b] + right)),
        same_console(
            key_pressed(s, Key::Left, mods),
            with(s, left, seq![a] + (seq![b] + right)),
        ),
        same_console(key_pressed(s, Key::Right, mods), with(s, left.push(a).push(b), right)),
        same_console(key_pressed(s, Key::Home, mods), with(s, Seq::empty(), s.input)),
        same_console(key_pressed(s, Key::End, mods), with(s, s.input, Seq::empty())),
{
    lemma_line(s.input, s.cursor, LineV { left: left.push(a), right: seq![b] + right });
    assert(left.push(a).drop_last() =~= left);
    assert((seq![b] + right).skip(1) =~= right);
    assert(Seq::<char>::empty() + s.input =~= s.input);
    assert(s.input + Seq::<char>::empty() =~= s.input);
}

/// Typing and erasing at the ends of a line.
pub proof fn law_keys_at_the_ends(s: ConsoleV, mods: Mods, c: char)
    requires
        s.focus == Pane::Command && plain(mods),
    ensures
        s.cursor == 0 ==> same_console(key_pressed(s, Key::Backspace, mods), s),
        s.cursor == 0 ==> same_console(key_pressed(s, Key::Left, mods), s),
        s.cursor == bytes(s.input) ==> same_console(key_pressed(s, Key::Right, mods), s),
        s.cursor == 0 ==> same_console(
            key_pressed(s, Key::Char(c), mods),
            ConsoleV { hint: Seq::empty(), ..with(s, seq![c], s.input) },
        ),
        s.cursor == bytes(s.input) ==> same_console(
            key_pressed(s, Key::Char(c), mods),
            ConsoleV { hint: Seq::empty(), ..with(s, s.input.push(c), Seq::empty()) },
        ),
{
    let none = Seq::<char>::empty();
    lemma_line(s.input, s.cursor, LineV { left: none, right: s.input });
    lemma_line(s.input, s.cursor, LineV { left: s.input, right: none });
    assert(none + s.input =~= s.input);
    assert(s.input + none =~= s.input);
    assert(none.push(c) =~= seq![c]);
    assert(bytes(none) == 0);
}

/// With Ctrl or Alt: u cuts to the start, w cuts a word, a and e go to the ends; nothing is
/// typed.
pub proof fn law_modified_keys(
    s: ConsoleV,
    mods: Mods,
    left: Seq<char>,
    right: Seq<char>,
    key: Key,
)
    requires
        s.focus == Pane::Command && !plain(mods),
        s.input == left + right,
        s.cursor == bytes(left),
    ensures
        same_console(
            key_pressed(s, Key::Char('u'), mods),
            ConsoleV { hint: Seq::empty(), ..with(s, Seq::empty(), right) },
        ),
        same_console(
            key_pressed(s, Key::Char('w'), mods),
            ConsoleV { hint: Seq::empty(), ..with(s, without_word(without_spaces(left)), right) },
        ),
        same_console(key_pressed(s, Key::Char('a'), mods), with(s, Seq::empty(), s.input)),
        same_console(key_pressed(s, Key::Char('e'), mods), with(s, s.input, Seq::empty())),
        key != Key::Char('u') && key != Key::Char('w') && key != Key::Char('a') && key
            != Key::Char('e') && key != Key::Char('c') && !(key is F) && key != Key::BackTab
            ==> same_console(key_pressed(s, key, mods), s),
{
    lemma_line(s.input, s.cursor, LineV { left, right });
    assert(Seq::<char>::empty() + s.input =~= s.input);
    assert(s.input + Seq::<char>::empty() =~= s.input);
}

/// Up and Down walk through the history: the newest line first, the oldest stays, and behind
/// the newest the line is empty.
pub proof fn law_the_history(s: ConsoleV, mods: Mods, i: usize)
    requires
        s.focus == Pane::Command && plain(mods),
    ensures
        ({
            let up = key_pressed(s, Key::Up, mods);
            let down = key_pressed(s, Key::Down, mods);
            let n = s.history.len();
            &&& n == 0 ==> same_console(up, s)
            &&& n > 0 && s.hist_idx is None ==> up.input == s.history[n - 1] && up.hist_idx == Some(
                (n - 1) as usize,
            )
            &&& n > 0 && s.hist_idx == Some(0usize) ==> up.input == s.history[0] && up.hist_idx
                == Some(0usize)
            &&& n > 0 && s.hist_idx == Some(i) && i > 0 ==> up.input == s.history[i - 1]
                && up.hist_idx == Some((i - 1) as usize)
            &&& n > 0 ==> up.cursor == bytes(up.input) as usize && up.history == s.history
            &&& s.hist_idx == Some(i) && i + 1 < n ==> down.input == s.history[i + 1]
                && down.hist_idx == Some((i + 1) as usize) && down.cursor == bytes(
                s.history[i + 1],
            ) as usize
            &&& s.hist_idx == Some(i) && i + 1 >= n ==> down.input.len() == 0 && down.hist_idx
                is None && down.cursor == 0
            &&& s.hist_idx is None ==> down.input.len() == 0 && down.hist_idx is None && down.cursor
                == 0
        }),
{
}

/// Enter sends the line without the white space around it; Tab asks for completions of it at
/// the cursor; no other key sends anything, nor does any in another pane.
pub proof fn law_keys_send(s: ConsoleV, mods: Mods, key: Key)
    requires
        plain(mods),
    ensures
        s.focus == Pane::Command && trimmed(s.input).len() > 0 ==> key_request(s, Key::Enter, mods)
            == (RequestV::Command { cmd_id: s.cmd_id, line: trimmed(s.input) }),
        s.focus == Pane::Command && trimmed(s.input).len() == 0 ==> key_request(s, Key::Enter, mods)
            == RequestV::Nothing,
        s.focus == Pane::Command && s.cursor <= 65535 ==> key_request(s, Key::Tab, mods)
            == (RequestV::Complete { req_id: s.req_id, line: s.input, cursor: s.cursor as u16 }),
        key != Key::Enter && key != Key::Tab ==> key_request(s, key, mods) == RequestV::Nothing,
        s.focus != Pane::Command ==> key_request(s, key, mods) == RequestV::Nothing,
        s.focus == Pane::Command ==> key_pressed(s, Key::Tab, mods) == (ConsoleV {
            req_id: next(s.req_id),
            ..s
        }),
{
}

/// F3 zooms, F5 pauses, F8 clears the pane, F10 and Ctrl-C quit, and Shift-Tab goes on to
/// the next pane.
pub proof fn law_function_keys(s: ConsoleV, mods: Mods)
    ensures
        ({
            let f = |n: u8| key_pressed(s, Key::F(n), mods);
            &&& same_console(f(3), ConsoleV { zoom: !s.zoom, ..s })
            &&& same_console(f(5), ConsoleV { paused: !s.paused, ..s })
            &&& same_console(f(10), ConsoleV { quit: true, ..s })
            &&& mods.ctrl ==> same_console(
                key_pressed(s, Key::Char('c'), mods),
                ConsoleV { quit: true, ..s },
            )
            &&& s.focus == Pane::Logs ==> same_console(f(8), ConsoleV { logs: Seq::empty(), ..s })
            &&& s.focus == Pane::Events ==> same_console(
                f(8),
                ConsoleV { events: Seq::empty(), ..s },
            )
            &&& s.focus == Pane::Responses ==> same_console(
                f(8),
                ConsoleV { responses: Seq::empty(), ..s },
            )
            &&& s.focus == Pane::Command ==> same_console(f(8), s)
            &&& same_console(
                key_pressed(s, Key::BackTab, mods),
                ConsoleV { focus: next_pane(s.focus), ..s },
            )
            &&& next_pane(Pane::Command) == Pane::Responses && next_pane(Pane::Responses)
                == Pane::Events && next_pane(Pane::Events) == Pane::Logs && next_pane(Pane::Logs)
                == Pane::Command
        }),
{
}

/// In a pane the keys scroll it, by one or by ten, and not beyond its end; q quits.
pub proof fn law_keys_scroll(s: ConsoleV, mods: Mods, i: int)
    requires
        plain(mods) && s.scroll.len() == 3,
        s.focus == Pane::Logs && i == 0 || s.focus == Pane::Events && i == 1 || s.focus
            == Pane::Responses && i == 2,
    ensures
        ({
            let n = s.scroll[i];
            let to = |k: Key| key_pressed(s, k, mods).scroll;
            &&& same_console(
                key_pressed(s, Key::Char('q'), mods),
                ConsoleV { quit: true, ..s },
            )
            &&& n < usize::MAX ==> to(Key::Up) == s.scroll.update(i, (n + 1) as usize)
            &&& n > 0 ==> to(Key::Down) == s.scroll.update(i, (n - 1) as usize)
            &&& n == 0 ==> to(Key::Down) == s.scroll
            &&& n <= usize::MAX - 10 ==> to(Key::PageUp) == s.scroll.update(i, (n + 10) as usize)
            &&& n >= 10 ==> to(Key::PageDown) == s.scroll.update(i, (n - 10) as usize)
            &&& n < 10 ==> to(Key::PageDown) == s.scroll.update(i, 0)
        }),
{
    assert(s.scroll.update(i, 0) =~= s.scroll || s.scroll[i] != 0);
}

/// A line that was sent is shown and remembered, its answer is awaited from its first chunk,
/// and the line is empty again; one that was not stays, and why is told.
pub proof fn law_sent_lines(s: ConsoleV, cmd_id: u16, line: Seq<char>)
    ensures
        ({
            let req = RequestV::Command { cmd_id, line };
            let done = after_send(s, req, Sent::Done);
            let long = after_send(s, req, Sent::TooLong);
            let lost = after_send(s, req, Sent::LinkLost);
            &&& same_console(
                done,
                ConsoleV {
                    seq: next(s.seq),
                    cmd_id: next(s.cmd_id),
                    responses: kept(s.responses, "> "@ + line, 5000),
                    resp_buf: Seq::empty(),
                    pending_cmd: Some(cmd_id),
                    next_chunk: 0,
                    history: if s.history.len() > 0 && s.history[s.history.len() - 1] == line {
                        s.history
                    } else {
                        s.history.push(line)
                    },
                    hist_idx: None,
                    input: Seq::empty(),
                    cursor: 0,
                    hint: Seq::empty(),
                    ..s
                },
            )
            &&& s.connected && s.wire.max_frame >= 12 ==> same_console(
                long,
                ConsoleV {
                    hint: "line too long (max ~"@ + dec((s.wire.max_frame - 12) as nat)
                        + " bytes)"@,
                    ..s
                },
            )
            &&& s.connected ==> same_console(
                lost,
                ConsoleV {
                    seq: next(s.seq),
                    connected: false,
                    hint: "send failed: link lost — reconnecting…"@,
                    ..s
                },
            )
            &&& !s.connected ==> same_console(
                lost,
                ConsoleV { hint: "send failed: link lost — reconnecting…"@, ..s },
            )
        }),
{
    law_panes_keep_the_newest(s.responses, "> "@ + line, 5000);
}

/// Completions that were asked for are awaited; a new link awaits nothing; one that could not
/// be opened says why.
pub proof fn law_links_are_taken_up(
    s: ConsoleV,
    req_id: u16,
    line: Seq<char>,
    cursor: u16,
    e: Seq<char>,
)
    ensures
        same_console(
            after_send(s, RequestV::Complete { req_id, line, cursor }, Sent::Done),
            ConsoleV { seq: next(s.seq), pending_req: Some(req_id), ..s },
        ),
        same_console(
            after_send(s, RequestV::Complete { req_id, line, cursor }, Sent::TooLong),
            s,
        ),
        same_console(
            reopened(s, Ok(())),
            ConsoleV {
                connected: true,
                last_open_error: None,
                resp_buf: Seq::empty(),
                pending_cmd: None,
                pending_req: None,
                ..s
            },
        ),
        same_console(reopened(s, Err(e)), ConsoleV { last_open_error: Some(e), ..s }),
{
}

} // verus!

//! Keys of the console, sending, and the link.

use crate::console::{
    capped, console_ok, with_line, with_response, Console, ConsoleV, Pane, Request, RequestV, Sent,
    CAP,
};
use crate::line_edit;
use crate::line_edit::{
    bytes, cursor_ok, erased, killed_to_start, killed_word, lemma_home, lemma_line, line_at, moved_end,
    moved_home, moved_left, moved_right, typed, LineV,
};
use crate::render::follower;
use crate::style::{Color, Key, Mods};
use crate::text::{cat2, cat3, dec, dec_u64, push_deep, same, trim, trimmed};
use std::collections::VecDeque;
use vstd::prelude::*;
use vstd::std_specs::vecdeque::*;
use vstd::string::*;

verus! {

// ---- the command line --------------------------------------------------------------

pub open spec fn line_of(s: ConsoleV) -> LineV {
    line_at(s.input, s.cursor)
}

pub open spec fn no_hint(s: ConsoleV) -> ConsoleV {
    ConsoleV { hint: Seq::empty(), ..s }
}

/// One entry of the history is shown, with the cursor at its end.
pub open spec fn recalled(s: ConsoleV, i: int) -> ConsoleV {
    ConsoleV {
        hist_idx: Some(i as usize),
        input: s.history[i],
        cursor: bytes(s.history[i]) as usize,
        ..s
    }
}

/// The entry before the one that is shown, or the last one.
pub open spec fn history_back(s: ConsoleV) -> ConsoleV {
    if s.history.len() == 0 {
        s
    } else {
        recalled(
            s,
            match s.hist_idx {
                None => s.history.len() - 1,
                Some(i) => if i == 0 {
                    0
                } else {
                    i - 1
                },
            },
        )
    }
}

/// The entry behind the one that is shown, or an empty line.
pub open spec fn history_forth(s: ConsoleV) -> ConsoleV {
    match s.hist_idx {
        Some(i) => if i + 1 < s.history.len() {
            recalled(s, i + 1)
        } else {
            ConsoleV { hist_idx: None, input: Seq::empty(), cursor: 0, ..s }
        },
        None => ConsoleV { hist_idx: None, input: Seq::empty(), cursor: 0, ..s },
    }
}

/// A key on the command line. Control and alt make commands of letters; no other key with
/// them does anything.
pub open spec fn command_key(s: ConsoleV, key: Key, mods: Mods) -> ConsoleV {
    if mods.ctrl || mods.alt {
        match key {
            Key::Char('u') => no_hint(with_line(s, killed_to_start(line_of(s)))),
            Key::Char('w') => no_hint(with_line(s, killed_word(line_of(s)))),
            Key::Char('a') => with_line(s, moved_home(line_of(s))),
            Key::Char('e') => with_line(s, moved_end(line_of(s))),
            _ => s,
        }
    } else {
        match key {
            Key::Char(c) => no_hint(with_line(s, typed(line_of(s), c))),
            Key::Backspace => with_line(s, erased(line_of(s))),
            Key::Left => with_line(s, moved_left(line_of(s))),
            Key::Right => with_line(s, moved_right(line_of(s))),
            Key::Home => with_line(s, moved_home(line_of(s))),
            Key::End => with_line(s, moved_end(line_of(s))),
            Key::Up => history_back(s),
            Key::Down => history_forth(s),
            Key::Tab => ConsoleV { req_id: follower(s.req_id), ..s },
            _ => s,
        }
    }
}

/// What a key on the command line asks to send.
pub open spec fn command_request(s: ConsoleV, key: Key, mods: Mods) -> RequestV {
    if mods.ctrl || mods.alt {
        RequestV::Nothing
    } else {
        match key {
            Key::Tab => RequestV::Complete {
                req_id: s.req_id,
                line: s.input,
                cursor: (s.cursor % 0x1_0000) as u16,
            },
            Key::Enter => if trimmed(s.input).len() == 0 {
                RequestV::Nothing
            } else {
                RequestV::Command { cmd_id: s.cmd_id, line: trimmed(s.input) }
            },
            _ => RequestV::Nothing,
        }
    }
}

/// A number of rows up or down; it stays within what a counter holds.
pub open spec fn scrolled(n: usize, key: Key) -> usize {
    match key {
        Key::PageUp => if n + 10 > usize::MAX {
            usize::MAX
        } else {
            (n + 10) as usize
        },
        Key::PageDown => if n < 10 {
            0
        } else {
            (n - 10) as usize
        },
        Key::Up => if n == usize::MAX {
            n
        } else {
            (n + 1) as usize
        },
        Key::Down => if n == 0 {
            0
        } else {
            (n - 1) as usize
        },
        _ => n,
    }
}

/// Which of the scroll positions belongs to a pane.
pub open spec fn scroll_slot(pane: Pane) -> int {
    match pane {
        Pane::Logs => 0,
        Pane::Events => 1,
        Pane::Responses => 2,
        Pane::Command => 0,
    }
}

/// A key in a pane that scrolls. A bare `q` quits.
pub open spec fn scroll_key(s: ConsoleV, pane: Pane, key: Key) -> ConsoleV {
    match (pane, key) {
        (Pane::Command, _) => s,
        (_, Key::Char('q')) => ConsoleV { quit: true, ..s },
        _ => {
            let i = scroll_slot(pane);
            ConsoleV { scroll: s.scroll.update(i, scrolled(s.scroll[i], key)), ..s }
        },
    }
}

pub open spec fn next_pane(p: Pane) -> Pane {
    match p {
        Pane::Command => Pane::Responses,
        Pane::Responses => Pane::Events,
        Pane::Events => Pane::Logs,
        Pane::Logs => Pane::Command,
    }
}

pub open spec fn pane_cleared(s: ConsoleV) -> ConsoleV {
    match s.focus {
        Pane::Logs => ConsoleV { logs: Seq::empty(), ..s },
        Pane::Events => ConsoleV { events: Seq::empty(), ..s },
        Pane::Responses => ConsoleV { responses: Seq::empty(), ..s },
        Pane::Command => s,
    }
}

/// The key works the same in every pane.
pub open spec fn global_key(key: Key, mods: Mods) -> bool {
    (mods.ctrl && key == Key::Char('c')) || key == Key::F(10) || key == Key::F(3) || key == Key::F(5)
        || key == Key::F(8) || key == Key::BackTab
}

/// A key was pressed.
pub open spec fn key_pressed(s: ConsoleV, key: Key, mods: Mods) -> ConsoleV {
    if mods.ctrl && key == Key::Char('c') {
        ConsoleV { quit: true, ..s }
    } else {
        match key {
            Key::F(10) => ConsoleV { quit: true, ..s },
            Key::F(3) => ConsoleV { zoom: !s.zoom, ..s },
            Key::F(5) => ConsoleV { paused: !s.paused, ..s },
            Key::F(8) => pane_cleared(s),
            Key::BackTab => ConsoleV { focus: next_pane(s.focus), ..s },
            _ => if s.focus == Pane::Command {
                command_key(s, key, mods)
            } else {
                scroll_key(s, s.focus, key)
            },
        }
    }
}

/// What a key asks to send.
pub open spec fn key_request(s: ConsoleV, key: Key, mods: Mods) -> RequestV {
    if global_key(key, mods) || s.focus != Pane::Command {
        RequestV::Nothing
    } else {
        command_request(s, key, mods)
    }
}

// ---- sending -----------------------------------------------------------------------

/// The link after an attempt to send: the frame counter moves on where a frame was made
/// and written.
pub open spec fn sent_on(s: ConsoleV, outcome: Sent) -> ConsoleV {
    match outcome {
        Sent::Done => ConsoleV { seq: follower(s.seq), ..s },
        Sent::TooLong => s,
        Sent::LinkLost => if s.connected {
            ConsoleV { seq: follower(s.seq), connected: false, ..s }
        } else {
            s
        },
    }
}

/// A command went out, or did not: then the line stays, and the hint says why.
pub open spec fn command_sent(s: ConsoleV, cmd_id: u16, line: Seq<char>, outcome: Sent) -> ConsoleV {
    let s1 = sent_on(s, outcome);
    if outcome == Sent::Done {
        let s2 = with_response(ConsoleV { cmd_id: follower(s1.cmd_id), ..s1 }, "> "@ + line);
        ConsoleV {
            resp_buf: Seq::empty(),
            pending_cmd: Some(cmd_id),
            next_chunk: 0,
            history: if s2.history.len() > 0 && s2.history.last() == line {
                s2.history
            } else {
                s2.history.push(line)
            },
            hist_idx: None,
            input: Seq::empty(),
            cursor: 0,
            hint: Seq::empty(),
            ..s2
        }
    } else {
        ConsoleV {
            hint: if s1.connected {
                "line too long (max ~"@ + dec(
                    if s1.wire.max_frame >= 12 {
                        (s1.wire.max_frame - 12) as nat
                    } else {
                        0
                    },
                ) + " bytes)"@
            } else {
                "send failed: link lost — reconnecting…"@
            },
            ..s1
        }
    }
}

/// How sending a request went.
pub open spec fn after_send(s: ConsoleV, req: RequestV, outcome: Sent) -> ConsoleV {
    match req {
        RequestV::Nothing => s,
        RequestV::Complete { req_id, line: _, cursor: _ } => {
            let s1 = sent_on(s, outcome);
            if outcome == Sent::Done {
                ConsoleV { pending_req: Some(req_id), ..s1 }
            } else {
                s1
            }
        },
        RequestV::Command { cmd_id, line } => command_sent(s, cmd_id, line, outcome),
    }
}

// ---- the link ----------------------------------------------------------------------

/// An attempt to reconnect ended. A fresh link knows nothing of the old one's responses.
pub open spec fn reopened(s: ConsoleV, result: Result<(), Seq<char>>) -> ConsoleV {
    match result {
        Ok(_) => ConsoleV {
            connected: true,
            last_open_error: None,
            resp_buf: Seq::empty(),
            pending_cmd: None,
            pending_req: None,
            ..s
        },
        Err(e) => ConsoleV { last_open_error: Some(e), ..s },
    }
}

impl Console {
    fn set_line(&mut self, input: String, cursor: usize, Ghost(l): Ghost<LineV>)
        requires
            line_edit::now_line((input, cursor), l),
        ensures
            final(self)@ == with_line(old(self)@, l),
            cursor_ok(final(self)@.input, final(self)@.cursor),
    {
        proof {
            lemma_line(input@, cursor, l);
        }
        self.input = input;
        self.cursor = cursor;
    }

    fn recall(&mut self, i: usize)
        requires
            i < old(self).history@.len(),
        ensures
            final(self)@ == recalled(old(self)@, i as int),
            cursor_ok(final(self)@.input, final(self)@.cursor),
    {
        self.hist_idx = Some(i);
        self.input = self.history[i].clone();
        self.cursor = line_edit::end_of(self.input.as_str());
        proof {
            lemma_line(
                self.input@,
                self.cursor,
                LineV { left: self.input@, right: Seq::empty() },
            );
        }
    }

    fn clear_line(&mut self)
        ensures
            final(self)@ == (ConsoleV { input: Seq::empty(), cursor: 0, ..old(self)@ }),
            cursor_ok(final(self)@.input, final(self)@.cursor),
    {
        self.input = String::new();
        self.cursor = 0;
        proof {
            lemma_home(self.input@);
        }
    }

    fn history_prev(&mut self)
        requires
            console_ok(old(self)@),
        ensures
            console_ok(final(self)@),
            final(self)@ == history_back(old(self)@),
    {
        let n: usize = self.history.len();
        if n == 0 {
            return;
        }
        let i: usize = match self.hist_idx {
            None => n - 1,
            Some(i) => if i == 0 {
                0
            } else {
                i - 1
            },
        };
        self.recall(i);
    }

    fn history_next(&mut self)
        requires
            console_ok(old(self)@),
        ensures
            console_ok(final(self)@),
            final(self)@ == history_forth(old(self)@),
    {
        let n: usize = self.history.len();
        if let Some(i) = self.hist_idx {
            if i + 1 < n {
                self.recall(i + 1);
                return;
            }
        }
        self.hist_idx = None;
        self.clear_line();
    }

    /// A key of the command line with a modifier.
    fn handle_modified_key(&mut self, key: Key, mods: Mods)
        requires
            console_ok(old(self)@),
            mods.ctrl || mods.alt,
        ensures
            console_ok(final(self)@),
            final(self)@ == command_key(old(self)@, key, mods),
    {
        let ghost l = line_of(self@);
        proof {
            lemma_line(self.input@, self.cursor, l);
            lemma_home(self.input@);
        }
        match key {
            Key::Char('u') => {
                let (input, cursor) = line_edit::kill_to_start(self.input.as_str(), self.cursor);
                self.set_line(input, cursor, Ghost(killed_to_start(l)));
                self.hint = String::new();
            },
            Key::Char('w') => {
                let (input, cursor) = line_edit::kill_word(self.input.as_str(), self.cursor);
                self.set_line(input, cursor, Ghost(killed_word(l)));
                self.hint = String::new();
            },
            Key::Char('a') => {
                self.cursor = 0;
                assert(self@ =~= with_line(old(self)@, moved_home(l)));
            },
            Key::Char('e') => {
                self.cursor = line_edit::end_of(self.input.as_str());
                proof {
                    lemma_line(
                        self.input@,
                        self.cursor,
                        LineV { left: self.input@, right: Seq::empty() },
                    );
                    assert(moved_end(l).left + moved_end(l).right =~= self.input@);
                }
            },
            _ => {},
        }
    }

    fn handle_command_key(&mut self, key: Key, mods: Mods) -> (r: Request)
        requires
            console_ok(old(self)@),
        ensures
            console_ok(final(self)@),
            final(self)@ == command_key(old(self)@, key, mods),
            r.deep_view() == command_request(old(self)@, key, mods),
    {
        let ghost l = line_of(self@);
        proof {
            lemma_line(self.input@, self.cursor, l);
            lemma_home(self.input@);
        }
        if mods.ctrl || mods.alt {
            self.handle_modified_key(key, mods);
            return Request::Nothing;
        }
        match key {
            Key::Char(c) => {
                let (input, cursor) = line_edit::insert(self.input.as_str(), self.cursor, c);
                self.set_line(input, cursor, Ghost(typed(l, c)));
                self.hint = String::new();
            },
            Key::Backspace => {
                let (input, cursor) = line_edit::erase(self.input.as_str(), self.cursor);
                self.set_line(input, cursor, Ghost(erased(l)));
            },
            Key::Left => {
                self.cursor = line_edit::left_of(self.input.as_str(), self.cursor);
                proof {
                    lemma_line(self.input@, self.cursor, moved_left(l));
                }
            },
            Key::Right => {
                self.cursor = line_edit::right_of(self.input.as_str(), self.cursor);
                proof {
                    lemma_line(self.input@, self.cursor, moved_right(l));
                }
            },
            Key::Home => {
                self.cursor = 0;
                assert(self@ =~= with_line(old(self)@, moved_home(l)));
            },
            Key::End => {
                self.cursor = line_edit::end_of(self.input.as_str());
                proof {
                    lemma_line(
                        self.input@,
                        self.cursor,
                        LineV { left: self.input@, right: Seq::empty() },
                    );
                    assert(moved_end(l).left + moved_end(l).right =~= self.input@);
                }
            },
            Key::Up => self.history_prev(),
            Key::Down => self.history_next(),
            Key::Tab => {
                let req_id = self.req_id;
                self.req_id = req_id.wrapping_add(1);
                return Request::Complete {
                    req_id,
                    line: self.input.clone(),
                    cursor: (self.cursor % 0x1_0000) as u16,
                };
            },
            Key::Enter => {
                let line = trim(self.input.as_str()).to_owned();
                if line.as_str().unicode_len() > 0 {
                    return Request::Command { cmd_id: self.cmd_id, line };
                }
            },
            _ => {},
        }
        Request::Nothing
    }

    fn handle_scroll_key(&mut self, pane: Pane, key: Key)
        requires
            console_ok(old(self)@),
        ensures
            console_ok(final(self)@),
            final(self)@ == scroll_key(old(self)@, pane, key),
    {
        let i: usize = match pane {
            Pane::Logs => 0,
            Pane::Events => 1,
            Pane::Responses => 2,
            Pane::Command => {
                return;
            },
        };
        let n: usize = self.scroll[i];
        let m: usize = match key {
            Key::PageUp => n.saturating_add(10),
            Key::PageDown => n.saturating_sub(10),
            Key::Up => n.saturating_add(1),
            Key::Down => n.saturating_sub(1),
            Key::Char('q') => {
                self.quit = true;
                return;
            },
            _ => n,
        };
        self.scroll[i] = m;
        assert(self@.scroll =~= old(self)@.scroll.update(i as int, scrolled(n, key)));
    }

    /// A key was pressed: changes the state, and says what has to be sent.
    pub fn handle_key(&mut self, key: Key, mods: Mods) -> (r: Request)
        requires
            console_ok(old(self)@),
        ensures
            console_ok(final(self)@),
            final(self)@ == key_pressed(old(self)@, key, mods),
            r.deep_view() == key_request(old(self)@, key, mods),
    {
        if mods.ctrl && key == Key::Char('c') {
            self.quit = true;
            return Request::Nothing;
        }
        match key {
            Key::F(10) => {
                self.quit = true;
                return Request::Nothing;
            },
            Key::F(3) => {
                self.zoom = !self.zoom;
                return Request::Nothing;
            },
            Key::F(5) => {
                self.paused = !self.paused;
                return Request::Nothing;
            },
            Key::F(8) => {
                match self.focus {
                    Pane::Logs => {
                        self.logs = VecDeque::new();
                        assert(self@.logs =~= Seq::<(Seq<char>, Color)>::empty());
                    },
                    Pane::Events => {
                        self.events = VecDeque::new();
                        assert(self@.events =~= Seq::<Seq<char>>::empty());
                    },
                    Pane::Responses => {
                        self.responses = VecDeque::new();
                        assert(self@.responses =~= Seq::<Seq<char>>::empty());
                    },
                    Pane::Command => {},
                }
                return Request::Nothing;
            },
            Key::BackTab => {
                self.focus = match self.focus {
                    Pane::Command => Pane::Responses,
                    Pane::Responses => Pane::Events,
                    Pane::Events => Pane::Logs,
                    Pane::Logs => Pane::Command,
                };
                return Request::Nothing;
            },
            _ => {},
        }
        match self.focus {
            Pane::Command => self.handle_command_key(key, mods),
            pane => {
                self.handle_scroll_key(pane, key);
                Request::Nothing
            },
        }
    }

    // ---- sending -------------------------------------------------------------------

    fn note_sent(&mut self, outcome: Sent)
        ensures
            final(self)@ == sent_on(old(self)@, outcome),
    {
        match outcome {
            Sent::Done => {
                self.seq = self.seq.wrapping_add(1);
            },
            Sent::TooLong => {},
            Sent::LinkLost => {
                if self.connected {
                    self.seq = self.seq.wrapping_add(1);
                    self.connected = false;
                }
            },
        }
    }

    /// Remembers a line, unless it is the last one again.
    fn remember(&mut self, line: String)
        ensures
            final(self)@ == (ConsoleV {
                history: if old(self)@.history.len() > 0 && old(self)@.history.last() == line@ {
                    old(self)@.history
                } else {
                    old(self)@.history.push(line@)
                },
                ..old(self)@
            }),
    {
        let n: usize = self.history.len();
        if n > 0 && same(self.history[n - 1].as_str(), line.as_str()) {
            return;
        }
        push_deep(&mut self.history, line);
    }

    fn send_failed(&mut self)
        ensures
            final(self)@ == (ConsoleV {
                hint: if old(self)@.connected {
                    "line too long (max ~"@ + dec(
                        if old(self)@.wire.max_frame >= 12 {
                            (old(self)@.wire.max_frame - 12) as nat
                        } else {
                            0
                        },
                    ) + " bytes)"@
                } else {
                    "send failed: link lost — reconnecting…"@
                },
                ..old(self)@
            }),
    {
        self.hint = if self.connected {
            cat3(
                "line too long (max ~",
                dec_u64(self.wire.max_frame.saturating_sub(12) as u64).as_str(),
                " bytes)",
            )
        } else {
            "send failed: link lost — reconnecting…".to_owned()
        };
    }

    /// A command was to be sent: only where it went out is anything of it kept.
    pub fn send_command(&mut self, cmd_id: u16, line: String, outcome: Sent)
        requires
            console_ok(old(self)@),
        ensures
            console_ok(final(self)@),
            final(self)@ == command_sent(old(self)@, cmd_id, line@, outcome),
    {
        self.note_sent(outcome);
        match outcome {
            Sent::Done => {
                self.cmd_id = self.cmd_id.wrapping_add(1);
                let echo = cat2("> ", line.as_str());
                crate::console::push_text(&mut self.responses, echo);
                self.resp_buf = String::new();
                self.pending_cmd = Some(cmd_id);
                self.next_chunk = 0;
                self.remember(line);
                self.hist_idx = None;
                self.clear_line();
                self.hint = String::new();
            },
            _ => self.send_failed(),
        }
    }

    /// Takes back how sending a request went.
    pub fn sent(&mut self, req: Request, outcome: Sent)
        requires
            console_ok(old(self)@),
        ensures
            console_ok(final(self)@),
            final(self)@ == after_send(old(self)@, req.deep_view(), outcome),
    {
        match req {
            Request::Nothing => {},
            Request::Complete { req_id, line: _, cursor: _ } => {
                self.note_sent(outcome);
                if let Sent::Done = outcome {
                    self.pending_req = Some(req_id);
                }
            },
            Request::Command { cmd_id, line } => self.send_command(cmd_id, line, outcome),
        }
    }

    /// How far a pane is scrolled back, in rows.
    pub fn scrollback(&self, pane: Pane) -> (r: usize)
        requires
            console_ok(self@),
        ensures
            r == if pane == Pane::Command {
                0
            } else {
                self@.scroll[scroll_slot(pane)]
            },
    {
        match pane {
            Pane::Logs => self.scroll[0],
            Pane::Events => self.scroll[1],
            Pane::Responses => self.scroll[2],
            Pane::Command => 0,
        }
    }

    // ---- the link ------------------------------------------------------------------

    /// Whether to try to reconnect now, `since_ms` after the last attempt.
    pub fn reconnect_due(&self, since_ms: u64) -> (r: bool)
        ensures
            r == (!self.connected && since_ms >= 800),
    {
        !self.connected && since_ms >= 800
    }

    /// An attempt to connect ended.
    pub fn on_open(&mut self, result: Result<(), String>)
        requires
            console_ok(old(self)@),
        ensures
            console_ok(final(self)@),
            final(self)@ == reopened(
                old(self)@,
                match result {
                    Ok(u) => Ok(u),
                    Err(e) => Err(e@),
                },
            ),
    {
        match result {
            Ok(_) => {
                self.connected = true;
                self.last_open_error = None;
                self.resp_buf = String::new();
                self.pending_cmd = None;
                self.pending_req = None;
            },
            Err(e) => {
                self.last_open_error = Some(e);
            },
        }
    }

    /// Reading from the link failed.
    pub fn on_link_lost(&mut self)
        requires
            console_ok(old(self)@),
        ensures
            console_ok(final(self)@),
            final(self)@ == (ConsoleV { connected: false, ..old(self)@ }),
    {
        self.connected = false;
    }
}

// ---- laws --------------------------------------------------------------------------

/// A command that did not go out leaves no trace but the hint: the line, the history, the
/// responses and the awaited response stay what they were.
pub proof fn law_failed_send_keeps_the_line(s: ConsoleV, cmd_id: u16, line: Seq<char>, outcome: Sent)
    requires
        outcome != Sent::Done,
    ensures
        ({
            let t = command_sent(s, cmd_id, line, outcome);
            &&& t.input == s.input && t.cursor == s.cursor
            &&& t.history == s.history && t.hist_idx == s.hist_idx
            &&& t.responses == s.responses && t.pending_cmd == s.pending_cmd
            &&& t.cmd_id == s.cmd_id && t.resp_buf == s.resp_buf
            &&& t.hint.len() > 0
        }),
{
    reveal_strlit("line too long (max ~");
    reveal_strlit("send failed: link lost — reconnecting…");
}

/// Four steps of the focus lead back to where it was.
pub proof fn law_focus_goes_round(p: Pane)
    ensures
        next_pane(next_pane(next_pane(next_pane(p)))) == p,
        next_pane(p) != p,
{
}

/// While control or alt is held, no key enters text.
pub proof fn law_modified_keys_enter_no_text(s: ConsoleV, key: Key, mods: Mods)
    requires
        console_ok(s),
        mods.ctrl || mods.alt,
        s.focus == Pane::Command,
    ensures
        key_pressed(s, key, mods).input.len() <= s.input.len(),
{
    let l = line_of(s);
    lemma_line(s.input, s.cursor, l);
    line_edit::law_kill_word_stops_at_space(l);
}

/// The scrollback of a pane never exceeds its bound.
pub proof fn law_panes_are_bounded<T>(pane: Seq<T>, item: T)
    requires
        pane.len() <= CAP,
    ensures
        capped(pane, item, CAP as nat).len() <= CAP,
        capped(pane, item, CAP as nat).last() == item,
{
    reveal(capped);
}

} // verus!

//! The console: keys, frames, and what is on the screen.

use tower_cli::console::{push_cap, Console, Pane, Request, Sent};
use tower_cli::console_view::{border_style, clock_offset, wrapped_rows};
use tower_cli::frame::{
    Body, Candidate, CandidateKind, Frame, Hello, Level, Log, MsgType, ShellCompletions, ShellResponse,
};
use tower_cli::layout::{
    areas_of, console_columns, console_rows, render_split, screen, Part,
};
use tower_cli::line_edit::{
    char_width, end_of, erase, insert, kill_to_start, kill_word, left_of, next_char, prev_char,
    replace, right_of,
};
use tower_cli::style::{Color, Key, Mods, Rect, Span};
use tower_cli::wire::Wire;

fn wire() -> Wire {
    Wire {
        protocol_version: 3,
        radio_schema_version: 1,
        radio_shell_chunk: 48,
        max_node_name: 16,
        max_frame: 256,
        role_gateway: 0,
        role_node: 1,
        role_other: 2,
        flag_sleeping: 1,
        flag_unnamed: 2,
        last_seen_never: u32::MAX,
        rssi_none: i8::MAX,
        mgmt_ok: 0,
        mgmt_unsupported: 1,
        mgmt_bad_arg: 2,
        mgmt_not_found: 3,
        mgmt_full: 4,
        mgmt_busy: 5,
        mgmt_storage: 6,
        mgmt_timeout: 7,
        tx_delivered: 0,
        tx_not_delivered: 1,
        tx_busy: 2,
        tx_duty_limited: 3,
        tx_expired: 4,
    }
}

const NONE: Mods = Mods { ctrl: false, alt: false, shift: false, other: false };
const CONTROL: Mods = Mods { ctrl: true, alt: false, shift: false, other: false };

fn test_app() -> Console {
    Console::new(wire(), "/dev/mock".to_string())
}

fn bad_version(ver: u8) -> Frame {
    Frame::Refused { error: "BadVersion".to_string(), bad_version: Some(ver) }
}

fn hello(protocol_version: u8) -> Frame {
    Frame::Message {
        kind: MsgType::Hello,
        seq: 0,
        body: Body::Hello(Hello {
            protocol_version,
            firmware_name: "fw".to_string(),
            firmware_version: "v1".to_string(),
            session_id: 1,
        }),
    }
}

fn malformed(kind: MsgType, seq: u16) -> Frame {
    Frame::Message { kind, seq, body: Body::Malformed }
}

fn log_at(seq: u16) -> Frame {
    Frame::Message {
        kind: MsgType::Log,
        seq,
        body: Body::Log(Log {
            level: Level::Info,
            uptime_us: 0,
            module: "t".to_string(),
            message: "m".to_string(),
        }),
    }
}

fn take(app: &mut Console, frame: &Frame) {
    app.handle_frame(frame, "12:00:00.000");
}

fn row(spans: &[Span]) -> String {
    spans.iter().map(|s| s.text.as_str()).collect()
}

/// The screen as text, line by line: header, what is in view of each pane, footer.
fn render_to_text_sized(app: &Console, w: u16, h: u16) -> String {
    let s = screen(Rect { x: 0, y: 0, width: w, height: h }, 0);
    let mut out = row(&app.header_spans("1.2.3"));
    for p in app.panes(s.body) {
        out.push('\n');
        out.push_str(p.title);
        if p.pane == Pane::Command {
            out.push('\n');
            out.push_str(&app.command_text());
            continue;
        }
        let border = if p.title.is_empty() { 0 } else { 2 };
        let inner_w = (p.area.width - border) as usize;
        let inner_h = (p.area.height - border) as usize;
        let win = app.pane_window(p.pane, inner_w, inner_h, app.scrollback(p.pane));
        let mut rows: Vec<String> = Vec::new();
        for l in app.pane_content(p.pane, win.first) {
            let text: Vec<char> = row(&l).chars().collect();
            if text.is_empty() {
                rows.push(String::new());
            }
            for c in text.chunks(inner_w) {
                rows.push(c.iter().collect());
            }
        }
        for r in rows.iter().skip(win.top_row).take(inner_h) {
            out.push('\n');
            out.push_str(r);
        }
    }
    out.push('\n');
    out.push_str(&row(&app.footer_spans()));
    out
}

fn render_to_text(app: &Console) -> String {
    render_to_text_sized(app, 80, 24)
}

#[test]
fn ui_disconnected_shows_reconnecting() {
    let app = test_app(); // no link yet
    let text = render_to_text(&app);
    assert!(text.contains("HARDWARIO TOWER Console"));
    assert!(text.contains("reconnecting"));
    assert!(text.contains("/dev/mock"));
    // Footer hint mentions the quit binding.
    assert!(text.contains("^C"));
}

#[test]
fn ui_split_shows_all_pane_titles() {
    let mut app = test_app();
    push_cap(&mut app.logs, ("boot ok".to_string(), Color::Green));
    push_cap(&mut app.events, "sensor temp=21".to_string());
    push_cap(&mut app.responses, "> /help".to_string());
    let text = render_to_text(&app);
    assert!(text.contains("Device Logs"));
    assert!(text.contains("Device Events"));
    assert!(text.contains("Shell Responses"));
    assert!(text.contains("Shell Command"));
    assert!(text.contains("boot ok"));
}

#[test]
fn ui_zoom_shows_only_focused_pane() {
    let mut app = test_app();
    app.zoom = true;
    app.focus = Pane::Logs;
    push_cap(&mut app.logs, ("zoomed log line".to_string(), Color::Reset));
    let text = render_to_text(&app);
    assert!(text.contains("zoomed log line"));
    // In zoom, the other panes are not drawn.
    assert!(!text.contains("Device Events"));
}

#[test]
fn ui_paused_and_hint_render() {
    let mut app = test_app();
    app.paused = true;
    app.hint = "system  radio  gpio".to_string();
    let text = render_to_text_sized(&app, 140, 24);
    assert!(text.contains("F5 Pause"));
    assert!(text.contains("[system  radio  gpio]"));
}

#[test]
fn ui_keeps_newest_line_visible_when_lines_wrap() {
    let mut app = test_app();
    app.zoom = true;
    app.focus = Pane::Logs;
    let wide = "X".repeat(200); // wraps to several rows at width 80
    for i in 0..40 {
        push_cap(&mut app.logs, (format!("{i}-{wide}"), Color::Reset));
    }
    push_cap(&mut app.logs, ("NEWEST-MARKER".to_string(), Color::Reset));
    let text = render_to_text(&app);
    assert!(
        text.contains("NEWEST-MARKER"),
        "the most recent line must stay visible even when earlier lines wrap"
    );
}

#[test]
fn typing_multibyte_chars_keeps_cursor_on_boundary() {
    let mut app = test_app();
    for ch in "über→π".chars() {
        app.handle_key(Key::Char(ch), NONE);
    }
    assert_eq!(app.input, "über→π");
    assert_eq!(app.cursor, app.input.len());
    assert!(app.input.is_char_boundary(app.cursor));
}

#[test]
fn ctrl_c_quits_from_any_pane() {
    let mut app = test_app();
    app.handle_key(Key::Char('c'), CONTROL);
    assert!(app.quit);
    // And it must NOT have inserted a literal 'c' into the command line.
    assert_eq!(app.input, "");
}

#[test]
fn ctrl_modified_char_is_not_inserted() {
    let mut app = test_app();
    app.handle_key(Key::Char('x'), CONTROL);
    assert_eq!(app.input, ""); // Ctrl+X is not text
}

#[test]
fn q_quits_only_in_non_command_panes() {
    let mut app = test_app();
    app.focus = Pane::Logs;
    app.handle_key(Key::Char('q'), NONE);
    assert!(app.quit);

    let mut app2 = test_app(); // focus defaults to Command
    app2.handle_key(Key::Char('q'), NONE);
    assert!(!app2.quit);
    assert_eq!(app2.input, "q"); // in the command pane, 'q' is just text
}

fn type_line(app: &mut Console, line: &str) {
    for ch in line.chars() {
        app.handle_key(Key::Char(ch), NONE);
    }
}

#[test]
fn ctrl_u_and_ctrl_w_edit_the_line() {
    let mut app = test_app();
    type_line(&mut app, "/system radio");
    app.handle_key(Key::Char('w'), CONTROL); // kill "radio"
    assert_eq!(app.input, "/system ");
    app.handle_key(Key::Char('u'), CONTROL); // kill to start
    assert_eq!(app.input, "");
    assert_eq!(app.cursor, 0);
}

fn completions(token_start: u16, prefix: &str, cands: &[(&str, CandidateKind)]) -> ShellCompletions {
    ShellCompletions {
        req_id: 1,
        token_start,
        common_prefix: prefix.to_string(),
        candidates: cands
            .iter()
            .map(|(t, k)| Candidate { text: t.to_string(), kind: *k })
            .collect(),
        more: false,
    }
}

#[test]
fn completion_with_mid_char_token_start_is_ignored() {
    // "π" is 2 bytes; token_start=1 falls inside it.
    let mut app = test_app();
    app.input = "π".to_string();
    app.cursor = app.input.len();
    let c = completions(1, "", &[("system", CandidateKind::Command)]);
    app.apply_completion(&c); // must not panic
    assert_eq!(app.input, "π"); // unchanged
}

#[test]
fn completion_past_cursor_is_ignored() {
    let mut app = test_app();
    app.input = "ab".to_string();
    app.cursor = 1;
    // token_start beyond the cursor is nonsensical → ignore.
    let c = completions(2, "", &[("x", CandidateKind::Command)]);
    app.apply_completion(&c);
    assert_eq!(app.input, "ab");
}

#[test]
fn single_completion_is_inserted_with_separator() {
    let mut app = test_app();
    app.input = "/sys".to_string();
    app.cursor = app.input.len();
    let c = completions(1, "system", &[("system", CandidateKind::Menu)]);
    app.apply_completion(&c);
    assert_eq!(app.input, "/system/"); // Menu kind appends '/'
    assert_eq!(app.cursor, app.input.len());
}

fn resp_frame(cmd_id: u16, chunk: u16, last: bool, text: &str) -> Frame {
    Frame::Message {
        kind: MsgType::ShellResponse,
        seq: 0,
        body: Body::ShellResponse(ShellResponse {
            cmd_id,
            result: 0,
            chunk,
            last,
            text: text.to_string(),
        }),
    }
}

#[test]
fn handle_frame_ignores_wrong_cmd_id() {
    let mut app = test_app();
    app.pending_cmd = Some(5);
    app.next_chunk = 0;
    // A response for a different command must not populate this one.
    take(&mut app, &resp_frame(9, 0, true, "stale"));
    assert!(app.responses.is_empty());
    assert!(app.resp_buf.is_empty());
}

#[test]
fn handle_frame_reassembles_matching_cmd_id() {
    let mut app = test_app();
    app.pending_cmd = Some(5);
    app.next_chunk = 0;
    take(&mut app, &resp_frame(5, 0, false, "line one\n"));
    take(&mut app, &resp_frame(5, 1, true, "line two"));
    let joined: Vec<String> = app.responses.iter().cloned().collect();
    assert_eq!(joined, vec!["line one".to_string(), "line two".to_string()]);
    assert_eq!(app.pending_cmd, None); // cleared on `last`
}

#[test]
fn handle_frame_flags_chunk_gap() {
    let mut app = test_app();
    app.pending_cmd = Some(2);
    app.next_chunk = 0;
    take(&mut app, &resp_frame(2, 0, false, "a"));
    take(&mut app, &resp_frame(2, 2, true, "c")); // chunk 1 missing → gap
    let joined: String = app.responses.iter().cloned().collect::<Vec<_>>().join("\n");
    assert!(joined.contains("chunk dropped"));
}

#[test]
fn handle_frame_surfaces_bad_version() {
    let mut app = test_app();
    take(&mut app, &bad_version(1));
    assert_eq!(app.decode_failures, 1);
    assert_eq!(app.mismatch_got, Some(1));
    assert!(app.warned_mismatch);
    assert!(
        app.logs
            .iter()
            .any(|(s, c)| *c == Color::Red && s.contains("PROTOCOL MISMATCH")),
        "the first bad-version frame must push a red mismatch line"
    );
    // A second one bumps the count but doesn't spam a second banner.
    take(&mut app, &bad_version(2));
    assert_eq!(app.decode_failures, 2);
    assert_eq!(app.logs.iter().filter(|(s, _)| s.contains("PROTOCOL MISMATCH")).count(), 1);
}

#[test]
fn handle_frame_counts_seq_gaps() {
    let mut app = test_app();
    take(&mut app, &log_at(10));
    take(&mut app, &log_at(11)); // contiguous — no gap
    take(&mut app, &log_at(20)); // jump — one gap
    assert_eq!(app.seq_gaps, 1);
    assert_eq!(app.last_seq, Some(20));
}

#[test]
fn handle_frame_rebaselines_seq_on_hello() {
    let mut app = test_app();
    take(&mut app, &log_at(100));
    take(&mut app, &malformed(MsgType::Hello, 0)); // empty Hello payload
    // The empty-payload Hello counts as a payload error, but the seq re-baseline still ran.
    assert_eq!(app.seq_gaps, 0);
    assert_eq!(app.last_seq, Some(0));
}

#[test]
fn handle_frame_counts_payload_errors() {
    let mut app = test_app();
    take(&mut app, &malformed(MsgType::Log, 0));
    assert_eq!(app.payload_errors, 1);
    assert_eq!(app.decode_failures, 0);
}

#[test]
fn ui_header_shows_decode_diagnostics() {
    let mut app = test_app();
    app.decode_failures = 37;
    app.mismatch_got = Some(2);
    app.seq_gaps = 4;
    let text = render_to_text_sized(&app, 140, 24);
    assert!(text.contains("37 bad frames"));
    assert!(text.contains("(v2?)"));
    assert!(text.contains("4 seq gaps"));
}

#[test]
fn ui_header_shows_reconnect_error() {
    let mut app = test_app(); // disconnected
    app.last_open_error = Some("Device or resource busy".to_string());
    let text = render_to_text_sized(&app, 140, 24);
    assert!(text.contains("reconnecting"));
    assert!(text.contains("Device or resource busy"));
}

#[test]
fn send_command_keeps_input_when_send_fails() {
    // With no connection the send fails; the typed line must survive (for retry), no
    // reassembly is armed, nothing is echoed, cmd_id doesn't advance, and a hint explains.
    let mut app = test_app();
    app.input = "/system radio".to_string();
    app.cursor = app.input.len();
    let req = app.handle_key(Key::Enter, NONE);
    assert_eq!(req, Request::Command { cmd_id: 1, line: "/system radio".to_string() });
    app.sent(req, Sent::LinkLost);
    assert_eq!(app.input, "/system radio");
    assert_eq!(app.pending_cmd, None);
    assert!(app.responses.is_empty());
    assert_eq!(app.cmd_id, 1);
    assert!(!app.hint.is_empty());
}

// ---- more of the console -------------------------------------------------------

#[test]
fn sent_command_is_echoed_and_remembered() {
    let mut app = test_app();
    app.on_open(Ok(()));
    type_line(&mut app, "/help");
    let req = app.handle_key(Key::Enter, NONE);
    app.sent(req, Sent::Done);
    assert_eq!(app.input, "");
    assert_eq!(app.pending_cmd, Some(1));
    assert_eq!(app.cmd_id, 2);
    assert_eq!(app.responses.back().map(|s| s.as_str()), Some("> /help"));
    app.handle_key(Key::Up, NONE);
    assert_eq!(app.input, "/help");
    app.handle_key(Key::Down, NONE);
    assert_eq!(app.input, "");
}

#[test]
fn line_that_is_too_long_stays() {
    let mut app = test_app();
    app.on_open(Ok(()));
    type_line(&mut app, "/x");
    let req = app.handle_key(Key::Enter, NONE);
    app.sent(req, Sent::TooLong);
    assert_eq!(app.input, "/x");
    assert_eq!(app.hint, "line too long (max ~244 bytes)");
    assert!(app.connected);
}

#[test]
fn tab_asks_for_completions_at_the_cursor() {
    let mut app = test_app();
    type_line(&mut app, "/sy");
    app.handle_key(Key::Left, NONE);
    let req = app.handle_key(Key::Tab, NONE);
    assert_eq!(req, Request::Complete { req_id: 1, line: "/sy".to_string(), cursor: 2 });
    app.sent(req, Sent::Done);
    assert_eq!(app.pending_req, Some(1));
}

#[test]
fn several_completions_extend_the_prefix_and_are_listed() {
    let mut app = test_app();
    app.input = "/s".to_string();
    app.cursor = 2;
    app.apply_completion(&completions(
        1,
        "sys",
        &[("system", CandidateKind::Menu), ("sysinfo", CandidateKind::Command)],
    ));
    assert_eq!(app.input, "/sys");
    assert!(app.hint.contains("system") && app.hint.contains("sysinfo"));
}

#[test]
fn reconnecting_is_throttled() {
    let mut app = test_app();
    assert!(!app.reconnect_due(799));
    assert!(app.reconnect_due(800));
    app.on_open(Err("busy".to_string()));
    assert_eq!(app.last_open_error.as_deref(), Some("busy"));
    app.on_open(Ok(()));
    assert!(app.connected && app.last_open_error.is_none());
    assert!(!app.reconnect_due(10_000));
    app.on_link_lost();
    assert!(app.reconnect_due(800));
}

#[test]
fn frames_are_taken_at_the_present_time() {
    let mut app = test_app();
    app.handle_frame_now(&log_at(1));
    let line = &app.logs.back().unwrap().0;
    assert_eq!(&line[2..3], ":");
    assert!(line.ends_with("INFO  t: m"), "{line}");
}

#[test]
fn rows_of_wrapped_lines() {
    assert_eq!(wrapped_rows(0, 10), 1);
    assert_eq!(wrapped_rows(10, 10), 1);
    assert_eq!(wrapped_rows(11, 10), 2);
    assert_eq!(wrapped_rows(5, 0), 1);
}

#[test]
fn wide_characters_take_two_cells() {
    let mut app = test_app();
    push_cap(&mut app.events, "日本語".to_string());
    push_cap(&mut app.logs, ("日本語".to_string(), Color::Reset));
    // Six cells at a width of three: two rows, so a window of one row starts in the middle.
    for p in [Pane::Events, Pane::Logs] {
        let win = app.pane_window(p, 3, 1, 0);
        assert_eq!((win.first, win.top_row), (0, 1));
    }
}

#[test]
fn panes_are_bounded() {
    let mut app = test_app();
    for i in 0..6000 {
        push_cap(&mut app.events, format!("{i}"));
    }
    assert!(app.events.len() < 6000);
    assert_eq!(app.events.back().map(|s| s.as_str()), Some("5999"));
}

#[test]
fn clock_and_cursor_have_their_place() {
    assert_eq!(clock_offset(80, 19), Some(60));
    assert_eq!(clock_offset(20, 19), None);
    let mut app = test_app();
    type_line(&mut app, "abc");
    assert_eq!(app.cursor_column(1, 40), 6);
    assert_eq!(app.cursor_column(1, 4), 4);
    assert_eq!(border_style(true).fg, Some(Color::Cyan));
    assert_eq!(border_style(false).fg, None);
}

#[test]
fn focus_goes_round() {
    let mut app = test_app();
    let start = app.focus;
    for _ in 0..4 {
        app.handle_key(Key::BackTab, Mods { shift: true, ..NONE });
    }
    assert_eq!(app.focus, start);
}

#[test]
fn editing_moves_by_characters() {
    assert_eq!(insert("aπ", 3, 'b'), ("aπb".to_string(), 4));
    assert_eq!(erase("aπb", 3), ("ab".to_string(), 1));
    assert_eq!(left_of("aπ", 3), 1);
    assert_eq!(right_of("aπ", 1), 3);
    assert_eq!(end_of("aπ"), 3);
    assert_eq!(prev_char("aπ", 3), 2);
    assert_eq!(next_char("aπ", 1), 2);
    assert_eq!(kill_to_start("abπ", 2), ("π".to_string(), 0));
    assert_eq!(kill_word("ab  cd", 6), ("ab  ".to_string(), 4));
    assert_eq!(replace("/sys x", 4, 1, "system/"), ("/system/ x".to_string(), 8));
    assert_eq!((char_width('a'), char_width('π'), char_width('→'), char_width('😀')), (1, 2, 3, 4));
}

#[test]
fn diagnostics_start_with_the_cross() {
    let mut app = test_app();
    assert_eq!(app.header_diagnostics(), None);
    app.decode_failures = 37;
    app.mismatch_got = Some(2);
    app.seq_gaps = 4;
    app.payload_errors = 2;
    let text = "✖ 37 bad frames (v2?) · 4 seq gaps · 2 payload errs";
    assert_eq!(app.header_diagnostics().as_deref(), Some(text));
    assert!(row(&app.header_spans("1.2.3")).ends_with(&format!("  {text}")));
    app.decode_failures = 1;
    app.mismatch_got = None;
    app.seq_gaps = 0;
    app.payload_errors = 1;
    assert_eq!(app.header_diagnostics().as_deref(), Some("✖ 1 bad frame · 1 payload err"));
}

#[test]
fn console_is_divided_in_two_columns() {
    assert_eq!(console_columns(), vec![Part::Percentage(50), Part::Percentage(50)]);
    assert_eq!(console_rows(), vec![Part::Percentage(25), Part::Length(3), Part::Min(0)]);
    let r = |x: u16| Rect { x, y: 0, width: 1, height: 1 };
    let a = areas_of(&vec![r(0), r(1)], &vec![r(2), r(3), r(4)]);
    assert_eq!((a.events, a.command, a.responses, a.logs), (r(2), r(3), r(4), r(1)));
    let a = render_split(Rect { x: 0, y: 1, width: 80, height: 20 });
    assert_eq!(a.events, Rect { x: 0, y: 1, width: 40, height: 5 });
    assert_eq!(a.command, Rect { x: 0, y: 6, width: 40, height: 3 });
    assert_eq!(a.responses, Rect { x: 0, y: 9, width: 40, height: 12 });
    assert_eq!(a.logs, Rect { x: 40, y: 1, width: 40, height: 20 });
}

/// The first version tag that a frame was refused for stands; before it, that of a `Hello`.
#[test]
fn first_refused_tag_is_kept() {
    let mut app = test_app();
    take(&mut app, &bad_version(2));
    take(&mut app, &bad_version(1));
    assert_eq!(app.mismatch_got, Some(2));
    assert_eq!(app.decode_failures, 2);
    take(&mut app, &hello(1));
    assert_eq!(app.mismatch_got, Some(2));
    let mut app = test_app();
    take(&mut app, &hello(5));
    assert_eq!(app.mismatch_got, Some(5));
    take(&mut app, &bad_version(2));
    take(&mut app, &bad_version(1));
    assert_eq!(app.mismatch_got, Some(2));
}

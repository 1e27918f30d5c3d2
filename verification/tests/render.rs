//! Rendering frames to standard output.

use tower_cli::clock::{line_at, line_now, now, now_date, now_seconds};
use tower_cli::frame::{Body, EventMsg, Frame, Hello, Level, Log, MsgType};
use tower_cli::render::{
    event_fields, hexline, json_str, log_line, output_mode, paint, render, render_now,
    resolve_color, uptime_prefix, warn_protocol_mismatch, ColorMode, Emit, OutputMode, RenderState,
    Stream,
};
use tower_cli::wire::Wire;

fn wire() -> Wire {
    Wire {
        protocol_version: 3,
        radio_schema_version: 1,
        radio_shell_chunk: 48,
        max_node_name: 16,
        max_frame: 256,
        role_gateway: 0,
        role_node: 1,
        role_other: 2,
        flag_sleeping: 1,
        flag_unnamed: 2,
        last_seen_never: u32::MAX,
        rssi_none: i8::MAX,
        mgmt_ok: 0,
        mgmt_unsupported: 1,
        mgmt_bad_arg: 2,
        mgmt_not_found: 3,
        mgmt_full: 4,
        mgmt_busy: 5,
        mgmt_storage: 6,
        mgmt_timeout: 7,
        tx_delivered: 0,
        tx_not_delivered: 1,
        tx_busy: 2,
        tx_duty_limited: 3,
        tx_expired: 4,
    }
}

const TEXT: OutputMode = OutputMode::Text { colors: false };

fn hello_frame(protocol_version: u8) -> Frame {
    Frame::Message {
        kind: MsgType::Hello,
        seq: 0,
        body: Body::Hello(Hello {
            protocol_version,
            firmware_name: "fw".to_string(),
            firmware_version: "test".to_string(),
            session_id: 1,
        }),
    }
}

fn log_frame(seq: u16, msg: &str) -> Frame {
    Frame::Message {
        kind: MsgType::Log,
        seq,
        body: Body::Log(Log {
            level: Level::Info,
            uptime_us: 0,
            module: "t".to_string(),
            message: msg.to_string(),
        }),
    }
}

/// What the codec makes of a frame whose checksum is wrong.
fn corrupt_frame() -> Frame {
    Frame::Refused { error: "Crc".to_string(), bad_version: None }
}

fn feed_render_mode(st: &mut RenderState, mode: OutputMode, frame: &Frame) -> Vec<Emit> {
    render(&wire(), frame, mode, Stream::Logs, st, "12:00:00.000")
}

fn feed_render(st: &mut RenderState, frame: &Frame) -> Vec<Emit> {
    feed_render_mode(st, TEXT, frame)
}

#[test]
fn render_rebaselines_seq_on_hello() {
    let mut st = RenderState::new();
    feed_render(&mut st, &log_frame(100, "a"));
    assert_eq!(st.last_seq, Some(100));
    feed_render(&mut st, &hello_frame(wire().protocol_version));
    // Hello re-baselined: last_seq is the Hello's own seq (0), no spurious gap.
    assert_eq!(st.last_seq, Some(0));
    assert_eq!(st.decode_failures, 0);
}

#[test]
fn render_counts_decode_failures() {
    let mut st = RenderState::new();
    feed_render(&mut st, &corrupt_frame());
    assert_eq!(st.decode_failures, 1);
}

#[test]
fn json_mode_emits_and_counts_decode_error() {
    let mut st = RenderState::new();
    let out = feed_render_mode(&mut st, OutputMode::Json, &corrupt_frame());
    assert_eq!(st.decode_failures, 1);
    match &out[0] {
        Emit::Line(l) => {
            let v: serde_json::Value = serde_json::from_str(l).unwrap();
            assert_eq!(v["type"], "decode_error");
        }
        other => panic!("expected a record, got {other:?}"),
    }
}

#[test]
fn json_mode_detects_seq_gap() {
    let mut st = RenderState::new();
    feed_render_mode(&mut st, OutputMode::Json, &log_frame(1, "a"));
    let out = feed_render_mode(&mut st, OutputMode::Json, &log_frame(5, "b")); // gap 2..=4
    assert_eq!(st.last_seq, Some(5));
    assert_eq!(st.decode_failures, 0);
    match &out[0] {
        Emit::Line(l) => assert!(l.contains("seq_gap"), "{l}"),
        other => panic!("expected a record, got {other:?}"),
    }
}

#[test]
fn color_mode_never_and_always() {
    assert!(!ColorMode::Never.enabled(true));
    assert!(ColorMode::Always.enabled(false));
}

#[test]
fn resolve_color_no_colors_forces_off() {
    // The deprecated --no-colors flag always wins, even over --color always.
    assert!(!resolve_color(ColorMode::Always, true, true));
    assert!(resolve_color(ColorMode::Always, false, true));
}

#[test]
fn json_escapes_control_and_quotes() {
    assert_eq!(json_str("a\"b\\c\n"), r#""a\"b\\c\n""#);
}

#[test]
fn log_line_layout_is_stable() {
    let l = Log {
        level: Level::Info,
        uptime_us: 1_234_567,
        module: "radio".to_string(),
        message: "up".to_string(),
    };
    assert_eq!(log_line(&l), "[    1.234] INFO  radio: up");
}

#[test]
fn hexline_is_contiguous_lowercase() {
    assert_eq!(hexline(&[0x00, 0xAB, 0x0f]), "00ab0f");
}

#[test]
fn automatic_colour_follows_the_terminal() {
    assert!(resolve_color(ColorMode::Auto, false, true));
    assert!(!resolve_color(ColorMode::Auto, false, false));
    assert_eq!(output_mode(ColorMode::Always, false, true, true), OutputMode::Json);
    assert_eq!(
        output_mode(ColorMode::Auto, false, false, true),
        OutputMode::Text { colors: true }
    );
}

#[test]
fn json_strings_escape_every_control_character() {
    for c in 0u8..0x20 {
        let s = String::from_utf8(vec![b'a', c, b'b']).unwrap();
        let quoted = json_str(&s);
        assert!(quoted.chars().all(|c| c >= ' '));
        let back: String = serde_json::from_str(&quoted).unwrap();
        assert_eq!(back, s);
    }
}

#[test]
fn seq_gap_is_reported_in_text() {
    let mut st = RenderState::new();
    feed_render(&mut st, &log_frame(1, "a"));
    assert_eq!(feed_render(&mut st, &log_frame(2, "b")).len(), 1);
    let out = feed_render(&mut st, &log_frame(4, "c"));
    assert_eq!(out.len(), 2);
    assert!(matches!(&out[0], Emit::Note(_)));
    // The numbers wrap.
    let mut st = RenderState::new();
    feed_render(&mut st, &log_frame(u16::MAX, "a"));
    assert_eq!(feed_render(&mut st, &log_frame(0, "b")).len(), 1);
}

#[test]
fn log_lines_carry_the_time_of_day() {
    let mut st = RenderState::new();
    let out = feed_render(&mut st, &log_frame(0, "hello"));
    assert_eq!(
        out,
        vec![Emit::Line("12:00:00.000 [    0.000] INFO  t: hello".to_string())]
    );
    let out = render(
        &wire(),
        &log_frame(1, "hello"),
        OutputMode::Text { colors: true },
        Stream::Logs,
        &mut st,
        "t",
    );
    assert!(matches!(&out[0], Emit::Line(l) if l.contains("\x1b[32mINFO \x1b[0m")), "{out:?}");
}

#[test]
fn mismatch_banner_comes_once() {
    let mut st = RenderState::new();
    let first = feed_render(&mut st, &hello_frame(2));
    assert!(st.warned_mismatch);
    let second = feed_render(&mut st, &hello_frame(2));
    assert!(first.len() > second.len(), "{first:?} {second:?}");
    assert!(warn_protocol_mismatch(&wire(), 2).len() >= 1);
}

#[test]
fn events_are_rendered_in_their_own_stream() {
    let e = Frame::Message {
        kind: MsgType::Event,
        seq: 0,
        body: Body::Event(EventMsg {
            name: "button".to_string(),
            fields: vec![("kind".to_string(), "click".to_string()), ("n".to_string(), "2".to_string())],
        }),
    };
    let mut st = RenderState::new();
    assert!(render(&wire(), &e, TEXT, Stream::Logs, &mut st, "t").is_empty());
    let mut st = RenderState::new();
    let out = render(&wire(), &e, TEXT, Stream::Events, &mut st, "t");
    assert!(matches!(&out[0], Emit::Line(l) if l.contains("button") && l.contains("kind=click n=2")));
    let mut st = RenderState::new();
    let out = render(&wire(), &e, OutputMode::Json, Stream::Events, &mut st, "t");
    match &out[0] {
        Emit::Line(l) => {
            let v: serde_json::Value = serde_json::from_str(l).unwrap();
            assert_eq!(v["fields"]["kind"], "click");
        }
        other => panic!("expected a record, got {other:?}"),
    }
}

#[test]
fn fields_and_paint() {
    let e = EventMsg {
        name: "x".to_string(),
        fields: vec![("a".to_string(), "1".to_string()), ("b".to_string(), "2".to_string())],
    };
    assert_eq!(event_fields(&e).trim(), "a=1 b=2");
    assert_eq!(paint("s", 31, true), "\x1b[31ms\x1b[0m");
    assert_eq!(paint("s", 31, false), "s");
    assert_eq!(uptime_prefix(99_999_999_000), "[99999.999]");
    assert_eq!(uptime_prefix(123_456_000_000), "[123456.000]");
}

fn is_clock(s: &str) -> bool {
    let b = s.as_bytes();
    b.len() == 8
        && b[2] == b':'
        && b[5] == b':'
        && [0, 1, 3, 4, 6, 7].iter().all(|i| b[*i].is_ascii_digit())
}

#[test]
fn the_time_of_day_has_its_shape() {
    assert!(is_clock(&now_seconds()));
    let ms = now();
    assert_eq!(ms.len(), 12);
    assert!(is_clock(&ms[..8]));
    assert_eq!(&ms[8..9], ".");
    let date = now_date();
    assert!(date.len() >= 19);
    assert!(is_clock(&date[date.len() - 8..]));
    assert_eq!(line_at("01:02:03", "up"), "[tower] 01:02:03 up");
    let l = line_now("up");
    assert!(l.starts_with("[tower] ") && l.ends_with(" up") && is_clock(&l[8..16]));
}

#[test]
fn frames_are_rendered_at_the_present_time() {
    let mut st = RenderState::new();
    let out = render_now(&wire(), &log_frame(0, "x"), TEXT, Stream::Logs, &mut st);
    match &out[0] {
        Emit::Line(l) => {
            assert!(is_clock(&l[..8]), "{l}");
            assert!(l.ends_with(" [    0.000] INFO  t: x"));
        }
        other => panic!("expected a line, got {other:?}"),
    }
}

//! Waiting for answers of a device, and what the commands make of them.

use tower_cli::commands::{
    check_size, clamp_result, complete, complete_cmd, exec_cmd, exec_cmd_id, exec_gate,
    monitor_bytes, monitor_frame, monitor_refused, shell_gate, shell_input, shell_reply, too_long,
    Attach, BarStep, BootTicker, Closing, FlashProgress, Progress, ShellInput, StreamPlan, Tick,
    EXIT_DEVICE_TIMEOUT, EXIT_ERROR, EXIT_OK, EXIT_PROTOCOL_MISMATCH,
};
use tower_cli::frame::{
    Body, Candidate, CandidateKind, Frame, Hello, Level, Log, MsgType, ShellCompletions,
    ShellResponse,
};
use tower_cli::port::{open_console, pick_port, usb_ports, LineStep, ListedPort};
use tower_cli::render::Emit;
use tower_cli::session::{
    await_ready, mismatch, read_response, request_completions, wait_for_hello, CompletionOutcome,
    ReadOutcome, Readiness, Response,
};
use tower_cli::wire::Wire;

fn wire() -> Wire {
    Wire {
        protocol_version: 3,
        radio_schema_version: 1,
        radio_shell_chunk: 48,
        max_node_name: 16,
        max_frame: 256,
        role_gateway: 0,
        role_node: 1,
        role_other: 2,
        flag_sleeping: 1,
        flag_unnamed: 2,
        last_seen_never: u32::MAX,
        rssi_none: i8::MAX,
        mgmt_ok: 0,
        mgmt_unsupported: 1,
        mgmt_bad_arg: 2,
        mgmt_not_found: 3,
        mgmt_full: 4,
        mgmt_busy: 5,
        mgmt_storage: 6,
        mgmt_timeout: 7,
        tx_delivered: 0,
        tx_not_delivered: 1,
        tx_busy: 2,
        tx_duty_limited: 3,
        tx_expired: 4,
    }
}

fn message(kind: MsgType, seq: u16, body: Body) -> Frame {
    Frame::Message { kind, seq, body }
}

fn shell_resp(cmd_id: u16, result: u8, chunk: u16, last: bool, text: &str) -> Frame {
    message(
        MsgType::ShellResponse,
        0,
        Body::ShellResponse(ShellResponse { cmd_id, result, chunk, last, text: text.to_string() }),
    )
}

fn hello(protocol_version: u8) -> Frame {
    message(
        MsgType::Hello,
        0,
        Body::Hello(Hello {
            protocol_version,
            firmware_name: "app".to_string(),
            firmware_version: "test".to_string(),
            session_id: 1,
        }),
    )
}

/// What the codec makes of a frame with another version tag.
fn bad_version(ver: u8) -> Frame {
    Frame::Refused { error: "BadVersion".to_string(), bad_version: Some(ver) }
}

fn log_frame(seq: u16, msg: &str) -> Frame {
    message(
        MsgType::Log,
        seq,
        Body::Log(Log {
            level: Level::Info,
            uptime_us: 0,
            module: "t".to_string(),
            message: msg.to_string(),
        }),
    )
}

fn read(cmd_id: u16, frames: Vec<Frame>) -> ReadOutcome {
    let mut notes = Vec::new();
    read_response(cmd_id, &frames, &mut notes)
}

#[test]
fn read_response_reassembles_chunks() {
    let r = read(
        7,
        vec![
            shell_resp(7, 0, 0, false, "hello "),
            shell_resp(7, 0, 1, false, "wor"),
            shell_resp(7, 0, 2, true, "ld\n"),
        ],
    )
    .unwrap();
    assert_eq!(r.text, "hello world\n");
    assert_eq!(r.result, 0);
    assert!(!r.incomplete);
}

#[test]
fn read_response_ignores_interleaved_logs() {
    // A Log frame lands between response chunks; it must not corrupt reassembly.
    let r = read(
        3,
        vec![shell_resp(3, 0, 0, false, "x"), log_frame(9, "noise"), shell_resp(3, 0, 1, true, "y")],
    )
    .unwrap();
    assert_eq!(r.text, "xy");
}

#[test]
fn read_response_ignores_wrong_cmd_id() {
    // A complete response for cmd_id 99 must not satisfy a wait for cmd_id 1.
    let r = read(1, vec![shell_resp(99, 0, 0, true, "stale"), shell_resp(1, 0, 0, true, "mine")])
        .unwrap();
    assert_eq!(r.text, "mine");
}

#[test]
fn read_response_flags_dropped_chunk() {
    // Chunk 1 is missing (as if CRC-dropped): 0 then 2 → incomplete.
    let mut notes = Vec::new();
    let frames = vec![shell_resp(5, 0, 0, false, "a"), shell_resp(5, 0, 2, true, "c")];
    let r = read_response(5, &frames, &mut notes).unwrap();
    assert!(r.incomplete, "a chunk-index gap must mark the response incomplete");
    assert_eq!(r.text, "ac"); // what did arrive is still returned
    assert_eq!(notes.len(), 1);
}

#[test]
fn read_response_times_out_when_silent() {
    assert!(read(1, vec![]).is_none());
}

#[test]
fn read_response_drops_corrupt_crc_frame() {
    // The codec refuses the frame, and the waiter times out rather than returning garbage.
    let corrupt = Frame::Refused { error: "Crc".to_string(), bad_version: None };
    assert!(read(1, vec![corrupt]).is_none());
}

#[test]
fn read_response_timeout_carries_the_mismatched_version() {
    match read(1, vec![bad_version(1)]) {
        ReadOutcome::Timeout { bad_version } => assert_eq!(bad_version, Some(1)),
        _ => panic!("a version-rejected frame must not decode"),
    }
}

#[test]
fn request_completions_timeout_carries_the_mismatched_version() {
    match request_completions(1, &vec![bad_version(1)]) {
        CompletionOutcome::Timeout { bad_version } => assert_eq!(bad_version, Some(1)),
        CompletionOutcome::Completions(_) => panic!("a version-rejected frame must not decode"),
    }
}

#[test]
fn wait_for_hello_returns_protocol_version() {
    let v = wire().protocol_version;
    assert_eq!(wait_for_hello(&vec![hello(v)]), Readiness::Hello(v));
}

#[test]
fn wait_for_hello_reports_mismatched_version() {
    // A device still speaking the previous protocol (v1) is the realistic mismatch.
    assert_ne!(1, wire().protocol_version);
    assert_eq!(wait_for_hello(&vec![bad_version(1)]), Readiness::BadVersion(1));
}

#[test]
fn await_ready_reports_bad_version() {
    let r = wait_for_hello(&vec![bad_version(1)]);
    let (_, note) = await_ready(r, None);
    assert_eq!(r, Readiness::BadVersion(1));
    assert!(note.is_none());
    assert_eq!(mismatch(&wire(), r), Some(1));
}

#[test]
fn wait_for_hello_times_out_without_hello() {
    assert_eq!(wait_for_hello(&vec![log_frame(0, "not a hello")]), Readiness::Timeout);
}

#[test]
fn exec_cmd_id_is_nonzero_and_15_bit() {
    for pid in [4242, 0, 1, 0x8000, 0x7fff, u32::MAX] {
        let id = exec_cmd_id(pid);
        assert_ne!(id, 0, "cmd_id 0 is a reserved sentinel");
        assert!(id <= 0x7FFF, "cmd_id must fit the low 15 bits");
        assert_eq!(id, exec_cmd_id(pid));
    }
}

fn completions_frame(req_id: u16, token_start: u16, prefix: &str, cands: Vec<Candidate>) -> Frame {
    message(
        MsgType::ShellCompletions,
        0,
        Body::ShellCompletions(ShellCompletions {
            req_id,
            token_start,
            common_prefix: prefix.to_string(),
            candidates: cands,
            more: false,
        }),
    )
}

fn system() -> Candidate {
    Candidate { text: "system".to_string(), kind: CandidateKind::Menu }
}

#[test]
fn request_completions_matches_req_id() {
    let r = request_completions(42, &vec![completions_frame(42, 1, "sys", vec![system()])]).unwrap();
    assert_eq!(r.token_start, 1);
    assert_eq!(r.common_prefix, "sys");
    assert_eq!(r.candidates.len(), 1);
}

#[test]
fn request_completions_ignores_wrong_req_id() {
    // We asked for req_id 2, device answered 1 → no match, times out.
    assert!(request_completions(2, &vec![completions_frame(1, 0, "", vec![])]).is_none());
}

// ---- the commands --------------------------------------------------------------

fn note(s: &str) -> Emit {
    Emit::Note(s.to_string())
}

fn response(result: u8, text: &str, incomplete: bool) -> ReadOutcome {
    ReadOutcome::Response(Response { result, text: text.to_string(), incomplete })
}

#[test]
fn exec_ends_with_the_result_of_the_device() {
    let v = exec_cmd(&wire(), response(0, "ok\n", false));
    assert_eq!((v.code, v.out), (EXIT_OK, vec![Emit::Text("ok\n".to_string())]));
    let v = exec_cmd(&wire(), response(3, "bad", false));
    assert_eq!(v.code, 3);
    assert_eq!(
        v.out,
        vec![Emit::Text("bad".to_string()), Emit::Line(String::new()), note("[result 3]")]
    );
    assert_eq!(exec_cmd(&wire(), response(200, "", false)).code, 123);
    let v = exec_cmd(&wire(), response(0, "", true));
    assert_eq!((v.code, v.out.last().unwrap()), (EXIT_ERROR, &note("[tower] response incomplete")));
    let v = exec_cmd(&wire(), ReadOutcome::Timeout { bad_version: None });
    assert_eq!((v.code, v.out), (EXIT_DEVICE_TIMEOUT, vec![note("[tower] no response (timeout)")]));
    let v = exec_cmd(&wire(), ReadOutcome::Timeout { bad_version: Some(1) });
    assert_eq!(v.code, EXIT_PROTOCOL_MISMATCH);
    assert_eq!(
        v.out.last().unwrap(),
        &note("[tower] no response — device speaks protocol v1, tower speaks v3 (lockstep mismatch)")
    );
}

/// An answer that begins and never ends is an error, not silence.
#[test]
fn cut_off_answer_is_no_timeout() {
    let cut = || read(7, vec![shell_resp(7, 0, 0, false, "hel"), log_frame(9, "noise")]);
    assert!(!cut().is_none());
    assert_eq!(cut(), ReadOutcome::Cut { text: "hel".to_string(), bad_version: None });
    let v = exec_cmd(&wire(), cut());
    assert_eq!(v.code, EXIT_ERROR);
    let shown = vec![
        Emit::Text("hel".to_string()),
        Emit::Line(String::new()),
        note("[tower] response incomplete"),
    ];
    assert_eq!(v.out, shown);
    let mut warned = false;
    assert_eq!(shell_reply(&wire(), cut(), &mut warned), shown);
    assert!(!warned);
    let mixed = || read(7, vec![shell_resp(7, 0, 0, false, "hel"), bad_version(1)]);
    assert_eq!(exec_cmd(&wire(), mixed()).code, EXIT_PROTOCOL_MISMATCH);
    shell_reply(&wire(), mixed(), &mut warned);
    assert!(warned);
    assert!(read(7, vec![shell_resp(8, 0, 0, false, "hel")]).is_none());
}

#[test]
fn results_never_read_as_reserved_codes() {
    for r in 0..=255u8 {
        let c = clamp_result(r);
        assert!(c <= 123);
        assert_eq!(c == 0, r == 0);
    }
}

#[test]
fn mismatched_device_is_refused() {
    let v = exec_gate(&wire(), Readiness::Hello(2)).unwrap();
    assert_eq!(v.code, EXIT_PROTOCOL_MISMATCH);
    assert!(matches!(v.out.last(), Some(Emit::Note(n)) if n.contains("refusing to exec")));
    let v = shell_gate(&wire(), Readiness::BadVersion(2)).unwrap();
    assert!(matches!(v.out.last(), Some(Emit::Note(n)) if n.contains("refusing to open the shell")));
    assert!(exec_gate(&wire(), Readiness::Hello(3)).is_none());
    assert!(shell_gate(&wire(), Readiness::Timeout).is_none());
}

#[test]
fn shell_lines_are_understood() {
    assert_eq!(shell_input("   "), ShellInput::Skip);
    assert_eq!(shell_input(" exit\n"), ShellInput::Quit);
    assert_eq!(shell_input("quit"), ShellInput::Quit);
    assert_eq!(shell_input(" /led on "), ShellInput::Run("/led on".to_string()));
    assert_eq!(too_long(&wire()), note("[tower] line too long (max ~244 bytes) — not sent"));
}

#[test]
fn shell_shows_the_banner_once() {
    let mut warned = false;
    let bad = || ReadOutcome::Timeout { bad_version: Some(1) };
    let first = shell_reply(&wire(), bad(), &mut warned);
    assert!(warned);
    let second = shell_reply(&wire(), bad(), &mut warned);
    assert!(first.len() > second.len());
    assert_eq!(second.len(), 1);
    let out = shell_reply(&wire(), response(2, "x\n", false), &mut warned);
    assert_eq!(out, vec![Emit::Text("x\n".to_string()), note("[result 2]")]);
}

#[test]
fn completions_are_offered_and_listed() {
    let got = || request_completions(1, &vec![completions_frame(1, 1, "s\"y", vec![system()])]);
    let (start, offers) = complete(4, got());
    assert_eq!(start, 1);
    assert_eq!((offers[0].display.as_str(), offers[0].replacement.as_str()), ("system", "system/"));
    let v = complete_cmd(&wire(), got());
    assert_eq!(
        v.out,
        vec![
            Emit::Line("token_start=1 common_prefix=\"s\\\"y\"".to_string()),
            Emit::Line("  Menu  system".to_string()),
        ]
    );
    let (start, offers) = complete(4, CompletionOutcome::Timeout { bad_version: None });
    assert_eq!((start, offers.len()), (4, 0));
    let v = complete_cmd(&wire(), CompletionOutcome::Timeout { bad_version: None });
    assert_eq!(
        (v.code, v.out),
        (EXIT_DEVICE_TIMEOUT, vec![note("[tower] no completions (timeout)")])
    );
    let v = complete_cmd(&wire(), CompletionOutcome::Timeout { bad_version: Some(2) });
    assert_eq!(v.code, EXIT_PROTOCOL_MISMATCH);
}

#[test]
fn monitor_lines() {
    assert_eq!(
        monitor_frame(7, "Log", &[0xab, 0x01]),
        "frame seq=7     type=Log payload=2B  ab01"
    );
    assert_eq!(monitor_refused("Crc", &[0xff]), "bad frame (Crc): ff");
    assert_eq!(monitor_bytes(&[0x0a, 0xff]), "0a ff ");
    assert_eq!(monitor_bytes(&[]), "");
}

#[test]
fn stream_sends_once() {
    let mut p = StreamPlan::new(Some("/x".to_string()), true, true);
    assert_eq!(p.on_open(), Attach::WaitSendRead);
    assert!(p.on_lost());
    assert_eq!(p.on_open(), Attach::Read);
    let p = StreamPlan::new(Some("/x".to_string()), false, false);
    assert_eq!(p.on_open(), Attach::SendRead);
    let mut p = StreamPlan::new(None, true, false);
    assert_eq!(p.on_open(), Attach::Read);
    assert!(!p.on_lost());
}

#[test]
fn only_the_first_open_is_fatal_and_resets() {
    for reconnect in [false, true] {
        let p = StreamPlan::new(None, true, reconnect);
        assert!(p.resets());
        assert!(p.on_open_failed());
    }
    assert!(!StreamPlan::new(None, false, true).resets());
    let mut p = StreamPlan::new(Some("/x".to_string()), true, true);
    assert!(p.on_lost());
    assert!(!p.resets());
    assert!(!p.on_open_failed());
    assert!(p.on_lost());
    assert!(!p.resets());
}

#[test]
fn ticker_is_throttled() {
    let mut t = BootTicker::new(true);
    assert_eq!(t.tick(599), Tick::Nothing);
    assert_eq!(t.tick(600), Tick::Redraw);
    assert_eq!(t.tick(700), Tick::Nothing);
    assert_eq!(t.tick(800), Tick::Redraw);
    assert_eq!(t.finish(Readiness::Hello(3)), Closing::Booted);
    assert_eq!(t.finish(Readiness::Timeout), Closing::Clear);
    let mut t = BootTicker::new(false);
    assert_eq!(t.finish(Readiness::Hello(3)), Closing::Nothing);
    assert_eq!(t.tick(600), Tick::Once);
    assert_eq!(t.tick(900), Tick::Nothing);
    assert_eq!(t.finish(Readiness::Hello(3)), Closing::Nothing);
}

#[test]
fn firmware_size_and_progress() {
    assert_eq!(check_size(1024, 1024), None);
    assert_eq!(
        check_size(200_000, 196_608).unwrap(),
        "firmware is 200000 bytes, exceeding the 192 KiB maximum for any STM32L0 device"
    );
    let mut p = FlashProgress { shown: false };
    assert_eq!(p.on(Progress::ChipIdentified { id: 0x447 }), vec![BarStep::Chip(0x447)]);
    assert_eq!(
        p.on(Progress::Erase { done: 1, total: 2 }),
        vec![
            BarStep::OpenPages { total: 2, label: "erasing" },
            BarStep::Length(2),
            BarStep::Position(1)
        ]
    );
    assert_eq!(
        p.on(Progress::Erase { done: 2, total: 2 }),
        vec![BarStep::Length(2), BarStep::Position(2), BarStep::Finish("erased")]
    );
    assert_eq!(
        p.on(Progress::Write { done: 5, total: 9 }),
        vec![BarStep::OpenBytes { total: 9, label: "writing" }, BarStep::Position(5)]
    );
    assert_eq!(p.on(Progress::Starting), vec![BarStep::Clear]);
    assert_eq!(p.on(Progress::Other), vec![]);
    assert_eq!(
        p.on(Progress::Verify { done: 3, total: 3 }),
        vec![
            BarStep::OpenBytes { total: 3, label: "verifying" },
            BarStep::Position(3),
            BarStep::Finish("verified")
        ]
    );
}

// ---- ports ---------------------------------------------------------------------

#[test]
fn the_only_port_is_picked() {
    let listed = vec![
        ListedPort { name: "/dev/ttyS0".to_string(), usb: false },
        ListedPort { name: "/dev/ttyUSB0".to_string(), usb: true },
    ];
    let usb = usb_ports(&listed);
    assert_eq!(usb, vec!["/dev/ttyUSB0".to_string()]);
    assert_eq!(pick_port(None, &usb), Ok("/dev/ttyUSB0".to_string()));
    assert_eq!(pick_port(Some("/dev/x".to_string()), &usb), Ok("/dev/x".to_string()));
    assert!(pick_port(None, &vec![]).is_err());
    let two = vec!["a".to_string(), "b".to_string()];
    let e = pick_port(None, &two).unwrap_err();
    assert!(e.contains('a') && e.contains('b'), "{e}");
}

#[test]
fn attaching_without_reset_pulses_nothing() {
    let quiet = open_console(false);
    let reset = open_console(true);
    assert!(reset.len() > quiet.len());
    assert!(quiet.iter().all(|s| *s != LineStep::ResetPulse), "{quiet:?}");
}

//! Attaching to a gateway, and what stands between its links and the engine.

use tower_cli::bridge::{
    last_will, service_line, service_output, to_serial_msg, BrokerEvent, BrokerLink, SerialEvent,
    SerialLink,
};
use tower_cli::commands::{EXIT_DEVICE_TIMEOUT, EXIT_PROTOCOL_MISMATCH, EXIT_WRONG_FIRMWARE};
use tower_cli::engine_state::{Event, Input, NodeView, RadioSample, SerialMsg};
use tower_cli::frame::{
    Body, Frame, Hello, Level, Log, MgmtResponse, MsgType, NodeMsg, RadioStat, ShellResponse, Uplink,
};
use tower_cli::gate::{attached_note, client_id, gate_describe, GateDecision, Probe};
use tower_cli::mgmt::{describe, mgmt_roundtrip, DescribeOutcome, DeviceInfo};
use tower_cli::payload::{Pairing, RpcData, RpcResponse, ShellRsp};
use tower_cli::render::Emit;
use tower_cli::wire::{DeviceRole, Wire};

fn wire() -> Wire {
    Wire {
        protocol_version: 3,
        radio_schema_version: 1,
        radio_shell_chunk: 48,
        max_node_name: 16,
        max_frame: 256,
        role_gateway: 0,
        role_node: 1,
        role_other: 2,
        flag_sleeping: 1,
        flag_unnamed: 2,
        last_seen_never: u32::MAX,
        rssi_none: i8::MAX,
        mgmt_ok: 0,
        mgmt_unsupported: 1,
        mgmt_bad_arg: 2,
        mgmt_not_found: 3,
        mgmt_full: 4,
        mgmt_busy: 5,
        mgmt_storage: 6,
        mgmt_timeout: 7,
        tx_delivered: 0,
        tx_not_delivered: 1,
        tx_busy: 2,
        tx_duty_limited: 3,
        tx_expired: 4,
    }
}

fn message(kind: MsgType, body: Body) -> Frame {
    Frame::Message { kind, seq: 0, body }
}

fn hello_frame() -> Frame {
    message(
        MsgType::Hello,
        Body::Hello(Hello {
            protocol_version: wire().protocol_version,
            firmware_name: "radio_push_button".to_string(),
            firmware_version: "v0.1.0".to_string(),
            session_id: 1,
        }),
    )
}

/// A device description for a role.
fn device_info(role: u32) -> Vec<u8> {
    postcard::to_stdvec(&(
        role,
        1u8,
        0xAB12u32,
        0u8,
        0u8,
        32u8,
        0u8,
        true,
        0xAB12u32,
        "radio_push_button",
    ))
    .unwrap()
}

/// The probe of a device that announces itself and then answers.
fn gate_scripted(result: u8, data: &[u8]) -> GateDecision {
    let frames = vec![
        hello_frame(),
        message(
            MsgType::MgmtResponse,
            Body::MgmtResponse(MgmtResponse {
                req_id: 0x7000,
                result,
                chunk: 0,
                last: true,
                data: data.to_vec(),
            }),
        ),
    ];
    let outcome = describe(&wire(), mgmt_roundtrip(0x7000, &frames));
    gate_describe(&wire(), "/dev/ttyTEST", outcome).0
}

#[test]
fn wrong_role_node_yields_exit_126() {
    assert_eq!(EXIT_WRONG_FIRMWARE, 126);
    match gate_scripted(wire().mgmt_ok, &device_info(wire().role_node)) {
        GateDecision::Reject(code) => assert_eq!(code, EXIT_WRONG_FIRMWARE),
        _ => panic!("a node-role device must be refused"),
    }
}

#[test]
fn role_other_yields_exit_126() {
    match gate_scripted(wire().mgmt_ok, &device_info(2)) {
        GateDecision::Reject(code) => assert_eq!(code, EXIT_WRONG_FIRMWARE),
        _ => panic!("a non-gateway role must be refused"),
    }
}

#[test]
fn refused_probe_yields_exit_126() {
    match gate_scripted(wire().mgmt_unsupported, &[]) {
        GateDecision::Reject(code) => assert_eq!(code, EXIT_WRONG_FIRMWARE),
        _ => panic!("a refused role probe must be rejected"),
    }
}

#[test]
fn gateway_role_is_accepted() {
    match gate_scripted(wire().mgmt_ok, &device_info(wire().role_gateway)) {
        GateDecision::Accept(info) => {
            assert_eq!(info.role, DeviceRole::Gateway);
            assert_eq!(info.net_id, 0xAB12);
        }
        _ => panic!("a gateway must be accepted"),
    }
}

#[test]
fn version_mismatch_yields_exit_125_and_mute_retries() {
    assert_eq!(EXIT_PROTOCOL_MISMATCH, 125);
    match gate_describe(&wire(), "/dev/ttyTEST", DescribeOutcome::Timeout { bad_version: Some(1) }).0
    {
        GateDecision::Reject(code) => assert_eq!(code, EXIT_PROTOCOL_MISMATCH),
        _ => panic!("a version mismatch must be refused as 125"),
    }
    assert!(matches!(
        gate_describe(&wire(), "/dev/ttyTEST", DescribeOutcome::Timeout { bad_version: None }).0,
        GateDecision::Retry
    ));
}

#[test]
fn silent_device_is_refused_after_two_probes() {
    let mut probe = Probe::new();
    assert_eq!(probe.req_id(), 0x7000);
    let mute = || DescribeOutcome::Timeout { bad_version: None };
    let (d, notes) = probe.verify_gateway(&wire(), "/dev/x", mute());
    assert_eq!(d, GateDecision::Retry);
    assert!(notes.is_empty());
    assert_eq!(probe.req_id(), 0x7001);
    let (d, notes) = probe.verify_gateway(&wire(), "/dev/x", mute());
    assert_eq!(d, GateDecision::Reject(EXIT_DEVICE_TIMEOUT));
    assert_eq!(
        notes,
        vec![Emit::Note(
            "[tower] /dev/x: no answer to the management probe — not a gateway (or pre-v3 firmware)?"
                .to_string()
        )]
    );
}

fn info(role: DeviceRole) -> DeviceInfo {
    DeviceInfo {
        role,
        radio_schema_version: 1,
        net_id: 0xAB12,
        band: 0,
        channel: 0,
        node_capacity: 32,
        node_count: 2,
        provisioned: true,
        gw_id: 0xAB12,
        firmware_name: "radio_push_button".to_string(),
    }
}

#[test]
fn refusals_say_why() {
    let (_, notes) = gate_describe(&wire(), "/dev/x", DescribeOutcome::Info(info(DeviceRole::Node)));
    assert_eq!(
        notes,
        vec![Emit::Note(
            "[tower] /dev/x runs \"radio_push_button\" (role Node), not the gateway firmware — flash apps/radio_dongle_gateway first"
                .to_string()
        )]
    );
    let (_, notes) = gate_describe(&wire(), "/dev/x", DescribeOutcome::Refused(1));
    assert_eq!(
        notes,
        vec![Emit::Note("[tower] /dev/x: device refused the role probe (code 1)".to_string())]
    );
    let i = info(DeviceRole::Gateway);
    assert_eq!(attached_note("/dev/x", &i), "[tower] gateway 0x0000ab12 on /dev/x (2 of 32 node slots)");
    assert_eq!(client_id(&i), "tower-gateway-0x0000ab12");
}

// ---- frames for the engine -----------------------------------------------------

#[test]
fn uplink_frame_maps_to_uplink() {
    let u = Uplink {
        src: 0xAB12,
        counter: 42,
        rssi_dbm: -67,
        lqi: 30,
        data: vec![1, 2, 3],
        body: NodeMsg::Undecodable,
    };
    match to_serial_msg(message(MsgType::Uplink, Body::Uplink(u))).expect("engine-relevant") {
        SerialMsg::Uplink(u) => {
            assert_eq!((u.src, u.counter, u.rssi_dbm, u.lqi), (0xAB12, 42, -67, 30));
            assert_eq!(u.data, vec![1, 2, 3]);
        }
        other => panic!("expected Uplink, got {other:?}"),
    }
}

#[test]
fn mgmt_response_frame_maps_to_mgmt() {
    let m = MgmtResponse { req_id: 7, result: wire().mgmt_ok, chunk: 1, last: true, data: vec![9, 9] };
    match to_serial_msg(message(MsgType::MgmtResponse, Body::MgmtResponse(m))).expect("engine-relevant") {
        SerialMsg::Mgmt { req_id, result, chunk, last, data } => {
            assert_eq!((req_id, result, chunk, last), (7, wire().mgmt_ok, 1, true));
            assert_eq!(data, vec![9, 9]);
        }
        other => panic!("expected Mgmt, got {other:?}"),
    }
}

#[test]
fn radio_stat_frames_map_to_stat() {
    let tx = RadioStat::Tx { dest: 0xAB12, item: 5, outcome: 0, ack_rssi_dbm: Some(-40) };
    match to_serial_msg(message(MsgType::RadioStat, Body::RadioStat(tx))).expect("engine-relevant") {
        SerialMsg::Stat(RadioStat::Tx { dest, item, .. }) => assert_eq!((dest, item), (0xAB12, 5)),
        other => panic!("expected Stat(Tx), got {other:?}"),
    }
    let ch = RadioStat::Channel { channel: 3, rssi_dbm: -98 };
    match to_serial_msg(message(MsgType::RadioStat, Body::RadioStat(ch))).expect("engine-relevant") {
        SerialMsg::Stat(RadioStat::Channel { channel, rssi_dbm }) => {
            assert_eq!((channel, rssi_dbm), (3, -98))
        }
        other => panic!("expected Stat(Channel), got {other:?}"),
    }
}

#[test]
fn print_frame_maps_to_trimmed_log() {
    let p = Body::Print { text: "hello world\n  ".to_string() };
    match to_serial_msg(message(MsgType::Print, p)).expect("engine-relevant") {
        SerialMsg::Log { line } => assert_eq!(line, "hello world"),
        other => panic!("expected Log, got {other:?}"),
    }
}

#[test]
fn log_frame_maps_to_formatted_log() {
    let l = Log {
        level: Level::Info,
        uptime_us: 1_234_567,
        module: "radio".to_string(),
        message: "up".to_string(),
    };
    match to_serial_msg(message(MsgType::Log, Body::Log(l))).expect("engine-relevant") {
        SerialMsg::Log { line } => {
            assert!(line.contains("INFO"), "{line}");
            assert!(line.contains("radio: up"), "{line}");
        }
        other => panic!("expected Log, got {other:?}"),
    }
}

#[test]
fn hello_and_dropped_frames_map() {
    let h = Hello {
        protocol_version: wire().protocol_version,
        firmware_name: "radio_dongle_gateway".to_string(),
        firmware_version: "v0.1.0".to_string(),
        session_id: 7,
    };
    match to_serial_msg(message(MsgType::Hello, Body::Hello(h))).expect("engine-relevant") {
        SerialMsg::Hello { firmware_name, session_id, .. } => {
            assert_eq!((firmware_name.as_str(), session_id), ("radio_dongle_gateway", 7));
        }
        other => panic!("expected Hello, got {other:?}"),
    }
    match to_serial_msg(message(MsgType::Dropped, Body::Dropped { count: 3 })).expect("engine-relevant") {
        SerialMsg::Dropped(n) => assert_eq!(n, 3),
        other => panic!("expected Dropped, got {other:?}"),
    }
}

#[test]
fn bad_version_frame_becomes_protocol_mismatch_log() {
    let f = Frame::Refused { error: "BadVersion".to_string(), bad_version: Some(1) };
    match to_serial_msg(f).expect("a mismatch surfaces as a Log") {
        SerialMsg::Log { line } => {
            assert!(line.contains("PROTOCOL MISMATCH"), "{line}");
            assert!(line.contains("v1"), "{line}");
        }
        other => panic!("expected Log, got {other:?}"),
    }
}

#[test]
fn non_engine_and_corrupt_frames_are_ignored() {
    let s = ShellResponse { cmd_id: 1, result: 0, chunk: 0, last: true, text: "x".to_string() };
    assert!(to_serial_msg(message(MsgType::ShellResponse, Body::ShellResponse(s))).is_none());
    let corrupt = Frame::Refused { error: "Crc".to_string(), bad_version: None };
    assert!(to_serial_msg(corrupt).is_none());
    assert!(to_serial_msg(message(MsgType::Uplink, Body::Malformed)).is_none());
}

// ---- links ---------------------------------------------------------------------

#[test]
fn serial_link_reports_edges() {
    let mut link = SerialLink::new();
    assert!(link.writes());
    assert_eq!(link.on(SerialEvent::Read), None);
    assert_eq!(
        link.on(SerialEvent::WriteFailed),
        Some(Input::SerialDown { error: "write failed".to_string() })
    );
    assert!(!link.writes());
    assert_eq!(link.on(SerialEvent::ReopenFailed), None);
    assert!(!link.writes());
    assert_eq!(link.on(SerialEvent::Reopened), Some(Input::SerialUp));
    assert!(link.writes());
    assert_eq!(
        link.on(SerialEvent::ReadFailed { error: "gone".to_string() }),
        Some(Input::SerialDown { error: "gone".to_string() })
    );
}

#[test]
fn broker_link_reports_a_loss_once() {
    let mut link = BrokerLink::new();
    let failed = || BrokerEvent::Failed { error: "refused".to_string() };
    assert_eq!(link.on(failed()), None);
    assert_eq!(link.on(BrokerEvent::ConnAck), Some(Input::MqttUp));
    assert_eq!(link.on(failed()), Some(Input::MqttDown { error: "refused".to_string() }));
    assert_eq!(link.on(failed()), None);
    assert_eq!(
        last_will("tower/"),
        ("tower/gateway/status".to_string(), r#"{"schema":1,"state":"offline"}"#.to_string())
    );
}

#[test]
fn service_says_what_matters() {
    let say = |e: &Event| service_line(e);
    assert_eq!(say(&Event::Log("x".to_string())), Some("x".to_string()));
    assert_eq!(
        say(&Event::Link { serial_up: true, mqtt_up: false }),
        Some("link: serial up · mqtt DOWN".to_string())
    );
    let view = |addr: u32, name: &str| NodeView {
        addr,
        name: name.to_string(),
        kind: String::new(),
        sleeping: false,
        unnamed: false,
        last_seen_s: None,
        rssi_dbm: None,
        uplinks: 0,
        queued: 0,
        pending: Vec::new(),
    };
    assert_eq!(
        say(&Event::Registry(vec![view(7, ""), view(8, "hall")])),
        Some("registry: 2 node(s) · 7 · hall".to_string())
    );
    let rsp = |done: bool, error: Option<&str>| Event::Shell {
        node: 0xAB12,
        rsp: ShellRsp {
            id: "u".to_string(),
            chunk: 0,
            text: String::new(),
            done,
            result: 4,
            truncated: false,
            error: error.map(|e| e.to_string()),
        },
    };
    assert_eq!(say(&rsp(true, Some("bad"))), Some("shell 0000ab12 #u: error: bad".to_string()));
    assert_eq!(say(&rsp(true, None)), Some("shell 0000ab12 #u: done (result 4)".to_string()));
    assert_eq!(say(&rsp(false, None)), None);
    assert_eq!(say(&Event::Radio(RadioSample::Ambient { dbm: -90, channel: 1 })), None);
    assert_eq!(
        say(&Event::Radio(RadioSample::Rx { src: 1, rssi_dbm: -60 })),
        Some("rx 00000001 -60 dBm".to_string())
    );
    assert_eq!(
        say(&Event::Radio(RadioSample::Tx { dest: 1, delivered: false })),
        Some("tx 00000001 pending".to_string())
    );
    let pairing = |state: &str, remaining_s: Option<u64>, joined: Option<&str>| {
        Event::Pairing(Pairing {
            state: state.to_string(),
            remaining_s,
            joined: joined.map(|j| j.to_string()),
        })
    };
    assert_eq!(
        say(&pairing("open", Some(9), None)),
        Some("pairing window open (9s left)".to_string())
    );
    assert_eq!(say(&pairing("idle", None, Some("0x1"))), Some("paired 0x1".to_string()));
    assert_eq!(say(&pairing("idle", None, None)), None);
    let rpc = RpcResponse { id: "x".to_string(), ok: true, error: None, data: RpcData::Null };
    assert_eq!(say(&Event::Rpc(rpc)), None);
    let out = service_output(&Event::Log("hello".to_string())).unwrap();
    assert!(out.starts_with("[tower] ") && out.ends_with(" hello") && out.len() == 22, "{out}");
}

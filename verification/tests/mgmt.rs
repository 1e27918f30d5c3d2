//! Management replies and the records in them.

use tower_cli::frame::{Body, Frame, MgmtResponse, MsgType};
use tower_cli::mgmt::{
    describe, mgmt_roundtrip, parse_device_info, parse_node_entries, parse_queue_entries,
    DescribeOutcome, MgmtOutcome, NodeEntry,
};
use tower_cli::wire::{role_name, role_of, DeviceRole, Wire};

fn wire() -> Wire {
    Wire {
        protocol_version: 3,
        radio_schema_version: 1,
        radio_shell_chunk: 48,
        max_node_name: 16,
        max_frame: 256,
        role_gateway: 0,
        role_node: 1,
        role_other: 2,
        flag_sleeping: 1,
        flag_unnamed: 2,
        last_seen_never: u32::MAX,
        rssi_none: i8::MAX,
        mgmt_ok: 0,
        mgmt_unsupported: 1,
        mgmt_bad_arg: 2,
        mgmt_not_found: 3,
        mgmt_full: 4,
        mgmt_busy: 5,
        mgmt_storage: 6,
        mgmt_timeout: 7,
        tx_delivered: 0,
        tx_not_delivered: 1,
        tx_busy: 2,
        tx_duty_limited: 3,
        tx_expired: 4,
    }
}

fn mgmt_response_frame(req_id: u16, result: u8, chunk: u16, last: bool, data: &[u8]) -> Frame {
    Frame::Message {
        kind: MsgType::MgmtResponse,
        seq: chunk,
        body: Body::MgmtResponse(MgmtResponse { req_id, result, chunk, last, data: data.to_vec() }),
    }
}

#[test]
fn roundtrip_reassembles_chunks() {
    let ok = wire().mgmt_ok;
    let frames = vec![
        mgmt_response_frame(7, 0, 0, false, b"abc"),
        // A foreign req_id in between is ignored.
        mgmt_response_frame(9, 1, 0, true, b"zzz"),
        mgmt_response_frame(7, ok, 1, true, b"def"),
    ];
    match mgmt_roundtrip(7, &frames) {
        MgmtOutcome::Reply(r) => {
            assert_eq!(r.result, ok);
            assert_eq!(r.data, b"abcdef");
            assert!(!r.truncated);
        }
        _ => panic!("expected a reply"),
    }
    // A foreign req_id behind the last chunk changes nothing.
    let frames = vec![
        mgmt_response_frame(7, 0, 0, false, b"abc"),
        mgmt_response_frame(7, ok, 1, true, b"def"),
        mgmt_response_frame(9, 1, 0, true, b"zzz"),
    ];
    match mgmt_roundtrip(7, &frames) {
        MgmtOutcome::Reply(r) => assert_eq!(r.data, b"abcdef"),
        _ => panic!("expected a reply"),
    }
}

#[test]
fn chunk_gap_flags_truncated() {
    let frames = vec![
        mgmt_response_frame(3, 0, 0, false, b"a"),
        mgmt_response_frame(3, wire().mgmt_ok, 2, true, b"c"), // chunk 1 lost
    ];
    match mgmt_roundtrip(3, &frames) {
        MgmtOutcome::Reply(r) => assert!(r.truncated),
        _ => panic!("expected a reply"),
    }
}

#[test]
fn timeout_when_mute() {
    match mgmt_roundtrip(1, &vec![]) {
        MgmtOutcome::Timeout { bad_version: None } => {}
        _ => panic!("expected a clean timeout"),
    }
}

#[test]
fn timeout_carries_the_other_version() {
    let frames = vec![
        Frame::Refused { error: "Crc".to_string(), bad_version: None },
        Frame::Refused { error: "BadVersion".to_string(), bad_version: Some(2) },
    ];
    assert_eq!(mgmt_roundtrip(1, &frames), MgmtOutcome::Timeout { bad_version: Some(2) });
}

fn device_info(role: u32) -> Vec<u8> {
    postcard::to_stdvec(&(
        role,
        1u8,
        0xAB12u32,
        0u8,
        0u8,
        32u8,
        2u8,
        true,
        0xAB12u32,
        "radio_dongle_gateway",
    ))
    .unwrap()
}

#[test]
fn describe_decodes_device_info() {
    let frames = vec![mgmt_response_frame(1, wire().mgmt_ok, 0, true, &device_info(0))];
    match describe(&wire(), mgmt_roundtrip(1, &frames)) {
        DescribeOutcome::Info(d) => {
            assert_eq!(d.role, DeviceRole::Gateway);
            assert_eq!(d.net_id, 0xAB12);
            assert_eq!(d.firmware_name, "radio_dongle_gateway");
        }
        _ => panic!("expected device info"),
    }
}

#[test]
fn describe_tells_refusals_apart() {
    let outcome = |result: u8, data: &[u8]| {
        describe(&wire(), mgmt_roundtrip(1, &vec![mgmt_response_frame(1, result, 0, true, data)]))
    };
    assert_eq!(outcome(3, &device_info(0)), DescribeOutcome::Refused(3));
    assert_eq!(outcome(0, &[1, 2]), DescribeOutcome::Refused(u8::MAX));
    assert_eq!(
        describe(&wire(), MgmtOutcome::Timeout { bad_version: Some(9) }),
        DescribeOutcome::Timeout { bad_version: Some(9) }
    );
}

fn entry(id: u32, name: &str, flags: u8, last_seen_s: u32, rssi_dbm: i8, uplinks: u32, queued: u8) -> Vec<u8> {
    postcard::to_stdvec(&(id, name, flags, last_seen_s, rssi_dbm, uplinks, queued)).unwrap()
}

#[test]
fn record_stream_parses() {
    let mut stream = entry(1, "a", 0, 5, -60, 2, 0);
    stream.extend(entry(2, "b", 1, u32::MAX, i8::MAX, 0, 1));
    let parsed: Vec<NodeEntry> = parse_node_entries(&stream);
    assert_eq!(parsed.len(), 2);
    assert_eq!(parsed[0].id, 1);
    assert_eq!(parsed[0].rssi_dbm, -60);
    assert_eq!(parsed[1].name, "b");
    assert_eq!(parsed[1].flags, 1);
}

#[test]
fn record_stream_ends_at_a_broken_record() {
    let mut stream = entry(1, "a", 0, 5, -60, 2, 0);
    stream.extend([2, 200]);
    assert_eq!(parse_node_entries(&stream).len(), 1);
    assert_eq!(parse_node_entries(&[]).len(), 0);
    assert_eq!(parse_queue_entries(&[]).len(), 0);
}

#[test]
fn roles_have_names() {
    let w = wire();
    assert_eq!(role_of(&w, w.role_gateway).map(role_name), Some("Gateway"));
    assert_eq!(role_of(&w, w.role_node).map(role_name), Some("Node"));
    assert_eq!(role_of(&w, w.role_other).map(role_name), Some("Other"));
    assert_eq!(role_of(&w, 77), None);
    assert_eq!(parse_device_info(&w, &device_info(1)).map(|d| d.role), Some(DeviceRole::Node));
    assert_eq!(parse_device_info(&w, &[]).is_none(), true);
    // A role that nobody knows is no description.
    assert!(parse_device_info(&w, &device_info(77)).is_none());
    let frames = vec![mgmt_response_frame(1, w.mgmt_ok, 0, true, &device_info(77))];
    assert_eq!(describe(&w, mgmt_roundtrip(1, &frames)), DescribeOutcome::Refused(u8::MAX));
}

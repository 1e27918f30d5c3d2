//! The gateway engine, driven by inputs and read by its outputs.

use serde_json::Value;
use tower_cli::engine_model::MGMT_TIMEOUT_TICKS;
use tower_cli::engine_rpc::{parse_key_hex, wants_key};
use tower_cli::engine_state::{
    Engine, Event, FrontendCmd, Input, NodeMirror, OpKind, Output, PendingShell, RadioSample,
    SerialMsg,
};
use tower_cli::entropy::{mint_key, now_ts, ts_of};
use tower_cli::frame::{
    AccelKind, ButtonKind, NodeInfo, NodeMsg, NodeShellChunk, RadioStat, Uplink,
};
use tower_cli::mgmt::{DeviceInfo, MgmtOp, NodeEntry};
use tower_cli::naming::{auto_name, kind_of};
use tower_cli::payload::{RpcParams, RpcRequest, ShellReq};
use tower_cli::topics::node_hex;
use tower_cli::wire::{DeviceRole, Wire};

fn wire() -> Wire {
    Wire {
        protocol_version: 3,
        radio_schema_version: 1,
        radio_shell_chunk: 48,
        max_node_name: 16,
        max_frame: 256,
        role_gateway: 0,
        role_node: 1,
        role_other: 2,
        flag_sleeping: 1,
        flag_unnamed: 2,
        last_seen_never: u32::MAX,
        rssi_none: i8::MAX,
        mgmt_ok: 0,
        mgmt_unsupported: 1,
        mgmt_bad_arg: 2,
        mgmt_not_found: 3,
        mgmt_full: 4,
        mgmt_busy: 5,
        mgmt_storage: 6,
        mgmt_timeout: 7,
        tx_delivered: 0,
        tx_not_delivered: 1,
        tx_busy: 2,
        tx_duty_limited: 3,
        tx_expired: 4,
    }
}

fn engine() -> Engine {
    Engine::new(
        wire(),
        "tower/".to_string(),
        "/dev/ttyTEST".to_string(),
        DeviceInfo {
            role: DeviceRole::Gateway,
            radio_schema_version: wire().radio_schema_version,
            net_id: 0x0000_0001,
            band: 0,
            channel: 0,
            node_capacity: 32,
            node_count: 0,
            provisioned: true,
            gw_id: 0x0000_0001,
            firmware_name: "radio_dongle_gateway".to_string(),
        },
    )
}

/// The request in an output, with its id.
fn sent_op(out: &Output) -> Option<(u16, String)> {
    match out {
        Output::SerialSend { req_id, op, .. } => Some((*req_id, format!("{:?}", op))),
        _ => None,
    }
}

fn publishes<'a>(out: &'a [Output], topic: &str) -> Vec<&'a [u8]> {
    out.iter()
        .filter_map(|o| match o {
            Output::Publish { topic: t, payload, .. } if t == topic => Some(payload.as_slice()),
            _ => None,
        })
        .collect()
}

fn json(raw: &[u8]) -> Value {
    serde_json::from_slice(raw).unwrap()
}

/// Feeds a whole reply in one chunk.
fn reply(e: &mut Engine, req_id: u16, result: u8, data: &[u8]) -> Vec<Output> {
    e.handle(Input::SerialFrame(SerialMsg::Mgmt {
        req_id,
        result,
        chunk: 0,
        last: true,
        data: data.to_vec(),
    }))
}

fn node_entry_record(id: u32, name: &str, flags: u8) -> Vec<u8> {
    postcard::to_stdvec(&(id, name, flags, 3u32, -60i8, 5u32, 0u8)).unwrap()
}

/// Puts one node into the mirror by a listing of the registry.
fn with_node(e: &mut Engine, id: u32, name: &str, flags: u8) {
    let start = e.start();
    let (req_id, op) = start.iter().find_map(sent_op).expect("start issues NodeList");
    assert!(op.contains("NodeList"));
    let out = reply(e, req_id, wire().mgmt_ok, &node_entry_record(id, name, flags));
    assert!(!publishes(&out, &format!("tower/nodes/{}", node_hex(id))).is_empty());
}

fn uplink(src: u32, counter: u32, rssi_dbm: i16, body: NodeMsg) -> Input {
    Input::SerialFrame(SerialMsg::Uplink(Uplink {
        src,
        counter,
        rssi_dbm,
        lqi: 30,
        data: vec![1, 2, 3],
        body,
    }))
}

fn shell_in(topic: &str, id: &str, line: &str) -> Input {
    Input::MqttIn {
        topic: topic.to_string(),
        rpc: Err("missing field `op`".to_string()),
        shell: Ok(ShellReq { id: id.to_string(), line: line.to_string(), ttl_s: 0 }),
    }
}

fn rpc_in(id: &str, op: &str, params: RpcParams) -> Input {
    Input::MqttIn {
        topic: "tower/gateway/cmd".to_string(),
        rpc: Ok(RpcRequest { id: id.to_string(), op: op.to_string(), params }),
        shell: Err("missing field `line`".to_string()),
    }
}

fn queue_id(item: u16) -> Vec<u8> {
    postcard::to_stdvec(&item).unwrap()
}

#[test]
fn start_subscribes_and_lists() {
    let mut e = engine();
    let out = e.start();
    let subs: Vec<&String> = out
        .iter()
        .filter_map(|o| match o {
            Output::Subscribe(f) => Some(f),
            _ => None,
        })
        .collect();
    assert!(subs.iter().any(|f| *f == "tower/gateway/cmd"));
    assert!(subs.iter().any(|f| *f == "tower/nodes/+/shell/req"));
    assert!(out.iter().find_map(sent_op).is_some(), "a NodeList goes out");
}

#[test]
fn node_list_reply_publishes_retained_registry() {
    let mut e = engine();
    with_node(&mut e, 0xAB12, "kitchen", wire().flag_sleeping);
    // The retained node payload carries the name and the sleeping flag.
    let out = reply_dummy_registry(&mut e);
    let raw = publishes(&out, "tower/nodes/0x0000ab12");
    assert!(!raw.is_empty());
    let n = json(raw[0]);
    assert_eq!(n["name"], "kitchen");
    assert_eq!(n["sleeping"], true);
}

/// Lists the registry again.
fn reply_dummy_registry(e: &mut Engine) -> Vec<Output> {
    let mut out = Vec::new();
    e.issue(&mut out, OpKind::NodeList, MgmtOp::NodeList, None);
    let (req_id, _) = out.iter().find_map(sent_op).unwrap();
    reply(
        e,
        req_id,
        wire().mgmt_ok,
        &node_entry_record(0xAB12, "kitchen", wire().flag_sleeping),
    )
}

#[test]
fn button_uplink_maps_to_topic() {
    let mut e = engine();
    with_node(&mut e, 0xAB12, "kitchen", 0);
    let out = e.handle(uplink(
        0xAB12,
        42,
        -67,
        NodeMsg::Button { kind: ButtonKind::Click, count: 7 },
    ));
    let raw = publishes(&out, "tower/nodes/0x0000ab12/event/button");
    assert_eq!(raw.len(), 1);
    let ev = json(raw[0]);
    assert_eq!((ev["event"].as_str(), ev["count"].as_u64(), ev["counter"].as_u64()), (Some("click"), Some(7), Some(42)));
    // The graph feed got an RX mark too.
    assert!(!publishes(&out, "tower/radio/rx").is_empty());
}

#[test]
fn unnamed_node_is_auto_named_from_info() {
    let mut e = engine();
    with_node(&mut e, 0xAB12, "", wire().flag_unnamed);
    let out = e.handle(uplink(
        0xAB12,
        1,
        -60,
        NodeMsg::Info(NodeInfo {
            firmware_name: "radio_push_button".to_string(),
            session_id: 1,
            sleeping: true,
        }),
    ));
    let op = out.iter().find_map(sent_op).expect("a NodeUpdate goes out");
    assert!(op.1.contains("NodeUpdate"), "{}", op.1);
    assert!(op.1.contains("push-button:0"), "auto-name in {}", op.1);
}

#[test]
fn shell_req_roundtrip_queue_and_chunks() {
    let mut e = engine();
    with_node(&mut e, 0xAB12, "kitchen", wire().flag_sleeping);
    // 1. A request over the broker becomes a QueuePush.
    let out = e.handle(shell_in("tower/nodes/0x0000ab12/shell/req", "u-1", "/led on"));
    let (req_id, op) = out.iter().find_map(sent_op).expect("QueuePush goes out");
    assert!(op.contains("QueuePush"), "{op}");
    // 2. The queue id makes it pending.
    let out = reply(&mut e, req_id, wire().mgmt_ok, &queue_id(9));
    let pend = publishes(&out, "tower/nodes/0x0000ab12/shell/pending");
    assert!(!pend.is_empty());
    let entries = json(pend[0]);
    assert_eq!(entries.as_array().unwrap().len(), 1);
    assert_eq!(entries[0]["ref"], 9);
    assert_eq!(entries[0]["line"], "/led on");
    // 3. The node's chunks go to the response topic; the last one ends it.
    let out = e.handle(uplink(
        0xAB12,
        2,
        -60,
        NodeMsg::Shell(NodeShellChunk {
            cmd_id: 1, // first allocated cmd_id
            result: 0,
            chunk: 0,
            last: true,
            text: "ok".to_string(),
        }),
    ));
    let rsp_raw = publishes(&out, "tower/nodes/0x0000ab12/shell/rsp");
    assert_eq!(rsp_raw.len(), 1);
    let rsp = json(rsp_raw[0]);
    assert_eq!((rsp["id"].as_str(), rsp["text"].as_str(), rsp["done"].as_bool()), (Some("u-1"), Some("ok"), Some(true)));
    let pend = publishes(&out, "tower/nodes/0x0000ab12/shell/pending");
    assert!(!pend.is_empty());
    assert!(json(pend[0]).as_array().unwrap().is_empty());
}

#[test]
fn unknown_rpc_answers_error_on_rsp_topic() {
    let mut e = engine();
    let out = e.handle(rpc_in("u-9", "frobnicate", RpcParams::none()));
    let raw = publishes(&out, "tower/gateway/rsp/u-9");
    assert_eq!(raw.len(), 1);
    let rsp = json(raw[0]);
    assert_eq!(rsp["ok"], false);
    assert_eq!(rsp["error"], "unknown op \"frobnicate\"");
}

fn hello(session_id: u32) -> Input {
    Input::SerialFrame(SerialMsg::Hello {
        firmware_name: "radio_dongle_gateway".to_string(),
        firmware_version: "v0.1.0".to_string(),
        session_id,
    })
}

#[test]
fn gateway_reboot_fails_pendings_and_resyncs() {
    let mut e = engine();
    with_node(&mut e, 0xAB12, "kitchen", 0);
    // The first announcement pins the session.
    let _ = e.handle(hello(7));
    let out = e.handle(shell_in("tower/nodes/0x0000ab12/shell/req", "u-2", "/x"));
    let (req_id, _) = out.iter().find_map(sent_op).unwrap();
    let _ = reply(&mut e, req_id, wire().mgmt_ok, &queue_id(3));
    // Another session: the gateway rebooted, and its queue is gone.
    let out = e.handle(hello(8));
    let rsp_raw = publishes(&out, "tower/nodes/0x0000ab12/shell/rsp");
    assert_eq!(rsp_raw.len(), 1);
    let rsp = json(rsp_raw[0]);
    assert_eq!(rsp["error"], "gateway rebooted — command lost");
    let ops: Vec<String> = out.iter().filter_map(sent_op).map(|(_, op)| op).collect();
    assert!(ops.iter().any(|o| o.contains("Describe")));
    assert!(ops.iter().any(|o| o.contains("NodeList")));
    assert!(e.nodes[0].pending.is_empty());
}

#[test]
fn mgmt_timeout_fails_the_rpc() {
    let mut e = engine();
    let out = e.handle(rpc_in("u-3", "node_list", RpcParams::none()));
    assert!(out.iter().find_map(sent_op).is_some());
    let mut failed = false;
    for _ in 0..(MGMT_TIMEOUT_TICKS + 1) {
        let out = e.handle(Input::Tick);
        if !publishes(&out, "tower/gateway/rsp/u-3").is_empty() {
            failed = true;
        }
    }
    assert!(failed, "the pending RPC must fail after the timeout ticks");
    assert!(e.pending_mgmt.is_empty());
}

#[test]
fn ambient_stat_publishes_and_feeds_the_graph() {
    let mut e = engine();
    let out = e.handle(Input::SerialFrame(SerialMsg::Stat(RadioStat::Channel {
        channel: 0,
        rssi_dbm: -98,
    })));
    assert!(!publishes(&out, "tower/radio/rssi").is_empty());
    assert!(out.iter().any(|o| matches!(
        o,
        Output::Event(Event::Radio(RadioSample::Ambient { dbm: -98, .. }))
    )));
}

#[test]
fn mqtt_reconnect_republishes_retained_world() {
    let mut e = engine();
    with_node(&mut e, 0xAB12, "kitchen", 0);
    let out = e.handle(Input::MqttUp);
    assert!(!publishes(&out, "tower/gateway/status").is_empty());
    assert!(!publishes(&out, "tower/nodes/0x0000ab12").is_empty());
    assert!(!publishes(&out, "tower/nodes/0x0000ab12/shell/pending").is_empty());
    assert!(out
        .iter()
        .any(|o| matches!(o, Output::Subscribe(f) if f == "tower/gateway/cmd")));
}

// ---- more of the engine --------------------------------------------------------

fn the_error(out: &[Output], id: &str) -> String {
    let raw = publishes(out, &format!("tower/gateway/rsp/{id}"));
    assert_eq!(raw.len(), 1);
    let rsp = json(raw[0]);
    assert_eq!(rsp["ok"], false);
    rsp["error"].as_str().unwrap().to_string()
}

#[test]
fn rpc_parameters_are_checked() {
    let mut e = engine();
    with_node(&mut e, 0xAB12, "kitchen", 0);
    let out = e.handle(rpc_in("a", "node_add", RpcParams::none()));
    assert_eq!(the_error(&out, "a"), "node_add needs id + key (hex)");
    let out = e.handle(rpc_in("b", "node_remove", RpcParams::none()));
    assert_eq!(the_error(&out, "b"), "unknown node");
    let mut p = RpcParams::none();
    p.node = Some("kitchen".to_string());
    let out = e.handle(rpc_in("c", "node_rename", p));
    assert_eq!(the_error(&out, "c"), "missing name");
    let mut p = RpcParams::none();
    p.node = Some("kitchen".to_string());
    p.name = Some("a name beyond sixteen bytes".to_string());
    let out = e.handle(rpc_in("d", "node_rename", p));
    assert_eq!(the_error(&out, "d"), "name must be 1..=16 bytes");
    let mut p = RpcParams::none();
    p.node = Some("cellar".to_string());
    let out = e.handle(rpc_in("e", "reveal_key", p));
    assert_eq!(the_error(&out, "e"), "unknown node");
}

#[test]
fn nodes_are_named_by_address_or_name() {
    let mut e = engine();
    with_node(&mut e, 0xAB12, "kitchen", 0);
    for arg in ["kitchen", "0x0000ab12", "0X0000AB12"] {
        let mut p = RpcParams::none();
        p.node = Some(arg.to_string());
        let out = e.handle(rpc_in("x", "reveal_key", p));
        match &out[0] {
            Output::SerialSend { op, .. } => {
                assert_eq!(*op, MgmtOp::NodeRevealKey { id: 0xAB12 });
            }
            other => panic!("expected a request, got {other:?}"),
        }
    }
}

#[test]
fn frontend_requests_are_answered_by_events() {
    let mut e = engine();
    let req = RpcRequest {
        id: "tui-7".to_string(),
        op: "nothing".to_string(),
        params: RpcParams::none(),
    };
    let out = e.handle(Input::Frontend(FrontendCmd::Rpc(req)));
    assert_eq!(out.len(), 1);
    match &out[0] {
        Output::Event(Event::Rpc(rsp)) => {
            assert_eq!(rsp.id, "tui-7");
            assert!(!rsp.ok);
        }
        other => panic!("expected an event, got {other:?}"),
    }
}

#[test]
fn revealed_key_is_written_in_hex() {
    let mut e = engine();
    with_node(&mut e, 0xAB12, "kitchen", 0);
    let mut p = RpcParams::none();
    p.node = Some("kitchen".to_string());
    let out = e.handle(rpc_in("k", "reveal_key", p));
    let (req_id, _) = out.iter().find_map(sent_op).unwrap();
    let key: [u8; 16] = [0, 1, 2, 3, 4, 5, 6, 7, 8, 9, 10, 11, 12, 13, 14, 255];
    let out = reply(&mut e, req_id, wire().mgmt_ok, &postcard::to_stdvec(&key).unwrap());
    let raw = publishes(&out, "tower/gateway/rsp/k");
    assert_eq!(json(raw[0])["data"]["key"], "000102030405060708090a0b0c0d0eff");
    assert_eq!(parse_key_hex("000102030405060708090a0b0c0d0eff"), Some(key));
    assert_eq!(parse_key_hex("000102030405060708090a0b0c0d0ef"), None);
    assert_eq!(parse_key_hex("0001020304050607_8090a0b0c0d0eff"), None);
}

#[test]
fn key_record_that_is_too_short_is_an_error() {
    let mut e = engine();
    with_node(&mut e, 0xAB12, "kitchen", 0);
    let mut p = RpcParams::none();
    p.node = Some("kitchen".to_string());
    let out = e.handle(rpc_in("k", "reveal_key", p));
    let (req_id, _) = out.iter().find_map(sent_op).unwrap();
    let out = reply(&mut e, req_id, wire().mgmt_ok, &[1, 2, 3]);
    assert_eq!(the_error(&out, "k"), "malformed key record");
}

#[test]
fn pairing_window_opens_once_and_reports_the_join() {
    let mut e = engine();
    let mut p = RpcParams::none();
    p.window_s = Some(5000);
    let out = e.step(rpc_in("p", "node_add_ota", p), 0, Some([7; 16]));
    match out.last().unwrap() {
        Output::SerialSend { op, req_id, .. } => {
            assert_eq!(*op, MgmtOp::PairingOpen { window_s: 600, key: [7; 16] });
            assert_eq!(*req_id, 1);
        }
        other => panic!("expected a request, got {other:?}"),
    }
    let out = e.step(rpc_in("q", "node_add_ota", RpcParams::none()), 0, Some([8; 16]));
    assert_eq!(the_error(&out, "q"), "a pairing window is already open");
    let joined = postcard::to_stdvec(&0xAB12u32).unwrap();
    let out = reply(&mut e, 1, wire().mgmt_ok, &joined);
    assert_eq!(json(publishes(&out, "tower/gateway/rsp/p")[0])["data"]["joined"], "0x0000ab12");
    let pairing = json(publishes(&out, "tower/gateway/pairing")[0]);
    assert_eq!(pairing["state"], "idle");
    assert_eq!(pairing["joined"], "0x0000ab12");
}

#[test]
fn expired_window_is_no_error() {
    let mut e = engine();
    let _ = e.step(rpc_in("p", "node_add_ota", RpcParams::none()), 0, Some([7; 16]));
    let out = reply(&mut e, 1, wire().mgmt_timeout, &[]);
    let rsp = json(publishes(&out, "tower/gateway/rsp/p")[0]);
    assert_eq!(rsp["ok"], true);
    assert_eq!(rsp["data"]["joined"], Value::Null);
}

#[test]
fn pairing_without_entropy_fails() {
    let mut e = engine();
    let out = e.step(rpc_in("p", "node_add_ota", RpcParams::none()), 0, None);
    assert_eq!(the_error(&out, "p"), "no entropy source for the node key");
}

#[test]
fn only_pairing_wants_a_key() {
    assert!(wants_key(&rpc_in("p", "node_add_ota", RpcParams::none())));
    assert!(!wants_key(&rpc_in("p", "node_list", RpcParams::none())));
    assert!(!wants_key(&Input::Tick));
}

#[test]
fn device_errors_are_passed_on() {
    let mut e = engine();
    let out = e.handle(rpc_in("z", "describe", RpcParams::none()));
    let (req_id, _) = out.iter().find_map(sent_op).unwrap();
    let out = reply(&mut e, req_id, wire().mgmt_busy, &[]);
    assert_eq!(the_error(&out, "z"), "busy (conflicting operation in flight)");
}

#[test]
fn encode_failures_are_answered() {
    let mut e = engine();
    with_node(&mut e, 0xAB12, "kitchen", 0);
    let out = e.handle(rpc_in("z", "describe", RpcParams::none()));
    let (req_id, _) = out.iter().find_map(sent_op).unwrap();
    let out = e.handle(Input::EncodeFailed { req_id, envelope: false });
    assert_eq!(the_error(&out, "z"), "request encode failed");
    let out = e.handle(shell_in("tower/nodes/0x0000ab12/shell/req", "s", "/x"));
    let (req_id, _) = out.iter().find_map(sent_op).unwrap();
    let out = e.handle(Input::EncodeFailed { req_id, envelope: true });
    let rsp = json(publishes(&out, "tower/nodes/0x0000ab12/shell/rsp")[0]);
    assert_eq!(rsp["error"], "envelope encode failed");
}

/// Without its envelope a line was never sent: its numbers go to the next request.
#[test]
fn unsendable_line_uses_up_no_request() {
    let mut e = engine();
    with_node(&mut e, 0xAB12, "kitchen", 0);
    let before = (e.next_req, e.seq, e.pending_mgmt.len());
    let out = e.handle(shell_in("tower/nodes/0x0000ab12/shell/req", "s", "/x"));
    let (req_id, _) = out.iter().find_map(sent_op).unwrap();
    assert_eq!(req_id, before.0);
    e.handle(Input::EncodeFailed { req_id, envelope: true });
    assert_eq!((e.next_req, e.seq, e.pending_mgmt.len()), before);
    // Where another request was made since, its numbers stay.
    let out = e.handle(shell_in("tower/nodes/0x0000ab12/shell/req", "s", "/x"));
    let (req_id, _) = out.iter().find_map(sent_op).unwrap();
    e.handle(rpc_in("z", "describe", RpcParams::none()));
    e.handle(Input::EncodeFailed { req_id, envelope: true });
    assert_eq!(e.next_req, before.0 + 2);
    // A frame that cannot be encoded has used up its numbers.
    let out = e.handle(rpc_in("z", "describe", RpcParams::none()));
    let (req_id, _) = out.iter().find_map(sent_op).unwrap();
    e.handle(Input::EncodeFailed { req_id, envelope: false });
    assert_eq!(e.next_req, before.0 + 3);
}

/// Listing the same nodes again changes nothing and clears nothing.
#[test]
fn relisting_is_stable() {
    let mut e = engine();
    with_node(&mut e, 0xAB12, "kitchen", 0);
    e.nodes[0].kind = "push-button".to_string();
    let list = |e: &mut Engine, data: &[u8]| {
        let mut out = Vec::new();
        e.issue(&mut out, OpKind::NodeList, MgmtOp::NodeList, None);
        let (req_id, _) = out.iter().find_map(sent_op).unwrap();
        reply(e, req_id, wire().mgmt_ok, data)
    };
    let mut data = node_entry_record(0xAB12, "kitchen", 0);
    data.extend(node_entry_record(0xAB13, "hall", 0));
    list(&mut e, &data);
    let kinds: Vec<String> = e.nodes.iter().map(|n| n.kind.clone()).collect();
    let out = list(&mut e, &data);
    assert_eq!(e.nodes.iter().map(|n| n.kind.clone()).collect::<Vec<_>>(), kinds);
    assert_eq!(kinds, vec!["push-button", ""]);
    assert!(!out
        .iter()
        .any(|o| matches!(o, Output::Publish { payload, .. } if payload.is_empty())));
}

#[test]
fn long_lines_and_unknown_nodes_are_refused() {
    let mut e = engine();
    with_node(&mut e, 0xAB12, "kitchen", 0);
    let out = e.handle(shell_in("tower/nodes/0x0000ab12/shell/req", "s", &"x".repeat(49)));
    let rsp = json(publishes(&out, "tower/nodes/0x0000ab12/shell/rsp")[0]);
    assert_eq!(rsp["error"], "line too long for the radio MTU (max 48 bytes)");
    let out = e.handle(shell_in("tower/nodes/0x0000ab13/shell/req", "s", "/x"));
    let rsp = json(publishes(&out, "tower/nodes/0x0000ab13/shell/rsp")[0]);
    assert_eq!(rsp["error"], "unknown node");
    assert_eq!(e.next_cmd, 1);
}

#[test]
fn queued_command_expires_or_times_out() {
    let mut e = engine();
    with_node(&mut e, 0xAB12, "kitchen", 0);
    for (n, item) in [("a", 4u16), ("b", 5u16)] {
        let out = e.handle(shell_in("tower/nodes/0x0000ab12/shell/req", n, "/x"));
        let (req_id, _) = out.iter().find_map(sent_op).unwrap();
        let _ = reply(&mut e, req_id, wire().mgmt_ok, &queue_id(item));
    }
    let tx = |item: u16, outcome: u8| {
        Input::SerialFrame(SerialMsg::Stat(RadioStat::Tx {
            dest: 0xAB12,
            item,
            outcome,
            ack_rssi_dbm: None,
        }))
    };
    let out = e.handle(tx(4, wire().tx_expired));
    let rsp = json(publishes(&out, "tower/nodes/0x0000ab12/shell/rsp")[0]);
    assert_eq!((rsp["id"].as_str(), rsp["error"].as_str()), (Some("a"), Some("queue TTL expired before delivery")));
    let _ = e.handle(tx(5, wire().tx_delivered));
    let mut told = 0;
    for _ in 0..31 {
        let out = e.handle(Input::Tick);
        for raw in publishes(&out, "tower/nodes/0x0000ab12/shell/rsp") {
            assert_eq!(json(raw)["error"], "delivered but no reply from the node");
            told += 1;
        }
    }
    assert_eq!(told, 1);
    assert!(e.nodes[0].pending.is_empty());
}

#[test]
fn gap_between_chunks_marks_the_dialog() {
    let mut e = engine();
    with_node(&mut e, 0xAB12, "kitchen", 0);
    let out = e.handle(shell_in("tower/nodes/0x0000ab12/shell/req", "u", "/x"));
    let (req_id, _) = out.iter().find_map(sent_op).unwrap();
    let _ = reply(&mut e, req_id, wire().mgmt_ok, &queue_id(1));
    let chunk = |chunk: u16, last: bool| {
        uplink(
            0xAB12,
            1,
            -60,
            NodeMsg::Shell(NodeShellChunk {
                cmd_id: 1,
                result: 0,
                chunk,
                last,
                text: "t".to_string(),
            }),
        )
    };
    let flags: Vec<Value> = [chunk(0, false), chunk(2, false), chunk(3, true)]
        .into_iter()
        .map(|c| {
            let out = e.handle(c);
            json(publishes(&out, "tower/nodes/0x0000ab12/shell/rsp")[0])["truncated"].clone()
        })
        .collect();
    assert_eq!(flags, vec![Value::Bool(false), Value::Bool(true), Value::Bool(true)]);
    assert!(e.nodes[0].pending.is_empty());
}

#[test]
fn relisting_keeps_kind_and_queue_and_clears_the_gone() {
    let mut e = engine();
    with_node(&mut e, 0xAB12, "kitchen", 0);
    e.nodes[0].kind = "push-button".to_string();
    e.nodes[0].pending.push(PendingShell {
        item: 1,
        rpc: "u".to_string(),
        line: "/x".to_string(),
        cmd_id: 9,
        delivered_tick: None,
        next_chunk: 0,
        truncated: false,
    });
    let mut out = Vec::new();
    e.issue(&mut out, OpKind::NodeList, MgmtOp::NodeList, None);
    let (req_id, _) = out.iter().find_map(sent_op).unwrap();
    let mut data = node_entry_record(0xAB12, "kitchen", 0);
    data.extend(node_entry_record(0xAB13, "hall", 0));
    let _ = reply(&mut e, req_id, wire().mgmt_ok, &data);
    assert_eq!(e.nodes.len(), 2);
    assert_eq!(e.nodes[0].kind, "push-button");
    assert_eq!(e.nodes[0].pending.len(), 1);
    let mut out = Vec::new();
    e.issue(&mut out, OpKind::NodeList, MgmtOp::NodeList, None);
    let (req_id, _) = out.iter().find_map(sent_op).unwrap();
    let out = reply(&mut e, req_id, wire().mgmt_ok, &node_entry_record(0xAB12, "kitchen", 0));
    assert_eq!(publishes(&out, "tower/nodes/0x0000ab13"), vec![b"".as_slice()]);
    assert_eq!(e.nodes[0].pending.len(), 1);
}

#[test]
fn removed_node_clears_its_topics() {
    let mut e = engine();
    with_node(&mut e, 0xAB12, "kitchen", 0);
    let mut p = RpcParams::none();
    p.node = Some("kitchen".to_string());
    let out = e.handle(rpc_in("r", "node_remove", p));
    let (req_id, _) = out.iter().find_map(sent_op).unwrap();
    let out = reply(&mut e, req_id, wire().mgmt_ok, &[]);
    for t in ["", "/measure/temperature", "/shell/pending"] {
        assert_eq!(publishes(&out, &format!("tower/nodes/0x0000ab12{t}")), vec![b"".as_slice()]);
    }
    assert!(e.nodes.is_empty());
    assert_eq!(json(publishes(&out, "tower/gateway/rsp/r")[0])["ok"], true);
}

#[test]
fn dequeued_command_fails_and_the_device_is_told() {
    let mut e = engine();
    with_node(&mut e, 0xAB12, "kitchen", 0);
    let out = e.handle(shell_in("tower/nodes/0x0000ab12/shell/req", "u", "/x"));
    let (req_id, _) = out.iter().find_map(sent_op).unwrap();
    let _ = reply(&mut e, req_id, wire().mgmt_ok, &queue_id(12));
    let mut p = RpcParams::none();
    p.node = Some("kitchen".to_string());
    p.item = Some(12);
    let out = e.handle(rpc_in("d", "queue_drop", p));
    let rsp = json(publishes(&out, "tower/nodes/0x0000ab12/shell/rsp")[0]);
    assert_eq!(rsp["error"], "dequeued");
    match out.last().unwrap() {
        Output::SerialSend { op, .. } => {
            assert_eq!(*op, MgmtOp::QueueDrop { node: 0xAB12, item: Some(12) });
        }
        other => panic!("expected a request, got {other:?}"),
    }
}

#[test]
fn queue_listing_is_passed_on() {
    let mut e = engine();
    with_node(&mut e, 0xAB12, "kitchen", 0);
    let mut p = RpcParams::none();
    p.node = Some("kitchen".to_string());
    let out = e.handle(rpc_in("l", "queue_list", p));
    let (req_id, op) = out.iter().find_map(sent_op).unwrap();
    assert!(op.contains("QueueList"));
    let rsp_to = |e: &mut Engine, data: &[u8]| {
        let out = reply(e, req_id, wire().mgmt_ok, data);
        json(publishes(&out, "tower/gateway/rsp/l")[0])
    };
    let rsp = rsp_to(&mut e, &[]);
    assert_eq!(rsp["ok"], true);
    assert_eq!(rsp["data"].as_array().map(|a| a.len()), Some(0));
}

#[test]
fn temperature_and_motion_are_published() {
    let mut e = engine();
    with_node(&mut e, 0xAB12, "kitchen", 0);
    let out = e.step(uplink(0xAB12, 1, -60, NodeMsg::Temperature { millic: 21_625 }), 17, None);
    let raw = publishes(&out, "tower/nodes/0x0000ab12/measure/temperature");
    assert_eq!(json(raw[0])["celsius"].as_f64(), Some(21.625));
    let out = e.step(
        uplink(0xAB12, 2, -60, NodeMsg::Accel { kind: AccelKind::Orientation, face: 3 }),
        17,
        None,
    );
    let raw = publishes(&out, "tower/nodes/0x0000ab12/event/accel");
    assert_eq!(json(raw[0])["event"], "orientation");
    assert_eq!(json(raw[0])["ts"], 17);
}

#[test]
fn links_are_reported() {
    let mut e = engine();
    let out = e.handle(Input::SerialDown { error: "gone".to_string() });
    let status = json(publishes(&out, "tower/gateway/status")[0]);
    assert_eq!((status["state"].as_str(), status["serial_up"].as_bool()), (Some("degraded"), Some(false)));
    assert!(matches!(&out[2], Output::Event(Event::Log(l)) if l == "serial lost: gone"));
    let out = e.handle(Input::SerialUp);
    let status = json(publishes(&out, "tower/gateway/status")[0]);
    assert_eq!(status["state"], "online");
    let out = e.handle(Input::MqttDown { error: "eof".to_string() });
    assert!(matches!(&out[1], Output::Event(Event::Log(l)) if l == "mqtt lost: eof"));
}

#[test]
fn stats_come_every_ten_ticks() {
    let mut e = engine();
    let mut n = 0;
    for _ in 0..30 {
        let out = e.handle(Input::Tick);
        n += publishes(&out, "tower/gateway/stats").len();
    }
    assert_eq!(n, 3);
}

#[test]
fn bad_payloads_are_logged() {
    let mut e = engine();
    let out = e.handle(Input::MqttIn {
        topic: "tower/gateway/cmd".to_string(),
        rpc: Err("expected value at line 1 column 1".to_string()),
        shell: Err("x".to_string()),
    });
    assert!(matches!(&out[0], Output::Event(Event::Log(l))
        if l == "bad RPC payload: expected value at line 1 column 1"));
    let out = e.handle(Input::MqttIn {
        topic: "tower/nodes/0x0000ab12/shell/req".to_string(),
        rpc: Err("x".to_string()),
        shell: Err("EOF".to_string()),
    });
    assert!(matches!(&out[0], Output::Event(Event::Log(l)) if l == "bad shell request: EOF"));
}

fn mirror(name: &str) -> NodeMirror {
    NodeMirror {
        entry: NodeEntry {
            id: 1,
            name: name.to_string(),
            flags: 0,
            last_seen_s: 0,
            rssi_dbm: 0,
            uplinks: 0,
            queued: 0,
        },
        kind: String::new(),
        session_id: None,
        pending: Vec::new(),
    }
}

#[test]
fn automatic_names_take_the_smallest_free_number() {
    assert_eq!(kind_of("radio_push_button"), "push-button");
    assert_eq!(kind_of("thermo_x"), "thermo-x");
    assert_eq!(auto_name(&vec![], "push-button"), "push-button:0");
    let nodes = vec![mirror("push-button:0"), mirror("push-button:2"), mirror("kitchen")];
    assert_eq!(auto_name(&nodes, "push-button"), "push-button:1");
}

#[test]
fn request_ids_skip_zero() {
    let mut e = engine();
    e.next_req = u16::MAX;
    let mut out = Vec::new();
    e.issue(&mut out, OpKind::NodeList, MgmtOp::NodeList, None);
    e.issue(&mut out, OpKind::NodeList, MgmtOp::NodeList, None);
    let ids: Vec<u16> = out.iter().filter_map(sent_op).map(|(id, _)| id).collect();
    assert_eq!(ids, vec![u16::MAX, 1]);
}

#[test]
fn node_payloads_hide_what_was_never_seen() {
    let mut e = engine();
    let mut n = mirror("a");
    n.entry.last_seen_s = u32::MAX;
    n.entry.rssi_dbm = i8::MAX;
    e.nodes.push(n);
    let payloads = e.node_payloads();
    assert_eq!((payloads[0].last_seen_s, payloads[0].rssi_dbm), (None, None));
}

#[test]
fn clock_and_keys_come_from_the_host() {
    assert_eq!(ts_of(Some(5)), 5);
    assert_eq!(ts_of(None), 0);
    // 2020 has gone by.
    assert!(now_ts() > 1_577_836_800);
    let a = mint_key().unwrap();
    let b = mint_key().unwrap();
    assert_ne!(a, b);
}

#[test]
fn describe_reply_updates_the_gateway() {
    let mut e = engine();
    let out = e.handle(rpc_in("z", "describe", RpcParams::none()));
    let (req_id, _) = out.iter().find_map(sent_op).unwrap();
    let info = (0u32, 1u8, 0xCD34u32, 0u8, 0u8, 32u8, 2u8, true, 1u32, "radio_dongle_gateway");
    let out = reply(&mut e, req_id, wire().mgmt_ok, &postcard::to_stdvec(&info).unwrap());
    assert_eq!(json(publishes(&out, "tower/gateway/rsp/z")[0])["data"]["gateway"], "0x0000cd34");
    assert_eq!(json(publishes(&out, "tower/gateway/status")[0])["gateway"], "0x0000cd34");
    assert_eq!(e.describe.net_id, 0xCD34);
}

#[test]
fn responses_carry_their_data() {
    // A response without data has no such member.
    let mut e = engine();
    let out = e.handle(rpc_in("s", "stats_config", RpcParams::none()));
    match &out[0] {
        Output::SerialSend { op, .. } => {
            assert_eq!(*op, MgmtOp::StatsConfig { channel_period_ms: 1000 });
        }
        other => panic!("expected a request, got {other:?}"),
    }
    let (req_id, _) = out.iter().find_map(sent_op).unwrap();
    let out = reply(&mut e, req_id, wire().mgmt_ok, &[]);
    let raw = publishes(&out, "tower/gateway/rsp/s");
    assert_eq!(raw[0], br#"{"id":"s","ok":true}"#);
}

/// The id of a queued line comes in one to three bytes, seven bits in each.
#[test]
fn queue_ids_of_every_size_are_read() {
    for (bytes, item) in [
        (vec![9u8], Some(9u16)),
        (vec![0x80, 0x01], Some(0x80)),
        (vec![0xff, 0xff, 0x03], Some(0xffff)),
        (vec![0xff, 0xff, 0x03, 0x55], Some(0xffff)),
        (vec![0xff, 0xff, 0x04], None),
        (vec![0x80, 0x80, 0x80, 0x00], None),
        (vec![0x80], None),
        (vec![], None),
    ] {
        let mut e = engine();
        with_node(&mut e, 0xAB12, "kitchen", 0);
        let out = e.handle(shell_in("tower/nodes/0x0000ab12/shell/req", "s", "/x"));
        let (req_id, _) = out.iter().find_map(sent_op).unwrap();
        let _ = reply(&mut e, req_id, wire().mgmt_ok, &bytes);
        assert_eq!(e.nodes[0].pending.first().map(|p| p.item), item, "{bytes:?}");
    }
}

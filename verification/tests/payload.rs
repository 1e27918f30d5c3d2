//! JSON payloads: names and order of the members are the public interface.

use tower_cli::payload::{
    pending_text, AccelEvent, ButtonEvent, Node, Pairing, PendingEntry, QueueRow, RadioRssi,
    RadioRx, RadioTx, RpcData, RpcParams, RpcRequest, RpcResponse, ShellReq, ShellRsp, Stats, Status, Temperature,
    UplinkDebug, SCHEMA,
};
use tower_cli::wire::{mgmt_error_str, tx_outcome_str, Wire};

fn wire() -> Wire {
    Wire {
        protocol_version: 3,
        radio_schema_version: 1,
        radio_shell_chunk: 48,
        max_node_name: 16,
        max_frame: 256,
        role_gateway: 0,
        role_node: 1,
        role_other: 2,
        flag_sleeping: 1,
        flag_unnamed: 2,
        last_seen_never: u32::MAX,
        rssi_none: i8::MAX,
        mgmt_ok: 0,
        mgmt_unsupported: 1,
        mgmt_bad_arg: 2,
        mgmt_not_found: 3,
        mgmt_full: 4,
        mgmt_busy: 5,
        mgmt_storage: 6,
        mgmt_timeout: 7,
        tx_delivered: 0,
        tx_not_delivered: 1,
        tx_busy: 2,
        tx_duty_limited: 3,
        tx_expired: 4,
    }
}

#[test]
fn golden_status() {
    let s = Status {
        state: "online".to_string(),
        schema: SCHEMA,
        gateway: "0x0000ab12".to_string(),
        firmware: "radio_dongle_gateway".to_string(),
        firmware_version: "v0.1.0".to_string(),
        session_id: 7,
        protocol: 3,
        serial_port: "/dev/ttyACM0".to_string(),
        serial_up: true,
    };
    assert_eq!(
        s.to_json(),
        r#"{"state":"online","schema":1,"gateway":"0x0000ab12","firmware":"radio_dongle_gateway","firmware_version":"v0.1.0","session_id":7,"protocol":3,"serial_port":"/dev/ttyACM0","serial_up":true}"#
    );
}

#[test]
fn golden_button_event() {
    let e = ButtonEvent { event: "click".to_string(), count: 42, counter: 1234, ts: 1_700_000_000 };
    assert_eq!(e.to_json(), r#"{"event":"click","count":42,"counter":1234,"ts":1700000000}"#);
}

fn kitchen() -> Node {
    Node {
        id: "0x0000ab12".to_string(),
        name: "kitchen".to_string(),
        kind: "push-button".to_string(),
        sleeping: true,
        unnamed: false,
        last_seen_s: Some(3),
        rssi_dbm: Some(-67),
        uplinks: 12,
        queued: 1,
    }
}

#[test]
fn golden_node() {
    assert_eq!(
        kitchen().to_json(),
        r#"{"id":"0x0000ab12","name":"kitchen","kind":"push-button","sleeping":true,"unnamed":false,"last_seen_s":3,"rssi_dbm":-67,"uplinks":12,"queued":1}"#
    );
}

#[test]
fn golden_shell_rsp() {
    let r = ShellRsp {
        id: "abc".to_string(),
        chunk: 0,
        text: "ok".to_string(),
        done: true,
        result: 0,
        truncated: false,
        error: None,
    };
    assert_eq!(
        r.to_json(),
        r#"{"id":"abc","chunk":0,"text":"ok","done":true,"result":0,"truncated":false}"#
    );
}

#[test]
fn rpc_roundtrip() {
    let req = RpcRequest {
        id: "u1".to_string(),
        op: "node_list".to_string(),
        params: RpcParams::none(),
    };
    assert_eq!(req.op, "node_list");
    assert!(req.params.node.is_none() && req.params.id.is_none() && req.params.name.is_none());

    let rsp = RpcResponse {
        id: "u1".to_string(),
        ok: false,
        error: Some("not found".to_string()),
        data: RpcData::Null,
    };
    assert_eq!(rsp.to_json(), r#"{"id":"u1","ok":false,"error":"not found"}"#);
}

#[test]
fn outcome_strings() {
    let w = wire();
    assert_eq!(tx_outcome_str(&w, w.tx_delivered), "delivered");
    assert_eq!(tx_outcome_str(&w, w.tx_expired), "expired");
    assert_eq!(mgmt_error_str(&w, w.mgmt_ok), None);
    assert!(mgmt_error_str(&w, w.mgmt_full).is_some());
}

#[test]
fn every_code_has_its_text() {
    let w = wire();
    assert_eq!(tx_outcome_str(&w, w.tx_not_delivered), "not-delivered");
    assert_eq!(tx_outcome_str(&w, w.tx_busy), "busy");
    assert_eq!(tx_outcome_str(&w, w.tx_duty_limited), "duty-limited");
    assert_eq!(tx_outcome_str(&w, 200), "error");
    assert_eq!(mgmt_error_str(&w, w.mgmt_timeout), Some("window expired"));
    assert_eq!(mgmt_error_str(&w, 200), Some("unknown device error"));
}

/// What `serde_json` makes of a text, and what the payloads hold.
#[test]
fn strings_are_quoted_as_serde_does() {
    for t in ["", "plain", "a\"b\\c\n\t", "\u{1}\u{7f}", "žluťoučký → π", "\u{2028}"] {
        let mut n = kitchen();
        n.name = t.to_string();
        let v: serde_json::Value = serde_json::from_str(&n.to_json()).unwrap();
        assert_eq!(v["name"], t);
        assert!(n.to_json().contains(&serde_json::to_string(t).unwrap()));
    }
}

/// A temperature is written as `serde_json` writes the quotient in floating point.
#[test]
fn temperatures_are_written_as_floats() {
    for millic in [0, 1, -1, 10, 100, 1000, -1000, 21_625, -4_050, 85_000, 99_999, 123_450, -40_000] {
        let t = Temperature { millic, ts: 5 };
        let celsius = millic as f64 / 1000.0;
        assert_eq!(
            t.to_json(),
            format!(
                "{{\"celsius\":{},\"millic\":{millic},\"ts\":5}}",
                serde_json::to_string(&celsius).unwrap()
            )
        );
    }
}

#[test]
fn other_payloads() {
    let a = AccelEvent { event: "motion".to_string(), face: 2, counter: 3, ts: 4 };
    assert_eq!(a.to_json(), r#"{"event":"motion","face":2,"counter":3,"ts":4}"#);
    let s = Stats { uptime_s: 1, nodes: 2, uplinks: 3, queued: 4, rssi_dbm: None, channel: Some(5) };
    assert_eq!(
        s.to_json(),
        r#"{"uptime_s":1,"nodes":2,"uplinks":3,"queued":4,"rssi_dbm":null,"channel":5}"#
    );
    let q = ShellReq { id: "x".to_string(), line: "/led on".to_string(), ttl_s: 60 };
    assert_eq!(q.to_json(), r#"{"id":"x","line":"/led on","ttl_s":60}"#);
    let p = Pairing { state: "idle".to_string(), remaining_s: None, joined: None };
    assert_eq!(p.to_json().starts_with(r#"{"state":"idle""#), true);
    let v: serde_json::Value = serde_json::from_str(&p.to_json()).unwrap();
    assert_eq!(v["state"], "idle");
    assert_eq!(
        pending_text(&vec![PendingEntry {
            item: 9,
            id: "u".to_string(),
            line: "/x".to_string()
        }]),
        r#"[{"ref":9,"id":"u","line":"/x"}]"#
    );
    assert_eq!(pending_text(&vec![]), "[]");
    assert_eq!(Status::offline(), r#"{"schema":1,"state":"offline"}"#);
}

#[test]
fn radio_payloads_are_json() {
    let r = RadioRssi { dbm: -98, channel: 4, ts: 1 };
    let v: serde_json::Value = serde_json::from_str(&r.to_json()).unwrap();
    assert_eq!(v["dbm"], -98);
    let r = RadioRx { src: "0x00000001".to_string(), rssi_dbm: -60, lqi: 30, len: 7, ts: 1 };
    let v: serde_json::Value = serde_json::from_str(&r.to_json()).unwrap();
    assert_eq!(v["lqi"], 30);
    let t = RadioTx {
        dest: "0x00000001".to_string(),
        item: 3,
        outcome: "delivered".to_string(),
        ack_rssi_dbm: None,
        ts: 1,
    };
    let v: serde_json::Value = serde_json::from_str(&t.to_json()).unwrap();
    assert_eq!(v["outcome"], "delivered");
    let u = UplinkDebug {
        counter: 1,
        rssi_dbm: -60,
        lqi: 2,
        len: 2,
        hex: "00ff".to_string(),
        ts: 3,
    };
    let v: serde_json::Value = serde_json::from_str(&u.to_json()).unwrap();
    assert_eq!(v["hex"], "00ff");
}

#[test]
fn response_data_is_json() {
    let data = |d: RpcData| {
        let r = RpcResponse { id: "u".to_string(), ok: true, error: None, data: d };
        let v: serde_json::Value = serde_json::from_str(&r.to_json()).unwrap();
        v["data"].clone()
    };
    assert_eq!(data(RpcData::Gateway("0x00000001".to_string()))["gateway"], "0x00000001");
    assert_eq!(data(RpcData::Nodes(vec![kitchen()]))[0]["name"], "kitchen");
    assert_eq!(data(RpcData::Joined(None))["joined"], serde_json::Value::Null);
    let rows = vec![QueueRow { node: "0x00000001".to_string(), item: 2, age_s: 3, ttl_s: 4 }];
    assert_eq!(data(RpcData::Queue(rows))[0]["ref"], 2);
}

/// Every character comes back out of the literal that was written for it.
#[test]
fn literals_say_their_texts() {
    let text: String = (0u32..0x300).filter_map(char::from_u32).chain(['\u{1f600}']).collect();
    let r = ShellRsp {
        id: "x".to_string(),
        chunk: 0,
        text: text.clone(),
        done: true,
        result: 0,
        truncated: false,
        error: None,
    };
    let v: serde_json::Value = serde_json::from_str(&r.to_json()).unwrap();
    assert_eq!(v["text"].as_str(), Some(text.as_str()));
    let r = ShellRsp { text: "\u{8}\u{c}\u{1}\u{1f}\u{7f}/".to_string(), ..r };
    assert!(r.to_json().contains("\"\\b\\f\\u0001\\u001f\u{7f}/\""));
}

#[test]
fn requests_are_written_with_their_parameters() {
    let mut r = RpcRequest {
        id: "u\"1".to_string(),
        op: "describe".to_string(),
        params: RpcParams::none(),
    };
    assert_eq!(r.to_json(), r#"{"id":"u\"1","op":"describe","params":null}"#);
    r.params.node = Some("0x0000ab12".to_string());
    assert_eq!(
        r.to_json(),
        r#"{"id":"u\"1","op":"describe","params":{"node":"0x0000ab12"}}"#
    );
    r.params = RpcParams {
        node: Some("n".to_string()),
        id: Some("i".to_string()),
        key: Some("k".to_string()),
        name: Some("a\nb".to_string()),
        sleeping: Some(true),
        window_s: Some(60),
        item: Some(7),
        period_ms: Some(u64::MAX),
    };
    let text = r#"{"id":"i","key":"k","name":"a\nb","node":"n","period_ms":18446744073709551615,"ref":7,"sleeping":true,"window_s":60}"#;
    assert_eq!(r.params.to_json(), text);
    // The same text that a JSON value with these members has.
    let v: serde_json::Value = serde_json::from_str(&r.to_json()).unwrap();
    assert_eq!(v.to_string(), r.to_json());
}

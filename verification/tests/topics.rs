//! Topics, prefixes and node addresses.

use tower_cli::topics::{
    classify, gateway_cmd, gateway_pairing, gateway_rsp, gateway_stats, gateway_status, node,
    node_accel, node_button, node_hex, node_of, node_shell_pending, node_shell_req, node_shell_rsp,
    node_temperature, node_uplink, normalize_prefix, parse_node_hex, radio_rssi, radio_rx, radio_tx,
    Inbound,
};

#[test]
fn prefix_normalization() {
    assert_eq!(normalize_prefix("tower"), "tower/");
    assert_eq!(normalize_prefix("tower/"), "tower/");
    assert_eq!(normalize_prefix("a/b"), "a/b/");
    assert_eq!(normalize_prefix(""), "");
    assert_eq!(normalize_prefix("/"), "");
}

#[test]
fn node_hex_roundtrip() {
    assert_eq!(node_hex(0xAB12), "0x0000ab12");
    assert_eq!(parse_node_hex("0x0000ab12"), Some(0xAB12));
    assert_eq!(parse_node_hex("0X0000AB12"), Some(0xAB12));
    assert_eq!(parse_node_hex("0xab12"), None, "must be 8 digits");
    assert_eq!(parse_node_hex("0000ab12"), None, "must carry 0x");
    assert_eq!(parse_node_hex("0x0000zz12"), None);
}

#[test]
fn topic_shapes() {
    let p = "tower/";
    assert_eq!(gateway_status(p), "tower/gateway/status");
    assert_eq!(node(p, 1), "tower/nodes/0x00000001");
    assert_eq!(node_shell_req(p, 0xAB), "tower/nodes/0x000000ab/shell/req");
    assert_eq!(gateway_rsp(p, "xyz"), "tower/gateway/rsp/xyz");
    // No prefix works too (empty prefix = broker root).
    assert_eq!(gateway_cmd(""), "gateway/cmd");
}

#[test]
fn node_of_extracts_the_node_topics_only() {
    let p = "tower/";
    assert_eq!(node_of(p, "tower/nodes/0x0000ab12"), Some(0xAB12));
    assert_eq!(node_of(p, "tower/nodes/0x0000ab12/event/button"), Some(0xAB12));
    assert_eq!(node_of(p, "tower/nodes/0x0000ab12/shell/req"), Some(0xAB12));
    assert_eq!(node_of(p, "tower/gateway/status"), None);
    assert_eq!(node_of(p, "tower/radio/rssi"), None);
    assert_eq!(node_of(p, "other/nodes/0x0000ab12"), None);
    assert_eq!(node_of(p, "tower/nodes/garbage"), None);
}

#[test]
fn classify_inbound() {
    let p = "tower/";
    assert_eq!(classify(p, "tower/gateway/cmd"), Inbound::Cmd);
    assert_eq!(classify(p, "tower/nodes/0x0000ab12/shell/req"), Inbound::ShellReq(0xAB12));
    assert_eq!(classify(p, "tower/nodes/0x0000ab12/shell/rsp"), Inbound::Other);
    assert_eq!(classify(p, "other/gateway/cmd"), Inbound::Other);
    assert_eq!(classify(p, "tower/nodes/garbage/shell/req"), Inbound::Other);
}

#[test]
fn addresses_are_strict() {
    assert_eq!(parse_node_hex("0x+000ab12"), None);
    assert_eq!(parse_node_hex("0x0000ab1"), None);
    assert_eq!(parse_node_hex("0x0000ab123"), None);
    assert_eq!(parse_node_hex(""), None);
    assert_eq!(parse_node_hex("0x0000äb1"), None);
    for a in [0, 1, 0xdead_beef, u32::MAX] {
        assert_eq!(parse_node_hex(&node_hex(a)), Some(a));
    }
}

#[test]
fn prefix_is_trimmed_on_both_sides() {
    assert_eq!(normalize_prefix("//a//b//"), "a//b/");
}

#[test]
fn every_topic_has_its_place() {
    let p = "x/";
    assert_eq!(gateway_stats(p), "x/gateway/stats");
    assert_eq!(gateway_pairing(p), "x/gateway/pairing");
    assert_eq!(node_button(p, 2), "x/nodes/0x00000002/event/button");
    assert_eq!(node_accel(p, 2), "x/nodes/0x00000002/event/accel");
    assert_eq!(node_temperature(p, 2), "x/nodes/0x00000002/measure/temperature");
    assert_eq!(node_uplink(p, 2), "x/nodes/0x00000002/uplink");
    assert_eq!(node_shell_rsp(p, 2), "x/nodes/0x00000002/shell/rsp");
    assert_eq!(node_shell_pending(p, 2), "x/nodes/0x00000002/shell/pending");
    assert_eq!(radio_rssi(p), "x/radio/rssi");
    assert_eq!(radio_rx(p), "x/radio/rx");
    assert_eq!(radio_tx(p), "x/radio/tx");
}

#[test]
fn own_publishes_come_back_as_nothing() {
    let p = "tower/";
    for t in [node(p, 5), node_shell_rsp(p, 5), node_shell_pending(p, 5), gateway_status(p)] {
        assert_eq!(classify(p, &t), Inbound::Other);
    }
    assert_eq!(node_of(p, &node_uplink(p, 5)), Some(5));
}

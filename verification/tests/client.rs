//! Client commands: connecting, requests, nodes, status and pairing over the cable.

use tower_cli::cable::{
    cable_rpc_id, no_answer, CableCall, CablePair, CableWorker, CallStep, GwParams, PairStep,
    WorkStep,
};
use tower_cli::client::{
    cli_client_id, connect_step, error_str, exit_of, is_retained, key_hex, request_id,
    resolve_node, rpc_ok, run, split_host_port, Answer, ClientError, Connecting, Incoming, MqttOpts,
    Reply, RpcCall, RpcEvent, RpcStep,
};
use tower_cli::commands::{
    EXIT_DEVICE_TIMEOUT, EXIT_ERROR, EXIT_OK, EXIT_PROTOCOL_MISMATCH, EXIT_WRONG_FIRMWARE,
};
use tower_cli::dashboard_time::CableMsg;
use tower_cli::mgmt::{DescribeOutcome, DeviceInfo, MgmtOp, MgmtOutcome, MgmtReply};
use tower_cli::net::{check_status, status, status_exit};
use tower_cli::nodes::{NodesCmd, NodesFlow, Show, ShellWatch, Stage, Step};
use tower_cli::payload::{
    Node, PendingEntry, RpcData, RpcParams, RpcResponse, ShellRsp, Stats, Status,
};
use tower_cli::render::Emit;
use tower_cli::wire::{DeviceRole, Wire};

fn wire() -> Wire {
    Wire {
        protocol_version: 3,
        radio_schema_version: 1,
        radio_shell_chunk: 48,
        max_node_name: 16,
        max_frame: 256,
        role_gateway: 0,
        role_node: 1,
        role_other: 2,
        flag_sleeping: 1,
        flag_unnamed: 2,
        last_seen_never: u32::MAX,
        rssi_none: i8::MAX,
        mgmt_ok: 0,
        mgmt_unsupported: 1,
        mgmt_bad_arg: 2,
        mgmt_not_found: 3,
        mgmt_full: 4,
        mgmt_busy: 5,
        mgmt_storage: 6,
        mgmt_timeout: 7,
        tx_delivered: 0,
        tx_not_delivered: 1,
        tx_busy: 2,
        tx_duty_limited: 3,
        tx_expired: 4,
    }
}

fn note(s: &str) -> Emit {
    Emit::Note(s.to_string())
}

fn text_line(s: &str) -> Show {
    Show::Emit(Emit::Line(s.to_string()))
}

#[test]
fn host_and_port() {
    let split = |s: &str| split_host_port(s);
    assert_eq!(split("host"), ("host".to_string(), 1883));
    assert_eq!(split("host:1884"), ("host".to_string(), 1884));
    assert_eq!(split("host:99999"), ("host".to_string(), 1883));
    assert_eq!(split("host:"), ("host:".to_string(), 1883));
    assert_eq!(split("host:x"), ("host:x".to_string(), 1883));
    assert_eq!(split("::1:1883"), ("::1".to_string(), 1883));
    assert_eq!(split("h:0007"), ("h".to_string(), 7));
    assert_eq!(split(""), ("".to_string(), 1883));
    assert_eq!(split("h:65535"), ("h".to_string(), 65535));
    assert_eq!(split("h:65536"), ("h".to_string(), 1883));
}

#[test]
fn options() {
    let o = MqttOpts {
        mqtt: "localhost:1883".to_string(),
        mqtt_user: None,
        mqtt_password: None,
        prefix: "/tower".to_string(),
        timeout: 5000,
    };
    assert_eq!(o.prefix(), "tower/");
    assert_eq!(o.timeout(), 5000);
    assert_eq!(cli_client_id(42), "tower-cli-42");
    assert_eq!(key_hex(&[0xab; 16]), "ab".repeat(16));
}

#[test]
fn connecting_fails_fast() {
    assert_eq!(connect_step("h", 1, &Incoming::ConnAck), Connecting::Ready);
    assert_eq!(connect_step("h", 1, &Incoming::Other), Connecting::Wait);
    assert_eq!(
        connect_step("h", 1, &Incoming::Lost("refused".to_string())),
        Connecting::Failed("broker h:1: refused".to_string())
    );
    assert_eq!(
        connect_step("h", 1, &Incoming::Quiet),
        Connecting::Failed("broker h:1: connect timeout".to_string())
    );
}

#[test]
fn errors_have_exit_codes() {
    assert_eq!(exit_of(&ClientError::Timeout), EXIT_DEVICE_TIMEOUT);
    assert_eq!(exit_of(&ClientError::TimeoutIn("x".to_string())), EXIT_DEVICE_TIMEOUT);
    assert_eq!(exit_of(&ClientError::Failed("x".to_string())), EXIT_ERROR);
    assert_eq!(
        run(&ClientError::Failed("boom".to_string())),
        (note("[tower] error: boom"), EXIT_ERROR)
    );
    assert_eq!(
        error_str(&ClientError::TimeoutIn("registering".to_string())),
        "registering: no gateway response (is `tower gateway` running against this broker?)"
    );
}

fn answer(id: &str, data: Reply) -> Answer {
    Answer { id: id.to_string(), ok: true, error: None, data }
}

fn refused(error: Option<&str>) -> Answer {
    Answer { id: "x".to_string(), ok: false, error: error.map(|e| e.to_string()), data: Reply::Empty }
}

#[test]
fn only_the_own_response_ends_a_call() {
    let (call, req) = RpcCall::new("tower/", "u-1".to_string(), "describe", RpcParams::none());
    assert_eq!(call.rsp_topic, "tower/gateway/rsp/u-1");
    assert_eq!(call.cmd_topic, "tower/gateway/cmd");
    assert_eq!((req.id.as_str(), req.op.as_str()), ("u-1", "describe"));
    let message = |topic: &str, a: Option<Answer>| {
        call.on(RpcEvent::Message { topic: topic.to_string(), answer: a })
    };
    assert_eq!(message("other", Some(answer("u-1", Reply::Empty))), RpcStep::Wait);
    assert_eq!(message("tower/gateway/rsp/u-1", None), RpcStep::Wait);
    assert_eq!(message("tower/gateway/rsp/u-1", Some(answer("u-2", Reply::Empty))), RpcStep::Wait);
    assert_eq!(
        message("tower/gateway/rsp/u-1", Some(answer("u-1", Reply::Empty))),
        RpcStep::Done(answer("u-1", Reply::Empty))
    );
    assert_eq!(call.on(RpcEvent::Other), RpcStep::Wait);
    assert_eq!(call.on(RpcEvent::Quiet), RpcStep::Failed(ClientError::Timeout));
    assert_eq!(
        call.on(RpcEvent::Lost("eof".to_string())),
        RpcStep::Failed(ClientError::Failed("broker connection lost: eof".to_string()))
    );
    assert_eq!(rpc_ok(refused(None)), Err("gateway refused".to_string()));
    assert_eq!(rpc_ok(refused(Some("no"))), Err("no".to_string()));
    assert!(is_retained("a/b", "a/b") && !is_retained("a/b", "a"));
}

#[test]
fn request_ids_are_random_and_well_formed() {
    let a = request_id();
    let b = request_id();
    assert_ne!(a, b);
    for id in [&a, &b] {
        assert_eq!(id.len(), 36);
        for (i, c) in id.chars().enumerate() {
            match i {
                8 | 13 | 18 | 23 => assert_eq!(c, '-'),
                14 => assert_eq!(c, '4'),
                _ => assert!(c.is_ascii_hexdigit() && !c.is_ascii_uppercase()),
            }
        }
    }
    let (call, req) = RpcCall::start("t/", "node_list", RpcParams::none());
    assert_eq!(call.id, req.id);
    assert_eq!(call.rsp_topic, format!("t/gateway/rsp/{}", req.id));
}

fn node(id: &str, name: &str) -> Node {
    Node {
        id: id.to_string(),
        name: name.to_string(),
        kind: String::new(),
        sleeping: true,
        unnamed: false,
        last_seen_s: Some(3),
        rssi_dbm: Some(-67),
        uplinks: 12,
        queued: 1,
    }
}

#[test]
fn names_are_resolved() {
    let nodes = vec![node("0x00000001", "hall"), node("0x00000002", ""), node("0x00000003", "hall")];
    assert_eq!(resolve_node(&nodes, "hall"), Ok(1));
    assert_eq!(
        resolve_node(&nodes, "cellar"),
        Err("no node named \"cellar\" (known: hall, 0x00000002, hall)".to_string())
    );
    // A row without a proper address is passed over.
    let nodes = vec![node("garbage", "hall"), node("0x00000003", "hall")];
    assert_eq!(resolve_node(&nodes, "hall"), Ok(3));
}

fn flow(cmd: NodesCmd) -> NodesFlow {
    NodesFlow::new(cmd, "tower/".to_string(), 5000)
}

fn rpc_of(step: &Step) -> (&str, &RpcParams, u64) {
    match step {
        Step::Rpc { op, params, timeout_ms } => (op.as_str(), params, *timeout_ms),
        other => panic!("expected a request, got {other:?}"),
    }
}

#[test]
fn nodes_are_listed_in_a_table() {
    let mut f = flow(NodesCmd::List { json: false });
    let t = f.start();
    assert_eq!(rpc_of(&t.step).0, "node_list");
    let t = f.on_answer(answer("x", Reply::Nodes(Ok(vec![node("0x00000001", "")]))));
    assert_eq!(t.step, Step::Exit(EXIT_OK));
    assert_eq!(
        t.out,
        vec![
            text_line(
                "ADDR         NAME             TYPE         LAST-SEEN   RSSI  UPLINKS  PEND SLEEP"
            ),
            text_line(
                "0x00000001   —                ?                   3s -67dBm       12     1 yes  "
            ),
        ]
    );
    let mut f = flow(NodesCmd::List { json: false });
    f.start();
    let t = f.on_answer(answer("x", Reply::Nodes(Ok(vec![]))));
    assert_eq!(
        t.out,
        vec![text_line("no nodes paired (try `tower nodes add --ota` or `--port <SERIAL>`)")]
    );
    let mut f = flow(NodesCmd::List { json: true });
    f.start();
    let t = f.on_answer(answer("x", Reply::Nodes(Ok(vec![]))));
    assert_eq!(t.out, vec![Show::NodesJson(vec![])]);
}

#[test]
fn names_are_looked_up_before_the_change() {
    let mut f = flow(NodesCmd::Remove { node: "hall".to_string() });
    let t = f.start();
    assert_eq!(rpc_of(&t.step).0, "node_list");
    assert_eq!(f.stage, Stage::Resolving);
    let t = f.on_answer(answer("x", Reply::Nodes(Ok(vec![node("0x00000001", "hall")]))));
    let (op, params, _) = rpc_of(&t.step);
    assert_eq!((op, params.node.as_deref()), ("node_remove", Some("0x00000001")));
    let t = f.on_answer(answer("x", Reply::Empty));
    assert_eq!((t.out, t.step), (vec![text_line("removed 0x00000001")], Step::Exit(EXIT_OK)));
}

#[test]
fn refusals_end_the_command() {
    let mut f = flow(NodesCmd::Remove { node: "0x00000001".to_string() });
    let t = f.start();
    assert_eq!(rpc_of(&t.step).0, "node_remove");
    let t = f.on_answer(refused(Some("not found")));
    assert_eq!(t.step, Step::Failed(ClientError::Failed("not found".to_string())));
    let mut f = flow(NodesCmd::Remove { node: "hall".to_string() });
    f.start();
    let t = f.on_answer(answer("x", Reply::Nodes(Ok(vec![]))));
    assert_eq!(
        t.step,
        Step::Failed(ClientError::Failed("no node named \"hall\" (known: )".to_string()))
    );
    let t = f.on_error(ClientError::Timeout);
    assert_eq!(t.step, Step::Failed(ClientError::Timeout));
}

#[test]
fn rename_and_dequeue() {
    let mut f = flow(NodesCmd::Rename { node: "0x00000001".to_string(), name: "hall".to_string() });
    let t = f.start();
    assert_eq!(rpc_of(&t.step).1.name.as_deref(), Some("hall"));
    let t = f.on_answer(answer("x", Reply::Empty));
    assert_eq!(t.out, vec![text_line("renamed 0x00000001 to \"hall\"")]);
    let mut f = flow(NodesCmd::Dequeue { node: "0x00000001".to_string(), item: 9 });
    let t = f.start();
    assert_eq!((rpc_of(&t.step).0, rpc_of(&t.step).1.item), ("queue_drop", Some(9)));
    let t = f.on_answer(answer("x", Reply::Empty));
    assert_eq!(t.out, vec![text_line("dequeued #9")]);
}

#[test]
fn key_is_shown_only_on_request() {
    let show = |keys: bool, json: bool| NodesCmd::Show {
        node: "0x00000001".to_string(),
        keys,
        json,
    };
    let listed = || answer("x", Reply::Nodes(Ok(vec![node("0x00000001", "hall")])));
    let mut f = flow(show(false, false));
    f.start();
    let t = f.on_answer(listed());
    assert_eq!((t.out.len(), t.step), (2, Step::Exit(EXIT_OK)));
    let mut f = flow(show(true, false));
    f.start();
    let t = f.on_answer(listed());
    assert_eq!(rpc_of(&t.step).0, "reveal_key");
    let t = f.on_answer(answer("x", Reply::Key(Some("ab12".to_string()))));
    assert_eq!(t.out[3], text_line("key: ab12"));
    let mut f = flow(show(true, true));
    f.start();
    f.on_answer(listed());
    let t = f.on_answer(answer("x", Reply::Key(Some("ab12".to_string()))));
    assert_eq!(
        t.out,
        vec![Show::NodeJson { node: node("0x00000001", "hall"), key: Some("ab12".to_string()) }]
    );
    let mut f = flow(show(false, false));
    f.start();
    let t = f.on_answer(answer("x", Reply::Nodes(Ok(vec![]))));
    assert_eq!(
        t.step,
        Step::Failed(ClientError::Failed("node vanished from the registry".to_string()))
    );
}

#[test]
fn pairing_over_the_air() {
    let add = |ota: bool, port: Option<&str>, name: Option<&str>| NodesCmd::Add {
        ota,
        port: port.map(|p| p.to_string()),
        window: 60,
        name: name.map(|n| n.to_string()),
    };
    let mut f = flow(add(true, None, Some("hall")));
    let t = f.start();
    assert_eq!(
        t.out,
        vec![Show::Emit(note(
            "[tower] pairing window open for 60s — hold the node's button to join…"
        ))]
    );
    assert_eq!((rpc_of(&t.step).0, rpc_of(&t.step).2), ("node_add_ota", 70_000));
    let t = f.on_answer(answer("x", Reply::Joined(Some("0x00000007".to_string()))));
    assert_eq!(t.out, vec![text_line("paired 0x00000007")]);
    assert_eq!((rpc_of(&t.step).0, rpc_of(&t.step).2), ("node_rename", 5000));
    let t = f.on_answer(answer("x", Reply::Empty));
    assert_eq!((t.out, t.step), (vec![text_line("named \"hall\"")], Step::Exit(EXIT_OK)));
    let mut f = flow(add(true, None, None));
    f.start();
    let t = f.on_answer(answer("x", Reply::Joined(None)));
    assert_eq!(
        (t.out, t.step),
        (
            vec![Show::Emit(note("[tower] window expired — no node joined"))],
            Step::Exit(EXIT_ERROR)
        )
    );
    assert_eq!(flow(add(false, Some("/dev/x"), None)).start().step, Step::Cable {
        port: "/dev/x".to_string()
    });
    assert_eq!(
        flow(add(false, None, None)).start().step,
        Step::Failed(ClientError::Failed("pick a pairing path: --ota or --port <SERIAL>".to_string()))
    );
}

#[test]
fn queue_is_read_from_its_retained_topic() {
    let pending = |json: bool| NodesCmd::Pending { node: "0x00000001".to_string(), json };
    let mut f = flow(pending(false));
    assert_eq!(
        f.start().step,
        Step::Retained { topic: "tower/nodes/0x00000001/shell/pending".to_string() }
    );
    let entry = || PendingEntry { item: 9, id: "u".to_string(), line: "/x".to_string() };
    let t = f.on_retained(vec![entry()]);
    assert_eq!(t.out[0], text_line(&format!("{:<6} {:<38} LINE", "REF", "ID")));
    assert_eq!(t.out[1], text_line(&format!("{:<6} {:<38} /x", 9, "u")));
    let mut f = flow(pending(false));
    f.start();
    assert_eq!(f.on_retained(vec![]).out, vec![text_line("no queued commands")]);
    let mut f = flow(pending(true));
    f.start();
    assert_eq!(f.on_retained(vec![entry()]).out, vec![Show::PendingJson(vec![entry()])]);
}

fn chunk(id: &str, text: &str, done: bool, result: u8, truncated: bool) -> ShellRsp {
    ShellRsp {
        id: id.to_string(),
        chunk: 0,
        text: text.to_string(),
        done,
        result,
        truncated,
        error: None,
    }
}

#[test]
fn remote_shell_is_watched() {
    let mut f = flow(NodesCmd::Shell {
        node: "0x00000001".to_string(),
        line: "/x".to_string(),
        ttl: 0,
        timeout: 1000,
        no_wait: false,
    });
    assert_eq!(f.start().step, Step::Shell { node: 1 });
    let s = ShellWatch::new("tower/", 1, "u".to_string(), "/x".to_string(), 5, false);
    assert_eq!(s.req_topic, "tower/nodes/0x00000001/shell/req");
    assert_eq!((s.req.line.as_str(), s.req.ttl_s, s.code), ("/x", 5, None));
    let mut w = s.watch;
    let topic = "tower/nodes/0x00000001/shell/rsp";
    assert_eq!(w.on_message("other", Some(chunk("u", "x", true, 0, false))), (vec![], None));
    assert_eq!(w.on_message(topic, Some(chunk("v", "x", true, 0, false))), (vec![], None));
    assert_eq!(w.on_message(topic, None), (vec![], None));
    let (out, code) = w.on_message(topic, Some(chunk("u", "a", false, 0, true)));
    assert_eq!(out.len(), 2);
    assert_eq!(code, None);
    // A lost chunk fails the command although the device succeeded.
    let (out, code) = w.on_message(topic, Some(chunk("u", "b", true, 0, false)));
    assert_eq!((out, code), (vec![Emit::Text("b".to_string())], Some(1)));
    let mut w = ShellWatch::start("tower/", 1, "/x".to_string(), 0, false).watch;
    let id = w.req_id.clone();
    // Silence is told apart from an answer that begins and never ends.
    assert_eq!(
        w.expired(),
        (
            note("[tower] no reply within the wait window (the command stays queued)"),
            EXIT_DEVICE_TIMEOUT
        )
    );
    assert_eq!(w.on_message(topic, Some(chunk("v", "x", false, 0, false))).1, None);
    assert_eq!(w.expired().1, EXIT_DEVICE_TIMEOUT);
    assert_eq!(w.on_message(topic, Some(chunk(&id, "x", false, 0, false))).1, None);
    assert_eq!(w.expired(), (note("[tower] response incomplete"), EXIT_ERROR));
    assert_eq!(w.on_message(topic, Some(chunk(&id, "", true, 200, false))).1, Some(123));
    let mut e = chunk(&id, "", true, 0, false);
    e.error = Some("unknown node".to_string());
    assert_eq!(w.on_message(topic, Some(e)), (vec![note("[tower] unknown node")], Some(1)));
    let s = ShellWatch::start("tower/", 1, "/x".to_string(), 0, true);
    assert_eq!(s.code, Some(EXIT_OK));
    assert_eq!(
        s.out,
        vec![Emit::Line(
            "queued for 0x00000001 (reply will publish on tower/nodes/0x00000001/shell/rsp)"
                .to_string()
        )]
    );
}

// ---- status --------------------------------------------------------------------

fn gateway_status(state: &str, schema: u32) -> Status {
    Status {
        state: state.to_string(),
        schema,
        gateway: "0x00000001".to_string(),
        firmware: "fw".to_string(),
        firmware_version: "v1".to_string(),
        session_id: 1,
        protocol: 3,
        serial_port: "/dev/x".to_string(),
        serial_up: true,
    }
}

#[test]
fn status_is_reported() {
    assert_eq!(check_status("t/", &None).unwrap().1, EXIT_ERROR);
    let (_, code) = check_status("t/", &Some(gateway_status("online", 2))).unwrap();
    assert_eq!(code, EXIT_PROTOCOL_MISMATCH);
    let s = gateway_status("online", 1);
    assert!(check_status("t/", &Some(gateway_status("online", 1))).is_none());
    let stats = Stats {
        uptime_s: 1,
        nodes: 2,
        uplinks: 3,
        queued: 4,
        rssi_dbm: Some(-90),
        channel: Some(5),
    };
    let lines: Vec<Emit> = [
        "gateway:  0x00000001 (fw v1)",
        "state:    online (serial up on /dev/x)",
        "protocol: v3 · mqtt schema v1",
        "network:  2 node(s), 3 uplink(s), 4 queued downlink(s)",
        "radio:    ch 5 ambient -90 dBm",
    ]
    .iter()
    .map(|l| Emit::Line(l.to_string()))
    .collect();
    assert_eq!(status(&s, &Some(stats)), lines);
    assert_eq!(status_exit(&s), EXIT_OK);
    let off = gateway_status("offline", 1);
    assert_eq!(status_exit(&off), EXIT_ERROR);
    assert_eq!(status(&off, &None).len(), 2);
}

// ---- pairing over the cable ----------------------------------------------------

fn info(role: DeviceRole, provisioned: bool) -> DescribeOutcome {
    DescribeOutcome::Info(DeviceInfo {
        role,
        radio_schema_version: 1,
        net_id: 0xAB12,
        band: 0,
        channel: 0,
        node_capacity: 0,
        node_count: 0,
        provisioned,
        gw_id: 0,
        firmware_name: "radio_push_button".to_string(),
    })
}

fn reply(result: u8) -> MgmtOutcome {
    MgmtOutcome::Reply(MgmtReply { result, data: vec![], truncated: false })
}

fn described() -> Answer {
    answer(
        "x",
        Reply::Gateway {
            gateway: Some("0x00000001".to_string()),
            band: Some(2),
            channel: Some(259),
        },
    )
}

fn key() -> Result<[u8; 16], String> {
    Ok([0x5a; 16])
}

/// A pairing that has got as far as the credentials.
fn registered(name: Option<&str>) -> CablePair {
    let (mut p, t) = CablePair::start("/dev/x".to_string(), name.map(|n| n.to_string()));
    assert_eq!(t.out, vec![note("[tower] probing /dev/x…")]);
    let t = p.on_described(&wire(), info(DeviceRole::Node, true));
    assert_eq!(
        t.out,
        vec![note(
            "[tower] node 0x0000ab12 (\"radio_push_button\") — already provisioned, re-pairing"
        )]
    );
    let t = p.on_answer(described(), key());
    match t.step {
        PairStep::Rpc { op, params } => {
            assert_eq!(op, "node_add");
            assert_eq!(params.id.as_deref(), Some("0x0000ab12"));
            assert_eq!(params.key.as_deref(), Some("5a".repeat(16).as_str()));
            assert_eq!(params.name.as_deref(), Some(name.unwrap_or("")));
            assert_eq!(params.sleeping, Some(true));
        }
        other => panic!("expected a request, got {other:?}"),
    }
    let t = p.on_answer(answer("x", Reply::Empty), Err("unused".to_string()));
    assert_eq!(
        t.step,
        PairStep::Provision(MgmtOp::Provision { gw_id: 1, key: [0x5a; 16], band: 2, channel: 3 })
    );
    p
}

#[test]
fn cable_pairing_succeeds() {
    let mut p = registered(Some("hall"));
    let t = p.on_provisioned(&wire(), reply(0));
    assert_eq!(t.step, PairStep::Exit(EXIT_OK));
    assert_eq!(
        t.out[0],
        Emit::Line("paired 0x0000ab12 → gateway 0x00000001 as \"hall\"".to_string())
    );
}

#[test]
fn refused_provisioning_is_rolled_back() {
    let mut p = registered(None);
    let t = p.on_provisioned(&wire(), reply(6));
    match t.step {
        PairStep::Rpc { op, params } => {
            assert_eq!((op.as_str(), params.node.as_deref()), ("node_remove", Some("0x0000ab12")));
        }
        other => panic!("expected a request, got {other:?}"),
    }
    let t = p.on_answer(refused(None), key());
    assert_eq!(
        t.step,
        PairStep::Failed(ClientError::Failed(
            "node refused provisioning (device storage error) — gateway registration rolled back"
                .to_string()
        ))
    );
    let mut p = registered(None);
    p.on_provisioned(&wire(), MgmtOutcome::Timeout { bad_version: None });
    let t = p.on_error(ClientError::Timeout);
    assert_eq!(
        t.step,
        PairStep::Failed(ClientError::Failed(
            "node did not ack provisioning — gateway registration rolled back".to_string()
        ))
    );
}

#[test]
fn wrong_devices_are_not_paired() {
    let probe = |o: DescribeOutcome| {
        let (mut p, _) = CablePair::start("/dev/x".to_string(), None);
        p.on_described(&wire(), o).step
    };
    assert_eq!(probe(info(DeviceRole::Gateway, true)), PairStep::Exit(EXIT_WRONG_FIRMWARE));
    assert_eq!(probe(DescribeOutcome::Refused(1)), PairStep::Exit(EXIT_WRONG_FIRMWARE));
    assert_eq!(
        probe(DescribeOutcome::Timeout { bad_version: Some(1) }),
        PairStep::Exit(EXIT_PROTOCOL_MISMATCH)
    );
    assert_eq!(
        probe(DescribeOutcome::Timeout { bad_version: None }),
        PairStep::Exit(EXIT_DEVICE_TIMEOUT)
    );
}

#[test]
fn registration_failures_say_where() {
    let begin = || {
        let (mut p, _) = CablePair::start("/dev/x".to_string(), None);
        p.on_described(&wire(), info(DeviceRole::Node, false));
        p
    };
    let mut p = begin();
    let t = p.on_answer(answer("x", Reply::Empty), key());
    assert_eq!(
        t.step,
        PairStep::Failed(ClientError::Failed("gateway describe: missing id".to_string()))
    );
    let mut p = begin();
    let bad = Reply::Gateway { gateway: Some("1".to_string()), band: None, channel: None };
    let t = p.on_answer(answer("x", bad), key());
    assert_eq!(
        t.step,
        PairStep::Failed(ClientError::Failed("gateway describe: bad id".to_string()))
    );
    let mut p = begin();
    p.on_answer_minting(described());
    let t = p.on_answer(refused(Some("full")), key());
    assert_eq!(
        t.step,
        PairStep::Failed(ClientError::Failed("registering the node on the gateway: full".to_string()))
    );
    let mut p = begin();
    p.on_answer_minting(described());
    let t = p.on_error(ClientError::Timeout);
    assert_eq!(
        t.step,
        PairStep::Failed(ClientError::TimeoutIn("registering the node on the gateway".to_string()))
    );
}

#[test]
fn worker_pairs_in_process() {
    let gw = GwParams { addr: 1, band: 0, channel: 4 };
    let (mut w, t) = CableWorker::start("/dev/x", gw);
    assert_eq!(t.out, vec![CableMsg::Progress("probing /dev/x…".to_string())]);
    let t = w.on_described(info(DeviceRole::Node, false), key());
    assert_eq!(t.out[1], CableMsg::Progress("registering on the gateway…".to_string()));
    assert!(matches!(&t.step, WorkStep::Rpc { op, .. } if op == "node_add"));
    let t = w.on_answer(true, None);
    assert_eq!(
        t.step,
        WorkStep::Provision(MgmtOp::Provision { gw_id: 1, key: [0x5a; 16], band: 0, channel: 4 })
    );
    let t = w.on_provisioned(&wire(), reply(0));
    assert_eq!((t.out, t.step), (vec![CableMsg::Done { addr: 0xAB12 }], WorkStep::Stop));
    assert_eq!(cable_rpc_id(3), "tui-cbl-3");
    assert_eq!(no_answer("node_add"), "gateway did not answer node_add");
}

#[test]
fn worker_rolls_back() {
    let gw = GwParams { addr: 1, band: 0, channel: 4 };
    let (mut w, _) = CableWorker::start("/dev/x", gw);
    w.on_described_minting(info(DeviceRole::Node, false));
    w.on_answer(true, None);
    let t = w.on_provisioned(&wire(), reply(4));
    assert!(matches!(&t.step, WorkStep::Rpc { op, params }
        if op == "node_remove" && params.node.as_deref() == Some("0x0000ab12")));
    let t = w.on_error(no_answer("node_remove"));
    assert_eq!(
        t.out,
        vec![CableMsg::Failed(
            "node refused provisioning (capacity exhausted) — registration rolled back".to_string()
        )]
    );
    let (mut w, _) = CableWorker::start("/dev/x", gw);
    w.on_described_minting(info(DeviceRole::Node, false));
    assert_eq!(
        w.on_answer(false, None).out,
        vec![CableMsg::Failed("gateway refused node_add".to_string())]
    );
    let (mut w, _) = CableWorker::start("/dev/x", gw);
    assert_eq!(
        w.on_closed("/dev/x", "busy").out,
        vec![CableMsg::Failed("open /dev/x: busy".to_string())]
    );
    let (mut w, _) = CableWorker::start("/dev/x", gw);
    assert_eq!(
        w.on_described(info(DeviceRole::Gateway, false), key()).out,
        vec![CableMsg::Failed("\"radio_push_button\" is a Gateway, not a node".to_string())]
    );
}

/// A worker waits for the response with its own id.
#[test]
fn worker_takes_only_its_own_response() {
    let (call, req) = CableCall::new(3, "node_add", RpcParams::none());
    assert_eq!((req.id.as_str(), req.op.as_str()), ("tui-cbl-3", "node_add"));
    let rsp = |id: &str| RpcResponse {
        id: id.to_string(),
        ok: true,
        error: None,
        data: RpcData::Null,
    };
    assert_eq!(call.on(Some(rsp("tui-cbl-2"))), CallStep::Wait);
    assert_eq!(call.on(Some(rsp("tui-cbl-3"))), CallStep::Done(rsp("tui-cbl-3")));
    assert_eq!(
        call.on(None),
        CallStep::Failed("gateway did not answer node_add".to_string())
    );
}

/// Only a chunk of the answer itself extends the wait for it.
#[test]
fn chunks_extend_the_wait() {
    let w = ShellWatch::new("tower/", 1, "u".to_string(), "/x".to_string(), 5, false).watch;
    let topic = "tower/nodes/0x00000001/shell/rsp";
    assert!(w.extends(topic, &Some(chunk("u", "x", false, 0, false))));
    assert!(!w.extends(topic, &Some(chunk("v", "x", false, 0, false))));
    assert!(!w.extends("other", &Some(chunk("u", "x", false, 0, false))));
    assert!(!w.extends(topic, &None));
}

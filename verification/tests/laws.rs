//! What holds across modules, on concrete values.

use tower_cli::cable::{CablePair, CableWorker, GwParams, PairStep, WorkStep};
use tower_cli::client::{Answer, Reply, RpcCall, RpcEvent, RpcStep};
use tower_cli::dashboard::{Dashboard, Modal};
use tower_cli::engine_state::{Engine, Event, Input, Output, SerialMsg};
use tower_cli::frame::{NodeInfo, NodeMsg, RadioStat, Uplink};
use tower_cli::line_edit::{erase, insert, left_of, right_of};
use tower_cli::mgmt::{DescribeOutcome, DeviceInfo, MgmtOp};
use tower_cli::nodes::ShellWatch;
use tower_cli::payload::{Pairing, RpcParams, RpcRequest, ShellReq};
use tower_cli::port::{open_console, LineStep};
use tower_cli::style::{Key, Mods};
use tower_cli::topics::{classify, normalize_prefix, Inbound};
use tower_cli::wire::{DeviceRole, Wire};

fn wire() -> Wire {
    Wire {
        protocol_version: 3,
        radio_schema_version: 1,
        radio_shell_chunk: 48,
        max_node_name: 16,
        max_frame: 256,
        role_gateway: 0,
        role_node: 1,
        role_other: 2,
        flag_sleeping: 1,
        flag_unnamed: 2,
        last_seen_never: u32::MAX,
        rssi_none: i8::MAX,
        mgmt_ok: 0,
        mgmt_unsupported: 1,
        mgmt_bad_arg: 2,
        mgmt_not_found: 3,
        mgmt_full: 4,
        mgmt_busy: 5,
        mgmt_storage: 6,
        mgmt_timeout: 7,
        tx_delivered: 0,
        tx_not_delivered: 1,
        tx_busy: 2,
        tx_duty_limited: 3,
        tx_expired: 4,
    }
}

fn device(role: DeviceRole, net_id: u32) -> DeviceInfo {
    DeviceInfo {
        role,
        radio_schema_version: 1,
        net_id,
        band: 0,
        channel: 0,
        node_capacity: 32,
        node_count: 0,
        provisioned: true,
        gw_id: 1,
        firmware_name: "radio_x".to_string(),
    }
}

fn engine(prefix: &str) -> Engine {
    Engine::new(wire(), prefix.to_string(), "/dev/x".to_string(), device(DeviceRole::Gateway, 1))
}

fn mgmt(req_id: u16, data: Vec<u8>) -> Input {
    Input::SerialFrame(SerialMsg::Mgmt { req_id, result: 0, chunk: 0, last: true, data })
}

fn req(id: &str, op: &str, params: RpcParams) -> Input {
    Input::MqttIn {
        topic: "home/gateway/cmd".to_string(),
        rpc: Ok(RpcRequest { id: id.to_string(), op: op.to_string(), params }),
        shell: Err("x".to_string()),
    }
}

#[test]
fn the_engine_stays_under_its_prefix() {
    let mut e = engine("home/");
    let row = postcard::to_stdvec(&(7u32, "", 3u8, 3u32, -60i8, 5u32, 0u8)).unwrap();
    let mut all = e.start();
    let inputs = vec![
        mgmt(1, row),
        Input::MqttUp,
        Input::SerialUp,
        Input::SerialFrame(SerialMsg::Uplink(Uplink {
            src: 7,
            counter: 1,
            rssi_dbm: -60,
            lqi: 1,
            data: vec![1],
            body: NodeMsg::Info(NodeInfo {
                firmware_name: "radio_x".to_string(),
                session_id: 1,
                sleeping: false,
            }),
        })),
        Input::SerialFrame(SerialMsg::Stat(RadioStat::Channel { channel: 1, rssi_dbm: -90 })),
        req("a", "node_list", RpcParams::none()),
        req("b", "nonsense", RpcParams::none()),
        req("c", "pairing_cancel", RpcParams::none()),
        Input::MqttIn {
            topic: "home/nodes/0x00000007/shell/req".to_string(),
            rpc: Err("x".to_string()),
            shell: Ok(ShellReq { id: "s".to_string(), line: "/x".to_string(), ttl_s: 0 }),
        },
        Input::SerialDown { error: "gone".to_string() },
        Input::MqttDown { error: "gone".to_string() },
        Input::Tick,
    ];
    for i in inputs {
        all.extend(e.handle(i));
    }
    for _ in 0..100 {
        all.extend(e.handle(Input::Tick));
    }
    let mut published = 0;
    for o in &all {
        match o {
            Output::Publish { topic, .. } => {
                assert!(topic.starts_with("home/"), "{topic}");
                published += 1;
            }
            Output::Subscribe(topic) => assert!(topic.starts_with("home/"), "{topic}"),
            Output::SerialSend { req_id, .. } => assert_ne!(*req_id, 0),
            Output::Event(_) => {}
        }
    }
    assert!(published > 10);
    assert!(e.pending_mgmt.is_empty());
}

/// Every request that went to the engine has one answer once the device stayed silent.
#[test]
fn every_request_is_answered_once() {
    let mut e = engine("home/");
    let ops = ["describe", "node_list", "node_add", "node_remove", "node_add_ota", "queue_list"];
    let mut all = Vec::new();
    for op in ops {
        all.extend(e.handle(req(op, op, RpcParams::none())));
    }
    for _ in 0..100 {
        all.extend(e.handle(Input::Tick));
    }
    for op in ops {
        let topic = format!("home/gateway/rsp/{op}");
        let n = all
            .iter()
            .filter(|o| matches!(o, Output::Publish { topic: t, .. } if *t == topic))
            .count();
        assert_eq!(n, 1, "{op}");
    }
}

#[test]
fn registrations_are_understood() {
    let (mut p, _) = CablePair::start("/dev/y".to_string(), Some("hall".to_string()));
    p.on_described(&wire(), DescribeOutcome::Info(device(DeviceRole::Node, 0xAB12)));
    let described = Answer {
        id: "x".to_string(),
        ok: true,
        error: None,
        data: Reply::Gateway {
            gateway: Some("0x00000001".to_string()),
            band: None,
            channel: None,
        },
    };
    let turn = p.on_answer(described, Ok([0x5a; 16]));
    let (op, params) = match turn.step {
        PairStep::Rpc { op, params } => (op, params),
        other => panic!("expected a request, got {other:?}"),
    };
    let mut e = engine("home/");
    let out = e.handle(req("r", &op, params));
    match &out[0] {
        Output::SerialSend { op: MgmtOp::NodeAdd { id, key, name, .. }, .. } => {
            assert_eq!((*id, *key, name.as_str()), (0xAB12, [0x5a; 16], "hall"));
        }
        other => panic!("expected a request, got {other:?}"),
    }
    let gw = GwParams { addr: 1, band: 0, channel: 0 };
    let (mut w, _) = CableWorker::start("/dev/y", gw);
    let turn = w.on_described(
        DescribeOutcome::Info(device(DeviceRole::Node, 0xAB12)),
        Ok([1; 16]),
    );
    match turn.step {
        WorkStep::Rpc { op, params } => {
            let out = e.handle(req("s", &op, params));
            assert!(matches!(&out[0], Output::SerialSend { op: MgmtOp::NodeAdd { .. }, .. }));
        }
        other => panic!("expected a request, got {other:?}"),
    }
}

#[test]
fn clients_hear_the_engine() {
    let (call, request) = RpcCall::start("home/", "nonsense", RpcParams::none());
    assert_eq!(classify("home/", &call.cmd_topic), Inbound::Cmd);
    let mut e = engine("home/");
    let id = request.id.clone();
    let out = e.handle(Input::MqttIn {
        topic: call.cmd_topic.clone(),
        rpc: Ok(request),
        shell: Err("x".to_string()),
    });
    let topic = match &out[0] {
        Output::Publish { topic, .. } => topic.clone(),
        other => panic!("expected a message, got {other:?}"),
    };
    let answer = Answer { id, ok: false, error: None, data: Reply::Empty };
    let step = call.on(RpcEvent::Message { topic, answer: Some(answer) });
    assert!(matches!(step, RpcStep::Done(_)));
    let s = ShellWatch::start("home/", 7, "/x".to_string(), 0, false);
    assert_eq!(classify("home/", &s.req_topic), Inbound::ShellReq(7));
}

#[test]
fn events_do_not_disturb_typing() {
    let none = Mods { ctrl: false, alt: false, shift: false, other: false };
    let mut d = Dashboard::new("tower/".to_string(), "/dev/x".to_string(), 0);
    d.handle_key(Key::F(13), none, 0, Vec::new());
    for c in "/led".chars() {
        d.handle_key(Key::Char(c), none, 0, Vec::new());
    }
    let (line, cursor, focus) = (d.line.clone(), d.cursor, d.focus);
    d.on_event(Event::Log("x".to_string()), 1);
    d.on_event(Event::Registry(Vec::new()), 1);
    let p = Pairing { state: "open".to_string(), remaining_s: Some(1), joined: None };
    d.on_event(Event::Pairing(p), 1);
    assert_eq!((d.line, d.cursor, d.focus), (line, cursor, focus));
}

#[test]
fn port_list_only_grows() {
    let mut d = Dashboard::new("tower/".to_string(), "/dev/x".to_string(), 0);
    let names = |list: &[&str]| list.iter().map(|s| s.to_string()).collect::<Vec<String>>();
    d.modal = Some(Modal::PairPorts { ports: names(&["b", "c"]), selected: 1 });
    d.tick_pairing(5000, &names(&["a", "b", "c"]));
    match &d.modal {
        Some(Modal::PairPorts { ports, selected }) => {
            assert_eq!((ports, *selected), (&names(&["b", "c", "a"]), 1));
        }
        _ => panic!("the list is gone"),
    }
    d.tick_pairing(10_000, &names(&["a"]));
    match &d.modal {
        Some(Modal::PairPorts { ports, selected }) => {
            assert_eq!((ports, *selected), (&names(&["a"]), 0));
        }
        _ => panic!("the list is gone"),
    }
}

#[test]
fn edits_undo_each_other() {
    for (text, cursor) in [("", 0), ("aπb", 3), ("→", 3)] {
        let (typed, at) = insert(text, cursor, 'ž');
        assert_eq!(erase(&typed, at), (text.to_string(), cursor));
        if cursor > 0 {
            assert_eq!(right_of(text, left_of(text, cursor)), cursor);
        }
    }
}

#[test]
fn attaching_leaves_the_device_running() {
    for reset in [false, true] {
        let steps = open_console(reset);
        let last = |rts: bool| {
            steps
                .iter()
                .rev()
                .find_map(|s| match s {
                    LineStep::Rts(l) if rts => Some(*l),
                    LineStep::Dtr(l) if !rts => Some(*l),
                    _ => None,
                })
                .unwrap()
        };
        // The device is in reset only while RTS is asserted and DTR is not.
        assert!(!(last(true) && !last(false)));
    }
}

#[test]
fn prefix_has_one_normal_form() {
    for p in ["tower", "/tower/", "", "//", "a/b/"] {
        let n = normalize_prefix(p);
        assert_eq!(normalize_prefix(&n), n);
        assert!(n.is_empty() || n.ends_with('/'));
    }
}

/// A dialog ends once, however it comes to its end.
#[test]
fn dialogs_end_once() {
    let ends = |out: &[Output], id: &str| {
        out.iter()
            .filter(|o| matches!(o, Output::Event(Event::Shell { rsp, .. }) if rsp.done && rsp.id == id))
            .count()
    };
    let shell = |id: &str, node: &str| Input::MqttIn {
        topic: format!("home/nodes/{node}/shell/req"),
        rpc: Err("x".to_string()),
        shell: Ok(ShellReq { id: id.to_string(), line: "/x".to_string(), ttl_s: 0 }),
    };
    let mut e = engine("home/");
    let mut all = e.start();
    let row = postcard::to_stdvec(&(7u32, "hall", 0u8, 3u32, -60i8, 5u32, 0u8)).unwrap();
    all.extend(e.handle(mgmt(1, row)));
    let hello = |session_id: u32| {
        Input::SerialFrame(SerialMsg::Hello {
            firmware_name: "radio_x".to_string(),
            firmware_version: "v1".to_string(),
            session_id,
        })
    };
    all.extend(e.handle(hello(1)));
    // Refused at once, answered, lost with a reboot, and dropped on request.
    all.extend(e.handle(shell("unknown", "0x00000009")));
    for (id, item) in [("answered", 1u16), ("rebooted", 2), ("dropped", 3)] {
        let req_id = e.next_req;
        all.extend(e.handle(shell(id, "0x00000007")));
        all.extend(e.handle(mgmt(req_id, postcard::to_stdvec(&item).unwrap())));
    }
    let chunk = tower_cli::frame::NodeShellChunk {
        cmd_id: 1,
        result: 0,
        chunk: 0,
        last: true,
        text: "ok".to_string(),
    };
    all.extend(e.handle(Input::SerialFrame(SerialMsg::Uplink(Uplink {
        src: 7,
        counter: 1,
        rssi_dbm: -60,
        lqi: 1,
        data: vec![1],
        body: NodeMsg::Shell(chunk),
    }))));
    let mut p = RpcParams::none();
    p.node = Some("hall".to_string());
    p.item = Some(3);
    all.extend(e.handle(req("d", "queue_drop", p)));
    all.extend(e.handle(hello(2)));
    for _ in 0..100 {
        all.extend(e.handle(Input::Tick));
    }
    for id in ["unknown", "answered", "rebooted", "dropped"] {
        assert_eq!(ends(&all, id), 1, "{id}");
    }
}

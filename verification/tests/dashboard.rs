//! The dashboard of a gateway: events, keys, clicks, and what is on the screen.

use tower_cli::chart::Chart;
use tower_cli::dashboard::{Dashboard, DialogLine, Modal, Pane};
use tower_cli::dashboard_keys::Action;
use tower_cli::dashboard_modal::{centered, modal_area};
use tower_cli::dashboard_time::{poll_ports, CableMsg};
use tower_cli::engine_state::{Event, FrontendCmd, MqttDir, MqttMsg, NodeView, RadioSample};
use tower_cli::layout::{
    middle_columns, screen_from, screen_parts, top_columns, zone_rows, zones_of, Part,
};
use tower_cli::payload::{Pairing, PendingEntry, RpcData, RpcResponse, ShellRsp};
use tower_cli::style::{Key, Mods, Rect, Span};

const NONE: Mods = Mods { ctrl: false, alt: false, shift: false, other: false };
const SHIFT: Mods = Mods { ctrl: false, alt: false, shift: true, other: false };

fn test_app() -> Dashboard {
    let mut app = Dashboard::new("tower/".to_string(), "/dev/ttyTEST".to_string(), 0);
    app.mqtt_up = true;
    app
}

fn press(app: &mut Dashboard, key: Key, mods: Mods) -> Option<Action> {
    app.handle_key(key, mods, 0, Vec::new())
}

fn tell(app: &mut Dashboard, ev: Event) -> Option<RpcResponse> {
    app.on_event(ev, 0)
}

fn row(spans: &[Span]) -> String {
    spans.iter().map(|s| s.text.as_str()).collect()
}

fn rows(list: Vec<Vec<Span>>) -> String {
    list.iter().map(|r| row(r) + "\n").collect()
}

/// What is on a screen of 100 by 30 cells, pane by pane.
fn render(app: &mut Dashboard) -> String {
    let s = app.ui(Rect { x: 0, y: 0, width: 100, height: 30 });
    let mut out = row(&app.render_header()) + "\n";
    for pane in [Pane::Nodes, Pane::Radio, Pane::Shell, Pane::Mqtt, Pane::Log] {
        if app.zoom && app.focus != pane {
            continue;
        }
        let (title, area) = match pane {
            Pane::Nodes => (app.nodes_title(), app.zones.nodes),
            Pane::Radio => (app.chart_title(), app.zones.radio),
            Pane::Shell => (app.render_shell_title(), app.zones.shell),
            Pane::Mqtt => (app.mqtt_title(), app.zones.mqtt),
            Pane::Log => (app.log_title().to_string(), app.zones.log),
        };
        let inner_h = app.inner_height(area);
        if !app.zoom {
            out.push_str(&title);
            out.push('\n');
        }
        match pane {
            Pane::Nodes => {
                for r in app.render_nodes() {
                    out.push_str(&r.join(" "));
                    out.push('\n');
                }
            }
            Pane::Radio => {}
            Pane::Shell => out.push_str(&rows(app.render_shell(inner_h))),
            Pane::Mqtt => out.push_str(&rows(app.render_mqtt(inner_h))),
            Pane::Log => out.push_str(&rows(app.render_log(inner_h))),
        }
    }
    out.push_str(&row(&app.render_footer(s.footer)));
    if let Some(panel) = app.render_modal(0) {
        out.push('\n');
        out.push_str(&panel.title);
        out.push('\n');
        out.push_str(&rows(panel.rows));
    }
    out
}

fn node(id: u32, name: &str, pending: usize) -> NodeView {
    NodeView {
        addr: id,
        name: name.to_string(),
        kind: "push-button".to_string(),
        sleeping: true,
        unnamed: false,
        last_seen_s: Some(3),
        rssi_dbm: Some(-67),
        uplinks: 12,
        queued: pending as u8,
        pending: (0..pending)
            .map(|i| PendingEntry {
                item: i as u16 + 1,
                id: format!("u-{i}"),
                line: "/led on".to_string(),
            })
            .collect(),
    }
}

#[test]
fn renders_empty_state_with_pairing_hint() {
    let mut app = test_app();
    let grid = render(&mut app);
    assert!(grid.contains("Nodes (0)"));
    assert!(grid.contains("pair a node first"));
    assert!(grid.contains("Gateway Log"));
    assert!(grid.contains("F2 Pair"));
}

#[test]
fn renders_node_row_and_pending_marker() {
    let mut app = test_app();
    tell(&mut app, Event::Registry(vec![node(0xAB12, "kitchen", 1)]));
    let grid = render(&mut app);
    assert!(grid.contains("0x0000ab12"));
    assert!(grid.contains("kitchen"));
    assert!(grid.contains("push-button"));
    assert!(grid.contains("⌛"), "pending marker in table + dialog");
    assert!(grid.contains("Shell: kitchen"));
}

#[test]
fn shell_submit_sends_frontend_cmd_and_echoes() {
    let mut app = test_app();
    tell(&mut app, Event::Registry(vec![node(0xAB12, "kitchen", 0)]));
    app.focus = Pane::Shell;
    for c in "/led on".chars() {
        press(&mut app, Key::Char(c), NONE);
    }
    match press(&mut app, Key::Enter, NONE) {
        Some(Action::Send(FrontendCmd::Shell { node, req })) => {
            assert_eq!(node, 0xAB12);
            assert_eq!(req.line, "/led on");
            assert!(req.id.starts_with("tui-"));
        }
        other => panic!("expected a shell FrontendCmd, got {other:?}"),
    }
    let grid = render(&mut app);
    assert!(grid.contains("/led on"), "echoed into the dialog");
}

#[test]
fn key_reveal_flow_needs_confirm_and_autohides() {
    let mut app = test_app();
    tell(&mut app, Event::Registry(vec![node(0xAB12, "kitchen", 0)]));
    // F4 opens the confirm modal — nothing sent yet.
    let sent = press(&mut app, Key::F(4), NONE);
    assert!(matches!(app.modal, Some(Modal::ConfirmReveal(0xAB12))));
    assert!(sent.is_none(), "no RPC before confirmation");
    // Enter confirms → the reveal RPC goes out.
    assert!(matches!(
        press(&mut app, Key::Enter, NONE),
        Some(Action::Send(FrontendCmd::Rpc(r))) if r.op == "reveal_key"
    ));
    // The key arrives → modal shows it (and the grid contains it).
    tell(
        &mut app,
        Event::Rpc(RpcResponse {
            id: "tui-1".to_string(),
            ok: true,
            error: None,
            data: RpcData::Key {
                node: "0x0000ab12".to_string(),
                key: "a0a1a2a3a4a5a6a7a8a9aaabacadaeaf".to_string(),
            },
        }),
    );
    let grid = render(&mut app);
    assert!(grid.contains("a0a1a2a3a4a5a6a7a8a9aaabacadaeaf"));
    assert!(grid.contains("auto-hides"));
    // And it does hide.
    app.tick_pairing(60_000, &Vec::new());
    assert!(!render(&mut app).contains("a0a1a2a3"));
}

fn mqtt(topic: &str, payload: &str) -> Event {
    Event::Mqtt(MqttMsg {
        dir: MqttDir::Out,
        topic: topic.to_string(),
        payload: payload.as_bytes().to_vec(),
        retain: false,
    })
}

#[test]
fn mqtt_feed_renders_json_payloads() {
    let mut app = test_app();
    tell(
        &mut app,
        mqtt(
            "tower/nodes/0x0000ab12/event/button",
            r#"{"event":"click","count":42,"ts":1700000000}"#,
        ),
    );
    let grid = render(&mut app);
    assert!(grid.contains("▲"), "direction arrow");
    assert!(grid.contains("nodes/0x0000ab12"), "prefix-stripped topic");
    assert!(grid.contains("\"click\""), "JSON string value");
    assert!(grid.contains("42"), "JSON number");
}

#[test]
fn mqtt_filter_is_visual_only_and_toggles() {
    let mut app = test_app();
    tell(&mut app, Event::Registry(vec![node(0xAB12, "kitchen", 0), node(0xBB34, "garage", 0)]));
    tell(&mut app, mqtt("tower/nodes/0x0000ab12", r#"{"name":"kitchen"}"#));
    tell(&mut app, mqtt("tower/nodes/0x0000bb34", r#"{"name":"garage"}"#));
    tell(&mut app, mqtt("tower/gateway/stats", r#"{"nodes":2}"#));
    // Unfiltered: everything visible.
    let grid = render(&mut app);
    assert!(grid.contains("nodes/0x0000ab12"));
    assert!(grid.contains("nodes/0x0000bb34"));
    assert!(grid.contains("gateway/stats"));
    // `f` on the Nodes pane (selection = kitchen) filters the view…
    press(&mut app, Key::Char('f'), NONE);
    assert_eq!(app.mqtt_filter, Some(0xAB12));
    let grid = render(&mut app);
    assert!(grid.contains("nodes/0x0000ab12"));
    assert!(!grid.contains("nodes/0x0000bb34"), "other node hidden");
    assert!(!grid.contains("gateway/stats"), "gateway topics hidden");
    assert!(grid.contains("MQTT ▶ 0x0000ab12"), "filter shown in the title");
    // …but the deque still holds every message (filtering loses nothing)…
    assert_eq!(app.mqtt.len(), 3);
    // …and `f` again flips straight back to all.
    press(&mut app, Key::Char('f'), NONE);
    assert_eq!(app.mqtt_filter, None);
    let grid = render(&mut app);
    assert!(grid.contains("nodes/0x0000bb34"));
    // F7 is the global binding — it toggles from any pane, not just MQTT/Nodes.
    app.focus = Pane::Log;
    press(&mut app, Key::F(7), NONE);
    assert_eq!(app.mqtt_filter, Some(0xAB12));
    press(&mut app, Key::F(7), NONE);
    assert_eq!(app.mqtt_filter, None);
}

fn ambient(dbm: i16) -> Event {
    Event::Radio(RadioSample::Ambient { dbm, channel: 5 })
}

/// The points of all bars.
fn bar_points(c: &Chart) -> Vec<(i64, i64)> {
    let mut all = c.quiet.clone();
    all.extend(c.busy.iter());
    all.extend(c.hot.iter());
    all
}

#[test]
fn radio_bars_fill_bottom_up() {
    let mut app = test_app();
    for _ in 0..4 {
        tell(&mut app, ambient(-60));
    }
    let grid = render(&mut app);
    let c = app.render_chart(app.zones.radio.width, false);
    // Every level from the floor up to the reading is filled.
    let points = bar_points(&c);
    for level in -110..=-60 {
        assert!(points.contains(&(0, level)), "bars are filled from the floor up");
    }
    assert!(!points.contains(&(0, -59)));
    assert!(grid.contains("-60 dBm"), "live readout in the title");
}

#[test]
fn radio_bars_are_evenly_spaced() {
    let mut app = test_app();
    for _ in 0..40 {
        tell(&mut app, ambient(-60));
    }
    render(&mut app);
    let c = app.render_chart(app.zones.radio.width, false);
    // Uniform readings: the filled columns of a row, from the right edge to the left.
    let mut columns: Vec<i64> =
        bar_points(&c).into_iter().filter(|p| p.1 == -110).map(|p| -p.0).collect();
    columns.sort_unstable();
    let row: String = (0..=*columns.last().expect("a bar row renders"))
        .map(|x| if columns.contains(&x) { '█' } else { ' ' })
        .collect();
    let bars: Vec<&str> = row.split(' ').collect();
    assert!(bars.len() > 5, "several bars fit the test pane: {row:?}");
    assert!(
        bars.iter().all(|s| *s == "██"),
        "bars 2 wide, gaps 1 wide, everywhere: {:?}",
        row
    );
}

#[test]
fn pause_freezes_the_radio_chart() {
    let mut app = test_app();
    tell(&mut app, ambient(-60));
    assert_eq!(app.ambient.len(), 1);
    // F5: samples and marks stop ingesting (the deques ARE the chart), title readout freezes.
    press(&mut app, Key::F(5), NONE);
    tell(&mut app, ambient(-50));
    tell(&mut app, Event::Radio(RadioSample::Rx { src: 1, rssi_dbm: -60 }));
    assert_eq!(app.ambient.len(), 1, "paused: no ambient ingest");
    assert!(app.rx_marks.is_empty(), "paused: no mark ingest");
    assert_eq!(app.last_ambient, Some((-60, 5)), "paused: readout frozen");
    assert!(render(&mut app).contains("Radio · -60 dBm · ch 5 (paused)"));
    // Unpause: ingest resumes.
    press(&mut app, Key::F(5), NONE);
    tell(&mut app, ambient(-50));
    assert_eq!(app.ambient.len(), 2);
}

#[test]
fn node_action_keys_are_global_except_shell_editing() {
    let mut app = test_app();
    tell(&mut app, Event::Registry(vec![node(0xAB12, "kitchen", 0)]));
    // Delete works from any pane — it acts on the selected node…
    app.focus = Pane::Log;
    press(&mut app, Key::Delete, NONE);
    assert!(matches!(app.modal, Some(Modal::ConfirmRemove(0xAB12))));
    press(&mut app, Key::Esc, NONE); // cancel
    // …and so does Backspace (the key macOS keyboards label "delete").
    app.focus = Pane::Nodes;
    press(&mut app, Key::Backspace, NONE);
    assert!(matches!(app.modal, Some(Modal::ConfirmRemove(0xAB12))));
    press(&mut app, Key::Esc, NONE);
    // On the Shell pane both stay line-editing keys — no modal.
    app.focus = Pane::Shell;
    app.line = "ab".to_string();
    app.cursor = 2;
    press(&mut app, Key::Backspace, NONE);
    assert_eq!(app.line, "a");
    assert!(app.modal.is_none());
    // F6 Rename is global too, matching its footer chip.
    app.focus = Pane::Mqtt;
    press(&mut app, Key::F(6), NONE);
    assert!(matches!(app.modal, Some(Modal::Rename { node: 0xAB12, .. })));
}

#[test]
fn footer_chips_click_as_buttons() {
    let mut app = test_app();
    tell(&mut app, Event::Registry(vec![node(0xAB12, "kitchen", 0)]));
    render(&mut app); // populates app.chips
    let click = |app: &mut Dashboard, key: Key, mods: Mods| {
        let (r, _) = *app.chips.iter().find(|(_, k)| *k == key).unwrap();
        app.handle_mouse(r.x, r.y, mods, 0);
    };
    // A chip click presses its key: F5 toggles pause.
    click(&mut app, Key::F(5), NONE);
    assert!(app.paused);
    // Node-scoped chips act on the selected node from ANY focus: the Del
    // chip opens the remove confirmation even while the log pane is focused.
    app.focus = Pane::Log;
    click(&mut app, Key::Delete, NONE);
    assert!(matches!(app.modal, Some(Modal::ConfirmRemove(0xAB12))));
    press(&mut app, Key::Esc, NONE); // cancel
    assert!(app.modal.is_none());
    // Shift-click on the F1 chip = Shift-F1 (counter-clockwise walk).
    click(&mut app, Key::F(1), SHIFT);
    assert!(app.focus == Pane::Mqtt, "Log walks back to MQTT");
    // With mouse capture off, chip clicks are inert.
    app.mouse = false;
    click(&mut app, Key::F(5), NONE);
    assert!(app.paused, "click ignored while capture is off");
}

#[test]
fn f8_clears_the_focused_feed_only() {
    let mut app = test_app();
    tell(&mut app, Event::Log("hello log".to_string()));
    tell(&mut app, mqtt("tower/gateway/stats", r#"{"nodes":0}"#));
    // Focus MQTT → F8 clears the MQTT feed, not the log.
    app.focus = Pane::Mqtt;
    press(&mut app, Key::F(8), NONE);
    assert!(app.mqtt.is_empty());
    assert_eq!(app.log.len(), 1);
    // Focus elsewhere → F8 clears the log.
    app.focus = Pane::Log;
    press(&mut app, Key::F(8), NONE);
    assert!(app.log.is_empty());
}

#[test]
fn shell_chunks_reassemble_across_line_breaks() {
    let mut app = test_app();
    tell(&mut app, Event::Registry(vec![node(0xAB12, "hello", 0)]));
    let rsp = |chunk: u16, text: &str, done: bool| ShellRsp {
        id: "u-1".to_string(),
        chunk,
        text: text.to_string(),
        done,
        result: 0,
        truncated: false,
        error: None,
    };
    // "therm-delta = 50" straddles the chunk boundary: chunks split at byte offsets, not at
    // line breaks.
    tell(
        &mut app,
        Event::Shell { node: 0xAB12, rsp: rsp(0, "therm-period = 60\r\nth", false) },
    );
    tell(
        &mut app,
        Event::Shell {
            node: 0xAB12,
            rsp: rsp(1, "erm-delta = 50\r\naccel = medium\r\n", true),
        },
    );
    let grid = render(&mut app);
    assert!(grid.contains("therm-period = 60"));
    assert!(grid.contains("therm-delta = 50"), "straddling line reassembled");
    assert!(grid.contains("accel = medium"));
}

#[test]
fn f1_cycles_panes_both_ways() {
    let mut app = test_app();
    assert!(app.focus == Pane::Nodes);
    press(&mut app, Key::F(1), NONE);
    assert!(app.focus == Pane::Radio, "F1 = clockwise (chart first)");
    press(&mut app, Key::F(1), SHIFT);
    assert!(app.focus == Pane::Nodes, "Shift-F1 = counter-clockwise");
    press(&mut app, Key::F(13), NONE);
    assert!(app.focus == Pane::Shell, "F13 = Shift-F1 fallback");
}

#[test]
fn f3_zooms_focused_pane_borderless() {
    let mut app = test_app();
    tell(&mut app, Event::Log("zoomed log line".to_string()));
    app.focus = Pane::Log;
    press(&mut app, Key::F(3), NONE);
    assert!(app.zoom);
    let grid = render(&mut app);
    assert!(grid.contains("zoomed log line"));
    assert!(!grid.contains("Nodes (0)"), "other panes hidden in zoom");
    assert!(!grid.contains("Gateway Log"), "borderless: no pane title");
    press(&mut app, Key::F(3), NONE);
    assert!(!app.zoom, "F3 toggles back");
}

// ---- more of the dashboard -----------------------------------------------------

#[test]
fn selection_follows_its_node() {
    let mut app = test_app();
    tell(&mut app, Event::Registry(vec![node(1, "a", 0), node(2, "b", 0)]));
    press(&mut app, Key::Down, NONE);
    assert_eq!(app.nodes[app.selected].addr, 2);
    tell(&mut app, Event::Registry(vec![node(0, "z", 0), node(1, "a", 0), node(2, "b", 0)]));
    assert_eq!(app.nodes[app.selected].addr, 2);
}

#[test]
fn removing_needs_confirmation() {
    let mut app = test_app();
    tell(&mut app, Event::Registry(vec![node(0xAB12, "kitchen", 0)]));
    assert!(press(&mut app, Key::Delete, NONE).is_none());
    match press(&mut app, Key::Enter, NONE) {
        Some(Action::Send(FrontendCmd::Rpc(r))) => {
            assert_eq!(r.op, "node_remove");
            assert_eq!(r.params.node.as_deref(), Some("0x0000ab12"));
        }
        other => panic!("expected a request, got {other:?}"),
    }
}

#[test]
fn renaming_sends_the_new_name() {
    let mut app = test_app();
    tell(&mut app, Event::Registry(vec![node(0xAB12, "", 0)]));
    press(&mut app, Key::F(6), NONE);
    for c in "hall".chars() {
        press(&mut app, Key::Char(c), NONE);
    }
    match press(&mut app, Key::Enter, NONE) {
        Some(Action::Send(FrontendCmd::Rpc(r))) => {
            assert_eq!(r.op, "node_rename");
            assert_eq!(r.params.name.as_deref(), Some("hall"));
        }
        other => panic!("expected a request, got {other:?}"),
    }
}

#[test]
fn cable_reports_go_into_the_window() {
    let mut app = test_app();
    app.modal = Some(Modal::PairRun {
        port: "/dev/ttyUSB1".to_string(),
        lines: Vec::new(),
        failed: None,
    });
    app.cable = true;
    app.on_cable(CableMsg::Progress("probing".to_string()));
    assert!(matches!(&app.modal, Some(Modal::PairRun { lines, .. }) if lines.len() == 1));
    app.on_cable(CableMsg::Failed("no answer".to_string()));
    assert!(matches!(&app.modal, Some(Modal::PairRun { failed: Some(e), .. }) if e == "no answer"));
    app.on_cable(CableMsg::Done { addr: 0xAB12 });
    assert!(app.modal.is_none());
}

#[test]
fn own_port_is_not_offered() {
    let all = vec!["/dev/a".to_string(), "/dev/b".to_string()];
    assert_eq!(poll_ports("/dev/a", &all), vec!["/dev/b".to_string()]);
}

#[test]
fn window_is_centred_and_fits() {
    let body = Rect { x: 0, y: 1, width: 100, height: 28 };
    assert_eq!(centered(body, 64, 10), Rect { x: 18, y: 10, width: 64, height: 10 });
    let small = Rect { x: 2, y: 2, width: 10, height: 4 };
    assert_eq!(centered(small, 64, 10), small);
    assert_eq!(modal_area(body, 100).height, 28);
}

#[test]
fn worker_responses_are_handed_on() {
    let mut app = test_app();
    app.cable = true;
    let rsp = RpcResponse {
        id: "tui-cbl-3".to_string(),
        ok: true,
        error: None,
        data: RpcData::Null,
    };
    assert_eq!(tell(&mut app, Event::Rpc(rsp)).map(|r| r.id), Some("tui-cbl-3".to_string()));
}

#[test]
fn pairing_state_is_kept() {
    let mut app = test_app();
    let p = Pairing { state: "open".to_string(), remaining_s: Some(10), joined: None };
    tell(&mut app, Event::Pairing(p));
    assert!(app.pairing_open());
    let p = Pairing { state: "idle".to_string(), remaining_s: None, joined: None };
    tell(&mut app, Event::Pairing(p));
    assert!(!app.pairing_open());
}

#[test]
fn layout_fills_the_screen() {
    let mut app = test_app();
    let s = app.ui(Rect { x: 0, y: 0, width: 100, height: 30 });
    assert_eq!((s.header.height, s.body.height, s.footer.height), (1, 28, 1));
    assert_eq!(s.footer.y, 29);
    assert_eq!(app.zones.log.height, 8);
    assert_eq!(app.zones.nodes.width + app.zones.radio.width, 100);
    app.zoom = true;
    let s = app.ui(Rect { x: 0, y: 0, width: 100, height: 30 });
    assert_eq!(app.zones.nodes, s.body);
    assert_eq!(app.zones.log, Rect::empty());
}

/// However a response is cut, its dialog shows the same.
#[test]
fn any_cut_shows_the_same_dialog() {
    let text = "a = 1\r\nb\u{e9} = 2\n\n\r\ntail";
    let rsp = |text: &str, done: bool| ShellRsp {
        id: "u-1".to_string(),
        chunk: 0,
        text: text.to_string(),
        done,
        result: 3,
        truncated: false,
        error: None,
    };
    let mut whole = test_app();
    tell(&mut whole, Event::Shell { node: 7, rsp: rsp(text, true) });
    assert_eq!(
        whole.dialogs[&7],
        vec![
            DialogLine::Text("a = 1".to_string()),
            DialogLine::Text("b\u{e9} = 2".to_string()),
            DialogLine::Text(String::new()),
            DialogLine::Text(String::new()),
            DialogLine::Text("tail".to_string()),
            DialogLine::Done(3),
        ]
    );
    let cuts: Vec<usize> = text.char_indices().map(|(i, _)| i).collect();
    for a in &cuts {
        for b in cuts.iter().filter(|b| *b >= a) {
            let mut app = test_app();
            tell(&mut app, Event::Shell { node: 7, rsp: rsp(&text[..*a], false) });
            tell(&mut app, Event::Shell { node: 7, rsp: rsp(&text[*a..*b], false) });
            tell(&mut app, Event::Shell { node: 7, rsp: rsp(&text[*b..], true) });
            assert_eq!(app.dialogs[&7], whole.dialogs[&7]);
            assert!(app.shell_partial.is_empty());
        }
    }
}

/// The panes share the body as they are meant to, and a click outside it hits none.
#[test]
fn panes_share_the_body() {
    assert_eq!(screen_parts(3), vec![Part::Length(1), Part::Min(3), Part::Length(1)]);
    assert_eq!(zone_rows(), vec![Part::Fill(5), Part::Fill(6), Part::Length(8)]);
    assert_eq!(top_columns(), vec![Part::Percentage(58), Part::Percentage(42)]);
    assert_eq!(middle_columns(), vec![Part::Percentage(45), Part::Percentage(55)]);
    let r = |x: u16| Rect { x, y: 0, width: 1, height: 1 };
    let z = zones_of(&vec![r(0), r(1), r(2)], &vec![r(3), r(4)], &vec![r(5), r(6)]);
    assert_eq!((z.nodes, z.radio, z.shell, z.mqtt, z.log), (r(3), r(4), r(5), r(6), r(2)));
    let s = screen_from(&vec![r(0), r(1), r(2)]);
    assert_eq!((s.header, s.body, s.footer), (r(0), r(1), r(2)));
    let mut app = test_app();
    let s = app.ui(Rect { x: 0, y: 0, width: 100, height: 32 });
    let z = app.zones;
    assert_eq!(s.body, Rect { x: 0, y: 1, width: 100, height: 30 });
    assert_eq!(z.nodes, Rect { x: 0, y: 1, width: 58, height: 10 });
    assert_eq!(z.radio, Rect { x: 58, y: 1, width: 42, height: 10 });
    assert_eq!(z.shell, Rect { x: 0, y: 11, width: 45, height: 12 });
    assert_eq!(z.mqtt, Rect { x: 45, y: 11, width: 55, height: 12 });
    assert_eq!(z.log, Rect { x: 0, y: 23, width: 100, height: 8 });
    app.focus = Pane::Log;
    app.handle_mouse(60, 12, NONE, 0);
    assert_eq!(app.focus, Pane::Mqtt);
    app.handle_mouse(60, 0, NONE, 0);
    assert_eq!(app.focus, Pane::Mqtt);
}

//! What the models show of the values: each kind as itself, and each field in its own place.

use crate::cable::{CableMsgV, PairStep, PairStepV, WorkStep, WorkStepV};
use crate::client::{ClientError, ClientErrorV};
use crate::commands::{BarStep, BarStepV, Offer, Verdict};
use crate::console::{Console, Request, RequestV};
use crate::dashboard::{Dashboard, DialogLine, DialogLineV, Modal, ModalV};
use crate::dashboard_keys::{Action, ActionV};
use crate::dashboard_time::CableMsg;
use crate::engine_state::{
    Engine, Event, EventV, FrontendCmd, MqttMsg, NodeMirror, NodeView, Output, OutputV, PendingMgmt,
    PendingShell, RadioSample,
};
use crate::gate::{GateDecision, GateDecisionV};
use crate::mgmt::{
    DescribeOutcome, DescribeOutcomeV, DeviceInfo, MgmtOp, MgmtOpV, MgmtOutcome, MgmtOutcomeV,
    MgmtReply, NodeEntry, QueueEntry,
};
use crate::nodes::{Show, ShowV, Step, StepV};
use crate::payload::{
    Node, Pairing, PendingEntry, QueueRow, RpcData, RpcDataV, RpcParams, RpcRequest, RpcResponse,
    ShellReq, ShellRsp,
};
use crate::render::{Emit, EmitV};
use crate::session::{ReadOutcome, ReadOutcomeV, Response};
use crate::style::{Span, Style};
use vstd::prelude::*;

verus! {

/// What is written is a line, a text or a note.
pub proof fn law_written_texts(s: String, style: Style, v: Verdict, o: Offer)
    ensures
        Emit::Line(s).deep_view() == EmitV::Line(s@),
        Emit::Text(s).deep_view() == EmitV::Text(s@),
        Emit::Note(s).deep_view() == EmitV::Note(s@),
        (Span { text: s, style }).deep_view().text == s@,
        (Span { text: s, style }).deep_view().style == style,
        v.deep_view().code == v.code && v.deep_view().out == v.out.deep_view(),
        o.deep_view().display == o.display@ && o.deep_view().replacement == o.replacement@,
{
}

/// What a device answered.
pub proof fn law_answers_of_devices(r: Response, s: String, v: Option<u8>, m: MgmtReply, c: u8)
    ensures
        ReadOutcome::Response(r).deep_view() == (ReadOutcomeV::Response {
            result: r.result,
            text: r.text@,
            incomplete: r.incomplete,
        }),
        (ReadOutcome::Cut { text: s, bad_version: v }).deep_view() == (ReadOutcomeV::Cut {
            text: s@,
            bad_version: v,
        }),
        (ReadOutcome::Timeout { bad_version: v }).deep_view() == (ReadOutcomeV::Timeout {
            bad_version: v,
        }),
        MgmtOutcome::Reply(m).deep_view() == (MgmtOutcomeV::Reply {
            result: m.result,
            data: m.data@,
            truncated: m.truncated,
        }),
        (MgmtOutcome::Timeout { bad_version: v }).deep_view() == (MgmtOutcomeV::Timeout {
            bad_version: v,
        }),
        DescribeOutcome::Refused(c).deep_view() == DescribeOutcomeV::Refused(c),
        (DescribeOutcome::Timeout { bad_version: v }).deep_view() == (DescribeOutcomeV::Timeout {
            bad_version: v,
        }),
        GateDecision::Reject(c).deep_view() == GateDecisionV::Reject(c),
        GateDecision::Retry.deep_view() == GateDecisionV::Retry,
{
}

/// What is known of a device, a node and a queue.
pub proof fn law_entries(d: DeviceInfo, n: NodeEntry, q: QueueEntry)
    ensures
        ({
            let v = d.deep_view();
            &&& v.role == d.role && v.radio_schema_version == d.radio_schema_version
            &&& v.net_id == d.net_id && v.gw_id == d.gw_id
            &&& v.band == d.band && v.channel == d.channel
            &&& v.node_capacity == d.node_capacity && v.node_count == d.node_count
            &&& v.provisioned == d.provisioned && v.firmware_name == d.firmware_name@
        }),
        ({
            let v = n.deep_view();
            &&& v.id == n.id && v.name == n.name@ && v.flags == n.flags
            &&& v.last_seen_s == n.last_seen_s && v.rssi_dbm == n.rssi_dbm
            &&& v.uplinks == n.uplinks && v.queued == n.queued
        }),
        ({
            let v = q.deep_view();
            &&& v.node == q.node && v.item == q.item
            &&& v.age_s == q.age_s && v.ttl_s == q.ttl_s && v.data == q.data@
        }),
{
}

/// What is asked of a device.
pub proof fn law_operations(
    id: u32,
    key: [u8; 16],
    s: String,
    name: Option<String>,
    a: u8,
    b: u8,
    m: u16,
    n: u16,
    item: Option<u16>,
    period: u32,
    flags: Option<u8>,
)
    ensures
        MgmtOp::Describe.deep_view() == MgmtOpV::Describe,
        MgmtOp::NodeList.deep_view() == MgmtOpV::NodeList,
        MgmtOp::PairingCancel.deep_view() == MgmtOpV::PairingCancel,
        (MgmtOp::NodeAdd { id, key, name: s, flags: a }).deep_view() == (MgmtOpV::NodeAdd {
            id,
            key: key@,
            name: s@,
            flags: a,
        }),
        (MgmtOp::NodeRemove { id }).deep_view() == (MgmtOpV::NodeRemove { id }),
        (MgmtOp::NodeRevealKey { id }).deep_view() == (MgmtOpV::NodeRevealKey { id }),
        (MgmtOp::NodeUpdate { id, name, flags }).deep_view() == (MgmtOpV::NodeUpdate {
            id,
            name: name.deep_view(),
            flags,
        }),
        (MgmtOp::PairingOpen { window_s: m, key }).deep_view() == (MgmtOpV::PairingOpen {
            window_s: m,
            key: key@,
        }),
        (MgmtOp::QueuePush { node: id, ttl_s: m, cmd_id: n, line: s }).deep_view()
            == (MgmtOpV::QueuePush { node: id, ttl_s: m, cmd_id: n, line: s@ }),
        (MgmtOp::QueueList { node: id }).deep_view() == (MgmtOpV::QueueList { node: id }),
        (MgmtOp::QueueDrop { node: id, item }).deep_view() == (MgmtOpV::QueueDrop {
            node: id,
            item,
        }),
        (MgmtOp::StatsConfig { channel_period_ms: period }).deep_view() == (MgmtOpV::StatsConfig {
            channel_period_ms: period,
        }),
        (MgmtOp::Provision { gw_id: id, key, band: a, channel: b }).deep_view()
            == (MgmtOpV::Provision { gw_id: id, key: key@, band: a, channel: b }),
{
}

/// What the engine gives out.
pub proof fn law_outputs(
    seq: u16,
    req_id: u16,
    op: MgmtOp,
    topic: String,
    payload: Vec<u8>,
    retain: bool,
    e: Event,
    a: bool,
    b: bool,
    nodes: Vec<NodeView>,
    node: u32,
    rsp: ShellRsp,
    sample: RadioSample,
    p: Pairing,
    r: RpcResponse,
    m: MqttMsg,
)
    ensures
        (Output::SerialSend { seq, req_id, op }).deep_view() == (OutputV::SerialSend {
            seq,
            req_id,
            op: op.deep_view(),
        }),
        (Output::Publish { topic, payload, retain }).deep_view() == (OutputV::Publish {
            topic: topic@,
            payload: payload@,
            retain,
        }),
        Output::Subscribe(topic).deep_view() == OutputV::Subscribe(topic@),
        Output::Event(e).deep_view() == OutputV::Event(e.deep_view()),
        Event::Log(topic).deep_view() == EventV::Log(topic@),
        (Event::Link { serial_up: a, mqtt_up: b }).deep_view() == (EventV::Link {
            serial_up: a,
            mqtt_up: b,
        }),
        Event::Registry(nodes).deep_view() == EventV::Registry(nodes.deep_view()),
        (Event::Shell { node, rsp }).deep_view() == (EventV::Shell { node, rsp: rsp.deep_view() }),
        Event::Radio(sample).deep_view() == EventV::Radio(sample),
        Event::Pairing(p).deep_view() == EventV::Pairing(p.deep_view()),
        Event::Rpc(r).deep_view() == EventV::Rpc(r.deep_view()),
        Event::Mqtt(m).deep_view() == EventV::Mqtt(m.deep_view()),
{
}

/// What the messages hold.
pub proof fn law_messages(
    n: Node,
    v: NodeView,
    p: Pairing,
    r: ShellRsp,
    e: PendingEntry,
    q: QueueRow,
    m: MqttMsg,
)
    ensures
        ({
            let w = n.deep_view();
            &&& w.id == n.id@ && w.name == n.name@ && w.kind == n.kind@
            &&& w.sleeping == n.sleeping && w.unnamed == n.unnamed
            &&& w.last_seen_s == n.last_seen_s && w.rssi_dbm == n.rssi_dbm
            &&& w.uplinks == n.uplinks && w.queued == n.queued
        }),
        ({
            let w = v.deep_view();
            &&& w.addr == v.addr && w.name == v.name@ && w.kind == v.kind@
            &&& w.sleeping == v.sleeping && w.unnamed == v.unnamed
            &&& w.last_seen_s == v.last_seen_s && w.rssi_dbm == v.rssi_dbm
            &&& w.uplinks == v.uplinks && w.queued == v.queued
            &&& w.pending == v.pending.deep_view()
        }),
        ({
            let w = p.deep_view();
            w.state == p.state@ && w.remaining_s == p.remaining_s && w.joined == p.joined.deep_view()
        }),
        ({
            let w = r.deep_view();
            &&& w.id == r.id@ && w.chunk == r.chunk && w.text == r.text@ && w.done == r.done
            &&& w.result == r.result && w.truncated == r.truncated && w.error == r.error.deep_view()
        }),
        ({
            let w = e.deep_view();
            w.item == e.item && w.id == e.id@ && w.line == e.line@
        }),
        ({
            let w = q.deep_view();
            w.node == q.node@ && w.item == q.item && w.age_s == q.age_s && w.ttl_s == q.ttl_s
        }),
        ({
            let w = m.deep_view();
            w.dir == m.dir && w.topic == m.topic@ && w.payload == m.payload@ && w.retain == m.retain
        }),
{
}

/// What requests and replies hold.
pub proof fn law_requests_and_replies(
    p: RpcParams,
    q: RpcRequest,
    r: RpcResponse,
    a: String,
    b: String,
    nodes: Vec<Node>,
    rows: Vec<QueueRow>,
    joined: Option<String>,
    item: u16,
)
    ensures
        ({
            let v = p.deep_view();
            &&& v.node == p.node.deep_view() && v.id == p.id.deep_view()
            &&& v.key == p.key.deep_view() && v.name == p.name.deep_view()
            &&& v.sleeping == p.sleeping && v.window_s == p.window_s
            &&& v.item == p.item && v.period_ms == p.period_ms
        }),
        q.deep_view().id == q.id@ && q.deep_view().op == q.op@ && q.deep_view().params
            == q.params.deep_view(),
        r.deep_view().id == r.id@ && r.deep_view().ok == r.ok && r.deep_view().error
            == r.error.deep_view() && r.deep_view().data == r.data.deep_view(),
        RpcData::Null.deep_view() == RpcDataV::Null,
        RpcData::Gateway(a).deep_view() == RpcDataV::Gateway(a@),
        RpcData::Nodes(nodes).deep_view() == RpcDataV::Nodes(nodes.deep_view()),
        (RpcData::Key { node: a, key: b }).deep_view() == (RpcDataV::Key { node: a@, key: b@ }),
        RpcData::Joined(joined).deep_view() == RpcDataV::Joined(joined.deep_view()),
        RpcData::Item(item).deep_view() == RpcDataV::Item(item),
        RpcData::Queue(rows).deep_view() == RpcDataV::Queue(rows.deep_view()),
{
}

/// What the commands do next, and what they show.
pub proof fn law_steps(
    op: String,
    params: RpcParams,
    timeout_ms: u64,
    node: u32,
    c: u8,
    e: ClientError,
    emit: Emit,
    nodes: Vec<Node>,
    n: Node,
    key: Option<String>,
    mgmt: MgmtOp,
)
    ensures
        (Step::Retained { topic: op }).deep_view() == (StepV::Retained { topic: op@ }),
        (Step::Shell { node }).deep_view() == (StepV::Shell { node }),
        (Step::Cable { port: op }).deep_view() == (StepV::Cable { port: op@ }),
        Step::Exit(c).deep_view() == StepV::Exit(c),
        Step::Failed(e).deep_view() == StepV::Failed(e.deep_view()),
        ClientError::Timeout.deep_view() == ClientErrorV::Timeout,
        ClientError::TimeoutIn(op).deep_view() == ClientErrorV::TimeoutIn(op@),
        ClientError::Failed(op).deep_view() == ClientErrorV::Failed(op@),
        Show::Emit(emit).deep_view() == ShowV::Emit(emit.deep_view()),
        Show::NodesJson(nodes).deep_view() == ShowV::NodesJson(nodes.deep_view()),
        (Show::NodeJson { node: n, key }).deep_view() == (ShowV::NodeJson {
            node: n.deep_view(),
            key: key.deep_view(),
        }),
        PairStep::Provision(mgmt).deep_view() == PairStepV::Provision(mgmt.deep_view()),
        PairStep::Exit(c).deep_view() == PairStepV::Exit(c),
        PairStep::Failed(e).deep_view() == PairStepV::Failed(e.deep_view()),
        WorkStep::Provision(mgmt).deep_view() == WorkStepV::Provision(mgmt.deep_view()),
        WorkStep::Stop.deep_view() == WorkStepV::Stop,
        CableMsg::Progress(op).deep_view() == CableMsgV::Progress(op@),
        (CableMsg::Done { addr: node }).deep_view() == (CableMsgV::Done { addr: node }),
        CableMsg::Failed(op).deep_view() == CableMsgV::Failed(op@),
{
}

/// What the bar of a flash does.
pub proof fn law_bars(n: u64, id: u16)
    ensures
        BarStep::Chip(id).deep_view() == BarStepV::Chip(id),
        BarStep::Length(n).deep_view() == BarStepV::Length(n),
        BarStep::Position(n).deep_view() == BarStepV::Position(n),
        BarStep::Clear.deep_view() == BarStepV::Clear,
{
}

/// What the screens hold, and what they ask for.
pub proof fn law_screens(
    s: String,
    t: String,
    node: u32,
    r: u8,
    a: usize,
    at: u64,
    b: bool,
    id: u16,
    cursor: u16,
    req: RpcRequest,
    line: ShellReq,
)
    ensures
        DialogLine::Sent(s).deep_view() == DialogLineV::Sent(s@),
        DialogLine::Text(s).deep_view() == DialogLineV::Text(s@),
        DialogLine::Failed(s).deep_view() == DialogLineV::Failed(s@),
        DialogLine::Done(r).deep_view() == DialogLineV::Done(r),
        Modal::ConfirmRemove(node).deep_view() == ModalV::ConfirmRemove(node),
        Modal::ConfirmReveal(node).deep_view() == ModalV::ConfirmReveal(node),
        (Modal::Rename { node, buf: s }).deep_view() == (ModalV::Rename { node, buf: s@ }),
        (Modal::Key { node, key: s, shown: at }).deep_view() == (ModalV::Key {
            node,
            key: s@,
            shown: at,
        }),
        (Modal::PairMenu { selected: a }).deep_view() == (ModalV::PairMenu { selected: a }),
        (Modal::PairOta { opened_at: at, seen_open: b }).deep_view() == (ModalV::PairOta {
            opened_at: at,
            seen_open: b,
        }),
        (Modal::Info { title: s, text: t }).deep_view() == (ModalV::Info { title: s@, text: t@ }),
        (Modal::Pending { node, selected: a }).deep_view() == (ModalV::Pending { node, selected: a }),
        Action::StartCable(s).deep_view() == ActionV::StartCable(s@),
        Action::CaptureMouse(b).deep_view() == ActionV::CaptureMouse(b),
        Action::Send(FrontendCmd::Rpc(req)).deep_view() == ActionV::Rpc(req.deep_view()),
        Action::Send(FrontendCmd::Shell { node, req: line }).deep_view() == (ActionV::Shell {
            node,
            id: line.id@,
            line: line.line@,
            ttl_s: line.ttl_s,
        }),
        Request::Nothing.deep_view() == RequestV::Nothing,
        (Request::Complete { req_id: id, line: s, cursor }).deep_view() == (RequestV::Complete {
            req_id: id,
            line: s@,
            cursor,
        }),
        (Request::Command { cmd_id: id, line: s }).deep_view() == (RequestV::Command {
            cmd_id: id,
            line: s@,
        }),
{
}

/// What the engine holds of its requests, its lines and its nodes.
pub proof fn law_what_the_engine_holds(e: Engine, m: PendingMgmt, p: PendingShell, n: NodeMirror)
    ensures
        e@.prefix == e.prefix@ && e@.port_name == e.port_name@ && e@.firmware_version
            == e.firmware_version@,
        e@.serial_up == e.serial_up && e@.mqtt_up == e.mqtt_up,
        e@.seq == e.seq && e@.next_req == e.next_req && e@.next_cmd == e.next_cmd,
        e@.tick == e.tick && e@.uplinks == e.uplinks && e@.pairing_until == e.pairing_until,
        e@.nodes == e.nodes.deep_view() && e@.pending_mgmt == e.pending_mgmt.deep_view(),
        m.deep_view().req_id == m.req_id && m.deep_view().next_chunk == m.next_chunk,
        m.deep_view().data == m.data@ && m.deep_view().deadline == m.deadline,
        p.deep_view().item == p.item && p.deep_view().cmd_id == p.cmd_id,
        p.deep_view().rpc == p.rpc@ && p.deep_view().line == p.line@,
        p.deep_view().next_chunk == p.next_chunk && p.deep_view().truncated == p.truncated,
        n.deep_view().entry == n.entry.deep_view() && n.deep_view().kind == n.kind@,
        n.deep_view().pending == n.pending.deep_view(),
{
}

/// What the screens hold of their state.
pub proof fn law_what_the_screens_hold(c: Console, d: Dashboard)
    ensures
        c@.input == c.input@ && c@.resp_buf == c.resp_buf@ && c@.hint == c.hint@,
        c@.zoom == c.zoom && c@.paused == c.paused && c@.connected == c.connected,
        c@.cmd_id == c.cmd_id && c@.req_id == c.req_id && c@.seq == c.seq,
        c@.decode_failures == c.decode_failures && c@.seq_gaps == c.seq_gaps && c@.payload_errors
            == c.payload_errors,
        d@.prefix == d.prefix@ && d@.port == d.port@ && d@.line == d.line@,
        d@.zoom == d.zoom && d@.paused == d.paused && d@.mouse == d.mouse && d@.quit == d.quit,
        d@.serial_up == d.serial_up && d@.mqtt_up == d.mqtt_up,
        d@.selected == d.selected && d@.shell_node == d.shell_node,
        d@.rx_marks == d.rx_marks@ && d@.tx_marks == d.tx_marks@,
        d@.log_scroll == d.log_scroll && d@.mqtt_scroll == d.mqtt_scroll,
{
}

} // verus!

//! `tower nodes`: managing the nodes of a running gateway. A command is a flow of requests;
//! each turn says what to write and what to ask for next.

use crate::client::{
    is_uuid, refusal_text, request_id, resolve_node, resolved, rpc_ok, Answer, ClientError, ClientErrorV, Reply,
};
use crate::commands::{clamp_result, device_code, EXIT_DEVICE_TIMEOUT, EXIT_ERROR, EXIT_OK};
use crate::payload::{
    no_params, Node, NodeV, PendingEntry, PendingEntryV, RpcParams, RpcParamsV, ShellReq, ShellRsp,
};
use crate::render::{Emit, EmitV};
use crate::text::{
    cat2, cat3, cat5, cat6, dec, dec_i64, dec_int, dec_u64, pad_left, pad_right,
    padded_left, padded_right, push_deep, same,
};
use crate::topics::{
    addr_of, addr_text, node_hex, node_shell_pending, node_shell_req, node_shell_rsp, node_topic,
    parse_node_hex,
};
use vstd::prelude::*;
use vstd::string::*;

verus! {

/// A command on the nodes.
#[derive(Debug, PartialEq)]
pub enum NodesCmd {
    List { json: bool },
    Show { node: String, keys: bool, json: bool },
    Add { ota: bool, port: Option<String>, window: u16, name: Option<String> },
    Remove { node: String },
    Rename { node: String, name: String },
    Shell { node: String, line: String, ttl: u16, timeout: u64, no_wait: bool },
    Pending { node: String, json: bool },
    Dequeue { node: String, item: u16 },
}

/// What a flow waits for.
#[derive(Debug, PartialEq)]
pub enum Stage {
    /// The registry, to find the node by its name.
    Resolving,
    /// The registry, to list it.
    Listing,
    /// The registry, to show this node.
    Looking { node: u32 },
    /// The key of the node that is shown.
    Revealing { row: Node },
    /// The change to this node.
    Acting { node: u32 },
    /// The retained queue.
    Reading,
    /// A node to join.
    Joining,
    /// The name of the node that joined.
    Naming,
    /// Nothing more.
    Over,
}

#[verifier::ext_equal]
pub enum StageV {
    Resolving,
    Listing,
    Looking { node: u32 },
    Revealing { row: NodeV },
    Acting { node: u32 },
    Reading,
    Joining,
    Naming,
    Over,
}

impl DeepView for Stage {
    type V = StageV;

    open spec fn deep_view(&self) -> StageV {
        match self {
            Stage::Resolving => StageV::Resolving,
            Stage::Listing => StageV::Listing,
            Stage::Looking { node } => StageV::Looking { node: *node },
            Stage::Revealing { row } => StageV::Revealing { row: row.deep_view() },
            Stage::Acting { node } => StageV::Acting { node: *node },
            Stage::Reading => StageV::Reading,
            Stage::Joining => StageV::Joining,
            Stage::Naming => StageV::Naming,
            Stage::Over => StageV::Over,
        }
    }
}

/// What a turn writes.
#[derive(Debug, PartialEq)]
pub enum Show {
    Emit(Emit),
    /// The nodes as JSON.
    NodesJson(Vec<Node>),
    /// One node as JSON, with its key where that was asked for.
    NodeJson { node: Node, key: Option<String> },
    /// The queue as JSON.
    PendingJson(Vec<PendingEntry>),
}

#[verifier::ext_equal]
pub enum ShowV {
    Emit(EmitV),
    NodesJson(Seq<NodeV>),
    NodeJson { node: NodeV, key: Option<Seq<char>> },
    PendingJson(Seq<PendingEntryV>),
}

impl DeepView for Show {
    type V = ShowV;

    open spec fn deep_view(&self) -> ShowV {
        match self {
            Show::Emit(e) => ShowV::Emit(e.deep_view()),
            Show::NodesJson(v) => ShowV::NodesJson(v.deep_view()),
            Show::NodeJson { node, key } => ShowV::NodeJson {
                node: node.deep_view(),
                key: key.deep_view(),
            },
            Show::PendingJson(v) => ShowV::PendingJson(v.deep_view()),
        }
    }
}

/// What a turn asks for.
#[derive(Debug, PartialEq)]
pub enum Step {
    Rpc { op: String, params: RpcParams, timeout_ms: u64 },
    /// The retained message of a topic.
    Retained { topic: String },
    /// The remote shell of a node (see [`ShellWatch`]).
    Shell { node: u32 },
    /// Pairing over the cable on this port.
    Cable { port: String },
    Exit(u8),
    Failed(ClientError),
}

#[verifier::ext_equal]
pub enum StepV {
    Rpc { op: Seq<char>, params: RpcParamsV, timeout_ms: u64 },
    Retained { topic: Seq<char> },
    Shell { node: u32 },
    Cable { port: Seq<char> },
    Exit(u8),
    Failed(ClientErrorV),
}

impl DeepView for Step {
    type V = StepV;

    open spec fn deep_view(&self) -> StepV {
        match self {
            Step::Rpc { op, params, timeout_ms } => StepV::Rpc {
                op: op@,
                params: params.deep_view(),
                timeout_ms: *timeout_ms,
            },
            Step::Retained { topic } => StepV::Retained { topic: topic@ },
            Step::Shell { node } => StepV::Shell { node: *node },
            Step::Cable { port } => StepV::Cable { port: port@ },
            Step::Exit(c) => StepV::Exit(*c),
            Step::Failed(e) => StepV::Failed(e.deep_view()),
        }
    }
}

/// One turn of a flow.
#[derive(Debug, PartialEq)]
pub struct Turn {
    pub out: Vec<Show>,
    pub step: Step,
}

/// What a turn leads to.
#[verifier::ext_equal]
pub struct TurnV {
    pub stage: StageV,
    pub out: Seq<ShowV>,
    pub step: StepV,
}

/// A command on its way.
#[derive(Debug, PartialEq)]
pub struct NodesFlow {
    pub cmd: NodesCmd,
    pub prefix: String,
    /// How long the gateway may take to answer, in milliseconds.
    pub timeout: u64,
    pub stage: Stage,
}

// ---- what is written ---------------------------------------------------------------

pub open spec fn cell_or(s: Seq<char>, other: Seq<char>) -> Seq<char> {
    if s.len() == 0 {
        other
    } else {
        s
    }
}

/// A row of the table.
pub open spec fn row_text(
    id: Seq<char>,
    name: Seq<char>,
    kind: Seq<char>,
    seen: Seq<char>,
    rssi: Seq<char>,
    uplinks: Seq<char>,
    queued: Seq<char>,
    sleep: Seq<char>,
) -> Seq<char> {
    pad_right(id, 12) + " "@ + pad_right(name, 16) + " "@ + pad_right(kind, 12) + " "@ + pad_left(
        seen,
        9,
    ) + " "@ + pad_left(rssi, 6) + " "@ + pad_left(uplinks, 8) + " "@ + pad_left(queued, 5) + " "@
        + pad_right(sleep, 5)
}

pub open spec fn seen_cell(last_seen_s: Option<u32>) -> Seq<char> {
    match last_seen_s {
        Some(s) => dec(s as nat) + "s"@,
        None => "never"@,
    }
}

pub open spec fn rssi_cell(rssi_dbm: Option<i8>) -> Seq<char> {
    match rssi_dbm {
        Some(r) => dec_int(r as int) + "dBm"@,
        None => "—"@,
    }
}

/// A node in the table.
pub open spec fn node_row(n: NodeV) -> Seq<char> {
    row_text(
        n.id,
        cell_or(n.name, "—"@),
        cell_or(n.kind, "?"@),
        seen_cell(n.last_seen_s),
        rssi_cell(n.rssi_dbm),
        dec(n.uplinks as nat),
        dec(n.queued as nat),
        if n.sleeping {
            "yes"@
        } else {
            "no"@
        },
    )
}

pub open spec fn header_row() -> Seq<char> {
    row_text(
        "ADDR"@,
        "NAME"@,
        "TYPE"@,
        "LAST-SEEN"@,
        "RSSI"@,
        "UPLINKS"@,
        "PEND"@,
        "SLEEP"@,
    )
}

pub open spec fn out_line(s: Seq<char>) -> ShowV {
    ShowV::Emit(EmitV::Line(s))
}

pub open spec fn out_note(s: Seq<char>) -> ShowV {
    ShowV::Emit(EmitV::Note(s))
}

/// The table of the nodes, or a hint where there are none.
pub open spec fn table(nodes: Seq<NodeV>) -> Seq<ShowV> {
    if nodes.len() == 0 {
        seq![out_line("no nodes paired (try `tower nodes add --ota` or `--port <SERIAL>`)"@)]
    } else {
        seq![out_line(header_row())] + Seq::new(nodes.len(), |i: int| out_line(node_row(nodes[i])))
    }
}

fn row(
    id: &str,
    name: &str,
    kind: &str,
    seen: String,
    rssi: String,
    uplinks: String,
    queued: String,
    sleep: &str,
) -> (r: String)
    ensures
        r@ == row_text(id@, name@, kind@, seen@, rssi@, uplinks@, queued@, sleep@),
{
    let a = cat6(
        padded_right(id.to_owned(), 12).as_str(),
        " ",
        padded_right(name.to_owned(), 16).as_str(),
        " ",
        padded_right(kind.to_owned(), 12).as_str(),
        " ",
    );
    let b = cat6(
        a.as_str(),
        padded_left(seen, 9).as_str(),
        " ",
        padded_left(rssi, 6).as_str(),
        " ",
        padded_left(uplinks, 8).as_str(),
    );
    cat5(
        b.as_str(),
        " ",
        padded_left(queued, 5).as_str(),
        " ",
        padded_right(sleep.to_owned(), 5).as_str(),
    )
}

fn row_of(n: &Node) -> (r: String)
    ensures
        r@ == node_row(n.deep_view()),
{
    let seen = match n.last_seen_s {
        Some(s) => cat2(dec_u64(s as u64).as_str(), "s"),
        None => "never".to_owned(),
    };
    let rssi = match n.rssi_dbm {
        Some(v) => cat2(dec_i64(v as i64).as_str(), "dBm"),
        None => "—".to_owned(),
    };
    row(
        n.id.as_str(),
        if n.name.as_str().unicode_len() == 0 {
            "—"
        } else {
            n.name.as_str()
        },
        if n.kind.as_str().unicode_len() == 0 {
            "?"
        } else {
            n.kind.as_str()
        },
        seen,
        rssi,
        dec_u64(n.uplinks as u64),
        dec_u64(n.queued as u64),
        if n.sleeping {
            "yes"
        } else {
            "no"
        },
    )
}

fn line(s: String) -> (r: Show)
    ensures
        r.deep_view() == out_line(s@),
{
    Show::Emit(Emit::Line(s))
}

fn note(s: String) -> (r: Show)
    ensures
        r.deep_view() == out_note(s@),
{
    Show::Emit(Emit::Note(s))
}

/// The table of the nodes.
pub fn print_table(nodes: &Vec<Node>) -> (r: Vec<Show>)
    ensures
        r.deep_view() == table(nodes.deep_view()),
{
    let mut out: Vec<Show> = Vec::new();
    if nodes.len() == 0 {
        out.push(
            line("no nodes paired (try `tower nodes add --ota` or `--port <SERIAL>`)".to_owned()),
        );
        assert(out.deep_view() =~= table(nodes.deep_view()));
        return out;
    }
    out.push(
        line(
            row(
                "ADDR",
                "NAME",
                "TYPE",
                "LAST-SEEN".to_owned(),
                "RSSI".to_owned(),
                "UPLINKS".to_owned(),
                "PEND".to_owned(),
                "SLEEP",
            ),
        ),
    );
    let ghost goal = table(nodes.deep_view());
    let mut i: usize = 0;
    assert(out.deep_view() =~= goal.take(1));
    while i < nodes.len()
        invariant
            i <= nodes@.len(),
            nodes@.len() > 0,
            goal == table(nodes.deep_view()),
            out.deep_view() == goal.take(i + 1),
        decreases nodes@.len() - i,
    {
        push_deep(&mut out, line(row_of(&nodes[i])));
        assert(out.deep_view() =~= goal.take(i + 2));
        i = i + 1;
    }
    assert(goal.take(i + 1) =~= goal);
    out
}

/// A row of the queue.
pub open spec fn pending_row(item: Seq<char>, id: Seq<char>, l: Seq<char>) -> Seq<char> {
    pad_right(item, 6) + " "@ + pad_right(id, 38) + " "@ + l
}

/// The queue of a node, or that there is none.
pub open spec fn pending_table(entries: Seq<PendingEntryV>) -> Seq<ShowV> {
    if entries.len() == 0 {
        seq![out_line("no queued commands"@)]
    } else {
        seq![out_line(pending_row("REF"@, "ID"@, "LINE"@))] + Seq::new(
            entries.len(),
            |i: int|
                out_line(
                    pending_row(dec(entries[i].item as nat), entries[i].id, entries[i].line),
                ),
        )
    }
}

fn row_of_pending(item: String, id: &str, l: &str) -> (r: String)
    ensures
        r@ == pending_row(item@, id@, l@),
{
    cat5(
        padded_right(item, 6).as_str(),
        " ",
        padded_right(id.to_owned(), 38).as_str(),
        " ",
        l,
    )
}

/// The queue of a node.
pub fn print_pending(entries: &Vec<PendingEntry>) -> (r: Vec<Show>)
    ensures
        r.deep_view() == pending_table(entries.deep_view()),
{
    let mut out: Vec<Show> = Vec::new();
    if entries.len() == 0 {
        out.push(line("no queued commands".to_owned()));
        assert(out.deep_view() =~= pending_table(entries.deep_view()));
        return out;
    }
    out.push(line(row_of_pending("REF".to_owned(), "ID", "LINE")));
    let ghost goal = pending_table(entries.deep_view());
    let mut i: usize = 0;
    assert(out.deep_view() =~= goal.take(1));
    while i < entries.len()
        invariant
            i <= entries@.len(),
            entries@.len() > 0,
            goal == pending_table(entries.deep_view()),
            out.deep_view() == goal.take(i + 1),
        decreases entries@.len() - i,
    {
        let e = &entries[i];
        push_deep(
            &mut out,
            line(row_of_pending(dec_u64(e.item as u64), e.id.as_str(), e.line.as_str())),
        );
        assert(out.deep_view() =~= goal.take(i + 2));
        i = i + 1;
    }
    assert(goal.take(i + 1) =~= goal);
    out
}

// ---- the flow of a command ---------------------------------------------------------

pub open spec fn rpc(op: Seq<char>, params: RpcParamsV, timeout_ms: u64) -> StepV {
    StepV::Rpc { op, params, timeout_ms }
}

/// The parameters of a request on one node.
pub open spec fn on_node(node: Seq<char>) -> RpcParamsV {
    RpcParamsV { node: Some(node), ..no_params() }
}

pub open spec fn fails(e: Seq<char>) -> TurnV {
    TurnV {
        stage: StageV::Over,
        out: Seq::empty(),
        step: StepV::Failed(ClientErrorV::Failed(e)),
    }
}

pub open spec fn ends(out: Seq<ShowV>, code: u8) -> TurnV {
    TurnV { stage: StageV::Over, out, step: StepV::Exit(code) }
}

pub open spec fn asks(stage: StageV, step: StepV) -> TurnV {
    TurnV { stage, out: Seq::empty(), step }
}

/// The node that a command is about, as it was given; nothing for the others.
pub open spec fn node_arg(cmd: NodesCmd) -> Seq<char> {
    match cmd {
        NodesCmd::Show { node, .. } => node@,
        NodesCmd::Remove { node } => node@,
        NodesCmd::Rename { node, .. } => node@,
        NodesCmd::Shell { node, .. } => node@,
        NodesCmd::Pending { node, .. } => node@,
        NodesCmd::Dequeue { node, .. } => node@,
        _ => ""@,
    }
}

/// What a command does once its node is known.
#[verifier::opaque]
pub open spec fn acted(cmd: NodesCmd, prefix: Seq<char>, timeout: u64, node: u32) -> TurnV {
    let addr = addr_text(node);
    match cmd {
        NodesCmd::Show { .. } => asks(
            StageV::Looking { node },
            rpc("node_list"@, no_params(), timeout),
        ),
        NodesCmd::Remove { .. } => asks(
            StageV::Acting { node },
            rpc("node_remove"@, on_node(addr), timeout),
        ),
        NodesCmd::Rename { name, .. } => asks(
            StageV::Acting { node },
            rpc("node_rename"@, RpcParamsV { name: Some(name@), ..on_node(addr) }, timeout),
        ),
        NodesCmd::Dequeue { item, .. } => asks(
            StageV::Acting { node },
            rpc("queue_drop"@, RpcParamsV { item: Some(item as u64), ..on_node(addr) }, timeout),
        ),
        NodesCmd::Pending { .. } => asks(
            StageV::Reading,
            StepV::Retained { topic: node_topic(prefix, node, "/shell/pending"@) },
        ),
        NodesCmd::Shell { .. } => asks(StageV::Over, StepV::Shell { node }),
        _ => asks(StageV::Over, StepV::Exit(EXIT_OK)),
    }
}

/// How a command begins. An address stands for itself; a name is looked up first.
#[verifier::opaque]
pub open spec fn begun(cmd: NodesCmd, prefix: Seq<char>, timeout: u64) -> TurnV {
    match cmd {
        NodesCmd::List { .. } => asks(StageV::Listing, rpc("node_list"@, no_params(), timeout)),
        NodesCmd::Add { ota, port, window, name: _ } => match port {
            Some(p) => asks(StageV::Over, StepV::Cable { port: p@ }),
            None => if ota {
                TurnV {
                    stage: StageV::Joining,
                    out: seq![
                        out_note(
                            "[tower] pairing window open for "@ + dec(window as nat)
                                + "s — hold the node's button to join…"@,
                        ),
                    ],
                    step: rpc(
                        "node_add_ota"@,
                        RpcParamsV { window_s: Some(window as u64), ..no_params() },
                        ((window + 10) * 1000) as u64,
                    ),
                }
            } else {
                fails("pick a pairing path: --ota or --port <SERIAL>"@)
            },
        },
        _ => match addr_of(node_arg(cmd)) {
            Some(node) => acted(cmd, prefix, timeout, node),
            None => asks(StageV::Resolving, rpc("node_list"@, no_params(), timeout)),
        },
    }
}

/// The index of the node with this address.
pub open spec fn with_addr(nodes: Seq<NodeV>, addr: Seq<char>) -> Option<int>
    decreases nodes.len(),
{
    if nodes.len() == 0 {
        None
    } else if nodes[0].id == addr {
        Some(0)
    } else {
        match with_addr(nodes.skip(1), addr) {
            Some(i) => Some(i + 1),
            None => None,
        }
    }
}

/// What is shown of one node, with its key where that was asked for.
pub open spec fn shown(json: bool, n: NodeV, key: Option<Seq<char>>) -> Seq<ShowV> {
    if json {
        seq![ShowV::NodeJson { node: n, key }]
    } else {
        match key {
            Some(k) => table(seq![n]) + seq![
                out_note("[tower] key material follows — treat this line as a secret"@),
                out_line("key: "@ + k),
            ],
            None => table(seq![n]),
        }
    }
}

/// What is said of a change that was made.
pub open spec fn done_line(cmd: NodesCmd, node: u32) -> Seq<char> {
    match cmd {
        NodesCmd::Rename { name, .. } => "renamed "@ + addr_text(node) + " to \""@ + name@ + "\""@,
        NodesCmd::Dequeue { item, .. } => "dequeued #"@ + dec(item as nat),
        _ => "removed "@ + addr_text(node),
    }
}

/// The wanted data was not in the response.
pub open spec fn unexpected() -> TurnV {
    fails("unexpected gateway response"@)
}

/// What a successful response does at each stage.
#[verifier::opaque]
pub open spec fn answered(
    cmd: NodesCmd,
    prefix: Seq<char>,
    timeout: u64,
    stage: StageV,
    data: Reply,
) -> TurnV {
    match stage {
        StageV::Resolving => match data {
            Reply::Nodes(Ok(nodes)) => match resolved(nodes.deep_view(), node_arg(cmd)) {
                Ok(node) => acted(cmd, prefix, timeout, node),
                Err(e) => fails(e),
            },
            Reply::Nodes(Err(e)) => fails(e@),
            _ => unexpected(),
        },
        StageV::Listing => match data {
            Reply::Nodes(Ok(nodes)) => ends(
                if cmd == (NodesCmd::List { json: true }) {
                    seq![ShowV::NodesJson(nodes.deep_view())]
                } else {
                    table(nodes.deep_view())
                },
                EXIT_OK,
            ),
            Reply::Nodes(Err(e)) => fails(e@),
            _ => unexpected(),
        },
        StageV::Looking { node } => match data {
            Reply::Nodes(Ok(nodes)) => match with_addr(nodes.deep_view(), addr_text(node)) {
                Some(i) => match cmd {
                    NodesCmd::Show { keys: true, .. } => asks(
                        StageV::Revealing { row: nodes.deep_view()[i] },
                        rpc("reveal_key"@, on_node(addr_text(node)), timeout),
                    ),
                    NodesCmd::Show { json, .. } => ends(
                        shown(json, nodes.deep_view()[i], None),
                        EXIT_OK,
                    ),
                    _ => unexpected(),
                },
                None => fails("node vanished from the registry"@),
            },
            Reply::Nodes(Err(e)) => fails(e@),
            _ => unexpected(),
        },
        StageV::Revealing { row } => {
            let key = match data {
                Reply::Key(Some(k)) => Some(k@),
                _ => None,
            };
            match cmd {
                NodesCmd::Show { json, .. } => ends(shown(json, row, key), EXIT_OK),
                _ => unexpected(),
            }
        },
        StageV::Acting { node } => ends(seq![out_line(done_line(cmd, node))], EXIT_OK),
        StageV::Joining => match data {
            Reply::Joined(Some(hex)) => match cmd {
                NodesCmd::Add { name: Some(n), .. } => TurnV {
                    stage: StageV::Naming,
                    out: seq![out_line("paired "@ + hex@)],
                    step: rpc(
                        "node_rename"@,
                        RpcParamsV { name: Some(n@), ..on_node(hex@) },
                        timeout,
                    ),
                },
                _ => ends(seq![out_line("paired "@ + hex@)], EXIT_OK),
            },
            _ => ends(
                seq![out_note("[tower] window expired — no node joined"@)],
                EXIT_ERROR,
            ),
        },
        StageV::Naming => match cmd {
            NodesCmd::Add { name: Some(n), .. } => ends(
                seq![out_line("named \""@ + n@ + "\""@)],
                EXIT_OK,
            ),
            _ => unexpected(),
        },
        _ => unexpected(),
    }
}

/// What a response does: a refusal ends the command with what the gateway said.
pub open spec fn turned(
    cmd: NodesCmd,
    prefix: Seq<char>,
    timeout: u64,
    stage: StageV,
    a: Answer,
) -> TurnV {
    if a.ok {
        answered(cmd, prefix, timeout, stage, a.data)
    } else {
        fails(refusal_text(a.error))
    }
}

fn none() -> (r: Vec<Show>)
    ensures
        r.deep_view() == Seq::<ShowV>::empty(),
{
    let v: Vec<Show> = Vec::new();
    assert(v.deep_view() =~= Seq::<ShowV>::empty());
    v
}

fn one(s: Show) -> (r: Vec<Show>)
    ensures
        r.deep_view() == seq![s.deep_view()],
{
    let mut v: Vec<Show> = Vec::new();
    v.push(s);
    assert(v.deep_view() =~= seq![s.deep_view()]);
    v
}

pub fn on_node_of(node: &str) -> (r: RpcParams)
    ensures
        r.deep_view() == on_node(node@),
{
    let mut p = RpcParams::none();
    p.node = Some(node.to_owned());
    p
}

fn position(nodes: &Vec<Node>, addr: &str) -> (r: Option<usize>)
    ensures
        match with_addr(nodes.deep_view(), addr@) {
            Some(i) => r is Some && r->0 == i && i < nodes@.len(),
            None => r is None,
        },
{
    let mut i: usize = 0;
    let ghost all = nodes.deep_view();
    assert(all.skip(0) =~= all);
    while i < nodes.len()
        invariant
            i <= nodes@.len(),
            all == nodes.deep_view(),
            match with_addr(all.skip(i as int), addr@) {
                Some(j) => with_addr(all, addr@) == Some(i + j),
                None => with_addr(all, addr@) is None,
            },
        decreases nodes@.len() - i,
    {
        assert(all.skip(i as int).skip(1) =~= all.skip(i + 1));
        assert(all.skip(i as int)[0] == nodes@[i as int].deep_view());
        if same(nodes[i].id.as_str(), addr) {
            return Some(i);
        }
        i = i + 1;
    }
    None
}

/// The node at `i`, taken out of the list.
fn take_node(nodes: Vec<Node>, i: usize) -> (r: Node)
    requires
        i < nodes@.len(),
    ensures
        r == nodes@[i as int],
{
    let mut v = nodes;
    v.remove(i)
}

fn show_node(json: bool, n: Node, key: Option<String>) -> (r: Vec<Show>)
    ensures
        r.deep_view() == shown(json, n.deep_view(), key.deep_view()),
{
    if json {
        return one(Show::NodeJson { node: n, key });
    }
    let ghost nv = n.deep_view();
    let mut v: Vec<Node> = Vec::new();
    v.push(n);
    assert(v.deep_view() =~= seq![nv]);
    let mut out = print_table(&v);
    if let Some(k) = key {
        let ghost head = out.deep_view();
        push_deep(
            &mut out,
            note("[tower] key material follows — treat this line as a secret".to_owned()),
        );
        push_deep(&mut out, line(cat2("key: ", k.as_str())));
        assert(out.deep_view() =~= head + seq![
            out_note("[tower] key material follows — treat this line as a secret"@),
            out_line("key: "@ + k@),
        ]);
    }
    out
}

/// A turn led to `t`; the command stays what it was.
pub open spec fn led(before: NodesFlow, after: NodesFlow, turn: Turn, t: TurnV) -> bool {
    &&& after.cmd == before.cmd && after.prefix == before.prefix && after.timeout == before.timeout
    &&& after.stage.deep_view() == t.stage
    &&& turn.out.deep_view() == t.out
    &&& turn.step.deep_view() == t.step
}

impl NodesFlow {
    /// A command before its first turn.
    pub fn new(cmd: NodesCmd, prefix: String, timeout: u64) -> (r: NodesFlow)
        ensures
            r == (NodesFlow { cmd, prefix, timeout, stage: Stage::Over }),
    {
        NodesFlow { cmd, prefix, timeout, stage: Stage::Over }
    }

    fn fail(&mut self, e: String) -> (r: Turn)
        ensures
            led(*old(self), *final(self), r, fails(e@)),
    {
        self.stage = Stage::Over;
        Turn { out: none(), step: Step::Failed(ClientError::Failed(e)) }
    }

    fn end(&mut self, out: Vec<Show>, code: u8) -> (r: Turn)
        ensures
            led(*old(self), *final(self), r, ends(out.deep_view(), code)),
    {
        self.stage = Stage::Over;
        Turn { out, step: Step::Exit(code) }
    }

    fn ask(&mut self, stage: Stage, op: &str, params: RpcParams) -> (r: Turn)
        ensures
            led(
                *old(self),
                *final(self),
                r,
                asks(stage.deep_view(), rpc(op@, params.deep_view(), old(self).timeout)),
            ),
    {
        self.stage = stage;
        Turn {
            out: none(),
            step: Step::Rpc { op: op.to_owned(), params, timeout_ms: self.timeout },
        }
    }

    fn act(&mut self, node: u32) -> (r: Turn)
        ensures
            led(
                *old(self),
                *final(self),
                r,
                acted(old(self).cmd, old(self).prefix@, old(self).timeout, node),
            ),
    {
        proof {
            reveal(acted);
        }
        let addr = node_hex(node);
        match &self.cmd {
            NodesCmd::Show { .. } => self.ask(Stage::Looking { node }, "node_list", RpcParams::none()),
            NodesCmd::Remove { .. } => self.ask(
                Stage::Acting { node },
                "node_remove",
                on_node_of(addr.as_str()),
            ),
            NodesCmd::Rename { node: _, name } => {
                let mut p = on_node_of(addr.as_str());
                p.name = Some(name.as_str().to_owned());
                self.ask(Stage::Acting { node }, "node_rename", p)
            },
            NodesCmd::Dequeue { node: _, item } => {
                let mut p = on_node_of(addr.as_str());
                p.item = Some(*item as u64);
                self.ask(Stage::Acting { node }, "queue_drop", p)
            },
            NodesCmd::Pending { .. } => {
                self.stage = Stage::Reading;
                Turn {
                    out: none(),
                    step: Step::Retained { topic: node_shell_pending(self.prefix.as_str(), node) },
                }
            },
            NodesCmd::Shell { .. } => {
                self.stage = Stage::Over;
                Turn { out: none(), step: Step::Shell { node } }
            },
            _ => {
                self.stage = Stage::Over;
                Turn { out: none(), step: Step::Exit(EXIT_OK) }
            },
        }
    }

    /// The first turn of a command.
    pub fn start(&mut self) -> (r: Turn)
        ensures
            led(
                *old(self),
                *final(self),
                r,
                begun(old(self).cmd, old(self).prefix@, old(self).timeout),
            ),
    {
        proof {
            reveal(begun);
        }
        let arg: &str = match &self.cmd {
            NodesCmd::List { .. } => {
                return self.ask(Stage::Listing, "node_list", RpcParams::none());
            },
            NodesCmd::Add { ota, port, window, name: _ } => {
                return match port {
                    Some(p) => {
                        let port = p.as_str().to_owned();
                        self.stage = Stage::Over;
                        Turn { out: none(), step: Step::Cable { port } }
                    },
                    None => if *ota {
                        let window = *window;
                        self.open_window(window)
                    } else {
                        self.fail("pick a pairing path: --ota or --port <SERIAL>".to_owned())
                    },
                };
            },
            NodesCmd::Show { node, .. } => node.as_str(),
            NodesCmd::Remove { node } => node.as_str(),
            NodesCmd::Rename { node, .. } => node.as_str(),
            NodesCmd::Shell { node, .. } => node.as_str(),
            NodesCmd::Pending { node, .. } => node.as_str(),
            NodesCmd::Dequeue { node, .. } => node.as_str(),
        };
        match parse_node_hex(arg) {
            Some(node) => self.act(node),
            None => self.ask(Stage::Resolving, "node_list", RpcParams::none()),
        }
    }

    /// Opens the pairing window. The response comes when the window closes, so it is given
    /// that long.
    fn open_window(&mut self, window: u16) -> (r: Turn)
        ensures
            led(
                *old(self),
                *final(self),
                r,
                TurnV {
                    stage: StageV::Joining,
                    out: seq![
                        out_note(
                            "[tower] pairing window open for "@ + dec(window as nat)
                                + "s — hold the node's button to join…"@,
                        ),
                    ],
                    step: rpc(
                        "node_add_ota"@,
                        RpcParamsV { window_s: Some(window as u64), ..no_params() },
                        ((window + 10) * 1000) as u64,
                    ),
                },
            ),
    {
        self.stage = Stage::Joining;
        let mut params = RpcParams::none();
        params.window_s = Some(window as u64);
        let said = cat3(
            "[tower] pairing window open for ",
            dec_u64(window as u64).as_str(),
            "s — hold the node's button to join…",
        );
        Turn {
            out: one(note(said)),
            step: Step::Rpc {
                op: "node_add_ota".to_owned(),
                params,
                timeout_ms: (window as u64 + 10) * 1000,
            },
        }
    }

    /// A failure outside (no answer, a lost broker) ends the command.
    pub fn on_error(&mut self, e: ClientError) -> (r: Turn)
        ensures
            led(
                *old(self),
                *final(self),
                r,
                (TurnV {
                    stage: StageV::Over,
                    out: Seq::empty(),
                    step: StepV::Failed(e.deep_view()),
                }),
            ),
    {
        self.stage = Stage::Over;
        Turn { out: none(), step: Step::Failed(e) }
    }

    /// Takes the response to the last request.
    pub fn on_answer(&mut self, a: Answer) -> (r: Turn)
        ensures
            led(
                *old(self),
                *final(self),
                r,
                turned(
                    old(self).cmd,
                    old(self).prefix@,
                    old(self).timeout,
                    old(self).stage.deep_view(),
                    a,
                ),
            ),
    {
        match rpc_ok(a) {
            Ok(data) => self.on_data(data),
            Err(e) => self.fail(e),
        }
    }

    fn on_data(&mut self, data: Reply) -> (r: Turn)
        ensures
            led(
                *old(self),
                *final(self),
                r,
                answered(
                    old(self).cmd,
                    old(self).prefix@,
                    old(self).timeout,
                    old(self).stage.deep_view(),
                    data,
                ),
            ),
    {
        proof {
            reveal(answered);
        }
        let mut stage = Stage::Over;
        std::mem::swap(&mut self.stage, &mut stage);
        match stage {
            Stage::Resolving => self.on_registry(data),
            Stage::Listing => match data {
                Reply::Nodes(Ok(nodes)) => {
                    let json = match &self.cmd {
                        NodesCmd::List { json } => *json,
                        _ => false,
                    };
                    if json {
                        self.end(one(Show::NodesJson(nodes)), EXIT_OK)
                    } else {
                        let out = print_table(&nodes);
                        self.end(out, EXIT_OK)
                    }
                },
                Reply::Nodes(Err(e)) => self.fail(e),
                _ => self.fail("unexpected gateway response".to_owned()),
            },
            Stage::Looking { node } => self.on_row(node, data),
            Stage::Revealing { row } => {
                let key = match data {
                    Reply::Key(k) => k,
                    _ => None,
                };
                match &self.cmd {
                    NodesCmd::Show { node: _, keys: _, json } => {
                        let out = show_node(*json, row, key);
                        self.end(out, EXIT_OK)
                    },
                    _ => self.fail("unexpected gateway response".to_owned()),
                }
            },
            Stage::Acting { node } => {
                let addr = node_hex(node);
                let said = match &self.cmd {
                    NodesCmd::Rename { node: _, name } => cat5(
                        "renamed ",
                        addr.as_str(),
                        " to \"",
                        name.as_str(),
                        "\"",
                    ),
                    NodesCmd::Dequeue { node: _, item } => cat2(
                        "dequeued #",
                        dec_u64(*item as u64).as_str(),
                    ),
                    _ => cat2("removed ", addr.as_str()),
                };
                self.end(one(line(said)), EXIT_OK)
            },
            Stage::Joining => self.on_joined(data),
            Stage::Naming => {
                let said = match &self.cmd {
                    NodesCmd::Add { ota: _, port: _, window: _, name: Some(n) } => cat3(
                        "named \"",
                        n.as_str(),
                        "\"",
                    ),
                    _ => {
                        return self.fail("unexpected gateway response".to_owned());
                    },
                };
                self.end(one(line(said)), EXIT_OK)
            },
            _ => self.fail("unexpected gateway response".to_owned()),
        }
    }

    fn on_registry(&mut self, data: Reply) -> (r: Turn)
        ensures
            led(
                *old(self),
                *final(self),
                r,
                answered(
                    old(self).cmd,
                    old(self).prefix@,
                    old(self).timeout,
                    StageV::Resolving,
                    data,
                ),
            ),
    {
        proof {
            reveal(answered);
        }
        match data {
            Reply::Nodes(Ok(nodes)) => {
                let found = resolve_node(&nodes, self.node_name());
                match found {
                    Ok(node) => self.act(node),
                    Err(e) => self.fail(e),
                }
            },
            Reply::Nodes(Err(e)) => self.fail(e),
            _ => self.fail("unexpected gateway response".to_owned()),
        }
    }

    fn on_row(&mut self, node: u32, data: Reply) -> (r: Turn)
        ensures
            led(
                *old(self),
                *final(self),
                r,
                answered(
                    old(self).cmd,
                    old(self).prefix@,
                    old(self).timeout,
                    StageV::Looking { node },
                    data,
                ),
            ),
    {
        proof {
            reveal(answered);
        }
        match data {
            Reply::Nodes(Ok(nodes)) => {
                let addr = node_hex(node);
                match position(&nodes, addr.as_str()) {
                    Some(i) => {
                        let row = take_node(nodes, i);
                        match &self.cmd {
                            NodesCmd::Show { node: _, keys, json } => if *keys {
                                self.ask(
                                    Stage::Revealing { row },
                                    "reveal_key",
                                    on_node_of(addr.as_str()),
                                )
                            } else {
                                let out = show_node(*json, row, None);
                                self.end(out, EXIT_OK)
                            },
                            _ => self.fail("unexpected gateway response".to_owned()),
                        }
                    },
                    None => self.fail("node vanished from the registry".to_owned()),
                }
            },
            Reply::Nodes(Err(e)) => self.fail(e),
            _ => self.fail("unexpected gateway response".to_owned()),
        }
    }

    fn on_joined(&mut self, data: Reply) -> (r: Turn)
        ensures
            led(
                *old(self),
                *final(self),
                r,
                answered(
                    old(self).cmd,
                    old(self).prefix@,
                    old(self).timeout,
                    StageV::Joining,
                    data,
                ),
            ),
    {
        proof {
            reveal(answered);
        }
        match data {
            Reply::Joined(Some(hex)) => {
                let out = one(line(cat2("paired ", hex.as_str())));
                match &self.cmd {
                    NodesCmd::Add { ota: _, port: _, window: _, name: Some(n) } => {
                        let mut p = on_node_of(hex.as_str());
                        p.name = Some(n.as_str().to_owned());
                        let mut turn = self.ask(Stage::Naming, "node_rename", p);
                        turn.out = out;
                        turn
                    },
                    _ => self.end(out, EXIT_OK),
                }
            },
            _ => self.end(
                one(note("[tower] window expired — no node joined".to_owned())),
                EXIT_ERROR,
            ),
        }
    }

    /// The node that the command is about, as it was given.
    fn node_name(&self) -> (r: &str)
        ensures
            r@ == node_arg(self.cmd),
    {
        match &self.cmd {
            NodesCmd::Show { node, .. } => node.as_str(),
            NodesCmd::Remove { node } => node.as_str(),
            NodesCmd::Rename { node, .. } => node.as_str(),
            NodesCmd::Shell { node, .. } => node.as_str(),
            NodesCmd::Pending { node, .. } => node.as_str(),
            NodesCmd::Dequeue { node, .. } => node.as_str(),
            _ => "",
        }
    }

    /// Takes the retained queue of the node (empty where nothing is retained).
    pub fn on_retained(&mut self, entries: Vec<PendingEntry>) -> (r: Turn)
        ensures
            led(
                *old(self),
                *final(self),
                r,
                ends(
                    match old(self).cmd {
                        NodesCmd::Pending { json: true, .. } => seq![
                            ShowV::PendingJson(entries.deep_view()),
                        ],
                        _ => pending_table(entries.deep_view()),
                    },
                    EXIT_OK,
                ),
            ),
    {
        let json = match &self.cmd {
            NodesCmd::Pending { node: _, json } => *json,
            _ => false,
        };
        let out = if json {
            one(Show::PendingJson(entries))
        } else {
            print_pending(&entries)
        };
        self.end(out, EXIT_OK)
    }
}

// ---- the remote shell of a node ----------------------------------------------------

/// A remote-shell line that waits for its answer.
#[derive(Debug, PartialEq)]
pub struct ShellWatch {
    pub req_id: String,
    /// Where the answer is published.
    pub rsp_topic: String,
    /// 1 once a chunk was lost.
    pub result: u8,
    /// Something of the answer has come.
    pub begun: bool,
}

/// A remote-shell line that is about to be sent.
#[derive(Debug, PartialEq)]
pub struct ShellStart {
    pub watch: ShellWatch,
    /// Where the line is published.
    pub req_topic: String,
    pub req: ShellReq,
    /// Written once it is sent.
    pub out: Vec<Emit>,
    /// Where the answer is not waited for: the exit code.
    pub code: Option<u8>,
}

pub open spec fn shell_sent(prefix: Seq<char>, node: u32, no_wait: bool) -> Seq<EmitV> {
    if no_wait {
        seq![
            EmitV::Line(
                "queued for "@ + addr_text(node) + " (reply will publish on "@ + node_topic(
                    prefix,
                    node,
                    "/shell/rsp"@,
                ) + ")"@,
            ),
        ]
    } else {
        seq![
            EmitV::Note(
                "[tower] queued — waiting for the node to wake (Ctrl-C to stop waiting)…"@,
            ),
        ]
    }
}

pub open spec fn larger(a: u8, b: u8) -> u8 {
    if a >= b {
        a
    } else {
        b
    }
}

/// What a chunk of the answer does: the result so far, what is written, and the exit code
/// where it was the last.
pub open spec fn chunk_taken(result: u8, rsp: ShellRsp) -> (u8, Seq<EmitV>, Option<u8>) {
    match rsp.error {
        Some(e) => (result, seq![EmitV::Note("[tower] "@ + e@)], Some(EXIT_ERROR)),
        None => {
            let now = if rsp.truncated {
                larger(result, 1)
            } else {
                result
            };
            (
                now,
                if rsp.truncated {
                    seq![
                        EmitV::Text(rsp.text@),
                        EmitV::Note("[tower] response truncated (chunk lost over the air)"@),
                    ]
                } else {
                    seq![EmitV::Text(rsp.text@)]
                },
                if rsp.done {
                    Some(device_code(larger(rsp.result, now)))
                } else {
                    None
                },
            )
        },
    }
}

/// A message of the broker is a chunk of the answer that is waited for.
pub open spec fn is_for(w: ShellWatch, topic: Seq<char>, rsp: Option<ShellRsp>) -> bool {
    topic == w.rsp_topic@ && rsp is Some && rsp->0.id@ == w.req_id@
}

impl ShellWatch {
    /// A line for `node` under the id `id`.
    pub fn new(prefix: &str, node: u32, id: String, line: String, ttl_s: u16, no_wait: bool) -> (r:
        ShellStart)
        ensures
            r.watch.req_id@ == id@ && r.watch.result == 0 && !r.watch.begun,
            r.watch.rsp_topic@ == node_topic(prefix@, node, "/shell/rsp"@),
            r.req_topic@ == node_topic(prefix@, node, "/shell/req"@),
            r.req.id@ == id@ && r.req.line@ == line@ && r.req.ttl_s == ttl_s,
            r.out.deep_view() == shell_sent(prefix@, node, no_wait),
            r.code == if no_wait {
                Some(EXIT_OK)
            } else {
                None::<u8>
            },
    {
        let rsp_topic = node_shell_rsp(prefix, node);
        let mut out: Vec<Emit> = Vec::new();
        if no_wait {
            out.push(
                Emit::Line(
                    cat5(
                        "queued for ",
                        node_hex(node).as_str(),
                        " (reply will publish on ",
                        rsp_topic.as_str(),
                        ")",
                    ),
                ),
            );
        } else {
            out.push(
                Emit::Note(
                    "[tower] queued — waiting for the node to wake (Ctrl-C to stop waiting)…".to_owned(),
                ),
            );
        }
        assert(out.deep_view() =~= shell_sent(prefix@, node, no_wait));
        let req = ShellReq { id: id.as_str().to_owned(), line, ttl_s };
        ShellStart {
            watch: ShellWatch { req_id: id, rsp_topic, result: 0, begun: false },
            req_topic: node_shell_req(prefix, node),
            req,
            out,
            code: if no_wait {
                Some(EXIT_OK)
            } else {
                None
            },
        }
    }

    /// A line for `node` under a fresh id.
    pub fn start(prefix: &str, node: u32, line: String, ttl_s: u16, no_wait: bool) -> (r: ShellStart)
        ensures
            is_uuid(r.watch.req_id@),
            r.watch.result == 0 && !r.watch.begun,
            r.watch.rsp_topic@ == node_topic(prefix@, node, "/shell/rsp"@),
            r.req_topic@ == node_topic(prefix@, node, "/shell/req"@),
            r.req.id@ == r.watch.req_id@ && r.req.line@ == line@ && r.req.ttl_s == ttl_s,
            r.out.deep_view() == shell_sent(prefix@, node, no_wait),
            r.code == if no_wait {
                Some(EXIT_OK)
            } else {
                None::<u8>
            },
    {
        ShellWatch::new(prefix, node, request_id(), line, ttl_s, no_wait)
    }

    /// Whether a message is a chunk of the answer: then the wait starts anew.
    pub fn extends(&self, topic: &str, rsp: &Option<ShellRsp>) -> (r: bool)
        ensures
            r == is_for(*self, topic@, *rsp),
    {
        match rsp {
            Some(c) => same(topic, self.rsp_topic.as_str()) && same(
                c.id.as_str(),
                self.req_id.as_str(),
            ),
            None => false,
        }
    }

    /// Takes a message of the broker; `rsp` is its payload, where that is a chunk. What
    /// belongs to another topic or another dialog with the same node is passed over.
    pub fn on_message(&mut self, topic: &str, rsp: Option<ShellRsp>) -> (r: (
        Vec<Emit>,
        Option<u8>,
    ))
        ensures
            final(self).req_id == old(self).req_id && final(self).rsp_topic == old(self).rsp_topic,
            final(self).begun == (old(self).begun || is_for(*old(self), topic@, rsp)),
            (final(self).result, r.0.deep_view(), r.1) == if is_for(*old(self), topic@, rsp) {
                chunk_taken(old(self).result, rsp->0)
            } else {
                (old(self).result, Seq::empty(), None)
            },
    {
        let mut out: Vec<Emit> = Vec::new();
        assert(out.deep_view() =~= Seq::<EmitV>::empty());
        if !self.extends(topic, &rsp) {
            return (out, None);
        }
        let rsp = match rsp {
            Some(rsp) => rsp,
            None => {
                return (out, None);
            },
        };
        self.begun = true;
        let ghost taken = chunk_taken(self.result, rsp);
        if let Some(e) = rsp.error {
            push_deep(&mut out, Emit::Note(cat2("[tower] ", e.as_str())));
            assert(out.deep_view() =~= taken.1);
            return (out, Some(EXIT_ERROR));
        }
        push_deep(&mut out, Emit::Text(rsp.text));
        if rsp.truncated {
            push_deep(
                &mut out,
                Emit::Note("[tower] response truncated (chunk lost over the air)".to_owned()),
            );
            if self.result < 1 {
                self.result = 1;
            }
        }
        assert(out.deep_view() =~= taken.1);
        if rsp.done {
            let worst: u8 = if rsp.result >= self.result {
                rsp.result
            } else {
                self.result
            };
            (out, Some(clamp_result(worst)))
        } else {
            (out, None)
        }
    }

    /// The wait is over without a last chunk: what is said, and the exit code. An answer
    /// that has begun is incomplete; otherwise there was none.
    pub fn expired(&self) -> (r: (Emit, u8))
        ensures
            (r.0.deep_view(), r.1) == if self.begun {
                (EmitV::Note("[tower] response incomplete"@), EXIT_ERROR)
            } else {
                (
                    EmitV::Note(
                        "[tower] no reply within the wait window (the command stays queued)"@,
                    ),
                    EXIT_DEVICE_TIMEOUT,
                )
            },
    {
        if self.begun {
            return (Emit::Note("[tower] response incomplete".to_owned()), EXIT_ERROR);
        }
        (
            Emit::Note(
                "[tower] no reply within the wait window (the command stays queued)".to_owned(),
            ),
            EXIT_DEVICE_TIMEOUT,
        )
    }
}

// ---- laws --------------------------------------------------------------------------

/// A command on a node that was given by its address goes to that node, without a look
/// into the registry; the gateway is asked for no change before the node is known.
pub proof fn law_addresses_are_taken_as_they_are(
    cmd: NodesCmd,
    prefix: Seq<char>,
    timeout: u64,
    node: u32,
)
    requires
        !(cmd is List) && !(cmd is Add),
    ensures
        addr_of(node_arg(cmd)) == Some(node) ==> begun(cmd, prefix, timeout) == acted(
            cmd,
            prefix,
            timeout,
            node,
        ),
        addr_of(node_arg(cmd)) is None ==> begun(cmd, prefix, timeout).step == rpc(
            "node_list"@,
            no_params(),
            timeout,
        ),
{
    reveal(begun);
}

/// A key is asked for, and shown, only where that was wished for.
pub proof fn law_keys_stay_hidden(
    cmd: NodesCmd,
    prefix: Seq<char>,
    timeout: u64,
    stage: StageV,
    data: Reply,
)
    requires
        !(cmd matches NodesCmd::Show { keys: true, .. }),
        !(stage is Revealing),
    ensures
        !(answered(cmd, prefix, timeout, stage, data).stage is Revealing),
        match answered(cmd, prefix, timeout, stage, data).step {
            StepV::Rpc { op, .. } => op != "reveal_key"@,
            _ => true,
        },
        !(begun(cmd, prefix, timeout).stage is Revealing),
        match begun(cmd, prefix, timeout).step {
            StepV::Rpc { op, .. } => op != "reveal_key"@,
            _ => true,
        },
{
    reveal(answered);
    reveal(begun);
    reveal(acted);
    reveal_strlit("reveal_key");
    reveal_strlit("node_list");
    reveal_strlit("node_remove");
    reveal_strlit("node_rename");
    reveal_strlit("node_add_ota");
    reveal_strlit("queue_drop");
    assert("reveal_key"@[0] == 'r');
    assert("node_list"@[0] == 'n');
    assert("node_remove"@[0] == 'n');
    assert("node_rename"@[0] == 'n');
    assert("node_add_ota"@[0] == 'n');
    assert("queue_drop"@[0] == 'q');
}

/// A lost chunk is not forgotten: whatever the device's result, the command fails.
pub proof fn law_lost_chunks_fail(result: u8, lost: ShellRsp, last: ShellRsp)
    requires
        lost.truncated,
        lost.error is None,
        last.done,
    ensures
        chunk_taken(chunk_taken(result, lost).0, last).2 matches Some(code) && code != EXIT_OK,
        chunk_taken(result, last).2 matches Some(code) && code <= 123,
{
}

} // verus!

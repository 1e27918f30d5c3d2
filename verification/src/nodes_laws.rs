//! What the commands on the nodes ask for and write, said of the arguments, the responses
//! and the lines themselves.

use crate::client::{Answer, ClientErrorV, Reply};
use crate::nodes::{
    acted, answered, begun, led, pending_table, table, turned, with_addr, NodesCmd, NodesFlow, ShowV,
    StageV, StepV, Turn, TurnV,
};
use crate::payload::{Node, NodeV, PendingEntryV, RpcParamsV};
use crate::render::EmitV;
use crate::text::{dec, dec_int, pad_left, pad_right};
use crate::topics::{addr_of, addr_text};
use vstd::prelude::*;

verus! {

/// Parameters with nothing in them but a node.
pub open spec fn just_node(node: Seq<char>) -> RpcParamsV {
    RpcParamsV {
        node: Some(node),
        id: None,
        key: None,
        name: None,
        sleeping: None,
        window_s: None,
        item: None,
        period_ms: None,
    }
}

/// No parameters.
pub open spec fn nothing() -> RpcParamsV {
    RpcParamsV {
        node: None,
        id: None,
        key: None,
        name: None,
        sleeping: None,
        window_s: None,
        item: None,
        period_ms: None,
    }
}

/// The flow waits for the response to this request, and writes nothing.
pub open spec fn asks_for(t: TurnV, op: Seq<char>, params: RpcParamsV, timeout: u64) -> bool {
    t.out.len() == 0 && t.step == StepV::Rpc { op, params, timeout_ms: timeout }
}

/// The command is over: it writes `lines` and exits with `code`.
pub open spec fn writes(t: TurnV, lines: Seq<ShowV>, code: u8) -> bool {
    t.out == lines && t.step == StepV::Exit(code) && t.stage == StageV::Over
}

/// The command fails with this text.
pub open spec fn fails_with(t: TurnV, e: Seq<char>) -> bool {
    t.out.len() == 0 && t.stage == StageV::Over && t.step == StepV::Failed(ClientErrorV::Failed(e))
}

/// A line on standard output.
pub open spec fn said(s: Seq<char>) -> ShowV {
    ShowV::Emit(EmitV::Line(s))
}

/// The row of a node: address, name, kind, when it was last seen, signal, uplinks, queue,
/// and whether it sleeps, in columns.
pub open spec fn node_line(n: NodeV) -> Seq<char> {
    pad_right(n.id, 12) + " "@ + pad_right(
        if n.name.len() == 0 {
            "—"@
        } else {
            n.name
        },
        16,
    ) + " "@ + pad_right(
        if n.kind.len() == 0 {
            "?"@
        } else {
            n.kind
        },
        12,
    ) + " "@ + pad_left(
        match n.last_seen_s {
            Some(s) => dec(s as nat) + "s"@,
            None => "never"@,
        },
        9,
    ) + " "@ + pad_left(
        match n.rssi_dbm {
            Some(r) => dec_int(r as int) + "dBm"@,
            None => "—"@,
        },
        6,
    ) + " "@ + pad_left(dec(n.uplinks as nat), 8) + " "@ + pad_left(dec(n.queued as nat), 5) + " "@
        + pad_right(
        if n.sleeping {
            "yes"@
        } else {
            "no"@
        },
        5,
    )
}

/// The names of the columns.
pub open spec fn columns_line() -> Seq<char> {
    pad_right("ADDR"@, 12) + " "@ + pad_right("NAME"@, 16) + " "@ + pad_right("TYPE"@, 12) + " "@
        + pad_left("LAST-SEEN"@, 9) + " "@ + pad_left("RSSI"@, 6) + " "@ + pad_left("UPLINKS"@, 8)
        + " "@ + pad_left("PEND"@, 5) + " "@ + pad_right("SLEEP"@, 5)
}

// ---- how a command begins ----------------------------------------------------------

/// With an address, each command asks the gateway for what it is for, about the node with
/// that address; with a name it asks for the registry first.
pub proof fn law_commands_ask_for_what_they_do(
    arg: String,
    name: String,
    line: String,
    flags: (bool, bool),
    numbers: (u16, u16, u64),
    prefix: Seq<char>,
    timeout: u64,
    node: u32,
)
    ensures
        ({
            let (a, b) = flags;
            let (item, ttl, wait) = numbers;
            let show = begun(NodesCmd::Show { node: arg, keys: a, json: b }, prefix, timeout);
            let remove = begun(NodesCmd::Remove { node: arg }, prefix, timeout);
            let rename = begun(NodesCmd::Rename { node: arg, name }, prefix, timeout);
            let shell = begun(
                NodesCmd::Shell { node: arg, line, ttl, timeout: wait, no_wait: a },
                prefix,
                timeout,
            );
            let pending = begun(NodesCmd::Pending { node: arg, json: a }, prefix, timeout);
            let dequeue = begun(NodesCmd::Dequeue { node: arg, item }, prefix, timeout);
            &&& addr_of(arg@) == Some(node) ==> {
                let addr = addr_text(node);
                &&& asks_for(show, "node_list"@, nothing(), timeout) && show.stage
                    == StageV::Looking { node }
                &&& asks_for(remove, "node_remove"@, just_node(addr), timeout) && remove.stage
                    == StageV::Acting { node }
                &&& asks_for(
                    rename,
                    "node_rename"@,
                    RpcParamsV { name: Some(name@), ..just_node(addr) },
                    timeout,
                ) && rename.stage == StageV::Acting { node }
                &&& asks_for(
                    dequeue,
                    "queue_drop"@,
                    RpcParamsV { item: Some(item as u64), ..just_node(addr) },
                    timeout,
                ) && dequeue.stage == StageV::Acting { node }
                &&& shell.step == StepV::Shell { node } && shell.out.len() == 0
                &&& pending.step == StepV::Retained {
                    topic: prefix + "nodes/"@ + addr + "/shell/pending"@,
                } && pending.out.len() == 0 && pending.stage == StageV::Reading
            }
            &&& addr_of(arg@) is None ==> {
                &&& asks_for(show, "node_list"@, nothing(), timeout)
                &&& asks_for(remove, "node_list"@, nothing(), timeout)
                &&& asks_for(rename, "node_list"@, nothing(), timeout)
                &&& asks_for(shell, "node_list"@, nothing(), timeout)
                &&& asks_for(pending, "node_list"@, nothing(), timeout)
                &&& asks_for(dequeue, "node_list"@, nothing(), timeout)
                &&& show.stage == StageV::Resolving && remove.stage == StageV::Resolving
                &&& rename.stage == StageV::Resolving && shell.stage == StageV::Resolving
                &&& pending.stage == StageV::Resolving && dequeue.stage == StageV::Resolving
            }
        }),
{
    reveal(begun);
    reveal(acted);
}

/// Listing asks for the registry. Adding pairs over the cable where a port is given, and
/// otherwise over the air with the given window, for which the gateway gets ten seconds
/// more; without either it fails.
pub proof fn law_list_and_add_begin(
    json: bool,
    ota: bool,
    port: Option<String>,
    window: u16,
    name: Option<String>,
    prefix: Seq<char>,
    timeout: u64,
)
    ensures
        ({
            let list = begun(NodesCmd::List { json }, prefix, timeout);
            let add = begun(NodesCmd::Add { ota, port, window, name }, prefix, timeout);
            &&& asks_for(list, "node_list"@, nothing(), timeout) && list.stage == StageV::Listing
            &&& match port {
                Some(p) => add.step == StepV::Cable { port: p@ } && add.out.len() == 0,
                None => if ota {
                    &&& add.stage == StageV::Joining
                    &&& add.step == StepV::Rpc {
                        op: "node_add_ota"@,
                        params: RpcParamsV { window_s: Some(window as u64), ..nothing() },
                        timeout_ms: (1000 * window + 10_000) as u64,
                    }
                    &&& add.out == seq![
                        ShowV::Emit(
                            EmitV::Note(
                                "[tower] pairing window open for "@ + dec(window as nat)
                                    + "s — hold the node's button to join…"@,
                            ),
                        ),
                    ]
                } else {
                    fails_with(add, "pick a pairing path: --ota or --port <SERIAL>"@)
                },
            }
        }),
{
    reveal(begun);
}

// ---- what the responses lead to ----------------------------------------------------

proof fn lemma_with_addr(nodes: Seq<NodeV>, addr: Seq<char>)
    ensures
        match with_addr(nodes, addr) {
            Some(i) => 0 <= i < nodes.len() && nodes[i].id == addr && forall|j: int|
                0 <= j < i ==> (#[trigger] nodes[j]).id != addr,
            None => forall|j: int| 0 <= j < nodes.len() ==> (#[trigger] nodes[j]).id != addr,
        },
    decreases nodes.len(),
{
    if nodes.len() > 0 && nodes[0].id != addr {
        let rest = nodes.skip(1);
        lemma_with_addr(rest, addr);
        match with_addr(rest, addr) {
            Some(i) => {
                assert(nodes[i + 1] == rest[i]);
                assert forall|j: int| 0 <= j < i + 1 implies (#[trigger] nodes[j]).id != addr by {
                    if j > 0 {
                        assert(nodes[j] == rest[j - 1]);
                    }
                }
            },
            None => {
                assert forall|j: int| 0 <= j < nodes.len() implies (#[trigger] nodes[j]).id != addr by {
                    if j > 0 {
                        assert(nodes[j] == rest[j - 1]);
                    }
                }
            },
        }
    }
}

/// `t` shows the node `n` in the way that was asked for.
pub open spec fn shows(t: TurnV, n: NodeV, json: bool, key: Option<Seq<char>>) -> bool {
    writes(
        t,
        if json {
            seq![ShowV::NodeJson { node: n, key }]
        } else {
            match key {
                None => seq![said(columns_line()), said(node_line(n))],
                Some(k) => seq![
                    said(columns_line()),
                    said(node_line(n)),
                    ShowV::Emit(
                        EmitV::Note("[tower] key material follows — treat this line as a secret"@),
                    ),
                    said("key: "@ + k),
                ],
            }
        },
        0,
    )
}

/// What `nodes show` writes is the row of a listed node with the address that was asked
/// for, the first such one; where no listed node has it, the command fails. With keys, the
/// key of that very node is asked for first.
pub proof fn law_show_shows_the_node(
    arg: String,
    keys: bool,
    json: bool,
    prefix: Seq<char>,
    timeout: u64,
    node: u32,
    a: Answer,
    nodes: Vec<Node>,
)
    requires
        a.ok,
        a.data == Reply::Nodes(Ok(nodes)),
    ensures
        ({
            let t = turned(
                NodesCmd::Show { node: arg, keys, json },
                prefix,
                timeout,
                StageV::Looking { node },
                a,
            );
            let all = nodes.deep_view();
            let addr = addr_text(node);
            &&& (forall|j: int| 0 <= j < all.len() ==> (#[trigger] all[j]).id != addr) ==> fails_with(
                t,
                "node vanished from the registry"@,
            )
            &&& forall|i: int|
                0 <= i < all.len() && (#[trigger] all[i]).id == addr && (forall|j: int|
                    0 <= j < i ==> (#[trigger] all[j]).id != addr) ==> if keys {
                    asks_for(t, "reveal_key"@, just_node(addr), timeout) && t.stage
                        == StageV::Revealing { row: all[i] }
                } else {
                    shows(t, all[i], json, None)
                }
        }),
{
    reveal(answered);
    let all = nodes.deep_view();
    let addr = addr_text(node);
    lemma_with_addr(all, addr);
    if let Some(i) = with_addr(all, addr) {
        lemma_table_of_one(all[i]);
    }
}

proof fn lemma_table_of_one(n: NodeV)
    ensures
        table(seq![n]) == seq![said(columns_line()), said(node_line(n))],
{
    assert(table(seq![n]) =~= seq![said(columns_line()), said(node_line(n))]);
}

/// The key that came is shown with the node whose key was asked for.
pub proof fn law_show_shows_the_key(
    arg: String,
    keys: bool,
    json: bool,
    prefix: Seq<char>,
    timeout: u64,
    row: NodeV,
    a: Answer,
)
    requires
        a.ok,
    ensures
        shows(
            turned(
                NodesCmd::Show { node: arg, keys, json },
                prefix,
                timeout,
                StageV::Revealing { row },
                a,
            ),
            row,
            json,
            match a.data {
                Reply::Key(Some(k)) => Some(k@),
                _ => None,
            },
        ),
{
    reveal(answered);
    lemma_table_of_one(row);
    let out = turned(
        NodesCmd::Show { node: arg, keys, json },
        prefix,
        timeout,
        StageV::Revealing { row },
        a,
    ).out;
    if let Reply::Key(Some(k)) = a.data {
        if !json {
            assert(out =~= seq![
                said(columns_line()),
                said(node_line(row)),
                ShowV::Emit(
                    EmitV::Note("[tower] key material follows — treat this line as a secret"@),
                ),
                said("key: "@ + k@),
            ]);
        }
    }
}

/// The list has the names of the columns and then one row for each node, in the order of
/// the registry; without nodes it has a hint.
pub proof fn law_list_lists_every_node(
    json: bool,
    prefix: Seq<char>,
    timeout: u64,
    a: Answer,
    nodes: Vec<Node>,
)
    requires
        a.ok,
        a.data == Reply::Nodes(Ok(nodes)),
    ensures
        ({
            let t = turned(NodesCmd::List { json }, prefix, timeout, StageV::Listing, a);
            let all = nodes.deep_view();
            if json {
                writes(t, seq![ShowV::NodesJson(all)], 0)
            } else if all.len() == 0 {
                writes(
                    t,
                    seq![
                        said("no nodes paired (try `tower nodes add --ota` or `--port <SERIAL>`)"@),
                    ],
                    0,
                )
            } else {
                &&& writes(t, t.out, 0)
                &&& t.out.len() == all.len() + 1 && t.out[0] == said(columns_line())
                &&& forall|i: int|
                    0 <= i < all.len() ==> t.out[i + 1] == said(node_line(#[trigger] all[i]))
            }
        }),
{
    reveal(answered);
}

/// A change that was made is told, about the node that was changed.
pub proof fn law_changes_are_told(
    arg: String,
    name: String,
    item: u16,
    prefix: Seq<char>,
    timeout: u64,
    node: u32,
    a: Answer,
)
    requires
        a.ok,
    ensures
        ({
            let stage = StageV::Acting { node };
            &&& writes(
                turned(NodesCmd::Remove { node: arg }, prefix, timeout, stage, a),
                seq![said("removed "@ + addr_text(node))],
                0,
            )
            &&& writes(
                turned(NodesCmd::Rename { node: arg, name }, prefix, timeout, stage, a),
                seq![said("renamed "@ + addr_text(node) + " to \""@ + name@ + "\""@)],
                0,
            )
            &&& writes(
                turned(NodesCmd::Dequeue { node: arg, item }, prefix, timeout, stage, a),
                seq![said("dequeued #"@ + dec(item as nat))],
                0,
            )
        }),
{
    reveal(answered);
}

/// A node that joined is told, and gets the name that was wished for; a window that nobody
/// joined in fails the command.
pub proof fn law_joins_are_told(
    ota: bool,
    port: Option<String>,
    window: u16,
    name: Option<String>,
    prefix: Seq<char>,
    timeout: u64,
    a: Answer,
)
    requires
        a.ok,
    ensures
        ({
            let cmd = NodesCmd::Add { ota, port, window, name };
            let t = turned(cmd, prefix, timeout, StageV::Joining, a);
            let u = turned(cmd, prefix, timeout, StageV::Naming, a);
            &&& match a.data {
                Reply::Joined(Some(hex)) => match name {
                    Some(n) => {
                        &&& t.out == seq![said("paired "@ + hex@)] && t.stage == StageV::Naming
                        &&& t.step == StepV::Rpc {
                            op: "node_rename"@,
                            params: RpcParamsV { name: Some(n@), ..just_node(hex@) },
                            timeout_ms: timeout,
                        }
                    },
                    None => writes(t, seq![said("paired "@ + hex@)], 0),
                },
                _ => writes(
                    t,
                    seq![ShowV::Emit(EmitV::Note("[tower] window expired — no node joined"@))],
                    1,
                ),
            }
            &&& name matches Some(n) ==> writes(u, seq![said("named \""@ + n@ + "\""@)], 0)
        }),
{
    reveal(answered);
}

/// A refusal ends any command with what the gateway said.
pub proof fn law_refusals_end_commands(
    cmd: NodesCmd,
    prefix: Seq<char>,
    timeout: u64,
    stage: StageV,
    a: Answer,
)
    requires
        !a.ok,
    ensures
        fails_with(
            turned(cmd, prefix, timeout, stage, a),
            match a.error {
                Some(e) => e@,
                None => "gateway refused"@,
            },
        ),
{
}

/// The queue has the names of its columns and then one row for each command, in their
/// order; an empty one is told.
pub proof fn law_pending_lists_every_command(entries: Seq<PendingEntryV>)
    ensures
        ({
            let t = pending_table(entries);
            if entries.len() == 0 {
                t == seq![said("no queued commands"@)]
            } else {
                &&& t.len() == entries.len() + 1
                &&& t[0] == said(pad_right("REF"@, 6) + " "@ + pad_right("ID"@, 38) + " "@ + "LINE"@)
                &&& forall|i: int|
                    0 <= i < entries.len() ==> t[i + 1] == said(
                        pad_right(dec((#[trigger] entries[i]).item as nat), 6) + " "@ + pad_right(
                            entries[i].id,
                            38,
                        ) + " "@ + entries[i].line,
                    )
            }
        }),
{
}

/// A name is taken for the node that is registered under it, and the command goes on as with
/// that node's address.
pub proof fn law_names_stand_for_their_nodes(
    arg: String,
    name: String,
    item: u16,
    flags: (bool, bool),
    prefix: Seq<char>,
    timeout: u64,
    a: Answer,
    nodes: Vec<Node>,
    i: int,
    node: u32,
)
    requires
        a.ok,
        a.data == Reply::Nodes(Ok(nodes)),
        0 <= i < nodes@.len(),
        nodes.deep_view()[i].name == arg@,
        addr_of(nodes.deep_view()[i].id) == Some(node),
        forall|j: int|
            0 <= j < i ==> (#[trigger] nodes.deep_view()[j]).name != arg@ || addr_of(
                nodes.deep_view()[j].id,
            ) is None,
    ensures
        ({
            let addr = addr_text(node);
            let s = StageV::Resolving;
            let show = turned(
                NodesCmd::Show { node: arg, keys: flags.0, json: flags.1 },
                prefix,
                timeout,
                s,
                a,
            );
            let remove = turned(NodesCmd::Remove { node: arg }, prefix, timeout, s, a);
            let rename = turned(NodesCmd::Rename { node: arg, name }, prefix, timeout, s, a);
            let dequeue = turned(NodesCmd::Dequeue { node: arg, item }, prefix, timeout, s, a);
            let pending = turned(NodesCmd::Pending { node: arg, json: flags.0 }, prefix, timeout, s, a);
            &&& asks_for(show, "node_list"@, nothing(), timeout) && show.stage == StageV::Looking {
                node,
            }
            &&& asks_for(remove, "node_remove"@, just_node(addr), timeout)
            &&& asks_for(
                rename,
                "node_rename"@,
                RpcParamsV { name: Some(name@), ..just_node(addr) },
                timeout,
            )
            &&& asks_for(
                dequeue,
                "queue_drop"@,
                RpcParamsV { item: Some(item as u64), ..just_node(addr) },
                timeout,
            )
            &&& pending.step == StepV::Retained {
                topic: prefix + "nodes/"@ + addr + "/shell/pending"@,
            }
        }),
{
    reveal(answered);
    reveal(acted);
    crate::client::lemma_first_named(nodes.deep_view(), arg@, i);
}

/// A turn says what it leads to: what is written, what is asked for, and what is waited for;
/// the command stays the same.
pub proof fn law_turns_are_taken(before: NodesFlow, after: NodesFlow, turn: Turn, t: TurnV)
    requires
        led(before, after, turn, t),
    ensures
        turn.out.deep_view() == t.out,
        turn.step.deep_view() == t.step,
        after.stage.deep_view() == t.stage,
        after.cmd == before.cmd && after.prefix == before.prefix && after.timeout == before.timeout,
{
}

} // verus!

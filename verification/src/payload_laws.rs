//! What the messages say: every member with its name, its value and its place, and how a
//! text and a number are written.

use crate::payload::{
    listed, node_json, node_value_json, opt_json, pairing_json, params_json, pending_entry_json,
    pending_json, quoted, quoted_all, quoted_char, queue_row_json, rpc_data_json, rpc_request_json,
    rpc_response_json, shell_req_json, shell_rsp_json, thousandths, NodeV, PairingV, PendingEntryV,
    QueueRowV, RpcDataV, RpcParamsV, RpcRequestV, RpcResponseV, ShellRspV,
};
use crate::nodes_laws::nothing;
use crate::text::{dec, dec_int, digit_char, hex, join};
use vstd::prelude::*;

verus! {

/// How a truth value is written.
pub open spec fn truth(b: bool) -> Seq<char> {
    if b {
        "true"@
    } else {
        "false"@
    }
}

/// A text stands between quotes, each character for itself or as an escape.
pub proof fn law_texts_are_quoted(s: Seq<char>, c: char)
    ensures
        quoted(s) == "\""@ + quoted_all(s) + "\""@,
        quoted_all(Seq::empty()).len() == 0,
        quoted_all(s.push(c)) == quoted_all(s) + quoted_char(c),
        quoted_char('"') == "\\\""@,
        quoted_char('\\') == "\\\\"@,
        quoted_char('\n') == "\\n"@,
        quoted_char('\r') == "\\r"@,
        quoted_char('\t') == "\\t"@,
        c as u32 == 8 ==> quoted_char(c) == "\\b"@,
        c as u32 == 12 ==> quoted_char(c) == "\\f"@,
        c as u32 >= 32 && c != '"' && c != '\\' ==> quoted_char(c) == seq![c],
        (c as u32) < 32 && c != '\n' && c != '\r' && c != '\t' && c as u32 != 8 && c as u32 != 12
            ==> quoted_char(c) == "\\u"@ + hex(c as nat, 4),
{
    reveal(quoted);
    assert(s.push(c).drop_last() =~= s);
}

/// A number that may be missing is written as it is, or as nothing.
pub proof fn law_missing_numbers(n: int)
    ensures
        opt_json(Some(n)) == dec_int(n),
        opt_json(None) == "null"@,
{
}

/// Things are listed one after another with a comma between.
pub proof fn law_lists(parts: Seq<Seq<char>>, part: Seq<char>)
    ensures
        listed(Seq::empty()).len() == 0,
        listed(seq![part]) == part,
        parts.len() > 0 ==> listed(parts.push(part)) == listed(parts) + ","@ + part,
{
    assert(parts.push(part).drop_last() =~= parts);
}

/// What is said of a node: to all in the order in which it is read, in a reply in the order
/// of the names.
pub proof fn law_nodes_are_written(n: NodeV)
    ensures
        ({
            let seen = match n.last_seen_s {
                Some(s) => dec_int(s as int),
                None => "null"@,
            };
            let rssi = match n.rssi_dbm {
                Some(r) => dec_int(r as int),
                None => "null"@,
            };
            &&& node_json(n) == "{\"id\":"@ + quoted(n.id) + ",\"name\":"@ + quoted(n.name)
                + ",\"kind\":"@ + quoted(n.kind) + ",\"sleeping\":"@ + truth(n.sleeping)
                + ",\"unnamed\":"@ + truth(n.unnamed) + ",\"last_seen_s\":"@ + seen
                + ",\"rssi_dbm\":"@ + rssi + ",\"uplinks\":"@ + dec(n.uplinks as nat)
                + ",\"queued\":"@ + dec(n.queued as nat) + "}"@
            &&& node_value_json(n) == "{\"id\":"@ + quoted(n.id) + ",\"kind\":"@ + quoted(n.kind)
                + ",\"last_seen_s\":"@ + seen + ",\"name\":"@ + quoted(n.name) + ",\"queued\":"@
                + dec(n.queued as nat) + ",\"rssi_dbm\":"@ + rssi + ",\"sleeping\":"@ + truth(
                n.sleeping,
            ) + ",\"unnamed\":"@ + truth(n.unnamed) + ",\"uplinks\":"@ + dec(n.uplinks as nat) + "}"@
        }),
{
    reveal(node_json);
    reveal(node_value_json);
}

/// What is said of a pairing window: its state, how long it stays open, and who joined.
pub proof fn law_pairing_is_written(state: Seq<char>, s: u64, joined: Seq<char>)
    ensures
        pairing_json(PairingV { state, remaining_s: None, joined: None }) == "{\"state\":"@ + quoted(
            state,
        ) + "}"@,
        forall|p: PairingV|
            p.state == state && p.remaining_s == Some(s) && p.joined is None
                ==> #[trigger] pairing_json(p) == "{\"state\":"@ + quoted(state)
                + ",\"remaining_s\":"@ + dec(s as nat) + "}"@,
        forall|p: PairingV|
            p.state == state && p.remaining_s is None && p.joined == Some(joined)
                ==> #[trigger] pairing_json(p) == "{\"state\":"@ + quoted(state) + ",\"joined\":"@
                + quoted(joined) + "}"@,
{
    reveal(pairing_json);
}

/// What a line for a node and the answer to it say.
pub proof fn law_shell_messages_are_written(
    id: Seq<char>,
    line: Seq<char>,
    ttl_s: u16,
    r: ShellRspV,
)
    ensures
        shell_req_json(id, line, ttl_s) == "{\"id\":"@ + quoted(id) + ",\"line\":"@ + quoted(line)
            + ",\"ttl_s\":"@ + dec(ttl_s as nat) + "}"@,
        ({
            let a = "{\"id\":"@ + quoted(r.id) + ",\"chunk\":"@ + dec(r.chunk as nat)
                + ",\"text\":"@ + quoted(r.text) + ",\"done\":"@ + truth(r.done) + ",\"result\":"@
                + dec(r.result as nat) + ",\"truncated\":"@ + truth(r.truncated);
            shell_rsp_json(r) == match r.error {
                Some(e) => a + ",\"error\":"@ + quoted(e) + "}"@,
                None => a + "}"@,
            }
        }),
{
    reveal(shell_req_json);
    reveal(shell_rsp_json);
}

/// Every line that waits for a node is listed, with its number, its name and its text.
pub proof fn law_pending_lines_are_written(entries: Seq<PendingEntryV>, p: PendingEntryV)
    ensures
        pending_entry_json(p) == "{\"ref\":"@ + dec(p.item as nat) + ",\"id\":"@ + quoted(p.id)
            + ",\"line\":"@ + quoted(p.line) + "}"@,
        pending_json(entries) == "["@ + listed(
            entries.map_values(|e: PendingEntryV| pending_entry_json(e)),
        ) + "]"@,
{
    reveal(pending_entry_json);
    reveal(pending_json);
    assert(Seq::new(entries.len(), |i: int| pending_entry_json(entries[i])) =~= entries.map_values(
        |e: PendingEntryV| pending_entry_json(e),
    ));
}

/// A request says who asks, for what, and with which parameters; each parameter that is
/// there under its name.
pub proof fn law_requests_are_written(r: RpcRequestV, a: Seq<char>, b: Seq<char>, n: u64, t: bool)
    ensures
        rpc_request_json(r) == "{\"id\":"@ + quoted(r.id) + ",\"op\":"@ + quoted(r.op)
            + ",\"params\":"@ + params_json(r.params) + "}"@,
        params_json(nothing()) == "null"@,
        params_json(RpcParamsV { node: Some(a), ..nothing() }) == "{"@ + ("\"node\":"@ + quoted(a))
            + "}"@,
        params_json(RpcParamsV { id: Some(a), ..nothing() }) == "{"@ + ("\"id\":"@ + quoted(a)) + "}"@,
        params_json(RpcParamsV { key: Some(a), ..nothing() }) == "{"@ + ("\"key\":"@ + quoted(a))
            + "}"@,
        params_json(RpcParamsV { name: Some(a), ..nothing() }) == "{"@ + ("\"name\":"@ + quoted(a))
            + "}"@,
        params_json(RpcParamsV { window_s: Some(n), ..nothing() }) == "{"@ + ("\"window_s\":"@ + dec(
            n as nat,
        )) + "}"@,
        params_json(RpcParamsV { item: Some(n), ..nothing() }) == "{"@ + ("\"ref\":"@ + dec(n as nat))
            + "}"@,
        params_json(RpcParamsV { period_ms: Some(n), ..nothing() }) == "{"@ + ("\"period_ms\":"@
            + dec(n as nat)) + "}"@,
        params_json(RpcParamsV { sleeping: Some(t), ..nothing() }) == "{"@ + ("\"sleeping\":"@ + truth(
            t,
        )) + "}"@,
        params_json(RpcParamsV { node: Some(a), name: Some(b), ..nothing() }) == "{"@ + join(
            seq!["\"name\":"@ + quoted(b), "\"node\":"@ + quoted(a)],
            ","@,
        ) + "}"@,
        params_json(RpcParamsV { node: Some(a), item: Some(n), ..nothing() }) == "{"@ + join(
            seq!["\"node\":"@ + quoted(a), "\"ref\":"@ + dec(n as nat)],
            ","@,
        ) + "}"@,
{
    reveal(rpc_request_json);
    reveal(params_json);
    assert forall|m: Seq<char>| #[trigger] join(seq![m], ","@) == m by {
        reveal_with_fuel(join, 2);
    }
    let empty = Seq::<Seq<char>>::empty();
    assert(empty.push("\"node\":"@ + quoted(a)) =~= seq!["\"node\":"@ + quoted(a)]);
    assert(empty.push("\"id\":"@ + quoted(a)) =~= seq!["\"id\":"@ + quoted(a)]);
    assert(empty.push("\"key\":"@ + quoted(a)) =~= seq!["\"key\":"@ + quoted(a)]);
    assert(empty.push("\"name\":"@ + quoted(a)) =~= seq!["\"name\":"@ + quoted(a)]);
    assert(empty.push("\"window_s\":"@ + dec(n as nat)) =~= seq!["\"window_s\":"@ + dec(n as nat)]);
    assert(empty.push("\"ref\":"@ + dec(n as nat)) =~= seq!["\"ref\":"@ + dec(n as nat)]);
    assert(empty.push("\"period_ms\":"@ + dec(n as nat)) =~= seq!["\"period_ms\":"@ + dec(n as nat)]);
    assert(empty.push("\"sleeping\":"@ + truth(t)) =~= seq!["\"sleeping\":"@ + truth(t)]);
    assert(empty.push("\"name\":"@ + quoted(b)).push("\"node\":"@ + quoted(a)) =~= seq![
        "\"name\":"@ + quoted(b),
        "\"node\":"@ + quoted(a),
    ]);
    assert(empty.push("\"node\":"@ + quoted(a)).push("\"ref\":"@ + dec(n as nat)) =~= seq![
        "\"node\":"@ + quoted(a),
        "\"ref\":"@ + dec(n as nat),
    ]);
}

/// A reply says whose it is and whether it went well, then the error where there is one, and
/// then what was asked for where there is something.
pub proof fn law_replies_are_written(id: Seq<char>, e: Seq<char>, data: RpcDataV)
    ensures
        rpc_response_json(RpcResponseV { id, ok: true, error: None, data: RpcDataV::Null })
            == "{\"id\":"@ + quoted(id) + ",\"ok\":"@ + "true"@ + "}"@,
        rpc_response_json(RpcResponseV { id, ok: false, error: Some(e), data: RpcDataV::Null })
            == "{\"id\":"@ + quoted(id) + ",\"ok\":"@ + "false"@ + ",\"error\":"@ + quoted(e) + "}"@,
        !(data is Null) ==> rpc_response_json(RpcResponseV { id, ok: true, error: None, data })
            == "{\"id\":"@ + quoted(id) + ",\"ok\":"@ + "true"@ + ",\"data\":"@ + rpc_data_json(data)
            + "}"@,
{
    reveal(rpc_response_json);
}

/// What is asked for, each in its form.
pub proof fn law_answers_hold_what_was_asked_for(
    a: Seq<char>,
    b: Seq<char>,
    item: u16,
    nodes: Seq<NodeV>,
    rows: Seq<QueueRowV>,
    q: QueueRowV,
)
    ensures
        rpc_data_json(RpcDataV::Null) == "null"@,
        rpc_data_json(RpcDataV::Gateway(a)) == "{\"gateway\":"@ + quoted(a) + "}"@,
        rpc_data_json(RpcDataV::Key { node: a, key: b }) == "{\"key\":"@ + quoted(b) + ",\"node\":"@
            + quoted(a) + "}"@,
        rpc_data_json(RpcDataV::Joined(Some(a))) == "{\"joined\":"@ + quoted(a) + "}"@,
        rpc_data_json(RpcDataV::Joined(None)) == "{\"joined\":"@ + "null"@ + "}"@,
        rpc_data_json(RpcDataV::Item(item)) == "{\"ref\":"@ + dec(item as nat) + "}"@,
        rpc_data_json(RpcDataV::Nodes(nodes)) == "["@ + listed(
            nodes.map_values(|n: NodeV| node_value_json(n)),
        ) + "]"@,
        rpc_data_json(RpcDataV::Queue(rows)) == "["@ + listed(
            rows.map_values(|r: QueueRowV| queue_row_json(r)),
        ) + "]"@,
        queue_row_json(q) == "{\"age_s\":"@ + dec(q.age_s as nat) + ",\"node\":"@ + quoted(q.node)
            + ",\"ref\":"@ + dec(q.item as nat) + ",\"ttl_s\":"@ + dec(q.ttl_s as nat) + "}"@,
{
    reveal(rpc_data_json);
    reveal(queue_row_json);
    assert(Seq::new(nodes.len(), |i: int| node_value_json(nodes[i])) =~= nodes.map_values(
        |n: NodeV| node_value_json(n),
    ));
    assert(Seq::new(rows.len(), |i: int| queue_row_json(rows[i])) =~= rows.map_values(
        |r: QueueRowV| queue_row_json(r),
    ));
}

/// Thousandths are written behind the point, as many as are needed and at least one.
pub proof fn law_thousandths(w: nat, a: int, b: int, c: int)
    requires
        0 <= a <= 9 && 0 <= b <= 9 && 0 <= c <= 9,
    ensures
        ({
            let t = thousandths(1000 * w + 100 * a + 10 * b + c);
            let point = dec(w) + "."@;
            &&& c != 0 ==> t == point + dec(a as nat) + dec(b as nat) + dec(c as nat)
            &&& c == 0 && b != 0 ==> t == point + dec(a as nat) + dec(b as nat)
            &&& c == 0 && b == 0 ==> t == point + dec(a as nat)
        }),
{
    let n = 1000 * w + 100 * a + 10 * b + c;
    let f = 100 * a + 10 * b + c;
    assert(n / 1000 == w && n % 1000 == f) by (nonlinear_arith)
        requires
            n == 1000 * w + f,
            0 <= f < 1000,
    ;
    assert(f / 100 == a && (f / 10) % 10 == b && f % 10 == c && f % 100 == 10 * b + c);
    reveal_with_fuel(dec, 1);
    let point = dec(w) + "."@;
    let none = Seq::<char>::empty();
    assert(none + dec(w) + "."@ =~= point);
    assert(dec(a as nat) =~= seq![digit_char(a)]);
    assert(dec(b as nat) =~= seq![digit_char(b)]);
    assert(dec(c as nat) =~= seq![digit_char(c)]);
    assert(point.push(digit_char(a)) =~= point + dec(a as nat));
    assert(point.push(digit_char(a)).push(digit_char(b)) =~= point + dec(a as nat) + dec(b as nat));
    assert(point.push(digit_char(a)).push(digit_char(b)).push(digit_char(c)) =~= point + dec(
        a as nat,
    ) + dec(b as nat) + dec(c as nat));
}

/// A number below zero has its sign in front of it.
pub proof fn law_thousandths_below_zero(n: int)
    requires
        n > 0,
    ensures
        thousandths(-n) == seq!['-'] + thousandths(n),
{
}

} // verus!

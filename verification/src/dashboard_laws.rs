//! What holds of the dialogs on the gateway's frontend, however their chunks are cut.

use crate::console::capped;
use crate::dashboard::{
    complete_lines, dialog_of, event_folded, law_chunks_reassemble, no_partial, resumed, shell_text,
    told, told_lines, told_text, unfinished, DashboardV, DialogLineV, DIALOG_CAP,
};
use crate::engine_state::EventV;
use crate::payload::ShellRspV;
use vstd::prelude::*;

verus! {

// ---- one response in chunks --------------------------------------------------------

/// The chunks of one response without an error: all of one id, the last one done.
pub open spec fn one_response(rsps: Seq<ShellRspV>, id: Seq<char>) -> bool {
    &&& rsps.len() > 0
    &&& forall|i: int|
        0 <= i < rsps.len() ==> (#[trigger] rsps[i]).id == id && rsps[i].error is None
            && rsps[i].done == (i == rsps.len() - 1)
}

/// The text of the first `k` chunks.
pub open spec fn joined(rsps: Seq<ShellRspV>, k: nat) -> Seq<char>
    decreases k,
{
    if k == 0 {
        Seq::empty()
    } else {
        joined(rsps, (k - 1) as nat) + rsps[k - 1].text
    }
}

/// The state once the first `k` chunks have come, each at its time.
pub open spec fn fed(
    s: DashboardV,
    node: u32,
    rsps: Seq<ShellRspV>,
    times: Seq<u64>,
    k: nat,
) -> DashboardV
    decreases k,
{
    if k == 0 {
        s
    } else {
        event_folded(
            fed(s, node, rsps, times, (k - 1) as nat),
            EventV::Shell { node, rsp: rsps[k - 1] },
            times[k - 1],
        )
    }
}

/// The lines that a whole response adds to a dialog: its complete lines, what is behind
/// them, and the result.
pub open spec fn dialog_lines(text: Seq<char>, result: u8) -> Seq<DialogLineV> {
    let lines = complete_lines(text);
    let rest = unfinished(text);
    Seq::new(lines.len(), |i: int| DialogLineV::Text(lines[i])) + (if rest.len() > 0 {
        seq![DialogLineV::Text(rest)]
    } else {
        Seq::empty()
    }) + seq![DialogLineV::Done(result)]
}

/// The last `cap` items of a list.
pub open spec fn newest<T>(s: Seq<T>, cap: nat) -> Seq<T> {
    if s.len() > cap {
        s.skip(s.len() - cap)
    } else {
        s
    }
}

// ---- lines one after the other -----------------------------------------------------

/// All complete lines of a text are told.
spec fn base(s: DashboardV, node: u32, text: Seq<char>) -> DashboardV {
    told_lines(s, node, complete_lines(text), complete_lines(text).len())
}

/// Telling lines changes nothing but the dialogs.
proof fn lemma_told_only(s: DashboardV, node: u32, lines: Seq<Seq<char>>, k: nat)
    ensures
        ({
            let t = told_lines(s, node, lines, k);
            t == DashboardV { dialogs: t.dialogs, ..s }
        }),
    decreases k,
{
    if k > 0 {
        lemma_told_only(s, node, lines, (k - 1) as nat);
    }
}

/// Lines told after others are told like all of them in a row.
proof fn lemma_told_in_a_row(
    s: DashboardV,
    node: u32,
    a: Seq<Seq<char>>,
    b: Seq<Seq<char>>,
    k: nat,
)
    requires
        k <= b.len(),
    ensures
        told_lines(told_lines(s, node, a, a.len()), node, b, k) == told_lines(
            s,
            node,
            a + b,
            a.len() + k,
        ),
    decreases k,
{
    if k == 0 {
        lemma_told_prefix(s, node, a, b, a.len());
    } else {
        lemma_told_in_a_row(s, node, a, b, (k - 1) as nat);
        assert((a + b)[a.len() + k - 1] == b[k - 1]);
    }
}

proof fn lemma_told_prefix(s: DashboardV, node: u32, a: Seq<Seq<char>>, b: Seq<Seq<char>>, k: nat)
    requires
        k <= a.len(),
    ensures
        told_lines(s, node, a + b, k) == told_lines(s, node, a, k),
    decreases k,
{
    if k > 0 {
        lemma_told_prefix(s, node, a, b, (k - 1) as nat);
        assert((a + b)[k - 1] == a[k - 1]);
    }
}

/// One more chunk `b` behind the text `a`.
proof fn lemma_one_more_chunk(s: DashboardV, node: u32, a: Seq<char>, b: Seq<char>)
    ensures
        base(base(s, node, a), node, unfinished(a) + b) == base(s, node, a + b),
        unfinished(unfinished(a) + b) == unfinished(a + b),
{
    law_chunks_reassemble(a, b);
    let (x, y) = (complete_lines(a), complete_lines(unfinished(a) + b));
    lemma_told_in_a_row(s, node, x, y, y.len());
}

/// What is at hand when the chunk behind the first `k` comes.
proof fn lemma_resumed(
    s: DashboardV,
    node: u32,
    rsps: Seq<ShellRspV>,
    times: Seq<u64>,
    id: Seq<char>,
    k: nat,
)
    requires
        !s.shell_partial.dom().contains(node),
        one_response(rsps, id),
        k < rsps.len(),
    ensures
        resumed(fed(s, node, rsps, times, k), node, id) == (
            base(s, node, joined(rsps, k)),
            unfinished(joined(rsps, k)),
        ),
    decreases k,
{
    if k == 0 {
        let none = Seq::<char>::empty();
        assert(crate::text::first_index(none, '\n') >= 0) by {
            crate::text::lemma_first_index_bounds(none, '\n');
        }
        assert(complete_lines(none) =~= Seq::<Seq<char>>::empty());
    } else {
        let i = (k - 1) as nat;
        let rsp = rsps[i as int];
        let before = fed(s, node, rsps, times, i);
        let t = joined(rsps, i);
        lemma_resumed(s, node, rsps, times, id, i);
        lemma_one_more_chunk(s, node, t, rsp.text);
        let after = fed(s, node, rsps, times, k);
        assert(after == shell_text(before, node, rsp));
        let s2 = base(s, node, joined(rsps, k));
        lemma_told_only(s, node, complete_lines(joined(rsps, k)), complete_lines(joined(rsps, k)).len());
        assert(after == DashboardV {
            shell_partial: s2.shell_partial.insert(node, (id, unfinished(joined(rsps, k)))),
            ..s2
        });
        assert(after.shell_partial.remove(node) =~= s2.shell_partial);
        assert(no_partial(after, node) == s2);
    }
}

// ---- the bounded dialog ------------------------------------------------------------

/// How many lines a dialog keeps, of `len` that it has.
pub open spec fn kept(len: nat) -> nat {
    if len > DIALOG_CAP {
        len
    } else {
        DIALOG_CAP as nat
    }
}

/// A told line stands at the end of the dialog, of which `all` was told since it had `len`
/// lines.
proof fn lemma_told_dialog(
    s: DashboardV,
    node: u32,
    all: Seq<DialogLineV>,
    line: DialogLineV,
    len: nat,
)
    requires
        all.len() >= len,
        dialog_of(s, node) == newest(all, kept(len)),
    ensures
        dialog_of(told(s, node, line), node) == newest(all.push(line), kept(len)),
{
    reveal(capped);
    assert(capped(newest(all, kept(len)), line, DIALOG_CAP as nat) =~= newest(
        all.push(line),
        kept(len),
    ));
}

proof fn lemma_told_lines_dialog(s: DashboardV, node: u32, lines: Seq<Seq<char>>, k: nat)
    requires
        k <= lines.len(),
    ensures
        dialog_of(told_lines(s, node, lines, k), node) == newest(
            dialog_of(s, node) + Seq::new(k, |i: int| DialogLineV::Text(lines[i])),
            kept(dialog_of(s, node).len()),
        ),
    decreases k,
{
    let all = dialog_of(s, node) + Seq::new(k, |i: int| DialogLineV::Text(lines[i]));
    if k == 0 {
        assert(all =~= dialog_of(s, node));
    } else {
        let j = (k - 1) as nat;
        lemma_told_lines_dialog(s, node, lines, j);
        let before = dialog_of(s, node) + Seq::new(j, |i: int| DialogLineV::Text(lines[i]));
        lemma_told_dialog(
            told_lines(s, node, lines, j),
            node,
            before,
            DialogLineV::Text(lines[j as int]),
            dialog_of(s, node).len(),
        );
        assert(before.push(DialogLineV::Text(lines[j as int])) =~= all);
    }
}

/// What a whole response leaves: its lines in the dialog, and nothing unfinished.
proof fn lemma_whole_response(s: DashboardV, node: u32, text: Seq<char>, result: u8)
    ensures
        dialog_of(
            told(
                told_text(base(s, node, text), node, unfinished(text)),
                node,
                DialogLineV::Done(result),
            ),
            node,
        ) == newest(
            dialog_of(s, node) + dialog_lines(text, result),
            kept(dialog_of(s, node).len()),
        ),
{
    let lines = complete_lines(text);
    let rest = unfinished(text);
    let a = dialog_of(s, node) + Seq::new(lines.len(), |i: int| DialogLineV::Text(lines[i]));
    lemma_told_lines_dialog(s, node, lines, lines.len());
    let s2 = base(s, node, text);
    let b = if rest.len() > 0 {
        a.push(DialogLineV::Text(rest))
    } else {
        a
    };
    if rest.len() > 0 {
        lemma_told_dialog(s2, node, a, DialogLineV::Text(rest), dialog_of(s, node).len());
    }
    lemma_told_dialog(
        told_text(s2, node, rest),
        node,
        b,
        DialogLineV::Done(result),
        dialog_of(s, node).len(),
    );
    assert(b.push(DialogLineV::Done(result)) =~= dialog_of(s, node) + dialog_lines(text, result));
}

// ---- laws --------------------------------------------------------------------------

/// How a response is cut into chunks does not show: fed one by one, they leave the dashboard
/// as one event with the whole text does. The dialog has one more line for each complete
/// line, one for what is behind them, and the result, the oldest lines leaving where it is
/// full; nothing unfinished is left.
pub proof fn law_any_cut_shows_the_same(
    s: DashboardV,
    node: u32,
    rsps: Seq<ShellRspV>,
    times: Seq<u64>,
    whole: ShellRspV,
    now: u64,
)
    requires
        !s.shell_partial.dom().contains(node),
        one_response(rsps, whole.id),
        whole.text == joined(rsps, rsps.len()),
        whole.done && whole.error is None && whole.result == rsps.last().result,
    ensures
        ({
            let end = fed(s, node, rsps, times, rsps.len());
            &&& end == event_folded(s, EventV::Shell { node, rsp: whole }, now)
            &&& !end.shell_partial.dom().contains(node)
            &&& dialog_of(end, node) == newest(
                dialog_of(s, node) + dialog_lines(whole.text, whole.result),
                kept(dialog_of(s, node).len()),
            )
        }),
{
    let k = (rsps.len() - 1) as nat;
    let t = joined(rsps, k);
    let last = rsps[k as int];
    lemma_resumed(s, node, rsps, times, whole.id, k);
    lemma_one_more_chunk(s, node, t, last.text);
    lemma_told_only(s, node, complete_lines(whole.text), complete_lines(whole.text).len());
    assert(Seq::<char>::empty() + whole.text =~= whole.text);
    let end = fed(s, node, rsps, times, rsps.len());
    assert(end == shell_text(fed(s, node, rsps, times, k), node, last));
    assert(shell_text(s, node, whole) == event_folded(s, EventV::Shell { node, rsp: whole }, now));
    lemma_whole_response(s, node, whole.text, whole.result);
}

} // verus!

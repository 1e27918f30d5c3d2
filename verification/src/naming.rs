//! Device kinds out of firmware names, and automatic node names.

use crate::engine_model::{dashed, kind_text, name_taken, numbered, smallest_free};
use crate::engine_state::{NodeMirror, NodeMirrorV};
use crate::text::{
    cat3, chars_of, dec, dec_u64, digit_value, lemma_digit_value, push_char, same, strip_prefix,
};
use vstd::prelude::*;
use vstd::string::*;

verus! {

/// Firmware name to device kind: `radio_push_button` is `push-button`.
pub fn kind_of(firmware_name: &str) -> (r: String)
    ensures
        r@ == kind_text(firmware_name@),
{
    proof {
        reveal(kind_text);
    }
    let base = match strip_prefix(firmware_name, "radio_") {
        Some(rest) => rest,
        None => firmware_name,
    };
    let v = chars_of(base);
    let mut s = String::new();
    let mut i: usize = 0;
    while i < v.len()
        invariant
            i <= v@.len(),
            s@.len() == i,
            forall|j: int| 0 <= j < i ==> #[trigger] s@[j] == dashed(v@[j]),
        decreases v@.len() - i,
    {
        push_char(&mut s, if v[i] == '_' { '-' } else { v[i] });
        i = i + 1;
    }
    assert(s@ =~= kind_text(firmware_name@));
    s
}

/// The number that a decimal numeral writes.
spec fn dec_value(s: Seq<char>) -> int
    decreases s.len(),
{
    if s.len() == 0 {
        0
    } else {
        10 * dec_value(s.drop_last()) + digit_value(s.last()).unwrap()
    }
}

/// A decimal numeral reads back as its number.
proof fn lemma_dec_value(n: nat)
    ensures
        dec_value(dec(n)) == n,
    decreases n,
{
    reveal_with_fuel(dec_value, 2);
    lemma_digit_value((n % 10) as int);
    if n < 10 {
        assert(dec(n).drop_last() =~= Seq::<char>::empty());
    } else {
        lemma_dec_value(n / 10);
        assert(dec(n).drop_last() =~= dec(n / 10));
    }
}

/// Different numbers give different names.
pub proof fn lemma_numbered_injective(kind: Seq<char>, a: nat, b: nat)
    requires
        numbered(kind, a) == numbered(kind, b),
    ensures
        a == b,
{
    let p = kind + ":"@;
    assert(numbered(kind, a).skip(p.len() as int) =~= dec(a));
    assert(numbered(kind, b).skip(p.len() as int) =~= dec(b));
    lemma_dec_value(a);
    lemma_dec_value(b);
}

/// As many nodes as there are taken names.
proof fn lemma_taken_at_most(nodes: Seq<NodeMirrorV>, kind: Seq<char>, n: nat)
    requires
        forall|m: nat| m < n ==> name_taken(nodes, #[trigger] numbered(kind, m)),
    ensures
        n <= nodes.len(),
    decreases n,
{
    if n > 0 {
        let last = (n - 1) as nat;
        assert(name_taken(nodes, numbered(kind, last)));
        let k = choose|i: int| 0 <= i < nodes.len() && (#[trigger] nodes[i]).entry.name == numbered(
            kind,
            last,
        );
        let rest = nodes.remove(k);
        assert forall|m: nat| m < last implies name_taken(rest, #[trigger] numbered(kind, m)) by {
            assert(name_taken(nodes, numbered(kind, m)));
            let j = choose|i: int| 0 <= i < nodes.len() && (#[trigger] nodes[i]).entry.name
                == numbered(kind, m);
            if j == k {
                lemma_numbered_injective(kind, m, last);
            }
            if j < k {
                assert(rest[j] == nodes[j]);
            } else {
                assert(rest[j - 1] == nodes[j]);
            }
        }
        lemma_taken_at_most(rest, kind, last);
    }
}

/// The smallest free number is one number.
pub proof fn lemma_smallest_unique(nodes: Seq<NodeMirrorV>, kind: Seq<char>, a: nat, b: nat)
    requires
        smallest_free(nodes, kind, a),
        smallest_free(nodes, kind, b),
    ensures
        a == b,
{
    if a < b {
        assert(name_taken(nodes, numbered(kind, a)));
    } else if b < a {
        assert(name_taken(nodes, numbered(kind, b)));
    }
}

fn taken(nodes: &Vec<NodeMirror>, name: &str) -> (r: bool)
    ensures
        r == name_taken(nodes.deep_view(), name@),
{
    let mut i: usize = 0;
    while i < nodes.len()
        invariant
            i <= nodes@.len(),
            forall|j: int| 0 <= j < i ==> (#[trigger] nodes.deep_view()[j]).entry.name != name@,
        decreases nodes@.len() - i,
    {
        if same(nodes[i].entry.name.as_str(), name) {
            assert(nodes.deep_view()[i as int].entry.name == name@);
            return true;
        }
        assert(nodes.deep_view()[i as int].entry.name != name@);
        i = i + 1;
    }
    false
}

/// The automatic name of a node of this kind: the smallest free number.
pub fn auto_name(nodes: &Vec<NodeMirror>, kind: &str) -> (r: String)
    ensures
        r@ == crate::engine_model::auto_name(nodes.deep_view(), kind@),
{
    let ghost all = nodes.deep_view();
    let count: usize = nodes.len();
    let mut n: u64 = 0;
    let mut name = cat3(kind, ":", dec_u64(n).as_str());
    assert(name@ == numbered(kind@, 0));
    while taken(nodes, name.as_str())
        invariant
            all == nodes.deep_view(),
            name@ == numbered(kind@, n as nat),
            forall|m: nat| m < n ==> name_taken(all, #[trigger] numbered(kind@, m)),
            n <= all.len() == count,
        decreases all.len() - n,
    {
        proof {
            assert forall|m: nat| m < n + 1 implies name_taken(all, #[trigger] numbered(kind@, m)) by {
                if m == n {
                }
            }
            lemma_taken_at_most(all, kind@, (n + 1) as nat);
        }
        n = n + 1;
        name = cat3(kind, ":", dec_u64(n).as_str());
    }
    proof {
        assert(smallest_free(all, kind@, n as nat));
        let c = choose|c: nat| smallest_free(all, kind@, c);
        lemma_smallest_unique(all, kind@, n as nat, c);
    }
    name
}

proof fn lemma_free_below(nodes: Seq<NodeMirrorV>, kind: Seq<char>, n: nat)
    requires
        forall|m: nat| m < n ==> name_taken(nodes, #[trigger] numbered(kind, m)),
        n <= nodes.len() + 1,
    ensures
        exists|c: nat| smallest_free(nodes, kind, c),
    decreases nodes.len() + 1 - n,
{
    if name_taken(nodes, numbered(kind, n)) {
        assert forall|m: nat| m < n + 1 implies name_taken(nodes, #[trigger] numbered(kind, m)) by {
            if m == n {
            }
        }
        lemma_taken_at_most(nodes, kind, (n + 1) as nat);
        lemma_free_below(nodes, kind, (n + 1) as nat);
    } else {
        assert(smallest_free(nodes, kind, n));
    }
}

/// An automatic name belongs to no other node, and no smaller number was free.
pub proof fn law_automatic_names_are_free(nodes: Seq<NodeMirrorV>, kind: Seq<char>)
    ensures
        !name_taken(nodes, crate::engine_model::auto_name(nodes, kind)),
        exists|n: nat|
            smallest_free(nodes, kind, n) && crate::engine_model::auto_name(nodes, kind)
                == #[trigger] numbered(kind, n),
{
    lemma_free_below(nodes, kind, 0);
}

} // verus!

//! MQTT topic construction and parsing: the single source of truth for the topic tree
//! that the gateway offers. Everything lives under a configurable prefix (default
//! `tower/`); node topics address nodes by fixed hexadecimal address
//! (`nodes/0x0000ab12/…`). Names are mutable and live only in payloads.
//!
//! | topic (under prefix)               | direction | retained |
//! |------------------------------------|-----------|----------|
//! | `gateway/status`                   | out       | yes      |
//! | `gateway/stats`                    | out       | yes      |
//! | `gateway/pairing`                  | out       | yes      |
//! | `gateway/cmd`                      | in        | no       |
//! | `gateway/rsp/{id}`                 | out       | no       |
//! | `nodes/{addr}`                     | out       | yes      |
//! | `nodes/{addr}/event/button`        | out       | no       |
//! | `nodes/{addr}/event/accel`         | out       | no       |
//! | `nodes/{addr}/measure/temperature` | out       | yes      |
//! | `nodes/{addr}/uplink`              | out       | no       |
//! | `nodes/{addr}/shell/req`           | in        | no       |
//! | `nodes/{addr}/shell/rsp`           | out       | no       |
//! | `nodes/{addr}/shell/pending`       | out       | yes      |
//! | `radio/rssi`                       | out       | no       |
//! | `radio/rx`, `radio/tx`             | out       | no       |

use crate::text::{
    before, behind, cat2, cat3, cat4, chars_of, digit_char, digit_value, first_index, fits_hex, hex,
    hex_text, hex_value, in_front, lemma_behind, lemma_first_index, lemma_hex_digits,
    lemma_hex_value, lemma_in_front, same, strip_prefix, strip_suffix, trim_back, trim_char,
    trim_front, value_of,
};
use vstd::prelude::*;
use vstd::string::*;

verus! {

/// A user-supplied prefix in normal form: no `/` at either end but the one that closes
/// it, and empty where nothing but `/` was given.
pub open spec fn normal_prefix(prefix: Seq<char>) -> Seq<char> {
    let p = trim_back(trim_front(prefix, '/'), '/');
    if p.len() == 0 {
        Seq::empty()
    } else {
        p.push('/')
    }
}

/// The canonical form of a node address: `0x` and eight lower-case digits.
pub open spec fn addr_text(addr: u32) -> Seq<char> {
    "0x"@ + hex(addr as nat, 8)
}

/// The address that `s` writes: `0x` or `0X`, then exactly eight digits of either case.
pub open spec fn addr_of(s: Seq<char>) -> Option<u32> {
    if s.len() == 10 && s[0] == '0' && (s[1] == 'x' || s[1] == 'X') {
        match hex_value(s.skip(2)) {
            Some(v) => Some(v as u32),
            None => None,
        }
    } else {
        None
    }
}

/// The topic of a node, or one below it.
pub open spec fn node_topic(prefix: Seq<char>, addr: u32, tail: Seq<char>) -> Seq<char> {
    prefix + "nodes/"@ + addr_text(addr) + tail
}

/// The node that a topic belongs to: the one whose address stands between `nodes/` and
/// the next `/` (or the end).
pub open spec fn topic_node(prefix: Seq<char>, topic: Seq<char>) -> Option<u32> {
    match behind(topic, prefix + "nodes/"@) {
        Some(tail) => addr_of(tail.take(first_index(tail, '/'))),
        None => None,
    }
}

/// What an inbound (subscribed) topic means to the gateway engine.
#[derive(Debug, Clone, Copy, PartialEq, Eq, Structural)]
pub enum Inbound {
    /// `gateway/cmd`: a request.
    Cmd,
    /// `nodes/{addr}/shell/req`: a remote-shell line for `addr`.
    ShellReq(u32),
    /// Anything else (the gateway's own publishes echoed back, foreign topics).
    Other,
}

/// What a topic means to the engine: `gateway/cmd`, or `nodes/{addr}/shell/req`.
pub open spec fn meaning(prefix: Seq<char>, topic: Seq<char>) -> Inbound {
    match behind(topic, prefix) {
        None => Inbound::Other,
        Some(rest) => if rest == "gateway/cmd"@ {
            Inbound::Cmd
        } else {
            match behind(rest, "nodes/"@) {
                None => Inbound::Other,
                Some(tail) => match in_front(tail, "/shell/req"@) {
                    None => Inbound::Other,
                    Some(h) => match addr_of(h) {
                        None => Inbound::Other,
                        Some(a) => Inbound::ShellReq(a),
                    },
                },
            }
        },
    }
}

/// Normalizes a user-supplied prefix: a closing `/` is guaranteed, and an empty prefix
/// stays empty. `tower` and `tower/` both become `tower/`.
pub fn normalize_prefix(prefix: &str) -> (r: String)
    ensures
        r@ == normal_prefix(prefix@),
{
    let p = trim_char(prefix, '/');
    if p.unicode_len() == 0 {
        let s = String::new();
        assert(s@ =~= Seq::<char>::empty());
        s
    } else {
        let s = cat2(p, "/");
        proof {
            reveal_strlit("/");
            assert(s@ =~= p@.push('/'));
        }
        s
    }
}

/// Canonical form of a node address, as used in topics: `0x` and 8 lower-case digits.
pub fn node_hex(addr: u32) -> (r: String)
    ensures
        r@ == addr_text(addr),
{
    let h = hex_text(addr, 8);
    cat2("0x", h.as_str())
}

/// Eight digits write a number below 2^32.
proof fn lemma_eight_digits(s: Seq<char>, k: nat)
    requires
        s.len() == k,
        k <= 8,
        hex_value(s) is Some,
    ensures
        k == 0 ==> hex_value(s)->0 < 1,
        k == 1 ==> hex_value(s)->0 < 0x10,
        k == 2 ==> hex_value(s)->0 < 0x100,
        k == 3 ==> hex_value(s)->0 < 0x1000,
        k == 4 ==> hex_value(s)->0 < 0x1_0000,
        k == 5 ==> hex_value(s)->0 < 0x10_0000,
        k == 6 ==> hex_value(s)->0 < 0x100_0000,
        k == 7 ==> hex_value(s)->0 < 0x1000_0000,
        k == 8 ==> hex_value(s)->0 < 0x1_0000_0000,
    decreases k,
{
    if k > 0 {
        lemma_eight_digits(s.drop_last(), (k - 1) as nat);
    }
}

/// Parses the canonical form (strict: exactly what [`node_hex`] gives, in either case).
pub fn parse_node_hex(s: &str) -> (r: Option<u32>)
    ensures
        r == addr_of(s@),
{
    let v = chars_of(s);
    if v.len() != 10 || v[0] != '0' || (v[1] != 'x' && v[1] != 'X') {
        return None;
    }
    let ghost h = s@.skip(2);
    let mut acc: u32 = 0;
    let mut i: usize = 2;
    assert(h.take(0) =~= Seq::<char>::empty());
    while i < 10
        invariant
            2 <= i <= 10,
            v@ == s@,
            v@.len() == 10,
            h == s@.skip(2),
            hex_value(h.take(i - 2)) == Some(acc as nat),
        decreases 10 - i,
    {
        proof {
            assert(h.take(i - 1).drop_last() =~= h.take(i - 2));
            assert(h.take(i - 1).last() == s@[i as int]);
        }
        match value_of(v[i]) {
            Some(d) => {
                proof {
                    lemma_eight_digits(h.take(i - 1), (i - 1) as nat);
                }
                acc = 16 * acc + d;
            },
            None => {
                proof {
                    lemma_bad_digit(h, i - 2);
                }
                return None;
            },
        }
        i = i + 1;
    }
    assert(h.take(8) =~= h);
    Some(acc)
}

/// A sequence with a character that is no digit writes no number.
proof fn lemma_bad_digit(s: Seq<char>, i: int)
    requires
        0 <= i < s.len(),
        digit_value(s[i]) is None,
    ensures
        hex_value(s) is None,
    decreases s.len(),
{
    if i < s.len() - 1 {
        lemma_bad_digit(s.drop_last(), i);
    }
}

pub fn gateway_status(prefix: &str) -> (r: String)
    ensures
        r@ == prefix@ + "gateway/status"@,
{
    cat2(prefix, "gateway/status")
}

pub fn gateway_stats(prefix: &str) -> (r: String)
    ensures
        r@ == prefix@ + "gateway/stats"@,
{
    cat2(prefix, "gateway/stats")
}

pub fn gateway_pairing(prefix: &str) -> (r: String)
    ensures
        r@ == prefix@ + "gateway/pairing"@,
{
    cat2(prefix, "gateway/pairing")
}

pub fn gateway_cmd(prefix: &str) -> (r: String)
    ensures
        r@ == prefix@ + "gateway/cmd"@,
{
    cat2(prefix, "gateway/cmd")
}

pub fn gateway_rsp(prefix: &str, rpc_id: &str) -> (r: String)
    ensures
        r@ == prefix@ + "gateway/rsp/"@ + rpc_id@,
{
    cat3(prefix, "gateway/rsp/", rpc_id)
}

pub fn node(prefix: &str, addr: u32) -> (r: String)
    ensures
        r@ == node_topic(prefix@, addr, ""@),
{
    below_node(prefix, addr, "")
}

/// The topic `tail` below a node.
fn below_node(prefix: &str, addr: u32, tail: &str) -> (r: String)
    ensures
        r@ == node_topic(prefix@, addr, tail@),
{
    let h = node_hex(addr);
    cat4(prefix, "nodes/", h.as_str(), tail)
}

pub fn node_button(prefix: &str, addr: u32) -> (r: String)
    ensures
        r@ == node_topic(prefix@, addr, "/event/button"@),
{
    below_node(prefix, addr, "/event/button")
}

pub fn node_accel(prefix: &str, addr: u32) -> (r: String)
    ensures
        r@ == node_topic(prefix@, addr, "/event/accel"@),
{
    below_node(prefix, addr, "/event/accel")
}

pub fn node_temperature(prefix: &str, addr: u32) -> (r: String)
    ensures
        r@ == node_topic(prefix@, addr, "/measure/temperature"@),
{
    below_node(prefix, addr, "/measure/temperature")
}

pub fn node_uplink(prefix: &str, addr: u32) -> (r: String)
    ensures
        r@ == node_topic(prefix@, addr, "/uplink"@),
{
    below_node(prefix, addr, "/uplink")
}

pub fn node_shell_req(prefix: &str, addr: u32) -> (r: String)
    ensures
        r@ == node_topic(prefix@, addr, "/shell/req"@),
{
    below_node(prefix, addr, "/shell/req")
}

pub fn node_shell_rsp(prefix: &str, addr: u32) -> (r: String)
    ensures
        r@ == node_topic(prefix@, addr, "/shell/rsp"@),
{
    below_node(prefix, addr, "/shell/rsp")
}

pub fn node_shell_pending(prefix: &str, addr: u32) -> (r: String)
    ensures
        r@ == node_topic(prefix@, addr, "/shell/pending"@),
{
    below_node(prefix, addr, "/shell/pending")
}

pub fn radio_rssi(prefix: &str) -> (r: String)
    ensures
        r@ == prefix@ + "radio/rssi"@,
{
    cat2(prefix, "radio/rssi")
}

pub fn radio_rx(prefix: &str) -> (r: String)
    ensures
        r@ == prefix@ + "radio/rx"@,
{
    cat2(prefix, "radio/rx")
}

pub fn radio_tx(prefix: &str) -> (r: String)
    ensures
        r@ == prefix@ + "radio/tx"@,
{
    cat2(prefix, "radio/tx")
}

/// Cutting off two prefixes one after the other cuts off both.
proof fn lemma_behind_both(s: Seq<char>, p: Seq<char>, q: Seq<char>)
    ensures
        behind(s, p + q) == match behind(s, p) {
            Some(rest) => behind(rest, q),
            None => None,
        },
{
    let pq = p + q;
    if p.is_prefix_of(s) {
        let rest = s.skip(p.len() as int);
        if q.is_prefix_of(rest) {
            assert(pq =~= s.subrange(0, pq.len() as int)) by {
                assert forall|i: int| 0 <= i < pq.len() implies pq[i] == s[i] by {
                    if i < p.len() {
                        assert(p[i] == s.subrange(0, p.len() as int)[i]);
                    } else {
                        assert(q[i - p.len()] == rest.subrange(0, q.len() as int)[i - p.len()]);
                    }
                }
            }
            assert(s.skip(pq.len() as int) =~= rest.skip(q.len() as int));
        } else if pq.is_prefix_of(s) {
            assert(q =~= rest.subrange(0, q.len() as int)) by {
                assert forall|i: int| 0 <= i < q.len() implies q[i] == rest[i] by {
                    assert(pq[p.len() + i] == s.subrange(0, pq.len() as int)[p.len() + i]);
                }
            }
        }
    } else if pq.is_prefix_of(s) {
        assert(p =~= s.subrange(0, p.len() as int)) by {
            assert forall|i: int| 0 <= i < p.len() implies p[i] == s[i] by {
                assert(pq[i] == s.subrange(0, pq.len() as int)[i]);
            }
        }
    }
}

/// The node a topic belongs to: `nodes/{addr}` or `nodes/{addr}/…` under `prefix` gives
/// that address; anything else (`gateway/*`, `radio/*`, foreign) gives `None`. Drives
/// the per-node filter of the message feed.
pub fn node_of(prefix: &str, topic: &str) -> (r: Option<u32>)
    ensures
        r == topic_node(prefix@, topic@),
{
    proof {
        lemma_behind_both(topic@, prefix@, "nodes/"@);
    }
    match strip_prefix(topic, prefix) {
        None => None,
        Some(rest) => match strip_prefix(rest, "nodes/") {
            None => None,
            Some(tail) => parse_node_hex(before(tail, '/')),
        },
    }
}

/// Classifies an inbound topic (the engine subscribes to `gateway/cmd` and
/// `nodes/+/shell/req`).
pub fn classify(prefix: &str, topic: &str) -> (r: Inbound)
    ensures
        r == meaning(prefix@, topic@),
{
    match strip_prefix(topic, prefix) {
        None => Inbound::Other,
        Some(rest) => {
            if same(rest, "gateway/cmd") {
                return Inbound::Cmd;
            }
            match strip_prefix(rest, "nodes/") {
                None => Inbound::Other,
                Some(tail) => match strip_suffix(tail, "/shell/req") {
                    None => Inbound::Other,
                    Some(h) => match parse_node_hex(h) {
                        None => Inbound::Other,
                        Some(a) => Inbound::ShellReq(a),
                    },
                },
            }
        },
    }
}

// ---- laws --------------------------------------------------------------------------

/// Every 32-bit address fits in eight digits.
proof fn lemma_u32_fits(a: u32)
    ensures
        fits_hex(a as nat, 8),
{
    reveal_with_fuel(fits_hex, 9);
}

/// The canonical form reads back as the address that it writes.
pub proof fn law_addr_round_trip(addr: u32)
    ensures
        addr_of(addr_text(addr)) == Some(addr),
        addr_text(addr).len() == 10,
{
    reveal_strlit("0x");
    lemma_u32_fits(addr);
    lemma_hex_value(addr as nat, 8);
    assert(addr_text(addr).skip(2) =~= hex(addr as nat, 8));
}

/// A character in lower case, as far as the canonical form of an address goes.
pub open spec fn lower(c: char) -> char {
    if c == 'X' {
        'x'
    } else {
        match digit_value(c) {
            Some(d) => digit_char(d),
            None => c,
        }
    }
}

/// Parsing is strict: what is accepted is, in lower case, the canonical form of the
/// address that is returned.
pub proof fn law_addr_strict(s: Seq<char>)
    ensures
        addr_of(s) matches Some(a) ==> s.map_values(|c: char| lower(c)) == addr_text(a),
{
    if let Some(a) = addr_of(s) {
        reveal_strlit("0x");
        let h = s.skip(2);
        lemma_eight_digits(h, 8);
        lemma_digits_unique(h);
        let m = s.map_values(|c: char| lower(c));
        lemma_hex_digits(a as nat, 8);
        assert forall|i: int| 0 <= i < 10 implies m[i] == #[trigger] addr_text(a)[i] by {
            if i >= 2 {
                assert(hex(a as nat, 8)[i - 2] == digit_char(digit_value(h[i - 2])->0));
                assert(addr_text(a)[i] == hex(a as nat, 8)[i - 2]);
                lemma_all_digits(h, i - 2);
            } else {
                assert(addr_text(a)[i] == "0x"@[i]);
            }
        }
        assert(m =~= addr_text(a));
    }
}

/// Every character of a written number is a digit.
proof fn lemma_all_digits(s: Seq<char>, i: int)
    requires
        0 <= i < s.len(),
        hex_value(s) is Some,
    ensures
        digit_value(s[i]) is Some,
{
    if digit_value(s[i]) is None {
        lemma_bad_digit(s, i);
    }
}

/// Writing a parsed number in as many digits gives the same digits, in lower case.
proof fn lemma_digits_unique(s: Seq<char>)
    requires
        hex_value(s) is Some,
    ensures
        hex(hex_value(s)->0, s.len()).len() == s.len(),
        forall|i: int| 0 <= i < s.len() ==> #[trigger] hex(hex_value(s)->0, s.len())[i]
            == digit_char(digit_value(s[i])->0),
    decreases s.len(),
{
    if s.len() > 0 {
        let t = s.drop_last();
        lemma_digits_unique(t);
        let v = hex_value(s)->0;
        let d = digit_value(s.last())->0;
        assert(0 <= d < 16);
        assert(v == 16 * hex_value(t)->0 + d);
        assert(v / 16 == hex_value(t)->0);
        assert(v % 16 == d as nat);
        assert(hex(v, s.len()) == hex(v / 16, t.len()).push(digit_char(d)));
    }
}

/// An address holds no `/`.
proof fn lemma_addr_no_slash(addr: u32)
    ensures
        addr_text(addr).len() == 10,
        forall|i: int| 0 <= i < 10 ==> #[trigger] addr_text(addr)[i] != '/',
{
    reveal_strlit("0x");
    lemma_hex_digits(addr as nat, 8);
    assert forall|i: int| 0 <= i < 10 implies #[trigger] addr_text(addr)[i] != '/' by {
        if i >= 2 {
            assert(addr_text(addr)[i] == hex(addr as nat, 8)[i - 2]);
        } else {
            assert(addr_text(addr)[i] == "0x"@[i]);
        }
    }
}

/// Every topic at or below a node belongs to that node.
pub proof fn law_node_topics_belong_to_their_node(prefix: Seq<char>, addr: u32, tail: Seq<char>)
    requires
        tail.len() == 0 || tail[0] == '/',
    ensures
        topic_node(prefix, node_topic(prefix, addr, tail)) == Some(addr),
{
    let p = prefix + "nodes/"@;
    let rest = addr_text(addr) + tail;
    assert(node_topic(prefix, addr, tail) =~= p + rest);
    lemma_behind(p, rest);
    lemma_addr_no_slash(addr);
    lemma_first_index(rest, '/', 10);
    assert(rest.take(10) =~= addr_text(addr));
    law_addr_round_trip(addr);
}

/// The topics below `gateway/` and `radio/` belong to no node.
pub proof fn law_other_topics_belong_to_no_node(prefix: Seq<char>, tail: Seq<char>)
    ensures
        topic_node(prefix, prefix + "gateway/"@ + tail) is None,
        topic_node(prefix, prefix + "radio/"@ + tail) is None,
{
    reveal_strlit("nodes/");
    reveal_strlit("gateway/");
    reveal_strlit("radio/");
    let p = prefix + "nodes/"@;
    let g = prefix + "gateway/"@ + tail;
    let r = prefix + "radio/"@ + tail;
    if p.is_prefix_of(g) {
        assert(p[prefix.len() as int] == g.subrange(0, p.len() as int)[prefix.len() as int]);
    }
    if p.is_prefix_of(r) {
        assert(p[prefix.len() as int] == r.subrange(0, p.len() as int)[prefix.len() as int]);
    }
}

/// The two subscribed kinds of topic are recognised under every prefix.
pub proof fn law_subscribed_topics_classify(prefix: Seq<char>, addr: u32)
    ensures
        meaning(prefix, prefix + "gateway/cmd"@) == Inbound::Cmd,
        meaning(prefix, node_topic(prefix, addr, "/shell/req"@)) == Inbound::ShellReq(addr),
{
    lemma_behind(prefix, "gateway/cmd"@);
    let tail = addr_text(addr) + "/shell/req"@;
    let rest = "nodes/"@ + tail;
    assert(node_topic(prefix, addr, "/shell/req"@) =~= prefix + rest);
    lemma_behind(prefix, rest);
    lemma_behind("nodes/"@, tail);
    lemma_in_front(addr_text(addr), "/shell/req"@);
    law_addr_round_trip(addr);
    reveal_strlit("gateway/cmd");
    reveal_strlit("nodes/");
    assert(rest[0] == 'n');
    assert("gateway/cmd"@[0] == 'g');
}

/// What the gateway itself publishes is never taken for a request: a topic below a node
/// is one only where it ends in `/shell/req`.
pub proof fn law_own_node_topics_are_ignored(prefix: Seq<char>, addr: u32, tail: Seq<char>)
    requires
        in_front(addr_text(addr) + tail, "/shell/req"@) is None,
    ensures
        meaning(prefix, node_topic(prefix, addr, tail)) == Inbound::Other,
{
    let rest = "nodes/"@ + (addr_text(addr) + tail);
    assert(node_topic(prefix, addr, tail) =~= prefix + rest);
    lemma_behind(prefix, rest);
    lemma_behind("nodes/"@, addr_text(addr) + tail);
    reveal_strlit("gateway/cmd");
    reveal_strlit("nodes/");
    assert(rest[0] == 'n');
    assert("gateway/cmd"@[0] == 'g');
}

/// What is left after trimming has no such character at its front, and is a tail.
proof fn lemma_trim_front(s: Seq<char>, c: char)
    ensures
        trim_front(s, c).len() <= s.len(),
        trim_front(s, c).len() > 0 ==> trim_front(s, c)[0] != c,
    decreases s.len(),
{
    if s.len() > 0 && s[0] == c {
        lemma_trim_front(s.skip(1), c);
    }
}

/// What is left after trimming has no such character at its end, and is a head.
proof fn lemma_trim_back(s: Seq<char>, c: char)
    ensures
        trim_back(s, c).len() <= s.len(),
        trim_back(s, c) == s.take(trim_back(s, c).len() as int),
        trim_back(s, c).len() > 0 ==> trim_back(s, c).last() != c,
    decreases s.len(),
{
    if s.len() > 0 && s.last() == c {
        lemma_trim_back(s.drop_last(), c);
        assert(trim_back(s, c) =~= s.take(trim_back(s, c).len() as int));
    } else {
        assert(s =~= s.take(s.len() as int));
    }
}

/// A normalized prefix is empty, or ends in the one `/` and does not begin with one; and
/// normalizing it again changes nothing.
pub proof fn law_prefix_normal_form(prefix: Seq<char>)
    ensures
        ({
            let p = normal_prefix(prefix);
            &&& p.len() > 0 ==> p.len() > 1 && p.last() == '/' && p[0] != '/' && p[p.len() - 2] != '/'
            &&& normal_prefix(p) == p
        }),
{
    let f = trim_front(prefix, '/');
    let b = trim_back(f, '/');
    lemma_trim_front(prefix, '/');
    lemma_trim_back(f, '/');
    let p = normal_prefix(prefix);
    if b.len() > 0 {
        assert(b[0] == f[0]);
        assert(trim_front(p, '/') == p);
        assert(p.drop_last() =~= b);
        assert(trim_back(p, '/') == trim_back(b, '/'));
        assert(trim_back(b, '/') == b);
    }
}

} // verus!

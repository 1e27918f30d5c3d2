//! Which topics there are, and which message of the broker is what.

use crate::engine_dispatch_laws::alike;
use crate::engine_model::{on_mqtt, on_rpc, on_shell_req, say, World};
use crate::payload::{RpcRequest, ShellReq};
use crate::text::{
    fits_hex, hex, hex_value, lemma_hex_digits, lemma_hex_value, trim_back, trim_front,
};
use crate::topics::{
    addr_text, law_addr_round_trip, law_subscribed_topics_classify, node_topic, normal_prefix,
};
use vstd::prelude::*;

verus! {

/// A message on the gateway's topic is a request, and one on a node's topic a line for that
/// node; what cannot be read as such is told in the log.
pub proof fn law_messages_are_taken_by_their_topics(
    w: World,
    node: u32,
    rpc: Result<RpcRequest, String>,
    shell: Result<ShellReq, String>,
    key: Option<Seq<u8>>,
)
    ensures
        alike(
            on_mqtt(w, w.e.prefix + "gateway/cmd"@, rpc, shell, key),
            match rpc {
                Ok(req) => on_rpc(w, req.deep_view(), key),
                Err(e) => say(w, "bad RPC payload: "@ + e@),
            },
        ),
        alike(
            on_mqtt(w, w.e.prefix + "nodes/"@ + addr_text(node) + "/shell/req"@, rpc, shell, key),
            match shell {
                Ok(req) => on_shell_req(w, node, req),
                Err(e) => say(w, "bad shell request: "@ + e@),
            },
        ),
{
    law_subscribed_topics_classify(w.e.prefix, node);
}

/// The topics of a node lie below the prefix, under its address in eight hexadecimal digits
/// in lower case.
pub proof fn law_topics_of_nodes(prefix: Seq<char>, addr: u32, tail: Seq<char>)
    ensures
        node_topic(prefix, addr, tail) == prefix + "nodes/"@ + addr_text(addr) + tail,
        addr_text(addr).len() == 10,
        addr_text(addr).take(2) == "0x"@,
        hex_value(addr_text(addr).skip(2)) == Some(addr as nat),
        forall|i: int|
            2 <= i < 10 ==> '0' <= #[trigger] addr_text(addr)[i] <= '9' || 'a' <= addr_text(addr)[i]
                <= 'f',
{
    reveal_strlit("0x");
    law_addr_round_trip(addr);
    lemma_hex_digits(addr as nat, 8);
    assert(fits_hex(addr as nat, 8)) by {
        reveal_with_fuel(fits_hex, 9);
    }
    lemma_hex_value(addr as nat, 8);
    let h = hex(addr as nat, 8);
    assert(addr_text(addr).take(2) =~= "0x"@);
    assert(addr_text(addr).skip(2) =~= h);
    assert forall|i: int| 2 <= i < 10 implies '0' <= #[trigger] addr_text(addr)[i] <= '9' || 'a'
        <= addr_text(addr)[i] <= 'f' by {
        assert(addr_text(addr)[i] == h[i - 2]);
    }
}

proof fn lemma_front(a: Seq<char>, p: Seq<char>)
    requires
        forall|i: int| 0 <= i < a.len() ==> #[trigger] a[i] == '/',
        p.len() > 0 ==> p[0] != '/',
    ensures
        trim_front(a + p, '/') == p,
    decreases a.len(),
{
    let s = a + p;
    if a.len() > 0 {
        assert(s[0] == a[0]);
        assert(s.skip(1) =~= a.skip(1) + p);
        lemma_front(a.skip(1), p);
    } else {
        assert(s =~= p);
    }
}

proof fn lemma_back(p: Seq<char>, b: Seq<char>)
    requires
        forall|i: int| 0 <= i < b.len() ==> #[trigger] b[i] == '/',
        p.len() > 0 ==> p.last() != '/',
    ensures
        trim_back(p + b, '/') == p,
    decreases b.len(),
{
    let s = p + b;
    if b.len() > 0 {
        assert(s.last() == b.last());
        assert(b.last() == b[b.len() - 1]);
        assert(s.drop_last() =~= p + b.drop_last());
        lemma_back(p, b.drop_last());
    } else {
        assert(s =~= p);
    }
}

/// Whatever slashes stand around a prefix, it ends in one and begins with none; an empty one
/// stays empty.
pub proof fn law_slashes_around_a_prefix(a: Seq<char>, p: Seq<char>, b: Seq<char>)
    requires
        forall|i: int| 0 <= i < a.len() ==> #[trigger] a[i] == '/',
        forall|i: int| 0 <= i < b.len() ==> #[trigger] b[i] == '/',
        p.len() > 0 ==> p[0] != '/' && p.last() != '/',
    ensures
        p.len() > 0 ==> normal_prefix(a + p + b) == p.push('/'),
        normal_prefix(a).len() == 0,
{
    if p.len() > 0 {
        assert(a + p + b =~= a + (p + b));
        lemma_front(a, p + b);
        lemma_back(p, b);
    }
    let none = Seq::<char>::empty();
    assert(a + none =~= a);
    lemma_front(a, none);
    assert(trim_back(none, '/') =~= none);
}

} // verus!

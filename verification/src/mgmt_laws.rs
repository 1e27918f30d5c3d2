//! What the replies of a device to a management request come to, said of the frames and the
//! bytes themselves.

use crate::frame::{Body, Frame, MgmtResponse};
use crate::mgmt::{
    described, device_info_in, device_info_of, mgmt_after, mgmt_outcome, mgmt_start, node_entries,
    queue_entries, read_device_info, read_node_key, read_paired, read_queue_id, take_node_entry,
    take_queue_entry, varint, DescribeOutcomeV, DeviceInfoV, MgmtOutcome, MgmtOutcomeV, MgmtReply,
    MgmtWaitV, NodeEntryV, QueueEntryV,
};
use crate::session_laws::last_tag;
use crate::wire::{DeviceRole, Wire};
use vstd::prelude::*;

verus! {

// ---- the chunks among the frames ---------------------------------------------------

/// The frame is a chunk of the reply to `req_id`.
pub open spec fn is_part(f: Frame, req_id: u16) -> bool {
    match f {
        Frame::Message { kind: _, seq: _, body: Body::MgmtResponse(r) } => r.req_id == req_id,
        _ => false,
    }
}

/// The chunk that such a frame carries.
pub open spec fn part_in(f: Frame) -> MgmtResponse
    recommends
        f matches Frame::Message { body: Body::MgmtResponse(_), .. },
{
    match f {
        Frame::Message { kind: _, seq: _, body: Body::MgmtResponse(r) } => r,
        _ => arbitrary(),
    }
}

/// The chunks of the reply to `req_id`, as they came.
pub open spec fn parts(frames: Seq<Frame>, req_id: u16) -> Seq<MgmtResponse>
    decreases frames.len(),
{
    if frames.len() == 0 {
        Seq::empty()
    } else if is_part(frames[0], req_id) {
        seq![part_in(frames[0])] + parts(frames.skip(1), req_id)
    } else {
        parts(frames.skip(1), req_id)
    }
}

/// All bytes of the chunks, in a row.
pub open spec fn whole_data(cs: Seq<MgmtResponse>) -> Seq<u8>
    decreases cs.len(),
{
    if cs.len() == 0 {
        Seq::empty()
    } else {
        cs[0].data@ + whole_data(cs.skip(1))
    }
}

/// Each chunk has the number behind the one before it, the first one `from`.
pub open spec fn in_order(cs: Seq<MgmtResponse>, from: u16) -> bool
    decreases cs.len(),
{
    cs.len() > 0 ==> cs[0].chunk == from && in_order(
        cs.skip(1),
        ((from + 1) % 0x1_0000) as u16,
    )
}

/// The last chunk, and no other, is marked as the last.
pub open spec fn closed_once(cs: Seq<MgmtResponse>) -> bool {
    &&& cs.len() > 0
    &&& forall|i: int| 0 <= i < cs.len() ==> (#[trigger] cs[i]).last == (i == cs.len() - 1)
}

proof fn lemma_in_order(cs: Seq<MgmtResponse>, from: u16)
    requires
        forall|j: int| 0 <= j < cs.len() ==> (#[trigger] cs[j]).chunk == (from + j) % 0x1_0000,
    ensures
        in_order(cs, from),
    decreases cs.len(),
{
    if cs.len() > 0 {
        let next = ((from + 1) % 0x1_0000) as u16;
        assert forall|j: int| 0 <= j < cs.skip(1).len() implies (#[trigger] cs.skip(1)[j]).chunk == (
        next + j) % 0x1_0000 by {
            assert(cs.skip(1)[j] == cs[j + 1]);
        }
        assert(cs[0].chunk == from);
        lemma_in_order(cs.skip(1), next);
    }
}

proof fn lemma_closed(w: MgmtWaitV, frames: Seq<Frame>)
    requires
        closed_once(parts(frames, w.req_id)),
    ensures
        ({
            let cs = parts(frames, w.req_id);
            mgmt_outcome(w, frames) == MgmtOutcomeV::Reply {
                result: cs.last().result,
                data: w.data + whole_data(cs),
                truncated: w.truncated || !in_order(cs, w.next_chunk),
            }
        }),
    decreases frames.len(),
{
    let cs = parts(frames, w.req_id);
    let rest = frames.skip(1);
    if is_part(frames[0], w.req_id) {
        let c = part_in(frames[0]);
        let more = parts(rest, w.req_id);
        assert(cs.skip(1) =~= more);
        assert(cs[0] == c);
        let next = mgmt_after(w, frames[0]);
        assert(next.next_chunk == (c.chunk + 1) % 0x1_0000);
        if more.len() == 0 {
            assert(whole_data(cs) =~= c.data@) by {
                assert(whole_data(more) =~= Seq::<u8>::empty());
            }
            assert(in_order(more, next.next_chunk));
        } else {
            assert forall|i: int| 0 <= i < more.len() implies (#[trigger] more[i]).last == (i
                == more.len() - 1) by {
                assert(more[i] == cs[i + 1]);
            }
            assert(cs.last() == more.last());
            assert(!c.last);
            lemma_closed(next, rest);
            assert(w.data + whole_data(cs) =~= next.data + whole_data(more));
        }
    } else {
        lemma_closed(mgmt_after(w, frames[0]), rest);
    }
}

proof fn lemma_open(w: MgmtWaitV, frames: Seq<Frame>)
    requires
        forall|i: int|
            0 <= i < parts(frames, w.req_id).len() ==> !(#[trigger] parts(frames, w.req_id)[i]).last,
    ensures
        mgmt_outcome(w, frames) == (MgmtOutcomeV::Timeout {
            bad_version: last_tag(frames, w.bad_version),
        }),
    decreases frames.len(),
{
    let cs = parts(frames, w.req_id);
    if frames.len() > 0 {
        let rest = frames.skip(1);
        let more = parts(rest, w.req_id);
        if is_part(frames[0], w.req_id) {
            assert(cs.skip(1) =~= more);
            assert(cs[0] == part_in(frames[0]));
            assert(!cs[0].last);
            assert forall|i: int| 0 <= i < more.len() implies !(#[trigger] more[i]).last by {
                assert(more[i] == cs[i + 1]);
            }
        }
        lemma_open(mgmt_after(w, frames[0]), rest);
    }
}

// ---- laws --------------------------------------------------------------------------

/// A reply whose chunks all came, in their order, is whole: it has the bytes of every one of
/// them in a row and the result of the last, whatever other frames came between.
pub proof fn law_whole_replies_are_whole(req_id: u16, frames: Seq<Frame>)
    requires
        closed_once(parts(frames, req_id)),
        forall|i: int|
            0 <= i < parts(frames, req_id).len() ==> (#[trigger] parts(frames, req_id)[i]).chunk == i
                % 0x1_0000,
    ensures
        ({
            let cs = parts(frames, req_id);
            mgmt_outcome(mgmt_start(req_id), frames) == MgmtOutcomeV::Reply {
                result: cs.last().result,
                data: whole_data(cs),
                truncated: false,
            }
        }),
{
    let cs = parts(frames, req_id);
    lemma_in_order(cs, 0);
    lemma_closed(mgmt_start(req_id), frames);
    assert(Seq::<u8>::empty() + whole_data(cs) =~= whole_data(cs));
}

/// A reply that came to its end has the bytes of its chunks, and is called truncated exactly
/// where their numbers do not follow each other from 0.
pub proof fn law_lost_chunks_are_told(req_id: u16, frames: Seq<Frame>)
    requires
        closed_once(parts(frames, req_id)),
    ensures
        ({
            let cs = parts(frames, req_id);
            mgmt_outcome(mgmt_start(req_id), frames) == MgmtOutcomeV::Reply {
                result: cs.last().result,
                data: whole_data(cs),
                truncated: !in_order(cs, 0),
            }
        }),
{
    let cs = parts(frames, req_id);
    lemma_closed(mgmt_start(req_id), frames);
    assert(Seq::<u8>::empty() + whole_data(cs) =~= whole_data(cs));
}

/// Without a last chunk there is no reply, and the last refused version tag is told.
pub proof fn law_replies_without_an_end(req_id: u16, frames: Seq<Frame>)
    requires
        forall|i: int|
            0 <= i < parts(frames, req_id).len() ==> !(#[trigger] parts(frames, req_id)[i]).last,
    ensures
        mgmt_outcome(mgmt_start(req_id), frames) == (MgmtOutcomeV::Timeout {
            bad_version: last_tag(frames, None),
        }),
{
    lemma_open(mgmt_start(req_id), frames);
}

/// Every field of a description is taken from its place; one with an unknown role is none.
pub proof fn law_descriptions_are_read(
    w: Wire,
    bytes: Seq<u8>,
    schema: u8,
    net_id: u32,
    band: u8,
    channel: u8,
    capacity: u8,
    count: u8,
    provisioned: bool,
    gw_id: u32,
    name: Seq<char>,
)
    requires
        w.role_gateway != w.role_node,
    ensures
        ({
            let t = |role: u32|
                (
                    role,
                    schema,
                    net_id,
                    band,
                    channel,
                    capacity,
                    count,
                    provisioned,
                    gw_id,
                    name,
                );
            let d = |role: DeviceRole|
                DeviceInfoV {
                    role,
                    radio_schema_version: schema,
                    net_id,
                    band,
                    channel,
                    node_capacity: capacity,
                    node_count: count,
                    provisioned,
                    gw_id,
                    firmware_name: name,
                };
            &&& device_info_of(w, t(w.role_gateway)) == Some(d(DeviceRole::Gateway))
            &&& device_info_of(w, t(w.role_node)) == Some(d(DeviceRole::Node))
            &&& forall|role: u32|
                role != w.role_gateway && role != w.role_node && role != w.role_other
                    ==> #[trigger] device_info_of(w, t(role)) is None
            &&& read_device_info(bytes) is None ==> device_info_in(w, bytes) is None
            &&& read_device_info(bytes) matches Some(r) ==> device_info_in(w, bytes)
                == device_info_of(w, r)
        }),
{
}

/// A description that was refused is told with its code; one that cannot be read with 255;
/// one that did not come with the version of what came.
pub proof fn law_descriptions_are_told(
    w: Wire,
    reply: MgmtReply,
    bad_version: Option<u8>,
    d: DeviceInfoV,
)
    ensures
        described(w, MgmtOutcome::Timeout { bad_version }) == (DescribeOutcomeV::Timeout {
            bad_version,
        }),
        reply.result != w.mgmt_ok ==> described(w, MgmtOutcome::Reply(reply))
            == DescribeOutcomeV::Refused(reply.result),
        reply.result == w.mgmt_ok && device_info_in(w, reply.data@) is None ==> described(
            w,
            MgmtOutcome::Reply(reply),
        ) == DescribeOutcomeV::Refused(255),
        reply.result == w.mgmt_ok && device_info_in(w, reply.data@) == Some(d) ==> described(
            w,
            MgmtOutcome::Reply(reply),
        ) == DescribeOutcomeV::Info(d),
{
}

/// Every entry of a list is read, one behind the other, and every field from its place; what
/// cannot be read ends the list.
pub proof fn law_lists_are_read(bytes: Seq<u8>)
    ensures
        take_node_entry(bytes) is None ==> node_entries(bytes).len() == 0,
        take_node_entry(bytes) matches Some((t, rest)) ==> rest.len() < bytes.len()
            ==> node_entries(bytes) == seq![
            (NodeEntryV {
                id: t.0,
                name: t.1,
                flags: t.2,
                last_seen_s: t.3,
                rssi_dbm: t.4,
                uplinks: t.5,
                queued: t.6,
            }),
        ] + node_entries(rest),
        take_queue_entry(bytes) is None ==> queue_entries(bytes).len() == 0,
        take_queue_entry(bytes) matches Some((t, rest)) ==> rest.len() < bytes.len()
            ==> queue_entries(bytes) == seq![
            (QueueEntryV { node: t.0, item: t.1, age_s: t.2, ttl_s: t.3, data: t.4 }),
        ] + queue_entries(rest),
{
}

/// A number in groups of seven bits, the lowest first, each but the last with its top bit set.
pub open spec fn grouped(n: nat, len: nat) -> Seq<u8>
    decreases len,
{
    if len <= 1 {
        seq![n as u8]
    } else {
        seq![(n % 128 + 128) as u8] + grouped(n / 128, (len - 1) as nat)
    }
}

/// `n` needs `len` groups of seven bits.
pub open spec fn needs(n: nat, len: nat) -> bool
    decreases len,
{
    if len <= 1 {
        len == 1 && n < 128
    } else {
        n >= 128 && needs(n / 128, (len - 1) as nat)
    }
}

/// The highest of `len` groups of seven bits.
pub open spec fn top_group(n: nat, len: nat) -> nat
    decreases len,
{
    if len <= 1 {
        n
    } else {
        top_group(n / 128, (len - 1) as nat)
    }
}

proof fn lemma_grouped(n: nat, len: nat, more: Seq<u8>, most: nat, top: u8)
    requires
        needs(n, len),
        len < most || len == most && top_group(n, len) <= top,
        top < 128,
    ensures
        varint(grouped(n, len) + more, most, top) == Some(n),
    decreases len,
{
    let s = grouped(n, len) + more;
    if len > 1 {
        lemma_grouped(n / 128, (len - 1) as nat, more, (most - 1) as nat, top);
        assert(s.skip(1) =~= grouped(n / 128, (len - 1) as nat) + more);
        assert(n % 128 + 128 * (n / 128) == n);
    }
}

/// An address and a number in a queue read back from their groups of bits, whatever is
/// behind; a key is the first sixteen bytes.
pub proof fn law_numbers_are_read_back(n: nat, len: nat, more: Seq<u8>, key: Seq<u8>)
    requires
        needs(n, len),
        key.len() == 16,
    ensures
        n <= u32::MAX ==> read_paired(grouped(n, len) + more) == Some(n as u32),
        n <= u16::MAX ==> read_queue_id(grouped(n, len) + more) == Some(n as u16),
        read_node_key(key + more) == Some(key),
        more.len() < 16 ==> read_node_key(more) is None,
        read_paired(Seq::empty()) is None && read_queue_id(Seq::empty()) is None,
{
    reveal_with_fuel(needs, 6);
    reveal_with_fuel(top_group, 6);
    if n <= u32::MAX {
        lemma_grouped(n, len, more, 5, 0x0f);
    }
    if n <= u16::MAX {
        lemma_grouped(n, len, more, 3, 0x03);
    }
    assert((key + more).take(16) =~= key);
}

} // verus!

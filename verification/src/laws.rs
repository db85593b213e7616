//! The bridge's guarantees, stated once over the model and proved.

use vstd::prelude::*;

use crate::bridge::bridge_inv;
use crate::bridge::bump_drops;
use crate::bridge::fresh_member;
use crate::bridge::join_allowed;
use crate::bridge::pending_frames;
use crate::bridge::spec_join;
use crate::bridge::spec_leave;
use crate::bridge::spec_recv_broadcast_result;
use crate::bridge::spec_recv_broadcast_state;
use crate::bridge::spec_submit;
use crate::bridge::BridgeView;
use crate::bridge::BroadcastRecvView;
use crate::bridge::SubmitOutcome;
use crate::bridge::BROADCAST_QUEUE_LEN;
use crate::bridge::FROM_BRIDGE_QUEUE_LEN;
use crate::frame::repaired_frame;
use crate::frame::spec_route;
use crate::frame::DropReason;
use crate::frame::FrameActionView;

verus! {

/// Two unicast frames for the same registered destination, submitted in
/// order and both finding room, land on that member's egress queue in
/// submission order, each carrying its checksum repair and nothing else.
pub proof fn lemma_unicast_fifo(b: BridgeView, f1: Seq<u8>, f2: Seq<u8>, d: u64)
    requires
        b.members.contains_key(d),
        b.members[d].egress.len() + 2 <= FROM_BRIDGE_QUEUE_LEN,
        spec_route(f1) == (FrameActionView::Deliver { destination: d, frame: repaired_frame(f1) }),
        spec_route(f2) == (FrameActionView::Deliver { destination: d, frame: repaired_frame(f2) }),
    ensures
        spec_submit(b, f1).1 == SubmitOutcome::Delivered,
        spec_submit(spec_submit(b, f1).0, f2).1 == SubmitOutcome::Delivered,
        spec_submit(spec_submit(b, f1).0, f2).0.members[d].egress == b.members[d].egress.push(
            repaired_frame(f1),
        ).push(repaired_frame(f2)),
{
}

/// Publishing a group-addressed frame appends it to the broadcast
/// history and touches no member's state: every subscriber registered
/// before the publish gains exactly one pending copy of the frame.
pub proof fn lemma_broadcast_fanout(b: BridgeView, f: Seq<u8>, mac: u64)
    requires
        bridge_inv(b),
        b.members.contains_key(mac),
        spec_route(f) == (FrameActionView::Broadcast { frame: repaired_frame(f) }),
    ensures
        spec_submit(b, f).1 == SubmitOutcome::Broadcasted,
        spec_submit(b, f).0.history == b.history.push(repaired_frame(f)),
        spec_submit(b, f).0.members == b.members,
        pending_frames(spec_submit(b, f).0, mac) == pending_frames(b, mac).push(repaired_frame(f)),
{
    let c = b.members[mac].cursor;
    assert(b.history.push(repaired_frame(f)).skip(c) =~= b.history.skip(c).push(
        repaired_frame(f),
    ));
}

/// A subscriber in step with the ring receives the next published frame
/// exactly once: the receive yields `history[cursor]` and moves the
/// cursor past it, so it never comes out of this subscription again.
pub proof fn lemma_broadcast_once(b: BridgeView, mac: u64)
    requires
        bridge_inv(b),
        b.members.contains_key(mac),
        b.members[mac].cursor < b.history.len(),
        b.history.len() - b.members[mac].cursor <= BROADCAST_QUEUE_LEN,
    ensures
        spec_recv_broadcast_result(b, mac) == (BroadcastRecvView::Frame {
            frame: b.history[b.members[mac].cursor],
        }),
        spec_recv_broadcast_state(b, mac).members[mac].cursor == b.members[mac].cursor + 1,
        pending_frames(spec_recv_broadcast_state(b, mac), mac) == pending_frames(
            b,
            mac,
        ).drop_first(),
{
    let c = b.members[mac].cursor;
    assert(b.history.skip(c + 1) =~= b.history.skip(c).drop_first());
}

/// After an address joins, it is registered with an empty egress queue,
/// and a second join of the same address is no longer allowed — it must
/// fail, and the failing call mutates nothing.
pub proof fn lemma_duplicate_join(b: BridgeView, mac: u64)
    requires
        join_allowed(b, mac),
    ensures
        !join_allowed(spec_join(b, mac), mac),
        spec_join(b, mac).members[mac] == fresh_member(b),
{
}

/// After a leave, the same address may join again.
pub proof fn lemma_rejoin_after_leave(b: BridgeView, mac: u64)
    ensures
        join_allowed(spec_leave(b, mac), mac),
{
}

/// A frame shorter than an Ethernet header is dropped without any state
/// change: every following frame is handled exactly as if the malformed
/// one had never been submitted.
pub proof fn lemma_malformed_dropped(b: BridgeView, f: Seq<u8>, g: Seq<u8>)
    requires
        f.len() < 14,
    ensures
        spec_submit(b, f).1 == (SubmitOutcome::Discarded { reason: DropReason::TooShort }),
        spec_submit(b, f).0 == b,
        spec_submit(spec_submit(b, f).0, g) == spec_submit(b, g),
{
}

/// A unicast frame for `d` is delivered whatever the state of any other
/// member's egress queue, and the delivery leaves every other member and
/// the broadcast history untouched.
pub proof fn lemma_egress_isolation(b: BridgeView, f: Seq<u8>, d: u64, other: u64)
    requires
        b.members.contains_key(d),
        b.members[d].egress.len() < FROM_BRIDGE_QUEUE_LEN,
        spec_route(f) == (FrameActionView::Deliver { destination: d, frame: repaired_frame(f) }),
        other != d,
        b.members.contains_key(other),
    ensures
        spec_submit(b, f).1 == SubmitOutcome::Delivered,
        spec_submit(b, f).0.members[d].egress == b.members[d].egress.push(repaired_frame(f)),
        spec_submit(b, f).0.members[other] == b.members[other],
        spec_submit(b, f).0.history == b.history,
{
}

/// A full egress queue costs exactly the one frame addressed to it: the
/// drop is counted, and the registry, every queue and the broadcast
/// history stay as they were — the bridge keeps switching.
pub proof fn lemma_egress_full_contained(b: BridgeView, f: Seq<u8>, d: u64)
    requires
        b.members.contains_key(d),
        b.members[d].egress.len() >= FROM_BRIDGE_QUEUE_LEN,
        spec_route(f) == (FrameActionView::Deliver { destination: d, frame: repaired_frame(f) }),
    ensures
        spec_submit(b, f).1 == SubmitOutcome::EgressFull,
        spec_submit(b, f).0.members == b.members,
        spec_submit(b, f).0.history == b.history,
        spec_submit(b, f).0.egress_drops == bump_drops(b.egress_drops),
{
}

} // verus!

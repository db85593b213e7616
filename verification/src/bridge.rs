//! The virtual bridge: membership registry, per-member egress queues,
//! and the broadcast fan-out ring.
//!
//! A member joins under its link-layer address and owns a bounded egress
//! queue and an independent broadcast cursor. Submitting a frame performs
//! one switching pass: malformed frames are discarded, group-addressed
//! frames are published to every subscriber, unicast frames are appended
//! to the destination member's egress queue. A full egress queue costs
//! only that one frame, counted, and never stops the bridge; an unknown
//! destination is dropped silently.

use std::collections::HashMap;

use vstd::prelude::*;

use crate::frame::process_frame;
use crate::frame::spec_route;
use crate::frame::DropReason;
use crate::frame::FrameAction;
use crate::frame::FrameActionView;

verus! {

broadcast use vstd::std_specs::hash::group_hash_axioms;

/// Capacity of the shared ingress queue of the asynchronous deployment.
pub const TO_BRIDGE_QUEUE_LEN: usize = 50;

/// Capacity of each member's egress queue.
pub const FROM_BRIDGE_QUEUE_LEN: usize = 50;

/// Capacity of the broadcast ring: how far a subscriber may fall behind
/// before it loses the oldest undelivered frames.
pub const BROADCAST_QUEUE_LEN: usize = 50;

/// The sequence of byte sequences a list of frames stands for.
pub open spec fn frames_view(v: Seq<Vec<u8>>) -> Seq<Seq<u8>> {
    Seq::new(v.len(), |i: int| v[i]@)
}

/// One member's state: its egress queue and its broadcast cursor.
#[verifier::ext_equal]
pub struct MemberView {
    /// Frames queued for this member, oldest first.
    pub egress: Seq<Seq<u8>>,
    /// Index into the bridge's broadcast history of the next frame this
    /// member's subscription will yield.
    pub cursor: int,
}

/// The bridge's state: the registry, every frame ever published to the
/// broadcast channel, and the count of frames lost to full egress queues.
#[verifier::ext_equal]
pub struct BridgeView {
    /// Registry: link-layer address to member state; keys unique.
    pub members: Map<u64, MemberView>,
    /// All frames published for fan-out, in publish order. A subscriber
    /// reads them through its cursor; only the last
    /// `BROADCAST_QUEUE_LEN` remain reachable.
    pub history: Seq<Seq<u8>>,
    /// Frames dropped because a destination's egress queue was full.
    pub egress_drops: u64,
}

/// Queue bounds and cursor bounds that every reachable bridge satisfies.
pub open spec fn bridge_inv(b: BridgeView) -> bool {
    forall|mac: u64| #[trigger] b.members.contains_key(mac) ==> {
        &&& b.members[mac].egress.len() <= FROM_BRIDGE_QUEUE_LEN
        &&& 0 <= b.members[mac].cursor <= b.history.len()
    }
}

/// The bridge with no members, nothing published and nothing dropped.
pub open spec fn empty_bridge() -> BridgeView {
    BridgeView { members: Map::empty(), history: Seq::empty(), egress_drops: 0 }
}

/// A join is allowed exactly when the address is not yet registered.
pub open spec fn join_allowed(b: BridgeView, mac: u64) -> bool {
    !b.members.contains_key(mac)
}

/// The member a join creates: an empty egress queue and a broadcast
/// subscription starting at the present end of the history.
pub open spec fn fresh_member(b: BridgeView) -> MemberView {
    MemberView { egress: Seq::empty(), cursor: b.history.len() as int }
}

/// The bridge after a successful join of `mac`.
pub open spec fn spec_join(b: BridgeView, mac: u64) -> BridgeView {
    BridgeView { members: b.members.insert(mac, fresh_member(b)), ..b }
}

/// The bridge after a leave of `mac`.
pub open spec fn spec_leave(b: BridgeView, mac: u64) -> BridgeView {
    BridgeView { members: b.members.remove(mac), ..b }
}

/// What submitting one frame reported.
#[derive(Clone, Copy, Debug, PartialEq, Eq, Structural)]
pub enum SubmitOutcome {
    /// Unicast frame appended to the destination member's egress queue.
    Delivered,
    /// Group-addressed frame published to the broadcast channel.
    Broadcasted,
    /// Malformed frame dropped.
    Discarded { reason: DropReason },
    /// Unicast destination not registered; dropped silently.
    UnknownDestination,
    /// Destination's egress queue full; dropped and counted.
    EgressFull,
}

/// `egress_drops` after one more drop; the count pins at the top of its
/// range rather than wrap.
pub open spec fn bump_drops(n: u64) -> u64 {
    if n < u64::MAX {
        (n + 1) as u64
    } else {
        n
    }
}

/// The bridge state and outcome after one frame is submitted.
pub open spec fn spec_submit(b: BridgeView, f: Seq<u8>) -> (BridgeView, SubmitOutcome) {
    match spec_route(f) {
        FrameActionView::Discard { reason } => (b, SubmitOutcome::Discarded { reason }),
        FrameActionView::Broadcast { frame } => (
            BridgeView { history: b.history.push(frame), ..b },
            SubmitOutcome::Broadcasted,
        ),
        FrameActionView::Deliver { destination, frame } => {
            if !b.members.contains_key(destination) {
                (b, SubmitOutcome::UnknownDestination)
            } else if b.members[destination].egress.len() >= FROM_BRIDGE_QUEUE_LEN {
                (BridgeView { egress_drops: bump_drops(b.egress_drops), ..b }, SubmitOutcome::EgressFull)
            } else {
                (
                    BridgeView {
                        members: b.members.insert(
                            destination,
                            MemberView {
                                egress: b.members[destination].egress.push(frame),
                                cursor: b.members[destination].cursor,
                            },
                        ),
                        ..b
                    },
                    SubmitOutcome::Delivered,
                )
            }
        },
    }
}

/// The bridge after one receive from `mac`'s egress queue.
pub open spec fn spec_recv_egress(b: BridgeView, mac: u64) -> BridgeView {
    if b.members.contains_key(mac) && b.members[mac].egress.len() > 0 {
        BridgeView {
            members: b.members.insert(
                mac,
                MemberView { egress: b.members[mac].egress.drop_first(), cursor: b.members[mac].cursor },
            ),
            ..b
        }
    } else {
        b
    }
}

/// Index of the oldest frame the broadcast ring still holds.
pub open spec fn broadcast_oldest(b: BridgeView) -> int {
    if b.history.len() <= BROADCAST_QUEUE_LEN {
        0
    } else {
        b.history.len() - BROADCAST_QUEUE_LEN
    }
}

/// What one receive on `mac`'s broadcast subscription yields: nothing
/// new, a lag report after falling behind the ring, or the next frame.
pub open spec fn spec_recv_broadcast_result(b: BridgeView, mac: u64) -> BroadcastRecvView {
    let c = b.members[mac].cursor;
    if c >= b.history.len() {
        BroadcastRecvView::Empty
    } else if b.history.len() - c > BROADCAST_QUEUE_LEN {
        BroadcastRecvView::Lagged { missed: (broadcast_oldest(b) - c) as u64 }
    } else {
        BroadcastRecvView::Frame { frame: b.history[c] }
    }
}

/// The bridge after one receive on `mac`'s broadcast subscription: the
/// cursor advances past the frame yielded, or jumps to the oldest
/// reachable frame after a lag.
pub open spec fn spec_recv_broadcast_state(b: BridgeView, mac: u64) -> BridgeView {
    let c = b.members[mac].cursor;
    let next = if c >= b.history.len() {
        c
    } else if b.history.len() - c > BROADCAST_QUEUE_LEN {
        broadcast_oldest(b)
    } else {
        c + 1
    };
    BridgeView {
        members: b.members.insert(
            mac,
            MemberView { egress: b.members[mac].egress, cursor: next },
        ),
        ..b
    }
}

/// The frames member `mac`'s broadcast subscription has yet to yield,
/// oldest first, provided it keeps up with the ring.
pub open spec fn pending_frames(b: BridgeView, mac: u64) -> Seq<Seq<u8>> {
    b.history.skip(b.members[mac].cursor)
}

/// Errors the membership operations return.
#[derive(Clone, Copy, Debug, PartialEq, Eq, Structural)]
pub enum BridgeError {
    /// A member with this address is already registered.
    MemberExists,
    /// No member with this address is registered.
    UnknownMember,
}

/// One receive on a broadcast subscription.
pub enum BroadcastRecv {
    /// Nothing published past this subscription's cursor.
    Empty,
    /// The subscription fell behind the ring; `missed` frames are lost.
    Lagged { missed: u64 },
    /// The next published frame.
    Frame { frame: Vec<u8> },
}

/// `BroadcastRecv` with the frame as a byte sequence.
pub enum BroadcastRecvView {
    Empty,
    Lagged { missed: u64 },
    Frame { frame: Seq<u8> },
}

impl View for BroadcastRecv {
    type V = BroadcastRecvView;

    open spec fn view(&self) -> BroadcastRecvView {
        match self {
            BroadcastRecv::Empty => BroadcastRecvView::Empty,
            BroadcastRecv::Lagged { missed } => BroadcastRecvView::Lagged { missed: *missed },
            BroadcastRecv::Frame { frame } => BroadcastRecvView::Frame { frame: frame@ },
        }
    }
}

struct BridgeMember {
    egress: Vec<Vec<u8>>,
    cursor: usize,
}

impl View for BridgeMember {
    type V = MemberView;

    closed spec fn view(&self) -> MemberView {
        MemberView { egress: frames_view(self.egress@), cursor: self.cursor as int }
    }
}

/// A software Ethernet switch interconnecting members by link-layer
/// address, with broadcast fan-out and TCP checksum repair.
pub struct VirtualBridge {
    members: HashMap<u64, BridgeMember>,
    history: Vec<Vec<u8>>,
    egress_drops: u64,
}

impl View for VirtualBridge {
    type V = BridgeView;

    closed spec fn view(&self) -> BridgeView {
        BridgeView {
            members: self.members@.map_values(|m: BridgeMember| m@),
            history: frames_view(self.history@),
            egress_drops: self.egress_drops,
        }
    }
}

/// Copies a frame byte for byte.
fn clone_frame(v: &Vec<u8>) -> (r: Vec<u8>)
    ensures
        r@ == v@,
{
    let mut r: Vec<u8> = Vec::new();
    let mut i: usize = 0;
    while i < v.len()
        invariant
            i <= v@.len(),
            r@ == v@.take(i as int),
        decreases v@.len() - i,
    {
        r.push(v[i]);
        proof {
            assert(v@.take(i + 1) =~= v@.take(i as int).push(v@[i as int]));
        }
        i = i + 1;
    }
    proof {
        assert(v@.take(v@.len() as int) =~= v@);
    }
    r
}

impl VirtualBridge {
    /// Creates a bridge with no members.
    pub fn new() -> (r: VirtualBridge)
        ensures
            r@ == empty_bridge(),
            bridge_inv(r@),
    {
        let r = VirtualBridge { members: HashMap::new(), history: Vec::new(), egress_drops: 0 };
        proof {
            assert(r@ =~~= empty_bridge());
        }
        r
    }

    /// Registers `mac` and creates its member state. Fails with
    /// `MemberExists`, mutating nothing, if the address is taken.
    pub fn join(&mut self, mac: u64) -> (r: Result<(), BridgeError>)
        requires
            bridge_inv(old(self)@),
        ensures
            bridge_inv(final(self)@),
            r is Ok <==> join_allowed(old(self)@, mac),
            r is Ok ==> final(self)@ == spec_join(old(self)@, mac),
            r is Err ==> final(self)@ == old(self)@ && r == Err::<(), BridgeError>(
                BridgeError::MemberExists,
            ),
    {
        if self.members.contains_key(&mac) {
            return Err(BridgeError::MemberExists);
        }
        let member = BridgeMember { egress: Vec::new(), cursor: self.history.len() };
        proof {
            assert(member@ =~~= fresh_member(old(self)@));
        }
        self.members.insert(mac, member);
        proof {
            assert(self@.members =~~= spec_join(old(self)@, mac).members);
            assert(self@ =~~= spec_join(old(self)@, mac));
        }
        Ok(())
    }

    /// Removes `mac` from the registry; later unicast frames for it are
    /// dropped as unknown. Fails with `UnknownMember` if not registered.
    pub fn leave(&mut self, mac: u64) -> (r: Result<(), BridgeError>)
        requires
            bridge_inv(old(self)@),
        ensures
            bridge_inv(final(self)@),
            r is Ok <==> old(self)@.members.contains_key(mac),
            r is Ok ==> final(self)@ == spec_leave(old(self)@, mac),
            r is Err ==> final(self)@ == old(self)@ && r == Err::<(), BridgeError>(
                BridgeError::UnknownMember,
            ),
    {
        match self.members.remove(&mac) {
            Some(_) => {
                proof {
                    assert(self@.members =~~= spec_leave(old(self)@, mac).members);
                    assert(self@ =~~= spec_leave(old(self)@, mac));
                    assert forall|k: u64| self@.members.contains_key(k) implies self@.members[k]
                        == old(self)@.members[k] && old(self)@.members.contains_key(k) by {}
                }
                Ok(())
            },
            None => {
                proof {
                    assert(self@.members =~~= old(self)@.members);
                    assert(self@ =~~= old(self)@);
                }
                Err(BridgeError::UnknownMember)
            },
        }
    }

    /// Submits one frame to the bridge and performs one switching pass.
    pub fn submit(&mut self, frame: Vec<u8>) -> (r: SubmitOutcome)
        requires
            bridge_inv(old(self)@),
        ensures
            bridge_inv(final(self)@),
            final(self)@ == spec_submit(old(self)@, frame@).0,
            r == spec_submit(old(self)@, frame@).1,
    {
        let ghost f0: Seq<u8> = frame@;
        match process_frame(frame) {
            FrameAction::Discard { reason } => SubmitOutcome::Discarded { reason },
            FrameAction::Broadcast { frame: out } => {
                self.history.push(out);
                proof {
                    assert(self@.history =~= spec_submit(old(self)@, f0).0.history);
                    assert(self@ =~~= spec_submit(old(self)@, f0).0);
                }
                SubmitOutcome::Broadcasted
            },
            FrameAction::Deliver { destination, frame: out } => {
                if !self.members.contains_key(&destination) {
                    return SubmitOutcome::UnknownDestination;
                }
                if let Some(mut member) = self.members.remove(&destination) {
                    if member.egress.len() >= FROM_BRIDGE_QUEUE_LEN {
                        self.members.insert(destination, member);
                        self.egress_drops = if self.egress_drops < u64::MAX {
                            self.egress_drops + 1
                        } else {
                            self.egress_drops
                        };
                        proof {
                            assert(self@.members =~~= old(self)@.members);
                            assert(self@ =~~= spec_submit(old(self)@, f0).0);
                        }
                        SubmitOutcome::EgressFull
                    } else {
                        member.egress.push(out);
                        self.members.insert(destination, member);
                        proof {
                            let b = old(self)@;
                            let g = spec_submit(b, f0).0;
                            assert(member@.egress =~= b.members[destination].egress.push(out@));
                            assert(self@.members =~~= g.members);
                            assert(self@ =~~= g);
                        }
                        SubmitOutcome::Delivered
                    }
                } else {
                    proof {
                        assert(false);
                    }
                    SubmitOutcome::UnknownDestination
                }
            },
        }
    }

    /// Takes the oldest frame queued for member `mac`, if any.
    pub fn recv_egress(&mut self, mac: u64) -> (r: Result<Option<Vec<u8>>, BridgeError>)
        requires
            bridge_inv(old(self)@),
        ensures
            bridge_inv(final(self)@),
            final(self)@ == (if old(self)@.members.contains_key(mac) {
                spec_recv_egress(old(self)@, mac)
            } else {
                old(self)@
            }),
            !old(self)@.members.contains_key(mac) ==> (r matches Err(e) && e
                == BridgeError::UnknownMember),
            old(self)@.members.contains_key(mac) && old(self)@.members[mac].egress.len() == 0
                ==> (r matches Ok(f) && f is None),
            old(self)@.members.contains_key(mac) && old(self)@.members[mac].egress.len() > 0 ==> (
            r matches Ok(f) && f matches Some(v) && v@ == old(self)@.members[mac].egress[0]),
    {
        if !self.members.contains_key(&mac) {
            return Err(BridgeError::UnknownMember);
        }
        if let Some(mut member) = self.members.remove(&mac) {
            if member.egress.len() == 0 {
                self.members.insert(mac, member);
                proof {
                    assert(self@.members =~~= old(self)@.members);
                    assert(self@ =~~= old(self)@);
                }
                Ok(None)
            } else {
                let f = member.egress.remove(0);
                self.members.insert(mac, member);
                proof {
                    let b = old(self)@;
                    assert(member@.egress =~= b.members[mac].egress.drop_first());
                    assert(self@.members =~~= spec_recv_egress(b, mac).members);
                    assert(self@ =~~= spec_recv_egress(b, mac));
                }
                Ok(Some(f))
            }
        } else {
            proof {
                assert(false);
            }
            Err(BridgeError::UnknownMember)
        }
    }

    /// Receives the next frame on member `mac`'s broadcast subscription.
    pub fn recv_broadcast(&mut self, mac: u64) -> (r: Result<BroadcastRecv, BridgeError>)
        requires
            bridge_inv(old(self)@),
        ensures
            bridge_inv(final(self)@),
            !old(self)@.members.contains_key(mac) ==> (final(self)@ == old(self)@ && (r matches Err(
                e,
            ) && e == BridgeError::UnknownMember)),
            old(self)@.members.contains_key(mac) ==> (final(self)@ == spec_recv_broadcast_state(
                old(self)@,
                mac,
            ) && (r matches Ok(v) && v@ == spec_recv_broadcast_result(old(self)@, mac))),
    {
        if !self.members.contains_key(&mac) {
            return Err(BridgeError::UnknownMember);
        }
        if let Some(mut member) = self.members.remove(&mac) {
            let hlen = self.history.len();
            if member.cursor >= hlen {
                self.members.insert(mac, member);
                proof {
                    assert(self@.members =~~= spec_recv_broadcast_state(old(self)@, mac).members);
                    assert(self@ =~~= spec_recv_broadcast_state(old(self)@, mac));
                }
                Ok(BroadcastRecv::Empty)
            } else if hlen - member.cursor > BROADCAST_QUEUE_LEN {
                let oldest = hlen - BROADCAST_QUEUE_LEN;
                let missed = (oldest - member.cursor) as u64;
                member.cursor = oldest;
                self.members.insert(mac, member);
                proof {
                    assert(self@.members =~~= spec_recv_broadcast_state(old(self)@, mac).members);
                    assert(self@ =~~= spec_recv_broadcast_state(old(self)@, mac));
                }
                Ok(BroadcastRecv::Lagged { missed })
            } else {
                let f = clone_frame(&self.history[member.cursor]);
                member.cursor = member.cursor + 1;
                self.members.insert(mac, member);
                proof {
                    assert(self@.members =~~= spec_recv_broadcast_state(old(self)@, mac).members);
                    assert(self@ =~~= spec_recv_broadcast_state(old(self)@, mac));
                }
                Ok(BroadcastRecv::Frame { frame: f })
            }
        } else {
            proof {
                assert(false);
            }
            Err(BridgeError::UnknownMember)
        }
    }

    /// Whether `mac` is currently registered.
    pub fn contains_member(&self, mac: u64) -> (r: bool)
        ensures
            r == self@.members.contains_key(mac),
    {
        self.members.contains_key(&mac)
    }

    /// How many frames were lost to full egress queues.
    pub fn egress_drop_count(&self) -> (r: u64)
        ensures
            r == self@.egress_drops,
    {
        self.egress_drops
    }
}

} // verus!

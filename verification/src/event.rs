//! Guest lifecycle events.
//!
//! The surrounding daemon polls the runtime for the current guest set
//! and diffs it against the previous snapshot: a guest present now but
//! not before has launched, one present before but not now was
//! destroyed, and one whose exit code appeared since the last snapshot
//! has exited. The polling and publishing live outside; the diff is
//! computed here.

use vstd::prelude::*;

verus! {

/// One guest in a snapshot: its identifier and, once it has exited, its
/// exit code.
#[derive(Clone, Copy, Debug, PartialEq, Eq)]
pub struct GuestInfo {
    /// Unique guest identifier, the 128 bits of its UUID.
    pub uuid: u128,
    /// The guest's exit code, once it has exited.
    pub exit_code: Option<i32>,
}

/// A lifecycle event published to watchers.
#[derive(Clone, Copy, Debug, PartialEq, Eq)]
pub enum DaemonEvent {
    /// The guest appeared since the previous snapshot.
    GuestLaunched { guest_id: u128 },
    /// The guest vanished since the previous snapshot.
    GuestDestroyed { guest_id: u128 },
    /// The guest's exit code appeared since the previous snapshot.
    GuestExited { guest_id: u128, code: i32 },
}

/// The first entry of `s` carrying `id`, if any.
pub open spec fn lookup(s: Seq<GuestInfo>, id: u128) -> Option<GuestInfo>
    decreases s.len(),
{
    if s.len() == 0 {
        None
    } else if s[0].uuid == id {
        Some(s[0])
    } else {
        lookup(s.drop_first(), id)
    }
}

/// Whether `s` holds an entry for `id`.
pub open spec fn has_guest(s: Seq<GuestInfo>, id: u128) -> bool {
    lookup(s, id) is Some
}

/// No two entries of `s` share an identifier.
pub open spec fn unique_uuids(s: Seq<GuestInfo>) -> bool {
    forall|i: int, j: int| 0 <= i < j < s.len() ==> s[i].uuid != s[j].uuid
}

/// One launch event, in order, for each guest of `cur` absent from `last`.
pub open spec fn launched_events(last: Seq<GuestInfo>, cur: Seq<GuestInfo>) -> Seq<DaemonEvent>
    decreases cur.len(),
{
    if cur.len() == 0 {
        Seq::empty()
    } else {
        launched_events(last, cur.drop_last()) + (if has_guest(last, cur.last().uuid) {
            Seq::<DaemonEvent>::empty()
        } else {
            seq![DaemonEvent::GuestLaunched { guest_id: cur.last().uuid }]
        })
    }
}

/// One destroy event, in order, for each guest of `last` absent from `cur`.
pub open spec fn destroyed_events(last: Seq<GuestInfo>, cur: Seq<GuestInfo>) -> Seq<DaemonEvent>
    decreases last.len(),
{
    if last.len() == 0 {
        Seq::empty()
    } else {
        destroyed_events(last.drop_last(), cur) + (if has_guest(cur, last.last().uuid) {
            Seq::<DaemonEvent>::empty()
        } else {
            seq![DaemonEvent::GuestDestroyed { guest_id: last.last().uuid }]
        })
    }
}

/// One exit event, in order, for each guest of `cur` that `last` already
/// held without an exit code and that now carries one.
pub open spec fn exited_events(last: Seq<GuestInfo>, cur: Seq<GuestInfo>) -> Seq<DaemonEvent>
    decreases cur.len(),
{
    if cur.len() == 0 {
        Seq::empty()
    } else {
        exited_events(last, cur.drop_last()) + ({
            let g = cur.last();
            match (lookup(last, g.uuid), g.exit_code) {
                (Some(prev), Some(code)) => if prev.exit_code is None {
                    seq![DaemonEvent::GuestExited { guest_id: g.uuid, code }]
                } else {
                    Seq::<DaemonEvent>::empty()
                },
                _ => Seq::<DaemonEvent>::empty(),
            }
        })
    }
}

/// Everything one snapshot difference publishes: launches, then
/// destroys, then exits.
pub open spec fn all_events(last: Seq<GuestInfo>, cur: Seq<GuestInfo>) -> Seq<DaemonEvent> {
    launched_events(last, cur) + destroyed_events(last, cur) + exited_events(last, cur)
}

/// Finds the entry of `s` carrying `id`.
pub fn find_guest(s: &Vec<GuestInfo>, id: u128) -> (r: Option<GuestInfo>)
    ensures
        r == lookup(s@, id),
{
    let mut i: usize = 0;
    proof {
        assert(s@.skip(0) =~= s@);
    }
    while i < s.len()
        invariant
            i <= s@.len(),
            lookup(s@, id) == lookup(s@.skip(i as int), id),
        decreases s@.len() - i,
    {
        if s[i].uuid == id {
            proof {
                assert(s@.skip(i as int)[0] == s@[i as int]);
            }
            return Some(s[i]);
        }
        proof {
            assert(s@.skip(i as int).drop_first() =~= s@.skip(i + 1));
        }
        i = i + 1;
    }
    proof {
        assert(s@.skip(s@.len() as int) =~= Seq::<GuestInfo>::empty());
    }
    None
}

/// Computes the events the step from snapshot `last` to snapshot `cur`
/// publishes.
pub fn diff_events(last: &Vec<GuestInfo>, cur: &Vec<GuestInfo>) -> (events: Vec<DaemonEvent>)
    ensures
        events@ == all_events(last@, cur@),
{
    let mut events: Vec<DaemonEvent> = Vec::new();
    let mut i: usize = 0;
    while i < cur.len()
        invariant
            i <= cur@.len(),
            events@ == launched_events(last@, cur@.take(i as int)),
        decreases cur@.len() - i,
    {
        let g = cur[i];
        if find_guest(last, g.uuid).is_none() {
            events.push(DaemonEvent::GuestLaunched { guest_id: g.uuid });
        }
        proof {
            let t = cur@.take(i + 1);
            assert(t.drop_last() =~= cur@.take(i as int));
            assert(t.last() == cur@[i as int]);
            assert(events@ =~= launched_events(last@, t));
        }
        i = i + 1;
    }
    proof {
        assert(cur@.take(cur@.len() as int) =~= cur@);
    }
    let mut j: usize = 0;
    while j < last.len()
        invariant
            j <= last@.len(),
            events@ == launched_events(last@, cur@) + destroyed_events(last@.take(j as int), cur@),
        decreases last@.len() - j,
    {
        let g = last[j];
        if find_guest(cur, g.uuid).is_none() {
            events.push(DaemonEvent::GuestDestroyed { guest_id: g.uuid });
        }
        proof {
            let t = last@.take(j + 1);
            assert(t.drop_last() =~= last@.take(j as int));
            assert(t.last() == last@[j as int]);
            assert(events@ =~= launched_events(last@, cur@) + destroyed_events(t, cur@));
        }
        j = j + 1;
    }
    proof {
        assert(last@.take(last@.len() as int) =~= last@);
    }
    let mut k: usize = 0;
    while k < cur.len()
        invariant
            k <= cur@.len(),
            events@ == launched_events(last@, cur@) + destroyed_events(last@, cur@)
                + exited_events(last@, cur@.take(k as int)),
        decreases cur@.len() - k,
    {
        let g = cur[k];
        if let Some(prev) = find_guest(last, g.uuid) {
            if prev.exit_code.is_none() {
                if let Some(code) = g.exit_code {
                    events.push(DaemonEvent::GuestExited { guest_id: g.uuid, code });
                }
            }
        }
        proof {
            let t = cur@.take(k + 1);
            assert(t.drop_last() =~= cur@.take(k as int));
            assert(t.last() == cur@[k as int]);
            assert(events@ =~= launched_events(last@, cur@) + destroyed_events(last@, cur@)
                + exited_events(last@, t));
        }
        k = k + 1;
    }
    proof {
        assert(cur@.take(cur@.len() as int) =~= cur@);
    }
    events
}

/// Holds the previous guest snapshot and turns each new snapshot into
/// the events it implies.
pub struct DaemonEventGenerator {
    last: Vec<GuestInfo>,
}

impl View for DaemonEventGenerator {
    type V = Seq<GuestInfo>;

    closed spec fn view(&self) -> Seq<GuestInfo> {
        self.last@
    }
}

impl DaemonEventGenerator {
    /// The previous snapshot holds no two entries of one guest.
    pub open spec fn wf(&self) -> bool {
        unique_uuids(self@)
    }

    /// Starts with an empty snapshot: every current guest will count as
    /// launched on the first evaluation.
    pub fn new() -> (r: DaemonEventGenerator)
        ensures
            r@ == Seq::<GuestInfo>::empty(),
            r.wf(),
    {
        DaemonEventGenerator { last: Vec::new() }
    }

    /// Takes the current snapshot, returns the events since the previous
    /// one, and keeps `guests` as the new snapshot.
    pub fn evaluate(&mut self, guests: Vec<GuestInfo>) -> (events: Vec<DaemonEvent>)
        requires
            old(self).wf(),
            unique_uuids(guests@),
        ensures
            final(self).wf(),
            final(self)@ == guests@,
            events@ == all_events(old(self)@, guests@),
    {
        let events = diff_events(&self.last, &guests);
        self.last = guests;
        events
    }
}

} // verus!

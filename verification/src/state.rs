//! The shared leaderboard state: the single source of truth for the
//! current ranked snapshot of every registered leaderboard. It is read
//! whole by newly connecting clients and replaced one snapshot at a
//! time by the aggregator, never partially. The multiple-reader /
//! single-writer locking that guards it in a running service wraps this
//! type from outside; every operation here is atomic with respect to
//! that discipline.

use vstd::prelude::*;

use crate::types::{
    clone_snapshot, snapshot_wf, view_entries, EntryV, LeaderboardElos, LeaderboardName,
};

verus! {

/// One registered leaderboard's current snapshot, keyed by its name.
pub struct NamedSnapshot {
    pub name: LeaderboardName,
    pub entries: LeaderboardElos,
}

/// The mathematical content of one named snapshot.
#[verifier::ext_equal]
pub ghost struct NamedSnapshotV {
    pub name: Seq<char>,
    pub entries: Seq<EntryV>,
}

impl View for NamedSnapshot {
    type V = NamedSnapshotV;

    open spec fn view(&self) -> NamedSnapshotV {
        NamedSnapshotV { name: self.name@, entries: view_entries(self.entries@) }
    }
}

impl Clone for NamedSnapshot {
    fn clone(&self) -> (r: Self)
        ensures
            r@ == self@,
    {
        NamedSnapshot { name: self.name.clone(), entries: clone_snapshot(&self.entries) }
    }
}

/// The mathematical content of a full state: one snapshot per
/// registered leaderboard.
pub open spec fn view_snaps(s: Seq<NamedSnapshot>) -> Seq<NamedSnapshotV> {
    Seq::new(s.len(), |i: int| s[i]@)
}

/// A full state is well formed when the registered names are unique and
/// every snapshot is well formed.
pub open spec fn snaps_wf(s: Seq<NamedSnapshotV>) -> bool {
    &&& forall|i: int, j: int|
        0 <= i < s.len() && 0 <= j < s.len() && i != j ==> s[i].name != s[j].name
    &&& forall|i: int| 0 <= i < s.len() ==> snapshot_wf((#[trigger] s[i]).entries)
}

/// The shared state: exactly one snapshot per registered leaderboard,
/// fixed at startup for the process lifetime. Only the aggregator
/// replaces snapshots; everyone else reads deep copies.
pub struct SharedLeaderboards {
    pub boards: Vec<NamedSnapshot>,
}

impl View for SharedLeaderboards {
    type V = Seq<NamedSnapshotV>;

    open spec fn view(&self) -> Seq<NamedSnapshotV> {
        view_snaps(self.boards@)
    }
}

impl SharedLeaderboards {
    /// Register the fixed set of leaderboards with their initial
    /// snapshots.
    pub fn new(boards: Vec<NamedSnapshot>) -> (r: Self)
        ensures
            r@ == view_snaps(boards@),
    {
        SharedLeaderboards { boards }
    }

    /// The atomic read: a deep, independent copy of the complete state,
    /// suitable for sending to a newly connecting client. The caller
    /// must still be subscribed to the change feed before the read lock
    /// it holds around this call is released.
    pub fn read_all(&self) -> (r: Vec<NamedSnapshot>)
        ensures
            view_snaps(r@) == self@,
    {
        let mut r: Vec<NamedSnapshot> = Vec::new();
        let mut i: usize = 0;
        while i < self.boards.len()
            invariant
                i <= self.boards@.len(),
                r@.len() == i,
                forall|k: int| 0 <= k < i ==> (#[trigger] r@[k])@ == self.boards@[k]@,
            decreases self.boards@.len() - i,
        {
            r.push(self.boards[i].clone());
            i = i + 1;
        }
        proof {
            assert(view_snaps(r@) =~= view_snaps(self.boards@));
        }
        r
    }

    /// The exclusive update: replace one leaderboard's snapshot. Only
    /// the aggregator calls this, under exclusive access.
    pub fn replace(&mut self, index: usize, snapshot: LeaderboardElos)
        requires
            index < old(self)@.len(),
        ensures
            final(self)@ == old(self)@.update(
                index as int,
                NamedSnapshotV {
                    name: old(self)@[index as int].name,
                    entries: view_entries(snapshot@),
                },
            ),
    {
        let board = &mut self.boards[index];
        board.entries = snapshot;
        proof {
            assert(final(self)@ =~~= old(self)@.update(
                index as int,
                NamedSnapshotV {
                    name: old(self)@[index as int].name,
                    entries: view_entries(final(self).boards@[index as int].entries@),
                },
            ));
        }
    }
}

} // verus!

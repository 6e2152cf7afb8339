//! The diff engine: compares two ordered snapshots of the same
//! leaderboard position by position and produces the sparse set of
//! positions whose occupant changed. Applying a change set to the old
//! snapshot reproduces the new one exactly.

use vstd::prelude::*;

use crate::types::{view_entries, EntryV, LeaderboardEloEntry, LeaderboardElos, LeaderboardName};

verus! {

/// One changed rank position and its new occupant.
pub struct PositionChange {
    pub position: usize,
    pub entry: LeaderboardEloEntry,
}

impl Clone for PositionChange {
    fn clone(&self) -> (r: Self)
        ensures
            r.position == self.position,
            r.entry@ == self.entry@,
    {
        PositionChange { position: self.position, entry: self.entry.clone() }
    }
}

/// The mathematical content of a change list: (position, new occupant)
/// pairs.
pub open spec fn view_changes(s: Seq<PositionChange>) -> Seq<(int, EntryV)> {
    Seq::new(s.len(), |i: int| (s[i].position as int, s[i].entry@))
}

/// Position `i` differs between the snapshots: it exists in `after`
/// and either did not exist in `before` (the leaderboard grew) or holds
/// a different (author, value) pair.
pub open spec fn position_changed(before: Seq<EntryV>, after: Seq<EntryV>, i: int) -> bool {
    0 <= i < after.len() && (i >= before.len() || before[i] != after[i])
}

/// The change set over the first `n` positions of `after`, in ascending
/// position order.
pub open spec fn diff_upto(before: Seq<EntryV>, after: Seq<EntryV>, n: int) -> Seq<(int, EntryV)>
    decreases n,
{
    if n <= 0 {
        Seq::empty()
    } else {
        let prev = diff_upto(before, after, n - 1);
        if position_changed(before, after, n - 1) {
            prev.push((n - 1, after[n - 1]))
        } else {
            prev
        }
    }
}

/// The full change set between two snapshots of one leaderboard:
/// exactly the positions of `after` whose occupant changed, each with
/// its new occupant, in ascending position order. Positions present in
/// `before` but absent in `after` are not represented: the format only
/// describes additions and replacements, never truncation.
pub open spec fn diff_spec(before: Seq<EntryV>, after: Seq<EntryV>) -> Seq<(int, EntryV)> {
    diff_upto(before, after, after.len() as int)
}

/// The result of applying a change list to a snapshot, change by change
/// in order: a change inside the snapshot replaces the occupant, one
/// just past the end appends, any other is ignored.
pub open spec fn apply_seq(before: Seq<EntryV>, changes: Seq<(int, EntryV)>) -> Seq<EntryV>
    decreases changes.len(),
{
    if changes.len() == 0 {
        before
    } else {
        let prev = apply_seq(before, changes.drop_last());
        let p = changes.last().0;
        let e = changes.last().1;
        if 0 <= p < prev.len() {
            prev.update(p, e)
        } else if p == prev.len() {
            prev.push(e)
        } else {
            prev
        }
    }
}

/// Every entry of a change set names a position that truly changed, with
/// the occupant `after` holds there; entries come in strictly ascending
/// position order. In particular the change set is minimal: no entry
/// exists for a position where `before` and `after` agree.
pub proof fn lemma_diff_sound(before: Seq<EntryV>, after: Seq<EntryV>, n: int)
    requires
        n <= after.len(),
    ensures
        forall|k: int|
            0 <= k < diff_upto(before, after, n).len() ==> position_changed(
                before,
                after,
                (#[trigger] diff_upto(before, after, n)[k]).0,
            ),
        forall|k: int|
            0 <= k < diff_upto(before, after, n).len() ==> (#[trigger] diff_upto(
                before,
                after,
                n,
            )[k]).1 == after[diff_upto(before, after, n)[k].0],
        forall|k: int|
            0 <= k < diff_upto(before, after, n).len() ==> (#[trigger] diff_upto(
                before,
                after,
                n,
            )[k]).0 < n,
        forall|k1: int, k2: int|
            0 <= k1 < k2 < diff_upto(before, after, n).len() ==> (#[trigger] diff_upto(
                before,
                after,
                n,
            )[k1]).0 < (#[trigger] diff_upto(before, after, n)[k2]).0,
    decreases n,
{
    if n > 0 {
        lemma_diff_sound(before, after, n - 1);
        let prev = diff_upto(before, after, n - 1);
        let d = diff_upto(before, after, n);
        if position_changed(before, after, n - 1) {
            assert(d == prev.push((n - 1, after[n - 1])));
            assert forall|k: int|
                0 <= k < d.len() implies {
                &&& position_changed(before, after, (#[trigger] d[k]).0)
                &&& d[k].1 == after[d[k].0]
                &&& d[k].0 < n
            } by {
                if k < d.len() - 1 {
                    assert(d[k] == prev[k]);
                } else {
                    assert(d[k] == (n - 1, after[n - 1]));
                }
            }
            assert forall|k1: int, k2: int|
                0 <= k1 < k2 < d.len() implies (#[trigger] d[k1]).0 < (#[trigger] d[k2]).0 by {
                if k2 < d.len() - 1 {
                    assert(d[k1] == prev[k1]);
                    assert(d[k2] == prev[k2]);
                } else if k1 < d.len() - 1 {
                    assert(d[k1] == prev[k1]);
                    assert(prev[k1].0 < n - 1);
                }
            }
        } else {
            assert(d == prev);
        }
    }
}

/// Every position that changed appears in the change set.
pub proof fn lemma_diff_complete(before: Seq<EntryV>, after: Seq<EntryV>, n: int, i: int)
    requires
        0 <= i < n <= after.len(),
        position_changed(before, after, i),
    ensures
        exists|k: int|
            0 <= k < diff_upto(before, after, n).len() && (#[trigger] diff_upto(
                before,
                after,
                n,
            )[k]).0 == i,
    decreases n,
{
    if i == n - 1 {
        let d = diff_upto(before, after, n);
        assert(d[d.len() - 1].0 == i);
    } else {
        lemma_diff_complete(before, after, n - 1, i);
        let k = choose|k: int|
            0 <= k < diff_upto(before, after, n - 1).len() && (#[trigger] diff_upto(
                before,
                after,
                n - 1,
            )[k]).0 == i;
        assert(diff_upto(before, after, n)[k].0 == i);
    }
}

/// What a prefix of the diff reconstructs: every position below `n`
/// already shows `after`'s occupant (changed ones were applied, the
/// rest already agreed), every position at or above `n` still shows
/// `before`'s.
proof fn lemma_apply_diff_upto(before: Seq<EntryV>, after: Seq<EntryV>, n: int)
    requires
        before.len() <= after.len(),
        0 <= n <= after.len(),
    ensures
        apply_seq(before, diff_upto(before, after, n)) =~= Seq::new(
            vstd::math::max(before.len() as int, n) as nat,
            |i: int|
                if i < n {
                    after[i]
                } else {
                    before[i]
                },
        ),
    decreases n,
{
    let target = Seq::new(
        vstd::math::max(before.len() as int, n) as nat,
        |i: int|
            if i < n {
                after[i]
            } else {
                before[i]
            },
    );
    if n == 0 {
        assert(apply_seq(before, diff_upto(before, after, 0)) =~= before);
    } else {
        lemma_apply_diff_upto(before, after, n - 1);
        let prev = apply_seq(before, diff_upto(before, after, n - 1));
        if position_changed(before, after, n - 1) {
            let d = diff_upto(before, after, n);
            assert(d == diff_upto(before, after, n - 1).push((n - 1, after[n - 1])));
            assert(d.drop_last() =~= diff_upto(before, after, n - 1));
            if n - 1 < prev.len() {
                assert(apply_seq(before, d) =~= prev.update(n - 1, after[n - 1]));
            } else {
                assert(n - 1 == prev.len());
                assert(apply_seq(before, d) =~= prev.push(after[n - 1]));
            }
            assert(apply_seq(before, d) =~= target);
        } else {
            assert(n - 1 < before.len() && before[n - 1] == after[n - 1]);
            assert(apply_seq(before, diff_upto(before, after, n)) =~= target);
        }
    }
}

/// Diff soundness: applying the change set produced for
/// (`before`, `after`) to `before` reconstructs `after` exactly,
/// whenever the leaderboard did not shrink.
pub proof fn lemma_diff_roundtrip(before: Seq<EntryV>, after: Seq<EntryV>)
    requires
        before.len() <= after.len(),
    ensures
        apply_seq(before, diff_spec(before, after)) == after,
{
    lemma_apply_diff_upto(before, after, after.len() as int);
    assert(apply_seq(before, diff_spec(before, after)) =~= after);
}

/// Diff minimality: the change set carries no entry for a position
/// where `before` and `after` hold the same occupant.
pub proof fn lemma_diff_minimal(before: Seq<EntryV>, after: Seq<EntryV>)
    ensures
        forall|k: int|
            0 <= k < diff_spec(before, after).len() ==> !(0 <= (#[trigger] diff_spec(
                before,
                after,
            )[k]).0 < before.len() && before[diff_spec(before, after)[k].0] == after[diff_spec(
                before,
                after,
            )[k].0]),
{
    lemma_diff_sound(before, after, after.len() as int);
}

/// Compare two snapshots of one leaderboard position by position and
/// return the changed positions with their new occupants, in ascending
/// position order. The same pair of snapshots always yields the same
/// change set.
pub fn diff_board(before: &LeaderboardElos, after: &LeaderboardElos) -> (r: Vec<PositionChange>)
    ensures
        view_changes(r@) == diff_spec(view_entries(before@), view_entries(after@)),
{
    let ghost b = view_entries(before@);
    let ghost a = view_entries(after@);
    let mut r: Vec<PositionChange> = Vec::new();
    let mut i: usize = 0;
    proof {
        assert(view_changes(r@) =~= diff_upto(b, a, 0));
    }
    while i < after.len()
        invariant
            i <= after@.len(),
            b == view_entries(before@),
            a == view_entries(after@),
            view_changes(r@) == diff_upto(b, a, i as int),
        decreases after@.len() - i,
    {
        let changed = if i >= before.len() {
            true
        } else {
            !(before[i] == after[i])
        };
        if changed {
            r.push(PositionChange { position: i, entry: after[i].clone() });
            proof {
                assert(view_changes(r@) =~= diff_upto(b, a, i as int).push((i as int, a[i as int])));
            }
        }
        i = i + 1;
    }
    r
}

/// Apply a change set to a snapshot, change by change in order: the
/// client-side reconstruction of the server's new snapshot.
pub fn apply_changes(snapshot: &LeaderboardElos, changes: &Vec<PositionChange>) -> (r:
    LeaderboardElos)
    ensures
        view_entries(r@) == apply_seq(view_entries(snapshot@), view_changes(changes@)),
{
    let ghost b = view_entries(snapshot@);
    let ghost cv = view_changes(changes@);
    let mut r = crate::types::clone_snapshot(snapshot);
    let mut k: usize = 0;
    proof {
        assert(cv.take(0) =~= Seq::<(int, EntryV)>::empty());
        assert(apply_seq(b, cv.take(0)) == b);
    }
    while k < changes.len()
        invariant
            k <= changes@.len(),
            b == view_entries(snapshot@),
            cv == view_changes(changes@),
            view_entries(r@) == apply_seq(b, cv.take(k as int)),
        decreases changes@.len() - k,
    {
        let c = &changes[k];
        proof {
            assert(cv.take(k as int + 1) =~= cv.take(k as int).push(cv[k as int]));
            assert(cv.take(k as int + 1).drop_last() =~= cv.take(k as int));
        }
        let ghost prev = view_entries(r@);
        if c.position < r.len() {
            let slot = &mut r[c.position];
            *slot = c.entry.clone();
            proof {
                assert(view_entries(r@) =~= prev.update(c.position as int, c.entry@));
            }
        } else if c.position == r.len() {
            r.push(c.entry.clone());
            proof {
                assert(view_entries(r@) =~= prev.push(c.entry@));
            }
        }
        proof {
            assert(view_entries(r@) == apply_seq(b, cv.take(k as int + 1)));
        }
        k = k + 1;
    }
    proof {
        assert(cv.take(changes@.len() as int) =~= cv);
    }
    r
}

/// The changed positions of one leaderboard, keyed by its name.
pub struct BoardChanges {
    pub name: LeaderboardName,
    pub changes: Vec<PositionChange>,
}

/// The mathematical content of one leaderboard's change set.
#[verifier::ext_equal]
pub ghost struct BoardChangesV {
    pub name: Seq<char>,
    pub changes: Seq<(int, EntryV)>,
}

impl View for BoardChanges {
    type V = BoardChangesV;

    open spec fn view(&self) -> BoardChangesV {
        BoardChangesV { name: self.name@, changes: view_changes(self.changes@) }
    }
}

impl Clone for BoardChanges {
    fn clone(&self) -> (r: Self)
        ensures
            r@ == self@,
    {
        let name = self.name.clone();
        let mut changes: Vec<PositionChange> = Vec::new();
        let mut i: usize = 0;
        while i < self.changes.len()
            invariant
                i <= self.changes@.len(),
                changes@.len() == i,
                forall|k: int|
                    0 <= k < i ==> (#[trigger] changes@[k]).position == self.changes@[k].position
                        && changes@[k].entry@ == self.changes@[k].entry@,
            decreases self.changes@.len() - i,
        {
            changes.push(self.changes[i].clone());
            i = i + 1;
        }
        let r = BoardChanges { name, changes };
        proof {
            assert(view_changes(r.changes@) =~= view_changes(self.changes@));
        }
        r
    }
}

/// The change set of one batch application: for every leaderboard the
/// batch touched, the changed positions of its snapshot. Leaderboards
/// the batch left untouched are excluded; a touched leaderboard whose
/// positions all kept their occupants contributes an empty change list.
pub struct LeaderboardsChanges {
    pub boards: Vec<BoardChanges>,
}

impl View for LeaderboardsChanges {
    type V = Seq<BoardChangesV>;

    open spec fn view(&self) -> Seq<BoardChangesV> {
        Seq::new(self.boards@.len(), |i: int| self.boards@[i]@)
    }
}

impl LeaderboardsChanges {
    pub fn new() -> (r: Self)
        ensures
            r@ == Seq::<BoardChangesV>::empty(),
    {
        let r = LeaderboardsChanges { boards: Vec::new() };
        proof {
            assert(r@ =~= Seq::<BoardChangesV>::empty());
        }
        r
    }

    pub fn get(&self) -> (r: &Vec<BoardChanges>)
        ensures
            r@.len() == self@.len(),
            forall|i: int| 0 <= i < self@.len() ==> (#[trigger] r@[i]@) == self@[i],
    {
        &self.boards
    }

    pub fn get_mut(&mut self) -> (r: &mut Vec<BoardChanges>)
        ensures
            *r == old(self).boards,
            final(self).boards == *final(r),
    {
        &mut self.boards
    }

    /// Append one leaderboard's change set.
    pub fn push_board(&mut self, board: BoardChanges)
        ensures
            final(self)@ == old(self)@.push(board@),
    {
        self.boards.push(board);
        proof {
            assert(final(self)@ =~= old(self)@.push(board@));
        }
    }
}

} // verus!

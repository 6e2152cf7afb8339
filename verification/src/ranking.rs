//! The pluggable ranking hook: a ranking function turns one
//! leaderboard's per-author running totals into a new ordered snapshot.
//! It must be a pure function of the totals alone, so snapshot
//! replacement stays atomic and deterministic.

use vstd::prelude::*;

use crate::types::{
    score_in_range, snapshot_wf, view_entries, AuthorId, AuthorKey, Elo, EntryV,
    LeaderboardEloEntry, LeaderboardElos, PerformancePoints,
};

verus! {

/// One author's running total on one leaderboard.
pub struct TotalEntry {
    pub author_id: AuthorId,
    pub points: PerformancePoints,
}

/// The mathematical content of one running total.
pub ghost struct TotalEntryV {
    pub author: AuthorKey,
    pub points: int,
}

impl View for TotalEntry {
    type V = TotalEntryV;

    open spec fn view(&self) -> TotalEntryV {
        TotalEntryV { author: self.author_id@, points: self.points@ }
    }
}

impl Clone for TotalEntry {
    fn clone(&self) -> (r: Self)
        ensures
            r@ == self@,
    {
        TotalEntry { author_id: self.author_id.clone(), points: self.points.clone() }
    }
}

/// The mathematical content of a totals list.
pub open spec fn view_totals(s: Seq<TotalEntry>) -> Seq<TotalEntryV> {
    Seq::new(s.len(), |i: int| s[i]@)
}

/// Authors of a totals list are unique: an author's entry is created
/// lazily on the first delta and is updated in place afterwards.
pub open spec fn totals_wf(s: Seq<TotalEntryV>) -> bool {
    forall|i: int, j: int|
        0 <= i < s.len() && 0 <= j < s.len() && i != j ==> s[i].author != s[j].author
}

/// The ranked position an author's total turns into before ordering.
pub open spec fn entry_of_total(t: TotalEntryV) -> EntryV {
    EntryV { author: t.author, elo: t.points }
}

/// `s` is ordered highest ranking value first.
pub open spec fn sorted_desc(s: Seq<EntryV>) -> bool {
    forall|i: int, j: int| 0 <= i < j < s.len() ==> s[i].elo >= s[j].elo
}

/// Insert one ranked position into a descending snapshot, after every
/// position that ranks at least as high: ties keep the earlier totals
/// order, so the ranking is stable and deterministic.
pub open spec fn insert_desc(s: Seq<EntryV>, e: EntryV) -> Seq<EntryV>
    decreases s.len(),
{
    if s.len() == 0 {
        seq![e]
    } else if s.last().elo >= e.elo {
        s.push(e)
    } else {
        insert_desc(s.drop_last(), e).push(s.last())
    }
}

/// Rank totals by descending value: a stable insertion sort of the
/// totals in their stored order.
pub open spec fn rank_desc(totals: Seq<TotalEntryV>) -> Seq<EntryV>
    decreases totals.len(),
{
    if totals.len() == 0 {
        Seq::empty()
    } else {
        insert_desc(rank_desc(totals.drop_last()), entry_of_total(totals.last()))
    }
}

/// A ranking function: given the full current totals for one
/// leaderboard it returns the new ordered snapshot, highest rank first.
pub trait RankingFunction: Sized {
    /// The snapshot this ranking produces, as a pure function of the
    /// totals alone.
    spec fn spec_rank(&self, totals: Seq<TotalEntryV>) -> Seq<EntryV>;

    /// Every ranking keeps one position per tracked author.
    proof fn rank_len(&self, totals: Seq<TotalEntryV>)
        ensures
            self.spec_rank(totals).len() == totals.len(),
    ;

    /// Compute the snapshot. The result is exactly `spec_rank` of the
    /// totals, and a well-formed snapshot.
    fn rank(&self, totals: &Vec<TotalEntry>) -> (out: LeaderboardElos)
        requires
            totals_wf(view_totals(totals@)),
        ensures
            view_entries(out@) == self.spec_rank(view_totals(totals@)),
            snapshot_wf(view_entries(out@)),
    ;
}

/// Inserting keeps exactly the previous positions plus the new one.
proof fn lemma_insert_desc_multiset(s: Seq<EntryV>, e: EntryV)
    ensures
        insert_desc(s, e).to_multiset() == s.to_multiset().insert(e),
        insert_desc(s, e).len() == s.len() + 1,
    decreases s.len(),
{
    broadcast use vstd::seq_lib::group_to_multiset_ensures;
    broadcast use vstd::multiset::group_multiset_axioms;

    if s.len() == 0 {
        assert(seq![e] =~= s.push(e));
        assert(insert_desc(s, e).to_multiset() =~= s.to_multiset().insert(e));
    } else if s.last().elo >= e.elo {
        assert(insert_desc(s, e).to_multiset() =~= s.to_multiset().insert(e));
    } else {
        lemma_insert_desc_multiset(s.drop_last(), e);
        assert(s.drop_last().push(s.last()) =~= s);
        assert(insert_desc(s, e).to_multiset() =~= insert_desc(
            s.drop_last(),
            e,
        ).to_multiset().insert(s.last()));
        assert(s.to_multiset() =~= s.drop_last().to_multiset().insert(s.last()));
        assert(insert_desc(s, e).to_multiset() =~= s.to_multiset().insert(e));
    }
}

/// Inserting into a descending snapshot keeps it descending.
proof fn lemma_insert_desc_sorted(s: Seq<EntryV>, e: EntryV)
    requires
        sorted_desc(s),
    ensures
        sorted_desc(insert_desc(s, e)),
    decreases s.len(),
{
    broadcast use vstd::seq_lib::group_to_multiset_ensures;

    if s.len() == 0 {
    } else if s.last().elo >= e.elo {
    } else {
        assert(sorted_desc(s.drop_last()));
        lemma_insert_desc_sorted(s.drop_last(), e);
        lemma_insert_desc_multiset(s.drop_last(), e);
        let r = insert_desc(s.drop_last(), e).push(s.last());
        assert forall|i: int, j: int| 0 <= i < j < r.len() implies r[i].elo >= r[j].elo by {
            if j < r.len() - 1 {
                assert(insert_desc(s.drop_last(), e)[i].elo >= insert_desc(
                    s.drop_last(),
                    e,
                )[j].elo);
            } else {
                if i < r.len() - 1 {
                    let ri = r[i];
                    assert(insert_desc(s.drop_last(), e).to_multiset().contains(ri));
                    assert(s.drop_last().to_multiset().insert(e).contains(ri));
                    if ri == e {
                        assert(r[i].elo >= r[j].elo);
                    } else {
                        assert(s.drop_last().to_multiset().contains(ri));
                        assert(s.drop_last().contains(ri));
                        let k = choose|k: int|
                            0 <= k < s.drop_last().len() && s.drop_last()[k] == ri;
                        assert(s[k] == ri);
                        assert(s[k].elo >= s.last().elo);
                    }
                }
            }
        }
    }
}

/// The ranked snapshot holds exactly the totals' positions, reordered.
pub proof fn lemma_rank_desc_multiset(totals: Seq<TotalEntryV>)
    ensures
        rank_desc(totals).to_multiset() == totals.map(
            |i: int, t: TotalEntryV| entry_of_total(t),
        ).to_multiset(),
        rank_desc(totals).len() == totals.len(),
    decreases totals.len(),
{
    broadcast use vstd::seq_lib::group_to_multiset_ensures;

    let mapped = totals.map(|i: int, t: TotalEntryV| entry_of_total(t));
    if totals.len() == 0 {
        assert(mapped =~= Seq::<EntryV>::empty());
    } else {
        lemma_rank_desc_multiset(totals.drop_last());
        lemma_insert_desc_multiset(
            rank_desc(totals.drop_last()),
            entry_of_total(totals.last()),
        );
        let prev_mapped = totals.drop_last().map(|i: int, t: TotalEntryV| entry_of_total(t));
        assert(mapped =~= prev_mapped.push(entry_of_total(totals.last())));
        assert(mapped.to_multiset() =~= prev_mapped.to_multiset().insert(
            entry_of_total(totals.last()),
        ));
    }
}

/// The ranked snapshot is ordered by descending value.
pub proof fn lemma_rank_desc_sorted(totals: Seq<TotalEntryV>)
    ensures
        sorted_desc(rank_desc(totals)),
    decreases totals.len(),
{
    if totals.len() > 0 {
        lemma_rank_desc_sorted(totals.drop_last());
        lemma_insert_desc_sorted(rank_desc(totals.drop_last()), entry_of_total(totals.last()));
    }
}

/// Ranking well-formed totals gives a well-formed snapshot: one
/// position per author, every shown value a stored total.
pub proof fn lemma_rank_desc_wf(totals: Seq<TotalEntryV>)
    requires
        totals_wf(totals),
        forall|i: int| 0 <= i < totals.len() ==> score_in_range((#[trigger] totals[i]).points),
    ensures
        snapshot_wf(rank_desc(totals)),
    decreases totals.len(),
{
    broadcast use vstd::seq_lib::group_to_multiset_ensures;

    let mapped = totals.map(|i: int, t: TotalEntryV| entry_of_total(t));
    lemma_rank_desc_multiset(totals);
    let r = rank_desc(totals);
    assert(mapped.no_duplicates()) by {
        assert forall|i: int, j: int|
            0 <= i < mapped.len() && 0 <= j < mapped.len() && i != j implies mapped[i]
            != mapped[j] by {
            assert(totals[i].author != totals[j].author);
        }
    }
    mapped.lemma_multiset_has_no_duplicates();
    assert(forall|x: EntryV| r.to_multiset().contains(x) ==> r.to_multiset().count(x) == 1);
    r.lemma_multiset_has_no_duplicates_conv();
    assert forall|i: int, j: int|
        0 <= i < r.len() && 0 <= j < r.len() && i != j implies r[i].author != r[j].author by {
        if r[i].author == r[j].author {
            assert(r.to_multiset().contains(r[i]));
            assert(mapped.to_multiset().contains(r[i]));
            assert(mapped.contains(r[i]));
            assert(r.to_multiset().contains(r[j]));
            assert(mapped.to_multiset().contains(r[j]));
            assert(mapped.contains(r[j]));
            let ki = choose|k: int| 0 <= k < mapped.len() && mapped[k] == r[i];
            let kj = choose|k: int| 0 <= k < mapped.len() && mapped[k] == r[j];
            assert(totals[ki].author == totals[kj].author);
            assert(r[i] != r[j]);
            assert(ki != kj);
        }
    }
    assert forall|i: int| 0 <= i < r.len() implies score_in_range(#[trigger] r[i].elo) by {
        assert(r.to_multiset().contains(r[i]));
        assert(mapped.to_multiset().contains(r[i]));
        assert(mapped.contains(r[i]));
        let k = choose|k: int| 0 <= k < mapped.len() && mapped[k] == r[i];
        assert(score_in_range(totals[k].points));
    }
}

/// The ranking used at startup composition time: order authors by
/// descending running total, the shown value being the total itself.
/// Ties keep their totals order, so the order is deterministic.
pub struct DescendingByTotal;

impl DescendingByTotal {
    pub fn new() -> (r: Self) {
        DescendingByTotal
    }
}

impl RankingFunction for DescendingByTotal {
    open spec fn spec_rank(&self, totals: Seq<TotalEntryV>) -> Seq<EntryV> {
        rank_desc(totals)
    }

    proof fn rank_len(&self, totals: Seq<TotalEntryV>) {
        lemma_rank_desc_multiset(totals);
    }

    fn rank(&self, totals: &Vec<TotalEntry>) -> (out: LeaderboardElos) {
        let ghost tv = view_totals(totals@);
        let mut out: LeaderboardElos = Vec::new();
        let mut i: usize = 0;
        proof {
            assert(tv.take(0) =~= Seq::<TotalEntryV>::empty());
            assert(view_entries(out@) =~= Seq::<EntryV>::empty());
        }
        while i < totals.len()
            invariant
                i <= totals@.len(),
                tv == view_totals(totals@),
                view_entries(out@) == rank_desc(tv.take(i as int)),
                out@.len() == i,
                forall|k: int| 0 <= k < i ==> score_in_range((#[trigger] tv[k]).points),
            decreases totals@.len() - i,
        {
            let t = &totals[i];
            let elo = Elo::new(t.points.get());
            let entry = LeaderboardEloEntry::new(t.author_id.clone(), elo);
            let ghost before = view_entries(out@);
            let elo_val = elo.get();
            let mut p: usize = out.len();
            while p > 0
                invariant
                    p <= out@.len(),
                    view_entries(out@) == before,
                    out@.len() == before.len(),
                    entry@.elo == elo_val as int,
                    forall|q: int|
                        p <= q < before.len() ==> (#[trigger] before[q]).elo < elo_val as int,
                ensures
                    p <= out@.len(),
                    view_entries(out@) == before,
                    out@.len() == before.len(),
                    entry@.elo == elo_val as int,
                    forall|q: int|
                        p <= q < before.len() ==> (#[trigger] before[q]).elo < elo_val as int,
                    p > 0 ==> before[p - 1].elo >= elo_val as int,
                decreases p,
            {
                if out[p - 1].elo.get() >= elo_val {
                    break;
                }
                p = p - 1;
            }
            out.insert(p, entry);
            proof {
                lemma_insert_desc_at(before, entry@, p as int);
                assert(view_entries(out@) =~= before.insert(p as int, entry@));
                assert(tv.take(i as int + 1) =~= tv.take(i as int).push(tv[i as int]));
                assert(tv.take(i as int + 1).drop_last() =~= tv.take(i as int));
                assert(entry@ == entry_of_total(tv[i as int]));
                assert(view_entries(out@) == rank_desc(tv.take(i as int + 1)));
            }
            i = i + 1;
        }
        proof {
            assert(tv.take(tv.len() as int) =~= tv);
            lemma_rank_desc_wf(tv);
        }
        out
    }
}

/// Where the new position lands: after every position ranking at least
/// as high, before every strictly lower one.
proof fn lemma_insert_desc_at(s: Seq<EntryV>, e: EntryV, p: int)
    requires
        0 <= p <= s.len(),
        forall|q: int| p <= q < s.len() ==> (#[trigger] s[q]).elo < e.elo,
        p > 0 ==> s[p - 1].elo >= e.elo,
    ensures
        insert_desc(s, e) == s.insert(p, e),
    decreases s.len(),
{
    if s.len() == 0 {
        assert(seq![e] =~= s.insert(0, e));
    } else if p == s.len() {
        assert(s.last().elo >= e.elo);
        assert(s.push(e) =~= s.insert(p, e));
    } else {
        assert(s[s.len() - 1].elo < e.elo);
        lemma_insert_desc_at(s.drop_last(), e, p);
        assert(insert_desc(s, e) == insert_desc(s.drop_last(), e).push(s.last()));
        assert(s.drop_last().insert(p, e).push(s.last()) =~= s.insert(p, e));
    }
}

} // verus!

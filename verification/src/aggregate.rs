//! The aggregator: applies each squashed batch to the per-leaderboard
//! running totals, re-ranks every touched leaderboard, replaces its
//! snapshot in the shared state, and emits the change set for the whole
//! batch. Batches are applied strictly in emission order by a single
//! aggregator; nothing else ever writes the shared state.

use vstd::prelude::*;

use crate::batcher::{
    view_batch_entries, BatchBoardV, BatchEntry, BatchEntryV, ScoreOverflow, SquashedBatch,
};
use crate::diff::{diff_board, diff_spec, BoardChanges, BoardChangesV, LeaderboardsChanges};
use crate::ranking::{totals_wf, view_totals, RankingFunction, TotalEntry, TotalEntryV};
use crate::state::{view_snaps, NamedSnapshotV, SharedLeaderboards};
use crate::types::{
    score_in_range, AuthorId, AuthorKey, LeaderboardName, PerformancePoints, SCORE_LIMIT,
};

verus! {

/// The position of `author` in a totals list: the first index holding
/// it, or -1 when the author has no entry yet.
pub open spec fn index_of_author(totals: Seq<TotalEntryV>, author: AuthorKey) -> int
    decreases totals.len(),
{
    if totals.len() == 0 {
        -1
    } else if totals[0].author == author {
        0
    } else {
        let r = index_of_author(totals.drop_first(), author);
        if r < 0 {
            -1
        } else {
            r + 1
        }
    }
}

/// What `index_of_author` finds: a well-placed first occurrence, or
/// nothing anywhere.
pub proof fn lemma_index_of_author(totals: Seq<TotalEntryV>, author: AuthorKey)
    ensures
        index_of_author(totals, author) >= 0 ==> {
            &&& index_of_author(totals, author) < totals.len()
            &&& totals[index_of_author(totals, author)].author == author
            &&& forall|j: int|
                0 <= j < index_of_author(totals, author) ==> (#[trigger] totals[j]).author
                    != author
        },
        index_of_author(totals, author) < 0 ==> forall|j: int|
            0 <= j < totals.len() ==> (#[trigger] totals[j]).author != author,
    decreases totals.len(),
{
    if totals.len() > 0 && totals[0].author != author {
        lemma_index_of_author(totals.drop_first(), author);
        let idx = index_of_author(totals, author);
        if idx >= 0 {
            assert(totals.drop_first()[idx - 1] == totals[idx]);
            assert forall|j: int| 0 <= j < idx implies (#[trigger] totals[j]).author != author by {
                if j > 0 {
                    assert(totals.drop_first()[j - 1] == totals[j]);
                }
            }
        } else {
            assert forall|j: int|
                0 <= j < totals.len() implies (#[trigger] totals[j]).author != author by {
                if j > 0 {
                    assert(totals.drop_first()[j - 1] == totals[j]);
                }
            }
        }
    }
}

/// Two totals lists with the same authors in the same places give every
/// author the same position.
proof fn lemma_index_same_authors(s1: Seq<TotalEntryV>, s2: Seq<TotalEntryV>, author: AuthorKey)
    requires
        s1.len() == s2.len(),
        forall|i: int| 0 <= i < s1.len() ==> (#[trigger] s1[i]).author == s2[i].author,
    ensures
        index_of_author(s1, author) == index_of_author(s2, author),
    decreases s1.len(),
{
    if s1.len() > 0 {
        assert(forall|i: int|
            0 <= i < s1.drop_first().len() ==> #[trigger] s1.drop_first()[i] == s1[i + 1]);
        assert(forall|i: int|
            0 <= i < s2.drop_first().len() ==> #[trigger] s2.drop_first()[i] == s2[i + 1]);
        lemma_index_same_authors(s1.drop_first(), s2.drop_first(), author);
    }
}

/// Appending an entry leaves every already-placed author in place; a
/// new author lands at the end.
proof fn lemma_index_push(s: Seq<TotalEntryV>, x: TotalEntryV, author: AuthorKey)
    ensures
        index_of_author(s.push(x), author) == {
            if index_of_author(s, author) >= 0 {
                index_of_author(s, author)
            } else if x.author == author {
                s.len() as int
            } else {
                -1
            }
        },
    decreases s.len(),
{
    if s.len() == 0 {
        let p = s.push(x);
        assert(p[0] == x);
        if x.author != author {
            assert(p.drop_first() =~= Seq::<TotalEntryV>::empty());
            assert(index_of_author(p.drop_first(), author) == -1);
            assert(index_of_author(p, author) == -1);
        }
    } else {
        assert(s.push(x).drop_first() =~= s.drop_first().push(x));
        lemma_index_push(s.drop_first(), x, author);
    }
}

/// An author's running total: the points at its entry, or zero before
/// its first delta.
pub open spec fn total_of(totals: Seq<TotalEntryV>, author: AuthorKey) -> int {
    if index_of_author(totals, author) >= 0 {
        totals[index_of_author(totals, author)].points
    } else {
        0
    }
}

/// One summed delta applied to a totals list: added to the author's
/// entry, or creating that entry if this is the author's first delta.
pub open spec fn apply_one_delta(totals: Seq<TotalEntryV>, d: BatchEntryV) -> Seq<TotalEntryV> {
    let idx = index_of_author(totals, d.author);
    if idx >= 0 {
        totals.update(idx, TotalEntryV { author: d.author, points: totals[idx].points + d.points })
    } else {
        totals.push(TotalEntryV { author: d.author, points: d.points })
    }
}

/// The author's new total stays a representable score.
pub open spec fn delta_ok(totals: Seq<TotalEntryV>, d: BatchEntryV) -> bool {
    score_in_range(total_of(totals, d.author) + d.points)
}

/// A whole batch board applied to a totals list, delta by delta.
pub open spec fn apply_deltas(totals: Seq<TotalEntryV>, deltas: Seq<BatchEntryV>) -> Seq<
    TotalEntryV,
>
    decreases deltas.len(),
{
    if deltas.len() == 0 {
        totals
    } else {
        apply_one_delta(apply_deltas(totals, deltas.drop_last()), deltas.last())
    }
}

/// Every delta of the board leaves its author's total representable.
pub open spec fn deltas_ok(totals: Seq<TotalEntryV>, deltas: Seq<BatchEntryV>) -> bool
    decreases deltas.len(),
{
    if deltas.len() == 0 {
        true
    } else {
        deltas_ok(totals, deltas.drop_last()) && delta_ok(
            apply_deltas(totals, deltas.drop_last()),
            deltas.last(),
        )
    }
}

/// Applying a delta never unseats other authors and never forgets one.
proof fn lemma_apply_one_frame(totals: Seq<TotalEntryV>, d: BatchEntryV, author: AuthorKey)
    ensures
        author != d.author ==> total_of(apply_one_delta(totals, d), author) == total_of(
            totals,
            author,
        ),
        author == d.author ==> total_of(apply_one_delta(totals, d), author) == total_of(
            totals,
            author,
        ) + d.points,
{
    let idx = index_of_author(totals, d.author);
    lemma_index_of_author(totals, d.author);
    lemma_index_of_author(totals, author);
    let r = apply_one_delta(totals, d);
    if idx >= 0 {
        lemma_index_same_authors(totals, r, author);
        lemma_index_of_author(r, author);
    } else {
        lemma_index_push(totals, TotalEntryV { author: d.author, points: d.points }, author);
        lemma_index_of_author(r, author);
    }
}

/// Applying a delta keeps authors unique.
proof fn lemma_apply_one_wf(totals: Seq<TotalEntryV>, d: BatchEntryV)
    requires
        totals_wf(totals),
    ensures
        totals_wf(apply_one_delta(totals, d)),
        apply_one_delta(totals, d).len() >= totals.len(),
{
    let idx = index_of_author(totals, d.author);
    lemma_index_of_author(totals, d.author);
    if idx < 0 {
        let r = totals.push(TotalEntryV { author: d.author, points: d.points });
        assert forall|i: int, j: int|
            0 <= i < r.len() && 0 <= j < r.len() && i != j implies r[i].author != r[j].author by {
            if i < totals.len() && j < totals.len() {
                assert(totals[i].author != totals[j].author);
            }
        }
    }
}

/// Applying a whole board keeps authors unique and never shrinks the
/// totals list.
pub proof fn lemma_apply_deltas_wf(totals: Seq<TotalEntryV>, deltas: Seq<BatchEntryV>)
    requires
        totals_wf(totals),
    ensures
        totals_wf(apply_deltas(totals, deltas)),
        apply_deltas(totals, deltas).len() >= totals.len(),
    decreases deltas.len(),
{
    if deltas.len() > 0 {
        lemma_apply_deltas_wf(totals, deltas.drop_last());
        lemma_apply_one_wf(apply_deltas(totals, deltas.drop_last()), deltas.last());
    }
}

/// A violated prefix can never be mended by later deltas.
proof fn lemma_deltas_ok_prefix(totals: Seq<TotalEntryV>, deltas: Seq<BatchEntryV>, m: int)
    requires
        deltas_ok(totals, deltas),
        0 <= m <= deltas.len(),
    ensures
        deltas_ok(totals, deltas.take(m)),
    decreases deltas.len() - m,
{
    if m < deltas.len() {
        lemma_deltas_ok_prefix(totals, deltas, m + 1);
        assert(deltas.take(m + 1).drop_last() =~= deltas.take(m));
    } else {
        assert(deltas.take(m) =~= deltas);
    }
}

/// Find an author's entry in a totals list, if one exists yet.
fn find_author(totals: &Vec<TotalEntry>, author: &AuthorId) -> (r: Option<usize>)
    ensures
        match r {
            Some(i) => i as int == index_of_author(view_totals(totals@), author@),
            None => index_of_author(view_totals(totals@), author@) < 0,
        },
{
    let ghost tv = view_totals(totals@);
    let mut k: usize = 0;
    while k < totals.len()
        invariant
            k <= totals@.len(),
            tv == view_totals(totals@),
            forall|kk: int| 0 <= kk < k ==> (#[trigger] tv[kk]).author != author@,
        decreases totals@.len() - k,
    {
        if totals[k].author_id == *author {
            proof {
                lemma_index_of_author(tv, author@);
                let idx = index_of_author(tv, author@);
                if idx < 0 {
                    assert(tv[k as int].author != author@);
                } else if idx < k as int {
                    assert(tv[idx].author != author@);
                } else if idx > k as int {
                    assert(tv[k as int].author != author@);
                }
            }
            return Some(k);
        }
        k = k + 1;
    }
    proof {
        lemma_index_of_author(tv, author@);
        let idx = index_of_author(tv, author@);
        if idx >= 0 {
            assert(tv[idx].author != author@);
        }
    }
    None
}

/// Copy a totals list, preserving its mathematical content.
fn clone_totals(totals: &Vec<TotalEntry>) -> (r: Vec<TotalEntry>)
    ensures
        view_totals(r@) == view_totals(totals@),
{
    let mut r: Vec<TotalEntry> = Vec::new();
    let mut i: usize = 0;
    while i < totals.len()
        invariant
            i <= totals@.len(),
            r@.len() == i,
            forall|k: int| 0 <= k < i ==> (#[trigger] r@[k])@ == totals@[k]@,
        decreases totals@.len() - i,
    {
        r.push(totals[i].clone());
        i = i + 1;
    }
    proof {
        assert(view_totals(r@) =~= view_totals(totals@));
    }
    r
}

/// Apply one batch board's summed deltas to one leaderboard's totals,
/// without touching the input. Succeeds exactly when every author's new
/// total is still representable; on failure nothing is produced and
/// nothing was changed.
fn apply_board_deltas(totals: &Vec<TotalEntry>, deltas: &Vec<BatchEntry>) -> (r: Result<
    Vec<TotalEntry>,
    ScoreOverflow,
>)
    requires
        totals_wf(view_totals(totals@)),
    ensures
        r is Ok <==> deltas_ok(view_totals(totals@), view_batch_entries(deltas@)),
        r matches Ok(t) ==> view_totals(t@) == apply_deltas(
            view_totals(totals@),
            view_batch_entries(deltas@),
        ) && totals_wf(view_totals(t@)),
{
    let ghost t0 = view_totals(totals@);
    let ghost dv = view_batch_entries(deltas@);
    let mut cur = clone_totals(totals);
    let mut k: usize = 0;
    proof {
        assert(dv.take(0) =~= Seq::<BatchEntryV>::empty());
    }
    while k < deltas.len()
        invariant
            k <= deltas@.len(),
            t0 == view_totals(totals@),
            dv == view_batch_entries(deltas@),
            totals_wf(t0),
            view_totals(cur@) == apply_deltas(t0, dv.take(k as int)),
            deltas_ok(t0, dv.take(k as int)),
            totals_wf(view_totals(cur@)),
        decreases deltas@.len() - k,
    {
        let ghost cv = view_totals(cur@);
        let d = &deltas[k];
        let ghost e = dv[k as int];
        let dp: i64 = d.points.get();
        proof {
            assert(e == deltas@[k as int]@);
            assert(dv.take(k as int + 1) =~= dv.take(k as int).push(e));
            assert(dv.take(k as int + 1).drop_last() =~= dv.take(k as int));
            lemma_index_of_author(cv, e.author);
        }
        match find_author(&cur, &d.author_id) {
            Some(i) => {
                let old_points: i64 = {
                    let entry = &cur[i];
                    entry.points.get()
                };
                let sum_wide: i128 = old_points as i128 + dp as i128;
                if sum_wide > (SCORE_LIMIT as i128) || sum_wide < -(SCORE_LIMIT as i128) {
                    proof {
                        assert(total_of(cv, e.author) == old_points as int);
                        assert(!delta_ok(cv, e));
                        assert(!deltas_ok(t0, dv.take(k as int + 1)));
                        if deltas_ok(t0, dv) {
                            lemma_deltas_ok_prefix(t0, dv, k as int + 1);
                        }
                    }
                    return Err(ScoreOverflow);
                }
                let slot = &mut cur[i];
                slot.points = PerformancePoints::new(sum_wide as i64);
                proof {
                    assert(total_of(cv, e.author) == old_points as int);
                    assert(delta_ok(cv, e));
                    assert(view_totals(cur@) =~= cv.update(
                        i as int,
                        TotalEntryV { author: e.author, points: cv[i as int].points + e.points },
                    ));
                    assert(view_totals(cur@) == apply_one_delta(cv, e));
                    lemma_apply_one_wf(cv, e);
                }
            },
            None => {
                let author_id = d.author_id.clone();
                let points = d.points.clone();
                cur.push(TotalEntry { author_id, points });
                proof {
                    assert(total_of(cv, e.author) == 0);
                    assert(delta_ok(cv, e));
                    assert(view_totals(cur@) =~= cv.push(
                        TotalEntryV { author: e.author, points: e.points },
                    ));
                    assert(view_totals(cur@) == apply_one_delta(cv, e));
                    lemma_apply_one_wf(cv, e);
                }
            },
        }
        k = k + 1;
    }
    proof {
        assert(dv.take(deltas@.len() as int) =~= dv);
    }
    Ok(cur)
}

/// Aggregation monotonicity: when every delta of a board is
/// non-negative, no author's running total decreases.
pub proof fn lemma_aggregation_monotone(
    totals: Seq<TotalEntryV>,
    deltas: Seq<BatchEntryV>,
    author: AuthorKey,
)
    requires
        forall|k: int| 0 <= k < deltas.len() ==> (#[trigger] deltas[k]).points >= 0,
    ensures
        total_of(apply_deltas(totals, deltas), author) >= total_of(totals, author),
    decreases deltas.len(),
{
    if deltas.len() > 0 {
        lemma_aggregation_monotone(totals, deltas.drop_last(), author);
        lemma_apply_one_frame(apply_deltas(totals, deltas.drop_last()), deltas.last(), author);
        assert(deltas[deltas.len() - 1] == deltas.last());
    }
}

/// One registered leaderboard as the aggregator tracks it: its name
/// and the running per-author totals, created lazily and never pruned.
pub struct AggregatorBoard {
    pub name: LeaderboardName,
    pub totals: Vec<TotalEntry>,
}

/// The mathematical content of one aggregator board.
#[verifier::ext_equal]
pub ghost struct AggregatorBoardV {
    pub name: Seq<char>,
    pub totals: Seq<TotalEntryV>,
}

impl View for AggregatorBoard {
    type V = AggregatorBoardV;

    open spec fn view(&self) -> AggregatorBoardV {
        AggregatorBoardV { name: self.name@, totals: view_totals(self.totals@) }
    }
}

/// The mathematical content of the aggregator's board list.
pub open spec fn view_agg_boards(s: Seq<AggregatorBoard>) -> Seq<AggregatorBoardV> {
    Seq::new(s.len(), |i: int| s[i]@)
}

/// The position of the batch board for leaderboard `name`, or -1 when
/// the batch does not touch that leaderboard.
pub open spec fn index_of_batch_board(batch: Seq<BatchBoardV>, name: Seq<char>) -> int
    decreases batch.len(),
{
    if batch.len() == 0 {
        -1
    } else if batch[0].name == name {
        0
    } else {
        let r = index_of_batch_board(batch.drop_first(), name);
        if r < 0 {
            -1
        } else {
            r + 1
        }
    }
}

/// What `index_of_batch_board` finds.
pub proof fn lemma_index_of_batch_board(batch: Seq<BatchBoardV>, name: Seq<char>)
    ensures
        index_of_batch_board(batch, name) >= 0 ==> {
            &&& index_of_batch_board(batch, name) < batch.len()
            &&& batch[index_of_batch_board(batch, name)].name == name
            &&& forall|j: int|
                0 <= j < index_of_batch_board(batch, name) ==> (#[trigger] batch[j]).name != name
        },
        index_of_batch_board(batch, name) < 0 ==> forall|j: int|
            0 <= j < batch.len() ==> (#[trigger] batch[j]).name != name,
    decreases batch.len(),
{
    if batch.len() > 0 && batch[0].name != name {
        lemma_index_of_batch_board(batch.drop_first(), name);
        let idx = index_of_batch_board(batch, name);
        if idx >= 0 {
            assert(batch.drop_first()[idx - 1] == batch[idx]);
            assert forall|j: int| 0 <= j < idx implies (#[trigger] batch[j]).name != name by {
                if j > 0 {
                    assert(batch.drop_first()[j - 1] == batch[j]);
                }
            }
        } else {
            assert forall|j: int| 0 <= j < batch.len() implies (#[trigger] batch[j]).name != name by {
                if j > 0 {
                    assert(batch.drop_first()[j - 1] == batch[j]);
                }
            }
        }
    }
}

/// The batch touches board `j` of the aggregator.
pub open spec fn board_touched(boards: Seq<AggregatorBoardV>, batch: Seq<BatchBoardV>, j: int) -> bool {
    index_of_batch_board(batch, boards[j].name) >= 0
}

/// The totals board `j` holds once the batch is applied.
pub open spec fn new_board_totals(
    boards: Seq<AggregatorBoardV>,
    batch: Seq<BatchBoardV>,
    j: int,
) -> Seq<TotalEntryV> {
    apply_deltas(boards[j].totals, batch[index_of_batch_board(batch, boards[j].name)].entries)
}

/// Board `j`'s deltas keep every touched total representable.
pub open spec fn board_deltas_ok(
    boards: Seq<AggregatorBoardV>,
    batch: Seq<BatchBoardV>,
    j: int,
) -> bool {
    deltas_ok(boards[j].totals, batch[index_of_batch_board(batch, boards[j].name)].entries)
}

/// The change set a batch application emits: one entry per touched
/// registered leaderboard, in registered order, carrying the positional
/// diff between the old snapshot and the freshly ranked one.
pub open spec fn changes_upto<R: RankingFunction>(
    ranker: R,
    boards: Seq<AggregatorBoardV>,
    snaps: Seq<NamedSnapshotV>,
    batch: Seq<BatchBoardV>,
    n: int,
) -> Seq<BoardChangesV>
    decreases n,
{
    if n <= 0 {
        Seq::empty()
    } else {
        let prev = changes_upto(ranker, boards, snaps, batch, n - 1);
        if board_touched(boards, batch, n - 1) {
            prev.push(
                BoardChangesV {
                    name: boards[n - 1].name,
                    changes: diff_spec(
                        snaps[n - 1].entries,
                        ranker.spec_rank(new_board_totals(boards, batch, n - 1)),
                    ),
                },
            )
        } else {
            prev
        }
    }
}

/// Locate the batch board for one leaderboard name.
fn find_batch_board(batch: &SquashedBatch, name: &LeaderboardName) -> (r: Option<usize>)
    ensures
        match r {
            Some(i) => i as int == index_of_batch_board(batch@, name@),
            None => index_of_batch_board(batch@, name@) < 0,
        },
{
    let ghost bv = batch@;
    let mut k: usize = 0;
    while k < batch.boards.len()
        invariant
            k <= batch.boards@.len(),
            bv == batch@,
            bv.len() == batch.boards@.len(),
            forall|kk: int| 0 <= kk < k ==> (#[trigger] bv[kk]).name != name@,
        decreases batch.boards@.len() - k,
    {
        if batch.boards[k].name == *name {
            proof {
                lemma_index_of_batch_board(bv, name@);
                let idx = index_of_batch_board(bv, name@);
                if idx < 0 {
                    assert(bv[k as int].name != name@);
                } else if idx < k as int {
                    assert(bv[idx].name != name@);
                } else if idx > k as int {
                    assert(bv[k as int].name != name@);
                }
            }
            return Some(k);
        }
        k = k + 1;
    }
    proof {
        lemma_index_of_batch_board(bv, name@);
        let idx = index_of_batch_board(bv, name@);
        if idx >= 0 {
            assert(bv[idx].name != name@);
        }
    }
    None
}

// While a batch is committed board by board, what phase one computed
// for each board not yet committed.
spec fn update_matches(
    u: Option<Vec<TotalEntry>>,
    boards: Seq<AggregatorBoardV>,
    batch: Seq<BatchBoardV>,
    j: int,
) -> bool {
    match u {
        Some(t) => {
            &&& board_touched(boards, batch, j)
            &&& view_totals(t@) == new_board_totals(boards, batch, j)
            &&& totals_wf(view_totals(t@))
            &&& board_deltas_ok(boards, batch, j)
        },
        None => !board_touched(boards, batch, j),
    }
}

/// The aggregator: the single owner of the running totals and the only
/// writer of the shared state. One instance applies batches strictly in
/// the order the batcher emitted them.
pub struct Aggregator<R: RankingFunction> {
    pub ranker: R,
    pub boards: Vec<AggregatorBoard>,
}

impl<R: RankingFunction> Aggregator<R> {
    /// Totals of every registered board are well formed.
    pub open spec fn wf(&self) -> bool {
        forall|j: int|
            0 <= j < self.boards@.len() ==> totals_wf((#[trigger] self.boards@[j])@.totals)
    }

    /// The aggregator and the shared state track the same registered
    /// leaderboards, in the same order.
    pub open spec fn names_match(&self, shared: &SharedLeaderboards) -> bool {
        &&& shared@.len() == self.boards@.len()
        &&& forall|j: int|
            0 <= j < self.boards@.len() ==> (#[trigger] shared@[j]).name == self.boards@[j]@.name
    }

    /// Set up the aggregator over the registered leaderboards with the
    /// given ranking function.
    pub fn new(ranker: R, boards: Vec<AggregatorBoard>) -> (r: Self)
        ensures
            r.ranker == ranker,
            r.boards == boards,
    {
        Aggregator { ranker, boards }
    }

    /// Apply one squashed batch: add each touched leaderboard's summed
    /// deltas to its running totals, rank the new totals into a new
    /// snapshot, replace that snapshot in the shared state, and emit
    /// the change set covering exactly the touched leaderboards, in
    /// registered order. Batch boards for unregistered names are
    /// silently ignored. Fails, changing nothing, exactly when some
    /// author's new total would leave the representable range: that is
    /// a fatal defect escalated to whole-service shutdown.
    pub fn apply_batch(&mut self, batch: &SquashedBatch, shared: &mut SharedLeaderboards) -> (r:
        Result<LeaderboardsChanges, ScoreOverflow>)
        requires
            old(self).wf(),
            old(self).names_match(old(shared)),
        ensures
            final(self).ranker == old(self).ranker,
            final(self).boards@.len() == old(self).boards@.len(),
            final(shared)@.len() == old(shared)@.len(),
            forall|j: int|
                0 <= j < old(self).boards@.len() ==> (#[trigger] final(self).boards@[j])@.name
                    == old(self).boards@[j]@.name,
            forall|j: int|
                0 <= j < old(shared)@.len() ==> (#[trigger] final(shared)@[j]).name == old(
                    shared,
                )@[j].name,
            final(self).wf(),
            final(self).names_match(final(shared)),
            r is Ok <==> (forall|j: int|
                0 <= j < old(self).boards@.len() && board_touched(
                    view_agg_boards(old(self).boards@),
                    batch@,
                    j,
                ) ==> board_deltas_ok(view_agg_boards(old(self).boards@), batch@, j)),
            r matches Ok(changes) ==> {
                &&& forall|j: int|
                    0 <= j < old(self).boards@.len() && board_touched(
                        view_agg_boards(old(self).boards@),
                        batch@,
                        j,
                    ) ==> (#[trigger] final(self).boards@[j])@.totals == new_board_totals(
                        view_agg_boards(old(self).boards@),
                        batch@,
                        j,
                    )
                &&& forall|j: int|
                    0 <= j < old(self).boards@.len() && board_touched(
                        view_agg_boards(old(self).boards@),
                        batch@,
                        j,
                    ) ==> (#[trigger] final(shared)@[j]).entries == old(self).ranker.spec_rank(
                        new_board_totals(view_agg_boards(old(self).boards@), batch@, j),
                    )
                &&& forall|j: int|
                    0 <= j < old(self).boards@.len() && !board_touched(
                        view_agg_boards(old(self).boards@),
                        batch@,
                        j,
                    ) ==> (#[trigger] final(self).boards@[j])@.totals == old(
                        self,
                    ).boards@[j]@.totals && final(shared)@[j].entries == old(shared)@[j].entries
                &&& changes@ == changes_upto(
                    old(self).ranker,
                    view_agg_boards(old(self).boards@),
                    old(shared)@,
                    batch@,
                    old(self).boards@.len() as int,
                )
            },
            r is Err ==> *final(self) == *old(self) && *final(shared) == *old(shared),
    {
        let ghost ob = view_agg_boards(self.boards@);
        let ghost os = shared@;
        let ghost rk = self.ranker;
        let mut updates: Vec<Option<Vec<TotalEntry>>> = Vec::new();
        let mut j: usize = 0;
        while j < self.boards.len()
            invariant
                j <= self.boards@.len(),
                *self == *old(self),
                *shared == *old(shared),
                ob == view_agg_boards(self.boards@),
                os == shared@,
                rk == self.ranker,
                self.wf(),
                os.len() == ob.len(),
                forall|jj: int| 0 <= jj < ob.len() ==> (#[trigger] os[jj]).name == ob[jj].name,
                updates@.len() == j,
                forall|jj: int| 0 <= jj < j ==> update_matches(#[trigger] updates@[jj], ob, batch@, jj),
            decreases self.boards@.len() - j,
        {
            match find_batch_board(batch, &self.boards[j].name) {
                Some(bi) => {
                    proof {
                        lemma_index_of_batch_board(batch@, ob[j as int].name);
                        assert(batch@[bi as int] == batch.boards@[bi as int]@);
                        assert(batch@[bi as int].entries =~= view_batch_entries(
                            batch.boards@[bi as int].entries@,
                        ));
                    }
                    match apply_board_deltas(&self.boards[j].totals, &batch.boards[bi].entries) {
                        Ok(t) => {
                            updates.push(Some(t));
                        },
                        Err(e) => {
                            proof {
                                assert(board_touched(ob, batch@, j as int));
                                assert(!board_deltas_ok(ob, batch@, j as int));
                            }
                            return Err(e);
                        },
                    }
                },
                None => {
                    updates.push(None);
                },
            }
            j = j + 1;
        }
        let mut changes = LeaderboardsChanges::new();
        let mut j: usize = 0;
        proof {
            assert(changes@ =~= changes_upto(rk, ob, os, batch@, 0));
            assert forall|jj: int|
                0 <= jj < ob.len() && board_touched(ob, batch@, jj) implies board_deltas_ok(
                ob,
                batch@,
                jj,
            ) by {
                assert(update_matches(updates@[jj], ob, batch@, jj));
                if updates@[jj] is None {
                    assert(!board_touched(ob, batch@, jj));
                }
            }
        }
        while j < self.boards.len()
            invariant
                j <= self.boards@.len(),
                self.boards@.len() == ob.len(),
                updates@.len() == ob.len(),
                shared@.len() == ob.len(),
                self.ranker == rk,
                self.wf(),
                ob == view_agg_boards(old(self).boards@),
                os == old(shared)@,
                rk == old(self).ranker,
                os.len() == ob.len(),
                forall|jj: int| 0 <= jj < ob.len() ==> (#[trigger] os[jj]).name == ob[jj].name,
                forall|jj: int|
                    0 <= jj < ob.len() ==> (#[trigger] view_agg_boards(self.boards@)[jj]).name
                        == ob[jj].name,
                forall|jj: int| 0 <= jj < ob.len() ==> (#[trigger] shared@[jj]).name == os[jj].name,
                forall|jj: int|
                    j <= jj < ob.len() ==> (#[trigger] view_agg_boards(self.boards@)[jj]).totals
                        == ob[jj].totals,
                forall|jj: int|
                    j <= jj < ob.len() ==> (#[trigger] shared@[jj]).entries == os[jj].entries,
                forall|jj: int|
                    j <= jj < ob.len() ==> update_matches(#[trigger] updates@[jj], ob, batch@, jj),
                forall|jj: int|
                    0 <= jj < j && board_touched(ob, batch@, jj) ==> (#[trigger] view_agg_boards(
                        self.boards@,
                    )[jj]).totals == new_board_totals(ob, batch@, jj),
                forall|jj: int|
                    0 <= jj < j && board_touched(ob, batch@, jj) ==> (#[trigger] shared@[jj]).entries
                        == rk.spec_rank(new_board_totals(ob, batch@, jj)),
                forall|jj: int|
                    0 <= jj < j && !board_touched(ob, batch@, jj) ==> (#[trigger] view_agg_boards(
                        self.boards@,
                    )[jj]).totals == ob[jj].totals,
                forall|jj: int|
                    0 <= jj < j && !board_touched(ob, batch@, jj) ==> (#[trigger] shared@[jj]).entries
                        == os[jj].entries,
                forall|jj: int|
                    0 <= jj < ob.len() && board_touched(ob, batch@, jj) ==> board_deltas_ok(
                        ob,
                        batch@,
                        jj,
                    ),
                changes@ == changes_upto(rk, ob, os, batch@, j as int),
            decreases self.boards@.len() - j,
        {
            let ghost boards_before = view_agg_boards(self.boards@);
            let ghost bv0 = self.boards@;
            let ghost shared_before = shared@;
            let ghost updates_entry = updates@[j as int];
            proof {
                assert(update_matches(updates_entry, ob, batch@, j as int));
            }
            let slot = &mut updates[j];
            let upd_opt = slot.take();
            proof {
                assert(upd_opt == updates_entry);
            }
            match upd_opt {
                Some(new_totals) => {
                    proof {
                        assert(updates_entry == Some(new_totals));
                        assert(view_totals(new_totals@) == new_board_totals(ob, batch@, j as int));
                        assert(totals_wf(view_totals(new_totals@)));
                    }
                    let board = &mut self.boards[j];
                    board.totals = new_totals;
                    proof {
                        let cur = view_agg_boards(self.boards@);
                        assert(self.boards@.len() == bv0.len());
                        assert(cur[j as int] == self.boards@[j as int]@);
                        assert(boards_before[j as int] == bv0[j as int]@);
                        assert(cur[j as int].name == boards_before[j as int].name);
                        assert(boards_before[j as int].name == ob[j as int].name);
                        assert(cur[j as int].totals == new_board_totals(ob, batch@, j as int));
                        assert forall|jj: int|
                            0 <= jj < ob.len() && jj != j as int implies cur[jj] == boards_before[
                            jj
                        ] by {
                            assert(self.boards@[jj] == bv0[jj]);
                            assert(cur[jj] == self.boards@[jj]@);
                            assert(boards_before[jj] == bv0[jj]@);
                        }
                        assert(cur =~~= boards_before.update(
                            j as int,
                            AggregatorBoardV {
                                name: ob[j as int].name,
                                totals: new_board_totals(ob, batch@, j as int),
                            },
                        ));
                    }
                    let snap = self.ranker.rank(&self.boards[j].totals);
                    let changes_j = diff_board(&shared.boards[j].entries, &snap);
                    let name = self.boards[j].name.clone();
                    proof {
                        assert(view_snaps(shared.boards@) == shared@);
                        assert(shared@[j as int].entries == os[j as int].entries);
                        assert(crate::types::view_entries(shared.boards@[j as int].entries@)
                            == os[j as int].entries);
                    }
                    shared.replace(j, snap);
                    changes.push_board(BoardChanges { name, changes: changes_j });
                    proof {
                        assert(changes@ == changes_upto(rk, ob, os, batch@, j as int).push(
                            BoardChangesV {
                                name: ob[j as int].name,
                                changes: diff_spec(
                                    os[j as int].entries,
                                    rk.spec_rank(new_board_totals(ob, batch@, j as int)),
                                ),
                            },
                        ));
                        assert(changes@ == changes_upto(rk, ob, os, batch@, j as int + 1));
                    }
                },
                None => {
                    proof {
                        assert(update_matches(None::<Vec<TotalEntry>>, ob, batch@, j as int));
                        assert(!board_touched(ob, batch@, j as int));
                        assert(changes@ == changes_upto(rk, ob, os, batch@, j as int + 1));
                    }
                },
            }
            j = j + 1;
        }
        proof {
            assert forall|jj: int| 0 <= jj < ob.len() implies {
                &&& (#[trigger] self.boards@[jj])@.name == ob[jj].name
                &&& (board_touched(ob, batch@, jj) ==> self.boards@[jj]@.totals
                    == new_board_totals(ob, batch@, jj))
                &&& (!board_touched(ob, batch@, jj) ==> self.boards@[jj]@.totals == ob[jj].totals)
                &&& totals_wf(self.boards@[jj]@.totals)
            } by {
                assert(view_agg_boards(self.boards@)[jj] == self.boards@[jj]@);
            }
            assert forall|jj: int| 0 <= jj < ob.len() implies (#[trigger] ob[jj]) == old(
                self,
            ).boards@[jj]@ by {
                assert(view_agg_boards(old(self).boards@)[jj] == old(self).boards@[jj]@);
            }
        }
        Ok(changes)
    }
}

} // verus!

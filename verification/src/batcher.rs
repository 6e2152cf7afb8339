//! The batching stage: a drained window of score delta events is
//! squashed into one batch by summing same-leaderboard/same-author
//! deltas. The squash is exact and independent of arrival order.

use vstd::prelude::*;

use crate::types::{
    score_in_range, AuthorId, AuthorKey, LeaderboardName, PerformancePoints, SCORE_LIMIT,
};

verus! {

/// One score delta event: a signed contribution for one author on one
/// leaderboard. Ephemeral; consumed once by the squash.
pub struct IngestedPerformance {
    pub leaderboard_name: LeaderboardName,
    pub author_id: AuthorId,
    pub performance: PerformancePoints,
}

/// The mathematical content of one score delta event.
pub ghost struct EventV {
    pub name: Seq<char>,
    pub author: AuthorKey,
    pub points: int,
}

impl View for IngestedPerformance {
    type V = EventV;

    open spec fn view(&self) -> EventV {
        EventV {
            name: self.leaderboard_name@,
            author: self.author_id@,
            points: self.performance@,
        }
    }
}

impl Clone for IngestedPerformance {
    fn clone(&self) -> (r: Self)
        ensures
            r@ == self@,
    {
        IngestedPerformance {
            leaderboard_name: self.leaderboard_name.clone(),
            author_id: self.author_id.clone(),
            performance: self.performance.clone(),
        }
    }
}

/// The mathematical content of a sequence of events.
pub open spec fn view_events(s: Seq<IngestedPerformance>) -> Seq<EventV> {
    Seq::new(s.len(), |i: int| s[i]@)
}

/// What one event contributes to the sum for a given key.
pub open spec fn event_contrib(e: EventV, name: Seq<char>, author: AuthorKey) -> int {
    if e.name == name && e.author == author {
        e.points
    } else {
        0
    }
}

/// The arithmetic sum of all deltas in `events` for one
/// (leaderboard, author) key.
pub open spec fn sum_for(events: Seq<EventV>, name: Seq<char>, author: AuthorKey) -> int
    decreases events.len(),
{
    if events.len() == 0 {
        0
    } else {
        sum_for(events.drop_last(), name, author) + event_contrib(events.last(), name, author)
    }
}

/// The leaderboard names occurring in `events`, in order of first
/// occurrence, each once.
pub open spec fn distinct_names(events: Seq<EventV>) -> Seq<Seq<char>>
    decreases events.len(),
{
    if events.len() == 0 {
        Seq::empty()
    } else {
        let prev = distinct_names(events.drop_last());
        if prev.contains(events.last().name) {
            prev
        } else {
            prev.push(events.last().name)
        }
    }
}

/// The authors with a delta for leaderboard `name` in `events`, in order
/// of first occurrence, each once.
pub open spec fn distinct_authors(events: Seq<EventV>, name: Seq<char>) -> Seq<AuthorKey>
    decreases events.len(),
{
    if events.len() == 0 {
        Seq::empty()
    } else {
        let prev = distinct_authors(events.drop_last(), name);
        if events.last().name == name && !prev.contains(events.last().author) {
            prev.push(events.last().author)
        } else {
            prev
        }
    }
}

/// Every key that occurs in `events` has its summed delta within the
/// score range.
pub open spec fn squash_sums_in_range(events: Seq<EventV>) -> bool {
    forall|i: int|
        0 <= i < events.len() ==> score_in_range(
            sum_for(events, (#[trigger] events[i]).name, events[i].author),
        )
}

/// One summed entry of a squashed batch.
pub struct BatchEntry {
    pub author_id: AuthorId,
    pub points: PerformancePoints,
}

/// The mathematical content of one summed entry.
pub ghost struct BatchEntryV {
    pub author: AuthorKey,
    pub points: int,
}

impl View for BatchEntry {
    type V = BatchEntryV;

    open spec fn view(&self) -> BatchEntryV {
        BatchEntryV { author: self.author_id@, points: self.performance_view() }
    }
}

impl BatchEntry {
    /// The summed points as a mathematical integer.
    pub open spec fn performance_view(&self) -> int {
        self.points@
    }
}

/// The mathematical content of a list of summed entries.
pub open spec fn view_batch_entries(s: Seq<BatchEntry>) -> Seq<BatchEntryV> {
    Seq::new(s.len(), |i: int| s[i]@)
}

/// All summed entries of one leaderboard in a squashed batch.
pub struct BatchBoard {
    pub name: LeaderboardName,
    pub entries: Vec<BatchEntry>,
}

/// The mathematical content of one leaderboard's part of a batch.
#[verifier::ext_equal]
pub ghost struct BatchBoardV {
    pub name: Seq<char>,
    pub entries: Seq<BatchEntryV>,
}

impl View for BatchBoard {
    type V = BatchBoardV;

    open spec fn view(&self) -> BatchBoardV {
        BatchBoardV {
            name: self.name@,
            entries: Seq::new(self.entries@.len(), |i: int| self.entries@[i]@),
        }
    }
}

/// A squashed batch: for each leaderboard touched in the window, the
/// summed delta of each author touched on it.
pub struct SquashedBatch {
    pub boards: Vec<BatchBoard>,
}

impl View for SquashedBatch {
    type V = Seq<BatchBoardV>;

    open spec fn view(&self) -> Seq<BatchBoardV> {
        Seq::new(self.boards@.len(), |i: int| self.boards@[i]@)
    }
}

/// A squashed value left the representable score range: a fatal defect
/// of the producers, reported at the point of construction.
pub struct ScoreOverflow;

/// `boards` is exactly the squash of `events`: one board per distinct
/// leaderboard name in first-occurrence order, one entry per distinct
/// author of that board in first-occurrence order, each carrying the
/// arithmetic sum of its deltas.
pub open spec fn batch_matches(events: Seq<EventV>, boards: Seq<BatchBoardV>) -> bool {
    &&& boards.len() == distinct_names(events).len()
    &&& forall|j: int|
        0 <= j < boards.len() ==> (#[trigger] boards[j]).name == distinct_names(events)[j]
    &&& forall|j: int|
        0 <= j < boards.len() ==> (#[trigger] boards[j]).entries.len() == distinct_authors(
            events,
            boards[j].name,
        ).len()
    &&& forall|j: int, k: int|
        0 <= j < boards.len() && 0 <= k < boards[j].entries.len() ==> (#[trigger] boards[
            j
        ].entries[k]).author == distinct_authors(events, boards[j].name)[k]
    &&& forall|j: int, k: int|
        0 <= j < boards.len() && 0 <= k < boards[j].entries.len() ==> (#[trigger] boards[
            j
        ].entries[k]).points == sum_for(events, boards[j].name, boards[j].entries[k].author)
}

/// The one batch that squashing a window yields, written out directly:
/// `batch_matches` pins a batch down to exactly this value.
pub open spec fn spec_squash(events: Seq<EventV>) -> Seq<BatchBoardV> {
    Seq::new(
        distinct_names(events).len(),
        |j: int|
            BatchBoardV {
                name: distinct_names(events)[j],
                entries: Seq::new(
                    distinct_authors(events, distinct_names(events)[j]).len(),
                    |k: int|
                        BatchEntryV {
                            author: distinct_authors(events, distinct_names(events)[j])[k],
                            points: sum_for(
                                events,
                                distinct_names(events)[j],
                                distinct_authors(events, distinct_names(events)[j])[k],
                            ),
                        },
                ),
            },
    )
}

/// A batch that matches a window is that window's squash, exactly.
pub proof fn lemma_batch_matches_squash(events: Seq<EventV>, boards: Seq<BatchBoardV>)
    requires
        batch_matches(events, boards),
    ensures
        boards == spec_squash(events),
{
    assert(boards =~~= spec_squash(events));
}

// An accumulating board/entry while the squash is in progress: sums are
// kept wide so no intermediate sum can overflow.
struct AccEntry {
    author_id: AuthorId,
    acc: i128,
}

struct AccBoard {
    name: LeaderboardName,
    entries: Vec<AccEntry>,
}

ghost struct AccEntryV {
    author: AuthorKey,
    acc: int,
}

#[verifier::ext_equal]
ghost struct AccBoardV {
    name: Seq<char>,
    entries: Seq<AccEntryV>,
}

impl View for AccEntry {
    type V = AccEntryV;

    closed spec fn view(&self) -> AccEntryV {
        AccEntryV { author: self.author_id@, acc: self.acc as int }
    }
}

impl View for AccBoard {
    type V = AccBoardV;

    closed spec fn view(&self) -> AccBoardV {
        AccBoardV {
            name: self.name@,
            entries: Seq::new(self.entries@.len(), |i: int| self.entries@[i]@),
        }
    }
}

spec fn view_acc(work: Seq<AccBoard>) -> Seq<AccBoardV> {
    Seq::new(work.len(), |i: int| work[i]@)
}

// The work list mirrors the squash of the events seen so far.
spec fn acc_matches(events: Seq<EventV>, work: Seq<AccBoardV>) -> bool {
    &&& work.len() == distinct_names(events).len()
    &&& forall|j: int|
        0 <= j < work.len() ==> (#[trigger] work[j]).name == distinct_names(events)[j]
    &&& forall|j: int|
        0 <= j < work.len() ==> (#[trigger] work[j]).entries.len() == distinct_authors(
            events,
            work[j].name,
        ).len()
    &&& forall|j: int, k: int|
        0 <= j < work.len() && 0 <= k < work[j].entries.len() ==> (#[trigger] work[
            j
        ].entries[k]).author == distinct_authors(events, work[j].name)[k]
    &&& forall|j: int, k: int|
        0 <= j < work.len() && 0 <= k < work[j].entries.len() ==> (#[trigger] work[
            j
        ].entries[k]).acc == sum_for(events, work[j].name, work[j].entries[k].author)
}

fn find_board(work: &Vec<AccBoard>, name: &LeaderboardName) -> (r: Option<usize>)
    ensures
        match r {
            Some(bi) => bi < work@.len() && work@[bi as int].name@ == name@,
            None => forall|j: int| 0 <= j < work@.len() ==> (#[trigger] work@[j]).name@ != name@,
        },
{
    let mut j: usize = 0;
    while j < work.len()
        invariant
            j <= work@.len(),
            forall|jj: int| 0 <= jj < j ==> (#[trigger] work@[jj]).name@ != name@,
        decreases work@.len() - j,
    {
        if work[j].name == *name {
            return Some(j);
        }
        j = j + 1;
    }
    None
}

fn find_entry(entries: &Vec<AccEntry>, author: &AuthorId) -> (r: Option<usize>)
    ensures
        match r {
            Some(k) => k < entries@.len() && entries@[k as int].author_id@ == author@,
            None => forall|k: int|
                0 <= k < entries@.len() ==> (#[trigger] entries@[k]).author_id@ != author@,
        },
{
    let mut k: usize = 0;
    while k < entries.len()
        invariant
            k <= entries@.len(),
            forall|kk: int| 0 <= kk < k ==> (#[trigger] entries@[kk]).author_id@ != author@,
        decreases entries@.len() - k,
    {
        if entries[k].author_id == *author {
            return Some(k);
        }
        k = k + 1;
    }
    None
}

/// The distinct name list never repeats a name.
proof fn lemma_distinct_names_no_dup(events: Seq<EventV>)
    ensures
        forall|j1: int, j2: int|
            0 <= j1 < j2 < distinct_names(events).len() ==> distinct_names(events)[j1]
                != distinct_names(events)[j2],
    decreases events.len(),
{
    if events.len() > 0 {
        lemma_distinct_names_no_dup(events.drop_last());
        let prev = distinct_names(events.drop_last());
        let x = events.last().name;
        if !prev.contains(x) {
            assert forall|j: int| 0 <= j < prev.len() implies prev[j] != x by {
                if prev[j] == x {
                    assert(prev.contains(x));
                }
            }
        }
    }
}

/// The distinct author list of one board never repeats an author.
proof fn lemma_distinct_authors_no_dup(events: Seq<EventV>, name: Seq<char>)
    ensures
        forall|k1: int, k2: int|
            0 <= k1 < k2 < distinct_authors(events, name).len() ==> distinct_authors(
                events,
                name,
            )[k1] != distinct_authors(events, name)[k2],
    decreases events.len(),
{
    if events.len() > 0 {
        lemma_distinct_authors_no_dup(events.drop_last(), name);
        let prev = distinct_authors(events.drop_last(), name);
        let x = events.last().author;
        if !prev.contains(x) {
            assert forall|k: int| 0 <= k < prev.len() implies prev[k] != x by {
                if prev[k] == x {
                    assert(prev.contains(x));
                }
            }
        }
    }
}

/// Every author in a board's distinct author list occurs in some event
/// for that board.
proof fn lemma_distinct_authors_sound(events: Seq<EventV>, name: Seq<char>, author: AuthorKey)
    requires
        distinct_authors(events, name).contains(author),
    ensures
        exists|i: int|
            0 <= i < events.len() && (#[trigger] events[i]).name == name && events[i].author
                == author,
    decreases events.len(),
{
    if events.len() > 0 {
        let prev = distinct_authors(events.drop_last(), name);
        if events.last().name == name && events.last().author == author {
            assert(events[events.len() - 1].name == name && events[events.len() - 1].author
                == author);
        } else {
            assert(prev.contains(author));
            lemma_distinct_authors_sound(events.drop_last(), name, author);
            let i = choose|i: int|
                0 <= i < events.drop_last().len() && (#[trigger] events.drop_last()[i]).name
                    == name && events.drop_last()[i].author == author;
            assert(events[i].name == name && events[i].author == author);
        }
    }
}

/// Every event's leaderboard name is in the distinct name list.
proof fn lemma_distinct_names_complete(events: Seq<EventV>, i: int)
    requires
        0 <= i < events.len(),
    ensures
        distinct_names(events).contains(events[i].name),
    decreases events.len(),
{
    let prev = distinct_names(events.drop_last());
    if i < events.len() - 1 {
        lemma_distinct_names_complete(events.drop_last(), i);
        assert(events.drop_last()[i] == events[i]);
        let j = choose|j: int| 0 <= j < prev.len() && prev[j] == events[i].name;
        if prev.contains(events.last().name) {
            assert(distinct_names(events)[j] == events[i].name);
        } else {
            assert(distinct_names(events)[j] == events[i].name);
        }
    } else {
        if prev.contains(events.last().name) {
            let j = choose|j: int| 0 <= j < prev.len() && prev[j] == events.last().name;
            assert(distinct_names(events)[j] == events[i].name);
        } else {
            assert(distinct_names(events).last() == events[i].name);
        }
    }
}

/// Every event's author is in its board's distinct author list.
proof fn lemma_distinct_authors_complete(events: Seq<EventV>, i: int)
    requires
        0 <= i < events.len(),
    ensures
        distinct_authors(events, events[i].name).contains(events[i].author),
    decreases events.len(),
{
    let name = events[i].name;
    let prev = distinct_authors(events.drop_last(), name);
    if i < events.len() - 1 {
        lemma_distinct_authors_complete(events.drop_last(), i);
        assert(events.drop_last()[i] == events[i]);
        let k = choose|k: int| 0 <= k < prev.len() && prev[k] == events[i].author;
        assert(distinct_authors(events, name)[k] == events[i].author);
    } else {
        if events.last().name == name && !prev.contains(events.last().author) {
            assert(distinct_authors(events, name).last() == events[i].author);
        } else {
            let k = choose|k: int| 0 <= k < prev.len() && prev[k] == events.last().author;
            assert(distinct_authors(events, name)[k] == events[i].author);
        }
    }
}

/// A key that never occurs in `events` sums to zero.
proof fn lemma_sum_for_absent(events: Seq<EventV>, name: Seq<char>, author: AuthorKey)
    requires
        forall|i: int|
            0 <= i < events.len() ==> !((#[trigger] events[i]).name == name && events[i].author
                == author),
    ensures
        sum_for(events, name, author) == 0,
    decreases events.len(),
{
    if events.len() > 0 {
        lemma_sum_for_absent(events.drop_last(), name, author);
        assert(events[events.len() - 1] == events.last());
    }
}

/// An author outside a board's distinct author list sums to zero there.
proof fn lemma_sum_for_new_author(events: Seq<EventV>, name: Seq<char>, author: AuthorKey)
    requires
        !distinct_authors(events, name).contains(author),
    ensures
        sum_for(events, name, author) == 0,
{
    assert forall|i: int|
        0 <= i < events.len() implies !((#[trigger] events[i]).name == name && events[i].author
        == author) by {
        if events[i].name == name && events[i].author == author {
            lemma_distinct_authors_complete(events, i);
        }
    }
    lemma_sum_for_absent(events, name, author);
}

/// Appending one event adds its contribution to exactly its own key.
proof fn lemma_sum_for_push(events: Seq<EventV>, e: EventV, name: Seq<char>, author: AuthorKey)
    ensures
        sum_for(events.push(e), name, author) == sum_for(events, name, author) + event_contrib(
            e,
            name,
            author,
        ),
{
    assert(events.push(e).drop_last() =~= events);
    assert(events.push(e).last() == e);
}

/// Squash one drained window: sum the deltas of every
/// (leaderboard, author) key. Succeeds exactly when every key's sum is
/// still a representable score; a sum outside the range is a fatal
/// defect of the producers and is reported instead of being coerced.
pub fn squash_batch(read: Vec<IngestedPerformance>) -> (r: Result<SquashedBatch, ScoreOverflow>)
    ensures
        r is Ok <==> squash_sums_in_range(view_events(read@)),
        r matches Ok(b) ==> batch_matches(view_events(read@), b@),
{
    let ghost events = view_events(read@);
    let mut work: Vec<AccBoard> = Vec::new();
    let mut i: usize = 0;
    proof {
        assert(events.take(0) =~= Seq::<EventV>::empty());
        assert(view_acc(work@) =~= Seq::<AccBoardV>::empty());
    }
    while i < read.len()
        invariant
            i <= read@.len(),
            events == view_events(read@),
            acc_matches(events.take(i as int), view_acc(work@)),
            forall|j: int, k: int|
                0 <= j < view_acc(work@).len() && 0 <= k < view_acc(work@)[j].entries.len()
                    ==> -((i as int) * (SCORE_LIMIT as int)) <= (#[trigger] view_acc(
                    work@,
                )[j].entries[k]).acc <= (i as int) * (SCORE_LIMIT as int),
        decreases read@.len() - i,
    {
        let ghost prefix = events.take(i as int);
        let ghost wv = view_acc(work@);
        let ev = &read[i];
        let ghost e = events[i as int];
        let p: i64 = ev.performance.get();
        proof {
            assert(e == read@[i as int]@);
            assert(events.take(i as int + 1) =~= prefix.push(e));
            assert(prefix.push(e).drop_last() =~= prefix);
            lemma_distinct_names_no_dup(prefix);
        }
        let bi_opt = find_board(&work, &ev.leaderboard_name);
        match bi_opt {
            Some(bi) => {
                proof {
                    assert(wv[bi as int].name == e.name);
                    assert(distinct_names(prefix)[bi as int] == e.name);
                    assert(distinct_names(prefix).contains(e.name));
                    assert(distinct_names(prefix.push(e)) == distinct_names(prefix));
                    lemma_distinct_authors_no_dup(prefix, e.name);
                }
                let ki_opt = find_entry(&work[bi].entries, &ev.author_id);
                match ki_opt {
                    Some(ki) => {
                        proof {
                            assert(wv[bi as int].entries[ki as int].author == e.author);
                            assert(distinct_authors(prefix, e.name)[ki as int] == e.author);
                            assert(distinct_authors(prefix, e.name).contains(e.author));
                        }
                        let board = &mut work[bi];
                        let entry = &mut board.entries[ki];
                        proof {
                            assert(entry@.acc == sum_for(prefix, e.name, e.author));
                        }
                        entry.acc = entry.acc + (p as i128);
                        proof {
                            let nwv = view_acc(work@);
                            assert(nwv =~~= wv.update(
                                bi as int,
                                AccBoardV {
                                    name: wv[bi as int].name,
                                    entries: wv[bi as int].entries.update(
                                        ki as int,
                                        AccEntryV {
                                            author: e.author,
                                            acc: sum_for(prefix, e.name, e.author) + e.points,
                                        },
                                    ),
                                },
                            ));
                            assert forall|j: int, k: int|
                                0 <= j < nwv.len() && 0 <= k
                                    < nwv[j].entries.len() implies (#[trigger] nwv[
                                j
                            ].entries[k]).acc == sum_for(
                                prefix.push(e),
                                nwv[j].name,
                                nwv[j].entries[k].author,
                            ) by {
                                lemma_sum_for_push(prefix, e, nwv[j].name, nwv[j].entries[k].author);
                                if j != bi as int {
                                    assert(nwv[j].name != e.name);
                                } else if k != ki as int {
                                    assert(nwv[j].entries[k].author != e.author);
                                }
                            }
                            assert(acc_matches(prefix.push(e), nwv));
                        }
                    },
                    None => {
                        proof {
                            assert forall|k: int|
                                0 <= k < distinct_authors(prefix, e.name).len() implies
                                distinct_authors(prefix, e.name)[k] != e.author by {
                                assert(wv[bi as int].entries[k].author == distinct_authors(
                                    prefix,
                                    e.name,
                                )[k]);
                            }
                            assert(!distinct_authors(prefix, e.name).contains(e.author));
                            lemma_sum_for_new_author(prefix, e.name, e.author);
                        }
                        let author_id = ev.author_id.clone();
                        let board = &mut work[bi];
                        board.entries.push(AccEntry { author_id, acc: p as i128 });
                        proof {
                            let nwv = view_acc(work@);
                            assert(nwv =~~= wv.update(
                                bi as int,
                                AccBoardV {
                                    name: wv[bi as int].name,
                                    entries: wv[bi as int].entries.push(
                                        AccEntryV { author: e.author, acc: e.points },
                                    ),
                                },
                            ));
                            assert(distinct_authors(prefix.push(e), e.name) =~= distinct_authors(
                                prefix,
                                e.name,
                            ).push(e.author));
                            assert forall|j: int, k: int|
                                0 <= j < nwv.len() && 0 <= k
                                    < nwv[j].entries.len() implies (#[trigger] nwv[
                                j
                            ].entries[k]).acc == sum_for(
                                prefix.push(e),
                                nwv[j].name,
                                nwv[j].entries[k].author,
                            ) by {
                                lemma_sum_for_push(prefix, e, nwv[j].name, nwv[j].entries[k].author);
                                if j != bi as int {
                                    assert(nwv[j].name != e.name);
                                } else if k < wv[bi as int].entries.len() {
                                    assert(nwv[j].entries[k].author != e.author);
                                }
                            }
                            assert(acc_matches(prefix.push(e), nwv));
                        }
                    },
                }
            },
            None => {
                proof {
                    assert forall|j: int|
                        0 <= j < distinct_names(prefix).len() implies distinct_names(prefix)[j]
                        != e.name by {
                        assert(wv[j].name == distinct_names(prefix)[j]);
                    }
                    assert(!distinct_names(prefix).contains(e.name));
                    assert(distinct_authors(prefix, e.name) =~= Seq::<AuthorKey>::empty()) by {
                        if distinct_authors(prefix, e.name).len() > 0 {
                            assert(distinct_authors(prefix, e.name).contains(
                                distinct_authors(prefix, e.name)[0],
                            ));
                            lemma_distinct_authors_sound(
                                prefix,
                                e.name,
                                distinct_authors(prefix, e.name)[0],
                            );
                            let i0 = choose|i0: int|
                                0 <= i0 < prefix.len() && (#[trigger] prefix[i0]).name == e.name
                                    && prefix[i0].author == distinct_authors(prefix, e.name)[0];
                            lemma_distinct_names_complete(prefix, i0);
                        }
                    }
                    lemma_sum_for_new_author(prefix, e.name, e.author);
                }
                let author_id = ev.author_id.clone();
                let name = ev.leaderboard_name.clone();
                let mut entries: Vec<AccEntry> = Vec::new();
                entries.push(AccEntry { author_id, acc: p as i128 });
                work.push(AccBoard { name, entries });
                proof {
                    let nwv = view_acc(work@);
                    assert(nwv =~~= wv.push(
                        AccBoardV {
                            name: e.name,
                            entries: seq![AccEntryV { author: e.author, acc: e.points }],
                        },
                    ));
                    assert(distinct_names(prefix.push(e)) =~= distinct_names(prefix).push(e.name));
                    assert forall|n: Seq<char>|
                        n != e.name implies distinct_authors(prefix.push(e), n) == distinct_authors(
                        prefix,
                        n,
                    ) by {}
                    assert(distinct_authors(prefix.push(e), e.name) =~= seq![e.author]);
                    assert forall|j: int, k: int|
                        0 <= j < nwv.len() && 0 <= k < nwv[j].entries.len() implies (#[trigger] nwv[
                        j
                    ].entries[k]).acc == sum_for(
                        prefix.push(e),
                        nwv[j].name,
                        nwv[j].entries[k].author,
                    ) by {
                        lemma_sum_for_push(prefix, e, nwv[j].name, nwv[j].entries[k].author);
                        if j < wv.len() {
                            assert(nwv[j].name != e.name);
                        }
                    }
                    assert(acc_matches(prefix.push(e), nwv));
                }
            },
        }
        i = i + 1;
    }
    proof {
        assert(events.take(read@.len() as int) =~= events);
    }
    let ghost wv = view_acc(work@);
    let mut boards: Vec<BatchBoard> = Vec::new();
    let mut j: usize = 0;
    while j < work.len()
        invariant
            j <= work@.len(),
            events == view_events(read@),
            wv == view_acc(work@),
            acc_matches(events, wv),
            boards@.len() == j,
            forall|jj: int| 0 <= jj < j ==> (#[trigger] boards@[jj]@).name == wv[jj].name,
            forall|jj: int|
                0 <= jj < j ==> (#[trigger] boards@[jj]@).entries.len() == wv[jj].entries.len(),
            forall|jj: int, kk: int|
                0 <= jj < j && 0 <= kk < boards@[jj]@.entries.len() ==> (#[trigger] boards@[
                    jj
                ]@.entries[kk]).author == wv[jj].entries[kk].author,
            forall|jj: int, kk: int|
                0 <= jj < j && 0 <= kk < boards@[jj]@.entries.len() ==> (#[trigger] boards@[
                    jj
                ]@.entries[kk]).points == wv[jj].entries[kk].acc,
            forall|jj: int, kk: int|
                0 <= jj < j && 0 <= kk < wv[jj].entries.len() ==> score_in_range(
                    (#[trigger] wv[jj].entries[kk]).acc,
                ),
        decreases work@.len() - j,
    {
        let board = &work[j];
        let mut entries: Vec<BatchEntry> = Vec::new();
        let mut k: usize = 0;
        while k < board.entries.len()
            invariant
                k <= board.entries@.len(),
                events == view_events(read@),
                board@ == wv[j as int],
                j < wv.len(),
                wv[j as int].entries.len() == board.entries@.len(),
                acc_matches(events, wv),
                entries@.len() == k,
                forall|kk: int|
                    0 <= kk < k ==> (#[trigger] entries@[kk]@).author == wv[
                        j as int
                    ].entries[kk].author,
                forall|kk: int|
                    0 <= kk < k ==> (#[trigger] entries@[kk]@).points == wv[
                        j as int
                    ].entries[kk].acc,
                forall|kk: int|
                    0 <= kk < k ==> score_in_range((#[trigger] wv[j as int].entries[kk]).acc),
            decreases board.entries@.len() - k,
        {
            let a = board.entries[k].acc;
            if a > (SCORE_LIMIT as i128) || a < -(SCORE_LIMIT as i128) {
                proof {
                    let ghost n = wv[j as int].name;
                    let ghost au = wv[j as int].entries[k as int].author;
                    assert(distinct_authors(events, n)[k as int] == au);
                    assert(distinct_authors(events, n).contains(au));
                    lemma_distinct_authors_sound(events, n, au);
                    let i0 = choose|i0: int|
                        0 <= i0 < events.len() && (#[trigger] events[i0]).name == n
                            && events[i0].author == au;
                    assert(!score_in_range(sum_for(events, events[i0].name, events[i0].author)));
                    assert(!squash_sums_in_range(events));
                }
                return Err(ScoreOverflow);
            }
            let author_id = board.entries[k].author_id.clone();
            entries.push(BatchEntry { author_id, points: PerformancePoints::new(a as i64) });
            k = k + 1;
        }
        let name = board.name.clone();
        boards.push(BatchBoard { name, entries });
        j = j + 1;
    }
    let result = SquashedBatch { boards };
    proof {
        assert forall|i0: int| 0 <= i0 < events.len() implies score_in_range(
            sum_for(events, (#[trigger] events[i0]).name, events[i0].author),
        ) by {
            lemma_distinct_names_complete(events, i0);
            lemma_distinct_authors_complete(events, i0);
            let n = events[i0].name;
            let au = events[i0].author;
            let jx = choose|jx: int|
                0 <= jx < distinct_names(events).len() && distinct_names(events)[jx] == n;
            assert(wv[jx].name == n);
            let kx = choose|kx: int|
                0 <= kx < distinct_authors(events, n).len() && distinct_authors(events, n)[kx]
                    == au;
            assert(wv[jx].entries[kx].author == au);
            assert(wv[jx].entries[kx].acc == sum_for(events, n, au));
            assert(score_in_range(wv[jx].entries[kx].acc));
        }
        assert(squash_sums_in_range(events));
        assert(batch_matches(events, result@));
    }
    Ok(result)
}

} // verus!

//! The assembled engine: the ingest queue, the batch squash, the
//! aggregator over the shared state, the wire encoding and the fan-out
//! channel, composed as one state machine. A surrounding service runs
//! each stage on its own task and guards the shared pieces with the
//! read/write lock discipline the contracts here spell out; every
//! decision those tasks make is a call into this module.

use vstd::prelude::*;

use crate::aggregate::{
    apply_deltas, board_deltas_ok, board_touched, changes_upto, index_of_batch_board,
    lemma_aggregation_monotone, lemma_apply_deltas_wf, lemma_index_of_batch_board,
    new_board_totals, total_of, Aggregator, AggregatorBoard,
};
use crate::batcher::{
    lemma_batch_matches_squash, spec_squash, squash_batch, squash_sums_in_range, BatchBoardV,
    EventV, IngestedPerformance, ScoreOverflow,
};
use crate::diff::{apply_seq, diff_spec, lemma_diff_roundtrip};
use crate::fanout::{Broadcaster, RecvOutcome, Subscription};
use crate::ingest::{IngestQueue, QueueFull, ServerHandleExporter};
use crate::ranking::{totals_wf, RankingFunction, TotalEntryV};
use crate::state::{view_snaps, NamedSnapshot, SharedLeaderboards};
use crate::types::{EntryV, LeaderboardName};

verus! {

/// How many events the ingest queue buffers before it backpressures.
pub const INGEST_QUEUE_CAPACITY: usize = 10000;

/// How many serialized messages the fan-out channel retains for
/// subscribers that momentarily fall behind.
pub const FANOUT_HISTORY_DEPTH: usize = 10;

/// A configured server that has not started serving yet: the
/// registered leaderboards with their initial snapshots, and the
/// ingest queue producers will feed.
pub struct UnstartedWebsocketServer {
    pub queue: IngestQueue,
    pub leaderboards: Vec<NamedSnapshot>,
}

impl UnstartedWebsocketServer {
    /// Register the fixed set of leaderboards for the process
    /// lifetime.
    pub fn new(leaderboards: Vec<NamedSnapshot>) -> (r: Self)
        ensures
            r.queue.wf(),
            r.queue.queued() == Seq::<EventV>::empty(),
            r.queue.spec_capacity() == INGEST_QUEUE_CAPACITY as int,
            r.leaderboards == leaderboards,
    {
        UnstartedWebsocketServer { queue: IngestQueue::new(INGEST_QUEUE_CAPACITY), leaderboards }
    }

    /// Hand out the submission capability for one registered
    /// leaderboard. Asking for an unregistered leaderboard is a
    /// configuration defect, excluded here rather than discovered at
    /// the first event.
    pub fn get_exporter_for_leaderboard(&self, leaderboard: LeaderboardName) -> (r:
        ServerHandleExporter)
        requires
            exists|j: int|
                0 <= j < self.leaderboards@.len() && (#[trigger] self.leaderboards@[j])@.name
                    == leaderboard@,
        ensures
            r.leaderboard@ == leaderboard@,
    {
        ServerHandleExporter { leaderboard }
    }

    /// Start serving: build the aggregator with empty running totals
    /// for every registered leaderboard, publish nothing yet, and hold
    /// no connections.
    pub fn start<R: RankingFunction>(self, ranker: R) -> (r: LiveServer<R>)
        requires
            self.queue.wf(),
        ensures
            r.wf(),
            r.shared@ == view_snaps(self.leaderboards@),
            r.aggregator.ranker == ranker,
            r.aggregator.boards@.len() == self.leaderboards@.len(),
            forall|j: int|
                0 <= j < self.leaderboards@.len() ==> (#[trigger] r.aggregator.boards@[j])@.totals
                    == Seq::<TotalEntryV>::empty(),
            r.bus@.history == Seq::<Seq<u8>>::empty(),
            r.bus@.base == 0,
            r.queue == self.queue,
            r.connections@ == Seq::<Option<Subscription>>::empty(),
    {
        let mut boards: Vec<AggregatorBoard> = Vec::new();
        let mut j: usize = 0;
        while j < self.leaderboards.len()
            invariant
                j <= self.leaderboards@.len(),
                boards@.len() == j,
                forall|k: int|
                    0 <= k < j ==> (#[trigger] boards@[k])@.name == self.leaderboards@[k]@.name,
                forall|k: int|
                    0 <= k < j ==> (#[trigger] boards@[k])@.totals == Seq::<TotalEntryV>::empty(),
            decreases self.leaderboards@.len() - j,
        {
            let name = self.leaderboards[j].name.clone();
            let totals: Vec<crate::ranking::TotalEntry> = Vec::new();
            proof {
                assert(crate::ranking::view_totals(totals@) =~= Seq::<TotalEntryV>::empty());
            }
            boards.push(AggregatorBoard { name, totals });
            j = j + 1;
        }
        proof {
            assert forall|k: int| 0 <= k < boards@.len() implies totals_wf(
                (#[trigger] boards@[k])@.totals,
            ) by {
                assert(boards@[k]@.totals == Seq::<TotalEntryV>::empty());
            }
            assert forall|k: int| 0 <= k < self.leaderboards@.len() implies (
            #[trigger] view_snaps(self.leaderboards@)[k]).name == boards@[k]@.name by {
                assert(view_snaps(self.leaderboards@)[k] == self.leaderboards@[k]@);
            }
        }
        let aggregator = Aggregator::new(ranker, boards);
        let shared = SharedLeaderboards::new(self.leaderboards);
        let bus = Broadcaster::new(FANOUT_HISTORY_DEPTH);
        let r = LiveServer { aggregator, shared, bus, queue: self.queue, connections: Vec::new() };
        proof {
            assert(r.connections@ =~= Seq::<Option<Subscription>>::empty());
        }
        r
    }
}

/// The running engine: everything the service's tasks decide with.
pub struct LiveServer<R: RankingFunction> {
    pub aggregator: Aggregator<R>,
    pub shared: SharedLeaderboards,
    pub bus: Broadcaster,
    pub queue: IngestQueue,
    pub connections: Vec<Option<Subscription>>,
}

impl<R: RankingFunction> LiveServer<R> {
    /// Everything the engine's operations preserve.
    pub open spec fn wf(&self) -> bool {
        &&& self.aggregator.wf()
        &&& self.aggregator.names_match(&self.shared)
        &&& self.bus.wf()
        &&& self.queue.wf()
    }

    /// Submit one score delta event from a producer. Queued exactly
    /// when there is room; handed back as backpressure otherwise, never
    /// dropped.
    pub fn submit_event(&mut self, event: IngestedPerformance) -> (r: Result<(), QueueFull>)
        requires
            old(self).wf(),
        ensures
            final(self).wf(),
            final(self).aggregator == old(self).aggregator,
            final(self).shared == old(self).shared,
            final(self).bus == old(self).bus,
            final(self).connections == old(self).connections,
            final(self).queue.spec_capacity() == old(self).queue.spec_capacity(),
            r is Ok <==> old(self).queue.queued().len() < old(self).queue.spec_capacity(),
            r is Ok ==> final(self).queue.queued() == old(self).queue.queued().push(event@),
            r matches Err(q) ==> final(self).queue.queued() == old(self).queue.queued() && q.event@
                == event@,
    {
        self.queue.submit(event)
    }

    /// Close one batching window: drain everything queued, squash it,
    /// apply the batch to the totals and snapshots of every touched
    /// leaderboard, and publish the serialized change set to every
    /// subscriber. A window with no events changes nothing and
    /// publishes nothing. Failure means a score left the representable
    /// range: a fatal defect, escalated to whole-service shutdown; the
    /// totals, the snapshots and the fan-out stream are left untouched
    /// by it.
    pub fn flush_window(&mut self) -> (r: Result<(), ScoreOverflow>)
        requires
            old(self).wf(),
            old(self).bus.next_seq() < usize::MAX as int,
        ensures
            final(self).wf(),
            final(self).connections == old(self).connections,
            final(self).queue.queued() == Seq::<EventV>::empty(),
            final(self).queue.spec_capacity() == old(self).queue.spec_capacity(),
            final(self).aggregator.ranker == old(self).aggregator.ranker,
            r is Ok <==> {
                let ev = old(self).queue.queued();
                &&& squash_sums_in_range(ev)
                &&& forall|j: int|
                    0 <= j < old(self).aggregator.boards@.len() && board_touched(
                        crate::aggregate::view_agg_boards(old(self).aggregator.boards@),
                        spec_squash(ev),
                        j,
                    ) ==> board_deltas_ok(
                        crate::aggregate::view_agg_boards(old(self).aggregator.boards@),
                        spec_squash(ev),
                        j,
                    )
            },
            old(self).queue.queued().len() == 0 ==> r is Ok && final(self).aggregator == old(self).aggregator && final(self).shared == old(self).shared && final(self).bus == old(self).bus,
            r is Ok && old(self).queue.queued().len() > 0 ==> {
                let ev = old(self).queue.queued();
                let ob = crate::aggregate::view_agg_boards(old(self).aggregator.boards@);
                let os = old(self).shared@;
                let batch = spec_squash(ev);
                &&& final(self).aggregator.boards@.len() == ob.len()
                &&& final(self).shared@.len() == os.len()
                &&& (forall|j: int|
                    0 <= j < ob.len() && board_touched(ob, batch, j) ==> (#[trigger] final(self).aggregator.boards@[j])@.totals == new_board_totals(ob, batch, j))
                &&& (forall|j: int|
                    0 <= j < ob.len() && board_touched(ob, batch, j) ==> (#[trigger] final(self).shared@[j]).entries == old(self).aggregator.ranker.spec_rank(
                        new_board_totals(ob, batch, j),
                    ))
                &&& (forall|j: int|
                    0 <= j < ob.len() && !board_touched(ob, batch, j) ==> (#[trigger] final(self).aggregator.boards@[j])@.totals == ob[j].totals && final(self).shared@[j].entries
                        == os[j].entries)
                &&& final(self).bus.next_seq() == old(self).bus.next_seq() + 1
                &&& final(self).bus@.history.len() > 0
                &&& final(self).bus@.history.last() == crate::wire::json_changes(
                    changes_upto(old(self).aggregator.ranker, ob, os, batch, ob.len() as int),
                )
            },
            r is Err ==> final(self).aggregator == old(self).aggregator && final(self).shared
                == old(self).shared && final(self).bus == old(self).bus,
    {
        let drained = self.queue.drain();
        let ghost ev = old(self).queue.queued();
        if drained.len() == 0 {
            proof {
                assert(ev.len() == 0);
            }
            return Ok(());
        }
        let batch = match squash_batch(drained) {
            Ok(b) => b,
            Err(e) => {
                return Err(e);
            },
        };
        proof {
            lemma_batch_matches_squash(ev, batch@);
        }
        let changes = match self.aggregator.apply_batch(&batch, &mut self.shared) {
            Ok(c) => c,
            Err(e) => {
                return Err(e);
            },
        };
        let msg = crate::wire::encode_changes(&changes);
        proof {
            assert(msg@ == crate::wire::json_changes(
                changes_upto(
                    old(self).aggregator.ranker,
                    crate::aggregate::view_agg_boards(old(self).aggregator.boards@),
                    old(self).shared@,
                    spec_squash(ev),
                    old(self).aggregator.boards@.len() as int,
                ),
            ));
        }
        self.bus.publish(msg);
        proof {
            assert(self.bus@.history.last() == msg@);
        }
        Ok(())
    }

    /// Accept one new client: the atomic read of the complete state
    /// and the subscription to the fan-out stream, as a single step.
    /// The copy handed back reflects every batch applied so far and the
    /// subscription starts exactly after the last published message, so
    /// no change is missed and none is delivered twice. The caller
    /// holds the shared-state read lock across this whole call.
    pub fn connect(&mut self) -> (r: (Vec<NamedSnapshot>, usize))
        requires
            old(self).wf(),
            old(self).connections@.len() < usize::MAX as int,
        ensures
            final(self).wf(),
            final(self).aggregator == old(self).aggregator,
            final(self).shared == old(self).shared,
            final(self).bus == old(self).bus,
            final(self).queue == old(self).queue,
            view_snaps(r.0@) == old(self).shared@,
            r.1 as int == old(self).connections@.len(),
            final(self).connections@.len() == old(self).connections@.len() + 1,
            forall|k: int|
                0 <= k < old(self).connections@.len() ==> final(self).connections@[k] == old(self).connections@[k],
            final(self).connections@.last() matches Some(s) && s.cursor as int == old(self).bus.next_seq(),
    {
        let snapshot = self.shared.read_all();
        let sub = self.bus.subscribe();
        let index = self.connections.len();
        self.connections.push(Some(sub));
        (snapshot, index)
    }

    /// One receive attempt for connection `i`: the next fan-out
    /// message in publish order, the verdict that this connection is
    /// desynchronized, or nothing new. Only connection `i`'s own
    /// position moves; no other connection and no shared piece is
    /// touched.
    pub fn receive(&mut self, i: usize) -> (r: RecvOutcome)
        requires
            old(self).wf(),
            i < old(self).connections@.len(),
            old(self).connections@[i as int] is Some,
        ensures
            final(self).wf(),
            final(self).aggregator == old(self).aggregator,
            final(self).shared == old(self).shared,
            final(self).bus == old(self).bus,
            final(self).queue == old(self).queue,
            final(self).connections@.len() == old(self).connections@.len(),
            forall|k: int|
                0 <= k < old(self).connections@.len() && k != i as int ==> final(self).connections@[k] == old(self).connections@[k],
            old(self).connections@[i as int] matches Some(s) ==> {
                &&& final(self).connections@[i as int] matches Some(s2) && (
                r.spec_message(),
                s2.cursor as int,
                ) == Broadcaster::spec_recv(old(self).bus@, s.cursor as int)
            },
    {
        let slot = &mut self.connections[i];
        match slot {
            Some(sub) => self.bus.try_recv(sub),
            None => RecvOutcome::Empty,
        }
    }

    /// Terminate one connection: its subscription is dropped. Nothing
    /// else changes: not the fan-out stream, not the shared state, and
    /// not any other connection.
    pub fn close_connection(&mut self, i: usize)
        requires
            old(self).wf(),
            i < old(self).connections@.len(),
        ensures
            final(self).wf(),
            final(self).aggregator == old(self).aggregator,
            final(self).shared == old(self).shared,
            final(self).bus == old(self).bus,
            final(self).queue == old(self).queue,
            final(self).connections@ == old(self).connections@.update(i as int, None),
    {
        let slot = &mut self.connections[i];
        *slot = None;
    }
}

/// Isolation: closing one connection leaves every other connection's
/// subscription exactly as it was, and what a connection receives is a
/// function of the fan-out state and its own position alone; so
/// terminating connection `i` cannot affect what connection `j`
/// receives.
pub proof fn lemma_isolation(
    bus: crate::fanout::BroadcasterV,
    conns: Seq<Option<Subscription>>,
    i: int,
    j: int,
)
    requires
        0 <= i < conns.len(),
        0 <= j < conns.len(),
        i != j,
    ensures
        conns.update(i, None)[j] == conns[j],
        conns[j] matches Some(s) ==> (conns.update(i, None)[j] matches Some(s2) && s2 == s
            && Broadcaster::spec_recv(bus, s2.cursor as int) == Broadcaster::spec_recv(
            bus,
            s.cursor as int,
        )),
{
}

/// The totals one leaderboard holds after a batch: touched boards get
/// their summed deltas, untouched boards keep their totals.
pub open spec fn step_totals(
    totals: Seq<TotalEntryV>,
    batch: Seq<BatchBoardV>,
    name: Seq<char>,
) -> Seq<TotalEntryV> {
    let bidx = index_of_batch_board(batch, name);
    if bidx >= 0 {
        apply_deltas(totals, batch[bidx].entries)
    } else {
        totals
    }
}

/// The snapshot one leaderboard shows after a batch: touched boards
/// are re-ranked from their new totals, untouched boards keep their
/// snapshot.
pub open spec fn step_snap<R: RankingFunction>(
    ranker: R,
    totals: Seq<TotalEntryV>,
    snap: Seq<EntryV>,
    batch: Seq<BatchBoardV>,
    name: Seq<char>,
) -> Seq<EntryV> {
    if index_of_batch_board(batch, name) >= 0 {
        ranker.spec_rank(step_totals(totals, batch, name))
    } else {
        snap
    }
}

/// One leaderboard's totals after the first `i` batches.
pub open spec fn totals_after(
    t0: Seq<TotalEntryV>,
    batches: Seq<Seq<BatchBoardV>>,
    name: Seq<char>,
    i: int,
) -> Seq<TotalEntryV>
    decreases i,
{
    if i <= 0 {
        t0
    } else {
        step_totals(totals_after(t0, batches, name, i - 1), batches[i - 1], name)
    }
}

/// One leaderboard's snapshot after the first `i` batches.
pub open spec fn snap_after<R: RankingFunction>(
    ranker: R,
    t0: Seq<TotalEntryV>,
    s0: Seq<EntryV>,
    batches: Seq<Seq<BatchBoardV>>,
    name: Seq<char>,
    i: int,
) -> Seq<EntryV>
    decreases i,
{
    if i <= 0 {
        s0
    } else {
        step_snap(
            ranker,
            totals_after(t0, batches, name, i - 1),
            snap_after(ranker, t0, s0, batches, name, i - 1),
            batches[i - 1],
            name,
        )
    }
}

/// What a client that connected before batch 1 reconstructs after
/// processing `i` change messages: the initial snapshot it was sent,
/// with each received change set applied in order. Batches that did not
/// touch the leaderboard carry no entry for it and apply nothing.
pub open spec fn client_after<R: RankingFunction>(
    ranker: R,
    t0: Seq<TotalEntryV>,
    s0: Seq<EntryV>,
    batches: Seq<Seq<BatchBoardV>>,
    name: Seq<char>,
    i: int,
) -> Seq<EntryV>
    decreases i,
{
    if i <= 0 {
        s0
    } else {
        let prev = client_after(ranker, t0, s0, batches, name, i - 1);
        if index_of_batch_board(batches[i - 1], name) >= 0 {
            apply_seq(
                prev,
                diff_spec(
                    snap_after(ranker, t0, s0, batches, name, i - 1),
                    snap_after(ranker, t0, s0, batches, name, i),
                ),
            )
        } else {
            prev
        }
    }
}

/// Aggregation monotonicity across batches: when every delta of every
/// applied batch is non-negative, no author's running total ever
/// decreases from one batch to the next.
pub proof fn lemma_monotonicity_across_batches(
    t0: Seq<TotalEntryV>,
    batches: Seq<Seq<BatchBoardV>>,
    name: Seq<char>,
    author: crate::types::AuthorKey,
    i: int,
)
    requires
        forall|b: int, j: int, k: int|
            0 <= b < batches.len() && 0 <= j < batches[b].len() && 0 <= k
                < batches[b][j].entries.len() ==> (#[trigger] batches[b][j].entries[k]).points
                >= 0,
        0 <= i < batches.len(),
    ensures
        total_of(totals_after(t0, batches, name, i + 1), author) >= total_of(
            totals_after(t0, batches, name, i),
            author,
        ),
{
    let tprev = totals_after(t0, batches, name, i);
    let bidx = index_of_batch_board(batches[i], name);
    if bidx >= 0 {
        lemma_index_of_batch_board(batches[i], name);
        assert forall|k: int|
            0 <= k < batches[i][bidx].entries.len() implies (#[trigger] batches[i][bidx].entries[k]).points
            >= 0 by {
            assert(batches[i][bidx].entries[k].points >= 0);
        }
        lemma_aggregation_monotone(tprev, batches[i][bidx].entries, author);
    }
}

/// No miss and no duplicate on connect: a client that takes the atomic
/// state copy and then applies every subsequently emitted change set,
/// in order, holds exactly the server's snapshot after any number of
/// batches — no batch effect is applied twice and none is skipped.
/// The snapshot handed out at connect time must be no longer than the
/// totals backing it (true from the first ranking on, and at startup
/// with the usual empty initial snapshots): a longer seed snapshot
/// would shrink at its first ranking, which the change format cannot
/// express.
pub proof fn lemma_no_miss_no_duplicate<R: RankingFunction>(
    ranker: R,
    t0: Seq<TotalEntryV>,
    s0: Seq<EntryV>,
    batches: Seq<Seq<BatchBoardV>>,
    name: Seq<char>,
    i: int,
)
    requires
        totals_wf(t0),
        s0.len() <= t0.len(),
        0 <= i <= batches.len(),
    ensures
        client_after(ranker, t0, s0, batches, name, i) == snap_after(
            ranker,
            t0,
            s0,
            batches,
            name,
            i,
        ),
        totals_wf(totals_after(t0, batches, name, i)),
        totals_after(t0, batches, name, i).len() >= t0.len(),
        snap_after(ranker, t0, s0, batches, name, i).len() <= totals_after(
            t0,
            batches,
            name,
            i,
        ).len(),
    decreases i,
{
    if i > 0 {
        lemma_no_miss_no_duplicate(ranker, t0, s0, batches, name, i - 1);
        let tprev = totals_after(t0, batches, name, i - 1);
        let sprev = snap_after(ranker, t0, s0, batches, name, i - 1);
        let bidx = index_of_batch_board(batches[i - 1], name);
        if bidx >= 0 {
            let tnew = step_totals(tprev, batches[i - 1], name);
            lemma_apply_deltas_wf(tprev, batches[i - 1][bidx].entries);
            ranker.rank_len(tnew);
            assert(snap_after(ranker, t0, s0, batches, name, i) == ranker.spec_rank(tnew));
            assert(sprev.len() <= tprev.len() <= tnew.len());
            lemma_diff_roundtrip(sprev, ranker.spec_rank(tnew));
        }
    }
}

} // verus!

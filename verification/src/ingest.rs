//! The ingest queue: the bounded buffer between the many performance
//! producers and the batcher. A full queue backpressures the producer
//! instead of dropping data; the batcher drains everything queued, in
//! arrival order.

use vstd::prelude::*;

use crate::batcher::{view_events, EventV, IngestedPerformance};
use crate::types::{AuthorId, LeaderboardName, PerformancePoints};

verus! {

/// The queue is full: the event comes back to the producer, which must
/// treat this as "try again", never as data loss.
pub struct QueueFull {
    pub event: IngestedPerformance,
}

/// The bounded ingest buffer.
pub struct IngestQueue {
    events: Vec<IngestedPerformance>,
    capacity: usize,
}

impl IngestQueue {
    /// Never more queued events than the bound.
    pub closed spec fn wf(&self) -> bool {
        self.events@.len() <= self.capacity as int
    }

    /// The queued events, oldest first.
    pub closed spec fn queued(&self) -> Seq<EventV> {
        view_events(self.events@)
    }

    /// The fixed bound on the queue.
    pub closed spec fn spec_capacity(&self) -> int {
        self.capacity as int
    }

    /// Create an empty queue holding at most `capacity` events.
    pub fn new(capacity: usize) -> (r: Self)
        ensures
            r.wf(),
            r.queued() == Seq::<EventV>::empty(),
            r.spec_capacity() == capacity as int,
    {
        let r = IngestQueue { events: Vec::new(), capacity };
        proof {
            assert(r.queued() =~= Seq::<EventV>::empty());
        }
        r
    }

    /// How many events wait right now.
    pub fn len(&self) -> (r: usize)
        ensures
            r as int == self.queued().len(),
    {
        self.events.len()
    }

    /// Submit one event. It is queued exactly when there is room; a
    /// full queue hands the event back as backpressure and keeps every
    /// queued event.
    pub fn submit(&mut self, event: IngestedPerformance) -> (r: Result<(), QueueFull>)
        requires
            old(self).wf(),
        ensures
            final(self).wf(),
            final(self).spec_capacity() == old(self).spec_capacity(),
            r is Ok <==> old(self).queued().len() < old(self).spec_capacity(),
            r is Ok ==> final(self).queued() == old(self).queued().push(event@),
            r matches Err(q) ==> final(self).queued() == old(self).queued() && q.event@ == event@,
    {
        if self.events.len() < self.capacity {
            let ghost q0 = self.queued();
            self.events.push(event);
            proof {
                assert(self.queued() =~= q0.push(event@));
            }
            Ok(())
        } else {
            Err(QueueFull { event })
        }
    }

    /// Drain every queued event, in arrival order, leaving the queue
    /// empty: one batching window's worth of input. The batcher itself
    /// never drops an event; it only sums them.
    pub fn drain(&mut self) -> (r: Vec<IngestedPerformance>)
        ensures
            final(self).wf(),
            final(self).spec_capacity() == old(self).spec_capacity(),
            final(self).queued() == Seq::<EventV>::empty(),
            view_events(r@) == old(self).queued(),
    {
        let mut drained: Vec<IngestedPerformance> = Vec::new();
        core::mem::swap(&mut drained, &mut self.events);
        proof {
            assert(self.queued() =~= Seq::<EventV>::empty());
        }
        drained
    }
}

/// The capability handed to one performance processor: it submits each
/// scored performance as a delta event for its own leaderboard. The
/// queue it feeds belongs to the server; the sending side of that
/// channel is what this handle stands for.
pub struct ServerHandleExporter {
    pub leaderboard: LeaderboardName,
}

impl ServerHandleExporter {
    /// Tag one scored performance with this exporter's leaderboard.
    pub fn make_event(&self, author_id: AuthorId, performance: PerformancePoints) -> (r:
        IngestedPerformance)
        ensures
            r@.name == self.leaderboard@,
            r@.author == author_id@,
            r@.points == performance@,
    {
        IngestedPerformance {
            leaderboard_name: self.leaderboard.clone(),
            author_id,
            performance,
        }
    }

    /// Submit one scored performance for this exporter's leaderboard:
    /// the event is queued exactly when there is room, and handed back
    /// as backpressure otherwise.
    pub fn export(&self, queue: &mut IngestQueue, author_id: AuthorId, performance:
        PerformancePoints) -> (r: Result<(), QueueFull>)
        requires
            old(queue).wf(),
        ensures
            final(queue).wf(),
            final(queue).spec_capacity() == old(queue).spec_capacity(),
            r is Ok <==> old(queue).queued().len() < old(queue).spec_capacity(),
            r is Ok ==> final(queue).queued() == old(queue).queued().push(
                EventV { name: self.leaderboard@, author: author_id@, points: performance@ },
            ),
            r is Err ==> final(queue).queued() == old(queue).queued(),
    {
        let event = self.make_event(author_id, performance);
        queue.submit(event)
    }
}

} // verus!

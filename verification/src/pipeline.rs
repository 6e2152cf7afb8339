//! The extract-transform composition around the engine: sources hand
//! out messages, filters drop some, a scoring system turns each kept
//! message into a performance, and an exporter submits it. These hooks
//! carry no invariants of their own; the engine behind the exporter is
//! where the guarantees live. The driving loop, which waits on sources,
//! belongs to the surrounding service; the per-message decision stands
//! here.

use vstd::prelude::*;

use crate::types::{AuthorId, PerformancePoints, TwitchId};

verus! {

/// Something that produces the next raw message, or nothing once it is
/// exhausted.
pub trait Source {
    type Message;

    fn next_message(&mut self) -> Option<Self::Message>;
}

/// A predicate deciding which messages take part in scoring.
pub trait Filter {
    type Message;

    fn keep(&self, message: &Self::Message) -> bool;
}

/// Turns one kept message into the performance it is worth.
pub trait ScoringSystem {
    type Message;

    type Performance;

    fn score_message(&self, message: Self::Message) -> Self::Performance;
}

/// Consumes each kept message.
pub trait PerformanceProcessor {
    type Message;

    fn process_message(&mut self, message: Self::Message);
}

/// Hands one scored performance onward, keyed by its author.
pub trait Exporter {
    type Performance;

    type AuthorId;

    fn export(&mut self, author_id: Self::AuthorId, performance: Self::Performance);
}

/// A message that knows which author produced it.
pub trait AuthoredMesasge {
    type Id;

    fn author_id(&self) -> Self::Id;
}

/// One raw chat message from the platform source.
pub struct TwitchMessage {
    pub message: String,
    pub author_id: String,
}

/// Every message the pipeline can carry, tagged by platform.
pub enum Message {
    Twitch(TwitchMessage),
}

impl AuthoredMesasge for Message {
    type Id = AuthorId;

    fn author_id(&self) -> AuthorId {
        match self {
            Message::Twitch(message) => AuthorId::Twitch(TwitchId::new(message.author_id.clone())),
        }
    }
}

/// Scoring that values every message alike: one point per kept
/// message, whoever sent it.
pub struct MessageCountScoring {}

impl MessageCountScoring {
    pub fn new() -> (r: Self) {
        MessageCountScoring {  }
    }
}

impl ScoringSystem for MessageCountScoring {
    type Message = Message;

    type Performance = PerformancePoints;

    fn score_message(&self, message: Message) -> PerformancePoints {
        PerformancePoints::new(1)
    }
}

/// The standard per-message path: look up the author, score the
/// message, export the scored performance.
pub struct StandardLeaderboard<Scoring, Export> {
    pub scoring_system: Scoring,
    pub exporter: Export,
}

impl<Scoring, Export> StandardLeaderboard<Scoring, Export> {
    pub fn new(scoring_system: Scoring, exporter: Export) -> (r: Self) {
        StandardLeaderboard { scoring_system, exporter }
    }
}

impl<Scoring, Export, M, Id, Performance> PerformanceProcessor for StandardLeaderboard<
    Scoring,
    Export,
> where
    M: AuthoredMesasge<Id = Id>,
    Scoring: ScoringSystem<Message = M, Performance = Performance>,
    Export: Exporter<AuthorId = Id, Performance = Performance>,
 {
    type Message = M;

    fn process_message(&mut self, message: M) {
        let message_author_id = message.author_id();
        let score = self.scoring_system.score_message(message);
        self.exporter.export(message_author_id, score);
    }
}

/// An exporter that discards what it is given; useful while composing.
pub struct DummyExporter {}

impl DummyExporter {
    pub fn new() -> (r: Self) {
        DummyExporter {  }
    }
}

impl Exporter for DummyExporter {
    type Performance = PerformancePoints;

    type AuthorId = AuthorId;

    fn export(&mut self, author_id: AuthorId, performance: PerformancePoints) {
    }
}

/// Two exporters fed in sequence with the same performance.
pub struct MultiExporter<Head, Tail> {
    pub head: Head,
    pub tail: Tail,
}

impl<Head, Tail> MultiExporter<Head, Tail> {
    pub fn pair(head: Head, tail: Tail) -> (r: Self) {
        MultiExporter { head, tail }
    }

    pub fn append<T>(self, value: T) -> (r: MultiExporter<T, MultiExporter<Head, Tail>>) {
        MultiExporter::pair(value, self)
    }
}

impl<Head, Tail, Performance, Id> Exporter for MultiExporter<Head, Tail> where
    Performance: Clone,
    Id: Clone,
    Head: Exporter<Performance = Performance, AuthorId = Id>,
    Tail: Exporter<Performance = Performance, AuthorId = Id>,
 {
    type Performance = Performance;

    type AuthorId = Id;

    fn export(&mut self, author_id: Id, performance: Performance) {
        self.head.export(author_id.clone(), performance.clone());
        self.tail.export(author_id, performance);
    }
}

/// A message with its performance attached.
pub struct PerformanceAttached<M, P> {
    pub message: M,
    pub performance: P,
}

/// Consumes attached performances to maintain one ranking.
pub trait Leaderboard {
    type Message;

    type Performance;

    fn update(&mut self, performance: &PerformanceAttached<Self::Message, Self::Performance>);
}

/// Attaches a performance to a message.
pub trait PerformanceAttacher {
    type Message;

    type Performance;

    fn attach_performance(&self, message: Self::Message) -> PerformanceAttached<
        Self::Message,
        Self::Performance,
    >;
}

/// A leaderboard that ignores everything it is fed.
pub struct NullLeaderboard<M, P> {
    _phantom: core::marker::PhantomData<(M, P)>,
}

impl<M, P> NullLeaderboard<M, P> {
    pub fn new() -> (r: Self) {
        NullLeaderboard { _phantom: core::marker::PhantomData }
    }
}

impl<M, P> Leaderboard for NullLeaderboard<M, P> {
    type Message = M;

    type Performance = P;

    fn update(&mut self, performance: &PerformanceAttached<M, P>) {
    }
}

/// An attacher that attaches no performance at all.
pub struct NullPerformanceAttacher<M> {
    _phantom: core::marker::PhantomData<M>,
}

impl<M> NullPerformanceAttacher<M> {
    pub fn new() -> (r: Self) {
        NullPerformanceAttacher { _phantom: core::marker::PhantomData }
    }
}

impl<M> PerformanceAttacher for NullPerformanceAttacher<M> {
    type Message = M;

    type Performance = ();

    fn attach_performance(&self, message: M) -> PerformanceAttached<M, ()> {
        PerformanceAttached { message, performance: () }
    }
}

/// Composes a pipeline from its three stages.
pub struct PipelineBuilder<S, F, P> {
    pub source: Option<S>,
    pub filter: Option<F>,
    pub performances: Option<P>,
}

impl<S, F, P> PipelineBuilder<S, F, P> {
    pub fn new() -> (r: Self)
        ensures
            r.source is None,
            r.filter is None,
            r.performances is None,
    {
        PipelineBuilder { source: None, filter: None, performances: None }
    }

    pub fn source(self, source: S) -> (r: Self)
        ensures
            r.source is Some,
            r.filter == self.filter,
            r.performances == self.performances,
    {
        PipelineBuilder { source: Some(source), filter: self.filter, performances: self.performances }
    }

    pub fn filter(self, filter: F) -> (r: Self)
        ensures
            r.filter is Some,
            r.source == self.source,
            r.performances == self.performances,
    {
        PipelineBuilder { source: self.source, filter: Some(filter), performances: self.performances }
    }

    pub fn performances(self, performances: P) -> (r: Self)
        ensures
            r.performances is Some,
            r.source == self.source,
            r.filter == self.filter,
    {
        PipelineBuilder { source: self.source, filter: self.filter, performances: Some(performances) }
    }

    /// Assemble the pipeline. Every stage must have been supplied.
    pub fn build<M>(self) -> (r: Pipeline<S, F, P>) where
        S: Source<Message = M>,
        F: Filter<Message = M>,
        P: PerformanceProcessor<Message = M>,

        requires
            self.source is Some,
            self.filter is Some,
            self.performances is Some,
    {
        let source = match self.source {
            Some(s) => s,
            None => unreached(),
        };
        let filter = match self.filter {
            Some(f) => f,
            None => unreached(),
        };
        let performances = match self.performances {
            Some(p) => p,
            None => unreached(),
        };
        Pipeline::new(source, filter, performances)
    }
}

impl<S, F, P> Default for PipelineBuilder<S, F, P> {
    fn default() -> (r: Self)
        ensures
            r.source is None,
            r.filter is None,
            r.performances is None,
    {
        PipelineBuilder::new()
    }
}

/// The assembled extract-transform pipeline. The surrounding service
/// drives it: it repeatedly awaits the source's next message and hands
/// each one to `step` until the source ends.
pub struct Pipeline<S, F, P> {
    pub source: S,
    pub filter: F,
    pub performances: P,
}

impl<S, F, P, M> Pipeline<S, F, P> where
    S: Source<Message = M>,
    F: Filter<Message = M>,
    P: PerformanceProcessor<Message = M>,
 {
    pub fn builder() -> (r: PipelineBuilder<S, F, P>)
        ensures
            r.source is None,
            r.filter is None,
            r.performances is None,
    {
        PipelineBuilder::new()
    }

    pub fn new(source: S, filter: F, performances: P) -> (r: Self) {
        Pipeline { source, filter, performances }
    }

    /// Handle one message from the source: messages the filter rejects
    /// are dropped, every other one is scored and processed.
    pub fn step(&mut self, message: M) {
        if self.filter.keep(&message) {
            self.performances.process_message(message);
        }
    }
}

} // verus!

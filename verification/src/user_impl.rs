//! Concrete pipeline pieces composed at startup: the filters,
//! leaderboard markers and attachers the service wires together. They
//! carry configuration, not invariants: the verified engine behind the
//! exporters is where the guarantees live.

use vstd::prelude::*;

use crate::pipeline::{Filter, PerformanceAttached, PerformanceAttacher, Source};

verus! {

/// A message from whichever platform produced it.
pub enum SharedMessage {
    Twitch(()),
    Discord(()),
}

/// Keeps every message whose author has not opted out of being scored.
/// With no opt-out list configured, everything is kept.
pub struct OptoutFilter;

impl OptoutFilter {
    pub fn new() -> (r: Self) {
        OptoutFilter {  }
    }
}

impl Filter for OptoutFilter {
    type Message = SharedMessage;

    fn keep(&self, message: &SharedMessage) -> bool {
        true
    }
}

/// Something whose current state can be exported under a stable name.
pub trait Exportable {
    type State;

    fn name(&self) -> String;

    fn get_state(&self) -> &Self::State;

    fn get_state_mut(&mut self) -> &mut Self::State;
}

/// The ranking fed only by bit donations.
pub struct BitsOnly {
    state: (),
}

impl BitsOnly {
    pub fn new() -> (r: Self) {
        BitsOnly { state: () }
    }
}

impl Exportable for BitsOnly {
    type State = ();

    fn name(&self) -> String {
        String::from_str("bits_only")
    }

    fn get_state(&self) -> &() {
        &self.state
    }

    fn get_state_mut(&mut self) -> &mut () {
        &mut self.state
    }
}

/// The ranking fed by every scored message.
pub struct Overall {
    state: (),
}

impl Overall {
    pub fn new() -> (r: Self) {
        Overall { state: () }
    }
}

impl Exportable for Overall {
    type State = ();

    fn name(&self) -> String {
        String::from_str("overall")
    }

    fn get_state(&self) -> &() {
        &self.state
    }

    fn get_state_mut(&mut self) -> &mut () {
        &mut self.state
    }
}

/// Platform metadata attached to a message before scoring.
pub struct Metadata;

/// A message with its metadata attached.
pub struct MetadataAttached<M, D> {
    pub message: M,
    pub metadata: D,
}

/// Attaches metadata to each message.
pub trait MetadataAttacher {
    type Message;

    type Metadata;

    fn attach_metadata(&self, message: Self::Message) -> MetadataAttached<
        Self::Message,
        Self::Metadata,
    >;
}

/// Attaches the (empty) platform metadata.
pub struct MetadataProcessor;

impl MetadataProcessor {
    pub fn new() -> (r: Self) {
        MetadataProcessor {  }
    }
}

impl MetadataAttacher for MetadataProcessor {
    type Message = SharedMessage;

    type Metadata = Metadata;

    fn attach_metadata(&self, message: SharedMessage) -> MetadataAttached<SharedMessage, Metadata> {
        MetadataAttached { message, metadata: Metadata {  } }
    }
}

/// Derived metrics attached after metadata.
pub struct Metrics;

/// A message with metadata and metrics attached.
pub struct MetricsAttached<M, D, T> {
    pub message: M,
    pub metadata: D,
    pub metrics: T,
}

/// Attaches metrics to each message-with-metadata.
pub trait MetricsAttacher {
    type Message;

    type Metadata;

    type Metrics;

    fn attach_metrics(
        &self,
        message: MetadataAttached<Self::Message, Self::Metadata>,
    ) -> MetricsAttached<Self::Message, Self::Metadata, Self::Metrics>;
}

/// Attaches the (empty) metrics.
pub struct MetricsProcessor;

impl MetricsProcessor {
    pub fn new() -> (r: Self) {
        MetricsProcessor {  }
    }
}

impl MetricsAttacher for MetricsProcessor {
    type Message = SharedMessage;

    type Metadata = Metadata;

    type Metrics = Metrics;

    fn attach_metrics(&self, message: MetadataAttached<SharedMessage, Metadata>) -> MetricsAttached<
        SharedMessage,
        Metadata,
        Metrics,
    > {
        MetricsAttached { message: message.message, metadata: message.metadata, metrics: Metrics {  } }
    }
}

/// A placeholder performance value for compositions that score
/// nothing yet.
pub struct Performance;

/// Attaches the (empty) performance value.
pub struct PerformanceProcessor;

impl PerformanceProcessor {
    pub fn new() -> (r: Self) {
        PerformanceProcessor {  }
    }
}

impl PerformanceAttacher for PerformanceProcessor {
    type Message = SharedMessage;

    type Performance = Performance;

    fn attach_performance(&self, message: SharedMessage) -> PerformanceAttached<
        SharedMessage,
        Performance,
    > {
        PerformanceAttached { message, performance: Performance {  } }
    }
}

/// A chat source placeholder: without a connection it has nothing to
/// hand out.
pub struct TwitchMessageSource {}

impl TwitchMessageSource {
    pub fn new() -> (r: Self) {
        TwitchMessageSource {  }
    }
}

impl Source for TwitchMessageSource {
    type Message = SharedMessage;

    fn next_message(&mut self) -> Option<SharedMessage> {
        None
    }
}

/// The other platform's source placeholder.
pub struct DiscordMessageSource {}

impl DiscordMessageSource {
    pub fn new() -> (r: Self) {
        DiscordMessageSource {  }
    }
}

impl Source for DiscordMessageSource {
    type Message = SharedMessage;

    fn next_message(&mut self) -> Option<SharedMessage> {
        None
    }
}

} // verus!

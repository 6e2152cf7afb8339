use live_elo::aggregate::{Aggregator, AggregatorBoard};
use live_elo::batcher::{squash_batch, IngestedPerformance};
use live_elo::conn::{
    conn_step, on_accepted, on_close_done, on_initial_sent, ConnectionAction, ConnectionEvent,
    ConnectionState,
};
use live_elo::diff::{apply_changes, diff_board};
use live_elo::fanout::{Broadcaster, RecvOutcome};
use live_elo::ingest::IngestQueue;
use live_elo::pipeline::{
    Exporter, MessageCountScoring, Message, Pipeline, PipelineBuilder, ScoringSystem, Source,
    StandardLeaderboard, TwitchMessage,
};
use live_elo::ranking::{DescendingByTotal, RankingFunction, TotalEntry};
use live_elo::state::{NamedSnapshot, SharedLeaderboards};
use live_elo::types::{
    AuthorId, Elo, LeaderboardEloEntry, LeaderboardName, PerformancePoints, TwitchId, SCORE_LIMIT,
};
use live_elo::user_impl::{
    BitsOnly, DiscordMessageSource, Exportable, MetricsProcessor, OptoutFilter, Overall,
    SharedMessage, TwitchMessageSource,
};
use live_elo::pipeline::{AuthoredMesasge, Filter};

fn author(name: &str) -> AuthorId {
    AuthorId::Twitch(TwitchId::new(name.to_string()))
}

fn event(board: &str, who: &str, points: i64) -> IngestedPerformance {
    IngestedPerformance {
        leaderboard_name: LeaderboardName::new(board.to_string()),
        author_id: author(who),
        performance: PerformancePoints::new(points),
    }
}

fn entry(who: &str, elo: i64) -> LeaderboardEloEntry {
    LeaderboardEloEntry::new(author(who), Elo::new(elo))
}

#[test]
fn squash_sums_deltas_for_one_key() {
    let events = vec![
        event("wins", "a", 3),
        event("wins", "a", 1),
        event("wins", "a", -2),
    ];
    let batch = squash_batch(events).unwrap_or_else(|_| panic!("squash failed"));
    assert_eq!(batch.boards.len(), 1);
    assert!(batch.boards[0].name == LeaderboardName::new("wins".to_string()));
    assert_eq!(batch.boards[0].entries.len(), 1);
    assert!(batch.boards[0].entries[0].author_id == author("a"));
    assert_eq!(batch.boards[0].entries[0].points.get(), 2);
}

#[test]
fn squash_is_order_independent() {
    let one = vec![
        event("wins", "a", 3),
        event("wins", "b", 1),
        event("wins", "a", 4),
    ];
    let other = vec![
        event("wins", "a", 4),
        event("wins", "a", 3),
        event("wins", "b", 1),
    ];
    let b1 = squash_batch(one).unwrap_or_else(|_| panic!("squash failed"));
    let b2 = squash_batch(other).unwrap_or_else(|_| panic!("squash failed"));
    for batch in [&b1, &b2] {
        let board = &batch.boards[0];
        for e in &board.entries {
            if e.author_id == author("a") {
                assert_eq!(e.points.get(), 7);
            } else {
                assert!(e.author_id == author("b"));
                assert_eq!(e.points.get(), 1);
            }
        }
        assert_eq!(board.entries.len(), 2);
    }
}

#[test]
fn squash_groups_by_board_in_first_occurrence_order() {
    let events = vec![
        event("wins", "a", 1),
        event("bits", "a", 2),
        event("wins", "b", 5),
    ];
    let batch = squash_batch(events).unwrap_or_else(|_| panic!("squash failed"));
    assert_eq!(batch.boards.len(), 2);
    assert!(batch.boards[0].name == LeaderboardName::new("wins".to_string()));
    assert!(batch.boards[1].name == LeaderboardName::new("bits".to_string()));
    assert_eq!(batch.boards[0].entries.len(), 2);
    assert!(batch.boards[0].entries[0].author_id == author("a"));
    assert!(batch.boards[0].entries[1].author_id == author("b"));
    assert_eq!(batch.boards[1].entries.len(), 1);
}

#[test]
fn squash_empty_window_gives_empty_batch() {
    let batch = squash_batch(Vec::new()).unwrap_or_else(|_| panic!("squash failed"));
    assert_eq!(batch.boards.len(), 0);
}

#[test]
fn squash_reports_score_overflow() {
    let events = vec![
        event("wins", "a", SCORE_LIMIT),
        event("wins", "a", SCORE_LIMIT),
    ];
    assert!(squash_batch(events).is_err());
}

#[test]
fn ranking_orders_descending_and_keeps_tie_order() {
    let totals = vec![
        TotalEntry { author_id: author("a"), points: PerformancePoints::new(3) },
        TotalEntry { author_id: author("b"), points: PerformancePoints::new(3) },
        TotalEntry { author_id: author("c"), points: PerformancePoints::new(5) },
    ];
    let ranked = DescendingByTotal::new().rank(&totals);
    assert_eq!(ranked.len(), 3);
    assert!(ranked[0] == entry("c", 5));
    assert!(ranked[1] == entry("a", 3));
    assert!(ranked[2] == entry("b", 3));
}

#[test]
fn diff_applies_back_to_after_on_equal_length() {
    let before = vec![entry("a", 3), entry("b", 1)];
    let after = vec![entry("b", 6), entry("a", 3)];
    let changes = diff_board(&before, &after);
    assert_eq!(changes.len(), 2);
    assert_eq!(changes[0].position, 0);
    assert!(changes[0].entry == entry("b", 6));
    assert_eq!(changes[1].position, 1);
    assert!(changes[1].entry == entry("a", 3));
    let rebuilt = apply_changes(&before, &changes);
    assert_eq!(rebuilt.len(), 2);
    assert!(rebuilt[0] == after[0]);
    assert!(rebuilt[1] == after[1]);
}

#[test]
fn diff_carries_no_entry_for_unchanged_positions() {
    let before = vec![entry("a", 3), entry("b", 1), entry("c", 9)];
    let after = vec![entry("a", 3), entry("b", 2), entry("c", 9)];
    let changes = diff_board(&before, &after);
    assert_eq!(changes.len(), 1);
    assert_eq!(changes[0].position, 1);
    assert!(changes[0].entry == entry("b", 2));

    let same = diff_board(&before, &before);
    assert_eq!(same.len(), 0);
}

#[test]
fn diff_counts_grown_positions_as_changed() {
    let before = vec![entry("a", 3)];
    let after = vec![entry("a", 3), entry("b", 1)];
    let changes = diff_board(&before, &after);
    assert_eq!(changes.len(), 1);
    assert_eq!(changes[0].position, 1);
    let rebuilt = apply_changes(&before, &changes);
    assert_eq!(rebuilt.len(), 2);
    assert!(rebuilt[1] == entry("b", 1));
}

#[test]
fn aggregator_emits_expected_change_sets() {
    let mut shared = SharedLeaderboards::new(vec![NamedSnapshot {
        name: LeaderboardName::new("wins".to_string()),
        entries: Vec::new(),
    }]);
    let mut aggregator = Aggregator::new(
        DescendingByTotal::new(),
        vec![AggregatorBoard { name: LeaderboardName::new("wins".to_string()), totals: Vec::new() }],
    );

    let batch1 = squash_batch(vec![event("wins", "a", 3), event("wins", "b", 1)])
        .unwrap_or_else(|_| panic!("squash failed"));
    let changes1 = match aggregator.apply_batch(&batch1, &mut shared) {
        Ok(c) => c,
        Err(_) => panic!("apply failed"),
    };
    assert!(shared.boards[0].entries[0] == entry("a", 3));
    assert!(shared.boards[0].entries[1] == entry("b", 1));
    let boards1 = changes1.get();
    assert_eq!(boards1.len(), 1);
    assert_eq!(boards1[0].changes.len(), 2);
    assert_eq!(boards1[0].changes[0].position, 0);
    assert!(boards1[0].changes[0].entry == entry("a", 3));
    assert_eq!(boards1[0].changes[1].position, 1);
    assert!(boards1[0].changes[1].entry == entry("b", 1));

    let batch2 = squash_batch(vec![event("wins", "b", 5)])
        .unwrap_or_else(|_| panic!("squash failed"));
    let changes2 = match aggregator.apply_batch(&batch2, &mut shared) {
        Ok(c) => c,
        Err(_) => panic!("apply failed"),
    };
    assert!(shared.boards[0].entries[0] == entry("b", 6));
    assert!(shared.boards[0].entries[1] == entry("a", 3));
    let boards2 = changes2.get();
    assert_eq!(boards2.len(), 1);
    assert_eq!(boards2[0].changes.len(), 2);
    assert_eq!(boards2[0].changes[0].position, 0);
    assert!(boards2[0].changes[0].entry == entry("b", 6));
    assert_eq!(boards2[0].changes[1].position, 1);
    assert!(boards2[0].changes[1].entry == entry("a", 3));
}

#[test]
fn aggregator_ignores_unregistered_leaderboards() {
    let mut shared = SharedLeaderboards::new(vec![NamedSnapshot {
        name: LeaderboardName::new("wins".to_string()),
        entries: Vec::new(),
    }]);
    let mut aggregator = Aggregator::new(
        DescendingByTotal::new(),
        vec![AggregatorBoard { name: LeaderboardName::new("wins".to_string()), totals: Vec::new() }],
    );
    let batch = squash_batch(vec![event("unknown", "a", 3)])
        .unwrap_or_else(|_| panic!("squash failed"));
    let changes = match aggregator.apply_batch(&batch, &mut shared) {
        Ok(c) => c,
        Err(_) => panic!("apply failed"),
    };
    assert_eq!(changes.get().len(), 0);
    assert_eq!(shared.boards[0].entries.len(), 0);
}

#[test]
fn aggregator_reports_total_overflow_and_changes_nothing() {
    let mut shared = SharedLeaderboards::new(vec![NamedSnapshot {
        name: LeaderboardName::new("wins".to_string()),
        entries: Vec::new(),
    }]);
    let mut aggregator = Aggregator::new(
        DescendingByTotal::new(),
        vec![AggregatorBoard { name: LeaderboardName::new("wins".to_string()), totals: Vec::new() }],
    );
    let batch1 = squash_batch(vec![event("wins", "a", SCORE_LIMIT)])
        .unwrap_or_else(|_| panic!("squash failed"));
    assert!(aggregator.apply_batch(&batch1, &mut shared).is_ok());
    assert!(shared.boards[0].entries[0] == entry("a", SCORE_LIMIT));

    let batch2 = squash_batch(vec![event("wins", "a", 1)])
        .unwrap_or_else(|_| panic!("squash failed"));
    assert!(aggregator.apply_batch(&batch2, &mut shared).is_err());
    assert!(shared.boards[0].entries[0] == entry("a", SCORE_LIMIT));
}

#[test]
fn monotone_totals_under_positive_deltas() {
    let mut shared = SharedLeaderboards::new(vec![NamedSnapshot {
        name: LeaderboardName::new("wins".to_string()),
        entries: Vec::new(),
    }]);
    let mut aggregator = Aggregator::new(
        DescendingByTotal::new(),
        vec![AggregatorBoard { name: LeaderboardName::new("wins".to_string()), totals: Vec::new() }],
    );
    let mut last: i64 = 0;
    for _ in 0..4 {
        let batch = squash_batch(vec![event("wins", "a", 2)])
            .unwrap_or_else(|_| panic!("squash failed"));
        aggregator.apply_batch(&batch, &mut shared).unwrap_or_else(|_| panic!("apply failed"));
        let now = shared.boards[0].entries[0].elo.get();
        assert!(now >= last);
        last = now;
    }
    assert_eq!(last, 8);
}

#[test]
fn ingest_queue_backpressures_when_full() {
    let mut queue = IngestQueue::new(2);
    assert!(queue.submit(event("wins", "a", 1)).is_ok());
    assert!(queue.submit(event("wins", "b", 1)).is_ok());
    let refused = queue.submit(event("wins", "c", 1));
    match refused {
        Ok(_) => panic!("third submission should backpressure"),
        Err(full) => {
            assert!(full.event.author_id == author("c"));
        },
    }
    assert_eq!(queue.len(), 2);
    let drained = queue.drain();
    assert_eq!(drained.len(), 2);
    assert!(drained[0].author_id == author("a"));
    assert!(drained[1].author_id == author("b"));
    assert_eq!(queue.len(), 0);
}

#[test]
fn fanout_disconnects_lagging_subscribers() {
    let mut bus = Broadcaster::new(2);
    let mut sub = bus.subscribe();
    bus.publish(vec![1]);
    bus.publish(vec![2]);
    bus.publish(vec![3]);
    match bus.try_recv(&mut sub) {
        RecvOutcome::Lagged => {},
        _ => panic!("subscriber two messages behind a depth-2 window must be desynchronized"),
    }
}

#[test]
fn fanout_delivers_in_publish_order() {
    let mut bus = Broadcaster::new(4);
    let mut sub = bus.subscribe();
    bus.publish(vec![10]);
    bus.publish(vec![20]);
    match bus.try_recv(&mut sub) {
        RecvOutcome::Message(m) => assert_eq!(m, vec![10]),
        _ => panic!("expected first message"),
    }
    match bus.try_recv(&mut sub) {
        RecvOutcome::Message(m) => assert_eq!(m, vec![20]),
        _ => panic!("expected second message"),
    }
    match bus.try_recv(&mut sub) {
        RecvOutcome::Empty => {},
        _ => panic!("expected an empty channel"),
    }
}

#[test]
fn connection_state_machine_follows_protocol() {
    let state = on_accepted(ConnectionState::Connecting);
    let state = on_initial_sent(state);
    let (state, action) = conn_step(state, ConnectionEvent::FanoutMessage(vec![7]));
    match action {
        ConnectionAction::Forward(m) => assert_eq!(m, vec![7]),
        _ => panic!("a fan-out message must be forwarded"),
    }
    let (state, action) = conn_step(state, ConnectionEvent::ClientPing);
    assert!(matches!(action, ConnectionAction::Ignore));
    let (state, action) = conn_step(state, ConnectionEvent::ClientPayload);
    assert!(matches!(action, ConnectionAction::StartClose));
    assert!(matches!(state, ConnectionState::Closing));
    let state = on_close_done(state);
    assert!(matches!(state, ConnectionState::Closed));
}

#[test]
fn conn_step_terminates_on_error_lag_and_close() {
    for make_event in [
        ConnectionEvent::ClientError,
        ConnectionEvent::ClientClosed,
        ConnectionEvent::FanoutLagged,
        ConnectionEvent::FanoutClosed,
    ] {
        let (state, action) = conn_step(ConnectionState::Streaming, make_event);
        assert!(matches!(state, ConnectionState::Closing));
        assert!(matches!(action, ConnectionAction::StartClose));
    }
}

struct CollectingExporter {
    seen: Vec<(AuthorId, PerformancePoints)>,
}

impl Exporter for CollectingExporter {
    type Performance = PerformancePoints;
    type AuthorId = AuthorId;

    fn export(&mut self, author_id: AuthorId, performance: PerformancePoints) {
        self.seen.push((author_id, performance));
    }
}

struct OneShotSource {
    queue: Vec<Message>,
}

impl Source for OneShotSource {
    type Message = Message;

    fn next_message(&mut self) -> Option<Message> {
        self.queue.pop()
    }
}

struct KeepAll;

impl live_elo::pipeline::Filter for KeepAll {
    type Message = Message;

    fn keep(&self, _message: &Message) -> bool {
        true
    }
}

#[test]
fn message_count_scoring_gives_one_point_per_message() {
    let scoring = MessageCountScoring::new();
    let message = Message::Twitch(TwitchMessage {
        message: "hi".to_string(),
        author_id: "a".to_string(),
    });
    let points = scoring.score_message(message);
    assert_eq!(points.get(), 1);
}

#[test]
fn pipeline_scores_and_exports_kept_messages() {
    let source = OneShotSource { queue: Vec::new() };
    let exporter = CollectingExporter { seen: Vec::new() };
    let mut pipeline = PipelineBuilder::new()
        .source(source)
        .filter(KeepAll)
        .performances(StandardLeaderboard::new(MessageCountScoring::new(), exporter))
        .build();
    pipeline.step(Message::Twitch(TwitchMessage {
        message: "hello".to_string(),
        author_id: "a".to_string(),
    }));
    let seen = &pipeline.performances.exporter.seen;
    assert_eq!(seen.len(), 1);
    assert!(seen[0].0 == author("a"));
    assert_eq!(seen[0].1.get(), 1);
    let _ = Pipeline::<OneShotSource, KeepAll, StandardLeaderboard<MessageCountScoring, CollectingExporter>>::builder();
}

#[test]
fn value_types_round_trip_their_content() {
    let name = LeaderboardName::new("wins".to_string());
    assert_eq!(name.get(), "wins");
    let id = TwitchId::new("someone".to_string());
    assert_eq!(id.get(), "someone");
    let points = PerformancePoints::new(-41);
    assert_eq!(points.get(), -41);
    let elo = Elo::new(17);
    assert_eq!(elo.get(), 17);

    let state_entry = live_elo::types::LeaderboardStateEntry {
        author_id: author("a"),
        elo: Elo::new(5),
        performance_points: PerformancePoints::new(5),
    };
    let slim: LeaderboardEloEntry = state_entry.into();
    assert!(slim == entry("a", 5));
}

#[test]
fn changes_collection_accessors_cover_both_sides() {
    let mut changes = live_elo::diff::LeaderboardsChanges::new();
    assert_eq!(changes.get().len(), 0);
    changes.get_mut().push(live_elo::diff::BoardChanges {
        name: LeaderboardName::new("wins".to_string()),
        changes: Vec::new(),
    });
    assert_eq!(changes.get().len(), 1);
    assert!(changes.get()[0].name == LeaderboardName::new("wins".to_string()));
}

#[test]
fn startup_composition_pieces_behave_trivially() {
    let filter = OptoutFilter::new();
    assert!(filter.keep(&SharedMessage::Discord(())));
    assert_eq!(BitsOnly::new().name(), "bits_only");
    assert_eq!(Overall::new().name(), "overall");
    let _ = MetricsProcessor::new();
    assert!(TwitchMessageSource::new().next_message().is_none());
    assert!(DiscordMessageSource::new().next_message().is_none());
}

#[test]
fn pipeline_builder_default_starts_empty() {
    let builder: PipelineBuilder<OneShotSource, KeepAll, CollectProcessor> = Default::default();
    assert!(builder.source.is_none());
    assert!(builder.filter.is_none());
    assert!(builder.performances.is_none());
}

struct CollectProcessor {
    seen: Vec<AuthorId>,
}

impl live_elo::pipeline::PerformanceProcessor for CollectProcessor {
    type Message = Message;

    fn process_message(&mut self, message: Message) {
        self.seen.push(message.author_id());
    }
}

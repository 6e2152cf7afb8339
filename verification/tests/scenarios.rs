use live_elo::batcher::IngestedPerformance;
use live_elo::diff::apply_changes;
use live_elo::engine::{LiveServer, UnstartedWebsocketServer};
use live_elo::fanout::RecvOutcome;
use live_elo::ranking::DescendingByTotal;
use live_elo::state::NamedSnapshot;
use live_elo::types::{
    AuthorId, Elo, LeaderboardEloEntry, LeaderboardName, PerformancePoints, TwitchId,
};
use live_elo::wire::{encode_changes, encode_initial_leaderboards};

fn author(name: &str) -> AuthorId {
    AuthorId::Twitch(TwitchId::new(name.to_string()))
}

fn event(board: &str, who: &str, points: i64) -> IngestedPerformance {
    IngestedPerformance {
        leaderboard_name: LeaderboardName::new(board.to_string()),
        author_id: author(who),
        performance: PerformancePoints::new(points),
    }
}

fn entry(who: &str, elo: i64) -> LeaderboardEloEntry {
    LeaderboardEloEntry::new(author(who), Elo::new(elo))
}

fn wins_server() -> LiveServer<DescendingByTotal> {
    UnstartedWebsocketServer::new(vec![NamedSnapshot {
        name: LeaderboardName::new("wins".to_string()),
        entries: Vec::new(),
    }])
    .start(DescendingByTotal::new())
}

#[test]
fn empty_leaderboard_two_batches() {
    let mut server = wins_server();

    server.submit_event(event("wins", "a", 3)).unwrap_or_else(|_| panic!("queue full"));
    server.submit_event(event("wins", "b", 1)).unwrap_or_else(|_| panic!("queue full"));
    server.flush_window().unwrap_or_else(|_| panic!("flush failed"));
    assert_eq!(server.shared.boards[0].entries.len(), 2);
    assert!(server.shared.boards[0].entries[0] == entry("a", 3));
    assert!(server.shared.boards[0].entries[1] == entry("b", 1));

    server.submit_event(event("wins", "b", 5)).unwrap_or_else(|_| panic!("queue full"));
    server.flush_window().unwrap_or_else(|_| panic!("flush failed"));
    assert_eq!(server.shared.boards[0].entries.len(), 2);
    assert!(server.shared.boards[0].entries[0] == entry("b", 6));
    assert!(server.shared.boards[0].entries[1] == entry("a", 3));
}

#[test]
fn client_connecting_between_batches_sees_everything_once() {
    let mut server = wins_server();

    server.submit_event(event("wins", "a", 3)).unwrap_or_else(|_| panic!("queue full"));
    server.submit_event(event("wins", "b", 1)).unwrap_or_else(|_| panic!("queue full"));
    server.flush_window().unwrap_or_else(|_| panic!("flush failed"));

    let (snapshot, client) = server.connect();
    assert_eq!(snapshot.len(), 1);
    assert_eq!(snapshot[0].entries.len(), 2);
    assert!(snapshot[0].entries[0] == entry("a", 3));
    assert!(snapshot[0].entries[1] == entry("b", 1));

    let initial = encode_initial_leaderboards(&snapshot);
    assert_eq!(
        String::from_utf8(initial).unwrap(),
        "{\"type\":\"initial_leaderboards\",\"data\":{\"leaderboards\":{\"wins\":[{\"author_id\":\"a\",\"elo\":3},{\"author_id\":\"b\",\"elo\":1}]}}}",
    );

    server.submit_event(event("wins", "b", 5)).unwrap_or_else(|_| panic!("queue full"));
    server.flush_window().unwrap_or_else(|_| panic!("flush failed"));

    match server.receive(client) {
        RecvOutcome::Message(message) => {
            assert_eq!(
                String::from_utf8(message).unwrap(),
                "{\"type\":\"changes\",\"data\":{\"changes\":{\"wins\":{\"0\":{\"author_id\":\"b\",\"elo\":6},\"1\":{\"author_id\":\"a\",\"elo\":3}}}}}",
            );
        },
        _ => panic!("the client must receive exactly the second batch's change set"),
    }
    match server.receive(client) {
        RecvOutcome::Empty => {},
        _ => panic!("no further message may be delivered"),
    }
}

#[test]
fn client_view_reaches_server_state_by_applying_diffs() {
    let mut server = wins_server();

    server.submit_event(event("wins", "a", 3)).unwrap_or_else(|_| panic!("queue full"));
    server.flush_window().unwrap_or_else(|_| panic!("flush failed"));

    let (snapshot, _client) = server.connect();
    let mut view = snapshot[0].entries.clone();

    server.submit_event(event("wins", "b", 4)).unwrap_or_else(|_| panic!("queue full"));
    server.submit_event(event("wins", "a", -2)).unwrap_or_else(|_| panic!("queue full"));

    let drained = server.queue.drain();
    let batch = live_elo::batcher::squash_batch(drained).unwrap_or_else(|_| panic!("squash failed"));
    let changes = server
        .aggregator
        .apply_batch(&batch, &mut server.shared)
        .unwrap_or_else(|_| panic!("apply failed"));

    view = apply_changes(&view, &changes.get()[0].changes);
    assert_eq!(view.len(), 2);
    assert!(view[0] == server.shared.boards[0].entries[0]);
    assert!(view[1] == server.shared.boards[0].entries[1]);
    assert!(view[0] == entry("b", 4));
    assert!(view[1] == entry("a", 1));
}

#[test]
fn closing_one_connection_leaves_the_other_delivering() {
    let mut server = wins_server();
    server.submit_event(event("wins", "a", 2)).unwrap_or_else(|_| panic!("queue full"));
    server.flush_window().unwrap_or_else(|_| panic!("flush failed"));

    let (_s0, first) = server.connect();
    let (_s1, second) = server.connect();

    server.submit_event(event("wins", "a", 1)).unwrap_or_else(|_| panic!("queue full"));
    server.flush_window().unwrap_or_else(|_| panic!("flush failed"));

    server.close_connection(first);

    match server.receive(second) {
        RecvOutcome::Message(message) => {
            assert_eq!(
                String::from_utf8(message).unwrap(),
                "{\"type\":\"changes\",\"data\":{\"changes\":{\"wins\":{\"0\":{\"author_id\":\"a\",\"elo\":3}}}}}",
            );
        },
        _ => panic!("the surviving connection must still be served"),
    }
}

#[test]
fn empty_window_publishes_nothing() {
    let mut server = wins_server();
    let (_snapshot, client) = server.connect();
    server.flush_window().unwrap_or_else(|_| panic!("flush failed"));
    match server.receive(client) {
        RecvOutcome::Empty => {},
        _ => panic!("an empty window must not publish a message"),
    }
}

#[test]
fn untouched_leaderboards_are_excluded_from_changes() {
    let mut server = UnstartedWebsocketServer::new(vec![
        NamedSnapshot { name: LeaderboardName::new("wins".to_string()), entries: Vec::new() },
        NamedSnapshot { name: LeaderboardName::new("bits".to_string()), entries: Vec::new() },
    ])
    .start(DescendingByTotal::new());

    let (_snapshot, client) = server.connect();
    server.submit_event(event("wins", "a", 1)).unwrap_or_else(|_| panic!("queue full"));
    server.flush_window().unwrap_or_else(|_| panic!("flush failed"));

    match server.receive(client) {
        RecvOutcome::Message(message) => {
            assert_eq!(
                String::from_utf8(message).unwrap(),
                "{\"type\":\"changes\",\"data\":{\"changes\":{\"wins\":{\"0\":{\"author_id\":\"a\",\"elo\":1}}}}}",
            );
        },
        _ => panic!("expected one change message"),
    }
}

#[test]
fn events_for_unregistered_leaderboards_are_ignored() {
    let mut server = wins_server();
    let (_snapshot, client) = server.connect();
    server.submit_event(event("stray", "a", 7)).unwrap_or_else(|_| panic!("queue full"));
    server.flush_window().unwrap_or_else(|_| panic!("flush failed"));
    assert_eq!(server.shared.boards[0].entries.len(), 0);
    match server.receive(client) {
        RecvOutcome::Message(message) => {
            assert_eq!(
                String::from_utf8(message).unwrap(),
                "{\"type\":\"changes\",\"data\":{\"changes\":{}}}",
            );
        },
        _ => panic!("a batch of only-unregistered events still emits its (empty) change set"),
    }
}

#[test]
fn wire_escapes_string_content() {
    let snapshot = vec![NamedSnapshot {
        name: LeaderboardName::new("a\"b\\c\nd".to_string()),
        entries: vec![entry("x", -5)],
    }];
    let encoded = encode_initial_leaderboards(&snapshot);
    assert_eq!(
        String::from_utf8(encoded).unwrap(),
        "{\"type\":\"initial_leaderboards\",\"data\":{\"leaderboards\":{\"a\\\"b\\\\c\\u000ad\":[{\"author_id\":\"x\",\"elo\":-5}]}}}",
    );
}

#[test]
fn wire_encodes_empty_change_set() {
    let changes = live_elo::diff::LeaderboardsChanges::new();
    let encoded = encode_changes(&changes);
    assert_eq!(
        String::from_utf8(encoded).unwrap(),
        "{\"type\":\"changes\",\"data\":{\"changes\":{}}}",
    );
}

#[test]
fn exporter_feeds_the_server_queue() {
    let unstarted = UnstartedWebsocketServer::new(vec![NamedSnapshot {
        name: LeaderboardName::new("wins".to_string()),
        entries: Vec::new(),
    }]);
    let exporter = unstarted.get_exporter_for_leaderboard(LeaderboardName::new("wins".to_string()));
    let mut server = unstarted.start(DescendingByTotal::new());

    exporter
        .export(&mut server.queue, author("a"), PerformancePoints::new(9))
        .unwrap_or_else(|_| panic!("queue full"));
    server.flush_window().unwrap_or_else(|_| panic!("flush failed"));
    assert!(server.shared.boards[0].entries[0] == entry("a", 9));
}

#[test]
fn touched_board_with_unchanged_positions_emits_empty_map() {
    let mut server = wins_server();
    server.submit_event(event("wins", "a", 3)).unwrap_or_else(|_| panic!("queue full"));
    server.flush_window().unwrap_or_else(|_| panic!("flush failed"));

    let (_snapshot, client) = server.connect();
    server.submit_event(event("wins", "a", 0)).unwrap_or_else(|_| panic!("queue full"));
    server.flush_window().unwrap_or_else(|_| panic!("flush failed"));

    match server.receive(client) {
        RecvOutcome::Message(message) => {
            assert_eq!(
                String::from_utf8(message).unwrap(),
                "{\"type\":\"changes\",\"data\":{\"changes\":{\"wins\":{}}}}",
            );
        },
        _ => panic!("a touched leaderboard is covered even when nothing moved"),
    }
}

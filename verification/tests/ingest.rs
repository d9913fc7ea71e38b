use userservice::error::ErrorKind;
use userservice::feed::{ChatMessage, FeedMessage};
use userservice::ingest::{step, InFlight, IngestAction, IngestEvent, IngestState, Snapshot};
use userservice::models::{Group, User};
use userservice::settings::Settings;
use userservice::time::Timestamp;

fn delivered(channel_id: Option<&str>, display_name: Option<&str>) -> IngestEvent {
    IngestEvent::Delivered(FeedMessage {
        channel_id: channel_id.map(|s| s.to_string()),
        display_name: display_name.map(|s| s.to_string()),
    })
}

fn looking_up() -> IngestState {
    IngestState::Processing(InFlight::Lookup(ChatMessage {
        channel_id: "abc".to_string(),
        display_name: "Abc".to_string(),
    }))
}

fn snapshot(prior: Option<User>, seconds: i64) -> Snapshot {
    Snapshot {
        prior,
        user_groups: vec![Group {
            group_id: 1,
            group_name: "g".to_string(),
            bonus_payout: 60,
            group_sorting: 0,
        }],
        now: Timestamp::new(seconds, 0),
        settings: Settings { default_payout: 60, active_time: 300 },
    }
}

fn seen(money: i64, last_seen: i64) -> User {
    User::new(
        "abc".to_string(),
        "Old".to_string(),
        10,
        0,
        money,
        Timestamp::new(100, 0),
        Timestamp::new(last_seen, 0),
    )
}

#[test]
fn the_loop_starts_waiting() {
    assert_eq!(IngestState::new(), IngestState::Waiting);
    assert!(!IngestState::new().is_closed());
    assert!(IngestState::Closed.is_closed());
}

#[test]
fn a_complete_message_is_taken_into_processing() {
    let (state, action) = step(IngestState::Waiting, delivered(Some("abc"), Some("Abc")));
    assert_eq!(state, looking_up());
    assert_eq!(action, IngestAction::Lookup("abc".to_string()));
}

#[test]
fn a_malformed_message_is_skipped() {
    for event in [delivered(None, Some("Abc")), delivered(Some("abc"), None), delivered(None, None)]
    {
        let (state, action) = step(IngestState::Waiting, event);
        assert_eq!(state, IngestState::Waiting);
        assert_eq!(action, IngestAction::Skip(ErrorKind::MalformedEvent));
    }
    let malformed = FeedMessage { channel_id: None, display_name: Some("Abc".to_string()) };
    assert_eq!(malformed.validate(), Err(ErrorKind::MalformedEvent));
    let complete =
        FeedMessage { channel_id: Some("abc".to_string()), display_name: Some("Abc".to_string()) };
    assert_eq!(
        complete.validate(),
        Ok(ChatMessage { channel_id: "abc".to_string(), display_name: "Abc".to_string() })
    );
}

#[test]
fn an_unknown_author_gets_a_fresh_aggregate() {
    let (state, action) = step(looking_up(), IngestEvent::Found(snapshot(None, 1000)));
    assert_eq!(state, IngestState::Processing(InFlight::Upsert));
    assert_eq!(
        action,
        IngestAction::Upsert(User::new(
            "abc".to_string(),
            "Abc".to_string(),
            0,
            0,
            0,
            Timestamp::new(1000, 0),
            Timestamp::new(1000, 0),
        ))
    );
}

#[test]
fn a_known_author_accrues() {
    let (state, action) = step(looking_up(), IngestEvent::Found(snapshot(Some(seen(5, 1000)), 1010)));
    assert_eq!(state, IngestState::Processing(InFlight::Upsert));
    assert_eq!(
        action,
        IngestAction::Upsert(User::new(
            "abc".to_string(),
            "Abc".to_string(),
            20,
            0,
            5 + 10 * 120,
            Timestamp::new(100, 0),
            Timestamp::new(1010, 0),
        ))
    );
}

#[test]
fn an_aggregate_that_does_not_fit_is_skipped() {
    let full = seen(i64::MAX, 1000);
    let (state, action) = step(looking_up(), IngestEvent::Found(snapshot(Some(full), 1010)));
    assert_eq!(state, IngestState::Waiting);
    assert_eq!(action, IngestAction::Skip(ErrorKind::StoreUnavailable));
}

#[test]
fn the_store_ends_the_processing() {
    let saving = IngestState::Processing(InFlight::Upsert);
    assert_eq!(step(saving.clone(), IngestEvent::Stored), (IngestState::Waiting, IngestAction::Receive));
    assert_eq!(
        step(saving, IngestEvent::StoreFailed),
        (IngestState::Waiting, IngestAction::Skip(ErrorKind::StoreUnavailable))
    );
    assert_eq!(
        step(looking_up(), IngestEvent::StoreFailed),
        (IngestState::Waiting, IngestAction::Skip(ErrorKind::StoreUnavailable))
    );
}

#[test]
fn the_end_of_the_feed_closes_the_loop() {
    for state in [IngestState::Waiting, looking_up(), IngestState::Processing(InFlight::Upsert), IngestState::Closed] {
        assert_eq!(step(state, IngestEvent::FeedEnded), (IngestState::Closed, IngestAction::Stop));
    }
}

#[test]
fn a_closed_loop_stays_closed() {
    for event in [
        delivered(Some("abc"), Some("Abc")),
        IngestEvent::Found(snapshot(None, 0)),
        IngestEvent::Stored,
        IngestEvent::StoreFailed,
        IngestEvent::FeedEnded,
    ] {
        assert_eq!(step(IngestState::Closed, event), (IngestState::Closed, IngestAction::Stop));
    }
}

#[test]
fn an_event_that_is_not_awaited_changes_nothing() {
    let saving = IngestState::Processing(InFlight::Upsert);
    assert_eq!(step(IngestState::Waiting, IngestEvent::Stored), (IngestState::Waiting, IngestAction::Ignore));
    assert_eq!(step(IngestState::Waiting, IngestEvent::StoreFailed), (IngestState::Waiting, IngestAction::Ignore));
    assert_eq!(
        step(IngestState::Waiting, IngestEvent::Found(snapshot(None, 0))),
        (IngestState::Waiting, IngestAction::Ignore)
    );
    assert_eq!(step(looking_up(), IngestEvent::Stored), (looking_up(), IngestAction::Ignore));
    assert_eq!(
        step(looking_up(), delivered(Some("xyz"), Some("Xyz"))),
        (looking_up(), IngestAction::Ignore)
    );
    assert_eq!(
        step(saving.clone(), delivered(Some("xyz"), Some("Xyz"))),
        (saving.clone(), IngestAction::Ignore)
    );
    assert_eq!(
        step(saving.clone(), IngestEvent::Found(snapshot(None, 0))),
        (saving, IngestAction::Ignore)
    );
}

#[test]
fn a_run_of_the_loop_processes_events_one_by_one() {
    let mut store: Option<User> = None;
    let mut state = IngestState::new();
    let mut skipped = 0;
    let feed = [(Some("abc"), 1000), (None, 1005), (Some("abc"), 1030), (Some("abc"), 2000)];
    for (channel_id, now) in feed {
        let (next, action) = step(state, delivered(channel_id, Some("Abc")));
        state = next;
        match action {
            IngestAction::Lookup(key) => {
                assert_eq!(key, "abc");
                let (next, action) = step(state, IngestEvent::Found(snapshot(store.clone(), now)));
                state = next;
                match action {
                    IngestAction::Upsert(user) => store = Some(user),
                    other => panic!("unexpected {:?}", other),
                }
                let (next, action) = step(state, IngestEvent::Stored);
                state = next;
                assert_eq!(action, IngestAction::Receive);
            }
            IngestAction::Skip(kind) => {
                assert_eq!(kind, ErrorKind::MalformedEvent);
                skipped += 1;
            }
            other => panic!("unexpected {:?}", other),
        }
        assert_eq!(state, IngestState::Waiting);
    }
    assert_eq!(skipped, 1);
    let user = store.unwrap();
    assert_eq!(user.hours_seconds, 30);
    assert_eq!(user.money, 30 * 120);
    assert_eq!(user.last_seen_at, Timestamp::new(2000, 0));
    assert_eq!(step(state, IngestEvent::FeedEnded).0, IngestState::Closed);
}

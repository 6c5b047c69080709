use fixer::events::{EventKind, JobEventHub, SubscribeError, event_id, parse_cursor, runtime_epoch_text};
use fixer::job_model::JobId;

fn id(raw: i64) -> JobId {
    JobId::from_database(raw).unwrap()
}

#[test]
fn retained_history_is_globally_capacity_bounded() {
    let mut hub = JobEventHub::new(3, "epoch".to_owned());
    for raw_id in 1..=20 {
        hub.publish(id(raw_id), EventKind::State, "{}".to_owned()).unwrap();
    }
    assert_eq!(hub.retained_len(), 3);
}

#[test]
fn published_events_get_increasing_sequences() {
    let mut hub = JobEventHub::new(4, "run".to_owned());
    let first = hub.publish(id(1), EventKind::State, "a".to_owned()).unwrap();
    let second = hub.publish(id(2), EventKind::Progress, "b".to_owned()).unwrap();
    assert_eq!(first.sequence, 1);
    assert_eq!(second.sequence, 2);
    assert_eq!(second.kind.as_str(), "progress");
}

#[test]
fn subscribers_replay_their_job_after_the_cursor() {
    let mut hub = JobEventHub::new(8, "run".to_owned());
    hub.publish(id(1), EventKind::State, "one".to_owned()).unwrap();
    hub.publish(id(2), EventKind::State, "two".to_owned()).unwrap();
    hub.publish(id(1), EventKind::Completion, "three".to_owned()).unwrap();

    let all = hub.subscribe(id(1), None).unwrap();
    assert_eq!(all.iter().map(|e| e.sequence).collect::<Vec<_>>(), vec![1, 3]);

    let after = hub.subscribe(id(1), Some("run:1")).unwrap();
    assert_eq!(after.iter().map(|e| e.data.as_str()).collect::<Vec<_>>(), vec!["three"]);

    assert_eq!(hub.subscribe(id(1), Some("other:1")).unwrap_err(), SubscribeError::Expired);
    assert_eq!(hub.subscribe(id(1), Some("run:9")).unwrap_err(), SubscribeError::Invalid);
    assert_eq!(hub.subscribe(id(1), Some("garbage")).unwrap_err(), SubscribeError::Invalid);
}

#[test]
fn cursors_older_than_the_history_have_expired() {
    let mut hub = JobEventHub::new(2, "run".to_owned());
    for _ in 0..5 {
        hub.publish(id(1), EventKind::State, "x".to_owned()).unwrap();
    }
    assert_eq!(hub.subscribe(id(1), Some("run:1")).unwrap_err(), SubscribeError::Expired);
    assert_eq!(hub.subscribe(id(1), Some("run:3")).unwrap().len(), 2);
}

#[test]
fn ensure_published_only_publishes_for_unknown_jobs() {
    let mut hub = JobEventHub::new(4, "run".to_owned());
    assert!(hub.ensure_published(id(5), EventKind::State, "s".to_owned()).unwrap().is_some());
    assert!(hub.ensure_published(id(5), EventKind::State, "s".to_owned()).unwrap().is_none());
    assert_eq!(hub.retained_len(), 1);
}

#[test]
fn cursor_text_is_parsed_strictly() {
    assert_eq!(parse_cursor("abc:42"), Ok(("abc".to_owned(), 42)));
    assert_eq!(parse_cursor("abc:+7"), Ok(("abc".to_owned(), 7)));
    assert_eq!(parse_cursor(":1"), Err(SubscribeError::Invalid));
    assert_eq!(parse_cursor("abc:"), Err(SubscribeError::Invalid));
    assert_eq!(parse_cursor("abc:-1"), Err(SubscribeError::Invalid));
    assert_eq!(parse_cursor("abc:18446744073709551616"), Err(SubscribeError::Invalid));
    assert_eq!(parse_cursor("a:b:1"), Err(SubscribeError::Invalid));
}

#[test]
fn event_ids_and_epochs_are_formatted() {
    assert_eq!(event_id("run", 12), "run:12");
    assert_eq!(runtime_epoch_text(255, 16, 1), "ff-10-1");
}

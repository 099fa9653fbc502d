use ech_board::board::open_page;
use ech_board::error::{RelayError, UpstreamFailure, UpstreamFailureKind};
use ech_board::moderation::index_hits;
use ech_board::replay::{import_order, BoardProgress};
use ech_board::send::{broadcast_step, BroadcastStep};
use ech_board::observer::{observe_transaction, LastSeen, RootChange};
use ech_board::realtime::{feed_entry_ids, CallEntities, EntityKind};

fn a(b: u8) -> [u8; 32] {
    [b; 32]
}

fn root(id: u8, counter: u64) -> RootChange {
    RootChange { id: a(id), kind: EntityKind::Thread, feed: a(id + 100), counter, version: 1, genesis: false }
}

fn call() -> CallEntities {
    CallEntities { forum: Some(a(1)), board: None, thread: None, post: None }
}

#[test]
fn observer_announces_each_entry_once() {
    let feed = a(105);
    let ids = feed_entry_ids(&feed, 1, 4);
    let entries = vec![(ids[0], vec![0xab]), (ids[2], vec![1, 2])];
    let mut seen = LastSeen::new();
    let b = observe_transaction(&mut seen, call(), &[root(5, 2)], &entries).unwrap();
    assert_eq!(seen.get(&a(5)), Some(2));
    assert_eq!(b.envelopes.len(), 1);
    assert_eq!(b.envelopes[0].counter, 1);
    assert_eq!(b.envelopes[0].event, "ab");
    assert_eq!(b.envelopes[0].id, a(5));
    assert_eq!(b.entities.forum, Some(a(1)));
    assert_eq!(b.entities.thread, Some(a(5)));

    assert!(observe_transaction(&mut seen, call(), &[root(5, 2)], &entries).is_none());
    assert!(observe_transaction(&mut seen, call(), &[root(5, 1)], &entries).is_none());
    assert_eq!(seen.get(&a(5)), Some(2));

    let b = observe_transaction(&mut seen, call(), &[root(5, 3)], &entries).unwrap();
    assert_eq!(seen.get(&a(5)), Some(3));
    assert_eq!(b.envelopes.len(), 1);
    assert_eq!(b.envelopes[0].counter, 3);
    assert_eq!(b.envelopes[0].event, "0102");
}

#[test]
fn observer_sends_no_empty_batch() {
    let mut seen = LastSeen::new();
    assert!(observe_transaction(&mut seen, call(), &[], &[]).is_none());
    assert!(observe_transaction(&mut seen, call(), &[root(6, 4)], &[]).is_none());
    assert_eq!(seen.get(&a(6)), Some(4));
    assert_eq!(seen.get(&a(7)), None);
}

#[test]
fn deleted_board_is_not_found() {
    match open_page(true, &[a(1)], None, 5) {
        Err(RelayError::NotFound(m)) => assert_eq!(m, "board deleted"),
        _ => panic!("expected not found"),
    }
    let sel = open_page(false, &[a(1), a(2), a(1)], Some(100), 5).unwrap();
    assert_eq!(sel.threads, vec![a(1), a(2)]);
    assert_eq!(sel.next, 6);
}

#[test]
fn broadcast_retries_only_retryable_failures() {
    assert!(matches!(broadcast_step(Ok(vec![4, 2])), BroadcastStep::Done(v) if v == vec![4, 2]));
    let timeout = UpstreamFailure::new(UpstreamFailureKind::Timeout, "slow".to_string());
    assert!(matches!(broadcast_step(Err(RelayError::UpstreamAllFailed(timeout))), BroadcastStep::Retry));
    let abort = UpstreamFailure::new(UpstreamFailureKind::ExecutionDeterministic, "abort".to_string());
    match broadcast_step(Err(RelayError::UpstreamAllFailed(abort))) {
        BroadcastStep::GiveUp(RelayError::UpstreamAllFailed(f)) => assert_eq!(f.details, "abort"),
        _ => panic!("expected to give up"),
    }
    assert!(matches!(broadcast_step(Err(RelayError::CaptchaRejected)), BroadcastStep::GiveUp(RelayError::CaptchaRejected)));
}

#[test]
fn ban_index_lists_entries_under_the_key() {
    let key = vec![1u8, 2, 3];
    let fields = vec![
        (key.clone(), Some(7u64.to_le_bytes().to_vec())),
        (vec![9], Some(8u64.to_le_bytes().to_vec())),
        (key.clone(), None),
        (key.clone(), Some(vec![1, 2])),
        (key.clone(), Some(300u64.to_le_bytes().to_vec())),
    ];
    assert_eq!(index_hits(&fields, &key), vec![7, 300]);
    assert!(index_hits(&fields, &[4]).is_empty());
}

#[test]
fn import_progress_resumes_after_cursor() {
    let mut p = BoardProgress::start(a(3));
    assert!(p.replay_due());
    p.record_imported(5);
    p.record_imported(9);
    assert_eq!(p.post_count, 2);
    assert_eq!(p.cursor, 9);
    assert_eq!(import_order(&[12, 5, 9, 10], p.cursor), vec![3, 0]);
    p.finish_replay();
    assert!(!p.replay_due());
    assert_eq!(p.board_id, a(3));
}

use ech_board::cache::RegistryCache;
use ech_board::dump::{dump_boards, dump_post, parse_csv_dump};
use ech_board::error::{RelayError, UpstreamFailure, UpstreamFailureKind};
use ech_board::replay::{plan_sends, ReplayPlan, ReplaySend};
use ech_board::requests::compute_trip;

fn strings(v: &[&str]) -> Vec<String> {
    v.iter().map(|s| s.to_string()).collect()
}

#[test]
fn csv_dump_groups_rows_by_board() {
    let raw = b" board ,num,parent,op,timestamp,subject,comment,answers,files,deleted_by_op,sticky\n\
b,1,0,1,10,Hello,first,\"[\"\"yes\"\",\"\"no\"\"]\",\"[{\"\"md5\"\":\"\"aa\"\"},\"\"bb\"\",3]\",,TRUE\n\
,2,0,0,11,,,,,,\n\
a,3,0,yes,12,,,null,,1,\n\
b,4,1,0,99999999999999999999,  ,reply,,,,\n";
    let boards = parse_csv_dump(raw).unwrap();
    assert_eq!(boards.len(), 2);
    assert_eq!(boards[0].slug, "b");
    assert_eq!(boards[1].slug, "a");
    assert_eq!(boards[0].max_media, 0);
    assert_eq!(boards[0].bump_limit, 0);
    assert!(boards[0].description.is_none());
    assert_eq!(boards[0].posts.len(), 2);
    assert_eq!(boards[1].posts.len(), 1);
    let p = &boards[0].posts[0];
    assert_eq!(p.num, 1);
    assert!(p.op);
    assert_eq!(p.timestamp_ms, 10_000);
    assert_eq!(p.subject.as_deref(), Some("Hello"));
    assert_eq!(p.comment.as_deref(), Some("first"));
    assert_eq!(p.answers, strings(&["yes", "no"]));
    let md5s: Vec<&str> = p.files.iter().map(|f| f.md5.as_str()).collect();
    assert_eq!(md5s, vec!["aa", "bb"]);
    assert!(p.sticky);
    assert!(!p.deleted);
    let q = &boards[0].posts[1];
    assert_eq!(q.num, 4);
    assert_eq!(q.parent, 1);
    assert_eq!(q.timestamp_ms, 0);
    assert!(q.subject.is_none());
    assert!(q.answers.is_empty());
    let r = &boards[1].posts[0];
    assert_eq!(r.num, 3);
    assert!(r.op);
    assert!(r.deleted);
    assert!(r.answers.is_empty());
}

#[test]
fn csv_dump_refuses_bad_bytes() {
    match parse_csv_dump(b"board,num\n\xff,1\n") {
        Err(RelayError::Internal(m)) => assert!(m.starts_with("csv record: "), "{m}"),
        _ => panic!("expected a record error"),
    }
    match parse_csv_dump(b"\xff,num\n") {
        Err(RelayError::Internal(m)) => assert!(m.starts_with("csv headers: "), "{m}"),
        _ => panic!("expected a header error"),
    }
    assert_eq!(parse_csv_dump(b"").unwrap().len(), 0);
}

#[test]
fn dump_rows_become_posts() {
    let headers = strings(&["board", "num", "deleted_by_autodeletion", "num", "ip", "timestamp"]);
    let rows = vec![
        strings(&["x", "7", "1", "8", " 1.2.3.4 ", "18446744073709552"]),
        strings(&["y", "8"]),
        strings(&["  ", "9"]),
        strings(&["x", "10"]),
    ];
    let boards = dump_boards(&headers, &rows);
    assert_eq!(boards.len(), 2);
    assert_eq!(boards[0].slug, "x");
    assert_eq!(boards[0].posts.len(), 2);
    assert_eq!(boards[0].posts[0].num, 7);
    assert!(boards[0].posts[0].deleted);
    assert_eq!(boards[0].posts[0].ip.as_deref(), Some("1.2.3.4"));
    assert_eq!(boards[0].posts[0].timestamp_ms, u64::MAX);
    assert_eq!(boards[0].posts[1].num, 10);
    assert!(!boards[0].posts[1].deleted);
    assert_eq!(boards[1].slug, "y");
    assert!(boards[1].posts[0].ip.is_none());
    let p = dump_post(&strings(&["answers", "files"]), &strings(&["not json", "[1, {\"x\": 2}]"]));
    assert!(p.answers.is_empty());
    assert!(p.files.is_empty());
}

#[test]
fn upstream_failure_reads_as_text() {
    let f = UpstreamFailure::new(UpstreamFailureKind::ExecutionDeterministic, "abort 3".to_string());
    assert_eq!(f.to_string(), "[ExecutionDeterministic] abort 3");
    let g = UpstreamFailure::new(UpstreamFailureKind::Timeout, String::new());
    assert_eq!(g.to_string(), "[Timeout] ");
    assert!(!RelayError::UpstreamAllFailed(f).is_retryable_upstream());
}

#[test]
fn replay_sends_board_events_only_when_listed() {
    let empty = ReplayPlan {
        reaction_icons: vec![],
        pinned: vec![],
        closed: vec![[3u8; 32], [4u8; 32]],
        deleted: vec![[4u8; 32]],
        reactions: vec![],
        votes: vec![],
    };
    let sends = plan_sends(&empty);
    assert_eq!(sends.len(), 3);
    assert!(matches!(sends[0], ReplaySend::SetClosed(t) if t == [3u8; 32]));
    assert!(matches!(sends[1], ReplaySend::SetClosed(t) if t == [4u8; 32]));
    assert!(matches!(sends[2], ReplaySend::SetDeleted(t) if t == [4u8; 32]));
    let full = ReplayPlan {
        reaction_icons: vec![[1u8; 32]],
        pinned: vec![[2u8; 32], [5u8; 32]],
        closed: vec![],
        deleted: vec![],
        reactions: vec![],
        votes: vec![],
    };
    let sends = plan_sends(&full);
    assert_eq!(sends.len(), 2);
    assert!(matches!(&sends[0], ReplaySend::SetReactions(v) if *v == vec![[1u8; 32]]));
    assert!(matches!(&sends[1], ReplaySend::SetPinned(v) if *v == vec![[2u8; 32], [5u8; 32]]));
}

#[test]
fn registry_cache_starts_empty() {
    let mut reg = RegistryCache::default();
    assert_eq!(reg.get(), None);
    reg.set(vec![9]);
    assert_eq!(reg.get(), Some(vec![9]));
}

#[test]
fn trip_errors_come_from_the_tripcode() {
    match compute_trip("##\u{1F600}", "key") {
        Err(RelayError::SponsorBuild(m)) => assert_eq!(m, "secure tripcode: shift_jis encoding failed"),
        _ => panic!("expected the Shift_JIS failure"),
    }
    assert!(matches!(compute_trip("#\u{1}\u{1}", "key"), Ok(Some((false, _)))));
    assert!(matches!(compute_trip("plain", "key"), Ok(None)));
}

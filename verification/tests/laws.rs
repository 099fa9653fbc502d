use std::collections::HashMap;

use ech_board::bbcode::{bbcode_to_parts, PostPart};
use ech_board::board::{absorb_chunk, page_start};
use ech_board::content::{bans_page, feed_window};
use ech_board::event::split_event;
use ech_board::intent::{hierarchy_indices, validate_target, IntentObject, IntentV2};
use ech_board::invalidate::invalidation_plan;
use ech_board::realtime::feed_range;
use ech_board::requests::uid_mask_message;
use ech_board::send::{plan_transaction, PlannedInput, SealedIntent};

fn event(tag: &str) -> Vec<u8> {
    let mut v = vec![tag.len() as u8];
    v.extend_from_slice(tag.as_bytes());
    v
}

fn intent(function: &str, tag: &str) -> IntentV2 {
    IntentV2 {
        module: "main".into(),
        function: function.into(),
        nonce: 1,
        objects: (0..6u8).map(|i| IntentObject { id: [i; 32], mutable: i % 2 == 0 }).collect(),
        requests: Vec::new(),
        payload: event(tag),
        public_key: [7u8; 32],
        tweak: [0u8; 32],
    }
}

#[test]
fn deleted_keys_are_dropped_scopes() {
    let intents = vec![
        intent("thread_apply_post_intent_uid", "post_set_text"),
        intent("post_apply_intent_uid_ip32", "set_reaction_v2"),
        intent("thread_apply_intent_uid", "set_topic"),
        intent("forum_apply_post_intent_uid", "unban"),
        intent("board_apply_intent_uid_captcha", "new_thread_v2"),
    ];
    let plan = invalidation_plan(&intents);
    assert!(!plan.dels.is_empty() && !plan.patterns.is_empty());
    for d in &plan.dels {
        assert!(plan.scopes.contains(d), "{d}");
    }
    for p in &plan.patterns {
        let scope = p.strip_suffix(":*").unwrap();
        assert!(plan.scopes.iter().any(|s| s == scope), "{p}");
    }
}

#[test]
fn feed_entries_are_announced_once() {
    let (s1, e1) = feed_range(None, 4).unwrap();
    let (s2, e2) = feed_range(Some(4), 9).unwrap();
    assert_eq!((s1, e1), (1, 5));
    assert_eq!(s2, e1);
    assert_eq!(e2, 10);
    assert_eq!(feed_range(Some(9), 9), None);
}

#[test]
fn same_range_same_identity_message() {
    assert_eq!(uid_mask_message(0xC0A8_0105, 1), uid_mask_message(0xC0A8_01FF, 1));
    assert_ne!(uid_mask_message(0xC0A8_0105, 0), uid_mask_message(0xC0A8_01FF, 0));
    assert_eq!(uid_mask_message(0x0A00_0001, 3), uid_mask_message(0x0A00_FF01, 3));
    assert_ne!(uid_mask_message(0x0A00_0001, 2), uid_mask_message(0x0A00_1001, 2));
}

#[test]
fn short_events_split_back() {
    let mut e = event("set_topic");
    e.extend_from_slice(&[1, 2, 3]);
    let (tag, payload) = split_event(&e).unwrap();
    assert_eq!(tag, "set_topic");
    assert_eq!(payload, vec![1, 2, 3]);
}

#[test]
fn plain_text_stays_plain() {
    let mapping = HashMap::new();
    let parts = bbcode_to_parts("no markup here, only words", [0u8; 32], [0u8; 32], "b", &mapping);
    assert_eq!(parts.len(), 1);
    match &parts[0] {
        PostPart::Plain(s) => assert_eq!(s, "no markup here, only words"),
        other => panic!("{other:?}"),
    }
}

#[test]
fn accepted_targets_have_a_hierarchy() {
    let cases = [
        ("forum_apply_intent_uid", "new_board"),
        ("forum_apply_post_intent_uid", "ban"),
        ("board_apply_intent_uid", "set_closed"),
        ("board_apply_thread_intent_uid_geo", "new_post_migrate_v2"),
        ("board_apply_intent_uid_geo_tripcode_captcha", "new_thread_v2"),
        ("thread_apply_intent_uid", "set_admin"),
        ("post_apply_intent_uid_ip32", "vote_v2"),
    ];
    for (f, tag) in cases {
        let i = intent(f, tag);
        assert!(validate_target(&i, tag).is_ok(), "{f}");
        assert!(hierarchy_indices(f).is_ok(), "{f}");
    }
}

#[test]
fn each_object_is_one_input() {
    let item = |objs: Vec<([u8; 32], bool)>| SealedIntent {
        module: "main".into(),
        function: "f".into(),
        objects: objs.into_iter().map(|(id, mutable)| IntentObject { id, mutable }).collect(),
        intent_bytes: vec![1],
        signature: vec![2],
        sealed: vec![3],
    };
    let a = [1u8; 32];
    let b = [2u8; 32];
    let plan = plan_transaction(&[item(vec![(a, true), (b, true)]), item(vec![(b, true), (a, true)])], [9u8; 32], [8u8; 32], 1, 1).unwrap();
    let objects: Vec<_> = plan
        .inputs
        .iter()
        .filter_map(|i| match i {
            PlannedInput::Object(id, m) => Some((*id, *m)),
            PlannedInput::Pure(_) => None,
        })
        .collect();
    assert_eq!(objects, vec![(a, true), (b, true)]);
    assert_eq!(plan.calls[1].arguments[3..], [1, 0]);
}

#[test]
fn feed_pages_meet() {
    let (start, end, next) = feed_window(None, 45);
    assert_eq!((start, end, next), (26, 46, Some(26)));
    let (s2, e2, n2) = feed_window(next, 45);
    assert_eq!((s2, e2, n2), (6, 26, Some(6)));
    assert_eq!(feed_window(n2, 45), (1, 6, None));
    assert_eq!(bans_page(120, None), (0, 50, Some(50)));
    assert_eq!(bans_page(120, Some(100)), (100, 120, None));
    assert_eq!(bans_page(10, Some(20)), (20, 20, None));
}

#[test]
fn pinned_threads_stay_first() {
    let pinned = [[9u8; 32], [8u8; 32]];
    let mut sel = page_start(&pinned, None, 3);
    absorb_chunk(&mut sel, 1, &[[1u8; 32], [9u8; 32], [2u8; 32]]);
    assert_eq!(&sel.threads[..2], &pinned[..]);
    assert_eq!(sel.threads.len(), 4);
}

#[test]
fn import_events_split_back() {
    let payload = ech_board::payload::list_event("set_pinned", &[[3u8; 32]]);
    let (tag, rest) = split_event(&payload).unwrap();
    assert_eq!(tag, "set_pinned");
    let mut want = vec![1u8];
    want.extend_from_slice(&[3u8; 32]);
    assert_eq!(rest, want);
}

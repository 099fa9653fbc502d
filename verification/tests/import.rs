use ech_board::bbcode::Mapping;
use ech_board::board::{resolve_key, table_entry_id};
use ech_board::error::RelayError;
use ech_board::intent::RequestV2;
use ech_board::payload::{
    answer_keys, board_event_intent, board_objects, clock_id, event_head, flag_event, import_intent,
    list_event, migrate_intent, moderator_intent, plaintext_key, post_ip32_intent, post_migrate_payload, reaction_payload,
    text_key, thread_event_intent, thread_migrate_payload, thread_objects, vote_payload, MigratedPost,
};
use ech_board::realtime::{call_arg, feed_entry_ids, CallArg};
use ech_board::replay::{
    created_post, created_thread, import_order, replay_plan, reply_thread, seed_choice, sorted_order,
    DumpReaction, DumpVote, ReplayPost, SeedChoice,
};
use std::collections::HashMap;

fn a(b: u8) -> [u8; 32] {
    [b; 32]
}

fn blake(data: &[u8]) -> [u8; 32] {
    <blake2::Blake2b<blake2::digest::consts::U32> as blake2::Digest>::digest(data).into()
}

fn tag(t: &str) -> Vec<u8> {
    let mut v = vec![t.len() as u8];
    v.extend_from_slice(t.as_bytes());
    v
}

fn shard(nonce_shards: [u8; 32], sender: [u8; 32]) -> [u8; 32] {
    ech_board::moderation::shard_id(&nonce_shards, &sender)
}

#[test]
fn event_head_is_bcs_string() {
    assert_eq!(event_head("set_pinned"), tag("set_pinned"));
    assert_eq!(event_head(""), vec![0u8]);
}

#[test]
fn thread_payload_bytes() {
    let p = MigratedPost {
        timestamp_ms: 0x0102,
        text_hash: Some(a(7)),
        media_hashes: vec![a(1), a(2)],
        name_hash: None,
        vote_keys: vec![],
        multiple_votes: true,
    };
    let mut want = tag("new_thread_migrate_v2");
    want.extend_from_slice(&[0x02, 0x01, 0, 0, 0, 0, 0, 0]);
    want.push(0);
    want.push(1);
    want.extend_from_slice(&a(7));
    want.push(2);
    want.extend_from_slice(&a(1));
    want.extend_from_slice(&a(2));
    want.push(0);
    want.push(0);
    want.push(1);
    assert_eq!(thread_migrate_payload(&p, None), want);
    assert_eq!(bcs::to_bytes(&(
        "new_thread_migrate_v2",
        0x0102u64,
        None::<sui_sdk_types::Address>,
        Some(sui_sdk_types::Address::new(a(7))),
        vec![sui_sdk_types::Address::new(a(1)), sui_sdk_types::Address::new(a(2))],
        None::<sui_sdk_types::Address>,
        Vec::<sui_sdk_types::Address>::new(),
        true,
    )).unwrap(), want);
}

#[test]
fn post_payload_bytes() {
    let p = MigratedPost {
        timestamp_ms: 5,
        text_hash: None,
        media_hashes: vec![],
        name_hash: Some(a(3)),
        vote_keys: vec![a(4)],
        multiple_votes: false,
    };
    let mut want = tag("new_post_migrate_v2");
    want.extend_from_slice(&[5, 0, 0, 0, 0, 0, 0, 0]);
    want.extend_from_slice(&a(9));
    want.push(0);
    want.push(0);
    want.push(1);
    want.extend_from_slice(&a(3));
    want.push(1);
    want.extend_from_slice(&a(4));
    want.push(0);
    assert_eq!(post_migrate_payload(&p, &a(9)), want);
}

#[test]
fn replay_payloads() {
    let mut want = tag("set_pinned");
    want.push(2);
    want.extend_from_slice(&a(1));
    want.extend_from_slice(&a(2));
    assert_eq!(list_event("set_pinned", &[a(1), a(2)]), want);

    let mut closed = tag("set_closed");
    closed.push(1);
    assert_eq!(flag_event("set_closed"), closed);

    let mut reaction = tag("set_reaction_v2");
    reaction.push(0);
    reaction.extend_from_slice(&a(6));
    assert_eq!(reaction_payload(&a(6)), reaction);

    let mut vote = tag("vote_v2");
    vote.push(1);
    vote.extend_from_slice(&a(8));
    assert_eq!(vote_payload(&[a(8)]), vote);
}

#[test]
fn clock_is_object_six() {
    let mut want = [0u8; 32];
    want[31] = 6;
    assert_eq!(clock_id(), want);
    assert_eq!(sui_sdk_types::Address::from_hex("0x6").unwrap().into_inner(), want);
}

#[test]
fn board_objects_order() {
    let objs = board_objects(&a(1), &a(2), &a(3), &[a(4), a(5)]);
    assert_eq!(objs.len(), 5);
    assert_eq!(objs[0].id, clock_id());
    assert!(!objs[0].mutable);
    assert_eq!(objs[1].id, shard(a(1), a(3)));
    assert!(objs[1].mutable);
    assert_eq!(objs[2].id, a(2));
    assert_eq!(objs[3].id, a(4));
    assert_eq!(objs[4].id, a(5));
    assert!(objs[2].mutable && objs[3].mutable && objs[4].mutable);
}

#[test]
fn thread_objects_order() {
    let objs = thread_objects(&a(1), &a(2), &a(3), &a(4), &a(5));
    let ids: Vec<[u8; 32]> = objs.iter().map(|o| o.id).collect();
    assert_eq!(ids, vec![shard(a(1), a(3)), a(2), a(4), a(5)]);
    assert!(objs.iter().all(|o| o.mutable));
}

#[test]
fn intents_of_the_import() {
    let i = import_intent(&a(1), "f".to_string(), vec![RequestV2::Uid], vec![], vec![9], 4);
    assert_eq!(i.module, "main");
    assert_eq!(i.function, "f");
    assert_eq!(i.nonce, 4);
    assert_eq!(i.payload, vec![9]);
    assert_eq!(i.public_key, a(1));
    assert_eq!(i.tweak, [0u8; 32]);

    let b = board_event_intent(&a(1), &a(2), &a(3), &a(4), vec![1], 7);
    assert_eq!(b.function, "board_apply_intent_uid");
    assert!(matches!(b.requests.as_slice(), [RequestV2::Uid]));
    assert_eq!(b.objects.len(), 4);
    assert_eq!(b.objects[3].id, a(4));

    let t = thread_event_intent(&a(1), &a(2), &a(3), &a(4), &a(5), vec![], 0);
    assert_eq!(t.function, "thread_apply_intent_uid");
    assert_eq!(t.objects.len(), 4);
    assert_eq!(t.objects[3].id, a(5));

    let p = post_ip32_intent(&a(1), &a(2), &a(3), &a(4), &a(5), vec![], 0);
    assert_eq!(p.function, "post_apply_intent_uid_ip32");
    assert!(matches!(p.requests.as_slice(), [RequestV2::Uid, RequestV2::Ip32(x)] if *x == a(5)));
    assert_eq!(p.objects.len(), 5);
    assert_eq!(p.objects[4].id, a(5));

    let m = migrate_intent(&a(1), Some(a(6)), true, false, &a(2), &a(3), &a(4), vec![], 2);
    assert_eq!(m.function, "board_apply_thread_intent_uid_geo");
    assert_eq!(m.objects.len(), 5);
    assert_eq!(m.objects[4].id, a(6));
    let n = migrate_intent(&a(1), None, false, true, &a(2), &a(3), &a(4), vec![], 2);
    assert_eq!(n.function, "board_apply_intent_uid_tripcode");
    assert_eq!(n.objects.len(), 4);
}

#[test]
fn content_keys() {
    assert_eq!(plaintext_key(""), None);
    assert_eq!(plaintext_key("abc"), Some(blake(b"abc")));
    assert_eq!(text_key(b"abcd", 3), None);
    assert_eq!(text_key(b"abc", 3), Some(blake(b"abc")));
    assert_eq!(answer_keys(&["yes".to_string(), "no".to_string()]), vec![blake(b"yes"), blake(b"no")]);
}

#[test]
fn posts_import_in_number_order() {
    assert_eq!(sorted_order(&[5, 3, 5, 1]), vec![3, 1, 0, 2]);
    assert_eq!(import_order(&[5, 3, 5, 1], 3), vec![0, 2]);
    assert_eq!(import_order(&[5, 3, 5, 1], 0), vec![3, 1, 0, 2]);
    assert_eq!(import_order(&[], 0), Vec::<usize>::new());
}

fn post(num: u64, parent: u64) -> ReplayPost {
    ReplayPost {
        num,
        parent,
        sticky: false,
        closed: false,
        deleted: false,
        reactions: vec![],
        answers: vec![],
        poll_votes: vec![],
    }
}

fn reaction(icon: &str, ip: Option<&str>) -> DumpReaction {
    DumpReaction { icon: icon.to_string(), ip: ip.map(|s| s.to_string()) }
}

fn vote(option: u64, ip: Option<&str>) -> DumpVote {
    DumpVote { option, ip: ip.map(|s| s.to_string()) }
}

#[test]
fn replay_collects_board_state() {
    let board = a(1);
    let mut mapping = HashMap::new();
    mapping.insert(10, Mapping { board, thread: a(20), post: a(30), num: 1 });
    mapping.insert(11, Mapping { board, thread: a(20), post: a(31), num: 2 });
    mapping.insert(12, Mapping { board: a(2), thread: a(21), post: a(32), num: 1 });

    let mut op = post(10, 0);
    op.sticky = true;
    op.closed = true;
    op.reactions = vec![reaction("like", Some("1.1.1.1")), reaction("fire", Some("1.1.1.1")), reaction("like", None)];
    op.answers = vec!["yes".to_string(), "no".to_string()];
    op.poll_votes = vec![vote(1, Some("2.2.2.2")), vote(5, Some("3.3.3.3")), vote(0, Some("2.2.2.2")), vote(1, Some("2.2.2.2"))];
    let mut reply = post(11, 10);
    reply.sticky = true;
    reply.deleted = true;
    reply.reactions = vec![reaction("like", Some("4.4.4.4"))];
    let mut other = post(12, 0);
    other.sticky = true;
    let unmapped = post(13, 0);

    let plan = replay_plan(&[reply, other, unmapped, op], &mapping, &board);
    assert_eq!(plan.reaction_icons, vec![blake(b"like"), blake(b"fire")]);
    assert_eq!(plan.pinned, vec![a(20)]);
    assert_eq!(plan.closed, vec![a(20)]);
    assert!(plan.deleted.is_empty());
    let reactions: Vec<([u8; 32], [u8; 32], String)> =
        plan.reactions.iter().map(|e| (e.post, e.icon, e.ip.clone())).collect();
    assert_eq!(
        reactions,
        vec![
            (a(30), blake(b"fire"), "1.1.1.1".to_string()),
            (a(30), blake(b"like"), String::new()),
            (a(31), blake(b"like"), "4.4.4.4".to_string()),
        ]
    );
    assert_eq!(plan.votes.len(), 1);
    assert_eq!(plan.votes[0].post, a(30));
    assert_eq!(plan.votes[0].ip, "2.2.2.2");
    assert_eq!(plan.votes[0].options, vec![blake(b"no"), blake(b"yes")]);
}

#[test]
fn replay_lists_hold_each_thread_once() {
    let board = a(1);
    let mut mapping = HashMap::new();
    mapping.insert(1, Mapping { board, thread: a(5), post: a(6), num: 1 });
    mapping.insert(2, Mapping { board, thread: a(5), post: a(7), num: 2 });
    let mut p1 = post(1, 0);
    p1.sticky = true;
    p1.reactions = vec![reaction("x", None), reaction("x", None)];
    let mut p2 = post(2, 1);
    p2.sticky = true;
    p2.reactions = vec![reaction("x", Some("ip"))];
    let plan = replay_plan(&[p1, p2], &mapping, &board);
    assert_eq!(plan.pinned, vec![a(5)]);
    assert_eq!(plan.reaction_icons, vec![blake(b"x")]);
}

#[test]
fn seed_choices() {
    let mut keys = HashMap::new();
    keys.insert(1u64, a(1));
    keys.insert(3u64, a(3));
    assert!(matches!(seed_choice(false, 0, 1, &keys), Ok(SeedChoice::Kept(k)) if k == a(1)));
    assert!(matches!(seed_choice(false, 0, 2, &keys), Ok(SeedChoice::Fresh)));
    assert!(matches!(seed_choice(true, 1, 2, &keys), Ok(SeedChoice::Kept(k)) if k == a(1)));
    assert!(matches!(seed_choice(true, 1, 3, &keys), Ok(SeedChoice::Kept(k)) if k == a(3)));
    match seed_choice(true, 7, 2, &keys) {
        Err(RelayError::Internal(m)) => assert_eq!(m, "thread OP key 7 not found"),
        other => panic!("{other:?}"),
    }
}

#[test]
fn replies_need_their_parent() {
    let mut mapping = HashMap::new();
    mapping.insert(4, Mapping { board: a(1), thread: a(2), post: a(3), num: 1 });
    assert_eq!(reply_thread(4, &mapping).unwrap(), a(2));
    match reply_thread(5, &mapping) {
        Err(RelayError::Internal(m)) => assert_eq!(m, "parent 5 not migrated"),
        other => panic!("{other:?}"),
    }
}

#[test]
fn created_objects_are_required() {
    assert_eq!(created_thread(Some(a(1)), Some(a(2)), Some(3), 9).unwrap(), (a(1), a(2), 3));
    match created_thread(None, Some(a(2)), Some(3), 9) {
        Err(RelayError::Internal(m)) => assert_eq!(m, "created thread not found for old#9"),
        other => panic!("{other:?}"),
    }
    match created_thread(Some(a(1)), None, None, 9) {
        Err(RelayError::Internal(m)) => assert_eq!(m, "created post not found for old#9"),
        other => panic!("{other:?}"),
    }
    match created_post(Some(a(1)), None, 12) {
        Err(RelayError::Internal(m)) => assert_eq!(m, "created post number not found for old#12"),
        other => panic!("{other:?}"),
    }
    assert_eq!(created_post(Some(a(1)), Some(4), 12).unwrap(), (a(1), 4));
}

#[test]
fn resolve_keys_and_entries() {
    let mut board = [0u8; 32];
    board[31] = 0xab;
    assert_eq!(
        resolve_key(true, &board, 42),
        format!("v:resolvethread:0x{}:42", "0".repeat(62) + "ab")
    );
    assert_eq!(resolve_key(false, &board, 7), format!("v:resolvepost:0x{}:7", "0".repeat(62) + "ab"));
    let want = sui_sdk_types::Address::new(a(4))
        .derive_dynamic_child_id(&sui_sdk_types::TypeTag::U64, &9u64.to_le_bytes())
        .into_inner();
    assert_eq!(table_entry_id(&a(4), 9), want);
    assert_ne!(table_entry_id(&a(4), 9), a(4));
}

#[test]
fn feed_entries_in_order() {
    let ids = feed_entry_ids(&a(2), 3, 5);
    let want: Vec<[u8; 32]> = (3u64..5)
        .map(|c| {
            sui_sdk_types::Address::new(a(2))
                .derive_object_id(&sui_sdk_types::TypeTag::U64, &c.to_le_bytes())
                .into_inner()
        })
        .collect();
    assert_eq!(ids, want);
    assert!(feed_entry_ids(&a(2), 5, 5).is_empty());
    assert!(feed_entry_ids(&a(2), 6, 5).is_empty());
}

#[test]
fn call_arguments() {
    assert!(matches!(call_arg(None), CallArg::Other));
    assert!(matches!(call_arg(Some("zz")), CallArg::BadId));
    let mut want = [0u8; 32];
    want[31] = 0x2a;
    assert!(matches!(call_arg(Some("0x2a")), CallArg::Object(x) if x == want));
}

#[test]
fn call_argument_ids_in_hex() {
    let mut want = [0u8; 32];
    want[30] = 0x0a;
    want[31] = 0xbc;
    assert!(matches!(call_arg(Some("ABC")), CallArg::Object(x) if x == want));
    assert!(matches!(call_arg(Some("0x")), CallArg::BadId));
    assert!(matches!(call_arg(Some("")), CallArg::BadId));
    let full = "f".repeat(64);
    assert!(matches!(call_arg(Some(full.as_str())), CallArg::Object(x) if x == [0xffu8; 32]));
    let long = "1".repeat(65);
    assert!(matches!(call_arg(Some(long.as_str())), CallArg::BadId));
    assert!(matches!(call_arg(Some("0X1")), CallArg::BadId));
}

#[test]
fn moderator_intents() {
    let i = moderator_intent(&a(1), &a(2), &a(3), "add_moderator", &a(4), 11).unwrap();
    assert_eq!(i.function, "forum_apply_intent_uid");
    assert_eq!(i.nonce, 11);
    let mut payload = tag("add_moderator");
    payload.extend_from_slice(&a(4));
    assert_eq!(i.payload, payload);
    let ids: Vec<[u8; 32]> = i.objects.iter().map(|o| o.id).collect();
    assert_eq!(ids, vec![clock_id(), shard(a(2), a(1)), a(3)]);
    assert!(matches!(i.requests.as_slice(), [RequestV2::Uid]));
    assert_eq!(i.public_key, a(1));
}

#[test]
fn media_download_urls() {
    let md5 = "0123456789abcdef0123456789abcdef";
    assert_eq!(
        ech_board::content::media_url("http://files//", "src", md5),
        Some(format!("http://files/src/01/23/{md5}.orig"))
    );
    assert_eq!(ech_board::content::media_url("http://files", "src", "abc"), None);
}

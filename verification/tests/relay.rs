use std::collections::HashMap;

use ech_board::bbcode::{bbcode_to_parts, find_close, find_str, make_variant, simple_tag, Mapping, PostPart, Style};
use ech_board::error::{RelayError, UpstreamFailure, UpstreamFailureKind};
use ech_board::event::{read_uleb128, split_event};
use ech_board::intent::{hierarchy_indices, object_indexes, validate_target, IntentObject, IntentV2};
use ech_board::invalidate::invalidation_plan;
use ech_board::ipv4::parse_ipv4;
use ech_board::realtime::{
    call_entities, classify, entity_count, feed_range, merge_roots, scoped, CallArg, CallEntities,
    EntityKind, ScopeKind,
};
use ech_board::moderation::{bans_key, registry_bans, BanRecord};

fn message(e: &RelayError) -> String {
    match e {
        RelayError::SponsorBuild(s) => s.clone(),
        RelayError::ConfigInvalid(s) => s.clone(),
        RelayError::GraphqlResponse(s) => s.clone(),
        RelayError::SponsorConfig(s) => s.clone(),
        other => format!("{other:?}"),
    }
}

fn event(tag: &str, rest: &[u8]) -> Vec<u8> {
    let mut v = vec![tag.len() as u8];
    v.extend_from_slice(tag.as_bytes());
    v.extend_from_slice(rest);
    v
}

fn intent(function: &str, objects: Vec<[u8; 32]>, payload: Vec<u8>) -> IntentV2 {
    IntentV2 {
        module: "main".to_string(),
        function: function.to_string(),
        nonce: 0,
        objects: objects.into_iter().map(|id| IntentObject { id, mutable: true }).collect(),
        requests: Vec::new(),
        payload,
        public_key: [9u8; 32],
        tweak: [0u8; 32],
    }
}

fn hex32(b: u8) -> String {
    let mut s = String::from("0x");
    for _ in 0..32 {
        s.push_str(&format!("{b:02x}"));
    }
    s
}

#[test]
fn object_indexes_layout() {
    let cases = [
        ("forum_apply_intent_uid", Some(2), None, None, None),
        ("forum_apply_post_intent_uid", Some(2), Some(3), Some(4), Some(5)),
        ("board_apply_intent_uid_captcha", None, Some(3), None, None),
        ("board_apply_thread_intent_uid_captcha", None, Some(3), Some(4), None),
        ("board_apply_post_intent_uid", None, Some(3), Some(4), Some(5)),
        ("thread_apply_intent_uid", None, Some(2), Some(3), None),
        ("thread_apply_post_intent_uid", None, Some(3), Some(4), Some(5)),
        ("post_apply_intent_uid", None, Some(3), Some(4), Some(5)),
        ("post_apply_intent_uid_ip32", None, Some(3), Some(4), Some(5)),
    ];
    for (f, fo, bo, th, po) in cases {
        assert_eq!(object_indexes(f), (fo, bo, th, po), "fn: {f}");
    }
}

#[test]
fn object_indexes_unknown_function() {
    assert_eq!(object_indexes("nothing"), (None, None, None, None));
}

#[test]
fn retryable_kinds() {
    assert!(UpstreamFailureKind::Timeout.is_retryable());
    assert!(UpstreamFailureKind::Rpc.is_retryable());
    assert!(!UpstreamFailureKind::ExecutionDeterministic.is_retryable());
    let f = UpstreamFailure::new(UpstreamFailureKind::Rpc, "down".to_string());
    assert_eq!(f.kind, UpstreamFailureKind::Rpc);
    assert_eq!(f.details, "down");
    let e = RelayError::UpstreamAllFailed(f);
    assert!(e.is_retryable_upstream());
    assert_eq!(e.status_code(), 502);
    assert_eq!(RelayError::CaptchaRejected.status_code(), 401);
    assert_eq!(RelayError::SponsorBuild("x".into()).status_code(), 400);
    assert!(!RelayError::SponsorBuild("x".into()).is_retryable_upstream());
}

#[test]
fn uleb_lengths() {
    assert_eq!(read_uleb128(&[0x05]).unwrap(), (5, 1));
    assert_eq!(read_uleb128(&[0x80, 0x01, 0xff]).unwrap(), (128, 2));
    assert_eq!(message(&read_uleb128(&[0x80]).unwrap_err()), "invalid event tag length");
    assert_eq!(message(&read_uleb128(&[]).unwrap_err()), "invalid event tag length");
}

#[test]
fn events_split_into_tag_and_payload() {
    let (tag, rest) = split_event(&event("ban", &[9, 8])).unwrap();
    assert_eq!(tag, "ban");
    assert_eq!(rest, vec![9, 8]);
    assert_eq!(message(&split_event(&[5, b'a']).unwrap_err()), "invalid event tag length");
    assert!(message(&split_event(&[1, 0xff]).unwrap_err()).starts_with("invalid event tag: "));
}

#[test]
fn hierarchy_of_entry_points() {
    assert_eq!(hierarchy_indices("thread_apply_intent_uid").unwrap(), (1, Some(2), Some(3)));
    assert_eq!(hierarchy_indices("board_apply_intent_uid_geo").unwrap(), (2, Some(3), None));
    assert_eq!(hierarchy_indices("forum_apply_intent_uid").unwrap(), (2, None, None));
    assert_eq!(
        message(&hierarchy_indices("other").unwrap_err()),
        "unsupported intent hierarchy"
    );
}

#[test]
fn targets_are_checked() {
    let ok = intent("thread_apply_intent_uid", vec![], vec![]);
    assert!(validate_target(&ok, "set_topic").is_ok());
    assert_eq!(
        message(&validate_target(&ok, "ban").unwrap_err()),
        "event is not allowed for intent function"
    );
    let unknown = intent("nothing", vec![], vec![]);
    assert_eq!(message(&validate_target(&unknown, "ban").unwrap_err()), "unsupported intent function");
    let mut wrong_module = intent("thread_apply_intent_uid", vec![], vec![]);
    wrong_module.module = "other".into();
    assert_eq!(
        message(&validate_target(&wrong_module, "set_topic").unwrap_err()),
        "intent module must be main"
    );
}

#[test]
fn ipv4_dotted_quads() {
    assert_eq!(parse_ipv4("192.168.1.10"), Some(0xC0A8_010A));
    assert_eq!(parse_ipv4("0.0.0.0"), Some(0));
    assert_eq!(parse_ipv4("255.255.255.255"), Some(u32::MAX));
    assert_eq!(parse_ipv4("01.2.3.4"), None);
    assert_eq!(parse_ipv4("256.1.1.1"), None);
    assert_eq!(parse_ipv4("1.2.3"), None);
    assert_eq!(parse_ipv4("1.2.3.4."), None);
    assert_eq!(parse_ipv4("1..2.3"), None);
    assert_eq!(parse_ipv4(" 1.2.3.4"), None);
    assert_eq!(parse_ipv4("::1"), None);
}

#[test]
fn object_types_are_classified() {
    assert_eq!(classify("0x2::forum::Forum"), Some(EntityKind::Forum));
    assert_eq!(classify("0xabc::post::Post"), Some(EntityKind::Post));
    assert_eq!(classify("0xabc::post::Posts"), None);
    assert_eq!(entity_count("forum_apply_intent_uid"), 1);
    assert_eq!(entity_count("board_apply_intent_uid_geo"), 2);
    assert_eq!(entity_count("thread_apply_intent_uid"), 3);
    assert_eq!(entity_count("post_apply_intent_uid_ip32"), 4);
    assert_eq!(entity_count("other"), 0);
}

#[test]
fn call_entities_take_the_last_objects() {
    let a = [1u8; 32];
    let b = [2u8; 32];
    let c = [3u8; 32];
    let args = [CallArg::Other, CallArg::Object(a), CallArg::Object(b), CallArg::Other, CallArg::Object(c)];
    let e = call_entities("board_apply_intent_uid_captcha", &args).unwrap();
    assert_eq!(e.forum, Some(b));
    assert_eq!(e.board, Some(c));
    assert_eq!(e.thread, None);
    assert_eq!(e.post, None);
    assert!(call_entities("post_apply_intent_uid", &args).is_none());
    assert!(call_entities("board_apply_intent_uid", &[CallArg::Object(a), CallArg::BadId, CallArg::Object(b)]).is_none());
    assert!(call_entities("other", &args).is_none());
}

#[test]
fn roots_fill_missing_entities() {
    let call = CallEntities { forum: Some([1u8; 32]), board: None, thread: None, post: None };
    let roots = [([5u8; 32], EntityKind::Board), ([6u8; 32], EntityKind::Board), ([7u8; 32], EntityKind::Forum)];
    let m = merge_roots(call, &roots);
    assert_eq!(m.forum, Some([1u8; 32]));
    assert_eq!(m.board, Some([5u8; 32]));
    assert_eq!(m.thread, None);
}

#[test]
fn feed_ranges() {
    assert_eq!(feed_range(None, 5), Some((1, 6)));
    assert_eq!(feed_range(Some(3), 5), Some((4, 6)));
    assert_eq!(feed_range(Some(5), 5), None);
    assert_eq!(feed_range(Some(7), 5), None);
}

#[test]
fn batches_go_to_their_streams() {
    let f = [4u8; 32];
    let forum_only = CallEntities { forum: Some(f), board: None, thread: None, post: None };
    assert!(scoped(&forum_only, ScopeKind::Forum, &hex32(4)));
    assert!(!scoped(&forum_only, ScopeKind::Forum, &hex32(5)));
    let in_thread = CallEntities { forum: Some(f), board: Some(f), thread: Some(f), post: None };
    assert!(!scoped(&in_thread, ScopeKind::Forum, &hex32(4)));
    assert!(scoped(&in_thread, ScopeKind::Board, &hex32(4)));
    assert!(scoped(&in_thread, ScopeKind::Thread, &hex32(4)));
}

#[test]
fn invalidation_of_new_posts_and_topics() {
    let new_post = intent("board_apply_thread_intent_uid_captcha", vec![], event("new_post_v2", &[]));
    let plan = invalidation_plan(&[new_post]);
    assert!(!plan.flush);
    assert_eq!(plan.dels, vec!["v:forum".to_string()]);
    assert_eq!(plan.scopes, vec!["v:forum".to_string()]);
    assert!(plan.gens.is_empty() && plan.patterns.is_empty());

    let topic = intent(
        "thread_apply_intent_uid",
        vec![[0u8; 32], [1u8; 32], [2u8; 32], [3u8; 32]],
        event("set_topic", &[]),
    );
    let plan = invalidation_plan(&[topic]);
    assert_eq!(
        plan.patterns,
        vec![format!("v:thread:{}:*", hex32(3)), format!("v:board:{}:*", hex32(2))]
    );
    assert_eq!(plan.scopes, vec![format!("v:thread:{}", hex32(3)), format!("v:board:{}", hex32(2))]);
}

#[test]
fn invalidation_of_reactions_bans_and_flushes() {
    let objs = vec![[0u8; 32], [1u8; 32], [2u8; 32], [3u8; 32], [4u8; 32], [5u8; 32]];
    let react = intent("post_apply_intent_uid_ip32", objs.clone(), event("vote_v2", &[1]));
    let ban = intent("board_apply_post_intent_uid", objs.clone(), event("ban", &[]));
    let garbage = intent("board_apply_post_intent_uid", objs.clone(), vec![0x80]);
    let plan = invalidation_plan(&[react, ban, garbage]);
    assert!(!plan.flush);
    assert_eq!(plan.gens, vec![format!("gen:thread:{}", hex32(4)), format!("gen:board:{}", hex32(3))]);
    assert_eq!(
        plan.dels,
        vec![format!("v:post:{}", hex32(5)), format!("v:reactions:{}:{}", hex32(5), hex32(9))]
    );
    assert_eq!(plan.patterns, vec![format!("v:bans:{}:*", hex32(3))]);
    assert_eq!(plan.scopes.len(), 3);
    let closed = intent("thread_apply_intent_uid", vec![], event("set_closed", &[]));
    assert!(invalidation_plan(&[closed]).flush);
}

#[test]
fn bbcode_styles_links_and_replies() {
    let forum = [1u8; 32];
    let board = [2u8; 32];
    let mut mapping = HashMap::new();
    mapping.insert(5u64, Mapping { board, thread: [3u8; 32], post: [4u8; 32], num: 5 });
    mapping.insert(6u64, Mapping { board: [8u8; 32], thread: [3u8; 32], post: [4u8; 32], num: 6 });
    let parts = bbcode_to_parts("hi [b]x[/b] >>5 >>6 [url=u]y[/url]", forum, board, "g", &mapping);
    assert_eq!(parts.len(), 6);
    match &parts[0] {
        PostPart::Plain(s) => assert_eq!(s, "hi "),
        other => panic!("{other:?}"),
    }
    match &parts[1] {
        PostPart::Styled(Style::Bold, ch) => match &ch[..] {
            [PostPart::Plain(s)] => assert_eq!(s, "x"),
            other => panic!("{other:?}"),
        },
        other => panic!("{other:?}"),
    }
    match &parts[2] {
        PostPart::Plain(s) => assert_eq!(s, " "),
        other => panic!("{other:?}"),
    }
    match &parts[3] {
        PostPart::ReplyTo(f, b, p, label) => {
            assert_eq!((*f, *b, *p), (forum, board, [4u8; 32]));
            assert_eq!(label, "g/5");
        }
        other => panic!("{other:?}"),
    }
    match &parts[4] {
        PostPart::Plain(s) => assert_eq!(s, " >>6 "),
        other => panic!("{other:?}"),
    }
    match &parts[5] {
        PostPart::Link { url, children } => {
            assert_eq!(url, "u");
            assert_eq!(children.len(), 1);
        }
        other => panic!("{other:?}"),
    }
}

#[test]
fn bbcode_unclosed_tags_stay_plain() {
    let mapping = HashMap::new();
    let parts = bbcode_to_parts("[b]open", [0u8; 32], [0u8; 32], "g", &mapping);
    assert_eq!(parts.len(), 1);
    match &parts[0] {
        PostPart::Plain(s) => assert_eq!(s, "[b]open"),
        other => panic!("{other:?}"),
    }
    assert!(bbcode_to_parts("", [0u8; 32], [0u8; 32], "g", &mapping).is_empty());
}

#[test]
fn bbcode_helpers() {
    assert_eq!(simple_tag("spoiler"), Some(("spoiler", "[/spoiler]")));
    assert_eq!(simple_tag("x"), None);
    let chars: Vec<char> = "[b]x[/b]".chars().collect();
    assert_eq!(find_close(&chars, 0), Some(2));
    assert_eq!(find_str(&chars, "[/b]", 3), Some(4));
    assert_eq!(find_str(&chars, "", 0), None);
    match make_variant("strike", Vec::new()) {
        PostPart::Styled(Style::Strike, ch) => assert!(ch.is_empty()),
        other => panic!("{other:?}"),
    }
    match make_variant("nothing", Vec::new()) {
        PostPart::Plain(s) => assert!(s.is_empty()),
        other => panic!("{other:?}"),
    }
}

#[test]
fn registry_bans_join_identities_by_entry() {
    let records = [
        BanRecord { id: 5, reason_hash: [5; 32], expires: 50 },
        BanRecord { id: 2, reason_hash: [2; 32], expires: 20 },
        BanRecord { id: 9, reason_hash: [9; 32], expires: 90 },
    ];
    let mut ids = HashMap::new();
    ids.insert(5u64, vec![[51u8; 32], [52u8; 32]]);
    ids.insert(2u64, vec![[21u8; 32]]);
    let rows = registry_bans(24, &records, &ids);
    let got: Vec<([u8; 32], [u8; 32], u64, u8)> =
        rows.iter().map(|r| (r.ip_hash, r.reason_hash, r.expires, r.mask)).collect();
    assert_eq!(
        got,
        vec![
            ([21; 32], [2; 32], 20, 24),
            ([51; 32], [5; 32], 50, 24),
            ([52; 32], [5; 32], 50, 24),
        ]
    );
    let mut uid = [0u8; 32];
    uid[0] = 0x12;
    assert_eq!(bans_key(&uid, None), format!("v:bans:0x12{}:0", "0".repeat(62)));
    assert_eq!(bans_key(&uid, Some(50)), format!("v:bans:0x12{}:50", "0".repeat(62)));
}

use ech_board::tiers::{
    after_shared_read, build_plan, generation, keys_with_prefix, on_message, shared_flush_patterns,
    BuildPlan, Invalidation, LocalAction, SharedRead,
};

#[test]
fn messages_on_the_channel_drop_scopes() {
    let inv = Invalidation { flush: false, scopes: vec!["v:board:0x1".into()] };
    match on_message("cache", "cache", Some(inv)) {
        LocalAction::DropPrefixes(p) => assert_eq!(p, vec!["v:board:0x1".to_string()]),
        _ => panic!("scopes expected"),
    }
    let flush = Invalidation { flush: true, scopes: vec!["x".into()] };
    assert!(matches!(on_message("cache", "cache", Some(flush)), LocalAction::FlushAll));
    let other = Invalidation { flush: true, scopes: vec![] };
    assert!(matches!(on_message("cache", "other", Some(other)), LocalAction::Keep));
    assert!(matches!(on_message("cache", "cache", None), LocalAction::Keep));
}

#[test]
fn prefix_keys() {
    let keys = vec!["v:board:1".to_string(), "gen:x".to_string(), "v:board:2".to_string(), "v:boar".to_string()];
    assert_eq!(keys_with_prefix(&keys, "v:board:"), vec!["v:board:1".to_string(), "v:board:2".to_string()]);
    assert_eq!(keys_with_prefix(&keys, ""), keys);
    assert!(keys_with_prefix(&keys, "zz").is_empty());
}

#[test]
fn shared_reads() {
    let r = after_shared_read(SharedRead::Found(vec![1, 2]));
    assert_eq!(r.value, Some(vec![1, 2]));
    assert!(r.fill_local && r.healthy);
    let r = after_shared_read(SharedRead::Missing);
    assert_eq!(r.value, None);
    assert!(!r.fill_local && r.healthy);
    let r = after_shared_read(SharedRead::Failed);
    assert!(r.value.is_none() && !r.fill_local && !r.healthy);
    assert!(matches!(build_plan(SharedRead::Found(vec![3])), BuildPlan::Use(v) if v == vec![3]));
    assert!(matches!(build_plan(SharedRead::Missing), BuildPlan::BuildAndStore));
    assert!(matches!(build_plan(SharedRead::Failed), BuildPlan::BuildOnly));
}

#[test]
fn generations() {
    assert_eq!(generation(Some(Some(7))), (7, true));
    assert_eq!(generation(Some(None)), (0, true));
    assert_eq!(generation(None), (0, false));
    assert_eq!(shared_flush_patterns(), vec!["v:*".to_string(), "gen:*".to_string()]);
}

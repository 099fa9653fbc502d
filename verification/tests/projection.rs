use ech_board::error::RelayError;
use ech_board::projection::{
    check_layout, BanKey, Bans, BoardProjection, Feed, ForumProjection, PostProjection, Registry, Sender,
    Table, ThreadProjection,
};
use ech_board::realtime::EntityKind;

fn table(b: u8) -> Table {
    Table { id: [b; 32], size: b as u64 }
}

fn registry(b: u8) -> Registry {
    Registry { counter: 0, entries: table(b), identities: table(b + 1), index: table(b + 2) }
}

fn bans() -> Bans {
    Bans { level: [9; 32], ip32: registry(10), ip24: registry(20), ip20: registry(30), ip16: registry(40) }
}

#[test]
fn forum_projection_getters() {
    let f = ForumProjection::V1 {
        nonce_shards: [1; 32],
        admin: [2; 32],
        mods: table(3),
        bans: bans(),
        boards: table(4),
        timestamp_precision_ms: 1000,
    };
    assert_eq!(f.nonce_shards(), [1; 32]);
    assert_eq!(f.admin(), [2; 32]);
    assert_eq!(f.mods().id, [3; 32]);
    assert_eq!(f.bans().level, [9; 32]);
    assert_eq!(f.boards().size, 4);
    assert_eq!(f.timestamp_precision_ms(), 1000);
}

fn board(v2: bool) -> BoardProjection {
    if v2 {
        BoardProjection::V2 {
            slug: "b".into(),
            description_hash: Some([5; 32]),
            max_media: 4,
            bump_limit: 500,
            closed: false,
            deleted: true,
            pinned: vec![[7; 32]],
            ignore_forum_bans: true,
            mods: table(1),
            bans: bans(),
            reactions: vec![[8; 32]],
            threads: table(2),
            posts: table(3),
            bumps: Feed { id: [6; 32], counter: 12 },
        }
    } else {
        BoardProjection::V1 {
            slug: "a".into(),
            description_hash: None,
            max_media: 1,
            bump_limit: 100,
            closed: false,
            deleted: false,
            ignore_forum_bans: false,
            mods: table(1),
            bans: bans(),
            reactions: vec![],
            threads: table(2),
            posts: table(3),
            bumps: Feed { id: [6; 32], counter: 3 },
        }
    }
}

#[test]
fn board_projection_getters() {
    let b = board(true);
    assert_eq!(b.slug(), "b");
    assert_eq!(b.description_hash(), Some([5; 32]));
    assert_eq!(b.max_media(), 4);
    assert!(b.deleted());
    assert!(b.ignore_forum_bans());
    assert_eq!(b.pinned(), &[[7u8; 32]]);
    assert_eq!(b.reactions(), &[[8u8; 32]]);
    assert_eq!(b.threads().id, [2; 32]);
    assert_eq!(b.posts().id, [3; 32]);
    assert_eq!(b.bumps().counter, 12);
    assert_eq!(b.mods().id, [1; 32]);
    assert_eq!(b.bans().ip24.entries.id, [20; 32]);
    let a = board(false);
    assert_eq!(a.slug(), "a");
    assert!(a.pinned().is_empty());
    assert_eq!(a.description_hash(), None);
}

#[test]
fn thread_projection_getters() {
    let t = ThreadProjection::V3 {
        board: [1; 32],
        number: 42,
        topic_hash: Some([2; 32]),
        op: [3; 32],
        closed: false,
        deleted: true,
        admin: Some([4; 32]),
        mods: table(5),
        bans: bans(),
        posts: Feed { id: [6; 32], counter: 9 },
        posts_deleted: 1,
        last_3: vec![[7; 32], [8; 32]],
    };
    assert_eq!(t.board(), [1; 32]);
    assert_eq!(t.number(), 42);
    assert_eq!(t.topic_hash(), Some([2; 32]));
    assert_eq!(t.op(), [3; 32]);
    assert!(t.deleted());
    assert_eq!(*t.admin(), Some([4; 32]));
    assert_eq!(t.mods().id, [5; 32]);
    assert_eq!(t.bans().level, [9; 32]);
    assert_eq!(t.posts().counter, 9);
    assert_eq!(t.last_3().len(), 2);
}

#[test]
fn post_projection_getters() {
    let p = PostProjection::V3 {
        sender: Sender { pk: [1; 32], tweak: [0; 32] },
        thread: [2; 32],
        number: 7,
        uid: vec![1, 2],
        timestamp_ms: 5,
        deleted: false,
        banned: Some(BanKey { level: [3; 32], mask: 24, ip_hash: [4; 32] }),
        text_hash: Some([5; 32]),
        media_hashes: vec![[6; 32]],
        banned_media: vec![[6; 32]],
        reactions: vec![],
        votes: vec![],
        multi_vote: false,
        name_hash: None,
        geo: None,
        mod_note: None,
    };
    assert_eq!(p.thread(), [2; 32]);
    assert_eq!(p.number(), 7);
    assert!(!p.deleted());
    assert_eq!(p.text_hash(), Some([5; 32]));
    assert_eq!(p.media_hashes(), &[[6u8; 32]]);
    assert_eq!(p.name_hash(), None);
    assert_eq!(p.banned_media().len(), 1);
    let q = PostProjection::V1 {
        sender: Sender { pk: [1; 32], tweak: [0; 32] },
        thread: [2; 32],
        number: 8,
        uid: vec![],
        timestamp_ms: 5,
        deleted: true,
        banned: None,
        text_hash: None,
        media_hashes: vec![],
        reactions: vec![],
        votes: vec![],
        name_hash: Some([1; 32]),
        geo: None,
        mod_note: None,
    };
    assert!(q.banned_media().is_empty());
    assert_eq!(q.name_hash(), Some([1; 32]));
}

#[test]
fn layout_versions() {
    assert!(check_layout(EntityKind::Forum, 1).is_ok());
    assert!(check_layout(EntityKind::Board, 2).is_ok());
    assert!(check_layout(EntityKind::Thread, 3).is_ok());
    assert!(check_layout(EntityKind::Post, 3).is_ok());
    match check_layout(EntityKind::Board, 3) {
        Err(RelayError::Internal(m)) => assert_eq!(m, "board version 3 not supported"),
        other => panic!("{other:?}"),
    }
    match check_layout(EntityKind::Forum, 0) {
        Err(RelayError::Internal(m)) => assert_eq!(m, "forum version 0 not supported"),
        other => panic!("{other:?}"),
    }
}

use vstd::prelude::*;

use crate::error::RelayError;
use crate::intent::Address;
use crate::realtime::EntityKind;
use crate::text::{decimal_chars, push_decimal, push_text};

verus! {

/// A table object of the forum: its id and how many entries it holds.
#[derive(Debug, Clone, Copy)]
pub struct Table {
    pub id: Address,
    pub size: u64,
}

/// An event feed of an entity: its id and how many events it has recorded.
#[derive(Debug, Clone, Copy)]
pub struct Feed {
    pub id: Address,
    pub counter: u64,
}

/// A ban registry for one address mask.
#[derive(Debug, Clone, Copy)]
pub struct Registry {
    pub counter: u64,
    pub entries: Table,
    pub identities: Table,
    pub index: Table,
}

/// The bans of an entity, one registry per mask length (32, 24, 20, 16).
#[derive(Debug, Clone, Copy)]
pub struct Bans {
    pub level: Address,
    pub ip32: Registry,
    pub ip24: Registry,
    pub ip20: Registry,
    pub ip16: Registry,
}

/// Who sent a post: the public key and the tweak of its address.
#[derive(Debug, Clone, Copy)]
pub struct Sender {
    pub pk: [u8; 32],
    pub tweak: [u8; 32],
}

/// The ban a post drew: the level that banned, the mask, the identity hash.
#[derive(Debug, Clone, Copy)]
pub struct BanKey {
    pub level: Address,
    pub mask: u8,
    pub ip_hash: Address,
}

/// What the relay reads of a forum, by the version of its layout.
#[derive(Debug, Clone, Copy)]
pub enum ForumProjection {
    V1 {
        nonce_shards: Address,
        admin: Address,
        mods: Table,
        bans: Bans,
        boards: Table,
        timestamp_precision_ms: u64,
    },
}

impl ForumProjection {
    pub fn nonce_shards(&self) -> (r: Address)
        ensures
            r == self->V1_nonce_shards,
    {
        match self {
            ForumProjection::V1 { nonce_shards, .. } => *nonce_shards,
        }
    }

    pub fn admin(&self) -> (r: Address)
        ensures
            r == self->V1_admin,
    {
        match self {
            ForumProjection::V1 { admin, .. } => *admin,
        }
    }

    pub fn mods(&self) -> (r: &Table)
        ensures
            *r == self->V1_mods,
    {
        match self {
            ForumProjection::V1 { mods, .. } => mods,
        }
    }

    pub fn bans(&self) -> (r: &Bans)
        ensures
            *r == self->V1_bans,
    {
        match self {
            ForumProjection::V1 { bans, .. } => bans,
        }
    }

    pub fn boards(&self) -> (r: &Table)
        ensures
            *r == self->V1_boards,
    {
        match self {
            ForumProjection::V1 { boards, .. } => boards,
        }
    }

    pub fn timestamp_precision_ms(&self) -> (r: u64)
        ensures
            r == self->V1_timestamp_precision_ms,
    {
        match self {
            ForumProjection::V1 { timestamp_precision_ms, .. } => *timestamp_precision_ms,
        }
    }
}

/// What the relay reads of a board, by the version of its layout; the second
/// version adds the pinned threads.
#[derive(Debug, Clone)]
pub enum BoardProjection {
    V1 {
        slug: String,
        description_hash: Option<Address>,
        max_media: u64,
        bump_limit: u64,
        closed: bool,
        deleted: bool,
        ignore_forum_bans: bool,
        mods: Table,
        bans: Bans,
        reactions: Vec<Address>,
        threads: Table,
        posts: Table,
        bumps: Feed,
    },
    V2 {
        slug: String,
        description_hash: Option<Address>,
        max_media: u64,
        bump_limit: u64,
        closed: bool,
        deleted: bool,
        pinned: Vec<Address>,
        ignore_forum_bans: bool,
        mods: Table,
        bans: Bans,
        reactions: Vec<Address>,
        threads: Table,
        posts: Table,
        bumps: Feed,
    },
}

impl BoardProjection {
    /// The board's short name.
    pub fn slug(&self) -> (r: &str)
        ensures
            self is V1 ==> r@ == self->V1_slug@,
            self is V2 ==> r@ == self->V2_slug@,
    {
        match self {
            BoardProjection::V1 { slug, .. } => slug.as_str(),
            BoardProjection::V2 { slug, .. } => slug.as_str(),
        }
    }

    /// The key of the board's description, if it has one.
    pub fn description_hash(&self) -> (r: Option<Address>)
        ensures
            self is V1 ==> r == self->V1_description_hash,
            self is V2 ==> r == self->V2_description_hash,
    {
        match self {
            BoardProjection::V1 { description_hash, .. } => *description_hash,
            BoardProjection::V2 { description_hash, .. } => *description_hash,
        }
    }

    /// How many media files a post may carry.
    pub fn max_media(&self) -> (r: u64)
        ensures
            self is V1 ==> r == self->V1_max_media,
            self is V2 ==> r == self->V2_max_media,
    {
        match self {
            BoardProjection::V1 { max_media, .. } => *max_media,
            BoardProjection::V2 { max_media, .. } => *max_media,
        }
    }

    /// Whether the board is deleted.
    pub fn deleted(&self) -> (r: bool)
        ensures
            self is V1 ==> r == self->V1_deleted,
            self is V2 ==> r == self->V2_deleted,
    {
        match self {
            BoardProjection::V1 { deleted, .. } => *deleted,
            BoardProjection::V2 { deleted, .. } => *deleted,
        }
    }

    /// Whether the forum's bans do not apply on the board.
    pub fn ignore_forum_bans(&self) -> (r: bool)
        ensures
            self is V1 ==> r == self->V1_ignore_forum_bans,
            self is V2 ==> r == self->V2_ignore_forum_bans,
    {
        match self {
            BoardProjection::V1 { ignore_forum_bans, .. } => *ignore_forum_bans,
            BoardProjection::V2 { ignore_forum_bans, .. } => *ignore_forum_bans,
        }
    }

    /// The board's moderators.
    pub fn mods(&self) -> (r: &Table)
        ensures
            self is V1 ==> *r == self->V1_mods,
            self is V2 ==> *r == self->V2_mods,
    {
        match self {
            BoardProjection::V1 { mods, .. } => mods,
            BoardProjection::V2 { mods, .. } => mods,
        }
    }

    /// The board's bans.
    pub fn bans(&self) -> (r: &Bans)
        ensures
            self is V1 ==> *r == self->V1_bans,
            self is V2 ==> *r == self->V2_bans,
    {
        match self {
            BoardProjection::V1 { bans, .. } => bans,
            BoardProjection::V2 { bans, .. } => bans,
        }
    }

    /// The reaction icons of the board.
    pub fn reactions(&self) -> (r: &[Address])
        ensures
            self is V1 ==> r@ == self->V1_reactions@,
            self is V2 ==> r@ == self->V2_reactions@,
    {
        match self {
            BoardProjection::V1 { reactions, .. } => reactions.as_slice(),
            BoardProjection::V2 { reactions, .. } => reactions.as_slice(),
        }
    }

    /// The board's threads by number.
    pub fn threads(&self) -> (r: &Table)
        ensures
            self is V1 ==> *r == self->V1_threads,
            self is V2 ==> *r == self->V2_threads,
    {
        match self {
            BoardProjection::V1 { threads, .. } => threads,
            BoardProjection::V2 { threads, .. } => threads,
        }
    }

    /// The board's posts by number.
    pub fn posts(&self) -> (r: &Table)
        ensures
            self is V1 ==> *r == self->V1_posts,
            self is V2 ==> *r == self->V2_posts,
    {
        match self {
            BoardProjection::V1 { posts, .. } => posts,
            BoardProjection::V2 { posts, .. } => posts,
        }
    }

    /// The feed of the board's bumped threads.
    pub fn bumps(&self) -> (r: &Feed)
        ensures
            self is V1 ==> *r == self->V1_bumps,
            self is V2 ==> *r == self->V2_bumps,
    {
        match self {
            BoardProjection::V1 { bumps, .. } => bumps,
            BoardProjection::V2 { bumps, .. } => bumps,
        }
    }

    /// The pinned threads; none before the second layout.
    pub fn pinned(&self) -> (r: &[Address])
        ensures
            self is V1 ==> r@.len() == 0,
            self is V2 ==> r@ == self->V2_pinned@,
    {
        match self {
            BoardProjection::V1 { .. } => &[],
            BoardProjection::V2 { pinned, .. } => pinned.as_slice(),
        }
    }
}

/// What the relay reads of a thread, by the version of its layout.
#[derive(Debug, Clone)]
pub enum ThreadProjection {
    V1 {
        board: Address,
        number: u64,
        topic_hash: Option<Address>,
        op: Address,
        closed: bool,
        deleted: bool,
        pinned: bool,
        admin: Option<Address>,
        mods: Table,
        bans: Bans,
        posts: Feed,
        last_3: Vec<Address>,
    },
    V2 {
        board: Address,
        number: u64,
        topic_hash: Option<Address>,
        op: Address,
        closed: bool,
        deleted: bool,
        admin: Option<Address>,
        mods: Table,
        bans: Bans,
        posts: Feed,
        last_3: Vec<Address>,
    },
    V3 {
        board: Address,
        number: u64,
        topic_hash: Option<Address>,
        op: Address,
        closed: bool,
        deleted: bool,
        admin: Option<Address>,
        mods: Table,
        bans: Bans,
        posts: Feed,
        posts_deleted: u64,
        last_3: Vec<Address>,
    },
}

impl ThreadProjection {
    /// The thread's board.
    pub fn board(&self) -> (r: Address)
        ensures
            self is V1 ==> r == self->V1_board,
            self is V2 ==> r == self->V2_board,
            self is V3 ==> r == self->V3_board,
    {
        match self {
            ThreadProjection::V1 { board, .. } => *board,
            ThreadProjection::V2 { board, .. } => *board,
            ThreadProjection::V3 { board, .. } => *board,
        }
    }

    /// The thread's number in its board.
    pub fn number(&self) -> (r: u64)
        ensures
            self is V1 ==> r == self->V1_number,
            self is V2 ==> r == self->V2_number,
            self is V3 ==> r == self->V3_number,
    {
        match self {
            ThreadProjection::V1 { number, .. } => *number,
            ThreadProjection::V2 { number, .. } => *number,
            ThreadProjection::V3 { number, .. } => *number,
        }
    }

    /// The key of the thread's topic, if it has one.
    pub fn topic_hash(&self) -> (r: Option<Address>)
        ensures
            self is V1 ==> r == self->V1_topic_hash,
            self is V2 ==> r == self->V2_topic_hash,
            self is V3 ==> r == self->V3_topic_hash,
    {
        match self {
            ThreadProjection::V1 { topic_hash, .. } => *topic_hash,
            ThreadProjection::V2 { topic_hash, .. } => *topic_hash,
            ThreadProjection::V3 { topic_hash, .. } => *topic_hash,
        }
    }

    /// The thread's opening post.
    pub fn op(&self) -> (r: Address)
        ensures
            self is V1 ==> r == self->V1_op,
            self is V2 ==> r == self->V2_op,
            self is V3 ==> r == self->V3_op,
    {
        match self {
            ThreadProjection::V1 { op, .. } => *op,
            ThreadProjection::V2 { op, .. } => *op,
            ThreadProjection::V3 { op, .. } => *op,
        }
    }

    /// Whether the thread is deleted.
    pub fn deleted(&self) -> (r: bool)
        ensures
            self is V1 ==> r == self->V1_deleted,
            self is V2 ==> r == self->V2_deleted,
            self is V3 ==> r == self->V3_deleted,
    {
        match self {
            ThreadProjection::V1 { deleted, .. } => *deleted,
            ThreadProjection::V2 { deleted, .. } => *deleted,
            ThreadProjection::V3 { deleted, .. } => *deleted,
        }
    }

    /// The thread's administrator, if it has one.
    pub fn admin(&self) -> (r: &Option<Address>)
        ensures
            self is V1 ==> *r == self->V1_admin,
            self is V2 ==> *r == self->V2_admin,
            self is V3 ==> *r == self->V3_admin,
    {
        match self {
            ThreadProjection::V1 { admin, .. } => admin,
            ThreadProjection::V2 { admin, .. } => admin,
            ThreadProjection::V3 { admin, .. } => admin,
        }
    }

    /// The thread's moderators.
    pub fn mods(&self) -> (r: &Table)
        ensures
            self is V1 ==> *r == self->V1_mods,
            self is V2 ==> *r == self->V2_mods,
            self is V3 ==> *r == self->V3_mods,
    {
        match self {
            ThreadProjection::V1 { mods, .. } => mods,
            ThreadProjection::V2 { mods, .. } => mods,
            ThreadProjection::V3 { mods, .. } => mods,
        }
    }

    /// The thread's bans.
    pub fn bans(&self) -> (r: &Bans)
        ensures
            self is V1 ==> *r == self->V1_bans,
            self is V2 ==> *r == self->V2_bans,
            self is V3 ==> *r == self->V3_bans,
    {
        match self {
            ThreadProjection::V1 { bans, .. } => bans,
            ThreadProjection::V2 { bans, .. } => bans,
            ThreadProjection::V3 { bans, .. } => bans,
        }
    }

    /// The feed of the thread's posts.
    pub fn posts(&self) -> (r: &Feed)
        ensures
            self is V1 ==> *r == self->V1_posts,
            self is V2 ==> *r == self->V2_posts,
            self is V3 ==> *r == self->V3_posts,
    {
        match self {
            ThreadProjection::V1 { posts, .. } => posts,
            ThreadProjection::V2 { posts, .. } => posts,
            ThreadProjection::V3 { posts, .. } => posts,
        }
    }

    /// The thread's last three posts.
    pub fn last_3(&self) -> (r: &[Address])
        ensures
            self is V1 ==> r@ == self->V1_last_3@,
            self is V2 ==> r@ == self->V2_last_3@,
            self is V3 ==> r@ == self->V3_last_3@,
    {
        match self {
            ThreadProjection::V1 { last_3, .. } => last_3.as_slice(),
            ThreadProjection::V2 { last_3, .. } => last_3.as_slice(),
            ThreadProjection::V3 { last_3, .. } => last_3.as_slice(),
        }
    }
}

/// What the relay reads of a post, by the version of its layout: the second
/// adds the choice of several poll answers, the third the banned media.
#[derive(Debug, Clone)]
pub enum PostProjection {
    V1 {
        sender: Sender,
        thread: Address,
        number: u64,
        uid: Vec<u8>,
        timestamp_ms: u64,
        deleted: bool,
        banned: Option<BanKey>,
        text_hash: Option<Address>,
        media_hashes: Vec<Address>,
        reactions: Vec<(Address, u64)>,
        votes: Vec<(Address, u64)>,
        name_hash: Option<Address>,
        geo: Option<u32>,
        mod_note: Option<Address>,
    },
    V2 {
        sender: Sender,
        thread: Address,
        number: u64,
        uid: Vec<u8>,
        timestamp_ms: u64,
        deleted: bool,
        banned: Option<BanKey>,
        text_hash: Option<Address>,
        media_hashes: Vec<Address>,
        reactions: Vec<(Address, u64)>,
        votes: Vec<(Address, u64)>,
        multi_vote: bool,
        name_hash: Option<Address>,
        geo: Option<u32>,
        mod_note: Option<Address>,
    },
    V3 {
        sender: Sender,
        thread: Address,
        number: u64,
        uid: Vec<u8>,
        timestamp_ms: u64,
        deleted: bool,
        banned: Option<BanKey>,
        text_hash: Option<Address>,
        media_hashes: Vec<Address>,
        banned_media: Vec<Address>,
        reactions: Vec<(Address, u64)>,
        votes: Vec<(Address, u64)>,
        multi_vote: bool,
        name_hash: Option<Address>,
        geo: Option<u32>,
        mod_note: Option<Address>,
    },
}

impl PostProjection {
    /// The post's thread.
    pub fn thread(&self) -> (r: Address)
        ensures
            self is V1 ==> r == self->V1_thread,
            self is V2 ==> r == self->V2_thread,
            self is V3 ==> r == self->V3_thread,
    {
        match self {
            PostProjection::V1 { thread, .. } => *thread,
            PostProjection::V2 { thread, .. } => *thread,
            PostProjection::V3 { thread, .. } => *thread,
        }
    }

    /// The post's number in its board.
    pub fn number(&self) -> (r: u64)
        ensures
            self is V1 ==> r == self->V1_number,
            self is V2 ==> r == self->V2_number,
            self is V3 ==> r == self->V3_number,
    {
        match self {
            PostProjection::V1 { number, .. } => *number,
            PostProjection::V2 { number, .. } => *number,
            PostProjection::V3 { number, .. } => *number,
        }
    }

    /// Whether the post is deleted.
    pub fn deleted(&self) -> (r: bool)
        ensures
            self is V1 ==> r == self->V1_deleted,
            self is V2 ==> r == self->V2_deleted,
            self is V3 ==> r == self->V3_deleted,
    {
        match self {
            PostProjection::V1 { deleted, .. } => *deleted,
            PostProjection::V2 { deleted, .. } => *deleted,
            PostProjection::V3 { deleted, .. } => *deleted,
        }
    }

    /// The key of the post's text, if it has one.
    pub fn text_hash(&self) -> (r: Option<Address>)
        ensures
            self is V1 ==> r == self->V1_text_hash,
            self is V2 ==> r == self->V2_text_hash,
            self is V3 ==> r == self->V3_text_hash,
    {
        match self {
            PostProjection::V1 { text_hash, .. } => *text_hash,
            PostProjection::V2 { text_hash, .. } => *text_hash,
            PostProjection::V3 { text_hash, .. } => *text_hash,
        }
    }

    /// The keys of the post's media files.
    pub fn media_hashes(&self) -> (r: &[Address])
        ensures
            self is V1 ==> r@ == self->V1_media_hashes@,
            self is V2 ==> r@ == self->V2_media_hashes@,
            self is V3 ==> r@ == self->V3_media_hashes@,
    {
        match self {
            PostProjection::V1 { media_hashes, .. } => media_hashes.as_slice(),
            PostProjection::V2 { media_hashes, .. } => media_hashes.as_slice(),
            PostProjection::V3 { media_hashes, .. } => media_hashes.as_slice(),
        }
    }

    /// The key of the poster's name, if one was given.
    pub fn name_hash(&self) -> (r: Option<Address>)
        ensures
            self is V1 ==> r == self->V1_name_hash,
            self is V2 ==> r == self->V2_name_hash,
            self is V3 ==> r == self->V3_name_hash,
    {
        match self {
            PostProjection::V1 { name_hash, .. } => *name_hash,
            PostProjection::V2 { name_hash, .. } => *name_hash,
            PostProjection::V3 { name_hash, .. } => *name_hash,
        }
    }

    /// The media files banned from the post; none before the third layout.
    pub fn banned_media(&self) -> (r: &[Address])
        ensures
            self is V1 ==> r@.len() == 0,
            self is V2 ==> r@.len() == 0,
            self is V3 ==> r@ == self->V3_banned_media@,
    {
        match self {
            PostProjection::V1 { .. } => &[],
            PostProjection::V2 { .. } => &[],
            PostProjection::V3 { banned_media, .. } => banned_media.as_slice(),
        }
    }
}

/// The layout versions the relay reads: forums of the first, boards of the
/// first two, threads and posts of the first three.
pub open spec fn layout_supported(kind: EntityKind, version: u16) -> bool {
    match kind {
        EntityKind::Forum => version == 1,
        EntityKind::Board => 1 <= version <= 2,
        EntityKind::Thread => 1 <= version <= 3,
        EntityKind::Post => 1 <= version <= 3,
    }
}

/// The name of a kind of entity in messages.
pub open spec fn kind_name(kind: EntityKind) -> Seq<char> {
    match kind {
        EntityKind::Forum => "forum"@,
        EntityKind::Board => "board"@,
        EntityKind::Thread => "thread"@,
        EntityKind::Post => "post"@,
    }
}

/// Whether the relay can read an entity of this layout version; refused with
/// `"{kind} version {version} not supported"` otherwise.
pub fn check_layout(kind: EntityKind, version: u16) -> (r: Result<(), RelayError>)
    ensures
        r is Ok <==> layout_supported(kind, version),
        r matches Err(e) ==> e matches RelayError::Internal(m) && m@ == kind_name(kind) + " version "@
            + decimal_chars(version as nat) + " not supported"@,
{
    let ok = match kind {
        EntityKind::Forum => version == 1,
        EntityKind::Board => 1 <= version && version <= 2,
        EntityKind::Thread => 1 <= version && version <= 3,
        EntityKind::Post => 1 <= version && version <= 3,
    };
    if ok {
        return Ok(());
    }
    let mut m = match kind {
        EntityKind::Forum => "forum".to_string(),
        EntityKind::Board => "board".to_string(),
        EntityKind::Thread => "thread".to_string(),
        EntityKind::Post => "post".to_string(),
    };
    push_text(&mut m, " version ");
    push_decimal(&mut m, version as u64);
    push_text(&mut m, " not supported");
    Err(RelayError::Internal(m))
}

} // verus!

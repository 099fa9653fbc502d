use vstd::prelude::*;

use crate::codec::{address_text, address_to_string};
use crate::intent::{
    is_board_intent_fn, is_board_thread_intent_fn, spec_hierarchy_indices, spec_object_indexes,
    Address,
};
use crate::moderation::{le_bytes, le_bytes_of};
use crate::sui::{derived_id_u64_key, derived_object_id};
use crate::text::{ends_with, has_prefix, has_suffix, starts_with, str_eq};

verus! {

/// The four kinds of forum entity.
#[derive(Debug, Clone, Copy, PartialEq, Eq, Structural)]
pub enum EntityKind {
    Forum,
    Board,
    Thread,
    Post,
}

/// The entity kind of a Move object type, told by the type's module and name.
pub open spec fn spec_classify(t: Seq<char>) -> Option<EntityKind> {
    if has_suffix(t, "::forum::Forum"@) {
        Some(EntityKind::Forum)
    } else if has_suffix(t, "::board::Board"@) {
        Some(EntityKind::Board)
    } else if has_suffix(t, "::thread::Thread"@) {
        Some(EntityKind::Thread)
    } else if has_suffix(t, "::post::Post"@) {
        Some(EntityKind::Post)
    } else {
        None
    }
}

pub fn classify(object_type: &str) -> (r: Option<EntityKind>)
    ensures
        r == spec_classify(object_type@),
{
    if ends_with(object_type, "::forum::Forum") {
        Some(EntityKind::Forum)
    } else if ends_with(object_type, "::board::Board") {
        Some(EntityKind::Board)
    } else if ends_with(object_type, "::thread::Thread") {
        Some(EntityKind::Thread)
    } else if ends_with(object_type, "::post::Post") {
        Some(EntityKind::Post)
    } else {
        None
    }
}

/// How many of the trailing object arguments of a call of entry point `f`
/// name entities (forum, then board, thread, post); 0 for other calls.
pub open spec fn spec_entity_count(f: Seq<char>) -> usize {
    if f == "forum_apply_intent_uid"@ {
        1
    } else if has_prefix(f, "board_apply_intent_uid"@) {
        2
    } else if has_prefix(f, "board_apply_thread_intent_uid"@) || has_prefix(
        f,
        "thread_apply_intent_uid"@,
    ) {
        3
    } else if has_prefix(f, "forum_apply_post_intent_uid"@) || has_prefix(
        f,
        "board_apply_post_intent_uid"@,
    ) || has_prefix(f, "thread_apply_post_intent_uid"@) || has_prefix(
        f,
        "post_apply_intent_uid"@,
    ) {
        4
    } else {
        0
    }
}

pub fn entity_count(function: &str) -> (r: usize)
    ensures
        r == spec_entity_count(function@),
{
    if str_eq(function, "forum_apply_intent_uid") {
        1
    } else if starts_with(function, "board_apply_intent_uid") {
        2
    } else if starts_with(function, "board_apply_thread_intent_uid") || starts_with(
        function,
        "thread_apply_intent_uid",
    ) {
        3
    } else if starts_with(function, "forum_apply_post_intent_uid") || starts_with(
        function,
        "board_apply_post_intent_uid",
    ) || starts_with(function, "thread_apply_post_intent_uid") || starts_with(
        function,
        "post_apply_intent_uid",
    ) {
        4
    } else {
        0
    }
}

/// A text starts with itself.
proof fn lemma_prefix_self(s: Seq<char>)
    ensures
        has_prefix(s, s),
{
    assert(s.take(s.len() as int) =~= s);
}

/// A text does not start with `p` when they differ at a position of `p`.
proof fn lemma_not_prefix(s: Seq<char>, p: Seq<char>, i: int)
    requires
        0 <= i < p.len(),
        i < s.len(),
        s[i] != p[i],
    ensures
        !has_prefix(s, p),
{
    if has_prefix(s, p) {
        assert(s.take(p.len() as int)[i] == s[i]);
    }
}

/// No classic board entry point has another character where they all have
/// `b` and `i`.
proof fn lemma_not_board_fn(f: Seq<char>)
    requires
        f.len() > 12,
        f[0] != 'b' || f[12] != 'i',
    ensures
        !is_board_intent_fn(f),
{
    reveal_strlit("board_apply_intent_uid");
    reveal_strlit("board_apply_intent_uid_geo");
    reveal_strlit("board_apply_intent_uid_tripcode");
    reveal_strlit("board_apply_intent_uid_geo_tripcode");
    reveal_strlit("board_apply_intent_uid_captcha");
    reveal_strlit("board_apply_intent_uid_geo_captcha");
    reveal_strlit("board_apply_intent_uid_tripcode_captcha");
    reveal_strlit("board_apply_intent_uid_geo_tripcode_captcha");
}

/// No thread-creating board entry point has another character where they
/// all have `b` and `t`.
proof fn lemma_not_board_thread_fn(f: Seq<char>)
    requires
        f.len() > 12,
        f[0] != 'b' || f[12] != 't',
    ensures
        !is_board_thread_intent_fn(f),
{
    reveal_strlit("board_apply_thread_intent_uid");
    reveal_strlit("board_apply_thread_intent_uid_geo");
    reveal_strlit("board_apply_thread_intent_uid_tripcode");
    reveal_strlit("board_apply_thread_intent_uid_geo_tripcode");
    reveal_strlit("board_apply_thread_intent_uid_captcha");
    reveal_strlit("board_apply_thread_intent_uid_geo_captcha");
    reveal_strlit("board_apply_thread_intent_uid_tripcode_captcha");
    reveal_strlit("board_apply_thread_intent_uid_geo_tripcode_captcha");
}

/// The count of a classic board entry point: two entities.
proof fn lemma_board_count(f: Seq<char>)
    requires
        is_board_intent_fn(f),
    ensures
        spec_entity_count(f) == 2,
{
    reveal_strlit("forum_apply_intent_uid");
    reveal_strlit("board_apply_intent_uid");
    reveal_strlit("board_apply_intent_uid_geo");
    reveal_strlit("board_apply_intent_uid_tripcode");
    reveal_strlit("board_apply_intent_uid_geo_tripcode");
    reveal_strlit("board_apply_intent_uid_captcha");
    reveal_strlit("board_apply_intent_uid_geo_captcha");
    reveal_strlit("board_apply_intent_uid_tripcode_captcha");
    reveal_strlit("board_apply_intent_uid_geo_tripcode_captcha");
    let p = "board_apply_intent_uid"@;
    assert(f.take(p.len() as int) =~= p);
    lemma_not_prefix(f, "forum_apply_intent_uid"@, 0);
}

/// The count of a thread-creating board entry point: three entities.
proof fn lemma_board_thread_count(f: Seq<char>)
    requires
        is_board_thread_intent_fn(f),
    ensures
        spec_entity_count(f) == 3,
{
    reveal_strlit("forum_apply_intent_uid");
    reveal_strlit("board_apply_intent_uid");
    reveal_strlit("board_apply_thread_intent_uid");
    reveal_strlit("board_apply_thread_intent_uid_geo");
    reveal_strlit("board_apply_thread_intent_uid_tripcode");
    reveal_strlit("board_apply_thread_intent_uid_geo_tripcode");
    reveal_strlit("board_apply_thread_intent_uid_captcha");
    reveal_strlit("board_apply_thread_intent_uid_geo_captcha");
    reveal_strlit("board_apply_thread_intent_uid_tripcode_captcha");
    reveal_strlit("board_apply_thread_intent_uid_geo_tripcode_captcha");
    let p = "board_apply_thread_intent_uid"@;
    assert(f.take(p.len() as int) =~= p);
    lemma_not_prefix(f, "forum_apply_intent_uid"@, 0);
    lemma_not_prefix(f, "board_apply_intent_uid"@, 12);
}

/// How many entities an intent through `f` locates: its forum, its board
/// and thread where the intent's hierarchy has them, and its post where the
/// intent's objects have one.
pub open spec fn indexed_entities(f: Seq<char>) -> int {
    1 + (if spec_hierarchy_indices(f)->Some_0.1 is Some {
        1int
    } else {
        0
    }) + (if spec_hierarchy_indices(f)->Some_0.2 is Some {
        1int
    } else {
        0
    }) + (if spec_object_indexes(f).3 is Some {
        1int
    } else {
        0
    })
}

/// Law: for every entry point whose hierarchy the relay knows, the entities
/// its calls name are the forum, the board and thread where its intents
/// have them, and the post where they act on one.
pub proof fn lemma_entity_count_matches_indexes(f: Seq<char>)
    requires
        spec_hierarchy_indices(f) is Some,
    ensures
        spec_entity_count(f) as int == indexed_entities(f),
{
    reveal_strlit("forum_apply_intent_uid");
    reveal_strlit("forum_apply_post_intent_uid");
    reveal_strlit("board_apply_intent_uid");
    reveal_strlit("board_apply_thread_intent_uid");
    reveal_strlit("thread_apply_intent_uid");
    reveal_strlit("board_apply_post_intent_uid");
    reveal_strlit("thread_apply_post_intent_uid");
    reveal_strlit("post_apply_intent_uid");
    reveal_strlit("post_apply_intent_uid_ip32");
    if f == "forum_apply_intent_uid"@ {
    } else if f == "forum_apply_post_intent_uid"@ {
        lemma_prefix_self(f);
        lemma_not_prefix(f, "board_apply_intent_uid"@, 0);
        lemma_not_prefix(f, "board_apply_thread_intent_uid"@, 0);
        lemma_not_prefix(f, "thread_apply_intent_uid"@, 0);
    } else if f == "board_apply_post_intent_uid"@ {
        lemma_prefix_self(f);
        lemma_not_board_fn(f);
        lemma_not_board_thread_fn(f);
        lemma_not_prefix(f, "board_apply_intent_uid"@, 12);
        lemma_not_prefix(f, "board_apply_thread_intent_uid"@, 12);
        lemma_not_prefix(f, "thread_apply_intent_uid"@, 0);
        lemma_not_prefix(f, "forum_apply_post_intent_uid"@, 0);
    } else if f == "thread_apply_post_intent_uid"@ {
        lemma_prefix_self(f);
        lemma_not_board_fn(f);
        lemma_not_board_thread_fn(f);
        lemma_not_prefix(f, "board_apply_intent_uid"@, 0);
        lemma_not_prefix(f, "board_apply_thread_intent_uid"@, 0);
        lemma_not_prefix(f, "thread_apply_intent_uid"@, 13);
        lemma_not_prefix(f, "forum_apply_post_intent_uid"@, 0);
        lemma_not_prefix(f, "board_apply_post_intent_uid"@, 0);
    } else if f == "post_apply_intent_uid"@ || f == "post_apply_intent_uid_ip32"@ {
        let p = "post_apply_intent_uid"@;
        assert(f.take(p.len() as int) =~= p);
        lemma_not_board_fn(f);
        lemma_not_board_thread_fn(f);
        lemma_not_prefix(f, "board_apply_intent_uid"@, 0);
        lemma_not_prefix(f, "board_apply_thread_intent_uid"@, 0);
        lemma_not_prefix(f, "thread_apply_intent_uid"@, 0);
        lemma_not_prefix(f, "forum_apply_post_intent_uid"@, 0);
        lemma_not_prefix(f, "board_apply_post_intent_uid"@, 0);
        lemma_not_prefix(f, "thread_apply_post_intent_uid"@, 0);
    } else if is_board_intent_fn(f) {
        lemma_board_count(f);
        assert(spec_hierarchy_indices(f) == Some((2usize, Some(3usize), None::<usize>)));
        assert(spec_object_indexes(f).3 is None);
    } else if is_board_thread_intent_fn(f) {
        lemma_board_thread_count(f);
        assert(spec_hierarchy_indices(f) == Some((2usize, Some(3usize), Some(4usize))));
        assert(spec_object_indexes(f).3 is None);
    } else {
        lemma_prefix_self(f);
        lemma_not_prefix(f, "board_apply_intent_uid"@, 0);
        lemma_not_prefix(f, "board_apply_thread_intent_uid"@, 0);
    }
}

/// The value of a hexadecimal digit (either case).
pub open spec fn hex_digit_value(c: char) -> Option<nat> {
    if '0' <= c <= '9' {
        Some((c as nat - '0' as nat) as nat)
    } else if 'a' <= c <= 'f' {
        Some((c as nat - 'a' as nat + 10) as nat)
    } else if 'A' <= c <= 'F' {
        Some((c as nat - 'A' as nat + 10) as nat)
    } else {
        None
    }
}

/// The number that hexadecimal digits denote, most significant first.
pub open spec fn hex_number(s: Seq<char>) -> nat
    decreases s.len(),
{
    if s.len() == 0 {
        0
    } else {
        hex_number(s.drop_last()) * 16 + match hex_digit_value(s.last()) {
            Some(d) => d,
            None => 0,
        }
    }
}

/// The digits of an address text: the text without a leading `0x`.
pub open spec fn address_digits(text: Seq<char>) -> Seq<char> {
    if text.len() >= 2 && text[0] == '0' && text[1] == 'x' {
        text.skip(2)
    } else {
        text
    }
}

/// Whether a text names an address: one to 64 hexadecimal digits after an
/// optional `0x`.
pub open spec fn names_address(text: Seq<char>) -> bool {
    let d = address_digits(text);
    &&& 1 <= d.len() <= 64
    &&& forall|i: int| 0 <= i < d.len() ==> #[trigger] hex_digit_value(d[i]) is Some
}

/// The 32 bytes, most significant first, of a number.
pub open spec fn be_bytes32(v: nat) -> Seq<u8> {
    Seq::new(
        32,
        |k: int| ((v / vstd::arithmetic::power::pow(256, (31 - k) as nat) as nat) % 256) as u8,
    )
}

/// The address a text names: the number its digits denote, written in 32
/// bytes (`Address::from_str`).
pub open spec fn address_of_text(text: Seq<char>) -> Option<Address> {
    if names_address(text) {
        Some(choose|a: Address| a@ == be_bytes32(hex_number(address_digits(text))))
    } else {
        None
    }
}

/// `sui_sdk_types::Address::from_str`: accepts one to 64 hexadecimal digits
/// (either case) after an optional `0x`, and gives the 32-byte big-endian
/// form of the number they denote.
#[verifier::external_body]
pub(crate) fn parse_address(text: &str) -> (r: Option<Address>)
    ensures
        r is Some <==> names_address(text@),
        r matches Some(a) ==> a@ == be_bytes32(hex_number(address_digits(text@))),
{
    match <sui_sdk_types::Address as std::str::FromStr>::from_str(text) {
        Ok(a) => Some(a.into_inner()),
        Err(_) => None,
    }
}

/// An argument of the first call of a transaction, as far as the observer
/// reads it: not an input object, an input object with its id, or an input
/// whose id does not parse.
#[derive(Debug, Clone, Copy)]
pub enum CallArg {
    Other,
    Object(Address),
    BadId,
}

/// How the observer reads an argument of a call, given the object id of the
/// transaction input it refers to (`None` when it refers to no input, or to
/// one without an object id).
pub open spec fn spec_call_arg(input_object_id: Option<Seq<char>>) -> CallArg {
    match input_object_id {
        None => CallArg::Other,
        Some(t) => match address_of_text(t) {
            Some(a) => CallArg::Object(a),
            None => CallArg::BadId,
        },
    }
}

/// An argument of a call as the observer reads it.
pub fn call_arg(input_object_id: Option<&str>) -> (r: CallArg)
    ensures
        r == spec_call_arg(
            match input_object_id {
                Some(t) => Some(t@),
                None => None,
            },
        ),
{
    match input_object_id {
        None => CallArg::Other,
        Some(t) => match parse_address(t) {
            Some(a) => {
                proof {
                    let c = choose|c: Address| c@ == be_bytes32(hex_number(address_digits(t@)));
                    assert(c@ == a@);
                    assert(c == a);
                }
                CallArg::Object(a)
            },
            None => CallArg::BadId,
        },
    }
}

/// The forum entities a call touches.
#[derive(Debug, Clone, Copy)]
pub struct CallEntities {
    pub forum: Option<Address>,
    pub board: Option<Address>,
    pub thread: Option<Address>,
    pub post: Option<Address>,
}

/// The ids of the object arguments, in order.
pub open spec fn object_ids(args: Seq<CallArg>) -> Seq<Address>
    decreases args.len(),
{
    if args.len() == 0 {
        Seq::empty()
    } else {
        match args.last() {
            CallArg::Object(a) => object_ids(args.drop_last()).push(a),
            _ => object_ids(args.drop_last()),
        }
    }
}

/// Whether some object argument has an id that does not parse.
pub open spec fn has_bad_id(args: Seq<CallArg>) -> bool {
    exists|i: int| 0 <= i < args.len() && args[i] == CallArg::BadId
}

/// The entity at position `k` of the last `count` object ids.
pub open spec fn tail_at(ids: Seq<Address>, count: int, k: int) -> Option<Address> {
    if k < count {
        Some(ids[ids.len() - count + k])
    } else {
        None
    }
}

/// The entities of a call of entry point `f`: the last object arguments,
/// forum first; `None` when `f` names no entities, an id does not parse or
/// there are too few object arguments.
pub open spec fn spec_call_entities(f: Seq<char>, args: Seq<CallArg>) -> Option<CallEntities> {
    let count = spec_entity_count(f) as int;
    let ids = object_ids(args);
    if count == 0 || has_bad_id(args) || ids.len() < count {
        None
    } else {
        Some(
            CallEntities {
                forum: tail_at(ids, count, 0),
                board: tail_at(ids, count, 1),
                thread: tail_at(ids, count, 2),
                post: tail_at(ids, count, 3),
            },
        )
    }
}

fn tail_get(ids: &Vec<Address>, count: usize, k: usize) -> (r: Option<Address>)
    requires
        count <= ids@.len(),
    ensures
        r == tail_at(ids@, count as int, k as int),
{
    if k < count {
        Some(ids[ids.len() - count + k])
    } else {
        None
    }
}

/// Reads the entities that the first call of a transaction touches.
pub fn call_entities(function: &str, args: &[CallArg]) -> (r: Option<CallEntities>)
    ensures
        r == spec_call_entities(function@, args@),
{
    let count = entity_count(function);
    if count == 0 {
        return None;
    }
    let mut ids: Vec<Address> = Vec::new();
    let mut i: usize = 0;
    while i < args.len()
        invariant
            i <= args@.len(),
            ids@ == object_ids(args@.take(i as int)),
            forall|j: int| 0 <= j < i ==> args@[j] != CallArg::BadId,
        decreases args.len() - i,
    {
        assert(args@.take(i + 1).drop_last() =~= args@.take(i as int));
        match args[i] {
            CallArg::Other => {},
            CallArg::Object(a) => {
                ids.push(a);
            },
            CallArg::BadId => {
                assert(args@[i as int] == CallArg::BadId);
                return None;
            },
        }
        i = i + 1;
    }
    assert(args@.take(i as int) =~= args@);
    if ids.len() < count {
        return None;
    }
    Some(
        CallEntities {
            forum: tail_get(&ids, count, 0),
            board: tail_get(&ids, count, 1),
            thread: tail_get(&ids, count, 2),
            post: tail_get(&ids, count, 3),
        },
    )
}

/// The first root of a kind, if any.
pub open spec fn first_of(roots: Seq<(Address, EntityKind)>, want: EntityKind) -> Option<Address>
    decreases roots.len(),
{
    if roots.len() == 0 {
        None
    } else if roots[0].1 == want {
        Some(roots[0].0)
    } else {
        first_of(roots.drop_first(), want)
    }
}

/// An entity the call does not name is taken from the first changed root of
/// its kind.
pub open spec fn or_first(slot: Option<Address>, roots: Seq<(Address, EntityKind)>, want: EntityKind) -> Option<Address> {
    match slot {
        Some(a) => Some(a),
        None => first_of(roots, want),
    }
}

pub open spec fn spec_merge_roots(call: CallEntities, roots: Seq<(Address, EntityKind)>) -> CallEntities {
    CallEntities {
        forum: or_first(call.forum, roots, EntityKind::Forum),
        board: or_first(call.board, roots, EntityKind::Board),
        thread: or_first(call.thread, roots, EntityKind::Thread),
        post: or_first(call.post, roots, EntityKind::Post),
    }
}

proof fn lemma_first_of_step(roots: Seq<(Address, EntityKind)>, i: int, want: EntityKind)
    requires
        0 <= i < roots.len(),
    ensures
        first_of(roots.take(i + 1), want) == (match first_of(roots.take(i), want) {
            Some(a) => Some(a),
            None => if roots[i].1 == want {
                Some(roots[i].0)
            } else {
                None
            },
        }),
    decreases i,
{
    let rhs = match first_of(roots.take(i), want) {
        Some(a) => Some(a),
        None => if roots[i].1 == want {
            Some(roots[i].0)
        } else {
            None
        },
    };
    assert(roots.take(i + 1)[0] == roots[0]);
    if i > 0 {
        assert(roots.take(i)[0] == roots[0]);
        assert(roots.take(i + 1).drop_first() =~= roots.drop_first().take(i));
        assert(roots.take(i).drop_first() =~= roots.drop_first().take(i - 1));
        lemma_first_of_step(roots.drop_first(), i - 1, want);
        assert(roots.drop_first()[i - 1] == roots[i]);
        if roots[0].1 != want {
            assert(first_of(roots.take(i + 1), want) == first_of(roots.drop_first().take(i), want));
            assert(first_of(roots.take(i), want) == first_of(roots.drop_first().take(i - 1), want));
            assert(first_of(roots.take(i + 1), want) == rhs);
        } else {
            assert(first_of(roots.take(i + 1), want) == rhs);
        }
    } else {
        assert(roots.take(1).drop_first() =~= Seq::<(Address, EntityKind)>::empty());
        assert(roots.take(0).len() == 0);
        assert(first_of(roots.take(0), want) is None);
        assert(first_of(roots.take(1).drop_first(), want) is None);
        if roots[0].1 == want {
            assert(first_of(roots.take(1), want) == Some(roots[0].0));
        } else {
            assert(first_of(roots.take(1), want) == first_of(roots.take(1).drop_first(), want));
        }
        assert(first_of(roots.take(i + 1), want) == rhs);
    }
}

/// Completes the entities of a call with the roots the transaction changed.
pub fn merge_roots(call: CallEntities, roots: &[(Address, EntityKind)]) -> (r: CallEntities)
    ensures
        r == spec_merge_roots(call, roots@),
{
    let mut out = call;
    let mut i: usize = 0;
    while i < roots.len()
        invariant
            i <= roots@.len(),
            out == spec_merge_roots(call, roots@.take(i as int)),
        decreases roots.len() - i,
    {
        let (id, kind) = roots[i];
        proof {
            lemma_first_of_step(roots@, i as int, EntityKind::Forum);
            lemma_first_of_step(roots@, i as int, EntityKind::Board);
            lemma_first_of_step(roots@, i as int, EntityKind::Thread);
            lemma_first_of_step(roots@, i as int, EntityKind::Post);
        }
        match kind {
            EntityKind::Forum => if out.forum.is_none() {
                out.forum = Some(id);
            },
            EntityKind::Board => if out.board.is_none() {
                out.board = Some(id);
            },
            EntityKind::Thread => if out.thread.is_none() {
                out.thread = Some(id);
            },
            EntityKind::Post => if out.post.is_none() {
                out.post = Some(id);
            },
        }
        i = i + 1;
    }
    assert(roots@.take(i as int) =~= roots@);
    out
}

/// Whether a changed object is a root worth announcing: created or written,
/// of an entity kind, with a known layout version (1 to 4).
pub fn root_included(created: bool, written: bool, kind: Option<EntityKind>, version: u16) -> (r: bool)
    ensures
        r == ((created || written) && kind is Some && 1 <= version <= 4),
{
    (created || written) && kind.is_some() && version != 0 && version <= 4
}

/// The feed entries of a root to announce, as a half-open range of
/// counters: all of them the first time the root is seen, else those after
/// the last counter seen; `None` when nothing is new.
pub open spec fn spec_feed_range(prev: Option<u64>, counter: u64) -> Option<(u64, u64)> {
    match prev {
        None => Some((1, (counter + 1) as u64)),
        Some(p) => if counter > p {
            Some(((p + 1) as u64, (counter + 1) as u64))
        } else {
            None
        },
    }
}

pub fn feed_range(prev: Option<u64>, counter: u64) -> (r: Option<(u64, u64)>)
    requires
        counter < u64::MAX,
    ensures
        r == spec_feed_range(prev, counter),
{
    match prev {
        None => Some((1, counter + 1)),
        Some(p) => if counter > p {
            Some((p + 1, counter + 1))
        } else {
            None
        },
    }
}

/// The streams a batch of events goes to.
#[derive(Debug, Clone, Copy, PartialEq, Eq, Structural)]
pub enum ScopeKind {
    Forum,
    Board,
    Thread,
}

/// Whether a batch belongs to the stream of the entity whose address is
/// written `id`: a forum's stream leaves out the batches of threads.
pub open spec fn spec_scoped(entities: CallEntities, scope: ScopeKind, id: Seq<char>) -> bool {
    match scope {
        ScopeKind::Forum => entities.forum matches Some(a) && address_text(a@) == id
            && entities.thread is None,
        ScopeKind::Board => entities.board matches Some(a) && address_text(a@) == id,
        ScopeKind::Thread => entities.thread matches Some(a) && address_text(a@) == id,
    }
}

fn names(a: Option<Address>, id: &str) -> (r: bool)
    ensures
        r == (a matches Some(x) && address_text(x@) == id@),
{
    match a {
        Some(x) => {
            let t = address_to_string(&x);
            str_eq(t.as_str(), id)
        },
        None => false,
    }
}

pub fn scoped(entities: &CallEntities, scope: ScopeKind, id: &str) -> (r: bool)
    ensures
        r == spec_scoped(*entities, scope, id@),
{
    match scope {
        ScopeKind::Forum => names(entities.forum, id) && entities.thread.is_none(),
        ScopeKind::Board => names(entities.board, id),
        ScopeKind::Thread => names(entities.thread, id),
    }
}

/// Successive observations of a root announce each feed entry once: the
/// entries announced next start right after the last ones announced.
pub proof fn lemma_feed_ranges_follow(prev: Option<u64>, first: u64, second: u64)
    requires
        first < u64::MAX,
        second < u64::MAX,
        spec_feed_range(prev, first) is Some,
        spec_feed_range(Some(first), second) is Some,
    ensures
        spec_feed_range(Some(first), second)->Some_0.0 == spec_feed_range(prev, first)->Some_0.1,
{
}

/// The ids of the entries `start..end` of a feed, in order.
pub fn feed_entry_ids(feed: &Address, start: u64, end: u64) -> (r: Vec<Address>)
    ensures
        r@.len() == if start < end { end - start } else { 0 },
        forall|i: int|
            0 <= i < r@.len() ==> (#[trigger] r@[i])@ == derived_object_id(
                feed@,
                "u64"@,
                le_bytes((start + i) as nat),
            ),
{
    let mut out: Vec<Address> = Vec::new();
    let mut c = start;
    while c < end
        invariant
            c == start || (start < c && c <= end),
            out@.len() == c - start,
            forall|i: int|
                0 <= i < out@.len() ==> (#[trigger] out@[i])@ == derived_object_id(
                    feed@,
                    "u64"@,
                    le_bytes((start + i) as nat),
                ),
        decreases end - c,
    {
        let key = le_bytes_of(c);
        out.push(derived_id_u64_key(feed, key.as_slice()));
        c = c + 1;
    }
    out
}

} // verus!

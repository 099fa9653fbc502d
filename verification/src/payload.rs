use vstd::prelude::*;
use vstd::string::StringSliceAdditionalSpecFns;
use vstd::utf8::{decode_utf8, encode_utf8, encode_utf8_decode_utf8, encode_utf8_valid_utf8, valid_utf8};

use crate::codec::{
    addresses_bytes, bcs_encode_addresses, bcs_encode_bool, bcs_encode_bytes, bcs_encode_opt_address,
    bcs_encode_u64, bcs_max_len, opt_address_bytes, uleb128_bytes,
};
use crate::digest::{blake2b256, blake2b256_of};
use crate::error::RelayError;
use crate::event::{event_tag_bounds, lemma_event_splits};
use crate::intent::spec_validate_target;
use crate::intent::{Address, IntentObject, IntentV2, RequestV2};
use crate::text::push_text;
use crate::migrate::{migrate_target, spec_migrate_target};
use crate::moderation::{le_bytes, shard_id, spec_shard_id};

verus! {

broadcast use vstd::string::group_string_axioms;

/// BCS of an event tag, as a string: its length in bytes, then its UTF-8 bytes.
pub open spec fn tag_bytes(tag: Seq<char>) -> Seq<u8> {
    uleb128_bytes(encode_utf8(tag).len()) + encode_utf8(tag)
}

/// The head of every event payload: the event's tag.
pub fn event_head(tag: &str) -> (r: Vec<u8>)
    requires
        tag.spec_bytes().len() <= bcs_max_len(),
    ensures
        r@ == tag_bytes(tag@),
{
    match bcs_encode_bytes(tag.as_bytes()) {
        Ok(v) => v,
        Err(_) => {
            proof {
                assert(false);
            }
            Vec::new()
        },
    }
}

/// What an imported post carries into its creation event, besides its
/// thread or topic.
pub struct MigratedPost {
    pub timestamp_ms: u64,
    pub text_hash: Option<Address>,
    pub media_hashes: Vec<Address>,
    pub name_hash: Option<Address>,
    pub vote_keys: Vec<Address>,
    pub multiple_votes: bool,
}

/// The fields that thread and reply creation share, after their first ones.
pub open spec fn post_body_bytes(p: MigratedPost) -> Seq<u8> {
    opt_address_bytes(p.text_hash) + addresses_bytes(p.media_hashes@) + opt_address_bytes(p.name_hash)
        + addresses_bytes(p.vote_keys@) + seq![if p.multiple_votes { 1u8 } else { 0u8 }]
}

/// The payload that creates an imported thread: tag, time, topic, then the
/// shared fields.
pub open spec fn spec_thread_migrate_payload(p: MigratedPost, topic_hash: Option<Address>) -> Seq<u8> {
    tag_bytes("new_thread_migrate_v2"@) + le_bytes(p.timestamp_ms as nat) + opt_address_bytes(topic_hash)
        + post_body_bytes(p)
}

/// The payload that creates an imported reply: tag, time, thread, then the
/// shared fields.
pub open spec fn spec_post_migrate_payload(p: MigratedPost, thread: Address) -> Seq<u8> {
    tag_bytes("new_post_migrate_v2"@) + le_bytes(p.timestamp_ms as nat) + thread@ + post_body_bytes(p)
}

proof fn lemma_ascii_tag_short(tag: &str)
    requires
        vstd::string::is_ascii(tag),
        tag@.len() <= 64,
    ensures
        tag.spec_bytes().len() <= bcs_max_len(),
{
}

fn push_body(out: &mut Vec<u8>, p: &MigratedPost)
    requires
        p.media_hashes@.len() <= bcs_max_len(),
        p.vote_keys@.len() <= bcs_max_len(),
    ensures
        final(out)@ == old(out)@ + post_body_bytes(*p),
{
    let mut b = bcs_encode_opt_address(p.text_hash);
    out.append(&mut b);
    let mut m = match bcs_encode_addresses(p.media_hashes.as_slice()) {
        Ok(v) => v,
        Err(_) => {
            proof {
                assert(false);
            }
            Vec::new()
        },
    };
    out.append(&mut m);
    let mut n = bcs_encode_opt_address(p.name_hash);
    out.append(&mut n);
    let mut k = match bcs_encode_addresses(p.vote_keys.as_slice()) {
        Ok(v) => v,
        Err(_) => {
            proof {
                assert(false);
            }
            Vec::new()
        },
    };
    out.append(&mut k);
    let mut f = bcs_encode_bool(p.multiple_votes);
    out.append(&mut f);
    assert(final(out)@ =~= old(out)@ + post_body_bytes(*p));
}

/// The event payload that creates an imported thread.
pub fn thread_migrate_payload(p: &MigratedPost, topic_hash: Option<Address>) -> (r: Vec<u8>)
    requires
        p.media_hashes@.len() <= bcs_max_len(),
        p.vote_keys@.len() <= bcs_max_len(),
    ensures
        r@ == spec_thread_migrate_payload(*p, topic_hash),
{
    let tag = "new_thread_migrate_v2";
    proof {
        reveal_strlit("new_thread_migrate_v2");
        lemma_ascii_tag_short(tag);
    }
    let mut out = event_head(tag);
    let mut t = bcs_encode_u64(p.timestamp_ms);
    out.append(&mut t);
    let mut h = bcs_encode_opt_address(topic_hash);
    out.append(&mut h);
    push_body(&mut out, p);
    assert(out@ =~= spec_thread_migrate_payload(*p, topic_hash));
    out
}

/// The event payload that creates an imported reply in `thread`.
pub fn post_migrate_payload(p: &MigratedPost, thread: &Address) -> (r: Vec<u8>)
    requires
        p.media_hashes@.len() <= bcs_max_len(),
        p.vote_keys@.len() <= bcs_max_len(),
    ensures
        r@ == spec_post_migrate_payload(*p, *thread),
{
    let tag = "new_post_migrate_v2";
    proof {
        reveal_strlit("new_post_migrate_v2");
        lemma_ascii_tag_short(tag);
    }
    let mut out = event_head(tag);
    let mut t = bcs_encode_u64(p.timestamp_ms);
    out.append(&mut t);
    let mut a = vstd::slice::slice_to_vec(thread.as_slice());
    out.append(&mut a);
    push_body(&mut out, p);
    assert(out@ =~= spec_post_migrate_payload(*p, *thread));
    out
}

/// An event payload that sets a list of addresses: the tag, then the list.
pub open spec fn spec_list_event(tag: Seq<char>, list: Seq<Address>) -> Seq<u8> {
    tag_bytes(tag) + addresses_bytes(list)
}

/// The payload of an event that sets a list of addresses (reaction icons,
/// pinned threads, chosen poll options).
pub fn list_event(tag: &str, list: &[Address]) -> (r: Vec<u8>)
    requires
        tag.spec_bytes().len() <= bcs_max_len(),
        list@.len() <= bcs_max_len(),
    ensures
        r@ == spec_list_event(tag@, list@),
{
    let mut out = event_head(tag);
    let mut l = match bcs_encode_addresses(list) {
        Ok(v) => v,
        Err(_) => {
            proof {
                assert(false);
            }
            Vec::new()
        },
    };
    out.append(&mut l);
    assert(out@ =~= spec_list_event(tag@, list@));
    out
}

/// An event payload that raises a flag: the tag, then `true`.
pub open spec fn spec_flag_event(tag: Seq<char>) -> Seq<u8> {
    tag_bytes(tag) + seq![1u8]
}

/// The payload of an event that raises a flag (closes or deletes a thread).
pub fn flag_event(tag: &str) -> (r: Vec<u8>)
    requires
        tag.spec_bytes().len() <= bcs_max_len(),
    ensures
        r@ == spec_flag_event(tag@),
{
    let mut out = event_head(tag);
    let mut b = bcs_encode_bool(true);
    out.append(&mut b);
    assert(out@ =~= spec_flag_event(tag@));
    out
}

/// The payload of an imported reaction: no reaction replaced, then the icon.
pub open spec fn spec_reaction_payload(icon: Address) -> Seq<u8> {
    tag_bytes("set_reaction_v2"@) + opt_address_bytes(None) + icon@
}

/// The payload of an imported reaction with the icon of hash `icon`.
pub fn reaction_payload(icon: &Address) -> (r: Vec<u8>)
    ensures
        r@ == spec_reaction_payload(*icon),
{
    let tag = "set_reaction_v2";
    proof {
        reveal_strlit("set_reaction_v2");
        lemma_ascii_tag_short(tag);
    }
    let mut out = event_head(tag);
    let mut n = bcs_encode_opt_address(None);
    out.append(&mut n);
    let mut a = vstd::slice::slice_to_vec(icon.as_slice());
    out.append(&mut a);
    assert(out@ =~= spec_reaction_payload(*icon));
    out
}

/// The payload of an imported poll vote for the options of hashes `options`.
pub fn vote_payload(options: &[Address]) -> (r: Vec<u8>)
    requires
        options@.len() <= bcs_max_len(),
    ensures
        r@ == spec_list_event("vote_v2"@, options@),
{
    let tag = "vote_v2";
    proof {
        reveal_strlit("vote_v2");
        lemma_ascii_tag_short(tag);
    }
    list_event(tag, options)
}

/// The id of the system clock object, `0x6`.
pub open spec fn clock_bytes() -> Seq<u8> {
    Seq::new(32, |i: int| if i == 31 { 6u8 } else { 0u8 })
}

/// The all-zero address.
pub open spec fn zero_bytes() -> Seq<u8> {
    Seq::new(32, |i: int| 0u8)
}

/// The system clock object's id.
pub fn clock_id() -> (r: Address)
    ensures
        r@ == clock_bytes(),
{
    let mut a = [0u8; 32];
    a[31] = 6;
    assert(a@ =~= clock_bytes());
    a
}

fn zero_address() -> (r: Address)
    ensures
        r@ == zero_bytes(),
{
    let a = [0u8; 32];
    assert(a@ =~= zero_bytes());
    a
}

/// The objects of an intent, each as its id's bytes and whether it is written.
pub open spec fn objects_view(objects: Seq<IntentObject>) -> Seq<(Seq<u8>, bool)> {
    objects.map_values(|o: IntentObject| (o.id@, o.mutable))
}

/// Written objects with the given ids.
pub open spec fn written(ids: Seq<Address>) -> Seq<(Seq<u8>, bool)> {
    ids.map_values(|a: Address| (a@, true))
}

/// The objects of a board-level event of `sender`: the clock, read; then the
/// sender's nonce shard, the forum root and the further objects, written.
pub open spec fn spec_board_objects(
    nonce_shards: Address,
    root: Address,
    sender: Address,
    rest: Seq<Address>,
) -> Seq<(Seq<u8>, bool)> {
    seq![(clock_bytes(), false), (spec_shard_id(nonce_shards@, sender@), true), (root@, true)]
        + written(rest)
}

/// The objects of an imported board-level event.
pub fn board_objects(nonce_shards: &Address, root: &Address, sender: &Address, rest: &[Address]) -> (r:
    Vec<IntentObject>)
    ensures
        objects_view(r@) == spec_board_objects(*nonce_shards, *root, *sender, rest@),
{
    let mut objs: Vec<IntentObject> = Vec::new();
    objs.push(IntentObject { id: clock_id(), mutable: false });
    objs.push(IntentObject { id: shard_id(nonce_shards, sender), mutable: true });
    objs.push(IntentObject { id: *root, mutable: true });
    let mut i: usize = 0;
    while i < rest.len()
        invariant
            i <= rest@.len(),
            objs@.len() == 3 + i,
            objects_view(objs@) == spec_board_objects(*nonce_shards, *root, *sender, rest@.take(i as int)),
        decreases rest@.len() - i,
    {
        let ghost before = objs@;
        objs.push(IntentObject { id: rest[i], mutable: true });
        assert(rest@.take(i as int + 1) =~= rest@.take(i as int).push(rest@[i as int]));
        assert(objects_view(objs@) =~= objects_view(before).push((rest@[i as int]@, true)));
        assert(written(rest@.take(i as int + 1)) =~= written(rest@.take(i as int)).push(
            (rest@[i as int]@, true),
        ));
        assert(objects_view(objs@) =~= spec_board_objects(*nonce_shards, *root, *sender, rest@.take(i as int + 1)));
        i = i + 1;
    }
    assert(rest@.take(rest@.len() as int) =~= rest@);
    objs
}

/// The objects of an imported thread-level event: the sender's nonce shard,
/// the forum root, the board and the thread, all written.
pub open spec fn spec_thread_objects(
    nonce_shards: Address,
    root: Address,
    sender: Address,
    board: Address,
    thread: Address,
) -> Seq<(Seq<u8>, bool)> {
    seq![(spec_shard_id(nonce_shards@, sender@), true), (root@, true), (board@, true), (thread@, true)]
}

/// The objects of an imported thread-level event.
pub fn thread_objects(
    nonce_shards: &Address,
    root: &Address,
    sender: &Address,
    board: &Address,
    thread: &Address,
) -> (r: Vec<IntentObject>)
    ensures
        objects_view(r@) == spec_thread_objects(*nonce_shards, *root, *sender, *board, *thread),
{
    let mut objs: Vec<IntentObject> = Vec::new();
    objs.push(IntentObject { id: shard_id(nonce_shards, sender), mutable: true });
    objs.push(IntentObject { id: *root, mutable: true });
    objs.push(IntentObject { id: *board, mutable: true });
    objs.push(IntentObject { id: *thread, mutable: true });
    assert(objects_view(objs@) =~= spec_thread_objects(*nonce_shards, *root, *sender, *board, *thread));
    objs
}

/// An intent of the import, signed by `sender`: module `main`, no tweak.
pub fn import_intent(
    sender: &Address,
    function: String,
    requests: Vec<RequestV2>,
    objects: Vec<IntentObject>,
    payload: Vec<u8>,
    nonce: u64,
) -> (r: IntentV2)
    ensures
        r.module@ == "main"@,
        r.function@ == function@,
        r.nonce == nonce,
        r.objects@ == objects@,
        r.requests@ == requests@,
        r.payload@ == payload@,
        r.public_key == *sender,
        r.tweak@ == zero_bytes(),
{
    IntentV2 {
        module: "main".to_string(),
        function,
        nonce,
        objects,
        requests,
        payload,
        public_key: *sender,
        tweak: zero_address(),
    }
}

/// An administrator's event on a board, asking for the identity answer.
pub fn board_event_intent(
    admin: &Address,
    nonce_shards: &Address,
    root: &Address,
    board: &Address,
    payload: Vec<u8>,
    nonce: u64,
) -> (r: IntentV2)
    ensures
        r.module@ == "main"@,
        r.function@ == "board_apply_intent_uid"@,
        r.requests@ == seq![RequestV2::Uid],
        objects_view(r.objects@) == spec_board_objects(*nonce_shards, *root, *admin, seq![*board]),
        r.payload@ == payload@,
        r.nonce == nonce,
        r.public_key == *admin,
        r.tweak@ == zero_bytes(),
{
    let rest: [Address; 1] = [*board];
    let objects = board_objects(nonce_shards, root, admin, rest.as_slice());
    assert(rest@ =~= seq![*board]);
    let mut requests: Vec<RequestV2> = Vec::new();
    requests.push(RequestV2::Uid);
    assert(requests@ =~= seq![RequestV2::Uid]);
    import_intent(admin, "board_apply_intent_uid".to_string(), requests, objects, payload, nonce)
}

/// An administrator's event on a thread, asking for the identity answer.
pub fn thread_event_intent(
    admin: &Address,
    nonce_shards: &Address,
    root: &Address,
    board: &Address,
    thread: &Address,
    payload: Vec<u8>,
    nonce: u64,
) -> (r: IntentV2)
    ensures
        r.module@ == "main"@,
        r.function@ == "thread_apply_intent_uid"@,
        r.requests@ == seq![RequestV2::Uid],
        objects_view(r.objects@) == spec_thread_objects(*nonce_shards, *root, *admin, *board, *thread),
        r.payload@ == payload@,
        r.nonce == nonce,
        r.public_key == *admin,
        r.tweak@ == zero_bytes(),
{
    let objects = thread_objects(nonce_shards, root, admin, board, thread);
    let mut requests: Vec<RequestV2> = Vec::new();
    requests.push(RequestV2::Uid);
    assert(requests@ =~= seq![RequestV2::Uid]);
    import_intent(admin, "thread_apply_intent_uid".to_string(), requests, objects, payload, nonce)
}

/// An administrator's event on a post in the name of the post's author,
/// asking for the identity answer and the author's address answer.
pub fn post_ip32_intent(
    admin: &Address,
    nonce_shards: &Address,
    root: &Address,
    board: &Address,
    post: &Address,
    payload: Vec<u8>,
    nonce: u64,
) -> (r: IntentV2)
    ensures
        r.module@ == "main"@,
        r.function@ == "post_apply_intent_uid_ip32"@,
        r.requests@ == seq![RequestV2::Uid, RequestV2::Ip32(*post)],
        objects_view(r.objects@) == spec_board_objects(*nonce_shards, *root, *admin, seq![*board, *post]),
        r.payload@ == payload@,
        r.nonce == nonce,
        r.public_key == *admin,
        r.tweak@ == zero_bytes(),
{
    let rest: [Address; 2] = [*board, *post];
    let objects = board_objects(nonce_shards, root, admin, rest.as_slice());
    assert(rest@ =~= seq![*board, *post]);
    let mut requests: Vec<RequestV2> = Vec::new();
    requests.push(RequestV2::Uid);
    requests.push(RequestV2::Ip32(*post));
    assert(requests@ =~= seq![RequestV2::Uid, RequestV2::Ip32(*post)]);
    import_intent(admin, "post_apply_intent_uid_ip32".to_string(), requests, objects, payload, nonce)
}

/// The objects of an imported post's creation: the board, and for a reply
/// also its thread.
pub open spec fn migrate_rest(board: Address, reply_to: Option<Address>) -> Seq<Address> {
    match reply_to {
        None => seq![board],
        Some(t) => seq![board, t],
    }
}

/// The intent that creates an imported thread (`reply_to` is `None`) or reply,
/// signed by the post's own key `sender`.
pub fn migrate_intent(
    sender: &Address,
    reply_to: Option<Address>,
    geo: bool,
    trip: bool,
    nonce_shards: &Address,
    root: &Address,
    board: &Address,
    payload: Vec<u8>,
    nonce: u64,
) -> (r: IntentV2)
    ensures
        r.module@ == "main"@,
        r.function@ == spec_migrate_target(reply_to is None, geo, trip).0,
        r.requests@ == spec_migrate_target(reply_to is None, geo, trip).1,
        objects_view(r.objects@) == spec_board_objects(
            *nonce_shards,
            *root,
            *sender,
            migrate_rest(*board, reply_to),
        ),
        r.payload@ == payload@,
        r.nonce == nonce,
        r.public_key == *sender,
        r.tweak@ == zero_bytes(),
{
    let (function, requests) = migrate_target(reply_to.is_none(), geo, trip);
    let objects = match reply_to {
        None => {
            let rest: [Address; 1] = [*board];
            assert(rest@ =~= migrate_rest(*board, reply_to));
            board_objects(nonce_shards, root, sender, rest.as_slice())
        },
        Some(t) => {
            let rest: [Address; 2] = [*board, t];
            assert(rest@ =~= migrate_rest(*board, reply_to));
            board_objects(nonce_shards, root, sender, rest.as_slice())
        },
    };
    import_intent(sender, function, requests, objects, payload, nonce)
}

/// The key under which an imported plain text (topic, name, poll answer) is
/// stored: the digest of its bytes; `None` for the empty text, which is not
/// stored.
pub fn plaintext_key(value: &str) -> (r: Option<Address>)
    ensures
        value@.len() == 0 <==> r is None,
        r matches Some(h) ==> h@ == blake2b256_of(value.spec_bytes()),
{
    if value.is_empty() {
        None
    } else {
        Some(blake2b256(value.as_bytes()))
    }
}

/// The key under which an imported post's encoded text is stored: the digest
/// of the encoding; `None` when it exceeds `max_text_size` bytes, and the post
/// then goes without text.
pub fn text_key(encoded: &[u8], max_text_size: usize) -> (r: Option<Address>)
    ensures
        encoded@.len() > max_text_size <==> r is None,
        r matches Some(h) ==> h@ == blake2b256_of(encoded@),
{
    if encoded.len() > max_text_size {
        None
    } else {
        Some(blake2b256(encoded))
    }
}

/// The keys of a poll's answers, in order: the digest of each answer's bytes.
pub fn answer_keys(answers: &[String]) -> (r: Vec<Address>)
    ensures
        r@.len() == answers@.len(),
        forall|i: int|
            0 <= i < answers@.len() ==> (#[trigger] r@[i])@ == blake2b256_of(encode_utf8(answers@[i]@)),
{
    let mut out: Vec<Address> = Vec::new();
    let mut i: usize = 0;
    while i < answers.len()
        invariant
            i <= answers@.len(),
            out@.len() == i,
            forall|k: int|
                0 <= k < i ==> (#[trigger] out@[k])@ == blake2b256_of(encode_utf8(answers@[k]@)),
        decreases answers@.len() - i,
    {
        out.push(blake2b256(answers[i].as_str().as_bytes()));
        i = i + 1;
    }
    out
}

/// The payload of a forum administrator's moderator event: the tag, then
/// the moderator's address.
pub open spec fn spec_moderator_payload(event: Seq<char>, moderator: Address) -> Seq<u8> {
    tag_bytes(event) + moderator@
}

/// The intent with which the relay itself adds or removes a forum moderator
/// (`event` names which): signed by the sponsor key, applied to the forum,
/// asking for the identity answer. Refused when the event's name is longer
/// than BCS encodes, with the encoder's message after `event tag encode: `.
pub fn moderator_intent(
    sponsor: &Address,
    nonce_shards: &Address,
    forum: &Address,
    event: &str,
    moderator: &Address,
    nonce: u64,
) -> (r: Result<IntentV2, RelayError>)
    ensures
        event.spec_bytes().len() > bcs_max_len() ==> (r matches Err(RelayError::SponsorBuild(m)) && m@.take(
            "event tag encode: "@.len() as int,
        ) == "event tag encode: "@),
        event.spec_bytes().len() <= bcs_max_len() ==> (r matches Ok(i) && {
            &&& i.module@ == "main"@
            &&& i.function@ == "forum_apply_intent_uid"@
            &&& i.nonce == nonce
            &&& objects_view(i.objects@) == spec_board_objects(*nonce_shards, *forum, *sponsor, Seq::empty())
            &&& i.requests@ == seq![RequestV2::Uid]
            &&& i.payload@ == spec_moderator_payload(event@, *moderator)
            &&& i.public_key == *sponsor
            &&& i.tweak@ == zero_bytes()
        }),
{
    let mut payload = match bcs_encode_bytes(event.as_bytes()) {
        Ok(v) => v,
        Err(e) => {
            let mut m = "event tag encode: ".to_string();
            let ghost prefix = m@;
            push_text(&mut m, e.as_str());
            assert(m@.take(prefix.len() as int) =~= prefix);
            return Err(RelayError::SponsorBuild(m));
        },
    };
    let mut who = vstd::slice::slice_to_vec(moderator.as_slice());
    payload.append(&mut who);
    assert(payload@ =~= spec_moderator_payload(event@, *moderator));
    let rest: [Address; 0] = [];
    let objects = board_objects(nonce_shards, forum, sponsor, rest.as_slice());
    assert(rest@ =~= Seq::<Address>::empty());
    let mut requests: Vec<RequestV2> = Vec::new();
    requests.push(RequestV2::Uid);
    assert(requests@ =~= seq![RequestV2::Uid]);
    Ok(import_intent(sponsor, "forum_apply_intent_uid".to_string(), requests, objects, payload, nonce))
}

/// Law: an event payload that starts with `event_head` of a tag, of any
/// length BCS writes, is read back by the relay (`split_event`) as that tag,
/// followed by exactly the bytes written after the head.
pub proof fn lemma_event_head_splits(tag: Seq<char>, rest: Seq<u8>)
    requires
        encode_utf8(tag).len() <= bcs_max_len(),
    ensures
        event_tag_bounds(tag_bytes(tag) + rest) == Some(
            (
                uleb128_bytes(encode_utf8(tag).len()).len() as int,
                tag_bytes(tag).len() as int,
            ),
        ),
        valid_utf8(
            (tag_bytes(tag) + rest).subrange(
                uleb128_bytes(encode_utf8(tag).len()).len() as int,
                tag_bytes(tag).len() as int,
            ),
        ),
        decode_utf8(
            (tag_bytes(tag) + rest).subrange(
                uleb128_bytes(encode_utf8(tag).len()).len() as int,
                tag_bytes(tag).len() as int,
            ),
        ) == tag,
        (tag_bytes(tag) + rest).subrange(
            tag_bytes(tag).len() as int,
            (tag_bytes(tag) + rest).len() as int,
        ) == rest,
{
    let b = encode_utf8(tag);
    assert(tag_bytes(tag) + rest =~= uleb128_bytes(b.len()) + b + rest);
    lemma_event_splits(b, rest);
    encode_utf8_decode_utf8(tag);
    encode_utf8_valid_utf8(tag);
}

/// Law: the relay's target check accepts the intents with which the import
/// creates threads and replies, whatever requests they carry, and its board
/// events (reaction icons, pinned threads), thread events (closing,
/// deleting) and vote replays.
pub proof fn lemma_import_targets_accepted(thread: bool, geo: bool, trip: bool)
    ensures
        spec_validate_target(
            "main"@,
            spec_migrate_target(thread, geo, trip).0,
            if thread {
                "new_thread_migrate_v2"@
            } else {
                "new_post_migrate_v2"@
            },
        ) is Ok,
        spec_validate_target("main"@, "board_apply_intent_uid"@, "set_reactions"@) is Ok,
        spec_validate_target("main"@, "board_apply_intent_uid"@, "set_pinned"@) is Ok,
        spec_validate_target("main"@, "thread_apply_intent_uid"@, "set_closed"@) is Ok,
        spec_validate_target("main"@, "thread_apply_intent_uid"@, "set_deleted"@) is Ok,
        spec_validate_target("main"@, "post_apply_intent_uid_ip32"@, "vote_v2"@) is Ok,
{
    reveal_strlit("main");
    reveal_strlit("forum_apply_intent_uid");
    reveal_strlit("forum_apply_post_intent_uid");
    reveal_strlit("board_apply_intent_uid");
    reveal_strlit("board_apply_thread_intent_uid");
    reveal_strlit("board_apply_intent_uid_tripcode");
    reveal_strlit("board_apply_intent_uid_geo");
    reveal_strlit("board_apply_intent_uid_geo_tripcode");
    reveal_strlit("board_apply_thread_intent_uid_tripcode");
    reveal_strlit("board_apply_thread_intent_uid_geo");
    reveal_strlit("board_apply_thread_intent_uid_geo_tripcode");
    reveal_strlit("board_apply_intent_uid_captcha");
    reveal_strlit("board_apply_intent_uid_tripcode_captcha");
    reveal_strlit("board_apply_intent_uid_geo_captcha");
    reveal_strlit("board_apply_intent_uid_geo_tripcode_captcha");
    reveal_strlit("board_apply_thread_intent_uid_captcha");
    reveal_strlit("board_apply_thread_intent_uid_tripcode_captcha");
    reveal_strlit("board_apply_thread_intent_uid_geo_captcha");
    reveal_strlit("board_apply_thread_intent_uid_geo_tripcode_captcha");
    reveal_strlit("board_apply_post_intent_uid");
    reveal_strlit("thread_apply_intent_uid");
    reveal_strlit("thread_apply_post_intent_uid");
    reveal_strlit("post_apply_intent_uid");
    reveal_strlit("post_apply_intent_uid_ip32");
    reveal_strlit("_geo");
    reveal_strlit("_tripcode");
    reveal_strlit("_geo_tripcode");
    assert("forum_apply_intent_uid"@.len() == 22 && "forum_apply_intent_uid"@[0] == 'f');
    assert("forum_apply_post_intent_uid"@.len() == 27 && "forum_apply_post_intent_uid"@[0] == 'f');
    assert("board_apply_intent_uid"@.len() == 22 && "board_apply_intent_uid"@[0] == 'b');
    assert("board_apply_thread_intent_uid"@.len() == 29 && "board_apply_thread_intent_uid"@[0] == 'b');
    assert("board_apply_intent_uid_tripcode"@.len() == 31 && "board_apply_intent_uid_tripcode"@[0] == 'b');
    assert("board_apply_intent_uid_geo"@.len() == 26 && "board_apply_intent_uid_geo"@[0] == 'b');
    assert("board_apply_intent_uid_geo_tripcode"@.len() == 35 && "board_apply_intent_uid_geo_tripcode"@[0] == 'b');
    assert("board_apply_thread_intent_uid_tripcode"@.len() == 38 && "board_apply_thread_intent_uid_tripcode"@[0] == 'b');
    assert("board_apply_thread_intent_uid_geo"@.len() == 33 && "board_apply_thread_intent_uid_geo"@[0] == 'b');
    assert("board_apply_thread_intent_uid_geo_tripcode"@.len() == 42 && "board_apply_thread_intent_uid_geo_tripcode"@[0] == 'b');
    assert("board_apply_intent_uid_captcha"@.len() == 30 && "board_apply_intent_uid_captcha"@[0] == 'b');
    assert("board_apply_intent_uid_tripcode_captcha"@.len() == 39 && "board_apply_intent_uid_tripcode_captcha"@[0] == 'b');
    assert("board_apply_intent_uid_geo_captcha"@.len() == 34 && "board_apply_intent_uid_geo_captcha"@[0] == 'b');
    assert("board_apply_intent_uid_geo_tripcode_captcha"@.len() == 43 && "board_apply_intent_uid_geo_tripcode_captcha"@[0] == 'b');
    assert("board_apply_thread_intent_uid_captcha"@.len() == 37 && "board_apply_thread_intent_uid_captcha"@[0] == 'b');
    assert("board_apply_thread_intent_uid_tripcode_captcha"@.len() == 46 && "board_apply_thread_intent_uid_tripcode_captcha"@[0] == 'b');
    assert("board_apply_thread_intent_uid_geo_captcha"@.len() == 41 && "board_apply_thread_intent_uid_geo_captcha"@[0] == 'b');
    assert("board_apply_thread_intent_uid_geo_tripcode_captcha"@.len() == 50 && "board_apply_thread_intent_uid_geo_tripcode_captcha"@[0] == 'b');
    assert("board_apply_post_intent_uid"@.len() == 27 && "board_apply_post_intent_uid"@[0] == 'b');
    assert("thread_apply_intent_uid"@.len() == 23 && "thread_apply_intent_uid"@[0] == 't');
    assert("thread_apply_post_intent_uid"@.len() == 28 && "thread_apply_post_intent_uid"@[0] == 't');
    assert("post_apply_intent_uid"@.len() == 21 && "post_apply_intent_uid"@[0] == 'p');
    assert("post_apply_intent_uid_ip32"@.len() == 26 && "post_apply_intent_uid_ip32"@[0] == 'p');
    let f = spec_migrate_target(thread, geo, trip).0;
    if thread {
        if geo && trip {
            assert(f =~= "board_apply_intent_uid_geo_tripcode"@);
        } else if geo {
            assert(f =~= "board_apply_intent_uid_geo"@);
        } else if trip {
            assert(f =~= "board_apply_intent_uid_tripcode"@);
        }
    } else {
        if geo && trip {
            assert(f =~= "board_apply_thread_intent_uid_geo_tripcode"@);
        } else if geo {
            assert(f =~= "board_apply_thread_intent_uid_geo"@);
        } else if trip {
            assert(f =~= "board_apply_thread_intent_uid_tripcode"@);
        }
    }
}

} // verus!

use vstd::prelude::*;

use crate::error::{build_error, is_build_error, RelayError};
use crate::text::str_eq;

verus! {

/// A 32-byte object id or account address.
pub type Address = [u8; 32];

/// An object that an intent touches, and whether it is written.
#[derive(Debug, Clone, Copy)]
pub struct IntentObject {
    pub id: Address,
    pub mutable: bool,
}

/// What an intent asks the relay to attach before it is executed.
#[derive(Debug, Clone, Copy)]
pub enum RequestV2 {
    Uid,
    Ip32(Address),
    Tripcode,
    Geo,
    Captcha,
}

/// A signed request to apply an event to the forum.
#[derive(Debug)]
pub struct IntentV2 {
    pub module: String,
    pub function: String,
    pub nonce: u64,
    pub objects: Vec<IntentObject>,
    pub requests: Vec<RequestV2>,
    pub payload: Vec<u8>,
    pub public_key: Address,
    pub tweak: Address,
}

/// The plain variants of the board-level entry point: one per combination of
/// geo, tripcode and captcha requests.
pub open spec fn is_board_intent_fn(f: Seq<char>) -> bool {
    ||| f == "board_apply_intent_uid"@
    ||| f == "board_apply_intent_uid_geo"@
    ||| f == "board_apply_intent_uid_tripcode"@
    ||| f == "board_apply_intent_uid_geo_tripcode"@
    ||| f == "board_apply_intent_uid_captcha"@
    ||| f == "board_apply_intent_uid_geo_captcha"@
    ||| f == "board_apply_intent_uid_tripcode_captcha"@
    ||| f == "board_apply_intent_uid_geo_tripcode_captcha"@
}

/// The variants of the thread-creating entry point of a board.
pub open spec fn is_board_thread_intent_fn(f: Seq<char>) -> bool {
    ||| f == "board_apply_thread_intent_uid"@
    ||| f == "board_apply_thread_intent_uid_geo"@
    ||| f == "board_apply_thread_intent_uid_tripcode"@
    ||| f == "board_apply_thread_intent_uid_geo_tripcode"@
    ||| f == "board_apply_thread_intent_uid_captcha"@
    ||| f == "board_apply_thread_intent_uid_geo_captcha"@
    ||| f == "board_apply_thread_intent_uid_tripcode_captcha"@
    ||| f == "board_apply_thread_intent_uid_geo_tripcode_captcha"@
}

fn board_intent_fn(f: &str) -> (r: bool)
    ensures
        r == is_board_intent_fn(f@),
{
    str_eq(f, "board_apply_intent_uid") || str_eq(f, "board_apply_intent_uid_geo") || str_eq(
        f,
        "board_apply_intent_uid_tripcode",
    ) || str_eq(f, "board_apply_intent_uid_geo_tripcode") || str_eq(
        f,
        "board_apply_intent_uid_captcha",
    ) || str_eq(f, "board_apply_intent_uid_geo_captcha") || str_eq(
        f,
        "board_apply_intent_uid_tripcode_captcha",
    ) || str_eq(f, "board_apply_intent_uid_geo_tripcode_captcha")
}

fn board_thread_intent_fn(f: &str) -> (r: bool)
    ensures
        r == is_board_thread_intent_fn(f@),
{
    str_eq(f, "board_apply_thread_intent_uid") || str_eq(f, "board_apply_thread_intent_uid_geo")
        || str_eq(f, "board_apply_thread_intent_uid_tripcode") || str_eq(
        f,
        "board_apply_thread_intent_uid_geo_tripcode",
    ) || str_eq(f, "board_apply_thread_intent_uid_captcha") || str_eq(
        f,
        "board_apply_thread_intent_uid_geo_captcha",
    ) || str_eq(f, "board_apply_thread_intent_uid_tripcode_captcha") || str_eq(
        f,
        "board_apply_thread_intent_uid_geo_tripcode_captcha",
    )
}

/// Positions, among an intent's objects, of the forum, board, thread and
/// post that the entry point `f` acts on.
pub open spec fn spec_object_indexes(f: Seq<char>) -> (
    Option<usize>,
    Option<usize>,
    Option<usize>,
    Option<usize>,
) {
    if f == "forum_apply_intent_uid"@ {
        (Some(2), None, None, None)
    } else if f == "forum_apply_post_intent_uid"@ {
        (Some(2), Some(3), Some(4), Some(5))
    } else if is_board_intent_fn(f) {
        (None, Some(3), None, None)
    } else if is_board_thread_intent_fn(f) {
        (None, Some(3), Some(4), None)
    } else if f == "board_apply_post_intent_uid"@ {
        (None, Some(3), Some(4), Some(5))
    } else if f == "thread_apply_intent_uid"@ {
        (None, Some(2), Some(3), None)
    } else if f == "thread_apply_post_intent_uid"@ {
        (None, Some(3), Some(4), Some(5))
    } else if f == "post_apply_intent_uid"@ || f == "post_apply_intent_uid_ip32"@ {
        (None, Some(3), Some(4), Some(5))
    } else {
        (None, None, None, None)
    }
}

pub fn object_indexes(fn_name: &str) -> (r: (
    Option<usize>,
    Option<usize>,
    Option<usize>,
    Option<usize>,
))
    ensures
        r == spec_object_indexes(fn_name@),
{
    if str_eq(fn_name, "forum_apply_intent_uid") {
        (Some(2), None, None, None)
    } else if str_eq(fn_name, "forum_apply_post_intent_uid") {
        (Some(2), Some(3), Some(4), Some(5))
    } else if board_intent_fn(fn_name) {
        (None, Some(3), None, None)
    } else if board_thread_intent_fn(fn_name) {
        (None, Some(3), Some(4), None)
    } else if str_eq(fn_name, "board_apply_post_intent_uid") {
        (None, Some(3), Some(4), Some(5))
    } else if str_eq(fn_name, "thread_apply_intent_uid") {
        (None, Some(2), Some(3), None)
    } else if str_eq(fn_name, "thread_apply_post_intent_uid") {
        (None, Some(3), Some(4), Some(5))
    } else if str_eq(fn_name, "post_apply_intent_uid") || str_eq(
        fn_name,
        "post_apply_intent_uid_ip32",
    ) {
        (None, Some(3), Some(4), Some(5))
    } else {
        (None, None, None, None)
    }
}

/// The id of the object at an optional position, when the position exists.
pub open spec fn spec_obj_at(objects: Seq<IntentObject>, idx: Option<usize>) -> Option<Address> {
    match idx {
        Some(i) => if i < objects.len() {
            Some(objects[i as int].id)
        } else {
            None
        },
        None => None,
    }
}

pub fn obj_at(objects: &[IntentObject], idx: Option<usize>) -> (r: Option<Address>)
    ensures
        r == spec_obj_at(objects@, idx),
{
    match idx {
        Some(i) => if i < objects.len() {
            Some(objects[i].id)
        } else {
            None
        },
        None => None,
    }
}

/// Positions of the forum, board and thread whose bans apply to an intent of
/// entry point `f`, or `None` for an entry point without such a hierarchy.
pub open spec fn spec_hierarchy_indices(f: Seq<char>) -> Option<(usize, Option<usize>, Option<usize>)> {
    if f == "forum_apply_intent_uid"@ {
        Some((2, None, None))
    } else if f == "forum_apply_post_intent_uid"@ || f == "board_apply_post_intent_uid"@ || f
        == "thread_apply_post_intent_uid"@ || f == "post_apply_intent_uid"@ || f
        == "post_apply_intent_uid_ip32"@ {
        Some((2, Some(3), Some(4)))
    } else if is_board_intent_fn(f) {
        Some((2, Some(3), None))
    } else if is_board_thread_intent_fn(f) {
        Some((2, Some(3), Some(4)))
    } else if f == "thread_apply_intent_uid"@ {
        Some((1, Some(2), Some(3)))
    } else {
        None
    }
}

pub fn hierarchy_indices(function: &str) -> (r: Result<(usize, Option<usize>, Option<usize>), RelayError>)
    ensures
        spec_hierarchy_indices(function@) matches Some(v) ==> r is Ok && r->Ok_0 == v,
        spec_hierarchy_indices(function@) is None ==> r is Err && is_build_error(
            r->Err_0,
            "unsupported intent hierarchy"@,
        ),
{
    if str_eq(function, "forum_apply_intent_uid") {
        Ok((2, None, None))
    } else if str_eq(function, "forum_apply_post_intent_uid") || str_eq(
        function,
        "board_apply_post_intent_uid",
    ) || str_eq(function, "thread_apply_post_intent_uid") || str_eq(
        function,
        "post_apply_intent_uid",
    ) || str_eq(function, "post_apply_intent_uid_ip32") {
        Ok((2, Some(3), Some(4)))
    } else if board_intent_fn(function) {
        Ok((2, Some(3), None))
    } else if board_thread_intent_fn(function) {
        Ok((2, Some(3), Some(4)))
    } else if str_eq(function, "thread_apply_intent_uid") {
        Ok((1, Some(2), Some(3)))
    } else {
        Err(build_error("unsupported intent hierarchy"))
    }
}

} // verus!

verus! {

/// For entry point `f`: `None` when the relay does not serve it, otherwise
/// whether event `tag` may be applied through it.
pub open spec fn spec_event_allowed(f: Seq<char>, tag: Seq<char>) -> Option<bool> {
    if f == "forum_apply_intent_uid"@ {
        Some(tag == "upgrade"@ || tag == "add_moderator"@ || tag == "del_moderator"@ || tag == "new_board"@ || tag == "set_timestamp_precision"@)
    } else if f == "forum_apply_post_intent_uid"@ {
        Some(tag == "ban"@ || tag == "unban"@)
    } else if f == "board_apply_intent_uid"@ {
        Some(tag == "upgrade"@ || tag == "add_moderator"@ || tag == "del_moderator"@ || tag == "set_max_media"@ || tag == "set_bump_limit"@ || tag == "set_closed"@ || tag == "set_deleted"@ || tag == "new_thread_migrate_v2"@ || tag == "set_description"@ || tag == "set_ignore_forum_bans"@ || tag == "set_reactions"@ || tag == "set_pinned"@)
    } else if f == "board_apply_thread_intent_uid"@ {
        Some(tag == "new_post_migrate_v2"@)
    } else if f == "board_apply_intent_uid_tripcode"@ || f == "board_apply_intent_uid_geo"@ || f == "board_apply_intent_uid_geo_tripcode"@ {
        Some(tag == "new_thread_migrate_v2"@)
    } else if f == "board_apply_thread_intent_uid_tripcode"@ || f == "board_apply_thread_intent_uid_geo"@ || f == "board_apply_thread_intent_uid_geo_tripcode"@ {
        Some(tag == "new_post_migrate_v2"@)
    } else if f == "board_apply_intent_uid_captcha"@ || f == "board_apply_intent_uid_tripcode_captcha"@ || f == "board_apply_intent_uid_geo_captcha"@ || f == "board_apply_intent_uid_geo_tripcode_captcha"@ {
        Some(tag == "new_thread_v2"@)
    } else if f == "board_apply_thread_intent_uid_captcha"@ || f == "board_apply_thread_intent_uid_tripcode_captcha"@ || f == "board_apply_thread_intent_uid_geo_captcha"@ || f == "board_apply_thread_intent_uid_geo_tripcode_captcha"@ {
        Some(tag == "new_post_v2"@)
    } else if f == "board_apply_post_intent_uid"@ {
        Some(tag == "ban"@ || tag == "unban"@)
    } else if f == "thread_apply_intent_uid"@ {
        Some(tag == "upgrade"@ || tag == "add_moderator"@ || tag == "del_moderator"@ || tag == "set_closed"@ || tag == "set_deleted"@ || tag == "set_topic"@ || tag == "set_admin"@)
    } else if f == "thread_apply_post_intent_uid"@ {
        Some(tag == "ban"@ || tag == "unban"@ || tag == "post_set_deleted"@ || tag == "post_set_text"@)
    } else if f == "post_apply_intent_uid"@ {
        Some(tag == "upgrade"@ || tag == "ban_media"@ || tag == "unban_media"@ || tag == "set_deleted"@)
    } else if f == "post_apply_intent_uid_ip32"@ {
        Some(tag == "set_reaction"@ || tag == "vote_v2"@)
    } else {
        None
    }
}

fn event_allowed(f: &str, tag: &str) -> (r: Option<bool>)
    ensures
        r == spec_event_allowed(f@, tag@),
{
    if str_eq(f, "forum_apply_intent_uid") {
        Some(str_eq(tag, "upgrade") || str_eq(tag, "add_moderator") || str_eq(tag, "del_moderator") || str_eq(tag, "new_board") || str_eq(tag, "set_timestamp_precision"))
    } else if str_eq(f, "forum_apply_post_intent_uid") {
        Some(str_eq(tag, "ban") || str_eq(tag, "unban"))
    } else if str_eq(f, "board_apply_intent_uid") {
        Some(str_eq(tag, "upgrade") || str_eq(tag, "add_moderator") || str_eq(tag, "del_moderator") || str_eq(tag, "set_max_media") || str_eq(tag, "set_bump_limit") || str_eq(tag, "set_closed") || str_eq(tag, "set_deleted") || str_eq(tag, "new_thread_migrate_v2") || str_eq(tag, "set_description") || str_eq(tag, "set_ignore_forum_bans") || str_eq(tag, "set_reactions") || str_eq(tag, "set_pinned"))
    } else if str_eq(f, "board_apply_thread_intent_uid") {
        Some(str_eq(tag, "new_post_migrate_v2"))
    } else if str_eq(f, "board_apply_intent_uid_tripcode") || str_eq(f, "board_apply_intent_uid_geo") || str_eq(f, "board_apply_intent_uid_geo_tripcode") {
        Some(str_eq(tag, "new_thread_migrate_v2"))
    } else if str_eq(f, "board_apply_thread_intent_uid_tripcode") || str_eq(f, "board_apply_thread_intent_uid_geo") || str_eq(f, "board_apply_thread_intent_uid_geo_tripcode") {
        Some(str_eq(tag, "new_post_migrate_v2"))
    } else if str_eq(f, "board_apply_intent_uid_captcha") || str_eq(f, "board_apply_intent_uid_tripcode_captcha") || str_eq(f, "board_apply_intent_uid_geo_captcha") || str_eq(f, "board_apply_intent_uid_geo_tripcode_captcha") {
        Some(str_eq(tag, "new_thread_v2"))
    } else if str_eq(f, "board_apply_thread_intent_uid_captcha") || str_eq(f, "board_apply_thread_intent_uid_tripcode_captcha") || str_eq(f, "board_apply_thread_intent_uid_geo_captcha") || str_eq(f, "board_apply_thread_intent_uid_geo_tripcode_captcha") {
        Some(str_eq(tag, "new_post_v2"))
    } else if str_eq(f, "board_apply_post_intent_uid") {
        Some(str_eq(tag, "ban") || str_eq(tag, "unban"))
    } else if str_eq(f, "thread_apply_intent_uid") {
        Some(str_eq(tag, "upgrade") || str_eq(tag, "add_moderator") || str_eq(tag, "del_moderator") || str_eq(tag, "set_closed") || str_eq(tag, "set_deleted") || str_eq(tag, "set_topic") || str_eq(tag, "set_admin"))
    } else if str_eq(f, "thread_apply_post_intent_uid") {
        Some(str_eq(tag, "ban") || str_eq(tag, "unban") || str_eq(tag, "post_set_deleted") || str_eq(tag, "post_set_text"))
    } else if str_eq(f, "post_apply_intent_uid") {
        Some(str_eq(tag, "upgrade") || str_eq(tag, "ban_media") || str_eq(tag, "unban_media") || str_eq(tag, "set_deleted"))
    } else if str_eq(f, "post_apply_intent_uid_ip32") {
        Some(str_eq(tag, "set_reaction") || str_eq(tag, "vote_v2"))
    } else {
        None
    }
}

/// The outcome of checking that an intent targets an entry point the relay
/// serves with an event allowed there.
pub open spec fn spec_validate_target(module: Seq<char>, f: Seq<char>, tag: Seq<char>) -> Result<(), Seq<char>> {
    if module != "main"@ {
        Err("intent module must be main"@)
    } else {
        match spec_event_allowed(f, tag) {
            None => Err("unsupported intent function"@),
            Some(false) => Err("event is not allowed for intent function"@),
            Some(true) => Ok(()),
        }
    }
}

pub fn validate_target(intent: &IntentV2, event_tag: &str) -> (r: Result<(), RelayError>)
    ensures
        spec_validate_target(intent.module@, intent.function@, event_tag@) is Ok <==> r is Ok,
        spec_validate_target(intent.module@, intent.function@, event_tag@) matches Err(m)
            ==> r is Err && is_build_error(r->Err_0, m),
{
    if !str_eq(intent.module.as_str(), "main") {
        return Err(build_error("intent module must be main"));
    }
    match event_allowed(intent.function.as_str(), event_tag) {
        None => Err(build_error("unsupported intent function")),
        Some(false) => Err(build_error("event is not allowed for intent function")),
        Some(true) => Ok(()),
    }
}

/// Every intent that passes the target check names an entry point whose
/// forum, board and thread the ban check can find.
pub proof fn lemma_accepted_targets_have_hierarchy(module: Seq<char>, f: Seq<char>, tag: Seq<char>)
    requires
        spec_validate_target(module, f, tag) is Ok,
    ensures
        spec_hierarchy_indices(f) is Some,
{
}

} // verus!

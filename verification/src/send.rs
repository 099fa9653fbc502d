use vstd::prelude::*;

use crate::bbcode::addr_eq;
use crate::codec::{bcs_encode_bytes, bcs_max_len, uleb128_bytes};
use crate::digest::{blake2b256, blake2b256_of};
use crate::error::{build_error, is_build_error, spec_is_retryable_upstream, RelayError};
use crate::intent::{spec_event_allowed, spec_validate_target, Address, IntentObject};
use crate::ipv4::{parse_ipv4, spec_ipv4};
use crate::moderation::{spec_decrypt_message, BanLevel};
use crate::requests::{spec_trip_kind, spec_trip_of, spec_trip_response, trip_response};
use crate::sui::{ed25519_check, ed25519_key_valid, ed25519_verifies, Ed25519Refusal};
use crate::text::{decimal_chars, has_prefix, push_decimal, push_text, str_eq};
use crate::tripcode::tripcode;
use crate::keys::SponsorService;
use crate::sui::{ed25519_public_of, ed25519_signature_of};
use crate::moderation::decrypt_message;
use vstd::string::StringSliceAdditionalSpecFns;
use vstd::utf8::encode_utf8;

verus! {

/// The largest transaction the relay submits, in bytes.
pub const MAX_TX_SIZE: usize = 131072;

/// The kinds of event payload that the relay checks before it sponsors an
/// intent.
#[derive(Debug, Clone, Copy, PartialEq, Eq, Structural)]
pub enum PayloadKind {
    NewBoard,
    NewThread,
    NewPost,
    SetText,
    SetTopic,
    SetDescription,
    Ban,
}

/// The captcha-guarded board entry points that create threads.
pub open spec fn thread_captcha_fn(f: Seq<char>) -> bool {
    f == "board_apply_intent_uid_captcha"@ || f == "board_apply_intent_uid_tripcode_captcha"@ || f
        == "board_apply_intent_uid_geo_captcha"@ || f == "board_apply_intent_uid_geo_tripcode_captcha"@
}

/// The captcha-guarded entry points that create posts in a thread.
pub open spec fn post_captcha_fn(f: Seq<char>) -> bool {
    f == "board_apply_thread_intent_uid_captcha"@ || f
        == "board_apply_thread_intent_uid_tripcode_captcha"@ || f
        == "board_apply_thread_intent_uid_geo_captcha"@ || f
        == "board_apply_thread_intent_uid_geo_tripcode_captcha"@
}

/// Which payload an intent of entry point `f` with event `tag` carries that
/// the relay must check; `None` for events it passes on unchecked.
pub open spec fn spec_payload_kind(f: Seq<char>, tag: Seq<char>) -> Option<PayloadKind> {
    if f == "forum_apply_intent_uid"@ && tag == "new_board"@ {
        Some(PayloadKind::NewBoard)
    } else if thread_captcha_fn(f) && tag == "new_thread_v2"@ {
        Some(PayloadKind::NewThread)
    } else if post_captcha_fn(f) && tag == "new_post_v2"@ {
        Some(PayloadKind::NewPost)
    } else if f == "thread_apply_post_intent_uid"@ && tag == "post_set_text"@ {
        Some(PayloadKind::SetText)
    } else if f == "thread_apply_intent_uid"@ && tag == "set_topic"@ {
        Some(PayloadKind::SetTopic)
    } else if f == "board_apply_intent_uid"@ && tag == "set_description"@ {
        Some(PayloadKind::SetDescription)
    } else if (f == "forum_apply_post_intent_uid"@ || f == "board_apply_post_intent_uid"@ || f
        == "thread_apply_post_intent_uid"@) && tag == "ban"@ {
        Some(PayloadKind::Ban)
    } else {
        None
    }
}

pub fn payload_kind(function: &str, tag: &str) -> (r: Option<PayloadKind>)
    ensures
        r == spec_payload_kind(function@, tag@),
{
    if str_eq(function, "forum_apply_intent_uid") && str_eq(tag, "new_board") {
        Some(PayloadKind::NewBoard)
    } else if (str_eq(function, "board_apply_intent_uid_captcha") || str_eq(
        function,
        "board_apply_intent_uid_tripcode_captcha",
    ) || str_eq(function, "board_apply_intent_uid_geo_captcha") || str_eq(
        function,
        "board_apply_intent_uid_geo_tripcode_captcha",
    )) && str_eq(tag, "new_thread_v2") {
        Some(PayloadKind::NewThread)
    } else if (str_eq(function, "board_apply_thread_intent_uid_captcha") || str_eq(
        function,
        "board_apply_thread_intent_uid_tripcode_captcha",
    ) || str_eq(function, "board_apply_thread_intent_uid_geo_captcha") || str_eq(
        function,
        "board_apply_thread_intent_uid_geo_tripcode_captcha",
    )) && str_eq(tag, "new_post_v2") {
        Some(PayloadKind::NewPost)
    } else if str_eq(function, "thread_apply_post_intent_uid") && str_eq(tag, "post_set_text") {
        Some(PayloadKind::SetText)
    } else if str_eq(function, "thread_apply_intent_uid") && str_eq(tag, "set_topic") {
        Some(PayloadKind::SetTopic)
    } else if str_eq(function, "board_apply_intent_uid") && str_eq(tag, "set_description") {
        Some(PayloadKind::SetDescription)
    } else if (str_eq(function, "forum_apply_post_intent_uid") || str_eq(
        function,
        "board_apply_post_intent_uid",
    ) || str_eq(function, "thread_apply_post_intent_uid")) && str_eq(tag, "ban") {
        Some(PayloadKind::Ban)
    } else {
        None
    }
}

proof fn lemma_only_new_board(f: Seq<char>, tag: Seq<char>)
    requires
        spec_validate_target("main"@, f, tag) is Ok,
        tag == "new_board"@,
    ensures
        spec_payload_kind(f, tag) == Some(PayloadKind::NewBoard),
{
    reveal_strlit("new_board");
    reveal_strlit("add_moderator");
    assert("add_moderator"@[0] != "new_board"@[0]);
    assert(tag != "add_moderator"@);
    reveal_strlit("ban");
    assert("ban"@[0] != "new_board"@[0]);
    assert(tag != "ban"@);
    reveal_strlit("ban_media");
    assert("ban_media"@[0] != "new_board"@[0]);
    assert(tag != "ban_media"@);
    reveal_strlit("del_moderator");
    assert("del_moderator"@[0] != "new_board"@[0]);
    assert(tag != "del_moderator"@);
    reveal_strlit("new_post_migrate_v2");
    assert("new_post_migrate_v2"@[4] != "new_board"@[4]);
    assert(tag != "new_post_migrate_v2"@);
    reveal_strlit("new_post_v2");
    assert("new_post_v2"@[4] != "new_board"@[4]);
    assert(tag != "new_post_v2"@);
    reveal_strlit("new_thread_migrate_v2");
    assert("new_thread_migrate_v2"@[4] != "new_board"@[4]);
    assert(tag != "new_thread_migrate_v2"@);
    reveal_strlit("new_thread_v2");
    assert("new_thread_v2"@[4] != "new_board"@[4]);
    assert(tag != "new_thread_v2"@);
    reveal_strlit("post_set_deleted");
    assert("post_set_deleted"@[0] != "new_board"@[0]);
    assert(tag != "post_set_deleted"@);
    reveal_strlit("post_set_text");
    assert("post_set_text"@[0] != "new_board"@[0]);
    assert(tag != "post_set_text"@);
    reveal_strlit("set_admin");
    assert("set_admin"@[0] != "new_board"@[0]);
    assert(tag != "set_admin"@);
    reveal_strlit("set_bump_limit");
    assert("set_bump_limit"@[0] != "new_board"@[0]);
    assert(tag != "set_bump_limit"@);
    reveal_strlit("set_closed");
    assert("set_closed"@[0] != "new_board"@[0]);
    assert(tag != "set_closed"@);
    reveal_strlit("set_deleted");
    assert("set_deleted"@[0] != "new_board"@[0]);
    assert(tag != "set_deleted"@);
    reveal_strlit("set_description");
    assert("set_description"@[0] != "new_board"@[0]);
    assert(tag != "set_description"@);
    reveal_strlit("set_ignore_forum_bans");
    assert("set_ignore_forum_bans"@[0] != "new_board"@[0]);
    assert(tag != "set_ignore_forum_bans"@);
    reveal_strlit("set_max_media");
    assert("set_max_media"@[0] != "new_board"@[0]);
    assert(tag != "set_max_media"@);
    reveal_strlit("set_pinned");
    assert("set_pinned"@[0] != "new_board"@[0]);
    assert(tag != "set_pinned"@);
    reveal_strlit("set_reaction");
    assert("set_reaction"@[0] != "new_board"@[0]);
    assert(tag != "set_reaction"@);
    reveal_strlit("set_reactions");
    assert("set_reactions"@[0] != "new_board"@[0]);
    assert(tag != "set_reactions"@);
    reveal_strlit("set_timestamp_precision");
    assert("set_timestamp_precision"@[0] != "new_board"@[0]);
    assert(tag != "set_timestamp_precision"@);
    reveal_strlit("set_topic");
    assert("set_topic"@[0] != "new_board"@[0]);
    assert(tag != "set_topic"@);
    reveal_strlit("unban");
    assert("unban"@[0] != "new_board"@[0]);
    assert(tag != "unban"@);
    reveal_strlit("unban_media");
    assert("unban_media"@[0] != "new_board"@[0]);
    assert(tag != "unban_media"@);
    reveal_strlit("upgrade");
    assert("upgrade"@[0] != "new_board"@[0]);
    assert(tag != "upgrade"@);
    reveal_strlit("vote_v2");
    assert("vote_v2"@[0] != "new_board"@[0]);
    assert(tag != "vote_v2"@);
}

proof fn lemma_only_new_thread_v2(f: Seq<char>, tag: Seq<char>)
    requires
        spec_validate_target("main"@, f, tag) is Ok,
        tag == "new_thread_v2"@,
    ensures
        spec_payload_kind(f, tag) == Some(PayloadKind::NewThread),
{
    reveal_strlit("new_thread_v2");
    reveal_strlit("add_moderator");
    assert("add_moderator"@[0] != "new_thread_v2"@[0]);
    assert(tag != "add_moderator"@);
    reveal_strlit("ban");
    assert("ban"@[0] != "new_thread_v2"@[0]);
    assert(tag != "ban"@);
    reveal_strlit("ban_media");
    assert("ban_media"@[0] != "new_thread_v2"@[0]);
    assert(tag != "ban_media"@);
    reveal_strlit("del_moderator");
    assert("del_moderator"@[0] != "new_thread_v2"@[0]);
    assert(tag != "del_moderator"@);
    reveal_strlit("new_board");
    assert("new_board"@[4] != "new_thread_v2"@[4]);
    assert(tag != "new_board"@);
    reveal_strlit("new_post_migrate_v2");
    assert("new_post_migrate_v2"@[4] != "new_thread_v2"@[4]);
    assert(tag != "new_post_migrate_v2"@);
    reveal_strlit("new_post_v2");
    assert("new_post_v2"@[4] != "new_thread_v2"@[4]);
    assert(tag != "new_post_v2"@);
    reveal_strlit("new_thread_migrate_v2");
    assert("new_thread_migrate_v2"@[11] != "new_thread_v2"@[11]);
    assert(tag != "new_thread_migrate_v2"@);
    reveal_strlit("post_set_deleted");
    assert("post_set_deleted"@[0] != "new_thread_v2"@[0]);
    assert(tag != "post_set_deleted"@);
    reveal_strlit("post_set_text");
    assert("post_set_text"@[0] != "new_thread_v2"@[0]);
    assert(tag != "post_set_text"@);
    reveal_strlit("set_admin");
    assert("set_admin"@[0] != "new_thread_v2"@[0]);
    assert(tag != "set_admin"@);
    reveal_strlit("set_bump_limit");
    assert("set_bump_limit"@[0] != "new_thread_v2"@[0]);
    assert(tag != "set_bump_limit"@);
    reveal_strlit("set_closed");
    assert("set_closed"@[0] != "new_thread_v2"@[0]);
    assert(tag != "set_closed"@);
    reveal_strlit("set_deleted");
    assert("set_deleted"@[0] != "new_thread_v2"@[0]);
    assert(tag != "set_deleted"@);
    reveal_strlit("set_description");
    assert("set_description"@[0] != "new_thread_v2"@[0]);
    assert(tag != "set_description"@);
    reveal_strlit("set_ignore_forum_bans");
    assert("set_ignore_forum_bans"@[0] != "new_thread_v2"@[0]);
    assert(tag != "set_ignore_forum_bans"@);
    reveal_strlit("set_max_media");
    assert("set_max_media"@[0] != "new_thread_v2"@[0]);
    assert(tag != "set_max_media"@);
    reveal_strlit("set_pinned");
    assert("set_pinned"@[0] != "new_thread_v2"@[0]);
    assert(tag != "set_pinned"@);
    reveal_strlit("set_reaction");
    assert("set_reaction"@[0] != "new_thread_v2"@[0]);
    assert(tag != "set_reaction"@);
    reveal_strlit("set_reactions");
    assert("set_reactions"@[0] != "new_thread_v2"@[0]);
    assert(tag != "set_reactions"@);
    reveal_strlit("set_timestamp_precision");
    assert("set_timestamp_precision"@[0] != "new_thread_v2"@[0]);
    assert(tag != "set_timestamp_precision"@);
    reveal_strlit("set_topic");
    assert("set_topic"@[0] != "new_thread_v2"@[0]);
    assert(tag != "set_topic"@);
    reveal_strlit("unban");
    assert("unban"@[0] != "new_thread_v2"@[0]);
    assert(tag != "unban"@);
    reveal_strlit("unban_media");
    assert("unban_media"@[0] != "new_thread_v2"@[0]);
    assert(tag != "unban_media"@);
    reveal_strlit("upgrade");
    assert("upgrade"@[0] != "new_thread_v2"@[0]);
    assert(tag != "upgrade"@);
    reveal_strlit("vote_v2");
    assert("vote_v2"@[0] != "new_thread_v2"@[0]);
    assert(tag != "vote_v2"@);
}

proof fn lemma_only_new_post_v2(f: Seq<char>, tag: Seq<char>)
    requires
        spec_validate_target("main"@, f, tag) is Ok,
        tag == "new_post_v2"@,
    ensures
        spec_payload_kind(f, tag) == Some(PayloadKind::NewPost),
{
    reveal_strlit("new_post_v2");
    reveal_strlit("add_moderator");
    assert("add_moderator"@[0] != "new_post_v2"@[0]);
    assert(tag != "add_moderator"@);
    reveal_strlit("ban");
    assert("ban"@[0] != "new_post_v2"@[0]);
    assert(tag != "ban"@);
    reveal_strlit("ban_media");
    assert("ban_media"@[0] != "new_post_v2"@[0]);
    assert(tag != "ban_media"@);
    reveal_strlit("del_moderator");
    assert("del_moderator"@[0] != "new_post_v2"@[0]);
    assert(tag != "del_moderator"@);
    reveal_strlit("new_board");
    assert("new_board"@[4] != "new_post_v2"@[4]);
    assert(tag != "new_board"@);
    reveal_strlit("new_post_migrate_v2");
    assert("new_post_migrate_v2"@[9] != "new_post_v2"@[9]);
    assert(tag != "new_post_migrate_v2"@);
    reveal_strlit("new_thread_migrate_v2");
    assert("new_thread_migrate_v2"@[4] != "new_post_v2"@[4]);
    assert(tag != "new_thread_migrate_v2"@);
    reveal_strlit("new_thread_v2");
    assert("new_thread_v2"@[4] != "new_post_v2"@[4]);
    assert(tag != "new_thread_v2"@);
    reveal_strlit("post_set_deleted");
    assert("post_set_deleted"@[0] != "new_post_v2"@[0]);
    assert(tag != "post_set_deleted"@);
    reveal_strlit("post_set_text");
    assert("post_set_text"@[0] != "new_post_v2"@[0]);
    assert(tag != "post_set_text"@);
    reveal_strlit("set_admin");
    assert("set_admin"@[0] != "new_post_v2"@[0]);
    assert(tag != "set_admin"@);
    reveal_strlit("set_bump_limit");
    assert("set_bump_limit"@[0] != "new_post_v2"@[0]);
    assert(tag != "set_bump_limit"@);
    reveal_strlit("set_closed");
    assert("set_closed"@[0] != "new_post_v2"@[0]);
    assert(tag != "set_closed"@);
    reveal_strlit("set_deleted");
    assert("set_deleted"@[0] != "new_post_v2"@[0]);
    assert(tag != "set_deleted"@);
    reveal_strlit("set_description");
    assert("set_description"@[0] != "new_post_v2"@[0]);
    assert(tag != "set_description"@);
    reveal_strlit("set_ignore_forum_bans");
    assert("set_ignore_forum_bans"@[0] != "new_post_v2"@[0]);
    assert(tag != "set_ignore_forum_bans"@);
    reveal_strlit("set_max_media");
    assert("set_max_media"@[0] != "new_post_v2"@[0]);
    assert(tag != "set_max_media"@);
    reveal_strlit("set_pinned");
    assert("set_pinned"@[0] != "new_post_v2"@[0]);
    assert(tag != "set_pinned"@);
    reveal_strlit("set_reaction");
    assert("set_reaction"@[0] != "new_post_v2"@[0]);
    assert(tag != "set_reaction"@);
    reveal_strlit("set_reactions");
    assert("set_reactions"@[0] != "new_post_v2"@[0]);
    assert(tag != "set_reactions"@);
    reveal_strlit("set_timestamp_precision");
    assert("set_timestamp_precision"@[0] != "new_post_v2"@[0]);
    assert(tag != "set_timestamp_precision"@);
    reveal_strlit("set_topic");
    assert("set_topic"@[0] != "new_post_v2"@[0]);
    assert(tag != "set_topic"@);
    reveal_strlit("unban");
    assert("unban"@[0] != "new_post_v2"@[0]);
    assert(tag != "unban"@);
    reveal_strlit("unban_media");
    assert("unban_media"@[0] != "new_post_v2"@[0]);
    assert(tag != "unban_media"@);
    reveal_strlit("upgrade");
    assert("upgrade"@[0] != "new_post_v2"@[0]);
    assert(tag != "upgrade"@);
    reveal_strlit("vote_v2");
    assert("vote_v2"@[0] != "new_post_v2"@[0]);
    assert(tag != "vote_v2"@);
}

proof fn lemma_only_post_set_text(f: Seq<char>, tag: Seq<char>)
    requires
        spec_validate_target("main"@, f, tag) is Ok,
        tag == "post_set_text"@,
    ensures
        spec_payload_kind(f, tag) == Some(PayloadKind::SetText),
{
    reveal_strlit("post_set_text");
    reveal_strlit("add_moderator");
    assert("add_moderator"@[0] != "post_set_text"@[0]);
    assert(tag != "add_moderator"@);
    reveal_strlit("ban");
    assert("ban"@[0] != "post_set_text"@[0]);
    assert(tag != "ban"@);
    reveal_strlit("ban_media");
    assert("ban_media"@[0] != "post_set_text"@[0]);
    assert(tag != "ban_media"@);
    reveal_strlit("del_moderator");
    assert("del_moderator"@[0] != "post_set_text"@[0]);
    assert(tag != "del_moderator"@);
    reveal_strlit("new_board");
    assert("new_board"@[0] != "post_set_text"@[0]);
    assert(tag != "new_board"@);
    reveal_strlit("new_post_migrate_v2");
    assert("new_post_migrate_v2"@[0] != "post_set_text"@[0]);
    assert(tag != "new_post_migrate_v2"@);
    reveal_strlit("new_post_v2");
    assert("new_post_v2"@[0] != "post_set_text"@[0]);
    assert(tag != "new_post_v2"@);
    reveal_strlit("new_thread_migrate_v2");
    assert("new_thread_migrate_v2"@[0] != "post_set_text"@[0]);
    assert(tag != "new_thread_migrate_v2"@);
    reveal_strlit("new_thread_v2");
    assert("new_thread_v2"@[0] != "post_set_text"@[0]);
    assert(tag != "new_thread_v2"@);
    reveal_strlit("post_set_deleted");
    assert("post_set_deleted"@[9] != "post_set_text"@[9]);
    assert(tag != "post_set_deleted"@);
    reveal_strlit("set_admin");
    assert("set_admin"@[0] != "post_set_text"@[0]);
    assert(tag != "set_admin"@);
    reveal_strlit("set_bump_limit");
    assert("set_bump_limit"@[0] != "post_set_text"@[0]);
    assert(tag != "set_bump_limit"@);
    reveal_strlit("set_closed");
    assert("set_closed"@[0] != "post_set_text"@[0]);
    assert(tag != "set_closed"@);
    reveal_strlit("set_deleted");
    assert("set_deleted"@[0] != "post_set_text"@[0]);
    assert(tag != "set_deleted"@);
    reveal_strlit("set_description");
    assert("set_description"@[0] != "post_set_text"@[0]);
    assert(tag != "set_description"@);
    reveal_strlit("set_ignore_forum_bans");
    assert("set_ignore_forum_bans"@[0] != "post_set_text"@[0]);
    assert(tag != "set_ignore_forum_bans"@);
    reveal_strlit("set_max_media");
    assert("set_max_media"@[0] != "post_set_text"@[0]);
    assert(tag != "set_max_media"@);
    reveal_strlit("set_pinned");
    assert("set_pinned"@[0] != "post_set_text"@[0]);
    assert(tag != "set_pinned"@);
    reveal_strlit("set_reaction");
    assert("set_reaction"@[0] != "post_set_text"@[0]);
    assert(tag != "set_reaction"@);
    reveal_strlit("set_reactions");
    assert("set_reactions"@[0] != "post_set_text"@[0]);
    assert(tag != "set_reactions"@);
    reveal_strlit("set_timestamp_precision");
    assert("set_timestamp_precision"@[0] != "post_set_text"@[0]);
    assert(tag != "set_timestamp_precision"@);
    reveal_strlit("set_topic");
    assert("set_topic"@[0] != "post_set_text"@[0]);
    assert(tag != "set_topic"@);
    reveal_strlit("unban");
    assert("unban"@[0] != "post_set_text"@[0]);
    assert(tag != "unban"@);
    reveal_strlit("unban_media");
    assert("unban_media"@[0] != "post_set_text"@[0]);
    assert(tag != "unban_media"@);
    reveal_strlit("upgrade");
    assert("upgrade"@[0] != "post_set_text"@[0]);
    assert(tag != "upgrade"@);
    reveal_strlit("vote_v2");
    assert("vote_v2"@[0] != "post_set_text"@[0]);
    assert(tag != "vote_v2"@);
}

proof fn lemma_only_set_topic(f: Seq<char>, tag: Seq<char>)
    requires
        spec_validate_target("main"@, f, tag) is Ok,
        tag == "set_topic"@,
    ensures
        spec_payload_kind(f, tag) == Some(PayloadKind::SetTopic),
{
    reveal_strlit("set_topic");
    reveal_strlit("add_moderator");
    assert("add_moderator"@[0] != "set_topic"@[0]);
    assert(tag != "add_moderator"@);
    reveal_strlit("ban");
    assert("ban"@[0] != "set_topic"@[0]);
    assert(tag != "ban"@);
    reveal_strlit("ban_media");
    assert("ban_media"@[0] != "set_topic"@[0]);
    assert(tag != "ban_media"@);
    reveal_strlit("del_moderator");
    assert("del_moderator"@[0] != "set_topic"@[0]);
    assert(tag != "del_moderator"@);
    reveal_strlit("new_board");
    assert("new_board"@[0] != "set_topic"@[0]);
    assert(tag != "new_board"@);
    reveal_strlit("new_post_migrate_v2");
    assert("new_post_migrate_v2"@[0] != "set_topic"@[0]);
    assert(tag != "new_post_migrate_v2"@);
    reveal_strlit("new_post_v2");
    assert("new_post_v2"@[0] != "set_topic"@[0]);
    assert(tag != "new_post_v2"@);
    reveal_strlit("new_thread_migrate_v2");
    assert("new_thread_migrate_v2"@[0] != "set_topic"@[0]);
    assert(tag != "new_thread_migrate_v2"@);
    reveal_strlit("new_thread_v2");
    assert("new_thread_v2"@[0] != "set_topic"@[0]);
    assert(tag != "new_thread_v2"@);
    reveal_strlit("post_set_deleted");
    assert("post_set_deleted"@[0] != "set_topic"@[0]);
    assert(tag != "post_set_deleted"@);
    reveal_strlit("post_set_text");
    assert("post_set_text"@[0] != "set_topic"@[0]);
    assert(tag != "post_set_text"@);
    reveal_strlit("set_admin");
    assert("set_admin"@[4] != "set_topic"@[4]);
    assert(tag != "set_admin"@);
    reveal_strlit("set_bump_limit");
    assert("set_bump_limit"@[4] != "set_topic"@[4]);
    assert(tag != "set_bump_limit"@);
    reveal_strlit("set_closed");
    assert("set_closed"@[4] != "set_topic"@[4]);
    assert(tag != "set_closed"@);
    reveal_strlit("set_deleted");
    assert("set_deleted"@[4] != "set_topic"@[4]);
    assert(tag != "set_deleted"@);
    reveal_strlit("set_description");
    assert("set_description"@[4] != "set_topic"@[4]);
    assert(tag != "set_description"@);
    reveal_strlit("set_ignore_forum_bans");
    assert("set_ignore_forum_bans"@[4] != "set_topic"@[4]);
    assert(tag != "set_ignore_forum_bans"@);
    reveal_strlit("set_max_media");
    assert("set_max_media"@[4] != "set_topic"@[4]);
    assert(tag != "set_max_media"@);
    reveal_strlit("set_pinned");
    assert("set_pinned"@[4] != "set_topic"@[4]);
    assert(tag != "set_pinned"@);
    reveal_strlit("set_reaction");
    assert("set_reaction"@[4] != "set_topic"@[4]);
    assert(tag != "set_reaction"@);
    reveal_strlit("set_reactions");
    assert("set_reactions"@[4] != "set_topic"@[4]);
    assert(tag != "set_reactions"@);
    reveal_strlit("set_timestamp_precision");
    assert("set_timestamp_precision"@[5] != "set_topic"@[5]);
    assert(tag != "set_timestamp_precision"@);
    reveal_strlit("unban");
    assert("unban"@[0] != "set_topic"@[0]);
    assert(tag != "unban"@);
    reveal_strlit("unban_media");
    assert("unban_media"@[0] != "set_topic"@[0]);
    assert(tag != "unban_media"@);
    reveal_strlit("upgrade");
    assert("upgrade"@[0] != "set_topic"@[0]);
    assert(tag != "upgrade"@);
    reveal_strlit("vote_v2");
    assert("vote_v2"@[0] != "set_topic"@[0]);
    assert(tag != "vote_v2"@);
}

proof fn lemma_only_set_description(f: Seq<char>, tag: Seq<char>)
    requires
        spec_validate_target("main"@, f, tag) is Ok,
        tag == "set_description"@,
    ensures
        spec_payload_kind(f, tag) == Some(PayloadKind::SetDescription),
{
    reveal_strlit("set_description");
    reveal_strlit("add_moderator");
    assert("add_moderator"@[0] != "set_description"@[0]);
    assert(tag != "add_moderator"@);
    reveal_strlit("ban");
    assert("ban"@[0] != "set_description"@[0]);
    assert(tag != "ban"@);
    reveal_strlit("ban_media");
    assert("ban_media"@[0] != "set_description"@[0]);
    assert(tag != "ban_media"@);
    reveal_strlit("del_moderator");
    assert("del_moderator"@[0] != "set_description"@[0]);
    assert(tag != "del_moderator"@);
    reveal_strlit("new_board");
    assert("new_board"@[0] != "set_description"@[0]);
    assert(tag != "new_board"@);
    reveal_strlit("new_post_migrate_v2");
    assert("new_post_migrate_v2"@[0] != "set_description"@[0]);
    assert(tag != "new_post_migrate_v2"@);
    reveal_strlit("new_post_v2");
    assert("new_post_v2"@[0] != "set_description"@[0]);
    assert(tag != "new_post_v2"@);
    reveal_strlit("new_thread_migrate_v2");
    assert("new_thread_migrate_v2"@[0] != "set_description"@[0]);
    assert(tag != "new_thread_migrate_v2"@);
    reveal_strlit("new_thread_v2");
    assert("new_thread_v2"@[0] != "set_description"@[0]);
    assert(tag != "new_thread_v2"@);
    reveal_strlit("post_set_deleted");
    assert("post_set_deleted"@[0] != "set_description"@[0]);
    assert(tag != "post_set_deleted"@);
    reveal_strlit("post_set_text");
    assert("post_set_text"@[0] != "set_description"@[0]);
    assert(tag != "post_set_text"@);
    reveal_strlit("set_admin");
    assert("set_admin"@[4] != "set_description"@[4]);
    assert(tag != "set_admin"@);
    reveal_strlit("set_bump_limit");
    assert("set_bump_limit"@[4] != "set_description"@[4]);
    assert(tag != "set_bump_limit"@);
    reveal_strlit("set_closed");
    assert("set_closed"@[4] != "set_description"@[4]);
    assert(tag != "set_closed"@);
    reveal_strlit("set_deleted");
    assert("set_deleted"@[6] != "set_description"@[6]);
    assert(tag != "set_deleted"@);
    reveal_strlit("set_ignore_forum_bans");
    assert("set_ignore_forum_bans"@[4] != "set_description"@[4]);
    assert(tag != "set_ignore_forum_bans"@);
    reveal_strlit("set_max_media");
    assert("set_max_media"@[4] != "set_description"@[4]);
    assert(tag != "set_max_media"@);
    reveal_strlit("set_pinned");
    assert("set_pinned"@[4] != "set_description"@[4]);
    assert(tag != "set_pinned"@);
    reveal_strlit("set_reaction");
    assert("set_reaction"@[4] != "set_description"@[4]);
    assert(tag != "set_reaction"@);
    reveal_strlit("set_reactions");
    assert("set_reactions"@[4] != "set_description"@[4]);
    assert(tag != "set_reactions"@);
    reveal_strlit("set_timestamp_precision");
    assert("set_timestamp_precision"@[4] != "set_description"@[4]);
    assert(tag != "set_timestamp_precision"@);
    reveal_strlit("set_topic");
    assert("set_topic"@[4] != "set_description"@[4]);
    assert(tag != "set_topic"@);
    reveal_strlit("unban");
    assert("unban"@[0] != "set_description"@[0]);
    assert(tag != "unban"@);
    reveal_strlit("unban_media");
    assert("unban_media"@[0] != "set_description"@[0]);
    assert(tag != "unban_media"@);
    reveal_strlit("upgrade");
    assert("upgrade"@[0] != "set_description"@[0]);
    assert(tag != "upgrade"@);
    reveal_strlit("vote_v2");
    assert("vote_v2"@[0] != "set_description"@[0]);
    assert(tag != "vote_v2"@);
}

proof fn lemma_only_ban(f: Seq<char>, tag: Seq<char>)
    requires
        spec_validate_target("main"@, f, tag) is Ok,
        tag == "ban"@,
    ensures
        spec_payload_kind(f, tag) == Some(PayloadKind::Ban),
{
    reveal_strlit("ban");
    reveal_strlit("add_moderator");
    assert("add_moderator"@[0] != "ban"@[0]);
    assert(tag != "add_moderator"@);
    reveal_strlit("ban_media");
    assert("ban_media"@.len() != "ban"@.len());
    assert(tag != "ban_media"@);
    reveal_strlit("del_moderator");
    assert("del_moderator"@[0] != "ban"@[0]);
    assert(tag != "del_moderator"@);
    reveal_strlit("new_board");
    assert("new_board"@[0] != "ban"@[0]);
    assert(tag != "new_board"@);
    reveal_strlit("new_post_migrate_v2");
    assert("new_post_migrate_v2"@[0] != "ban"@[0]);
    assert(tag != "new_post_migrate_v2"@);
    reveal_strlit("new_post_v2");
    assert("new_post_v2"@[0] != "ban"@[0]);
    assert(tag != "new_post_v2"@);
    reveal_strlit("new_thread_migrate_v2");
    assert("new_thread_migrate_v2"@[0] != "ban"@[0]);
    assert(tag != "new_thread_migrate_v2"@);
    reveal_strlit("new_thread_v2");
    assert("new_thread_v2"@[0] != "ban"@[0]);
    assert(tag != "new_thread_v2"@);
    reveal_strlit("post_set_deleted");
    assert("post_set_deleted"@[0] != "ban"@[0]);
    assert(tag != "post_set_deleted"@);
    reveal_strlit("post_set_text");
    assert("post_set_text"@[0] != "ban"@[0]);
    assert(tag != "post_set_text"@);
    reveal_strlit("set_admin");
    assert("set_admin"@[0] != "ban"@[0]);
    assert(tag != "set_admin"@);
    reveal_strlit("set_bump_limit");
    assert("set_bump_limit"@[0] != "ban"@[0]);
    assert(tag != "set_bump_limit"@);
    reveal_strlit("set_closed");
    assert("set_closed"@[0] != "ban"@[0]);
    assert(tag != "set_closed"@);
    reveal_strlit("set_deleted");
    assert("set_deleted"@[0] != "ban"@[0]);
    assert(tag != "set_deleted"@);
    reveal_strlit("set_description");
    assert("set_description"@[0] != "ban"@[0]);
    assert(tag != "set_description"@);
    reveal_strlit("set_ignore_forum_bans");
    assert("set_ignore_forum_bans"@[0] != "ban"@[0]);
    assert(tag != "set_ignore_forum_bans"@);
    reveal_strlit("set_max_media");
    assert("set_max_media"@[0] != "ban"@[0]);
    assert(tag != "set_max_media"@);
    reveal_strlit("set_pinned");
    assert("set_pinned"@[0] != "ban"@[0]);
    assert(tag != "set_pinned"@);
    reveal_strlit("set_reaction");
    assert("set_reaction"@[0] != "ban"@[0]);
    assert(tag != "set_reaction"@);
    reveal_strlit("set_reactions");
    assert("set_reactions"@[0] != "ban"@[0]);
    assert(tag != "set_reactions"@);
    reveal_strlit("set_timestamp_precision");
    assert("set_timestamp_precision"@[0] != "ban"@[0]);
    assert(tag != "set_timestamp_precision"@);
    reveal_strlit("set_topic");
    assert("set_topic"@[0] != "ban"@[0]);
    assert(tag != "set_topic"@);
    reveal_strlit("unban");
    assert("unban"@[0] != "ban"@[0]);
    assert(tag != "unban"@);
    reveal_strlit("unban_media");
    assert("unban_media"@[0] != "ban"@[0]);
    assert(tag != "unban_media"@);
    reveal_strlit("upgrade");
    assert("upgrade"@[0] != "ban"@[0]);
    assert(tag != "upgrade"@);
    reveal_strlit("vote_v2");
    assert("vote_v2"@[0] != "ban"@[0]);
    assert(tag != "vote_v2"@);
}

/// Law: of the intents the target check accepts, exactly those whose event
/// carries content the intent commits to (a new board, thread or post, a
/// post's new text, a thread's topic, a board's description, a ban's
/// reason) are checked, each as the payload of its own event.
pub proof fn lemma_committed_payloads_checked(f: Seq<char>, tag: Seq<char>)
    requires
        spec_validate_target("main"@, f, tag) is Ok,
    ensures
        tag == "new_board"@ <==> spec_payload_kind(f, tag) == Some(PayloadKind::NewBoard),
        tag == "new_thread_v2"@ <==> spec_payload_kind(f, tag) == Some(PayloadKind::NewThread),
        tag == "new_post_v2"@ <==> spec_payload_kind(f, tag) == Some(PayloadKind::NewPost),
        tag == "post_set_text"@ <==> spec_payload_kind(f, tag) == Some(PayloadKind::SetText),
        tag == "set_topic"@ <==> spec_payload_kind(f, tag) == Some(PayloadKind::SetTopic),
        tag == "set_description"@ <==> spec_payload_kind(f, tag) == Some(
            PayloadKind::SetDescription,
        ),
        tag == "ban"@ <==> spec_payload_kind(f, tag) == Some(PayloadKind::Ban),
{
    if tag == "new_board"@ {
        lemma_only_new_board(f, tag);
    }
    if tag == "new_thread_v2"@ {
        lemma_only_new_thread_v2(f, tag);
    }
    if tag == "new_post_v2"@ {
        lemma_only_new_post_v2(f, tag);
    }
    if tag == "post_set_text"@ {
        lemma_only_post_set_text(f, tag);
    }
    if tag == "set_topic"@ {
        lemma_only_set_topic(f, tag);
    }
    if tag == "set_description"@ {
        lemma_only_set_description(f, tag);
    }
    if tag == "ban"@ {
        lemma_only_ban(f, tag);
    }
}


/// Checks that a blob is the content an intent commits to: its BLAKE2b-256
/// hash is the given one.
pub fn verify_hash(expected: &Address, blob: &[u8]) -> (r: Result<(), RelayError>)
    ensures
        r is Ok <==> blake2b256_of(blob@) == expected@,
        r matches Err(e) ==> is_build_error(e, "content hash mismatch"@),
{
    let h = blake2b256(blob);
    if addr_eq(&h, expected) {
        Ok(())
    } else {
        Err(build_error("content hash mismatch"))
    }
}

/// Checks a plain text against the hash an intent commits to; `Ok(true)`
/// when there is a text to store, `Ok(false)` when there is neither.
pub fn verify_plaintext(hash: Option<Address>, value: Option<&str>) -> (r: Result<bool, RelayError>)
    ensures
        hash is None && value is None ==> r == Ok::<bool, RelayError>(false),
        hash is Some && value is None ==> r is Err && is_build_error(
            r->Err_0,
            "plaintext hash present but no content provided"@,
        ),
        hash is None && value is Some ==> r is Err && is_build_error(
            r->Err_0,
            "plaintext provided but intent hash is None"@,
        ),
        hash matches Some(h) ==> (value matches Some(t) ==> (r is Ok <==> blake2b256_of(
            t.spec_bytes(),
        ) == h@) && (r is Ok ==> r == Ok::<bool, RelayError>(true)) && (r matches Err(e)
            ==> is_build_error(e, "content hash mismatch"@))),
{
    match (hash, value) {
        (Some(h), Some(text)) => match verify_hash(&h, text.as_bytes()) {
            Ok(()) => Ok(true),
            Err(e) => Err(e),
        },
        (None, None) => Ok(false),
        (Some(_), None) => Err(build_error("plaintext hash present but no content provided")),
        (None, Some(_)) => Err(build_error("plaintext provided but intent hash is None")),
    }
}

/// `"{what} {a} exceeds {b}"`-style messages: a fixed text and two numbers.
pub open spec fn count_text(before: Seq<char>, a: nat, middle: Seq<char>, b: nat) -> Seq<char> {
    before + decimal_chars(a) + middle + decimal_chars(b)
}

fn count_message(before: &str, a: u64, middle: &str, b: u64) -> (r: String)
    ensures
        r@ == count_text(before@, a as nat, middle@, b as nat),
{
    let mut s = String::new();
    push_text(&mut s, before);
    push_decimal(&mut s, a);
    push_text(&mut s, middle);
    push_decimal(&mut s, b);
    s
}

/// A post may carry no more media than its board allows.
pub fn check_media_count(count: u64, max_media: u64) -> (r: Result<(), RelayError>)
    ensures
        r is Ok <==> count <= max_media,
        r matches Err(e) ==> is_build_error(
            e,
            count_text("media count "@, count as nat, " exceeds board max_media "@, max_media as nat),
        ),
{
    if count > max_media {
        Err(RelayError::SponsorBuild(count_message("media count ", count, " exceeds board max_media ", max_media)))
    } else {
        Ok(())
    }
}

/// The rich text of a post must come with the hash the intent commits to, and
/// not exceed the relay's limit. `Ok(true)` when there is a text to check
/// further (decode, hash) and store.
pub fn check_text_presence(has_hash: bool, text_len: Option<u64>, max_text_size: u64) -> (r: Result<bool, RelayError>)
    ensures
        has_hash ==> (text_len matches Some(n) ==> (r is Ok <==> n <= max_text_size) && (r is Ok ==> r
            == Ok::<bool, RelayError>(true)) && (r matches Err(e) ==> is_build_error(
            e,
            count_text("text size "@, n as nat, " exceeds max "@, max_text_size as nat),
        ))),
        !has_hash && text_len is None ==> r == Ok::<bool, RelayError>(false),
        has_hash && text_len is None ==> r is Err && is_build_error(
            r->Err_0,
            "text_hash present but no text content provided"@,
        ),
        !has_hash && text_len is Some ==> r is Err && is_build_error(
            r->Err_0,
            "text provided but intent text_hash is None"@,
        ),
{
    match (has_hash, text_len) {
        (true, Some(n)) => if n > max_text_size {
            Err(RelayError::SponsorBuild(count_message("text size ", n, " exceeds max ", max_text_size)))
        } else {
            Ok(true)
        },
        (false, None) => Ok(false),
        (true, None) => Err(build_error("text_hash present but no text content provided")),
        (false, Some(_)) => Err(build_error("text provided but intent text_hash is None")),
    }
}

/// Every media hash of an intent must come with one uploaded file.
pub fn check_media_pairs(files: u64, hashes: u64) -> (r: Result<(), RelayError>)
    ensures
        r is Ok <==> files == hashes,
        r matches Err(e) ==> is_build_error(
            e,
            count_text("media count mismatch: "@, files as nat, " blobs vs "@, hashes as nat)
                + " hashes"@,
        ),
{
    if files != hashes {
        let mut m = count_message("media count mismatch: ", files, " blobs vs ", hashes);
        push_text(&mut m, " hashes");
        Err(RelayError::SponsorBuild(m))
    } else {
        Ok(())
    }
}

/// A thread's topic may hold at most 150 bytes.
pub fn check_topic(topic: Option<&str>) -> (r: Result<(), RelayError>)
    ensures
        r is Ok <==> !(topic matches Some(t) && t.spec_bytes().len() as usize > 150),
        r matches Err(e) ==> is_build_error(e, "topic exceeds 150 chars"@),
{
    match topic {
        Some(t) => if t.len() > 150 {
            Err(build_error("topic exceeds 150 chars"))
        } else {
            Ok(())
        },
        None => Ok(()),
    }
}

/// A batch must fit in one transaction.
pub fn check_tx_size(size: u64) -> (r: Result<(), RelayError>)
    ensures
        r is Ok <==> size <= MAX_TX_SIZE,
        r matches Err(e) ==> is_build_error(
            e,
            count_text("batch too large: "@, size as nat, " bytes > "@, MAX_TX_SIZE as nat)
                + ", reduce chunk size"@,
        ),
{
    if size > MAX_TX_SIZE as u64 {
        let mut m = count_message("batch too large: ", size, " bytes > ", MAX_TX_SIZE as u64);
        push_text(&mut m, ", reduce chunk size");
        Err(RelayError::SponsorBuild(m))
    } else {
        Ok(())
    }
}

/// The client's address for an identity request: it must be IPv4.
pub fn request_ip(remote_ip: &str) -> (r: Result<u32, RelayError>)
    ensures
        spec_ipv4(remote_ip@) matches Some(v) ==> r == Ok::<u32, RelayError>(v),
        spec_ipv4(remote_ip@) is None ==> r is Err && is_build_error(
            r->Err_0,
            "invalid ipv4: invalid IPv4 address syntax"@,
        ),
{
    match parse_ipv4(remote_ip) {
        Some(v) => Ok(v),
        None => Err(build_error("invalid ipv4: invalid IPv4 address syntax")),
    }
}

/// The answer to a tripcode request: the client must have sent a name field
/// that asks for a tripcode.
pub fn tripcode_answer(raw: Option<&str>, key: &str) -> (r: Result<Vec<u8>, RelayError>)
    ensures
        raw is None ==> r is Err && is_build_error(
            r->Err_0,
            "tripcode requested but not provided"@,
        ),
        raw matches Some(t) ==> match spec_trip_kind(t@) {
            None => r is Err && is_build_error(r->Err_0, "tripcode must start with # or ##"@),
            Some((secured, seed)) => match spec_trip_of(secured, seed, key.spec_bytes()) {
                Some(trip) => encode_utf8(trip).len() <= bcs_max_len() ==> r is Ok && r->Ok_0@
                    == spec_trip_response(secured, encode_utf8(trip)),
                None => r is Err,
            },
        },
{
    let t = match raw {
        Some(t) => t,
        None => return Err(build_error("tripcode requested but not provided")),
    };
    match crate::requests::compute_trip(t, key) {
        Ok(Some((secured, trip))) => trip_response(secured, trip.as_str()),
        Ok(None) => Err(build_error("tripcode must start with # or ##")),
        Err(e) => Err(e),
    }
}

/// The answer to a country request: the country's code, 0 when unknown, in
/// four bytes, least significant first.
pub fn geo_answer(code: Option<u32>) -> (r: Vec<u8>)
    ensures
        r@ == crate::moderation::le_bytes(
            match code {
                Some(c) => c as nat,
                None => 0,
            },
        ).take(4),
{
    let v: u32 = match code {
        Some(c) => c,
        None => 0,
    };
    let mut r: Vec<u8> = Vec::new();
    r.push((v % 0x100) as u8);
    r.push((v / 0x100 % 0x100) as u8);
    r.push((v / 0x1_0000 % 0x100) as u8);
    r.push((v / 0x100_0000 % 0x100) as u8);
    assert(r@ =~= crate::moderation::le_bytes(v as nat).take(4));
    r
}

/// The captcha token of a request that asks for a captcha check.
pub fn captcha_token(token: Option<&str>) -> (r: Result<&str, RelayError>)
    ensures
        token matches Some(t) ==> r is Ok && r->Ok_0@ == t@,
        token is None ==> r is Err && is_build_error(
            r->Err_0,
            "captcha requested but not provided"@,
        ),
{
    match token {
        Some(t) => Ok(t),
        None => Err(build_error("captcha requested but not provided")),
    }
}

/// What the relay does once a transaction was broadcast: answer with the
/// node's response, broadcast again, or give up with the error (and undo
/// what the batch's payloads stored).
pub enum BroadcastStep {
    Done(Vec<u8>),
    Retry,
    GiveUp(RelayError),
}

/// Decides the next step after a broadcast: success ends the loop, a
/// failure of every node for a reason worth retrying broadcasts again, any
/// other error gives up with that error.
pub fn broadcast_step(outcome: Result<Vec<u8>, RelayError>) -> (r: BroadcastStep)
    ensures
        outcome matches Ok(v) ==> r matches BroadcastStep::Done(w) && w@ == v@,
        outcome matches Err(e) ==> (if spec_is_retryable_upstream(e) {
            r is Retry
        } else {
            r == BroadcastStep::GiveUp(e)
        }),
{
    match outcome {
        Ok(v) => BroadcastStep::Done(v),
        Err(e) => if e.is_retryable_upstream() {
            BroadcastStep::Retry
        } else {
            BroadcastStep::GiveUp(e)
        },
    }
}

/// An intent ready to be put into a transaction: what the call needs, the
/// intent's own encoding, its signature and the relay's sealed answers.
#[derive(Debug, Clone)]
pub struct SealedIntent {
    pub module: String,
    pub function: String,
    pub objects: Vec<IntentObject>,
    pub intent_bytes: Vec<u8>,
    pub signature: Vec<u8>,
    pub sealed: Vec<u8>,
}

/// An input of the transaction: a shared or owned object (by id and whether
/// it is written), or pure bytes.
#[derive(Debug, Clone)]
pub enum PlannedInput {
    Object(Address, bool),
    Pure(Vec<u8>),
}

/// One call of the forum's entry point.
#[derive(Debug, Clone)]
pub struct PlannedCall {
    pub module: String,
    pub function: String,
    pub arguments: Vec<u16>,
}

/// The transaction that applies a batch of intents: its calls go to
/// `package`; the sponsor sends it and owns the gas that pays for it.
#[derive(Debug, Clone)]
pub struct TxPlan {
    pub package: Address,
    pub sender: Address,
    pub gas_owner: Address,
    pub gas_price: u64,
    pub inputs: Vec<PlannedInput>,
    pub calls: Vec<PlannedCall>,
    pub gas_budget: u64,
}

/// The objects of a batch, each (id, written) pair once, in order of first
/// use.
pub open spec fn unique_objects(items: Seq<SealedIntent>) -> Seq<(Address, bool)>
    decreases items.len(),
{
    if items.len() == 0 {
        Seq::empty()
    } else {
        add_objects(unique_objects(items.drop_last()), items.last().objects@)
    }
}

/// Adds the pairs of `objs` not yet in `seen`, in order.
pub open spec fn add_objects(seen: Seq<(Address, bool)>, objs: Seq<IntentObject>) -> Seq<(Address, bool)>
    decreases objs.len(),
{
    if objs.len() == 0 {
        seen
    } else {
        let prev = add_objects(seen, objs.drop_last());
        let k = (objs.last().id, objs.last().mutable);
        if prev.contains(k) {
            prev
        } else {
            prev.push(k)
        }
    }
}

/// The (id, written) pair of an object.
pub open spec fn obj_key(o: IntentObject) -> (Address, bool) {
    (o.id, o.mutable)
}

/// Where a pair first occurs.
pub open spec fn index_of(s: Seq<(Address, bool)>, k: (Address, bool)) -> int {
    choose|i: int| 0 <= i < s.len() && s[i] == k
}

fn find_object(s: &Vec<(Address, bool)>, id: &Address, mutable: bool) -> (r: Option<usize>)
    ensures
        r matches Some(i) ==> i < s@.len() && s@[i as int] == (*id, mutable),
        r is None ==> !s@.contains((*id, mutable)),
{
    let mut i: usize = 0;
    while i < s.len()
        invariant
            i <= s@.len(),
            forall|j: int| 0 <= j < i ==> s@[j] != (*id, mutable),
        decreases s.len() - i,
    {
        let (a, m) = s[i];
        if m == mutable && addr_eq(&a, id) {
            return Some(i);
        }
        i = i + 1;
    }
    None
}

proof fn lemma_add_objects_prefix(seen: Seq<(Address, bool)>, objs: Seq<IntentObject>)
    ensures
        add_objects(seen, objs).len() >= seen.len(),
        forall|i: int| 0 <= i < seen.len() ==> add_objects(seen, objs)[i] == seen[i],
        forall|j: int| 0 <= j < objs.len() ==> add_objects(seen, objs).contains(
            obj_key(#[trigger] objs[j]),
        ),
    decreases objs.len(),
{
    if objs.len() > 0 {
        lemma_add_objects_prefix(seen, objs.drop_last());
        let prev = add_objects(seen, objs.drop_last());
        let k = (objs.last().id, objs.last().mutable);
        assert forall|j: int| 0 <= j < objs.len() implies add_objects(seen, objs).contains(
            obj_key(#[trigger] objs[j]),
        ) by {
            if j < objs.len() - 1 {
                assert(objs.drop_last()[j] == objs[j]);
                assert(prev.contains((objs[j].id, objs[j].mutable)));
                if !prev.contains(k) {
                    let w = choose|w: int| 0 <= w < prev.len() && prev[w] == (objs[j].id, objs[j].mutable);
                    assert(prev.push(k)[w] == prev[w]);
                }
            } else {
                if !prev.contains(k) {
                    assert(prev.push(k)[prev.len() as int] == k);
                }
            }
        }
    }
}

/// The inputs of the plan: the unique objects, then for each intent its
/// encoding, its signature (each as BCS bytes) and its sealed answers.
pub open spec fn pure_inputs(item: SealedIntent) -> Seq<Seq<u8>> {
    seq![
        uleb128_bytes(item.intent_bytes@.len()) + item.intent_bytes@,
        uleb128_bytes(item.signature@.len()) + item.signature@,
        item.sealed@,
    ]
}

/// Whether input `at` holds exactly the given pure bytes.
pub open spec fn pure_at(inputs: Seq<PlannedInput>, at: int, bytes: Seq<u8>) -> bool {
    inputs[at] matches PlannedInput::Pure(b) && b@ == bytes
}

/// Whether a planned call applies an intent: it names the intent's entry
/// point, passes the intent's three pure inputs (at `base`) and then, for
/// each object of the intent, the input that holds that object.
pub open spec fn call_ok(
    call: PlannedCall,
    inputs: Seq<PlannedInput>,
    objects: Seq<(Address, bool)>,
    item: SealedIntent,
    base: int,
) -> bool {
    &&& call.module@ == item.module@
    &&& call.function@ == item.function@
    &&& call.arguments@.len() == 3 + item.objects@.len()
    &&& call.arguments@[0] == base as u16
    &&& call.arguments@[1] == (base + 1) as u16
    &&& call.arguments@[2] == (base + 2) as u16
    &&& pure_at(inputs, base, pure_inputs(item)[0])
    &&& pure_at(inputs, base + 1, pure_inputs(item)[1])
    &&& pure_at(inputs, base + 2, pure_inputs(item)[2])
    &&& forall|j: int|
        0 <= j < item.objects@.len() ==> {
            let at = index_of(objects, obj_key(#[trigger] item.objects@[j]));
            &&& 0 <= at < objects.len()
            &&& objects[at] == obj_key(item.objects@[j])
            &&& call.arguments@[3 + j] == at as u16
        }
}

/// Whether the sizes of a batch stay within what BCS encodes.
pub open spec fn encodable(items: Seq<SealedIntent>) -> bool {
    forall|i: int|
        0 <= i < items.len() ==> (#[trigger] items[i]).intent_bytes@.len() <= bcs_max_len()
            && items[i].signature@.len() <= bcs_max_len()
}

/// Plans the transaction that applies a batch of intents: one input per
/// distinct object (shared by the intents that name it), three pure inputs
/// per intent, one call per intent whose arguments are the intent's three
/// pure inputs and then its objects; the gas budget grows with the batch.
/// The calls go to the forum's package; the sponsor is the sender and the
/// owner of the gas, paid at the sponsor's gas price.
#[verifier::rlimit(50)]
pub fn plan_transaction(
    items: &[SealedIntent],
    package: Address,
    sponsor: Address,
    gas_price: u64,
    gas_budget_per_intent: u64,
) -> (r: Result<TxPlan, RelayError>)
    requires
        items@.len() < 0x1_0000_0000,
    ensures
        encodable(items@) ==> r is Ok,
        r matches Ok(plan) ==> {
            &&& plan.package == package
            &&& plan.sender == sponsor
            &&& plan.gas_owner == sponsor
            &&& plan.gas_price == gas_price
            &&& plan.gas_budget == (if gas_budget_per_intent * items@.len() > u64::MAX {
                u64::MAX
            } else {
                (gas_budget_per_intent * items@.len()) as u64
            })
            &&& plan.calls@.len() == items@.len()
            &&& plan.inputs@.len() == unique_objects(items@).len() + 3 * items@.len()
            &&& forall|i: int|
                0 <= i < unique_objects(items@).len() ==> (#[trigger] plan.inputs@[i])
                    == PlannedInput::Object(unique_objects(items@)[i].0, unique_objects(items@)[i].1)
            &&& forall|c: int|
                0 <= c < items@.len() ==> call_ok(
                    #[trigger] plan.calls@[c],
                    plan.inputs@,
                    unique_objects(items@),
                    items@[c],
                    unique_objects(items@).len() + 3 * c,
                )
        },
{
    let mut uniq: Vec<(Address, bool)> = Vec::new();
    let mut i: usize = 0;
    while i < items.len()
        invariant
            i <= items@.len(),
            uniq@ == unique_objects(items@.take(i as int)),
        decreases items.len() - i,
    {
        let objs = &items[i].objects;
        let ghost before = uniq@;
        let mut j: usize = 0;
        while j < objs.len()
            invariant
                j <= objs@.len(),
                objs@ == items@[i as int].objects@,
                uniq@ == add_objects(before, objs@.take(j as int)),
            decreases objs.len() - j,
        {
            assert(objs@.take(j + 1).drop_last() =~= objs@.take(j as int));
            let o = objs[j];
            if find_object(&uniq, &o.id, o.mutable).is_none() {
                uniq.push((o.id, o.mutable));
            }
            j = j + 1;
        }
        assert(objs@.take(j as int) =~= objs@);
        assert(items@.take(i + 1).drop_last() =~= items@.take(i as int));
        i = i + 1;
    }
    assert(items@.take(i as int) =~= items@);
    let ghost u = uniq@;
    proof {
        lemma_unique_objects_prefix(items@);
    }
    let mut inputs: Vec<PlannedInput> = Vec::new();
    let mut k: usize = 0;
    while k < uniq.len()
        invariant
            k <= uniq@.len(),
            inputs@.len() == k,
            forall|x: int| 0 <= x < k ==> (#[trigger] inputs@[x]) == PlannedInput::Object(uniq@[x].0, uniq@[x].1),
        decreases uniq.len() - k,
    {
        let (a, m) = uniq[k];
        inputs.push(PlannedInput::Object(a, m));
        k = k + 1;
    }
    let mut calls: Vec<PlannedCall> = Vec::new();
    let mut c: usize = 0;
    while c < items.len()
        invariant
            c <= items@.len(),
            items@.len() < 0x1_0000_0000,
            uniq@ == unique_objects(items@),
            calls@.len() == c,
            inputs@.len() == uniq@.len() + 3 * c,
            forall|c2: int, j: int|
                0 <= c2 < items@.len() && 0 <= j < items@[c2].objects@.len() ==> uniq@.contains(
                    obj_key(#[trigger] items@[c2].objects@[j]),
                ),
            forall|x: int| 0 <= x < uniq@.len() ==> (#[trigger] inputs@[x]) == PlannedInput::Object(uniq@[x].0, uniq@[x].1),
            forall|c2: int|
                0 <= c2 < c ==> call_ok(
                    #[trigger] calls@[c2],
                    inputs@,
                    uniq@,
                    items@[c2],
                    uniq@.len() + 3 * c2,
                ),
        decreases items.len() - c,
    {
        let item = &items[c];
        let enc = match bcs_encode_bytes(item.intent_bytes.as_slice()) {
            Ok(b) => b,
            Err(_) => return Err(build_error("failed to encode intent bytes")),
        };
        let sig = match bcs_encode_bytes(item.signature.as_slice()) {
            Ok(b) => b,
            Err(_) => return Err(build_error("failed to encode signature")),
        };
        let base = inputs.len();
        let ghost inputs0 = inputs@;
        inputs.push(PlannedInput::Pure(enc));
        inputs.push(PlannedInput::Pure(sig));
        inputs.push(PlannedInput::Pure(item.sealed.clone()));
        assert(inputs@.len() == base + 3);
        let b1 = inputs.len() - 2;
        let b2 = inputs.len() - 1;
        let mut args: Vec<u16> = Vec::new();
        args.push(base as u16);
        args.push(b1 as u16);
        args.push(b2 as u16);
        let mut j: usize = 0;
        proof {
            lemma_unique_objects_distinct(items@);
        }
        while j < item.objects.len()
            invariant
                j <= item.objects@.len(),
                *item == items@[c as int],
                uniq@ == unique_objects(items@),
                pairs_distinct(uniq@),
                args@.len() == 3 + j,
                args@[0] == base as u16,
                args@[1] == (base + 1) as u16,
                args@[2] == (base + 2) as u16,
                forall|j2: int|
                    0 <= j2 < items@[c as int].objects@.len() ==> uniq@.contains(
                        obj_key(#[trigger] items@[c as int].objects@[j2]),
                    ),
                forall|j2: int|
                    0 <= j2 < j ==> {
                        let at = index_of(uniq@, obj_key(#[trigger] item.objects@[j2]));
                        &&& 0 <= at < uniq@.len()
                        &&& uniq@[at] == obj_key(item.objects@[j2])
                        &&& args@[3 + j2] == at as u16
                    },
            decreases item.objects.len() - j,
        {
            let o = item.objects[j];
            assert(uniq@.contains((o.id, o.mutable)));
            let at = match find_object(&uniq, &o.id, o.mutable) {
                Some(x) => x,
                None => 0,
            };
            proof {
                let w = index_of(uniq@, (o.id, o.mutable));
                assert(uniq@[w] == uniq@[at as int]);
                assert(w == at);
            }
            args.push(at as u16);
            j = j + 1;
        }
        let ghost calls0 = calls@;
        calls.push(
            PlannedCall { module: item.module.clone(), function: item.function.clone(), arguments: args },
        );
        proof {
            assert forall|x: int| 0 <= x < base implies #[trigger] inputs@[x] == inputs0[x] by {}
            assert forall|c2: int| 0 <= c2 < c + 1 implies call_ok(
                #[trigger] calls@[c2],
                inputs@,
                uniq@,
                items@[c2],
                uniq@.len() + 3 * c2,
            ) by {
                if c2 < c {
                    assert(calls@[c2] == calls0[c2]);
                    let b2 = uniq@.len() + 3 * c2;
                    assert(inputs@[b2] == inputs0[b2]);
                    assert(inputs@[b2 + 1] == inputs0[b2 + 1]);
                    assert(inputs@[b2 + 2] == inputs0[b2 + 2]);
                }
            }
        }
        c = c + 1;
    }
    let budget = match gas_budget_per_intent.checked_mul(items.len() as u64) {
        Some(b) => b,
        None => u64::MAX,
    };
    Ok(
        TxPlan {
            package,
            sender: sponsor,
            gas_owner: sponsor,
            gas_price,
            inputs,
            calls,
            gas_budget: budget,
        },
    )
}

proof fn lemma_unique_objects_prefix(items: Seq<SealedIntent>)
    ensures
        forall|c: int, j: int|
            0 <= c < items.len() && 0 <= j < items[c].objects@.len() ==> unique_objects(items).contains(
                obj_key(#[trigger] items[c].objects@[j]),
            ),
    decreases items.len(),
{
    if items.len() > 0 {
        lemma_unique_objects_prefix(items.drop_last());
        let prev = unique_objects(items.drop_last());
        lemma_add_objects_prefix(prev, items.last().objects@);
        assert forall|c: int, j: int|
            0 <= c < items.len() && 0 <= j < items[c].objects@.len() implies unique_objects(
            items,
        ).contains(obj_key(#[trigger] items[c].objects@[j])) by {
            let k = obj_key(items[c].objects@[j]);
            if c < items.len() - 1 {
                assert(items.drop_last()[c] == items[c]);
                assert(prev.contains(k));
                let w = choose|w: int| 0 <= w < prev.len() && prev[w] == k;
                assert(unique_objects(items)[w] == k);
            } else {
                assert(items.last().objects@[j] == items[c].objects@[j]);
            }
        }
    }
}

/// No pair occurs twice among the unique objects.
pub open spec fn pairs_distinct(s: Seq<(Address, bool)>) -> bool {
    forall|i: int, j: int| 0 <= i < j < s.len() ==> s[i] != s[j]
}

proof fn lemma_add_objects_distinct(seen: Seq<(Address, bool)>, objs: Seq<IntentObject>)
    requires
        pairs_distinct(seen),
    ensures
        pairs_distinct(add_objects(seen, objs)),
    decreases objs.len(),
{
    if objs.len() > 0 {
        lemma_add_objects_distinct(seen, objs.drop_last());
        let prev = add_objects(seen, objs.drop_last());
        let k = (objs.last().id, objs.last().mutable);
        if !prev.contains(k) {
            assert forall|i: int, j: int| 0 <= i < j < prev.push(k).len() implies prev.push(k)[i]
                != prev.push(k)[j] by {
                if j == prev.len() {
                    assert(prev.push(k)[i] == prev[i]);
                }
            }
        }
    }
}

/// The objects of a transaction plan are distinct: every object an intent
/// names becomes exactly one input.
pub proof fn lemma_unique_objects_distinct(items: Seq<SealedIntent>)
    ensures
        pairs_distinct(unique_objects(items)),
    decreases items.len(),
{
    if items.len() > 0 {
        lemma_unique_objects_distinct(items.drop_last());
        lemma_add_objects_distinct(unique_objects(items.drop_last()), items.last().objects@);
    }
}

/// The deepest level of a reveal request's path (forum, board, thread, post):
/// its ban registry is the one whose entries identify the client.
pub open spec fn spec_deepest_level(path_len: nat) -> BanLevel {
    if path_len >= 3 {
        BanLevel::Thread
    } else if path_len == 2 {
        BanLevel::Board
    } else {
        BanLevel::Forum
    }
}

pub fn deepest_level(path_len: usize) -> (r: BanLevel)
    ensures
        r == spec_deepest_level(path_len as nat),
{
    if path_len >= 3 {
        BanLevel::Thread
    } else if path_len == 2 {
        BanLevel::Board
    } else {
        BanLevel::Forum
    }
}

/// Checks a moderator's request to reveal a client's identity: the path has
/// one to four addresses and `signature` is the moderator's signature of the
/// BLAKE2b-256 hash of the reveal message.
pub fn verify_reveal(uid: &[u8], path: &[Address], pk: &Address, signature: &[u8]) -> (r: Result<
    (),
    RelayError,
>)
    ensures
        (path@.len() == 0 || path@.len() > 4) ==> r is Err && is_build_error(
            r->Err_0,
            "path must have 1-4 addresses"@,
        ),
        1 <= path@.len() <= 4 ==> (r is Ok <==> ed25519_verifies(
            pk@,
            blake2b256_of(spec_decrypt_message(uid@, path@, pk@)),
            signature@,
        )),
        1 <= path@.len() <= 4 && !ed25519_key_valid(pk@) ==> (r matches Err(RelayError::SponsorBuild(m))
            && has_prefix(m@, "invalid pk: "@)),
        1 <= path@.len() <= 4 && ed25519_key_valid(pk@) && signature@.len() != 64 ==> (r matches Err(
            RelayError::SponsorBuild(m),
        ) && has_prefix(m@, "invalid signature: "@)),
        1 <= path@.len() <= 4 && ed25519_key_valid(pk@) && signature@.len() == 64 && r is Err ==> (r matches Err(
            RelayError::SponsorBuild(m),
        ) && has_prefix(m@, "signature verification: "@)),
        r is Err ==> r->Err_0 is SponsorBuild,
{
    let msg = match decrypt_message(uid, path, pk) {
        Ok(m) => m,
        Err(e) => return Err(e),
    };
    let digest = blake2b256(msg.as_slice());
    match ed25519_check(pk, digest.as_slice(), signature) {
        Ok(()) => Ok(()),
        Err(Ed25519Refusal::Key(e)) => Err(RelayError::SponsorBuild(prefixed("invalid pk: ", e.as_str()))),
        Err(Ed25519Refusal::Signature(e)) => Err(RelayError::SponsorBuild(prefixed("invalid signature: ", e.as_str()))),
        Err(Ed25519Refusal::Mismatch(e)) => Err(
            RelayError::SponsorBuild(prefixed("signature verification: ", e.as_str())),
        ),
    }
}

fn prefixed(prefix: &str, rest: &str) -> (r: String)
    ensures
        r@ == prefix@ + rest@,
        has_prefix(r@, prefix@),
{
    let mut s = String::new();
    push_text(&mut s, prefix);
    push_text(&mut s, rest);
    assert(s@.take(prefix@.len() as int) =~= prefix@);
    s
}

/// The relay's seal on the answers `inner` it attaches to an intent signed
/// with `intent_sig`: its signature over the digest of both, BCS-encoded,
/// then its public key, then the answers.
pub open spec fn spec_sealed(seed: Seq<u8>, intent_sig: Seq<u8>, inner: Seq<u8>) -> Seq<u8> {
    let sig = ed25519_signature_of(seed, blake2b256_of(intent_sig + inner));
    uleb128_bytes(sig.len()) + sig + ed25519_public_of(seed) + inner
}

/// Seals the answers to an intent's requests, so that the contract can tell
/// they come from the relay.
pub fn seal_responses(sponsor: &SponsorService, intent_sig: &[u8], inner: &[u8]) -> (r: Vec<u8>)
    ensures
        r@ == spec_sealed(sponsor.seed_bytes(), intent_sig@, inner@),
{
    let mut msg = vstd::slice::slice_to_vec(intent_sig);
    let mut tail = vstd::slice::slice_to_vec(inner);
    msg.append(&mut tail);
    let sig = sponsor.sign_blake2b(msg.as_slice());
    let mut sealed = match bcs_encode_bytes(sig.as_slice()) {
        Ok(v) => v,
        Err(_) => {
            proof {
                assert(false);
            }
            Vec::new()
        },
    };
    let pk = sponsor.sponsor_public_key();
    let mut pk_bytes = vstd::slice::slice_to_vec(pk.as_slice());
    sealed.append(&mut pk_bytes);
    let mut answers = vstd::slice::slice_to_vec(inner);
    sealed.append(&mut answers);
    assert(sealed@ =~= spec_sealed(sponsor.seed_bytes(), intent_sig@, inner@));
    sealed
}

} // verus!

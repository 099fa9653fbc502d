use vstd::prelude::*;

use crate::bbcode::addr_eq;
use crate::codec::{hex_lower, push_hex};
use crate::digest::{blake2b256, blake2b256_of};
use crate::intent::Address;
use crate::media::{spec_detect, FileType};
use crate::text::{chars_of, push_text, string_of};
use vstd::string::StringSliceAdditionalSpecFns;
use vstd::utf8::{
    decode_utf8, encode_utf8, encode_utf8_decode_utf8, encode_utf8_valid_utf8, is_char_boundary,
    is_char_boundary_iff_not_is_continuation_byte,
};

verus! {

/// The kinds of content the relay keeps in the file store.
#[derive(Debug, Clone, Copy, PartialEq, Eq, Structural)]
pub enum ContentKind {
    Text,
    Media,
    Thumbnail,
    PlainText,
}

/// The directory of a kind of content.
pub open spec fn kind_dir(kind: ContentKind) -> Seq<char> {
    match kind {
        ContentKind::Text => "text"@,
        ContentKind::Media => "media"@,
        ContentKind::Thumbnail => "thumb"@,
        ContentKind::PlainText => "plaintext"@,
    }
}

/// `{kind}/{hex[0..2]}/{hex[2..4]}/{hex}`: where content is stored, spread
/// over directories by the first two bytes of its hash.
pub open spec fn spec_content_path(kind: ContentKind, hash: Address) -> Seq<char> {
    let hex = hex_lower(hash@);
    kind_dir(kind) + "/"@ + hex.subrange(0, 2) + "/"@ + hex.subrange(2, 4) + "/"@ + hex
}

proof fn lemma_hex_lower_len(b: Seq<u8>)
    ensures
        hex_lower(b).len() == 2 * b.len(),
    decreases b.len(),
{
    if b.len() > 0 {
        lemma_hex_lower_len(b.drop_last());
    }
}

pub fn content_path(kind: ContentKind, hash: &Address) -> (r: String)
    ensures
        r@ == spec_content_path(kind, *hash),
{
    let mut hex = String::new();
    push_hex(&mut hex, hash.as_slice());
    proof {
        lemma_hex_lower_len(hash@);
    }
    let h = chars_of(hex.as_str());
    let mut s = match kind {
        ContentKind::Text => "text".to_string(),
        ContentKind::Media => "media".to_string(),
        ContentKind::Thumbnail => "thumb".to_string(),
        ContentKind::PlainText => "plaintext".to_string(),
    };
    push_text(&mut s, "/");
    let first = string_of(&h[0..2]);
    push_text(&mut s, first.as_str());
    push_text(&mut s, "/");
    let second = string_of(&h[2..4]);
    push_text(&mut s, second.as_str());
    push_text(&mut s, "/");
    push_text(&mut s, hex.as_str());
    s
}

/// A text without its trailing `/` characters.
pub open spec fn trim_slashes(s: Seq<char>) -> Seq<char>
    decreases s.len(),
{
    if s.len() > 0 && s.last() == '/' {
        trim_slashes(s.drop_last())
    } else {
        s
    }
}

/// The file store's base URL as the relay keeps it: without trailing `/`.
pub fn filer_base(url: &str) -> (r: String)
    ensures
        r@ == trim_slashes(url@),
{
    let c = chars_of(url);
    let mut j: usize = c.len();
    assert(c@.subrange(0, j as int) =~= c@);
    while j > 0 && c[j - 1] == '/'
        invariant
            c@ == url@,
            j <= c@.len(),
            trim_slashes(url@) == trim_slashes(c@.subrange(0, j as int)),
        decreases j,
    {
        assert(c@.subrange(0, j as int).drop_last() =~= c@.subrange(0, j - 1));
        j = j - 1;
    }
    string_of(&c[0..j])
}

/// Where a piece of content lives in the file store.
pub fn content_url(base: &str, kind: ContentKind, hash: &Address) -> (r: String)
    ensures
        r@ == base@ + "/"@ + spec_content_path(kind, *hash),
{
    let mut s = String::new();
    push_text(&mut s, base);
    push_text(&mut s, "/");
    let p = content_path(kind, hash);
    push_text(&mut s, p.as_str());
    s
}

/// The authorization header of a file store request.
pub fn bearer(token: &str) -> (r: String)
    ensures
        r@ == "BEARER "@ + token@,
{
    let mut s = "BEARER ".to_string();
    push_text(&mut s, token);
    s
}

fn contains(list: &[Address], a: &Address) -> (r: bool)
    ensures
        r == list@.contains(*a),
{
    let mut i: usize = 0;
    while i < list.len()
        invariant
            i <= list@.len(),
            forall|j: int| 0 <= j < i ==> list@[j] != *a,
        decreases list.len() - i,
    {
        if addr_eq(&list[i], a) {
            assert(list@[i as int] == *a);
            return true;
        }
        i = i + 1;
    }
    false
}

/// Whether a post's content may be served: board, thread and post are not
/// deleted, and the hash is the post's text (for text) or one of its media
/// that was not banned (for the other kinds).
pub open spec fn spec_content_visible(
    deleted: (bool, bool, bool),
    kind: ContentKind,
    hash: Address,
    text_hash: Option<Address>,
    media: Seq<Address>,
    banned: Seq<Address>,
) -> bool {
    &&& !deleted.0 && !deleted.1 && !deleted.2
    &&& if kind == ContentKind::Text {
        text_hash == Some(hash)
    } else {
        media.contains(hash) && !banned.contains(hash)
    }
}

pub fn content_visible(
    deleted: (bool, bool, bool),
    kind: ContentKind,
    hash: &Address,
    text_hash: Option<Address>,
    media: &[Address],
    banned: &[Address],
) -> (r: bool)
    ensures
        r == spec_content_visible(deleted, kind, *hash, text_hash, media@, banned@),
{
    if deleted.0 || deleted.1 || deleted.2 {
        return false;
    }
    match kind {
        ContentKind::Text => match text_hash {
            Some(t) => addr_eq(&t, hash),
            None => false,
        },
        _ => contains(media, hash) && !contains(banned, hash),
    }
}

/// Checks an uploaded reaction image: its hash must be the one it is stored
/// under, and it must be a supported format.
pub fn check_reaction_upload(hash: &Address, data: &[u8]) -> (r: Result<(), &'static str>)
    ensures
        blake2b256_of(data@) != hash@ ==> r is Err && r->Err_0@ == "content hash mismatch"@,
        blake2b256_of(data@) == hash@ && spec_detect(data@) is None ==> r is Err && r->Err_0@
            == "unsupported file type"@,
        blake2b256_of(data@) == hash@ && spec_detect(data@) is Some ==> r is Ok,
{
    let h = blake2b256(data);
    if !addr_eq(&h, hash) {
        return Err("content hash mismatch");
    }
    if FileType::detect(data).is_none() {
        return Err("unsupported file type");
    }
    Ok(())
}

/// How many entries a feed page holds.
pub const FEED_LIMIT: u64 = 20;

/// The page of a feed that ends before `cursor` (or at the feed's end):
/// counters `start..end`, and the cursor of the next page unless the page
/// reaches the feed's first entry.
pub open spec fn spec_feed_window(cursor: Option<u64>, counter: u64) -> (u64, u64, Option<u64>) {
    let end: u64 = match cursor {
        Some(c) => c,
        None => (counter + 1) as u64,
    };
    let start: u64 = if end > FEED_LIMIT {
        (end - FEED_LIMIT) as u64
    } else {
        1
    };
    (start, end, if start > 1 {
        Some(start)
    } else {
        None
    })
}

pub fn feed_window(cursor: Option<u64>, counter: u64) -> (r: (u64, u64, Option<u64>))
    requires
        counter < u64::MAX,
    ensures
        r == spec_feed_window(cursor, counter),
{
    let end = match cursor {
        Some(c) => c,
        None => counter + 1,
    };
    let start = if end > FEED_LIMIT {
        end - FEED_LIMIT
    } else {
        1
    };
    (start, end, if start > 1 {
        Some(start)
    } else {
        None
    })
}

/// Following a feed page's cursor gives the page just before it: the pages
/// meet without gap or overlap.
pub proof fn lemma_feed_pages_meet(cursor: Option<u64>, counter: u64)
    requires
        spec_feed_window(cursor, counter).2 is Some,
    ensures
        spec_feed_window(spec_feed_window(cursor, counter).2, counter).1 == spec_feed_window(
            cursor,
            counter,
        ).0,
        spec_feed_window(spec_feed_window(cursor, counter).2, counter).0 < spec_feed_window(
            cursor,
            counter,
        ).0,
{
}

/// How many bans a page lists.
pub const BANS_LIMIT: u64 = 50;

/// The bans of a page: positions `start..end` of all `total` bans, and the
/// cursor of the next page while bans remain.
pub open spec fn spec_bans_page(total: u64, cursor: Option<u64>) -> (u64, u64, Option<u64>) {
    let start: u64 = match cursor {
        Some(c) => c,
        None => 0,
    };
    let end: u64 = if start >= total {
        start
    } else if total - start > BANS_LIMIT {
        (start + BANS_LIMIT) as u64
    } else {
        total
    };
    (start, end, if end < total {
        Some(end)
    } else {
        None
    })
}

pub fn bans_page(total: u64, cursor: Option<u64>) -> (r: (u64, u64, Option<u64>))
    ensures
        r == spec_bans_page(total, cursor),
{
    let start = match cursor {
        Some(c) => c,
        None => 0,
    };
    let end = if start >= total {
        start
    } else if total - start > BANS_LIMIT {
        start + BANS_LIMIT
    } else {
        total
    };
    (start, end, if end < total {
        Some(end)
    } else {
        None
    })
}

/// Where the old backend keeps an uploaded file: under the file store's base
/// (without trailing `/`) and the key, in directories named by the first two
/// and the next two bytes of the file's MD5 text; `None` for a text that is
/// not 32 bytes long.
pub open spec fn spec_media_url(base: Seq<char>, key: Seq<char>, md5: Seq<char>) -> Option<Seq<char>> {
    let b = encode_utf8(md5);
    if b.len() != 32 {
        None
    } else {
        Some(
            trim_slashes(base) + "/"@ + key + "/"@ + decode_utf8(b.subrange(0, 2)) + "/"@ + decode_utf8(
                b.subrange(2, 4),
            ) + "/"@ + md5 + ".orig"@,
        )
    }
}

/// The URL from which the import downloads a post's file of MD5 text `md5`.
pub fn media_url(file_base: &str, file_key: &str, md5: &str) -> (r: Option<String>)
    requires
        md5.spec_bytes().len() == 32 ==> is_char_boundary(md5.spec_bytes(), 2) && is_char_boundary(
            md5.spec_bytes(),
            4,
        ),
    ensures
        r matches Some(u) ==> spec_media_url(file_base@, file_key@, md5@) == Some(u@),
        r is None ==> spec_media_url(file_base@, file_key@, md5@) is None,
{
    if md5.as_bytes().len() != 32 {
        return None;
    }
    let ghost bytes = md5.spec_bytes();
    proof {
        encode_utf8_valid_utf8(md5@);
    }
    let (head, _) = md5.split_at(4);
    proof {
        encode_utf8_valid_utf8(head@);
        is_char_boundary_iff_not_is_continuation_byte(bytes, 2);
        is_char_boundary_iff_not_is_continuation_byte(head.spec_bytes(), 2);
        assert(head.spec_bytes()[2] == bytes[2]);
    }
    let (first, second) = head.split_at(2);
    proof {
        encode_utf8_decode_utf8(first@);
        encode_utf8_decode_utf8(second@);
        assert(first.spec_bytes() =~= bytes.subrange(0, 2));
        assert(second.spec_bytes() =~= bytes.subrange(2, 4));
    }
    let mut url = filer_base(file_base);
    push_text(&mut url, "/");
    push_text(&mut url, file_key);
    push_text(&mut url, "/");
    push_text(&mut url, first);
    push_text(&mut url, "/");
    push_text(&mut url, second);
    push_text(&mut url, "/");
    push_text(&mut url, md5);
    push_text(&mut url, ".orig");
    Some(url)
}

/// Law: content is served only from a live board, thread and post; text
/// only under the post's text hash; anything else only when it is one of the
/// post's media and was not banned. Banned media is never served, and the
/// post's unbanned media of a live post always is.
pub proof fn lemma_content_visibility(
    deleted: (bool, bool, bool),
    kind: ContentKind,
    hash: Address,
    text_hash: Option<Address>,
    media: Seq<Address>,
    banned: Seq<Address>,
)
    ensures
        (deleted.0 || deleted.1 || deleted.2) ==> !spec_content_visible(
            deleted,
            kind,
            hash,
            text_hash,
            media,
            banned,
        ),
        kind != ContentKind::Text && banned.contains(hash) ==> !spec_content_visible(
            deleted,
            kind,
            hash,
            text_hash,
            media,
            banned,
        ),
        kind != ContentKind::Text && !media.contains(hash) ==> !spec_content_visible(
            deleted,
            kind,
            hash,
            text_hash,
            media,
            banned,
        ),
        kind == ContentKind::Text && text_hash != Some(hash) ==> !spec_content_visible(
            deleted,
            kind,
            hash,
            text_hash,
            media,
            banned,
        ),
        !deleted.0 && !deleted.1 && !deleted.2 && kind != ContentKind::Text && media.contains(hash)
            && !banned.contains(hash) ==> spec_content_visible(
            deleted,
            kind,
            hash,
            text_hash,
            media,
            banned,
        ),
        !deleted.0 && !deleted.1 && !deleted.2 && kind == ContentKind::Text && text_hash == Some(hash)
            ==> spec_content_visible(deleted, kind, hash, text_hash, media, banned),
{
}

} // verus!

use vstd::prelude::*;

use crate::bbcode::{cr_to_lf, crlf_to_lf, normalize_newlines};

use crate::error::RelayError;
use crate::intent::RequestV2;
use crate::ipv4::{parse_ipv4, spec_ipv4};
use crate::moderation::le_bytes;
use crate::requests::{country_numeric, iso3166_numeric, spec_trip_response, trip_response};
use crate::codec::bcs_max_len;
use crate::text::{chars_of, parse_u64, push_char, push_text, spec_parse_u64, str_eq, string_of, trim, trim_text};
use vstd::string::StringSliceAdditionalSpecFns;
use vstd::utf8::encode_utf8;

verus! {

/// A numeric field of a dump row: the trimmed text as a number, 0 when it is
/// missing or not a number.
pub open spec fn spec_csv_num(v: Option<Seq<char>>) -> u64 {
    match v {
        Some(s) => match spec_parse_u64(trim(s)) {
            Ok(n) => n,
            Err(_) => 0,
        },
        None => 0,
    }
}

pub fn csv_num(v: Option<&str>) -> (r: u64)
    ensures
        r == spec_csv_num(
            match v {
                Some(s) => Some(s@),
                None => None,
            },
        ),
{
    match v {
        Some(s) => {
            let t = trim_text(s);
            match parse_u64(t.as_str()) {
                Ok(n) => n,
                Err(_) => 0,
            }
        },
        None => 0,
    }
}

/// The texts a dump writes for a true flag.
pub open spec fn truthy(s: Seq<char>) -> bool {
    ||| s == "1"@
    ||| s == "true"@
    ||| s == "True"@
    ||| s == "TRUE"@
    ||| s == "yes"@
    ||| s == "YES"@
}

pub fn csv_bool(v: Option<&str>) -> (r: bool)
    ensures
        r == (v matches Some(s) && truthy(s@)),
{
    match v {
        Some(s) => str_eq(s, "1") || str_eq(s, "true") || str_eq(s, "True") || str_eq(s, "TRUE")
            || str_eq(s, "yes") || str_eq(s, "YES"),
        None => false,
    }
}

/// An optional text field: the trimmed text, `None` when it is blank.
pub open spec fn spec_csv_opt(v: Option<Seq<char>>) -> Option<Seq<char>> {
    let s = trim(
        match v {
            Some(s) => s,
            None => Seq::empty(),
        },
    );
    if s.len() == 0 {
        None
    } else {
        Some(s)
    }
}

pub fn csv_opt(v: Option<&str>) -> (r: Option<String>)
    ensures
        spec_csv_opt(
            match v {
                Some(s) => Some(s@),
                None => None,
            },
        ) matches Some(t) ==> r is Some && r->Some_0@ == t,
        spec_csv_opt(
            match v {
                Some(s) => Some(s@),
                None => None,
            },
        ) is None ==> r is None,
{
    let t = match v {
        Some(s) => trim_text(s),
        None => trim_text(""),
    };
    proof {
        reveal_strlit("");
    }
    if t.as_str().is_empty() {
        None
    } else {
        Some(t)
    }
}

/// Whether a JSON field of a dump row holds nothing to read: blank or
/// `null` once trimmed.
pub open spec fn spec_json_blank(v: Option<Seq<char>>) -> bool {
    let s = trim(
        match v {
            Some(s) => s,
            None => Seq::empty(),
        },
    );
    s.len() == 0 || s == "null"@
}

pub fn json_blank(v: Option<&str>) -> (r: bool)
    ensures
        r == spec_json_blank(
            match v {
                Some(s) => Some(s@),
                None => None,
            },
        ),
{
    let t = match v {
        Some(s) => trim_text(s),
        None => trim_text(""),
    };
    proof {
        reveal_strlit("");
    }
    t.as_str().is_empty() || str_eq(t.as_str(), "null")
}

/// The address a migrated post was written from, as a number: 0.0.0.0 when
/// it is missing or not an IPv4 address.
pub open spec fn spec_old_ip(ip: Option<Seq<char>>) -> u32 {
    match spec_ipv4(
        match ip {
            Some(s) => s,
            None => Seq::empty(),
        },
    ) {
        Some(v) => v,
        None => 0,
    }
}

pub fn old_ip(ip: Option<&str>) -> (r: u32)
    ensures
        r == spec_old_ip(
            match ip {
                Some(s) => Some(s@),
                None => None,
            },
        ),
{
    let text = match ip {
        Some(s) => s,
        None => "",
    };
    proof {
        reveal_strlit("");
    }
    match parse_ipv4(text) {
        Some(v) => v,
        None => 0,
    }
}

/// The country a migrated post is shown from: the ISO 3166-1 numeric code of
/// its two-letter country code, 0 when it has none or an unknown one.
pub open spec fn spec_geo_response(country: Option<Seq<char>>) -> u32 {
    match country {
        Some(c) => match iso3166_numeric(c) {
            Some(n) => n as u32,
            None => 0,
        },
        None => 0,
    }
}

pub fn geo_response(country: Option<&str>) -> (r: u32)
    ensures
        r == spec_geo_response(
            match country {
                Some(c) => Some(c@),
                None => None,
            },
        ),
{
    match country {
        Some(c) => match country_numeric(c) {
            Some(n) => n as u32,
            None => 0,
        },
        None => 0,
    }
}

/// The position of the first `#` of a text, if any.
pub open spec fn first_hash(s: Seq<char>) -> Option<int> {
    if exists|i: int| 0 <= i < s.len() && s[i] == '#' {
        Some(choose|i: int| 0 <= i < s.len() && s[i] == '#' && forall|j: int| 0 <= j < i ==> s[j] != '#')
    } else {
        None
    }
}

/// A name as it is kept: trimmed, `None` when blank.
pub open spec fn kept_name(s: Seq<char>) -> Option<Seq<char>> {
    if trim(s).len() == 0 {
        None
    } else {
        Some(trim(s))
    }
}

/// Splits a name field at its first `#`: the trimmed name before it (if not
/// blank) and the tripcode request from the `#` on.
pub open spec fn spec_name_and_trip(s: Seq<char>) -> (Option<Seq<char>>, Option<Seq<char>>) {
    match first_hash(s) {
        Some(i) => (kept_name(s.take(i)), Some(s.skip(i))),
        None => (kept_name(s), None),
    }
}

fn keep_name(s: &[char]) -> (r: Option<String>)
    ensures
        kept_name(s@) matches Some(t) ==> r is Some && r->Some_0@ == t,
        kept_name(s@) is None ==> r is None,
{
    let whole = string_of(s);
    let t = trim_text(whole.as_str());
    if t.as_str().is_empty() {
        None
    } else {
        Some(t)
    }
}

pub fn parse_name_and_trip(input: &str) -> (r: (Option<String>, Option<String>))
    ensures
        spec_name_and_trip(input@).0 matches Some(n) ==> r.0 is Some && r.0->Some_0@ == n,
        spec_name_and_trip(input@).0 is None ==> r.0 is None,
        spec_name_and_trip(input@).1 matches Some(t) ==> r.1 is Some && r.1->Some_0@ == t,
        spec_name_and_trip(input@).1 is None ==> r.1 is None,
{
    let c = chars_of(input);
    let mut i: usize = 0;
    while i < c.len()
        invariant
            c@ == input@,
            i <= c@.len(),
            forall|j: int| 0 <= j < i ==> c@[j] != '#',
        decreases c.len() - i,
    {
        if c[i] == '#' {
            assert(first_hash(input@) == Some(i as int)) by {
                let k = choose|k: int|
                    0 <= k < input@.len() && input@[k] == '#' && forall|j: int|
                        0 <= j < k ==> input@[j] != '#';
                assert(input@[i as int] == '#');
                if k < i {
                    assert(input@[k] != '#');
                } else if k > i {
                    assert(input@[i as int] != '#');
                }
            }
            let name = keep_name(&c[0..i]);
            assert(c@.subrange(0, i as int) =~= input@.take(i as int));
            let trip = string_of(&c[i..c.len()]);
            assert(c@.subrange(i as int, c@.len() as int) =~= input@.skip(i as int));
            return (name, Some(trip));
        }
        i = i + 1;
    }
    assert(first_hash(input@) is None);
    let name = keep_name(c.as_slice());
    (name, None)
}

/// The entry point and requests with which a migrated thread (`thread`) or
/// reply is created: the identity always, the country and the tripcode when
/// the post carries them.
pub open spec fn spec_migrate_target(thread: bool, geo: bool, trip: bool) -> (Seq<char>, Seq<RequestV2>) {
    let base = if thread {
        "board_apply_intent_uid"@
    } else {
        "board_apply_thread_intent_uid"@
    };
    if geo && trip {
        (base + "_geo_tripcode"@, seq![RequestV2::Uid, RequestV2::Geo, RequestV2::Tripcode])
    } else if geo {
        (base + "_geo"@, seq![RequestV2::Uid, RequestV2::Geo])
    } else if trip {
        (base + "_tripcode"@, seq![RequestV2::Uid, RequestV2::Tripcode])
    } else {
        (base, seq![RequestV2::Uid])
    }
}

pub fn migrate_target(thread: bool, geo: bool, trip: bool) -> (r: (String, Vec<RequestV2>))
    ensures
        r.0@ == spec_migrate_target(thread, geo, trip).0,
        r.1@ == spec_migrate_target(thread, geo, trip).1,
{
    let mut f = if thread {
        "board_apply_intent_uid".to_string()
    } else {
        "board_apply_thread_intent_uid".to_string()
    };
    let mut req: Vec<RequestV2> = Vec::new();
    req.push(RequestV2::Uid);
    if geo && trip {
        push_text(&mut f, "_geo_tripcode");
        req.push(RequestV2::Geo);
        req.push(RequestV2::Tripcode);
    } else if geo {
        push_text(&mut f, "_geo");
        req.push(RequestV2::Geo);
    } else if trip {
        push_text(&mut f, "_tripcode");
        req.push(RequestV2::Tripcode);
    }
    assert(req@ =~= spec_migrate_target(thread, geo, trip).1);
    (f, req)
}

/// The answers to a migrated post's requests: the identity answer, then the
/// country (four bytes, least significant first), then the tripcode answer.
pub open spec fn spec_migrate_answers(uid: Seq<u8>, geo: Option<u32>, trip: Option<(bool, Seq<u8>)>) -> Seq<u8> {
    let with_geo = match geo {
        Some(code) => uid + le_bytes(code as nat).take(4),
        None => uid,
    };
    match trip {
        Some((secured, t)) => with_geo + spec_trip_response(secured, t),
        None => with_geo,
    }
}

fn u32_le_bytes(v: u32) -> (r: Vec<u8>)
    ensures
        r@ == le_bytes(v as nat).take(4),
{
    let mut r: Vec<u8> = Vec::new();
    r.push((v % 0x100) as u8);
    r.push((v / 0x100 % 0x100) as u8);
    r.push((v / 0x1_0000 % 0x100) as u8);
    r.push((v / 0x100_0000 % 0x100) as u8);
    assert(r@ =~= le_bytes(v as nat).take(4));
    r
}

pub fn migrate_answers(uid: Vec<u8>, geo: Option<u32>, trip: Option<(bool, String)>) -> (r: Result<
    Vec<u8>,
    RelayError,
>)
    ensures
        match trip {
            Some((secured, t)) => if encode_utf8(t@).len() <= bcs_max_len() {
                r is Ok && r->Ok_0@ == spec_migrate_answers(uid@, geo, Some((secured, encode_utf8(t@))))
            } else {
                r is Err
            },
            None => r is Ok && r->Ok_0@ == spec_migrate_answers(uid@, geo, None),
        },
{
    let mut out = uid;
    let ghost u = out@;
    if let Some(code) = geo {
        let mut b = u32_le_bytes(code);
        out.append(&mut b);
    }
    match trip {
        Some((secured, t)) => {
            match trip_response(secured, t.as_str()) {
                Ok(mut b) => {
                    out.append(&mut b);
                    Ok(out)
                },
                Err(e) => Err(e),
            }
        },
        None => Ok(out),
    }
}

/// A link of a thread's menu in the dump.
#[derive(Debug, Clone)]
pub struct MenuLink {
    pub label: String,
    pub url: String,
}

/// A section of a thread's menu in the dump: its name (empty when it has
/// none) and its links, when it has a list of them.
#[derive(Debug, Clone)]
pub struct MenuSection {
    pub name: String,
    pub links: Option<Vec<MenuLink>>,
}

/// Whether a menu field holds no menu: blank, `null` or `[]` once trimmed.
pub open spec fn spec_menu_blank(menu: Seq<char>) -> bool {
    let m = trim(menu);
    m.len() == 0 || m == "null"@ || m == "[]"@
}

pub fn menu_blank(menu: &str) -> (r: bool)
    ensures
        r == spec_menu_blank(menu@),
{
    let m = trim_text(menu);
    m.as_str().is_empty() || str_eq(m.as_str(), "null") || str_eq(m.as_str(), "[]")
}

/// The lines of the links of a section: `[link url=..]label[/link]` for each
/// link with both a label and a URL.
pub open spec fn links_text(links: Seq<MenuLink>) -> Seq<char>
    decreases links.len(),
{
    if links.len() == 0 {
        Seq::empty()
    } else {
        let l = links.last();
        links_text(links.drop_last()) + if l.label@.len() > 0 && l.url@.len() > 0 {
            "[link url="@ + l.url@ + "]"@ + l.label@ + "[/link]\n"@
        } else {
            Seq::empty()
        }
    }
}

/// A menu as BBCode: each section's name in bold on a line of its own (when
/// it has one), then its links.
pub open spec fn menu_text(sections: Seq<MenuSection>) -> Seq<char>
    decreases sections.len(),
{
    if sections.len() == 0 {
        Seq::empty()
    } else {
        let sec = sections.last();
        menu_text(sections.drop_last()) + (if sec.name@.len() > 0 {
            "[b]"@ + sec.name@ + "[/b]\n"@
        } else {
            Seq::empty()
        }) + match sec.links {
            Some(l) => links_text(l@),
            None => Seq::empty(),
        }
    }
}

/// The BBCode of a thread's menu; `None` when it comes out empty.
pub fn menu_to_bbcode(sections: &[MenuSection]) -> (r: Option<String>)
    ensures
        menu_text(sections@).len() == 0 ==> r is None,
        menu_text(sections@).len() > 0 ==> r is Some && r->Some_0@ == menu_text(sections@),
{
    let mut out = String::new();
    let mut i: usize = 0;
    while i < sections.len()
        invariant
            i <= sections@.len(),
            out@ == menu_text(sections@.take(i as int)),
        decreases sections.len() - i,
    {
        assert(sections@.take(i + 1).drop_last() =~= sections@.take(i as int));
        let sec = &sections[i];
        if !sec.name.as_str().is_empty() {
            push_text(&mut out, "[b]");
            push_text(&mut out, sec.name.as_str());
            push_text(&mut out, "[/b]\n");
        }
        let ghost mid = out@;
        match &sec.links {
            Some(links) => {
                let mut j: usize = 0;
                while j < links.len()
                    invariant
                        j <= links@.len(),
                        out@ == mid + links_text(links@.take(j as int)),
                    decreases links.len() - j,
                {
                    assert(links@.take(j + 1).drop_last() =~= links@.take(j as int));
                    let l = &links[j];
                    if !l.label.as_str().is_empty() && !l.url.as_str().is_empty() {
                        push_text(&mut out, "[link url=");
                        push_text(&mut out, l.url.as_str());
                        push_text(&mut out, "]");
                        push_text(&mut out, l.label.as_str());
                        push_text(&mut out, "[/link]\n");
                    }
                    assert(out@ =~= mid + links_text(links@.take(j + 1)));
                    j = j + 1;
                }
                assert(links@.take(j as int) =~= links@);
            },
            None => {},
        }
        assert(out@ =~= menu_text(sections@.take(i + 1)));
        i = i + 1;
    }
    assert(sections@.take(i as int) =~= sections@);
    if out.as_str().is_empty() {
        None
    } else {
        Some(out)
    }
}

/// The text of a migrated post: its comment, then (for a thread's opening
/// post) its menu on a new line, with line breaks made `\n`.
pub open spec fn spec_post_text(comment: Option<Seq<char>>, parent: u64, menu: Option<Seq<char>>) -> Seq<char> {
    let text = match comment {
        Some(c) => c,
        None => Seq::empty(),
    };
    let with_menu = if parent == 0 {
        match menu {
            Some(m) => if text.len() > 0 {
                text + "\n"@ + m
            } else {
                m
            },
            None => text,
        }
    } else {
        text
    };
    cr_to_lf(crlf_to_lf(with_menu))
}

pub fn post_text(comment: Option<&str>, parent: u64, menu: Option<String>) -> (r: String)
    ensures
        r@ == spec_post_text(
            match comment {
                Some(c) => Some(c@),
                None => None,
            },
            parent,
            match menu {
                Some(m) => Some(m@),
                None => None,
            },
        ),
{
    proof {
        reveal_strlit("\n");
    }
    let mut text = String::new();
    if let Some(c) = comment {
        push_text(&mut text, c);
        assert(text@ =~= c@);
    }
    let ghost t0 = text@;
    if parent == 0 {
        if let Some(m) = menu {
            if !text.as_str().is_empty() {
                push_char(&mut text, '\n');
                push_text(&mut text, m.as_str());
                assert(text@ =~= t0 + "\n"@ + m@);
            } else {
                push_text(&mut text, m.as_str());
                assert(text@ =~= m@);
            }
        }
    }
    normalize_newlines(text.as_str())
}

/// A dump's post time in milliseconds, from its time in seconds; the largest
/// number when the product does not fit.
pub fn dump_timestamp_ms(secs: u64) -> (r: u64)
    ensures
        secs * 1000 <= u64::MAX ==> r == secs * 1000,
        secs * 1000 > u64::MAX ==> r == u64::MAX,
{
    match secs.checked_mul(1000) {
        Some(v) => v,
        None => u64::MAX,
    }
}

} // verus!

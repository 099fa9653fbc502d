use vstd::prelude::*;

use crate::codec::{b64_char, base64_encode, base64_std_encode};
use crate::digest::{sha1, sha1_of};
use crate::error::{build_error, is_build_error, RelayError};
use crate::text::{chars_of, push_char, string_of};
use vstd::string::{StringExecFns, StringSliceAdditionalSpecFns};

verus! {

/// The password hash that `crypt(3)` computes for a key and a setting string,
/// when the setting is one the implementation accepts.
pub uninterp spec fn unix_crypt(key: Seq<u8>, setting: Seq<char>) -> Option<Seq<char>>;

/// The reason, as `Debug` writes pwhash's error, for which `crypt(3)`
/// refuses a key and a setting.
pub uninterp spec fn crypt_failure(key: Seq<u8>, setting: Seq<char>) -> Seq<char>;

/// The Shift_JIS encoding of a text, and whether some character had no
/// Shift_JIS form (and was replaced).
pub uninterp spec fn shift_jis_encode(text: Seq<char>) -> (Seq<u8>, bool);

/// A setting handed to crypt here: printable ASCII characters, and not one
/// of the `$`-prefixed modular formats. (The DES paths index a table by each
/// setting character less `0x20`, so control or non-ASCII characters would
/// not be encoding errors but faults.)
pub open spec fn crypt_setting_ok(setting: Seq<char>) -> bool {
    &&& (setting.len() == 0 || setting[0] != '$')
    &&& forall|i: int| 0 <= i < setting.len() ==> ' ' <= #[trigger] setting[i] <= '~'
}

/// `pwhash::unix::crypt`: hashes `key` with the algorithm and salt that
/// `setting` names (BSDi extended DES for a leading `_`, traditional DES
/// otherwise). The result depends on the two arguments alone.
#[verifier::external_body]
fn crypt(key: &[u8], setting: &str) -> (r: Result<String, String>)
    requires
        crypt_setting_ok(setting@),
    ensures
        r is Ok <==> unix_crypt(key@, setting@) is Some,
        r matches Ok(h) ==> unix_crypt(key@, setting@) == Some(h@),
        r matches Err(e) ==> e@ == crypt_failure(key@, setting@),
{
    match pwhash::unix::crypt(key, setting) {
        Ok(h) => Ok(h),
        Err(e) => Err(format!("{e:?}")),
    }
}

/// `encoding_rs::SHIFT_JIS.encode`: the bytes and whether the encoding had
/// to replace unmappable characters.
#[verifier::external_body]
fn shift_jis(text: &str) -> (r: (Vec<u8>, bool))
    ensures
        (r.0@, r.1) == shift_jis_encode(text@),
{
    let (bytes, _, had_errors) = encoding_rs::SHIFT_JIS.encode(text);
    (bytes.into_owned(), had_errors)
}

/// How one salt byte of a classic tripcode is cleaned: bytes outside `.`..`z`
/// become `.`, and the punctuation between the digits and the letters maps
/// onto `A`..`G` and `a`..`f`.
pub open spec fn salt_byte(b: u8) -> u8 {
    let c: u8 = if b < 0x2e || b > 0x7a { 0x2e } else { b };
    if 0x3a <= c <= 0x40 {
        (c - 0x3a + 0x41) as u8
    } else if 0x5b <= c <= 0x60 {
        (c - 0x5b + 0x61) as u8
    } else {
        c
    }
}

/// The input padded with `H..`, as the salt is taken from it.
pub open spec fn salt_source(input: Seq<u8>) -> Seq<u8> {
    input + seq![0x48u8, 0x2eu8, 0x2eu8]
}

/// The two-character salt of a classic tripcode: the cleaned second and third
/// bytes of the input padded with `H..`.
pub open spec fn spec_vichan_salt(input: Seq<u8>) -> Seq<char> {
    seq![
        salt_byte(salt_source(input)[1]) as char,
        salt_byte(salt_source(input)[2]) as char,
    ]
}

fn clean_salt_byte(b: u8) -> (r: u8)
    ensures
        r == salt_byte(b),
{
    let c: u8 = if b < 0x2e || b > 0x7a {
        0x2e
    } else {
        b
    };
    if 0x3a <= c && c <= 0x40 {
        c - 0x3a + 0x41
    } else if 0x5b <= c && c <= 0x60 {
        c - 0x5b + 0x61
    } else {
        c
    }
}

pub fn vichan_salt(input: &str) -> (r: String)
    ensures
        r@ == spec_vichan_salt(input.spec_bytes()),
{
    let bytes = input.as_bytes();
    let n = bytes.len();
    let first: u8 = if n > 1 {
        bytes[1]
    } else if n == 1 {
        0x48
    } else {
        0x2e
    };
    let second: u8 = if n > 2 {
        bytes[2]
    } else if n == 2 {
        0x48
    } else {
        0x2e
    };
    let ghost p = salt_source(bytes@);
    assert(p[1] == first);
    assert(p[2] == second);
    let mut out = String::new();
    push_char(&mut out, clean_salt_byte(first) as char);
    push_char(&mut out, clean_salt_byte(second) as char);
    assert(out@ =~= spec_vichan_salt(input.spec_bytes()));
    proof {
        lemma_salt_byte_printable(first);
        lemma_salt_byte_printable(second);
    }
    out
}

proof fn lemma_salt_byte_printable(b: u8)
    ensures
        0x2e <= salt_byte(b) <= 0x7a,
{
}

proof fn lemma_vichan_salt_ok(input: Seq<u8>)
    ensures
        crypt_setting_ok(spec_vichan_salt(input)),
{
    lemma_salt_byte_printable(salt_source(input)[1]);
    lemma_salt_byte_printable(salt_source(input)[2]);
}

proof fn lemma_b64_char_printable(v: int)
    requires
        0 <= v < 64,
    ensures
        '+' <= b64_char(v) <= 'z',
{
}

proof fn lemma_base64_printable(b: Seq<u8>)
    ensures
        forall|i: int|
            0 <= i < base64_encode(b).len() ==> '+' <= #[trigger] base64_encode(b)[i] <= 'z',
    decreases b.len(),
{
    if b.len() == 0 {
    } else if b.len() == 1 {
        lemma_b64_char_printable(b[0] as int / 4);
        lemma_b64_char_printable((b[0] as int % 4) * 16);
    } else if b.len() == 2 {
        lemma_b64_char_printable(b[0] as int / 4);
        lemma_b64_char_printable((b[0] as int % 4) * 16 + b[1] as int / 16);
        lemma_b64_char_printable((b[1] as int % 16) * 4);
    } else {
        lemma_b64_char_printable(b[0] as int / 4);
        lemma_b64_char_printable((b[0] as int % 4) * 16 + b[1] as int / 16);
        lemma_b64_char_printable((b[1] as int % 16) * 4 + b[2] as int / 64);
        lemma_b64_char_printable(b[2] as int % 64);
        lemma_base64_printable(b.skip(3));
        let head = seq![
            b64_char(b[0] as int / 4),
            b64_char((b[0] as int % 4) * 16 + b[1] as int / 16),
            b64_char((b[1] as int % 16) * 4 + b[2] as int / 64),
            b64_char(b[2] as int % 64),
        ];
        assert forall|i: int| 0 <= i < base64_encode(b).len() implies '+' <= #[trigger] base64_encode(
            b,
        )[i] <= 'z' by {
            if i >= 4 {
                assert(base64_encode(b)[i] == base64_encode(b.skip(3))[i - 4]);
            } else {
                assert(base64_encode(b)[i] == head[i]);
            }
        }
    }
}

/// The last ten characters of a hash (all of it when shorter).
pub open spec fn last_ten(h: Seq<char>) -> Seq<char> {
    if h.len() > 10 {
        h.skip(h.len() - 10)
    } else {
        h
    }
}

fn take_last_ten(h: &str) -> (r: String)
    ensures
        r@ == last_ten(h@),
{
    let c = chars_of(h);
    if c.len() > 10 {
        let r = string_of(&c[c.len() - 10..c.len()]);
        assert(r@ =~= last_ten(h@));
        r
    } else {
        string_of(c.as_slice())
    }
}

/// A classic (insecure) tripcode: the last ten characters of the DES crypt
/// of the input's bytes with the salt taken from them.
pub open spec fn spec_tripcode(input: Seq<u8>) -> Option<Seq<char>> {
    match unix_crypt(input, spec_vichan_salt(input)) {
        Some(h) => Some(last_ten(h)),
        None => None,
    }
}

/// How a classic tripcode fails: crypt refused the salt, and the request is
/// refused as malformed with crypt's reason after `tripcode crypt: `.
pub open spec fn tripcode_failure(input: Seq<u8>, e: RelayError) -> bool {
    is_build_error(e, "tripcode crypt: "@ + crypt_failure(input, spec_vichan_salt(input)))
}

/// How a secure tripcode fails: the input has no Shift_JIS form, or crypt
/// refused the setting (its reason after `secure tripcode: `).
pub open spec fn secure_tripcode_failure(input: Seq<char>, key: Seq<u8>, e: RelayError) -> bool {
    let (sjis, lossy) = shift_jis_encode(input);
    if lossy {
        is_build_error(e, "secure tripcode: shift_jis encoding failed"@)
    } else {
        is_build_error(e, "secure tripcode: "@ + crypt_failure(sjis, secure_setting(sjis, key)))
    }
}

/// Standard base64 of some bytes takes at least four characters.
proof fn lemma_base64_nonempty(b: Seq<u8>)
    requires
        b.len() > 0,
    ensures
        base64_encode(b).len() >= 4,
{
}

pub fn tripcode(input: &str) -> (r: Result<String, RelayError>)
    ensures
        r is Ok <==> spec_tripcode(input.spec_bytes()) is Some,
        r matches Ok(t) ==> spec_tripcode(input.spec_bytes()) == Some(t@),
        r matches Err(e) ==> tripcode_failure(input.spec_bytes(), e),
{
    let salt = vichan_salt(input);
    proof {
        lemma_vichan_salt_ok(input.spec_bytes());
    }
    match crypt(input.as_bytes(), salt.as_str()) {
        Ok(hash) => Ok(take_last_ten(hash.as_str())),
        Err(e) => {
            let mut msg = "tripcode crypt: ".to_string();
            msg.append(e.as_str());

            Err(RelayError::SponsorBuild(msg))
        },
    }
}

/// The salt characters of a secure tripcode: the first four base64
/// characters of the digest, with `+` written as `.`.
pub open spec fn secure_salt(digest_b64: Seq<char>) -> Seq<char> {
    digest_b64.take(4).map_values(|c: char| if c == '+' { '.' } else { c })
}

/// The crypt setting of a secure tripcode: BSDi extended DES with the salt
/// from the SHA-1 of the Shift_JIS input followed by the server key.
pub open spec fn secure_setting(sjis: Seq<u8>, key: Seq<u8>) -> Seq<char> {
    "_..A."@ + secure_salt(base64_encode(sha1_of(sjis + key)))
}

/// A secure tripcode: keyed with the server's secret, so that it cannot be
/// found by searching the input space offline. `None` when the input has no
/// Shift_JIS form or crypt refuses the setting.
pub open spec fn spec_secure_tripcode(input: Seq<char>, key: Seq<u8>) -> Option<Seq<char>> {
    let (sjis, lossy) = shift_jis_encode(input);
    if lossy {
        None
    } else {
        match unix_crypt(sjis, secure_setting(sjis, key)) {
            Some(h) => Some(last_ten(h)),
            None => None,
        }
    }
}

pub fn secure_tripcode(input: &str, key: &str) -> (r: Result<String, RelayError>)
    ensures
        r is Ok <==> spec_secure_tripcode(input@, key.spec_bytes()) is Some,
        r matches Ok(t) ==> spec_secure_tripcode(input@, key.spec_bytes()) == Some(t@),
        shift_jis_encode(input@).1 ==> r is Err,
        r matches Err(e) ==> secure_tripcode_failure(input@, key.spec_bytes(), e),
{
    let (encoded, had_errors) = shift_jis(input);
    if had_errors {
        return Err(build_error("secure tripcode: shift_jis encoding failed"));
    }
    let mut material = encoded.clone();
    let mut extra = vstd::slice::slice_to_vec(key.as_bytes());
    material.append(&mut extra);
    let digest = sha1(material.as_slice());
    let encoded_digest = base64_std_encode(digest.as_slice());
    let ec = chars_of(encoded_digest.as_str());
    if ec.len() < 4 {
        proof {
            lemma_base64_nonempty(digest@);
        }
        return Err(build_error("secure tripcode: bad digest"));
    }
    let mut setting = "_..A.".to_string();
    let mut i: usize = 0;
    while i < 4
        invariant
            i <= 4,
            ec@.len() >= 4,
            setting@ == "_..A."@ + secure_salt(ec@).take(i as int),
        decreases 4 - i,
    {
        let c = if ec[i] == '+' {
            '.'
        } else {
            ec[i]
        };
        push_char(&mut setting, c);
        assert(secure_salt(ec@).take(i + 1) =~= secure_salt(ec@).take(i as int).push(c));
        i = i + 1;
    }
    assert(secure_salt(ec@).take(4) =~= secure_salt(ec@));
    proof {
        lemma_base64_printable(digest@);
        reveal_strlit("_..A.");
        assert(ec@.len() >= 4);
        assert(secure_salt(ec@).len() == 4);
        assert(setting@.len() == 9);
        assert forall|i: int| 0 <= i < setting@.len() implies ' ' <= #[trigger] setting@[i] <= '~' by {
            if i >= 5 {
                assert(setting@[i] == secure_salt(ec@)[i - 5]);
                assert(ec@[i - 5] == base64_encode(digest@)[i - 5]);
            } else {
                assert(setting@[i] == "_..A."@[i]);
            }
        }
    }
    match crypt(encoded.as_slice(), setting.as_str()) {
        Ok(hash) => Ok(take_last_ten(hash.as_str())),
        Err(e) => {
            let mut msg = "secure tripcode: ".to_string();
            msg.append(e.as_str());

            Err(RelayError::SponsorBuild(msg))
        },
    }
}

} // verus!

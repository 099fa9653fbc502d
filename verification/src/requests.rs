use vstd::prelude::*;

use crate::codec::{bcs_encode_bytes, bcs_max_len, uleb128_bytes};
use crate::error::{build_error, RelayError};
use crate::intent::Address;
use crate::text::{chars_of, has_prefix, starts_with, string_of};
use crate::tripcode::{
    secure_tripcode, secure_tripcode_failure, spec_secure_tripcode, spec_tripcode, tripcode,
    tripcode_failure,
};
use vstd::utf8::encode_utf8;
use vstd::string::StringSliceAdditionalSpecFns;

verus! {

/// The ISO 3166-1 numeric code of a two-letter country code.
pub uninterp spec fn iso3166_numeric(code: Seq<char>) -> Option<u16>;

/// `iso3166::Country::from_alpha2(code)` and its numeric `id`.
#[verifier::external_body]
pub(crate) fn country_numeric(code: &str) -> (r: Option<u16>)
    ensures
        r == iso3166_numeric(code@),
{
    match iso3166::Country::from_alpha2(code) {
        Some(c) => Some(c.id),
        None => None,
    }
}

/// The prefix lengths of the four address ranges that bans work on, and the
/// byte each is tagged with.
pub open spec fn mask_bits(k: int) -> u8 {
    if k == 0 {
        32
    } else if k == 1 {
        24
    } else if k == 2 {
        20
    } else {
        16
    }
}

/// An IPv4 address with all but its first `bits` bits cleared.
pub open spec fn masked_ip(ip: u32, bits: u8) -> int {
    let unit = vstd::arithmetic::power2::pow2((32 - bits) as nat);
    (ip as int / (unit as int)) * unit
}

/// The four bytes of a 32-bit number, most significant first.
pub open spec fn be_bytes(v: int) -> Seq<u8> {
    seq![
        (v / 0x100_0000 % 0x100) as u8,
        (v / 0x1_0000 % 0x100) as u8,
        (v / 0x100 % 0x100) as u8,
        (v % 0x100) as u8,
    ]
}

/// The message whose MAC identifies a client's address range `k`: the prefix
/// length, then the masked address.
pub open spec fn uid_message(ip: u32, k: int) -> Seq<u8> {
    seq![mask_bits(k)] + be_bytes(masked_ip(ip, mask_bits(k)))
}

fn be_bytes_of(v: u32) -> (r: Vec<u8>)
    ensures
        r@ == be_bytes(v as int),
{
    let mut r: Vec<u8> = Vec::new();
    r.push((v / 0x100_0000 % 0x100) as u8);
    r.push((v / 0x1_0000 % 0x100) as u8);
    r.push((v / 0x100 % 0x100) as u8);
    r.push((v % 0x100) as u8);
    assert(r@ =~= be_bytes(v as int));
    r
}

/// The MAC message for address range `k` (0: /32, 1: /24, 2: /20, 3: /16).
pub fn uid_mask_message(ip32: u32, k: usize) -> (r: Vec<u8>)
    requires
        k < 4,
    ensures
        r@ == uid_message(ip32, k as int),
{
    let (bits, masked): (u8, u32) = if k == 0 {
        (32, ip32 & 0xFFFF_FFFF)
    } else if k == 1 {
        (24, ip32 & 0xFFFF_FF00)
    } else if k == 2 {
        (20, ip32 & 0xFFFF_F000)
    } else {
        (16, ip32 & 0xFFFF_0000)
    };
    proof {
        vstd::arithmetic::power2::lemma2_to64();
        if k == 0 {
            assert(ip32 & 0xFFFF_FFFF == ip32) by (bit_vector);
            assert(vstd::arithmetic::power2::pow2(0) == 1);
            assert((ip32 as int / 1) * 1 == ip32 as int) by (nonlinear_arith);
            assert(masked_ip(ip32, 32) == ip32 as int);
        } else if k == 1 {
            assert(ip32 & 0xFFFF_FF00 == (ip32 / 0x100) * 0x100) by (bit_vector);
            assert(masked_ip(ip32, 24) == (ip32 as int / 0x100) * 0x100);
        } else if k == 2 {
            assert(ip32 & 0xFFFF_F000 == (ip32 / 0x1000) * 0x1000) by (bit_vector);
            assert(masked_ip(ip32, 20) == (ip32 as int / 0x1000) * 0x1000);
        } else {
            assert(ip32 & 0xFFFF_0000 == (ip32 / 0x1_0000) * 0x1_0000) by (bit_vector);
            assert(masked_ip(ip32, 16) == (ip32 as int / 0x1_0000) * 0x1_0000);
        }
    }
    assert(bits == mask_bits(k as int));
    assert(masked as int == masked_ip(ip32, bits));
    let mut msg: Vec<u8> = Vec::new();
    msg.push(bits);
    let mut tail = be_bytes_of(masked);
    msg.append(&mut tail);
    assert(msg@ =~= uid_message(ip32, k as int));
    msg
}

/// The MAC message that identifies a client within a domain: the domain's
/// bytes, then the client's address.
pub open spec fn ip32_message(domain: Seq<u8>, ip: u32) -> Seq<u8> {
    domain + be_bytes(ip as int)
}

pub fn ip32_mac_message(domain: &Address, ip32: u32) -> (r: Vec<u8>)
    ensures
        r@ == ip32_message(domain@, ip32),
{
    let mut msg = vstd::slice::slice_to_vec(domain.as_slice());
    let mut tail = be_bytes_of(ip32);
    msg.append(&mut tail);
    msg
}

/// The answer to a tripcode request: whether it is secure, then the tripcode
/// as a BCS byte vector.
pub open spec fn spec_trip_response(secured: bool, trip: Seq<u8>) -> Seq<u8> {
    seq![if secured { 1u8 } else { 0u8 }] + uleb128_bytes(trip.len()) + trip
}

pub fn trip_response(secured: bool, trip: &str) -> (r: Result<Vec<u8>, RelayError>)
    ensures
        trip.spec_bytes().len() <= bcs_max_len() ==> r is Ok && r->Ok_0@ == spec_trip_response(
            secured,
            trip.spec_bytes(),
        ),
        trip.spec_bytes().len() > bcs_max_len() ==> r is Err && r->Err_0 is SponsorBuild,
{
    let mut out: Vec<u8> = Vec::new();
    out.push(if secured {
        1u8
    } else {
        0u8
    });
    match bcs_encode_bytes(trip.as_bytes()) {
        Ok(mut b) => {
            out.append(&mut b);
            assert(out@ =~= spec_trip_response(secured, trip.spec_bytes()));
            Ok(out)
        },
        Err(_) => Err(build_error("bcs encode trip")),
    }
}

/// How a tripcode request text is read: `##seed` asks for a secure tripcode,
/// `#seed` for a classic one; `None` for any other text.
pub open spec fn spec_trip_kind(raw: Seq<char>) -> Option<(bool, Seq<char>)> {
    if has_prefix(raw, "##"@) {
        Some((true, raw.skip(2)))
    } else if has_prefix(raw, "#"@) {
        Some((false, raw.skip(1)))
    } else {
        None
    }
}

fn trip_kind(raw: &str) -> (r: Option<(bool, String)>)
    ensures
        r is Some <==> spec_trip_kind(raw@) is Some,
        r matches Some((s, seed)) ==> spec_trip_kind(raw@) == Some((s, seed@)),
{
    proof {
        reveal_strlit("##");
        reveal_strlit("#");
    }
    let c = chars_of(raw);
    if starts_with(raw, "##") {
        Some((true, string_of(&c[2..c.len()])))
    } else if starts_with(raw, "#") {
        Some((false, string_of(&c[1..c.len()])))
    } else {
        None
    }
}

/// The tripcode that a seed asks for, secure or classic.
pub open spec fn spec_trip_of(secured: bool, seed: Seq<char>, key: Seq<u8>) -> Option<Seq<char>> {
    if secured {
        spec_secure_tripcode(seed, key)
    } else {
        spec_tripcode(encode_utf8(seed))
    }
}

/// The errors by which the tripcode of a seed fails: those of the secure or
/// of the classic computation.
pub open spec fn spec_trip_failure(secured: bool, seed: Seq<char>, key: Seq<u8>, e: RelayError) -> bool {
    if secured {
        secure_tripcode_failure(seed, key, e)
    } else {
        tripcode_failure(encode_utf8(seed), e)
    }
}

/// Computes the tripcode a name field asks for: `None` when the text asks
/// for none.
pub fn compute_trip(raw: &str, key: &str) -> (r: Result<Option<(bool, String)>, RelayError>)
    ensures
        spec_trip_kind(raw@) is None ==> r is Ok && r->Ok_0 is None,
        spec_trip_kind(raw@) matches Some((secured, seed)) ==> {
            &&& r is Ok <==> spec_trip_of(secured, seed, key.spec_bytes()) is Some
            &&& r matches Ok(Some((s, t))) ==> s == secured && spec_trip_of(
                secured,
                seed,
                key.spec_bytes(),
            ) == Some(t@)
            &&& r is Ok ==> r->Ok_0 is Some
            &&& r matches Err(e) ==> spec_trip_failure(secured, seed, key.spec_bytes(), e)
        },
{
    match trip_kind(raw) {
        Some((true, seed)) => match secure_tripcode(seed.as_str(), key) {
            Ok(t) => Ok(Some((true, t))),
            Err(e) => Err(e),
        },
        Some((false, seed)) => match tripcode(seed.as_str()) {
            Ok(t) => Ok(Some((false, t))),
            Err(e) => Err(e),
        },
        None => Ok(None),
    }
}

/// Two addresses in the same range give the same identity message for that
/// range (and so the same MAC): a ban on a /24 catches every address of it.
pub proof fn lemma_same_range_same_message(a: u32, b: u32, k: int)
    requires
        0 <= k < 4,
        a as int / vstd::arithmetic::power2::pow2((32 - mask_bits(k)) as nat) as int == b as int
            / vstd::arithmetic::power2::pow2((32 - mask_bits(k)) as nat) as int,
    ensures
        uid_message(a, k) == uid_message(b, k),
{
}

} // verus!

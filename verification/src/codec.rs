use vstd::prelude::*;

use crate::moderation::le_bytes;
use crate::text::push_char;

verus! {

/// The character of a six-bit group in the standard base64 alphabet.
pub open spec fn b64_char(v: int) -> char {
    if v < 26 {
        (65 + v) as char
    } else if v < 52 {
        (97 + (v - 26)) as char
    } else if v < 62 {
        (48 + (v - 52)) as char
    } else if v == 62 {
        '+'
    } else {
        '/'
    }
}

/// Standard base64 with `=` padding (RFC 4648, section 4).
pub open spec fn base64_encode(b: Seq<u8>) -> Seq<char>
    decreases b.len(),
{
    if b.len() == 0 {
        Seq::empty()
    } else if b.len() == 1 {
        seq![b64_char(b[0] as int / 4), b64_char((b[0] as int % 4) * 16), '=', '=']
    } else if b.len() == 2 {
        seq![
            b64_char(b[0] as int / 4),
            b64_char((b[0] as int % 4) * 16 + b[1] as int / 16),
            b64_char((b[1] as int % 16) * 4),
            '=',
        ]
    } else {
        seq![
            b64_char(b[0] as int / 4),
            b64_char((b[0] as int % 4) * 16 + b[1] as int / 16),
            b64_char((b[1] as int % 16) * 4 + b[2] as int / 64),
            b64_char(b[2] as int % 64),
        ] + base64_encode(b.skip(3))
    }
}

/// `base64::engine::general_purpose::STANDARD.encode`: standard base64 with
/// padding.
#[verifier::external_body]
pub(crate) fn base64_std_encode(data: &[u8]) -> (r: String)
    ensures
        r@ == base64_encode(data@),
{
    <base64::engine::GeneralPurpose as base64::Engine>::encode(
        &base64::engine::general_purpose::STANDARD,
        data,
    )
}

/// The bytes that standard padded base64 text decodes to, when it is the
/// encoding of some bytes.
pub uninterp spec fn base64_decoded(text: Seq<u8>) -> Option<Seq<u8>>;

/// `base64::engine::general_purpose::STANDARD.decode`: that engine accepts
/// exactly the canonical padded encodings, so it succeeds on the encoding of
/// some bytes and gives back bytes whose encoding is the text.
#[verifier::external_body]
pub(crate) fn base64_std_decode(text: &[u8]) -> (r: Result<Vec<u8>, String>)
    ensures
        r is Ok <==> base64_decoded(text@) is Some,
        r matches Ok(b) ==> base64_decoded(text@) == Some(b@),
        r matches Ok(b) ==> base64_encode(b@).map_values(|c: char| c as u8) == text@,
        (exists|b: Seq<u8>| base64_encode(b).map_values(|c: char| c as u8) == text@) ==> r is Ok,
{
    match <base64::engine::GeneralPurpose as base64::Engine>::decode(
        &base64::engine::general_purpose::STANDARD,
        text,
    ) {
        Ok(b) => Ok(b),
        Err(e) => Err(e.to_string()),
    }
}

/// The lowercase hexadecimal digit of a nibble.
pub open spec fn hex_digit(v: int) -> char {
    if v < 10 {
        (48 + v) as char
    } else {
        (97 + (v - 10)) as char
    }
}

/// Lowercase hexadecimal, two digits per byte.
pub open spec fn hex_lower(b: Seq<u8>) -> Seq<char>
    decreases b.len(),
{
    if b.len() == 0 {
        Seq::empty()
    } else {
        hex_lower(b.drop_last()) + seq![hex_digit(b.last() as int / 16), hex_digit(b.last() as int % 16)]
    }
}

fn hex_digit_exec(v: u8) -> (c: char)
    requires
        v < 16,
    ensures
        c == hex_digit(v as int),
{
    if v < 10 {
        (48 + v) as char
    } else {
        (97 + (v - 10)) as char
    }
}

/// Appends the lowercase hexadecimal form of `bytes` to `s`.
pub fn push_hex(s: &mut String, bytes: &[u8])
    ensures
        final(s)@ == old(s)@ + hex_lower(bytes@),
{
    let mut i: usize = 0;
    while i < bytes.len()
        invariant
            i <= bytes@.len(),
            s@ == old(s)@ + hex_lower(bytes@.take(i as int)),
        decreases bytes.len() - i,
    {
        let b = bytes[i];
        push_char(s, hex_digit_exec(b / 16));
        push_char(s, hex_digit_exec(b % 16));
        proof {
            assert(bytes@.take(i + 1).drop_last() =~= bytes@.take(i as int));
            assert(s@ =~= old(s)@ + hex_lower(bytes@.take(i + 1)));
        }
        i = i + 1;
    }
    assert(bytes@.take(i as int) =~= bytes@);
}

/// How an address is written: `0x` and 64 lowercase hexadecimal digits.
pub open spec fn address_text(a: Seq<u8>) -> Seq<char> {
    "0x"@ + hex_lower(a)
}

/// The text form of an address.
pub fn address_to_string(a: &[u8; 32]) -> (r: String)
    ensures
        r@ == address_text(a@),
{
    let mut s = "0x".to_string();
    push_hex(&mut s, a.as_slice());
    s
}

} // verus!

verus! {

/// The largest sequence BCS encodes.
pub open spec fn bcs_max_len() -> nat {
    0x7fff_ffff
}

/// ULEB128, as BCS writes sequence lengths: seven bits per byte, least
/// significant group first, high bit set on every byte but the last.
pub open spec fn uleb128_bytes(n: nat) -> Seq<u8>
    decreases n,
{
    if n < 128 {
        seq![n as u8]
    } else {
        seq![(n % 128 + 128) as u8] + uleb128_bytes(n / 128)
    }
}

/// `bcs::to_bytes` of a byte vector: its length in ULEB128, then the bytes;
/// refused when longer than BCS's maximal sequence length.
#[verifier::external_body]
pub(crate) fn bcs_encode_bytes(data: &[u8]) -> (r: Result<Vec<u8>, String>)
    ensures
        data@.len() <= bcs_max_len() ==> r is Ok && r->Ok_0@ == uleb128_bytes(data@.len())
            + data@,
        data@.len() > bcs_max_len() ==> r is Err,
{
    match bcs::to_bytes(&data.to_vec()) {
        Ok(b) => Ok(b),
        Err(e) => Err(e.to_string()),
    }
}

/// `bcs::to_bytes` of a 32-byte address: the bytes themselves.
#[verifier::external_body]
pub(crate) fn bcs_encode_address(a: &[u8; 32]) -> (r: Vec<u8>)
    ensures
        r@ == a@,
{
    bcs::to_bytes(&sui_sdk_types::Address::new(*a)).unwrap_or_default()
}

/// The bytes of some addresses, one after the other.
pub open spec fn concat_addresses(v: Seq<[u8; 32]>) -> Seq<u8>
    decreases v.len(),
{
    if v.len() == 0 {
        Seq::empty()
    } else {
        concat_addresses(v.drop_last()) + v.last()@
    }
}

/// BCS of a list of addresses: its length in ULEB128, then each address.
pub open spec fn addresses_bytes(v: Seq<[u8; 32]>) -> Seq<u8> {
    uleb128_bytes(v.len()) + concat_addresses(v)
}

/// BCS of an optional address: `0`, or `1` and the address.
pub open spec fn opt_address_bytes(a: Option<[u8; 32]>) -> Seq<u8> {
    match a {
        None => seq![0u8],
        Some(x) => seq![1u8] + x@,
    }
}

/// `bcs::to_bytes` of a `u64`: its eight bytes, least significant first.
#[verifier::external_body]
pub(crate) fn bcs_encode_u64(v: u64) -> (r: Vec<u8>)
    ensures
        r@ == le_bytes(v as nat),
{
    bcs::to_bytes(&v).unwrap_or_default()
}

/// `bcs::from_bytes::<u64>`: eight bytes, least significant first, with
/// nothing after them.
#[verifier::external_body]
pub(crate) fn bcs_decode_u64(b: &[u8]) -> (r: Option<u64>)
    ensures
        r is Some <==> b@.len() == 8,
        r matches Some(v) ==> le_bytes(v as nat) == b@,
{
    bcs::from_bytes::<u64>(b).ok()
}

/// `bcs::to_bytes` of a `bool`: one byte, `1` for true and `0` for false.
#[verifier::external_body]
pub(crate) fn bcs_encode_bool(b: bool) -> (r: Vec<u8>)
    ensures
        r@ == seq![if b { 1u8 } else { 0u8 }],
{
    bcs::to_bytes(&b).unwrap_or_default()
}

/// `bcs::to_bytes` of an optional address: `0`, or `1` followed by the
/// address's bytes.
#[verifier::external_body]
pub(crate) fn bcs_encode_opt_address(a: Option<[u8; 32]>) -> (r: Vec<u8>)
    ensures
        r@ == opt_address_bytes(a),
{
    bcs::to_bytes(&a.map(sui_sdk_types::Address::new)).unwrap_or_default()
}

/// `bcs::to_bytes` of a vector of addresses: its length in ULEB128, then the
/// addresses; refused when longer than BCS's maximal sequence length.
#[verifier::external_body]
pub(crate) fn bcs_encode_addresses(v: &[[u8; 32]]) -> (r: Result<Vec<u8>, String>)
    ensures
        v@.len() <= bcs_max_len() ==> r is Ok && r->Ok_0@ == addresses_bytes(v@),
        v@.len() > bcs_max_len() ==> r is Err,
{
    let items: Vec<sui_sdk_types::Address> = v.iter().map(|a| sui_sdk_types::Address::new(*a)).collect();
    bcs::to_bytes(&items).map_err(|e| e.to_string())
}

/// The value of a hexadecimal digit byte, when it is one.
pub open spec fn hex_value(b: u8) -> Option<nat> {
    if 0x30 <= b <= 0x39 {
        Some((b - 0x30) as nat)
    } else if 0x61 <= b <= 0x66 {
        Some((b - 0x61 + 10) as nat)
    } else if 0x41 <= b <= 0x46 {
        Some((b - 0x41 + 10) as nat)
    } else {
        None
    }
}

/// What `hex::decode` gives for a text: an even number of hexadecimal
/// digits (either case) decodes to one byte per pair, high digit first;
/// anything else is refused.
pub open spec fn spec_hex_decode(t: Seq<u8>) -> Option<Seq<u8>> {
    if t.len() % 2 == 0 && forall|i: int| 0 <= i < t.len() ==> (#[trigger] hex_value(t[i])) is Some {
        Some(
            Seq::new(
                t.len() / 2,
                |i: int| (hex_value(t[2 * i])->Some_0 * 16 + hex_value(t[2 * i + 1])->Some_0) as u8,
            ),
        )
    } else {
        None
    }
}

/// `hex::decode`: the bytes an even run of hexadecimal digits denotes; the
/// error carries the crate's message.
#[verifier::external_body]
pub(crate) fn hex_decode(text: &[u8]) -> (r: Result<Vec<u8>, String>)
    ensures
        r is Ok <==> spec_hex_decode(text@) is Some,
        r matches Ok(b) ==> spec_hex_decode(text@) == Some(b@),
{
    match hex::decode(text) {
        Ok(b) => Ok(b),
        Err(e) => Err(e.to_string()),
    }
}

} // verus!

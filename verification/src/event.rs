use vstd::prelude::*;

use crate::codec::{bcs_max_len, uleb128_bytes};
use crate::error::{build_error, error_message, is_build_error, RelayError};
use vstd::arithmetic::div_mod::{lemma_div_denominator, lemma_fundamental_div_mod, lemma_mod_breakdown};
use vstd::arithmetic::power2::{lemma2_to64, lemma2_to64_rest, lemma_pow2_adds, lemma_pow2_pos, pow2};
use vstd::bits::lemma_usize_shl_is_mul;
use crate::text::utf8_decode;
use vstd::slice::slice_to_vec;
use vstd::string::StringExecFns;
use vstd::utf8::{decode_utf8, valid_utf8};

verus! {

/// The seven value bits of one ULEB128 byte.
pub open spec fn uleb_digit(b: u8) -> usize {
    (b & 0x7f) as usize
}

/// Whether a ULEB128 byte announces that more bytes follow.
pub open spec fn uleb_continues(b: u8) -> bool {
    b & 0x80 != 0
}

/// What byte `i` adds to the decoded length: its digit shifted into place,
/// high bits that leave the machine word dropped as `<<` drops them.
pub open spec fn uleb_term(bytes: Seq<u8>, i: nat) -> usize {
    uleb_digit(bytes[i as int]) << ((7 * i) as usize)
}

/// The sum of the first `n` terms, or `None` once a partial sum leaves `usize`.
pub open spec fn uleb_sum(bytes: Seq<u8>, n: nat) -> Option<int>
    decreases n,
{
    if n == 0 {
        Some(0)
    } else {
        match uleb_sum(bytes, (n - 1) as nat) {
            None => None,
            Some(v) => {
                let s = v + uleb_term(bytes, (n - 1) as nat);
                if s > usize::MAX {
                    None
                } else {
                    Some(s)
                }
            },
        }
    }
}

/// How many bytes the decoder reads from position `i` on: it stops after the
/// first byte without continuation bit, after the last byte whose shift would
/// leave the word, or at the end of the input.
pub open spec fn uleb_scan(bytes: Seq<u8>, i: nat) -> nat
    decreases bytes.len() - i,
{
    if i >= bytes.len() {
        i
    } else if !uleb_continues(bytes[i as int]) {
        i + 1
    } else if 7 * (i + 1) >= usize::BITS {
        i + 1
    } else {
        uleb_scan(bytes, i + 1)
    }
}

/// The number of bytes the decoder reads from the start of `bytes`.
pub open spec fn uleb_len(bytes: Seq<u8>) -> nat {
    uleb_scan(bytes, 0)
}

/// Whether the bytes read end in a terminating byte.
pub open spec fn uleb_terminated(bytes: Seq<u8>) -> bool {
    let m = uleb_len(bytes);
    m > 0 && m <= bytes.len() && !uleb_continues(bytes[m - 1])
}

proof fn lemma_uleb_scan_bounds(bytes: Seq<u8>, i: nat)
    ensures
        i <= bytes.len() ==> i <= uleb_scan(bytes, i) <= bytes.len(),
        i < bytes.len() ==> i < uleb_scan(bytes, i),
        uleb_scan(bytes, i) > 0 ==> 7 * (uleb_scan(bytes, i) - 1) < usize::BITS || i
            >= bytes.len() || 7 * i >= usize::BITS,
    decreases bytes.len() - i,
{
    if i < bytes.len() && uleb_continues(bytes[i as int]) && 7 * (i + 1) < usize::BITS {
        lemma_uleb_scan_bounds(bytes, i + 1);
    }
}

/// Reads a ULEB128 length prefix. Returns the length and the number of bytes
/// that encoded it.
pub fn read_uleb128(bytes: &[u8]) -> (r: Result<(usize, usize), RelayError>)
    ensures
        r is Ok <==> uleb_result(bytes@) is Some,
        r matches Ok((v, n)) ==> uleb_result(bytes@) == Some((v as int, n as int)),
        r is Err ==> is_build_error(r->Err_0, uleb_error_message(bytes@)),
{
    let mut value: usize = 0;
    let mut shift: u32 = 0;
    let mut index: usize = 0;
    proof {
        assert(usize::BITS == 32 || usize::BITS == 64);
    }
    while index < bytes.len()
        invariant
            index <= bytes.len(),
            shift == 7 * index,
            shift < usize::BITS,
            usize::BITS == 32 || usize::BITS == 64,
            uleb_sum(bytes@, index as nat) == Some(value as int),
            uleb_scan(bytes@, 0) == uleb_scan(bytes@, index as nat),
            index > 0 ==> uleb_continues(bytes@[index - 1]),
        decreases bytes.len() - index,
    {
        let byte = bytes[index];
        let digit: usize = (byte & 0x7f) as usize;
        let term: usize = digit << shift;
        assert(term == uleb_term(bytes@, index as nat));
        match value.checked_add(term) {
            None => {
                proof {
                    lemma_uleb_scan_bounds(bytes@, index as nat);
                    assert(uleb_sum(bytes@, (index + 1) as nat) is None);
                    lemma_uleb_sum_none_stays(bytes@, (index + 1) as nat, uleb_len(bytes@));
                }
                return Err(build_error("event tag length overflow"));
            },
            Some(v) => {
                value = v;
            },
        }
        assert(uleb_sum(bytes@, (index + 1) as nat) == Some(value as int));
        if byte & 0x80 == 0 {
            assert(uleb_scan(bytes@, index as nat) == index + 1);
            return Ok((value, index + 1));
        }
        if shift + 7 >= usize::BITS {
            assert(uleb_scan(bytes@, index as nat) == index + 1);
            return Err(build_error("invalid event tag length"));
        }
        shift = shift + 7;
        index = index + 1;
    }
    assert(uleb_scan(bytes@, index as nat) == index);
    Err(build_error("invalid event tag length"))
}

proof fn lemma_uleb_sum_none_stays(bytes: Seq<u8>, n: nat, m: nat)
    requires
        n <= m,
        uleb_sum(bytes, n) is None,
    ensures
        uleb_sum(bytes, m) is None,
    decreases m - n,
{
    if n < m {
        lemma_uleb_sum_none_stays(bytes, n + 1, m);
    }
}

} // verus!

verus! {

/// The decoded length prefix and the number of bytes it took, when the
/// decoder accepts the prefix.
pub open spec fn uleb_result(bytes: Seq<u8>) -> Option<(int, int)> {
    match uleb_sum(bytes, uleb_len(bytes)) {
        Some(v) => if uleb_terminated(bytes) {
            Some((v, uleb_len(bytes) as int))
        } else {
            None
        },
        None => None,
    }
}

/// The message with which the decoder refuses a prefix.
pub open spec fn uleb_error_message(bytes: Seq<u8>) -> Seq<char> {
    if uleb_sum(bytes, uleb_len(bytes)) is None {
        "event tag length overflow"@
    } else {
        "invalid event tag length"@
    }
}

/// Where the tag of an encoded event starts and ends, when the length prefix
/// decodes and the tag lies inside the event.
pub open spec fn event_tag_bounds(event: Seq<u8>) -> Option<(int, int)> {
    match uleb_result(event) {
        Some((len, p)) => if p + len <= event.len() {
            Some((p, p + len))
        } else {
            None
        },
        None => None,
    }
}

/// Splits an encoded event into its tag and the payload that follows it.
/// The tag is a ULEB128-prefixed UTF-8 string.
pub fn split_event(event: &[u8]) -> (r: Result<(String, Vec<u8>), RelayError>)
    ensures
        uleb_result(event@) is None ==> r is Err && is_build_error(
            r->Err_0,
            uleb_error_message(event@),
        ),
        uleb_result(event@) is Some && event_tag_bounds(event@) is None ==> r is Err
            && is_build_error(r->Err_0, "invalid event tag length"@),
        event_tag_bounds(event@) matches Some((a, b)) ==> {
            let tag = event@.subrange(a, b);
            &&& r is Ok <==> valid_utf8(tag)
            &&& r is Ok ==> r->Ok_0.0@ == decode_utf8(tag) && r->Ok_0.1@ == event@.subrange(
                b,
                event@.len() as int,
            )
            &&& r is Err ==> r->Err_0 is SponsorBuild && error_message(r->Err_0).take(19)
                == "invalid event tag: "@
        },
{
    let (len, prefix_len) = match read_uleb128(event) {
        Ok(v) => v,
        Err(e) => return Err(e),
    };
    let total = event.len();
    let end = match prefix_len.checked_add(len) {
        Some(end) => end,
        None => return Err(build_error("invalid event tag length")),
    };
    if end > event.len() {
        return Err(build_error("invalid event tag length"));
    }
    let tag_bytes = &event[prefix_len..end];
    assert(tag_bytes@ == event@.subrange(prefix_len as int, end as int));
    let rest = slice_to_vec(&event[end..event.len()]);
    match utf8_decode(tag_bytes) {
        Ok(tag) => Ok((tag, rest)),
        Err(msg) => {
            let mut text = "invalid event tag: ".to_string();
            text.append(msg.as_str());
            proof {
                reveal_strlit("invalid event tag: ");
                assert(text@.take(19) =~= "invalid event tag: "@);
            }
            Err(RelayError::SponsorBuild(text))
        },
    }
}

/// Every byte the decoder reads before the last announces a successor.
proof fn lemma_scan_continues(bytes: Seq<u8>, i: nat)
    requires
        i <= bytes.len(),
    ensures
        forall|j: int| i <= j < uleb_scan(bytes, i) - 1 ==> uleb_continues(#[trigger] bytes[j]),
    decreases bytes.len() - i,
{
    if i < bytes.len() && uleb_continues(bytes[i as int]) && 7 * (i + 1) < usize::BITS {
        lemma_scan_continues(bytes, i + 1);
        lemma_uleb_scan_bounds(bytes, i + 1);
    }
}

/// Bytes after a terminated prefix do not change where the decoder stops.
proof fn lemma_scan_prefix(bytes: Seq<u8>, extra: Seq<u8>, i: nat)
    requires
        i < uleb_scan(bytes, i) <= bytes.len(),
        !uleb_continues(bytes[uleb_scan(bytes, i) - 1]),
    ensures
        uleb_scan(bytes + extra, i) == uleb_scan(bytes, i),
    decreases bytes.len() - i,
{
    let e = bytes + extra;
    assert(e[i as int] == bytes[i as int]);
    if uleb_continues(bytes[i as int]) && 7 * (i + 1) < usize::BITS {
        lemma_uleb_scan_bounds(bytes, i + 1);
        lemma_scan_prefix(bytes, extra, i + 1);
    }
}

/// Bytes after the first `n` do not change the sum of their terms.
proof fn lemma_sum_prefix(bytes: Seq<u8>, extra: Seq<u8>, n: nat)
    requires
        n <= bytes.len(),
    ensures
        uleb_sum(bytes + extra, n) == uleb_sum(bytes, n),
    decreases n,
{
    if n > 0 {
        lemma_sum_prefix(bytes, extra, (n - 1) as nat);
        assert((bytes + extra)[n - 1] == bytes[n - 1]);
    }
}

/// Law: a length prefix the decoder accepts is terminated by its last byte,
/// every earlier byte announces a successor, it fits the machine word's
/// groups of seven bits, and bytes appended after it change nothing.
pub proof fn lemma_uleb_prefix(bytes: Seq<u8>, extra: Seq<u8>)
    requires
        uleb_result(bytes) is Some,
    ensures
        1 <= uleb_result(bytes)->Some_0.1 <= bytes.len(),
        7 * (uleb_result(bytes)->Some_0.1 - 1) < usize::BITS,
        !uleb_continues(bytes[uleb_result(bytes)->Some_0.1 - 1]),
        forall|i: int|
            0 <= i < uleb_result(bytes)->Some_0.1 - 1 ==> uleb_continues(#[trigger] bytes[i]),
        uleb_result(bytes + extra) == uleb_result(bytes),
{
    let m = uleb_len(bytes);
    lemma_uleb_scan_bounds(bytes, 0);
    lemma_scan_continues(bytes, 0);
    lemma_scan_prefix(bytes, extra, 0);
    lemma_sum_prefix(bytes, extra, m);
    assert((bytes + extra)[m - 1] == bytes[m - 1]);
}

/// Law: without a terminating byte among those the machine word leaves room
/// for, the decoder refuses the prefix.
pub proof fn lemma_uleb_needs_terminator(bytes: Seq<u8>)
    requires
        forall|i: int|
            0 <= i < bytes.len() && 7 * i < usize::BITS ==> uleb_continues(#[trigger] bytes[i]),
    ensures
        uleb_result(bytes) is None,
{
    lemma_uleb_scan_bounds(bytes, 0);
}

/// The number the first `n` bytes of a ULEB128 prefix denote: each byte's
/// seven value bits, the first byte's lowest.
pub open spec fn uleb_value(bytes: Seq<u8>, n: nat) -> nat
    decreases n,
{
    if n == 0 {
        0
    } else {
        uleb_value(bytes, (n - 1) as nat) + (bytes[n - 1] & 0x7f) as nat * pow2((7 * (n - 1)) as nat)
    }
}

proof fn lemma_uleb_value_grows(bytes: Seq<u8>, j: nat, n: nat)
    requires
        j <= n,
    ensures
        uleb_value(bytes, j) <= uleb_value(bytes, n),
    decreases n - j,
{
    if j < n {
        lemma_uleb_value_grows(bytes, j, (n - 1) as nat);
        lemma_pow2_pos((7 * (n - 1)) as nat);
        assert((bytes[n - 1] & 0x7f) as nat * pow2((7 * (n - 1)) as nat) >= 0) by (nonlinear_arith);
    }
}

proof fn lemma_uleb_sum_value(bytes: Seq<u8>, j: nat, n: nat)
    requires
        j <= n <= bytes.len(),
        n > 0 ==> 7 * (n - 1) < usize::BITS,
        uleb_value(bytes, n) <= usize::MAX,
    ensures
        uleb_sum(bytes, j) == Some(uleb_value(bytes, j) as int),
    decreases j,
{
    if j > 0 {
        let i = (j - 1) as nat;
        lemma_uleb_sum_value(bytes, i, n);
        lemma_uleb_value_grows(bytes, j, n);
        let b = bytes[i as int];
        let d: usize = (b & 0x7f) as usize;
        assert(d as nat == (b & 0x7f) as nat);
        assert(7 * i < usize::BITS);
        lemma_pow2_pos(7 * i);
        assert(d as nat * pow2(7 * i) <= uleb_value(bytes, j));
        lemma_usize_shl_is_mul(d, (7 * i) as usize);
        assert(uleb_term(bytes, i) == d as nat * pow2(7 * i));
    }
}

/// Law: when the number a decoded prefix denotes fits the machine word, the
/// decoder gives exactly that number.
pub proof fn lemma_uleb_value(bytes: Seq<u8>)
    requires
        uleb_result(bytes) is Some,
        uleb_value(bytes, uleb_result(bytes)->Some_0.1 as nat) <= usize::MAX,
    ensures
        uleb_result(bytes)->Some_0.0 == uleb_value(bytes, uleb_result(bytes)->Some_0.1 as nat),
{
    let n = uleb_len(bytes);
    lemma_uleb_prefix(bytes, Seq::empty());
    lemma_uleb_sum_value(bytes, n, n);
}

/// Byte `i` of the ULEB128 form of `n`: the `i`-th group of seven bits,
/// with the continuation bit on every byte but the last.
proof fn lemma_uleb_bytes_shape(n: nat, i: int)
    requires
        0 <= i < uleb128_bytes(n).len(),
    ensures
        pow2((7 * i) as nat) > 0,
        i + 1 < uleb128_bytes(n).len() ==> uleb128_bytes(n)[i] as int == (n as int / pow2(
            (7 * i) as nat,
        ) as int) % 128 + 128,
        i + 1 == uleb128_bytes(n).len() ==> uleb128_bytes(n)[i] as int == n as int / pow2(
            (7 * i) as nat,
        ) as int,
        i + 1 == uleb128_bytes(n).len() ==> (n as int / pow2((7 * i) as nat) as int) < 128,
    decreases n,
{
    lemma_pow2_pos((7 * i) as nat);
    if n < 128 {
        assert(pow2(0) == 1) by {
            lemma2_to64();
        }
    } else {
        let tail = uleb128_bytes(n / 128);
        assert(uleb128_bytes(n) == seq![(n % 128 + 128) as u8] + tail);
        assert(tail.len() >= 1) by {
            reveal_with_fuel(uleb128_bytes, 2);
        }
        if i == 0 {
            assert(pow2(0) == 1) by {
                lemma2_to64();
            }
        } else {
            lemma_uleb_bytes_shape(n / 128, i - 1);
            assert(uleb128_bytes(n)[i] == tail[i - 1]);
            lemma_pow2_pos((7 * (i - 1)) as nat);
            assert(pow2(7) == 128) by {
                lemma2_to64();
            }
            lemma_pow2_adds(7, (7 * (i - 1)) as nat);
            assert((7 + 7 * (i - 1)) as nat == (7 * i) as nat);
            lemma_div_denominator(n as int, 128, pow2((7 * (i - 1)) as nat) as int);
        }
    }
}

/// The ULEB128 form of a number up to the largest BCS length takes at most
/// five bytes.
proof fn lemma_uleb_bytes_len(n: nat, j: nat)
    requires
        1 <= j,
        n < pow2(7 * j),
    ensures
        uleb128_bytes(n).len() <= j,
    decreases n,
{
    if n >= 128 {
        if j == 1 {
            assert(pow2(7) == 128) by {
                lemma2_to64();
            }
        } else {
            assert(pow2(7) == 128) by {
                lemma2_to64();
            }
            lemma_pow2_adds(7, (7 * (j - 1)) as nat);
            assert((7 + 7 * (j - 1)) as nat == 7 * j);
            lemma_pow2_pos((7 * (j - 1)) as nat);
            assert(n / 128 < pow2((7 * (j - 1)) as nat)) by {
                lemma_fundamental_div_mod(n as int, 128);
                assert(n as int >= 128 * (n as int / 128));
                assert(pow2(7 * j) == 128 * pow2((7 * (j - 1)) as nat));
                assert((n / 128) as int * 128 < 128 * pow2((7 * (j - 1)) as nat) as int) by (nonlinear_arith)
                    requires
                        (n / 128) as int * 128 <= n,
                        n < 128 * pow2((7 * (j - 1)) as nat),
                ;
            }
            lemma_uleb_bytes_len(n / 128, (j - 1) as nat);
        }
    }
}

proof fn lemma_uleb_short(n: nat)
    requires
        n <= bcs_max_len(),
    ensures
        1 <= uleb128_bytes(n).len() <= 5,
{
    reveal_with_fuel(uleb128_bytes, 2);
    assert(pow2(35) == 0x8_0000_0000) by {
        lemma2_to64_rest();
    }
    lemma_uleb_bytes_len(n, 5);
}

/// Reading the ULEB128 form of `n` from the start of `e` stops at its end.
proof fn lemma_scan_encoded(n: nat, rest: Seq<u8>, i: nat)
    requires
        n <= bcs_max_len(),
        i < uleb128_bytes(n).len(),
    ensures
        uleb_scan(uleb128_bytes(n) + rest, i) == uleb128_bytes(n).len(),
    decreases uleb128_bytes(n).len() - i,
{
    let bs = uleb128_bytes(n);
    let e = bs + rest;
    lemma_uleb_short(n);
    lemma_uleb_bytes_shape(n, i as int);
    assert(e[i as int] == bs[i as int]);
    let b = bs[i as int];
    assert(usize::BITS == 32 || usize::BITS == 64);
    if i + 1 < bs.len() {
        assert(b >= 128);
        assert(b & 0x80 != 0) by (bit_vector)
            requires
                b >= 128,
        ;
        lemma_scan_encoded(n, rest, i + 1);
    } else {
        assert(b < 128);
        assert(b & 0x80 == 0) by (bit_vector)
            requires
                b < 128,
        ;
    }
}

/// The first `j` bytes of the ULEB128 form of `n` sum to `n`'s lowest
/// `7 * j` bits.
proof fn lemma_sum_encoded(n: nat, rest: Seq<u8>, j: nat)
    requires
        n <= bcs_max_len(),
        j <= uleb128_bytes(n).len(),
    ensures
        pow2(7 * j) > 0,
        uleb_sum(uleb128_bytes(n) + rest, j) == Some(n as int % pow2(7 * j) as int),
    decreases j,
{
    let bs = uleb128_bytes(n);
    let e = bs + rest;
    lemma_pow2_pos(7 * j);
    lemma_uleb_short(n);
    assert(usize::BITS == 32 || usize::BITS == 64);
    if j == 0 {
        assert(pow2(0) == 1) by {
            lemma2_to64();
        }
    } else {
        let i = (j - 1) as nat;
        lemma_sum_encoded(n, rest, i);
        lemma_uleb_bytes_shape(n, i as int);
        let p = pow2(7 * i);
        let q = n as int / p as int;
        assert(e[i as int] == bs[i as int]);
        let b = bs[i as int];
        let d: u8 = (q % 128) as u8;
        if i + 1 < bs.len() {
            assert(b == d + 128);
            assert((b & 0x7f) == d) by (bit_vector)
                requires
                    b == d + 128,
                    d < 128,
            ;
        } else {
            assert(q % 128 == q);
            assert(b == d);
            assert((b & 0x7f) == d) by (bit_vector)
                requires
                    b == d,
                    d < 128,
            ;
        }
        assert(uleb_digit(b) == d as usize);
        assert(d as int * p as int <= n) by {
            lemma_fundamental_div_mod(n as int, p as int);
            lemma_fundamental_div_mod(q, 128);
            assert(0 <= n as int % p as int);
            assert(q >= 0);
            assert(d as int <= q);
            assert(d as int * p as int <= q * p as int) by (nonlinear_arith)
                requires
                    d as int <= q,
                    p > 0,
            ;
            assert(q * p as int <= n) by (nonlinear_arith)
                requires
                    n as int == p as int * q + n as int % p as int,
                    0 <= n as int % p as int,
            ;
        }
        assert(7 * i < 32);
        lemma_usize_shl_is_mul(d as usize, (7 * i) as usize);
        assert(uleb_term(e, i) == d as int * p as int);
        lemma_mod_breakdown(n as int, p as int, 128);
        assert(pow2(7) == 128) by {
            lemma2_to64();
        }
        lemma_pow2_adds(7 * i, 7);
        assert(7 * i + 7 == 7 * j);
        assert(p as int * 128 == pow2(7 * j));
        assert(n as int % pow2(7 * j) as int == p as int * (q % 128) + n as int % p as int);
        assert(n as int % pow2(7 * j) as int <= n) by {
            vstd::arithmetic::div_mod::lemma_mod_decreases(n, pow2(7 * j));
        }
    }
}

/// Law: a ULEB128 length, up to the largest BCS length, read at the start of
/// any bytes, gives back that length and the number of bytes it was written
/// in.
pub proof fn lemma_uleb_round_trip(n: nat, rest: Seq<u8>)
    requires
        n <= bcs_max_len(),
    ensures
        uleb_result(uleb128_bytes(n) + rest) == Some((n as int, uleb128_bytes(n).len() as int)),
{
    let bs = uleb128_bytes(n);
    let e = bs + rest;
    let k = bs.len();
    lemma_uleb_short(n);
    lemma_scan_encoded(n, rest, 0);
    lemma_sum_encoded(n, rest, k);
    lemma_uleb_bytes_shape(n, k - 1);
    let p = pow2((7 * (k - 1)) as nat);
    assert((n as int / p as int) < 128);
    assert(pow2(7) == 128) by {
        lemma2_to64();
    }
    lemma_pow2_adds((7 * (k - 1)) as nat, 7);
    assert((7 * (k - 1)) as nat + 7 == 7 * k);
    assert(n < pow2(7 * k)) by {
        lemma_fundamental_div_mod(n as int, p as int);
        assert((n as int % p as int) < p);
        assert((n as int) < p as int * 128) by (nonlinear_arith)
            requires
                n as int == p as int * (n as int / p as int) + n as int % p as int,
                (n as int % p as int) < p,
                n as int / p as int <= 127,
        ;
    }
    vstd::arithmetic::div_mod::lemma_small_mod(n, pow2(7 * k));
    assert(e[k - 1] == bs[k - 1]);
    assert(bs[k - 1] < 128);
    let b = bs[k - 1];
    assert(b & 0x80 == 0) by (bit_vector)
        requires
            b < 128,
    ;
}

/// Law: an event written as the ULEB128 length of its tag, the tag and a
/// payload, for a tag of any length BCS writes, splits back into that tag and
/// that payload.
pub proof fn lemma_event_splits(tag: Seq<u8>, payload: Seq<u8>)
    requires
        tag.len() <= bcs_max_len(),
    ensures
        event_tag_bounds(uleb128_bytes(tag.len()) + tag + payload) == Some(
            (
                uleb128_bytes(tag.len()).len() as int,
                (uleb128_bytes(tag.len()).len() + tag.len()) as int,
            ),
        ),
        (uleb128_bytes(tag.len()) + tag + payload).subrange(
            uleb128_bytes(tag.len()).len() as int,
            (uleb128_bytes(tag.len()).len() + tag.len()) as int,
        ) == tag,
        (uleb128_bytes(tag.len()) + tag + payload).subrange(
            (uleb128_bytes(tag.len()).len() + tag.len()) as int,
            (uleb128_bytes(tag.len()) + tag + payload).len() as int,
        ) == payload,
{
    let bs = uleb128_bytes(tag.len());
    let e = bs + tag + payload;
    assert(e =~= bs + (tag + payload));
    lemma_uleb_round_trip(tag.len(), tag + payload);
    assert(e.subrange(bs.len() as int, (bs.len() + tag.len()) as int) =~= tag);
    assert(e.subrange((bs.len() + tag.len()) as int, e.len() as int) =~= payload);
}

} // verus!

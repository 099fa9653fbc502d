use vstd::prelude::*;

use crate::text::{chars_of, digits_value, is_digit};

verus! {

/// The fields of a text separated by dots (a text without dots is one field).
pub open spec fn split_dots(s: Seq<char>) -> Seq<Seq<char>>
    decreases s.len(),
{
    if s.len() == 0 {
        seq![Seq::<char>::empty()]
    } else {
        let rest = split_dots(s.drop_last());
        if s.last() == '.' {
            rest.push(Seq::<char>::empty())
        } else {
            rest.update(rest.len() - 1, rest.last().push(s.last()))
        }
    }
}

/// Splitting at dots gives at least one field.
proof fn lemma_split_dots_nonempty(s: Seq<char>)
    ensures
        split_dots(s).len() >= 1,
    decreases s.len(),
{
    if s.len() > 0 {
        lemma_split_dots_nonempty(s.drop_last());
    }
}

/// A decimal octet of dotted-quad notation: one to three ASCII digits, no
/// leading zero unless it is the only digit, at most 255.
pub open spec fn octet_ok(t: Seq<char>) -> bool {
    &&& 1 <= t.len() <= 3
    &&& forall|i: int| 0 <= i < t.len() ==> is_digit(#[trigger] t[i])
    &&& (t.len() == 1 || t[0] != '0')
    &&& digits_value(t) <= 255
}

/// The IPv4 address that a text denotes in dotted-quad notation, as a 32-bit
/// number whose first octet is the most significant; `None` for any other
/// text.
pub open spec fn spec_ipv4(s: Seq<char>) -> Option<u32> {
    let f = split_dots(s);
    if f.len() == 4 && octet_ok(f[0]) && octet_ok(f[1]) && octet_ok(f[2]) && octet_ok(f[3]) {
        Some(
            (digits_value(f[0]) * 0x100_0000 + digits_value(f[1]) * 0x1_0000 + digits_value(f[2])
                * 0x100 + digits_value(f[3])) as u32,
        )
    } else {
        None
    }
}

proof fn lemma_digits_small(t: Seq<char>, k: int)
    requires
        0 <= k <= t.len(),
        forall|i: int| 0 <= i < t.len() ==> is_digit(#[trigger] t[i]),
    ensures
        digits_value(t.take(k)) < vstd::arithmetic::power::pow(10, k as nat),
    decreases k,
{
    vstd::arithmetic::power::lemma_pow_positive(10, k as nat);
    if k > 0 {
        lemma_digits_small(t, k - 1);
        assert(t.take(k).drop_last() =~= t.take(k - 1));
        assert(is_digit(t[k - 1]));
        vstd::arithmetic::power::lemma_pow_adds(10, (k - 1) as nat, 1);
        vstd::arithmetic::power::lemma_pow1(10);
    } else {
        assert(t.take(0).len() == 0);
        vstd::arithmetic::power::lemma_pow0(10);
    }
}

/// The value of a field when it is a valid octet.
fn octet(t: &Vec<char>) -> (r: Option<u32>)
    ensures
        r is Some <==> octet_ok(t@),
        r matches Some(v) ==> v == digits_value(t@),
{
    let n = t.len();
    if n == 0 || n > 3 {
        return None;
    }
    let mut acc: u32 = 0;
    let mut i: usize = 0;
    while i < n
        invariant
            n == t@.len(),
            1 <= n <= 3,
            i <= n,
            forall|j: int| 0 <= j < i ==> is_digit(#[trigger] t@[j]),
            acc == digits_value(t@.take(i as int)),
            acc < 1000,
        decreases n - i,
    {
        let ch = t[i];
        if !('0' <= ch && ch <= '9') {
            return None;
        }
        proof {
            lemma_digits_small(t@.take(i + 1), i + 1);
            assert(t@.take(i + 1).take(i + 1) =~= t@.take(i + 1));
            assert(t@.take(i + 1).drop_last() =~= t@.take(i as int));
            vstd::arithmetic::power::lemma_pow_increases(10, (i + 1) as nat, 3);
            assert(vstd::arithmetic::power::pow(10, 3) == 1000) by {
                vstd::arithmetic::power::lemma_pow1(10);
                vstd::arithmetic::power::lemma_pow_adds(10, 1, 1);
                vstd::arithmetic::power::lemma_pow_adds(10, 2, 1);
            }
        }
        acc = acc * 10 + (ch as u32 - '0' as u32);
        i = i + 1;
    }
    assert(t@.take(n as int) =~= t@);
    if n > 1 && t[0] == '0' {
        return None;
    }
    if acc > 255 {
        return None;
    }
    Some(acc)
}

/// Reads an IPv4 address in dotted-quad notation, as the standard library's
/// `Ipv4Addr` parser does, as a 32-bit number.
pub fn parse_ipv4(text: &str) -> (r: Option<u32>)
    ensures
        r == spec_ipv4(text@),
{
    let c = chars_of(text);
    let mut parts: Vec<Vec<char>> = Vec::new();
    parts.push(Vec::new());
    let mut i: usize = 0;
    while i < c.len()
        invariant
            i <= c@.len(),
            c@ == text@,
            parts@.len() == split_dots(c@.take(i as int)).len(),
            forall|k: int|
                0 <= k < parts@.len() ==> #[trigger] parts@[k]@ == split_dots(c@.take(i as int))[k],
        decreases c.len() - i,
    {
        proof {
            lemma_split_dots_nonempty(c@.take(i as int));
            assert(c@.take(i + 1).drop_last() =~= c@.take(i as int));
        }
        if c[i] == '.' {
            parts.push(Vec::new());
            proof {
                assert forall|k: int| 0 <= k < parts@.len() implies #[trigger] parts@[k]@
                    == split_dots(c@.take(i + 1))[k] by {
                    if k == parts@.len() - 1 {
                        assert(parts@[k]@ =~= Seq::<char>::empty());
                    }
                }
            }
        } else {
            let mut cur = parts.pop().unwrap();
            cur.push(c[i]);
            parts.push(cur);
        }
        i = i + 1;
    }
    assert(c@.take(i as int) =~= text@);
    if parts.len() != 4 {
        return None;
    }
    let a = octet(&parts[0]);
    let b = octet(&parts[1]);
    let d = octet(&parts[2]);
    let e = octet(&parts[3]);
    match (a, b, d, e) {
        (Some(a), Some(b), Some(d), Some(e)) => Some(a * 0x100_0000 + b * 0x1_0000 + d * 0x100 + e),
        _ => None,
    }
}

} // verus!

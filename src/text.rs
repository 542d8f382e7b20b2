//! Byte-level helpers on UTF-8 text.

use vstd::prelude::*;
use vstd::utf8::*;

verus! {

/// Two strings are equal exactly when their UTF-8 encodings are.
pub proof fn lemma_utf8_injective(a: Seq<char>, b: Seq<char>)
    ensures
        (encode_utf8(a) == encode_utf8(b)) == (a == b),
{
    encode_utf8_decode_utf8(a);
    encode_utf8_decode_utf8(b);
}

/// Whether `b[start..]` is exactly `n`.
pub fn suffix_eq(b: &[u8], start: usize, n: &[u8]) -> (r: bool)
    requires
        start <= b@.len(),
    ensures
        r == (b@.subrange(start as int, b@.len() as int) == n@),
{
    if b.len() - start != n.len() {
        proof {
            assert(b@.subrange(start as int, b@.len() as int).len() != n@.len());
        }
        return false;
    }
    let mut i: usize = 0;
    while i < n.len()
        invariant
            start <= b@.len(),
            b@.len() - start == n@.len(),
            start + n.len() == b.len(),
            0 <= i <= n@.len(),
            forall|j: int| 0 <= j < i ==> b@[start + j] == n@[j],
        decreases n@.len() - i,
    {
        if b[start + i] != n[i] {
            proof {
                assert(b@.subrange(start as int, b@.len() as int)[i as int] != n@[i as int]);
            }
            return false;
        }
        i = i + 1;
    }
    proof {
        assert(b@.subrange(start as int, b@.len() as int) =~= n@);
    }
    true
}

/// Whether two strings are equal, compared byte by byte.
pub fn str_eq(a: &str, b: &str) -> (r: bool)
    ensures
        r == (a@ == b@),
{
    let x = a.as_bytes();
    let y = b.as_bytes();
    let r = suffix_eq(x, 0, y);
    proof {
        assert(x@.subrange(0, x@.len() as int) =~= x@);
        lemma_utf8_injective(a@, b@);
    }
    r
}

/// The value of an ASCII decimal digit, if `c` is one.
pub open spec fn digit_value(c: u8) -> Option<nat> {
    if 48 <= c <= 57 {
        Some((c - 48) as nat)
    } else {
        None
    }
}

/// Whether every byte of `d` is an ASCII decimal digit.
pub open spec fn all_digits(d: Seq<u8>) -> bool {
    forall|i: int| 0 <= i < d.len() ==> #[trigger] digit_value(d[i]) is Some
}

/// The number that a string of decimal digits spells, most significant first.
pub open spec fn digits_value(d: Seq<u8>) -> nat
    decreases d.len(),
{
    if d.len() == 0 {
        0
    } else {
        digits_value(d.drop_last()) * 10 + match digit_value(d.last()) {
            Some(v) => v,
            None => 0,
        }
    }
}

/// The digits of an unsigned decimal literal: the text without one leading `+`.
pub open spec fn unsigned_digits(b: Seq<u8>) -> Seq<u8> {
    if b.len() > 0 && b[0] == 43 {
        b.drop_first()
    } else {
        b
    }
}

/// The unsigned 64-bit integer that `b` writes in decimal: an optional `+`
/// followed by at least one ASCII digit, with a value that fits in 64 bits.
pub open spec fn parse_u64_spec(b: Seq<u8>) -> Option<u64> {
    let d = unsigned_digits(b);
    if d.len() > 0 && all_digits(d) && digits_value(d) <= u64::MAX {
        Some(digits_value(d) as u64)
    } else {
        None
    }
}

proof fn lemma_digits_value_monotone(d: Seq<u8>, k: int)
    requires
        0 <= k <= d.len(),
    ensures
        digits_value(d.subrange(0, k)) <= digits_value(d),
    decreases d.len() - k,
{
    if k < d.len() {
        lemma_digits_value_monotone(d, k + 1);
        assert(d.subrange(0, k + 1).drop_last() =~= d.subrange(0, k));
    } else {
        assert(d.subrange(0, k) =~= d);
    }
}

/// Reads `s` as an unsigned decimal integer, as `u64::from_str` does.
pub fn parse_u64(s: &str) -> (r: Option<u64>)
    ensures
        r == parse_u64_spec(encode_utf8(s@)),
{
    let b = s.as_bytes();
    let ghost bs = encode_utf8(s@);
    let start: usize = if b.len() > 0 && b[0] == 43u8 { 1 } else { 0 };
    let ghost d = unsigned_digits(bs);
    proof {
        assert(d =~= bs.subrange(start as int, bs.len() as int));
    }
    if start == b.len() {
        return None;
    }
    let mut acc: u64 = 0;
    let mut i: usize = start;
    while i < b.len()
        invariant
            b@ == bs,
            d == bs.subrange(start as int, bs.len() as int),
            d == unsigned_digits(bs),
            bs == encode_utf8(s@),
            start <= i <= bs.len(),
            all_digits(d.subrange(0, i - start)),
            acc as nat == digits_value(d.subrange(0, i - start)),
        decreases bs.len() - i,
    {
        let c = b[i];
        let ghost k = i - start;
        proof {
            assert(d[k] == c);
        }
        if c < 48u8 || c > 57u8 {
            proof {
                assert(digit_value(d[k]) is None);
                assert(!all_digits(d));
            }
            return None;
        }
        let v: u64 = (c - 48u8) as u64;
        proof {
            assert(d.subrange(0, k + 1).drop_last() =~= d.subrange(0, k));
            assert(d.subrange(0, k + 1).last() == c);
            assert(all_digits(d.subrange(0, k + 1))) by {
                assert forall|j: int| 0 <= j < k + 1 implies #[trigger] digit_value(
                    d.subrange(0, k + 1)[j],
                ) is Some by {
                    if j < k {
                        assert(d.subrange(0, k + 1)[j] == d.subrange(0, k)[j]);
                    }
                }
            }
        }
        if acc > (u64::MAX - v) / 10 {
            proof {
                assert(digits_value(d.subrange(0, k + 1)) == acc * 10 + v);
                assert(acc * 10 + v > u64::MAX) by (nonlinear_arith)
                    requires
                        acc > (u64::MAX - v) / 10,
                        v <= 9,
                ;
                lemma_digits_value_monotone(d, k + 1);
            }
            return None;
        }
        proof {
            assert(acc * 10 + v <= u64::MAX) by (nonlinear_arith)
                requires
                    acc <= (u64::MAX - v) / 10,
                    v <= 9,
            ;
        }
        acc = acc * 10 + v;
        i = i + 1;
    }
    proof {
        assert(d.subrange(0, (i - start) as int) =~= d);
    }
    Some(acc)
}

} // verus!

//! A verified reading of the `{timestamp}` path segment: an optional plus
//! sign followed by decimal digits, accepted exactly when the value fits a
//! `u32`, as the routing layer reads unsigned path parameters.

use vstd::prelude::*;

verus! {

/// The byte for the digit `0`.
pub const ZERO_DIGIT: u8 = 48;

/// The byte for the digit `9`.
pub const NINE_DIGIT: u8 = 57;

/// The byte for a leading plus sign.
pub const PLUS_SIGN: u8 = 43;

/// Whether `b` is a decimal digit.
pub open spec fn is_digit(b: u8) -> bool {
    ZERO_DIGIT <= b <= NINE_DIGIT
}

/// Whether every byte of `s` is a decimal digit.
pub open spec fn all_digits(s: Seq<u8>) -> bool {
    forall|i: int| 0 <= i < s.len() ==> is_digit(#[trigger] s[i])
}

/// The value of `s` read as decimal digits (most significant first).
pub open spec fn dec_value(s: Seq<u8>) -> nat
    decreases s.len(),
{
    if s.len() == 0 {
        0
    } else {
        dec_value(s.drop_last()) * 10 + (s.last() - ZERO_DIGIT) as nat
    }
}

/// The `n`-th power of ten.
pub open spec fn p10(n: nat) -> nat
    decreases n,
{
    if n == 0 {
        1
    } else {
        10 * p10((n - 1) as nat)
    }
}

/// A digit string that does not start with a zero has a value of at least
/// ten to one less than its length.
pub proof fn lemma_dec_value_first_nonzero(s: Seq<u8>)
    requires
        all_digits(s),
        s.len() > 0,
        s[0] != ZERO_DIGIT,
    ensures
        dec_value(s) >= p10((s.len() - 1) as nat),
    decreases s.len(),
{
    assert(is_digit(s[0]));
    if s.len() > 1 {
        let d = s.drop_last();
        assert forall|i: int| 0 <= i < d.len() implies is_digit(#[trigger] d[i]) by {
            assert(is_digit(s[i]));
        }
        lemma_dec_value_first_nonzero(d);
    }
}

/// A leading zero does not change a digit string's value.
pub proof fn lemma_dec_value_leading_zero(s: Seq<u8>)
    requires
        s.len() > 0,
        s[0] == ZERO_DIGIT,
    ensures
        dec_value(s) == dec_value(s.drop_first()),
    decreases s.len(),
{
    if s.len() == 1 {
        assert(s.drop_first().len() == 0);
        assert(dec_value(s) == dec_value(s.drop_last()) * 10 + (s.last() - ZERO_DIGIT) as nat);
        assert(s.drop_last().len() == 0);
    } else {
        let d = s.drop_last();
        assert(d[0] == s[0]);
        lemma_dec_value_leading_zero(d);
        assert(s.drop_first().drop_last() =~= d.drop_first());
        assert(s.drop_first().last() == s.last());
        assert(dec_value(s) == dec_value(d) * 10 + (s.last() - ZERO_DIGIT) as nat);
        assert(dec_value(s.drop_first()) == dec_value(s.drop_first().drop_last()) * 10 + (
        s.drop_first().last() - ZERO_DIGIT) as nat);
    }
}

/// The digits of a path segment: the segment without its optional leading
/// plus sign.
pub open spec fn strip_plus(s: Seq<u8>) -> Seq<u8> {
    if s.len() > 0 && s[0] == PLUS_SIGN {
        s.drop_first()
    } else {
        s
    }
}

/// What the routing layer makes of a path segment read as a `u32`: after an
/// optional leading plus sign, one or more decimal digits whose value fits.
pub open spec fn spec_parse_u32(s: Seq<u8>) -> Option<u32> {
    let ds = strip_plus(s);
    if ds.len() > 0 && all_digits(ds) && dec_value(ds) <= u32::MAX {
        Some(dec_value(ds) as u32)
    } else {
        None
    }
}

/// Read a path segment as a `u32`, as [`spec_parse_u32`] describes.
pub fn parse_u32(s: &[u8]) -> (r: Option<u32>)
    ensures
        r == spec_parse_u32(s@),
{
    let n = s.len();
    let start: usize = if n > 0 && s[0] == PLUS_SIGN {
        1
    } else {
        0
    };
    let ghost ds = strip_plus(s@);
    proof {
        assert(ds =~= s@.subrange(start as int, n as int));
    }
    if start == n {
        return None;
    }
    // Every remaining byte must be a digit.
    let mut i: usize = start;
    while i < n
        invariant
            start <= i <= n == s@.len(),
            ds == strip_plus(s@),
            ds == s@.subrange(start as int, n as int),
            forall|k: int| start <= k < i ==> is_digit(#[trigger] s@[k]),
        decreases n - i,
    {
        let b = s[i];
        if b < ZERO_DIGIT || b > NINE_DIGIT {
            proof {
                assert(ds[i - start] == s@[i as int]);
                assert(!all_digits(ds));
            }
            return None;
        }
        i += 1;
    }
    proof {
        assert forall|k: int| 0 <= k < ds.len() implies is_digit(#[trigger] ds[k]) by {
            assert(ds[k] == s@[start + k]);
        }
    }
    // Leading zeros do not change the value; step over them.
    let mut z: usize = start;
    while z < n && s[z] == ZERO_DIGIT
        invariant
            start <= z <= n == s@.len(),
            ds == strip_plus(s@),
            ds == s@.subrange(start as int, n as int),
            all_digits(ds),
            dec_value(ds) == dec_value(s@.subrange(z as int, n as int)),
        decreases n - z,
    {
        proof {
            let cur = s@.subrange(z as int, n as int);
            lemma_dec_value_leading_zero(cur);
            assert(cur.drop_first() =~= s@.subrange(z + 1, n as int));
        }
        z += 1;
    }
    let ghost tail = s@.subrange(z as int, n as int);
    if z == n {
        proof {
            assert(tail.len() == 0);
        }
        return Some(0);
    }
    // More than ten significant digits cannot fit a `u32`.
    proof {
        assert forall|k: int| 0 <= k < tail.len() implies is_digit(#[trigger] tail[k]) by {
            assert(tail[k] == ds[(z - start) + k]);
        }
    }
    if n - z > 10 {
        proof {
            lemma_dec_value_first_nonzero(tail);
            assert(p10(10) == 10000000000nat) by {
                reveal_with_fuel(p10, 11);
            }
            assert(tail.len() - 1 >= 10);
            lemma_p10_increases(10, (tail.len() - 1) as nat);
        }
        return None;
    }
    // Accumulate the value; at most ten digits, so a `u64` cannot overflow.
    let mut acc: u64 = 0;
    let mut j: usize = z;
    while j < n
        invariant
            z <= j <= n == s@.len(),
            n - z <= 10,
            start <= z,
            ds == strip_plus(s@),
            ds == s@.subrange(start as int, n as int),
            dec_value(ds) == dec_value(tail),
            tail == s@.subrange(z as int, n as int),
            all_digits(tail),
            acc as nat == dec_value(s@.subrange(z as int, j as int)),
            p10((j - z) as nat) > acc as nat,
        decreases n - j,
    {
        let b = s[j];
        proof {
            let pre = s@.subrange(z as int, j as int);
            let cur = s@.subrange(z as int, j + 1);
            assert(cur.drop_last() =~= pre);
            assert(cur.last() == s@[j as int]);
            assert(is_digit(tail[j - z]));
            assert(tail[j - z] == s@[j as int]);
            assert(p10(((j + 1) - z) as nat) == 10 * p10((j - z) as nat));
            lemma_p10_increases((j - z) as nat, 10);
            assert(p10(10) == 10000000000nat) by {
                reveal_with_fuel(p10, 11);
            }
        }
        acc = acc * 10 + (b - ZERO_DIGIT) as u64;
        j += 1;
    }
    proof {
        assert(s@.subrange(z as int, n as int) =~= tail);
        assert(acc as nat == dec_value(tail));
        assert(dec_value(ds) == dec_value(tail));
    }
    if acc > 0xffff_ffff {
        None
    } else {
        Some(acc as u32)
    }
}

/// Powers of ten grow with the exponent.
pub proof fn lemma_p10_increases(a: nat, b: nat)
    requires
        a <= b,
    ensures
        p10(a) <= p10(b),
    decreases b,
{
    if a < b {
        lemma_p10_increases(a, (b - 1) as nat);
    }
}

} // verus!

//! A verified reading of the create request's body: the JSON object
//! `{"calories": <integer>}`, with JSON whitespace around the tokens, the
//! integer in JSON form (an optional minus sign, no superfluous leading
//! zero) and within the range of an `i64`. Anything else is rejected.

use vstd::prelude::*;

use crate::parse::{
    dec_value, is_digit, lemma_dec_value_first_nonzero, lemma_p10_increases, p10, ZERO_DIGIT,
};

verus! {

/// The byte for `{`.
pub const LEFT_BRACE: u8 = 123;

/// The byte for `}`.
pub const RIGHT_BRACE: u8 = 125;

/// The byte for `:`.
pub const COLON: u8 = 58;

/// The byte for `-`.
pub const MINUS_SIGN: u8 = 45;

/// The byte for `"`.
pub const QUOTE: u8 = 34;

/// The largest magnitude a negative `i64` can carry.
pub const I64_MIN_MAGNITUDE: u64 = 9223372036854775808;

/// Whether `b` is JSON whitespace: space, tab, line feed or carriage return.
pub open spec fn is_ws(b: u8) -> bool {
    b == 32 || b == 9 || b == 10 || b == 13
}

/// `s` without its leading JSON whitespace.
pub open spec fn skip_ws(s: Seq<u8>) -> Seq<u8>
    decreases s.len(),
{
    if s.len() > 0 && is_ws(s.first()) {
        skip_ws(s.drop_first())
    } else {
        s
    }
}

/// The length of the longest digit prefix of `s`.
pub open spec fn digits_prefix_len(s: Seq<u8>) -> nat
    decreases s.len(),
{
    if s.len() > 0 && is_digit(s.first()) {
        1 + digits_prefix_len(s.drop_first())
    } else {
        0
    }
}

/// The bytes of the quoted key `"calories"`.
pub open spec fn calories_key() -> Seq<u8> {
    seq![QUOTE, 99u8, 97u8, 108u8, 111u8, 114u8, 105u8, 101u8, 115u8, QUOTE]
}

/// Whether digit string `d` is a JSON integer's digits: no leading zero
/// unless it is the single digit `0`.
pub open spec fn json_int_form(d: Seq<u8>) -> bool {
    d.len() == 1 || d.first() != ZERO_DIGIT
}

/// Whether `s` is a closing brace and then only whitespace.
pub open spec fn closes_object(s: Seq<u8>) -> bool {
    let r = skip_ws(s);
    r.len() > 0 && r.first() == RIGHT_BRACE && skip_ws(r.drop_first()).len() == 0
}

/// What an integer at the head of `s`, followed by the object's closing
/// brace, denotes: the signed value when the digits are in JSON form, the
/// value fits an `i64`, and only the closing brace and whitespace follow.
pub open spec fn spec_number_then_close(s: Seq<u8>) -> Option<i64> {
    let neg = s.len() > 0 && s.first() == MINUS_SIGN;
    let m = if neg {
        s.drop_first()
    } else {
        s
    };
    let k = digits_prefix_len(m);
    if k == 0 || !json_int_form(m.take(k as int)) {
        None
    } else {
        let v = dec_value(m.take(k as int));
        if (if neg {
            v <= I64_MIN_MAGNITUDE
        } else {
            v <= i64::MAX
        }) {
            if closes_object(m.skip(k as int)) {
                if neg {
                    Some((-(v as int)) as i64)
                } else {
                    Some(v as i64)
                }
            } else {
                None
            }
        } else {
            None
        }
    }
}

/// What the body of a create request denotes: the calorie count of the JSON
/// object `{"calories": <integer>}`, or nothing when the body is not of that
/// form.
pub open spec fn spec_parse_calories(s: Seq<u8>) -> Option<i64> {
    let s1 = skip_ws(s);
    if s1.len() == 0 || s1.first() != LEFT_BRACE {
        None
    } else {
        let s2 = skip_ws(s1.drop_first());
        if !(s2.len() >= 10 && s2.take(10) == calories_key()) {
            None
        } else {
            let s3 = skip_ws(s2.skip(10));
            if s3.len() == 0 || s3.first() != COLON {
                None
            } else {
                spec_number_then_close(skip_ws(s3.drop_first()))
            }
        }
    }
}

/// A prefix of digits bounded by a non-digit (or the end) is the longest
/// digit prefix.
proof fn lemma_digits_prefix_len(m: Seq<u8>, k: nat)
    requires
        k <= m.len(),
        forall|i: int| 0 <= i < k ==> is_digit(#[trigger] m[i]),
        k == m.len() || !is_digit(m[k as int]),
    ensures
        digits_prefix_len(m) == k,
    decreases m.len(),
{
    if k == 0 {
    } else {
        assert(is_digit(m[0]));
        let d = m.drop_first();
        assert forall|i: int| 0 <= i < k - 1 implies is_digit(#[trigger] d[i]) by {
            assert(d[i] == m[i + 1]);
        }
        if k < m.len() {
            assert(d[k - 1] == m[k as int]);
        }
        lemma_digits_prefix_len(d, (k - 1) as nat);
    }
}

/// Step from index `from` to the first non-whitespace byte at or after it.
fn skip_ws_from(s: &[u8], from: usize) -> (j: usize)
    requires
        from <= s@.len(),
    ensures
        from <= j <= s@.len(),
        skip_ws(s@.skip(from as int)) == s@.skip(j as int),
        j < s@.len() ==> !is_ws(s@[j as int]),
{
    let n = s.len();
    let mut j = from;
    while j < n && (s[j] == 32 || s[j] == 9 || s[j] == 10 || s[j] == 13)
        invariant
            from <= j <= n == s@.len(),
            skip_ws(s@.skip(from as int)) == skip_ws(s@.skip(j as int)),
        decreases n - j,
    {
        proof {
            let cur = s@.skip(j as int);
            assert(cur.first() == s@[j as int]);
            assert(cur.drop_first() =~= s@.skip(j + 1));
        }
        j += 1;
    }
    proof {
        let cur = s@.skip(j as int);
        if j < n {
            assert(cur.first() == s@[j as int]);
        }
        assert(skip_ws(cur) == cur);
    }
    j
}

/// Read a create request's body, as [`spec_parse_calories`] describes.
#[verifier::rlimit(100)]
pub fn parse_calories(s: &[u8]) -> (r: Option<i64>)
    ensures
        r == spec_parse_calories(s@),
{
    let n = s.len();
    proof {
        assert(s@.skip(0int) =~= s@);
    }
    // The object must open with a brace.
    let i1 = skip_ws_from(s, 0);
    if i1 == n || s[i1] != LEFT_BRACE {
        proof {
            if i1 < n {
                assert(skip_ws(s@).first() == s@[i1 as int]);
            }
        }
        return None;
    }
    proof {
        assert(skip_ws(s@).first() == s@[i1 as int]);
        assert(skip_ws(s@).drop_first() =~= s@.skip(i1 + 1));
    }
    // Then the key, `"calories"`.
    let i2 = skip_ws_from(s, i1 + 1);
    let ghost s2 = s@.skip(i2 as int);
    if n - i2 < 10 {
        return None;
    }
    if s[i2] != QUOTE || s[i2 + 1] != 99 || s[i2 + 2] != 97 || s[i2 + 3] != 108 || s[i2 + 4]
        != 111 || s[i2 + 5] != 114 || s[i2 + 6] != 105 || s[i2 + 7] != 101 || s[i2 + 8] != 115
        || s[i2 + 9] != QUOTE {
        proof {
            let key = calories_key();
            if s2.len() >= 10 && s2.take(10) == key {
                assert(s2.take(10)[0] == s@[i2 as int] && key[0] == QUOTE);
                assert(s2.take(10)[1] == s@[i2 + 1] && key[1] == 99);
                assert(s2.take(10)[2] == s@[i2 + 2] && key[2] == 97);
                assert(s2.take(10)[3] == s@[i2 + 3] && key[3] == 108);
                assert(s2.take(10)[4] == s@[i2 + 4] && key[4] == 111);
                assert(s2.take(10)[5] == s@[i2 + 5] && key[5] == 114);
                assert(s2.take(10)[6] == s@[i2 + 6] && key[6] == 105);
                assert(s2.take(10)[7] == s@[i2 + 7] && key[7] == 101);
                assert(s2.take(10)[8] == s@[i2 + 8] && key[8] == 115);
                assert(s2.take(10)[9] == s@[i2 + 9] && key[9] == QUOTE);
            }
        }
        return None;
    }
    proof {
        assert(s2.take(10) =~= calories_key());
        assert(s2.skip(10) =~= s@.skip(i2 + 10));
    }
    // Then the colon.
    let i3 = skip_ws_from(s, i2 + 10);
    if i3 == n || s[i3] != COLON {
        proof {
            if i3 < n {
                assert(s@.skip(i3 as int).first() == s@[i3 as int]);
            }
        }
        return None;
    }
    proof {
        assert(s@.skip(i3 as int).first() == s@[i3 as int]);
        assert(s@.skip(i3 as int).drop_first() =~= s@.skip(i3 + 1));
    }
    // Then the integer.
    let i4 = skip_ws_from(s, i3 + 1);
    let ghost s4 = s@.skip(i4 as int);
    let neg = i4 < n && s[i4] == MINUS_SIGN;
    proof {
        if i4 < n {
            assert(s4.first() == s@[i4 as int]);
        }
        assert((s4.len() > 0 && s4.first() == MINUS_SIGN) == neg);
    }
    let m0 = if neg {
        i4 + 1
    } else {
        i4
    };
    let ghost m = if neg {
        s4.drop_first()
    } else {
        s4
    };
    proof {
        assert(m =~= s@.skip(m0 as int));
    }
    // Scan the digit run.
    let mut e = m0;
    while e < n && ZERO_DIGIT <= s[e] && s[e] <= 57
        invariant
            m0 <= e <= n == s@.len(),
            forall|k: int| m0 <= k < e ==> is_digit(#[trigger] s@[k]),
        decreases n - e,
    {
        e += 1;
    }
    proof {
        assert forall|i: int| 0 <= i < e - m0 implies is_digit(#[trigger] m[i]) by {
            assert(m[i] == s@[m0 + i]);
        }
        if e < n {
            assert(m[e - m0] == s@[e as int]);
        }
        lemma_digits_prefix_len(m, (e - m0) as nat);
    }
    if e == m0 {
        return None;
    }
    let ghost digits = m.take(e - m0);
    proof {
        assert(digits =~= s@.subrange(m0 as int, e as int));
        assert forall|i: int| 0 <= i < digits.len() implies is_digit(#[trigger] digits[i]) by {
            assert(digits[i] == s@[m0 + i]);
        }
        assert(digits.first() == s@[m0 as int]);
    }
    // JSON allows no superfluous leading zero.
    if s[m0] == ZERO_DIGIT && e - m0 > 1 {
        return None;
    }
    // Twenty or more digits exceed the range of an `i64` either way.
    if e - m0 > 19 {
        proof {
            lemma_dec_value_first_nonzero(digits);
            assert(p10(19) == 10000000000000000000nat) by {
                reveal_with_fuel(p10, 20);
            }
            lemma_p10_increases(19, (digits.len() - 1) as nat);
        }
        return None;
    }
    // Accumulate the value; at most nineteen digits, so a `u64` cannot
    // overflow.
    let mut acc: u64 = 0;
    let mut j: usize = m0;
    while j < e
        invariant
            m0 <= j <= e <= n == s@.len(),
            e - m0 <= 19,
            digits == s@.subrange(m0 as int, e as int),
            forall|k: int| m0 <= k < e ==> is_digit(#[trigger] s@[k]),
            acc as nat == dec_value(s@.subrange(m0 as int, j as int)),
            p10((j - m0) as nat) > acc as nat,
        decreases e - j,
    {
        let b = s[j];
        proof {
            let pre = s@.subrange(m0 as int, j as int);
            let cur = s@.subrange(m0 as int, j + 1);
            assert(cur.drop_last() =~= pre);
            assert(cur.last() == s@[j as int]);
            assert(is_digit(s@[j as int]));
            assert(p10(((j + 1) - m0) as nat) == 10 * p10((j - m0) as nat));
            lemma_p10_increases((j - m0) as nat, 18);
            assert(p10(18) == 1000000000000000000nat && p10(19) == 10000000000000000000nat) by {
                reveal_with_fuel(p10, 20);
            }
        }
        acc = acc * 10 + (b - ZERO_DIGIT) as u64;
        j += 1;
    }
    proof {
        assert(s@.subrange(m0 as int, e as int) == digits);
        assert(acc as nat == dec_value(digits));
    }
    // The value must fit an `i64`.
    if neg {
        if acc > I64_MIN_MAGNITUDE {
            return None;
        }
    } else {
        if acc > 0x7fff_ffff_ffff_ffff {
            return None;
        }
    }
    // Then the closing brace, and nothing but whitespace after it.
    proof {
        assert(m.skip(e - m0) =~= s@.skip(e as int));
    }
    let i5 = skip_ws_from(s, e);
    if i5 == n || s[i5] != RIGHT_BRACE {
        proof {
            if i5 < n {
                assert(s@.skip(i5 as int).first() == s@[i5 as int]);
            }
        }
        return None;
    }
    proof {
        assert(s@.skip(i5 as int).first() == s@[i5 as int]);
        assert(s@.skip(i5 as int).drop_first() =~= s@.skip(i5 + 1));
    }
    let i6 = skip_ws_from(s, i5 + 1);
    if i6 != n {
        return None;
    }
    if neg {
        if acc == I64_MIN_MAGNITUDE {
            Some(i64::MIN)
        } else {
            Some(-(acc as i64))
        }
    } else {
        Some(acc as i64)
    }
}

} // verus!

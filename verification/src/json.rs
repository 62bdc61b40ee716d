//! Verified JSON for the list response: decimal rendering of the integers
//! and the array-of-objects text, each pinned to a spec-level picture of the
//! output character for character.

use vstd::prelude::*;
use vstd::string::StringExecFns;

use crate::entry::Entry;

verus! {

/// The decimal digit character for `d` (meaningful for `d < 10`).
pub open spec fn spec_digit_char(d: nat) -> char {
    if d == 0 {
        '0'
    } else if d == 1 {
        '1'
    } else if d == 2 {
        '2'
    } else if d == 3 {
        '3'
    } else if d == 4 {
        '4'
    } else if d == 5 {
        '5'
    } else if d == 6 {
        '6'
    } else if d == 7 {
        '7'
    } else if d == 8 {
        '8'
    } else {
        '9'
    }
}

/// The decimal rendering of a non-negative integer, without sign or padding.
pub open spec fn spec_u64_str(n: nat) -> Seq<char>
    decreases n,
{
    if n < 10 {
        seq![spec_digit_char(n)]
    } else {
        spec_u64_str(n / 10).push(spec_digit_char(n % 10))
    }
}

/// The decimal rendering of an integer: a minus sign before the magnitude
/// when negative.
pub open spec fn spec_i64_str(v: int) -> Seq<char> {
    if v < 0 {
        seq!['-'] + spec_u64_str((-v) as nat)
    } else {
        spec_u64_str(v as nat)
    }
}

/// The JSON object for one entry.
pub open spec fn spec_entry_json(e: Entry) -> Seq<char> {
    "{\"timestamp\":"@ + spec_i64_str(e.timestamp as int) + ",\"calories\":"@ + spec_i64_str(
        e.calories as int,
    ) + "}"@
}

/// The comma-separated objects of a row sequence, without the brackets.
pub open spec fn spec_entries_inner(s: Seq<Entry>) -> Seq<char>
    decreases s.len(),
{
    if s.len() == 0 {
        Seq::<char>::empty()
    } else if s.len() == 1 {
        spec_entry_json(s[0])
    } else {
        spec_entries_inner(s.drop_last()) + ","@ + spec_entry_json(s.last())
    }
}

/// The JSON array for a row sequence.
pub open spec fn spec_entries_json(s: Seq<Entry>) -> Seq<char> {
    "["@ + spec_entries_inner(s) + "]"@
}

/// The one-character string for digit `d`.
fn digit_str(d: u8) -> (s: &'static str)
    requires
        d < 10,
    ensures
        s@ == seq![spec_digit_char(d as nat)],
{
    proof {
        reveal_strlit("0");
        reveal_strlit("1");
        reveal_strlit("2");
        reveal_strlit("3");
        reveal_strlit("4");
        reveal_strlit("5");
        reveal_strlit("6");
        reveal_strlit("7");
        reveal_strlit("8");
        reveal_strlit("9");
    }
    let s = match d {
        0 => "0",
        1 => "1",
        2 => "2",
        3 => "3",
        4 => "4",
        5 => "5",
        6 => "6",
        7 => "7",
        8 => "8",
        _ => "9",
    };
    proof {
        assert(s@ =~= seq![spec_digit_char(d as nat)]);
    }
    s
}

/// Render a non-negative integer in decimal.
pub fn u64_to_string(n: u64) -> (s: String)
    ensures
        s@ == spec_u64_str(n as nat),
    decreases n,
{
    let d = digit_str((n % 10) as u8);
    if n < 10 {
        String::from_str(d)
    } else {
        let rest = u64_to_string(n / 10);
        rest.concat(d)
    }
}

/// Render an integer in decimal, with a minus sign when negative.
pub fn i64_to_string(v: i64) -> (s: String)
    ensures
        s@ == spec_i64_str(v as int),
{
    if v >= 0 {
        u64_to_string(v as u64)
    } else {
        let magnitude: u64 = if v == i64::MIN {
            9223372036854775808u64
        } else {
            (-v) as u64
        };
        let digits = u64_to_string(magnitude);
        let s = String::from_str("-").concat(digits.as_str());
        proof {
            reveal_strlit("-");
            assert(s@ =~= seq!['-'] + spec_u64_str((-(v as int)) as nat));
        }
        s
    }
}

/// Render one entry as a JSON object.
pub fn entry_to_json(e: &Entry) -> (s: String)
    ensures
        s@ == spec_entry_json(*e),
{
    let mut s = String::from_str("{\"timestamp\":");
    let ts = i64_to_string(e.timestamp);
    s.append(ts.as_str());
    s.append(",\"calories\":");
    let cal = i64_to_string(e.calories);
    s.append(cal.as_str());
    s.append("}");
    proof {
        reveal_strlit(",\"calories\":");
        assert(s@ =~= spec_entry_json(*e));
    }
    s
}

/// Render a row sequence as a JSON array, in the rows' order.
pub fn entries_to_json(rows: &Vec<Entry>) -> (s: String)
    ensures
        s@ == spec_entries_json(rows@),
{
    let n = rows.len();
    let mut s = String::from_str("[");
    let mut i: usize = 0;
    while i < n
        invariant
            n == rows@.len(),
            i <= n,
            s@ == "["@ + spec_entries_inner(rows@.take(i as int)),
        decreases n - i,
    {
        if i > 0 {
            s.append(",");
        }
        let obj = entry_to_json(&rows[i]);
        s.append(obj.as_str());
        proof {
            reveal_strlit(",");
            let taken = rows@.take(i + 1);
            assert(taken.drop_last() =~= rows@.take(i as int));
            assert(taken.last() == rows@[i as int]);
            if i == 0 {
                assert(rows@.take(0int) =~= Seq::<Entry>::empty());
                assert(s@ =~= "["@ + spec_entries_inner(taken));
            } else {
                assert(s@ =~= "["@ + spec_entries_inner(taken));
            }
        }
        i += 1;
    }
    proof {
        assert(rows@.take(n as int) =~= rows@);
    }
    let out = s.concat("]");
    proof {
        assert(out@ =~= spec_entries_json(rows@));
    }
    out
}

} // verus!

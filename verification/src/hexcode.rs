//! Hexadecimal decoding for the group constants.
//!
//! The constants are written down as hexadecimal strings; this module turns
//! such a string into bytes.  The meaning of a digit and of a whole string is
//! fixed by the spec functions, and the decoder is verified against them.

use vstd::prelude::*;
use vstd::string::StrSliceExecFns;

verus! {

/// A character that stands for a hexadecimal digit.
pub open spec fn is_hex_digit(c: char) -> bool {
    ||| 48 <= c as int && c as int <= 57  // '0' ..= '9'

    ||| 97 <= c as int && c as int <= 102  // 'a' ..= 'f'

    ||| 65 <= c as int && c as int <= 70  // 'A' ..= 'F'

}

/// The value of a hexadecimal digit.
pub open spec fn hex_digit_value(c: char) -> nat
    recommends
        is_hex_digit(c),
{
    if 48 <= c as int && c as int <= 57 {
        (c as int - 48) as nat
    } else if 97 <= c as int && c as int <= 102 {
        (c as int - 87) as nat
    } else if 65 <= c as int && c as int <= 70 {
        (c as int - 55) as nat
    } else {
        0
    }
}

/// A well-formed hexadecimal string: digits only, two per byte.
pub open spec fn hex_ok(s: Seq<char>) -> bool {
    &&& s.len() % 2 == 0
    &&& forall|i: int| 0 <= i < s.len() ==> is_hex_digit(#[trigger] s[i])
}

/// The bytes a well-formed hexadecimal string writes down.
pub open spec fn hex_bytes(s: Seq<char>) -> Seq<u8>
    recommends
        hex_ok(s),
    decreases s.len(),
{
    if s.len() < 2 {
        Seq::empty()
    } else {
        let hi = hex_digit_value(s[s.len() - 2]);
        let lo = hex_digit_value(s[s.len() - 1]);
        hex_bytes(s.drop_last().drop_last()).push((hi * 16 + lo) as u8)
    }
}

/// The value of one character as a hexadecimal digit, or `None`.
fn hex_val(c: char) -> (r: Option<u8>)
    ensures
        r is Some <==> is_hex_digit(c),
        r is Some ==> r->0 == hex_digit_value(c),
{
    let v = c as u32;
    if 48 <= v && v <= 57 {
        Some((v - 48) as u8)
    } else if 97 <= v && v <= 102 {
        Some((v - 87) as u8)
    } else if 65 <= v && v <= 70 {
        Some((v - 55) as u8)
    } else {
        None
    }
}

/// Decodes a hexadecimal string into bytes; `None` when the string has odd
/// length or holds a character that is no hexadecimal digit.
pub fn decode_hex(s: &str) -> (r: Option<Vec<u8>>)
    ensures
        r is Some <==> hex_ok(s@),
        r is Some ==> r->0@ == hex_bytes(s@),
{
    let n = s.unicode_len();
    if n % 2 != 0 {
        return None;
    }
    let mut out: Vec<u8> = Vec::new();
    let mut i: usize = 0;
    while i < n
        invariant
            n == s@.len(),
            n % 2 == 0,
            i % 2 == 0,
            i <= n,
            out@ == hex_bytes(s@.take(i as int)),
            forall|j: int| 0 <= j < i ==> is_hex_digit(#[trigger] s@[j]),
        decreases n - i,
    {
        let c_hi = s.get_char(i);
        let c_lo = s.get_char(i + 1);
        let hi = match hex_val(c_hi) {
            Some(v) => v,
            None => {
                return None;
            },
        };
        let lo = match hex_val(c_lo) {
            Some(v) => v,
            None => {
                return None;
            },
        };
        out.push(hi * 16 + lo);
        proof {
            let t = s@.take(i + 2);
            assert(t.drop_last().drop_last() =~= s@.take(i as int));
            assert(t[t.len() - 2] == s@[i as int]);
            assert(t[t.len() - 1] == s@[i + 1]);
            assert(out@ == hex_bytes(s@.take(i + 2)));
        }
        i = i + 2;
    }
    proof {
        assert(s@.take(n as int) =~= s@);
    }
    Some(out)
}

} // verus!

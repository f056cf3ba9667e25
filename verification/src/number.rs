//! Numbers written in text: a byte in two hexadecimal digits, a signed
//! decimal number.

use vstd::prelude::*;
use crate::scan::{digit, is_digit};

verus! {

/// The value of a hexadecimal digit.
pub open spec fn hex_value(c: char) -> Option<int> {
    if '0' <= c && c <= '9' {
        Some(c as int - '0' as int)
    } else if 'a' <= c && c <= 'f' {
        Some(c as int - 'a' as int + 10)
    } else if 'A' <= c && c <= 'F' {
        Some(c as int - 'A' as int + 10)
    } else {
        None
    }
}

/// The byte that two hexadecimal digits denote.
pub open spec fn hex_byte(h1: char, h2: char) -> Option<int> {
    if hex_value(h1) is Some && hex_value(h2) is Some {
        Some(16 * hex_value(h1)->0 + hex_value(h2)->0)
    } else {
        None
    }
}

/// The value of a decimal digit; zero for any other character.
pub open spec fn digit_value(c: char) -> int {
    if is_digit(c) {
        c as int - '0' as int
    } else {
        0
    }
}

/// The number that a sequence of decimal digits denotes.
pub open spec fn decimal_value(digits: Seq<char>) -> int
    decreases digits.len(),
{
    if digits.len() == 0 {
        0
    } else {
        decimal_value(digits.drop_last()) * 10 + digit_value(digits.last())
    }
}

/// Whether every character is a decimal digit.
pub open spec fn all_digits(s: Seq<char>) -> bool {
    forall|i: int| 0 <= i < s.len() ==> is_digit(#[trigger] s[i])
}

/// The 32-bit signed number that a text denotes: an optional sign and at
/// least one decimal digit, with a value in range.
pub open spec fn parse_i32(s: Seq<char>) -> Option<int> {
    let signed = s.len() > 0 && (s[0] == '-' || s[0] == '+');
    let digits = if signed {
        s.drop_first()
    } else {
        s
    };
    let value = if s.len() > 0 && s[0] == '-' {
        -decimal_value(digits)
    } else {
        decimal_value(digits)
    };
    if digits.len() > 0 && all_digits(digits) && -0x8000_0000 <= value <= 0x7fff_ffff {
        Some(value)
    } else {
        None
    }
}

/// A number is at least what any of its leading digits denote.
pub proof fn lemma_decimal_prefix(digits: Seq<char>, n: int)
    requires
        0 <= n <= digits.len(),
    ensures
        0 <= decimal_value(digits.take(n)) <= decimal_value(digits),
    decreases digits.len() - n,
{
    if n == digits.len() {
        assert(digits.take(n) == digits);
        lemma_decimal_nonnegative(digits);
    } else {
        lemma_decimal_prefix(digits, n + 1);
        assert(digits.take(n + 1).drop_last() == digits.take(n));
        lemma_decimal_nonnegative(digits.take(n));
    }
}

/// A sequence of digits denotes no negative number.
pub proof fn lemma_decimal_nonnegative(digits: Seq<char>)
    ensures
        0 <= decimal_value(digits),
    decreases digits.len(),
{
    if digits.len() > 0 {
        lemma_decimal_nonnegative(digits.drop_last());
    }
}

fn hex_digit(c: char) -> (r: Option<u8>)
    ensures
        match r {
            Some(v) => hex_value(c) == Some(v as int) && v < 16,
            None => hex_value(c) is None,
        },
{
    if '0' <= c && c <= '9' {
        Some((c as u32 - '0' as u32) as u8)
    } else if 'a' <= c && c <= 'f' {
        Some((c as u32 - 'a' as u32 + 10) as u8)
    } else if 'A' <= c && c <= 'F' {
        Some((c as u32 - 'A' as u32 + 10) as u8)
    } else {
        None
    }
}

/// Reads two characters as a byte in base 16.
pub fn parse_hex_byte(h1: char, h2: char) -> (r: Option<u8>)
    ensures
        match r {
            Some(v) => hex_byte(h1, h2) == Some(v as int),
            None => hex_byte(h1, h2) is None,
        },
{
    match hex_digit(h2) {
        Some(low) => match hex_digit(h1) {
            Some(high) => Some(high * 16 + low),
            None => None,
        },
        None => None,
    }
}

/// Reads a text as a 32-bit signed decimal number.
pub fn parse_int(v: &Vec<char>) -> (r: Option<i32>)
    ensures
        match r {
            Some(n) => parse_i32(v@) == Some(n as int),
            None => parse_i32(v@) is None,
        },
{
    let negative = v.len() > 0 && v[0] == '-';
    let start: usize = if v.len() > 0 && (v[0] == '-' || v[0] == '+') {
        1
    } else {
        0
    };
    let ghost digits = if start == 1 {
        v@.drop_first()
    } else {
        v@
    };
    if start >= v.len() {
        return None;
    }
    let mut acc: i64 = 0;
    let mut i: usize = start;
    assert(digits.take(0) =~= Seq::<char>::empty());
    while i < v.len()
        invariant
            start <= i <= v.len(),
            start <= 1,
            (start == 1) == (v@.len() > 0 && (v@[0] == '-' || v@[0] == '+')),
            digits == (if start == 1 {
                v@.drop_first()
            } else {
                v@
            }),
            digits.len() == v.len() - start,
            forall|k: int| 0 <= k < digits.len() ==> digits[k] == v@[k + start],
            acc == decimal_value(digits.take(i - start)),
            0 <= acc <= 0x8000_0000,
            forall|k: int| 0 <= k < i - start ==> is_digit(#[trigger] digits[k]),
        decreases v.len() - i,
    {
        let c = v[i];
        assert(digits[i - start] == c);
        if !digit(c) {
            assert(!all_digits(digits));
            return None;
        }
        let d: i64 = (c as u32 - '0' as u32) as i64;
        proof {
            assert(digits.take(i - start + 1).drop_last() == digits.take(i - start));
            assert(digits.take(i - start + 1).last() == c);
        }
        acc = acc * 10 + d;
        if acc > 0x8000_0000 {
            proof {
                lemma_decimal_prefix(digits, i - start + 1);
                assert(decimal_value(digits) > 0x8000_0000);
            }
            return None;
        }
        i += 1;
    }
    assert(digits.take(digits.len() as int) == digits);
    if negative {
        Some((-acc) as i32)
    } else if acc <= 0x7fff_ffff {
        Some(acc as i32)
    } else {
        None
    }
}

} // verus!

//! The speed as it is written on the command line: a decimal number that
//! fits in a byte.

use vstd::prelude::*;
use vstd::utf8::{is_ascii_chars, is_ascii_chars_encode_utf8};

verus! {

/// One of the ten decimal digits.
pub open spec fn is_digit(c: char) -> bool {
    '0' <= c <= '9'
}

/// What a decimal digit counts for.
pub open spec fn digit_value(c: char) -> nat
    recommends
        is_digit(c),
{
    (c as nat - '0' as nat) as nat
}

/// Whether a text holds decimal digits and nothing else.
pub open spec fn all_digits(text: Seq<char>) -> bool {
    forall|i: int| 0 <= i < text.len() ==> is_digit(#[trigger] text[i])
}

/// The number that a row of decimal digits writes, the first digit counting
/// most; the empty row writes 0.
pub open spec fn decimal_value(digits: Seq<char>) -> nat
    decreases digits.len(),
{
    if digits.len() == 0 {
        0
    } else {
        10 * decimal_value(digits.drop_last()) + digit_value(digits.last())
    }
}

/// A text without the plus sign that may stand at its head.
pub open spec fn unsigned_part(text: Seq<char>) -> Seq<char> {
    if text.len() > 0 && text[0] == '+' {
        text.drop_first()
    } else {
        text
    }
}

/// The speed that a text writes.  A speed is one or more decimal digits, with
/// or without a plus sign before them, that write a number up to 255; leading
/// zeros are allowed, blanks and any other character are not.
pub open spec fn speed_of(text: Seq<char>) -> Option<u8> {
    let digits = unsigned_part(text);
    if digits.len() > 0 && all_digits(digits) && decimal_value(digits) <= u8::MAX {
        Some(decimal_value(digits) as u8)
    } else {
        None
    }
}

/// A row of digits writes at least as much as any of its beginnings.
pub proof fn decimal_value_grows(digits: Seq<char>, k: int)
    requires
        0 <= k <= digits.len(),
    ensures
        decimal_value(digits.subrange(0, k)) <= decimal_value(digits),
    decreases digits.len(),
{
    if k == digits.len() {
        assert(digits.subrange(0, k) =~= digits);
    } else {
        decimal_value_grows(digits.drop_last(), k);
        assert(digits.drop_last().subrange(0, k) =~= digits.subrange(0, k));
    }
}

/// Reads a speed.  `None` where the text writes none.
pub fn parse_speed(text: &str) -> (speed: Option<u8>)
    ensures
        speed == speed_of(text@),
{
    let ghost chars = text@;
    let ghost digits = unsigned_part(chars);
    if !text.is_ascii() {
        proof {
            let i = choose|i: int|
                0 <= i < chars.len() && !('\0' <= #[trigger] chars[i] <= '\u{7f}');
            if chars[0] == '+' {
                assert(digits[i - 1] == chars[i]);
            }
        }
        return None;
    }
    let bytes = text.as_bytes();
    proof {
        is_ascii_chars_encode_utf8(chars);
    }
    let n: usize = bytes.len();
    if n == 0 {
        return None;
    }
    let start: usize = if bytes[0] == 43u8 {
        1
    } else {
        0
    };
    assert(digits =~= chars.subrange(start as int, n as int));
    if start == n {
        return None;
    }
    let mut value: u8 = 0;
    let mut i: usize = start;
    while i < n
        invariant
            start <= i <= n,
            chars == text@,
            digits == unsigned_part(chars),
            n == chars.len(),
            bytes@.len() == n,
            is_ascii_chars(chars),
            forall|j: int| 0 <= j < n ==> chars[j] as u8 == #[trigger] bytes@[j],
            digits == chars.subrange(start as int, n as int),
            all_digits(digits.subrange(0, i - start)),
            value == decimal_value(digits.subrange(0, i - start)),
        decreases n - i,
    {
        let byte: u8 = bytes[i];
        let ghost c = chars[i as int];
        assert(c == digits[i - start]);
        assert(c as u8 == byte);
        if byte < 48u8 || byte > 57u8 {
            assert(!is_digit(c));
            return None;
        }
        assert(is_digit(c));
        let digit: u8 = byte - 48u8;
        assert(digit == digit_value(c));
        let ghost longer = digits.subrange(0, i - start + 1);
        assert(longer.drop_last() =~= digits.subrange(0, i - start));
        assert(longer.last() == c);
        assert(decimal_value(longer) == 10 * value + digit);
        if value > 25u8 || (value == 25u8 && digit > 5u8) {
            proof {
                decimal_value_grows(digits, i - start + 1);
            }
            return None;
        }
        value = value * 10u8 + digit;
        i += 1;
    }
    assert(digits.subrange(0, n - start) =~= digits);
    Some(value)
}

} // verus!

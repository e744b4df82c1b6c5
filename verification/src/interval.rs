//! The polling interval and the text it is configured with.

use vstd::prelude::*;
use vstd::string::is_ascii_spec_bytes;

verus! {

/// The seconds between two cycles when nothing usable is configured.
pub const DEFAULT_INTERVAL_SECS: u64 = 30;

/// The byte of the plus sign.
const PLUS: u8 = 43;

/// The byte of the digit zero.
const ZERO: u8 = 48;

/// The byte of the digit nine.
const NINE: u8 = 57;

/// Holds for the ten decimal digits.
pub open spec fn is_digit(c: char) -> bool {
    '0' <= c <= '9'
}

/// The number that a decimal digit stands for.
pub open spec fn digit_value(c: char) -> nat {
    (c as u32 - '0' as u32) as nat
}

/// Holds when every character is a decimal digit.
pub open spec fn all_digits(digits: Seq<char>) -> bool {
    forall|i: int| 0 <= i < digits.len() ==> is_digit(#[trigger] digits[i])
}

/// The number that a sequence of decimal digits writes; zero for none.
pub open spec fn decimal_value(digits: Seq<char>) -> nat
    decreases digits.len(),
{
    if digits.len() == 0 {
        0
    } else {
        decimal_value(digits.drop_last()) * 10 + digit_value(digits.last())
    }
}

/// The text without a plus sign at its start.
pub open spec fn unsigned_part(text: Seq<char>) -> Seq<char> {
    if text.len() > 0 && text[0] == '+' {
        text.drop_first()
    } else {
        text
    }
}

/// The seconds that `text` writes: it is a plus sign or nothing, then one
/// decimal digit or more and nothing else, and the number fits into 64 bits.
/// Any other text writes none.
pub open spec fn parsed_seconds(text: Seq<char>) -> Option<u64> {
    let digits = unsigned_part(text);
    if digits.len() > 0 && all_digits(digits) && decimal_value(digits) <= u64::MAX {
        Some(decimal_value(digits) as u64)
    } else {
        None
    }
}

/// The polling interval for a setting that may be absent: the seconds that
/// the setting writes, and the default where it is absent or writes none.
pub open spec fn interval_of(setting: Option<Seq<char>>) -> u64 {
    match setting {
        Some(text) => match parsed_seconds(text) {
            Some(seconds) => seconds,
            None => DEFAULT_INTERVAL_SECS,
        },
        None => DEFAULT_INTERVAL_SECS,
    }
}

/// A longer run of digits writes no smaller number than its beginning.
pub proof fn decimal_value_grows(digits: Seq<char>, k: int)
    requires
        0 <= k <= digits.len(),
    ensures
        decimal_value(digits.take(k)) <= decimal_value(digits),
    decreases digits.len() - k,
{
    if k == digits.len() {
        assert(digits.take(k) =~= digits);
    } else {
        decimal_value_grows(digits, k + 1);
        assert(digits.take(k + 1).drop_last() =~= digits.take(k));
    }
}

/// Reads seconds from text: an optional plus sign, then decimal digits.
/// Empty text, any other character and a number beyond 64 bits give `None`.
pub fn parse_seconds(text: &str) -> (seconds: Option<u64>)
    ensures
        seconds == parsed_seconds(text@),
{
    let ghost digits = unsigned_part(text@);
    if !text.is_ascii() {
        proof {
            let k = choose|k: int|
                0 <= k < text@.len() && !('\0' <= (#[trigger] text@[k]) <= '\u{7f}');
            if text@[0] == '+' {
                assert(digits[k - 1] == text@[k]);
            } else {
                assert(digits[k] == text@[k]);
            }
        }
        return None;
    }
    let bytes = text.as_bytes();
    proof {
        is_ascii_spec_bytes(text);
    }
    let n = bytes.len();
    let start: usize = if n > 0 && bytes[0] == PLUS {
        1
    } else {
        0
    };
    assert(text@.len() > 0 ==> (text@[0] == '+' <==> bytes@[0] == PLUS));
    if start == n {
        return None;
    }
    assert(digits =~= text@.skip(start as int));
    let mut value: u64 = 0;
    let mut i: usize = start;
    while i < n
        invariant
            start <= i <= n,
            n == text@.len(),
            n == bytes@.len(),
            digits == unsigned_part(text@),
            digits == text@.skip(start as int),
            forall|j: int| 0 <= j < n ==> bytes@[j] == (#[trigger] text@[j]) as u8,
            text.is_ascii(),
            all_digits(digits.take(i - start)),
            value == decimal_value(digits.take(i - start)),
        decreases n - i,
    {
        let b = bytes[i];
        let ghost seen = digits.take(i - start);
        let ghost c = text@[i as int];
        proof {
            assert(digits[i - start] == c);
            assert(digits.take(i - start + 1).drop_last() =~= seen);
            assert(digits.take(i - start + 1).last() == c);
            decimal_value_grows(digits, i - start + 1);
        }
        if b < ZERO || b > NINE {
            return None;
        }
        assert(is_digit(c) && digit_value(c) == b - ZERO);
        match value.checked_mul(10) {
            Some(tens) => match tens.checked_add((b - ZERO) as u64) {
                Some(more) => {
                    value = more;
                },
                None => {
                    return None;
                },
            },
            None => {
                return None;
            },
        }
        i += 1;
    }
    assert(digits.take(n - start) =~= digits);
    Some(value)
}

/// The polling interval in seconds for a setting that may be absent: what the
/// setting writes, and [`DEFAULT_INTERVAL_SECS`] where it is absent or
/// unreadable.
pub fn interval_secs(setting: Option<&str>) -> (seconds: u64)
    ensures
        seconds == interval_of(
            match setting {
                Some(text) => Some(text@),
                None => None,
            },
        ),
{
    match setting {
        Some(text) => match parse_seconds(text) {
            Some(seconds) => seconds,
            None => DEFAULT_INTERVAL_SECS,
        },
        None => DEFAULT_INTERVAL_SECS,
    }
}

} // verus!

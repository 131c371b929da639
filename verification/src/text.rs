//! Numbers as text.

use vstd::prelude::*;
use vstd::string::*;

verus! {

/// The text of a digit.
pub open spec fn digit_text(digit: int) -> Seq<char> {
    if digit == 0 {
        "0"@
    } else if digit == 1 {
        "1"@
    } else if digit == 2 {
        "2"@
    } else if digit == 3 {
        "3"@
    } else if digit == 4 {
        "4"@
    } else if digit == 5 {
        "5"@
    } else if digit == 6 {
        "6"@
    } else if digit == 7 {
        "7"@
    } else if digit == 8 {
        "8"@
    } else {
        "9"@
    }
}

/// The decimal text of a number that is not negative.
pub open spec fn magnitude_text(n: int) -> Seq<char>
    decreases n,
{
    if n < 10 {
        digit_text(n)
    } else {
        magnitude_text(n / 10) + digit_text(n % 10)
    }
}

/// The decimal text of a number, with a minus sign before a negative one.
pub open spec fn decimal_text(n: i32) -> Seq<char> {
    if n < 0 {
        "-"@ + magnitude_text(-(n as int))
    } else {
        magnitude_text(n as int)
    }
}

/// Writes a digit.
fn digit(d: i64) -> (text: &'static str)
    requires
        0 <= d <= 9,
    ensures
        text@ == digit_text(d as int),
{
    if d == 0 {
        "0"
    } else if d == 1 {
        "1"
    } else if d == 2 {
        "2"
    } else if d == 3 {
        "3"
    } else if d == 4 {
        "4"
    } else if d == 5 {
        "5"
    } else if d == 6 {
        "6"
    } else if d == 7 {
        "7"
    } else if d == 8 {
        "8"
    } else {
        "9"
    }
}

/// Writes a number in decimal.
pub fn decimal(n: i32) -> (text: String)
    ensures
        text@ == decimal_text(n),
{
    let negative = n < 0;
    let magnitude: i64 = if negative {
        -(n as i64)
    } else {
        n as i64
    };
    let mut rest: i64 = magnitude / 10;
    let mut digits = String::from_str(digit(magnitude % 10));
    while rest > 0
        invariant
            0 <= rest <= magnitude,
            magnitude_text(magnitude as int) == if rest > 0 {
                magnitude_text(rest as int) + digits@
            } else {
                digits@
            },
        decreases rest,
    {
        let ghost before = digits@;
        digits = String::from_str(digit(rest % 10)).concat(digits.as_str());
        proof {
            if rest >= 10 {
                assert(magnitude_text(rest as int) + before =~= magnitude_text(rest as int / 10)
                    + (digit_text(rest as int % 10) + before));
            }
        }
        rest = rest / 10;
    }
    if negative {
        String::from_str("-").concat(digits.as_str())
    } else {
        digits
    }
}

} // verus!

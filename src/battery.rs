//! Reading battery telemetry values.
use vstd::prelude::*;
use crate::error::Error;
use crate::text::{text_eq, trim_of, trim_text};

verus! {

pub open spec fn is_digit(c: char) -> bool {
    '0' <= c && c <= '9'
}

/// The value of a run of decimal digits.
pub open spec fn digits_value(s: Seq<char>) -> int
    decreases s.len(),
{
    if s.len() == 0 {
        0
    } else {
        digits_value(s.drop_last()) * 10 + (s.last() as int - '0' as int)
    }
}

pub open spec fn all_digits(s: Seq<char>) -> bool {
    s.len() > 0 && forall|i: int| 0 <= i < s.len() ==> is_digit(#[trigger] s[i])
}

/// The integer a decimal text spells (an optional `+` or `-` sign, then at
/// least one digit), or `None` when it is not of that form.
pub open spec fn decimal_of(s: Seq<char>) -> Option<int> {
    if s.len() > 0 && (s[0] == '+' || s[0] == '-') {
        let d = s.subrange(1, s.len() as int);
        if all_digits(d) {
            Some(if s[0] == '-' { -digits_value(d) } else { digits_value(d) })
        } else {
            None
        }
    } else if all_digits(s) {
        Some(digits_value(s))
    } else {
        None
    }
}

/// Relies on `<i64 as FromStr>::from_str`: an optional sign followed by
/// decimal digits, accepted when the value fits in `i64`.
#[verifier::external_body]
fn parse_i64(s: &str) -> (r: Option<i64>)
    ensures
        match decimal_of(s@) {
            Some(v) => if i64::MIN <= v <= i64::MAX {
                r == Some(v as i64)
            } else {
                r is None
            },
            None => r is None,
        },
{
    s.parse::<i64>().ok()
}

/// The integer in a telemetry file's content, read after trimming
/// surrounding whitespace.
pub fn read_battery_value(content: &str) -> (r: Result<i64, Error>)
    ensures
        match decimal_of(trim_of(content@)) {
            Some(v) => if i64::MIN <= v <= i64::MAX {
                r == Ok::<i64, Error>(v as i64)
            } else {
                r matches Err(Error::Other(_))
            },
            None => r matches Err(Error::Other(_)),
        },
{
    match parse_i64(trim_text(content)) {
        Some(v) => Ok(v),
        None => Err(Error::from_str("battery value is not an integer")),
    }
}

/// Whether a battery status text reports charging.
pub fn is_charging(status: &str) -> (r: bool)
    ensures
        r == (trim_of(status@) == "Charging"@),
{
    text_eq(trim_text(status), "Charging")
}

} // verus!

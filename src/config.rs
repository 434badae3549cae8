//! The iteration count, from the text of an optional setting.
use vstd::prelude::*;

verus! {

/// An ASCII decimal digit.
pub open spec fn is_decimal_digit(c: char) -> bool {
    '0' <= c && c <= '9'
}

/// Value of a string of decimal digits.
pub open spec fn digits_value(s: Seq<char>) -> nat
    decreases s.len(),
{
    if s.len() == 0 {
        0
    } else {
        10 * digits_value(s.drop_last()) + ((s.last() as u32) - ('0' as u32)) as nat
    }
}

/// The digits of `s`, once an optional leading `+` is taken off.
pub open spec fn unsigned_digits(s: Seq<char>) -> Seq<char> {
    if s.len() > 0 && s[0] == '+' {
        s.drop_first()
    } else {
        s
    }
}

/// `s` read as an unsigned decimal integer of 64 bits: an optional `+` and
/// then one or more digits, whose value fits.
pub open spec fn parsed_u64(s: Seq<char>) -> Option<u64> {
    let d = unsigned_digits(s);
    if d.len() > 0 && (forall|i: int| 0 <= i < d.len() ==> is_decimal_digit(#[trigger] d[i]))
        && digits_value(d) <= u64::MAX {
        Some(digits_value(d) as u64)
    } else {
        None
    }
}

/// Relies on `str::parse::<u64>` (`u64::from_str`): it accepts an optional
/// `+` followed by one or more ASCII digits whose value fits in 64 bits, and
/// refuses any other text.
#[verifier::external_body]
fn parse_u64(s: &str) -> (r: Option<u64>)
    ensures
        r == parsed_u64(s@),
{
    s.parse::<u64>().ok()
}

/// A positive size from the text of an optional setting; `default_value`
/// when the setting is absent, is not an unsigned integer, or is zero.
pub fn read_env_size(raw: Option<&str>, default_value: usize) -> (r: usize)
    ensures
        r == match raw {
            Some(s) => match parsed_u64(s@) {
                Some(v) => if v > 0 {
                    v as usize
                } else {
                    default_value
                },
                None => default_value,
            },
            None => default_value,
        },
{
    if let Some(s) = raw {
        if let Some(v) = parse_u64(s) {
            if v > 0 {
                return v as usize;
            }
        }
    }
    default_value
}

} // verus!

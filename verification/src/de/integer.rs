//! The integers that texts write.

use vstd::prelude::*;

use crate::chars::to_chars;
use crate::de::DeserializationError;
use crate::de::DeserializationErrorView;
use crate::de::SgmlDeserializer;
use crate::entities::decimal_digit;
use crate::entities::digit_value;
use crate::event::push_text;

verus! {

/// Why a text writes no integer of the type that is asked for.
#[derive(Clone, Copy, Debug, PartialEq, Eq)]
pub enum IntegerError {
    /// The text is empty.
    Empty,
    /// The text holds a character that is no digit, or a sign by itself
    /// or where none may stand.
    InvalidDigit,
    /// The number is too large for the type.
    PosOverflow,
    /// The number is too small for the type.
    NegOverflow,
}

impl IntegerError {
    /// The words that tell the reason.
    pub open spec fn spec_reason(self) -> Seq<char> {
        match self {
            IntegerError::Empty => "cannot parse integer from empty string"@,
            IntegerError::InvalidDigit => "invalid digit found in string"@,
            IntegerError::PosOverflow => "number too large to fit in target type"@,
            IntegerError::NegOverflow => "number too small to fit in target type"@,
        }
    }

    /// The words that tell the reason.
    pub fn reason(self) -> (s: &'static str)
        ensures
            s@ == self.spec_reason(),
    {
        match self {
            IntegerError::Empty => "cannot parse integer from empty string",
            IntegerError::InvalidDigit => "invalid digit found in string",
            IntegerError::PosOverflow => "number too large to fit in target type",
            IntegerError::NegOverflow => "number too small to fit in target type",
        }
    }

    /// The error of the deserializer for this reason.
    pub fn into_error(self) -> (e: DeserializationError)
        ensures
            e@ == DeserializationErrorView::ParseIntError(self.spec_reason()),
    {
        let mut reason = String::new();
        push_text(&mut reason, self.reason());
        DeserializationError::ParseIntError(reason)
    }
}

/// The number that is written by the digits of `s` from `pos` on, where
/// the digits before them wrote `so_far`, taken as negative if `negative`.
/// The number must lie between `min` and `max`.
pub open spec fn digits_to_integer(
    s: Seq<char>,
    pos: int,
    so_far: int,
    negative: bool,
    min: int,
    max: int,
) -> Result<int, IntegerError>
    decreases s.len() - pos,
{
    if pos < 0 || pos >= s.len() {
        Ok(so_far)
    } else {
        match decimal_digit(s[pos]) {
            None => Err(IntegerError::InvalidDigit),
            Some(d) => {
                let next = if negative {
                    so_far * 10 - d
                } else {
                    so_far * 10 + d
                };
                if next > max {
                    Err(IntegerError::PosOverflow)
                } else if next < min {
                    Err(IntegerError::NegOverflow)
                } else {
                    digits_to_integer(s, pos + 1, next, negative, min, max)
                }
            },
        }
    }
}

/// The integer between `min` and `max` that the text writes: decimal
/// digits, after an optional `+` or, where `min` is negative, `-`.
pub open spec fn spec_parse_integer(s: Seq<char>, min: int, max: int) -> Result<
    int,
    IntegerError,
> {
    if s.len() == 0 {
        Err(IntegerError::Empty)
    } else if s.len() == 1 && (s[0] == '+' || s[0] == '-') {
        Err(IntegerError::InvalidDigit)
    } else if s[0] == '+' {
        digits_to_integer(s, 1, 0, false, min, max)
    } else if s[0] == '-' && min < 0 {
        digits_to_integer(s, 1, 0, true, min, max)
    } else {
        digits_to_integer(s, 0, 0, false, min, max)
    }
}

/// What parsing an integer returned, in the terms of specifications.
pub open spec fn integer_view(r: Result<i128, IntegerError>) -> Result<int, IntegerError> {
    match r {
        Ok(n) => Ok(n as int),
        Err(e) => Err(e),
    }
}

/// Parses the integer between `min` and `max` that the text writes.
pub fn parse_integer(text: &str, min: i128, max: i128) -> (r: Result<i128, IntegerError>)
    requires
        i64::MIN <= min <= 0 <= max <= u64::MAX,
    ensures
        integer_view(r) == spec_parse_integer(text@, min as int, max as int),
{
    let s = to_chars(text);
    if s.len() == 0 {
        return Err(IntegerError::Empty);
    }
    if s.len() == 1 && (s[0] == '+' || s[0] == '-') {
        return Err(IntegerError::InvalidDigit);
    }
    let negative = s[0] == '-' && min < 0;
    let start: usize = if s[0] == '+' || negative {
        1
    } else {
        0
    };
    let mut value: i128 = 0;
    let mut pos: usize = start;
    while pos < s.len()
        invariant
            start <= pos <= s@.len(),
            i64::MIN <= min <= 0 <= max <= u64::MAX,
            min <= value <= max,
            spec_parse_integer(text@, min as int, max as int) == digits_to_integer(
                s@,
                pos as int,
                value as int,
                negative,
                min as int,
                max as int,
            ),
        decreases s@.len() - pos,
    {
        match digit_value(s[pos], false) {
            None => {
                return Err(IntegerError::InvalidDigit);
            },
            Some(d) => {
                let next: i128 = if negative {
                    value * 10 - d as i128
                } else {
                    value * 10 + d as i128
                };
                if next > max {
                    return Err(IntegerError::PosOverflow);
                }
                if next < min {
                    return Err(IntegerError::NegOverflow);
                }
                value = next;
            },
        }
        pos += 1;
    }
    Ok(value)
}

impl SgmlDeserializer {
    /// Reads the integer between `min` and `max` that the text at the
    /// cursor writes. The text is consumed.
    pub fn read_integer(&mut self, min: i128, max: i128) -> (r: Result<i128, DeserializationError>)
        requires
            i64::MIN <= min <= 0 <= max <= u64::MAX,
        ensures
            final(self)@ == old(self)@.consume_text().0,
            match old(self)@.consume_text().1 {
                Err(e) => r matches Err(error) && error@ == e,
                Ok(text) => match spec_parse_integer(text, min as int, max as int) {
                    Ok(n) => r matches Ok(value) && value == n,
                    Err(reason) => r matches Err(error) && error@
                        == DeserializationErrorView::ParseIntError(reason.spec_reason()),
                },
            },
    {
        match self.consume_text() {
            Err(e) => Err(e),
            Ok(text) => match parse_integer(text.as_str(), min, max) {
                Ok(n) => Ok(n),
                Err(reason) => Err(reason.into_error()),
            },
        }
    }
}

} // verus!

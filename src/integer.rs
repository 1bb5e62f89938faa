//! Whole-number scalars of 128 bits, signed and unsigned.
use vstd::prelude::*;

use crate::numeral::{has_minus, read_whole, sign_len, unsigned_part, whole_of, ConversionError};
use crate::render::{digits_of, push_char, push_whole_text};
use crate::value::{is_string_of, InputValueError, Number, Value};

verus! {

/// The magnitude of the least signed 128-bit integer.
pub const I128_MIN_MAGNITUDE: u128 = 170141183460469231731687303715884105728;

/// A signed 128-bit whole number.
#[derive(Clone, Copy, Debug, PartialEq, Eq, Structural)]
pub struct Integer {
    pub value: i128,
}

/// An unsigned 128-bit whole number.
#[derive(Clone, Copy, Debug, PartialEq, Eq, Structural)]
pub struct UnsignedInteger {
    pub value: u128,
}

impl Integer {
    /// The canonical text of the value: a minus sign when negative, then the digits of
    /// its magnitude.
    pub open spec fn text(self) -> Seq<char> {
        if self.value < 0 {
            seq!['-'] + digits_of((-self.value) as nat)
        } else {
            digits_of(self.value as nat)
        }
    }

    /// What the numeral `s` reads as.
    pub open spec fn of_numeral(s: Seq<char>) -> Result<Integer, ConversionError> {
        match whole_of(unsigned_part(s)) {
            Ok(m) => {
                let v = if has_minus(s) { -(m as int) } else { m as int };
                if i128::MIN <= v <= i128::MAX {
                    Ok(Integer { value: v as i128 })
                } else {
                    Err(ConversionError::Overflow)
                }
            },
            Err(e) => Err(e),
        }
    }

    /// What the wire value `v` is admitted as.
    pub open spec fn of_value(v: Value) -> Result<Integer, InputValueError> {
        match v {
            Value::String(s) => match Self::of_numeral(s@) {
                Ok(d) => Ok(d),
                Err(e) => Err(InputValueError::ConversionFailure(e)),
            },
            Value::Number(n) => match n.spec_as_i64() {
                Some(i) => Ok(Integer { value: i as i128 }),
                None => match n.spec_as_u64() {
                    Some(u) => Ok(Integer { value: u as i128 }),
                    None => Err(InputValueError::UnexpectedShape(v)),
                },
            },
            _ => Err(InputValueError::UnexpectedShape(v)),
        }
    }

    /// Reads a base-10 numeral.
    pub fn parse_str(s: &str) -> (r: Result<Integer, ConversionError>)
        ensures
            r == Self::of_numeral(s@),
    {
        let start = sign_len(s);
        match read_whole(s, start) {
            Ok(m) => if start == 1 {
                if m <= I128_MIN_MAGNITUDE {
                    let v: i128 = if m == I128_MIN_MAGNITUDE {
                        i128::MIN
                    } else {
                        -(m as i128)
                    };
                    Ok(Integer { value: v })
                } else {
                    Err(ConversionError::Overflow)
                }
            } else {
                if m <= i128::MAX as u128 {
                    Ok(Integer { value: m as i128 })
                } else {
                    Err(ConversionError::Overflow)
                }
            },
            Err(e) => Err(e),
        }
    }

    /// Admits a wire value: a base-10 numeral string or any 64-bit whole number; a float
    /// is refused by its shape.
    pub fn parse(value: Value) -> (r: Result<Integer, InputValueError>)
        ensures
            r == Self::of_value(value),
    {
        match &value {
            Value::Number(n) => {
                if let Some(i) = n.as_i64() {
                    return Ok(Integer { value: i as i128 });
                }
                if let Some(u) = n.as_u64() {
                    return Ok(Integer { value: u as i128 });
                }
                Err(InputValueError::UnexpectedShape(value))
            },
            Value::String(s) => match Self::parse_str(s.as_str()) {
                Ok(d) => Ok(d),
                Err(e) => Err(InputValueError::ConversionFailure(e)),
            },
            _ => Err(InputValueError::UnexpectedShape(value)),
        }
    }

    /// The canonical text of the value.
    pub fn to_text(&self) -> (r: String)
        ensures
            r@ == self.text(),
    {
        let mut out = String::new();
        if self.value < 0 {
            push_char(&mut out, '-');
            let m: u128 = if self.value == i128::MIN {
                I128_MIN_MAGNITUDE
            } else {
                (-self.value) as u128
            };
            push_whole_text(&mut out, m);
        } else {
            push_whole_text(&mut out, self.value as u128);
        }
        assert(out@ =~= self.text());
        out
    }

    /// The value as it goes out on the wire: always its canonical text, never a number.
    pub fn to_value(&self) -> (r: Value)
        ensures
            is_string_of(r, self.text()),
    {
        Value::String(self.to_text())
    }
}

impl UnsignedInteger {
    /// The canonical text of the value: its digits.
    pub open spec fn text(self) -> Seq<char> {
        digits_of(self.value as nat)
    }

    /// What the numeral `s` reads as; a minus sign in front of a valid numeral is refused.
    pub open spec fn of_numeral(s: Seq<char>) -> Result<UnsignedInteger, ConversionError> {
        match whole_of(unsigned_part(s)) {
            Ok(m) => if has_minus(s) {
                Err(ConversionError::Negative)
            } else {
                Ok(UnsignedInteger { value: m })
            },
            Err(e) => Err(e),
        }
    }

    /// What the wire value `v` is admitted as.
    pub open spec fn of_value(v: Value) -> Result<UnsignedInteger, InputValueError> {
        match v {
            Value::String(s) => match Self::of_numeral(s@) {
                Ok(d) => Ok(d),
                Err(e) => Err(InputValueError::ConversionFailure(e)),
            },
            Value::Number(n) => match n.spec_as_i64() {
                Some(i) => if i < 0 {
                    Err(InputValueError::ConversionFailure(ConversionError::Negative))
                } else {
                    Ok(UnsignedInteger { value: i as u128 })
                },
                None => match n.spec_as_u64() {
                    Some(u) => Ok(UnsignedInteger { value: u as u128 }),
                    None => Err(InputValueError::UnexpectedShape(v)),
                },
            },
            _ => Err(InputValueError::UnexpectedShape(v)),
        }
    }

    /// Reads a base-10 numeral.
    pub fn parse_str(s: &str) -> (r: Result<UnsignedInteger, ConversionError>)
        ensures
            r == Self::of_numeral(s@),
    {
        let start = sign_len(s);
        match read_whole(s, start) {
            Ok(m) => if start == 1 {
                Err(ConversionError::Negative)
            } else {
                Ok(UnsignedInteger { value: m })
            },
            Err(e) => Err(e),
        }
    }

    /// Admits a wire value: a base-10 numeral string or a whole number that is not
    /// negative; a negative number fails to convert, a float is refused by its shape.
    pub fn parse(value: Value) -> (r: Result<UnsignedInteger, InputValueError>)
        ensures
            r == Self::of_value(value),
    {
        match &value {
            Value::Number(n) => {
                if let Some(i) = n.as_i64() {
                    if i < 0 {
                        return Err(InputValueError::ConversionFailure(ConversionError::Negative));
                    }
                    return Ok(UnsignedInteger { value: i as u128 });
                }
                if let Some(u) = n.as_u64() {
                    return Ok(UnsignedInteger { value: u as u128 });
                }
                Err(InputValueError::UnexpectedShape(value))
            },
            Value::String(s) => match Self::parse_str(s.as_str()) {
                Ok(d) => Ok(d),
                Err(e) => Err(InputValueError::ConversionFailure(e)),
            },
            _ => Err(InputValueError::UnexpectedShape(value)),
        }
    }

    /// The canonical text of the value.
    pub fn to_text(&self) -> (r: String)
        ensures
            r@ == self.text(),
    {
        let mut out = String::new();
        push_whole_text(&mut out, self.value);
        assert(out@ =~= self.text());
        out
    }

    /// The value as it goes out on the wire: always its canonical text, never a number.
    pub fn to_value(&self) -> (r: Value)
        ensures
            is_string_of(r, self.text()),
    {
        Value::String(self.to_text())
    }
}

} // verus!

//! Decimal scalars: an unsigned decimal is a 128-bit coefficient and a 16-bit scale
//! standing for `coefficient / 10^scale`; a signed one adds a sign to such a magnitude.
//! Values keep the scale they were written with: `1.50` and `1.5` are distinct values.
use vstd::prelude::*;

use crate::numeral::{decimal_of, has_minus, read_decimal, sign_len, unsigned_part, ConversionError};
use crate::render::{decimal_text, push_char, push_decimal_text};
use crate::value::{is_string_of, InputValueError, Number, Value};

verus! {

/// A non-negative decimal, `coefficient / 10^scale`.
#[derive(Clone, Copy, Debug, PartialEq, Eq, Structural)]
pub struct UnsignedDecimal {
    pub coefficient: u128,
    pub scale: u16,
}

/// A decimal with a sign: `-magnitude` when `negative`, else `magnitude`.
#[derive(Clone, Copy, Debug, PartialEq, Eq, Structural)]
pub struct Decimal {
    pub negative: bool,
    pub magnitude: UnsignedDecimal,
}

impl UnsignedDecimal {
    /// The canonical text of the value.
    pub open spec fn text(self) -> Seq<char> {
        decimal_text(self.coefficient as nat, self.scale as nat)
    }

    /// What the numeral `s` reads as; a minus sign in front of a valid numeral is refused.
    pub open spec fn of_numeral(s: Seq<char>) -> Result<UnsignedDecimal, ConversionError> {
        match decimal_of(unsigned_part(s)) {
            Ok((c, k)) => if has_minus(s) {
                Err(ConversionError::Negative)
            } else {
                Ok(UnsignedDecimal { coefficient: c, scale: k })
            },
            Err(e) => Err(e),
        }
    }

    /// What the wire value `v` is admitted as.
    pub open spec fn of_value(v: Value) -> Result<UnsignedDecimal, InputValueError> {
        match v {
            Value::String(s) => match Self::of_numeral(s@) {
                Ok(d) => Ok(d),
                Err(e) => Err(InputValueError::ConversionFailure(e)),
            },
            Value::Number(n) => match n {
                Number::Float(t) => match Self::of_numeral(t@) {
                    Ok(d) => Ok(d),
                    Err(e) => Err(InputValueError::ConversionFailure(e)),
                },
                _ => match n.spec_as_u64() {
                    Some(u) => Ok(UnsignedDecimal { coefficient: u as u128, scale: 0 }),
                    None => Err(InputValueError::UnexpectedShape(v)),
                },
            },
            _ => Err(InputValueError::UnexpectedShape(v)),
        }
    }

    /// Reads a numeral.
    pub fn parse_str(s: &str) -> (r: Result<UnsignedDecimal, ConversionError>)
        ensures
            r == Self::of_numeral(s@),
    {
        let start = sign_len(s);
        match read_decimal(s, start) {
            Ok((c, k)) => if start == 1 {
                Err(ConversionError::Negative)
            } else {
                Ok(UnsignedDecimal { coefficient: c, scale: k })
            },
            Err(e) => Err(e),
        }
    }

    /// Admits a wire value: a numeral string, a float by its decimal rendering, or a
    /// whole number that is not negative.
    pub fn parse(value: Value) -> (r: Result<UnsignedDecimal, InputValueError>)
        ensures
            r == Self::of_value(value),
    {
        match &value {
            Value::String(s) => match Self::parse_str(s.as_str()) {
                Ok(d) => Ok(d),
                Err(e) => Err(InputValueError::ConversionFailure(e)),
            },
            Value::Number(n) => {
                if let Number::Float(t) = n {
                    return match Self::parse_str(t.as_str()) {
                        Ok(d) => Ok(d),
                        Err(e) => Err(InputValueError::ConversionFailure(e)),
                    };
                }
                if let Some(u) = n.as_u64() {
                    return Ok(UnsignedDecimal { coefficient: u as u128, scale: 0 });
                }
                Err(InputValueError::UnexpectedShape(value))
            },
            _ => Err(InputValueError::UnexpectedShape(value)),
        }
    }

    /// The canonical text of the value.
    pub fn to_text(&self) -> (r: String)
        ensures
            r@ == self.text(),
    {
        let mut out = String::new();
        push_decimal_text(&mut out, self.coefficient, self.scale);
        out
    }

    /// The value as it goes out on the wire: always its canonical text, never a number.
    pub fn to_value(&self) -> (r: Value)
        ensures
            is_string_of(r, self.text()),
    {
        Value::String(self.to_text())
    }
}

/// The magnitude of a signed 64-bit integer as a decimal of scale zero.
pub open spec fn decimal_of_i64(i: i64) -> Decimal {
    Decimal {
        negative: i < 0,
        magnitude: UnsignedDecimal {
            coefficient: (if i < 0 { -(i as int) } else { i as int }) as u128,
            scale: 0,
        },
    }
}

impl Decimal {
    /// The canonical text of the value: a minus sign when negative, then the magnitude's.
    pub open spec fn text(self) -> Seq<char> {
        (if self.negative { seq!['-'] } else { Seq::empty() }) + self.magnitude.text()
    }

    /// What the numeral `s` reads as.
    pub open spec fn of_numeral(s: Seq<char>) -> Result<Decimal, ConversionError> {
        match decimal_of(unsigned_part(s)) {
            Ok((c, k)) => Ok(
                Decimal {
                    negative: has_minus(s),
                    magnitude: UnsignedDecimal { coefficient: c, scale: k },
                },
            ),
            Err(e) => Err(e),
        }
    }

    /// What the wire value `v` is admitted as.
    pub open spec fn of_value(v: Value) -> Result<Decimal, InputValueError> {
        match v {
            Value::String(s) => match Self::of_numeral(s@) {
                Ok(d) => Ok(d),
                Err(e) => Err(InputValueError::ConversionFailure(e)),
            },
            Value::Number(n) => match n {
                Number::Float(t) => match Self::of_numeral(t@) {
                    Ok(d) => Ok(d),
                    Err(e) => Err(InputValueError::ConversionFailure(e)),
                },
                _ => match n.spec_as_i64() {
                    Some(i) => Ok(decimal_of_i64(i)),
                    None => match n.spec_as_u64() {
                        Some(u) => Ok(
                            Decimal {
                                negative: false,
                                magnitude: UnsignedDecimal { coefficient: u as u128, scale: 0 },
                            },
                        ),
                        None => Err(InputValueError::UnexpectedShape(v)),
                    },
                },
            },
            _ => Err(InputValueError::UnexpectedShape(v)),
        }
    }

    /// Reads a numeral.
    pub fn parse_str(s: &str) -> (r: Result<Decimal, ConversionError>)
        ensures
            r == Self::of_numeral(s@),
    {
        let start = sign_len(s);
        match read_decimal(s, start) {
            Ok((c, k)) => Ok(
                Decimal {
                    negative: start == 1,
                    magnitude: UnsignedDecimal { coefficient: c, scale: k },
                },
            ),
            Err(e) => Err(e),
        }
    }

    /// Admits a wire value: a numeral string, a float by its decimal rendering, or any
    /// 64-bit whole number.
    pub fn parse(value: Value) -> (r: Result<Decimal, InputValueError>)
        ensures
            r == Self::of_value(value),
    {
        match &value {
            Value::String(s) => match Self::parse_str(s.as_str()) {
                Ok(d) => Ok(d),
                Err(e) => Err(InputValueError::ConversionFailure(e)),
            },
            Value::Number(n) => {
                if let Number::Float(t) = n {
                    return match Self::parse_str(t.as_str()) {
                        Ok(d) => Ok(d),
                        Err(e) => Err(InputValueError::ConversionFailure(e)),
                    };
                }
                if let Some(i) = n.as_i64() {
                    let c: u128 = if i < 0 {
                        (-(i as i128)) as u128
                    } else {
                        i as u128
                    };
                    return Ok(
                        Decimal {
                            negative: i < 0,
                            magnitude: UnsignedDecimal { coefficient: c, scale: 0 },
                        },
                    );
                }
                if let Some(u) = n.as_u64() {
                    return Ok(
                        Decimal {
                            negative: false,
                            magnitude: UnsignedDecimal { coefficient: u as u128, scale: 0 },
                        },
                    );
                }
                Err(InputValueError::UnexpectedShape(value))
            },
            _ => Err(InputValueError::UnexpectedShape(value)),
        }
    }

    /// The canonical text of the value.
    pub fn to_text(&self) -> (r: String)
        ensures
            r@ == self.text(),
    {
        let mut out = String::new();
        if self.negative {
            push_char(&mut out, '-');
        }
        push_decimal_text(&mut out, self.magnitude.coefficient, self.magnitude.scale);
        assert(out@ =~= self.text());
        out
    }

    /// The value as it goes out on the wire: always its canonical text, never a number.
    pub fn to_value(&self) -> (r: Value)
        ensures
            is_string_of(r, self.text()),
    {
        Value::String(self.to_text())
    }
}

} // verus!

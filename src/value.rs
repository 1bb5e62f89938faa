//! The loosely typed wire value that scalars are read from and written to.
use vstd::prelude::*;

use crate::numeral::ConversionError;

verus! {

/// A number as it arrives on the wire.
#[derive(Clone, Debug, PartialEq, Eq)]
pub enum Number {
    /// A whole number that is not negative.
    Unsigned(u64),
    /// A whole number with a sign.
    Signed(i64),
    /// A floating-point number, held as its shortest decimal rendering (`NaN`, `inf` and
    /// `-inf` for the values that have none).
    Float(String),
}

/// A wire value: a number, a string, or one of the shapes that no numeric scalar accepts.
#[derive(Clone, Debug, PartialEq, Eq)]
pub enum Value {
    Null,
    Boolean(bool),
    Number(Number),
    String(String),
    Enum(String),
}

/// Why a wire value was not admitted as a scalar.
#[derive(Clone, Debug, PartialEq, Eq)]
pub enum InputValueError {
    /// The value's shape cannot stand for the requested kind; the value is handed back.
    UnexpectedShape(Value),
    /// The value has the right shape, but its content does not convert.
    ConversionFailure(ConversionError),
}

impl Number {
    /// The number as a signed 64-bit integer, where it is one exactly.
    pub open spec fn spec_as_i64(&self) -> Option<i64> {
        match *self {
            Number::Signed(i) => Some(i),
            Number::Unsigned(u) => if u <= i64::MAX as u64 {
                Some(u as i64)
            } else {
                None
            },
            Number::Float(_) => None,
        }
    }

    /// The number as an unsigned 64-bit integer, where it is one exactly.
    pub open spec fn spec_as_u64(&self) -> Option<u64> {
        match *self {
            Number::Signed(i) => if i >= 0 {
                Some(i as u64)
            } else {
                None
            },
            Number::Unsigned(u) => Some(u),
            Number::Float(_) => None,
        }
    }

    pub fn as_i64(&self) -> (r: Option<i64>)
        ensures
            r == self.spec_as_i64(),
    {
        match self {
            Number::Signed(i) => Some(*i),
            Number::Unsigned(u) => if *u <= i64::MAX as u64 {
                Some(*u as i64)
            } else {
                None
            },
            Number::Float(_) => None,
        }
    }

    pub fn as_u64(&self) -> (r: Option<u64>)
        ensures
            r == self.spec_as_u64(),
    {
        match self {
            Number::Signed(i) => if *i >= 0 {
                Some(*i as u64)
            } else {
                None
            },
            Number::Unsigned(u) => Some(*u),
            Number::Float(_) => None,
        }
    }
}

/// Whether `v` is a wire string whose characters are `t`.
pub open spec fn is_string_of(v: Value, t: Seq<char>) -> bool {
    match v {
        Value::String(s) => s@ == t,
        _ => false,
    }
}

} // verus!

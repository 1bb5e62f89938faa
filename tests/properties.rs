use numeric_scalars::decimal::{Decimal, UnsignedDecimal};
use numeric_scalars::integer::{Integer, UnsignedInteger};
use numeric_scalars::numeral::ConversionError;
use numeric_scalars::value::{InputValueError, Number, Value};

fn text(s: &str) -> Value {
    Value::String(s.to_string())
}

fn ud(coefficient: u128, scale: u16) -> UnsignedDecimal {
    UnsignedDecimal { coefficient, scale }
}

fn dec(negative: bool, coefficient: u128, scale: u16) -> Decimal {
    Decimal { negative, magnitude: ud(coefficient, scale) }
}

fn failure<T>(e: ConversionError) -> Result<T, InputValueError> {
    Err(InputValueError::ConversionFailure(e))
}

#[test]
fn decimal_string_literals() {
    assert_eq!(Decimal::parse(text("100")), Ok(dec(false, 100, 0)));
    assert_eq!(Decimal::parse(text("-100.5")), Ok(dec(true, 1005, 1)));
    assert_eq!(
        Decimal::parse(text("108446744073709999999")),
        Ok(dec(false, 108446744073709999999, 0))
    );
    assert_eq!(Decimal::parse(text("0.05")), Ok(dec(false, 5, 2)));
}

#[test]
fn unsigned_decimal_refuses_negative_numeral() {
    assert_eq!(UnsignedDecimal::parse(text("-100.5")), failure(ConversionError::Negative));
    assert_eq!(UnsignedDecimal::parse(text("-1")), failure(ConversionError::Negative));
}

#[test]
fn zero_number_admitted_by_all_kinds() {
    let zero = Value::Number(Number::Unsigned(0));
    assert_eq!(Decimal::parse(zero.clone()), Ok(dec(false, 0, 0)));
    assert_eq!(UnsignedDecimal::parse(zero.clone()), Ok(ud(0, 0)));
    assert_eq!(Integer::parse(zero.clone()), Ok(Integer { value: 0 }));
    assert_eq!(UnsignedInteger::parse(zero), Ok(UnsignedInteger { value: 0 }));
}

#[test]
fn minus_one_number_refused_by_unsigned_integer() {
    let r = UnsignedInteger::parse(Value::Number(Number::Signed(-1)));
    assert_eq!(r, failure(ConversionError::Negative));
}

#[test]
fn serialize_one_and_a_half() {
    assert_eq!(dec(false, 15, 1).to_value(), text("1.5"));
    assert_eq!(dec(false, 15, 1).to_text(), "1.5");
}

#[test]
fn round_trip_each_kind() {
    let decimals = [dec(false, 0, 0), dec(true, 1005, 1), dec(false, 5, 3), dec(true, u128::MAX, 40)];
    for d in decimals {
        assert_eq!(Decimal::parse(d.to_value()), Ok(d));
    }
    let unsigned = [ud(0, 0), ud(7, 5), ud(u128::MAX, 0), ud(1, 65535)];
    for d in unsigned {
        assert_eq!(UnsignedDecimal::parse(d.to_value()), Ok(d));
    }
    for v in [0i128, 1, -1, i128::MAX, i128::MIN] {
        let n = Integer { value: v };
        assert_eq!(Integer::parse(n.to_value()), Ok(n));
    }
    for v in [0u128, 1, u128::MAX] {
        let n = UnsignedInteger { value: v };
        assert_eq!(UnsignedInteger::parse(n.to_value()), Ok(n));
    }
}

#[test]
fn canonical_texts() {
    assert_eq!(dec(false, 5, 3).to_text(), "0.005");
    assert_eq!(dec(true, 1005, 1).to_text(), "-100.5");
    assert_eq!(ud(1200, 2).to_text(), "12.00");
    assert_eq!(Integer { value: i128::MIN }.to_text(), "-170141183460469231731687303715884105728");
    assert_eq!(UnsignedInteger { value: u128::MAX }.to_text(), "340282366920938463463374607431768211455");
}

#[test]
fn whole_numerals_agree_between_integer_kinds() {
    for s in ["0", "42", "007", "170141183460469231731687303715884105727"] {
        let i = Integer::parse(text(s)).unwrap().value;
        let u = UnsignedInteger::parse(text(s)).unwrap().value;
        assert_eq!(i as u128, u);
    }
    let beyond = "170141183460469231731687303715884105728";
    assert_eq!(Integer::parse(text(beyond)), failure(ConversionError::Overflow));
    assert_eq!(
        UnsignedInteger::parse(text(beyond)),
        Ok(UnsignedInteger { value: 170141183460469231731687303715884105728 })
    );
}

#[test]
fn negative_numerals_by_kind() {
    assert_eq!(Decimal::parse(text("-2")), Ok(dec(true, 2, 0)));
    assert_eq!(Integer::parse(text("-2")), Ok(Integer { value: -2 }));
    assert_eq!(UnsignedInteger::parse(text("-2")), failure(ConversionError::Negative));
    assert_eq!(UnsignedDecimal::parse(text("-2")), failure(ConversionError::Negative));
    assert_eq!(
        Integer::parse(text("-170141183460469231731687303715884105728")),
        Ok(Integer { value: i128::MIN })
    );
}

#[test]
fn fractional_numerals_by_kind() {
    assert_eq!(Integer::parse(text("1.5")), failure(ConversionError::Malformed));
    assert_eq!(UnsignedInteger::parse(text("1.5")), failure(ConversionError::Malformed));
    assert_eq!(Decimal::parse(text("1.5")), Ok(dec(false, 15, 1)));
    assert_eq!(UnsignedDecimal::parse(text("1.5")), Ok(ud(15, 1)));
}

#[test]
fn serialize_twice_gives_same_text() {
    let d = dec(true, 31415, 4);
    assert_eq!(d.to_value(), d.to_value());
    let n = UnsignedInteger { value: 99 };
    assert_eq!(n.to_text(), n.to_text());
}

#[test]
fn malformed_numerals() {
    for s in ["", "-", "abc", "1.", ".5", "1..2", "1.2.3", "+1", "1e5", " 1", "--1", "NaN", "inf"] {
        assert_eq!(Decimal::parse(text(s)), failure(ConversionError::Malformed), "{}", s);
    }
    for s in ["", "-", "1.0", "12a", "-x"] {
        assert_eq!(Integer::parse(text(s)), failure(ConversionError::Malformed), "{}", s);
        assert_eq!(UnsignedInteger::parse(text(s)), failure(ConversionError::Malformed), "{}", s);
    }
}

#[test]
fn overflowing_numerals() {
    let big = "340282366920938463463374607431768211456";
    assert_eq!(Decimal::parse(text(big)), failure(ConversionError::Overflow));
    assert_eq!(UnsignedInteger::parse(text(big)), failure(ConversionError::Overflow));
    assert_eq!(
        UnsignedDecimal::parse(text("3402823669209384634633746074317682114.56")),
        failure(ConversionError::Overflow)
    );
    let long_scale = format!("0.{}", "0".repeat(65536));
    assert_eq!(Decimal::parse(Value::String(long_scale)), failure(ConversionError::Overflow));
    let max_scale = format!("0.{}", "0".repeat(65535));
    assert_eq!(Decimal::parse(Value::String(max_scale)), Ok(dec(false, 0, 65535)));
}

#[test]
fn numbers_into_decimals() {
    assert_eq!(Decimal::parse(Value::Number(Number::Signed(i64::MIN))), Ok(dec(true, 9223372036854775808, 0)));
    assert_eq!(Decimal::parse(Value::Number(Number::Unsigned(u64::MAX))), Ok(dec(false, u64::MAX as u128, 0)));
    assert_eq!(Decimal::parse(Value::Number(Number::Float("-2.25".to_string()))), Ok(dec(true, 225, 2)));
    assert_eq!(
        Decimal::parse(Value::Number(Number::Float("NaN".to_string()))),
        failure(ConversionError::Malformed)
    );
    assert_eq!(UnsignedDecimal::parse(Value::Number(Number::Unsigned(5))), Ok(ud(5, 0)));
    assert_eq!(UnsignedDecimal::parse(Value::Number(Number::Signed(5))), Ok(ud(5, 0)));
    let minus = Value::Number(Number::Signed(-5));
    assert_eq!(UnsignedDecimal::parse(minus.clone()), Err(InputValueError::UnexpectedShape(minus)));
    assert_eq!(
        UnsignedDecimal::parse(Value::Number(Number::Float("-0.5".to_string()))),
        failure(ConversionError::Negative)
    );
}

#[test]
fn numbers_into_integers() {
    assert_eq!(Integer::parse(Value::Number(Number::Signed(-7))), Ok(Integer { value: -7 }));
    assert_eq!(Integer::parse(Value::Number(Number::Unsigned(u64::MAX))), Ok(Integer { value: u64::MAX as i128 }));
    assert_eq!(UnsignedInteger::parse(Value::Number(Number::Unsigned(u64::MAX))), Ok(UnsignedInteger { value: u64::MAX as u128 }));
    assert_eq!(UnsignedInteger::parse(Value::Number(Number::Signed(8))), Ok(UnsignedInteger { value: 8 }));
    let float = Value::Number(Number::Float("1.5".to_string()));
    assert_eq!(Integer::parse(float.clone()), Err(InputValueError::UnexpectedShape(float.clone())));
    assert_eq!(UnsignedInteger::parse(float.clone()), Err(InputValueError::UnexpectedShape(float)));
}

#[test]
fn other_shapes_refused() {
    for v in [Value::Null, Value::Boolean(true), Value::Enum("ONE".to_string())] {
        assert_eq!(Decimal::parse(v.clone()), Err(InputValueError::UnexpectedShape(v.clone())));
        assert_eq!(UnsignedDecimal::parse(v.clone()), Err(InputValueError::UnexpectedShape(v.clone())));
        assert_eq!(Integer::parse(v.clone()), Err(InputValueError::UnexpectedShape(v.clone())));
        assert_eq!(UnsignedInteger::parse(v.clone()), Err(InputValueError::UnexpectedShape(v)));
    }
}

#[test]
fn negative_zero_numeral() {
    assert_eq!(Decimal::parse(text("-0")), Ok(dec(true, 0, 0)));
    assert_eq!(Integer::parse(text("-0")), Ok(Integer { value: 0 }));
    assert_eq!(UnsignedInteger::parse(text("-0")), failure(ConversionError::Negative));
}

use numeric_scalars::decimal::{Decimal, UnsignedDecimal};
use numeric_scalars::integer::{Integer, UnsignedInteger};
use numeric_scalars::value::Value;

fn text(s: &str) -> Value {
    Value::String(s.to_string())
}

fn echo_decimal(s: &str) -> Value {
    Decimal::parse(text(s)).unwrap().to_value()
}

fn echo_unsigned_decimal(s: &str) -> Value {
    UnsignedDecimal::parse(text(s)).unwrap().to_value()
}

fn echo_integer(s: &str) -> Value {
    Integer::parse(text(s)).unwrap().to_value()
}

fn echo_unsigned_integer(s: &str) -> Value {
    UnsignedInteger::parse(text(s)).unwrap().to_value()
}

#[test]
fn test_fastnum() {
    let got = vec![
        ("decimal1", echo_decimal("100")),
        ("decimal2", echo_decimal("108446744073709999999")),
        ("decimal3", echo_decimal("0")),
        ("decimal4", echo_decimal("1")),
        ("decimal5", echo_decimal("100.5")),
        ("decimal6", echo_decimal("-100.5")),
        ("decimal7", echo_decimal("0.5")),
        ("decimal8", echo_decimal("1.5")),
        ("unsignedDecimal1", echo_unsigned_decimal("100")),
        ("unsignedDecimal2", echo_unsigned_decimal("10844674407370.9999999")),
        ("unsignedDecimal3", echo_unsigned_decimal("0")),
        ("unsignedDecimal4", echo_unsigned_decimal("1")),
        ("unsignedDecimal5", echo_unsigned_decimal("100.5")),
        ("unsignedDecimal6", echo_unsigned_decimal("0.5")),
        ("unsignedDecimal7", echo_unsigned_decimal("1.5")),
        ("integer1", echo_integer("100")),
        ("integer2", echo_integer("-100")),
        ("integer3", echo_integer("0")),
        ("integer4", echo_integer("1")),
        ("unsignedInteger1", echo_unsigned_integer("100")),
        ("unsignedInteger3", echo_unsigned_integer("0")),
    ];
    let expected = vec![
        ("decimal1", text("100")),
        ("decimal2", text("108446744073709999999")),
        ("decimal3", text("0")),
        ("decimal4", text("1")),
        ("decimal5", text("100.5")),
        ("decimal6", text("-100.5")),
        ("decimal7", text("0.5")),
        ("decimal8", text("1.5")),
        ("unsignedDecimal1", text("100")),
        ("unsignedDecimal2", text("10844674407370.9999999")),
        ("unsignedDecimal3", text("0")),
        ("unsignedDecimal4", text("1")),
        ("unsignedDecimal5", text("100.5")),
        ("unsignedDecimal6", text("0.5")),
        ("unsignedDecimal7", text("1.5")),
        ("integer1", text("100")),
        ("integer2", text("-100")),
        ("integer3", text("0")),
        ("integer4", text("1")),
        ("unsignedInteger1", text("100")),
        ("unsignedInteger3", text("0")),
    ];
    assert_eq!(got, expected);
}

//! Laws that relate parsing and serialising across the four scalar kinds.
use vstd::prelude::*;

use crate::decimal::{Decimal, UnsignedDecimal};
use crate::integer::{Integer, UnsignedInteger};
use crate::numeral::{
    all_digits, decimal_of, digits_value, has_minus, is_decimal, is_digit, is_whole, point_count,
    unsigned_part, whole_of, ConversionError,
};
use crate::render::{lemma_decimal_round_trip, lemma_whole_round_trip};
use crate::value::{is_string_of, InputValueError, Value};

verus! {

/// Whether `r` is a failure to convert (as opposed to a success or a refused shape).
pub open spec fn is_conversion_failure<T>(r: Result<T, InputValueError>) -> bool {
    r matches Err(InputValueError::ConversionFailure(_))
}

proof fn lemma_unsigned_decimal_text(d: UnsignedDecimal)
    ensures
        UnsignedDecimal::of_numeral(d.text()) == Ok::<UnsignedDecimal, ConversionError>(d),
        !has_minus(d.text()),
{
    lemma_decimal_round_trip(d.coefficient, d.scale);
    assert(is_decimal(d.text()));
    assert(is_digit(d.text()[0]));
}

/// An unsigned decimal, serialised and then parsed, is the value it was.
pub proof fn law_unsigned_decimal_round_trip(d: UnsignedDecimal, v: Value)
    requires
        is_string_of(v, d.text()),
    ensures
        UnsignedDecimal::of_value(v) == Ok::<UnsignedDecimal, InputValueError>(d),
{
    lemma_unsigned_decimal_text(d);
}

/// A decimal, serialised and then parsed, is the value it was.
pub proof fn law_decimal_round_trip(d: Decimal, v: Value)
    requires
        is_string_of(v, d.text()),
    ensures
        Decimal::of_value(v) == Ok::<Decimal, InputValueError>(d),
{
    let t = d.text();
    let m = d.magnitude.text();
    lemma_unsigned_decimal_text(d.magnitude);
    lemma_decimal_round_trip(d.magnitude.coefficient, d.magnitude.scale);
    if d.negative {
        assert(t.drop_first() =~= m);
        assert(unsigned_part(t) == m);
    } else {
        assert(t =~= m);
    }
}

/// An unsigned integer, serialised and then parsed, is the value it was.
pub proof fn law_unsigned_integer_round_trip(n: UnsignedInteger, v: Value)
    requires
        is_string_of(v, n.text()),
    ensures
        UnsignedInteger::of_value(v) == Ok::<UnsignedInteger, InputValueError>(n),
{
    lemma_whole_round_trip(n.value);
    assert(is_digit(n.text()[0]));
}

/// An integer, serialised and then parsed, is the value it was.
pub proof fn law_integer_round_trip(n: Integer, v: Value)
    requires
        is_string_of(v, n.text()),
    ensures
        Integer::of_value(v) == Ok::<Integer, InputValueError>(n),
{
    let t = n.text();
    if n.value < 0 {
        let m = (-n.value) as u128;
        lemma_whole_round_trip(m);
        assert(t.drop_first() =~= crate::render::digits_of(m as nat));
    } else {
        lemma_whole_round_trip(n.value as u128);
        assert(is_digit(t[0]));
    }
}

/// A numeral of digits alone reads as the same number as an integer and as an unsigned
/// integer wherever both admit it; whatever the signed kind admits the unsigned one
/// admits too, and both admit every such numeral up to the signed kind's maximum.
pub proof fn law_whole_numerals_agree(s: Seq<char>)
    requires
        is_whole(s),
    ensures
        Integer::of_numeral(s) is Ok ==> UnsignedInteger::of_numeral(s) is Ok,
        digits_value(s) <= i128::MAX ==> Integer::of_numeral(s) is Ok,
        Integer::of_numeral(s) is Ok ==> Integer::of_numeral(s)->Ok_0.value as int
            == UnsignedInteger::of_numeral(s)->Ok_0.value as int,
{
    assert(is_digit(s[0]));
}

/// A minus sign in front of a valid numeral fails to convert for both unsigned kinds,
/// and is admitted by the signed kinds as a negative value wherever the magnitude fits.
pub proof fn law_negative_numerals(s: Seq<char>, v: Value)
    requires
        has_minus(s),
        is_string_of(v, s),
    ensures
        is_decimal(unsigned_part(s)) ==> is_conversion_failure(UnsignedDecimal::of_value(v)),
        decimal_of(unsigned_part(s)) is Ok ==> (Decimal::of_value(v) matches Ok(d) && d.negative),
        is_whole(unsigned_part(s)) ==> is_conversion_failure(UnsignedInteger::of_value(v)),
        is_whole(unsigned_part(s)) && digits_value(unsigned_part(s)) <= 0x8000_0000_0000_0000_0000_0000_0000_0000
            ==> Integer::of_value(v) == Ok::<Integer, InputValueError>(
            Integer { value: (-(digits_value(unsigned_part(s)) as int)) as i128 },
        ),
{
}

proof fn lemma_point_found(s: Seq<char>)
    requires
        point_count(s) > 0,
    ensures
        !all_digits(s),
    decreases s.len(),
{
    if s.last() != '.' {
        lemma_point_found(s.drop_last());
        let i = choose|i: int| 0 <= i < s.drop_last().len() && !is_digit(s.drop_last()[i]);
        assert(!is_digit(s[i]));
    } else {
        assert(!is_digit(s[s.len() - 1]));
    }
}

/// A numeral with a decimal point fails to convert for both integer kinds, and is
/// admitted by the decimal kinds (by the unsigned one when it has no minus sign)
/// wherever its coefficient and scale fit.
pub proof fn law_fractional_numerals(s: Seq<char>, v: Value)
    requires
        is_string_of(v, s),
        is_decimal(unsigned_part(s)),
        point_count(unsigned_part(s)) == 1,
    ensures
        is_conversion_failure(Integer::of_value(v)),
        is_conversion_failure(UnsignedInteger::of_value(v)),
        decimal_of(unsigned_part(s)) is Ok ==> Decimal::of_value(v) is Ok,
        decimal_of(unsigned_part(s)) is Ok && !has_minus(s) ==> UnsignedDecimal::of_value(v) is Ok,
{
    lemma_point_found(unsigned_part(s));
    assert(whole_of(unsigned_part(s)) is Err);
}

/// Serialising is a function of the value: two wire values that serialise one value, of
/// any of the four kinds, are strings with the same text.
pub proof fn law_serialize_deterministic(
    d: Decimal,
    u: UnsignedDecimal,
    i: Integer,
    n: UnsignedInteger,
    first: Value,
    second: Value,
)
    ensures
        is_string_of(first, d.text()) && is_string_of(second, d.text()) ==> same_text(first, second),
        is_string_of(first, u.text()) && is_string_of(second, u.text()) ==> same_text(first, second),
        is_string_of(first, i.text()) && is_string_of(second, i.text()) ==> same_text(first, second),
        is_string_of(first, n.text()) && is_string_of(second, n.text()) ==> same_text(first, second),
{
}

/// Both values are strings, with the same characters.
pub open spec fn same_text(a: Value, b: Value) -> bool {
    &&& a is String
    &&& b is String
    &&& a->String_0@ == b->String_0@
}

} // verus!

//! The numeral grammar: digit strings, an optional leading minus sign and at most one
//! decimal point, and the readers that turn such text into fixed-width magnitudes.
use vstd::prelude::*;

verus! {

/// Why a numeral could not be turned into a value of the requested kind.
#[derive(Clone, Copy, Debug, PartialEq, Eq, Structural)]
pub enum ConversionError {
    /// The text is not a numeral of the requested shape.
    Malformed,
    /// The numeral is negative and the requested kind is unsigned.
    Negative,
    /// The numeral lies outside the range or precision of the requested kind.
    Overflow,
}

/// Whether `c` is one of the ASCII digits `0` to `9`.
pub open spec fn is_digit(c: char) -> bool {
    '0' <= c && c <= '9'
}

/// The value of an ASCII digit.
pub open spec fn digit_value(c: char) -> nat {
    (c as int - '0' as int) as nat
}

/// The ASCII digit that stands for `d` (for `d < 10`).
pub open spec fn digit_char(d: nat) -> char {
    ((d + '0' as nat) as u8) as char
}

/// Every character of `s` is a digit.
pub open spec fn all_digits(s: Seq<char>) -> bool {
    forall|i: int| 0 <= i < s.len() ==> is_digit(#[trigger] s[i])
}

/// The digits of `s` read as a base-10 number.
pub open spec fn digits_value(s: Seq<char>) -> nat
    decreases s.len(),
{
    if s.len() == 0 {
        0
    } else {
        digits_value(s.drop_last()) * 10 + digit_value(s.last())
    }
}

/// A whole-number numeral without sign: one or more digits.
pub open spec fn is_whole(s: Seq<char>) -> bool {
    s.len() > 0 && all_digits(s)
}

/// What reading `s` as an unsigned whole number of at most 128 bits gives.
pub open spec fn whole_of(s: Seq<char>) -> Result<u128, ConversionError> {
    if !is_whole(s) {
        Err(ConversionError::Malformed)
    } else if digits_value(s) > u128::MAX {
        Err(ConversionError::Overflow)
    } else {
        Ok(digits_value(s) as u128)
    }
}

/// How many decimal points `s` holds.
pub open spec fn point_count(s: Seq<char>) -> nat
    decreases s.len(),
{
    if s.len() == 0 {
        0
    } else {
        point_count(s.drop_last()) + if s.last() == '.' { 1nat } else { 0nat }
    }
}

/// How many characters follow the last decimal point of `s` (all of them if it has none).
pub open spec fn trailing_after_point(s: Seq<char>) -> nat
    decreases s.len(),
{
    if s.len() == 0 || s.last() == '.' {
        0
    } else {
        trailing_after_point(s.drop_last()) + 1
    }
}

/// A decimal numeral without sign: digits with at most one decimal point, which has a
/// digit on each side.
pub open spec fn is_decimal(s: Seq<char>) -> bool {
    &&& s.len() > 0
    &&& is_digit(s[0])
    &&& is_digit(s.last())
    &&& forall|i: int| 0 <= i < s.len() ==> is_digit(#[trigger] s[i]) || s[i] == '.'
    &&& point_count(s) <= 1
}

/// The digits of `s`, the decimal point skipped, read as a base-10 number.
pub open spec fn coefficient_of(s: Seq<char>) -> nat
    decreases s.len(),
{
    if s.len() == 0 {
        0
    } else if s.last() == '.' {
        coefficient_of(s.drop_last())
    } else {
        coefficient_of(s.drop_last()) * 10 + digit_value(s.last())
    }
}

/// The number of digits after the decimal point of `s` (zero without one).
pub open spec fn scale_of(s: Seq<char>) -> nat {
    if point_count(s) == 0 {
        0
    } else {
        trailing_after_point(s)
    }
}

/// What reading `s` as an unsigned decimal gives: its coefficient, of at most 128 bits,
/// and its scale, of at most 16 bits; the value is `coefficient / 10^scale`.
pub open spec fn decimal_of(s: Seq<char>) -> Result<(u128, u16), ConversionError> {
    if !is_decimal(s) {
        Err(ConversionError::Malformed)
    } else if coefficient_of(s) > u128::MAX || scale_of(s) > u16::MAX {
        Err(ConversionError::Overflow)
    } else {
        Ok((coefficient_of(s) as u128, scale_of(s) as u16))
    }
}

/// Whether the numeral `s` begins with a minus sign.
pub open spec fn has_minus(s: Seq<char>) -> bool {
    s.len() > 0 && s[0] == '-'
}

/// The numeral `s` without its minus sign, if it has one.
pub open spec fn unsigned_part(s: Seq<char>) -> Seq<char> {
    if has_minus(s) {
        s.drop_first()
    } else {
        s
    }
}

/// The digit for a value below ten is a digit, and has that value.
pub proof fn lemma_digit_char(d: nat)
    requires
        d < 10,
    ensures
        is_digit(digit_char(d)),
        digit_value(digit_char(d)) == d,
{
}

/// A longer prefix never reads as a smaller number.
proof fn lemma_digits_value_grows(s: Seq<char>, j: int, k: int)
    requires
        0 <= j <= k <= s.len(),
    ensures
        digits_value(s.subrange(0, j)) <= digits_value(s.subrange(0, k)),
    decreases k - j,
{
    if j < k {
        lemma_digits_value_grows(s, j, k - 1);
        assert(s.subrange(0, k).drop_last() =~= s.subrange(0, k - 1));
    }
}

/// A longer prefix never has a smaller coefficient.
proof fn lemma_coefficient_grows(s: Seq<char>, j: int, k: int)
    requires
        0 <= j <= k <= s.len(),
    ensures
        coefficient_of(s.subrange(0, j)) <= coefficient_of(s.subrange(0, k)),
    decreases k - j,
{
    if j < k {
        lemma_coefficient_grows(s, j, k - 1);
        assert(s.subrange(0, k).drop_last() =~= s.subrange(0, k - 1));
    }
}

/// Whether `c` is an ASCII digit.
pub fn is_digit_char(c: char) -> (r: bool)
    ensures
        r == is_digit(c),
{
    '0' <= c && c <= '9'
}

/// The ASCII digit for `d`.
pub fn digit_of(d: u8) -> (c: char)
    requires
        d < 10,
    ensures
        c == digit_char(d as nat),
{
    (d + 48u8) as char
}

/// Reads the characters of `s` from `start` on as an unsigned whole number.
pub fn read_whole(s: &str, start: usize) -> (r: Result<u128, ConversionError>)
    requires
        start <= s@.len(),
    ensures
        r == whole_of(s@.subrange(start as int, s@.len() as int)),
{
    let n = s.unicode_len();
    let ghost b = s@.subrange(start as int, n as int);
    if n == start {
        return Err(ConversionError::Malformed);
    }
    let mut i: usize = start;
    while i < n
        invariant
            start <= i <= n,
            n == s@.len(),
            b == s@.subrange(start as int, n as int),
            all_digits(s@.subrange(start as int, i as int)),
        decreases n - i,
    {
        let c = s.get_char(i);
        if !is_digit_char(c) {
            assert(!is_digit(b[i - start]));
            return Err(ConversionError::Malformed);
        }
        assert(s@.subrange(start as int, i + 1) =~= s@.subrange(start as int, i as int).push(c));
        i = i + 1;
    }
    assert(s@.subrange(start as int, i as int) == b);
    let mut v: u128 = 0;
    i = start;
    while i < n
        invariant
            start <= i <= n,
            n == s@.len(),
            b == s@.subrange(start as int, n as int),
            all_digits(b),
            v as nat == digits_value(b.subrange(0, i - start)),
        decreases n - i,
    {
        let c = s.get_char(i);
        assert(c == b[i - start]);
        assert(b.subrange(0, i - start + 1).drop_last() =~= b.subrange(0, i - start));
        let d = (c as u32 - 48u32) as u128;
        if v > (u128::MAX - d) / 10 {
            assert(v * 10 + d > u128::MAX) by (nonlinear_arith)
                requires
                    v > (u128::MAX - d) / 10,
                    d < 10,
            ;
            proof {
                lemma_digits_value_grows(b, i - start + 1, b.len() as int);
                assert(b.subrange(0, b.len() as int) =~= b);
            }
            return Err(ConversionError::Overflow);
        }
        assert(v * 10 + d <= u128::MAX) by (nonlinear_arith)
            requires
                v <= (u128::MAX - d) / 10,
                d < 10,
        ;
        v = v * 10 + d;
        i = i + 1;
    }
    assert(b.subrange(0, b.len() as int) =~= b);
    Ok(v)
}

/// Reads the characters of `s` from `start` on as an unsigned decimal: its coefficient
/// and its scale.
pub fn read_decimal(s: &str, start: usize) -> (r: Result<(u128, u16), ConversionError>)
    requires
        start <= s@.len(),
    ensures
        r == decimal_of(s@.subrange(start as int, s@.len() as int)),
{
    let n = s.unicode_len();
    let ghost b = s@.subrange(start as int, n as int);
    if n == start {
        return Err(ConversionError::Malformed);
    }
    let mut stray = false;
    let mut points: usize = 0;
    let mut frac: usize = 0;
    let mut i: usize = start;
    while i < n
        invariant
            start <= i <= n,
            n == s@.len(),
            b == s@.subrange(start as int, n as int),
            points <= i - start,
            frac <= i - start,
            points as nat == point_count(b.subrange(0, i - start)),
            frac as nat == trailing_after_point(b.subrange(0, i - start)),
            !stray <==> forall|k: int|
                0 <= k < i - start ==> is_digit(#[trigger] b[k]) || b[k] == '.',
        decreases n - i,
    {
        let c = s.get_char(i);
        assert(c == b[i - start]);
        assert(b.subrange(0, i - start + 1).drop_last() =~= b.subrange(0, i - start));
        if c == '.' {
            points = points + 1;
            frac = 0;
        } else {
            if !is_digit_char(c) {
                stray = true;
            }
            frac = frac + 1;
        }
        i = i + 1;
    }
    assert(b.subrange(0, b.len() as int) =~= b);
    let first = s.get_char(start);
    let last = s.get_char(n - 1);
    if stray || points > 1 || !is_digit_char(first) || !is_digit_char(last) {
        return Err(ConversionError::Malformed);
    }
    let scale: usize = if points == 0 { 0 } else { frac };
    if scale > 65535 {
        return Err(ConversionError::Overflow);
    }
    let mut v: u128 = 0;
    i = start;
    while i < n
        invariant
            start <= i <= n,
            n == s@.len(),
            b == s@.subrange(start as int, n as int),
            is_decimal(b),
            scale as nat == scale_of(b),
            scale <= 65535,
            v as nat == coefficient_of(b.subrange(0, i - start)),
        decreases n - i,
    {
        let c = s.get_char(i);
        assert(c == b[i - start]);
        assert(b.subrange(0, i - start + 1).drop_last() =~= b.subrange(0, i - start));
        if c != '.' {
            let d = (c as u32 - 48u32) as u128;
            if v > (u128::MAX - d) / 10 {
                assert(v * 10 + d > u128::MAX) by (nonlinear_arith)
                    requires
                        v > (u128::MAX - d) / 10,
                        d < 10,
                ;
                proof {
                    lemma_coefficient_grows(b, i - start + 1, b.len() as int);
                    assert(b.subrange(0, b.len() as int) =~= b);
                }
                return Err(ConversionError::Overflow);
            }
            assert(v * 10 + d <= u128::MAX) by (nonlinear_arith)
                requires
                    v <= (u128::MAX - d) / 10,
                    d < 10,
            ;
            v = v * 10 + d;
        }
        i = i + 1;
    }
    assert(b.subrange(0, b.len() as int) =~= b);
    Ok((v, scale as u16))
}

/// The length of the minus sign that begins `s`: one or zero.
pub fn sign_len(s: &str) -> (r: usize)
    ensures
        r == if has_minus(s@) { 1usize } else { 0usize },
        r <= s@.len(),
        s@.subrange(r as int, s@.len() as int) == unsigned_part(s@),
{
    if s.unicode_len() > 0 && s.get_char(0) == '-' {
        assert(s@.subrange(1, s@.len() as int) =~= s@.drop_first());
        1
    } else {
        assert(s@.subrange(0, s@.len() as int) =~= s@);
        0
    }
}

} // verus!

//! Canonical text of magnitudes: base-10 digits with no superfluous leading zero, and a
//! decimal point before the last `scale` digits.
use vstd::prelude::*;

use crate::numeral::{
    all_digits, digit_value, coefficient_of, decimal_of, digit_char, digit_of, digits_value, is_decimal,
    is_digit, lemma_digit_char, point_count, scale_of, trailing_after_point, whole_of,
};

verus! {

/// The base-10 digits of `n`, without leading zeros (`0` is one digit).
pub open spec fn digits_of(n: nat) -> Seq<char>
    decreases n,
{
    if n < 10 {
        seq![digit_char(n)]
    } else {
        digits_of(n / 10).push(digit_char(n % 10))
    }
}

/// `k` zero digits.
pub open spec fn zeros(k: nat) -> Seq<char> {
    Seq::new(k, |i: int| '0')
}

/// The digits of `n`, with zeros in front so that there are at least `width` of them.
pub open spec fn padded_digits(n: nat, width: nat) -> Seq<char> {
    let d = digits_of(n);
    if width > d.len() {
        zeros((width - d.len()) as nat) + d
    } else {
        d
    }
}

/// The canonical text of the unsigned decimal `coefficient / 10^scale`: with a positive
/// scale, the digits of the coefficient, padded to one more than the scale, with a point
/// before the last `scale` of them.
pub open spec fn decimal_text(coefficient: nat, scale: nat) -> Seq<char> {
    let p = padded_digits(coefficient, scale + 1);
    if scale == 0 {
        p
    } else {
        p.subrange(0, p.len() - scale) + seq!['.'] + p.subrange(p.len() - scale, p.len() as int)
    }
}

proof fn lemma_digits_of(n: nat)
    ensures
        digits_of(n).len() >= 1,
        all_digits(digits_of(n)),
        digits_value(digits_of(n)) == n,
    decreases n,
{
    if n < 10 {
        lemma_digit_char(n);
        assert(digits_of(n).drop_last() =~= Seq::<char>::empty());
        assert(digits_of(n).last() == digit_char(n));
        assert(digits_value(digits_of(n)) == digits_value(Seq::<char>::empty()) * 10
            + digit_value(digit_char(n)));
    } else {
        lemma_digits_of(n / 10);
        lemma_digit_char(n % 10);
        assert(digits_of(n).drop_last() =~= digits_of(n / 10));
        assert(n == (n / 10) * 10 + n % 10) by (nonlinear_arith);
        assert(digits_of(n).last() == digit_char(n % 10));
        assert(digits_value(digits_of(n)) == digits_value(digits_of(n / 10)) * 10
            + digit_value(digit_char(n % 10)));
    }
}

proof fn lemma_zeros_prefix(k: nat, d: Seq<char>)
    ensures
        digits_value(zeros(k) + d) == digits_value(d),
    decreases k + d.len(),
{
    if d.len() == 0 {
        if k > 0 {
            assert((zeros(k) + d).drop_last() =~= zeros((k - 1) as nat) + d);
            lemma_zeros_prefix((k - 1) as nat, d);
        }
    } else {
        assert((zeros(k) + d).drop_last() =~= zeros(k) + d.drop_last());
        lemma_zeros_prefix(k, d.drop_last());
    }
}

/// The padded digits of `n` are digits, at least `width` and at least one of them, and
/// read back as `n`.
pub proof fn lemma_padded_digits(n: nat, width: nat)
    ensures
        padded_digits(n, width).len() >= width,
        padded_digits(n, width).len() >= 1,
        all_digits(padded_digits(n, width)),
        digits_value(padded_digits(n, width)) == n,
{
    lemma_digits_of(n);
    let d = digits_of(n);
    if width > d.len() {
        let k = (width - d.len()) as nat;
        lemma_zeros_prefix(k, d);
        assert forall|i: int| 0 <= i < (zeros(k) + d).len() implies is_digit(
            #[trigger] (zeros(k) + d)[i],
        ) by {
            if i >= k {
                assert((zeros(k) + d)[i] == d[i - k]);
            }
        }
    }
}

/// A digit string holds no point, and its coefficient is its value.
proof fn lemma_digit_string(s: Seq<char>)
    requires
        all_digits(s),
    ensures
        point_count(s) == 0,
        coefficient_of(s) == digits_value(s),
        trailing_after_point(s) == s.len(),
    decreases s.len(),
{
    if s.len() > 0 {
        lemma_digit_string(s.drop_last());
    }
}

/// Digits, a point, digits: one point, the digits after it, and the value of all digits.
proof fn lemma_point_between(a: Seq<char>, b: Seq<char>)
    requires
        all_digits(a),
        all_digits(b),
    ensures
        point_count(a + seq!['.'] + b) == 1,
        coefficient_of(a + seq!['.'] + b) == digits_value(a + b),
        trailing_after_point(a + seq!['.'] + b) == b.len(),
    decreases b.len(),
{
    let t = a + seq!['.'] + b;
    if b.len() == 0 {
        assert(t.drop_last() =~= a);
        assert(a + b =~= a);
        lemma_digit_string(a);
    } else {
        assert(t.drop_last() =~= a + seq!['.'] + b.drop_last());
        assert((a + b).drop_last() =~= a + b.drop_last());
        lemma_point_between(a, b.drop_last());
    }
}

/// The canonical text of a whole number reads back as that number.
pub proof fn lemma_whole_round_trip(n: u128)
    ensures
        whole_of(digits_of(n as nat)) == Ok::<u128, crate::numeral::ConversionError>(n),
{
    lemma_digits_of(n as nat);
}

/// The canonical text of an unsigned decimal reads back as that decimal.
pub proof fn lemma_decimal_round_trip(coefficient: u128, scale: u16)
    ensures
        decimal_of(decimal_text(coefficient as nat, scale as nat)) == Ok::<
            (u128, u16),
            crate::numeral::ConversionError,
        >((coefficient, scale)),
{
    let c = coefficient as nat;
    let sc = scale as nat;
    let p = padded_digits(c, sc + 1);
    lemma_padded_digits(c, sc + 1);
    let t = decimal_text(c, sc);
    if sc == 0 {
        lemma_digit_string(p);
    } else {
        let a = p.subrange(0, p.len() - sc);
        let b = p.subrange(p.len() - sc, p.len() as int);
        assert(a + b =~= p);
        assert(t == a + seq!['.'] + b);
        lemma_point_between(a, b);
        assert(t[0] == a[0]);
        assert(t.last() == b.last());
        assert forall|i: int| 0 <= i < t.len() implies is_digit(#[trigger] t[i]) || t[i] == '.' by {
            if i < a.len() {
                assert(t[i] == a[i]);
            } else if i > a.len() {
                assert(t[i] == b[i - a.len() - 1]);
            }
        }
    }
    assert(is_decimal(t));
    assert(scale_of(t) == sc);
}

/// Relies on `String::push`: the character is appended at the end.
#[verifier::external_body]
pub(crate) fn push_char(out: &mut String, c: char)
    ensures
        final(out)@ == old(out)@.push(c),
{
    out.push(c);
}

fn push_digits(out: &mut Vec<char>, n: u128)
    ensures
        final(out)@ == old(out)@ + digits_of(n as nat),
    decreases n,
{
    if n < 10 {
        out.push(digit_of(n as u8));
        assert(final(out)@ =~= old(out)@ + digits_of(n as nat));
    } else {
        push_digits(out, n / 10);
        out.push(digit_of((n % 10) as u8));
        assert(final(out)@ =~= old(out)@ + digits_of(n as nat));
    }
}

fn padded_chars(n: u128, width: usize) -> (r: Vec<char>)
    ensures
        r@ == padded_digits(n as nat, width as nat),
{
    let mut d: Vec<char> = Vec::new();
    push_digits(&mut d, n);
    assert(d@ =~= digits_of(n as nat));
    if width <= d.len() {
        return d;
    }
    let mut r: Vec<char> = Vec::new();
    let k = width - d.len();
    let mut i: usize = 0;
    while i < k
        invariant
            i <= k,
            r@ == zeros(i as nat),
        decreases k - i,
    {
        r.push('0');
        assert(r@ =~= zeros((i + 1) as nat));
        i = i + 1;
    }
    let mut j: usize = 0;
    while j < d.len()
        invariant
            j <= d.len(),
            d@ == digits_of(n as nat),
            r@ == zeros(k as nat) + d@.subrange(0, j as int),
        decreases d.len() - j,
    {
        r.push(d[j]);
        assert(r@ =~= zeros(k as nat) + d@.subrange(0, j + 1));
        j = j + 1;
    }
    assert(d@.subrange(0, d.len() as int) =~= d@);
    r
}

/// Appends the canonical text of the whole number `n`.
pub fn push_whole_text(out: &mut String, n: u128)
    ensures
        final(out)@ == old(out)@ + digits_of(n as nat),
{
    let d = padded_chars(n, 0);
    let ghost start = out@;
    let mut i: usize = 0;
    while i < d.len()
        invariant
            i <= d.len(),
            d@ == digits_of(n as nat),
            out@ == start + d@.subrange(0, i as int),
        decreases d.len() - i,
    {
        push_char(out, d[i]);
        assert(out@ =~= start + d@.subrange(0, i + 1));
        i = i + 1;
    }
    assert(d@.subrange(0, d.len() as int) =~= d@);
}

/// Appends the canonical text of the unsigned decimal `coefficient / 10^scale`.
pub fn push_decimal_text(out: &mut String, coefficient: u128, scale: u16)
    ensures
        final(out)@ == old(out)@ + decimal_text(coefficient as nat, scale as nat),
{
    let p = padded_chars(coefficient, scale as usize + 1);
    proof {
        lemma_padded_digits(coefficient as nat, scale as nat + 1);
    }
    let cut = p.len() - scale as usize;
    let ghost start = out@;
    let ghost ps = p@;
    let mut i: usize = 0;
    while i < p.len()
        invariant
            i <= p.len(),
            p@ == ps,
            cut == ps.len() - scale,
            1 <= cut <= ps.len(),
            i <= cut ==> out@ == start + ps.subrange(0, i as int),
            i > cut ==> out@ == start + ps.subrange(0, cut as int) + seq!['.'] + ps.subrange(
                cut as int,
                i as int,
            ),
        decreases p.len() - i,
    {
        if i == cut {
            push_char(out, '.');
            assert(ps.subrange(cut as int, cut as int) =~= Seq::<char>::empty());
        }
        push_char(out, p[i]);
        if i < cut {
            assert(out@ =~= start + ps.subrange(0, i + 1));
        } else {
            assert(out@ =~= start + ps.subrange(0, cut as int) + seq!['.'] + ps.subrange(
                cut as int,
                i + 1,
            ));
        }
        i = i + 1;
    }
    if scale == 0 {
        assert(ps.subrange(0, ps.len() as int) =~= ps);
    } else {
        assert(out@ =~= start + (ps.subrange(0, cut as int) + seq!['.'] + ps.subrange(
            cut as int,
            ps.len() as int,
        )));
    }
}

} // verus!

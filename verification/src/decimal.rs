//! Unsigned decimal numbers as text: digits around at most one decimal point.

use crate::text::index_from;
use vstd::arithmetic::power::{lemma_pow0, lemma_pow1, lemma_pow_adds, pow};
use vstd::prelude::*;

verus! {

/// Whether `c` is one of `0` to `9`.
pub open spec fn is_digit(c: char) -> bool {
    '0' <= c && c <= '9'
}

/// The number that the digit `c` stands for.
pub open spec fn digit_of(c: char) -> int {
    c as int - '0' as int
}

/// Whether `s` holds decimal digits only.
pub open spec fn all_digits(s: Seq<char>) -> bool {
    forall|i: int| 0 <= i < s.len() ==> is_digit(#[trigger] s[i])
}

/// The number written by a sequence of decimal digits; zero for none.
pub open spec fn digits_value(s: Seq<char>) -> int
    decreases s.len(),
{
    if s.len() == 0 {
        0
    } else {
        10 * digits_value(s.drop_last()) + digit_of(s.last())
    }
}

/// The digits in front of the decimal point.
pub open spec fn whole_digits(s: Seq<char>) -> Seq<char> {
    s.subrange(0, index_from(s, 0, '.'))
}

/// The digits behind the decimal point; none where there is no point.
pub open spec fn fraction_digits(s: Seq<char>) -> Seq<char> {
    let point = index_from(s, 0, '.');
    if point < s.len() {
        s.subrange(point + 1, s.len() as int)
    } else {
        Seq::empty()
    }
}

/// An unsigned decimal number: digits with at most one decimal point among
/// them, and at least one digit.
pub open spec fn is_decimal(s: Seq<char>) -> bool {
    &&& all_digits(whole_digits(s))
    &&& all_digits(fraction_digits(s))
    &&& whole_digits(s).len() + fraction_digits(s).len() >= 1
}

/// The digits of a decimal number read without its point: the number is
/// `numerator(s) / 10^scale(s)`.
pub open spec fn numerator(s: Seq<char>) -> int {
    digits_value(whole_digits(s) + fraction_digits(s))
}

/// The count of digits behind the decimal point.
pub open spec fn scale(s: Seq<char>) -> nat {
    fraction_digits(s).len()
}

/// The number a digit stands for; `None` for any other character.
pub fn digit(c: char) -> (d: Option<u32>)
    ensures
        d is Some <==> is_digit(c),
        d matches Some(n) ==> n == digit_of(c) && n <= 9,
{
    if c >= '0' && c <= '9' {
        Some(c as u32 - '0' as u32)
    } else {
        None
    }
}

/// Appending one digit multiplies the value by ten and adds the digit.
pub proof fn lemma_digits_value_push(s: Seq<char>, c: char)
    ensures
        digits_value(s.push(c)) == 10 * digits_value(s) + digit_of(c),
{
    assert(s.push(c).drop_last() =~= s);
}

/// A run of `n` digits writes a number below `10^n`.
pub proof fn lemma_digits_value_bound(s: Seq<char>)
    requires
        all_digits(s),
    ensures
        0 <= digits_value(s) < pow(10, s.len()),
    decreases s.len(),
{
    if s.len() == 0 {
        lemma_pow0(10);
    } else {
        let front = s.drop_last();
        assert(all_digits(front));
        lemma_digits_value_bound(front);
        assert(is_digit(s.last()));
        lemma_pow_adds(10, front.len(), 1);
        lemma_pow1(10);
    }
}

/// Writing `b` behind `a` shifts `a` left by the length of `b`.
pub proof fn lemma_digits_value_concat(a: Seq<char>, b: Seq<char>)
    ensures
        digits_value(a + b) == digits_value(a) * pow(10, b.len()) + digits_value(b),
    decreases b.len(),
{
    if b.len() == 0 {
        assert(a + b =~= a);
        lemma_pow0(10);
    } else {
        let front = b.drop_last();
        assert((a + b).drop_last() =~= a + front);
        lemma_digits_value_concat(a, front);
        lemma_pow_adds(10, front.len(), 1);
        lemma_pow1(10);
        let p = pow(10, front.len());
        assert(10 * (digits_value(a) * p) == digits_value(a) * (p * 10)) by (nonlinear_arith);
    }
}

/// Extending a run of digits by a digit gives a run of digits.
pub proof fn lemma_all_digits_push(s: Seq<char>, c: char)
    requires
        all_digits(s),
        is_digit(c),
    ensures
        all_digits(s.push(c)),
{
    assert forall|j: int| 0 <= j < s.push(c).len() implies is_digit(#[trigger] s.push(c)[j]) by {
        if j < s.len() {
            assert(is_digit(s[j]));
        }
    }
}

} // verus!

//! The load percentage: a decimal load figure divided by the number of CPUs,
//! times one hundred, rounded to the nearest integer with halves rounded up.

use crate::decimal::{
    all_digits, digit, digits_value, fraction_digits, is_decimal, is_digit, lemma_all_digits_push,
    lemma_digits_value_bound, lemma_digits_value_concat, lemma_digits_value_push, numerator, scale,
    whole_digits,
};
use crate::text::{index_from, lemma_index_from};
use vstd::arithmetic::div_mod::{
    lemma_div_denominator, lemma_div_is_ordered, lemma_div_is_ordered_by_denominator,
    lemma_div_multiples_vanish_quotient, lemma_fundamental_div_mod,
    lemma_fundamental_div_mod_converse, lemma_hoist_over_denominator,
};
use vstd::arithmetic::power::{lemma_pow_adds, lemma_pow_positive, pow};
use vstd::prelude::*;

verus! {

/// `a / b` rounded to the nearest integer, halves up.
pub open spec fn round_half_up(a: int, b: int) -> int {
    (2 * a + b) / (2 * b)
}

/// The percentage of `cpus` CPUs that the load `numerator / 10^scale` keeps
/// busy, rounded half up.
pub open spec fn rounded_percent(numerator: int, scale: nat, cpus: int) -> int {
    round_half_up(100 * numerator, pow(10, scale) * cpus)
}

/// The rounded load percentage of a decimal load figure.
pub open spec fn percent_of(field: Seq<char>, cpus: int) -> int {
    rounded_percent(numerator(field), scale(field), cpus)
}

/// A percentage as a `u32` holds it: what is beyond the type is shown as its
/// largest value.
pub open spec fn capped(percent: int) -> int {
    if percent > u32::MAX {
        u32::MAX as int
    } else {
        percent
    }
}

/// The first three digits behind the point as a count of thousandths, with
/// missing digits read as zero.
spec fn leading_thousandths(fraction: Seq<char>) -> int {
    if fraction.len() >= 3 {
        digits_value(fraction.take(3))
    } else {
        digits_value(fraction) * pow(10, (3 - fraction.len()) as nat)
    }
}

/// The first powers of ten.
proof fn lemma_small_powers_of_ten()
    ensures
        pow(10, 0) == 1,
        pow(10, 1) == 10,
        pow(10, 2) == 100,
        pow(10, 3) == 1000,
{
    reveal_with_fuel(pow, 4);
}

/// Rounding the percentage needs the load only down to its thousandths.
proof fn lemma_percent_from_thousandths(n: int, p: int, c: int)
    requires
        0 <= n,
        0 < p,
        0 < c,
    ensures
        round_half_up(100 * n, p * c) == ((1000 * n / p) / 5 + c) / (2 * c),
{
    let x = 200 * n + c * p;
    assert(2 * (100 * n) + p * c == x && 0 <= x) by (nonlinear_arith)
        requires
            x == 200 * n + c * p,
            0 <= n,
            0 < p,
            0 < c,
    ;
    assert(2 * (p * c) == p * (2 * c)) by (nonlinear_arith);
    lemma_div_denominator(x, p, 2 * c);
    lemma_hoist_over_denominator(200 * n, c, p as nat);
    lemma_div_multiples_vanish_quotient(5, 200 * n, p);
    lemma_div_denominator(1000 * n, p, 5);
}

/// The thousandths of a decimal number are a thousand times its whole part
/// plus its first three decimals.
proof fn lemma_thousandths(whole: Seq<char>, fraction: Seq<char>)
    requires
        all_digits(fraction),
    ensures
        1000 * digits_value(whole + fraction) / pow(10, fraction.len()) == 1000 * digits_value(
            whole,
        ) + leading_thousandths(fraction),
{
    let k = fraction.len();
    let p = pow(10, k);
    let w = digits_value(whole);
    let f = digits_value(fraction);
    let n = digits_value(whole + fraction);
    lemma_small_powers_of_ten();
    lemma_pow_positive(10, k);
    lemma_digits_value_concat(whole, fraction);
    lemma_digits_value_bound(fraction);
    assert(n == w * p + f);
    if k >= 3 {
        let head = fraction.take(3);
        let tail = fraction.skip(3);
        let q = pow(10, tail.len());
        let h = digits_value(head);
        let r = digits_value(tail);
        assert(fraction =~= head + tail);
        assert(all_digits(tail)) by {
            assert forall|i: int| 0 <= i < tail.len() implies is_digit(#[trigger] tail[i]) by {
                assert(is_digit(fraction[i + 3]));
            }
        }
        lemma_digits_value_concat(head, tail);
        lemma_digits_value_bound(tail);
        lemma_pow_adds(10, 3, tail.len());
        lemma_pow_positive(10, tail.len());
        assert(p == 1000 * q);
        assert(f == h * q + r);
        assert(1000 * n == (1000 * w + h) * p + 1000 * r) by (nonlinear_arith)
            requires
                n == w * p + f,
                f == h * q + r,
                p == 1000 * q,
        ;
        lemma_fundamental_div_mod_converse(1000 * n, p, 1000 * w + h, 1000 * r);
    } else {
        let m = pow(10, (3 - k) as nat);
        lemma_pow_adds(10, k, (3 - k) as nat);
        assert(p * m == 1000);
        assert(1000 * n == (1000 * w + f * m) * p + 0) by (nonlinear_arith)
            requires
                n == w * p + f,
                p * m == 1000,
        ;
        lemma_fundamental_div_mod_converse(1000 * n, p, 1000 * w + f * m, 0);
    }
}

/// Floor division keeps the order of fractions: where `a1 / b1 <= a2 / b2`
/// as fractions, the same holds of the integer quotients.
proof fn lemma_quotients_ordered(a1: int, b1: int, a2: int, b2: int)
    requires
        0 < b1,
        0 < b2,
        a1 * b2 <= a2 * b1,
    ensures
        a1 / b1 <= a2 / b2,
{
    let q1 = a1 / b1;
    let q2 = a2 / b2;
    lemma_fundamental_div_mod(a1, b1);
    lemma_fundamental_div_mod(a2, b2);
    if q1 > q2 {
        assert(a2 * b1 < (q2 + 1) * b2 * b1) by (nonlinear_arith)
            requires
                a2 < b2 * q2 + b2,
                0 < b1,
        ;
        assert((q2 + 1) * b2 * b1 <= q1 * b1 * b2) by (nonlinear_arith)
            requires
                q2 + 1 <= q1,
                0 < b1,
                0 < b2,
        ;
        assert(q1 * b1 * b2 <= a1 * b2) by (nonlinear_arith)
            requires
                b1 * q1 <= a1,
                0 < b2,
        ;
    }
}

/// `round_half_up(a, b)` is the integer nearest to `a / b`, the upper one of
/// two that are equally near: it lies within one half of the fraction, the
/// lower end included.
pub proof fn lemma_round_half_up_is_nearest(a: int, b: int)
    requires
        0 < b,
    ensures
        (2 * round_half_up(a, b) - 1) * b <= 2 * a < (2 * round_half_up(a, b) + 1) * b,
{
    let r = round_half_up(a, b);
    lemma_fundamental_div_mod(2 * a + b, 2 * b);
    assert((2 * r - 1) * b <= 2 * a < (2 * r + 1) * b) by (nonlinear_arith)
        requires
            2 * a + b == (2 * b) * r + (2 * a + b) % (2 * b),
            0 <= (2 * a + b) % (2 * b) < 2 * b,
    ;
}

/// Rounding keeps the order of fractions.
pub proof fn lemma_round_half_up_monotone(a1: int, b1: int, a2: int, b2: int)
    requires
        0 < b1,
        0 < b2,
        a1 * b2 <= a2 * b1,
    ensures
        round_half_up(a1, b1) <= round_half_up(a2, b2),
{
    assert((2 * a1 + b1) * (2 * b2) <= (2 * a2 + b2) * (2 * b1)) by (nonlinear_arith)
        requires
            a1 * b2 <= a2 * b1,
    ;
    lemma_quotients_ordered(2 * a1 + b1, 2 * b1, 2 * a2 + b2, 2 * b2);
}

/// The percentage never falls when the load per CPU rises: where
/// `n1 / 10^k1` on `c1` CPUs is no more per CPU than `n2 / 10^k2` on `c2`
/// CPUs, its rounded percentage is no larger.
pub proof fn lemma_percent_monotone(n1: int, k1: nat, c1: int, n2: int, k2: nat, c2: int)
    requires
        1 <= c1,
        1 <= c2,
        n1 * (pow(10, k2) * c2) <= n2 * (pow(10, k1) * c1),
    ensures
        rounded_percent(n1, k1, c1) <= rounded_percent(n2, k2, c2),
{
    let d1 = pow(10, k1);
    let d2 = pow(10, k2);
    lemma_pow_positive(10, k1);
    lemma_pow_positive(10, k2);
    assert(0 < d1 * c1) by (nonlinear_arith)
        requires
            0 < d1,
            1 <= c1,
    ;
    assert(0 < d2 * c2) by (nonlinear_arith)
        requires
            0 < d2,
            1 <= c2,
    ;
    assert((100 * n1) * (d2 * c2) <= (100 * n2) * (d1 * c1)) by (nonlinear_arith)
        requires
            n1 * (d2 * c2) <= n2 * (d1 * c1),
    ;
    lemma_round_half_up_monotone(100 * n1, d1 * c1, 100 * n2, d2 * c2);
}

/// Whole parts above this bound give a percentage beyond `u32` whatever the
/// number of CPUs.
const WHOLE_CAP: u128 = 1_000_000_000_000_000_000_000_000_000_000;

/// Reads the digits in front of the decimal point: where the point stands (the
/// length of the field where it has none) and the number the digits write,
/// `None` for one above `WHOLE_CAP`.
fn read_whole(field: &str) -> (read: Option<(usize, Option<u128>)>)
    ensures
        read is Some <==> all_digits(whole_digits(field@)),
        read matches Some((point, value)) ==> {
            &&& point == index_from(field@, 0, '.')
            &&& point <= field@.len()
            &&& match value {
                Some(v) => v == digits_value(whole_digits(field@)) && v <= WHOLE_CAP,
                None => digits_value(whole_digits(field@)) > WHOLE_CAP,
            }
        },
{
    let ghost s = field@;
    let len = field.unicode_len();
    let mut i: usize = 0;
    let mut value: u128 = 0;
    let mut huge = false;
    for c in it: field.chars()
        invariant
            s == field@,
            len == s.len(),
            it.seq() == s,
            i == it.index(),
            index_from(s, i as int, '.') == index_from(s, 0, '.'),
            all_digits(s.subrange(0, i as int)),
            !huge ==> value == digits_value(s.subrange(0, i as int)) && value <= WHOLE_CAP,
            huge ==> digits_value(s.subrange(0, i as int)) > WHOLE_CAP,
    {
        if c == '.' {
            return Some(
                (
                    i,
                    if huge {
                        None
                    } else {
                        Some(value)
                    },
                ),
            );
        }
        let ghost seen = s.subrange(0, i as int);
        proof {
            lemma_index_from(s, i as int + 1, '.');
            assert(s.subrange(0, i as int + 1) =~= seen.push(c));
            lemma_digits_value_push(seen, c);
            lemma_digits_value_bound(seen);
        }
        match digit(c) {
            Some(d) => {
                proof {
                    lemma_all_digits_push(seen, c);
                }
                if !huge {
                    value = value * 10 + d as u128;
                    if value > WHOLE_CAP {
                        huge = true;
                    }
                }
            },
            None => {
                assert(whole_digits(s)[i as int] == c);
                return None;
            },
        }
        i += 1;
    }
    Some(
        (
            i,
            if huge {
                None
            } else {
                Some(value)
            },
        ),
    )
}

/// Reads the digits behind the decimal point and returns the first three of
/// them as thousandths.
fn read_fraction(fraction: &str) -> (read: Option<u32>)
    ensures
        read is Some <==> all_digits(fraction@),
        read matches Some(t) ==> t == leading_thousandths(fraction@) && t < 1000,
{
    let ghost s = fraction@;
    let mut value: u32 = 0;
    let mut taken: u32 = 0;
    proof {
        lemma_small_powers_of_ten();
    }
    for c in it: fraction.chars()
        invariant
            s == fraction@,
            it.seq() == s,
            all_digits(s.take(it.index() as int)),
            taken == if it.index() < 3 { it.index() } else { 3 },
            value == digits_value(s.take(taken as int)),
            value < pow(10, taken as nat),
    {
        let ghost seen = s.take(it.index() as int);
        proof {
            lemma_small_powers_of_ten();
            assert(s.take(it.index() + 1) =~= seen.push(c));
        }
        match digit(c) {
            Some(d) => {
                proof {
                    lemma_all_digits_push(seen, c);
                }
                if taken < 3 {
                    proof {
                        lemma_digits_value_push(seen, c);
                        lemma_pow_adds(10, taken as nat, 1);
                    }
                    value = value * 10 + d;
                    taken += 1;
                }
            },
            None => {
                assert(!is_digit(s[it.index()]));
                return None;
            },
        }
    }
    proof {
        assert(s.take(s.len() as int) =~= s);
    }
    if taken == 0 {
        Some(0)
    } else if taken == 1 {
        Some(value * 100)
    } else if taken == 2 {
        Some(value * 10)
    } else {
        Some(value)
    }
}

/// The load percentage of one load-average field on `cpu_count` CPUs: the
/// field's decimal value, divided by the CPU count, times one hundred, rounded
/// half up. `None` where the field is no unsigned decimal number; a percentage
/// beyond `u32` comes back as `u32::MAX`.
pub fn load_percent(field: &str, cpu_count: usize) -> (percent: Option<u32>)
    requires
        cpu_count >= 1,
    ensures
        percent is Some <==> is_decimal(field@),
        percent matches Some(p) ==> p == capped(percent_of(field@, cpu_count as int)),
{
    let (point, whole) = match read_whole(field) {
        Some(read) => read,
        None => {
            return None;
        },
    };
    let len = field.unicode_len();
    let thousandths = if point < len {
        match read_fraction(field.substring_char(point + 1, len)) {
            Some(t) => t,
            None => {
                return None;
            },
        }
    } else {
        proof {
            lemma_small_powers_of_ten();
        }
        0
    };
    if len == 0 || (len == 1 && point == 0) {
        return None;
    }
    proof {
        let w = whole_digits(field@);
        let f = fraction_digits(field@);
        let p = pow(10, f.len());
        lemma_pow_positive(10, f.len());
        lemma_digits_value_concat(w, f);
        lemma_digits_value_bound(w);
        lemma_digits_value_bound(f);
        lemma_thousandths(w, f);
        assert(numerator(field@) >= 0) by (nonlinear_arith)
            requires
                numerator(field@) == digits_value(w) * p + digits_value(f),
                0 <= digits_value(w),
                0 <= digits_value(f),
                0 < p,
        ;
        lemma_percent_from_thousandths(numerator(field@), p, cpu_count as int);
    }
    match whole {
        Some(w) => {
            let scaled: u128 = (w * 1000 + thousandths as u128) / 5;
            let percent: u128 = (scaled + cpu_count as u128) / (2 * cpu_count as u128);
            if percent > u32::MAX as u128 {
                Some(u32::MAX)
            } else {
                Some(percent as u32)
            }
        },
        None => {
            proof {
                let t = 1000 * numerator(field@) / pow(10, fraction_digits(field@).len());
                let c = cpu_count as int;
                lemma_div_is_ordered(200 * WHOLE_CAP + c, t / 5 + c, 2 * c);
                lemma_div_is_ordered_by_denominator(200 * WHOLE_CAP + c, 2 * c, 2 * u64::MAX);
                lemma_div_is_ordered(200 * WHOLE_CAP as int, 200 * WHOLE_CAP + c, 2 * u64::MAX);
            }
            Some(u32::MAX)
        },
    }
}

} // verus!

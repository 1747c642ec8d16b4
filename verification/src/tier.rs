//! Color tiers of the load percentage.

use crate::decimal::{is_decimal, numerator, scale};
use crate::percent::{lemma_percent_monotone, load_percent, percent_of};
use vstd::arithmetic::power::pow;
use vstd::prelude::*;

verus! {

/// The seven colors a load percentage can be shown in, from calm to overloaded.
#[derive(Clone, Copy, Debug, PartialEq, Eq)]
pub enum Color {
    Green,
    White,
    Blue,
    Cyan,
    Yellow,
    Magenta,
    Red,
}

impl Color {
    /// Position of the tier in the order green < white < blue < cyan < yellow < magenta < red.
    pub open spec fn rank(self) -> int {
        match self {
            Color::Green => 0,
            Color::White => 1,
            Color::Blue => 2,
            Color::Cyan => 3,
            Color::Yellow => 4,
            Color::Magenta => 5,
            Color::Red => 6,
        }
    }

    /// The lowest percentage shown in this color.
    pub open spec fn lower_bound(self) -> int {
        match self {
            Color::Green => 0,
            Color::White => 25,
            Color::Blue => 50,
            Color::Cyan => 75,
            Color::Yellow => 100,
            Color::Magenta => 200,
            Color::Red => 400,
        }
    }

    /// The color's name as the status markup spells it.
    pub open spec fn markup(self) -> Seq<char> {
        match self {
            Color::Green => "green"@,
            Color::White => "white"@,
            Color::Blue => "blue"@,
            Color::Cyan => "cyan"@,
            Color::Yellow => "yellow"@,
            Color::Magenta => "magenta"@,
            Color::Red => "red"@,
        }
    }

    /// The color's name as the status markup spells it.
    pub fn name(&self) -> (s: &'static str)
        ensures
            s@ == self.markup(),
    {
        match self {
            Color::Green => "green",
            Color::White => "white",
            Color::Blue => "blue",
            Color::Cyan => "cyan",
            Color::Yellow => "yellow",
            Color::Magenta => "magenta",
            Color::Red => "red",
        }
    }
}

/// The tier of an integer load percentage: half-open bins, low bound included.
pub open spec fn tier_of(percent: int) -> Color {
    if percent < 25 {
        Color::Green
    } else if percent < 50 {
        Color::White
    } else if percent < 75 {
        Color::Blue
    } else if percent < 100 {
        Color::Cyan
    } else if percent < 200 {
        Color::Yellow
    } else if percent < 400 {
        Color::Magenta
    } else {
        Color::Red
    }
}

/// Picks the color tier of a load percentage.
pub fn color_for_percent(percent: u32) -> (color: Color)
    ensures
        color == tier_of(percent as int),
{
    if percent < 25 {
        Color::Green
    } else if percent < 50 {
        Color::White
    } else if percent < 75 {
        Color::Blue
    } else if percent < 100 {
        Color::Cyan
    } else if percent < 200 {
        Color::Yellow
    } else if percent < 400 {
        Color::Magenta
    } else {
        Color::Red
    }
}

/// Picks the color tier of one load-average field on `cpu_count` CPUs; `None`
/// where the field is no unsigned decimal number.
pub fn load_color(field: &str, cpu_count: usize) -> (color: Option<Color>)
    requires
        cpu_count >= 1,
    ensures
        color is Some <==> is_decimal(field@),
        color matches Some(c) ==> c == tier_of(percent_of(field@, cpu_count as int)),
{
    match load_percent(field, cpu_count) {
        Some(percent) => Some(color_for_percent(percent)),
        None => None,
    }
}

/// A higher percentage never maps to a calmer tier.
pub proof fn lemma_tier_monotone(low: int, high: int)
    requires
        low <= high,
    ensures
        tier_of(low).rank() <= tier_of(high).rank(),
{
}

/// The tier never gets calmer when the load per CPU rises: where the load
/// `a` on `cpus_a` CPUs is no more per CPU than the load `b` on `cpus_b` CPUs,
/// its percentage is no larger and its tier of no higher rank. The loads are
/// compared as fractions, `numerator / 10^scale / cpus`, cross-multiplied.
pub proof fn lemma_load_tier_monotone(a: Seq<char>, cpus_a: int, b: Seq<char>, cpus_b: int)
    requires
        1 <= cpus_a,
        1 <= cpus_b,
        numerator(a) * (pow(10, scale(b)) * cpus_b) <= numerator(b) * (pow(10, scale(a)) * cpus_a),
    ensures
        percent_of(a, cpus_a) <= percent_of(b, cpus_b),
        tier_of(percent_of(a, cpus_a)).rank() <= tier_of(percent_of(b, cpus_b)).rank(),
{
    lemma_percent_monotone(numerator(a), scale(a), cpus_a, numerator(b), scale(b), cpus_b);
    lemma_tier_monotone(percent_of(a, cpus_a), percent_of(b, cpus_b));
}

/// There are exactly seven tiers: ranks run from 0 to 6 without repetition,
/// each tier is the tier of its own lower bound, and a non-negative percentage
/// lies at or above the lower bound of its tier.
pub proof fn lemma_seven_tiers()
    ensures
        forall|c: Color| 0 <= #[trigger] c.rank() <= 6,
        forall|c: Color, d: Color| #[trigger] c.rank() == #[trigger] d.rank() ==> c == d,
        forall|c: Color| tier_of(#[trigger] c.lower_bound()) == c,
        forall|p: int| 0 <= p ==> (#[trigger] tier_of(p)).lower_bound() <= p,
{
}

} // verus!

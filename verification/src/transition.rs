//! Ramps between two strengths, and the curves that they follow: a straight
//! line, the half cosine, and each of the two there and back again.
//!
//! Everything is worked out in whole numbers. How far a ramp has come is the
//! fraction of its time that has elapsed, kept as a numerator and a
//! denominator; the half cosine is the cosine's power series in fixed point.

use crate::strength::{Strength, FULL};
use vstd::prelude::*;

verus! {

/// One whole, in the fixed-point scale in which curve weights are computed.
pub const UNIT: u64 = 1_000_000_000;

/// The square of pi, in units of `UNIT`.
pub const PI_SQUARED: u64 = 9_869_604_401;

/// The multiplier at which a there-and-back curve spends as long going out
/// as coming back: multipliers count thousandths.
pub const EVEN: u32 = 1_000;

/// The shape of a ramp between two strengths.
///
/// The two there-and-back shapes go from the start to the target and return
/// to the start within the one duration. Their multiplier `m`, counted in
/// thousandths, gives the way out the share `m / (m + EVEN)` of the time.
#[derive(Debug, PartialEq, Eq, Structural, Clone, Copy, Hash)]
pub enum TransitionInterpolation {
    Linear,
    Sine,
    LinearToAndBack(u32),
    SineToAndBack(u32),
}

impl TransitionInterpolation {
    /// The multiplier of a there-and-back shape; the other shapes have none.
    pub open spec fn multiplier(self) -> Option<int> {
        match self {
            TransitionInterpolation::LinearToAndBack(m) => Some(m as int),
            TransitionInterpolation::SineToAndBack(m) => Some(m as int),
            _ => None,
        }
    }
}

/// A planned ramp from one strength to another.
#[derive(Debug, PartialEq, Eq, Structural, Clone, Copy)]
pub struct Transition {
    pub from: Strength,
    pub to: Strength,
    /// How long the ramp takes, in nanoseconds.
    pub time: u64,
    pub interpolation: TransitionInterpolation,
}

/// The level `num / den` of the way from `from` to `to`, rounded towards
/// `from`.
pub open spec fn mix(from: int, to: int, num: int, den: int) -> int {
    if from <= to {
        from + (to - from) * num / den
    } else {
        from - (from - to) * num / den
    }
}

/// Half of one minus the cosine of the angle whose square is `z`, for angles
/// up to a right angle: the cosine's series up to the twelfth power, worked
/// out in fixed point. Angle squares and the result are in units of `UNIT`.
pub open spec fn half_versine(z: int) -> int {
    let t6 = UNIT - z / 132;
    let t5 = UNIT - (z / 90) * t6 / (UNIT as int);
    let t4 = UNIT - (z / 56) * t5 / (UNIT as int);
    let t3 = UNIT - (z / 30) * t4 / (UNIT as int);
    let t2 = UNIT - (z / 12) * t3 / (UNIT as int);
    (z / 4) * t2 / (UNIT as int)
}

/// The square of the angle `pi * x`, for `x` up to one half.
pub open spec fn angle_squared(x: int) -> int {
    (x * x / (UNIT as int)) * PI_SQUARED / (UNIT as int)
}

/// The first half of the ease-in, ease-out weight: `(1 - cos(pi * x)) / 2`
/// for `x` from nothing to one half, never above one half.
pub open spec fn rising_half(x: int) -> int {
    let w = half_versine(angle_squared(x));
    if w > UNIT / 2 {
        UNIT as int / 2
    } else {
        w
    }
}

/// The ease-in, ease-out weight `(1 - cos(pi * x)) / 2` at the fraction `x`
/// of the way, both in units of `UNIT`. The second half mirrors the first.
pub open spec fn half_cosine(x: int) -> int {
    if x <= UNIT / 2 {
        rising_half(x)
    } else {
        UNIT - rising_half(UNIT - x)
    }
}

/// The level that lies the share `weight` of the way from `from` to `to`,
/// rounded to the nearest. The weight is in units of `UNIT`.
pub open spec fn blend(from: int, to: int, weight: int) -> int {
    if from <= to {
        from + ((to - from) * weight + UNIT / 2) / (UNIT as int)
    } else {
        from - ((from - to) * weight + UNIT / 2) / (UNIT as int)
    }
}

/// The level `num / den` of the way from `from` to `to` along the half
/// cosine.
pub open spec fn eased(from: int, to: int, num: int, den: int) -> int {
    blend(from, to, half_cosine(num * UNIT / den))
}

/// Whether a there-and-back ramp with multiplier `m` is still on its way out
/// after `elapsed` of `time`.
pub open spec fn outbound(m: int, elapsed: int, time: int) -> bool {
    elapsed * (m + EVEN) < m * time
}

/// The level of a there-and-back ramp: on the way out it runs from `from` to
/// `to` over the first `m / (m + EVEN)` of the time, on the way back from `to`
/// to `from` over the rest, each leg along a straight line or the half cosine.
pub open spec fn there_and_back(
    sine: bool,
    from: int,
    to: int,
    m: int,
    elapsed: int,
    time: int,
) -> int {
    if outbound(m, elapsed, time) {
        if sine {
            eased(from, to, elapsed * (m + EVEN), m * time)
        } else {
            mix(from, to, elapsed * (m + EVEN), m * time)
        }
    } else {
        if sine {
            eased(to, from, elapsed * (m + EVEN) - m * time, EVEN * time)
        } else {
            mix(to, from, elapsed * (m + EVEN) - m * time, EVEN * time)
        }
    }
}

/// Whether `level` lies between `a` and `b`, whichever of them is the lower.
pub open spec fn between(a: int, b: int, level: int) -> bool {
    (a <= level <= b) || (b <= level <= a)
}

proof fn lemma_scaled_part(a: int, num: int, den: int)
    by (nonlinear_arith)
    requires
        0 <= a,
        0 <= num <= den,
        0 < den,
    ensures
        0 <= a * num / den <= a,
        a * 0 / den == 0,
        a * den / den == a,
{
}

proof fn lemma_mix_between(from: int, to: int, num: int, den: int)
    requires
        0 <= num <= den,
        0 < den,
    ensures
        between(from, to, mix(from, to, num, den)),
        mix(from, to, 0, den) == from,
        mix(from, to, den, den) == to,
{
    if from <= to {
        lemma_scaled_part(to - from, num, den);
    } else {
        lemma_scaled_part(from - to, num, den);
    }
}

proof fn lemma_rounded_part(a: int, weight: int)
    by (nonlinear_arith)
    requires
        0 <= a,
        0 <= weight <= UNIT,
    ensures
        0 <= (a * weight + UNIT / 2) / (UNIT as int) <= a,
        (a * 0 + UNIT / 2) / (UNIT as int) == 0,
        (a * UNIT + UNIT / 2) / (UNIT as int) == a,
        a * weight <= a * UNIT,
{
}

proof fn lemma_blend_between(from: int, to: int, weight: int)
    requires
        0 <= weight <= UNIT,
    ensures
        between(from, to, blend(from, to, weight)),
        blend(from, to, 0) == from,
        blend(from, to, UNIT as int) == to,
{
    if from <= to {
        lemma_rounded_part(to - from, weight);
    } else {
        lemma_rounded_part(from - to, weight);
    }
}

proof fn lemma_half_versine_bounds(z: int)
    requires
        0 <= z <= 2_500_000_000,
    ensures
        0 <= half_versine(z) <= z / 4,
{
    let u = UNIT as int;
    let t6 = u - z / 132;
    assert(0 <= t6 <= u);
    lemma_scaled_part(z / 90, t6, u);
    let t5 = u - (z / 90) * t6 / u;
    assert(0 <= t5 <= u);
    lemma_scaled_part(z / 56, t5, u);
    let t4 = u - (z / 56) * t5 / u;
    assert(0 <= t4 <= u);
    lemma_scaled_part(z / 30, t4, u);
    let t3 = u - (z / 30) * t4 / u;
    assert(0 <= t3 <= u);
    lemma_scaled_part(z / 12, t3, u);
    let t2 = u - (z / 12) * t3 / u;
    assert(0 <= t2 <= u);
    lemma_scaled_part(z / 4, t2, u);
    assert(half_versine(z) == (z / 4) * t2 / u);
}

proof fn lemma_angle_squared_bounds(x: int)
    requires
        0 <= x <= UNIT / 2,
    ensures
        0 <= angle_squared(x) <= 2_500_000_000,
        angle_squared(0) == 0,
{
    let u = UNIT as int;
    assert(0 <= x * x <= 250_000_000_000_000_000) by (nonlinear_arith)
        requires
            0 <= x <= 500_000_000,
    ;
    let xx = x * x / u;
    assert(0 <= xx <= 250_000_000);
    assert(0 <= xx * PI_SQUARED <= 250_000_000 * 9_869_604_401) by (nonlinear_arith)
        requires
            0 <= xx <= 250_000_000,
            PI_SQUARED == 9_869_604_401,
    ;
}

/// The weight stays within one whole, starts at nothing and ends at one.
pub proof fn lemma_half_cosine_bounds(x: int)
    requires
        0 <= x <= UNIT,
    ensures
        0 <= half_cosine(x) <= UNIT,
        half_cosine(0) == 0,
        half_cosine(UNIT as int) == UNIT,
{
    if x <= UNIT / 2 {
        lemma_angle_squared_bounds(x);
        lemma_half_versine_bounds(angle_squared(x));
    } else {
        lemma_angle_squared_bounds(UNIT - x);
        lemma_half_versine_bounds(angle_squared(UNIT - x));
    }
    lemma_angle_squared_bounds(0);
    lemma_half_versine_bounds(0);
    assert(half_versine(0) == 0);
}

proof fn lemma_fraction(num: int, den: int)
    by (nonlinear_arith)
    requires
        0 <= num <= den,
        0 < den,
    ensures
        0 <= num * UNIT / den <= UNIT,
        0 * UNIT / den == 0,
        den * UNIT / den == UNIT,
        num * UNIT <= den * UNIT,
{
}

proof fn lemma_eased_between(from: int, to: int, num: int, den: int)
    requires
        0 <= num <= den,
        0 < den,
    ensures
        between(from, to, eased(from, to, num, den)),
        eased(from, to, 0, den) == from,
        eased(from, to, den, den) == to,
{
    lemma_fraction(num, den);
    let x = num * UNIT / den;
    lemma_half_cosine_bounds(x);
    lemma_blend_between(from, to, half_cosine(x));
}

/// The two legs of a there-and-back ramp, as fractions that stay within one.
proof fn lemma_legs(m: int, elapsed: int, time: int)
    by (nonlinear_arith)
    requires
        0 <= m,
        0 <= elapsed <= time,
        0 < time,
    ensures
        outbound(m, elapsed, time) ==> 0 <= elapsed * (m + EVEN) <= m * time && 0 < m * time,
        !outbound(m, elapsed, time) ==> 0 <= elapsed * (m + EVEN) - m * time <= EVEN * time,
        0 < EVEN * time,
        0 < m ==> outbound(m, 0, time),
        !outbound(m, time, time),
        time * (m + EVEN) - m * time == EVEN * time,
        0 * (m + EVEN) == 0,
{
}

/// The weight at the fraction `x` of the way along the half cosine.
fn half_cosine_weight(x: u64) -> (w: u64)
    requires
        x <= UNIT,
    ensures
        w == half_cosine(x as int),
        w <= UNIT,
{
    proof {
        lemma_half_cosine_bounds(x as int);
    }
    if x <= UNIT / 2 {
        rising_half_weight(x)
    } else {
        UNIT - rising_half_weight(UNIT - x)
    }
}

fn rising_half_weight(x: u64) -> (w: u64)
    requires
        x <= UNIT / 2,
    ensures
        w == rising_half(x as int),
        w <= UNIT / 2,
{
    proof {
        lemma_angle_squared_bounds(x as int);
        assert(0 <= x * x <= 250_000_000_000_000_000) by (nonlinear_arith)
            requires
                0 <= x <= 500_000_000,
        ;
    }
    let xx: u64 = x * x / UNIT;
    proof {
        assert(0 <= xx * PI_SQUARED <= 250_000_000 * 9_869_604_401) by (nonlinear_arith)
            requires
                0 <= xx <= 250_000_000,
                PI_SQUARED == 9_869_604_401,
        ;
    }
    let z: u64 = xx * PI_SQUARED / UNIT;
    assert(z == angle_squared(x as int));
    let t6: u64 = UNIT - z / 132;
    let t5: u64 = UNIT - scaled(z / 90, t6);
    let t4: u64 = UNIT - scaled(z / 56, t5);
    let t3: u64 = UNIT - scaled(z / 30, t4);
    let t2: u64 = UNIT - scaled(z / 12, t3);
    let w: u64 = scaled(z / 4, t2);
    assert(w == half_versine(z as int));
    if w > UNIT / 2 {
        UNIT / 2
    } else {
        w
    }
}

/// The part `weight / UNIT` of `a`.
fn scaled(a: u64, weight: u64) -> (part: u64)
    requires
        a <= 2_500_000_000,
        weight <= UNIT,
    ensures
        part == (a as int) * (weight as int) / (UNIT as int),
        part <= a,
{
    proof {
        lemma_scaled_part(a as int, weight as int, UNIT as int);
        assert(a * weight <= 2_500_000_000 * 1_000_000_000) by (nonlinear_arith)
            requires
                0 <= a <= 2_500_000_000,
                0 <= weight <= 1_000_000_000,
        ;
    }
    a * weight / UNIT
}

/// The largest fraction numerator or denominator that the curves work with.
pub const FRACTION_LIMIT: u128 = 0x2_0000_0000_0000_0000_0000_0000;

/// The level `num / den` of the way from `from` to `to` on a straight line.
fn mix_levels(from: u32, to: u32, num: u128, den: u128) -> (level: u32)
    requires
        from <= FULL,
        to <= FULL,
        num <= den,
        0 < den <= FRACTION_LIMIT,
    ensures
        level == mix(from as int, to as int, num as int, den as int),
        between(from as int, to as int, level as int),
        level <= FULL,
{
    proof {
        lemma_mix_between(from as int, to as int, num as int, den as int);
    }
    if from <= to {
        let span: u128 = (to - from) as u128;
        proof {
            lemma_scaled_part(span as int, num as int, den as int);
            assert(span * num <= 1_000_000 * 0x2_0000_0000_0000_0000_0000_0000) by (nonlinear_arith)
                requires
                    0 <= span <= 1_000_000,
                    0 <= num <= 0x2_0000_0000_0000_0000_0000_0000,
            ;
        }
        let part: u128 = span * num / den;
        from + part as u32
    } else {
        let span: u128 = (from - to) as u128;
        proof {
            lemma_scaled_part(span as int, num as int, den as int);
            assert(span * num <= 1_000_000 * 0x2_0000_0000_0000_0000_0000_0000) by (nonlinear_arith)
                requires
                    0 <= span <= 1_000_000,
                    0 <= num <= 0x2_0000_0000_0000_0000_0000_0000,
            ;
        }
        let part: u128 = span * num / den;
        from - part as u32
    }
}

/// The level `num / den` of the way from `from` to `to` along the half
/// cosine.
fn ease_levels(from: u32, to: u32, num: u128, den: u128) -> (level: u32)
    requires
        from <= FULL,
        to <= FULL,
        num <= den,
        0 < den <= FRACTION_LIMIT,
    ensures
        level == eased(from as int, to as int, num as int, den as int),
        between(from as int, to as int, level as int),
        level <= FULL,
{
    proof {
        lemma_fraction(num as int, den as int);
        lemma_eased_between(from as int, to as int, num as int, den as int);
        assert(num * UNIT <= 0x2_0000_0000_0000_0000_0000_0000 * 1_000_000_000) by (nonlinear_arith)
            requires
                0 <= num <= 0x2_0000_0000_0000_0000_0000_0000,
                UNIT == 1_000_000_000,
        ;
    }
    let x: u128 = num * (UNIT as u128) / den;
    let w: u64 = half_cosine_weight(x as u64);
    if from <= to {
        let span: u64 = (to - from) as u64;
        proof {
            lemma_rounded_part(span as int, w as int);
        }
        from + ((span * w + UNIT / 2) / UNIT) as u32
    } else {
        let span: u64 = (from - to) as u64;
        proof {
            lemma_rounded_part(span as int, w as int);
        }
        from - ((span * w + UNIT / 2) / UNIT) as u32
    }
}

impl Transition {
    /// The level that the ramp has reached after `elapsed` of its time.
    pub open spec fn curve(&self, elapsed: int) -> int {
        match self.interpolation {
            TransitionInterpolation::Linear => mix(self.from@, self.to@, elapsed, self.time as int),
            TransitionInterpolation::Sine => eased(self.from@, self.to@, elapsed, self.time as int),
            TransitionInterpolation::LinearToAndBack(m) => there_and_back(
                false,
                self.from@,
                self.to@,
                m as int,
                elapsed,
                self.time as int,
            ),
            TransitionInterpolation::SineToAndBack(m) => there_and_back(
                true,
                self.from@,
                self.to@,
                m as int,
                elapsed,
                self.time as int,
            ),
        }
    }

    /// The level to put out `elapsed` after the ramp began, whatever its
    /// duration: a ramp that takes no time is at its target at once, and a
    /// ramp that has run out stays where its curve ends.
    pub open spec fn sampled(&self, elapsed: int) -> int {
        if self.time == 0 {
            self.to@
        } else if elapsed >= self.time {
            self.curve(self.time as int)
        } else {
            self.curve(elapsed)
        }
    }

    /// The strength to put out `elapsed` after the ramp began.
    pub open spec fn strength_at(&self, elapsed: int) -> Strength {
        Strength::from_level(self.sampled(elapsed))
    }

    /// Evaluates the curve `elapsed` nanoseconds into the ramp.
    pub fn value(&self, elapsed: u64) -> (s: Strength)
        requires
            0 < self.time,
            elapsed <= self.time,
        ensures
            s@ == self.curve(elapsed as int),
            between(self.from@, self.to@, s@),
    {
        let from = self.from.level();
        let to = self.to.level();
        let e = elapsed as u128;
        let d = self.time as u128;
        let level = match self.interpolation {
            TransitionInterpolation::Linear => mix_levels(from, to, e, d),
            TransitionInterpolation::Sine => ease_levels(from, to, e, d),
            TransitionInterpolation::LinearToAndBack(m) => {
                let (back, num, den) = leg(m, elapsed, self.time);
                if back {
                    mix_levels(to, from, num, den)
                } else {
                    mix_levels(from, to, num, den)
                }
            },
            TransitionInterpolation::SineToAndBack(m) => {
                let (back, num, den) = leg(m, elapsed, self.time);
                if back {
                    ease_levels(to, from, num, den)
                } else {
                    ease_levels(from, to, num, den)
                }
            },
        };
        Strength::new(level as i64)
    }

    /// Evaluates the ramp `elapsed` nanoseconds after it began, for any
    /// `elapsed` and any duration.
    pub fn sample(&self, elapsed: u64) -> (s: Strength)
        ensures
            s@ == self.sampled(elapsed as int),
            s == self.strength_at(elapsed as int),
            between(self.from@, self.to@, s@),
    {
        let s = if self.time == 0 {
            self.to
        } else if elapsed >= self.time {
            self.value(self.time)
        } else {
            self.value(elapsed)
        };
        proof {
            s.lemma_from_level();
        }
        s
    }
}

/// A straight ramp and an eased ramp start exactly at `from` and end exactly
/// at `to`.
pub proof fn lemma_ramp_reaches_both_ends(t: Transition)
    requires
        0 < t.time,
        t.interpolation is Linear || t.interpolation is Sine,
    ensures
        t.curve(0) == t.from@,
        t.curve(t.time as int) == t.to@,
{
    lemma_mix_between(t.from@, t.to@, 0, t.time as int);
    lemma_eased_between(t.from@, t.to@, 0, t.time as int);
}

proof fn lemma_part_grows(a: int, earlier: int, later: int, den: int)
    by (nonlinear_arith)
    requires
        0 <= a,
        0 <= earlier <= later,
        0 < den,
    ensures
        a * earlier / den <= a * later / den,
{
}

/// A straight ramp never turns back: as time goes on, its level moves
/// towards its target or stays.
pub proof fn lemma_linear_never_turns_back(t: Transition, earlier: int, later: int)
    requires
        0 < t.time,
        t.interpolation is Linear,
        0 <= earlier <= later <= t.time,
    ensures
        t.from@ <= t.to@ ==> t.curve(earlier) <= t.curve(later),
        t.from@ >= t.to@ ==> t.curve(earlier) >= t.curve(later),
{
    if t.from@ <= t.to@ {
        lemma_part_grows(t.to@ - t.from@, earlier, later, t.time as int);
    }
    if t.from@ >= t.to@ {
        lemma_part_grows(t.from@ - t.to@, earlier, later, t.time as int);
    }
}

/// A there-and-back ramp with a multiplier above nothing starts at `from`
/// and is back at `from` when its time is up.
pub proof fn lemma_there_and_back_returns(t: Transition)
    requires
        0 < t.time,
        t.interpolation.multiplier() matches Some(m) && m > 0,
    ensures
        t.curve(0) == t.from@,
        t.curve(t.time as int) == t.from@,
{
    let m = t.interpolation.multiplier()->Some_0;
    let time = t.time as int;
    lemma_legs(m, 0, time);
    lemma_legs(m, time, time);
    lemma_mix_between(t.from@, t.to@, 0, m * time);
    lemma_eased_between(t.from@, t.to@, 0, m * time);
    lemma_mix_between(t.to@, t.from@, EVEN * time, EVEN * time);
    lemma_eased_between(t.to@, t.from@, EVEN * time, EVEN * time);
}

/// Whatever its shape and its duration, and however late it is sampled, a
/// ramp never puts out a level beyond the range that its two ends span.
pub proof fn lemma_sample_stays_between_ends(t: Transition, elapsed: int)
    requires
        0 <= elapsed,
    ensures
        between(t.from@, t.to@, t.sampled(elapsed)),
{
    if t.time > 0 {
        if elapsed >= t.time {
            lemma_curve_stays_between_ends(t, t.time as int);
        } else {
            lemma_curve_stays_between_ends(t, elapsed);
        }
    }
}

/// Whatever its shape, a ramp never leaves the range that its two ends span.
pub proof fn lemma_curve_stays_between_ends(t: Transition, elapsed: int)
    requires
        0 < t.time,
        0 <= elapsed <= t.time,
    ensures
        between(t.from@, t.to@, t.curve(elapsed)),
{
    let time = t.time as int;
    match t.interpolation {
        TransitionInterpolation::Linear => {
            lemma_mix_between(t.from@, t.to@, elapsed, time);
        },
        TransitionInterpolation::Sine => {
            lemma_eased_between(t.from@, t.to@, elapsed, time);
        },
        TransitionInterpolation::LinearToAndBack(m) => {
            lemma_there_and_back_between(false, t.from@, t.to@, m as int, elapsed, time);
        },
        TransitionInterpolation::SineToAndBack(m) => {
            lemma_there_and_back_between(true, t.from@, t.to@, m as int, elapsed, time);
        },
    }
}

proof fn lemma_there_and_back_between(sine: bool, from: int, to: int, m: int, elapsed: int, time: int)
    requires
        0 <= m,
        0 < time,
        0 <= elapsed <= time,
    ensures
        between(from, to, there_and_back(sine, from, to, m, elapsed, time)),
{
    lemma_legs(m, elapsed, time);
    if outbound(m, elapsed, time) {
        lemma_mix_between(from, to, elapsed * (m + EVEN), m * time);
        lemma_eased_between(from, to, elapsed * (m + EVEN), m * time);
    } else {
        lemma_mix_between(to, from, elapsed * (m + EVEN) - m * time, EVEN * time);
        lemma_eased_between(to, from, elapsed * (m + EVEN) - m * time, EVEN * time);
    }
}

/// Which leg of a there-and-back ramp `elapsed` falls on (`true` for the way
/// back), and how far along that leg it is, as a fraction.
fn leg(m: u32, elapsed: u64, time: u64) -> (r: (bool, u128, u128))
    requires
        0 < time,
        elapsed <= time,
    ensures
        r.0 == !outbound(m as int, elapsed as int, time as int),
        !r.0 ==> r.1 == elapsed * (m + EVEN) && r.2 == m * time,
        r.0 ==> r.1 == elapsed * (m + EVEN) - m * time && r.2 == EVEN * time,
        r.1 <= r.2,
        0 < r.2 <= FRACTION_LIMIT,
{
    proof {
        lemma_legs(m as int, elapsed as int, time as int);
        assert(elapsed * (m + EVEN) <= 0xffff_ffff_ffff_ffff * 0x1_0000_03e7) by (nonlinear_arith)
            requires
                0 <= elapsed <= 0xffff_ffff_ffff_ffff,
                0 <= m + EVEN <= 0x1_0000_03e7,
        ;
        assert(m * time <= 0xffff_ffff * 0xffff_ffff_ffff_ffff) by (nonlinear_arith)
            requires
                0 <= m <= 0xffff_ffff,
                0 <= time <= 0xffff_ffff_ffff_ffff,
        ;
        assert(EVEN * time <= 1000 * 0xffff_ffff_ffff_ffff) by (nonlinear_arith)
            requires
                EVEN == 1000,
                0 <= time <= 0xffff_ffff_ffff_ffff,
        ;
    }
    let run: u128 = (elapsed as u128) * (m as u128 + EVEN as u128);
    let out: u128 = (m as u128) * (time as u128);
    if run < out {
        (false, run, out)
    } else {
        (true, run - out, (EVEN as u128) * (time as u128))
    }
}

} // verus!

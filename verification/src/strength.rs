//! How strongly the output is driven, as a fixed-point level, and what that
//! level means to a pulse-width output and to a gauge.

use vstd::prelude::*;

verus! {

/// The level that stands for full output: levels count millionths.
pub const FULL: u32 = 1_000_000;

/// The period of the pulses that drive the output, in microseconds.
pub const PULSE_PERIOD_MICROS: u64 = 10_000;

/// The highest reading of the gauge that shows the strength last asked for.
pub const GAUGE_FULL: u8 = 255;

/// The level nearest to `value` that a strength can hold.
pub open spec fn clamped(value: int) -> int {
    if value < 0 {
        0
    } else if value > FULL {
        FULL as int
    } else {
        value
    }
}

/// How strongly the output is driven, from dark (0) to full (`FULL`).
///
/// The level is a fixed-point number of millionths, so that every value can
/// be compared and interpolated exactly.
#[derive(Clone, Copy, Debug, PartialEq, Eq, Structural, PartialOrd, Ord, Hash)]
pub struct Strength {
    level: u32,
}

impl View for Strength {
    type V = int;

    closed spec fn view(&self) -> int {
        self.level as int
    }
}

impl Strength {
    /// Whether the level lies between dark and full. Every strength that
    /// the program holds does.
    #[verifier::type_invariant]
    pub closed spec fn in_range(self) -> bool {
        self.level <= FULL
    }

    /// Takes a level that is known to lie between dark and full.
    pub fn new(value: i64) -> (s: Strength)
        requires
            0 <= value <= FULL,
        ensures
            s@ == value,
    {
        Strength { level: value as u32 }
    }

    /// Takes any level, and gives nothing for one that lies outside the
    /// range.
    pub fn checked(value: i64) -> (s: Option<Strength>)
        ensures
            s == if 0 <= value <= FULL {
                Some(Strength::from_level(value as int))
            } else {
                None
            },
    {
        if 0 <= value && value <= FULL as i64 {
            Some(Strength { level: value as u32 })
        } else {
            None
        }
    }

    /// Takes any level, and pulls one that lies outside the range to the
    /// nearer end of it.
    pub fn new_clamped(value: i64) -> (s: Strength)
        ensures
            s@ == clamped(value as int),
    {
        if value < 0 {
            Strength { level: 0 }
        } else if value > FULL as i64 {
            Strength { level: FULL }
        } else {
            Strength { level: value as u32 }
        }
    }

    /// The strength whose level is `level`.
    pub closed spec fn from_level(level: int) -> Strength {
        Strength { level: level as u32 }
    }

    /// A strength is known by its level.
    pub proof fn lemma_from_level(self)
        ensures
            Strength::from_level(self@) == self,
    {
    }

    /// Every level between dark and full is the level of a strength.
    pub proof fn lemma_level_of(level: int)
        requires
            0 <= level <= FULL,
        ensures
            Strength::from_level(level)@ == level,
            Strength::from_level(level).in_range(),
    {
    }

    /// A strength in range has a level between dark and full.
    pub proof fn lemma_in_range(self)
        requires
            self.in_range(),
        ensures
            0 <= self@ <= FULL,
    {
    }

    /// How long the pulse that drives the output is high within one period
    /// of `PULSE_PERIOD_MICROS`, in microseconds.
    pub fn pulse_width_micros(&self) -> (width: u64)
        ensures
            width == pulse_width(self@),
            width <= PULSE_PERIOD_MICROS,
    {
        let level = self.level() as u64;
        (level * PULSE_PERIOD_MICROS + FULL as u64 / 2) / FULL as u64
    }

    /// The level in millionths of full output.
    pub fn level(&self) -> (l: u32)
        ensures
            l == self@,
            l <= FULL,
    {
        proof {
            use_type_invariant(self);
        }
        self.level
    }
}

/// How long the pulse is high within one period at the level `level`, in
/// microseconds, rounded to the nearest.
pub open spec fn pulse_width(level: int) -> int {
    (level * PULSE_PERIOD_MICROS + FULL / 2) / (FULL as int)
}

/// Where `value`, in millionths, comes to lie on a scale from `min` to
/// `max`: at `min` if it is below `min`, at `max` if it is above `max`, and
/// else at that many millionths of `max`, rounded down.
pub open spec fn mapped(value: int, min: int, max: int) -> int {
    if value < min * FULL {
        min
    } else if value > max * FULL {
        max
    } else {
        value * max / (FULL as int)
    }
}

/// What the gauge reads for a strength of `value` millionths that was asked
/// for, whether or not it lies in the range.
pub open spec fn gauge_reading(value: int) -> int {
    if mapped(value, 0, GAUGE_FULL as int) > GAUGE_FULL {
        GAUGE_FULL as int
    } else {
        mapped(value, 0, GAUGE_FULL as int)
    }
}

/// Places `value`, in millionths, on a scale from `min` to `max`.
pub fn clamp_map_from_0_to_1(value: i64, min: u8, max: u8) -> (place: u64)
    ensures
        place == mapped(value as int, min as int, max as int),
{
    let scale = FULL as i64;
    if value < min as i64 * scale {
        min as u64
    } else if value > max as i64 * scale {
        max as u64
    } else {
        assert(0 <= value * max <= 255_000_000 * 255) by (nonlinear_arith)
            requires
                0 <= value <= 255_000_000,
                0 <= max <= 255,
        ;
        (value * max as i64 / scale) as u64
    }
}

/// Reads the gauge for a strength of `value` millionths that was asked for.
pub fn gauge(value: i64) -> (reading: u8)
    ensures
        reading == gauge_reading(value as int),
{
    let place = clamp_map_from_0_to_1(value, 0, GAUGE_FULL);
    if place > GAUGE_FULL as u64 {
        GAUGE_FULL
    } else {
        place as u8
    }
}

} // verus!

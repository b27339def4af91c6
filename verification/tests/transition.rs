use pwm_dev::strength::Strength;
use pwm_dev::transition::{Transition, TransitionInterpolation};

const SECOND: u64 = 1_000_000_000;

fn ramp(from: i64, to: i64, time: u64, interpolation: TransitionInterpolation) -> Transition {
    Transition { from: Strength::new(from), to: Strength::new(to), time, interpolation }
}

fn half_cosine(fraction: f64) -> f64 {
    (1.0 - (std::f64::consts::PI * fraction).cos()) / 2.0
}

#[test]
fn linear_follows_the_straight_line() {
    let up = ramp(0, 1_000_000, 30 * SECOND, TransitionInterpolation::Linear);
    assert_eq!(up.value(0).level(), 0);
    assert_eq!(up.value(1).level(), 0);
    assert_eq!(up.value(10 * SECOND).level(), 333_333);
    assert_eq!(up.value(15 * SECOND).level(), 500_000);
    assert_eq!(up.value(20 * SECOND).level(), 666_666);
    assert_eq!(up.value(30 * SECOND - 1).level(), 999_999);
    assert_eq!(up.value(30 * SECOND).level(), 1_000_000);
}

#[test]
fn linear_runs_downwards_too() {
    let down = ramp(900_000, 100_000, 8 * SECOND, TransitionInterpolation::Linear);
    assert_eq!(down.value(0).level(), 900_000);
    assert_eq!(down.value(2 * SECOND).level(), 700_000);
    assert_eq!(down.value(3 * SECOND).level(), 600_000);
    assert_eq!(down.value(8 * SECOND).level(), 100_000);
    let thirds = ramp(1_000_000, 0, 3 * SECOND, TransitionInterpolation::Linear);
    assert_eq!(thirds.value(SECOND).level(), 666_667);
}

#[test]
fn linear_and_sine_reach_both_ends_exactly() {
    for &(from, to) in &[(0, 1_000_000), (1_000_000, 0), (123_456, 654_321), (5, 5)] {
        for &time in &[1, 7, SECOND, u64::MAX] {
            for shape in [TransitionInterpolation::Linear, TransitionInterpolation::Sine] {
                let t = ramp(from, to, time, shape);
                assert_eq!(t.value(0).level() as i64, from);
                assert_eq!(t.value(time).level() as i64, to);
            }
        }
    }
}

#[test]
fn sine_is_the_half_cosine() {
    let t = ramp(0, 1_000_000, 1_000, TransitionInterpolation::Sine);
    assert_eq!(t.value(500).level(), 500_000);
    for step in 0..=1_000u64 {
        let expected = half_cosine(step as f64 / 1_000.0) * 1_000_000.0;
        let got = t.value(step).level() as f64;
        assert!((got - expected).abs() <= 0.51, "at {}: {} for {}", step, got, expected);
    }
}

#[test]
fn sine_starts_and_ends_slowly() {
    let t = ramp(0, 1_000_000, 100, TransitionInterpolation::Sine);
    assert_eq!(t.value(1).level(), 247);
    assert_eq!(t.value(25).level(), 146_447);
    assert_eq!(t.value(75).level(), 853_553);
    assert_eq!(t.value(99).level(), 999_753);
}

#[test]
fn sine_never_turns_back() {
    let t = ramp(200_000, 800_000, 100_000, TransitionInterpolation::Sine);
    let mut last = t.value(0).level();
    for step in 1..=100_000u64 {
        let level = t.value(step).level();
        assert!(level >= last);
        last = level;
    }
    assert_eq!(last, 800_000);
}

#[test]
fn there_and_back_with_even_legs() {
    let t = ramp(0, 1_000_000, 10 * SECOND, TransitionInterpolation::LinearToAndBack(1_000));
    assert_eq!(t.value(0).level(), 0);
    assert_eq!(t.value(SECOND).level(), 200_000);
    assert_eq!(t.value(5 * SECOND / 2).level(), 500_000);
    assert_eq!(t.value(5 * SECOND).level(), 1_000_000);
    assert_eq!(t.value(15 * SECOND / 2).level(), 500_000);
    assert_eq!(t.value(9 * SECOND).level(), 200_000);
    assert_eq!(t.value(10 * SECOND).level(), 0);
}

#[test]
fn there_and_back_with_a_short_way_out() {
    let t = ramp(0, 1_000_000, 9 * SECOND, TransitionInterpolation::LinearToAndBack(500));
    assert_eq!(t.value(0).level(), 0);
    assert_eq!(t.value(3 * SECOND / 2).level(), 500_000);
    assert_eq!(t.value(3 * SECOND).level(), 1_000_000);
    assert_eq!(t.value(6 * SECOND).level(), 500_000);
    assert_eq!(t.value(9 * SECOND).level(), 0);
}

#[test]
fn there_and_back_with_a_long_way_out() {
    let t = ramp(100_000, 500_000, 4 * SECOND, TransitionInterpolation::LinearToAndBack(3_000));
    assert_eq!(t.value(0).level(), 100_000);
    assert_eq!(t.value(3 * SECOND / 2).level(), 300_000);
    assert_eq!(t.value(3 * SECOND).level(), 500_000);
    assert_eq!(t.value(7 * SECOND / 2).level(), 300_000);
    assert_eq!(t.value(4 * SECOND).level(), 100_000);
}

#[test]
fn there_and_back_returns_to_the_start() {
    for &m in &[1u32, 500, 1_000, 2_000, u32::MAX] {
        for &time in &[1, 3, SECOND, u64::MAX] {
            for shape in [
                TransitionInterpolation::LinearToAndBack(m),
                TransitionInterpolation::SineToAndBack(m),
            ] {
                let t = ramp(250_000, 750_000, time, shape);
                assert_eq!(t.value(0).level(), 250_000);
                assert_eq!(t.value(time).level(), 250_000);
            }
        }
    }
}

#[test]
fn there_and_back_without_a_way_out_starts_at_the_target() {
    let t = ramp(0, 1_000_000, 10 * SECOND, TransitionInterpolation::LinearToAndBack(0));
    assert_eq!(t.value(0).level(), 1_000_000);
    assert_eq!(t.value(5 * SECOND).level(), 500_000);
    assert_eq!(t.value(10 * SECOND).level(), 0);
}

#[test]
fn sine_there_and_back_eases_each_leg() {
    let t = ramp(0, 1_000_000, 8 * SECOND, TransitionInterpolation::SineToAndBack(1_000));
    assert_eq!(t.value(0).level(), 0);
    assert_eq!(t.value(SECOND).level(), 146_447);
    assert_eq!(t.value(2 * SECOND).level(), 500_000);
    assert_eq!(t.value(4 * SECOND).level(), 1_000_000);
    assert_eq!(t.value(6 * SECOND).level(), 500_000);
    assert_eq!(t.value(7 * SECOND).level(), 146_447);
    assert_eq!(t.value(8 * SECOND).level(), 0);
}

#[test]
fn every_shape_stays_between_its_ends() {
    let shapes = [
        TransitionInterpolation::Linear,
        TransitionInterpolation::Sine,
        TransitionInterpolation::LinearToAndBack(700),
        TransitionInterpolation::SineToAndBack(1_300),
    ];
    for shape in shapes {
        for &(from, to) in &[(100_000u32, 900_000u32), (900_000, 100_000)] {
            let t = ramp(from as i64, to as i64, 997, shape);
            for step in 0..=997u64 {
                let level = t.value(step).level();
                assert!(from.min(to) <= level && level <= from.max(to));
            }
        }
    }
}

#[test]
fn sample_guards_the_edges() {
    let jump = ramp(100_000, 900_000, 0, TransitionInterpolation::Sine);
    assert_eq!(jump.sample(0).level(), 900_000);
    assert_eq!(jump.sample(12).level(), 900_000);
    let line = ramp(100_000, 900_000, 4, TransitionInterpolation::Linear);
    assert_eq!(line.sample(0).level(), 100_000);
    assert_eq!(line.sample(1).level(), 300_000);
    assert_eq!(line.sample(4).level(), 900_000);
    assert_eq!(line.sample(5).level(), 900_000);
    assert_eq!(line.sample(u64::MAX).level(), 900_000);
    let back = ramp(100_000, 900_000, 4, TransitionInterpolation::LinearToAndBack(1_000));
    assert_eq!(back.sample(2).level(), 900_000);
    assert_eq!(back.sample(9).level(), 100_000);
}

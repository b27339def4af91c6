use pwm_dev::control::{ControlLoop, Sleeping, Turn, POLL_INTERVAL};
use pwm_dev::scheduler::{RepeatingScheduler, WeekScheduler};
use pwm_dev::strength::Strength;
use pwm_dev::time::{Day, Moment, TimeOfDay};
use pwm_dev::{Command, Transition, TransitionInterpolation};

const SECOND: u64 = 1_000_000_000;
const MILLI: u64 = 1_000_000;

fn at(hour: u32, min: u32, sec: u32) -> TimeOfDay {
    TimeOfDay::from_hms(hour, min, sec).unwrap()
}

fn sunrise() -> Transition {
    Transition {
        from: Strength::new(0),
        to: Strength::new(1_000_000),
        time: 30 * SECOND,
        interpolation: TransitionInterpolation::Linear,
    }
}

struct Bench {
    control: ControlLoop<RepeatingScheduler>,
    now: u64,
    mailbox: Vec<(u64, Command<RepeatingScheduler>)>,
    written: Vec<(u64, u32)>,
    stopped: bool,
}

fn bench(start: Moment) -> Bench {
    Bench {
        control: ControlLoop::new(WeekScheduler::same(at(8, 47, 0)), sunrise(), start),
        now: start.nanos,
        mailbox: Vec::new(),
        written: Vec::new(),
        stopped: false,
    }
}

fn run_until(bench: &mut Bench, until: Moment) {
    while !bench.stopped {
        let received = if !bench.mailbox.is_empty() && bench.mailbox[0].0 <= bench.now {
            Some(bench.mailbox.remove(0).1)
        } else {
            None
        };
        match bench.control.turn(Moment::new(bench.now), received) {
            Turn::Nap => {
                if bench.now >= until.nanos {
                    return;
                }
                bench.now = (bench.now + POLL_INTERVAL).min(until.nanos);
            }
            Turn::Again => {}
            Turn::Output(strength) => bench.written.push((bench.now, strength.level())),
            Turn::Stop => bench.stopped = true,
        }
    }
}

#[test]
fn the_week_schedule_ramps_the_output_up() {
    let start = Moment::on(Day::Monday, at(8, 46, 50));
    let due = Moment::on(Day::Monday, at(8, 47, 0));
    let mut bench = bench(start);
    run_until(&mut bench, due.later(0).later(0));
    assert_eq!(bench.written, vec![(due.nanos, 0)]);
    run_until(&mut bench, Moment::on(Day::Monday, at(8, 47, 15)));
    assert_eq!(bench.written.last(), Some(&(due.nanos + 15 * SECOND, 500_000)));
    let held = bench.written.last().unwrap().1 as f64 / 1_000_000.0;
    assert!((held - 0.5).abs() < 1e-6);
    run_until(&mut bench, Moment::on(Day::Monday, at(8, 47, 30)));
    assert_eq!(bench.written.last(), Some(&(due.nanos + 30 * SECOND, 1_000_000)));
    let samples = bench.written.len();
    assert_eq!(samples, 751);
    run_until(&mut bench, Moment::on(Day::Monday, at(8, 48, 0)));
    assert_eq!(bench.written.len(), samples);
    assert_eq!(
        bench.control.sleeping(),
        Sleeping::To(Moment::on(Day::Tuesday, at(8, 47, 0)))
    );
    assert!(!bench.stopped);
}

#[test]
fn the_output_never_leaves_the_range_of_the_ramp() {
    let start = Moment::on(Day::Monday, at(8, 46, 59));
    let mut bench = bench(start);
    run_until(&mut bench, Moment::on(Day::Monday, at(8, 47, 31)));
    let mut last = 0;
    for &(_, level) in &bench.written {
        assert!(level >= last && level <= 1_000_000);
        last = level;
    }
    assert_eq!(last, 1_000_000);
}

#[test]
fn a_command_interrupts_the_rest() {
    let start = Moment::on(Day::Monday, at(9, 0, 0));
    let mut bench = bench(start);
    bench.mailbox.push((start.nanos + 5 * MILLI, Command::SetImmediate(Strength::new(300_000))));
    run_until(&mut bench, start.later(SECOND));
    assert_eq!(bench.written, vec![(start.nanos + 5 * MILLI, 300_000)]);
    assert_eq!(
        bench.control.sleeping(),
        Sleeping::To(Moment::on(Day::Tuesday, at(8, 47, 0)))
    );
}

#[test]
fn commands_are_taken_in_the_order_they_were_sent() {
    let start = Moment::on(Day::Monday, at(9, 0, 0));
    let mut bench = bench(start);
    bench.mailbox.push((start.nanos, Command::SetImmediate(Strength::new(1))));
    bench.mailbox.push((start.nanos, Command::SetImmediate(Strength::new(2))));
    bench.mailbox.push((start.nanos, Command::SetImmediate(Strength::new(3))));
    run_until(&mut bench, start.later(MILLI));
    assert_eq!(
        bench.written,
        vec![(start.nanos, 1), (start.nanos, 2), (start.nanos, 3)]
    );
}

#[test]
fn finish_in_the_middle_of_a_ramp_leaves_the_last_sample() {
    let start = Moment::on(Day::Monday, at(9, 0, 0));
    let mut bench = bench(start);
    let ramp = Transition {
        from: Strength::new(0),
        to: Strength::new(1_000_000),
        time: 10 * SECOND,
        interpolation: TransitionInterpolation::Linear,
    };
    bench.mailbox.push((start.nanos, Command::SetTransition(ramp)));
    bench.mailbox.push((start.nanos + 3_333 * MILLI, Command::Finish));
    run_until(&mut bench, start.later(20 * SECOND));
    assert!(bench.stopped);
    assert_eq!(bench.now, start.nanos + 3_333 * MILLI);
    assert_eq!(bench.written.len(), 84);
    assert_eq!(bench.written.last(), Some(&(start.nanos + 3_320 * MILLI, 332_000)));
}

#[test]
fn a_loop_with_nothing_to_do_naps() {
    let start = Moment::on(Day::Monday, at(9, 0, 0));
    let mut control: ControlLoop<RepeatingScheduler> =
        ControlLoop::new(WeekScheduler::same(at(8, 47, 0)), sunrise(), start);
    assert_eq!(control.sleeping(), Sleeping::Wake);
    assert_eq!(control.turn(start, None), Turn::Again);
    let deadline = Moment::on(Day::Tuesday, at(8, 47, 0));
    assert_eq!(control.sleeping(), Sleeping::To(deadline));
    assert_eq!(control.turn(start.later(POLL_INTERVAL), None), Turn::Nap);
    assert_eq!(control.turn(Moment::new(deadline.nanos - 1), None), Turn::Nap);
    assert_eq!(control.turn(deadline, None), Turn::Output(Strength::new(0)));
    assert_eq!(control.sleeping(), Sleeping::Wake);
    assert_eq!(control.turn(deadline, Some(Command::Finish)), Turn::Stop);
}

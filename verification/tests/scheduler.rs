use pwm_dev::scheduler::{RepeatingScheduler, Scheduler, WeekScheduler};
use pwm_dev::time::{Day, Moment, TimeOfDay, NANOS_PER_DAY, NANOS_PER_WEEK};

const SECOND: u64 = 1_000_000_000;
const MINUTE: u64 = 60 * SECOND;
const HOUR: u64 = 60 * MINUTE;

fn at(hour: u32, min: u32, sec: u32) -> TimeOfDay {
    TimeOfDay::from_hms(hour, min, sec).unwrap()
}

fn week(current: Day) -> WeekScheduler {
    WeekScheduler { current, ..WeekScheduler::same(at(8, 47, 0)) }
}

#[test]
fn time_of_day_is_counted_from_midnight() {
    assert_eq!(at(0, 0, 0).nanos(), 0);
    assert_eq!(at(8, 47, 0).nanos(), 8 * HOUR + 47 * MINUTE);
    assert_eq!(at(23, 59, 59).nanos(), NANOS_PER_DAY - SECOND);
    assert_eq!(TimeOfDay::midnight(), at(0, 0, 0));
    assert!(TimeOfDay::from_hms(24, 0, 0).is_none());
    assert!(TimeOfDay::from_hms(0, 60, 0).is_none());
    assert!(TimeOfDay::from_hms(0, 0, 60).is_none());
    assert_eq!(TimeOfDay::from_nanos(NANOS_PER_DAY - 1).unwrap().nanos(), NANOS_PER_DAY - 1);
    assert!(TimeOfDay::from_nanos(NANOS_PER_DAY).is_none());
}

#[test]
fn days_follow_each_other_round_the_week() {
    assert_eq!(Day::Monday.next(), Day::Tuesday);
    assert_eq!(Day::Tuesday.next(), Day::Wednesday);
    assert_eq!(Day::Wednesday.next(), Day::Thursday);
    assert_eq!(Day::Thursday.next(), Day::Friday);
    assert_eq!(Day::Friday.next(), Day::Saturday);
    assert_eq!(Day::Saturday.next(), Day::Sunday);
    assert_eq!(Day::Sunday.next(), Day::Monday);
    for n in 0..30u64 {
        assert_eq!(Day::from_days_after_monday(n).days_from_monday(), n % 7);
    }
}

#[test]
fn a_moment_knows_its_day_and_time() {
    let m = Moment::on(Day::Thursday, at(13, 5, 9));
    assert_eq!(m.nanos, 3 * NANOS_PER_DAY + 13 * HOUR + 5 * MINUTE + 9 * SECOND);
    assert_eq!(m.day(), Day::Thursday);
    assert_eq!(m.time_of_day(), at(13, 5, 9));
    let next_week = m.later(NANOS_PER_WEEK);
    assert_eq!(next_week.day(), Day::Thursday);
    assert_eq!(next_week.time_of_day(), at(13, 5, 9));
    assert_eq!(next_week.since(m), NANOS_PER_WEEK);
    assert_eq!(m.since(next_week), 0);
    assert_eq!(Moment::new(u64::MAX - 1).later(5), Moment::new(u64::MAX));
}

#[test]
fn a_clock_is_read_as_a_moment() {
    assert_eq!(Moment::from_clock(0, 0, 0), Moment::new(0));
    assert_eq!(Moment::from_clock(3, 47_109, 5), Moment::on(Day::Thursday, at(13, 5, 9)).later(5));
    assert_eq!(
        Moment::from_clock(20_000, 86_399, 999_999_999),
        Moment::new(20_001 * NANOS_PER_DAY - 1)
    );
    assert_eq!(Moment::from_clock(1, 86_399, 1_500_000_000), Moment::new(2 * NANOS_PER_DAY - 1));
    assert_eq!(Moment::from_clock(1, 86_400, 0), Moment::new(2 * NANOS_PER_DAY - SECOND));
    assert_eq!(Moment::from_clock(u64::MAX, 0, 0), Moment::new(u64::MAX));
    assert_eq!(Moment::from_clock(213_503, 84_873, 709_551_615), Moment::new(u64::MAX));
    assert_eq!(Moment::from_clock(213_503, 84_873, 709_551_614), Moment::new(u64::MAX - 1));
    assert_eq!(Moment::from_clock(213_503, 84_873, 709_551_616), Moment::new(u64::MAX));
    assert_eq!(Moment::from_clock(213_504, 0, 0), Moment::new(u64::MAX));
    assert_eq!(Moment::from_clock(20_000, 0, 0).day(), Day::Tuesday);
}

#[test]
fn week_schedule_is_due_later_on_the_day_it_points_at() {
    let now = Moment::on(Day::Monday, at(8, 0, 0));
    assert_eq!(week(Day::Monday).next_fire(now), 47 * MINUTE);
    let late = Moment::on(Day::Monday, at(8, 46, 59));
    assert_eq!(week(Day::Monday).next_fire(late), SECOND);
}

#[test]
fn week_schedule_waits_a_week_once_the_time_has_come() {
    let now = Moment::on(Day::Monday, at(8, 47, 0));
    assert_eq!(week(Day::Monday).next_fire(now), NANOS_PER_WEEK);
    let after = Moment::on(Day::Monday, at(9, 0, 0));
    assert_eq!(week(Day::Monday).next_fire(after), NANOS_PER_WEEK - 13 * MINUTE);
}

#[test]
fn week_schedule_is_due_on_the_next_day_it_points_at() {
    let now = Moment::on(Day::Monday, at(8, 0, 0));
    assert_eq!(week(Day::Wednesday).next_fire(now), 2 * NANOS_PER_DAY + 47 * MINUTE);
    let sunday = Moment::on(Day::Sunday, at(23, 0, 0));
    assert_eq!(week(Day::Monday).next_fire(sunday), 9 * HOUR + 47 * MINUTE);
    assert_eq!(week(Day::Saturday).next_fire(sunday), 6 * NANOS_PER_DAY - 23 * HOUR + 8 * HOUR + 47 * MINUTE);
}

#[test]
fn week_schedule_is_always_due_within_the_week() {
    let days = [
        Day::Monday,
        Day::Tuesday,
        Day::Wednesday,
        Day::Thursday,
        Day::Friday,
        Day::Saturday,
        Day::Sunday,
    ];
    for current in days {
        for step in 0..(7 * 24 * 4) {
            let now = Moment::new(5 * NANOS_PER_WEEK + step * 15 * MINUTE);
            let span = week(current).next_fire(now);
            assert!(0 < span && span <= NANOS_PER_WEEK);
            let then = now.later(span);
            assert_eq!(then.day(), current);
            assert_eq!(then.time_of_day(), at(8, 47, 0));
        }
    }
}

#[test]
fn week_schedule_moves_on_by_one_day_when_it_fires() {
    let mut schedule = week(Day::Friday);
    let expected = [
        Day::Saturday,
        Day::Sunday,
        Day::Monday,
        Day::Tuesday,
        Day::Wednesday,
        Day::Thursday,
        Day::Friday,
    ];
    for day in expected {
        schedule = schedule.add().unwrap();
        assert_eq!(schedule.current, day);
        assert_eq!(*schedule.get(day), at(8, 47, 0));
    }
}

#[test]
fn week_schedule_keeps_a_time_for_each_day() {
    let mut schedule = WeekScheduler::same(at(7, 0, 0));
    assert_eq!(schedule.current, Day::Monday);
    schedule.set(Day::Saturday, at(10, 30, 0));
    schedule.set(Day::Sunday, at(11, 0, 0));
    assert_eq!(*schedule.get(Day::Monday), at(7, 0, 0));
    assert_eq!(*schedule.get(Day::Friday), at(7, 0, 0));
    assert_eq!(*schedule.get(Day::Saturday), at(10, 30, 0));
    assert_eq!(*schedule.get(Day::Sunday), at(11, 0, 0));
    assert_eq!(*schedule.get_next(), at(7, 0, 0));
    schedule.current = Day::Sunday;
    assert_eq!(*schedule.get_next(), at(11, 0, 0));
    let now = Moment::on(Day::Saturday, at(12, 0, 0));
    assert_eq!(schedule.next_fire(now), 23 * HOUR);
}

#[test]
fn week_schedule_aims_at_the_first_day_to_fire() {
    let schedule = week(Day::Thursday);
    let early = Moment::on(Day::Tuesday, at(8, 46, 0));
    assert_eq!(schedule.aimed_at(early).current, Day::Tuesday);
    let late = Moment::on(Day::Tuesday, at(8, 47, 0));
    assert_eq!(schedule.aimed_at(late).current, Day::Wednesday);
    let sunday = Moment::on(Day::Sunday, at(20, 0, 0));
    assert_eq!(schedule.aimed_at(sunday).current, Day::Monday);
}

#[test]
fn repeating_schedule_is_due_at_its_time_of_day() {
    let noon = RepeatingScheduler(at(12, 0, 0));
    assert_eq!(noon.next_fire(Moment::on(Day::Monday, at(8, 0, 0))), 4 * HOUR);
    assert_eq!(noon.next_fire(Moment::on(Day::Sunday, at(11, 59, 59))), SECOND);
    assert_eq!(noon.next_fire(Moment::on(Day::Friday, at(12, 0, 0))), NANOS_PER_DAY);
    assert_eq!(noon.next_fire(Moment::on(Day::Friday, at(13, 0, 0))), 23 * HOUR);
}

#[test]
fn repeating_schedule_is_spent_once_it_has_fired() {
    assert!(RepeatingScheduler(at(12, 0, 0)).add().is_none());
}

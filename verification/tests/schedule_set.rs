use pwm_dev::schedule_set::{Fired, ScheduleSet};
use pwm_dev::scheduler::{RepeatingScheduler, SleepTime, WeekScheduler};
use pwm_dev::time::{Day, Moment, TimeOfDay, NANOS_PER_DAY};

const SECOND: u64 = 1_000_000_000;
const MINUTE: u64 = 60 * SECOND;
const HOUR: u64 = 60 * MINUTE;

fn at(hour: u32, min: u32, sec: u32) -> TimeOfDay {
    TimeOfDay::from_hms(hour, min, sec).unwrap()
}

fn set_at(now: Moment) -> ScheduleSet<RepeatingScheduler> {
    ScheduleSet::new(WeekScheduler::same(at(8, 47, 0)), now)
}

#[test]
fn a_new_set_holds_the_week_schedule_alone() {
    let now = Moment::on(Day::Wednesday, at(8, 0, 0));
    let set = set_at(now);
    assert_eq!(set.auxiliary_len(), 0);
    assert_eq!(set.primary().current, Day::Wednesday);
    assert_eq!(set.primary_due(), Moment::on(Day::Wednesday, at(8, 47, 0)));
    assert_eq!(set.next_fire(now), SleepTime::Duration(47 * MINUTE));
}

#[test]
fn a_new_set_aims_at_tomorrow_once_today_has_passed() {
    let now = Moment::on(Day::Wednesday, at(9, 0, 0));
    let set = set_at(now);
    assert_eq!(set.primary().current, Day::Thursday);
    assert_eq!(set.primary_due(), Moment::on(Day::Thursday, at(8, 47, 0)));
    assert_eq!(set.next_fire(now), SleepTime::Duration(23 * HOUR + 47 * MINUTE));
}

#[test]
fn next_fire_counts_down_to_the_first_timer() {
    let start = Moment::on(Day::Monday, at(8, 0, 0));
    let mut set = set_at(start);
    set.insert(RepeatingScheduler(at(12, 0, 0)), start);
    set.insert(RepeatingScheduler(at(8, 30, 0)), start);
    set.insert(RepeatingScheduler(at(8, 40, 0)), start);
    assert_eq!(set.auxiliary_len(), 3);
    assert_eq!(set.next_fire(start), SleepTime::Duration(30 * MINUTE));
    assert_eq!(set.next_fire(start.later(10 * MINUTE)), SleepTime::Duration(20 * MINUTE));
    assert_eq!(set.next_fire(start.later(30 * MINUTE)), SleepTime::Duration(0));
    assert_eq!(set.next_fire(start.later(3 * HOUR)), SleepTime::Duration(0));
}

#[test]
fn clearing_keeps_the_week_schedule() {
    let now = Moment::on(Day::Monday, at(8, 0, 0));
    let mut set = set_at(now);
    let before = set.next_fire(now);
    set.insert(RepeatingScheduler(at(12, 0, 0)), now);
    assert_eq!(set.next_fire(now), before);
    set.clear_auxiliary();
    assert_eq!(set.auxiliary_len(), 0);
    assert_eq!(set.next_fire(now), before);
    assert_eq!(set.primary_due(), Moment::on(Day::Monday, at(8, 47, 0)));
    assert_eq!(*set.primary(), WeekScheduler::same(at(8, 47, 0)));
}

#[test]
fn clearing_an_added_timer_reverts_to_the_week_schedule() {
    let now = Moment::on(Day::Monday, at(9, 0, 0));
    let mut set = set_at(now);
    assert_eq!(set.next_fire(now), SleepTime::Duration(23 * HOUR + 47 * MINUTE));
    set.insert(RepeatingScheduler(at(12, 0, 0)), now);
    assert_eq!(set.next_fire(now), SleepTime::Duration(3 * HOUR));
    let later = now.later(HOUR);
    assert_eq!(set.next_fire(later), SleepTime::Duration(2 * HOUR));
    set.clear_auxiliary();
    assert_eq!(set.next_fire(later), SleepTime::Duration(22 * HOUR + 47 * MINUTE));
    assert_eq!(set.fire_due_entries(now.later(3 * HOUR)), Fired { primary: false, auxiliary: 0 });
}

#[test]
fn nothing_fires_before_its_time() {
    let now = Moment::on(Day::Monday, at(8, 0, 0));
    let mut set = set_at(now);
    set.insert(RepeatingScheduler(at(8, 30, 0)), now);
    let fired = set.fire_due_entries(now.later(30 * MINUTE - 1));
    assert_eq!(fired, Fired { primary: false, auxiliary: 0 });
    assert!(!fired.any());
    assert_eq!(set.auxiliary_len(), 1);
    assert_eq!(set.primary().current, Day::Monday);
}

#[test]
fn an_added_timer_fires_once_and_is_gone() {
    let now = Moment::on(Day::Monday, at(8, 0, 0));
    let mut set = set_at(now);
    set.insert(RepeatingScheduler(at(8, 30, 0)), now);
    set.insert(RepeatingScheduler(at(8, 40, 0)), now);
    let fired = set.fire_due_entries(now.later(30 * MINUTE));
    assert_eq!(fired, Fired { primary: false, auxiliary: 1 });
    assert!(fired.any());
    assert_eq!(set.auxiliary_len(), 1);
    assert_eq!(set.next_fire(now.later(30 * MINUTE)), SleepTime::Duration(10 * MINUTE));
    let fired = set.fire_due_entries(now.later(30 * MINUTE));
    assert_eq!(fired, Fired { primary: false, auxiliary: 0 });
}

#[test]
fn the_week_schedule_fires_and_moves_on() {
    let now = Moment::on(Day::Saturday, at(8, 0, 0));
    let mut set = set_at(now);
    set.insert(RepeatingScheduler(at(8, 47, 0)), now);
    let due = Moment::on(Day::Saturday, at(8, 47, 0));
    let fired = set.fire_due_entries(due);
    assert_eq!(fired, Fired { primary: true, auxiliary: 1 });
    assert_eq!(set.auxiliary_len(), 0);
    assert_eq!(set.primary().current, Day::Sunday);
    assert_eq!(set.primary_due(), Moment::on(Day::Sunday, at(8, 47, 0)));
    assert_eq!(set.next_fire(due), SleepTime::Duration(NANOS_PER_DAY));
    let fired = set.fire_due_entries(Moment::on(Day::Sunday, at(8, 47, 1)));
    assert_eq!(fired, Fired { primary: true, auxiliary: 0 });
    assert_eq!(set.primary().current, Day::Monday);
    assert_eq!(set.primary_due(), Moment::new(7 * NANOS_PER_DAY + 8 * HOUR + 47 * MINUTE));
}

#[test]
fn changing_the_day_that_fires_next_moves_the_firing() {
    let now = Moment::on(Day::Monday, at(8, 0, 0));
    let mut set = set_at(now);
    set.change_day_timer(Day::Monday, Some(at(8, 10, 0)), now);
    assert_eq!(*set.primary().get(Day::Monday), at(8, 10, 0));
    assert_eq!(*set.primary().get(Day::Tuesday), at(8, 47, 0));
    assert_eq!(set.primary_due(), Moment::on(Day::Monday, at(8, 10, 0)));
    assert_eq!(set.next_fire(now), SleepTime::Duration(10 * MINUTE));
}

#[test]
fn changing_another_day_leaves_the_firing() {
    let now = Moment::on(Day::Monday, at(8, 0, 0));
    let mut set = set_at(now);
    set.change_day_timer(Day::Friday, Some(at(6, 0, 0)), now.later(MINUTE));
    assert_eq!(*set.primary().get(Day::Friday), at(6, 0, 0));
    assert_eq!(set.primary_due(), Moment::on(Day::Monday, at(8, 47, 0)));
}

#[test]
fn changing_a_day_without_a_time_changes_nothing() {
    let now = Moment::on(Day::Monday, at(8, 0, 0));
    let mut set = set_at(now);
    set.change_day_timer(Day::Monday, None, now.later(MINUTE));
    assert_eq!(*set.primary(), WeekScheduler::same(at(8, 47, 0)));
    assert_eq!(set.primary_due(), Moment::on(Day::Monday, at(8, 47, 0)));
}

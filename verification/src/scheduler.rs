//! Timers: what every timer can do, the week schedule, and a timer for one
//! time of day.

use crate::time::{Day, Moment, TimeOfDay, NANOS_PER_DAY, NANOS_PER_WEEK};
use vstd::prelude::*;

verus! {

/// How long the control loop may rest before it has to look again.
#[derive(Debug, PartialEq, Eq, Structural, Clone, Copy, Hash)]
pub enum SleepTime {
    /// This many nanoseconds.
    Duration(u64),
    /// Until a command wakes it.
    Forever,
}

/// A timer that knows when it is next due and what becomes of it once it
/// has fired.
pub trait Scheduler: Sized {
    /// The nanoseconds from `now` to the next time the timer is due.
    spec fn span_until_next(&self, now: Moment) -> int;

    /// What takes the timer's place after it has fired: its renewed self, or
    /// nothing if it is spent.
    spec fn renewal(&self) -> Option<Self>;

    /// Fires the timer and hands back what takes its place.
    fn add(self) -> (renewed: Option<Self>)
        ensures
            renewed == self.renewal(),
    ;

    /// The nanoseconds from `now` to the next time the timer is due.
    fn next_fire(&self, now: Moment) -> (span: u64)
        ensures
            span == self.span_until_next(now),
    ;
}

/// The nanoseconds from `now` to the next moment at which it is `time` on a
/// `day`: later on the same day if `now` falls on a `day` before `time`,
/// else on the next `day` to come.
pub open spec fn span_to_weekly(day: Day, time: TimeOfDay, now: Moment) -> int {
    let ahead = (day.index() - now.weekday().index() + 7) % 7;
    let offset = ahead * NANOS_PER_DAY + time@ - now.since_midnight();
    if offset > 0 {
        offset
    } else {
        offset + NANOS_PER_WEEK
    }
}

/// The nanoseconds from `now` to the next moment at which it is `time`:
/// later on the same day if `now` is before `time`, else on the day after.
pub open spec fn span_to_daily(time: TimeOfDay, now: Moment) -> int {
    let offset = time@ - now.since_midnight();
    if offset > 0 {
        offset
    } else {
        offset + NANOS_PER_DAY
    }
}

/// A time of day for each day of the week, and the day that is to fire next.
#[derive(Debug, PartialEq, Eq, Structural, Clone, Copy, Hash)]
pub struct WeekScheduler {
    pub mon: TimeOfDay,
    pub tue: TimeOfDay,
    pub wed: TimeOfDay,
    pub thu: TimeOfDay,
    pub fri: TimeOfDay,
    pub sat: TimeOfDay,
    pub sun: TimeOfDay,
    pub current: Day,
}

impl WeekScheduler {
    /// The time of day kept for `day`.
    pub open spec fn time_on(&self, day: Day) -> TimeOfDay {
        match day {
            Day::Monday => self.mon,
            Day::Tuesday => self.tue,
            Day::Wednesday => self.wed,
            Day::Thursday => self.thu,
            Day::Friday => self.fri,
            Day::Saturday => self.sat,
            Day::Sunday => self.sun,
        }
    }

    /// The schedule with `time` kept for `day` and all else as it is.
    pub open spec fn with_time(self, day: Day, time: TimeOfDay) -> WeekScheduler {
        match day {
            Day::Monday => WeekScheduler { mon: time, ..self },
            Day::Tuesday => WeekScheduler { tue: time, ..self },
            Day::Wednesday => WeekScheduler { wed: time, ..self },
            Day::Thursday => WeekScheduler { thu: time, ..self },
            Day::Friday => WeekScheduler { fri: time, ..self },
            Day::Saturday => WeekScheduler { sat: time, ..self },
            Day::Sunday => WeekScheduler { sun: time, ..self },
        }
    }

    /// The first day whose time of day lies ahead of `now`: the day of `now`
    /// itself, or the day after it.
    pub open spec fn upcoming_day(&self, now: Moment) -> Day {
        if now.since_midnight() < self.time_on(now.weekday())@ {
            now.weekday()
        } else {
            now.weekday().following()
        }
    }

    /// The same time of day on every day, with Monday to fire next.
    pub fn same(time: TimeOfDay) -> (week: WeekScheduler)
        ensures
            forall|day: Day| week.time_on(day) == time,
            week.current == Day::Monday,
    {
        WeekScheduler {
            mon: time,
            tue: time,
            wed: time,
            thu: time,
            fri: time,
            sat: time,
            sun: time,
            current: Day::Monday,
        }
    }

    /// The time of day at which the schedule fires next.
    pub fn get_next(&self) -> (time: &TimeOfDay)
        ensures
            *time == self.time_on(self.current),
    {
        self.get(self.current)
    }

    /// The time of day kept for `day`.
    pub fn get(&self, day: Day) -> (time: &TimeOfDay)
        ensures
            *time == self.time_on(day),
    {
        match day {
            Day::Monday => &self.mon,
            Day::Tuesday => &self.tue,
            Day::Wednesday => &self.wed,
            Day::Thursday => &self.thu,
            Day::Friday => &self.fri,
            Day::Saturday => &self.sat,
            Day::Sunday => &self.sun,
        }
    }

    /// Keeps `time` for `day` from now on.
    pub fn set(&mut self, day: Day, time: TimeOfDay)
        ensures
            *final(self) == old(self).with_time(day, time),
    {
        match day {
            Day::Monday => self.mon = time,
            Day::Tuesday => self.tue = time,
            Day::Wednesday => self.wed = time,
            Day::Thursday => self.thu = time,
            Day::Friday => self.fri = time,
            Day::Saturday => self.sat = time,
            Day::Sunday => self.sun = time,
        }
    }

    /// The schedule with the first day to fire after `now` as the day that
    /// fires next.
    pub fn aimed_at(self, now: Moment) -> (week: WeekScheduler)
        ensures
            week == (WeekScheduler { current: self.upcoming_day(now), ..self }),
    {
        let today = now.day();
        let current = if now.time_of_day().nanos() < self.get(today).nanos() {
            today
        } else {
            today.next()
        };
        WeekScheduler { current, ..self }
    }
}

/// The nanoseconds from `now` to the next moment at which it is `time` on a
/// `day`.
fn until_weekly(day: Day, time: &TimeOfDay, now: Moment) -> (span: u64)
    ensures
        span == span_to_weekly(day, *time, now),
        0 < span <= NANOS_PER_WEEK,
{
    let today = now.day().days_from_monday();
    let ahead = (day.days_from_monday() + 7 - today) % 7;
    let passed = now.time_of_day().nanos();
    let target = ahead * NANOS_PER_DAY + time.nanos();
    if target > passed {
        target - passed
    } else {
        target + NANOS_PER_WEEK - passed
    }
}

impl Scheduler for WeekScheduler {
    open spec fn span_until_next(&self, now: Moment) -> int {
        span_to_weekly(self.current, self.time_on(self.current), now)
    }

    open spec fn renewal(&self) -> Option<Self> {
        Some(WeekScheduler { current: self.current.following(), ..*self })
    }

    /// Moves on to the following day. A week schedule is never spent.
    fn add(self) -> (renewed: Option<Self>) {
        Some(WeekScheduler { current: self.current.next(), ..self })
    }

    fn next_fire(&self, now: Moment) -> (span: u64)
        ensures
            0 < span <= NANOS_PER_WEEK,
    {
        until_weekly(self.current, self.get(self.current), now)
    }
}

/// One time of day, due on whichever day comes first.
#[derive(Debug, PartialEq, Eq, Structural, Clone, Copy, Hash, PartialOrd, Ord)]
pub struct RepeatingScheduler(pub TimeOfDay);

impl Scheduler for RepeatingScheduler {
    open spec fn span_until_next(&self, now: Moment) -> int {
        span_to_daily(self.0, now)
    }

    open spec fn renewal(&self) -> Option<Self> {
        None
    }

    /// Fires once: nothing takes the timer's place.
    fn add(self) -> (renewed: Option<Self>) {
        None
    }

    fn next_fire(&self, now: Moment) -> (span: u64)
        ensures
            0 < span <= NANOS_PER_DAY,
    {
        let passed = now.time_of_day().nanos();
        let target = self.0.nanos();
        if target > passed {
            target - passed
        } else {
            target + NANOS_PER_DAY - passed
        }
    }
}

/// A week schedule is due within the week to come, never at once, and each
/// firing moves it on by exactly one day, from Sunday round to Monday, with
/// its times of day as they were.
pub proof fn lemma_week_scheduler_fires_daily(week: WeekScheduler, now: Moment)
    requires
        week.time_on(week.current).within_day(),
    ensures
        0 < week.span_until_next(now) <= NANOS_PER_WEEK,
        week.renewal() matches Some(renewed) && renewed.current.index() == (week.current.index()
            + 1) % 7 && (forall|day: Day| renewed.time_on(day) == week.time_on(day)),
        week.current == Day::Sunday ==> week.renewal()->Some_0.current == Day::Monday,
{
    week.time_on(week.current).lemma_within_day();
}

} // verus!

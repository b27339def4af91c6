//! Days of the week, times of day and moments on the wall clock, all as
//! whole numbers of nanoseconds.

use vstd::prelude::*;

verus! {

/// The nanoseconds in a second.
pub const NANOS_PER_SECOND: u64 = 1_000_000_000;

/// The nanoseconds in a day of twenty-four hours.
pub const NANOS_PER_DAY: u64 = 86_400_000_000_000;

/// The nanoseconds in seven such days.
pub const NANOS_PER_WEEK: u64 = 604_800_000_000_000;

/// A day of the week.
#[derive(Debug, PartialEq, Eq, Structural, Clone, Copy, Hash)]
pub enum Day {
    Monday,
    Tuesday,
    Wednesday,
    Thursday,
    Friday,
    Saturday,
    Sunday,
}

impl Day {
    /// How many days after Monday the day comes.
    pub open spec fn index(self) -> int {
        match self {
            Day::Monday => 0,
            Day::Tuesday => 1,
            Day::Wednesday => 2,
            Day::Thursday => 3,
            Day::Friday => 4,
            Day::Saturday => 5,
            Day::Sunday => 6,
        }
    }

    /// The day that comes `index` days after a Monday.
    pub open spec fn at(index: int) -> Day {
        let i = index % 7;
        if i == 0 {
            Day::Monday
        } else if i == 1 {
            Day::Tuesday
        } else if i == 2 {
            Day::Wednesday
        } else if i == 3 {
            Day::Thursday
        } else if i == 4 {
            Day::Friday
        } else if i == 5 {
            Day::Saturday
        } else {
            Day::Sunday
        }
    }

    /// How many days after Monday the day comes.
    pub fn days_from_monday(self) -> (n: u64)
        ensures
            n == self.index(),
            n < 7,
    {
        match self {
            Day::Monday => 0,
            Day::Tuesday => 1,
            Day::Wednesday => 2,
            Day::Thursday => 3,
            Day::Friday => 4,
            Day::Saturday => 5,
            Day::Sunday => 6,
        }
    }

    /// The day that comes `n` days after a Monday.
    pub fn from_days_after_monday(n: u64) -> (day: Day)
        ensures
            day == Day::at(n as int),
            day.index() == n % 7,
    {
        let i: u64 = n % 7;
        if i == 0 {
            Day::Monday
        } else if i == 1 {
            Day::Tuesday
        } else if i == 2 {
            Day::Wednesday
        } else if i == 3 {
            Day::Thursday
        } else if i == 4 {
            Day::Friday
        } else if i == 5 {
            Day::Saturday
        } else {
            Day::Sunday
        }
    }

    /// The following day; after Sunday comes Monday.
    pub fn next(self) -> (day: Day)
        ensures
            day == self.following(),
    {
        match self {
            Day::Monday => Day::Tuesday,
            Day::Tuesday => Day::Wednesday,
            Day::Wednesday => Day::Thursday,
            Day::Thursday => Day::Friday,
            Day::Friday => Day::Saturday,
            Day::Saturday => Day::Sunday,
            Day::Sunday => Day::Monday,
        }
    }

    /// The following day; after Sunday comes Monday.
    pub open spec fn following(self) -> Day {
        Day::at(self.index() + 1)
    }
}

/// A time of day, to the nanosecond, counted from midnight.
#[derive(Debug, PartialEq, Eq, Structural, Clone, Copy, Hash, PartialOrd, Ord)]
pub struct TimeOfDay {
    nanos: u64,
}

impl View for TimeOfDay {
    type V = int;

    /// The nanoseconds since midnight.
    closed spec fn view(&self) -> int {
        self.nanos as int
    }
}

impl TimeOfDay {
    /// Whether the time lies before the next midnight. Every time of day
    /// that the program holds does.
    #[verifier::type_invariant]
    pub closed spec fn within_day(self) -> bool {
        self.nanos < NANOS_PER_DAY
    }

    /// The time of day `nanos` nanoseconds after midnight.
    pub closed spec fn at(nanos: int) -> TimeOfDay {
        TimeOfDay { nanos: nanos as u64 }
    }

    /// A time of day is known by its nanoseconds since midnight.
    pub proof fn lemma_at(self)
        ensures
            TimeOfDay::at(self@) == self,
    {
    }

    /// Every count of nanoseconds that a day holds is a time of day.
    pub proof fn lemma_at_nanos(nanos: int)
        requires
            0 <= nanos < NANOS_PER_DAY,
        ensures
            TimeOfDay::at(nanos)@ == nanos,
            TimeOfDay::at(nanos).within_day(),
    {
    }

    /// A time within the day counts fewer nanoseconds than a day holds.
    pub proof fn lemma_within_day(self)
        requires
            self.within_day(),
        ensures
            0 <= self@ < NANOS_PER_DAY,
    {
    }

    /// The time of day `nanos` nanoseconds after midnight, if the day is
    /// that long.
    pub fn from_nanos(nanos: u64) -> (time: Option<TimeOfDay>)
        ensures
            time == if nanos < NANOS_PER_DAY {
                Some(TimeOfDay::at(nanos as int))
            } else {
                None
            },
            time matches Some(t) ==> t@ == nanos,
    {
        if nanos < NANOS_PER_DAY {
            Some(TimeOfDay { nanos })
        } else {
            None
        }
    }

    /// The time of day at the given hour, minute and second, if there is
    /// such a time.
    pub fn from_hms(hour: u32, min: u32, sec: u32) -> (time: Option<TimeOfDay>)
        ensures
            time == if hour < 24 && min < 60 && sec < 60 {
                Some(TimeOfDay::at((hour * 3600 + min * 60 + sec) * NANOS_PER_SECOND))
            } else {
                None
            },
            time matches Some(t) ==> t@ == (hour * 3600 + min * 60 + sec) * NANOS_PER_SECOND,
    {
        if hour < 24 && min < 60 && sec < 60 {
            let secs: u64 = hour as u64 * 3600 + min as u64 * 60 + sec as u64;
            Some(TimeOfDay { nanos: secs * NANOS_PER_SECOND })
        } else {
            None
        }
    }

    /// Midnight.
    pub fn midnight() -> (time: TimeOfDay)
        ensures
            time@ == 0,
    {
        TimeOfDay { nanos: 0 }
    }

    /// The nanoseconds since midnight.
    pub fn nanos(&self) -> (n: u64)
        ensures
            n == self@,
            n < NANOS_PER_DAY,
    {
        proof {
            use_type_invariant(self);
        }
        self.nanos
    }
}

/// A point on the wall clock: the nanoseconds that have passed since the
/// midnight with which some Monday began.
#[derive(Debug, PartialEq, Eq, Structural, Clone, Copy, Hash, PartialOrd, Ord)]
pub struct Moment {
    pub nanos: u64,
}

impl View for Moment {
    type V = int;

    open spec fn view(&self) -> int {
        self.nanos as int
    }
}

impl Moment {
    /// The day of the week on which the moment falls.
    pub open spec fn weekday(self) -> Day {
        Day::at(self@ / (NANOS_PER_DAY as int))
    }

    /// The nanoseconds since the last midnight.
    pub open spec fn since_midnight(self) -> int {
        self@ % (NANOS_PER_DAY as int)
    }

    /// The moment `span` nanoseconds later, or the last moment that can be
    /// told if that lies beyond it.
    pub open spec fn plus(self, span: int) -> Moment {
        if self@ + span > u64::MAX {
            Moment { nanos: u64::MAX }
        } else {
            Moment { nanos: (self@ + span) as u64 }
        }
    }

    /// The moment that a clock shows, see `from_clock`.
    pub open spec fn shown(days: int, seconds: int, nanos: int) -> Moment {
        let seconds = if seconds < 86_400 {
            seconds
        } else {
            86_399
        };
        let nanos = if nanos < NANOS_PER_SECOND {
            nanos
        } else {
            NANOS_PER_SECOND - 1
        };
        Moment { nanos: 0 }.plus(days * NANOS_PER_DAY + seconds * NANOS_PER_SECOND + nanos)
    }

    /// The nanoseconds from `earlier` to this moment; nothing if `earlier`
    /// is in fact the later one.
    pub open spec fn minus(self, earlier: Moment) -> int {
        if self@ >= earlier@ {
            self@ - earlier@
        } else {
            0
        }
    }

    /// The moment `nanos` nanoseconds after that Monday began.
    pub fn new(nanos: u64) -> (moment: Moment)
        ensures
            moment@ == nanos,
    {
        Moment { nanos }
    }

    /// The moment at `time` on `day` of the week that begins at nanosecond
    /// zero.
    pub fn on(day: Day, time: TimeOfDay) -> (moment: Moment)
        ensures
            moment@ == day.index() * NANOS_PER_DAY + time@,
            moment.weekday() == day,
            moment.since_midnight() == time@,
    {
        let d = day.days_from_monday();
        let t = time.nanos();
        Moment { nanos: d * NANOS_PER_DAY + t }
    }

    /// The moment that a clock shows which counts `days` whole days since
    /// that Monday, `seconds` whole seconds since midnight and `nanos`
    /// nanoseconds on top. A clock that shows more seconds than a day holds,
    /// or a second's worth of nanoseconds, as clocks do in a leap second, is
    /// taken to show the last nanosecond of what it can hold.
    pub fn from_clock(days: u64, seconds: u32, nanos: u32) -> (moment: Moment)
        ensures
            moment == Moment::shown(days as int, seconds as int, nanos as int),
    {
        let seconds: u64 = if seconds < 86_400 {
            seconds as u64
        } else {
            86_399
        };
        let nanos: u64 = if (nanos as u64) < NANOS_PER_SECOND {
            nanos as u64
        } else {
            NANOS_PER_SECOND - 1
        };
        let since_midnight: u64 = seconds * NANOS_PER_SECOND + nanos;
        if days > (u64::MAX - since_midnight) / NANOS_PER_DAY {
            Moment { nanos: u64::MAX }
        } else {
            Moment { nanos: days * NANOS_PER_DAY + since_midnight }
        }
    }

    /// The day of the week on which the moment falls.
    pub fn day(&self) -> (day: Day)
        ensures
            day == self.weekday(),
    {
        Day::from_days_after_monday(self.nanos / NANOS_PER_DAY)
    }

    /// The time of day at the moment.
    pub fn time_of_day(&self) -> (time: TimeOfDay)
        ensures
            time@ == self.since_midnight(),
    {
        TimeOfDay { nanos: self.nanos % NANOS_PER_DAY }
    }

    /// The nanoseconds from `earlier` to this moment; nothing if `earlier`
    /// is in fact the later one.
    pub fn since(&self, earlier: Moment) -> (span: u64)
        ensures
            span == self.minus(earlier),
    {
        if self.nanos >= earlier.nanos {
            self.nanos - earlier.nanos
        } else {
            0
        }
    }

    /// The moment `span` nanoseconds later, or the last moment that can be
    /// told if that lies beyond it.
    pub fn later(&self, span: u64) -> (moment: Moment)
        ensures
            moment == self.plus(span as int),
    {
        if span > u64::MAX - self.nanos {
            Moment { nanos: u64::MAX }
        } else {
            Moment { nanos: self.nanos + span }
        }
    }
}

} // verus!

//! Requests as they arrive from outside, in words, and the commands and
//! ramps that they stand for. What cannot be read gives nothing, so that
//! the control loop never meets a command that it cannot act on.

use crate::command::Command;
use crate::decimal::{multiplier_written, read_multiplier};
use crate::strength::{Strength, FULL};
use crate::time::{Day, TimeOfDay, NANOS_PER_SECOND};
use crate::transition::{Transition, TransitionInterpolation};
use chrono::Timelike;
use vstd::prelude::*;
use vstd::string::StrSliceExecFns;

verus! {

/// Whether `c` is the lower-case letter `letter` or its capital.
pub open spec fn same_letter(c: char, letter: char) -> bool {
    c == letter || c as int + 32 == letter as int
}

/// Whether `text` spells the lower-case word `name`, in capitals, small
/// letters or any mixture of them.
pub open spec fn spells(text: Seq<char>, name: Seq<char>) -> bool {
    text.len() == name.len() && forall|i: int|
        0 <= i < text.len() ==> same_letter(#[trigger] text[i], name[i])
}

/// The day of the week that `text` names: its English name in full or cut
/// down to its first three letters, whatever the case of the letters.
pub open spec fn weekday_named(text: Seq<char>) -> Option<Day> {
    if spells(text, "mon"@) || spells(text, "monday"@) {
        Some(Day::Monday)
    } else if spells(text, "tue"@) || spells(text, "tuesday"@) {
        Some(Day::Tuesday)
    } else if spells(text, "wed"@) || spells(text, "wednesday"@) {
        Some(Day::Wednesday)
    } else if spells(text, "thu"@) || spells(text, "thursday"@) {
        Some(Day::Thursday)
    } else if spells(text, "fri"@) || spells(text, "friday"@) {
        Some(Day::Friday)
    } else if spells(text, "sat"@) || spells(text, "saturday"@) {
        Some(Day::Saturday)
    } else if spells(text, "sun"@) || spells(text, "sunday"@) {
        Some(Day::Sunday)
    } else {
        None
    }
}

/// What `chrono::NaiveTime::parse_from_str` makes of `text` under `format`:
/// the whole seconds since midnight and the nanoseconds on top of them, or
/// nothing where it reports an error.
pub uninterp spec fn time_parsed(text: Seq<char>, format: Seq<char>) -> Option<(u32, u32)>;

/// Calls `<chrono::Weekday as FromStr>::from_str`, which chrono documents
/// to take a weekday's full English name or its first three letters,
/// without regard to case, and nothing else.
#[verifier::external_body]
fn parse_weekday(text: &str) -> (day: Option<Day>)
    ensures
        day == weekday_named(text@),
{
    match text.parse::<chrono::Weekday>() {
        Ok(chrono::Weekday::Mon) => Some(Day::Monday),
        Ok(chrono::Weekday::Tue) => Some(Day::Tuesday),
        Ok(chrono::Weekday::Wed) => Some(Day::Wednesday),
        Ok(chrono::Weekday::Thu) => Some(Day::Thursday),
        Ok(chrono::Weekday::Fri) => Some(Day::Friday),
        Ok(chrono::Weekday::Sat) => Some(Day::Saturday),
        Ok(chrono::Weekday::Sun) => Some(Day::Sunday),
        Err(_) => None,
    }
}

/// Calls `chrono::NaiveTime::parse_from_str` and hands back the time that
/// it read as `num_seconds_from_midnight` and `nanosecond` give it. All
/// that is claimed is that the result depends on the two texts alone.
#[verifier::external_body]
fn parse_time(text: &str, format: &str) -> (time: Option<(u32, u32)>)
    ensures
        time == time_parsed(text@, format@),
{
    match chrono::NaiveTime::parse_from_str(text, format) {
        Ok(time) => Some((time.num_seconds_from_midnight(), time.nanosecond())),
        Err(_) => None,
    }
}

/// The time of day that is `secs` whole seconds and `nanos` nanoseconds
/// after midnight. Nanoseconds that make up a second or more, which is how
/// chrono writes a leap second, stand for the last nanosecond of the second
/// that they follow; seconds beyond those that a day holds stand for its
/// last second.
pub open spec fn time_of_parts(parts: Option<(u32, u32)>) -> Option<TimeOfDay> {
    match parts {
        Some((secs, nanos)) => {
            let secs = if secs < 86_400 {
                secs as int
            } else {
                86_399
            };
            let nanos = if nanos < NANOS_PER_SECOND {
                nanos as int
            } else {
                NANOS_PER_SECOND - 1
            };
            Some(TimeOfDay::at(secs * NANOS_PER_SECOND + nanos))
        },
        None => None,
    }
}

/// The time of day that `text` gives, read as hours, minutes and seconds
/// or, failing that, as hours and minutes.
pub open spec fn time_written(text: Seq<char>) -> Option<TimeOfDay> {
    if time_parsed(text, "%H:%M:%S"@) is Some {
        time_of_parts(time_parsed(text, "%H:%M:%S"@))
    } else {
        time_of_parts(time_parsed(text, "%H:%M"@))
    }
}

/// The command that a request to change a day's time stands for. `day` is
/// the day that the request named, if it named one. `time` is nothing if
/// the request gave no time, and else the time of day that it gave, if what
/// it gave was one.
pub open spec fn day_command<S>(day: Option<Day>, time: Option<Option<TimeOfDay>>) -> Option<
    Command<S>,
> {
    match (day, time) {
        (Some(day), None) => Some(Command::ChangeDayTimer(day, None)),
        (Some(day), Some(Some(time))) => Some(Command::ChangeDayTimer(day, Some(time))),
        _ => None,
    }
}

/// Makes a time of day of the seconds and nanoseconds that were read.
pub fn time_from_parts(parts: Option<(u32, u32)>) -> (time: Option<TimeOfDay>)
    ensures
        time == time_of_parts(parts),
{
    match parts {
        Some((secs, nanos)) => {
            let secs: u64 = if secs < 86_400 {
                secs as u64
            } else {
                86_399
            };
            let nanos: u64 = if (nanos as u64) < NANOS_PER_SECOND {
                nanos as u64
            } else {
                NANOS_PER_SECOND - 1
            };
            TimeOfDay::from_nanos(secs * NANOS_PER_SECOND + nanos)
        },
        None => None,
    }
}

/// Makes the command to change a day's time of what was read of a request:
/// there is a command if a day was named and no time was given that could
/// not be read.
pub fn change_day_command<S>(day: Option<Day>, time: Option<Option<TimeOfDay>>) -> (command:
    Option<Command<S>>)
    ensures
        command == day_command::<S>(day, time),
{
    match (day, time) {
        (Some(day), None) => Some(Command::ChangeDayTimer(day, None)),
        (Some(day), Some(Some(time))) => Some(Command::ChangeDayTimer(day, Some(time))),
        _ => None,
    }
}

/// Reads a time of day written as hours, minutes and seconds or, failing
/// that, as hours and minutes.
pub fn read_time(text: &str) -> (time: Option<TimeOfDay>)
    ensures
        time == time_written(text@),
{
    let full = parse_time(text, "%H:%M:%S");
    if full.is_some() {
        time_from_parts(full)
    } else {
        time_from_parts(parse_time(text, "%H:%M"))
    }
}

/// A request to change the time of day that the week schedule keeps for one
/// day, as it arrives: both in words.
#[derive(Debug, PartialEq, Eq, PartialOrd, Ord)]
pub struct SetDay {
    pub day: String,
    pub time: Option<String>,
}

impl SetDay {
    /// The command that the request stands for, if its day names a day of
    /// the week and its time, where it gives one, is a time of day.
    pub fn to_command<S>(self) -> (command: Option<Command<S>>)
        ensures
            command == day_command::<S>(
                weekday_named(self.day@),
                match self.time {
                    Some(text) => Some(time_written(text@)),
                    None => None,
                },
            ),
    {
        let day = parse_weekday(self.day.as_str());
        let time = match &self.time {
            Some(text) => Some(read_time(text.as_str())),
            None => None,
        };
        change_day_command(day, time)
    }
}

/// The shape that a request names: `linear` and `sine` by themselves, and
/// `linear-extra` and `sine-extra` with their multiplier as the one extra.
pub open spec fn interpolation_named(name: Seq<char>, extras: Seq<String>) -> Option<
    TransitionInterpolation,
> {
    if name == "linear"@ {
        Some(TransitionInterpolation::Linear)
    } else if name == "sine"@ {
        Some(TransitionInterpolation::Sine)
    } else if name == "linear-extra"@ && extras.len() == 1 {
        match multiplier_written(extras[0]@) {
            Some(m) => Some(TransitionInterpolation::LinearToAndBack(m)),
            None => None,
        }
    } else if name == "sine-extra"@ && extras.len() == 1 {
        match multiplier_written(extras[0]@) {
            Some(m) => Some(TransitionInterpolation::SineToAndBack(m)),
            None => None,
        }
    } else {
        None
    }
}

/// Whether the two texts are the same.
fn same_text(a: &str, b: &str) -> (same: bool)
    ensures
        same == (a@ == b@),
{
    let n = a.unicode_len();
    if n != b.unicode_len() {
        return false;
    }
    let mut i: usize = 0;
    while i < n
        invariant
            n == a@.len(),
            n == b@.len(),
            i <= n,
            forall|j: int| 0 <= j < i ==> a@[j] == b@[j],
        decreases n - i,
    {
        if a.get_char(i) != b.get_char(i) {
            return false;
        }
        i += 1;
    }
    assert(a@ =~= b@);
    true
}

/// Reads the shape that a request names.
pub fn read_interpolation(name: &str, extras: &Vec<String>) -> (shape: Option<
    TransitionInterpolation,
>)
    ensures
        shape == interpolation_named(name@, extras@),
{
    if same_text(name, "linear") {
        Some(TransitionInterpolation::Linear)
    } else if same_text(name, "sine") {
        Some(TransitionInterpolation::Sine)
    } else if same_text(name, "linear-extra") && extras.len() == 1 {
        match read_multiplier(extras[0].as_str()) {
            Some(m) => Some(TransitionInterpolation::LinearToAndBack(m)),
            None => None,
        }
    } else if same_text(name, "sine-extra") && extras.len() == 1 {
        match read_multiplier(extras[0].as_str()) {
            Some(m) => Some(TransitionInterpolation::SineToAndBack(m)),
            None => None,
        }
    } else {
        None
    }
}

/// What a request asks to be done with the ramp that it carries: `set`
/// makes it the ramp that timers start, `preview` runs it once, now.
pub open spec fn ramp_command<S>(action: Option<Seq<char>>, transition: Transition) -> Option<
    Command<S>,
> {
    match action {
        Some(word) => if word == "set"@ {
            Some(Command::ChangeDayTimerTransition(transition))
        } else if word == "preview"@ {
            Some(Command::SetTransition(transition))
        } else {
            None
        },
        None => None,
    }
}

/// Makes the command that a request about a ramp stands for. There is none
/// unless the request says `set` or `preview`.
pub fn transition_command<S>(action: Option<&str>, transition: Transition) -> (command: Option<
    Command<S>,
>)
    ensures
        command == ramp_command::<S>(
            match action {
                Some(word) => Some(word@),
                None => None,
            },
            transition,
        ),
{
    match action {
        Some(word) => {
            if same_text(word, "set") {
                Some(Command::ChangeDayTimerTransition(transition))
            } else if same_text(word, "preview") {
                Some(Command::SetTransition(transition))
            } else {
                None
            }
        },
        None => None,
    }
}

/// A request for a ramp, as it arrives: the two ends in millionths of full
/// output, the duration in nanoseconds, and the shape in words.
#[derive(Debug)]
pub struct SetTransition {
    pub from: i64,
    pub to: i64,
    pub time: u64,
    pub interpolation: String,
    pub extras: Vec<String>,
}

impl SetTransition {
    /// The ramp that the request stands for. There is none unless both ends
    /// lie between dark and full and the request names a shape.
    pub fn to_transition(self) -> (transition: Option<Transition>)
        ensures
            transition == match interpolation_named(self.interpolation@, self.extras@) {
                Some(interpolation) => if 0 <= self.from <= FULL && 0 <= self.to <= FULL {
                    Some(
                        Transition {
                            from: Strength::from_level(self.from as int),
                            to: Strength::from_level(self.to as int),
                            time: self.time,
                            interpolation,
                        },
                    )
                } else {
                    None
                },
                None => None,
            },
    {
        match (
            Strength::checked(self.from),
            Strength::checked(self.to),
            read_interpolation(self.interpolation.as_str(), &self.extras),
        ) {
            (Some(from), Some(to), Some(interpolation)) => Some(
                Transition { from, to, time: self.time, interpolation },
            ),
            _ => None,
        }
    }
}

} // verus!

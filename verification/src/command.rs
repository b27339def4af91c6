//! What the control loop can be told, and what it is told to do.

use crate::scheduler::SleepTime;
use crate::strength::Strength;
use crate::time::{Day, TimeOfDay};
use crate::transition::Transition;
use vstd::prelude::*;

verus! {

/// What the control loop can be told to do. `S` is the kind of timer that
/// can be added to the week schedule.
#[derive(Debug)]
pub enum Command<S> {
    /// Put out this strength at once.
    SetImmediate(Strength),
    /// Run this ramp once, starting now.
    SetTransition(Transition),
    /// Keep this time of day for this day in the week schedule.
    ChangeDayTimer(Day, Option<TimeOfDay>),
    /// Run this ramp whenever a timer fires.
    ChangeDayTimerTransition(Transition),
    /// Add this timer to the week schedule.
    AddScheduler(S),
    /// Remove every timer that was added.
    ClearAllSchedulers,
    /// Stop the loop.
    Finish,
}

/// What the control loop is to do next.
#[derive(Debug, PartialEq, Eq, Structural, Clone, Copy)]
pub enum Action {
    /// Rest this long, then ask again.
    Wait(SleepTime),
    /// Set the output to this strength.
    SetOutput(Strength),
    /// Stop the loop.
    Break,
}

} // verus!

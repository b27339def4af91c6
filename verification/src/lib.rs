//! Drives one dimmable output by a week schedule and by smooth ramps.
//!
//! The library decides; it neither reads a clock nor writes to a device.
//! Whoever runs it tells it the time and the command that has arrived, and
//! carries out what it answers:
//!
//! - `strength`: how strongly the output is driven, in fixed point;
//! - `transition`: ramps between two strengths and the curves they follow;
//! - `time`: days of the week, times of day and moments on the wall clock;
//! - `scheduler`: timers that know when they are next due;
//! - `schedule_set`: the week schedule and the timers added to it;
//! - `command`: what the loop can be told, and what it is told to do;
//! - `state`: the decision engine, one step at a time;
//! - `control`: the loop around the engine, one turn at a time;
//! - `decimal`: numbers written in base ten, read as multipliers;
//! - `payload`: requests as they arrive in words, made into commands.

pub mod command;
pub mod control;
pub mod decimal;
pub mod payload;
pub mod schedule_set;
pub mod scheduler;
pub mod state;
pub mod strength;
pub mod time;
pub mod transition;

pub use command::{Action, Command};
pub use scheduler::Scheduler;
pub use strength::Strength;
pub use transition::{Transition, TransitionInterpolation};

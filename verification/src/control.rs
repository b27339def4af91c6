//! The control loop, as far as it decides: when to nap, when to ask the
//! engine, and what to do with its answer. Reading the clock, receiving
//! commands and writing to the output are left to whoever runs it.

use crate::command::{Action, Command};
use crate::scheduler::{Scheduler, SleepTime, WeekScheduler};
use crate::state::{State, StateView};
use crate::strength::Strength;
use crate::time::Moment;
use crate::transition::Transition;
use vstd::prelude::*;

verus! {

/// How long the loop naps before it looks for a command again: one
/// millisecond, in nanoseconds.
pub const POLL_INTERVAL: u64 = 1_000_000;

/// What the loop is resting for.
#[derive(Debug, PartialEq, Eq, Structural, Clone, Copy, Hash)]
pub enum Sleeping {
    /// For a command.
    Forever,
    /// For this moment, or a command.
    To(Moment),
    /// For nothing: it is awake.
    Wake,
}

impl Sleeping {
    /// Whether the rest still holds at `now`. A rest up to a moment is over
    /// when that moment has come.
    pub open spec fn holds(self, now: Moment) -> bool {
        match self {
            Sleeping::Forever => true,
            Sleeping::To(moment) => now@ < moment@,
            Sleeping::Wake => false,
        }
    }
}

/// What the one who runs the loop is to do after a turn.
#[derive(Debug, PartialEq, Eq, Structural, Clone, Copy)]
pub enum Turn {
    /// Nap for `POLL_INTERVAL`, then take the next turn.
    Nap,
    /// Take the next turn at once.
    Again,
    /// Write this strength to the output, then take the next turn.
    Output(Strength),
    /// Leave the loop.
    Stop,
}

/// What the control loop holds.
pub struct ControlLoopView<S> {
    pub state: StateView<S>,
    pub sleeping: Sleeping,
}

impl<S: Scheduler> ControlLoopView<S> {
    /// One turn of the loop at `now`, with the command that was waiting, if
    /// one was.
    ///
    /// A command ends any rest and is handed to the engine at once. With no
    /// command the loop naps while its rest holds, and asks the engine when
    /// the rest is over. What the engine answers says how the loop rests
    /// from then on.
    pub open spec fn turn(self, now: Moment, received: Option<Command<S>>) -> (
        ControlLoopView<S>,
        Turn,
    ) {
        if received is None && self.sleeping.holds(now) {
            (self, Turn::Nap)
        } else {
            let (state, action) = self.state.step(now, received);
            match action {
                Action::Wait(SleepTime::Duration(span)) => (
                    ControlLoopView { state, sleeping: Sleeping::To(now.plus(span as int)) },
                    Turn::Again,
                ),
                Action::Wait(SleepTime::Forever) => (
                    ControlLoopView { state, sleeping: Sleeping::Forever },
                    Turn::Again,
                ),
                Action::SetOutput(strength) => (
                    ControlLoopView { state, sleeping: Sleeping::Wake },
                    Turn::Output(strength),
                ),
                Action::Break => (ControlLoopView { state, sleeping: Sleeping::Wake }, Turn::Stop),
            }
        }
    }
}

/// The control loop without its clock, its mailbox and its output: it is
/// told the time and the command that has arrived, and says what to do.
pub struct ControlLoop<S: Scheduler> {
    state: State<S>,
    sleeping: Sleeping,
}

impl<S: Scheduler> View for ControlLoop<S> {
    type V = ControlLoopView<S>;

    closed spec fn view(&self) -> ControlLoopView<S> {
        ControlLoopView { state: self.state@, sleeping: self.sleeping }
    }
}

impl<S: Scheduler> ControlLoop<S> {
    /// A loop that starts out awake at `now`, with the week schedule `week`
    /// and with `transition` as the ramp that timers start.
    pub fn new(week: WeekScheduler, transition: Transition, now: Moment) -> (control: ControlLoop<S>)
        ensures
            control@ == (ControlLoopView {
                state: StateView::<S>::starting(week, transition, now),
                sleeping: Sleeping::Wake,
            }),
    {
        ControlLoop { state: State::new(week, transition, now), sleeping: Sleeping::Wake }
    }

    /// A loop around an engine that is already set up.
    pub fn around(state: State<S>) -> (control: ControlLoop<S>)
        ensures
            control@ == (ControlLoopView { state: state@, sleeping: Sleeping::Wake }),
    {
        ControlLoop { state, sleeping: Sleeping::Wake }
    }

    /// The engine of the loop.
    pub fn state(&self) -> (state: &State<S>)
        ensures
            state@ == self@.state,
    {
        &self.state
    }

    /// What the loop is resting for.
    pub fn sleeping(&self) -> (sleeping: Sleeping)
        ensures
            sleeping == self@.sleeping,
    {
        self.sleeping
    }

    /// Takes one turn at `now`, with the command that was waiting, if one
    /// was.
    pub fn turn(&mut self, now: Moment, received: Option<Command<S>>) -> (turn: Turn)
        ensures
            (final(self)@, turn) == old(self)@.turn(now, received),
    {
        if received.is_none() {
            let resting = match self.sleeping {
                Sleeping::Forever => true,
                Sleeping::To(moment) => now.nanos < moment.nanos,
                Sleeping::Wake => false,
            };
            if resting {
                return Turn::Nap;
            }
        }
        match self.state.process(now, received) {
            Action::Wait(SleepTime::Duration(span)) => {
                self.sleeping = Sleeping::To(now.later(span));
                Turn::Again
            },
            Action::Wait(SleepTime::Forever) => {
                self.sleeping = Sleeping::Forever;
                Turn::Again
            },
            Action::SetOutput(strength) => {
                self.sleeping = Sleeping::Wake;
                Turn::Output(strength)
            },
            Action::Break => {
                self.sleeping = Sleeping::Wake;
                Turn::Stop
            },
        }
    }
}

/// A command never waits for a rest to end: the engine takes its step in
/// the turn in which the command arrives.
pub proof fn lemma_command_interrupts_rest<S: Scheduler>(
    control: ControlLoopView<S>,
    now: Moment,
    command: Command<S>,
)
    ensures
        control.turn(now, Some(command)).0.state == control.state.step(now, Some(command)).0,
        !(control.turn(now, Some(command)).1 is Nap),
{
}

/// The order to finish stops the loop in the turn in which it arrives,
/// whatever ramp is under way, and writes nothing more to the output.
pub proof fn lemma_finish_stops_at_once<S: Scheduler>(control: ControlLoopView<S>, now: Moment)
    ensures
        control.turn(now, Some(Command::Finish)).1 == Turn::Stop,
        control.turn(now, Some(Command::Finish)).0.state == control.state,
{
}

} // verus!

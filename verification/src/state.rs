//! The decision engine. It has no clock and no timer of its own: it is told
//! the time at every step, and all that it knows of time it says in the rest
//! that it orders.

use crate::command::{Action, Command};
use crate::schedule_set::{
    lemma_due_count, lemma_none_due_none_fired, lemma_soonest_is_least, ScheduleSet,
    ScheduleSetView,
};
use crate::scheduler::{Scheduler, SleepTime, WeekScheduler};
use crate::strength::Strength;
use crate::time::Moment;
use crate::transition::{between, lemma_sample_stays_between_ends, Transition};
use vstd::prelude::*;

verus! {

/// How long the loop rests between two samples of a ramp unless it is told
/// otherwise: forty milliseconds, in nanoseconds.
pub const DEFAULT_TICK: u64 = 40_000_000;

/// A ramp that is under way, and the moment at which it began.
#[derive(Debug, PartialEq, Eq, Structural, Clone, Copy)]
pub struct ActiveTransition {
    pub transition: Transition,
    pub start: Moment,
}

impl ActiveTransition {
    /// The nanoseconds of the ramp that are still to come at `now`.
    pub open spec fn left(self, now: Moment) -> int {
        if now.minus(self.start) >= self.transition.time {
            0
        } else {
            self.transition.time - now.minus(self.start)
        }
    }
}

/// What the decision engine holds.
pub struct StateView<S> {
    /// The timers.
    pub schedules: ScheduleSetView<S>,
    /// The ramp that is under way, if any.
    pub active: Option<ActiveTransition>,
    /// The ramp that begins when a timer fires.
    pub default_transition: Transition,
    /// The longest rest between two samples of a ramp, in nanoseconds.
    pub tick: u64,
    /// Whether a sample has been put out since the last rest.
    pub resting: bool,
}

impl<S: Scheduler> StateView<S> {
    /// The engine as it starts out at `now`: the week schedule alone, no
    /// ramp under way.
    pub open spec fn starting(week: WeekScheduler, transition: Transition, now: Moment)
        -> StateView<S> {
        StateView {
            schedules: ScheduleSetView::starting(week, now),
            active: None,
            default_transition: transition,
            tick: DEFAULT_TICK,
            resting: false,
        }
    }

    /// How long the loop may rest at `now`: while a ramp is under way, one
    /// tick or what is left of the ramp if that is less; else until the
    /// first timer is due.
    pub open spec fn rest(self, now: Moment) -> int {
        match self.active {
            Some(active) => if active.left(now) < self.tick {
                active.left(now)
            } else {
                self.tick as int
            },
            None => self.schedules.soonest(now),
        }
    }

    /// The order to rest as long as the loop may at `now`.
    pub open spec fn wait(self, now: Moment) -> Action {
        Action::Wait(SleepTime::Duration(self.rest(now) as u64))
    }

    /// What a command that arrives at `now` makes of the engine, and what it
    /// has the loop do.
    pub open spec fn on_command(self, now: Moment, command: Command<S>) -> (StateView<S>, Action) {
        match command {
            Command::SetImmediate(strength) => (
                StateView { active: None, resting: false, ..self },
                Action::SetOutput(strength),
            ),
            Command::SetTransition(transition) => (
                StateView {
                    active: Some(ActiveTransition { transition, start: now }),
                    resting: true,
                    ..self
                },
                Action::SetOutput(transition.strength_at(0)),
            ),
            Command::ChangeDayTimer(day, time) => {
                let next = StateView {
                    schedules: self.schedules.with_day_time(day, time, now),
                    resting: false,
                    ..self
                };
                (next, next.wait(now))
            },
            Command::ChangeDayTimerTransition(transition) => {
                let next = StateView { default_transition: transition, resting: false, ..self };
                (next, next.wait(now))
            },
            Command::AddScheduler(entry) => {
                let next = StateView {
                    schedules: self.schedules.with_entry(entry, now),
                    resting: false,
                    ..self
                };
                (next, next.wait(now))
            },
            Command::ClearAllSchedulers => {
                let next = StateView { schedules: self.schedules.cleared(), resting: false, ..self };
                (next, next.wait(now))
            },
            Command::Finish => (self, Action::Break),
        }
    }

    /// The engine once the timers that are due at `now` have fired: if any
    /// did, the default ramp begins at `now`.
    pub open spec fn after_firing(self, now: Moment, resting: bool) -> StateView<S> {
        StateView {
            schedules: self.schedules.after_firing(now),
            active: if self.schedules.due(now).some() {
                Some(ActiveTransition { transition: self.default_transition, start: now })
            } else {
                None
            },
            resting: resting && self.schedules.due(now).some(),
            ..self
        }
    }

    /// What the passing of time makes of the engine at `now`, and what it
    /// has the loop do.
    ///
    /// A ramp whose time is up ends on its target, and the timers that are
    /// due fire in the same step. A ramp that is under way is sampled, and
    /// after each sample the loop rests. With no ramp under way the timers
    /// that are due fire and the default ramp puts out its first sample; if
    /// none is due, the loop rests until the first is.
    pub open spec fn on_time(self, now: Moment) -> (StateView<S>, Action) {
        match self.active {
            Some(active) => {
                let elapsed = now.minus(active.start);
                if elapsed >= active.transition.time {
                    (self.after_firing(now, false), Action::SetOutput(active.transition.to))
                } else if self.resting {
                    (StateView { resting: false, ..self }, self.wait(now))
                } else {
                    (
                        StateView { resting: true, ..self },
                        Action::SetOutput(active.transition.strength_at(elapsed)),
                    )
                }
            },
            None => {
                let next = self.after_firing(now, true);
                if self.schedules.due(now).some() {
                    (next, Action::SetOutput(self.default_transition.strength_at(0)))
                } else {
                    (next, next.wait(now))
                }
            },
        }
    }

    /// One step of the engine at `now`. A command is acted on at once, and
    /// neither ramp nor timers are looked at in that step.
    pub open spec fn step(self, now: Moment, command: Option<Command<S>>) -> (StateView<S>, Action) {
        match command {
            Some(command) => self.on_command(now, command),
            None => self.on_time(now),
        }
    }
}

/// The decision engine: it holds the timers, the ramp that is under way and
/// the ramp that timers start, and says at each step what the loop is to do.
pub struct State<S: Scheduler> {
    schedules: ScheduleSet<S>,
    active: Option<ActiveTransition>,
    default_transition: Transition,
    tick: u64,
    resting: bool,
}

impl<S: Scheduler> View for State<S> {
    type V = StateView<S>;

    closed spec fn view(&self) -> StateView<S> {
        StateView {
            schedules: self.schedules@,
            active: self.active,
            default_transition: self.default_transition,
            tick: self.tick,
            resting: self.resting,
        }
    }
}

impl<S: Scheduler> State<S> {
    /// An engine that starts out at `now` with the week schedule `week`,
    /// and that runs `transition` whenever a timer fires.
    pub fn new(week: WeekScheduler, transition: Transition, now: Moment) -> (state: State<S>)
        ensures
            state@ == StateView::<S>::starting(week, transition, now),
    {
        State {
            schedules: ScheduleSet::new(week, now),
            active: None,
            default_transition: transition,
            tick: DEFAULT_TICK,
            resting: false,
        }
    }

    /// The same engine with `tick` nanoseconds as the longest rest between
    /// two samples of a ramp.
    pub fn with_tick(self, tick: u64) -> (state: State<S>)
        ensures
            state@ == (StateView { tick, ..self@ }),
    {
        State { tick, ..self }
    }

    /// The timers of the engine.
    pub fn schedules(&self) -> (set: &ScheduleSet<S>)
        ensures
            set@ == self@.schedules,
    {
        &self.schedules
    }

    /// The ramp that is under way, if any.
    pub fn active_transition(&self) -> (active: Option<ActiveTransition>)
        ensures
            active == self@.active,
    {
        self.active
    }

    /// The ramp that begins when a timer fires.
    pub fn default_transition(&self) -> (transition: Transition)
        ensures
            transition == self@.default_transition,
    {
        self.default_transition
    }

    /// How long the loop may rest at `now`.
    fn wait(&self, now: Moment) -> (action: Action)
        ensures
            action == self@.wait(now),
    {
        match self.active {
            Some(active) => {
                let elapsed = now.since(active.start);
                let left = if elapsed >= active.transition.time {
                    0
                } else {
                    active.transition.time - elapsed
                };
                Action::Wait(SleepTime::Duration(if left < self.tick { left } else { self.tick }))
            },
            None => Action::Wait(self.schedules.next_fire(now)),
        }
    }

    /// Fires the timers that are due at `now` and, if any fired, begins the
    /// default ramp.
    fn fire(&mut self, now: Moment, resting: bool) -> (any: bool)
        ensures
            final(self)@ == old(self)@.after_firing(now, resting),
            any == old(self)@.schedules.due(now).some(),
    {
        let any = self.schedules.fire_due_entries(now).any();
        if any {
            self.active = Some(ActiveTransition { transition: self.default_transition, start: now });
            self.resting = resting;
        } else {
            self.active = None;
            self.resting = false;
        }
        any
    }

    /// Takes one step at `now`, with the command that has arrived, if one
    /// has.
    pub fn process(&mut self, now: Moment, command: Option<Command<S>>) -> (action: Action)
        ensures
            (final(self)@, action) == old(self)@.step(now, command),
    {
        match command {
            Some(Command::SetImmediate(strength)) => {
                self.active = None;
                self.resting = false;
                Action::SetOutput(strength)
            },
            Some(Command::SetTransition(transition)) => {
                self.active = Some(ActiveTransition { transition, start: now });
                self.resting = true;
                Action::SetOutput(transition.sample(0))
            },
            Some(Command::ChangeDayTimer(day, time)) => {
                self.schedules.change_day_timer(day, time, now);
                self.resting = false;
                self.wait(now)
            },
            Some(Command::ChangeDayTimerTransition(transition)) => {
                self.default_transition = transition;
                self.resting = false;
                self.wait(now)
            },
            Some(Command::AddScheduler(entry)) => {
                self.schedules.insert(entry, now);
                self.resting = false;
                self.wait(now)
            },
            Some(Command::ClearAllSchedulers) => {
                self.schedules.clear_auxiliary();
                self.resting = false;
                self.wait(now)
            },
            Some(Command::Finish) => Action::Break,
            None => match self.active {
                Some(active) => {
                    let elapsed = now.since(active.start);
                    if elapsed >= active.transition.time {
                        self.fire(now, false);
                        Action::SetOutput(active.transition.to)
                    } else if self.resting {
                        let action = self.wait(now);
                        self.resting = false;
                        action
                    } else {
                        self.resting = true;
                        Action::SetOutput(active.transition.sample(elapsed))
                    }
                },
                None => {
                    if self.fire(now, true) {
                        Action::SetOutput(self.default_transition.sample(0))
                    } else {
                        self.wait(now)
                    }
                },
            },
        }
    }
}

/// An immediate strength ends whatever ramp is under way, and is the very
/// next strength that is put out.
pub proof fn lemma_immediate_ends_ramp<S: Scheduler>(
    state: StateView<S>,
    now: Moment,
    strength: Strength,
)
    ensures
        state.step(now, Some(Command::SetImmediate(strength))).0.active is None,
        state.step(now, Some(Command::SetImmediate(strength))).1 == Action::SetOutput(strength),
{
}

/// With no ramp under way and no timer due, a step changes nothing but
/// orders a rest, and the rest is over just when the first timer is due: the
/// loop neither spins nor sleeps past a timer.
pub proof fn lemma_idle_rest_ends_with_first_timer<S: Scheduler>(state: StateView<S>, now: Moment)
    requires
        state.active is None,
        !state.schedules.due(now).some(),
        state.schedules.auxiliary.len() <= usize::MAX,
    ensures
        state.step(now, None).0 == (StateView { resting: false, ..state }),
        state.step(now, None).1 == Action::Wait(
            SleepTime::Duration(state.schedules.soonest(now) as u64),
        ),
        0 < state.schedules.soonest(now) <= u64::MAX,
        state.schedules.soonest(now) <= state.schedules.primary.remaining(now),
        forall|i: int|
            0 <= i < state.schedules.auxiliary.len() ==> state.schedules.soonest(now) <= (
            #[trigger] state.schedules.auxiliary[i]).remaining(now),
        state.schedules.soonest(now) == state.schedules.primary.remaining(now) || exists|i: int|
            0 <= i < state.schedules.auxiliary.len() && state.schedules.soonest(now) == (
            #[trigger] state.schedules.auxiliary[i]).remaining(now),
{
    let set = state.schedules;
    lemma_due_count(set.auxiliary, now);
    lemma_none_due_none_fired(set.auxiliary, now);
    lemma_soonest_is_least(set, now);
    assert(set.after_firing(now) == set);
    if set.soonest(now) != set.primary.remaining(now) {
        let i = choose|i: int|
            0 <= i < set.auxiliary.len() && set.soonest(now) == (#[trigger] set.auxiliary[i]).remaining(
                now,
            );
        assert(!set.auxiliary[i].is_due(now));
    }
}

/// A ramp that is set at `now` is under way from `now` on, and its first
/// sample, which lies within the range that its two ends span, is put out in
/// the same step.
pub proof fn lemma_ramp_begins<S: Scheduler>(state: StateView<S>, now: Moment, ramp: Transition)
    requires
        ramp.from.in_range(),
        ramp.to.in_range(),
    ensures
        state.step(now, Some(Command::SetTransition(ramp))).0.active == Some(
            ActiveTransition { transition: ramp, start: now },
        ),
        state.step(now, Some(Command::SetTransition(ramp))).1 == Action::SetOutput(
            ramp.strength_at(0),
        ),
        between(ramp.from@, ramp.to@, ramp.strength_at(0)@),
{
    lemma_strength_at_between(ramp, 0);
}

/// The strength that a ramp puts out is the level that its curve gives.
proof fn lemma_strength_at_between(ramp: Transition, elapsed: int)
    requires
        0 <= elapsed,
        ramp.from.in_range(),
        ramp.to.in_range(),
    ensures
        ramp.strength_at(elapsed)@ == ramp.sampled(elapsed),
        between(ramp.from@, ramp.to@, ramp.strength_at(elapsed)@),
{
    lemma_sample_stays_between_ends(ramp, elapsed);
    ramp.from.lemma_in_range();
    ramp.to.lemma_in_range();
    Strength::lemma_level_of(ramp.sampled(elapsed));
}

/// A ramp that is set at `now` has put out its target by the first step
/// that is taken, with no command, once its time is up.
pub proof fn lemma_set_ramp_ends_on_target<S: Scheduler>(
    state: StateView<S>,
    now: Moment,
    ramp: Transition,
    later: Moment,
)
    requires
        later.minus(now) >= ramp.time,
    ensures
        state.step(now, Some(Command::SetTransition(ramp))).0.step(later, None).1
            == Action::SetOutput(ramp.to),
{
}

/// While a ramp is under way and no command arrives, each step before its
/// time is up leaves it under way and puts out nothing beyond the range that
/// its two ends span; the first step at or after that time puts out its
/// target.
pub proof fn lemma_ramp_runs_to_its_target<S: Scheduler>(
    state: StateView<S>,
    active: ActiveTransition,
    now: Moment,
)
    requires
        state.active == Some(active),
        active.transition.from.in_range(),
        active.transition.to.in_range(),
    ensures
        now.minus(active.start) >= active.transition.time ==> state.step(now, None).1
            == Action::SetOutput(active.transition.to),
        now.minus(active.start) < active.transition.time ==> {
            &&& state.step(now, None).0.active == Some(active)
            &&& state.step(now, None).1 matches Action::SetOutput(strength) ==> between(
                active.transition.from@,
                active.transition.to@,
                strength@,
            )
            &&& !(state.step(now, None).1 is Break)
        },
{
    lemma_strength_at_between(active.transition, now.minus(active.start));
}

} // verus!

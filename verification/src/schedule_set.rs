//! The set of timers that the control loop watches: the week schedule, which
//! is always there, and the timers that are added to it and cleared again.
//! Each timer stands in a slot beside the moment at which it is next due.

use crate::scheduler::{Scheduler, SleepTime, WeekScheduler};
use crate::time::{Day, Moment, TimeOfDay};
use vstd::prelude::*;

verus! {

/// A timer together with the moment at which it is next due.
#[derive(Debug)]
pub struct Slot<S> {
    pub entry: S,
    pub due: Moment,
}

impl<S> Slot<S> {
    /// Whether the timer's moment has come.
    pub open spec fn is_due(self, now: Moment) -> bool {
        self.due@ <= now@
    }

    /// The nanoseconds left until the timer is due; nothing once it is.
    pub open spec fn remaining(self, now: Moment) -> int {
        self.due.minus(now)
    }
}

/// The timer `entry`, set at `now` to the next moment at which it is due.
pub open spec fn armed<S: Scheduler>(entry: S, now: Moment) -> Slot<S> {
    Slot { entry, due: now.plus(entry.span_until_next(now)) }
}

/// What stands in a slot's place once the timers due at `now` have fired:
/// the slot itself if it is not due, its renewal set anew if it is due and
/// renews itself, and nothing if it is due and spent.
pub open spec fn after_firing<S: Scheduler>(slot: Slot<S>, now: Moment) -> Seq<Slot<S>> {
    if !slot.is_due(now) {
        seq![slot]
    } else {
        match slot.entry.renewal() {
            Some(renewed) => seq![armed(renewed, now)],
            None => Seq::empty(),
        }
    }
}

/// The slots that `slots` leave behind once all that are due at `now` have
/// fired, in their old order.
pub open spec fn fired<S: Scheduler>(slots: Seq<Slot<S>>, now: Moment) -> Seq<Slot<S>>
    decreases slots.len(),
{
    if slots.len() == 0 {
        Seq::empty()
    } else {
        fired(slots.drop_last(), now) + after_firing(slots.last(), now)
    }
}

/// How many of `slots` are due at `now`.
pub open spec fn due_count<S>(slots: Seq<Slot<S>>, now: Moment) -> nat
    decreases slots.len(),
{
    if slots.len() == 0 {
        0
    } else {
        due_count(slots.drop_last(), now) + if slots.last().is_due(now) {
            1nat
        } else {
            0nat
        }
    }
}

/// The least of `bound` and of what remains to each of `slots` at `now`.
pub open spec fn least_remaining<S>(slots: Seq<Slot<S>>, now: Moment, bound: int) -> int
    decreases slots.len(),
{
    if slots.len() == 0 {
        bound
    } else {
        let least = least_remaining(slots.drop_last(), now, bound);
        if slots.last().remaining(now) < least {
            slots.last().remaining(now)
        } else {
            least
        }
    }
}

/// The timers that fired in one step.
#[derive(Debug, PartialEq, Eq, Structural, Clone, Copy)]
pub struct Fired {
    /// Whether the week schedule fired.
    pub primary: bool,
    /// How many of the added timers fired.
    pub auxiliary: usize,
}

impl Fired {
    /// Whether any timer fired.
    pub open spec fn some(self) -> bool {
        self.primary || self.auxiliary > 0
    }

    /// Whether any timer fired.
    pub fn any(&self) -> (any: bool)
        ensures
            any == self.some(),
    {
        self.primary || self.auxiliary > 0
    }
}

/// What a set of timers holds: the week schedule that is always there, and
/// the timers that were added to it.
pub struct ScheduleSetView<S> {
    pub primary: Slot<WeekScheduler>,
    pub auxiliary: Seq<Slot<S>>,
}

impl<S: Scheduler> ScheduleSetView<S> {
    /// The set that starts out at `now` with the week schedule `week` alone,
    /// which is first pointed at the day that fires first.
    pub open spec fn starting(week: WeekScheduler, now: Moment) -> ScheduleSetView<S> {
        ScheduleSetView {
            primary: armed(WeekScheduler { current: week.upcoming_day(now), ..week }, now),
            auxiliary: Seq::empty(),
        }
    }

    /// The nanoseconds from `now` until the first timer of the set is due.
    pub open spec fn soonest(self, now: Moment) -> int {
        least_remaining(self.auxiliary, now, self.primary.remaining(now))
    }

    /// Which timers of the set are due at `now`.
    pub open spec fn due(self, now: Moment) -> Fired {
        Fired {
            primary: self.primary.is_due(now),
            auxiliary: due_count(self.auxiliary, now) as usize,
        }
    }

    /// The set once every timer that is due at `now` has fired. The week
    /// schedule always renews itself, so it stays.
    pub open spec fn after_firing(self, now: Moment) -> ScheduleSetView<S> {
        ScheduleSetView {
            primary: if self.primary.is_due(now) {
                armed(self.primary.entry.renewal()->Some_0, now)
            } else {
                self.primary
            },
            auxiliary: fired(self.auxiliary, now),
        }
    }

    /// The set with `entry` added at `now`.
    pub open spec fn with_entry(self, entry: S, now: Moment) -> ScheduleSetView<S> {
        ScheduleSetView { auxiliary: self.auxiliary.push(armed(entry, now)), ..self }
    }

    /// The set with the week schedule alone.
    pub open spec fn cleared(self) -> ScheduleSetView<S> {
        ScheduleSetView { auxiliary: Seq::empty(), ..self }
    }

    /// The set whose week schedule keeps `time` for `day`. If there is no
    /// `time`, nothing changes. If `day` is the day that fires next, the
    /// firing moves to the next moment at which it is `time` on that day.
    pub open spec fn with_day_time(self, day: Day, time: Option<TimeOfDay>, now: Moment)
        -> ScheduleSetView<S> {
        match time {
            None => self,
            Some(t) => {
                let week = self.primary.entry.with_time(day, t);
                if day == week.current {
                    ScheduleSetView { primary: armed(week, now), ..self }
                } else {
                    ScheduleSetView { primary: Slot { entry: week, ..self.primary }, ..self }
                }
            },
        }
    }
}

proof fn lemma_least_remaining<S>(slots: Seq<Slot<S>>, now: Moment, bound: int)
    ensures
        least_remaining(slots, now, bound) <= bound,
        forall|i: int|
            0 <= i < slots.len() ==> least_remaining(slots, now, bound) <= (
            #[trigger] slots[i]).remaining(now),
        least_remaining(slots, now, bound) == bound || exists|i: int|
            0 <= i < slots.len() && least_remaining(slots, now, bound) == (
            #[trigger] slots[i]).remaining(now),
    decreases slots.len(),
{
    if slots.len() > 0 {
        let front = slots.drop_last();
        lemma_least_remaining(front, now, bound);
        assert(forall|i: int| 0 <= i < front.len() ==> front[i] == slots[i]);
        let least = least_remaining(front, now, bound);
        if slots.last().remaining(now) < least {
            assert(slots[slots.len() - 1] == slots.last());
        } else if least != bound {
            let i = choose|i: int|
                0 <= i < front.len() && least == (#[trigger] front[i]).remaining(now);
            assert(slots[i] == front[i]);
        }
    }
}

/// No more slots are due than there are, and none is due exactly when the
/// count of those that are is nothing.
pub proof fn lemma_due_count<S>(slots: Seq<Slot<S>>, now: Moment)
    ensures
        due_count(slots, now) <= slots.len(),
        due_count(slots, now) == 0 <==> forall|i: int|
            0 <= i < slots.len() ==> !(#[trigger] slots[i]).is_due(now),
    decreases slots.len(),
{
    if slots.len() > 0 {
        let front = slots.drop_last();
        lemma_due_count(front, now);
        assert(forall|i: int| 0 <= i < front.len() ==> front[i] == slots[i]);
        if due_count(slots, now) == 0 {
            assert forall|i: int| 0 <= i < slots.len() implies !(#[trigger] slots[i]).is_due(
                now,
            ) by {
                if i < front.len() {
                    assert(front[i] == slots[i]);
                }
            }
        } else if !slots.last().is_due(now) {
            let i = choose|i: int| 0 <= i < front.len() && (#[trigger] front[i]).is_due(now);
            assert(slots[i].is_due(now));
        }
    }
}

/// Where no slot is due, firing changes nothing.
pub proof fn lemma_none_due_none_fired<S: Scheduler>(slots: Seq<Slot<S>>, now: Moment)
    requires
        due_count(slots, now) == 0,
    ensures
        fired(slots, now) == slots,
    decreases slots.len(),
{
    if slots.len() > 0 {
        lemma_none_due_none_fired(slots.drop_last(), now);
        assert(slots.drop_last() + seq![slots.last()] =~= slots);
    } else {
        assert(fired(slots, now) =~= slots);
    }
}

/// What `next_fire` tells: no timer of the set is due sooner, and one of
/// them is due just then.
pub proof fn lemma_soonest_is_least<S: Scheduler>(set: ScheduleSetView<S>, now: Moment)
    ensures
        0 <= set.soonest(now) <= set.primary.remaining(now),
        forall|i: int|
            0 <= i < set.auxiliary.len() ==> set.soonest(now) <= (
            #[trigger] set.auxiliary[i]).remaining(now),
        set.soonest(now) == set.primary.remaining(now) || exists|i: int|
            0 <= i < set.auxiliary.len() && set.soonest(now) == (
            #[trigger] set.auxiliary[i]).remaining(now),
{
    lemma_least_remaining(set.auxiliary, now, set.primary.remaining(now));
}

/// Clearing the added timers leaves the week schedule as it was. The set is
/// then due when the week schedule is, which is when it was due before
/// unless an added timer was due sooner.
pub proof fn lemma_clearing_keeps_week_schedule<S: Scheduler>(
    set: ScheduleSetView<S>,
    now: Moment,
)
    ensures
        set.cleared().primary == set.primary,
        set.cleared().auxiliary.len() == 0,
        set.cleared().soonest(now) == set.primary.remaining(now),
        (forall|i: int|
            0 <= i < set.auxiliary.len() ==> (#[trigger] set.auxiliary[i]).remaining(now)
                >= set.primary.remaining(now)) ==> set.cleared().soonest(now) == set.soonest(now),
{
    lemma_least_remaining(set.auxiliary, now, set.primary.remaining(now));
}

/// A timer that is added and cleared again before it fires leaves the set
/// as it was.
pub proof fn lemma_added_then_cleared<S: Scheduler>(
    set: ScheduleSetView<S>,
    entry: S,
    at: Moment,
    now: Moment,
)
    requires
        set.auxiliary.len() == 0,
    ensures
        set.with_entry(entry, at).cleared() == set,
        set.with_entry(entry, at).cleared().soonest(now) == set.primary.remaining(now),
{
    assert(set.with_entry(entry, at).cleared().auxiliary =~= set.auxiliary);
}

/// The timers of the control loop: one week schedule, which is never
/// removed, and any number of timers added while the loop runs.
pub struct ScheduleSet<S: Scheduler> {
    primary: Slot<WeekScheduler>,
    auxiliary: Vec<Slot<S>>,
}

impl<S: Scheduler> View for ScheduleSet<S> {
    type V = ScheduleSetView<S>;

    closed spec fn view(&self) -> ScheduleSetView<S> {
        ScheduleSetView { primary: self.primary, auxiliary: self.auxiliary@ }
    }
}

proof fn lemma_take_next<T>(s: Seq<T>, k: int)
    requires
        0 <= k < s.len(),
    ensures
        s.take(k + 1).drop_last() == s.take(k),
        s.take(k + 1).last() == s[k],
        s.take(s.len() as int) == s,
{
    assert(s.take(k + 1).drop_last() =~= s.take(k));
    assert(s.take(s.len() as int) =~= s);
}

/// Sets `entry` at `now` to the next moment at which it is due.
fn arm<S: Scheduler>(entry: S, now: Moment) -> (slot: Slot<S>)
    ensures
        slot == armed(entry, now),
{
    let span = entry.next_fire(now);
    Slot { entry, due: now.later(span) }
}

impl<S: Scheduler> ScheduleSet<S> {
    /// A set that starts out at `now` with the week schedule `week` alone.
    pub fn new(week: WeekScheduler, now: Moment) -> (set: ScheduleSet<S>)
        ensures
            set@ == ScheduleSetView::<S>::starting(week, now),
    {
        ScheduleSet { primary: arm(week.aimed_at(now), now), auxiliary: Vec::new() }
    }

    /// The week schedule of the set.
    pub fn primary(&self) -> (week: &WeekScheduler)
        ensures
            *week == self@.primary.entry,
    {
        &self.primary.entry
    }

    /// The moment at which the week schedule is next due.
    pub fn primary_due(&self) -> (due: Moment)
        ensures
            due == self@.primary.due,
    {
        self.primary.due
    }

    /// How many timers have been added to the week schedule.
    pub fn auxiliary_len(&self) -> (n: usize)
        ensures
            n == self@.auxiliary.len(),
    {
        self.auxiliary.len()
    }

    /// How long it is from `now` until the first timer is due.
    pub fn next_fire(&self, now: Moment) -> (sleep: SleepTime)
        ensures
            sleep == SleepTime::Duration(self@.soonest(now) as u64),
            0 <= self@.soonest(now) <= u64::MAX,
    {
        let mut least: u64 = self.primary.due.since(now);
        let mut i: usize = 0;
        while i < self.auxiliary.len()
            invariant
                i <= self.auxiliary.len(),
                least == least_remaining(
                    self.auxiliary@.take(i as int),
                    now,
                    self.primary.remaining(now),
                ),
            decreases self.auxiliary.len() - i,
        {
            proof {
                lemma_take_next(self.auxiliary@, i as int);
            }
            let left = self.auxiliary[i].due.since(now);
            if left < least {
                least = left;
            }
            i += 1;
        }
        proof {
            assert(self.auxiliary@.take(i as int) =~= self.auxiliary@);
        }
        SleepTime::Duration(least)
    }

    /// Fires every timer that is due at `now`: each is replaced by its
    /// renewal, set to the moment at which that is next due, or is dropped if
    /// it is spent. Hands back which of them fired.
    pub fn fire_due_entries(&mut self, now: Moment) -> (fired: Fired)
        ensures
            final(self)@ == old(self)@.after_firing(now),
            fired == old(self)@.due(now),
            fired.auxiliary == due_count(old(self)@.auxiliary, now),
    {
        let mut count: usize = 0;
        let primary = self.primary.due.nanos <= now.nanos;
        if primary {
            if let Some(renewed) = self.primary.entry.add() {
                self.primary = arm(renewed, now);
            }
        }
        let ghost before = self.auxiliary@;
        assert(before.len() == self.auxiliary.len());
        let mut pending: Vec<Slot<S>> = Vec::new();
        std::mem::swap(&mut pending, &mut self.auxiliary);
        let ghost mut done: int = 0;
        while pending.len() > 0
            invariant
                0 <= done <= before.len() <= usize::MAX,
                pending@ == before.skip(done),
                self.auxiliary@ == fired(before.take(done), now),
                self.primary == old(self)@.after_firing(now).primary,
                count == due_count(before.take(done), now),
                count <= done,
            decreases pending.len(),
        {
            proof {
                lemma_take_next(before, done);
                assert(before.skip(done).remove(0) =~= before.skip(done + 1));
            }
            let slot = pending.remove(0);
            if slot.due.nanos <= now.nanos {
                count += 1;
                match slot.entry.add() {
                    Some(renewed) => {
                        self.auxiliary.push(arm(renewed, now));
                    },
                    None => {},
                }
            } else {
                self.auxiliary.push(slot);
            }
            proof {
                done = done + 1;
                assert(self.auxiliary@ =~= fired(before.take(done), now));
            }
        }
        proof {
            assert(before.take(done) =~= before);
        }
        Fired { primary, auxiliary: count }
    }

    /// Adds `entry` to the set, set at `now` to the next moment at which it
    /// is due.
    pub fn insert(&mut self, entry: S, now: Moment)
        ensures
            final(self)@ == old(self)@.with_entry(entry, now),
    {
        self.auxiliary.push(arm(entry, now));
    }

    /// Removes every timer that was added and leaves the week schedule.
    pub fn clear_auxiliary(&mut self)
        ensures
            final(self)@ == old(self)@.cleared(),
    {
        self.auxiliary.clear();
    }

    /// Keeps `time` for `day` in the week schedule; with no `time`, changes
    /// nothing.
    pub fn change_day_timer(&mut self, day: Day, time: Option<TimeOfDay>, now: Moment)
        ensures
            final(self)@ == old(self)@.with_day_time(day, time, now),
    {
        match time {
            None => {},
            Some(t) => {
                self.primary.entry.set(day, t);
                if day == self.primary.entry.current {
                    self.primary = arm(self.primary.entry, now);
                }
            },
        }
    }
}

} // verus!

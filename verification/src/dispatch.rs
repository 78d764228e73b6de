//! The tick: which timers fire, and what becomes of them.

use crate::clock::LocalClock;
use crate::kinds::TimerType;
use crate::registry::{valid, views, Registry};
use crate::timer::{lemma_every_advances, lemma_first_hit, Timer, TimerView};
use vstd::prelude::*;

verus! {

/// The timers that fire in the tick of the clock, as they are when they
/// fire, in the order of the list.
pub open spec fn fired(timers: Seq<TimerView>, clock: LocalClock) -> Seq<TimerView>
    decreases timers.len(),
{
    if timers.len() == 0 {
        Seq::empty()
    } else if timers.last().fires(clock) {
        fired(timers.drop_last(), clock).push(timers.last())
    } else {
        fired(timers.drop_last(), clock)
    }
}

/// The list after the tick of the clock: a timer that does not fire stays
/// as it is, a `OneShot` timer that fires leaves, any other timer that
/// fires is scheduled for its next firing.
pub open spec fn after_tick(timers: Seq<TimerView>, clock: LocalClock) -> Seq<TimerView>
    decreases timers.len(),
{
    if timers.len() == 0 {
        Seq::empty()
    } else {
        let timer = timers.last();
        let before = after_tick(timers.drop_last(), clock);
        if !timer.fires(clock) {
            before.push(timer)
        } else if timer.kind == TimerType::OneShot {
            before
        } else {
            before.push(timer.rescheduled(clock))
        }
    }
}

/// A timer that fired and was scheduled again is well formed as before,
/// keeps its identifier, and is due later than the tick.
pub proof fn lemma_rescheduled(timer: TimerView, clock: LocalClock)
    requires
        timer.wf(),
        clock.wf(),
        timer.fires(clock),
        timer.kind != TimerType::OneShot,
    ensures
        timer.rescheduled(clock).wf(),
        timer.rescheduled(clock).id == timer.id,
        timer.rescheduled(clock).next_hit > clock.now,
{
    if timer.kind == TimerType::Every {
        lemma_every_advances(timer.next_hit as int, timer.interval as int, clock.now as int);
    } else {
        lemma_first_hit(timer.kind, timer.interval, timer.days, clock);
    }
}

/// Every timer of the list after the tick comes from one of the list
/// before it, with the same identifier; they come in the same order.
proof fn lemma_after_tick_sources(timers: Seq<TimerView>, clock: LocalClock) -> (source: Seq<int>)
    requires
        valid(timers),
        clock.wf(),
    ensures
        source.len() == after_tick(timers, clock).len(),
        forall|j: int|
            0 <= j < source.len() ==> 0 <= #[trigger] source[j] < timers.len() && {
                let from = timers[source[j]];
                let to = after_tick(timers, clock)[j];
                &&& to.id == from.id
                &&& to.wf()
                &&& !from.fires(clock) ==> to == from
                &&& from.fires(clock) ==> from.kind != TimerType::OneShot && to
                    == from.rescheduled(clock) && to.next_hit > clock.now
            },
        forall|j: int, k: int| 0 <= j < k < source.len() ==> source[j] < source[k],
        forall|i: int|
            0 <= i < timers.len() && !((#[trigger] timers[i]).fires(clock) && timers[i].kind
                == TimerType::OneShot) ==> exists|j: int|
                0 <= j < source.len() && #[trigger] source[j] == i,
    decreases timers.len(),
{
    if timers.len() == 0 {
        Seq::empty()
    } else {
        let timer = timers.last();
        let init = timers.drop_last();
        assert(valid(init)) by {
            assert forall|i: int| 0 <= i < init.len() implies (#[trigger] init[i]).wf() by {
                assert(init[i] == timers[i]);
            }
            assert forall|i: int, j: int| 0 <= i < j < init.len() implies (#[trigger] init[i]).id
                != (#[trigger] init[j]).id by {
                assert(init[i] == timers[i]);
                assert(init[j] == timers[j]);
            }
        }
        let before = lemma_after_tick_sources(init, clock);
        assert(timer.wf());
        if timer.fires(clock) && timer.kind != TimerType::OneShot {
            lemma_rescheduled(timer, clock);
        }
        let source = if timer.fires(clock) && timer.kind == TimerType::OneShot {
            before
        } else {
            before.push(timers.len() - 1)
        };
        let after = after_tick(timers, clock);
        assert forall|j: int| 0 <= j < source.len() implies 0 <= #[trigger] source[j]
            < timers.len() && {
            let from = timers[source[j]];
            let to = after[j];
            &&& to.id == from.id
            &&& to.wf()
            &&& !from.fires(clock) ==> to == from
            &&& from.fires(clock) ==> from.kind != TimerType::OneShot && to == from.rescheduled(
                clock,
            ) && to.next_hit > clock.now
        } by {
            if j < before.len() {
                assert(source[j] == before[j]);
                assert(timers[before[j]] == init[before[j]]);
                assert(after[j] == after_tick(init, clock)[j]);
            }
        }
        assert forall|i: int|
            0 <= i < timers.len() && !((#[trigger] timers[i]).fires(clock) && timers[i].kind
                == TimerType::OneShot) implies exists|j: int|
            0 <= j < source.len() && #[trigger] source[j] == i by {
            if i < init.len() {
                assert(timers[i] == init[i]);
                let j = choose|j: int| 0 <= j < before.len() && #[trigger] before[j] == i;
                assert(source[j] == i);
            } else {
                assert(source[source.len() - 1] == i);
            }
        }
        source
    }
}

/// After the tick the list is valid as before.
pub proof fn lemma_after_tick_valid(timers: Seq<TimerView>, clock: LocalClock)
    requires
        valid(timers),
        clock.wf(),
    ensures
        valid(after_tick(timers, clock)),
{
    let source = lemma_after_tick_sources(timers, clock);
    let after = after_tick(timers, clock);
    assert forall|j: int, k: int| 0 <= j < k < after.len() implies (#[trigger] after[j]).id != (
    #[trigger] after[k]).id by {
        assert(source[j] < source[k]);
        assert(timers[source[j]].id != timers[source[k]].id);
    }
    assert forall|j: int| 0 <= j < after.len() implies (#[trigger] after[j]).wf() by {
        assert(0 <= source[j] < timers.len());
    }
}

/// Of every timer that fires in a tick: after the tick either no timer has
/// its identifier, which is so for a `OneShot` timer, or the timer with its
/// identifier is due later than the tick.
pub proof fn lemma_fired_is_gone_or_later(timers: Seq<TimerView>, clock: LocalClock, i: int)
    requires
        valid(timers),
        clock.wf(),
        0 <= i < timers.len(),
        timers[i].fires(clock),
    ensures
        timers[i].kind == TimerType::OneShot ==> forall|j: int|
            0 <= j < after_tick(timers, clock).len() ==> (#[trigger] after_tick(
                timers,
                clock,
            )[j]).id != timers[i].id,
        timers[i].kind != TimerType::OneShot ==> exists|j: int|
            0 <= j < after_tick(timers, clock).len() && (#[trigger] after_tick(timers, clock)[j])
                == timers[i].rescheduled(clock) && after_tick(timers, clock)[j].next_hit
                > clock.now,
        forall|j: int|
            0 <= j < after_tick(timers, clock).len() && (#[trigger] after_tick(
                timers,
                clock,
            )[j]).id == timers[i].id ==> after_tick(timers, clock)[j].next_hit > clock.now,
{
    let source = lemma_after_tick_sources(timers, clock);
    let after = after_tick(timers, clock);
    assert forall|j: int| 0 <= j < after.len() && (#[trigger] after[j]).id
        == timers[i].id implies source[j] == i by {
        let s = source[j];
        if s < i {
            assert(timers[s].id != timers[i].id);
        } else if i < s {
            assert(timers[i].id != timers[s].id);
        }
    }
    if timers[i].kind != TimerType::OneShot {
        let j = choose|j: int| 0 <= j < source.len() && #[trigger] source[j] == i;
        assert(after[j] == timers[i].rescheduled(clock));
    }
}

/// Every timer that fires in a tick is one of the list, and they fire in
/// the order of the list.
proof fn lemma_fired_sources(timers: Seq<TimerView>, clock: LocalClock) -> (source: Seq<int>)
    ensures
        source.len() == fired(timers, clock).len(),
        forall|j: int|
            0 <= j < source.len() ==> 0 <= #[trigger] source[j] < timers.len() && fired(
                timers,
                clock,
            )[j] == timers[source[j]] && timers[source[j]].fires(clock),
        forall|j: int, k: int| 0 <= j < k < source.len() ==> source[j] < source[k],
        forall|i: int|
            0 <= i < timers.len() && (#[trigger] timers[i]).fires(clock) ==> exists|j: int|
                0 <= j < source.len() && #[trigger] source[j] == i,
    decreases timers.len(),
{
    if timers.len() == 0 {
        Seq::empty()
    } else {
        let init = timers.drop_last();
        let before = lemma_fired_sources(init, clock);
        let source = if timers.last().fires(clock) {
            before.push(timers.len() - 1)
        } else {
            before
        };
        assert forall|j: int| 0 <= j < source.len() implies 0 <= #[trigger] source[j]
            < timers.len() && fired(timers, clock)[j] == timers[source[j]]
            && timers[source[j]].fires(clock) by {
            if j < before.len() {
                assert(source[j] == before[j]);
                assert(timers[before[j]] == init[before[j]]);
                assert(fired(timers, clock)[j] == fired(init, clock)[j]);
            }
        }
        assert forall|i: int| 0 <= i < timers.len() && (#[trigger] timers[i]).fires(
            clock,
        ) implies exists|j: int| 0 <= j < source.len() && #[trigger] source[j] == i by {
            if i < init.len() {
                assert(timers[i] == init[i]);
                let j = choose|j: int| 0 <= j < before.len() && #[trigger] before[j] == i;
                assert(source[j] == i);
            } else {
                assert(source[source.len() - 1] == i);
            }
        }
        source
    }
}

/// In a tick a timer fires at most once, and every timer fires that is due
/// on an enabled day: the timers that fire are timers of the list that
/// are due on an enabled day, no two of them have the same identifier, and
/// each such timer of the list is among them.
pub proof fn lemma_fires_once(timers: Seq<TimerView>, clock: LocalClock)
    requires
        valid(timers),
    ensures
        forall|j: int|
            0 <= j < fired(timers, clock).len() ==> (#[trigger] fired(timers, clock)[j]).fires(
                clock,
            ),
        forall|j: int, k: int|
            0 <= j < k < fired(timers, clock).len() ==> (#[trigger] fired(timers, clock)[j]).id
                != (#[trigger] fired(timers, clock)[k]).id,
        forall|i: int|
            0 <= i < timers.len() && (#[trigger] timers[i]).fires(clock) ==> exists|j: int|
                0 <= j < fired(timers, clock).len() && #[trigger] fired(timers, clock)[j]
                    == timers[i],
{
    let source = lemma_fired_sources(timers, clock);
    let due = fired(timers, clock);
    assert forall|j: int| 0 <= j < due.len() implies (#[trigger] due[j]).fires(clock) by {
        assert(0 <= source[j] < timers.len());
    }
    assert forall|j: int, k: int| 0 <= j < k < due.len() implies (#[trigger] due[j]).id != (
    #[trigger] due[k]).id by {
        assert(source[j] < source[k]);
        assert(timers[source[j]].id != timers[source[k]].id);
    }
    assert forall|i: int| 0 <= i < timers.len() && (#[trigger] timers[i]).fires(
        clock,
    ) implies exists|j: int| 0 <= j < due.len() && #[trigger] due[j] == timers[i] by {
        let j = choose|j: int| 0 <= j < source.len() && #[trigger] source[j] == i;
        assert(due[j] == timers[i]);
    }
}

impl Registry {
    /// Carries out the tick of the clock. Every timer that is due, and whose
    /// mask enables the local weekday of the tick, fires: a copy of it, as
    /// it is at that moment, is handed back, in the order of the registry.
    /// A `OneShot` timer that fired leaves the registry, any other is
    /// scheduled for its next firing. A timer that does not fire is left as
    /// it is.
    pub fn tick(&mut self, clock: &LocalClock) -> (due: Vec<Timer>)
        requires
            old(self).wf(),
            clock.wf(),
        ensures
            views(due@) == fired(old(self)@, *clock),
            final(self)@ == after_tick(old(self)@, *clock),
            final(self).wf(),
    {
        let mut due: Vec<Timer> = Vec::new();
        let mut kept: Vec<Timer> = Vec::new();
        let ghost before = self@;
        let timers = self.take_all();
        proof {
            assert(before.take(0) =~= Seq::<TimerView>::empty());
            assert(views(due@) =~= Seq::<TimerView>::empty());
            assert(views(kept@) =~= Seq::<TimerView>::empty());
        }
        for timer in it: timers
            invariant
                it.seq() == timers@,
                views(timers@) == before,
                valid(before),
                clock.wf(),
                views(due@) == fired(before.take(it.index()), *clock),
                views(kept@) == after_tick(before.take(it.index()), *clock),
        {
            let mut timer = timer;
            proof {
                let next = before.take(it.index() + 1);
                assert(next.drop_last() =~= before.take(it.index()));
                assert(next.last() == before[it.index()]);
                assert(timer@ == before[it.index()]);
                assert(timer@.wf());
            }
            if timer.fires(clock) {
                let ghost before_due = views(due@);
                let ghost before_kept = views(kept@);
                let is_one_shot = match timer.kind {
                    TimerType::OneShot => true,
                    _ => false,
                };
                due.push(timer.snapshot());
                assert(views(due@) =~= before_due.push(timer@));
                if !is_one_shot {
                    let ghost fired_timer = timer@;
                    timer.reschedule(clock);
                    kept.push(timer);
                    assert(views(kept@) =~= before_kept.push(fired_timer.rescheduled(*clock)));
                }
            } else {
                let ghost before_kept = views(kept@);
                kept.push(timer);
                assert(views(kept@) =~= before_kept.push(timer@));
            }
        }
        proof {
            assert(before.take(before.len() as int) =~= before);
            lemma_after_tick_valid(before, *clock);
        }
        self.replace(kept);
        due
    }
}

} // verus!

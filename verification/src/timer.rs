//! Timers: what one holds, when it is well formed, and when it fires next.

use crate::clock::LocalClock;
use crate::days::{days_until_next, is_gap, lemma_next_gap, next_gap, some_day};
use crate::kinds::TimerType;
use crate::text::{all_words, copy_texts, join, join_words, texts};
use vstd::arithmetic::div_mod::{lemma_fundamental_div_mod, lemma_mod_bound};
use vstd::prelude::*;
use vstd::std_specs::cmp::PartialEqSpecImpl;

verus! {

/// A timer: a command bound to a schedule.
#[derive(Debug)]
pub struct Timer {
    /// The key of the timer in the registry.
    pub id: String,
    /// How the timer repeats.
    pub kind: TimerType,
    /// Seconds between two firings; for an `At` timer, the second of the local day of its firing.
    pub interval: u64,
    /// The words of the command, to be joined by single spaces and handed to a shell.
    pub command: Vec<String>,
    /// The instant of the next firing, in Unix seconds.
    pub next_hit: u64,
    /// The weekdays on which the timer may fire, Monday first.
    pub days: [bool; 7],
    /// Whether the timer was created by a request rather than read from a file.
    pub dynamic: bool,
}

/// What a timer holds, as mathematical values.
pub ghost struct TimerView {
    pub id: Seq<char>,
    pub kind: TimerType,
    pub interval: nat,
    pub command: Seq<Seq<char>>,
    pub next_hit: nat,
    pub days: Seq<bool>,
    pub dynamic: bool,
}

impl View for Timer {
    type V = TimerView;

    open spec fn view(&self) -> TimerView {
        TimerView {
            id: self.id@,
            kind: self.kind,
            interval: self.interval as nat,
            command: texts(self.command@),
            next_hit: self.next_hit as nat,
            days: self.days@,
            dynamic: self.dynamic,
        }
    }
}

/// Whether an identifier, an interval, a command and a mask can make a
/// timer of the given kind: the identifier is not empty, the interval is
/// below one day and, but for an `At` timer, above zero, the command has at
/// least one word and holds words only, and the mask enables some day.
pub open spec fn valid_parts(
    id: Seq<char>,
    kind: TimerType,
    interval: nat,
    command: Seq<Seq<char>>,
    days: Seq<bool>,
) -> bool {
    &&& id.len() > 0
    &&& interval < 86_400
    &&& kind != TimerType::At ==> interval > 0
    &&& command.len() > 0
    &&& all_words(command)
    &&& days.len() == 7
    &&& some_day(days)
}

impl TimerView {
    /// Whether the timer is well formed: see `valid_parts`.
    pub open spec fn wf(self) -> bool {
        valid_parts(self.id, self.kind, self.interval, self.command, self.days)
    }

    /// The same timer with another instant of its next firing.
    pub open spec fn with_next_hit(self, next_hit: nat) -> TimerView {
        TimerView { next_hit, ..self }
    }

    /// The same timer, said to come from a request or not.
    pub open spec fn with_dynamic(self, dynamic: bool) -> TimerView {
        TimerView { dynamic, ..self }
    }

    /// Whether the timer is due at the instant of the clock.
    pub open spec fn should_run(self, now: int) -> bool {
        self.next_hit <= now
    }

    /// Whether the timer fires in the tick of the clock: it is due, and the
    /// local weekday of the tick is enabled.
    pub open spec fn fires(self, clock: LocalClock) -> bool {
        self.should_run(clock.now as int) && self.days[clock.today()]
    }

    /// The timer after it fired in the tick of the clock. An `Every` timer
    /// moves on by whole intervals until it is past the tick, an `At` timer
    /// is scheduled anew; a `OneShot` timer is left as it is, for it is
    /// removed.
    pub open spec fn rescheduled(self, clock: LocalClock) -> TimerView {
        match self.kind {
            TimerType::Every => self.with_next_hit(
                advanced(self.next_hit as int, self.interval as int, clock.now as int) as nat,
            ),
            TimerType::At => self.with_next_hit(
                first_hit(self.kind, self.interval, self.days, clock) as nat,
            ),
            TimerType::OneShot => self,
        }
    }
}

/// The instant at which a timer first fires when it is scheduled at the
/// instant of the clock. Today, where the moment is still to come and today
/// is enabled: for an `At` timer the local midnight plus the interval, for
/// the others now plus the interval. Otherwise the next enabled day, at its
/// local midnight plus the interval.
pub open spec fn first_hit(
    kind: TimerType,
    interval: nat,
    days: Seq<bool>,
    clock: LocalClock,
) -> int {
    let candidate = if kind == TimerType::At {
        clock.midnight() + interval
    } else {
        clock.now + interval
    };
    if candidate > clock.now && days[clock.today()] && (kind == TimerType::At ==> candidate
        < clock.midnight() + 86_400) {
        candidate
    } else {
        clock.midnight() + next_gap(days, clock.today()) * 86_400 + interval
    }
}

/// How many intervals an `Every` timer moves on when it fires at `now`: as
/// many as it takes to get past `now`, and one at least.
pub open spec fn steps(next_hit: int, interval: int, now: int) -> int {
    if next_hit > now {
        1
    } else {
        (now - next_hit) / interval + 1
    }
}

/// The next firing of an `Every` timer that fires at `now`.
pub open spec fn advanced(next_hit: int, interval: int, now: int) -> int {
    next_hit + steps(next_hit, interval, now) * interval
}

/// An `Every` timer that fires moves on by a positive number of whole
/// intervals: by the least number of them that takes it past the tick.
pub proof fn lemma_every_advances(next_hit: int, interval: int, now: int)
    requires
        interval > 0,
        next_hit <= now,
    ensures
        steps(next_hit, interval, now) >= 1,
        advanced(next_hit, interval, now) - next_hit == steps(next_hit, interval, now) * interval,
        advanced(next_hit, interval, now) > now,
        advanced(next_hit, interval, now) - interval <= now,
        forall|m: int|
            1 <= m < steps(next_hit, interval, now) ==> next_hit + #[trigger] (m * interval)
                <= now,
{
    let x = now - next_hit;
    let q = x / interval;
    lemma_fundamental_div_mod(x, interval);
    lemma_mod_bound(x, interval);
    assert((q + 1) * interval == interval * q + interval) by (nonlinear_arith);
    assert(q >= 0) by (nonlinear_arith)
        requires
            x >= 0,
            interval > 0,
            x == interval * q + x % interval,
            0 <= x % interval < interval,
    ;
    assert forall|m: int| 1 <= m < q + 1 implies next_hit + #[trigger] (m * interval) <= now by {
        assert(m * interval <= q * interval) by (nonlinear_arith)
            requires
                m <= q,
                interval > 0,
        ;
        assert(q * interval == interval * q) by (nonlinear_arith);
    }
}

/// An `Every` timer that fires before a whole interval has passed since it
/// was due moves on by exactly one interval.
pub proof fn lemma_every_prompt(next_hit: int, interval: int, now: int)
    requires
        interval > 0,
        next_hit <= now < next_hit + interval,
    ensures
        advanced(next_hit, interval, now) == next_hit + interval,
{
    let x = now - next_hit;
    vstd::arithmetic::div_mod::lemma_basic_div(x, interval);
    assert(1 * interval == interval) by (nonlinear_arith);
}

/// Where a timer is first scheduled. The instant is later than now and at
/// most a week and a day away. Unless it is an `Every` or `OneShot` timer
/// started today, it lies on an enabled local weekday, at exactly the
/// interval past local midnight.
pub proof fn lemma_first_hit(kind: TimerType, interval: nat, days: Seq<bool>, clock: LocalClock)
    requires
        clock.wf(),
        interval < 86_400,
        kind != TimerType::At ==> interval > 0,
        days.len() == 7,
        some_day(days),
    ensures
        first_hit(kind, interval, days, clock) > clock.now,
        first_hit(kind, interval, days, clock) <= clock.now + 8 * 86_400,
        kind == TimerType::At ==> clock.second_of_day(first_hit(kind, interval, days, clock))
            == interval,
        kind == TimerType::At ==> days[clock.weekday_of(first_hit(kind, interval, days, clock))],
        kind != TimerType::At ==> first_hit(kind, interval, days, clock) == clock.now + interval
            || (clock.second_of_day(first_hit(kind, interval, days, clock)) == interval
            && days[clock.weekday_of(first_hit(kind, interval, days, clock))]),
{
    let today = clock.today();
    lemma_next_gap(days, today);
    let d = next_gap(days, today);
    assert(is_gap(days, today, d));
    let hit = first_hit(kind, interval, days, clock);
    let local = clock.now + clock.offset;
    let q = local / 86_400;
    assert(clock.midnight() + clock.offset == q * 86_400);
    if hit == clock.midnight() + d * 86_400 + interval {
        assert(hit + clock.offset == (q + d) * 86_400 + interval);
        assert((hit + clock.offset) / 86_400 == q + d);
        assert((q + d + 3) % 7 == ((q + 3) % 7 + d) % 7);
    } else if kind == TimerType::At {
        assert(hit + clock.offset == q * 86_400 + interval);
    }
}

/// A weekday moved on by a number of days.
proof fn lemma_weekday_shift(q: int, e: int)
    ensures
        (q + e + 3) % 7 == ((q + 3) % 7 + e) % 7,
{
}

/// Two instants at the same second of the local day differ by whole days.
proof fn lemma_same_second(x: int, r: int)
    requires
        0 <= r < 86_400,
        x % 86_400 == r,
    ensures
        x == (x / 86_400) * 86_400 + r,
{
}

/// An `At` timer is scheduled at the earliest instant after now that lies on
/// an enabled local weekday at exactly the interval past local midnight.
pub proof fn lemma_at_hit_is_earliest(interval: nat, days: Seq<bool>, clock: LocalClock, t: int)
    requires
        clock.wf(),
        interval < 86_400,
        days.len() == 7,
        some_day(days),
        clock.now < t < first_hit(TimerType::At, interval, days, clock),
    ensures
        !(clock.second_of_day(t) == interval && days[clock.weekday_of(t)]),
{
    let today = clock.today();
    lemma_next_gap(days, today);
    let d = next_gap(days, today);
    let local = clock.now + clock.offset;
    let q = local / 86_400;
    let r = local % 86_400;
    let hit = first_hit(TimerType::At, interval, days, clock);
    if clock.second_of_day(t) == interval {
        let lt = t + clock.offset;
        let qt = lt / 86_400;
        let e = qt - q;
        lemma_same_second(lt, interval as int);
        assert(lt == qt * 86_400 + interval);
        assert(local == q * 86_400 + r);
        assert(lt > local);
        assert(e >= 0);
        assert(clock.midnight() + clock.offset == q * 86_400);
        let same_day = interval > r && days[today];
        if same_day {
            assert(hit + clock.offset == q * 86_400 + interval);
            assert(lt < hit + clock.offset);
        } else {
            assert(hit + clock.offset == (q + d) * 86_400 + interval);
            assert(e < d);
            assert(clock.weekday_of(t) == (qt + 3) % 7);
            if e == 0 {
                assert(interval > r);
                assert(clock.weekday_of(t) == today);
            } else {
                lemma_weekday_shift(q, e);
                assert(!days[(today + e) % 7]);
            }
        }
    }
}

impl Timer {
    /// A timer from its parts, scheduled for the first time at the instant of the clock.
    pub fn new(
        id: String,
        kind: TimerType,
        interval: u64,
        command: Vec<String>,
        days: [bool; 7],
        dynamic: bool,
        clock: &LocalClock,
    ) -> (timer: Timer)
        requires
            valid_parts(id@, kind, interval as nat, texts(command@), days@),
            clock.wf(),
        ensures
            timer@ == (TimerView {
                id: id@,
                kind,
                interval: interval as nat,
                command: texts(command@),
                next_hit: first_hit(kind, interval as nat, days@, *clock) as nat,
                days: days@,
                dynamic,
            }),
            timer@.wf(),
            timer.next_hit > clock.now,
    {
        let mut timer = Timer { id, kind, interval, command, next_hit: 0, days, dynamic };
        timer.calculate_next_hit(clock);
        timer
    }

    /// Schedules the timer anew, as if it were created at the instant of the
    /// clock. A timer that has fired is scheduled by `reschedule`, which
    /// does this for an `At` timer only.
    pub fn calculate_next_hit(&mut self, clock: &LocalClock)
        requires
            old(self)@.wf(),
            clock.wf(),
        ensures
            final(self)@ == old(self)@.with_next_hit(
                first_hit(old(self).kind, old(self).interval as nat, old(self).days@, *clock) as nat,
            ),
            final(self).next_hit > clock.now,
    {
        proof {
            lemma_first_hit(self.kind, self.interval as nat, self.days@, *clock);
            lemma_next_gap(self.days@, clock.today());
        }
        let since_midnight = clock.seconds_since_midnight();
        let today = clock.weekday();
        let is_at = match self.kind {
            TimerType::At => true,
            _ => false,
        };
        if is_at && self.interval > since_midnight && self.days[today] {
            self.next_hit = clock.now + (self.interval - since_midnight);
        } else if !is_at && self.interval > 0 && self.days[today] {
            self.next_hit = clock.now + self.interval;
        } else {
            let gap = days_until_next(&self.days, today);
            self.next_hit = clock.now + gap * 86_400 + self.interval - since_midnight;
        }
    }

    /// Whether the timer is due: its next firing is now or in the past.
    pub fn should_run(&self, now: u64) -> (due: bool)
        ensures
            due == self@.should_run(now as int),
            due == (self.next_hit <= now),
    {
        self.next_hit <= now
    }

    /// Whether the timer fires in the tick of the clock: it is due, and the
    /// local weekday of the tick is enabled.
    pub fn fires(&self, clock: &LocalClock) -> (yes: bool)
        requires
            clock.wf(),
        ensures
            yes == self@.fires(*clock),
    {
        self.next_hit <= clock.now && self.days[clock.weekday()]
    }

    /// Schedules a timer that has just fired in the tick of the clock. An
    /// `Every` timer moves on by whole intervals until it is past the tick:
    /// by one interval where that is enough, and else by the least number
    /// of intervals that is. The day mask plays no part in that. An `At`
    /// timer is scheduled anew. A `OneShot` timer is left as it is: it is
    /// to be removed.
    pub fn reschedule(&mut self, clock: &LocalClock)
        requires
            old(self)@.wf(),
            clock.wf(),
            old(self).next_hit <= clock.now,
        ensures
            final(self)@ == old(self)@.rescheduled(*clock),
            final(self)@.wf(),
            old(self).kind != TimerType::OneShot ==> final(self).next_hit > clock.now,
            old(self).kind == TimerType::Every ==> final(self).next_hit - old(self).next_hit
                == steps(old(self).next_hit as int, old(self).interval as int, clock.now as int)
                * old(self).interval && steps(
                old(self).next_hit as int,
                old(self).interval as int,
                clock.now as int,
            ) >= 1,
            old(self).kind == TimerType::Every ==> final(self).next_hit - old(self).interval
                <= clock.now,
            old(self).kind == TimerType::Every && old(self).next_hit + old(self).interval
                > clock.now ==> final(self).next_hit == old(self).next_hit + old(self).interval,
    {
        match self.kind {
            TimerType::Every => {
                let behind: u64 = clock.now - self.next_hit;
                let whole: u64 = behind / self.interval;
                proof {
                    lemma_every_advances(
                        self.next_hit as int,
                        self.interval as int,
                        clock.now as int,
                    );
                    if self.next_hit + self.interval > clock.now {
                        lemma_every_prompt(
                            self.next_hit as int,
                            self.interval as int,
                            clock.now as int,
                        );
                    }
                    lemma_fundamental_div_mod(behind as int, self.interval as int);
                    lemma_mod_bound(behind as int, self.interval as int);
                    assert((whole + 1) * self.interval == self.interval * whole + self.interval)
                        by (nonlinear_arith);
                }
                let add: u64 = (whole + 1) * self.interval;
                self.next_hit = self.next_hit + add;
            },
            TimerType::At => {
                self.calculate_next_hit(clock);
            },
            TimerType::OneShot => {},
        }
    }

    /// The command as one line: its words with single spaces between them.
    pub fn command_line(&self) -> (line: String)
        ensures
            line@ == join(self@.command),
    {
        join_words(&self.command)
    }

    /// A copy of the timer, to hand to whoever runs its command.
    pub fn snapshot(&self) -> (copy: Timer)
        ensures
            copy@ == self@,
    {
        Timer {
            id: self.id.clone(),
            kind: self.kind,
            interval: self.interval,
            command: copy_texts(&self.command),
            next_hit: self.next_hit,
            days: self.days,
            dynamic: self.dynamic,
        }
    }
}

/// Two timers are the same timer where they have the same identifier.
impl PartialEq for Timer {
    fn eq(&self, other: &Self) -> (r: bool) {
        self.id == other.id
    }
}

impl PartialEqSpecImpl for Timer {
    open spec fn obeys_eq_spec() -> bool {
        true
    }

    open spec fn eq_spec(&self, other: &Self) -> bool {
        self.id@ == other.id@
    }
}

impl Eq for Timer {

}

} // verus!

//! The registry: the timers that are active, in the order in which they came,
//! no two of them with the same identifier.

use crate::clock::LocalClock;
use crate::config::Config;
use crate::parse::{parsed, ParseError};
use crate::text::same_text;
use crate::timer::{Timer, TimerView};
use vstd::prelude::*;

verus! {

/// Why a request on the registry was not carried out.
#[derive(Clone, Copy, Debug, PartialEq, Eq, Structural)]
pub enum ControlError {
    /// No active timer has the identifier.
    NotFound,
    /// An active timer has the identifier already.
    AlreadyExists,
    /// The configuration gives no timer.
    Parse(ParseError),
    /// The instant of a next firing cannot be shown as a date.
    Internal,
}

/// What a list of timers holds, as mathematical values.
pub open spec fn views(timers: Seq<Timer>) -> Seq<TimerView> {
    Seq::new(timers.len(), |i: int| timers[i]@)
}

/// No two timers of the list have the same identifier.
pub open spec fn distinct_ids(timers: Seq<TimerView>) -> bool {
    forall|i: int, j: int|
        0 <= i < j < timers.len() ==> (#[trigger] timers[i]).id != (#[trigger] timers[j]).id
}

/// Every timer of the list is well formed.
pub open spec fn all_wf(timers: Seq<TimerView>) -> bool {
    forall|i: int| 0 <= i < timers.len() ==> (#[trigger] timers[i]).wf()
}

/// What holds of the timers of a registry at all times.
pub open spec fn valid(timers: Seq<TimerView>) -> bool {
    all_wf(timers) && distinct_ids(timers)
}

/// How many timers stand before the first one with the identifier; the
/// length of the list where none has it.
pub open spec fn position(timers: Seq<TimerView>, id: Seq<char>) -> nat
    decreases timers.len(),
{
    if timers.len() == 0 || timers[0].id == id {
        0
    } else {
        1 + position(timers.drop_first(), id)
    }
}

/// Whether a timer of the list has the identifier.
pub open spec fn has_id(timers: Seq<TimerView>, id: Seq<char>) -> bool {
    position(timers, id) < timers.len()
}

/// `position` stops at the first timer with the identifier, or at the end.
pub proof fn lemma_position(timers: Seq<TimerView>, id: Seq<char>)
    ensures
        position(timers, id) <= timers.len(),
        forall|k: int| 0 <= k < position(timers, id) ==> (#[trigger] timers[k]).id != id,
        has_id(timers, id) ==> timers[position(timers, id) as int].id == id,
    decreases timers.len(),
{
    if timers.len() != 0 && timers[0].id != id {
        let rest = timers.drop_first();
        lemma_position(rest, id);
        assert forall|k: int| 0 <= k < position(timers, id) implies (#[trigger] timers[k]).id
            != id by {
            if k > 0 {
                assert(timers[k] == rest[k - 1]);
            }
        }
        if has_id(timers, id) {
            assert(timers[position(timers, id) as int] == rest[position(rest, id) as int]);
        }
    }
}

/// An index with no timer of the identifier before it that holds one, or is
/// the end, is where `position` stops.
pub proof fn lemma_position_is(timers: Seq<TimerView>, id: Seq<char>, n: int)
    requires
        0 <= n <= timers.len(),
        forall|k: int| 0 <= k < n ==> (#[trigger] timers[k]).id != id,
        n < timers.len() ==> timers[n].id == id,
    ensures
        position(timers, id) == n,
{
    lemma_position(timers, id);
    let p = position(timers, id) as int;
    if p < n {
        assert(timers[p].id != id);
    } else if n < p {
        assert(timers[n].id != id);
    }
}

/// The list without the first timer that has the identifier.
pub open spec fn purged(timers: Seq<TimerView>, id: Seq<char>) -> Seq<TimerView> {
    if has_id(timers, id) {
        timers.remove(position(timers, id) as int)
    } else {
        timers
    }
}

/// The list with the timer in the place of the first one that has its
/// identifier, or at the end where none has it.
pub open spec fn upserted(timers: Seq<TimerView>, timer: TimerView) -> Seq<TimerView> {
    if has_id(timers, timer.id) {
        timers.update(position(timers, timer.id) as int, timer)
    } else {
        timers.push(timer)
    }
}

/// Putting a timer into a valid list keeps the list valid.
pub proof fn lemma_upserted_valid(timers: Seq<TimerView>, timer: TimerView)
    requires
        valid(timers),
        timer.wf(),
    ensures
        valid(upserted(timers, timer)),
{
    lemma_position(timers, timer.id);
    let after = upserted(timers, timer);
    let p = position(timers, timer.id) as int;
    assert forall|i: int, j: int| 0 <= i < j < after.len() implies (#[trigger] after[i]).id != (
    #[trigger] after[j]).id by {
        if has_id(timers, timer.id) {
            if i == p {
                assert(timers[i].id != timers[j].id);
            } else if j == p {
                assert(timers[i].id != timers[j].id);
            } else {
                assert(timers[i].id != timers[j].id);
            }
        } else {
            if j == timers.len() {
                assert(timers[i].id != timer.id);
            } else {
                assert(timers[i].id != timers[j].id);
            }
        }
    }
}

/// Putting the same timer into a list a second time changes nothing.
pub proof fn lemma_upsert_twice(timers: Seq<TimerView>, timer: TimerView)
    ensures
        upserted(upserted(timers, timer), timer) == upserted(timers, timer),
{
    lemma_position(timers, timer.id);
    let once = upserted(timers, timer);
    let p = position(timers, timer.id) as int;
    assert forall|k: int| 0 <= k < p implies (#[trigger] once[k]).id != timer.id by {
        assert(once[k] == timers[k]);
    }
    lemma_position_is(once, timer.id, p);
    assert(upserted(once, timer) =~= once);
}

/// Taking out a timer that was just added to a list without its identifier
/// gives the list as it was.
pub proof fn lemma_add_then_purge(timers: Seq<TimerView>, timer: TimerView)
    requires
        !has_id(timers, timer.id),
    ensures
        purged(timers.push(timer), timer.id) == timers,
{
    lemma_position(timers, timer.id);
    let added = timers.push(timer);
    assert forall|k: int| 0 <= k < timers.len() implies (#[trigger] added[k]).id != timer.id by {
        assert(added[k] == timers[k]);
    }
    lemma_position_is(added, timer.id, timers.len() as int);
    assert(added.remove(timers.len() as int) =~= timers);
}

/// The list after a request to create the timer that a configuration
/// describes, at the instant of the clock: the timer, marked as dynamic,
/// stands at the end, unless the configuration gives no timer or a timer
/// with its identifier is in the list already.
pub open spec fn created(
    timers: Seq<TimerView>,
    config: Map<Seq<char>, Seq<char>>,
    clock: LocalClock,
) -> Seq<TimerView> {
    match parsed(config, clock) {
        Ok(timer) => if has_id(timers, timer.id) {
            timers
        } else {
            timers.push(timer.with_dynamic(true))
        },
        Err(_) => timers,
    }
}

/// The answer to a request to create a timer.
pub open spec fn create_answer(
    timers: Seq<TimerView>,
    config: Map<Seq<char>, Seq<char>>,
    clock: LocalClock,
) -> Result<(), ControlError> {
    match parsed(config, clock) {
        Ok(timer) => if has_id(timers, timer.id) {
            Err(ControlError::AlreadyExists)
        } else {
            Ok(())
        },
        Err(e) => Err(ControlError::Parse(e)),
    }
}

/// The list after a request to refresh the timer `id` from the
/// configuration of its file, at the instant of the clock: the timer that
/// the configuration describes under that identifier stands in the place of
/// the one with the identifier, or at the end. Nothing changes where the
/// configuration gives no timer.
pub open spec fn refreshed(
    timers: Seq<TimerView>,
    id: Seq<char>,
    config: Map<Seq<char>, Seq<char>>,
    clock: LocalClock,
) -> Seq<TimerView> {
    match parsed(config.insert("id"@, id), clock) {
        Ok(timer) => upserted(timers, timer),
        Err(_) => timers,
    }
}

/// The answer to a request to refresh a timer.
pub open spec fn refresh_answer(
    id: Seq<char>,
    config: Map<Seq<char>, Seq<char>>,
    clock: LocalClock,
) -> Result<(), ControlError> {
    match parsed(config.insert("id"@, id), clock) {
        Ok(_) => Ok(()),
        Err(e) => Err(ControlError::Parse(e)),
    }
}

/// A request to refresh a timer that is carried out a second time, with
/// the same file and at the same instant, changes nothing.
pub proof fn lemma_refresh_twice(
    timers: Seq<TimerView>,
    id: Seq<char>,
    config: Map<Seq<char>, Seq<char>>,
    clock: LocalClock,
)
    ensures
        refreshed(refreshed(timers, id, config, clock), id, config, clock) == refreshed(
            timers,
            id,
            config,
            clock,
        ),
{
    match parsed(config.insert("id"@, id), clock) {
        Ok(timer) => lemma_upsert_twice(timers, timer),
        Err(_) => {},
    }
}

/// A request to create a timer that is carried out, followed by a request
/// to purge the timer, leaves the list as it was.
pub proof fn lemma_create_then_purge(
    timers: Seq<TimerView>,
    config: Map<Seq<char>, Seq<char>>,
    clock: LocalClock,
)
    requires
        create_answer(timers, config, clock) is Ok,
    ensures
        purged(created(timers, config, clock), parsed(config, clock)->Ok_0.id) == timers,
{
    let timer = parsed(config, clock)->Ok_0;
    lemma_add_then_purge(timers, timer.with_dynamic(true));
}

/// The active timers.
pub struct Registry {
    timers: Vec<Timer>,
}

impl View for Registry {
    type V = Seq<TimerView>;

    closed spec fn view(&self) -> Seq<TimerView> {
        views(self.timers@)
    }
}

impl Registry {
    /// What holds of a registry at all times: every timer is well formed,
    /// and no two have the same identifier.
    pub open spec fn wf(&self) -> bool {
        valid(self@)
    }

    /// A registry without timers.
    pub fn new() -> (registry: Registry)
        ensures
            registry@ == Seq::<TimerView>::empty(),
            registry.wf(),
    {
        let registry = Registry { timers: Vec::new() };
        assert(registry@ =~= Seq::<TimerView>::empty());
        registry
    }

    /// The index of the timer with the identifier, if there is one.
    pub fn find(&self, id: &str) -> (found: Option<usize>)
        ensures
            match found {
                Some(i) => has_id(self@, id@) && i == position(self@, id@),
                None => !has_id(self@, id@),
            },
    {
        let mut i: usize = 0;
        while i < self.timers.len()
            invariant
                i <= self.timers.len(),
                forall|k: int| 0 <= k < i ==> (#[trigger] self@[k]).id != id@,
            decreases self.timers.len() - i,
        {
            if same_text(self.timers[i].id.as_str(), id) {
                proof {
                    lemma_position_is(self@, id@, i as int);
                }
                return Some(i);
            }
            i += 1;
        }
        proof {
            lemma_position_is(self@, id@, i as int);
        }
        None
    }

    /// Puts a timer into the registry: in the place of the one that has its
    /// identifier, or at the end where none has it.
    pub fn upsert(&mut self, timer: Timer)
        requires
            old(self).wf(),
            timer@.wf(),
        ensures
            final(self)@ == upserted(old(self)@, timer@),
            final(self).wf(),
    {
        proof {
            lemma_upserted_valid(self@, timer@);
        }
        match self.find(timer.id.as_str()) {
            Some(i) => {
                self.timers[i] = timer;
            },
            None => {
                self.timers.push(timer);
            },
        }
        assert(self@ =~= upserted(old(self)@, timer@));
    }

    /// Takes the timer with the identifier out of the registry.
    pub fn purge(&mut self, id: &str) -> (r: Result<(), ControlError>)
        requires
            old(self).wf(),
        ensures
            final(self)@ == purged(old(self)@, id@),
            final(self).wf(),
            r == if has_id(old(self)@, id@) {
                Ok::<(), ControlError>(())
            } else {
                Err::<(), ControlError>(ControlError::NotFound)
            },
    {
        match self.find(id) {
            Some(i) => {
                self.timers.remove(i);
                assert(self@ =~= purged(old(self)@, id@));
                assert(valid(self@)) by {
                    let before = old(self)@;
                    let after = self@;
                    assert forall|a: int, b: int| 0 <= a < b < after.len() implies (
                    #[trigger] after[a]).id != (#[trigger] after[b]).id by {
                        let x = if a < i { a } else { a + 1 };
                        let y = if b < i { b } else { b + 1 };
                        assert(before[x].id != before[y].id);
                    }
                    assert forall|a: int| 0 <= a < after.len() implies (#[trigger] after[a]).wf() by {
                        let x = if a < i { a } else { a + 1 };
                        assert(before[x].wf());
                    }
                }
                Ok(())
            },
            None => Err(ControlError::NotFound),
        }
    }

    /// Creates a timer from the fields of a request, scheduled at the instant
    /// of the clock and marked as dynamic. Nothing changes where the
    /// configuration gives no timer, or where a timer with the identifier
    /// is active already.
    pub fn create(&mut self, config: &Config, clock: &LocalClock) -> (r: Result<(), ControlError>)
        requires
            old(self).wf(),
            clock.wf(),
        ensures
            final(self).wf(),
            r == create_answer(old(self)@, config@, *clock),
            final(self)@ == created(old(self)@, config@, *clock),
    {
        let mut timer = match Timer::from_config(config, clock) {
            Ok(timer) => timer,
            Err(e) => return Err(ControlError::Parse(e)),
        };
        timer.dynamic = true;
        match self.find(timer.id.as_str()) {
            Some(_) => Err(ControlError::AlreadyExists),
            None => {
                proof {
                    lemma_upserted_valid(self@, timer@);
                }
                self.timers.push(timer);
                assert(self@ =~= old(self)@.push(timer@));
                Ok(())
            },
        }
    }

    /// Reads the timer with the identifier anew from the configuration of
    /// its file, schedules it at the instant of the clock and puts it into
    /// the registry, in the place of the one it had or at the end. Nothing
    /// changes where the configuration gives no timer.
    pub fn refresh(&mut self, id: &str, config: Config, clock: &LocalClock) -> (r: Result<
        (),
        ControlError,
    >)
        requires
            old(self).wf(),
            clock.wf(),
        ensures
            final(self).wf(),
            r == refresh_answer(id@, config@, *clock),
            final(self)@ == refreshed(old(self)@, id@, config@, *clock),
    {
        let mut config = config;
        config.insert("id", id);
        match Timer::from_config(&config, clock) {
            Ok(timer) => {
                self.upsert(timer);
                Ok(())
            },
            Err(e) => Err(ControlError::Parse(e)),
        }
    }

    /// The timer at an index.
    pub(crate) fn timer_at(&self, i: usize) -> (timer: &Timer)
        requires
            i < self@.len(),
        ensures
            timer@ == self@[i as int],
    {
        &self.timers[i]
    }

    /// Takes the list of timers out of the registry, which is left empty.
    pub(crate) fn take_all(&mut self) -> (timers: Vec<Timer>)
        ensures
            views(timers@) == old(self)@,
            final(self)@ == Seq::<TimerView>::empty(),
    {
        let mut timers: Vec<Timer> = Vec::new();
        std::mem::swap(&mut timers, &mut self.timers);
        assert(self@ =~= Seq::<TimerView>::empty());
        timers
    }

    /// Puts another list of timers in the place of the one the registry has.
    pub(crate) fn replace(&mut self, timers: Vec<Timer>)
        ensures
            final(self)@ == views(timers@),
    {
        self.timers = timers;
    }

    /// How many timers are active.
    pub fn len(&self) -> (n: usize)
        ensures
            n == self@.len(),
    {
        self.timers.len()
    }

    /// A copy of the timer with the identifier, if there is one.
    pub fn get(&self, id: &str) -> (r: Option<Timer>)
        ensures
            match r {
                Some(timer) => has_id(self@, id@) && timer@ == self@[position(self@, id@) as int],
                None => !has_id(self@, id@),
            },
    {
        match self.find(id) {
            Some(i) => Some(self.timers[i].snapshot()),
            None => None,
        }
    }
}

} // verus!

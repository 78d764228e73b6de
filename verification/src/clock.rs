//! The local clock: an instant in Unix seconds together with the local
//! offset from UTC, and what follows from the two by arithmetic: the second
//! of the local day, the most recent local midnight and the local weekday.

use crate::stamp::{has_date, local_moment, MAX_DATED};
use vstd::prelude::*;

verus! {

/// Seconds in a day.
pub const DAY: u64 = 86_400;

/// The latest instant the clock accepts: the largest signed 64-bit number of seconds.
pub const MAX_INSTANT: u64 = 0x7fff_ffff_ffff_ffff;

/// An instant and the local offset from UTC that holds at it.
#[derive(Clone, Copy, Debug, PartialEq, Eq, Structural)]
pub struct LocalClock {
    /// Seconds since the Unix epoch.
    pub now: u64,
    /// Seconds to add to UTC to get local time.
    pub offset: i32,
}

impl LocalClock {
    /// The instant is no later than `MAX_INSTANT`, and the offset is less than a day either way.
    pub open spec fn wf(self) -> bool {
        &&& self.now <= MAX_INSTANT
        &&& -86_400 < self.offset < 86_400
    }

    /// The second of the local day at instant `t`, from 0 to 86399.
    pub open spec fn second_of_day(self, t: int) -> int {
        (t + self.offset) % 86_400
    }

    /// The number of the local day of instant `t`, counted from the day of the epoch.
    pub open spec fn day_of(self, t: int) -> int {
        (t + self.offset) / 86_400
    }

    /// The local weekday of instant `t`, Monday being 0. The day of the epoch was a Thursday.
    pub open spec fn weekday_of(self, t: int) -> int {
        (self.day_of(t) + 3) % 7
    }

    /// The most recent local midnight, in Unix seconds.
    pub open spec fn midnight(self) -> int {
        self.now - self.second_of_day(self.now as int)
    }

    /// The local weekday now, Monday being 0.
    pub open spec fn today(self) -> int {
        self.weekday_of(self.now as int)
    }

    /// A clock from an instant and an offset; `None` where one of them is out of range.
    pub fn new(now: u64, offset: i32) -> (r: Option<LocalClock>)
        ensures
            r == if (LocalClock { now, offset }).wf() {
                Some(LocalClock { now, offset })
            } else {
                None
            },
    {
        if now <= MAX_INSTANT && -86_400 < offset && offset < 86_400 {
            Some(LocalClock { now, offset })
        } else {
            None
        }
    }

    /// The instant moved by the offset and by one more day, which keeps it from going below zero.
    fn shifted(&self) -> (s: u64)
        requires
            self.wf(),
        ensures
            s == self.now + self.offset + 86_400,
    {
        let lift: u64 = (self.offset + 86_400) as u64;
        self.now + lift
    }

    /// Seconds since the most recent local midnight.
    pub fn seconds_since_midnight(&self) -> (s: u64)
        requires
            self.wf(),
        ensures
            s == self.second_of_day(self.now as int),
            s < 86_400,
            s == self.now - self.midnight(),
    {
        self.shifted() % 86_400
    }

    /// The local weekday now, Monday being 0.
    pub fn weekday(&self) -> (d: usize)
        requires
            self.wf(),
        ensures
            d == self.today(),
            d < 7,
    {
        ((self.shifted() / 86_400 + 2) % 7) as usize
    }

    /// The clock at a given instant, with the offset that the machine's time
    /// zone has at it. There is one for every instant for which the
    /// calendar has a date, and for no other; it has one for every instant
    /// up to `MAX_DATED`.
    pub fn at(now: u64) -> (r: Option<LocalClock>)
        ensures
            r is Some <==> has_date(now as int),
            now <= MAX_DATED ==> r is Some,
            r matches Some(clock) ==> clock.wf() && clock.now == now,
    {
        if now > MAX_INSTANT {
            return None;
        }
        match local_moment(now as i64) {
            Some(moment) => Some(LocalClock { now, offset: moment.0 }),
            None => None,
        }
    }

    /// The clock as the machine has it at the moment of the call. `None`
    /// where the machine's time is before the epoch or out of range.
    pub fn read() -> (r: Option<LocalClock>)
        ensures
            r matches Some(clock) ==> clock.wf(),
    {
        match unix_seconds() {
            Some(now) => Self::at(now),
            None => None,
        }
    }
}

/// Reads the machine's clock (`SystemTime::now`) as whole seconds since the
/// Unix epoch; `None` where the clock stands before the epoch. Nothing is
/// claimed of the number.
#[verifier::external_body]
fn unix_seconds() -> (r: Option<u64>) {
    match std::time::SystemTime::now().duration_since(std::time::UNIX_EPOCH) {
        Ok(elapsed) => Some(elapsed.as_secs()),
        Err(_) => None,
    }
}

} // verus!

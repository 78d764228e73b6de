//! Calendar dates and times of day, and their text `YYYY-MM-DD HH:MM:SS`.

use crate::clock::{LocalClock, MAX_INSTANT};
use crate::decimal::{push_decimal, zero_padded};
use crate::text::string_of;
use chrono::{DateTime, Datelike, Local, TimeZone, Timelike};
use vstd::prelude::*;

verus! {

/// A calendar date with a time of day.
#[derive(Clone, Copy, Debug, PartialEq, Eq, Structural)]
pub struct Stamp {
    pub year: i32,
    pub month: u32,
    pub day: u32,
    pub hour: u32,
    pub minute: u32,
    pub second: u32,
}

/// The calendar date and time of day, in UTC, of an instant given in Unix
/// seconds, as chrono's `DateTime::from_timestamp` has it: year, month, day,
/// hour, minute, second. `None` where chrono has no date for the instant.
pub uninterp spec fn utc_calendar(secs: int) -> Option<(int, int, int, int, int, int)>;

/// The last instant for which chrono's calendar has a date: the last second
/// of its last year, 262142.
pub const MAX_DATED: u64 = 8_210_266_876_799;

/// Whether the calendar has a date for an instant that the clock accepts.
pub open spec fn has_date(secs: int) -> bool {
    0 <= secs <= MAX_INSTANT && utc_calendar(secs) is Some
}

/// Whether a stamp is the date and time of day of an instant in a time zone
/// that is `offset` seconds ahead of UTC: the offset is less than a day
/// either way, the fields are such as a calendar has them, and the stamp
/// is the date and time of day, in UTC, of the instant moved by the
/// offset, where the calendar has a date for that.
pub open spec fn is_local(secs: int, offset: int, stamp: Stamp) -> bool {
    &&& -86_400 < offset < 86_400
    &&& stamp.in_range()
    &&& utc_calendar(secs + offset) is Some ==> utc_calendar(secs + offset) == Some(
        stamp.fields(),
    )
}

/// Whether a stamp is the date and time of day of an instant in some time zone.
pub open spec fn has_local(secs: int, stamp: Stamp) -> bool {
    exists|offset: int| #[trigger] is_local(secs, offset, stamp)
}

/// The year as text: its digits, with zeros in front up to `width`
/// characters, the sign of a negative year counted among them.
pub open spec fn year_text(year: int, width: nat) -> Seq<char> {
    if year < 0 {
        seq!['-'] + zero_padded((-year) as nat, if width >= 1 {
            (width - 1) as nat
        } else {
            0
        })
    } else {
        zero_padded(year as nat, width)
    }
}

impl Stamp {
    /// The six numbers of the stamp.
    pub open spec fn fields(self) -> (int, int, int, int, int, int) {
        (
            self.year as int,
            self.month as int,
            self.day as int,
            self.hour as int,
            self.minute as int,
            self.second as int,
        )
    }

    /// Whether month, day, hour, minute and second are such as a calendar has them.
    pub open spec fn in_range(self) -> bool {
        &&& 1 <= self.month <= 12
        &&& 1 <= self.day <= 31
        &&& self.hour <= 23
        &&& self.minute <= 59
        &&& self.second <= 59
    }

    /// The text of the stamp: year, month and day with `-` between them, a
    /// space, then hour, minute and second with `:` between them. The year
    /// is filled with zeros up to `year_width` characters, the others up to two.
    pub open spec fn text(self, year_width: nat) -> Seq<char> {
        year_text(self.year as int, year_width) + seq!['-'] + zero_padded(self.month as nat, 2)
            + seq!['-'] + zero_padded(self.day as nat, 2) + seq![' '] + zero_padded(
            self.hour as nat,
            2,
        ) + seq![':'] + zero_padded(self.minute as nat, 2) + seq![':'] + zero_padded(
            self.second as nat,
            2,
        )
    }

    /// Writes the stamp as text, the year filled with zeros up to `year_width` characters.
    pub fn format(&self, year_width: usize) -> (s: String)
        ensures
            s@ == self.text(year_width as nat),
    {
        let mut cs: Vec<char> = Vec::new();
        if self.year < 0 {
            cs.push('-');
            let magnitude: u64 = (-(self.year as i64)) as u64;
            let rest: usize = if year_width >= 1 {
                year_width - 1
            } else {
                0
            };
            push_decimal(&mut cs, magnitude, rest);
        } else {
            push_decimal(&mut cs, self.year as u64, year_width);
        }
        assert(cs@ =~= year_text(self.year as int, year_width as nat));
        cs.push('-');
        push_decimal(&mut cs, self.month as u64, 2);
        cs.push('-');
        push_decimal(&mut cs, self.day as u64, 2);
        cs.push(' ');
        push_decimal(&mut cs, self.hour as u64, 2);
        cs.push(':');
        push_decimal(&mut cs, self.minute as u64, 2);
        cs.push(':');
        push_decimal(&mut cs, self.second as u64, 2);
        assert(cs@ =~= self.text(year_width as nat));
        string_of(&cs)
    }

    /// The stamp, in UTC, of an instant; `None` where the calendar has no
    /// date for it. It has one for every instant up to `MAX_DATED`.
    pub fn utc(secs: u64) -> (r: Option<Stamp>)
        ensures
            r is Some <==> has_date(secs as int),
            secs <= MAX_DATED ==> r is Some,
            r matches Some(stamp) ==> utc_calendar(secs as int) == Some(stamp.fields()),
    {
        if secs > MAX_INSTANT {
            None
        } else {
            utc_stamp(secs as i64)
        }
    }

    /// The stamp of an instant in the machine's time zone. There is one
    /// for every instant for which the calendar has a date, and for no
    /// other; it has one for every instant up to `MAX_DATED`. The stamp is
    /// the date and time of day, in UTC, of the instant moved by the offset
    /// that the zone has at it.
    pub fn local(secs: u64) -> (r: Option<Stamp>)
        ensures
            r is Some <==> has_date(secs as int),
            secs <= MAX_DATED ==> r is Some,
            r matches Some(stamp) ==> has_local(secs as int, stamp) && stamp.in_range(),
    {
        if secs > MAX_INSTANT {
            None
        } else {
            match local_moment(secs as i64) {
                Some(moment) => {
                    assert(is_local(secs as int, moment.0 as int, moment.1));
                    Some(moment.1)
                },
                None => None,
            }
        }
    }
}

/// The moment of the call as text in the machine's time zone, the year
/// without zeros in front: the time that a line of command output is
/// stamped with. It is the text of the local stamp of some instant, the
/// one that the machine's clock shows. `None` where the machine's clock
/// gives no date.
pub fn time_is_now() -> (r: Option<String>)
    ensures
        r matches Some(s) ==> exists|now: int, stamp: Stamp| #[trigger]
            has_local(now, stamp) && has_date(now) && stamp.in_range() && s@ == stamp.text(0),
{
    match LocalClock::read() {
        Some(clock) => match Stamp::local(clock.now) {
            Some(stamp) => {
                assert(has_local(clock.now as int, stamp));
                Some(stamp.format(0))
            },
            None => None,
        },
        None => None,
    }
}

/// Asks chrono for the date and time of day, in UTC, of an instant
/// (`DateTime::from_timestamp`, then the six field getters). The result is
/// what `utc_calendar` names: chrono computes it from the number of seconds
/// alone. Its source shows one thing more, which is claimed too: it has a
/// date for every instant from the epoch to the last second of the latest
/// date it holds, `MAX_DATED`.
#[verifier::external_body]
fn utc_stamp(secs: i64) -> (r: Option<Stamp>)
    ensures
        match r {
            Some(stamp) => utc_calendar(secs as int) == Some(stamp.fields()),
            None => utc_calendar(secs as int) is None,
        },
        0 <= secs <= MAX_DATED ==> r is Some,
{
    match DateTime::from_timestamp(secs, 0) {
        Some(t) => Some(
            Stamp {
                year: t.year(),
                month: t.month(),
                day: t.day(),
                hour: t.hour(),
                minute: t.minute(),
                second: t.second(),
            },
        ),
        None => None,
    }
}

/// Asks chrono for an instant as the machine's time zone has it
/// (`Local.timestamp_opt`), and takes from the one answer the offset of
/// the zone (`offset().local_minus_utc()`) and the date and time of day
/// (the six field getters). Claimed is what chrono's source shows.
/// `timestamp_opt` hands the instant to `DateTime::from_timestamp` and
/// gives a single time where that gives a date, and none where it gives
/// none: there is an answer exactly where `utc_calendar` has a date, which
/// it has from the epoch to `MAX_DATED`. chrono builds an offset only from
/// a number of seconds strictly between -86400 and 86400. The getters read
/// the date and time of day of the instant moved by that offset, which
/// `from_timestamp` gives for the sum wherever it has a date for it, and
/// they keep to the ranges that chrono documents for month, day, hour,
/// minute and second. Which offset it is depends on the machine, and
/// nothing is claimed of that. chrono stops the program where it cannot
/// read a time type from the zone data.
#[verifier::external_body]
pub(crate) fn local_moment(secs: i64) -> (r: Option<(i32, Stamp)>)
    ensures
        r is Some <==> utc_calendar(secs as int) is Some,
        0 <= secs <= MAX_DATED ==> r is Some,
        r matches Some(moment) ==> is_local(secs as int, moment.0 as int, moment.1),
{
    match Local.timestamp_opt(secs, 0) {
        chrono::LocalResult::Single(t) => {
            let offset = t.offset().local_minus_utc();
            let (year, month, day) = (t.year(), t.month(), t.day());
            let (hour, minute, second) = (t.hour(), t.minute(), t.second());
            Some((offset, Stamp { year, month, day, hour, minute, second }))
        },
        _ => None,
    }
}

} // verus!

//! Timers as they are shown in a list: every field as text.

use crate::clock::LocalClock;
use crate::config::Config;
use crate::days::{mask_string, mask_text};
use crate::interval::{interval_string, interval_text};
use crate::kinds::TimerType;
use crate::loader::{config_views, parsed_all, read_startup_timer};
use crate::registry::{views, ControlError, Registry};
use crate::stamp::{has_date, has_local, utc_calendar, Stamp, MAX_DATED};
use crate::text::{copy_text, join};
use crate::timer::{Timer, TimerView};
use vstd::prelude::*;

verus! {

/// A timer as a list shows it.
#[derive(Debug)]
pub struct TimerListing {
    pub id: String,
    /// The word of the kind: `every`, `oneshot` or `at`.
    pub kind: String,
    /// The interval as `HH:MM:SS`.
    pub interval: String,
    /// The words of the command with single spaces between them.
    pub command: String,
    /// The next firing as `YYYY-MM-DD HH:MM:SS`, or `None` for a timer that is not active.
    pub next_hit: String,
    /// The mask as seven characters, `X` or `_`.
    pub days: String,
    pub dynamic: bool,
}

/// What a listing holds, as mathematical values.
pub ghost struct ListingView {
    pub id: Seq<char>,
    pub kind: Seq<char>,
    pub interval: Seq<char>,
    pub command: Seq<char>,
    pub next_hit: Seq<char>,
    pub days: Seq<char>,
    pub dynamic: bool,
}

impl View for TimerListing {
    type V = ListingView;

    open spec fn view(&self) -> ListingView {
        ListingView {
            id: self.id@,
            kind: self.kind@,
            interval: self.interval@,
            command: self.command@,
            next_hit: self.next_hit@,
            days: self.days@,
            dynamic: self.dynamic,
        }
    }
}

/// What a list of listings holds, as mathematical values.
pub open spec fn listing_views(list: Seq<TimerListing>) -> Seq<ListingView> {
    Seq::new(list.len(), |i: int| list[i]@)
}

/// The listing of a timer, with the given text for its next firing.
pub open spec fn listing_of(timer: TimerView, next_hit: Seq<char>) -> ListingView {
    ListingView {
        id: timer.id,
        kind: timer.kind.word(),
        interval: interval_text(timer.interval),
        command: join(timer.command),
        next_hit,
        days: mask_text(timer.days),
        dynamic: timer.dynamic,
    }
}

/// Whether a stamp can stand for the next firing of a timer in a list of
/// active timers. For an `At` timer it is the date and time of day of the
/// instant in UTC. For the others it is the date and time of day of the
/// instant in a time zone: which one, the machine decides.
pub open spec fn shows_next_hit(timer: TimerView, stamp: Stamp) -> bool {
    if timer.kind == TimerType::At {
        utc_calendar(timer.next_hit as int) == Some(stamp.fields())
    } else {
        has_local(timer.next_hit as int, stamp)
    }
}

/// Whether every timer of the list has a next firing for which the
/// calendar has a date.
pub open spec fn all_dated(timers: Seq<TimerView>) -> bool {
    forall|i: int| 0 <= i < timers.len() ==> has_date((#[trigger] timers[i]).next_hit as int)
}

/// Whether every timer of the list has a next firing no later than `MAX_DATED`.
pub open spec fn all_early(timers: Seq<TimerView>) -> bool {
    forall|i: int| 0 <= i < timers.len() ==> (#[trigger] timers[i]).next_hit <= MAX_DATED
}

/// Whether a listing shows an active timer.
pub open spec fn shows_active(timer: TimerView, listing: ListingView) -> bool {
    exists|stamp: Stamp| #[trigger]
        shows_next_hit(timer, stamp) && listing == listing_of(timer, stamp.text(4))
}

/// The listings of the timers that a list of configurations gives: each
/// with `None` for its next firing, and none of them dynamic.
pub open spec fn static_listings(timers: Seq<TimerView>) -> Seq<ListingView> {
    Seq::new(timers.len(), |i: int| listing_of(timers[i].with_dynamic(false), "None"@))
}

impl Timer {
    /// The listing of the timer, with the given text for its next firing.
    pub fn listing(&self, next_hit: &str) -> (listing: TimerListing)
        ensures
            listing@ == listing_of(self@, next_hit@),
    {
        TimerListing {
            id: self.id.clone(),
            kind: self.kind.to_string(),
            interval: interval_string(self.interval),
            command: self.command_line(),
            next_hit: copy_text(next_hit),
            days: mask_string(&self.days),
            dynamic: self.dynamic,
        }
    }

    /// The date and time of day that a list shows for the next firing: in
    /// UTC for an `At` timer, in the machine's time zone for the others.
    /// There is one for every instant for which the calendar has a date,
    /// and for no other; it has one for every instant up to `MAX_DATED`.
    pub fn next_hit_stamp(&self) -> (r: Option<Stamp>)
        ensures
            r is Some <==> has_date(self.next_hit as int),
            self.next_hit <= MAX_DATED ==> r is Some,
            r matches Some(stamp) ==> shows_next_hit(self@, stamp),
    {
        match self.kind {
            TimerType::At => Stamp::utc(self.next_hit),
            _ => Stamp::local(self.next_hit),
        }
    }
}

impl Registry {
    /// The active timers as a list shows them, in the order of the
    /// registry. The next firing of each is shown as a date and time of
    /// day. There is a list where the calendar has a date for the next
    /// firing of every timer, which it has for every instant up to
    /// `MAX_DATED`; an empty registry gives an empty list. Where the
    /// calendar has no date for one of them, there is no list.
    pub fn list_active_timers(&self) -> (r: Result<Vec<TimerListing>, ControlError>)
        ensures
            r is Ok <==> all_dated(self@),
            all_early(self@) ==> r is Ok,
            match r {
                Ok(list) => list.len() == self@.len() && forall|i: int|
                    0 <= i < list.len() ==> shows_active(self@[i], (#[trigger] list@[i])@),
                Err(e) => e == ControlError::Internal,
            },
    {
        let mut list: Vec<TimerListing> = Vec::new();
        let count = self.len();
        let mut i: usize = 0;
        while i < count
            invariant
                i <= count,
                count == self@.len(),
                list.len() == i,
                forall|k: int| 0 <= k < i ==> has_date((#[trigger] self@[k]).next_hit as int),
                forall|k: int| 0 <= k < i ==> shows_active(self@[k], (#[trigger] list@[k])@),
            decreases count - i,
        {
            let timer = self.timer_at(i);
            let stamp = match timer.next_hit_stamp() {
                Some(stamp) => stamp,
                None => {
                    assert(!has_date(self@[i as int].next_hit as int));
                    return Err(ControlError::Internal);
                },
            };
            let text = stamp.format(4);
            let listing = timer.listing(text.as_str());
            assert(shows_next_hit(self@[i as int], stamp));
            assert(shows_active(self@[i as int], listing@));
            list.push(listing);
            i += 1;
        }
        Ok(list)
    }
}

/// The timers that the given configurations describe as a list shows them:
/// each with `None` for its next firing, and none of them dynamic. A
/// configuration that gives no timer is passed over. The registry plays no
/// part in this.
pub fn list_timer_configs(configs: &Vec<Config>, clock: &LocalClock) -> (list: Vec<TimerListing>)
    requires
        clock.wf(),
    ensures
        listing_views(list@) == static_listings(parsed_all(config_views(configs@), *clock)),
{
    let timers = read_startup_timer(configs, clock);
    let mut list: Vec<TimerListing> = Vec::new();
    let mut i: usize = 0;
    while i < timers.len()
        invariant
            i <= timers.len(),
            list.len() == i,
            forall|k: int|
                0 <= k < i ==> (#[trigger] list@[k])@ == listing_of(
                    timers@[k]@.with_dynamic(false),
                    "None"@,
                ),
        decreases timers.len() - i,
    {
        let mut listing = timers[i].listing("None");
        listing.dynamic = false;
        list.push(listing);
        i += 1;
    }
    assert(listing_views(list@) =~= static_listings(views(timers@)));
    list
}

} // verus!

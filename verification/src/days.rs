//! Day-of-week masks: seven booleans, Monday first.

use crate::text::{chars_of, string_of};
use vstd::prelude::*;

verus! {

/// Days in a week, and entries in a mask.
pub const WEEK: usize = 7;

/// Whether the mask enables at least one day.
pub open spec fn some_day(days: Seq<bool>) -> bool {
    exists|i: int| 0 <= i < 7 && #[trigger] days[i]
}

/// Whether `d` is the number of days from `today` to the next enabled day
/// after it: the smallest `d >= 1` whose weekday is enabled.
pub open spec fn is_gap(days: Seq<bool>, today: int, d: int) -> bool {
    &&& 1 <= d <= 7
    &&& days[(today + d) % 7]
    &&& forall|k: int| 1 <= k < d ==> !#[trigger] days[(today + k) % 7]
}

/// The first `k >= d` whose weekday, counted from `today`, is enabled; 7 at the latest.
pub open spec fn gap_from(days: Seq<bool>, today: int, d: int) -> int
    decreases 7 - d,
{
    if d >= 7 {
        7
    } else if days[(today + d) % 7] {
        d
    } else {
        gap_from(days, today, d + 1)
    }
}

/// Days from `today` to the next enabled day after it.
pub open spec fn next_gap(days: Seq<bool>, today: int) -> int {
    gap_from(days, today, 1)
}

proof fn lemma_gap_from(days: Seq<bool>, today: int, d: int)
    requires
        1 <= d <= 7,
    ensures
        d <= gap_from(days, today, d) <= 7,
        gap_from(days, today, d) < 7 ==> days[(today + gap_from(days, today, d)) % 7],
        forall|k: int| d <= k < gap_from(days, today, d) ==> !#[trigger] days[(today + k) % 7],
    decreases 7 - d,
{
    if d < 7 && !days[(today + d) % 7] {
        lemma_gap_from(days, today, d + 1);
    }
}

/// With a day enabled, `next_gap` is the gap to the next enabled day.
pub proof fn lemma_next_gap(days: Seq<bool>, today: int)
    requires
        days.len() == 7,
        some_day(days),
        0 <= today < 7,
    ensures
        is_gap(days, today, next_gap(days, today)),
{
    lemma_gap_from(days, today, 1);
    let g = next_gap(days, today);
    if g == 7 {
        let i = choose|i: int| 0 <= i < 7 && #[trigger] days[i];
        let k = (i - today + 7) % 7;
        assert((today + k) % 7 == i);
        if k != 0 {
            assert(!days[(today + k) % 7]);
        }
        assert((today + 7) % 7 == today);
    }
}

/// Counts the days from `today` to the next enabled day after it. With only
/// today enabled that is a full week.
pub fn days_until_next(days: &[bool; 7], today: usize) -> (d: u64)
    requires
        today < 7,
        some_day(days@),
    ensures
        d == next_gap(days@, today as int),
        is_gap(days@, today as int, d as int),
{
    proof {
        lemma_next_gap(days@, today as int);
    }
    let mut d: usize = 1;
    while d < 7
        invariant
            1 <= d <= 7,
            today < 7,
            gap_from(days@, today as int, d as int) == next_gap(days@, today as int),
            is_gap(days@, today as int, next_gap(days@, today as int)),
        decreases 7 - d,
    {
        if days[(today + d) % 7] {
            return d as u64;
        }
        d += 1;
    }
    7
}

/// Whether a text has the shape of a mask: seven characters, each `X` or `_`.
pub open spec fn mask_shape(text: Seq<char>) -> bool {
    &&& text.len() == 7
    &&& forall|i: int| 0 <= i < 7 ==> #[trigger] text[i] == 'X' || text[i] == '_'
}

/// The mask that a text of that shape stands for: `X` enables a day.
pub open spec fn mask_of(text: Seq<char>) -> Seq<bool> {
    Seq::new(7, |i: int| text[i] == 'X')
}

/// The text of a mask.
pub open spec fn mask_text(days: Seq<bool>) -> Seq<char> {
    Seq::new(
        7,
        |i: int|
            if days[i] {
                'X'
            } else {
                '_'
            },
    )
}

/// The text of a mask has the shape of a mask and stands for that mask.
pub proof fn lemma_mask_round_trip(days: Seq<bool>)
    requires
        days.len() == 7,
    ensures
        mask_shape(mask_text(days)),
        mask_of(mask_text(days)) == days,
{
    assert(mask_of(mask_text(days)) =~= days);
}

/// Reads a mask, Monday first; `None` for a text that has not the shape of one.
pub fn parse_mask(text: &str) -> (r: Option<[bool; 7]>)
    ensures
        r is Some <==> mask_shape(text@),
        r matches Some(days) ==> days@ == mask_of(text@),
{
    let cs = chars_of(text);
    if cs.len() != 7 {
        return None;
    }
    let mut days: [bool; 7] = [false; 7];
    let mut i: usize = 0;
    while i < 7
        invariant
            i <= 7,
            cs@ == text@,
            cs.len() == 7,
            forall|k: int| 0 <= k < i ==> #[trigger] cs@[k] == 'X' || cs@[k] == '_',
            forall|k: int| 0 <= k < i ==> #[trigger] days@[k] == (cs@[k] == 'X'),
        decreases 7 - i,
    {
        let c = cs[i];
        if c != 'X' && c != '_' {
            assert(!(text@[i as int] == 'X' || text@[i as int] == '_'));
            return None;
        }
        days[i] = c == 'X';
        i += 1;
    }
    assert(days@ =~= mask_of(text@));
    Some(days)
}

/// Writes a mask as seven characters, `X` for an enabled day and `_` for the others.
pub fn mask_string(days: &[bool; 7]) -> (s: String)
    ensures
        s@ == mask_text(days@),
{
    let mut cs: Vec<char> = Vec::new();
    let mut i: usize = 0;
    while i < 7
        invariant
            i <= 7,
            cs.len() == i,
            forall|k: int| 0 <= k < i ==> #[trigger] cs@[k] == mask_text(days@)[k],
        decreases 7 - i,
    {
        cs.push(if days[i] { 'X' } else { '_' });
        i += 1;
    }
    assert(cs@ =~= mask_text(days@));
    string_of(&cs)
}

/// Whether a mask enables a day at all.
pub fn any_day(days: &[bool; 7]) -> (r: bool)
    ensures
        r == some_day(days@),
{
    let mut i: usize = 0;
    while i < 7
        invariant
            i <= 7,
            forall|k: int| 0 <= k < i ==> !#[trigger] days@[k],
        decreases 7 - i,
    {
        if days[i] {
            return true;
        }
        i += 1;
    }
    false
}

} // verus!

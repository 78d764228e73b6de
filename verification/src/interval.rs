//! Intervals as text: `HH:MM:SS`, a time of day.

use crate::decimal::{
    all_digits, decimal_value, digit_char, digit_of, digit_value, is_digit, is_digit_char,
    lemma_two_digits, push_decimal, zero_padded,
};
use crate::text::{
    chars_of, is_space, is_whitespace, lemma_reach_is, split, split_on, string_of, texts,
    trim_start,
};
use vstd::prelude::*;

verus! {

/// The number that a field of an interval stands for: one or two decimal
/// digits, which white space may precede.
pub open spec fn field_value(field: Seq<char>) -> Option<nat> {
    let digits = trim_start(field);
    if 1 <= digits.len() <= 2 && all_digits(digits) {
        Some(decimal_value(digits))
    } else {
        None
    }
}

/// The seconds that an interval text stands for: hours, minutes and
/// seconds as three fields between two colons, the hours below 24, the
/// minutes below 60. The seconds may be 60, for a leap second, which counts
/// as the second before it.
pub open spec fn interval_of(text: Seq<char>) -> Option<nat> {
    let fields = split(text, ':');
    if fields.len() != 3 {
        None
    } else {
        match (field_value(fields[0]), field_value(fields[1]), field_value(fields[2])) {
            (Some(h), Some(m), Some(s)) => if h < 24 && m < 60 && s <= 60 {
                Some(
                    h * 3600 + m * 60 + if s == 60 {
                        59
                    } else {
                        s
                    },
                )
            } else {
                None
            },
            _ => None,
        }
    }
}

/// The text of a number of seconds: hours, minutes and seconds, two digits
/// each at least, with colons between them.
pub open spec fn interval_text(seconds: nat) -> Seq<char> {
    zero_padded(seconds / 3600, 2) + seq![':'] + zero_padded(seconds / 60 % 60, 2) + seq![':']
        + zero_padded(seconds % 60, 2)
}

proof fn lemma_two_digit_value(a: int, b: int)
    requires
        0 <= a <= 9,
        0 <= b <= 9,
    ensures
        field_value(seq![digit_char(a), digit_char(b)]) == Some((10 * a + b) as nat),
{
    let f = seq![digit_char(a), digit_char(b)];
    assert(is_digit(f[0]) && is_digit(f[1]));
    assert(!is_space(f[0]));
    assert(trim_start(f) == f);
    assert(f.drop_last() =~= seq![digit_char(a)]);
    assert(f.drop_last().drop_last() =~= Seq::<char>::empty());
    assert(decimal_value(f.drop_last().drop_last()) == 0);
    assert(decimal_value(f.drop_last()) == a);
}

/// Reading the text of an interval below one day gives the interval back.
pub proof fn lemma_interval_round_trip(seconds: nat)
    requires
        seconds < 86_400,
    ensures
        interval_of(interval_text(seconds)) == Some(seconds),
{
    let h = seconds / 3600;
    let m = seconds / 60 % 60;
    let s = seconds % 60;
    lemma_two_digits(h);
    lemma_two_digits(m);
    lemma_two_digits(s);
    let hh = seq![digit_char((h / 10) as int), digit_char((h % 10) as int)];
    let mm = seq![digit_char((m / 10) as int), digit_char((m % 10) as int)];
    let ss = seq![digit_char((s / 10) as int), digit_char((s % 10) as int)];
    let t = interval_text(seconds);
    assert(t =~= hh + seq![':'] + mm + seq![':'] + ss);
    assert(t.len() == 8);
    assert(':' as int == 58);
    lemma_reach_is(t, ':', 2);
    let t1 = t.skip(3);
    assert(t1 =~= mm + seq![':'] + ss);
    lemma_reach_is(t1, ':', 2);
    let t2 = t1.skip(3);
    assert(t2 =~= ss);
    lemma_reach_is(t2, ':', 2);
    assert(split(t2, ':') =~= seq![ss]);
    assert(t1.take(2) =~= mm);
    assert(split(t1, ':') =~= seq![mm, ss]);
    assert(t.take(2) =~= hh);
    assert(split(t, ':') =~= seq![hh, mm, ss]);
    lemma_two_digit_value((h / 10) as int, (h % 10) as int);
    lemma_two_digit_value((m / 10) as int, (m % 10) as int);
    lemma_two_digit_value((s / 10) as int, (s % 10) as int);
}

/// Reads a field of an interval.
fn parse_field(field: &str) -> (r: Option<u64>)
    ensures
        r matches Some(v) ==> field_value(field@) == Some(v as nat) && v <= 99,
        r is None ==> field_value(field@) is None,
{
    let cs = chars_of(field);
    let mut a: usize = 0;
    assert(cs@.skip(0) =~= cs@);
    while a < cs.len() && is_whitespace(cs[a])
        invariant
            a <= cs.len(),
            trim_start(cs@) == trim_start(cs@.skip(a as int)),
        decreases cs.len() - a,
    {
        proof {
            let cur = cs@.skip(a as int);
            assert(cur[0] == cs@[a as int]);
            assert(cur.drop_first() =~= cs@.skip(a + 1));
        }
        a += 1;
    }
    let ghost digits = cs@.skip(a as int);
    proof {
        if a < cs.len() {
            assert(digits[0] == cs@[a as int]);
        }
        assert(trim_start(digits) == digits);
    }
    let n = cs.len() - a;
    if n == 1 {
        if !is_digit_char(cs[a]) {
            assert(!is_digit(digits[0]));
            return None;
        }
        proof {
            assert(digits.drop_last() =~= Seq::<char>::empty());
            assert(decimal_value(digits.drop_last()) == 0);
            assert(digits.last() == cs@[a as int]);
            assert(decimal_value(digits) == digit_value(digits[0]));
            assert(all_digits(digits));
        }
        Some(digit_of(cs[a]) as u64)
    } else if n == 2 {
        assert(digits[0] == cs@[a as int] && digits[1] == cs@[a + 1]);
        if !is_digit_char(cs[a]) || !is_digit_char(cs[a + 1]) {
            assert(!is_digit(digits[0]) || !is_digit(digits[1]));
            return None;
        }
        proof {
            assert(digits.drop_last() =~= seq![digits[0]]);
            assert(digits.drop_last().drop_last() =~= Seq::<char>::empty());
            assert(decimal_value(digits.drop_last().drop_last()) == 0);
            assert(digits.drop_last().last() == digits[0]);
            assert(decimal_value(digits.drop_last()) == digit_value(digits[0]));
            assert(digits.last() == digits[1]);
            assert(decimal_value(digits) == 10 * digit_value(digits[0]) + digit_value(digits[1]));
            assert(all_digits(digits));
        }
        Some(digit_of(cs[a]) as u64 * 10 + digit_of(cs[a + 1]) as u64)
    } else {
        None
    }
}

/// Reads an interval of the form `HH:MM:SS` as the seconds from midnight
/// to that time of day; `None` for any other text.
pub fn parse_interval(text: &str) -> (r: Option<u64>)
    ensures
        r matches Some(v) ==> interval_of(text@) == Some(v as nat) && v < 86_400,
        r is None ==> interval_of(text@) is None,
{
    let fields = split_on(text, ':');
    if fields.len() != 3 {
        return None;
    }
    assert(texts(fields@)[0] == fields@[0]@);
    assert(texts(fields@)[1] == fields@[1]@);
    assert(texts(fields@)[2] == fields@[2]@);
    let h = match parse_field(fields[0].as_str()) {
        Some(v) => v,
        None => return None,
    };
    let m = match parse_field(fields[1].as_str()) {
        Some(v) => v,
        None => return None,
    };
    let s = match parse_field(fields[2].as_str()) {
        Some(v) => v,
        None => return None,
    };
    if h < 24 && m < 60 && s <= 60 {
        Some(h * 3600 + m * 60 + if s == 60 { 59 } else { s })
    } else {
        None
    }
}

/// Writes a number of seconds as hours, minutes and seconds with colons between them.
pub fn interval_string(seconds: u64) -> (s: String)
    ensures
        s@ == interval_text(seconds as nat),
{
    let mut cs: Vec<char> = Vec::new();
    push_decimal(&mut cs, seconds / 3600, 2);
    cs.push(':');
    push_decimal(&mut cs, seconds / 60 % 60, 2);
    cs.push(':');
    push_decimal(&mut cs, seconds % 60, 2);
    assert(cs@ =~= interval_text(seconds as nat));
    string_of(&cs)
}

} // verus!

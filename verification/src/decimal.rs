//! Decimal numbers as text: writing with zero padding, and reading.

use vstd::prelude::*;

verus! {

/// The character of a decimal digit.
pub open spec fn digit_char(d: int) -> char {
    (48 + d) as char
}

/// Whether a character is a decimal digit, `0` to `9`.
pub open spec fn is_digit(c: char) -> bool {
    48 <= c as int <= 57
}

/// The value of a decimal digit.
pub open spec fn digit_value(c: char) -> int {
    c as int - 48
}

/// The digits of a number, most significant first, without leading zeros.
pub open spec fn decimal(n: nat) -> Seq<char>
    decreases n,
{
    if n < 10 {
        seq![digit_char(n as int)]
    } else {
        decimal(n / 10).push(digit_char((n % 10) as int))
    }
}

/// The digits of a number, with zeros in front up to `width` characters.
pub open spec fn zero_padded(n: nat, width: nat) -> Seq<char> {
    let digits = decimal(n);
    if digits.len() >= width {
        digits
    } else {
        Seq::new((width - digits.len()) as nat, |i: int| '0') + digits
    }
}

/// The number that a sequence of digits stands for.
pub open spec fn decimal_value(s: Seq<char>) -> nat
    decreases s.len(),
{
    if s.len() == 0 {
        0
    } else {
        (decimal_value(s.drop_last()) * 10 + digit_value(s.last())) as nat
    }
}

/// Whether a text is made of decimal digits only.
pub open spec fn all_digits(s: Seq<char>) -> bool {
    forall|i: int| 0 <= i < s.len() ==> is_digit(#[trigger] s[i])
}

/// A number below one hundred fills a width of two with exactly two digits.
pub proof fn lemma_two_digits(n: nat)
    requires
        n < 100,
    ensures
        zero_padded(n, 2) == seq![digit_char((n / 10) as int), digit_char((n % 10) as int)],
{
    if n < 10 {
        assert(zero_padded(n, 2) =~= seq![digit_char(0), digit_char(n as int)]);
    } else {
        assert(decimal(n / 10) =~= seq![digit_char((n / 10) as int)]);
        assert(zero_padded(n, 2) =~= seq![digit_char((n / 10) as int), digit_char((n % 10) as int)]);
    }
}

/// Whether a character is a decimal digit.
pub fn is_digit_char(c: char) -> (r: bool)
    ensures
        r == is_digit(c),
{
    '0' <= c && c <= '9'
}

/// The value of a decimal digit.
pub fn digit_of(c: char) -> (d: u8)
    requires
        is_digit(c),
    ensures
        d == digit_value(c),
        d <= 9,
{
    (c as u32 - 48) as u8
}

/// The digits of `n`, least significant first.
fn reversed_digits(n: u64) -> (v: Vec<char>)
    ensures
        v@.reverse() == decimal(n as nat),
        v.len() >= 1,
{
    let mut v: Vec<char> = Vec::new();
    let mut rest: u64 = n;
    while rest >= 10
        invariant
            decimal(n as nat) == decimal(rest as nat) + v@.reverse(),
        decreases rest,
    {
        let d: u8 = (rest % 10) as u8;
        let c: char = (48 + d) as char;
        proof {
            let ghost before = v@;
            assert(c == digit_char((rest % 10) as int));
            assert(decimal(rest as nat) == decimal((rest / 10) as nat).push(c));
            assert(before.push(c).reverse() =~= seq![c] + before.reverse());
            assert(decimal((rest / 10) as nat) + (seq![c] + before.reverse()) =~= decimal(
                (rest / 10) as nat,
            ).push(c) + before.reverse());
        }
        v.push(c);
        rest = rest / 10;
    }
    let d: u8 = rest as u8;
    let c: char = (48 + d) as char;
    proof {
        let ghost before = v@;
        assert(decimal(rest as nat) =~= seq![c]);
        assert(before.push(c).reverse() =~= seq![c] + before.reverse());
    }
    v.push(c);
    v
}

/// Appends the digits of `n` to `out`, with zeros in front up to `width` characters.
pub fn push_decimal(out: &mut Vec<char>, n: u64, width: usize)
    ensures
        final(out)@ == old(out)@ + zero_padded(n as nat, width as nat),
{
    let digits = reversed_digits(n);
    let ghost start = out@;
    let mut pad: usize = digits.len();
    assert(out@ =~= start + Seq::new(0nat, |i: int| '0'));
    while pad < width
        invariant
            digits.len() <= pad,
            pad <= width || pad == digits.len(),
            out@ == start + Seq::new((pad - digits.len()) as nat, |i: int| '0'),
        decreases width - pad,
    {
        out.push('0');
        pad += 1;
        assert(out@ =~= start + Seq::new((pad - digits.len()) as nat, |i: int| '0'));
    }
    let ghost padded = out@;
    let mut i: usize = digits.len();
    while i > 0
        invariant
            i <= digits.len(),
            out@ == padded + digits@.reverse().subrange(0, digits.len() - i),
        decreases i,
    {
        i -= 1;
        out.push(digits[i]);
        assert(out@ =~= padded + digits@.reverse().subrange(0, digits.len() - i));
    }
    assert(digits@.reverse().subrange(0, digits.len() as int) =~= digits@.reverse());
    assert(out@ =~= start + zero_padded(n as nat, width as nat)) by {
        assert(digits@.reverse().len() == digits.len());
        if digits.len() >= width {
            assert(Seq::new(0nat, |i: int| '0') =~= Seq::<char>::empty());
        } else {
            assert(pad == width);
        }
    }
}

/// The number that a text stands for where it is one or more decimal
/// digits, with or without a `+` in front, and the number is at most `max`.
pub open spec fn unsigned_of(s: Seq<char>, max: nat) -> Option<nat> {
    let digits = if s.len() > 0 && s[0] == '+' {
        s.drop_first()
    } else {
        s
    };
    if digits.len() > 0 && all_digits(digits) && decimal_value(digits) <= max {
        Some(decimal_value(digits))
    } else {
        None
    }
}

/// The digits at the start of a number stand for no more than the number.
pub proof fn lemma_prefix_value(s: Seq<char>, n: int)
    requires
        all_digits(s),
        0 <= n <= s.len(),
    ensures
        decimal_value(s.take(n)) <= decimal_value(s),
    decreases s.len(),
{
    if n == s.len() {
        assert(s.take(n) =~= s);
    } else {
        let init = s.drop_last();
        assert(all_digits(init)) by {
            assert forall|i: int| 0 <= i < init.len() implies is_digit(#[trigger] init[i]) by {
                assert(init[i] == s[i]);
            }
        }
        lemma_prefix_value(init, n);
        assert(init.take(n) =~= s.take(n));
        assert(is_digit(s.last()));
    }
}

/// Reads a number of at most `max` from decimal digits, with or without a
/// `+` in front; `None` for any other text and for a greater number.
pub fn parse_unsigned(text: &str, max: u64) -> (r: Option<u64>)
    ensures
        r matches Some(v) ==> unsigned_of(text@, max as nat) == Some(v as nat),
        r is None ==> unsigned_of(text@, max as nat) is None,
{
    let cs = crate::text::chars_of(text);
    let start: usize = if cs.len() > 0 && cs[0] == '+' {
        1
    } else {
        0
    };
    let ghost digits = cs@.skip(start as int);
    assert(start == 1 ==> digits =~= cs@.drop_first());
    assert(start == 0 ==> digits =~= cs@);
    if cs.len() == start {
        return None;
    }
    let mut value: u64 = 0;
    let mut i: usize = start;
    assert(digits.take(0) =~= Seq::<char>::empty());
    while i < cs.len()
        invariant
            start <= i <= cs.len(),
            digits == cs@.skip(start as int),
            digits.len() > 0,
            unsigned_of(text@, max as nat) == (if all_digits(digits) && decimal_value(digits)
                <= max {
                Some(decimal_value(digits))
            } else {
                None::<nat>
            }),
            all_digits(digits.take(i - start)),
            value == decimal_value(digits.take(i - start)),
            value <= max,
        decreases cs.len() - i,
    {
        let c = cs[i];
        let ghost next = digits.take(i - start + 1);
        proof {
            assert(next.drop_last() =~= digits.take(i - start));
            assert(next.last() == c);
        }
        if !is_digit_char(c) {
            assert(!is_digit(digits[i - start]));
            return None;
        }
        let d: u64 = digit_of(c) as u64;
        proof {
            assert(all_digits(next)) by {
                assert forall|k: int| 0 <= k < next.len() implies is_digit(#[trigger] next[k]) by {
                    if k < next.len() - 1 {
                        assert(next[k] == digits.take(i - start)[k]);
                    }
                }
            }
            assert(decimal_value(next) == value * 10 + d);
        }
        if d > max || value > (max - d) / 10 {
            proof {
                assert(value * 10 + d > max);
                if all_digits(digits) {
                    lemma_prefix_value(digits, i - start + 1);
                }
            }
            return None;
        }
        value = value * 10 + d;
        i += 1;
    }
    assert(digits.take(digits.len() as int) =~= digits);
    Some(value)
}

} // verus!

//! Characters and strings as sequences: conversion, separators, fields.

use vstd::prelude::*;
use vstd::string::StringExecFns;

verus! {

/// `String::push` appends the given character to the end of the string.
pub assume_specification[ String::push ](s: &mut String, ch: char)
    ensures
        final(s)@ == old(s)@.push(ch),
;

/// The characters of a string, in order.
pub fn chars_of(s: &str) -> (v: Vec<char>)
    ensures
        v@ == s@,
{
    broadcast use vstd::string::group_string_axioms;

    let mut v: Vec<char> = Vec::new();
    for c in it: s.chars()
        invariant
            it.seq() == s@,
            v@ == s@.subrange(0, it.index()),
    {
        v.push(c);
    }
    v
}

/// The string made of the characters `v[from..to]`.
pub fn string_of_range(v: &Vec<char>, from: usize, to: usize) -> (s: String)
    requires
        from <= to <= v.len(),
    ensures
        s@ == v@.subrange(from as int, to as int),
{
    let mut s = String::new();
    let mut i: usize = from;
    while i < to
        invariant
            from <= i <= to <= v.len(),
            s@ == v@.subrange(from as int, i as int),
        decreases to - i,
    {
        s.push(v[i]);
        i += 1;
    }
    s
}

/// The string made of the characters of `v`.
pub fn string_of(v: &Vec<char>) -> (s: String)
    ensures
        s@ == v@,
{
    let s = string_of_range(v, 0, v.len());
    assert(v@.subrange(0, v.len() as int) == v@);
    s
}

/// A copy of a string.
pub fn copy_text(s: &str) -> (r: String)
    ensures
        r@ == s@,
{
    s.to_owned()
}

/// Whether two strings hold the same characters.
pub fn same_text(a: &str, b: &str) -> (r: bool)
    ensures
        r == (a@ == b@),
{
    let x = chars_of(a);
    let y = chars_of(b);
    if x.len() != y.len() {
        return false;
    }
    let mut i: usize = 0;
    while i < x.len()
        invariant
            x@ == a@,
            y@ == b@,
            x.len() == y.len(),
            i <= x.len(),
            forall|k: int| 0 <= k < i ==> x@[k] == y@[k],
        decreases x.len() - i,
    {
        if x[i] != y[i] {
            assert(a@[i as int] != b@[i as int]);
            return false;
        }
        i += 1;
    }
    assert(x@ =~= y@);
    true
}

/// The texts of a sequence of strings.
pub open spec fn texts(v: Seq<String>) -> Seq<Seq<char>> {
    Seq::new(v.len(), |i: int| v[i]@)
}

/// A copy of a list of strings.
pub fn copy_texts(v: &Vec<String>) -> (r: Vec<String>)
    ensures
        texts(r@) == texts(v@),
{
    let mut r: Vec<String> = Vec::new();
    let mut i: usize = 0;
    while i < v.len()
        invariant
            i <= v.len(),
            r.len() == i,
            forall|k: int| 0 <= k < i ==> r@[k]@ == v@[k]@,
        decreases v.len() - i,
    {
        r.push(v[i].clone());
        i += 1;
    }
    assert(texts(r@) =~= texts(v@));
    r
}

/// Whether a character is white space: the code points that Unicode gives
/// the property White_Space.
pub open spec fn is_space(c: char) -> bool {
    let n = c as int;
    ||| 0x09 <= n <= 0x0D
    ||| n == 0x20
    ||| n == 0x85
    ||| n == 0xA0
    ||| n == 0x1680
    ||| 0x2000 <= n <= 0x200A
    ||| n == 0x2028
    ||| n == 0x2029
    ||| n == 0x202F
    ||| n == 0x205F
    ||| n == 0x3000
}

/// Whether a character is white space.
pub fn is_whitespace(c: char) -> (r: bool)
    ensures
        r == is_space(c),
{
    let n: u32 = c as u32;
    (0x09 <= n && n <= 0x0D) || n == 0x20 || n == 0x85 || n == 0xA0 || n == 0x1680 || (0x2000 <= n
        && n <= 0x200A) || n == 0x2028 || n == 0x2029 || n == 0x202F || n == 0x205F || n == 0x3000
}

/// How many characters stand before the first `sep`; the whole length where there is none.
pub open spec fn reach(s: Seq<char>, sep: char) -> nat
    decreases s.len(),
{
    if s.len() == 0 || s[0] == sep {
        0
    } else {
        1 + reach(s.drop_first(), sep)
    }
}

/// `reach` stops at the first `sep`, or at the end.
pub proof fn lemma_reach(s: Seq<char>, sep: char)
    ensures
        reach(s, sep) <= s.len(),
        forall|k: int| 0 <= k < reach(s, sep) ==> #[trigger] s[k] != sep,
        reach(s, sep) < s.len() ==> s[reach(s, sep) as int] == sep,
    decreases s.len(),
{
    if s.len() != 0 && s[0] != sep {
        let t = s.drop_first();
        lemma_reach(t, sep);
        assert forall|k: int| 0 <= k < reach(s, sep) implies #[trigger] s[k] != sep by {
            if k > 0 {
                assert(s[k] == t[k - 1]);
            }
        }
        if reach(s, sep) < s.len() {
            assert(s[reach(s, sep) as int] == t[reach(t, sep) as int]);
        }
    }
}

/// A position with no `sep` before it that holds `sep`, or is the end, is where `reach` stops.
pub proof fn lemma_reach_is(s: Seq<char>, sep: char, n: int)
    requires
        0 <= n <= s.len(),
        forall|k: int| 0 <= k < n ==> #[trigger] s[k] != sep,
        n < s.len() ==> s[n] == sep,
    ensures
        reach(s, sep) == n,
{
    lemma_reach(s, sep);
    let r = reach(s, sep) as int;
    if r < n {
        assert(s[r] != sep);
    } else if n < r {
        assert(s[n] != sep);
    }
}

/// The fields of a text between occurrences of `sep`: one more than there
/// are separators, empty fields included.
pub open spec fn split(s: Seq<char>, sep: char) -> Seq<Seq<char>>
    decreases s.len(),
{
    let n = reach(s, sep);
    if n >= s.len() {
        seq![s]
    } else {
        seq![s.take(n as int)] + split(s.skip(n as int + 1), sep)
    }
}

/// Splits a text at every occurrence of `sep`.
pub fn split_on(text: &str, sep: char) -> (parts: Vec<String>)
    ensures
        texts(parts@) == split(text@, sep),
        parts.len() >= 1,
{
    let cs = chars_of(text);
    let mut parts: Vec<String> = Vec::new();
    let mut start: usize = 0;
    let mut i: usize = 0;
    assert(cs@.skip(0) =~= cs@);
    assert(texts(parts@) =~= Seq::<Seq<char>>::empty());
    while i < cs.len()
        invariant
            cs@ == text@,
            start <= i <= cs.len(),
            forall|k: int| start <= k < i ==> #[trigger] cs@[k] != sep,
            split(cs@, sep) == texts(parts@) + split(cs@.skip(start as int), sep),
        decreases cs.len() - i,
    {
        if cs[i] == sep {
            let part = string_of_range(&cs, start, i);
            proof {
                let rest = cs@.skip(start as int);
                lemma_reach_is(rest, sep, i - start);
                assert(rest.take(i - start) =~= cs@.subrange(start as int, i as int));
                assert(rest.skip(i - start + 1) =~= cs@.skip(i + 1));
                assert(texts(parts@.push(part)) =~= texts(parts@) + seq![part@]);
            }
            parts.push(part);
            start = i + 1;
        }
        i += 1;
    }
    let part = string_of_range(&cs, start, cs.len());
    proof {
        let rest = cs@.skip(start as int);
        lemma_reach_is(rest, sep, cs.len() - start);
        assert(rest =~= cs@.subrange(start as int, cs.len() as int));
        assert(texts(parts@.push(part)) =~= texts(parts@) + seq![part@]);
    }
    parts.push(part);
    parts
}

/// The length of the longest start of a text that holds no white space.
pub open spec fn word_len(s: Seq<char>) -> nat
    decreases s.len(),
{
    if s.len() == 0 || is_space(s[0]) {
        0
    } else {
        1 + word_len(s.drop_first())
    }
}

/// `word_len` stops at the first white space, or at the end.
pub proof fn lemma_word_len(s: Seq<char>)
    ensures
        word_len(s) <= s.len(),
        forall|k: int| 0 <= k < word_len(s) ==> !is_space(#[trigger] s[k]),
        word_len(s) < s.len() ==> is_space(s[word_len(s) as int]),
    decreases s.len(),
{
    if s.len() != 0 && !is_space(s[0]) {
        let t = s.drop_first();
        lemma_word_len(t);
        assert forall|k: int| 0 <= k < word_len(s) implies !is_space(#[trigger] s[k]) by {
            if k > 0 {
                assert(s[k] == t[k - 1]);
            }
        }
        if word_len(s) < s.len() {
            assert(s[word_len(s) as int] == t[word_len(t) as int]);
        }
    }
}

/// A position with no white space before it that holds white space, or is
/// the end, is where `word_len` stops.
pub proof fn lemma_word_len_is(s: Seq<char>, n: int)
    requires
        0 <= n <= s.len(),
        forall|k: int| 0 <= k < n ==> !is_space(#[trigger] s[k]),
        n < s.len() ==> is_space(s[n]),
    ensures
        word_len(s) == n,
{
    lemma_word_len(s);
    let r = word_len(s) as int;
    if r < n {
        assert(!is_space(s[r]));
    } else if n < r {
        assert(!is_space(s[n]));
    }
}

/// The words of a text: its longest runs of characters that are not white
/// space, in order.
pub open spec fn words(s: Seq<char>) -> Seq<Seq<char>>
    decreases s.len(),
    via words_decreases
{
    if s.len() == 0 {
        Seq::empty()
    } else if is_space(s[0]) {
        words(s.drop_first())
    } else {
        seq![s.take(word_len(s) as int)] + words(s.skip(word_len(s) as int))
    }
}

#[via_fn]
proof fn words_decreases(s: Seq<char>) {
    lemma_word_len(s);
}

/// A word: at least one character, none of them white space.
pub open spec fn is_word(w: Seq<char>) -> bool {
    &&& w.len() > 0
    &&& forall|k: int| 0 <= k < w.len() ==> !is_space(#[trigger] w[k])
}

/// Every entry is a word.
pub open spec fn all_words(ws: Seq<Seq<char>>) -> bool {
    forall|i: int| 0 <= i < ws.len() ==> is_word(#[trigger] ws[i])
}

/// What `words` gives are words.
pub proof fn lemma_words_are_words(s: Seq<char>)
    ensures
        all_words(words(s)),
    decreases s.len(),
{
    lemma_word_len(s);
    if s.len() == 0 {
    } else if is_space(s[0]) {
        lemma_words_are_words(s.drop_first());
    } else {
        let n = word_len(s) as int;
        lemma_words_are_words(s.skip(n));
        let head = s.take(n);
        let tail = words(s.skip(n));
        assert forall|i: int| 0 <= i < words(s).len() implies is_word(#[trigger] words(s)[i]) by {
            if i == 0 {
                assert(words(s)[0] == head);
                assert forall|k: int| 0 <= k < head.len() implies !is_space(#[trigger] head[k]) by {
                    assert(head[k] == s[k]);
                }
            } else {
                assert(words(s)[i] == tail[i - 1]);
            }
        }
    }
}

/// Splits a text into its words.
pub fn split_words(text: &str) -> (parts: Vec<String>)
    ensures
        texts(parts@) == words(text@),
{
    let cs = chars_of(text);
    let mut parts: Vec<String> = Vec::new();
    let mut i: usize = 0;
    assert(cs@.skip(0) =~= cs@);
    assert(texts(parts@) =~= Seq::<Seq<char>>::empty());
    while i < cs.len()
        invariant
            cs@ == text@,
            i <= cs.len(),
            words(cs@) == texts(parts@) + words(cs@.skip(i as int)),
        decreases cs.len() - i,
    {
        if is_whitespace(cs[i]) {
            proof {
                assert(cs@.skip(i as int).drop_first() =~= cs@.skip(i + 1));
            }
            i += 1;
        } else {
            let mut j: usize = i + 1;
            while j < cs.len() && !is_whitespace(cs[j])
                invariant
                    i < j <= cs.len(),
                    forall|k: int| i <= k < j ==> !is_space(#[trigger] cs@[k]),
                decreases cs.len() - j,
            {
                j += 1;
            }
            let part = string_of_range(&cs, i, j);
            proof {
                let rest = cs@.skip(i as int);
                lemma_word_len_is(rest, j - i);
                assert(rest.take(j - i) =~= cs@.subrange(i as int, j as int));
                assert(rest.skip(j - i) =~= cs@.skip(j as int));
                assert(texts(parts@.push(part)) =~= texts(parts@) + seq![part@]);
            }
            parts.push(part);
            i = j;
        }
    }
    assert(words(cs@.skip(i as int)) =~= Seq::<Seq<char>>::empty());
    parts
}

/// The texts of a list put one after the other, with a single space between two of them.
pub open spec fn join(ws: Seq<Seq<char>>) -> Seq<char>
    decreases ws.len(),
{
    if ws.len() == 0 {
        Seq::empty()
    } else if ws.len() == 1 {
        ws[0]
    } else {
        join(ws.drop_last()) + seq![' '] + ws.last()
    }
}

/// `join`, seen from the front of the list.
pub proof fn lemma_join_front(ws: Seq<Seq<char>>)
    requires
        ws.len() >= 2,
    ensures
        join(ws) == ws[0] + seq![' '] + join(ws.drop_first()),
    decreases ws.len(),
{
    if ws.len() == 2 {
        assert(ws.drop_last() =~= seq![ws[0]]);
        assert(ws.drop_first() =~= seq![ws[1]]);
        assert(join(ws.drop_last()) == ws[0]);
        assert(join(ws.drop_first()) == ws[1]);
    } else {
        let init = ws.drop_last();
        lemma_join_front(init);
        assert(init.drop_first() =~= ws.drop_first().drop_last());
        assert(ws.drop_first().last() == ws.last());
        assert(join(ws) =~= ws[0] + seq![' '] + join(ws.drop_first()));
    }
}

/// The words of a list of words joined by spaces are that list.
pub proof fn lemma_words_of_join(ws: Seq<Seq<char>>)
    requires
        all_words(ws),
    ensures
        words(join(ws)) == ws,
    decreases ws.len(),
{
    if ws.len() == 0 {
        assert(words(join(ws)) =~= ws);
    } else {
        let w = ws[0];
        assert(is_word(w));
        let s = join(ws);
        if ws.len() == 1 {
            assert(s == w);
            assert(!is_space(s[0]));
            lemma_word_len_is(s, s.len() as int);
            assert(s.take(s.len() as int) =~= s);
            assert(s.skip(s.len() as int) =~= Seq::<char>::empty());
            assert(words(Seq::<char>::empty()) =~= Seq::<Seq<char>>::empty());
            assert(words(s) =~= seq![s]);
            assert(seq![s] =~= ws);
        } else {
            let rest = ws.drop_first();
            lemma_join_front(ws);
            let tail = seq![' '] + join(rest);
            assert(s =~= w + tail);
            assert(is_space(' '));
            assert forall|k: int| 0 <= k < w.len() implies !is_space(#[trigger] s[k]) by {
                assert(s[k] == w[k]);
            }
            assert(s[w.len() as int] == ' ');
            lemma_word_len_is(s, w.len() as int);
            assert(s.take(w.len() as int) =~= w);
            assert(s.skip(w.len() as int) =~= tail);
            assert(tail.drop_first() =~= join(rest));
            assert(all_words(rest)) by {
                assert forall|i: int| 0 <= i < rest.len() implies is_word(#[trigger] rest[i]) by {
                    assert(rest[i] == ws[i + 1]);
                }
            }
            lemma_words_of_join(rest);
            assert(words(tail) == words(join(rest)));
            assert(words(s) =~= seq![w] + rest);
            assert(seq![w] + rest =~= ws);
        }
    }
}

/// Puts the strings of a list one after the other, with a single space between two of them.
pub fn join_words(parts: &Vec<String>) -> (s: String)
    ensures
        s@ == join(texts(parts@)),
{
    let mut s = String::new();
    let mut i: usize = 0;
    assert(texts(parts@).take(0) =~= Seq::<Seq<char>>::empty());
    while i < parts.len()
        invariant
            i <= parts.len(),
            s@ == join(texts(parts@).take(i as int)),
        decreases parts.len() - i,
    {
        proof {
            let next = texts(parts@).take(i + 1);
            assert(next.drop_last() =~= texts(parts@).take(i as int));
            assert(next.last() == parts@[i as int]@);
        }
        if i > 0 {
            s.push(' ');
        }
        s.append(parts[i].as_str());
        i += 1;
    }
    assert(texts(parts@).take(parts.len() as int) =~= texts(parts@));
    s
}

/// Whether a text starts with another.
pub open spec fn starts_with(s: Seq<char>, prefix: Seq<char>) -> bool {
    prefix.len() <= s.len() && s.take(prefix.len() as int) == prefix
}

/// Whether a text ends with another.
pub open spec fn ends_with(s: Seq<char>, suffix: Seq<char>) -> bool {
    suffix.len() <= s.len() && s.skip(s.len() - suffix.len()) == suffix
}

/// Whether `s[from..]` starts with `part`.
fn matches_at(s: &Vec<char>, from: usize, part: &Vec<char>) -> (r: bool)
    requires
        from <= s.len(),
    ensures
        r == (part.len() <= s.len() - from && s@.subrange(from as int, from + part.len())
            == part@),
{
    if part.len() > s.len() - from {
        return false;
    }
    let mut i: usize = 0;
    while i < part.len()
        invariant
            i <= part.len(),
            from + part.len() <= s.len(),
            forall|k: int| 0 <= k < i ==> s@[from + k] == part@[k],
        decreases part.len() - i,
    {
        if s[from + i] != part[i] {
            assert(s@.subrange(from as int, from + part.len())[i as int] != part@[i as int]);
            return false;
        }
        i += 1;
    }
    assert(s@.subrange(from as int, from + part.len()) =~= part@);
    true
}

/// Whether a string starts with another.
pub fn has_prefix(s: &str, prefix: &str) -> (r: bool)
    ensures
        r == starts_with(s@, prefix@),
{
    let cs = chars_of(s);
    let ps = chars_of(prefix);
    matches_at(&cs, 0, &ps)
}

/// Whether a string ends with another.
pub fn has_suffix(s: &str, suffix: &str) -> (r: bool)
    ensures
        r == ends_with(s@, suffix@),
{
    let cs = chars_of(s);
    let ps = chars_of(suffix);
    if ps.len() > cs.len() {
        return false;
    }
    let r = matches_at(&cs, cs.len() - ps.len(), &ps);
    assert(cs@.skip(cs.len() - ps.len()) =~= cs@.subrange(
        cs.len() - ps.len(),
        cs.len() - ps.len() + ps.len(),
    ));
    r
}

/// A text without the carriage return at its end, if it has one.
pub open spec fn without_return(s: Seq<char>) -> Seq<char> {
    if s.len() > 0 && s.last() == '\r' {
        s.drop_last()
    } else {
        s
    }
}

/// The lines of a text. A line ends with a line feed, which does not belong
/// to it, nor does a carriage return just before the line feed. What
/// follows the last line feed is a line too, unless it is empty.
pub open spec fn lines(s: Seq<char>) -> Seq<Seq<char>> {
    let parts = split(s, '\n');
    let ended = Seq::new((parts.len() - 1) as nat, |i: int| without_return(parts[i]));
    if parts.last().len() == 0 {
        ended
    } else {
        ended.push(parts.last())
    }
}

/// Parts a text into its lines.
pub fn lines_of(text: &str) -> (r: Vec<String>)
    ensures
        texts(r@) == lines(text@),
{
    let parts = split_on(text, '\n');
    let mut r: Vec<String> = Vec::new();
    let last = parts.len() - 1;
    let mut i: usize = 0;
    while i < last
        invariant
            i <= last,
            last == parts.len() - 1,
            r.len() == i,
            forall|k: int| 0 <= k < i ==> (#[trigger] r@[k])@ == without_return(parts@[k]@),
        decreases last - i,
    {
        let cs = chars_of(parts[i].as_str());
        let n = cs.len();
        let line = if n > 0 && cs[n - 1] == '\r' {
            let line = string_of_range(&cs, 0, n - 1);
            assert(cs@.subrange(0, n - 1) =~= cs@.drop_last());
            line
        } else {
            parts[i].clone()
        };
        r.push(line);
        i += 1;
    }
    assert(texts(r@) =~= Seq::new(
        (split(text@, '\n').len() - 1) as nat,
        |i: int| without_return(split(text@, '\n')[i]),
    )) by {
        assert forall|k: int| 0 <= k < last implies texts(parts@)[k] == parts@[k]@ by {}
    }
    assert(texts(parts@).last() == parts@[last as int]@);
    if parts[last].as_str().unicode_len() > 0 {
        let ghost before = texts(r@);
        r.push(parts[last].clone());
        assert(texts(r@) =~= before.push(parts@[last as int]@));
    }
    r
}

/// The texts of a list put one after the other, with `sep` between two of them.
pub open spec fn glue(ws: Seq<Seq<char>>, sep: char) -> Seq<char>
    decreases ws.len(),
{
    if ws.len() == 0 {
        Seq::empty()
    } else if ws.len() == 1 {
        ws[0]
    } else {
        glue(ws.drop_last(), sep) + seq![sep] + ws.last()
    }
}

/// Puts the strings `parts[from..]` one after the other, with `sep` between two of them.
pub fn glue_from(parts: &Vec<String>, from: usize, sep: char) -> (s: String)
    requires
        from <= parts.len(),
    ensures
        s@ == glue(texts(parts@).skip(from as int), sep),
{
    let mut s = String::new();
    let mut i: usize = from;
    let ghost rest = texts(parts@).skip(from as int);
    assert(rest.take(0) =~= Seq::<Seq<char>>::empty());
    while i < parts.len()
        invariant
            from <= i <= parts.len(),
            rest == texts(parts@).skip(from as int),
            s@ == glue(rest.take(i - from), sep),
        decreases parts.len() - i,
    {
        proof {
            let next = rest.take(i - from + 1);
            assert(next.drop_last() =~= rest.take(i - from));
            assert(next.last() == parts@[i as int]@);
        }
        if i > from {
            s.push(sep);
        }
        s.append(parts[i].as_str());
        i += 1;
    }
    assert(rest.take(rest.len() as int) =~= rest);
    s
}

/// A text without the white space at its start.
pub open spec fn trim_start(s: Seq<char>) -> Seq<char>
    decreases s.len(),
{
    if s.len() > 0 && is_space(s[0]) {
        trim_start(s.drop_first())
    } else {
        s
    }
}

/// A text without the white space at its end.
pub open spec fn trim_end(s: Seq<char>) -> Seq<char>
    decreases s.len(),
{
    if s.len() > 0 && is_space(s.last()) {
        trim_end(s.drop_last())
    } else {
        s
    }
}

/// A text without the white space at its start and at its end.
pub open spec fn trimmed(s: Seq<char>) -> Seq<char> {
    trim_end(trim_start(s))
}

/// The bounds of `cs[from..to]` without the white space at its start and at its end.
pub fn trim_bounds(cs: &Vec<char>, from: usize, to: usize) -> (r: (usize, usize))
    requires
        from <= to <= cs.len(),
    ensures
        from <= r.0 <= r.1 <= to,
        cs@.subrange(r.0 as int, r.1 as int) == trimmed(cs@.subrange(from as int, to as int)),
{
    let mut a: usize = from;
    while a < to && is_whitespace(cs[a])
        invariant
            from <= a <= to <= cs.len(),
            trim_start(cs@.subrange(from as int, to as int)) == trim_start(
                cs@.subrange(a as int, to as int),
            ),
        decreases to - a,
    {
        proof {
            let cur = cs@.subrange(a as int, to as int);
            assert(cur[0] == cs@[a as int]);
            assert(cur.drop_first() =~= cs@.subrange(a + 1, to as int));
        }
        a += 1;
    }
    proof {
        let cur = cs@.subrange(a as int, to as int);
        if a < to {
            assert(cur[0] == cs@[a as int]);
        }
        assert(trim_start(cur) == cur);
    }
    let mut b: usize = to;
    while b > a && is_whitespace(cs[b - 1])
        invariant
            a <= b <= to <= cs.len(),
            trim_end(cs@.subrange(a as int, to as int)) == trim_end(
                cs@.subrange(a as int, b as int),
            ),
        decreases b,
    {
        proof {
            let cur = cs@.subrange(a as int, b as int);
            assert(cur.last() == cs@[b - 1]);
            assert(cur.drop_last() =~= cs@.subrange(a as int, b - 1));
        }
        b -= 1;
    }
    proof {
        let cur = cs@.subrange(a as int, b as int);
        if b > a {
            assert(cur.last() == cs@[b - 1]);
        }
        assert(trim_end(cur) == cur);
    }
    (a, b)
}

} // verus!

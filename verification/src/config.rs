//! A configuration: a map from keys to values, both text.

use crate::text::{
    chars_of, copy_text, lemma_reach_is, lines, lines_of, reach, string_of_range, texts,
    trim_bounds, trimmed,
};
use vstd::hash_map::StringHashMap;
use vstd::prelude::*;

verus! {

/// A map from text keys to text values, as read from a `key=value` file or
/// put together from the fields of a request.
pub struct Config {
    entries: StringHashMap<String>,
}

impl View for Config {
    type V = Map<Seq<char>, Seq<char>>;

    closed spec fn view(&self) -> Map<Seq<char>, Seq<char>> {
        self.entries@.map_values(|v: String| v@)
    }
}

impl Config {
    /// A configuration without entries.
    pub fn new() -> (config: Config)
        ensures
            config@ == Map::<Seq<char>, Seq<char>>::empty(),
    {
        let config = Config { entries: StringHashMap::new() };
        assert(config@ =~= Map::<Seq<char>, Seq<char>>::empty());
        config
    }

    /// Sets the value of a key, instead of the one it had if it had one.
    pub fn insert(&mut self, key: &str, value: &str)
        ensures
            final(self)@ == old(self)@.insert(key@, value@),
    {
        let v = copy_text(value);
        self.entries.insert(copy_text(key), v);
        assert(self@ =~= old(self)@.insert(key@, value@));
    }

    /// The value of a key, if the key is there.
    pub fn get(&self, key: &str) -> (value: Option<&String>)
        ensures
            match value {
                Some(v) => self@.contains_key(key@) && self@[key@] == v@,
                None => !self@.contains_key(key@),
            },
    {
        self.entries.get(key)
    }

    /// Whether the key is there.
    pub fn contains_key(&self, key: &str) -> (found: bool)
        ensures
            found == self@.contains_key(key@),
    {
        self.entries.contains_key(key)
    }
}

/// Whether a text can be a key: at least one character, each a small
/// letter, `_` or `.`.
pub open spec fn is_key(s: Seq<char>) -> bool {
    &&& s.len() > 0
    &&& forall|i: int| 0 <= i < s.len() ==> is_key_char(#[trigger] s[i])
}

/// Whether a character can stand in a key.
pub open spec fn is_key_char(c: char) -> bool {
    'a' <= c <= 'z' || c == '_' || c == '.'
}

/// The map with the entry of a line put into it. A line is an entry where
/// it holds `=` and what stands before the first `=`, without the white
/// space around it, is a key; the value is what stands after that `=`,
/// without the white space around it. Any other line changes nothing.
pub open spec fn with_line(map: Map<Seq<char>, Seq<char>>, line: Seq<char>) -> Map<
    Seq<char>,
    Seq<char>,
> {
    let n = reach(line, '=') as int;
    if n < line.len() && is_key(trimmed(line.take(n))) {
        map.insert(trimmed(line.take(n)), trimmed(line.skip(n + 1)))
    } else {
        map
    }
}

/// The map with the entries of the lines put into it, one after the other.
pub open spec fn with_lines(map: Map<Seq<char>, Seq<char>>, all: Seq<Seq<char>>) -> Map<
    Seq<char>,
    Seq<char>,
>
    decreases all.len(),
{
    if all.len() == 0 {
        map
    } else {
        with_line(with_lines(map, all.drop_last()), all.last())
    }
}

/// The configuration that a text of `key=value` lines holds. A key that
/// comes again takes the later value.
pub open spec fn config_of_text(text: Seq<char>) -> Map<Seq<char>, Seq<char>> {
    with_lines(Map::empty(), lines(text))
}

/// Whether `cs[from..to]` can be a key.
fn key_in(cs: &Vec<char>, from: usize, to: usize) -> (r: bool)
    requires
        from <= to <= cs.len(),
    ensures
        r == is_key(cs@.subrange(from as int, to as int)),
{
    if from == to {
        return false;
    }
    let mut i: usize = from;
    while i < to
        invariant
            from <= i <= to <= cs.len(),
            forall|k: int| from <= k < i ==> is_key_char(#[trigger] cs@[k]),
        decreases to - i,
    {
        let c = cs[i];
        if !(('a' <= c && c <= 'z') || c == '_' || c == '.') {
            assert(!is_key_char(cs@.subrange(from as int, to as int)[i - from]));
            return false;
        }
        i += 1;
    }
    assert forall|k: int| 0 <= k < to - from implies is_key_char(
        #[trigger] cs@.subrange(from as int, to as int)[k],
    ) by {
        assert(is_key_char(cs@[from + k]));
    }
    true
}

impl Config {
    /// Puts the entry of a line into the configuration, if the line is one.
    fn insert_line(&mut self, line: &str)
        ensures
            final(self)@ == with_line(old(self)@, line@),
    {
        let cs = chars_of(line);
        let mut n: usize = 0;
        while n < cs.len() && cs[n] != '='
            invariant
                n <= cs.len(),
                forall|k: int| 0 <= k < n ==> #[trigger] cs@[k] != '=',
            decreases cs.len() - n,
        {
            n += 1;
        }
        proof {
            lemma_reach_is(cs@, '=', n as int);
        }
        if n == cs.len() {
            return ;
        }
        let (a, b) = trim_bounds(&cs, 0, n);
        assert(cs@.subrange(0, n as int) =~= cs@.take(n as int));
        if !key_in(&cs, a, b) {
            return ;
        }
        let (c, d) = trim_bounds(&cs, n + 1, cs.len());
        assert(cs@.subrange(n + 1, cs.len() as int) =~= cs@.skip(n + 1));
        let key = string_of_range(&cs, a, b);
        let value = string_of_range(&cs, c, d);
        self.insert(key.as_str(), value.as_str());
    }

    /// Reads a configuration from a text of `key=value` lines. A line that
    /// is no entry is passed over.
    pub fn parse(text: &str) -> (config: Config)
        ensures
            config@ == config_of_text(text@),
    {
        let all = lines_of(text);
        let mut config = Config::new();
        let mut i: usize = 0;
        let ghost input = texts(all@);
        assert(input.take(0) =~= Seq::<Seq<char>>::empty());
        while i < all.len()
            invariant
                i <= all.len(),
                input == texts(all@),
                config@ == with_lines(Map::empty(), input.take(i as int)),
            decreases all.len() - i,
        {
            proof {
                let next = input.take(i + 1);
                assert(next.drop_last() =~= input.take(i as int));
                assert(next.last() == all@[i as int]@);
            }
            config.insert_line(all[i].as_str());
            i += 1;
        }
        assert(input.take(input.len() as int) =~= input);
        config
    }
}

} // verus!

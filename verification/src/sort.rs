//! Putting a list in the order of a text that each item has: a stable sort.

use crate::text::chars_of;
use vstd::prelude::*;

verus! {

/// The order of texts: by the code point of the first character in which
/// they differ; a text comes before every text that it starts.
pub open spec fn text_le(a: Seq<char>, b: Seq<char>) -> bool
    decreases a.len(),
{
    if a.len() == 0 {
        true
    } else if b.len() == 0 {
        false
    } else if a[0] != b[0] {
        a[0] < b[0]
    } else {
        text_le(a.drop_first(), b.drop_first())
    }
}

/// Every text is in order with itself.
pub proof fn lemma_text_le_reflexive(a: Seq<char>)
    ensures
        text_le(a, a),
    decreases a.len(),
{
    if a.len() > 0 {
        lemma_text_le_reflexive(a.drop_first());
    }
}

/// Of two texts one is in order with the other.
pub proof fn lemma_text_le_total(a: Seq<char>, b: Seq<char>)
    ensures
        text_le(a, b) || text_le(b, a),
    decreases a.len(),
{
    if a.len() > 0 && b.len() > 0 && a[0] == b[0] {
        lemma_text_le_total(a.drop_first(), b.drop_first());
    }
}

/// The order of texts carries over.
pub proof fn lemma_text_le_transitive(a: Seq<char>, b: Seq<char>, c: Seq<char>)
    requires
        text_le(a, b),
        text_le(b, c),
    ensures
        text_le(a, c),
    decreases a.len(),
{
    if a.len() > 0 && b.len() > 0 && c.len() > 0 && a[0] == b[0] && b[0] == c[0] {
        lemma_text_le_transitive(a.drop_first(), b.drop_first(), c.drop_first());
    }
}

/// Whether one text is in order with another.
pub fn text_in_order(a: &str, b: &str) -> (r: bool)
    ensures
        r == text_le(a@, b@),
{
    let x = chars_of(a);
    let y = chars_of(b);
    let mut i: usize = 0;
    assert(x@.skip(0) =~= x@);
    assert(y@.skip(0) =~= y@);
    while i < x.len()
        invariant
            x@ == a@,
            y@ == b@,
            i <= x.len(),
            i <= y.len(),
            text_le(a@, b@) == text_le(x@.skip(i as int), y@.skip(i as int)),
        decreases x.len() - i,
    {
        if i >= y.len() {
            return false;
        }
        proof {
            assert(x@.skip(i as int).drop_first() =~= x@.skip(i + 1));
            assert(y@.skip(i as int).drop_first() =~= y@.skip(i + 1));
            assert(x@.skip(i as int)[0] == x@[i as int]);
            assert(y@.skip(i as int)[0] == y@[i as int]);
        }
        if x[i] != y[i] {
            return x[i] < y[i];
        }
        i += 1;
    }
    true
}

/// What can be put in order by a text of its own: its key.
pub trait Keyed: View + Sized {
    /// The key of an item, read from what the item holds.
    spec fn key_of(item: Self::V) -> Seq<char>;

    /// The key of the item.
    fn key(&self) -> (k: &str)
        ensures
            k@ == Self::key_of(self@),
    ;
}

/// What a list of items holds, as mathematical values.
pub open spec fn views_of<T: View>(items: Seq<T>) -> Seq<T::V> {
    Seq::new(items.len(), |i: int| items[i]@)
}

/// Each item's key is in order with the key of every later item.
pub open spec fn sorted_by_key<T: Keyed>(items: Seq<T::V>) -> bool {
    forall|i: int, j: int|
        0 <= i < j < items.len() ==> text_le(
            T::key_of(#[trigger] items[i]),
            T::key_of(#[trigger] items[j]),
        )
}

/// The test whether an item has the key `k`.
pub open spec fn has_key<T: Keyed>(k: Seq<char>) -> spec_fn(T::V) -> bool {
    |item: T::V| T::key_of(item) == k
}

/// The items that have the key `k`, in their order.
pub open spec fn at_key<T: Keyed>(items: Seq<T::V>, k: Seq<char>) -> Seq<T::V> {
    items.filter(has_key::<T>(k))
}

/// Whether `sorted` holds the items of `items` ordered by key, items of the
/// same key in the order they have in `items`.
pub open spec fn is_stable_sort<T: Keyed>(sorted: Seq<T::V>, items: Seq<T::V>) -> bool {
    &&& sorted.len() == items.len()
    &&& sorted_by_key::<T>(sorted)
    &&& forall|k: Seq<char>| #[trigger] at_key::<T>(sorted, k) == at_key::<T>(items, k)
}

proof fn lemma_none_at_key<T: Keyed>(lines: Seq<T::V>, t: Seq<char>)
    requires
        forall|k: int| 0 <= k < lines.len() ==> T::key_of(#[trigger] lines[k]) != t,
    ensures
        at_key::<T>(lines, t) == Seq::<T::V>::empty(),
    decreases lines.len(),
{
    reveal(Seq::filter);
    if lines.len() > 0 {
        let init = lines.drop_last();
        assert forall|k: int| 0 <= k < init.len() implies T::key_of(#[trigger] init[k]) != t by {
            assert(init[k] == lines[k]);
        }
        lemma_none_at_key::<T>(init, t);
        assert(lines.last() == lines[lines.len() - 1]);
    }
}

proof fn lemma_one_at_key<T: Keyed>(line: T::V, t: Seq<char>)
    ensures
        at_key::<T>(seq![line], t) == if T::key_of(line) == t {
            seq![line]
        } else {
            Seq::<T::V>::empty()
        },
{
    reveal_with_fuel(Seq::filter, 2);
    let one = seq![line];
    assert(one.drop_last() =~= Seq::<T::V>::empty());
    assert(one.last() == line);
    assert(at_key::<T>(one, t) =~= if T::key_of(line) == t {
        seq![line]
    } else {
        Seq::<T::V>::empty()
    });
}

/// Putting an item into a sorted list, behind every item whose key is in
/// order with its own, keeps the list sorted and the items of each key in
/// their order.
proof fn lemma_insert_sorted<T: Keyed>(sorted: Seq<T::V>, lines: Seq<T::V>, line: T::V, p: int)
    requires
        is_stable_sort::<T>(sorted, lines),
        0 <= p <= sorted.len(),
        p > 0 ==> text_le(T::key_of(sorted[p - 1]), T::key_of(line)),
        forall|k: int|
            p <= k < sorted.len() ==> !text_le(T::key_of(#[trigger] sorted[k]), T::key_of(line)),
    ensures
        is_stable_sort::<T>(sorted.insert(p, line), lines.push(line)),
{
    let after = sorted.insert(p, line);
    assert forall|i: int, j: int| 0 <= i < j < after.len() implies text_le(
        T::key_of(#[trigger] after[i]),
        T::key_of(#[trigger] after[j]),
    ) by {
        if j < p {
            assert(after[i] == sorted[i] && after[j] == sorted[j]);
        } else if j == p {
            assert(after[i] == sorted[i]);
            if i < p - 1 {
                assert(text_le(T::key_of(sorted[i]), T::key_of(sorted[p - 1])));
            } else {
                lemma_text_le_reflexive(T::key_of(sorted[i]));
            }
            lemma_text_le_transitive(
                T::key_of(sorted[i]),
                T::key_of(sorted[p - 1]),
                T::key_of(line),
            );
        } else if i == p {
            assert(after[j] == sorted[j - 1]);
            lemma_text_le_total(T::key_of(sorted[j - 1]), T::key_of(line));
        } else if i < p {
            assert(after[i] == sorted[i] && after[j] == sorted[j - 1]);
        } else {
            assert(after[i] == sorted[i - 1] && after[j] == sorted[j - 1]);
        }
    }
    assert forall|t: Seq<char>| #[trigger]
        at_key::<T>(after, t) == at_key::<T>(lines.push(line), t) by {
        let front = sorted.take(p);
        let back = sorted.skip(p);
        let one = seq![line];
        assert(after =~= front + one + back);
        assert(sorted =~= front + back);
        assert(lines.push(line) =~= lines + one);
        Seq::filter_distributes_over_add(front + one, back, has_key::<T>(t));
        Seq::filter_distributes_over_add(front, one, has_key::<T>(t));
        Seq::filter_distributes_over_add(front, back, has_key::<T>(t));
        Seq::filter_distributes_over_add(lines, one, has_key::<T>(t));
        lemma_one_at_key::<T>(line, t);
        assert(at_key::<T>(sorted, t) == at_key::<T>(lines, t));
        if T::key_of(line) == t {
            assert forall|k: int| 0 <= k < back.len() implies T::key_of(#[trigger] back[k])
                != t by {
                assert(back[k] == sorted[p + k]);
                lemma_text_le_reflexive(t);
            }
            lemma_none_at_key::<T>(back, t);
            assert(at_key::<T>(after, t) =~= at_key::<T>(front, t) + one);
            assert(at_key::<T>(sorted, t) =~= at_key::<T>(front, t));
        } else {
            assert(at_key::<T>(after, t) =~= at_key::<T>(front, t) + at_key::<T>(back, t));
        }
    }
}

/// Puts the items of a list in the order of their keys. Items of the same
/// key stay in the order they came in.
pub fn stable_sort<T: Keyed>(items: Vec<T>) -> (sorted: Vec<T>)
    ensures
        is_stable_sort::<T>(views_of(sorted@), views_of(items@)),
{
    let ghost input = views_of(items@);
    let mut sorted: Vec<T> = Vec::new();
    proof {
        assert(input.take(0) =~= Seq::<T::V>::empty());
        assert(views_of(sorted@) =~= Seq::<T::V>::empty());
    }
    for item in it: items
        invariant
            it.seq() == items@,
            views_of(items@) == input,
            is_stable_sort::<T>(views_of(sorted@), input.take(it.index())),
    {
        let ghost before = views_of(sorted@);
        let mut p: usize = sorted.len();
        while p > 0 && !text_in_order(sorted[p - 1].key(), item.key())
            invariant
                p <= sorted.len(),
                before == views_of(sorted@),
                forall|k: int|
                    p <= k < before.len() ==> !text_le(
                        T::key_of(#[trigger] before[k]),
                        T::key_of(item@),
                    ),
            decreases p,
        {
            p -= 1;
        }
        proof {
            lemma_insert_sorted::<T>(before, input.take(it.index()), item@, p as int);
            assert(input.take(it.index() + 1) =~= input.take(it.index()).push(item@));
        }
        sorted.insert(p, item);
        assert(views_of(sorted@) =~= before.insert(p as int, item@));
    }
    assert(input.take(input.len() as int) =~= input);
    sorted
}

} // verus!

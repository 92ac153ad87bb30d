//! Putting a sequence in the order of a key, so that items with equal keys
//! stay in the order in which they came.

use vstd::prelude::*;

verus! {

/// The first position of `s` that holds a key above `k`; the length of `s`
/// where no key is above it.
pub open spec fn first_above<T>(s: Seq<T>, key: spec_fn(T) -> int, k: int) -> int
    decreases s.len(),
{
    if s.len() == 0 || key(s[0]) > k {
        0
    } else {
        1 + first_above(s.drop_first(), key, k)
    }
}

/// `s` with `x` put in behind every item whose key is not above its own, up
/// to the first item whose key is.
pub open spec fn insert_by<T>(s: Seq<T>, key: spec_fn(T) -> int, x: T) -> Seq<T> {
    s.insert(first_above(s, key, key(x)), x)
}

/// The items of `s`, each put in its place in turn: ascending by key, items
/// with equal keys in the order of `s`.
pub open spec fn ordered_by<T>(s: Seq<T>, key: spec_fn(T) -> int) -> Seq<T>
    decreases s.len(),
{
    if s.len() == 0 {
        s
    } else {
        insert_by(ordered_by(s.drop_last(), key), key, s.last())
    }
}

/// Whether the keys of `s` never fall from one item to a later one.
pub open spec fn is_ascending<T>(s: Seq<T>, key: spec_fn(T) -> int) -> bool {
    forall|i: int, j: int| 0 <= i <= j < s.len() ==> key(s[i]) <= key(s[j])
}

/// `first_above` names a position of `s` or its end; no key before it is
/// above `k`, and the key at it is.
pub proof fn lemma_first_above<T>(s: Seq<T>, key: spec_fn(T) -> int, k: int)
    ensures
        0 <= first_above(s, key, k) <= s.len(),
        forall|i: int| 0 <= i < first_above(s, key, k) ==> key(#[trigger] s[i]) <= k,
        first_above(s, key, k) < s.len() ==> key(s[first_above(s, key, k)]) > k,
    decreases s.len(),
{
    if s.len() == 0 || key(s[0]) > k {
    } else {
        let rest = s.drop_first();
        lemma_first_above(rest, key, k);
        let p = first_above(rest, key, k);
        assert forall|i: int| 0 <= i < p + 1 implies key(#[trigger] s[i]) <= k by {
            if i > 0 {
                assert(s[i] == rest[i - 1]);
            }
        }
        if p < rest.len() {
            assert(s[p + 1] == rest[p]);
        }
    }
}

/// A search that has passed `p` items, none with a key above `k`, finds what
/// a search of the rest finds, `p` places on.
pub proof fn lemma_first_above_skip<T>(s: Seq<T>, key: spec_fn(T) -> int, k: int, p: int)
    requires
        0 <= p <= s.len(),
        forall|i: int| 0 <= i < p ==> key(#[trigger] s[i]) <= k,
    ensures
        first_above(s, key, k) == p + first_above(s.skip(p), key, k),
    decreases p,
{
    if p == 0 {
        assert(s.skip(0) =~= s);
    } else {
        lemma_first_above_skip(s, key, k, p - 1);
        let rest = s.skip(p - 1);
        assert(rest[0] == s[p - 1]);
        assert(rest.drop_first() =~= s.skip(p));
    }
}

/// Putting an item in keeps every item: the length grows by one and the
/// items are those of `s` and `x`.
pub proof fn lemma_insert_by_keeps<T>(s: Seq<T>, key: spec_fn(T) -> int, x: T)
    ensures
        insert_by(s, key, x).len() == s.len() + 1,
        insert_by(s, key, x).to_multiset() == s.to_multiset().insert(x),
{
    lemma_first_above(s, key, key(x));
    vstd::seq_lib::to_multiset_insert(s, first_above(s, key, key(x)), x);
}

/// Putting an item into an ascending sequence leaves it ascending.
pub proof fn lemma_insert_by_ascending<T>(s: Seq<T>, key: spec_fn(T) -> int, x: T)
    requires
        is_ascending(s, key),
    ensures
        is_ascending(insert_by(s, key, x), key),
{
    let k = key(x);
    let p = first_above(s, key, k);
    lemma_first_above(s, key, k);
    let r = insert_by(s, key, x);
    assert forall|i: int, j: int| 0 <= i <= j < r.len() implies key(r[i]) <= key(r[j]) by {
        if i < p {
            assert(r[i] == s[i]);
        } else if i > p {
            assert(r[i] == s[i - 1]);
        }
        if j < p {
            assert(r[j] == s[j]);
        } else if j > p {
            assert(r[j] == s[j - 1]);
        }
        if i <= p && j > p {
            assert(key(s[p]) <= key(s[j - 1]));
        }
    }
}

/// What `ordered_by` gives is ascending by key and holds the items of `s`,
/// each as often as `s` does.
pub proof fn lemma_ordered_by<T>(s: Seq<T>, key: spec_fn(T) -> int)
    ensures
        is_ascending(ordered_by(s, key), key),
        ordered_by(s, key).len() == s.len(),
        ordered_by(s, key).to_multiset() == s.to_multiset(),
    decreases s.len(),
{
    if s.len() == 0 {
    } else {
        let init = s.drop_last();
        lemma_ordered_by(init, key);
        lemma_insert_by_ascending(ordered_by(init, key), key, s.last());
        lemma_insert_by_keeps(ordered_by(init, key), key, s.last());
        assert(init.push(s.last()) =~= s);
        vstd::seq_lib::to_multiset_build(init, s.last());
    }
}

/// An item is in what `ordered_by` gives exactly if it is in `s`.
pub proof fn lemma_ordered_by_contains<T>(s: Seq<T>, key: spec_fn(T) -> int, x: T)
    ensures
        ordered_by(s, key).contains(x) <==> s.contains(x),
{
    lemma_ordered_by(s, key);
    vstd::seq_lib::to_multiset_contains(s, x);
    vstd::seq_lib::to_multiset_contains(ordered_by(s, key), x);
}

/// Ordering a sequence one item longer puts the new item into the order of
/// the others.
pub proof fn lemma_ordered_by_push<T>(s: Seq<T>, key: spec_fn(T) -> int, x: T)
    ensures
        ordered_by(s.push(x), key) == insert_by(ordered_by(s, key), key, x),
{
    assert(s.push(x).drop_last() =~= s);
}

/// Whether no two items of `s` carry the same tag.
pub open spec fn tags_differ<T, K>(s: Seq<T>, tag: spec_fn(T) -> K) -> bool {
    forall|i: int, j: int| 0 <= i < j < s.len() ==> tag(s[i]) != tag(s[j])
}

/// Where no two items of `s` carry the same tag, no two items of what
/// `ordered_by` gives do.
pub proof fn lemma_ordered_by_tags<T, K>(s: Seq<T>, key: spec_fn(T) -> int, tag: spec_fn(T) -> K)
    requires
        tags_differ(s, tag),
    ensures
        tags_differ(ordered_by(s, key), tag),
    decreases s.len(),
{
    if s.len() == 0 {
    } else {
        let init = s.drop_last();
        let x = s.last();
        assert forall|i: int, j: int| 0 <= i < j < init.len() implies tag(init[i]) != tag(
            init[j],
        ) by {
            assert(init[i] == s[i] && init[j] == s[j]);
        }
        lemma_ordered_by_tags(init, key, tag);
        let o = ordered_by(init, key);
        lemma_ordered_by(init, key);
        let p = first_above(o, key, key(x));
        lemma_first_above(o, key, key(x));
        let r = insert_by(o, key, x);
        assert forall|k: int| 0 <= k < o.len() implies tag(#[trigger] o[k]) != tag(x) by {
            assert(o.contains(o[k]));
            lemma_ordered_by_contains(init, key, o[k]);
            let m = choose|m: int| 0 <= m < init.len() && init[m] == o[k];
            assert(init[m] == s[m]);
            assert(tag(s[m]) != tag(s[s.len() - 1]));
        }
        assert forall|i: int, j: int| 0 <= i < j < r.len() implies tag(r[i]) != tag(r[j]) by {
            if i < p {
                assert(r[i] == o[i]);
            } else if i > p {
                assert(r[i] == o[i - 1]);
            }
            if j < p {
                assert(r[j] == o[j]);
            } else if j > p {
                assert(r[j] == o[j - 1]);
            }
        }
    }
}

} // verus!

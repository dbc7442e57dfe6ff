//! Sorting by name: the rule that assigns every host function its slot.
//!
//! The sort is stable: items with equal names keep the order in which they
//! were given.

use vstd::prelude::*;
use crate::names::{lemma_name_le_transitive, lemma_name_order_total, name_le, name_lt};

verus! {

/// `s` with `x` put behind the last item whose name does not come after the
/// name of `x`.
pub open spec fn insert_by_name<T>(s: Seq<T>, x: T, key: spec_fn(T) -> Seq<char>) -> Seq<T>
    decreases s.len(),
{
    if s.len() == 0 {
        seq![x]
    } else if name_lt(key(x), key(s.last())) {
        insert_by_name(s.drop_last(), x, key).push(s.last())
    } else {
        s.push(x)
    }
}

/// The items of `s` in ascending order of their names, equal names in the
/// order of `s`.
pub open spec fn sort_by_name<T>(s: Seq<T>, key: spec_fn(T) -> Seq<char>) -> Seq<T>
    decreases s.len(),
{
    if s.len() == 0 {
        Seq::empty()
    } else {
        insert_by_name(sort_by_name(s.drop_last(), key), s.last(), key)
    }
}

/// No item's name comes after the name of a later item.
pub open spec fn ascending<T>(s: Seq<T>, key: spec_fn(T) -> Seq<char>) -> bool {
    forall|i: int, j: int| 0 <= i < j < s.len() ==> name_le(#[trigger] key(s[i]), #[trigger] key(s[j]))
}

/// No two items share a name.
pub open spec fn distinct_names<T>(s: Seq<T>, key: spec_fn(T) -> Seq<char>) -> bool {
    forall|i: int, j: int| 0 <= i < j < s.len() ==> #[trigger] key(s[i]) != #[trigger] key(s[j])
}

/// Where `insert_by_name` puts `x`: at the one position that has only later
/// names behind it and no later name directly before it.
pub proof fn lemma_insert_position<T>(s: Seq<T>, x: T, key: spec_fn(T) -> Seq<char>, pos: int)
    requires
        0 <= pos <= s.len(),
        forall|k: int| pos <= k < s.len() ==> name_lt(key(x), #[trigger] key(s[k])),
        pos > 0 ==> !name_lt(key(x), key(s[pos - 1])),
    ensures
        insert_by_name(s, x, key) == s.insert(pos, x),
    decreases s.len(),
{
    if s.len() == 0 {
        assert(s.insert(pos, x) =~= seq![x]);
    } else if pos == s.len() {
        assert(s.insert(pos, x) =~= s.push(x));
    } else {
        assert(name_lt(key(x), key(s[s.len() - 1])));
        let t = s.drop_last();
        assert forall|k: int| pos <= k < t.len() implies name_lt(key(x), #[trigger] key(t[k])) by {
            assert(t[k] == s[k]);
        }
        lemma_insert_position(t, x, key, pos);
        assert(t.insert(pos, x).push(s.last()) =~= s.insert(pos, x));
    }
}

/// Inserting keeps the items and adds the new one.
pub proof fn lemma_insert_is_insertion<T>(s: Seq<T>, x: T, key: spec_fn(T) -> Seq<char>) -> (pos:
    int)
    ensures
        0 <= pos <= s.len(),
        insert_by_name(s, x, key) == s.insert(pos, x),
        forall|k: int| pos <= k < s.len() ==> name_lt(key(x), #[trigger] key(s[k])),
        pos > 0 ==> !name_lt(key(x), key(s[pos - 1])),
    decreases s.len(),
{
    if s.len() == 0 {
        assert(s.insert(0, x) =~= seq![x]);
        0
    } else if name_lt(key(x), key(s.last())) {
        let t = s.drop_last();
        let pos = lemma_insert_is_insertion(t, x, key);
        assert(t.insert(pos, x).push(s.last()) =~= s.insert(pos, x));
        assert forall|k: int| pos <= k < s.len() implies name_lt(key(x), #[trigger] key(s[k])) by {
            if k < t.len() {
                assert(t[k] == s[k]);
            }
        }
        if pos > 0 {
            assert(t[pos - 1] == s[pos - 1]);
        }
        pos
    } else {
        assert(s.insert(s.len() as int, x) =~= s.push(x));
        s.len() as int
    }
}

/// Sorting rearranges: every item occurs in the result as often as before.
pub proof fn lemma_sort_permutes<T>(s: Seq<T>, key: spec_fn(T) -> Seq<char>)
    ensures
        sort_by_name(s, key).to_multiset() == s.to_multiset(),
        sort_by_name(s, key).len() == s.len(),
    decreases s.len(),
{
    broadcast use vstd::seq_lib::group_to_multiset_ensures;

    if s.len() == 0 {
        assert(sort_by_name(s, key) =~= s);
    } else {
        let t = s.drop_last();
        lemma_sort_permutes(t, key);
        let sorted = sort_by_name(t, key);
        let pos = lemma_insert_is_insertion(sorted, s.last(), key);
        vstd::seq_lib::to_multiset_insert(sorted, pos, s.last());
        assert(t.push(s.last()) =~= s);
        assert(s.to_multiset() =~= t.to_multiset().insert(s.last()));
    }
}

/// The result of sorting is in ascending order.
pub proof fn lemma_sort_ascends<T>(s: Seq<T>, key: spec_fn(T) -> Seq<char>)
    ensures
        ascending(sort_by_name(s, key), key),
    decreases s.len(),
{
    if s.len() > 0 {
        let t = s.drop_last();
        lemma_sort_ascends(t, key);
        let sorted = sort_by_name(t, key);
        let x = s.last();
        let pos = lemma_insert_is_insertion(sorted, x, key);
        let r = sorted.insert(pos, x);
        assert forall|i: int, j: int| 0 <= i < j < r.len() implies name_le(
            #[trigger] key(r[i]),
            #[trigger] key(r[j]),
        ) by {
            if j == pos {
                // r[i] is an item before the position: none of them comes after x
                assert(r[i] == sorted[i]);
                if i < pos - 1 {
                    assert(name_le(key(sorted[i]), key(sorted[pos - 1])));
                    lemma_name_le_transitive(key(sorted[i]), key(sorted[pos - 1]), key(x));
                }
            } else if i == pos {
                assert(r[j] == sorted[j - 1]);
                assert(name_lt(key(x), key(sorted[j - 1])));
                lemma_name_order_total(key(x), key(sorted[j - 1]));
            } else {
                let i0 = if i < pos { i } else { i - 1 };
                let j0 = if j < pos { j } else { j - 1 };
                assert(r[i] == sorted[i0]);
                assert(r[j] == sorted[j0]);
                assert(name_le(key(sorted[i0]), key(sorted[j0])));
            }
        }
    }
}

/// A sequence that is already in ascending order is left as it is.
pub proof fn lemma_sort_keeps_ascending<T>(s: Seq<T>, key: spec_fn(T) -> Seq<char>)
    requires
        ascending(s, key),
    ensures
        sort_by_name(s, key) == s,
    decreases s.len(),
{
    if s.len() == 0 {
        assert(sort_by_name(s, key) =~= s);
    } else {
        let t = s.drop_last();
        assert forall|i: int, j: int| 0 <= i < j < t.len() implies name_le(
            #[trigger] key(t[i]),
            #[trigger] key(t[j]),
        ) by {
            assert(t[i] == s[i] && t[j] == s[j]);
        }
        lemma_sort_keeps_ascending(t, key);
        if t.len() > 0 {
            assert(t.last() == s[t.len() - 1]);
            assert(name_le(key(s[t.len() - 1]), key(s[s.len() - 1])));
        }
        lemma_insert_position(t, s.last(), key, t.len() as int);
        assert(t.insert(t.len() as int, s.last()) =~= s);
    }
}

/// Whether names repeat depends on the items alone, not on their order.
pub proof fn lemma_distinct_names_permuted<T>(s: Seq<T>, t: Seq<T>, key: spec_fn(T) -> Seq<char>)
    requires
        distinct_names(s, key),
        s.to_multiset() == t.to_multiset(),
    ensures
        distinct_names(t, key),
{
    broadcast use vstd::seq_lib::group_to_multiset_ensures;

    assert(s.no_duplicates()) by {
        assert forall|i: int, j: int| 0 <= i < s.len() && 0 <= j < s.len() && i != j implies s[i]
            != s[j] by {
            if i < j {
                assert(key(s[i]) != key(s[j]));
            } else {
                assert(key(s[j]) != key(s[i]));
            }
        }
    }
    s.lemma_multiset_has_no_duplicates();
    t.lemma_multiset_has_no_duplicates_conv();
    assert forall|i: int, j: int| 0 <= i < j < t.len() implies #[trigger] key(t[i]) != #[trigger] key(
        t[j],
    ) by {
        assert(t[i] != t[j]);
        assert(t.contains(t[i]));
        assert(t.contains(t[j]));
        assert(s.to_multiset().count(t[i]) > 0);
        assert(s.to_multiset().count(t[j]) > 0);
        assert(s.contains(t[i]));
        assert(s.contains(t[j]));
        let p = choose|p: int| 0 <= p < s.len() && s[p] == t[i];
        let q = choose|q: int| 0 <= q < s.len() && s[q] == t[j];
        if p < q {
            assert(key(s[p]) != key(s[q]));
        } else {
            assert(key(s[q]) != key(s[p]));
        }
    }
}

/// Two ascending sequences that hold the same items, none of them under a
/// repeated name, are the same sequence.
pub proof fn lemma_ascending_unique<T>(x: Seq<T>, y: Seq<T>, key: spec_fn(T) -> Seq<char>)
    requires
        ascending(x, key),
        ascending(y, key),
        distinct_names(x, key),
        x.to_multiset() == y.to_multiset(),
    ensures
        x == y,
    decreases x.len(),
{
    broadcast use vstd::seq_lib::group_to_multiset_ensures;

    lemma_distinct_names_permuted(x, y, key);
    assert(x.len() == y.len()) by {
        vstd::seq_lib::to_multiset_len(x);
        vstd::seq_lib::to_multiset_len(y);
    }
    if x.len() == 0 {
        assert(x =~= y);
    } else {
        let n = x.len() - 1;
        assert(x.contains(x[n]));
        assert(y.to_multiset().count(x[n]) > 0);
        assert(y.contains(x[n]));
        let j = choose|j: int| 0 <= j < y.len() && y[j] == x[n];
        assert(y.contains(y[n]));
        assert(x.to_multiset().count(y[n]) > 0);
        assert(x.contains(y[n]));
        let i = choose|i: int| 0 <= i < x.len() && x[i] == y[n];
        if j < n {
            assert(name_le(key(y[j]), key(y[n])));
            assert(key(y[j]) != key(y[n]));
            lemma_name_order_total(key(y[j]), key(y[n]));
            assert(name_lt(key(x[n]), key(y[n])));
            if i < n {
                assert(name_le(key(x[i]), key(x[n])));
            }
            assert(false);
        }
        assert(x[n] == y[n]);
        let (x0, y0) = (x.drop_last(), y.drop_last());
        assert(x0 =~= x.remove(n));
        assert(y0 =~= y.remove(n));
        assert(x0.to_multiset() == y0.to_multiset());
        assert forall|a: int, b: int| 0 <= a < b < x0.len() implies name_le(
            #[trigger] key(x0[a]),
            #[trigger] key(x0[b]),
        ) by {
            assert(x0[a] == x[a] && x0[b] == x[b]);
        }
        assert forall|a: int, b: int| 0 <= a < b < y0.len() implies name_le(
            #[trigger] key(y0[a]),
            #[trigger] key(y0[b]),
        ) by {
            assert(y0[a] == y[a] && y0[b] == y[b]);
        }
        assert forall|a: int, b: int| 0 <= a < b < x0.len() implies #[trigger] key(x0[a])
            != #[trigger] key(x0[b]) by {
            assert(x0[a] == x[a] && x0[b] == x[b]);
        }
        lemma_ascending_unique(x0, y0, key);
        assert(x =~= x0.push(x[n]));
        assert(y =~= y0.push(y[n]));
    }
}

/// Where no name repeats, the order in which the items were given does not
/// matter: two arrangements of the same items sort to the same sequence.
pub proof fn lemma_sort_ignores_order<T>(a: Seq<T>, b: Seq<T>, key: spec_fn(T) -> Seq<char>)
    requires
        distinct_names(a, key),
        a.to_multiset() == b.to_multiset(),
    ensures
        sort_by_name(a, key) == sort_by_name(b, key),
{
    lemma_sort_permutes(a, key);
    lemma_sort_permutes(b, key);
    lemma_sort_ascends(a, key);
    lemma_sort_ascends(b, key);
    lemma_distinct_names_permuted(a, sort_by_name(a, key), key);
    lemma_ascending_unique(sort_by_name(a, key), sort_by_name(b, key), key);
}

/// Sorting goes through a change of the items that keeps their names: it
/// makes no difference whether the items are changed before or after.
pub proof fn lemma_sort_maps<T, U>(
    s: Seq<T>,
    f: spec_fn(T) -> U,
    key: spec_fn(T) -> Seq<char>,
    key_after: spec_fn(U) -> Seq<char>,
)
    requires
        forall|x: T| key_after(f(x)) == #[trigger] key(x),
    ensures
        sort_by_name(s.map_values(f), key_after) == sort_by_name(s, key).map_values(f),
    decreases s.len(),
{
    if s.len() == 0 {
        assert(sort_by_name(s.map_values(f), key_after) =~= sort_by_name(s, key).map_values(f));
    } else {
        let t = s.drop_last();
        lemma_sort_maps(t, f, key, key_after);
        assert(s.map_values(f).drop_last() =~= t.map_values(f));
        assert(s.map_values(f).last() == f(s.last()));
        lemma_insert_maps(sort_by_name(t, key), s.last(), f, key, key_after);
    }
}

proof fn lemma_insert_maps<T, U>(
    s: Seq<T>,
    x: T,
    f: spec_fn(T) -> U,
    key: spec_fn(T) -> Seq<char>,
    key_after: spec_fn(U) -> Seq<char>,
)
    requires
        forall|x: T| key_after(f(x)) == #[trigger] key(x),
    ensures
        insert_by_name(s.map_values(f), f(x), key_after) == insert_by_name(s, x, key).map_values(f),
    decreases s.len(),
{
    let m = s.map_values(f);
    assert(key_after(f(x)) == key(x));
    if s.len() == 0 {
        assert(insert_by_name(m, f(x), key_after) =~= insert_by_name(s, x, key).map_values(f));
    } else {
        assert(m.last() == f(s.last()));
        assert(key_after(f(s.last())) == key(s.last()));
        if name_lt(key(x), key(s.last())) {
            lemma_insert_maps(s.drop_last(), x, f, key, key_after);
            assert(m.drop_last() =~= s.drop_last().map_values(f));
            assert(insert_by_name(s.drop_last(), x, key).map_values(f).push(f(s.last()))
                =~= insert_by_name(s.drop_last(), x, key).push(s.last()).map_values(f));
        } else {
            assert(m.push(f(x)) =~= s.push(x).map_values(f));
        }
    }
}

/// Sorting neither adds nor loses an item.
pub proof fn lemma_sort_keeps_items<T>(s: Seq<T>, key: spec_fn(T) -> Seq<char>)
    ensures
        forall|x: T| s.contains(x) <==> #[trigger] sort_by_name(s, key).contains(x),
{
    broadcast use vstd::seq_lib::group_to_multiset_ensures;

    lemma_sort_permutes(s, key);
    let r = sort_by_name(s, key);
    assert forall|x: T| s.contains(x) <==> #[trigger] r.contains(x) by {
        assert(s.contains(x) <==> s.to_multiset().count(x) > 0);
        assert(r.contains(x) <==> r.to_multiset().count(x) > 0);
    }
}

} // verus!

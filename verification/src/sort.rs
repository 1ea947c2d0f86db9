//! Stable sorting by a two-part integer key.

use vstd::prelude::*;

verus! {

/// Something that has a place in an order: a pair of integers, the first one
/// weighing more.
pub trait Keyed {
    /// The pair it is sorted by.
    spec fn key(&self) -> (int, int);
}

/// Something that can be sorted.
pub trait SortKey: Keyed {
    /// The pair it is sorted by.
    fn sort_key(&self) -> (result: (u64, u64))
        ensures
            (result.0 as int, result.1 as int) == self.key(),
    ;
}

/// Whether key `a` goes strictly before key `b`.
pub open spec fn key_before(a: (int, int), b: (int, int)) -> bool {
    a.0 < b.0 || (a.0 == b.0 && a.1 < b.1)
}

/// Whether `after` holds the items of `before`, each once, in the order of
/// their keys, items of equal key in their old order. The item now at `i` was
/// at `from[i]`.
pub open spec fn sorts_as<T: Keyed>(before: Seq<T>, after: Seq<T>, from: Seq<int>) -> bool {
    &&& after.len() == before.len()
    &&& from.len() == before.len()
    &&& forall|i: int|
        0 <= i < from.len() ==> 0 <= #[trigger] from[i] < before.len() && after[i]
            == before[from[i]]
    &&& forall|i: int, j: int|
        0 <= i < j < from.len() ==> #[trigger] from[i] != #[trigger] from[j]
    &&& forall|i: int, j: int|
        0 <= i < j < after.len() ==> key_before(
            (#[trigger] after[i]).key(),
            (#[trigger] after[j]).key(),
        ) || (after[i].key() == after[j].key() && from[i] < from[j])
}

/// Whether `after` is `before`, sorted stably.
pub open spec fn stable_sorted<T: Keyed>(before: Seq<T>, after: Seq<T>) -> bool {
    exists|from: Seq<int>| sorts_as(before, after, from)
}

/// Sorts a vector stably by [`SortKey::sort_key`].
///
/// This is the standard library's `slice::sort_by_key`, which keeps every
/// element, orders the elements by their keys (tuples compare field by field)
/// and keeps the initial order of elements whose keys are equal.
#[verifier::external_body]
pub(crate) fn sort_stably<T: SortKey>(items: &mut Vec<T>)
    ensures
        stable_sorted(old(items)@, final(items)@),
{
    items.sort_by_key(|item| item.sort_key());
}

/// Whether position `p` of `items` goes before position `q` in a stable sort.
pub open spec fn goes_before<T: Keyed>(items: Seq<T>, p: int, q: int) -> bool {
    key_before(items[p].key(), items[q].key()) || (items[p].key() == items[q].key() && p < q)
}

/// Positions that never repeat and stay in range reach every place.
proof fn lemma_reaches(from: Seq<int>, q: int) -> (i: int)
    requires
        forall|i: int| 0 <= i < from.len() ==> 0 <= #[trigger] from[i] < from.len(),
        forall|i: int, j: int|
            0 <= i < j < from.len() ==> #[trigger] from[i] != #[trigger] from[j],
        0 <= q < from.len(),
    ensures
        0 <= i < from.len(),
        from[i] == q,
{
    let all = vstd::set_lib::set_int_range(0, from.len() as int);
    vstd::set_lib::lemma_int_range(0, from.len() as int);
    assert(from.no_duplicates());
    from.unique_seq_to_set();
    let reached = from.to_set();
    assert(reached.subset_of(all)) by {
        assert forall|x: int| reached.contains(x) implies all.contains(x) by {
            let i = choose|i: int| 0 <= i < from.len() && from[i] == x;
        }
    }
    vstd::set_lib::lemma_subset_equality(reached, all);
    assert(reached.contains(q));
    choose|i: int| 0 <= i < from.len() && from[i] == q
}

/// Two stable sorts of the same items put the same item at every place.
proof fn lemma_same_places<T: Keyed>(
    before: Seq<T>,
    a: Seq<T>,
    b: Seq<T>,
    p: Seq<int>,
    q: Seq<int>,
    n: int,
)
    requires
        sorts_as(before, a, p),
        sorts_as(before, b, q),
        0 <= n <= before.len(),
    ensures
        forall|i: int| 0 <= i < n ==> #[trigger] p[i] == q[i],
    decreases n,
{
    if n > 0 {
        lemma_same_places(before, a, b, p, q, n - 1);
        let i = n - 1;
        if p[i] != q[i] {
            let j = lemma_reaches(q, p[i]);
            let k = lemma_reaches(p, q[i]);
            assert(j > i) by {
                if j < i {
                    assert(p[j] == q[j]);
                }
            }
            assert(k > i) by {
                if k < i {
                    assert(p[k] == q[k]);
                }
            }
            assert(b[i] == before[q[i]] && b[j] == before[q[j]]);
            assert(a[i] == before[p[i]] && a[k] == before[p[k]]);
            assert(goes_before(before, q[i], p[i]));
            assert(goes_before(before, p[i], q[i]));
        }
    }
}

/// Law: a stable sort has one outcome.
pub proof fn lemma_stable_sort_is_unique<T: Keyed>(before: Seq<T>, a: Seq<T>, b: Seq<T>)
    requires
        stable_sorted(before, a),
        stable_sorted(before, b),
    ensures
        a == b,
{
    let p = choose|p: Seq<int>| sorts_as(before, a, p);
    let q = choose|q: Seq<int>| sorts_as(before, b, q);
    lemma_same_places(before, a, b, p, q, before.len() as int);
    assert forall|i: int| 0 <= i < a.len() implies a[i] == b[i] by {
        assert(p[i] == q[i]);
    }
    assert(a =~= b);
}

/// Law: sorting loses no item and adds none.
pub proof fn lemma_sorting_keeps_items<T: Keyed>(before: Seq<T>, after: Seq<T>)
    requires
        stable_sorted(before, after),
    ensures
        before.len() == after.len(),
        forall|x: T| before.contains(x) <==> after.contains(x),
{
    let from = choose|from: Seq<int>| sorts_as(before, after, from);
    assert forall|x: T| before.contains(x) implies after.contains(x) by {
        let q = choose|q: int| 0 <= q < before.len() && before[q] == x;
        let i = lemma_reaches(from, q);
        assert(after[i] == x);
    }
    assert forall|x: T| after.contains(x) implies before.contains(x) by {
        let i = choose|i: int| 0 <= i < after.len() && after[i] == x;
        assert(before[from[i]] == x);
    }
}

} // verus!

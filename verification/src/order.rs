//! Stable sorting of records.

use vstd::prelude::*;

verus! {

/// A value that has a place in an order.
pub trait Ordered: Sized {
    /// Whether this value belongs strictly before `other`.
    spec fn precedes(self, other: Self) -> bool;

    /// Test for [`Ordered::precedes`].
    fn before(&self, other: &Self) -> (r: bool)
        ensures
            r == self.precedes(*other),
    ;
}

/// Where `item` goes in a row: behind everything it does not precede.
pub open spec fn place<T: Ordered>(rows: Seq<T>, item: T) -> int
    decreases rows.len(),
{
    if rows.len() > 0 && item.precedes(rows.last()) {
        place(rows.drop_last(), item)
    } else {
        rows.len() as int
    }
}

/// A row in order: each item of `rows` in turn is put behind everything that
/// it does not precede, so that equal items keep their order.
pub open spec fn sorted<T: Ordered>(rows: Seq<T>) -> Seq<T>
    decreases rows.len(),
{
    if rows.len() == 0 {
        rows
    } else {
        let before = sorted(rows.drop_last());
        before.insert(place(before, rows.last()), rows.last())
    }
}

/// The place found lies within the row.
pub proof fn lemma_place_bounds<T: Ordered>(rows: Seq<T>, item: T)
    ensures
        0 <= place(rows, item) <= rows.len(),
    decreases rows.len(),
{
    if rows.len() > 0 && item.precedes(rows.last()) {
        lemma_place_bounds(rows.drop_last(), item);
    }
}

/// Sorting keeps exactly the items of a row.
pub proof fn lemma_sorted_is_permutation<T: Ordered>(rows: Seq<T>)
    ensures
        sorted(rows).to_multiset() == rows.to_multiset(),
        sorted(rows).len() == rows.len(),
    decreases rows.len(),
{
    broadcast use vstd::seq_lib::group_to_multiset_ensures;

    if rows.len() > 0 {
        let before = sorted(rows.drop_last());
        let at = place(before, rows.last());
        lemma_sorted_is_permutation(rows.drop_last());
        lemma_place_bounds(before, rows.last());
        vstd::seq_lib::to_multiset_insert(before, at, rows.last());
        assert(rows =~= rows.drop_last().push(rows.last()));
        assert(rows.to_multiset() =~= rows.drop_last().to_multiset().insert(rows.last()));
    }
}

/// Everything from the place found on is preceded by the item, and the item
/// does not precede what stands directly before it.
pub proof fn lemma_place_splits<T: Ordered>(rows: Seq<T>, item: T)
    ensures
        0 <= place(rows, item) <= rows.len(),
        forall|k: int| place(rows, item) <= k < rows.len() ==> item.precedes(#[trigger] rows[k]),
        place(rows, item) > 0 ==> !item.precedes(rows[place(rows, item) - 1]),
    decreases rows.len(),
{
    if rows.len() > 0 && item.precedes(rows.last()) {
        lemma_place_splits(rows.drop_last(), item);
        assert forall|k: int| place(rows, item) <= k < rows.len() implies item.precedes(
            #[trigger] rows[k],
        ) by {
            if k < rows.len() - 1 {
                assert(rows.drop_last()[k] == rows[k]);
            }
        }
    }
}

/// A sorted row is in order, wherever the order is one: nothing stands behind
/// something that it precedes.
pub proof fn lemma_sorted_in_order<T: Ordered>(rows: Seq<T>)
    requires
        forall|a: T, b: T| #[trigger] a.precedes(b) ==> !b.precedes(a),
        forall|a: T, b: T, c: T|
            !(#[trigger] b.precedes(a)) && !(#[trigger] c.precedes(b)) ==> !c.precedes(a),
    ensures
        forall|i: int, j: int|
            0 <= i < j < sorted(rows).len() ==> !(#[trigger] sorted(rows)[j]).precedes(
                #[trigger] sorted(rows)[i],
            ),
    decreases rows.len(),
{
    if rows.len() > 0 {
        let before = sorted(rows.drop_last());
        let item = rows.last();
        let at = place(before, item);
        lemma_sorted_in_order(rows.drop_last());
        lemma_place_splits(before, item);
        let all = sorted(rows);
        assert forall|i: int, j: int| 0 <= i < j < all.len() implies !(
        #[trigger] all[j]).precedes(#[trigger] all[i]) by {
            if j < at {
                assert(all[i] == before[i] && all[j] == before[j]);
            } else if j == at {
                assert(all[i] == before[i]);
                assert(!item.precedes(before[at - 1]));
                if i < at - 1 {
                    assert(!before[at - 1].precedes(before[i]));
                }
            } else if i < at {
                assert(all[i] == before[i] && all[j] == before[j - 1]);
            } else if i == at {
                assert(all[j] == before[j - 1]);
                assert(item.precedes(before[j - 1]));
            } else {
                assert(all[i] == before[i - 1] && all[j] == before[j - 1]);
            }
        }
    }
}

/// Sorting makes nothing up: what a sorted row holds is in the row.
pub proof fn lemma_sorted_contains<T: Ordered>(rows: Seq<T>, i: int)
    requires
        0 <= i < sorted(rows).len(),
    ensures
        rows.contains(sorted(rows)[i]),
{
    broadcast use vstd::seq_lib::group_to_multiset_ensures;

    lemma_sorted_is_permutation(rows);
    assert(sorted(rows).to_multiset().count(sorted(rows)[i]) > 0) by {
        assert(sorted(rows).contains(sorted(rows)[i]));
    }
}

/// Where no two items of a row have the same key, no two of the sorted row do.
pub proof fn lemma_sorted_keeps_distinct<T: Ordered, K>(rows: Seq<T>, key: spec_fn(T) -> K)
    requires
        forall|i: int, j: int|
            0 <= i < j < rows.len() ==> key(#[trigger] rows[i]) != key(#[trigger] rows[j]),
    ensures
        forall|i: int, j: int|
            0 <= i < j < sorted(rows).len() ==> key(#[trigger] sorted(rows)[i]) != key(
                #[trigger] sorted(rows)[j],
            ),
    decreases rows.len(),
{
    if rows.len() > 0 {
        let earlier = rows.drop_last();
        let before = sorted(earlier);
        let item = rows.last();
        let at = place(before, item);
        lemma_place_bounds(before, item);
        lemma_sorted_keeps_distinct(earlier, key);
        assert forall|k: int| 0 <= k < before.len() implies key(#[trigger] before[k]) != key(item) by {
            lemma_sorted_contains(earlier, k);
            let n = earlier.index_of(before[k]);
            assert(rows[n] == before[k]);
            assert(rows[rows.len() - 1] == item);
        }
        let all = sorted(rows);
        assert forall|i: int, j: int| 0 <= i < j < all.len() implies key(#[trigger] all[i]) != key(
            #[trigger] all[j],
        ) by {
            let before_i = if i < at { i } else { i - 1 };
            let before_j = if j < at { j } else { j - 1 };
            if i == at {
                assert(all[j] == before[before_j]);
            } else if j == at {
                assert(all[i] == before[before_i]);
            } else {
                assert(all[i] == before[before_i] && all[j] == before[before_j]);
            }
        }
    }
}

/// Sort a row; see [`sorted`].
pub fn sort<T: Ordered>(rows: Vec<T>) -> (r: Vec<T>)
    ensures
        r@ == sorted(rows@),
{
    let ghost all = rows@;
    let mut todo = rows;
    let mut reversed: Vec<T> = Vec::new();
    while todo.len() > 0
        invariant
            todo@.len() + reversed@.len() == all.len(),
            todo@ == all.take(todo@.len() as int),
            reversed@ == all.skip(todo@.len() as int).reverse(),
        decreases todo@.len(),
    {
        let ghost n = todo@.len();
        let ghost before = reversed@;
        let item = todo.pop().unwrap();
        reversed.push(item);
        proof {
            assert(all.take(n as int).drop_last() =~= all.take(n - 1));
            assert(all.skip(n - 1) =~= seq![all[n - 1]] + all.skip(n as int));
            assert(all.skip(n - 1).reverse() =~= before.push(all[n - 1]));
        }
    }
    let mut r: Vec<T> = Vec::new();
    proof {
        assert(all.skip(0) =~= all);
        assert(all.take(0) =~= Seq::<T>::empty());
        assert(r@ =~= sorted(all.take(0)));
    }
    while reversed.len() > 0
        invariant
            reversed@.len() <= all.len(),
            reversed@ == all.skip(all.len() - reversed@.len()).reverse(),
            r@ == sorted(all.take(all.len() - reversed@.len())),
        decreases reversed@.len(),
    {
        let ghost done = all.len() - reversed@.len();
        let ghost last = reversed@;
        proof {
            assert(last.last() == all[done]);
            assert(last.drop_last() =~= all.skip(done + 1).reverse());
        }
        let item = reversed.pop().unwrap();
        let ghost before = r@;
        let mut at: usize = r.len();
        proof {
            assert(before.take(before.len() as int) =~= before);
        }
        while at > 0 && item.before(&r[at - 1])
            invariant
                r@ == before,
                at <= r@.len(),
                place(before, item) == place(before.take(at as int), item),
            decreases at,
        {
            proof {
                assert(before.take(at as int).last() == before[at - 1]);
                assert(before.take(at as int).drop_last() =~= before.take(at - 1));
            }
            at -= 1;
        }
        proof {
            if at > 0 {
                assert(before.take(at as int).last() == before[at - 1]);
            }
            assert(place(before, item) == at);
            assert(all.take(done + 1).drop_last() =~= all.take(done));
            assert(all.take(done + 1).last() == item);
        }
        r.insert(at, item);
    }
    proof {
        assert(all.take(all.len() as int) =~= all);
    }
    r
}

} // verus!

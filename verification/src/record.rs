//! Values that are known by what they hold, and rows of them.

use vstd::prelude::*;

verus! {

/// A value that can be compared and copied by its view.
pub trait Record: View + Sized {
    /// Whether both hold the same.
    fn same(&self, other: &Self) -> (r: bool)
        ensures
            r == (self@ == other@),
    ;

    /// A value that holds the same.
    fn copy(&self) -> (r: Self)
        ensures
            r@ == self@,
    ;
}

/// What each value of a row holds.
pub open spec fn views<T: View>(rows: Seq<T>) -> Seq<T::V> {
    rows.map_values(|row: T| row@)
}

/// What an optional value holds.
pub open spec fn opt_view<T: View>(value: Option<T>) -> Option<T::V> {
    match value {
        Some(v) => Some(v@),
        None => None,
    }
}

/// Whether two rows hold the same, position by position.
pub fn same_rows<T: Record>(left: &Vec<T>, right: &Vec<T>) -> (r: bool)
    ensures
        r == (views(left@) == views(right@)),
{
    let ghost l = views(left@);
    let ghost r = views(right@);
    if left.len() != right.len() {
        proof {
            assert(l.len() != r.len());
        }
        return false;
    }
    let mut i: usize = 0;
    while i < left.len()
        invariant
            i <= left.len(),
            left.len() == right.len(),
            l == views(left@),
            r == views(right@),
            forall|j: int| 0 <= j < i ==> l[j] == r[j],
        decreases left.len() - i,
    {
        proof {
            assert(l[i as int] == left@[i as int]@);
            assert(r[i as int] == right@[i as int]@);
        }
        if !left[i].same(&right[i]) {
            return false;
        }
        i += 1;
    }
    proof {
        assert(l =~= r);
    }
    true
}

/// A row that holds the same.
pub fn copy_rows<T: Record>(rows: &Vec<T>) -> (r: Vec<T>)
    ensures
        views(r@) == views(rows@),
        r@.len() == rows@.len(),
{
    let mut r: Vec<T> = Vec::new();
    let ghost all = views(rows@);
    let mut i: usize = 0;
    proof {
        assert(views(r@) =~= all.take(0));
    }
    while i < rows.len()
        invariant
            i <= rows.len(),
            all == views(rows@),
            views(r@) == all.take(i as int),
            r@.len() == i,
        decreases rows.len() - i,
    {
        let ghost before = r@;
        let c = rows[i].copy();
        let ghost v = c@;
        r.push(c);
        proof {
            assert(views(r@) =~= views(before).push(v));
            assert(all.take(i + 1) =~= all.take(i as int).push(all[i as int]));
        }
        i += 1;
    }
    proof {
        assert(all.take(all.len() as int) =~= all);
    }
    r
}

} // verus!

//! The `$clause/2` mirror-location list of a predicate skeleton.
//!
//! The skeleton keeps, parallel to its clauses, the start positions of the
//! mirror predicate's clauses in a double-ended queue, because `asserta`
//! prepends and `assertz` appends.  The queue is `slice_deque::SliceDeque`;
//! its operations are relied upon through the contracts below, stated over
//! `locs_values`, the sequence of values the deque holds from front to back.

use vstd::prelude::*;

verus! {

/// The contents of a position deque, front to back.
pub uninterp spec fn locs_values(d: &slice_deque::SliceDeque<usize>) -> Seq<usize>;

#[verifier::external_type_specification]
#[verifier::external_body]
#[verifier::reject_recursive_types(T)]
pub struct ExSliceDeque<T>(slice_deque::SliceDeque<T>);

/// Relies on `slice_deque::SliceDeque::new`: creates an empty deque.
#[verifier::external_body]
pub fn locs_new() -> (d: slice_deque::SliceDeque<usize>)
    ensures
        locs_values(&d) == Seq::<usize>::empty(),
{
    slice_deque::SliceDeque::new()
}

/// Relies on `slice_deque::SliceDeque::len`: the number of elements held.
#[verifier::external_body]
pub fn locs_len(d: &slice_deque::SliceDeque<usize>) -> (n: usize)
    ensures
        n == locs_values(d).len(),
{
    d.len()
}

/// Relies on the slice indexing that `SliceDeque` dereferences to: the
/// element `i` positions from the front.
#[verifier::external_body]
pub fn locs_get(d: &slice_deque::SliceDeque<usize>, i: usize) -> (v: usize)
    requires
        i < locs_values(d).len(),
    ensures
        v == locs_values(d)[i as int],
{
    d[i]
}

/// Relies on `slice_deque::SliceDeque::push_back`: appends at the back.
#[verifier::external_body]
pub fn locs_push_back(d: &mut slice_deque::SliceDeque<usize>, v: usize)
    ensures
        locs_values(final(d)) == locs_values(old(d)).push(v),
{
    d.push_back(v);
}

/// Relies on `slice_deque::SliceDeque::push_front`: prepends at the front.
#[verifier::external_body]
pub fn locs_push_front(d: &mut slice_deque::SliceDeque<usize>, v: usize)
    ensures
        locs_values(final(d)) == seq![v] + locs_values(old(d)),
{
    d.push_front(v);
}

/// Relies on `slice_deque::SliceDeque::pop_back`: removes and returns the
/// back element, `None` when empty.
#[verifier::external_body]
pub fn locs_pop_back(d: &mut slice_deque::SliceDeque<usize>) -> (r: Option<usize>)
    ensures
        locs_values(old(d)).len() == 0 ==> {
            &&& r is None
            &&& locs_values(final(d)) == locs_values(old(d))
        },
        locs_values(old(d)).len() > 0 ==> {
            &&& r == Some(locs_values(old(d)).last())
            &&& locs_values(final(d)) == locs_values(old(d)).drop_last()
        },
{
    d.pop_back()
}

/// Relies on `slice_deque::SliceDeque::pop_front`: removes and returns the
/// front element, `None` when empty.
#[verifier::external_body]
pub fn locs_pop_front(d: &mut slice_deque::SliceDeque<usize>) -> (r: Option<usize>)
    ensures
        locs_values(old(d)).len() == 0 ==> {
            &&& r is None
            &&& locs_values(final(d)) == locs_values(old(d))
        },
        locs_values(old(d)).len() > 0 ==> {
            &&& r == Some(locs_values(old(d))[0])
            &&& locs_values(final(d)) == locs_values(old(d)).drop_first()
        },
{
    d.pop_front()
}

/// Relies on `slice_deque::SliceDeque::remove`: removes and returns the
/// element at position `i`, shifting what follows towards the front.
#[verifier::external_body]
pub fn locs_remove(d: &mut slice_deque::SliceDeque<usize>, i: usize) -> (v: usize)
    requires
        i < locs_values(old(d)).len(),
    ensures
        v == locs_values(old(d))[i as int],
        locs_values(final(d)) == locs_values(old(d)).remove(i as int),
{
    d.remove(i)
}

} // verus!

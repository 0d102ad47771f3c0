//! Fixed-capacity label history, kept in a `circular_buffer` ring.
use circular_buffer::FixedCircularBuffer;
use vstd::prelude::*;

verus! {

/// Number of labels the history holds.
pub const HISTORY_LEN: usize = 20;

#[verifier::external_type_specification]
#[verifier::external_body]
#[verifier::reject_recursive_types(T)]
pub struct ExFixedCircularBuffer<T, const N: usize>(FixedCircularBuffer<T, N>);

/// The labels held by a ring, front (oldest) first.
pub uninterp spec fn ring_items(b: FixedCircularBuffer<u8, 20>) -> Seq<u8>;

/// Relies on `FixedCircularBuffer::from` for an array of exactly the capacity:
/// every element is kept, in array order.
#[verifier::external_body]
pub(crate) fn ring_of_zeros() -> (r: FixedCircularBuffer<u8, 20>)
    ensures
        ring_items(r) == Seq::new(20, |_i: int| 0u8),
{
    FixedCircularBuffer::from([0u8; 20])
}

/// Relies on `CircularBuffer::push_back`: on a full ring the front element is
/// dropped, otherwise the item is appended.
#[verifier::external_body]
pub(crate) fn ring_push(b: &mut FixedCircularBuffer<u8, 20>, x: u8)
    ensures
        ring_items(*old(b)).len() >= 20 ==> ring_items(*final(b)) == ring_items(*old(b)).drop_first().push(x),
        ring_items(*old(b)).len() < 20 ==> ring_items(*final(b)) == ring_items(*old(b)).push(x),
{
    b.push_back(x);
}

/// Relies on `CircularBuffer::get`: the element at `i` from the front, or `None`
/// past the end.
#[verifier::external_body]
pub(crate) fn ring_get(b: &FixedCircularBuffer<u8, 20>, i: usize) -> (r: Option<u8>)
    ensures
        i < ring_items(*b).len() ==> r == Some(ring_items(*b)[i as int]),
        i >= ring_items(*b).len() ==> r is None,
{
    b.get(i).copied()
}

} // verus!

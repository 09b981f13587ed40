//! The FIFO queue of upcoming barrier lanes, kept in a `queues::Queue`.

use queues::{IsQueue, Queue};
use vstd::prelude::*;

verus! {

/// The queue type of the `queues` crate; opaque to the proofs, which speak of
/// its contents through `queue_items`.
#[verifier::external_type_specification]
#[verifier::external_body]
#[verifier::reject_recursive_types(T)]
pub struct ExQueue<T: Clone>(Queue<T>);

/// The elements of a queue of barrier positions, oldest first.
pub uninterp spec fn queue_items(q: Queue<i32>) -> Seq<i32>;

/// Calls `Queue::new`, which builds a queue over an empty `Vec`.
#[verifier::external_body]
pub(crate) fn queue_new() -> (q: Queue<i32>)
    ensures
        queue_items(q) == Seq::<i32>::empty(),
{
    Queue::new()
}

/// Calls `IsQueue::add` on a `Queue`, which pushes the value at the back of
/// its `Vec` and always answers `Ok(None)`.
#[verifier::external_body]
pub(crate) fn queue_add(q: &mut Queue<i32>, val: i32)
    ensures
        queue_items(*final(q)) == queue_items(*old(q)).push(val),
{
    let _ = q.add(val);
}

/// Calls `IsQueue::remove` on a `Queue`: on a non-empty queue it takes the
/// oldest element out of the front and returns it; on an empty one it returns
/// an error and changes nothing. The error is mapped to `None`.
#[verifier::external_body]
pub(crate) fn queue_remove(q: &mut Queue<i32>) -> (r: Option<i32>)
    ensures
        queue_items(*old(q)).len() == 0 ==> r is None && queue_items(*final(q)) == queue_items(*old(q)),
        queue_items(*old(q)).len() > 0 ==> r == Some(queue_items(*old(q))[0])
            && queue_items(*final(q)) == queue_items(*old(q)).drop_first(),
{
    q.remove().ok()
}

/// Calls `IsQueue::peek` on a `Queue`: a copy of the oldest element, or an
/// error on an empty queue, mapped to `None`.
#[verifier::external_body]
pub(crate) fn queue_peek(q: &Queue<i32>) -> (r: Option<i32>)
    ensures
        queue_items(*q).len() == 0 ==> r is None,
        queue_items(*q).len() > 0 ==> r == Some(queue_items(*q)[0]),
{
    q.peek().ok()
}

/// Calls `IsQueue::size` on a `Queue`: the length of its `Vec`.
#[verifier::external_body]
pub(crate) fn queue_size(q: &Queue<i32>) -> (r: usize)
    ensures
        r == queue_items(*q).len(),
{
    q.size()
}

} // verus!

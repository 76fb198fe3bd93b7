//! The bounded queue of task ids that the executor runs from:
//! `crossbeam::queue::ArrayQueue`, declared to Verus and reached through
//! small trusted wrappers. Every wrapper takes the queue by `&mut`, so the
//! caller has it to itself for the call and the single-owner behaviour
//! documented by crossbeam applies.
use vstd::prelude::*;
use crossbeam::queue::ArrayQueue;

verus! {

/// Declares crossbeam's bounded MPMC queue to Verus; its contents are
/// reached only through `queue_items` and `queue_capacity`.
#[verifier::external_type_specification]
#[verifier::external_body]
#[verifier::reject_recursive_types(T)]
pub struct ExArrayQueue<T>(ArrayQueue<T>);

/// The ids that a queue holds, oldest first.
pub uninterp spec fn queue_items(q: ArrayQueue<u64>) -> Seq<u64>;

/// The capacity that a queue was created with.
pub uninterp spec fn queue_capacity(q: ArrayQueue<u64>) -> nat;

/// Calls `ArrayQueue::new`, which panics on a capacity of zero (hence the
/// `requires`) and otherwise gives an empty queue with that capacity.
#[verifier::external_body]
pub(crate) fn new_queue(cap: usize) -> (q: ArrayQueue<u64>)
    requires
        cap > 0,
    ensures
        queue_items(q) == Seq::<u64>::empty(),
        queue_capacity(q) == cap,
{
    ArrayQueue::new(cap)
}

/// Calls `ArrayQueue::push`: with no other user of the queue, it appends
/// the value when fewer than `capacity` ids are held, and otherwise hands
/// the value back in `PushError` and leaves the queue as it was.
#[verifier::external_body]
pub(crate) fn queue_push(q: &mut ArrayQueue<u64>, value: u64) -> (r: Result<(), u64>)
    ensures
        queue_capacity(*final(q)) == queue_capacity(*old(q)),
        match r {
            Ok(()) => {
                &&& queue_items(*old(q)).len() < queue_capacity(*old(q))
                &&& queue_items(*final(q)) == queue_items(*old(q)).push(value)
            },
            Err(v) => {
                &&& v == value
                &&& queue_items(*old(q)).len() >= queue_capacity(*old(q))
                &&& queue_items(*final(q)) == queue_items(*old(q))
            },
        },
{
    q.push(value).map_err(|e| e.0)
}

/// Calls `ArrayQueue::pop`: with no other user of the queue, it removes
/// and returns the oldest id, or reports `PopError` when the queue is
/// empty.
#[verifier::external_body]
pub(crate) fn queue_pop(q: &mut ArrayQueue<u64>) -> (r: Option<u64>)
    ensures
        queue_capacity(*final(q)) == queue_capacity(*old(q)),
        match r {
            Some(v) => {
                &&& queue_items(*old(q)).len() > 0
                &&& v == queue_items(*old(q))[0]
                &&& queue_items(*final(q)) == queue_items(*old(q)).drop_first()
            },
            None => {
                &&& queue_items(*old(q)).len() == 0
                &&& queue_items(*final(q)) == queue_items(*old(q))
            },
        },
{
    q.pop().ok()
}

/// Calls `ArrayQueue::is_full`: with no other user of the queue, it tells
/// whether the queue holds as many ids as its capacity.
#[verifier::external_body]
pub(crate) fn queue_is_full(q: &ArrayQueue<u64>) -> (r: bool)
    ensures
        r == (queue_items(*q).len() == queue_capacity(*q)),
{
    q.is_full()
}

} // verus!

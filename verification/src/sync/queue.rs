//! The queue of jobs that workers draw from.
//!
//! The queue is the one of `crossbeam`. Its contracts are taken on trust, and
//! they hold of a queue that one owner works on at a time, which is how the
//! pool uses it.

use vstd::prelude::*;
use crossbeam::queue::SegQueue;

verus! {

/// `crossbeam::queue::SegQueue`, an unbounded queue, taken as it is.
#[verifier::external_type_specification]
#[verifier::external_body]
#[verifier::reject_recursive_types(T)]
pub struct ExSegQueue<T>(SegQueue<T>);

/// The jobs that wait in a queue, the next one to leave first.
pub uninterp spec fn queued(queue: SegQueue<usize>) -> Seq<usize>;

/// `SegQueue::new`: a queue in which nothing waits.
#[verifier::external_body]
pub(crate) fn queue_new() -> (queue: SegQueue<usize>)
    ensures
        queued(queue) == Seq::<usize>::empty(),
{
    SegQueue::new()
}

/// `SegQueue::push`: the job joins the queue at its tail, behind all that
/// wait.
#[verifier::external_body]
pub(crate) fn queue_push(queue: &mut SegQueue<usize>, job: usize)
    ensures
        queued(*final(queue)) == queued(*old(queue)).push(job),
{
    queue.push(job)
}

/// `SegQueue::pop`: the job at the head leaves the queue and is handed out;
/// an empty queue hands out nothing and stays empty.
#[verifier::external_body]
pub(crate) fn queue_pop(queue: &mut SegQueue<usize>) -> (job: Option<usize>)
    ensures
        queued(*old(queue)).len() == 0 ==> job is None && queued(*final(queue)) == queued(
            *old(queue),
        ),
        queued(*old(queue)).len() > 0 ==> job == Some(queued(*old(queue))[0]) && queued(
            *final(queue),
        ) == queued(*old(queue)).drop_first(),
{
    queue.pop()
}

} // verus!

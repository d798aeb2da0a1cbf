//! The queues of the pool, which are those of `crossbeam`.
//!
//! Every function here takes its queue by `&mut` wherever it changes it, so that
//! nobody else pushes or pops meanwhile: what the queue holds is then a plain
//! sequence, oldest item first.

use crossbeam::queue::{ArrayQueue, SegQueue};
use vstd::prelude::*;

use crate::client::ClientHandle;

verus! {

/// The bounded queue of `crossbeam`.
#[verifier::external_type_specification]
#[verifier::external_body]
#[verifier::reject_recursive_types(T)]
pub struct ExArrayQueue<T>(crossbeam::queue::ArrayQueue<T>);

/// The unbounded queue of `crossbeam`.
#[verifier::external_type_specification]
#[verifier::external_body]
#[verifier::reject_recursive_types(T)]
pub struct ExSegQueue<T>(crossbeam::queue::SegQueue<T>);

/// Whether a buffer of `capacity` items, of at most 128 bytes each with its
/// bookkeeping, has a size that the machine can address.
pub open spec fn addressable(capacity: int) -> bool {
    capacity * 128 <= isize::MAX
}

/// The tickets that a bounded queue holds, oldest first.
pub uninterp spec fn tickets(queue: ArrayQueue<u64>) -> Seq<u64>;

/// How many tickets a bounded queue was made for.
pub uninterp spec fn ticket_capacity(queue: ArrayQueue<u64>) -> nat;

/// `ArrayQueue::new`: an empty queue with the given capacity. It panics on a
/// capacity of zero, or on one whose buffer is too large.
#[verifier::external_body]
pub(crate) fn new_tickets(capacity: usize) -> (queue: ArrayQueue<u64>)
    requires
        0 < capacity,
        addressable(capacity as int),
    ensures
        tickets(queue) == Seq::<u64>::empty(),
        ticket_capacity(queue) == capacity,
{
    ArrayQueue::new(capacity)
}

/// `ArrayQueue::push`: adds the item at the back, or hands it back where the
/// queue is full.
#[verifier::external_body]
pub(crate) fn push_ticket(queue: &mut ArrayQueue<u64>, ticket: u64) -> (pushed: Result<(), u64>)
    ensures
        ticket_capacity(*final(queue)) == ticket_capacity(*old(queue)),
        match pushed {
            Ok(()) => {
                &&& tickets(*old(queue)).len() < ticket_capacity(*old(queue))
                &&& tickets(*final(queue)) == tickets(*old(queue)).push(ticket)
            },
            Err(refused) => {
                &&& tickets(*old(queue)).len() >= ticket_capacity(*old(queue))
                &&& tickets(*final(queue)) == tickets(*old(queue))
                &&& refused == ticket
            },
        },
{
    queue.push(ticket)
}

/// `ArrayQueue::pop`: takes the oldest item out, where there is one.
#[verifier::external_body]
pub(crate) fn pop_ticket(queue: &mut ArrayQueue<u64>) -> (popped: Option<u64>)
    ensures
        ticket_capacity(*final(queue)) == ticket_capacity(*old(queue)),
        match popped {
            Some(oldest) => {
                &&& tickets(*old(queue)).len() > 0
                &&& oldest == tickets(*old(queue))[0]
                &&& tickets(*final(queue)) == tickets(*old(queue)).skip(1)
            },
            None => {
                &&& tickets(*old(queue)).len() == 0
                &&& tickets(*final(queue)) == tickets(*old(queue))
            },
        },
{
    queue.pop()
}

/// `ArrayQueue::len`: the number of items.
#[verifier::external_body]
pub(crate) fn count_tickets(queue: &ArrayQueue<u64>) -> (count: usize)
    ensures
        count == tickets(*queue).len(),
{
    queue.len()
}

/// The clients that a bounded queue holds, oldest first.
pub uninterp spec fn clients(queue: ArrayQueue<ClientHandle>) -> Seq<ClientHandle>;

/// How many clients a bounded queue was made for.
pub uninterp spec fn client_capacity(queue: ArrayQueue<ClientHandle>) -> nat;

/// `ArrayQueue::new`: an empty queue with the given capacity. It panics on a
/// capacity of zero, or on one whose buffer is too large.
#[verifier::external_body]
pub(crate) fn new_clients(capacity: usize) -> (queue: ArrayQueue<ClientHandle>)
    requires
        0 < capacity,
        addressable(capacity as int),
    ensures
        clients(queue) == Seq::<ClientHandle>::empty(),
        client_capacity(queue) == capacity,
{
    ArrayQueue::new(capacity)
}

/// `ArrayQueue::push`: adds the item at the back, or hands it back where the
/// queue is full.
#[verifier::external_body]
pub(crate) fn push_client(queue: &mut ArrayQueue<ClientHandle>, client: ClientHandle) -> (pushed:
    Result<(), ClientHandle>)
    ensures
        client_capacity(*final(queue)) == client_capacity(*old(queue)),
        match pushed {
            Ok(()) => {
                &&& clients(*old(queue)).len() < client_capacity(*old(queue))
                &&& clients(*final(queue)) == clients(*old(queue)).push(client)
            },
            Err(refused) => {
                &&& clients(*old(queue)).len() >= client_capacity(*old(queue))
                &&& clients(*final(queue)) == clients(*old(queue))
                &&& refused == client
            },
        },
{
    queue.push(client)
}

/// `ArrayQueue::pop`: takes the oldest item out, where there is one.
#[verifier::external_body]
pub(crate) fn pop_client(queue: &mut ArrayQueue<ClientHandle>) -> (popped: Option<ClientHandle>)
    ensures
        client_capacity(*final(queue)) == client_capacity(*old(queue)),
        match popped {
            Some(oldest) => {
                &&& clients(*old(queue)).len() > 0
                &&& oldest == clients(*old(queue))[0]
                &&& clients(*final(queue)) == clients(*old(queue)).skip(1)
            },
            None => {
                &&& clients(*old(queue)).len() == 0
                &&& clients(*final(queue)) == clients(*old(queue))
            },
        },
{
    queue.pop()
}

/// `ArrayQueue::len`: the number of items.
#[verifier::external_body]
pub(crate) fn count_clients(queue: &ArrayQueue<ClientHandle>) -> (count: usize)
    ensures
        count == clients(*queue).len(),
{
    queue.len()
}

/// The tasks that an unbounded queue holds, oldest first.
pub uninterp spec fn queued_tasks(queue: SegQueue<u64>) -> Seq<u64>;

/// `SegQueue::new`: an empty queue.
#[verifier::external_body]
pub(crate) fn new_tasks() -> (queue: SegQueue<u64>)
    ensures
        queued_tasks(queue) == Seq::<u64>::empty(),
{
    SegQueue::new()
}

/// `SegQueue::push`: adds the item at the back.
#[verifier::external_body]
pub(crate) fn push_task(queue: &mut SegQueue<u64>, task: u64)
    ensures
        queued_tasks(*final(queue)) == queued_tasks(*old(queue)).push(task),
{
    queue.push(task)
}

/// `SegQueue::pop`: takes the oldest item out, where there is one.
#[verifier::external_body]
pub(crate) fn pop_task(queue: &mut SegQueue<u64>) -> (popped: Option<u64>)
    ensures
        match popped {
            Some(oldest) => {
                &&& queued_tasks(*old(queue)).len() > 0
                &&& oldest == queued_tasks(*old(queue))[0]
                &&& queued_tasks(*final(queue)) == queued_tasks(*old(queue)).skip(1)
            },
            None => {
                &&& queued_tasks(*old(queue)).len() == 0
                &&& queued_tasks(*final(queue)) == queued_tasks(*old(queue))
            },
        },
{
    queue.pop()
}

/// `SegQueue::len`: the number of items.
#[verifier::external_body]
pub(crate) fn count_tasks(queue: &SegQueue<u64>) -> (count: usize)
    ensures
        count == queued_tasks(*queue).len(),
{
    queue.len()
}

} // verus!

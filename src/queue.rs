use vstd::prelude::*;

verus! {

/// Slots of each byte queue of the driver; one slot always stays free.
pub const QUEUE_SLOTS: usize = 128;

/// The most bytes that a byte queue of the driver holds.
pub const QUEUE_CAPACITY: usize = 127;

/// The single-producer single-consumer ring buffer of `heapless`.
#[verifier::external_type_specification]
#[verifier::external_body]
#[verifier::reject_recursive_types(T)]
pub struct ExQueue<T, const N: usize>(heapless::spsc::Queue<T, N>);

/// The bytes that a queue holds, front first.
pub uninterp spec fn queue_items(q: heapless::spsc::Queue<u8, QUEUE_SLOTS>) -> Seq<u8>;

/// Relies on `heapless::spsc::Queue::new`: a queue that holds nothing.
#[verifier::external_body]
pub(crate) fn new_queue() -> (r: heapless::spsc::Queue<u8, QUEUE_SLOTS>)
    ensures
        queue_items(r) == Seq::<u8>::empty(),
{
    heapless::spsc::Queue::new()
}

/// Relies on `heapless::spsc::Queue::len`: the number of items held.
#[verifier::external_body]
pub(crate) fn queue_len(q: &heapless::spsc::Queue<u8, QUEUE_SLOTS>) -> (r: usize)
    ensures
        r == queue_items(*q).len(),
{
    q.len()
}

/// Relies on `heapless::spsc::Queue::enqueue`: the item goes to the back,
/// unless the queue already holds `QUEUE_SLOTS - 1` items; then it is handed
/// back and the queue is left as it was.
#[verifier::external_body]
pub(crate) fn enqueue(q: &mut heapless::spsc::Queue<u8, QUEUE_SLOTS>, b: u8) -> (r: Result<(), u8>)
    ensures
        queue_items(*old(q)).len() < QUEUE_CAPACITY ==> r is Ok && queue_items(*final(q))
            == queue_items(*old(q)).push(b),
        queue_items(*old(q)).len() >= QUEUE_CAPACITY ==> r is Err && r->Err_0 == b && queue_items(
            *final(q),
        ) == queue_items(*old(q)),
{
    q.enqueue(b)
}

/// Relies on `heapless::spsc::Queue::dequeue`: removes and returns the
/// front item, or returns `None` from an empty queue.
#[verifier::external_body]
pub(crate) fn dequeue(q: &mut heapless::spsc::Queue<u8, QUEUE_SLOTS>) -> (r: Option<u8>)
    ensures
        queue_items(*old(q)).len() == 0 ==> r is None && queue_items(*final(q)) == queue_items(
            *old(q),
        ),
        queue_items(*old(q)).len() > 0 ==> r == Some(queue_items(*old(q))[0]) && queue_items(
            *final(q),
        ) == queue_items(*old(q)).drop_first(),
{
    q.dequeue()
}

} // verus!

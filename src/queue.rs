use vstd::prelude::*;
use fixed_vec_deque::FixedVecDeque;

verus! {

/// The largest capacity a [`BoundedQueue`] can be given.
pub const MAX_CAPACITY: usize = 1024;

/// The ring buffer that stores a queue's packets: a `FixedVecDeque` of
/// `MAX_CAPACITY` slots, seen only through the functions below.
#[verifier::external_body]
pub struct Deque {
    ring: FixedVecDeque<[i32; 1024]>,
}

/// The packets held by a ring buffer, oldest first.
pub uninterp spec fn deque_items(d: Deque) -> Seq<i32>;

/// Relies on `FixedVecDeque::new`: a new ring buffer holds nothing.
#[verifier::external_body]
fn deque_new() -> (r: Deque)
    ensures
        deque_items(r) == Seq::<i32>::empty(),
{
    Deque { ring: FixedVecDeque::new() }
}

/// Relies on `FixedVecDeque::len`: the number of packets held.
#[verifier::external_body]
fn deque_len(d: &Deque) -> (r: usize)
    ensures
        r == deque_items(*d).len(),
{
    d.ring.len()
}

/// Relies on `FixedVecDeque::push_back`: on a buffer that is not full, the slot
/// it hands out is a new last element.
#[verifier::external_body]
fn deque_push_back(d: &mut Deque, item: i32)
    requires
        deque_items(*old(d)).len() < 1024,
    ensures
        deque_items(*final(d)) == deque_items(*old(d)).push(item),
{
    *d.ring.push_back() = item;
}

/// Relies on `FixedVecDeque::pop_front`: removes and returns the oldest
/// element, or returns nothing on an empty buffer.
#[verifier::external_body]
fn deque_pop_front(d: &mut Deque) -> (r: Option<i32>)
    ensures
        deque_items(*old(d)).len() == 0 ==> r is None && deque_items(*final(d)) == deque_items(*old(d)),
        deque_items(*old(d)).len() > 0 ==> r == Some(deque_items(*old(d))[0])
            && deque_items(*final(d)) == deque_items(*old(d)).drop_first(),
{
    d.ring.pop_front().map(|v| *v)
}

/// A first-in first-out queue of packets that never holds more than its
/// capacity.
pub struct BoundedQueue {
    deque: Deque,
    capacity: usize,
}

impl View for BoundedQueue {
    type V = Seq<i32>;

    /// The packets in the queue, oldest first.
    closed spec fn view(&self) -> Seq<i32> {
        deque_items(self.deque)
    }
}

/// The queue after `item` is offered to it: appended when there is room,
/// unchanged otherwise.
pub open spec fn push_spec(items: Seq<i32>, capacity: nat, item: i32) -> Seq<i32> {
    if items.len() < capacity {
        items.push(item)
    } else {
        items
    }
}

/// The queue after its oldest packet is taken, if there is one.
pub open spec fn pop_spec(items: Seq<i32>) -> Seq<i32> {
    if items.len() > 0 {
        items.drop_first()
    } else {
        items
    }
}

impl BoundedQueue {
    /// The fixed number of packets the queue can hold.
    pub closed spec fn spec_capacity(&self) -> nat {
        self.capacity as nat
    }

    /// The queue holds no more than its capacity, which fits the ring buffer.
    pub closed spec fn wf(&self) -> bool {
        &&& self.capacity <= MAX_CAPACITY
        &&& deque_items(self.deque).len() <= self.capacity
    }

    /// An empty queue of capacity [`MAX_CAPACITY`].
    pub fn new() -> (r: BoundedQueue)
        ensures
            r.wf(),
            r@ == Seq::<i32>::empty(),
            r.spec_capacity() == MAX_CAPACITY,
    {
        BoundedQueue { deque: deque_new(), capacity: MAX_CAPACITY }
    }

    /// An empty queue that holds at most `capacity` packets.
    pub fn with_capacity(capacity: usize) -> (r: BoundedQueue)
        requires
            capacity <= MAX_CAPACITY,
        ensures
            r.wf(),
            r@ == Seq::<i32>::empty(),
            r.spec_capacity() == capacity,
    {
        BoundedQueue { deque: deque_new(), capacity }
    }

    /// The number of packets in the queue.
    pub fn length(&self) -> (r: usize)
        requires
            self.wf(),
        ensures
            r == self@.len(),
            r <= self.spec_capacity(),
            r <= MAX_CAPACITY,
    {
        deque_len(&self.deque)
    }

    /// The fixed number of packets the queue can hold.
    pub fn capacity(&self) -> (r: usize)
        ensures
            r == self.spec_capacity(),
    {
        self.capacity
    }

    /// Appends `item` when the queue is not full and says whether it did; a
    /// full queue is left unchanged.
    pub fn try_push(&mut self, item: i32) -> (r: bool)
        requires
            old(self).wf(),
        ensures
            final(self).wf(),
            r == (old(self)@.len() < old(self).spec_capacity()),
            final(self)@ == push_spec(old(self)@, old(self).spec_capacity(), item),
            final(self).spec_capacity() == old(self).spec_capacity(),
    {
        if deque_len(&self.deque) < self.capacity {
            deque_push_back(&mut self.deque, item);
            true
        } else {
            false
        }
    }

    /// Removes and returns the oldest packet, or `None` when the queue is empty.
    pub fn try_pop(&mut self) -> (r: Option<i32>)
        requires
            old(self).wf(),
        ensures
            final(self).wf(),
            r == (if old(self)@.len() > 0 { Some(old(self)@[0]) } else { None::<i32> }),
            final(self)@ == pop_spec(old(self)@),
            final(self).spec_capacity() == old(self).spec_capacity(),
    {
        deque_pop_front(&mut self.deque)
    }
}

/// Queue order is first in, first out: on a queue with room, pushing and then
/// popping takes the same packet as popping first, and leaves the same queue as
/// popping first and pushing after; on an empty queue with room, the packet
/// pushed is the one popped.
pub proof fn lemma_fifo(items: Seq<i32>, capacity: nat, item: i32)
    requires
        items.len() < capacity,
    ensures
        items.len() > 0 ==> push_spec(items, capacity, item)[0] == items[0],
        items.len() > 0 ==> pop_spec(push_spec(items, capacity, item))
            == push_spec(pop_spec(items), capacity, item),
        items.len() == 0 ==> push_spec(items, capacity, item)[0] == item
            && pop_spec(push_spec(items, capacity, item)) == items,
{
    if items.len() > 0 {
        assert(items.push(item).drop_first() =~= items.drop_first().push(item));
    } else {
        assert(items.push(item).drop_first() =~= items);
    }
}

/// The outcome of a run of operations on a queue that starts as `items`:
/// each `Some(x)` offers `x` to the queue and each `None` takes a packet.
/// Returns the final queue, the packets that entered it in order, and the
/// packets taken out in order.
pub open spec fn queue_run(items: Seq<i32>, capacity: nat, ops: Seq<Option<i32>>) -> (Seq<i32>, Seq<i32>, Seq<i32>)
    decreases ops.len(),
{
    if ops.len() == 0 {
        (items, Seq::empty(), Seq::empty())
    } else {
        let (q, entered, taken) = queue_run(items, capacity, ops.drop_last());
        match ops.last() {
            Some(x) => (
                push_spec(q, capacity, x),
                if q.len() < capacity { entered.push(x) } else { entered },
                taken,
            ),
            None => (
                pop_spec(q),
                entered,
                if q.len() > 0 { taken.push(q[0]) } else { taken },
            ),
        }
    }
}

/// Over any run of pushes and pops, nothing is reordered, duplicated or
/// invented: the packets taken out, followed by those still queued, are the
/// starting packets followed by the admitted ones, in order. So the packets
/// taken out are always a prefix of that sequence.
pub proof fn lemma_fifo_run(items: Seq<i32>, capacity: nat, ops: Seq<Option<i32>>)
    ensures
        ({
            let (q, entered, taken) = queue_run(items, capacity, ops);
            &&& taken + q == items + entered
            &&& taken.len() <= (items + entered).len()
            &&& taken == (items + entered).subrange(0, taken.len() as int)
        }),
    decreases ops.len(),
{
    if ops.len() > 0 {
        lemma_fifo_run(items, capacity, ops.drop_last());
        let (q, entered, taken) = queue_run(items, capacity, ops.drop_last());
        match ops.last() {
            Some(x) => {
                if q.len() < capacity {
                    assert(taken + q.push(x) =~= (taken + q).push(x));
                    assert(items + entered.push(x) =~= (items + entered).push(x));
                }
            },
            None => {
                if q.len() > 0 {
                    assert(taken.push(q[0]) + q.drop_first() =~= taken + q);
                }
            },
        }
    }
    let (q, entered, taken) = queue_run(items, capacity, ops);
    assert((taken + q).subrange(0, taken.len() as int) =~= taken);
}

} // verus!

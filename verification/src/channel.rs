//! The bounded queue that hands decoded vectors from the acquisition
//! context to the consumer: a fixed-capacity FIFO backed by
//! `heapless::spsc::Queue`, non-blocking on both ends. An enqueue onto a
//! full queue hands the item back; a dequeue from an empty queue returns
//! nothing.

use vstd::prelude::*;

use crate::types::{FixedPointVector, ACC_QUEUE_SIZE};

verus! {

#[verifier::external_type_specification]
#[verifier::external_body]
#[verifier::reject_recursive_types(T)]
pub struct ExQueue<T, const N: usize>(heapless::spsc::Queue<T, N>);

/// The backing store shared by both channels: `ACC_QUEUE_SIZE` slots of
/// one vector each, holding up to one item fewer.
pub type VectorQueue = heapless::spsc::Queue<(i16, i16, i16), ACC_QUEUE_SIZE>;

/// The items a queue holds, front first. What `heapless` stores is
/// opaque here; every wrapper around one of its methods says what it
/// does to this sequence.
pub uninterp spec fn queue_items(q: VectorQueue) -> Seq<(i16, i16, i16)>;

/// How many items a channel can hold: one fewer than its slot count,
/// as the backing ring keeps one slot free.
pub open spec fn channel_capacity() -> nat {
    (ACC_QUEUE_SIZE - 1) as nat
}

/// Relies on `heapless::spsc::Queue::new`: a fresh queue holds nothing.
#[verifier::external_body]
fn queue_new() -> (q: VectorQueue)
    ensures
        queue_items(q) == Seq::<(i16, i16, i16)>::empty(),
{
    heapless::spsc::Queue::new()
}

/// Relies on `heapless::spsc::Queue::enqueue`: appends the item at the
/// back when fewer than `N - 1` items are held, and hands it back
/// unchanged when the queue is full.
#[verifier::external_body]
fn queue_enqueue(q: &mut VectorQueue, item: (i16, i16, i16)) -> (r: Result<(), (i16, i16, i16)>)
    ensures
        queue_items(*old(q)).len() < channel_capacity() ==> r is Ok && queue_items(*final(q))
            == queue_items(*old(q)).push(item),
        queue_items(*old(q)).len() >= channel_capacity() ==> r is Err && r->Err_0 == item
            && queue_items(*final(q)) == queue_items(*old(q)),
{
    q.enqueue(item)
}

/// Relies on `heapless::spsc::Queue::dequeue`: removes and returns the
/// front item, or returns nothing when the queue is empty.
#[verifier::external_body]
fn queue_dequeue(q: &mut VectorQueue) -> (r: Option<(i16, i16, i16)>)
    ensures
        queue_items(*old(q)).len() == 0 ==> r is None && queue_items(*final(q)) == queue_items(
            *old(q),
        ),
        queue_items(*old(q)).len() > 0 ==> r == Some(queue_items(*old(q))[0]) && queue_items(
            *final(q),
        ) == queue_items(*old(q)).skip(1),
{
    q.dequeue()
}

/// Relies on `heapless::spsc::Queue::len`: the number of items held.
#[verifier::external_body]
fn queue_len(q: &VectorQueue) -> (r: usize)
    ensures
        r == queue_items(*q).len(),
{
    q.len()
}

/// One bounded FIFO channel of decoded vectors. Its view is the sequence
/// of vectors it holds, front first.
pub struct Channel {
    q: VectorQueue,
}

impl View for Channel {
    type V = Seq<FixedPointVector>;

    closed spec fn view(&self) -> Seq<FixedPointVector> {
        queue_items(self.q).map_values(
            |t: (i16, i16, i16)| FixedPointVector { x: t.0, y: t.1, z: t.2 },
        )
    }
}

/// What an enqueue leaves in the channel: the item appended when there
/// is room, the contents unchanged when there is not.
pub open spec fn spec_route(q: Seq<FixedPointVector>, v: FixedPointVector) -> Seq<
    FixedPointVector,
> {
    if q.len() < channel_capacity() {
        q.push(v)
    } else {
        q
    }
}

/// What a whole burst leaves in a channel: `items` enqueued one by one
/// into an empty channel, each dropped or kept by `spec_route`.
pub open spec fn spec_fill(items: Seq<FixedPointVector>) -> Seq<FixedPointVector>
    decreases items.len(),
{
    if items.len() == 0 {
        Seq::empty()
    } else {
        spec_route(spec_fill(items.drop_last()), items.last())
    }
}

/// Bounded-channel law: enqueueing any burst of vectors into an empty
/// channel keeps exactly the first `channel_capacity()` of them, in
/// their order of arrival; only items beyond the capacity are dropped,
/// never earlier ones, and a consumer then dequeues exactly those in
/// FIFO order.
pub proof fn lemma_fill_keeps_first(items: Seq<FixedPointVector>)
    ensures
        spec_fill(items) == (if items.len() <= channel_capacity() {
            items
        } else {
            items.take(channel_capacity() as int)
        }),
    decreases items.len(),
{
    if items.len() > 0 {
        lemma_fill_keeps_first(items.drop_last());
        let cap = channel_capacity() as int;
        if items.len() <= cap {
            assert(items.drop_last().push(items.last()) =~= items);
        } else if items.len() == cap + 1 {
            assert(items.drop_last() =~= items.take(cap));
        } else {
            assert(items.drop_last().take(cap) =~= items.take(cap));
        }
    }
}

impl Channel {
    /// Creates an empty channel.
    pub fn new() -> (c: Channel)
        ensures
            c@ == Seq::<FixedPointVector>::empty(),
    {
        let c = Channel { q: queue_new() };
        proof {
            assert(c@ =~= Seq::<FixedPointVector>::empty());
        }
        c
    }

    /// How many vectors the channel can hold at once.
    pub fn capacity(&self) -> (r: usize)
        ensures
            r == channel_capacity(),
    {
        ACC_QUEUE_SIZE - 1
    }

    /// Appends `v` at the back when there is room and succeeds; hands
    /// `v` back and leaves the channel unchanged when it is full.
    pub fn enqueue(&mut self, v: FixedPointVector) -> (r: Result<(), FixedPointVector>)
        ensures
            final(self)@ == spec_route(old(self)@, v),
            old(self)@.len() < channel_capacity() ==> r is Ok && final(self)@ == old(self)@.push(
                v,
            ),
            old(self)@.len() >= channel_capacity() ==> r is Err && r->Err_0 == v
                && final(self)@ == old(self)@,
    {
        match queue_enqueue(&mut self.q, (v.x, v.y, v.z)) {
            Ok(()) => {
                proof {
                    assert(self@ =~= old(self)@.push(v));
                }
                Ok(())
            },
            Err(t) => {
                proof {
                    assert(self@ =~= old(self)@);
                }
                Err(FixedPointVector { x: t.0, y: t.1, z: t.2 })
            },
        }
    }

    /// Removes and returns the front vector, or returns nothing when the
    /// channel is empty.
    pub fn dequeue(&mut self) -> (r: Option<FixedPointVector>)
        ensures
            old(self)@.len() == 0 ==> r is None && final(self)@ == old(self)@,
            old(self)@.len() > 0 ==> r == Some(old(self)@[0]) && final(self)@ == old(self)@.skip(
                1,
            ),
    {
        match queue_dequeue(&mut self.q) {
            None => {
                proof {
                    assert(self@ =~= old(self)@);
                }
                None
            },
            Some(t) => {
                proof {
                    assert(self@ =~= old(self)@.skip(1));
                }
                Some(FixedPointVector { x: t.0, y: t.1, z: t.2 })
            },
        }
    }

    /// The number of vectors currently held.
    pub fn len(&self) -> (r: usize)
        ensures
            r == self@.len(),
    {
        queue_len(&self.q)
    }

    /// True when the channel holds nothing.
    pub fn is_empty(&self) -> (r: bool)
        ensures
            r == (self@.len() == 0),
    {
        self.len() == 0
    }
}

} // verus!

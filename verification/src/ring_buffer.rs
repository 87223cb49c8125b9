use vstd::prelude::*;

verus! {

/// A cursor location that one role publishes and the other role reads.
///
/// The queue's protocol publishes each cursor through an atomically
/// visible location: a release-store by the writing role must be fully
/// visible to a matching acquire-load by the reading role. Verification
/// here covers the single-owner view of the protocol, where those
/// operations act on one `usize`; the method names keep the intended
/// publication discipline explicit at every call site.
pub struct AtomicUsize {
    v: usize,
}

impl View for AtomicUsize {
    type V = usize;

    closed spec fn view(&self) -> usize {
        self.v
    }
}

impl AtomicUsize {
    /// Creates a cursor holding `v`.
    pub fn new(v: usize) -> (r: AtomicUsize)
        ensures
            r@ == v,
    {
        AtomicUsize { v }
    }

    /// Direct access to the cursor for a caller that owns it exclusively.
    pub fn get_mut(&mut self) -> (r: &mut usize)
        ensures
            *r == old(self)@,
            final(self)@ == *final(r),
    {
        &mut self.v
    }

    /// Reads the cursor; pairs with a `store_release` by the other role.
    pub fn load_acquire(&self) -> (r: usize)
        ensures
            r == self@,
    {
        self.v
    }

    /// Reads the cursor with no ordering demanded; the result may be a
    /// stale snapshot the instant the owning role moves the cursor.
    pub fn load_relaxed(&self) -> (r: usize)
        ensures
            r == self@,
    {
        self.v
    }

    /// Publishes a new cursor value; pairs with a `load_acquire` by the
    /// other role.
    pub fn store_release(&mut self, val: usize)
        ensures
            final(self)@ == val,
    {
        self.v = val;
    }
}

/// A bounded queue over `N` slots for exactly one producer and exactly
/// one consumer, with no locks and no waiting: every operation returns
/// immediately with a definite outcome.
///
/// One slot is sacrificed so that "empty" (`head == tail`) and "full"
/// (`tail + 1 == head`, circularly) stay distinguishable with only the
/// two cursors, so the usable capacity is `N - 1`. The producer owns
/// `tail` (the next slot to write), the consumer owns `head` (the next
/// slot to read), and a slot changes hands exactly when the owning
/// cursor is published past it.
///
/// Each slot holds an `Option<T>`: `Some` marks a slot the queue
/// currently owns, `None` a slot that is logically uninitialized. The
/// well-formedness invariant says the `Some` slots are exactly those in
/// the circular window `[head, tail)`, so a vacated slot is never read
/// and dropping the queue drops exactly the occupied slots.
pub struct RingBuffer<T, const N: usize> {
    buffer: Vec<Option<T>>,
    // this is from where we dequeue items
    head: AtomicUsize,
    // this is where we enqueue new items
    tail: AtomicUsize,
}

impl<T, const N: usize> View for RingBuffer<T, N> {
    type V = Seq<T>;

    /// The occupied values in queue order, front first.
    closed spec fn view(&self) -> Seq<T> {
        Seq::new(
            self.spec_len() as nat,
            |k: int| self.buffer@[Self::wrap(self.head_pos() + k)].unwrap(),
        )
    }
}

impl<T, const N: usize> RingBuffer<T, N> {
    /// The consumer's cursor: the next slot to read.
    closed spec fn head_pos(self) -> int {
        self.head@ as int
    }

    /// The producer's cursor: the next slot to write.
    closed spec fn tail_pos(self) -> int {
        self.tail@ as int
    }

    /// Reduces a position in `[0, 2N)` into `[0, N)`.
    closed spec fn wrap(i: int) -> int {
        if i < N {
            i
        } else {
            i - N
        }
    }

    /// The occupied count, `(tail - head)` taken circularly.
    closed spec fn spec_len(self) -> int {
        if self.head_pos() <= self.tail_pos() {
            self.tail_pos() - self.head_pos()
        } else {
            N - self.head_pos() + self.tail_pos()
        }
    }

    /// Slot `i` lies in the circular window `[head, tail)`.
    closed spec fn in_window(self, i: int) -> bool {
        if self.head_pos() <= self.tail_pos() {
            self.head_pos() <= i < self.tail_pos()
        } else {
            i >= self.head_pos() || i < self.tail_pos()
        }
    }

    /// Well-formedness: there is at least one slot, both cursors lie in
    /// `[0, N)`, the backing storage has exactly `N` slots, and a slot
    /// holds a value exactly when it lies in the occupied window.
    /// `new` establishes this and every operation preserves it.
    pub closed spec fn wf(self) -> bool {
        &&& 1 <= N
        &&& self.buffer@.len() == N
        &&& 0 <= self.head_pos() < N
        &&& 0 <= self.tail_pos() < N
        &&& forall|i: int|
            0 <= i < N ==> (#[trigger] self.buffer@[i].is_some() <==> self.in_window(i))
    }

    /// Creates an empty queue whose usable capacity is `N - 1`.
    pub fn new() -> (r: RingBuffer<T, N>)
        requires
            N >= 1,
        ensures
            r.wf(),
            r@ == Seq::<T>::empty(),
    {
        let mut buffer: Vec<Option<T>> = Vec::new();
        while buffer.len() < N
            invariant
                buffer@.len() <= N,
                forall|i: int| 0 <= i < buffer@.len() ==> (#[trigger] buffer@[i]).is_none(),
            decreases N - buffer@.len(),
        {
            buffer.push(None);
        }
        let r = RingBuffer { buffer, head: AtomicUsize::new(0), tail: AtomicUsize::new(0) };
        proof {
            assert(r@ =~= Seq::<T>::empty());
        }
        r
    }

    /// Returns the maximum number of elements the queue can hold at
    /// once: one less than the number of slots.
    pub fn capacity(&self) -> (r: usize)
        requires
            self.wf(),
        ensures
            r == N - 1,
    {
        N - 1
    }

    /// Returns the number of elements currently in the queue.
    ///
    /// Under concurrent use this is only an advisory snapshot: it can be
    /// stale the instant the other role publishes its cursor.
    pub fn len(&self) -> (r: usize)
        requires
            self.wf(),
        ensures
            r == self@.len(),
            r < N,
    {
        let head = self.head.load_relaxed();
        let tail = self.tail.load_relaxed();
        if head <= tail {
            tail - head
        } else {
            N - head + tail
        }
    }

    /// Returns `true` if the queue currently holds no elements; the same
    /// advisory caveat as for `len` applies under concurrent use.
    pub fn is_empty(&self) -> (r: bool)
        requires
            self.wf(),
        ensures
            r == (self@.len() == 0),
    {
        self.len() == 0
    }

    /// Adds `item` to the back of the queue: the producer's operation.
    ///
    /// When the queue is full nothing is mutated and the rejected value
    /// travels back to the caller inside the error, never silently
    /// dropped. The slot is written before the `tail` cursor is
    /// published past it, so the consumer can never observe a
    /// half-written slot.
    pub fn enqueue(&mut self, item: T) -> (r: Result<(), T>)
        requires
            old(self).wf(),
        ensures
            final(self).wf(),
            old(self)@.len() < N - 1 ==> r == Ok::<(), T>(()) && final(self)@ == old(
                self,
            )@.push(item),
            old(self)@.len() == N - 1 ==> r == Err::<(), T>(item) && final(self)@ == old(self)@,
    {
        let head = self.head.load_acquire();
        let tail = self.tail.load_relaxed();
        let next_tail = if tail + 1 == N {
            0
        } else {
            tail + 1
        };
        if next_tail != head {
            self.buffer.set(tail, Some(item));
            self.tail.store_release(next_tail);
            proof {
                assert(final(self)@ =~= old(self)@.push(item));
            }
            Ok(())
        } else {
            Err(item)
        }
    }

    /// Removes and returns the element at the front of the queue, or
    /// `None` if the queue is empty: the consumer's operation.
    ///
    /// Moving the value out leaves its slot logically uninitialized; the
    /// `head` cursor is published past the slot only afterwards, handing
    /// the slot back to the producer.
    pub fn dequeue(&mut self) -> (r: Option<T>)
        requires
            old(self).wf(),
        ensures
            final(self).wf(),
            old(self)@.len() > 0 ==> r == Some(old(self)@.first()) && final(self)@ == old(
                self,
            )@.drop_first(),
            old(self)@.len() == 0 ==> r.is_none() && final(self)@ == old(self)@,
    {
        let tail = self.tail.load_acquire();
        let head = self.head.load_relaxed();
        if head != tail {
            let mut taken: Option<T> = None;
            self.buffer.set_and_swap(head, &mut taken);
            let next_head = if head + 1 == N {
                0
            } else {
                head + 1
            };
            self.head.store_release(next_head);
            proof {
                assert(final(self)@ =~= old(self)@.drop_first());
            }
            taken
        } else {
            None
        }
    }

    /// Returns an iterator over the occupied slots, from the front of
    /// the queue to the back.
    ///
    /// Iteration is only meaningful while no concurrent enqueue or
    /// dequeue is in flight; holding the borrow of the whole queue for
    /// the iterator's lifetime enforces that quiescence here.
    pub fn iter(&self) -> (it: Iter<'_, T, N>)
        requires
            self.wf(),
        ensures
            it.wf(),
            it.elems() == self@,
            it.pos() == 0,
    {
        Iter { rb: self, index: 0 }
    }
}

/// A lazy iterator over the elements of a [`RingBuffer`], by reference,
/// from the front of the queue to the back.
pub struct Iter<'a, T, const N: usize> {
    rb: &'a RingBuffer<T, N>,
    index: usize,
}

impl<'a, T, const N: usize> Iter<'a, T, N> {
    /// The queue contents being iterated over, front first.
    pub closed spec fn elems(self) -> Seq<T> {
        self.rb@
    }

    /// How many elements have been yielded so far.
    pub closed spec fn pos(self) -> int {
        self.index as int
    }

    /// Well-formedness: the borrowed queue is itself well-formed.
    pub closed spec fn wf(self) -> bool {
        self.rb.wf()
    }

    /// Returns a reference to the next element, or `None` once every
    /// element has been yielded.
    pub fn next(&mut self) -> (r: Option<&'a T>)
        requires
            old(self).wf(),
        ensures
            final(self).wf(),
            final(self).elems() == old(self).elems(),
            old(self).pos() < old(self).elems().len() ==> {
                &&& final(self).pos() == old(self).pos() + 1
                &&& r matches Some(x) && *x == old(self).elems()[old(self).pos()]
            },
            old(self).pos() >= old(self).elems().len() ==> r.is_none() && final(self).pos() == old(
                self,
            ).pos(),
    {
        let l = self.rb.len();
        if self.index < l {
            let head = self.rb.head.load_relaxed();
            let pos = if self.index < N - head {
                head + self.index
            } else {
                self.index - (N - head)
            };
            let slot = vstd::std_specs::vec::vec_index(&self.rb.buffer, pos);
            let r = match slot.as_ref() {
                Some(x) => Some(x),
                None => unreached(),
            };
            self.index = self.index + 1;
            r
        } else {
            None
        }
    }
}

/// First-in first-out: enqueuing a value puts it behind everything
/// already queued and in front of nothing, so it changes neither the
/// front of a non-empty queue nor the relative order of the values
/// already queued.
///
/// `enqueue` ensures the view grows by `.push(x)` at the back and
/// `dequeue` ensures it returns `.first()` and shrinks by
/// `.drop_first()`; this law connects the two.
pub proof fn lemma_enqueue_preserves_order<T>(s: Seq<T>, x: T)
    ensures
        s.push(x).len() == s.len() + 1,
        s.push(x).first() == if s.len() == 0 {
            x
        } else {
            s.first()
        },
        s.len() > 0 ==> s.push(x).drop_first() == s.drop_first().push(x),
        s.len() == 0 ==> s.push(x).drop_first() == s,
{
    if s.len() > 0 {
        assert(s.push(x).drop_first() =~= s.drop_first().push(x));
    } else {
        assert(s.push(x).drop_first() =~= s);
    }
}

/// Dequeuing yields the values in exactly the order they were enqueued:
/// if the queue once held `s` and `k` values have been dequeued since,
/// the queue holds `s.subrange(k, s.len())`, the next dequeue returns
/// `s[k]`, and the queue then holds `s.subrange(k + 1, s.len())`.
pub proof fn lemma_dequeue_order<T>(s: Seq<T>, k: int)
    requires
        0 <= k < s.len(),
    ensures
        s.subrange(k, s.len() as int).first() == s[k],
        s.subrange(k, s.len() as int).drop_first() == s.subrange(k + 1, s.len() as int),
{
    assert(s.subrange(k, s.len() as int).drop_first() =~= s.subrange(k + 1, s.len() as int));
}

} // verus!

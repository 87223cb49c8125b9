use vstd::prelude::*;

verus! {

/// A single-owner circular buffer of fixed capacity that never rejects a
/// push: once every slot has been written, each further push overwrites
/// the least recently written slot, so the buffer always retains the
/// most recent `capacity` values.
///
/// The backing array is handed in at construction and its length fixes
/// the capacity. Reads expose the backing storage's own order, which is
/// not rotated into chronological order once the buffer has wrapped; the
/// ghost `pushes` history records every value ever written, so the
/// contracts can still say exactly which pushed value sits in which
/// slot.
pub struct CircularBuffer<T> {
    array: Vec<T>,
    index: usize,
    len: usize,
    pushes: Ghost<Seq<T>>,
}

impl<T> View for CircularBuffer<T> {
    type V = Seq<T>;

    /// The readable prefix of the backing storage, in storage order.
    closed spec fn view(&self) -> Seq<T> {
        self.array@.subrange(0, self.len as int)
    }
}

impl<T: Copy> CircularBuffer<T> {
    /// The capacity: the length of the backing array.
    pub closed spec fn spec_capacity(self) -> int {
        self.array@.len() as int
    }

    /// The write cursor: the slot the next push will write.
    pub closed spec fn spec_index(self) -> int {
        self.index as int
    }

    /// Every value ever pushed, oldest first; a buffer seeded from a full
    /// array starts with that array as its history.
    pub closed spec fn history(self) -> Seq<T> {
        self.pushes@
    }

    /// The slot that holds the value pushed `k` writes ago: counting
    /// back from the write cursor, wrapping around the end of storage.
    pub closed spec fn slot_back(self, k: int) -> int {
        if self.spec_index() - 1 - k >= 0 {
            self.spec_index() - 1 - k
        } else {
            self.spec_index() - 1 - k + self.spec_capacity()
        }
    }

    /// Well-formedness: the cursor lies in `[0, capacity)`, the length is
    /// the push count clipped to the capacity, and counting back from
    /// the cursor, slot `slot_back(k)` holds the value pushed `k` writes
    /// ago. `new` and `from_array` establish this and `push` preserves
    /// it.
    pub closed spec fn wf(self) -> bool {
        &&& 1 <= self.spec_capacity()
        &&& 0 <= self.spec_index() < self.spec_capacity()
        &&& self.len as int == if self.history().len() <= self.spec_capacity() {
            self.history().len() as int
        } else {
            self.spec_capacity()
        }
        &&& self.len < self.spec_capacity() ==> self.spec_index() == self.len as int
        &&& forall|k: int|
            0 <= k < self.len as int ==> self.array@[#[trigger] self.slot_back(k)]
                == self.history()[self.history().len() - 1 - k]
    }

    /// Creates a new, empty circular buffer using `array` as the backing
    /// storage; the array's initial values are treated as scratch space.
    pub fn new(array: Vec<T>) -> (r: CircularBuffer<T>)
        requires
            array@.len() >= 1,
        ensures
            r.wf(),
            r@ == Seq::<T>::empty(),
            r.history() == Seq::<T>::empty(),
            r.spec_capacity() == array@.len(),
            r.spec_index() == 0,
    {
        let r = CircularBuffer { array, index: 0, len: 0, pushes: Ghost(Seq::empty()) };
        proof {
            assert(r@ =~= Seq::<T>::empty());
        }
        r
    }

    /// Creates a circular buffer that starts out full, keeping the
    /// values and the length of `array`: the whole backing storage
    /// counts as already written, and the next push overwrites the
    /// start.
    pub fn from_array(array: Vec<T>) -> (r: CircularBuffer<T>)
        requires
            array@.len() >= 1,
        ensures
            r.wf(),
            r@ == array@,
            r.history() == array@,
            r.spec_capacity() == array@.len(),
            r.spec_index() == 0,
    {
        let len = array.len();
        let r = CircularBuffer { array, index: 0, len, pushes: Ghost(array@) };
        proof {
            assert(r@ =~= array@);
        }
        r
    }

    /// Returns the capacity of this buffer.
    pub fn capacity(&self) -> (r: usize)
        ensures
            r == self.spec_capacity(),
    {
        self.array.len()
    }

    /// Returns the current length: how many slots hold a pushed value.
    /// Once the buffer has filled up this stays at the capacity.
    pub fn len(&self) -> (r: usize)
        requires
            self.wf(),
        ensures
            r == self@.len(),
            r == if self.history().len() <= self.spec_capacity() {
                self.history().len() as int
            } else {
                self.spec_capacity()
            },
    {
        self.len
    }

    /// Returns the current write cursor: the next slot a push writes;
    /// on a well-formed buffer it always lies inside the storage.
    pub fn index(&self) -> (r: usize)
        ensures
            r == self.spec_index(),
            self.wf() ==> r < self.spec_capacity(),
    {
        self.index
    }

    /// Returns `true` if the buffer is empty.
    pub fn is_empty(&self) -> (r: bool)
        requires
            self.wf(),
        ensures
            r == (self@.len() == 0),
    {
        self.len == 0
    }

    /// Returns `true` if every slot has been written. Pushes still
    /// succeed in that state: they overwrite the oldest value.
    pub fn is_full(&self) -> (r: bool)
        requires
            self.wf(),
        ensures
            r == (self@.len() == self.spec_capacity()),
    {
        self.len() == self.capacity()
    }

    /// Pushes `element` into the buffer, overwriting the least recently
    /// written value if the buffer is full. This never fails.
    pub fn push(&mut self, element: T)
        requires
            old(self).wf(),
        ensures
            final(self).wf(),
            final(self).history() == old(self).history().push(element),
            final(self).spec_capacity() == old(self).spec_capacity(),
            final(self)@.len() == if old(self)@.len() < old(self).spec_capacity() {
                old(self)@.len() + 1
            } else {
                old(self).spec_capacity() as nat
            },
            old(self)@.len() < old(self).spec_capacity() ==> final(self)@ == old(self)@.push(
                element,
            ),
            old(self)@.len() == old(self).spec_capacity() ==> final(self)@ == old(self)@.update(
                old(self).spec_index(),
                element,
            ),
            final(self).spec_index() == if old(self).spec_index() + 1 == old(
                self,
            ).spec_capacity() {
                0int
            } else {
                old(self).spec_index() + 1
            },
    {
        let len = self.len();
        let capacity = self.capacity();
        let index = self.index();
        if len < capacity {
            self.len = len + 1;
        }
        self.array.set(index, element);
        self.index = if index + 1 == capacity {
            0
        } else {
            index + 1
        };
        self.pushes = Ghost(self.pushes@.push(element));
        proof {
            if old(self)@.len() < old(self).spec_capacity() {
                assert(final(self)@ =~= old(self)@.push(element));
            } else {
                assert(final(self)@ =~= old(self)@.update(old(self).spec_index(), element));
            }
            assert forall|k: int| 0 <= k < final(self).len as int implies final(self).array@[
                #[trigger] final(self).slot_back(k)
            ] == final(self).history()[final(self).history().len() - 1 - k] by {
                if k == 0 {
                    assert(final(self).slot_back(0) == old(self).spec_index());
                } else {
                    assert(final(self).slot_back(k) == old(self).slot_back(k - 1));
                    assert(old(self).array@[old(self).slot_back(k - 1)] == old(self).history()[
                        old(self).history().len() - 1 - (k - 1)
                    ]);
                }
            }
        }
    }

    /// Returns the readable prefix of the backing storage as a slice, in
    /// storage order (not rotated into chronological order).
    pub fn as_slice(&self) -> (r: &[T])
        requires
            self.wf(),
        ensures
            r@ == self@,
    {
        vstd::slice::slice_subrange(self.array.as_slice(), 0, self.len)
    }

    /// The buffer retains the most recent values: the value pushed `k`
    /// writes ago (for every `k` below the current length) is still
    /// present in the readable prefix, at the slot `slot_back(k)`.
    pub proof fn lemma_retains_recent(self, k: int)
        requires
            self.wf(),
            0 <= k < self@.len(),
        ensures
            0 <= self.slot_back(k) < self@.len(),
            self@[self.slot_back(k)] == self.history()[self.history().len() - 1 - k],
    {
    }

    /// The buffer holds nothing but the most recent values: every
    /// readable slot `j` holds the value pushed some `k` writes ago,
    /// with `k` below the current length. Together with
    /// `lemma_retains_recent` this pins the contents to exactly the
    /// most recently pushed values, independent of storage order.
    pub proof fn lemma_holds_only_recent(self, j: int)
        requires
            self.wf(),
            0 <= j < self@.len(),
        ensures
            exists|k: int|
                0 <= k < self@.len() && self.slot_back(k) == j && self@[j] == self.history()[
                    self.history().len() - 1 - k
                ],
    {
        let k = if j < self.spec_index() {
            self.spec_index() - 1 - j
        } else {
            self.spec_index() - 1 - j + self.spec_capacity()
        };
        assert(0 <= k < self@.len() && self.slot_back(k) == j && self@[j] == self.history()[
            self.history().len() - 1 - k
        ]);
    }
}

} // verus!

use vstd::prelude::*;

verus! {

use vstd::slice::slice_index_get;
use vstd::std_specs::cmp::PartialEqSpec;

/// `needle` is a prefix of `s`, element for element, as compared by
/// `T::eq`'s specification.
pub open spec fn is_prefix_of<T: PartialEq>(needle: Seq<T>, s: Seq<T>) -> bool {
    needle.len() <= s.len() && (forall|i: int|
        0 <= i < needle.len() ==> s[i].eq_spec(&needle[i]))
}

/// `needle` is a suffix of `s`, element for element, as compared by
/// `T::eq`'s specification.
pub open spec fn is_suffix_of<T: PartialEq>(needle: Seq<T>, s: Seq<T>) -> bool {
    needle.len() <= s.len() && (forall|i: int|
        0 <= i < needle.len() ==> s[s.len() - needle.len() + i].eq_spec(&needle[i]))
}

/// A vector with a fixed capacity of `N` elements.
///
/// The capacity is part of the type: it is chosen at construction and never
/// changes. Every operation that would grow the vector past `N` elements is
/// rejected and hands the offending value back to the caller.
///
/// The contents are modelled as a sequence (the view `self@`): the slots
/// `[0, len)` hold the live elements, in order, and `len` never exceeds `N`.
pub struct FixedVec<T, const N: usize> {
    data: Vec<T>,
}

impl<T, const N: usize> View for FixedVec<T, N> {
    type V = Seq<T>;

    closed spec fn view(&self) -> Seq<T> {
        self.data@
    }
}

impl<T, const N: usize> FixedVec<T, N> {
    /// Well-formedness: the number of live elements never exceeds the
    /// capacity `N`. `new` establishes this and every operation preserves
    /// it, so it holds of every vector a caller can obtain.
    pub open spec fn wf(self) -> bool {
        self@.len() <= N
    }

    /// Constructs a new, empty vector with a fixed capacity of `N`.
    pub fn new() -> (r: Self)
        ensures
            r@ == Seq::<T>::empty(),
            r.wf(),
    {
        FixedVec { data: Vec::new() }
    }

    /// Returns the maximum number of elements the vector can hold.
    pub fn capacity(&self) -> (r: usize)
        ensures
            r == N,
    {
        N
    }

    /// Returns the number of elements currently in the vector; this never
    /// exceeds the capacity `N`.
    pub fn len(&self) -> (r: usize)
        ensures
            r == self@.len(),
            self.wf() ==> r <= N,
    {
        self.data.len()
    }

    /// Returns `true` if the vector holds no elements.
    pub fn is_empty(&self) -> (r: bool)
        ensures
            r == (self@.len() == 0),
    {
        self.data.len() == 0
    }

    /// Returns `true` if the vector is at capacity.
    pub fn is_full(&self) -> (r: bool)
        ensures
            r == (self@.len() == N),
    {
        self.data.len() == N
    }

    /// Appends `item` to the back of the vector.
    ///
    /// Returns the item back, unmodified, if the vector is full; the
    /// contents are not changed in that case.
    pub fn push(&mut self, item: T) -> (r: Result<(), T>)
        ensures
            old(self)@.len() < N ==> r == Ok::<(), T>(()) && final(self)@ == old(self)@.push(item),
            old(self)@.len() >= N ==> r == Err::<(), T>(item) && final(self)@ == old(self)@,
            old(self).wf() ==> final(self).wf(),
    {
        if self.data.len() < N {
            self.data.push(item);
            Ok(())
        } else {
            Err(item)
        }
    }

    /// Removes the last element from the vector and returns it, or `None`
    /// if the vector is empty.
    pub fn pop(&mut self) -> (r: Option<T>)
        ensures
            old(self)@.len() > 0 ==> r == Some(old(self)@.last()) && final(self)@ == old(self)@.drop_last(),
            old(self)@.len() == 0 ==> r.is_none() && final(self)@ == old(self)@,
            old(self).wf() ==> final(self).wf(),
    {
        self.data.pop()
    }

    /// Inserts `item` at position `index`, shifting the elements in
    /// `[index, len)` one slot toward the back.
    ///
    /// Returns the item back, unmodified, if the vector is full or `index`
    /// is past the end; the contents are not changed in that case.
    pub fn insert(&mut self, index: usize, item: T) -> (r: Result<(), T>)
        ensures
            (old(self)@.len() < N && index <= old(self)@.len()) ==> r == Ok::<(), T>(())
                && final(self)@ == old(self)@.insert(index as int, item),
            !(old(self)@.len() < N && index <= old(self)@.len()) ==> r == Err::<(), T>(item)
                && final(self)@ == old(self)@,
            old(self).wf() ==> final(self).wf(),
    {
        if self.data.len() < N && index <= self.data.len() {
            self.data.insert(index, item);
            Ok(())
        } else {
            Err(item)
        }
    }

    /// Removes and returns the element at position `index`, shifting the
    /// elements in `[index + 1, len)` one slot toward the front.
    ///
    /// Returns an error, leaving the contents unchanged, if `index` is out
    /// of bounds.
    pub fn remove(&mut self, index: usize) -> (r: Result<T, ()>)
        ensures
            index < old(self)@.len() ==> r == Ok::<T, ()>(old(self)@[index as int])
                && final(self)@ == old(self)@.remove(index as int),
            index >= old(self)@.len() ==> r == Err::<T, ()>(()) && final(self)@ == old(self)@,
            old(self).wf() ==> final(self).wf(),
    {
        if index < self.data.len() {
            Ok(self.data.remove(index))
        } else {
            Err(())
        }
    }

    /// Removes and returns the element at position `index`; the removed
    /// element is replaced by the last element. This does not preserve
    /// ordering, but runs in constant time.
    ///
    /// An out-of-bounds `index` is a contract violation, so callers must
    /// bounds-check first.
    pub fn swap_remove(&mut self, index: usize) -> (r: T)
        requires
            index < old(self)@.len(),
        ensures
            r == old(self)@[index as int],
            final(self)@ == old(self)@.update(index as int, old(self)@.last()).drop_last(),
            old(self).wf() ==> final(self).wf(),
    {
        let r = self.data.swap_remove(index);
        proof {
            assert(final(self)@ =~= old(self)@.update(index as int, old(self)@.last()).drop_last());
        }
        r
    }

    /// Shortens the vector, keeping the first `len` elements and dropping
    /// the rest; a no-op if `len` is not below the current length.
    pub fn truncate(&mut self, len: usize)
        ensures
            len <= old(self)@.len() ==> final(self)@ == old(self)@.subrange(0, len as int),
            len > old(self)@.len() ==> final(self)@ == old(self)@,
            old(self).wf() ==> final(self).wf(),
    {
        self.data.truncate(len)
    }

    /// Clears the vector, removing all values.
    pub fn clear(&mut self)
        ensures
            final(self)@ == Seq::<T>::empty(),
            final(self).wf(),
    {
        self.data.clear()
    }

    /// Returns the live elements `[0, len)` as an immutable slice view.
    pub fn as_slice(&self) -> (r: &[T])
        ensures
            r@ == self@,
    {
        self.data.as_slice()
    }

    /// Returns the live elements `[0, len)` as a mutable slice view.
    pub fn as_mut_slice(&mut self) -> (r: &mut [T])
        ensures
            r@ == old(self)@,
            final(r)@ == final(self)@,
            final(r)@.len() == old(self)@.len() ==> (old(self).wf() ==> final(self).wf()),
    {
        self.data.as_mut_slice()
    }

    /// Clones and appends every element of `other`, in order.
    ///
    /// The capacity check happens up front: if the combined length would
    /// exceed `N`, nothing is copied and an error is returned.
    pub fn extend_from_slice(&mut self, other: &[T]) -> (r: Result<(), ()>)
        where
            T: Clone,
        ensures
            old(self)@.len() + other@.len() > N ==> r == Err::<(), ()>(()) && final(self)@ == old(
                self,
            )@,
            old(self)@.len() + other@.len() <= N ==> {
                &&& r == Ok::<(), ()>(())
                &&& final(self)@.len() == old(self)@.len() + other@.len()
                &&& forall|i: int| 0 <= i < old(self)@.len() ==> final(self)@[i] == old(self)@[i]
                &&& forall|i: int|
                    old(self)@.len() <= i < final(self)@.len() ==> cloned::<T>(
                        other@[i - old(self)@.len()],
                        #[trigger] final(self)@[i],
                    )
            },
            old(self).wf() ==> final(self).wf(),
    {
        if other.len() > N || self.data.len() > N - other.len() {
            Err(())
        } else {
            self.data.extend_from_slice(other);
            Ok(())
        }
    }

    /// Constructs a new vector holding a clone of each element of `other`;
    /// fails if the slice is longer than the capacity `N`.
    pub fn from_slice(other: &[T]) -> (r: Result<Self, ()>)
        where
            T: Clone,
        ensures
            other@.len() > N ==> r.is_err(),
            other@.len() <= N ==> {
                &&& r matches Ok(v)
                &&& v@.len() == other@.len()
                &&& forall|i: int| 0 <= i < other@.len() ==> cloned::<T>(other@[i], #[trigger] v@[i])
                &&& v.wf()
            },
    {
        let mut v = FixedVec::new();
        match v.extend_from_slice(other) {
            Ok(()) => Ok(v),
            Err(()) => Err(()),
        }
    }

    /// Resizes the vector in place so that its length equals `new_len`.
    ///
    /// Growing appends clones of `value`; shrinking truncates. If
    /// `new_len` exceeds the capacity `N`, nothing changes and an error is
    /// returned.
    pub fn resize(&mut self, new_len: usize, value: T) -> (r: Result<(), ()>)
        where
            T: Clone,
        ensures
            new_len > N ==> r == Err::<(), ()>(()) && final(self)@ == old(self)@,
            new_len <= N ==> {
                &&& r == Ok::<(), ()>(())
                &&& final(self)@.len() == new_len
                &&& new_len <= old(self)@.len() ==> final(self)@ == old(self)@.subrange(
                    0,
                    new_len as int,
                )
                &&& new_len > old(self)@.len() ==> {
                    &&& forall|i: int|
                        0 <= i < old(self)@.len() ==> final(self)@[i] == old(self)@[i]
                    &&& forall|i: int|
                        old(self)@.len() <= i < new_len ==> cloned::<T>(
                            value,
                            #[trigger] final(self)@[i],
                        )
                }
            },
            old(self).wf() ==> final(self).wf(),
    {
        if new_len > N {
            return Err(());
        }
        self.data.resize(new_len, value);
        proof {
            if new_len <= old(self)@.len() {
            } else {
                assert(final(self)@.subrange(0, old(self)@.len() as int) == old(self)@);
                assert(forall|i: int|
                    0 <= i < old(self)@.len() ==> final(self)@[i] == old(self)@.subrange(
                        0,
                        old(self)@.len() as int,
                    )[i]);
            }
        }
        Ok(())
    }

    /// Resizes the vector in place so that its length equals `new_len`,
    /// filling any new slots with clones of one freshly produced default
    /// value.
    pub fn resize_default(&mut self, new_len: usize) -> (r: Result<(), ()>)
        where
            T: Clone + Default,
        ensures
            new_len > N ==> r == Err::<(), ()>(()) && final(self)@ == old(self)@,
            new_len <= N ==> {
                &&& r == Ok::<(), ()>(())
                &&& final(self)@.len() == new_len
                &&& new_len <= old(self)@.len() ==> final(self)@ == old(self)@.subrange(
                    0,
                    new_len as int,
                )
                &&& new_len > old(self)@.len() ==> forall|i: int|
                    0 <= i < old(self)@.len() ==> final(self)@[i] == old(self)@[i]
                &&& new_len > old(self)@.len() ==> exists|d: T|
                    {
                        &&& #[trigger] call_ensures(<T as Default>::default, (), d)
                        &&& forall|i: int|
                            old(self)@.len() <= i < new_len ==> cloned::<T>(
                                d,
                                #[trigger] final(self)@[i],
                            )
                    }
            },
            old(self).wf() ==> final(self).wf(),
    {
        let d = T::default();
        self.resize(new_len, d)
    }

    /// Resizes the vector in place to its full capacity `N`, filling any
    /// new slots with clones of the default value.
    pub fn resize_to_capacity(&mut self)
        where
            T: Clone + Default,
        ensures
            final(self)@.len() == N,
            forall|i: int| 0 <= i < old(self)@.len() && i < N ==> final(self)@[i] == old(self)@[i],
            final(self).wf(),
    {
        let _ = self.resize(N, T::default());
        proof {
            if N <= old(self)@.len() {
                assert(forall|i: int|
                    0 <= i < N ==> final(self)@[i] == old(self)@.subrange(0, N as int)[i]);
            }
        }
    }

    /// Returns `true` if `needle` is a prefix of the vector; an empty
    /// `needle` is a prefix of anything.
    pub fn starts_with(&self, needle: &[T]) -> (r: bool)
        where
            T: PartialEq,
        ensures
            T::obeys_eq_spec() ==> r == is_prefix_of(needle@, self@),
    {
        let n = needle.len();
        if n > self.data.len() {
            return false;
        }
        let mut i: usize = 0;
        while i < n
            invariant
                0 <= i <= n,
                n == needle@.len(),
                n <= self@.len(),
                T::obeys_eq_spec() ==> forall|j: int| 0 <= j < i ==> self@[j].eq_spec(&needle@[j]),
            decreases n - i,
        {
            let a = slice_index_get(self.data.as_slice(), i);
            let b = slice_index_get(needle, i);
            if !(*a == *b) {
                return false;
            }
            i += 1;
        }
        true
    }

    /// Returns `true` if `needle` is a suffix of the vector; an empty
    /// `needle` is a suffix of anything.
    pub fn ends_with(&self, needle: &[T]) -> (r: bool)
        where
            T: PartialEq,
        ensures
            T::obeys_eq_spec() ==> r == is_suffix_of(needle@, self@),
    {
        let n = needle.len();
        let v = self.data.len();
        if n > v {
            return false;
        }
        let off = v - n;
        let mut i: usize = 0;
        while i < n
            invariant
                0 <= i <= n,
                n == needle@.len(),
                n <= v,
                v == self@.len(),
                off == v - n,
                T::obeys_eq_spec() ==> forall|j: int|
                    0 <= j < i ==> self@[off + j].eq_spec(&needle@[j]),
            decreases n - i,
        {
            let a = slice_index_get(self.data.as_slice(), off + i);
            let b = slice_index_get(needle, i);
            if !(*a == *b) {
                return false;
            }
            i += 1;
        }
        true
    }

    /// Inserts the contents of `slice` at position `at`, shifting the
    /// elements in `[at, len)` toward the back.
    ///
    /// The capacity check happens up front: if the combined length would
    /// exceed `N`, nothing is changed and an error is returned. An
    /// out-of-bounds `at` is a contract violation, so callers must
    /// bounds-check first.
    pub fn insert_slice_at(&mut self, slice: &[T], at: usize) -> (r: Result<(), ()>)
        where
            T: Copy,
        requires
            at <= old(self)@.len(),
        ensures
            old(self)@.len() + slice@.len() > N ==> r == Err::<(), ()>(()) && final(self)@ == old(
                self,
            )@,
            old(self)@.len() + slice@.len() <= N ==> r == Ok::<(), ()>(()) && final(self)@ == old(
                self,
            )@.subrange(0, at as int) + slice@ + old(self)@.subrange(
                at as int,
                old(self)@.len() as int,
            ),
            old(self).wf() ==> final(self).wf(),
    {
        if slice.len() > N || self.data.len() > N - slice.len() {
            return Err(());
        }
        let ghost orig = self.data@;
        let mut tail = self.data.split_off(at);
        let mut i: usize = 0;
        while i < slice.len()
            invariant
                0 <= i <= slice@.len(),
                self.data@ == orig.subrange(0, at as int) + slice@.subrange(0, i as int),
            decreases slice@.len() - i,
        {
            let x = *slice_index_get(slice, i);
            self.data.push(x);
            proof {
                assert(self.data@ =~= orig.subrange(0, at as int) + slice@.subrange(
                    0,
                    i + 1 as int,
                ));
            }
            i += 1;
        }
        self.data.append(&mut tail);
        proof {
            assert(slice@.subrange(0, slice@.len() as int) =~= slice@);
            assert(final(self)@ =~= old(self)@.subrange(0, at as int) + slice@ + old(
                self,
            )@.subrange(at as int, old(self)@.len() as int));
        }
        Ok(())
    }

    /// Clones the contents into a vector of the same or larger capacity
    /// `M`; always succeeds because the bound `N <= M` guarantees room.
    pub fn to_vec<const M: usize>(&self) -> (r: FixedVec<T, M>)
        where
            T: Clone,
        requires
            self.wf(),
            N <= M,
        ensures
            r@.len() == self@.len(),
            forall|i: int| 0 <= i < self@.len() ==> cloned::<T>(self@[i], #[trigger] r@[i]),
            r.wf(),
    {
        match FixedVec::<T, M>::from_slice(self.data.as_slice()) {
            Ok(v) => v,
            Err(()) => unreached(),
        }
    }

    /// Clones the contents into a vector of a possibly different capacity
    /// `M`; fails if the current contents do not fit.
    pub fn try_to_vec<const M: usize>(&self) -> (r: Result<FixedVec<T, M>, ()>)
        where
            T: Clone,
        ensures
            self@.len() > M ==> r.is_err(),
            self@.len() <= M ==> {
                &&& r matches Ok(v)
                &&& v@.len() == self@.len()
                &&& forall|i: int| 0 <= i < self@.len() ==> cloned::<T>(self@[i], #[trigger] v@[i])
                &&& v.wf()
            },
    {
        FixedVec::<T, M>::from_slice(self.data.as_slice())
    }
}

/// A lazy, restartable iterator over the elements of a [`FixedVec`], by
/// reference, from the front to the back.
pub struct Iter<'a, T, const N: usize> {
    vec: &'a FixedVec<T, N>,
    next: usize,
}

impl<'a, T, const N: usize> Iter<'a, T, N> {
    /// The elements being iterated over.
    pub closed spec fn elems(self) -> Seq<T> {
        self.vec@
    }

    /// How many elements have been yielded so far.
    pub closed spec fn pos(self) -> int {
        self.next as int
    }

    /// Returns a reference to the next element, or `None` once every
    /// element has been yielded.
    pub fn next(&mut self) -> (r: Option<&'a T>)
        ensures
            final(self).elems() == old(self).elems(),
            old(self).pos() < old(self).elems().len() ==> {
                &&& final(self).pos() == old(self).pos() + 1
                &&& r matches Some(x) && *x == old(self).elems()[old(self).pos()]
            },
            old(self).pos() >= old(self).elems().len() ==> r.is_none() && final(self).pos() == old(
                self,
            ).pos(),
    {
        if self.next < self.vec.data.len() {
            let x = slice_index_get(self.vec.data.as_slice(), self.next);
            self.next += 1;
            Some(x)
        } else {
            None
        }
    }
}

/// An iterator that moves the elements out of a [`FixedVec`], from the
/// front to the back. Elements that are never yielded simply stay inside
/// the carried vector, so they are dropped with it.
#[derive(Clone)]
pub struct IntoIter<T, const N: usize> {
    vec: FixedVec<T, N>,
}

impl<T, const N: usize> View for IntoIter<T, N> {
    type V = Seq<T>;

    closed spec fn view(&self) -> Seq<T> {
        self.vec@
    }
}

impl<T, const N: usize> IntoIter<T, N> {
    /// Moves the next element out, or returns `None` once every element
    /// has been yielded.
    pub fn next(&mut self) -> (r: Option<T>)
        ensures
            old(self)@.len() > 0 ==> r == Some(old(self)@.first()) && final(self)@ == old(
                self,
            )@.drop_first(),
            old(self)@.len() == 0 ==> r.is_none() && final(self)@ == old(self)@,
    {
        let r = match self.vec.remove(0) {
            Ok(x) => Some(x),
            Err(()) => None,
        };
        proof {
            if old(self)@.len() > 0 {
                assert(final(self)@ =~= old(self)@.drop_first());
            }
        }
        r
    }
}

impl<T, const N: usize> FixedVec<T, N> {
    /// Returns an iterator over `[0, len)` by reference.
    pub fn iter(&self) -> (it: Iter<'_, T, N>)
        ensures
            it.elems() == self@,
            it.pos() == 0,
    {
        Iter { vec: self, next: 0 }
    }

    /// Turns the vector into an owning iterator over its elements.
    pub fn into_iter(self) -> (it: IntoIter<T, N>)
        ensures
            it@ == self@,
    {
        IntoIter { vec: self }
    }
}

/// Stack discipline: appending a value and then removing the last element
/// yields that same value and restores the previous contents, so the
/// values returned by `pop` come back in the reverse of push order.
///
/// `push` ensures the view grows by `.push(x)` and `pop` ensures it
/// returns `.last()` and shrinks by `.drop_last()`; this law connects the
/// two.
pub proof fn lemma_push_pop_lifo<T>(s: Seq<T>, x: T)
    ensures
        s.push(x).last() == x,
        s.push(x).drop_last() == s,
{
    assert(s.push(x).drop_last() =~= s);
}

/// Inserting `x` at position `i` and then removing position `i` yields
/// `x` back and restores the previous contents and length.
///
/// `insert` ensures the view becomes `.insert(i, x)` and `remove` ensures
/// it returns the element at `i` and removes it; this law connects the
/// two.
pub proof fn lemma_insert_remove_round_trip<T>(s: Seq<T>, i: int, x: T)
    requires
        0 <= i <= s.len(),
    ensures
        s.insert(i, x)[i] == x,
        s.insert(i, x).remove(i) == s,
{
    assert(s.insert(i, x).remove(i) =~= s);
}

impl<T, const N: usize> Default for FixedVec<T, N> {
    /// The default value is the empty vector.
    fn default() -> (r: Self)
        ensures
            r@ == Seq::<T>::empty(),
            r.wf(),
    {
        FixedVec::new()
    }
}

impl<T: Clone, const N: usize> Clone for FixedVec<T, N> {
    /// Clones the vector element by element; the copy has the same length
    /// and capacity.
    fn clone(&self) -> (r: Self)
        ensures
            r@.len() == self@.len(),
            forall|i: int| 0 <= i < self@.len() ==> cloned::<T>(self@[i], #[trigger] r@[i]),
            self.wf() ==> r.wf(),
    {
        FixedVec { data: self.data.clone() }
    }
}

} // verus!

//! A bounded ring buffer: a buffer that wraps around when the end of
//! its backing storage is reached.
//!
//! The storage holds `N` slots, pre-filled with the element type's
//! default value, of which at most `N - 1` are ever occupied. `tail`
//! is the slot of the oldest element, `head` the slot the next push
//! writes, and `size` the number of occupied slots; pushing and
//! popping move `head` and `tail` forward modulo `N`.

use vstd::prelude::*;

use vstd::arithmetic::div_mod::lemma_add_mod_noop;
use vstd::arithmetic::div_mod::lemma_fundamental_div_mod;
use vstd::arithmetic::div_mod::lemma_mod_bound;
use vstd::arithmetic::div_mod::lemma_small_mod;

verus! {

/// A ring buffer operation that could not be carried out.
#[derive(Debug, Clone, Copy, PartialEq, Eq, Structural)]
pub enum RingBufferError {
    /// A push found the buffer at capacity.
    Full,
    /// A pop found nothing to remove.
    Empty,
}

/// A bounded ring buffer over `N` storage slots, holding up to
/// `N - 1` elements.
pub struct RingBuffer<T, const N: usize> {
    head: usize,
    tail: usize,
    size: usize,
    elements: Vec<T>,
}

/// Positions `i` and `j` of the storage ring differ as long as both
/// offsets lie within one revolution.
proof fn lemma_ring_index_distinct(tail: int, i: int, j: int, n: int)
    requires
        0 <= tail,
        0 <= i < j,
        j < n,
    ensures
        (tail + i) % n != (tail + j) % n,
{
    let a = tail + i;
    let b = tail + j;
    lemma_fundamental_div_mod(a, n);
    lemma_fundamental_div_mod(b, n);
    let qa = a / n;
    let qb = b / n;
    if a % n == b % n {
        assert(b - a == (qb - qa) * n) by (nonlinear_arith)
            requires
                a == n * qa + a % n,
                b == n * qb + b % n,
                a % n == b % n,
        ;
        assert((qb - qa) * n >= n || (qb - qa) * n <= 0) by (nonlinear_arith)
            requires
                n >= 1,
        ;
    }
}

impl<T, const N: usize> RingBuffer<T, N> {
    /// The backing storage, including slots not currently occupied.
    pub closed spec fn storage(self) -> Seq<T> {
        self.elements@
    }

    /// The slot of the oldest element.
    pub closed spec fn tail_slot(self) -> int {
        self.tail as int
    }

    /// The elements currently held, oldest first.
    pub closed spec fn contents(self) -> Seq<T> {
        Seq::new(self.size as nat, |i: int| self.elements@[(self.tail + i) % (N as int)])
    }

    /// The structural invariant: the storage spans `N >= 1` slots, the
    /// cursors stay on the ring, at most `N - 1` slots are occupied,
    /// and the write cursor sits one revolution's worth of elements
    /// past the read cursor.
    pub closed spec fn wf(self) -> bool {
        &&& N >= 1
        &&& self.elements@.len() == N
        &&& self.tail < N
        &&& self.head < N
        &&& self.size < N
        &&& self.head as int == (self.tail + self.size) % (N as int)
    }

    /// How many elements the buffer holds.
    pub fn len(&self) -> (n: usize)
        ensures
            n == self.contents().len(),
    {
        self.size
    }

    /// Whether the buffer holds no elements.
    pub fn is_empty(&self) -> (b: bool)
        ensures
            b == (self.contents().len() == 0),
    {
        self.size == 0
    }

    /// The oldest element's slot — on an empty buffer still the slot
    /// the next element would occupy, which after creation holds the
    /// fill value.
    pub fn front(&self) -> (r: Option<&T>)
        requires
            self.wf(),
        ensures
            match r {
                Some(v) => *v == self.storage()[self.tail_slot()] && (self.contents().len() > 0
                    ==> *v == self.contents()[0]),
                None => false,
            },
    {
        if self.size == N {
            None
        } else {
            proof {
                if self.size > 0 {
                    lemma_small_mod(self.tail as nat, N as nat);
                }
            }
            Some(&self.elements[self.tail])
        }
    }

    /// Append an element, unless the buffer already holds its
    /// capacity of `N - 1` elements.
    pub fn push(&mut self, element: T) -> (r: Result<(), RingBufferError>)
        requires
            old(self).wf(),
        ensures
            final(self).wf(),
            match r {
                Ok(()) => old(self).contents().len() < N - 1 && final(self).contents() == old(self).contents().push(element),
                Err(e) => e == RingBufferError::Full && old(self).contents().len() == N - 1
                    && *final(self) == *old(self),
            },
    {
        if self.size == N - 1 {
            return Err(RingBufferError::Full);
        }
        let ghost n = N as int;
        let ghost prev = *self;
        self.elements.set(self.head, element);
        self.head = (self.head + 1) % N;
        self.size = self.size + 1;
        proof {
            lemma_mod_bound(prev.tail + prev.size, n);
            lemma_add_mod_noop(prev.tail + prev.size, 1, n);
            lemma_small_mod(1nat, n as nat);
            assert(self.head as int == (self.tail + self.size) % n);
            assert forall|i: int| 0 <= i < prev.size implies self.contents()[i] == prev.contents()[i] by {
                lemma_ring_index_distinct(prev.tail as int, i, prev.size as int, n);
                lemma_mod_bound(prev.tail + i, n);
            }
            assert(self.contents()[prev.size as int] == element) by {
                lemma_mod_bound(prev.tail + prev.size, n);
            }
            assert(self.contents() =~= prev.contents().push(element));
        }
        Ok(())
    }

    /// Drop the oldest element, or report the buffer empty.
    pub fn pop(&mut self) -> (r: Result<(), RingBufferError>)
        requires
            old(self).wf(),
        ensures
            final(self).wf(),
            match r {
                Ok(()) => old(self).contents().len() > 0 && final(self).contents() == old(self).contents().subrange(1, old(self).contents().len() as int),
                Err(e) => e == RingBufferError::Empty && old(self).contents().len() == 0 && *final(self) == *old(self),
            },
            final(self).storage() == old(self).storage(),
    {
        if self.size == 0 {
            return Err(RingBufferError::Empty);
        }
        let ghost n = N as int;
        let ghost prev = *self;
        self.tail = (self.tail + 1) % N;
        self.size = self.size - 1;
        proof {
            lemma_mod_bound(prev.tail + 1, n);
            assert forall|i: int| 0 <= i < self.size implies self.contents()[i] == prev.contents()[i + 1] by {
                lemma_add_mod_noop(prev.tail + 1, i, n);
                lemma_small_mod(i as nat, n as nat);
                lemma_mod_bound(prev.tail + 1 + i, n);
            }
            assert(self.head as int == (self.tail + self.size) % n) by {
                lemma_add_mod_noop(prev.tail + 1, self.size as int, n);
                lemma_small_mod(self.size as nat, n as nat);
            }
            assert(self.contents() =~= prev.contents().subrange(1, prev.contents().len() as int));
        }
        Ok(())
    }

    /// The storage slot `index` places past the oldest element,
    /// wrapping around the ring: within the current length this is an
    /// element, oldest first; past it, the stale or fill value
    /// occupying that slot.
    pub fn index(&self, index: usize) -> (r: &T)
        requires
            self.wf(),
            index < N,
        ensures
            *r == self.storage()[(self.tail_slot() + index) % (N as int)],
            index < self.contents().len() ==> *r == self.contents()[index as int],
    {
        let extracted_index = if index < N - self.tail {
            proof {
                lemma_small_mod((self.tail + index) as nat, N as nat);
            }
            self.tail + index
        } else {
            proof {
                vstd::arithmetic::div_mod::lemma_mod_add_multiples_vanish(
                    self.tail + index - N,
                    N as int,
                );
                lemma_small_mod((self.tail + index - N) as nat, N as nat);
            }
            index - (N - self.tail)
        };
        &self.elements[extracted_index]
    }

    /// An iterator over the elements, oldest first.
    pub fn iter(&self) -> (it: RingBufferIterator<'_, T, N>)
        requires
            self.wf(),
        ensures
            it.wf(),
            it.remaining() == self.contents(),
    {
        RingBufferIterator { buffer: self, index: 0 }
    }
}

impl<T, const N: usize> RingBuffer<T, N> where T: Default + Copy {
    /// An empty buffer with every slot holding the element type's
    /// default value.
    pub fn new() -> (buffer: Self)
        requires
            N >= 1,
        ensures
            buffer.wf(),
            buffer.contents() == Seq::<T>::empty(),
            buffer.tail_slot() == 0,
            buffer.storage().len() == N,
            forall|i: int| 0 <= i < N ==> #[trigger] buffer.storage()[i] == buffer.storage()[0],
    {
        Self::default()
    }
}

impl<T, const N: usize> Default for RingBuffer<T, N> where T: Default + Copy {
    /// An empty buffer with every slot holding the element type's
    /// default value; usable whenever there is at least one slot.
    fn default() -> (buffer: Self)
        ensures
            N >= 1 ==> buffer.wf(),
            buffer.contents() == Seq::<T>::empty(),
            buffer.tail_slot() == 0,
            buffer.storage().len() == N,
            forall|i: int| 0 <= i < N ==> #[trigger] buffer.storage()[i] == buffer.storage()[0],
    {
        let fill = T::default();
        let mut elements: Vec<T> = Vec::new();
        while elements.len() < N
            invariant
                elements@.len() <= N,
                forall|i: int| 0 <= i < elements@.len() ==> #[trigger] elements@[i] == fill,
            decreases N - elements.len(),
        {
            elements.push(fill);
        }
        proof {
            if N >= 1 {
                lemma_small_mod(0nat, N as nat);
            }
        }
        Self { head: 0, tail: 0, size: 0, elements }
    }
}

/// A cursor over a ring buffer's elements, oldest first.
pub struct RingBufferIterator<'a, T, const N: usize> {
    buffer: &'a RingBuffer<T, N>,
    index: usize,
}

impl<'a, T, const N: usize> RingBufferIterator<'a, T, N> {
    /// The iterator points into a well-formed buffer and has yielded
    /// at most all of its elements.
    pub closed spec fn wf(self) -> bool {
        &&& self.buffer.wf()
        &&& self.index <= self.buffer.contents().len()
    }

    /// The elements not yet yielded.
    pub closed spec fn remaining(self) -> Seq<T> {
        self.buffer.contents().subrange(self.index as int, self.buffer.contents().len() as int)
    }

    /// The next element, oldest first, or nothing when every element
    /// has been yielded.
    pub fn next(&mut self) -> (r: Option<&'a T>)
        requires
            old(self).wf(),
        ensures
            final(self).wf(),
            match r {
                Some(v) => old(self).remaining().len() > 0 && *v == old(self).remaining()[0]
                    && final(self).remaining() == old(self).remaining().subrange(
                    1,
                    old(self).remaining().len() as int,
                ),
                None => old(self).remaining().len() == 0 && final(self).remaining() == old(self).remaining(),
            },
    {
        if self.index == self.buffer.len() {
            None
        } else {
            let element = self.buffer.index(self.index);
            self.index = self.index + 1;
            proof {
                assert(final(self).remaining() =~= old(self).remaining().subrange(
                    1,
                    old(self).remaining().len() as int,
                ));
            }
            Some(element)
        }
    }
}

} // verus!

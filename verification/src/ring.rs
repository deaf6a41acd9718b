//! A fixed-capacity first-in first-out queue.

use vstd::prelude::*;

verus! {

/// A fixed-capacity FIFO ring: a plain array with a head/length cursor.
/// Its view is the sequence of queued values, oldest first.
pub struct Ring<T, const N: usize> {
    buf: [T; N],
    head: usize,
    len: usize,
}

impl<T, const N: usize> Ring<T, N> {
    #[verifier::type_invariant]
    spec fn cursor_in_range(self) -> bool {
        self.head < N && self.len <= N
    }

    /// The array slot of the `i`-th queued value.
    spec fn slot(self, i: int) -> int {
        if self.head + i < N {
            self.head + i
        } else {
            self.head + i - N
        }
    }
}

impl<T, const N: usize> View for Ring<T, N> {
    type V = Seq<T>;

    closed spec fn view(&self) -> Seq<T> {
        Seq::new(self.len as nat, |i: int| self.buf@[self.slot(i)])
    }
}

impl<T: Copy, const N: usize> Ring<T, N> {
    /// An empty ring. `fill` occupies the unused slots.
    pub fn new(fill: T) -> (ring: Self)
        requires
            N > 0,
        ensures
            ring@ == Seq::<T>::empty(),
    {
        Ring { buf: [fill;N], head: 0, len: 0 }
    }

    /// Queue a value. `false`, and nothing queued, if the ring is already
    /// full.
    pub fn push(&mut self, value: T) -> (queued: bool)
        ensures
            queued == (old(self)@.len() < N),
            old(self)@.len() <= N,
            queued ==> final(self)@ == old(self)@.push(value),
            !queued ==> final(self)@ == old(self)@,
    {
        proof {
            use_type_invariant(&*self);
        }
        if self.len == N {
            return false;
        }
        let room: usize = N - self.head;
        let index: usize = if self.len < room {
            self.head + self.len
        } else {
            self.len - room
        };
        self.buf[index] = value;
        self.len = self.len + 1;
        assert(self@ =~= old(self)@.push(value));
        true
    }

    /// Take the oldest value.
    pub fn pop(&mut self) -> (value: Option<T>)
        ensures
            old(self)@.len() == 0 ==> value is None && final(self)@ == old(self)@,
            old(self)@.len() > 0 ==> value == Some(old(self)@[0]) && final(self)@
                == old(self)@.drop_first(),
    {
        proof {
            use_type_invariant(&*self);
        }
        if self.len == 0 {
            return None;
        }
        let value = self.buf[self.head];
        self.head = if self.head == N - 1 {
            0
        } else {
            self.head + 1
        };
        self.len = self.len - 1;
        assert(self@ =~= old(self)@.drop_first());
        Some(value)
    }

    /// The oldest value, without taking it.
    pub fn peek(&self) -> (value: Option<T>)
        ensures
            value == (if self@.len() == 0 {
                None
            } else {
                Some(self@[0])
            }),
    {
        proof {
            use_type_invariant(self);
        }
        if self.len == 0 {
            None
        } else {
            Some(self.buf[self.head])
        }
    }

    /// The value at position `i`, counted from the oldest.
    pub fn at(&self, i: usize) -> (value: T)
        requires
            i < self@.len(),
        ensures
            value == self@[i as int],
    {
        proof {
            use_type_invariant(self);
        }
        self.buf[self.index_of(i)]
    }

    /// Replace the value at position `i`, counted from the oldest.
    pub fn set(&mut self, i: usize, value: T)
        requires
            i < old(self)@.len(),
        ensures
            final(self)@ == old(self)@.update(i as int, value),
    {
        proof {
            use_type_invariant(&*self);
        }
        let index: usize = self.index_of(i);
        self.buf[index] = value;
        assert(self@ =~= old(self)@.update(i as int, value));
    }

    /// Remove the value at position `i`, counted from the oldest; every
    /// later value moves one position toward the head.
    pub fn remove(&mut self, i: usize)
        requires
            i < old(self)@.len(),
        ensures
            final(self)@ == old(self)@.remove(i as int),
    {
        proof {
            use_type_invariant(&*self);
        }
        let mut k: usize = i;
        while k + 1 < self.len
            invariant
                i <= k < self.len <= N,
                self.head < N,
                self.head == old(self).head,
                self.len == old(self).len,
                forall|j: int|
                    0 <= j < self.len ==> self@[j] == if i <= j < k {
                        old(self)@[j + 1]
                    } else {
                        old(self)@[j]
                    },
            decreases self.len - k,
        {
            let from: usize = self.index_of(k + 1);
            let to: usize = self.index_of(k);
            let ghost before = *self;
            self.buf[to] = self.buf[from];
            assert(self@ =~= before@.update(k as int, before@[k + 1]));
            k = k + 1;
        }
        let ghost shifted = self@;
        self.len = self.len - 1;
        assert(self@ =~= shifted.drop_last());
        assert(self@ =~= old(self)@.remove(i as int));
    }

    /// The array slot of position `i`.
    fn index_of(&self, i: usize) -> (index: usize)
        requires
            i < self@.len(),
        ensures
            index == self.slot(i as int),
            index < N,
    {
        proof {
            use_type_invariant(self);
        }
        let room: usize = N - self.head;
        if i < room {
            self.head + i
        } else {
            i - room
        }
    }

    /// How many values are queued.
    pub fn len(&self) -> (len: usize)
        ensures
            len == self@.len(),
            len <= N,
    {
        proof {
            use_type_invariant(self);
        }
        self.len
    }

    pub fn is_full(&self) -> (full: bool)
        ensures
            full == (self@.len() >= N),
    {
        proof {
            use_type_invariant(self);
        }
        self.len == N
    }
}

} // verus!

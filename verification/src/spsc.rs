//! Bounded single-producer / single-consumer FIFO queue.
//!
//! The queue backs the serial transport: the interrupt handler sits on one
//! end and the main loop on the other. A backing array of `N` slots with one
//! read index and one write index, both wrapping modulo `N`, holds at most
//! `N - 1` live elements — index equality always means "empty", which
//! disambiguates empty from full without extra state, at the price of one
//! slot.
//!
//! The verified model here is the queue's sequential content logic: what
//! each operation does to the live elements, stated over
//! [`SpScRingbuffer::contents`]. The release/acquire index publication that
//! the two execution contexts rely on lives with the interrupt plumbing,
//! outside this crate.

use vstd::prelude::*;

verus! {

/// Returned by a write onto a full queue; the value was not stored.
#[derive(Debug)]
pub struct WriteOverrun();

/// Bounded FIFO holding up to `N - 1` elements.
pub struct SpScRingbuffer<T, const N: usize> {
    array: Vec<T>,
    read_pos: usize,
    write_pos: usize,
}

impl<T: Copy + Default, const N: usize> SpScRingbuffer<T, N> {
    /// Both indices stay inside the `N`-slot backing array.
    pub closed spec fn wf(&self) -> bool {
        &&& N >= 1
        &&& self.array@.len() == N
        &&& self.read_pos < N
        &&& self.write_pos < N
    }

    /// The live elements, oldest first: the slots from the read index up to,
    /// but excluding, the write index, wrapping at `N`.
    pub closed spec fn contents(&self) -> Seq<T> {
        if self.write_pos >= self.read_pos {
            self.array@.subrange(self.read_pos as int, self.write_pos as int)
        } else {
            self.array@.subrange(self.read_pos as int, N as int) + self.array@.subrange(
                0,
                self.write_pos as int,
            )
        }
    }

    /// Where the next read comes from.
    pub closed spec fn read_index(&self) -> int {
        self.read_pos as int
    }

    /// Where the next write goes.
    pub closed spec fn write_index(&self) -> int {
        self.write_pos as int
    }

    /// A well-formed queue never holds more than `N - 1` elements.
    pub proof fn lemma_contents_bound(&self)
        requires
            self.wf(),
        ensures
            self.contents().len() <= N - 1,
    {
    }

    /// An empty queue with default-valued slots.
    pub fn new() -> (r: SpScRingbuffer<T, N>)
        requires
            N >= 1,
        ensures
            r.wf(),
            r.contents() == Seq::<T>::empty(),
    {
        let mut array: Vec<T> = Vec::new();
        let mut i: usize = 0;
        while i < N
            invariant
                i <= N,
                array@.len() == i,
            decreases N - i,
        {
            array.push(T::default());
            i += 1;
        }
        let r = SpScRingbuffer { array, read_pos: 0, write_pos: 0 };
        proof {
            assert(r.contents() =~= Seq::<T>::empty());
        }
        r
    }

    /// Force the read index; a test hook for exercising wrapped states.
    pub fn set_read_pos(&mut self, v: usize)
        requires
            old(self).wf(),
            v < N,
        ensures
            final(self).wf(),
            final(self).read_index() == v,
            final(self).write_index() == old(self).write_index(),
    {
        self.read_pos = v;
    }

    /// Force the write index; a test hook for exercising wrapped states.
    pub fn set_write_pos(&mut self, v: usize)
        requires
            old(self).wf(),
            v < N,
        ensures
            final(self).wf(),
            final(self).write_index() == v,
            final(self).read_index() == old(self).read_index(),
    {
        self.write_pos = v;
    }

    /// True when the queue holds no elements.
    pub fn is_empty(&self) -> (r: bool)
        requires
            self.wf(),
        ensures
            r == (self.contents().len() == 0),
    {
        self.read_pos == self.write_pos
    }

    /// True when the queue holds `N - 1` elements and a write would fail.
    pub fn is_full(&self) -> (r: bool)
        requires
            self.wf(),
        ensures
            r == (self.contents().len() == N - 1),
    {
        let next = if self.write_pos + 1 == N {
            0
        } else {
            self.write_pos + 1
        };
        next == self.read_pos
    }

    /// How many elements a reader can take before the queue runs empty.
    pub fn read_available(&self) -> (r: usize)
        requires
            self.wf(),
        ensures
            r == self.contents().len(),
    {
        if self.write_pos >= self.read_pos {
            self.write_pos - self.read_pos
        } else {
            (N - self.read_pos) + self.write_pos
        }
    }

    /// How many elements a writer can add before the queue runs full.
    pub fn write_available(&self) -> (r: usize)
        requires
            self.wf(),
        ensures
            r == N - 1 - self.contents().len(),
    {
        if self.write_pos >= self.read_pos {
            (N - 1 - self.write_pos) + self.read_pos
        } else {
            self.read_pos - self.write_pos - 1
        }
    }

    /// Take the oldest element, or `None` when the queue is empty.
    pub fn read_value(&mut self) -> (r: Option<T>)
        requires
            old(self).wf(),
        ensures
            final(self).wf(),
            old(self).contents().len() == 0 ==> r is None && *final(self) == *old(self),
            old(self).contents().len() > 0 ==> {
                &&& r == Some(old(self).contents()[0])
                &&& final(self).contents() == old(self).contents().subrange(
                    1,
                    old(self).contents().len() as int,
                )
            },
    {
        if self.read_pos == self.write_pos {
            return None;
        }
        let v = self.array[self.read_pos];
        self.read_pos = if self.read_pos + 1 == N {
            0
        } else {
            self.read_pos + 1
        };
        proof {
            assert(final(self).contents() =~= old(self).contents().subrange(
                1,
                old(self).contents().len() as int,
            ));
        }
        Some(v)
    }

    /// Look at the oldest element without taking it. The transport uses this
    /// to attempt a hardware write and only consume on confirmed success.
    pub fn peek_value(&self) -> (r: Option<&T>)
        requires
            self.wf(),
        ensures
            match r {
                Some(v) => self.contents().len() > 0 && *v == self.contents()[0],
                None => self.contents().len() == 0,
            },
    {
        if self.read_pos == self.write_pos {
            return None;
        }
        Some(&self.array[self.read_pos])
    }

    /// Append an element. Fails — without storing or overwriting anything —
    /// exactly when the queue already holds `N - 1` elements.
    pub fn write_value(&mut self, value: T) -> (r: Result<(), WriteOverrun>)
        requires
            old(self).wf(),
        ensures
            final(self).wf(),
            r is Err <==> old(self).contents().len() == N - 1,
            r is Err ==> *final(self) == *old(self),
            r is Ok ==> final(self).contents() == old(self).contents().push(value),
    {
        let next = if self.write_pos + 1 == N {
            0
        } else {
            self.write_pos + 1
        };
        if next == self.read_pos {
            return Err(WriteOverrun());
        }
        self.array[self.write_pos] = value;
        self.write_pos = next;
        proof {
            assert(final(self).contents() =~= old(self).contents().push(value));
        }
        Ok(())
    }
}

/// The reader and writer counters always account for every slot: what can
/// still be read plus what can still be written is `N - 1`, the queue's
/// capacity, in every well-formed state.
pub proof fn lemma_available_sum<T: Copy + Default, const N: usize>(q: SpScRingbuffer<T, N>)
    requires
        q.wf(),
    ensures
        q.contents().len() + (N - 1 - q.contents().len()) == N - 1,
        q.contents().len() <= N - 1,
{
    q.lemma_contents_bound();
}

/// Values come out in the order they went in: writes append to the back of
/// [`SpScRingbuffer::contents`] and reads take the front, so after `k` reads
/// the next value out of a queue whose contents were `s` is `s[k]`.
pub proof fn lemma_fifo_order<T>(s: Seq<T>, k: int)
    requires
        0 <= k < s.len(),
    ensures
        s.subrange(k, s.len() as int).len() == s.len() - k,
        s.subrange(k, s.len() as int)[0] == s[k],
        s.subrange(k, s.len() as int).subrange(1, s.len() - k) == s.subrange(
            k + 1,
            s.len() as int,
        ),
{
    assert(s.subrange(k, s.len() as int).subrange(1, s.len() - k) =~= s.subrange(
        k + 1,
        s.len() as int,
    ));
}

} // verus!

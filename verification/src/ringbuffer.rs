//! Slice-oriented bounded ring buffer.
//!
//! Like [`crate::spsc`] this is a wrapping buffer of `N` slots holding at
//! most `N - 1` elements, but it is meant for one owner moving data in bulk:
//! besides per-value reads and writes it exposes the longest contiguous
//! writable and readable regions as mutable slices, with separate index
//! advancing, so a caller can let a peripheral fill or drain a region
//! directly.

use vstd::prelude::*;

verus! {

/// Returned by a write or an advance past the writable region; nothing was
/// stored or advanced.
#[derive(Debug)]
pub struct WriteOverrun();

/// Returned by an advance past the readable region; nothing was advanced.
#[derive(Debug)]
pub struct ReadOverrun();

/// Bounded wrapping buffer of `N` slots holding up to `N - 1` elements.
pub struct RingBuffer<T: Copy + Default, const N: usize> {
    array: Vec<T>,
    read_pos: usize,
    write_pos: usize,
}

impl<T: Copy + Default, const N: usize> RingBuffer<T, N> {
    /// Both indices stay inside the `N`-slot backing array.
    pub closed spec fn wf(&self) -> bool {
        &&& N >= 1
        &&& self.array@.len() == N
        &&& self.read_pos < N
        &&& self.write_pos < N
    }

    /// The backing array as a sequence.
    pub closed spec fn array_view(&self) -> Seq<T> {
        self.array@
    }

    /// Where the next read comes from.
    pub closed spec fn read_index(&self) -> int {
        self.read_pos as int
    }

    /// Where the next write goes.
    pub closed spec fn write_index(&self) -> int {
        self.write_pos as int
    }

    /// The live elements, oldest first.
    pub open spec fn contents(&self) -> Seq<T> {
        if self.write_index() >= self.read_index() {
            self.array_view().subrange(self.read_index(), self.write_index())
        } else {
            self.array_view().subrange(self.read_index(), N as int) + self.array_view().subrange(
                0,
                self.write_index(),
            )
        }
    }

    /// End of the contiguous writable region that starts at the write index.
    pub open spec fn write_region_end(&self) -> int {
        if self.write_index() < self.read_index() {
            self.read_index() - 1
        } else if self.read_index() == 0 {
            N - 1
        } else {
            N as int
        }
    }

    /// End of the contiguous readable region that starts at the read index.
    pub open spec fn read_region_end(&self) -> int {
        if self.write_index() < self.read_index() {
            N as int
        } else {
            self.write_index()
        }
    }

    /// An empty buffer with default-valued slots and both indices at zero.
    pub fn new() -> (r: RingBuffer<T, N>)
        requires
            N >= 1,
        ensures
            r.wf(),
            r.contents() == Seq::<T>::empty(),
            r.read_index() == 0,
            r.write_index() == 0,
    {
        let mut array: Vec<T> = Vec::new();
        let mut i: usize = 0;
        while i < N
            invariant
                i <= N,
                array@.len() == i,
            decreases N - i,
        {
            array.push(T::default());
            i += 1;
        }
        let r = RingBuffer { array, read_pos: 0, write_pos: 0 };
        proof {
            assert(r.contents() =~= Seq::<T>::empty());
        }
        r
    }

    /// Force the read index; a test hook for exercising wrapped states.
    pub fn set_read_pos(&mut self, v: usize)
        requires
            old(self).wf(),
            v < N,
        ensures
            final(self).wf(),
            final(self).read_index() == v,
            final(self).write_index() == old(self).write_index(),
            final(self).array_view() == old(self).array_view(),
    {
        self.read_pos = v;
    }

    /// Force the write index; a test hook for exercising wrapped states.
    pub fn set_write_pos(&mut self, v: usize)
        requires
            old(self).wf(),
            v < N,
        ensures
            final(self).wf(),
            final(self).write_index() == v,
            final(self).read_index() == old(self).read_index(),
            final(self).array_view() == old(self).array_view(),
    {
        self.write_pos = v;
    }

    /// The whole backing array, including slots not currently live.
    pub fn array(&self) -> (r: &[T])
        requires
            self.wf(),
        ensures
            r@ == self.array_view(),
    {
        self.array.as_slice()
    }

    /// The current read index.
    pub fn read_pos(&self) -> (r: usize)
        ensures
            r == self.read_index(),
    {
        self.read_pos
    }

    /// The current write index.
    pub fn write_pos(&self) -> (r: usize)
        ensures
            r == self.write_index(),
    {
        self.write_pos
    }

    /// How many elements can still be written before the buffer is full,
    /// counting past the wrap.
    pub fn write_available(&self) -> (r: usize)
        requires
            self.wf(),
        ensures
            r == N - 1 - self.contents().len(),
    {
        if self.write_pos < self.read_pos {
            self.read_pos - self.write_pos - 1
        } else if self.read_pos == 0 {
            N - 1 - self.write_pos
        } else {
            (N - self.write_pos) + self.read_pos - 1
        }
    }

    /// The longest contiguous writable region, starting at the write index.
    /// Writing through the slice does not make the data live; that takes
    /// [`RingBuffer::write_advance`].
    pub fn write_slice_mut(&mut self) -> (ret: &mut [T])
        requires
            old(self).wf(),
        ensures
            ret@ == old(self).array_view().subrange(
                old(self).write_index(),
                old(self).write_region_end(),
            ),
            final(self).read_index() == old(self).read_index(),
            final(self).write_index() == old(self).write_index(),
            final(self).array_view() == old(self).array_view().subrange(
                0,
                old(self).write_index(),
            ) + final(ret)@ + old(self).array_view().subrange(
                old(self).write_region_end(),
                N as int,
            ),
            final(ret)@.len() == ret@.len() ==> final(self).wf(),
    {
        let start = self.write_pos;
        let end = if self.write_pos < self.read_pos {
            self.read_pos - 1
        } else if self.read_pos == 0 {
            N - 1
        } else {
            N
        };
        let s = self.array.as_mut_slice();
        let (_, tail) = s.split_at_mut(start);
        let (region, _) = tail.split_at_mut(end - start);
        region
    }

    /// Make `count` already-written slots live. Fails — changing nothing —
    /// exactly when `count` exceeds what [`RingBuffer::write_available`]
    /// reports.
    pub fn write_advance(&mut self, count: usize) -> (r: Result<(), WriteOverrun>)
        requires
            old(self).wf(),
        ensures
            final(self).wf(),
            r is Err <==> count > N - 1 - old(self).contents().len(),
            r is Err ==> *final(self) == *old(self),
            r is Ok ==> {
                &&& final(self).array_view() == old(self).array_view()
                &&& final(self).read_index() == old(self).read_index()
                &&& final(self).contents().len() == old(self).contents().len() + count
                &&& final(self).contents().subrange(0, old(self).contents().len() as int) == old(
                    self,
                ).contents()
            },
    {
        let available = self.write_available();
        if count > available {
            return Err(WriteOverrun());
        }
        self.write_pos = if count >= N - self.write_pos {
            count - (N - self.write_pos)
        } else {
            self.write_pos + count
        };
        proof {
            assert(final(self).contents().subrange(0, old(self).contents().len() as int) =~= old(
                self,
            ).contents());
        }
        Ok(())
    }

    /// Append one element. Fails — without storing or overwriting anything —
    /// exactly when the buffer already holds `N - 1` elements.
    pub fn write_value(&mut self, value: T) -> (r: Result<(), WriteOverrun>)
        requires
            old(self).wf(),
        ensures
            final(self).wf(),
            r is Err <==> old(self).contents().len() == N - 1,
            r is Err ==> *final(self) == *old(self),
            r is Ok ==> final(self).contents() == old(self).contents().push(value),
    {
        let available = self.write_available();
        if available == 0 {
            return Err(WriteOverrun());
        }
        self.array[self.write_pos] = value;
        self.write_pos = if self.write_pos + 1 == N {
            0
        } else {
            self.write_pos + 1
        };
        proof {
            assert(final(self).contents() =~= old(self).contents().push(value));
        }
        Ok(())
    }

    /// How many elements can still be read, counting past the wrap.
    pub fn read_available(&self) -> (r: usize)
        requires
            self.wf(),
        ensures
            r == self.contents().len(),
    {
        if self.write_pos < self.read_pos {
            (N - self.read_pos) + self.write_pos
        } else {
            self.write_pos - self.read_pos
        }
    }

    /// Take the oldest element, or `None` when the buffer is empty.
    pub fn read_value(&mut self) -> (r: Option<T>)
        requires
            old(self).wf(),
        ensures
            final(self).wf(),
            old(self).contents().len() == 0 ==> r is None && *final(self) == *old(self),
            old(self).contents().len() > 0 ==> {
                &&& r == Some(old(self).contents()[0])
                &&& final(self).contents() == old(self).contents().subrange(
                    1,
                    old(self).contents().len() as int,
                )
                &&& final(self).array_view() == old(self).array_view()
            },
    {
        if self.read_pos == self.write_pos {
            return None;
        }
        let v = self.array[self.read_pos];
        self.read_pos = if self.read_pos + 1 == N {
            0
        } else {
            self.read_pos + 1
        };
        proof {
            assert(final(self).contents() =~= old(self).contents().subrange(
                1,
                old(self).contents().len() as int,
            ));
        }
        Some(v)
    }

    /// The longest contiguous readable region, starting at the read index.
    /// Reading through the slice does not consume the data; that takes
    /// [`RingBuffer::read_advance`].
    pub fn read_slice_mut(&mut self) -> (ret: &mut [T])
        requires
            old(self).wf(),
        ensures
            ret@ == old(self).array_view().subrange(
                old(self).read_index(),
                old(self).read_region_end(),
            ),
            final(self).read_index() == old(self).read_index(),
            final(self).write_index() == old(self).write_index(),
            final(self).array_view() == old(self).array_view().subrange(
                0,
                old(self).read_index(),
            ) + final(ret)@ + old(self).array_view().subrange(
                old(self).read_region_end(),
                N as int,
            ),
            final(ret)@.len() == ret@.len() ==> final(self).wf(),
    {
        let start = self.read_pos;
        let end = if self.write_pos < self.read_pos {
            N
        } else {
            self.write_pos
        };
        let s = self.array.as_mut_slice();
        let (_, tail) = s.split_at_mut(start);
        let (region, _) = tail.split_at_mut(end - start);
        region
    }

    /// Consume `count` elements without looking at them. Fails — changing
    /// nothing — exactly when `count` exceeds what
    /// [`RingBuffer::read_available`] reports.
    pub fn read_advance(&mut self, count: usize) -> (r: Result<(), ReadOverrun>)
        requires
            old(self).wf(),
        ensures
            final(self).wf(),
            r is Err <==> count > old(self).contents().len(),
            r is Err ==> *final(self) == *old(self),
            r is Ok ==> {
                &&& final(self).array_view() == old(self).array_view()
                &&& final(self).write_index() == old(self).write_index()
                &&& final(self).contents() == old(self).contents().subrange(
                    count as int,
                    old(self).contents().len() as int,
                )
            },
    {
        let available = self.read_available();
        if count > available {
            return Err(ReadOverrun());
        }
        self.read_pos = if count >= N - self.read_pos {
            count - (N - self.read_pos)
        } else {
            self.read_pos + count
        };
        proof {
            assert(final(self).contents() =~= old(self).contents().subrange(
                count as int,
                old(self).contents().len() as int,
            ));
        }
        Ok(())
    }
}

} // verus!

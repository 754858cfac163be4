//! A small string buffer of fixed capacity.
//!
//! Debug output on the device cannot allocate, so text is formatted into
//! this fixed-capacity byte buffer instead.

use vstd::prelude::*;
use vstd::string::StringSliceAdditionalSpecFns;

verus! {

/// A byte buffer of capacity [`StackString::STACK_STRING_SIZE`] and the
/// length of its used prefix.
pub struct StackString {
    buffer: Vec<u8>,
    size: usize,
}

impl StackString {
    /// The buffer's capacity in bytes.
    pub const STACK_STRING_SIZE: usize = 64;

    /// The buffer always spans the full capacity; the used prefix fits.
    pub closed spec fn wf(&self) -> bool {
        self.buffer@.len() == 64 && self.size <= 64
    }

    /// The bytes written so far.
    pub closed spec fn spec_data(&self) -> Seq<u8> {
        self.buffer@.subrange(0, self.size as int)
    }

    /// How many bytes are used.
    pub fn len(&self) -> (r: usize)
        requires
            self.wf(),
        ensures
            r == self.spec_data().len(),
    {
        self.size
    }

    /// The bytes written so far.
    pub fn data(&self) -> (r: &[u8])
        requires
            self.wf(),
        ensures
            r@ == self.spec_data(),
    {
        &self.buffer.as_slice()[0..self.size]
    }

    /// Append as much of `s` as fits. Reports failure once the buffer has
    /// filled up; what fit stays written.
    pub fn write_str(&mut self, s: &str) -> (ok: bool)
        requires
            old(self).wf(),
        ensures
            final(self).wf(),
            ({
                let k = if s.spec_bytes().len() <= 64 - old(self).spec_data().len() {
                    s.spec_bytes().len() as int
                } else {
                    64 - old(self).spec_data().len()
                };
                &&& final(self).spec_data() == old(self).spec_data() + s.spec_bytes().subrange(
                    0,
                    k,
                )
                &&& ok == (old(self).spec_data().len() + k < 64)
            }),
    {
        let bytes = s.as_bytes();
        let limit = if bytes.len() <= 64 - self.size {
            bytes.len()
        } else {
            64 - self.size
        };
        let mut i: usize = 0;
        while i < limit
            invariant
                i <= limit,
                old(self).size + limit <= 64,
                limit <= bytes@.len(),
                bytes@ == s.spec_bytes(),
                self.buffer@.len() == 64,
                self.size == old(self).size + i,
                self.buffer@.subrange(0, old(self).size as int) == old(self).spec_data(),
                self.buffer@.subrange(old(self).size as int, self.size as int) == bytes@.subrange(
                    0,
                    i as int,
                ),
            decreases limit - i,
        {
            self.buffer[self.size] = bytes[i];
            self.size += 1;
            proof {
                assert(self.buffer@.subrange(0, old(self).size as int) =~= old(self).spec_data());
                assert(self.buffer@.subrange(old(self).size as int, self.size as int)
                    =~= bytes@.subrange(0, i + 1));
            }
            i += 1;
        }
        proof {
            assert(self.spec_data() =~= old(self).spec_data() + s.spec_bytes().subrange(
                0,
                limit as int,
            ));
        }
        self.size != 64
    }
}

impl Default for StackString {
    /// An empty buffer.
    fn default() -> (r: StackString)
        ensures
            r.wf(),
            r.spec_data() == Seq::<u8>::empty(),
    {
        let mut buffer: Vec<u8> = Vec::new();
        let mut i: usize = 0;
        while i < 64
            invariant
                i <= 64,
                buffer@.len() == i,
            decreases 64 - i,
        {
            buffer.push(0);
            i += 1;
        }
        let r = StackString { buffer, size: 0 };
        proof {
            assert(r.spec_data() =~= Seq::<u8>::empty());
        }
        r
    }
}

} // verus!

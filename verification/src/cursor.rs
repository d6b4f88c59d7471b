//! A read position in a byte slice.
use vstd::prelude::*;
use vstd::slice::slice_subrange;

verus! {

/// A byte slice together with a read position. Its view is the sequence of
/// bytes that have not been read yet.
#[derive(Clone, Copy)]
pub struct ByteCursor<'a> {
    bytes: &'a [u8],
    pos: usize,
}

impl<'a> View for ByteCursor<'a> {
    type V = Seq<u8>;

    closed spec fn view(&self) -> Seq<u8> {
        if self.pos <= self.bytes@.len() {
            self.bytes@.skip(self.pos as int)
        } else {
            Seq::empty()
        }
    }
}

impl<'a> ByteCursor<'a> {
    /// A cursor at the start of `bytes`.
    pub fn new(bytes: &'a [u8]) -> (c: Self)
        ensures
            c@ == bytes@,
    {
        ByteCursor { bytes, pos: 0 }
    }

    /// The number of bytes not read yet.
    pub fn remaining(&self) -> (n: usize)
        ensures
            n == self@.len(),
    {
        if self.pos <= self.bytes.len() {
            self.bytes.len() - self.pos
        } else {
            0
        }
    }

    /// Reads one byte, if there is one.
    pub fn next(&mut self) -> (r: Option<u8>)
        ensures
            match r {
                Some(b) => old(self)@.len() > 0 && b == old(self)@[0] && final(self)@ == old(
                    self,
                )@.skip(1),
                None => old(self)@.len() == 0 && *final(self) == *old(self),
            },
    {
        if self.pos < self.bytes.len() {
            let b: u8 = self.bytes[self.pos];
            self.pos = self.pos + 1;
            Some(b)
        } else {
            None
        }
    }

    /// Reads `n` bytes at once. With fewer than `n` bytes left nothing is
    /// read and the cursor stays where it is.
    pub fn take(&mut self, n: usize) -> (r: Option<&'a [u8]>)
        ensures
            match r {
                Some(front) => n <= old(self)@.len() && front@ == old(self)@.take(n as int)
                    && final(self)@ == old(self)@.skip(n as int),
                None => n > old(self)@.len() && *final(self) == *old(self),
            },
    {
        let len: usize = self.bytes.len();
        let start: usize = if self.pos <= len {
            self.pos
        } else {
            len
        };
        if n <= len - start {
            let front = slice_subrange(self.bytes, start, start + n);
            self.pos = start + n;
            proof {
                assert(front@ =~= old(self)@.take(n as int));
                assert(self@ =~= old(self)@.skip(n as int));
            }
            Some(front)
        } else {
            None
        }
    }
}

} // verus!

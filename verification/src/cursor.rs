//! A position-tracking reader over a shared byte buffer, so that several
//! fields can be decoded from one buffer in sequence without re-slicing it.

use vstd::prelude::*;

verus! {

/// A read cursor: an immutable borrowed byte buffer and a mutable offset
/// into it. Decoding advances the offset; the bytes themselves are never
/// copied or changed.
pub struct Cursor<'a> {
    data: &'a [u8],
    offset: usize,
}

impl<'a> Cursor<'a> {
    /// The bytes the cursor reads from.
    pub closed spec fn buf(self) -> Seq<u8> {
        self.data@
    }

    /// The current read position.
    pub closed spec fn pos(self) -> int {
        self.offset as int
    }

    /// A cursor over `data`, positioned at its first byte.
    pub fn new(data: &'a [u8]) -> (c: Cursor<'a>)
        ensures
            c.buf() == data@,
            c.pos() == 0,
    {
        Cursor { data, offset: 0 }
    }

    /// The backing buffer itself.
    pub fn buffer(&self) -> (b: &'a [u8])
        ensures
            b@ == self.buf(),
    {
        self.data
    }

    /// The current read position.
    pub fn position(&self) -> (p: usize)
        ensures
            p == self.pos(),
    {
        self.offset
    }

    /// Moves the read position to `p`. The position may lie past the end of
    /// the buffer; every read from there fails.
    pub fn set_position(&mut self, p: usize)
        ensures
            final(self).buf() == old(self).buf(),
            final(self).pos() == p,
    {
        self.offset = p;
    }
}

} // verus!

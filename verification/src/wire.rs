//! Low-level wire primitives: a forward-only byte cursor with big-endian
//! unsigned reads, and the error raised when a read runs past the end of
//! the input.

use vstd::prelude::*;
use vstd::slice::slice_to_vec;

verus! {

/// Error raised by the wire primitives.
#[derive(PartialEq, Eq, Debug, Clone, Copy, Structural)]
pub enum WireError {
    /// A read ran past the end of the available input.
    IO,
}

/// The value of two bytes interpreted as a big-endian unsigned integer.
pub open spec fn be16(hi: u8, lo: u8) -> u16 {
    (hi * 256 + lo) as u16
}

/// A forward-only read position over an in-memory byte buffer.
///
/// Reads are atomic: a read either returns a complete value and advances
/// the position by the value's width, or fails with [`WireError::IO`] and
/// leaves the position where it was.
pub struct Cursor {
    data: Vec<u8>,
    pos: usize,
}

impl View for Cursor {
    type V = Seq<u8>;

    /// The whole underlying buffer, consumed or not.
    closed spec fn view(&self) -> Seq<u8> {
        self.data@
    }
}

impl Cursor {
    /// The current read position within the buffer.
    pub closed spec fn spec_pos(&self) -> int {
        self.pos as int
    }

    /// The read position never passes the end of the buffer.
    pub open spec fn wf(&self) -> bool {
        0 <= self.spec_pos() <= self@.len()
    }

    /// The bytes not yet consumed, in order.
    pub open spec fn remaining(&self) -> Seq<u8> {
        self@.subrange(self.spec_pos(), self@.len() as int)
    }

    /// A cursor positioned at the first byte of `bytes`.
    pub fn new(bytes: &[u8]) -> (c: Cursor)
        ensures
            c@ == bytes@,
            c.spec_pos() == 0,
            c.wf(),
    {
        Cursor { data: slice_to_vec(bytes), pos: 0 }
    }

    /// Reads one byte, or fails without moving if none remain.
    pub fn read_u8(&mut self) -> (r: Result<u8, WireError>)
        requires
            old(self).wf(),
        ensures
            final(self).wf(),
            final(self)@ == old(self)@,
            old(self).remaining().len() >= 1 ==> (
                r == Ok::<u8, WireError>(old(self).remaining()[0])
                && final(self).spec_pos() == old(self).spec_pos() + 1
            ),
            old(self).remaining().len() == 0 ==> (
                r == Err::<u8, WireError>(WireError::IO)
                && final(self).spec_pos() == old(self).spec_pos()
            ),
    {
        if self.data.len() - self.pos >= 1 {
            let b = self.data[self.pos];
            self.pos = self.pos + 1;
            Ok(b)
        } else {
            Err(WireError::IO)
        }
    }

    /// Reads a big-endian 16-bit integer, or fails without moving if
    /// fewer than two bytes remain.
    pub fn read_u16_be(&mut self) -> (r: Result<u16, WireError>)
        requires
            old(self).wf(),
        ensures
            final(self).wf(),
            final(self)@ == old(self)@,
            old(self).remaining().len() >= 2 ==> (
                r == Ok::<u16, WireError>(be16(old(self).remaining()[0], old(self).remaining()[1]))
                && final(self).spec_pos() == old(self).spec_pos() + 2
            ),
            old(self).remaining().len() < 2 ==> (
                r == Err::<u16, WireError>(WireError::IO)
                && final(self).spec_pos() == old(self).spec_pos()
            ),
    {
        if self.data.len() - self.pos >= 2 {
            let hi = self.data[self.pos];
            let lo = self.data[self.pos + 1];
            self.pos = self.pos + 2;
            Ok((hi as u16) * 256 + (lo as u16))
        } else {
            Err(WireError::IO)
        }
    }
}

} // verus!

//! A read cursor over a borrowed byte slice.

use vstd::prelude::*;
use vstd::slice::slice_subrange;
use crate::big_endian::{u16_from_be, u24_from_be, u32_from_be};

verus! {

/// Why a read from a [`ParseBuffer`] failed.
#[derive(Debug, Clone, Copy, PartialEq, Eq, Structural)]
pub enum ParseError {
    /// The read would cross the end of the buffer.
    InsufficientSpace,
    /// The bytes are there but do not spell a value of the type asked for.
    InvalidData,
}

/// A cursor over a borrowed byte slice. Reads advance the position; the
/// slice itself is never changed.
pub struct ParseBuffer<'b> {
    pos: usize,
    buffer: &'b [u8],
}

impl<'b> ParseBuffer<'b> {
    /// The position is inside the buffer.
    #[verifier::type_invariant]
    spec fn inv(self) -> bool {
        self.pos <= self.buffer@.len()
    }

    /// All the bytes under the cursor, read or not.
    pub closed spec fn bytes(self) -> Seq<u8> {
        self.buffer@
    }

    /// How many bytes have been read.
    pub closed spec fn position(self) -> nat {
        self.pos as nat
    }

    /// Position and bytes fit together: the position is inside the buffer.
    pub open spec fn wf(self) -> bool {
        self.position() <= self.bytes().len()
    }

    /// The bytes that have not been read yet.
    pub open spec fn unread(self) -> Seq<u8> {
        self.bytes().skip(self.position() as int)
    }

    /// A cursor at the start of `buffer`.
    pub fn new(buffer: &'b [u8]) -> (r: Self)
        ensures
            r.bytes() == buffer@,
            r.position() == 0,
    {
        ParseBuffer { pos: 0, buffer }
    }

    /// Whether every byte has been read.
    pub fn is_empty(&self) -> (r: bool)
        ensures
            r == (self.unread().len() == 0),
            self.wf(),
    {
        proof {
            use_type_invariant(self);
        }
        self.pos == self.buffer.len()
    }

    /// The number of bytes not yet read.
    pub fn remaining(&self) -> (r: usize)
        ensures
            r == self.unread().len(),
            self.wf(),
    {
        proof {
            use_type_invariant(self);
        }
        self.buffer.len() - self.pos
    }

    /// The number of bytes read so far.
    pub fn offset(&self) -> (r: usize)
        ensures
            r == self.position(),
            self.wf(),
    {
        proof {
            use_type_invariant(self);
        }
        self.pos
    }

    /// The whole underlying slice, from its first byte, whatever has been read.
    pub fn as_slice(&self) -> (r: &'b [u8])
        ensures
            r@ == self.bytes(),
    {
        self.buffer
    }

    /// Splits off the next `len` bytes as a cursor of their own and moves past
    /// them. Fails, without moving, when fewer than `len` bytes are left.
    pub fn slice(&mut self, len: usize) -> (r: Result<ParseBuffer<'b>, ParseError>)
        ensures
            final(self).bytes() == old(self).bytes(),
            final(self).wf(),
            old(self).wf(),
            match r {
                Ok(sub) => {
                    &&& len <= old(self).unread().len()
                    &&& sub.bytes() == old(self).unread().take(len as int)
                    &&& sub.position() == 0
                    &&& final(self).position() == old(self).position() + len
                },
                Err(e) => {
                    &&& len > old(self).unread().len()
                    &&& e == ParseError::InsufficientSpace
                    &&& final(self).position() == old(self).position()
                },
            },
    {
        proof {
            use_type_invariant(&*self);
        }
        if len <= self.buffer.len() - self.pos {
            let sub = slice_subrange(self.buffer, self.pos, self.pos + len);
            assert(sub@ =~= self.unread().take(len as int));
            self.pos = self.pos + len;
            Ok(ParseBuffer { pos: 0, buffer: sub })
        } else {
            Err(ParseError::InsufficientSpace)
        }
    }

    /// Reads one byte.
    pub fn read_u8(&mut self) -> (r: Result<u8, ParseError>)
        ensures
            final(self).bytes() == old(self).bytes(),
            final(self).wf(),
            old(self).wf(),
            match r {
                Ok(v) => {
                    &&& old(self).unread().len() >= 1
                    &&& v == old(self).unread()[0]
                    &&& final(self).position() == old(self).position() + 1
                },
                Err(e) => {
                    &&& old(self).unread().len() < 1
                    &&& e == ParseError::InsufficientSpace
                    &&& final(self).position() == old(self).position()
                },
            },
    {
        proof {
            use_type_invariant(&*self);
        }
        if self.pos < self.buffer.len() {
            let v = self.buffer[self.pos];
            self.pos = self.pos + 1;
            Ok(v)
        } else {
            Err(ParseError::InsufficientSpace)
        }
    }

    /// Reads a big-endian 16-bit integer.
    pub fn read_u16(&mut self) -> (r: Result<u16, ParseError>)
        ensures
            final(self).bytes() == old(self).bytes(),
            final(self).wf(),
            old(self).wf(),
            match r {
                Ok(v) => {
                    &&& old(self).unread().len() >= 2
                    &&& v == u16_from_be(old(self).unread())
                    &&& final(self).position() == old(self).position() + 2
                },
                Err(e) => {
                    &&& old(self).unread().len() < 2
                    &&& e == ParseError::InsufficientSpace
                    &&& final(self).position() == old(self).position()
                },
            },
    {
        proof {
            use_type_invariant(&*self);
        }
        if 2 <= self.buffer.len() - self.pos {
            let hi = self.buffer[self.pos] as u16;
            let lo = self.buffer[self.pos + 1] as u16;
            self.pos = self.pos + 2;
            Ok(hi * 256 + lo)
        } else {
            Err(ParseError::InsufficientSpace)
        }
    }

    /// Reads a big-endian 24-bit integer.
    pub fn read_u24(&mut self) -> (r: Result<u32, ParseError>)
        ensures
            final(self).bytes() == old(self).bytes(),
            final(self).wf(),
            old(self).wf(),
            match r {
                Ok(v) => {
                    &&& old(self).unread().len() >= 3
                    &&& v == u24_from_be(old(self).unread())
                    &&& final(self).position() == old(self).position() + 3
                },
                Err(e) => {
                    &&& old(self).unread().len() < 3
                    &&& e == ParseError::InsufficientSpace
                    &&& final(self).position() == old(self).position()
                },
            },
    {
        proof {
            use_type_invariant(&*self);
        }
        if 3 <= self.buffer.len() - self.pos {
            let a = self.buffer[self.pos] as u32;
            let b = self.buffer[self.pos + 1] as u32;
            let c = self.buffer[self.pos + 2] as u32;
            self.pos = self.pos + 3;
            Ok(a * 65536 + b * 256 + c)
        } else {
            Err(ParseError::InsufficientSpace)
        }
    }

    /// Reads a big-endian 32-bit integer.
    pub fn read_u32(&mut self) -> (r: Result<u32, ParseError>)
        ensures
            final(self).bytes() == old(self).bytes(),
            final(self).wf(),
            old(self).wf(),
            match r {
                Ok(v) => {
                    &&& old(self).unread().len() >= 4
                    &&& v == u32_from_be(old(self).unread())
                    &&& final(self).position() == old(self).position() + 4
                },
                Err(e) => {
                    &&& old(self).unread().len() < 4
                    &&& e == ParseError::InsufficientSpace
                    &&& final(self).position() == old(self).position()
                },
            },
    {
        proof {
            use_type_invariant(&*self);
        }
        if 4 <= self.buffer.len() - self.pos {
            let a = self.buffer[self.pos] as u32;
            let b = self.buffer[self.pos + 1] as u32;
            let c = self.buffer[self.pos + 2] as u32;
            let d = self.buffer[self.pos + 3] as u32;
            self.pos = self.pos + 4;
            Ok(a * 16777216 + b * 65536 + c * 256 + d)
        } else {
            Err(ParseError::InsufficientSpace)
        }
    }

    /// Copies the next `dest.len()` bytes into `dest` and moves past them.
    /// Fails, leaving `dest` and the position as they were, when fewer bytes
    /// are left.
    pub fn fill(&mut self, dest: &mut [u8]) -> (r: Result<(), ParseError>)
        ensures
            final(self).bytes() == old(self).bytes(),
            final(self).wf(),
            old(self).wf(),
            final(dest)@.len() == old(dest)@.len(),
            match r {
                Ok(_) => {
                    &&& old(dest)@.len() <= old(self).unread().len()
                    &&& final(dest)@ == old(self).unread().take(old(dest)@.len() as int)
                    &&& final(self).position() == old(self).position() + old(dest)@.len()
                },
                Err(e) => {
                    &&& old(dest)@.len() > old(self).unread().len()
                    &&& e == ParseError::InsufficientSpace
                    &&& final(dest)@ == old(dest)@
                    &&& final(self).position() == old(self).position()
                },
            },
    {
        proof {
            use_type_invariant(&*self);
        }
        let n = dest.len();
        if n <= self.buffer.len() - self.pos {
            let mut i: usize = 0;
            while i < n
                invariant
                    i <= n,
                    n == dest@.len(),
                    self.pos + n <= self.buffer.len(),
                    self.pos == old(self).pos,
                    self.buffer == old(self).buffer,
                    forall|k: int| 0 <= k < i ==> dest@[k] == self.buffer@[self.pos + k],
                decreases n - i,
            {
                dest[i] = self.buffer[self.pos + i];
                i = i + 1;
            }
            assert(dest@ =~= old(self).unread().take(n as int));
            self.pos = self.pos + n;
            Ok(())
        } else {
            Err(ParseError::InsufficientSpace)
        }
    }
}

} // verus!

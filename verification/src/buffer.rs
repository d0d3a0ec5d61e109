//! A write cursor over a caller-owned byte slice, with length-prefixed regions.

use vstd::prelude::*;
use vstd::slice::slice_subrange;
use crate::TlsError;
use crate::big_endian::{u16_to_be, u24_to_be, u32_to_be};
use crate::parse_encode::Encode;

verus! {

/// A cursor that appends to a caller-owned slice. What has been written is
/// the buffer's view. Inside a length-prefixed region the buffer begins
/// behind the length prefix: the body of the region sees an empty buffer
/// that has the room that is left, and what was written before the region
/// is out of its reach.
pub struct CryptoBuffer<'b> {
    bytes: &'b mut [u8],
    start: usize,
    pos: usize,
}

impl<'b> View for CryptoBuffer<'b> {
    type V = Seq<u8>;

    /// The bytes written so far.
    closed spec fn view(&self) -> Seq<u8> {
        self.bytes@.subrange(self.start as int, self.pos as int)
    }
}

/// The `width` bytes that spell the length `n`, most significant first, for
/// a width of one, two or three.
pub open spec fn length_prefix(n: nat, width: nat) -> Seq<u8> {
    if width == 1 {
        seq![n as u8]
    } else if width == 2 {
        u16_to_be(n as u16)
    } else {
        u24_to_be(n as u32)
    }
}

/// One more than the largest length that a prefix of `width` bytes can spell.
pub open spec fn prefix_limit(width: nat) -> nat {
    if width == 1 {
        0x100
    } else if width == 2 {
        0x1_0000
    } else {
        0x100_0000
    }
}

/// Where the bytes `after` are the bytes `before` up to `at`, hold `prefix`
/// from `at` on and `body` behind it, what they hold from `began` to `pos`
/// is what `before` held from `began` to `at`, then `prefix`, then `body`.
proof fn lemma_region_view(
    before: Seq<u8>,
    after: Seq<u8>,
    began: int,
    at: int,
    pos: int,
    prefix: Seq<u8>,
    body: Seq<u8>,
)
    requires
        0 <= began <= at,
        at + prefix.len() <= pos <= after.len(),
        at <= before.len(),
        after.take(at) == before.take(at),
        after.subrange(at, at + prefix.len()) == prefix,
        after.subrange(at + prefix.len(), pos) == body,
    ensures
        after.subrange(began, pos) == before.subrange(began, at) + prefix + body,
{
    let whole = before.subrange(began, at) + prefix + body;
    assert forall|i: int| began <= i < at implies after[i] == before[i] by {
        assert(after.take(at)[i] == after[i]);
        assert(before.take(at)[i] == before[i]);
    }
    assert forall|i: int| at <= i < at + prefix.len() implies after[i] == prefix[i - at] by {
        assert(after.subrange(at, at + prefix.len())[i - at] == after[i]);
    }
    assert forall|i: int| at + prefix.len() <= i < pos implies after[i] == body[i - at
        - prefix.len()] by {
        assert(after.subrange(at + prefix.len(), pos)[i - at - prefix.len()] == after[i]);
    }
    assert(after.subrange(began, pos) =~= whole);
}

/// Where the bytes `after` are the bytes `before` up to `at`, they hold
/// from `began` to `at` what `before` held there.
proof fn lemma_kept_view(before: Seq<u8>, after: Seq<u8>, began: int, at: int)
    requires
        0 <= began <= at <= after.len(),
        at <= before.len(),
        after.take(at) == before.take(at),
    ensures
        after.subrange(began, at) == before.subrange(began, at),
        after.take(began) == before.take(began),
{
    assert forall|i: int| 0 <= i < at implies after[i] == before[i] by {
        assert(after.take(at)[i] == after[i]);
        assert(before.take(at)[i] == before[i]);
    }
    assert(after.subrange(began, at) =~= before.subrange(began, at));
    assert(after.take(began) =~= before.take(began));
}

impl<'b> CryptoBuffer<'b> {
    /// The buffer begins inside the slice, and what is written fits it.
    #[verifier::type_invariant]
    spec fn inv(self) -> bool {
        self.start <= self.pos <= self.bytes@.len()
    }

    /// The number of bytes that the buffer can hold.
    pub closed spec fn capacity(self) -> nat {
        (self.bytes@.len() - self.start) as nat
    }

    /// What was written before the regions that are open, and is out of
    /// reach until they are closed.
    pub closed spec fn base(self) -> Seq<u8> {
        self.bytes@.take(self.start as int)
    }

    /// What is written fits the capacity.
    pub open spec fn wf(self) -> bool {
        self@.len() <= self.capacity()
    }

    /// Whether `n` more bytes fit.
    pub open spec fn fits(self, n: nat) -> bool {
        self@.len() + n <= self.capacity()
    }

    /// An empty buffer over `bytes`.
    pub fn wrap(bytes: &'b mut [u8]) -> (r: Self)
        ensures
            r@ == Seq::<u8>::empty(),
            r.capacity() == old(bytes)@.len(),
            r.base() == Seq::<u8>::empty(),
    {
        let r = CryptoBuffer { bytes, start: 0, pos: 0 };
        assert(r.base() =~= Seq::<u8>::empty());
        r
    }

    /// A buffer over `bytes` whose first `pos` bytes count as written.
    pub fn wrap_with_pos(bytes: &'b mut [u8], pos: usize) -> (r: Self)
        requires
            pos <= old(bytes)@.len(),
        ensures
            r@ == old(bytes)@.take(pos as int),
            r.capacity() == old(bytes)@.len(),
            r.base() == Seq::<u8>::empty(),
    {
        let r = CryptoBuffer { bytes, start: 0, pos };
        assert(r.base() =~= Seq::<u8>::empty());
        r
    }

    /// The number of bytes written.
    pub fn len(&self) -> (r: usize)
        ensures
            r == self@.len(),
            self.wf(),
    {
        proof {
            use_type_invariant(self);
        }
        self.pos - self.start
    }

    /// Whether nothing has been written.
    pub fn is_empty(&self) -> (r: bool)
        ensures
            r == (self@.len() == 0),
    {
        proof {
            use_type_invariant(self);
        }
        self.pos == self.start
    }

    /// The number of bytes that the buffer can hold.
    pub fn room(&self) -> (r: usize)
        ensures
            r == self.capacity(),
            self.wf(),
    {
        proof {
            use_type_invariant(self);
        }
        self.bytes.len() - self.start
    }

    /// The number of bytes that still fit.
    pub fn space(&self) -> (r: usize)
        ensures
            r == self.capacity() - self@.len(),
            self.wf(),
    {
        proof {
            use_type_invariant(self);
        }
        self.bytes.len() - self.pos
    }

    /// The bytes written so far.
    pub fn as_slice(&self) -> (r: &[u8])
        ensures
            r@ == self@,
    {
        proof {
            use_type_invariant(self);
        }
        slice_subrange(self.bytes, self.start, self.pos)
    }

    /// Drops what was written after the first `len` bytes. A `len` beyond
    /// what is written changes nothing.
    pub fn truncate(&mut self, len: usize)
        ensures
            final(self).capacity() == old(self).capacity(),
            final(self).base() == old(self).base(),
            final(self)@ == if len <= old(self)@.len() {
                old(self)@.take(len as int)
            } else {
                old(self)@
            },
    {
        proof {
            use_type_invariant(&*self);
        }
        if len <= self.pos - self.start {
            self.pos = self.start + len;
            assert(self@ =~= old(self)@.take(len as int));
        }
    }

    /// Appends one byte.
    pub fn push(&mut self, b: u8) -> (r: Result<(), TlsError>)
        ensures
            appended(*old(self), *final(self), r, seq![b]),
    {
        let data: [u8; 1] = [b];
        assert(data@ =~= seq![b]);
        self.extend_from_slice(&data)
    }

    /// Appends a copy of `other`.
    pub fn extend_from_slice(&mut self, other: &[u8]) -> (r: Result<(), TlsError>)
        ensures
            appended(*old(self), *final(self), r, other@),
    {
        proof {
            use_type_invariant(&*self);
        }
        let n = other.len();
        if n <= self.bytes.len() - self.pos {
            let at = self.pos;
            let mut i: usize = 0;
            while i < n
                invariant
                    i <= n,
                    n == other@.len(),
                    at + n <= self.bytes.len(),
                    self.pos == at,
                    at == old(self).pos,
                    self.start == old(self).start,
                    self.start <= at,
                    self.bytes@.len() == old(self).bytes@.len(),
                    forall|k: int| 0 <= k < at ==> self.bytes@[k] == old(self).bytes@[k],
                    forall|k: int| 0 <= k < i ==> self.bytes@[at + k] == other@[k],
                decreases n - i,
            {
                self.bytes[at + i] = other[i];
                i = i + 1;
            }
            self.pos = at + n;
            assert(self@ =~= old(self)@ + other@);
            assert(self.base() =~= old(self).base());
            Ok(())
        } else {
            Err(TlsError::EncodeError)
        }
    }

    /// Appends `num` as two bytes, most significant first.
    pub fn push_u16(&mut self, num: u16) -> (r: Result<(), TlsError>)
        ensures
            appended(*old(self), *final(self), r, u16_to_be(num)),
    {
        let data: [u8; 2] = [(num / 256) as u8, (num % 256) as u8];
        assert(data@ =~= u16_to_be(num));
        self.extend_from_slice(&data)
    }

    /// Appends the low 24 bits of `num` as three bytes, most significant first.
    pub fn push_u24(&mut self, num: u32) -> (r: Result<(), TlsError>)
        ensures
            appended(*old(self), *final(self), r, u24_to_be(num)),
    {
        let data: [u8; 3] = [
            ((num / 65536) % 256) as u8,
            ((num / 256) % 256) as u8,
            (num % 256) as u8,
        ];
        assert(data@ =~= u24_to_be(num));
        self.extend_from_slice(&data)
    }

    /// Appends `num` as four bytes, most significant first.
    pub fn push_u32(&mut self, num: u32) -> (r: Result<(), TlsError>)
        ensures
            appended(*old(self), *final(self), r, u32_to_be(num)),
    {
        let data: [u8; 4] = [
            (num / 16777216) as u8,
            ((num / 65536) % 256) as u8,
            ((num / 256) % 256) as u8,
            (num % 256) as u8,
        ];
        assert(data@ =~= u32_to_be(num));
        self.extend_from_slice(&data)
    }

    /// Writes `data` over what is written from index `at` on. Fails, changing
    /// nothing, when `data` would reach beyond what is written.
    pub fn overwrite(&mut self, at: usize, data: &[u8]) -> (r: Result<(), TlsError>)
        ensures
            final(self).capacity() == old(self).capacity(),
            final(self).base() == old(self).base(),
            r is Ok <==> at + data@.len() <= old(self)@.len(),
            r is Ok ==> final(self)@ == old(self)@.take(at as int) + data@ + old(self)@.skip(
                at + data@.len(),
            ),
            r matches Err(e) ==> e == TlsError::EncodeError && final(self)@ == old(self)@,
    {
        proof {
            use_type_invariant(&*self);
        }
        let n = data.len();
        let len = self.pos - self.start;
        if at <= len && n <= len - at {
            let from = self.start + at;
            let mut i: usize = 0;
            while i < n
                invariant
                    i <= n,
                    n == data@.len(),
                    from == self.start + at,
                    from + n <= self.pos,
                    self.pos == old(self).pos,
                    self.start == old(self).start,
                    self.pos <= self.bytes.len(),
                    self.bytes@.len() == old(self).bytes@.len(),
                    forall|k: int| 0 <= k < from ==> self.bytes@[k] == old(self).bytes@[k],
                    forall|k: int| 0 <= k < i ==> self.bytes@[from + k] == data@[k],
                    forall|k: int|
                        from + i <= k < self.bytes@.len() ==> self.bytes@[k] == old(self).bytes@[k],
                decreases n - i,
            {
                self.bytes[from + i] = data[i];
                i = i + 1;
            }
            assert(self@ =~= old(self)@.take(at as int) + data@ + old(self)@.skip(at + n));
            assert(self.base() =~= old(self).base());
            Ok(())
        } else {
            Err(TlsError::EncodeError)
        }
    }

    /// Opens a region behind a length prefix of `width` bytes: reserves the
    /// prefix and lets the buffer begin behind it. Gives the place of the
    /// prefix and the place where the buffer began.
    fn open_region(&mut self, width: usize) -> (r: Result<(usize, usize), TlsError>)
        requires
            1 <= width <= 3,
        ensures
            final(self).bytes@.len() == old(self).bytes@.len(),
            old(self).start <= old(self).pos <= old(self).bytes@.len(),
            match r {
                Ok((at, began)) => {
                    &&& old(self).fits(width as nat)
                    &&& at == old(self).pos
                    &&& began == old(self).start
                    &&& final(self).start == at + width
                    &&& final(self).pos == at + width
                    &&& final(self).bytes@.take(at as int) == old(self).bytes@.take(at as int)
                },
                Err(e) => {
                    &&& !old(self).fits(width as nat)
                    &&& e == TlsError::EncodeError
                    &&& final(self).bytes@ == old(self).bytes@
                    &&& final(self).start == old(self).start
                    &&& final(self).pos == old(self).pos
                },
            },
    {
        proof {
            use_type_invariant(&*self);
        }
        let at = self.pos;
        let began = self.start;
        if width > self.bytes.len() - self.pos {
            return Err(TlsError::EncodeError);
        }
        self.pos = at + width;
        self.start = at + width;
        Ok((at, began))
    }

    /// Gives up the region whose prefix stands at `at`: the buffer begins
    /// at `began` again and ends where the prefix stood.
    fn abandon_region(&mut self, at: usize, began: usize)
        requires
            began <= at <= old(self).start,
        ensures
            final(self).bytes@ == old(self).bytes@,
            final(self).start == began,
            final(self).pos == at,
    {
        proof {
            use_type_invariant(&*self);
        }
        self.start = began;
        self.pos = at;
    }

    /// Closes the region whose prefix of `width` bytes stands at `at`: the
    /// prefix gets the length of what the buffer holds, and the buffer
    /// begins at `began` again. A body too long for the prefix is given up.
    fn close_region(&mut self, at: usize, began: usize, width: usize) -> (r: Result<
        (),
        TlsError,
    >)
        requires
            1 <= width <= 3,
            began <= at,
            at + width == old(self).start,
        ensures
            final(self).bytes@.len() == old(self).bytes@.len(),
            final(self).start == began,
            old(self).start <= old(self).pos <= old(self).bytes@.len(),
            match r {
                Ok(_) => {
                    &&& old(self)@.len() < prefix_limit(width as nat)
                    &&& final(self).pos == old(self).pos
                    &&& final(self).bytes@.take(at as int) == old(self).bytes@.take(at as int)
                    &&& final(self).bytes@.subrange(at as int, at + width) == length_prefix(
                        old(self)@.len(),
                        width as nat,
                    )
                    &&& final(self).bytes@.skip(at + width) == old(self).bytes@.skip(at + width)
                },
                Err(e) => {
                    &&& old(self)@.len() >= prefix_limit(width as nat)
                    &&& e == TlsError::EncodeError
                    &&& final(self).pos == at
                    &&& final(self).bytes@ == old(self).bytes@
                },
            },
    {
        proof {
            use_type_invariant(&*self);
        }
        let n = self.pos - self.start;
        let limit: usize = if width == 1 {
            0x100
        } else if width == 2 {
            0x1_0000
        } else {
            0x100_0000
        };
        if n >= limit {
            self.start = began;
            self.pos = at;
            return Err(TlsError::EncodeError);
        }
        if width == 1 {
            self.bytes[at] = n as u8;
        } else if width == 2 {
            self.bytes[at] = (n / 256) as u8;
            self.bytes[at + 1] = (n % 256) as u8;
        } else {
            self.bytes[at] = ((n / 65536) % 256) as u8;
            self.bytes[at + 1] = ((n / 256) % 256) as u8;
            self.bytes[at + 2] = (n % 256) as u8;
        }
        self.start = began;
        assert(self.bytes@.take(at as int) =~= old(self).bytes@.take(at as int));
        assert(self.bytes@.subrange(at as int, at + width) =~= length_prefix(
            n as nat,
            width as nat,
        ));
        assert(self.bytes@.skip(at + width) =~= old(self).bytes@.skip(at + width));
        Ok(())
    }

    /// Writes a region behind a length prefix of `width` bytes, the body
    /// of which `op` appends.
    #[verifier::rlimit(30)]
    fn region_with<F: FnOnce(&mut CryptoBuffer) -> Result<(), TlsError>>(
        &mut self,
        width: usize,
        op: F,
    ) -> (r: Result<(), TlsError>)
        requires
            1 <= width <= 3,
            forall|b: &mut CryptoBuffer| b@.len() == 0 ==> call_requires(op, (b,)),
            forall|b: &mut CryptoBuffer, res: Result<(), TlsError>|
                call_ensures(op, (b,), res) ==> appends(*b, *final(b)),
        ensures
            region_written(*old(self), *final(self), r, width as nat),
            !old(self).fits(width as nat) ==> r == Err::<(), TlsError>(TlsError::EncodeError),
            old(self).fits(width as nat) ==> exists|b: &mut CryptoBuffer, res: Result<(), TlsError>|
                #[trigger] call_ensures(op, (b,), res) && handed(*old(self), *b, width as nat)
                    && region_outcome(old(self)@, res, (*final(b))@, width as nat) == (
                    r,
                    final(self)@,
                ),
    {
        let ghost before = self.bytes@;
        let (at, began) = match self.open_region(width) {
            Ok(opened) => opened,
            Err(e) => {
                assert(self@ =~= old(self)@);
                assert(self.base() =~= old(self).base());
                return Err(e);
            },
        };
        let ghost opened = self.bytes@;
        assert(self@ =~= Seq::<u8>::empty());
        assert(self.base().len() == at + width);
        let ghost inner = *self;
        assert(handed(*old(self), inner, width as nat)) by {
            assert(inner.base().take(at as int) =~= old(self).base() + old(self)@);
        }
        let r = op(self);
        assert(exists|b: &mut CryptoBuffer, res: Result<(), TlsError>|
            #[trigger] call_ensures(op, (b,), res) && res == r && *b == inner && *final(b)
                == *self);
        proof {
            use_type_invariant(&*self);
            assert(self.base().len() == self.start);
            assert(self.bytes@.take(at as int) == before.take(at as int)) by {
                assert(self.base() == opened.take(at + width));
                assert(self.bytes@.take(at as int) =~= self.base().take(at as int));
                assert(opened.take(at + width).take(at as int) =~= opened.take(at as int));
            }
        }
        let ghost written = self.bytes@;
        let ghost body = self@;
        let ghost end = self.pos as int;
        match r {
            Ok(_) => match self.close_region(at, began, width) {
                Ok(_) => {
                    proof {
                        assert(self.bytes@.subrange(at + width, end) =~= body) by {
                            assert forall|i: int| at + width <= i < end implies self.bytes@[i]
                                == written[i] by {
                                assert(self.bytes@.skip(at + width)[i - at - width]
                                    == written.skip(at + width)[i - at - width]);
                            }
                        }
                        lemma_region_view(
                            before,
                            self.bytes@,
                            began as int,
                            at as int,
                            end,
                            length_prefix(body.len(), width as nat),
                            body,
                        );
                        lemma_kept_view(before, self.bytes@, began as int, at as int);
                        assert(old(self)@ == before.subrange(began as int, at as int));
                        assert(self@ == region(old(self)@, body, width as nat));
                        assert(self.base() == old(self).base());
                    }
                    Ok(())
                },
                Err(e) => {
                    proof {
                        lemma_kept_view(before, self.bytes@, began as int, at as int);
                    }
                    Err(e)
                },
            },
            Err(e) => {
                self.abandon_region(at, began);
                proof {
                    lemma_kept_view(before, self.bytes@, began as int, at as int);
                }
                Err(e)
            },
        }
    }

    /// Writes a region behind a one-byte length prefix: reserves the prefix,
    /// runs `op` on the buffer, which then begins behind the prefix, and
    /// fills in the length of what `op` appended. When `op` fails, or
    /// appends more than 255 bytes, everything written since the call is
    /// dropped; the error of `op` is handed on.
    /// Where the prefix itself does not fit, `op` is not run.
    pub fn with_u8_length<F: FnOnce(&mut CryptoBuffer) -> Result<(), TlsError>>(
        &mut self,
        op: F,
    ) -> (r: Result<(), TlsError>)
        requires
            forall|b: &mut CryptoBuffer| b@.len() == 0 ==> call_requires(op, (b,)),
            forall|b: &mut CryptoBuffer, res: Result<(), TlsError>|
                call_ensures(op, (b,), res) ==> appends(*b, *final(b)),
        ensures
            region_written(*old(self), *final(self), r, 1),
            !old(self).fits(1) ==> r == Err::<(), TlsError>(TlsError::EncodeError),
            old(self).fits(1) ==> exists|b: &mut CryptoBuffer, res: Result<(), TlsError>|
                #[trigger] call_ensures(op, (b,), res) && handed(*old(self), *b, 1)
                    && region_outcome(old(self)@, res, (*final(b))@, 1) == (r, final(self)@),
    {
        self.region_with(1, op)
    }

    /// Writes a region behind a two-byte big-endian length prefix: reserves
    /// the prefix, runs `op` on the buffer, which then begins behind the
    /// prefix, and fills in the length of what `op` appended. When `op`
    /// fails, or appends more than 65535 bytes, everything written since
    /// the call is dropped; the error of `op` is handed on.
    /// Where the prefix itself does not fit, `op` is not run.
    pub fn with_u16_length<F: FnOnce(&mut CryptoBuffer) -> Result<(), TlsError>>(
        &mut self,
        op: F,
    ) -> (r: Result<(), TlsError>)
        requires
            forall|b: &mut CryptoBuffer| b@.len() == 0 ==> call_requires(op, (b,)),
            forall|b: &mut CryptoBuffer, res: Result<(), TlsError>|
                call_ensures(op, (b,), res) ==> appends(*b, *final(b)),
        ensures
            region_written(*old(self), *final(self), r, 2),
            !old(self).fits(2) ==> r == Err::<(), TlsError>(TlsError::EncodeError),
            old(self).fits(2) ==> exists|b: &mut CryptoBuffer, res: Result<(), TlsError>|
                #[trigger] call_ensures(op, (b,), res) && handed(*old(self), *b, 2)
                    && region_outcome(old(self)@, res, (*final(b))@, 2) == (r, final(self)@),
    {
        self.region_with(2, op)
    }

    /// Writes a region behind a three-byte big-endian length prefix:
    /// reserves the prefix, runs `op` on the buffer, which then begins
    /// behind the prefix, and fills in the length of what `op` appended.
    /// When `op` fails, or appends more than 2^24 - 1 bytes, everything
    /// written since the call is dropped; the error of `op` is handed on.
    /// Where the prefix itself does not fit, `op` is not run.
    pub fn with_u24_length<F: FnOnce(&mut CryptoBuffer) -> Result<(), TlsError>>(
        &mut self,
        op: F,
    ) -> (r: Result<(), TlsError>)
        requires
            forall|b: &mut CryptoBuffer| b@.len() == 0 ==> call_requires(op, (b,)),
            forall|b: &mut CryptoBuffer, res: Result<(), TlsError>|
                call_ensures(op, (b,), res) ==> appends(*b, *final(b)),
        ensures
            region_written(*old(self), *final(self), r, 3),
            !old(self).fits(3) ==> r == Err::<(), TlsError>(TlsError::EncodeError),
            old(self).fits(3) ==> exists|b: &mut CryptoBuffer, res: Result<(), TlsError>|
                #[trigger] call_ensures(op, (b,), res) && handed(*old(self), *b, 3)
                    && region_outcome(old(self)@, res, (*final(b))@, 3) == (r, final(self)@),
    {
        self.region_with(3, op)
    }

    /// Writes `body` as a region behind a length prefix of `width` bytes.
    #[verifier::rlimit(30)]
    fn region_of<E: Encode>(&mut self, width: usize, body: E) -> (r: Result<(), TlsError>)
        requires
            1 <= width <= 3,
        ensures
            prefixed(*old(self), *final(self), r, body.encodable(), body.wire(), width as nat),
    {
        let ghost before = self.bytes@;
        let (at, began) = match self.open_region(width) {
            Ok(opened) => opened,
            Err(e) => {
                assert(self@ =~= old(self)@);
                assert(self.base() =~= old(self).base());
                return Err(e);
            },
        };
        let ghost opened = self.bytes@;
        assert(self@ =~= Seq::<u8>::empty());
        assert(self.base().len() == at + width);
        let r = body.encode(self);
        proof {
            use_type_invariant(&*self);
            assert(self.base().len() == self.start);
            assert(self.bytes@.take(at as int) == before.take(at as int)) by {
                assert(self.base() == opened.take(at + width));
                assert(self.bytes@.take(at as int) =~= self.base().take(at as int));
                assert(opened.take(at + width).take(at as int) =~= opened.take(at as int));
            }
        }
        let ghost written = self.bytes@;
        let ghost end = self.pos as int;
        match r {
            Ok(_) => {
                assert(self@ =~= body.wire());
                match self.close_region(at, began, width) {
                    Ok(_) => {
                        proof {
                            assert(self.bytes@.subrange(at + width, end) =~= body.wire()) by {
                                assert forall|i: int| at + width <= i < end implies self.bytes@[i]
                                    == written[i] by {
                                    assert(self.bytes@.skip(at + width)[i - at - width]
                                        == written.skip(at + width)[i - at - width]);
                                }
                            }
                            lemma_region_view(
                                before,
                                self.bytes@,
                                began as int,
                                at as int,
                                end,
                                length_prefix(body.wire().len(), width as nat),
                                body.wire(),
                            );
                            lemma_kept_view(before, self.bytes@, began as int, at as int);
                        }
                        Ok(())
                    },
                    Err(e) => {
                        proof {
                            lemma_kept_view(before, self.bytes@, began as int, at as int);
                        }
                        Err(e)
                    },
                }
            },
            Err(e) => {
                self.abandon_region(at, began);
                proof {
                    lemma_kept_view(before, self.bytes@, began as int, at as int);
                }
                Err(e)
            },
        }
    }

    /// Writes `body` behind a one-byte length prefix. The prefix is reserved
    /// first and filled in once the body is written; when the body fails or
    /// is longer than 255 bytes, everything written since the call is dropped.
    pub fn push_u8_prefixed<E: Encode>(&mut self, body: E) -> (r: Result<(), TlsError>)
        ensures
            prefixed(*old(self), *final(self), r, body.encodable(), body.wire(), 1),
            r is Ok ==> final(self)@ == old(self)@ + seq![body.wire().len() as u8] + body.wire(),
    {
        self.region_of(1, body)
    }

    /// Writes `body` behind a two-byte big-endian length prefix. The prefix is
    /// reserved first and filled in once the body is written; when the body
    /// fails or is longer than 65535 bytes, everything written since the call
    /// is dropped.
    pub fn push_u16_prefixed<E: Encode>(&mut self, body: E) -> (r: Result<(), TlsError>)
        ensures
            prefixed(*old(self), *final(self), r, body.encodable(), body.wire(), 2),
            r is Ok ==> final(self)@ == old(self)@ + u16_to_be(body.wire().len() as u16)
                + body.wire(),
    {
        self.region_of(2, body)
    }

    /// Writes `body` behind a three-byte big-endian length prefix. The prefix
    /// is reserved first and filled in once the body is written; when the body
    /// fails or is longer than 2^24 - 1 bytes, everything written since the
    /// call is dropped.
    pub fn push_u24_prefixed<E: Encode>(&mut self, body: E) -> (r: Result<(), TlsError>)
        ensures
            prefixed(*old(self), *final(self), r, body.encodable(), body.wire(), 3),
            r is Ok ==> final(self)@ == old(self)@ + u24_to_be(body.wire().len() as u32)
                + body.wire(),
    {
        self.region_of(3, body)
    }
}

/// What the body of a length-prefixed region may do to the buffer it is
/// given: append to it, and nothing else.
pub open spec fn appends(before: CryptoBuffer, after: CryptoBuffer) -> bool {
    &&& after.wf()
    &&& after.capacity() == before.capacity()
    &&& after.base() == before.base()
    &&& before@.len() <= after@.len()
    &&& after@.take(before@.len() as int) == before@
}

/// What the buffer holds after a region with the body `body` was written
/// behind a length prefix of `width` bytes to a buffer that held `before`.
pub open spec fn region(before: Seq<u8>, body: Seq<u8>, width: nat) -> Seq<u8> {
    before + length_prefix(body.len(), width) + body
}

/// What writing a region behind a length prefix of `width` bytes does, for
/// any body: on success the buffer holds what it held, then the length of
/// the body in `width` bytes, most significant first, then the body; on
/// failure it holds what it held before.
pub open spec fn region_written(
    before: CryptoBuffer,
    after: CryptoBuffer,
    r: Result<(), TlsError>,
    width: nat,
) -> bool {
    &&& before.wf()
    &&& after.wf()
    &&& after.capacity() == before.capacity()
    &&& after.base() == before.base()
    &&& r is Ok ==> exists|body: Seq<u8>|
        body.len() < prefix_limit(width) && #[trigger] region(before@, body, width) == after@
    &&& r is Err ==> after@ == before@
}

/// What the body of a region is handed when the region is opened in a
/// buffer like `before` behind a length prefix of `width` bytes: an empty
/// buffer with the room that is left behind the prefix, and with all that
/// `before` held out of its reach.
pub open spec fn handed(before: CryptoBuffer, inner: CryptoBuffer, width: nat) -> bool {
    &&& inner@.len() == 0
    &&& inner.capacity() == before.capacity() - before@.len() - width
    &&& inner.base().len() == before.base().len() + before@.len() + width
    &&& inner.base().take((before.base().len() + before@.len()) as int) == before.base()
        + before@
}

/// What a region gives when its body, run on an empty buffer, gave `res`
/// and left `body` there: the result of the region, and what the buffer
/// that held `before` then holds.
/// - The body failed: its error, and `before`.
/// - The body is too long for a length prefix of `width` bytes: an encode
///   error, and `before`.
/// - Otherwise success, and `before`, the length of the body, the body.
pub open spec fn region_outcome(
    before: Seq<u8>,
    res: Result<(), TlsError>,
    body: Seq<u8>,
    width: nat,
) -> (Result<(), TlsError>, Seq<u8>) {
    match res {
        Err(e) => (Err(e), before),
        Ok(_) => if body.len() < prefix_limit(width) {
            (Ok(()), region(before, body, width))
        } else {
            (Err(TlsError::EncodeError), before)
        },
    }
}

/// What an append of `data` does: it succeeds exactly when `data` fits, then
/// the buffer holds what it held followed by `data`; otherwise nothing changes.
pub open spec fn appended(
    before: CryptoBuffer,
    after: CryptoBuffer,
    r: Result<(), TlsError>,
    data: Seq<u8>,
) -> bool {
    &&& before.wf()
    &&& after.wf()
    &&& after.capacity() == before.capacity()
    &&& after.base() == before.base()
    &&& r is Ok <==> before.fits(data.len())
    &&& r is Ok ==> after@ == before@ + data
    &&& r matches Err(e) ==> e == TlsError::EncodeError && after@ == before@
}

/// What writing a body behind a length prefix of `width` bytes does: it
/// succeeds exactly when the body can be written, its length fits the prefix
/// and prefix and body fit the buffer; then the buffer holds what it held,
/// the length of the body, and the body. On failure the buffer holds what it
/// held before.
pub open spec fn prefixed(
    before: CryptoBuffer,
    after: CryptoBuffer,
    r: Result<(), TlsError>,
    encodable: bool,
    body: Seq<u8>,
    width: nat,
) -> bool {
    &&& before.wf()
    &&& after.wf()
    &&& after.capacity() == before.capacity()
    &&& after.base() == before.base()
    &&& r is Ok <==> encodable && body.len() < prefix_limit(width) && before.fits(
        width + body.len(),
    )
    &&& r is Ok ==> after@ == region(before@, body, width)
    &&& r matches Err(e) ==> e == TlsError::EncodeError && after@ == before@
}

} // verus!

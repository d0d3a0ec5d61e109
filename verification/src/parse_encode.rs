//! The two capabilities of the wire codec, parsing and encoding, and the
//! types that have them for every element type: integers, byte strings and
//! lists.

use vstd::prelude::*;
use core::marker::PhantomData;
use crate::TlsError;
use crate::big_endian::{
    lemma_u16_read_of_written, lemma_u16_written_of_read, lemma_u24_read_of_written,
    lemma_u24_written_of_read, lemma_u32_read_of_written, lemma_u32_written_of_read, u16_from_be,
    u16_to_be, u24_from_be, u24_to_be, u32_from_be, u32_to_be,
};
use crate::buffer::CryptoBuffer;
use crate::parse_buffer::{ParseBuffer, ParseError};

verus! {

/// A value that can be read from a [`ParseBuffer`] that borrows for `'a`.
pub trait Parse<'a>: Sized + View {
    /// What parsing finds at the front of `s`: the value and the number of
    /// bytes it takes, or the reason why there is none.
    spec fn spec_parse(s: Seq<u8>) -> Result<(Self::V, nat), ParseError>;

    /// Reads one value from the unread bytes of `buf` and moves past it.
    fn parse(buf: &mut ParseBuffer<'a>) -> (r: Result<Self, ParseError>)
        ensures
            parsed(*old(buf), *final(buf), r, Self::spec_parse(old(buf).unread())),
    ;
}

/// What a parse does when `expected` is what the specification finds in the
/// unread bytes: it returns a value with that view and moves past its bytes,
/// or returns that error. The bytes under the cursor never change.
pub open spec fn parsed<T: View>(
    before: ParseBuffer,
    after: ParseBuffer,
    r: Result<T, ParseError>,
    expected: Result<(T::V, nat), ParseError>,
) -> bool {
    &&& before.wf()
    &&& after.wf()
    &&& after.bytes() == before.bytes()
    &&& match expected {
        Ok((v, n)) => r matches Ok(x) && x@ == v && after.position() == before.position() + n,
        Err(e) => r matches Err(f) && f == e,
    }
}

/// A value that can be written to a [`CryptoBuffer`].
pub trait Encode: Sized {
    /// The bytes that the value is written as.
    spec fn wire(&self) -> Seq<u8>;

    /// Whether the value can be written at all: it is what its format asks
    /// for, and every length in it fits the prefix that has to spell it.
    spec fn encodable(&self) -> bool;

    /// Appends the value's bytes to `buf`. On failure `buf` holds what it
    /// held before.
    fn encode(self, buf: &mut CryptoBuffer) -> (r: Result<(), TlsError>)
        ensures
            encoded(*old(buf), *final(buf), r, self.encodable(), self.wire()),
    ;
}

/// What encoding a value with the given bytes does: it succeeds exactly when
/// the value can be written and fits, then the buffer holds what it held
/// followed by the bytes; otherwise nothing changes.
pub open spec fn encoded(
    before: CryptoBuffer,
    after: CryptoBuffer,
    r: Result<(), TlsError>,
    encodable: bool,
    wire: Seq<u8>,
) -> bool {
    &&& before.wf()
    &&& after.wf()
    &&& after.capacity() == before.capacity()
    &&& after.base() == before.base()
    &&& r is Ok <==> encodable && before.fits(wire.len())
    &&& r is Ok ==> after@ == before@ + wire
    &&& r matches Err(e) ==> e == TlsError::EncodeError && after@ == before@
}

/// The laws that tie parsing and encoding together for a type whose values
/// mark their own end on the wire, so that they can stand in front of other
/// data: as a field or as an item of a list.
pub trait WireFormat<'a>: Parse<'a> + Encode {
    /// Whether the value is one that parsing accepts. A value can be one
    /// that is written as it stands and that no peer reads back.
    spec fn well_formed(&self) -> bool;

    /// Parsing what was written for `x` gives `x` back, whatever follows it,
    /// and something was written.
    proof fn lemma_parse_of_wire(x: Self, rest: Seq<u8>)
        requires
            x.encodable(),
            x.well_formed(),
        ensures
            Self::spec_parse(x.wire() + rest) matches Ok(p) && p.0 == x@ && p.1 == x.wire().len(),
            x.wire().len() > 0,
    ;

    /// Writing a value that was parsed from `s` gives the bytes it was parsed
    /// from.
    proof fn lemma_wire_of_parsed(s: Seq<u8>, x: Self)
        requires
            Self::spec_parse(s) matches Ok(p) && p.0 == x@,
        ensures
            x.encodable(),
            x.well_formed(),
            Self::spec_parse(s) matches Ok(p) && p.1 <= s.len() && x.wire() == s.take(p.1 as int),
    ;
}

impl<'a> Parse<'a> for u8 {
    open spec fn spec_parse(s: Seq<u8>) -> Result<(u8, nat), ParseError> {
        if s.len() >= 1 {
            Ok((s[0], 1nat))
        } else {
            Err(ParseError::InsufficientSpace)
        }
    }

    fn parse(buf: &mut ParseBuffer<'a>) -> (r: Result<Self, ParseError>) {
        buf.read_u8()
    }
}

impl Encode for u8 {
    open spec fn wire(&self) -> Seq<u8> {
        seq![*self]
    }

    open spec fn encodable(&self) -> bool {
        true
    }

    fn encode(self, buf: &mut CryptoBuffer) -> (r: Result<(), TlsError>) {
        buf.push(self)
    }
}

impl<'a> WireFormat<'a> for u8 {
    open spec fn well_formed(&self) -> bool {
        true
    }

    proof fn lemma_parse_of_wire(x: Self, rest: Seq<u8>) {
        assert((x.wire() + rest)[0] == x);
    }

    proof fn lemma_wire_of_parsed(s: Seq<u8>, x: Self) {
        assert(x.wire() =~= s.take(1));
    }
}

impl<'a> Parse<'a> for u16 {
    open spec fn spec_parse(s: Seq<u8>) -> Result<(u16, nat), ParseError> {
        if s.len() >= 2 {
            Ok((u16_from_be(s), 2nat))
        } else {
            Err(ParseError::InsufficientSpace)
        }
    }

    fn parse(buf: &mut ParseBuffer<'a>) -> (r: Result<Self, ParseError>) {
        buf.read_u16()
    }
}

impl Encode for u16 {
    open spec fn wire(&self) -> Seq<u8> {
        u16_to_be(*self)
    }

    open spec fn encodable(&self) -> bool {
        true
    }

    fn encode(self, buf: &mut CryptoBuffer) -> (r: Result<(), TlsError>) {
        buf.push_u16(self)
    }
}

impl<'a> WireFormat<'a> for u16 {
    open spec fn well_formed(&self) -> bool {
        true
    }

    proof fn lemma_parse_of_wire(x: Self, rest: Seq<u8>) {
        lemma_u16_read_of_written(x, rest);
    }

    proof fn lemma_wire_of_parsed(s: Seq<u8>, x: Self) {
        lemma_u16_written_of_read(s);
    }
}

impl<'a> Parse<'a> for u32 {
    open spec fn spec_parse(s: Seq<u8>) -> Result<(u32, nat), ParseError> {
        if s.len() >= 4 {
            Ok((u32_from_be(s), 4nat))
        } else {
            Err(ParseError::InsufficientSpace)
        }
    }

    fn parse(buf: &mut ParseBuffer<'a>) -> (r: Result<Self, ParseError>) {
        buf.read_u32()
    }
}

impl Encode for u32 {
    open spec fn wire(&self) -> Seq<u8> {
        u32_to_be(*self)
    }

    open spec fn encodable(&self) -> bool {
        true
    }

    fn encode(self, buf: &mut CryptoBuffer) -> (r: Result<(), TlsError>) {
        buf.push_u32(self)
    }
}

impl<'a> WireFormat<'a> for u32 {
    open spec fn well_formed(&self) -> bool {
        true
    }

    proof fn lemma_parse_of_wire(x: Self, rest: Seq<u8>) {
        lemma_u32_read_of_written(x, rest);
    }

    proof fn lemma_wire_of_parsed(s: Seq<u8>, x: Self) {
        lemma_u32_written_of_read(s);
    }
}

/// A byte string written as it stands, with no length in front: the body of
/// a length-prefixed region.
impl<'a> Encode for &'a [u8] {
    open spec fn wire(&self) -> Seq<u8> {
        (*self)@
    }

    open spec fn encodable(&self) -> bool {
        true
    }

    fn encode(self, buf: &mut CryptoBuffer) -> (r: Result<(), TlsError>) {
        buf.extend_from_slice(self)
    }
}

/// Two values written one after the other.
pub struct Both<A, B>(pub A, pub B);

impl<A: Encode, B: Encode> Encode for Both<A, B> {
    open spec fn wire(&self) -> Seq<u8> {
        self.0.wire() + self.1.wire()
    }

    open spec fn encodable(&self) -> bool {
        self.0.encodable() && self.1.encodable()
    }

    fn encode(self, buf: &mut CryptoBuffer) -> (r: Result<(), TlsError>) {
        let mark = buf.len();
        let Both(first, second) = self;
        match first.encode(buf) {
            Ok(_) => {},
            Err(e) => {
                return Err(e);
            },
        }
        match second.encode(buf) {
            Ok(_) => {
                assert(buf@ =~= old(buf)@ + self.wire());
                Ok(())
            },
            Err(e) => {
                buf.truncate(mark);
                assert(buf@ =~= old(buf)@);
                Err(e)
            },
        }
    }
}

/// A value that is written where there is one, and nothing where there is
/// none.
impl<A: Encode> Encode for Option<A> {
    open spec fn wire(&self) -> Seq<u8> {
        match self {
            Some(a) => a.wire(),
            None => Seq::empty(),
        }
    }

    open spec fn encodable(&self) -> bool {
        match self {
            Some(a) => a.encodable(),
            None => true,
        }
    }

    fn encode(self, buf: &mut CryptoBuffer) -> (r: Result<(), TlsError>) {
        match self {
            Some(a) => a.encode(buf),
            None => {
                let _ = buf.len();
                assert(buf@ =~= old(buf)@ + self.wire());
                Ok(())
            },
        }
    }
}

/// A slice of bytes with its length in front as one byte.
#[derive(Debug, Clone, Copy, PartialEq, Eq)]
pub struct SliceU8<'a>(pub &'a [u8]);

impl<'a> View for SliceU8<'a> {
    type V = Seq<u8>;

    open spec fn view(&self) -> Seq<u8> {
        self.0@
    }
}

impl<'a> Parse<'a> for SliceU8<'a> {
    open spec fn spec_parse(s: Seq<u8>) -> Result<(Seq<u8>, nat), ParseError> {
        if s.len() < 1 || s.len() < 1 + s[0] {
            Err(ParseError::InsufficientSpace)
        } else {
            Ok((s.subrange(1, 1 + s[0]), (1 + s[0]) as nat))
        }
    }

    fn parse(buf: &mut ParseBuffer<'a>) -> (r: Result<Self, ParseError>) {
        let len = match buf.read_u8() {
            Ok(v) => v as usize,
            Err(e) => {
                return Err(e);
            },
        };
        match buf.slice(len) {
            Ok(sub) => {
                assert(sub.bytes() =~= old(buf).unread().subrange(1, 1 + len));
                Ok(SliceU8(sub.as_slice()))
            },
            Err(e) => Err(e),
        }
    }
}

impl<'a> Encode for SliceU8<'a> {
    open spec fn wire(&self) -> Seq<u8> {
        seq![self.0@.len() as u8] + self.0@
    }

    open spec fn encodable(&self) -> bool {
        self.0@.len() <= 0xff
    }

    fn encode(self, buf: &mut CryptoBuffer) -> (r: Result<(), TlsError>) {
        let r = buf.push_u8_prefixed(self.0);
        assert(r is Ok ==> buf@ =~= old(buf)@ + self.wire());
        r
    }
}

impl<'a> WireFormat<'a> for SliceU8<'a> {
    open spec fn well_formed(&self) -> bool {
        true
    }

    proof fn lemma_parse_of_wire(x: Self, rest: Seq<u8>) {
        let s = x.wire() + rest;
        assert(s[0] == x.0@.len() as u8);
        assert(s.subrange(1, 1 + s[0]) =~= x@);
    }

    proof fn lemma_wire_of_parsed(s: Seq<u8>, x: Self) {
        assert(x.wire() =~= s.take(1 + s[0]));
    }
}

/// Marks a structure as received from the peer: its lists are views of the
/// bytes they were parsed from.
#[derive(Debug)]
pub struct Remote;

/// Marks a structure as made here to be sent: its lists are the items to
/// encode.
#[derive(Debug)]
pub struct Local;

/// Gives a structure its storage by the side it is on: for lists of `U`, and
/// for the binders of a pre-shared key offer.
pub trait StorageType<'a, U> {
    /// What holds a list of `U`.
    type ListType;

    /// What holds the binders.
    type BinderList;
}

impl<'a, U: Parse<'a> + 'a> StorageType<'a, U> for Remote {
    type ListType = ZerocopyList<'a, U>;

    type BinderList = ZerocopyList<'a, SliceU8<'a>>;
}

impl<'a, U: Encode + Copy + 'a> StorageType<'a, U> for Local {
    type ListType = DynIterList<'a, U>;

    // for binders only the length of each one is known when the offer is encoded
    type BinderList = DynIterList<'a, u8>;
}

/// The views of the items of `items`, in order.
pub open spec fn views<T: View>(items: Seq<T>) -> Seq<T::V> {
    Seq::new(items.len(), |i: int| items[i]@)
}

/// The items that stand at the front of `s` one after the other, up to the
/// end of `s` or to the first place where no item parses.
pub open spec fn items_of<'a, U: Parse<'a>>(s: Seq<u8>) -> Seq<U::V>
    decreases s.len(),
{
    if s.len() == 0 {
        Seq::empty()
    } else {
        match U::spec_parse(s) {
            Ok((v, n)) => if 0 < n <= s.len() {
                seq![v] + items_of::<U>(s.skip(n as int))
            } else {
                Seq::empty()
            },
            Err(_) => Seq::empty(),
        }
    }
}

/// `None` when `s` is a run of items from its first byte to its last;
/// otherwise the error of the first parse that fails. An item that takes no
/// bytes counts as invalid data.
pub open spec fn items_error<'a, U: Parse<'a>>(s: Seq<u8>) -> Option<ParseError>
    decreases s.len(),
{
    if s.len() == 0 {
        None
    } else {
        match U::spec_parse(s) {
            Ok((v, n)) => if 0 < n <= s.len() {
                items_error::<U>(s.skip(n as int))
            } else {
                Some(ParseError::InvalidData)
            },
            Err(e) => Some(e),
        }
    }
}

/// The bytes of the items of `items`, one after the other.
pub open spec fn wire_items<U: Encode>(items: Seq<U>) -> Seq<u8>
    decreases items.len(),
{
    if items.len() == 0 {
        Seq::empty()
    } else {
        items[0].wire() + wire_items(items.skip(1))
    }
}

/// Whether every item of `items` can be written.
pub open spec fn items_encodable<U: Encode>(items: Seq<U>) -> bool {
    forall|i: int| 0 <= i < items.len() ==> (#[trigger] items[i]).encodable()
}

/// Whether every item of `items` is one that parsing accepts.
pub open spec fn items_well_formed<'a, U: WireFormat<'a>>(items: Seq<U>) -> bool {
    forall|i: int| 0 <= i < items.len() ==> (#[trigger] items[i]).well_formed()
}

/// The bytes of two runs of items, one after the other, are the bytes of the
/// two runs joined.
pub proof fn lemma_wire_items_concat<U: Encode>(a: Seq<U>, b: Seq<U>)
    ensures
        wire_items(a + b) == wire_items(a) + wire_items(b),
    decreases a.len(),
{
    if a.len() == 0 {
        assert(a + b =~= b);
        assert(wire_items(a) + wire_items(b) =~= wire_items(b));
    } else {
        assert((a + b).skip(1) =~= a.skip(1) + b);
        lemma_wire_items_concat(a.skip(1), b);
        assert(wire_items(a + b) =~= wire_items(a) + wire_items(b));
    }
}

/// The bytes of the first `k + 1` items are those of the first `k` followed
/// by the bytes of item `k`, and are no longer than the bytes of all items.
pub proof fn lemma_wire_items_step<U: Encode>(items: Seq<U>, k: int)
    requires
        0 <= k < items.len(),
    ensures
        wire_items(items.take(k + 1)) == wire_items(items.take(k)) + items[k].wire(),
        wire_items(items.take(k + 1)).len() <= wire_items(items).len(),
{
    let one = seq![items[k]];
    assert(items.take(k + 1) =~= items.take(k) + one);
    lemma_wire_items_concat(items.take(k), one);
    assert(one.skip(1).len() == 0);
    assert(wire_items(one.skip(1)) =~= Seq::<u8>::empty());
    assert(wire_items(one) =~= items[k].wire());
    assert(items =~= items.take(k + 1) + items.skip(k + 1));
    lemma_wire_items_concat(items.take(k + 1), items.skip(k + 1));
}

/// Parsing the bytes written for a run of items gives the run back: the
/// bytes are a run of items from first to last, with the views of `items`.
pub proof fn lemma_items_of_wire<'a, U: WireFormat<'a>>(items: Seq<U>)
    requires
        items_encodable(items),
        items_well_formed(items),
    ensures
        items_error::<U>(wire_items(items)) is None,
        items_of::<U>(wire_items(items)) == views(items),
    decreases items.len(),
{
    if items.len() == 0 {
        assert(items_of::<U>(wire_items(items)) =~= views(items));
    } else {
        let first = items[0];
        let rest = items.skip(1);
        let s = wire_items(items);
        assert(first.encodable() && first.well_formed());
        assert(items_encodable(rest) && items_well_formed(rest)) by {
            assert forall|i: int| 0 <= i < rest.len() implies (#[trigger] rest[i]).encodable() by {
                assert(rest[i] == items[i + 1]);
            }
            assert forall|i: int| 0 <= i < rest.len() implies (#[trigger] rest[i]).well_formed() by {
                assert(rest[i] == items[i + 1]);
            }
        }
        U::lemma_parse_of_wire(first, wire_items(rest));
        lemma_items_of_wire::<U>(rest);
        assert(s.skip(first.wire().len() as int) =~= wire_items(rest));
        assert(items_of::<U>(s) =~= seq![first@] + views(rest));
        assert(seq![first@] + views(rest) =~= views(items));
    }
}

/// Writing items whose views were parsed from `s`, a run of items from first
/// to last, gives `s`.
pub proof fn lemma_wire_of_items<'a, U: WireFormat<'a>>(s: Seq<u8>, items: Seq<U>)
    requires
        items_error::<U>(s) is None,
        items_of::<U>(s) == views(items),
    ensures
        items_encodable(items),
        items_well_formed(items),
        wire_items(items) == s,
    decreases s.len(),
{
    if s.len() == 0 {
        assert(views(items).len() == 0);
        assert(items.len() == 0);
        assert(wire_items(items) =~= s);
    } else {
        let p = U::spec_parse(s)->Ok_0;
        let tail = s.skip(p.1 as int);
        assert(items_of::<U>(s) == seq![p.0] + items_of::<U>(tail));
        assert(views(items).len() == items.len());
        assert(items.len() > 0);
        let first = items[0];
        let rest = items.skip(1);
        assert(views(items)[0] == first@);
        assert((seq![p.0] + items_of::<U>(tail))[0] == p.0);
        U::lemma_wire_of_parsed(s, first);
        assert(items_of::<U>(tail) =~= views(rest)) by {
            assert(views(items).skip(1) =~= views(rest));
            assert((seq![p.0] + items_of::<U>(tail)).skip(1) =~= items_of::<U>(tail));
        }
        lemma_wire_of_items::<U>(tail, rest);
        assert(items_encodable(items) && items_well_formed(items)) by {
            assert forall|i: int| 0 <= i < items.len() implies (#[trigger] items[i]).encodable() by {
                if i > 0 {
                    assert(items[i] == rest[i - 1]);
                }
            }
            assert forall|i: int| 0 <= i < items.len() implies (#[trigger] items[i]).well_formed() by {
                if i > 0 {
                    assert(items[i] == rest[i - 1]);
                }
            }
        }
        assert(wire_items(items) =~= s.take(p.1 as int) + tail);
        assert(s.take(p.1 as int) + tail =~= s);
    }
}

/// A list received from the peer: the bytes it was parsed from, known to be a
/// run of items of type `U`. The items are parsed again when they are read.
#[derive(Debug, PartialEq, Eq)]
pub struct ZerocopyList<'a, U>(pub &'a [u8], pub PhantomData<U>);

impl<'a, U: Parse<'a>> View for ZerocopyList<'a, U> {
    type V = Seq<U::V>;

    /// The items that the bytes spell.
    open spec fn view(&self) -> Seq<U::V> {
        items_of::<U>(self.0@)
    }
}

impl<'a, U: Parse<'a>> ZerocopyList<'a, U> {
    /// A cursor over the items, first to last.
    pub fn iter(&self) -> (r: ListIter<'a, U>)
        ensures
            r@ == self@,
            r.unread_len() == self.0@.len(),
    {
        let buf = ParseBuffer::new(self.0);
        assert(buf.unread() =~= self.0@);
        ListIter { buf, done: false, marker: PhantomData }
    }

    /// The number of items.
    pub fn len(&self) -> (r: usize)
        ensures
            r == self@.len(),
    {
        let mut it = self.iter();
        let mut count: usize = 0;
        let _ = self.0.len();
        loop
            invariant_except_break
                count + it.unread_len() <= self.0@.len(),
            invariant
                count + it@.len() == self@.len(),
                self.0@.len() <= usize::MAX,
            ensures
                count == self@.len(),
            decreases it@.len(),
        {
            match it.next() {
                Some(_) => {
                    count = count + 1;
                },
                None => {
                    break;
                },
            }
        }
        count
    }
}

impl<'a, U: Parse<'a>> Parse<'a> for ZerocopyList<'a, U> {
    open spec fn spec_parse(s: Seq<u8>) -> Result<(Seq<U::V>, nat), ParseError> {
        match items_error::<U>(s) {
            None => Ok((items_of::<U>(s), s.len())),
            Some(e) => Err(e),
        }
    }

    /// Takes all the unread bytes as the list, after checking that they are
    /// a run of items from first to last.
    #[verifier::rlimit(30)]
    fn parse(buf: &mut ParseBuffer<'a>) -> (r: Result<Self, ParseError>)
        ensures
            r matches Ok(list) ==> list.0@ == old(buf).unread(),
    {
        let n = buf.remaining();
        let mut sub = match buf.slice(n) {
            Ok(sub) => sub,
            Err(e) => {
                return Err(e);
            },
        };
        let data = sub.as_slice();
        assert(data@ =~= old(buf).unread());
        assert(sub.unread() =~= data@);
        // this loop only checks the data; the items are parsed again when read
        while !sub.is_empty()
            invariant
                old(buf).wf(),
                buf.wf(),
                buf.bytes() == old(buf).bytes(),
                buf.position() == old(buf).position() + data@.len(),
                data@ == old(buf).unread(),
                sub.bytes() == data@,
                sub.wf(),
                items_error::<U>(data@) == items_error::<U>(sub.unread()),
            decreases sub.unread().len(),
        {
            let before = sub.offset();
            let ghost unread = sub.unread();
            match U::parse(&mut sub) {
                Ok(_) => {
                    let after = sub.offset();
                    if after == before {
                        return Err(ParseError::InvalidData);
                    }
                    assert(sub.unread() =~= unread.skip(after - before));
                },
                Err(e) => {
                    return Err(e);
                },
            }
        }
        Ok(ZerocopyList(data, PhantomData))
    }
}

/// A cursor over the items of a list received from the peer.
pub struct ListIter<'a, U> {
    buf: ParseBuffer<'a>,
    done: bool,
    marker: PhantomData<U>,
}

impl<'a, U: Parse<'a>> View for ListIter<'a, U> {
    type V = Seq<U::V>;

    /// The items still to come.
    closed spec fn view(&self) -> Seq<U::V> {
        if self.done {
            Seq::empty()
        } else {
            items_of::<U>(self.buf.unread())
        }
    }
}

impl<'a, U: Parse<'a>> ListIter<'a, U> {
    /// The number of bytes the cursor has not passed yet.
    pub closed spec fn unread_len(&self) -> nat {
        self.buf.unread().len()
    }

    /// The next item, or `None` when no item is left. Each item takes at
    /// least one byte.
    pub fn next(&mut self) -> (r: Option<U>)
        ensures
            match r {
                Some(x) => {
                    &&& old(self)@.len() > 0
                    &&& x@ == old(self)@[0]
                    &&& final(self)@ == old(self)@.skip(1)
                    &&& final(self).unread_len() < old(self).unread_len()
                },
                None => old(self)@.len() == 0 && final(self)@.len() == 0,
            },
    {
        if self.done || self.buf.is_empty() {
            self.done = true;
            return None;
        }
        let before = self.buf.offset();
        let ghost unread = self.buf.unread();
        match U::parse(&mut self.buf) {
            Ok(x) => {
                let after = self.buf.offset();
                if after == before {
                    self.done = true;
                    None
                } else {
                    proof {
                        let p = U::spec_parse(unread)->Ok_0;
                        assert(p.1 == after - before);
                        assert(self.buf.unread() =~= unread.skip(p.1 as int));
                        assert(old(self)@ == seq![p.0] + items_of::<U>(unread.skip(p.1 as int)));
                        assert((seq![p.0] + items_of::<U>(self.buf.unread())).skip(1)
                            =~= items_of::<U>(self.buf.unread()));
                    }
                    Some(x)
                }
            },
            Err(_) => {
                self.done = true;
                None
            },
        }
    }
}

/// A list made here to be sent: the items, which are encoded one after the
/// other.
#[derive(Debug)]
pub struct DynIterList<'a, U>(pub &'a [U]);

impl<'a, U: Encode + Copy> DynIterList<'a, U> {
    /// The list of the items of `items`.
    pub fn new(items: &'a [U]) -> (r: Self)
        ensures
            r.0@ == items@,
    {
        DynIterList(items)
    }

    /// The number of items.
    pub fn len(&self) -> (r: usize)
        ensures
            r == self.0@.len(),
    {
        self.0.len()
    }
}

impl<'a, U: Encode + Copy> Encode for DynIterList<'a, U> {
    open spec fn wire(&self) -> Seq<u8> {
        wire_items(self.0@)
    }

    open spec fn encodable(&self) -> bool {
        items_encodable(self.0@)
    }

    fn encode(self, buf: &mut CryptoBuffer) -> (r: Result<(), TlsError>) {
        let mark = buf.len();
        let items = self.0;
        let n = items.len();
        let mut i: usize = 0;
        assert(items@.take(0) =~= Seq::<U>::empty());
        while i < n
            invariant
                i <= n,
                n == items@.len(),
                mark == old(buf)@.len(),
                old(buf).wf(),
                buf.wf(),
                buf.capacity() == old(buf).capacity(),
                buf.base() == old(buf).base(),
                buf@ == old(buf)@ + wire_items(items@.take(i as int)),
                items_encodable(items@.take(i as int)),
                items == self.0,
            decreases n - i,
        {
            let item = items[i];
            proof {
                lemma_wire_items_step(items@, i as int);
            }
            match item.encode(buf) {
                Ok(_) => {
                    assert(buf@ =~= old(buf)@ + wire_items(items@.take(i + 1)));
                    assert(items_encodable(items@.take(i + 1))) by {
                        assert forall|k: int| 0 <= k < i + 1 implies (#[trigger] items@.take(
                            i + 1,
                        )[k]).encodable() by {
                            if k < i {
                                assert(items@.take(i + 1)[k] == items@.take(i as int)[k]);
                            }
                        }
                    }
                },
                Err(_) => {
                    assert(!(self.encodable() && old(buf).fits(self.wire().len()))) by {
                        if items_encodable(items@) {
                            assert(items@[i as int].encodable());
                        }
                    }
                    buf.truncate(mark);
                    assert(buf@ =~= old(buf)@);
                    return Err(TlsError::EncodeError);
                },
            }
            i = i + 1;
        }
        assert(items@.take(n as int) =~= items@);
        Ok(())
    }
}

/// What stands at the front of `s` when a list of `U` is expected behind a
/// length prefix of `width` bytes, one or two: the items and the number of
/// bytes that prefix and items take.
pub open spec fn spec_parse_list<'a, U: Parse<'a>>(s: Seq<u8>, width: nat) -> Result<
    (Seq<U::V>, nat),
    ParseError,
> {
    if s.len() < width {
        Err(ParseError::InsufficientSpace)
    } else {
        let len = if width == 1 {
            s[0] as nat
        } else {
            u16_from_be(s) as nat
        };
        if s.len() < width + len {
            Err(ParseError::InsufficientSpace)
        } else {
            let body = s.subrange(width as int, (width + len) as int);
            match items_error::<U>(body) {
                None => Ok((items_of::<U>(body), width + len)),
                Some(e) => Err(e),
            }
        }
    }
}

/// The bytes of a list behind a length prefix of `width` bytes, one or two.
pub open spec fn wire_list<U: Encode>(items: Seq<U>, width: nat) -> Seq<u8> {
    let body = wire_items(items);
    if width == 1 {
        seq![body.len() as u8] + body
    } else {
        u16_to_be(body.len() as u16) + body
    }
}

/// Whether a list can be written behind a length prefix of `width` bytes:
/// every item can be written and the length of all of them fits the prefix.
pub open spec fn list_encodable<U: Encode>(items: Seq<U>, width: nat) -> bool {
    &&& items_encodable(items)
    &&& wire_items(items).len() < crate::buffer::prefix_limit(width)
}

/// Parses a list of `U` behind a one-byte length.
pub fn parse_list_u8<'a, U: Parse<'a>>(buf: &mut ParseBuffer<'a>) -> (r: Result<
    ZerocopyList<'a, U>,
    ParseError,
>)
    ensures
        parsed(*old(buf), *final(buf), r, spec_parse_list::<U>(old(buf).unread(), 1)),
        r matches Ok(list) ==> list.0@ == old(buf).unread().subrange(
            1,
            1 + old(buf).unread()[0],
        ),
{
    let len = match buf.read_u8() {
        Ok(v) => v as usize,
        Err(e) => {
            return Err(e);
        },
    };
    let mut sub = match buf.slice(len) {
        Ok(sub) => sub,
        Err(e) => {
            return Err(e);
        },
    };
    assert(sub.unread() =~= old(buf).unread().subrange(1, 1 + len));
    ZerocopyList::parse(&mut sub)
}

/// Parses a list of `U` behind a two-byte length.
pub fn parse_list_u16<'a, U: Parse<'a>>(buf: &mut ParseBuffer<'a>) -> (r: Result<
    ZerocopyList<'a, U>,
    ParseError,
>)
    ensures
        parsed(*old(buf), *final(buf), r, spec_parse_list::<U>(old(buf).unread(), 2)),
        r matches Ok(list) ==> list.0@ == old(buf).unread().subrange(
            2,
            2 + u16_from_be(old(buf).unread()),
        ),
{
    let len = match buf.read_u16() {
        Ok(v) => v as usize,
        Err(e) => {
            return Err(e);
        },
    };
    let mut sub = match buf.slice(len) {
        Ok(sub) => sub,
        Err(e) => {
            return Err(e);
        },
    };
    assert(sub.unread() =~= old(buf).unread().subrange(2, 2 + len));
    ZerocopyList::parse(&mut sub)
}

/// Encodes a list behind a one-byte length.
pub fn encode_list_u8<'a, U: Encode + Copy>(list: DynIterList<'a, U>, buf: &mut CryptoBuffer) -> (r:
    Result<(), TlsError>)
    ensures
        encoded(*old(buf), *final(buf), r, list_encodable(list.0@, 1), wire_list(list.0@, 1)),
{
    let r = buf.push_u8_prefixed(list);
    assert(r is Ok ==> buf@ =~= old(buf)@ + wire_list(list.0@, 1));
    r
}

/// Encodes a list behind a two-byte length.
pub fn encode_list_u16<'a, U: Encode
    + Copy>(list: DynIterList<'a, U>, buf: &mut CryptoBuffer) -> (r:
    Result<(), TlsError>)
    ensures
        encoded(*old(buf), *final(buf), r, list_encodable(list.0@, 2), wire_list(list.0@, 2)),
{
    let r = buf.push_u16_prefixed(list);
    assert(r is Ok ==> buf@ =~= old(buf)@ + wire_list(list.0@, 2));
    r
}

/// Parsing the bytes written for a list behind its length prefix gives the
/// list back, whatever follows it.
pub proof fn lemma_parse_of_wire_list<'a, U: WireFormat<'a>>(
    items: Seq<U>,
    width: nat,
    rest: Seq<u8>,
)
    requires
        width == 1 || width == 2,
        list_encodable(items, width),
        items_well_formed(items),
    ensures
        spec_parse_list::<U>(wire_list(items, width) + rest, width) matches Ok(p) && p.0 == views(
            items,
        ) && p.1 == wire_list(items, width).len(),
{
    let body = wire_items(items);
    let s = wire_list(items, width) + rest;
    lemma_items_of_wire::<U>(items);
    if width == 1 {
        assert(s[0] == body.len() as u8);
        assert(s.subrange(1, 1 + body.len() as int) =~= body);
    } else {
        lemma_u16_read_of_written(body.len() as u16, body + rest);
        assert(s =~= u16_to_be(body.len() as u16) + (body + rest));
        assert(s.subrange(2, 2 + body.len() as int) =~= body);
    }
}

/// Writing, behind its length prefix, a list whose views were parsed from
/// `s` gives the bytes it was parsed from.
pub proof fn lemma_wire_of_parsed_list<'a, U: WireFormat<'a>>(
    s: Seq<u8>,
    items: Seq<U>,
    width: nat,
)
    requires
        width == 1 || width == 2,
        spec_parse_list::<U>(s, width) matches Ok(p) && p.0 == views(items),
    ensures
        list_encodable(items, width),
        items_well_formed(items),
        spec_parse_list::<U>(s, width) matches Ok(p) && p.1 <= s.len() && wire_list(items, width)
            == s.take(p.1 as int),
{
    let p = spec_parse_list::<U>(s, width)->Ok_0;
    let body = s.subrange(width as int, p.1 as int);
    lemma_wire_of_items::<U>(body, items);
    if width == 1 {
        assert(wire_list(items, width) =~= s.take(p.1 as int));
    } else {
        lemma_u16_written_of_read(s);
        assert(wire_list(items, width) =~= s.take(2) + body);
        assert(s.take(2) + body =~= s.take(p.1 as int));
    }
}

/// What stands at the front of `s` when a byte string is expected behind a
/// two-byte length: the string and the number of bytes that length and string
/// take.
pub open spec fn spec_parse_opaque_u16(s: Seq<u8>) -> Result<(Seq<u8>, nat), ParseError> {
    if s.len() < 2 || s.len() < 2 + u16_from_be(s) {
        Err(ParseError::InsufficientSpace)
    } else {
        Ok((s.subrange(2, 2 + u16_from_be(s)), (2 + u16_from_be(s)) as nat))
    }
}

/// The bytes of a byte string behind a two-byte length.
pub open spec fn wire_opaque_u16(data: Seq<u8>) -> Seq<u8> {
    u16_to_be(data.len() as u16) + data
}

/// Parses a byte string behind a two-byte length.
pub fn parse_opaque_u16<'a>(buf: &mut ParseBuffer<'a>) -> (r: Result<&'a [u8], ParseError>)
    ensures
        parsed(*old(buf), *final(buf), r, spec_parse_opaque_u16(old(buf).unread())),
{
    let len = match buf.read_u16() {
        Ok(v) => v as usize,
        Err(e) => {
            return Err(e);
        },
    };
    match buf.slice(len) {
        Ok(sub) => {
            assert(sub.bytes() =~= old(buf).unread().subrange(2, 2 + len));
            Ok(sub.as_slice())
        },
        Err(e) => Err(e),
    }
}

/// Encodes a byte string behind a two-byte length.
pub fn encode_opaque_u16(data: &[u8], buf: &mut CryptoBuffer) -> (r: Result<(), TlsError>)
    ensures
        encoded(*old(buf), *final(buf), r, data@.len() <= 0xffff, wire_opaque_u16(data@)),
{
    let r = buf.push_u16_prefixed(data);
    assert(r is Ok ==> buf@ =~= old(buf)@ + wire_opaque_u16(data@));
    r
}

/// Parsing the bytes written for a byte string behind its two-byte length
/// gives the string back, whatever follows it.
pub proof fn lemma_parse_of_wire_opaque_u16(data: Seq<u8>, rest: Seq<u8>)
    requires
        data.len() <= 0xffff,
    ensures
        spec_parse_opaque_u16(wire_opaque_u16(data) + rest) == Ok::<_, ParseError>(
            (data, 2 + data.len()),
        ),
{
    let s = wire_opaque_u16(data) + rest;
    lemma_u16_read_of_written(data.len() as u16, data + rest);
    assert(s =~= u16_to_be(data.len() as u16) + (data + rest));
    assert(s.subrange(2, 2 + data.len() as int) =~= data);
}

/// Writing, behind its two-byte length, the byte string that was parsed from
/// `s` gives the bytes it was parsed from.
pub proof fn lemma_wire_of_parsed_opaque_u16(s: Seq<u8>)
    requires
        spec_parse_opaque_u16(s) is Ok,
    ensures
        spec_parse_opaque_u16(s) matches Ok(p) && p.0.len() <= 0xffff && p.1 <= s.len()
            && wire_opaque_u16(p.0) == s.take(p.1 as int),
{
    let p = spec_parse_opaque_u16(s)->Ok_0;
    lemma_u16_written_of_read(s);
    assert(wire_opaque_u16(p.0) =~= s.take(2) + p.0);
    assert(s.take(2) + p.0 =~= s.take(p.1 as int));
}

/// What stands at the front of `s` when a byte string is expected behind a
/// three-byte length: the string and the number of bytes that length and
/// string take.
pub open spec fn spec_parse_opaque_u24(s: Seq<u8>) -> Result<(Seq<u8>, nat), ParseError> {
    if s.len() < 3 || s.len() < 3 + u24_from_be(s) {
        Err(ParseError::InsufficientSpace)
    } else {
        Ok((s.subrange(3, 3 + u24_from_be(s)), (3 + u24_from_be(s)) as nat))
    }
}

/// The bytes of a byte string behind a three-byte length.
pub open spec fn wire_opaque_u24(data: Seq<u8>) -> Seq<u8> {
    u24_to_be(data.len() as u32) + data
}

/// Parses a byte string behind a three-byte length.
pub fn parse_opaque_u24<'a>(buf: &mut ParseBuffer<'a>) -> (r: Result<&'a [u8], ParseError>)
    ensures
        parsed(*old(buf), *final(buf), r, spec_parse_opaque_u24(old(buf).unread())),
{
    let len = match buf.read_u24() {
        Ok(v) => v as usize,
        Err(e) => {
            return Err(e);
        },
    };
    match buf.slice(len) {
        Ok(sub) => {
            assert(sub.bytes() =~= old(buf).unread().subrange(3, 3 + len));
            Ok(sub.as_slice())
        },
        Err(e) => Err(e),
    }
}

/// Encodes a byte string behind a three-byte length.
pub fn encode_opaque_u24(data: &[u8], buf: &mut CryptoBuffer) -> (r: Result<(), TlsError>)
    ensures
        encoded(*old(buf), *final(buf), r, data@.len() <= 0xff_ffff, wire_opaque_u24(data@)),
{
    let r = buf.push_u24_prefixed(data);
    assert(r is Ok ==> buf@ =~= old(buf)@ + wire_opaque_u24(data@));
    r
}

/// Parsing the bytes written for a byte string behind its three-byte length
/// gives the string back, whatever follows it.
pub proof fn lemma_parse_of_wire_opaque_u24(data: Seq<u8>, rest: Seq<u8>)
    requires
        data.len() <= 0xff_ffff,
    ensures
        spec_parse_opaque_u24(wire_opaque_u24(data) + rest) == Ok::<_, ParseError>(
            (data, 3 + data.len()),
        ),
{
    let s = wire_opaque_u24(data) + rest;
    lemma_u24_read_of_written(data.len() as u32, data + rest);
    assert(s =~= u24_to_be(data.len() as u32) + (data + rest));
    assert(s.subrange(3, 3 + data.len() as int) =~= data);
}

/// Writing, behind its three-byte length, the byte string that was parsed
/// from `s` gives the bytes it was parsed from.
pub proof fn lemma_wire_of_parsed_opaque_u24(s: Seq<u8>)
    requires
        spec_parse_opaque_u24(s) is Ok,
    ensures
        spec_parse_opaque_u24(s) matches Ok(p) && p.0.len() <= 0xff_ffff && p.1 <= s.len()
            && wire_opaque_u24(p.0) == s.take(p.1 as int),
{
    let p = spec_parse_opaque_u24(s)->Ok_0;
    lemma_u24_written_of_read(s);
    assert(wire_opaque_u24(p.0) =~= s.take(3) + p.0);
    assert(s.take(3) + p.0 =~= s.take(p.1 as int));
}

} // verus!

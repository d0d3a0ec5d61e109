//! A list whose storage follows the side it is on: received, it is the
//! bytes it was parsed from; to be sent, it is the items themselves.

use vstd::prelude::*;
use core::marker::PhantomData;
use crate::TlsError;
use crate::buffer::CryptoBuffer;
use crate::parse_buffer::{ParseBuffer, ParseError};
use crate::parse_encode::{
    encode_opaque_u16, encoded, items_encodable, lemma_parse_of_wire_list, lemma_wire_items_step,
    lemma_wire_of_parsed_list, list_encodable, parse_list_u16, spec_parse_list, views, wire_items,
    wire_list, wire_opaque_u16, Encode, ListIter, Parse, WireFormat, ZerocopyList,
};

verus! {

/// Marks a list as received from the peer.
#[derive(Debug)]
pub struct Remote;

/// Marks a list as made here to be sent.
#[derive(Debug)]
pub struct Local;

/// Gives a list of `T` the type of what it stores, by the side it is on:
/// bytes for a list received, items for a list to send.
pub trait StorageType<T> {
    /// What the list stores one of: a byte, or an item.
    type Item;
}

impl<T> StorageType<T> for Remote {
    type Item = u8;
}

impl<T> StorageType<T> for Local {
    type Item = T;
}

/// A value with a wire format that borrows nothing: it can be parsed and
/// encoded, and the two undo each other.
pub trait ParseEncode: Sized {
    /// What parsing finds at the front of `s`: the value and the number of
    /// bytes it takes, or the reason why there is none.
    spec fn spec_parse(s: Seq<u8>) -> Result<(Self, nat), ParseError>;

    /// The bytes that the value is written as.
    spec fn wire(&self) -> Seq<u8>;

    /// Whether the value can be written at all.
    spec fn encodable(&self) -> bool;

    /// Appends the value's bytes to `buf`. On failure `buf` holds what it
    /// held before.
    fn encode(&self, buf: &mut CryptoBuffer) -> (r: Result<(), TlsError>)
        ensures
            encoded(*old(buf), *final(buf), r, self.encodable(), self.wire()),
    ;

    /// Reads one value from the unread bytes of `buf` and moves past it.
    fn parse(buf: &mut ParseBuffer) -> (r: Result<Self, ParseError>)
        ensures
            old(buf).wf(),
            final(buf).wf(),
            final(buf).bytes() == old(buf).bytes(),
            match Self::spec_parse(old(buf).unread()) {
                Ok((v, n)) => r matches Ok(x) && x == v
                    && final(buf).position() == old(buf).position() + n,
                Err(e) => r matches Err(f) && f == e,
            },
    ;

    /// Parsing what was written for `x` gives `x` back, whatever follows
    /// it, and something was written.
    proof fn lemma_parse_of_wire(x: Self, rest: Seq<u8>)
        requires
            x.encodable(),
        ensures
            Self::spec_parse(x.wire() + rest) matches Ok(p) && p.0 == x && p.1 == x.wire().len(),
            x.wire().len() > 0,
    ;

    /// Writing a value that was parsed from `s` gives the bytes it was
    /// parsed from.
    proof fn lemma_wire_of_parsed(s: Seq<u8>)
        requires
            Self::spec_parse(s) is Ok,
        ensures
            Self::spec_parse(s) matches Ok(p) && p.0.encodable() && p.1 <= s.len() && p.0.wire()
                == s.take(p.1 as int),
    ;
}

impl ParseEncode for u8 {
    open spec fn spec_parse(s: Seq<u8>) -> Result<(u8, nat), ParseError> {
        <u8 as Parse>::spec_parse(s)
    }

    open spec fn wire(&self) -> Seq<u8> {
        Encode::wire(self)
    }

    open spec fn encodable(&self) -> bool {
        true
    }

    fn encode(&self, buf: &mut CryptoBuffer) -> (r: Result<(), TlsError>) {
        buf.push(*self)
    }

    fn parse(buf: &mut ParseBuffer) -> (r: Result<Self, ParseError>) {
        buf.read_u8()
    }

    proof fn lemma_parse_of_wire(x: Self, rest: Seq<u8>) {
        <u8 as WireFormat>::lemma_parse_of_wire(x, rest);
    }

    proof fn lemma_wire_of_parsed(s: Seq<u8>) {
        <u8 as WireFormat>::lemma_wire_of_parsed(s, s[0]);
    }
}

impl ParseEncode for u16 {
    open spec fn spec_parse(s: Seq<u8>) -> Result<(u16, nat), ParseError> {
        <u16 as Parse>::spec_parse(s)
    }

    open spec fn wire(&self) -> Seq<u8> {
        Encode::wire(self)
    }

    open spec fn encodable(&self) -> bool {
        true
    }

    fn encode(&self, buf: &mut CryptoBuffer) -> (r: Result<(), TlsError>) {
        buf.push_u16(*self)
    }

    fn parse(buf: &mut ParseBuffer) -> (r: Result<Self, ParseError>) {
        buf.read_u16()
    }

    proof fn lemma_parse_of_wire(x: Self, rest: Seq<u8>) {
        <u16 as WireFormat>::lemma_parse_of_wire(x, rest);
    }

    proof fn lemma_wire_of_parsed(s: Seq<u8>) {
        <u16 as WireFormat>::lemma_wire_of_parsed(s, crate::big_endian::u16_from_be(s));
    }
}

impl ParseEncode for u32 {
    open spec fn spec_parse(s: Seq<u8>) -> Result<(u32, nat), ParseError> {
        <u32 as Parse>::spec_parse(s)
    }

    open spec fn wire(&self) -> Seq<u8> {
        Encode::wire(self)
    }

    open spec fn encodable(&self) -> bool {
        true
    }

    fn encode(&self, buf: &mut CryptoBuffer) -> (r: Result<(), TlsError>) {
        buf.push_u32(*self)
    }

    fn parse(buf: &mut ParseBuffer) -> (r: Result<Self, ParseError>) {
        buf.read_u32()
    }

    proof fn lemma_parse_of_wire(x: Self, rest: Seq<u8>) {
        <u32 as WireFormat>::lemma_parse_of_wire(x, rest);
    }

    proof fn lemma_wire_of_parsed(s: Seq<u8>) {
        <u32 as WireFormat>::lemma_wire_of_parsed(s, crate::big_endian::u32_from_be(s));
    }
}

/// An item of a list, seen as a value of the wire codec. Its view is the
/// item.
pub struct Item<T>(pub T);

impl<T> View for Item<T> {
    type V = T;

    open spec fn view(&self) -> T {
        self.0
    }
}

impl<'a, T: ParseEncode> Parse<'a> for Item<T> {
    open spec fn spec_parse(s: Seq<u8>) -> Result<(T, nat), ParseError> {
        T::spec_parse(s)
    }

    fn parse(buf: &mut ParseBuffer<'a>) -> (r: Result<Self, ParseError>) {
        match T::parse(buf) {
            Ok(x) => Ok(Item(x)),
            Err(e) => Err(e),
        }
    }
}

impl<T: ParseEncode> Encode for Item<T> {
    open spec fn wire(&self) -> Seq<u8> {
        self.0.wire()
    }

    open spec fn encodable(&self) -> bool {
        self.0.encodable()
    }

    fn encode(self, buf: &mut CryptoBuffer) -> (r: Result<(), TlsError>) {
        self.0.encode(buf)
    }
}

impl<'a, T: ParseEncode> WireFormat<'a> for Item<T> {
    open spec fn well_formed(&self) -> bool {
        true
    }

    proof fn lemma_parse_of_wire(x: Self, rest: Seq<u8>) {
        T::lemma_parse_of_wire(x.0, rest);
    }

    proof fn lemma_wire_of_parsed(s: Seq<u8>, x: Self) {
        T::lemma_wire_of_parsed(s);
    }
}

/// The items of `items`, each seen as a value of the wire codec.
pub open spec fn as_items<T>(items: Seq<T>) -> Seq<Item<T>> {
    Seq::new(items.len(), |i: int| Item(items[i]))
}

/// A list of `T` that is written behind a two-byte length.
pub struct List<'a, T, Location: StorageType<T>> {
    pub data: &'a [Location::Item],
    pub marker: PhantomData<T>,
}

impl<'a, T: ParseEncode> View for List<'a, T, Remote> {
    type V = Seq<T>;

    /// The items that the bytes spell.
    open spec fn view(&self) -> Seq<T> {
        crate::parse_encode::items_of::<Item<T>>(self.data@)
    }
}

impl<'a, T: ParseEncode> List<'a, T, Remote> {
    /// What stands at the front of `s` when a list is expected: the items
    /// behind a two-byte length.
    pub open spec fn spec_parse(s: Seq<u8>) -> Result<(Seq<T>, nat), ParseError> {
        spec_parse_list::<Item<T>>(s, 2)
    }

    /// The bytes that the list is written as: the bytes it was parsed from
    /// behind their two-byte length.
    pub open spec fn wire(self) -> Seq<u8> {
        wire_opaque_u16(self.data@)
    }

    /// Reads the two-byte length and takes that many bytes as the list,
    /// after checking that they are items from first to last.
    pub fn parse(buf: &mut ParseBuffer<'a>) -> (r: Result<Self, ParseError>)
        ensures
            old(buf).wf(),
            final(buf).wf(),
            final(buf).bytes() == old(buf).bytes(),
            match Self::spec_parse(old(buf).unread()) {
                Ok((v, n)) => r matches Ok(x) && x@ == v
                    && final(buf).position() == old(buf).position() + n
                        && x.wire() == old(buf).unread().take(n as int),
                Err(e) => r matches Err(f) && f == e,
            },
    {
        match parse_list_u16::<Item<T>>(buf) {
            Ok(list) => {
                proof {
                    crate::big_endian::lemma_u16_written_of_read(old(buf).unread());
                    let s = old(buf).unread();
                    let n = 2 + list.0@.len();
                    assert(wire_opaque_u16(list.0@) =~= s.take(2) + list.0@);
                    assert(s.take(2) + list.0@ =~= s.take(n as int));
                }
                Ok(List { data: list.0, marker: PhantomData })
            },
            Err(e) => Err(e),
        }
    }

    /// Writes the bytes of the list behind a two-byte length.
    pub fn encode(&self, buf: &mut CryptoBuffer) -> (r: Result<(), TlsError>)
        ensures
            encoded(*old(buf), *final(buf), r, self.data@.len() <= 0xffff, self.wire()),
    {
        encode_opaque_u16(self.data, buf)
    }

    /// A cursor over the items, first to last.
    pub fn iter(&self) -> (r: ListIter<'a, Item<T>>)
        ensures
            r@ == self@,
    {
        ZerocopyList::<'a, Item<T>>(self.data, PhantomData).iter()
    }
}

impl<'a, T: ParseEncode> List<'a, T, Local> {
    /// The bytes that the list is written as: the bytes of the items behind
    /// a two-byte length.
    pub open spec fn wire(self) -> Seq<u8> {
        wire_list(as_items(self.data@), 2)
    }

    /// Whether the list can be written: every item can, and the bytes of
    /// all fit the two-byte length.
    pub open spec fn encodable(self) -> bool {
        list_encodable(as_items(self.data@), 2)
    }

    /// The list of the items of `data`.
    pub fn new(data: &'a [T]) -> (r: Self)
        ensures
            r.data@ == data@,
    {
        List { data, marker: PhantomData }
    }

    /// Writes the items behind a two-byte length.
    pub fn encode(&self, buf: &mut CryptoBuffer) -> (r: Result<(), TlsError>)
        ensures
            encoded(*old(buf), *final(buf), r, self.encodable(), self.wire()),
    {
        Self::encode_from_iter(buf, self.data)
    }

    /// Writes the items of `items` behind a two-byte length.
    pub fn encode_from_iter(buf: &mut CryptoBuffer, items: &[T]) -> (r: Result<(), TlsError>)
        ensures
            encoded(
                *old(buf),
                *final(buf),
                r,
                list_encodable(as_items(items@), 2),
                wire_list(as_items(items@), 2),
            ),
    {
        let r = buf.push_u16_prefixed(Items(items));
        assert(r is Ok ==> buf@ =~= old(buf)@ + wire_list(as_items(items@), 2));
        r
    }

    /// The items, first to last.
    pub fn iter(&self) -> (r: &'a [T])
        ensures
            r@ == self.data@,
    {
        self.data
    }
}

/// Items to send, as the body of their length-prefixed region.
pub struct Items<'x, T>(pub &'x [T]);

impl<'x, T: ParseEncode> Encode for Items<'x, T> {
    open spec fn wire(&self) -> Seq<u8> {
        wire_items(as_items(self.0@))
    }

    open spec fn encodable(&self) -> bool {
        items_encodable(as_items(self.0@))
    }

    fn encode(self, buf: &mut CryptoBuffer) -> (r: Result<(), TlsError>) {
        let mark = buf.len();
        let items = self.0;
        let n = items.len();
        let ghost all = as_items(items@);
        let mut i: usize = 0;
        assert(all.take(0) =~= Seq::<Item<T>>::empty());
        while i < n
            invariant
                i <= n,
                n == items@.len(),
                items == self.0,
                all == as_items(items@),
                mark == old(buf)@.len(),
                old(buf).wf(),
                buf.wf(),
                buf.capacity() == old(buf).capacity(),
                buf.base() == old(buf).base(),
                buf@ == old(buf)@ + wire_items(all.take(i as int)),
                items_encodable(all.take(i as int)),
            decreases n - i,
        {
            proof {
                lemma_wire_items_step(all, i as int);
                assert(all[i as int] == Item(items@[i as int]));
            }
            match items[i].encode(buf) {
                Ok(_) => {
                    assert(buf@ =~= old(buf)@ + wire_items(all.take(i + 1)));
                    assert(items_encodable(all.take(i + 1))) by {
                        assert forall|k: int| 0 <= k < i + 1 implies (#[trigger] all.take(
                            i + 1,
                        )[k]).encodable() by {
                            if k < i {
                                assert(all.take(i + 1)[k] == all.take(i as int)[k]);
                            }
                        }
                    }
                },
                Err(_) => {
                    assert(!(self.encodable() && old(buf).fits(self.wire().len()))) by {
                        if items_encodable(all) {
                            assert(all[i as int].encodable());
                        }
                    }
                    buf.truncate(mark);
                    assert(buf@ =~= old(buf)@);
                    return Err(TlsError::EncodeError);
                },
            }
            i = i + 1;
        }
        assert(all.take(n as int) =~= all);
        Ok(())
    }
}

/// Parsing what was written for a list to send gives its items back, and
/// writing the items that a received list holds gives the bytes it was
/// parsed from.
pub proof fn lemma_list_round_trip<T: ParseEncode>(items: Seq<T>, s: Seq<u8>, rest: Seq<u8>)
    ensures
        list_encodable(as_items(items), 2) ==> spec_parse_list::<Item<T>>(
            wire_list(as_items(items), 2) + rest,
            2,
        ) == Ok::<_, ParseError>((items, wire_list(as_items(items), 2).len())),
        match spec_parse_list::<Item<T>>(s, 2) {
            Ok(p) => p.0 == items ==> list_encodable(as_items(items), 2) && p.1 <= s.len()
                && wire_list(as_items(items), 2) == s.take(p.1 as int),
            Err(_) => true,
        },
{
    assert(views(as_items(items)) =~= items);
    if list_encodable(as_items(items), 2) {
        lemma_parse_of_wire_list::<Item<T>>(as_items(items), 2, rest);
    }
    if spec_parse_list::<Item<T>>(s, 2) is Ok {
        if spec_parse_list::<Item<T>>(s, 2)->Ok_0.0 == items {
            lemma_wire_of_parsed_list::<Item<T>>(s, as_items(items), 2);
        }
    }
}

} // verus!

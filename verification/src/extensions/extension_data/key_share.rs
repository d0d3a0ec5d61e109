//! The `key_share` extension: the public values offered for key exchange.

use vstd::prelude::*;
use crate::TlsError;
use crate::big_endian::u16_from_be;
use crate::buffer::CryptoBuffer;
use crate::extensions::extension_data::supported_groups::NamedGroup;
use crate::parse_buffer::{ParseBuffer, ParseError};
use crate::parse_encode::{
    encode_list_u16, encode_opaque_u16, encoded, items_of, lemma_parse_of_wire_opaque_u16,
    lemma_wire_of_parsed_opaque_u16, list_encodable, parse_list_u16, parse_opaque_u16, parsed,
    spec_parse_list, spec_parse_opaque_u16, wire_list, wire_opaque_u16, DynIterList, Encode,
    ListIter, Parse, WireFormat, ZerocopyList,
};

verus! {

/// One key share: a group and the public value offered for it. Its view is
/// the pair of the group and the bytes of the public value.
#[derive(Debug, Clone, Copy, PartialEq, Eq)]
pub struct KeyShareEntry<'a> {
    pub group: NamedGroup,
    pub opaque: &'a [u8],
}

impl<'a> View for KeyShareEntry<'a> {
    type V = (NamedGroup, Seq<u8>);

    open spec fn view(&self) -> (NamedGroup, Seq<u8>) {
        (self.group, self.opaque@)
    }
}

impl<'a> KeyShareEntry<'a> {
    /// Reads the group, then the public value behind its two-byte length.
    pub fn parse(buf: &mut ParseBuffer<'a>) -> (r: Result<Self, ParseError>)
        ensures
            parsed(*old(buf), *final(buf), r, <Self as Parse>::spec_parse(old(buf).unread())),
    {
        let group = match NamedGroup::parse(buf) {
            Ok(g) => g,
            Err(e) => {
                return Err(e);
            },
        };
        assert(buf.unread() =~= old(buf).unread().skip(2));
        match parse_opaque_u16(buf) {
            Ok(opaque) => Ok(KeyShareEntry { group, opaque }),
            Err(e) => Err(e),
        }
    }

    /// Writes the group, then the public value behind its two-byte length.
    pub fn encode(&self, buf: &mut CryptoBuffer) -> (r: Result<(), TlsError>)
        ensures
            encoded(*old(buf), *final(buf), r, self.encodable(), self.wire()),
    {
        let mark = buf.len();
        match self.group.encode(buf) {
            Ok(_) => {},
            Err(e) => {
                return Err(e);
            },
        }
        match encode_opaque_u16(self.opaque, buf) {
            Ok(_) => {
                assert(buf@ =~= old(buf)@ + self.wire());
                Ok(())
            },
            Err(e) => {
                buf.truncate(mark);
                assert(buf@ =~= old(buf)@);
                Err(e)
            },
        }
    }
}

impl<'a> Parse<'a> for KeyShareEntry<'a> {
    open spec fn spec_parse(s: Seq<u8>) -> Result<((NamedGroup, Seq<u8>), nat), ParseError> {
        match NamedGroup::spec_parse(s) {
            Ok((group, _)) => match spec_parse_opaque_u16(s.skip(2)) {
                Ok((opaque, n)) => Ok(((group, opaque), 2 + n)),
                Err(e) => Err(e),
            },
            Err(e) => Err(e),
        }
    }

    fn parse(buf: &mut ParseBuffer<'a>) -> (r: Result<Self, ParseError>) {
        KeyShareEntry::parse(buf)
    }
}

impl<'a> Encode for KeyShareEntry<'a> {
    open spec fn wire(&self) -> Seq<u8> {
        self.group.wire() + wire_opaque_u16(self.opaque@)
    }

    open spec fn encodable(&self) -> bool {
        self.opaque@.len() <= 0xffff
    }

    fn encode(self, buf: &mut CryptoBuffer) -> (r: Result<(), TlsError>) {
        KeyShareEntry::encode(&self, buf)
    }
}

impl<'a> WireFormat<'a> for KeyShareEntry<'a> {
    open spec fn well_formed(&self) -> bool {
        true
    }

    proof fn lemma_parse_of_wire(x: Self, rest: Seq<u8>) {
        let s = x.wire() + rest;
        let tail = wire_opaque_u16(x.opaque@) + rest;
        assert(s =~= x.group.wire() + tail);
        NamedGroup::lemma_parse_of_wire(x.group, tail);
        assert(s.skip(2) =~= tail);
        lemma_parse_of_wire_opaque_u16(x.opaque@, rest);
    }

    proof fn lemma_wire_of_parsed(s: Seq<u8>, x: Self) {
        NamedGroup::lemma_wire_of_parsed(s, x.group);
        lemma_wire_of_parsed_opaque_u16(s.skip(2));
        let n = spec_parse_opaque_u16(s.skip(2))->Ok_0.1;
        assert(s.take(2) + s.skip(2).take(n as int) =~= s.take(2 + n as int));
    }
}

/// The key share that the server selected.
#[derive(Debug, Clone, Copy, PartialEq, Eq)]
pub struct KeyShareServerHello<'a>(pub KeyShareEntry<'a>);

impl<'a> View for KeyShareServerHello<'a> {
    type V = (NamedGroup, Seq<u8>);

    open spec fn view(&self) -> (NamedGroup, Seq<u8>) {
        self.0@
    }
}

impl<'a> KeyShareServerHello<'a> {
    /// Reads the one key share.
    pub fn parse(buf: &mut ParseBuffer<'a>) -> (r: Result<Self, ParseError>)
        ensures
            parsed(*old(buf), *final(buf), r, <Self as Parse>::spec_parse(old(buf).unread())),
    {
        match KeyShareEntry::parse(buf) {
            Ok(entry) => Ok(KeyShareServerHello(entry)),
            Err(e) => Err(e),
        }
    }

    /// Writes the one key share.
    pub fn encode(&self, buf: &mut CryptoBuffer) -> (r: Result<(), TlsError>)
        ensures
            encoded(*old(buf), *final(buf), r, self.encodable(), self.wire()),
    {
        self.0.encode(buf)
    }
}

impl<'a> Parse<'a> for KeyShareServerHello<'a> {
    open spec fn spec_parse(s: Seq<u8>) -> Result<((NamedGroup, Seq<u8>), nat), ParseError> {
        KeyShareEntry::spec_parse(s)
    }

    fn parse(buf: &mut ParseBuffer<'a>) -> (r: Result<Self, ParseError>) {
        KeyShareServerHello::parse(buf)
    }
}

impl<'a> Encode for KeyShareServerHello<'a> {
    open spec fn wire(&self) -> Seq<u8> {
        self.0.wire()
    }

    open spec fn encodable(&self) -> bool {
        self.0.encodable()
    }

    fn encode(self, buf: &mut CryptoBuffer) -> (r: Result<(), TlsError>) {
        KeyShareServerHello::encode(&self, buf)
    }
}

impl<'a> WireFormat<'a> for KeyShareServerHello<'a> {
    open spec fn well_formed(&self) -> bool {
        true
    }

    proof fn lemma_parse_of_wire(x: Self, rest: Seq<u8>) {
        KeyShareEntry::lemma_parse_of_wire(x.0, rest);
    }

    proof fn lemma_wire_of_parsed(s: Seq<u8>, x: Self) {
        KeyShareEntry::lemma_wire_of_parsed(s, x.0);
    }
}

/// The key shares that the client offers: the bytes of the entries, one after
/// the other, without the length in front of them. Its view is the entries.
#[derive(Debug, Clone, Copy, PartialEq, Eq)]
pub struct KeyShareClientHello<'a> {
    pub client_shares: &'a [u8],
}

impl<'a> View for KeyShareClientHello<'a> {
    type V = Seq<(NamedGroup, Seq<u8>)>;

    open spec fn view(&self) -> Seq<(NamedGroup, Seq<u8>)> {
        items_of::<KeyShareEntry>(self.client_shares@)
    }
}

impl<'a> KeyShareClientHello<'a> {
    /// Writes the entries of `entries` behind a two-byte length.
    pub fn encode_from_iter<'i>(buf: &mut CryptoBuffer, entries: &'i [KeyShareEntry<'i>]) -> (r:
        Result<(), TlsError>)
        ensures
            encoded(
                *old(buf),
                *final(buf),
                r,
                list_encodable(entries@, 2),
                wire_list(entries@, 2),
            ),
    {
        encode_list_u16(DynIterList::new(entries), buf)
    }

    /// A cursor over the entries, first to last.
    pub fn key_shares(&self) -> (r: ListIter<'a, KeyShareEntry<'a>>)
        ensures
            r@ == self@,
    {
        ZerocopyList::<'a, KeyShareEntry<'a>>(self.client_shares, core::marker::PhantomData).iter()
    }

    /// Reads the two-byte length and takes that many bytes as the entries,
    /// after checking that they are entries from first to last.
    pub fn parse(buf: &mut ParseBuffer<'a>) -> (r: Result<Self, ParseError>)
        ensures
            parsed(*old(buf), *final(buf), r, <Self as Parse>::spec_parse(old(buf).unread())),
            r matches Ok(x) ==> x.client_shares@ == old(buf).unread().subrange(
                2,
                2 + u16_from_be(old(buf).unread()),
            ),
    {
        // the whole region is checked here so that `key_shares` finds only entries
        match parse_list_u16::<KeyShareEntry<'a>>(buf) {
            Ok(list) => Ok(KeyShareClientHello { client_shares: list.0 }),
            Err(e) => Err(e),
        }
    }

    /// Writes the bytes of the entries behind a two-byte length.
    pub fn encode(&self, buf: &mut CryptoBuffer) -> (r: Result<(), TlsError>)
        ensures
            encoded(*old(buf), *final(buf), r, self.encodable(), self.wire()),
    {
        encode_opaque_u16(self.client_shares, buf)
    }
}

impl<'a> Parse<'a> for KeyShareClientHello<'a> {
    open spec fn spec_parse(s: Seq<u8>) -> Result<(Seq<(NamedGroup, Seq<u8>)>, nat), ParseError> {
        spec_parse_list::<KeyShareEntry>(s, 2)
    }

    fn parse(buf: &mut ParseBuffer<'a>) -> (r: Result<Self, ParseError>) {
        KeyShareClientHello::parse(buf)
    }
}

impl<'a> Encode for KeyShareClientHello<'a> {
    open spec fn wire(&self) -> Seq<u8> {
        wire_opaque_u16(self.client_shares@)
    }

    open spec fn encodable(&self) -> bool {
        self.client_shares@.len() <= 0xffff
    }

    fn encode(self, buf: &mut CryptoBuffer) -> (r: Result<(), TlsError>) {
        KeyShareClientHello::encode(&self, buf)
    }
}

/// The group that the server asks the client to retry with.
#[derive(Debug, Clone, Copy, PartialEq, Eq)]
pub struct KeyShareHelloRetryRequest {
    pub selected_group: NamedGroup,
}

impl View for KeyShareHelloRetryRequest {
    type V = NamedGroup;

    open spec fn view(&self) -> NamedGroup {
        self.selected_group
    }
}

impl KeyShareHelloRetryRequest {
    /// Reads the selected group.
    pub fn parse(buf: &mut ParseBuffer) -> (r: Result<Self, ParseError>)
        ensures
            parsed(*old(buf), *final(buf), r, NamedGroup::spec_parse(old(buf).unread())),
    {
        match NamedGroup::parse(buf) {
            Ok(selected_group) => Ok(KeyShareHelloRetryRequest { selected_group }),
            Err(e) => Err(e),
        }
    }

    /// Writes the selected group.
    pub fn encode(&self, buf: &mut CryptoBuffer) -> (r: Result<(), TlsError>)
        ensures
            encoded(*old(buf), *final(buf), r, true, self.selected_group.wire()),
    {
        self.selected_group.encode(buf)
    }
}

impl<'a> Parse<'a> for KeyShareHelloRetryRequest {
    open spec fn spec_parse(s: Seq<u8>) -> Result<(NamedGroup, nat), ParseError> {
        NamedGroup::spec_parse(s)
    }

    fn parse(buf: &mut ParseBuffer<'a>) -> (r: Result<Self, ParseError>) {
        KeyShareHelloRetryRequest::parse(buf)
    }
}

impl Encode for KeyShareHelloRetryRequest {
    open spec fn wire(&self) -> Seq<u8> {
        self.selected_group.wire()
    }

    open spec fn encodable(&self) -> bool {
        true
    }

    fn encode(self, buf: &mut CryptoBuffer) -> (r: Result<(), TlsError>) {
        KeyShareHelloRetryRequest::encode(&self, buf)
    }
}

impl<'a> WireFormat<'a> for KeyShareHelloRetryRequest {
    open spec fn well_formed(&self) -> bool {
        true
    }

    proof fn lemma_parse_of_wire(x: Self, rest: Seq<u8>) {
        NamedGroup::lemma_parse_of_wire(x.selected_group, rest);
    }

    proof fn lemma_wire_of_parsed(s: Seq<u8>, x: Self) {
        NamedGroup::lemma_wire_of_parsed(s, x.selected_group);
    }
}

/// Writing the bytes of a client's key shares that were parsed from `s`
/// gives the bytes they were parsed from.
pub proof fn lemma_client_shares_wire_of_parsed(s: Seq<u8>, x: KeyShareClientHello)
    requires
        KeyShareClientHello::spec_parse(s) is Ok,
        s.len() >= 2,
        x.client_shares@ == s.subrange(2, 2 + u16_from_be(s)),
    ensures
        x.encodable(),
        KeyShareClientHello::spec_parse(s) matches Ok(p) && p.0 == x@ && p.1 <= s.len() && x.wire()
            == s.take(p.1 as int),
{
    let p = KeyShareClientHello::spec_parse(s)->Ok_0;
    crate::big_endian::lemma_u16_written_of_read(s);
    assert(x.wire() =~= s.take(2) + x.client_shares@);
    assert(s.take(2) + x.client_shares@ =~= s.take(p.1 as int));
}

} // verus!

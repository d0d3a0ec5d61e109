//! The `supported_versions` extension: the protocol versions that a client
//! offers, and the one that the server selects.

use vstd::prelude::*;
use crate::TlsError;
use crate::big_endian::{
    lemma_u16_read_of_written, lemma_u16_written_of_read, u16_from_be, u16_to_be,
};
use crate::buffer::CryptoBuffer;
use crate::parse_buffer::{ParseBuffer, ParseError};
use crate::parse_encode::{
    encode_list_u8, lemma_parse_of_wire_list, lemma_wire_of_parsed_list, list_encodable,
    parse_list_u8, spec_parse_list, views, wire_list, DynIterList, Encode, ListIter, Local, Parse,
    Remote, StorageType, WireFormat,
};

verus! {

/// A protocol version, as the two bytes that name it.
#[derive(Debug, Clone, Copy, PartialEq, Eq, Structural)]
pub struct ProtocolVersion(pub u16);

/// The two bytes that name TLS 1.3.
pub const TLS13_CODE: u16 = 0x0304;

/// TLS 1.3.
pub open spec fn spec_tls13() -> ProtocolVersion {
    ProtocolVersion(TLS13_CODE)
}

/// TLS 1.3.
#[verifier::when_used_as_spec(spec_tls13)]
pub fn tls13() -> (r: ProtocolVersion)
    ensures
        r == spec_tls13(),
{
    ProtocolVersion(TLS13_CODE)
}

impl View for ProtocolVersion {
    type V = ProtocolVersion;

    open spec fn view(&self) -> ProtocolVersion {
        *self
    }
}

impl<'a> Parse<'a> for ProtocolVersion {
    open spec fn spec_parse(s: Seq<u8>) -> Result<(ProtocolVersion, nat), ParseError> {
        if s.len() < 2 {
            Err(ParseError::InsufficientSpace)
        } else {
            Ok((ProtocolVersion(u16_from_be(s)), 2nat))
        }
    }

    fn parse(buf: &mut ParseBuffer<'a>) -> (r: Result<Self, ParseError>) {
        match buf.read_u16() {
            Ok(v) => Ok(ProtocolVersion(v)),
            Err(e) => Err(e),
        }
    }
}

impl Encode for ProtocolVersion {
    open spec fn wire(&self) -> Seq<u8> {
        u16_to_be(self.0)
    }

    open spec fn encodable(&self) -> bool {
        true
    }

    fn encode(self, buf: &mut CryptoBuffer) -> (r: Result<(), TlsError>) {
        buf.push_u16(self.0)
    }
}

impl<'a> WireFormat<'a> for ProtocolVersion {
    open spec fn well_formed(&self) -> bool {
        true
    }

    proof fn lemma_parse_of_wire(x: Self, rest: Seq<u8>) {
        lemma_u16_read_of_written(x.0, rest);
    }

    proof fn lemma_wire_of_parsed(s: Seq<u8>, x: Self) {
        lemma_u16_written_of_read(s);
    }
}

/// The versions that a client offers, most preferred first, behind a one-byte
/// length. TLS 1.3 must be among them.
pub struct SupportedVersionsClientHello<'a, Location: StorageType<'a, ProtocolVersion>>(
    pub Location::ListType,
);

impl<'a> View for SupportedVersionsClientHello<'a, Remote> {
    type V = Seq<ProtocolVersion>;

    /// The versions of the list.
    open spec fn view(&self) -> Seq<ProtocolVersion> {
        self.0@
    }
}

/// What stands at the front of `s` when the versions that a client offers
/// are expected: the list behind its one-byte length. A list without TLS 1.3
/// is invalid data.
pub open spec fn spec_parse_versions_offered(s: Seq<u8>) -> Result<
    (Seq<ProtocolVersion>, nat),
    ParseError,
> {
    match spec_parse_list::<ProtocolVersion>(s, 1) {
        Ok((versions, n)) => if versions.contains(tls13()) {
            Ok((versions, n))
        } else {
            Err(ParseError::InvalidData)
        },
        Err(e) => Err(e),
    }
}

impl<'a> Parse<'a> for SupportedVersionsClientHello<'a, Remote> {
    open spec fn spec_parse(s: Seq<u8>) -> Result<(Seq<ProtocolVersion>, nat), ParseError> {
        spec_parse_versions_offered(s)
    }

    fn parse(buf: &mut ParseBuffer<'a>) -> (r: Result<Self, ParseError>) {
        let list = match parse_list_u8::<ProtocolVersion>(buf) {
            Ok(list) => list,
            Err(e) => {
                return Err(e);
            },
        };
        let mut it = list.iter();
        let mut found = false;
        loop
            invariant
                it@.len() <= list@.len(),
                it@ == list@.skip(list@.len() - it@.len()),
                found == list@.take(list@.len() - it@.len()).contains(tls13()),
            ensures
                found == list@.contains(tls13()),
            decreases it@.len(),
        {
            let ghost done = list@.len() - it@.len();
            match it.next() {
                Some(v) => {
                    proof {
                        assert(v == list@[done]);
                        assert(it@ =~= list@.skip(done + 1));
                        let before = list@.take(done);
                        let now = list@.take(done + 1);
                        assert(now =~= before.push(v));
                        if before.contains(tls13()) {
                            let k = choose|k: int| 0 <= k < before.len() && before[k] == tls13();
                            assert(now[k] == tls13());
                        }
                        if v == tls13() {
                            assert(now[done] == tls13());
                        }
                        if now.contains(tls13()) && v != tls13() {
                            let k = choose|k: int| 0 <= k < now.len() && now[k] == tls13();
                            assert(before[k] == tls13());
                        }
                    }
                    if v.0 == TLS13_CODE {
                        found = true;
                    }
                },
                None => {
                    assert(list@.take(list@.len() as int) =~= list@);
                    break;
                },
            }
        }
        if found {
            Ok(SupportedVersionsClientHello(list))
        } else {
            Err(ParseError::InvalidData)
        }
    }
}

impl<'a> Encode for SupportedVersionsClientHello<'a, Local> {
    open spec fn wire(&self) -> Seq<u8> {
        wire_list(self.0.0@, 1)
    }

    open spec fn encodable(&self) -> bool {
        list_encodable(self.0.0@, 1)
    }

    fn encode(self, buf: &mut CryptoBuffer) -> (r: Result<(), TlsError>) {
        encode_list_u8(self.0, buf)
    }
}

impl<'a> SupportedVersionsClientHello<'a, Local> {
    /// The list of the versions of `items`.
    pub fn new(items: &'a [ProtocolVersion]) -> (r: Self)
        ensures
            r.0.0@ == items@,
    {
        SupportedVersionsClientHello(DynIterList::new(items))
    }
}

impl<'a> SupportedVersionsClientHello<'a, Remote> {
    /// A cursor over the versions, first to last.
    pub fn iter(&self) -> (r: ListIter<'a, ProtocolVersion>)
        ensures
            r@ == self@,
    {
        self.0.iter()
    }

    /// The number of versions.
    pub fn len(&self) -> (r: usize)
        ensures
            r == self@.len(),
    {
        self.0.len()
    }
}

/// Parsing what was written for a client's versions gives the versions
/// back where TLS 1.3 is among them, and writing versions that were parsed
/// gives the bytes they were parsed from.
pub proof fn lemma_client_versions_round_trip(
    x: SupportedVersionsClientHello<Local>,
    s: Seq<u8>,
    rest: Seq<u8>,
)
    ensures
        x.encodable() && x.0.0@.contains(tls13()) ==> spec_parse_versions_offered(x.wire() + rest)
            == Ok::<_, ParseError>((views(x.0.0@), x.wire().len())),
        match spec_parse_versions_offered(s) {
            Ok(p) => p.0 == views(x.0.0@) ==> x.encodable() && p.1 <= s.len() && x.wire()
                == s.take(p.1 as int),
            Err(_) => true,
        },
{
    assert(views(x.0.0@) =~= x.0.0@);
    if x.encodable() && x.0.0@.contains(tls13()) {
        lemma_parse_of_wire_list::<ProtocolVersion>(x.0.0@, 1, rest);
    }
    if spec_parse_versions_offered(s) matches Ok(p) && p.0 == views(x.0.0@) {
        lemma_wire_of_parsed_list::<ProtocolVersion>(s, x.0.0@, 1);
    }
}

/// The version that the server selected.
#[derive(Debug, Clone, Copy, PartialEq, Eq, Structural)]
pub struct SupportedVersionsServerHello {
    pub selected_version: ProtocolVersion,
}

impl View for SupportedVersionsServerHello {
    type V = ProtocolVersion;

    open spec fn view(&self) -> ProtocolVersion {
        self.selected_version
    }
}

impl<'a> Parse<'a> for SupportedVersionsServerHello {
    open spec fn spec_parse(s: Seq<u8>) -> Result<(ProtocolVersion, nat), ParseError> {
        ProtocolVersion::spec_parse(s)
    }

    fn parse(buf: &mut ParseBuffer<'a>) -> (r: Result<Self, ParseError>) {
        match ProtocolVersion::parse(buf) {
            Ok(selected_version) => Ok(SupportedVersionsServerHello { selected_version }),
            Err(e) => Err(e),
        }
    }
}

impl Encode for SupportedVersionsServerHello {
    open spec fn wire(&self) -> Seq<u8> {
        self.selected_version.wire()
    }

    open spec fn encodable(&self) -> bool {
        true
    }

    fn encode(self, buf: &mut CryptoBuffer) -> (r: Result<(), TlsError>) {
        self.selected_version.encode(buf)
    }
}

impl<'a> WireFormat<'a> for SupportedVersionsServerHello {
    open spec fn well_formed(&self) -> bool {
        true
    }

    proof fn lemma_parse_of_wire(x: Self, rest: Seq<u8>) {
        ProtocolVersion::lemma_parse_of_wire(x.selected_version, rest);
    }

    proof fn lemma_wire_of_parsed(s: Seq<u8>, x: Self) {
        ProtocolVersion::lemma_wire_of_parsed(s, x.selected_version);
    }
}

} // verus!

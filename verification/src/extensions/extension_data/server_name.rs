//! The `server_name` extension: the host that the client wants to reach.

use vstd::prelude::*;
use vstd::string::StringSliceAdditionalSpecFns;
use vstd::utf8::{partial_valid_utf8, partial_valid_utf8_extend_ascii_block, valid_utf8};
use crate::TlsError;
use crate::buffer::CryptoBuffer;
use crate::parse_buffer::{ParseBuffer, ParseError};
use crate::parse_encode::{
    encode_list_u16, encode_opaque_u16, encoded, lemma_parse_of_wire_opaque_u16,
    lemma_wire_of_parsed_opaque_u16, list_encodable, parse_list_u16, parse_opaque_u16, parsed,
    spec_parse_list, spec_parse_opaque_u16, wire_list, wire_opaque_u16, DynIterList, Encode,
    ListIter, Local, Parse, Remote, StorageType, WireFormat,
};

verus! {

/// The kind of a server name. Only host names are defined.
#[derive(Debug, Clone, Copy, PartialEq, Eq, Structural)]
pub enum NameType {
    HostName,
}

impl NameType {
    /// The number that stands for the kind of name on the wire.
    pub open spec fn code(self) -> u8 {
        match self {
            NameType::HostName => 0,
        }
    }

    /// The kind of name that `code` stands for, if it stands for one.
    pub open spec fn spec_of(code: u8) -> Option<NameType> {
        if code == 0 {
            Some(NameType::HostName)
        } else {
            None
        }
    }

    /// The kind of name that `code` stands for, if it stands for one.
    pub fn of(code: u8) -> (r: Option<NameType>)
        ensures
            r == Self::spec_of(code),
    {
        match code {
            0 => Some(NameType::HostName),
            _ => None,
        }
    }

    /// The number that stands for the kind of name on the wire.
    pub fn as_u8(self) -> (r: u8)
        ensures
            r == self.code(),
    {
        match self {
            NameType::HostName => 0,
        }
    }

    /// The number of a value stands for that value and for no other.
    pub proof fn lemma_code_of(v: NameType, code: u8)
        ensures
            Self::spec_of(v.code()) == Some(v),
            Self::spec_of(code) matches Some(w) ==> w.code() == code,
    {
    }
    /// Reads the kind of name from one byte.
    pub fn parse(buf: &mut ParseBuffer) -> (r: Result<Self, ParseError>)
        ensures
            parsed(*old(buf), *final(buf), r, <Self as Parse>::spec_parse(old(buf).unread())),
    {
        match buf.read_u8() {
            Ok(code) => match Self::of(code) {
                Some(v) => Ok(v),
                None => Err(ParseError::InvalidData),
            },
            Err(e) => Err(e),
        }
    }

    /// Writes the kind of name as one byte.
    pub fn encode(self, buf: &mut CryptoBuffer) -> (r: Result<(), TlsError>)
        ensures
            encoded(*old(buf), *final(buf), r, true, Encode::wire(&self)),
    {
        buf.push(self.as_u8())
    }
}

impl View for NameType {
    type V = NameType;

    open spec fn view(&self) -> NameType {
        *self
    }
}

impl<'a> Parse<'a> for NameType {
    open spec fn spec_parse(s: Seq<u8>) -> Result<(NameType, nat), ParseError> {
        if s.len() < 1 {
            Err(ParseError::InsufficientSpace)
        } else {
            match Self::spec_of(s[0]) {
                Some(v) => Ok((v, 1nat)),
                None => Err(ParseError::InvalidData),
            }
        }
    }

    fn parse(buf: &mut ParseBuffer<'a>) -> (r: Result<Self, ParseError>) {
        NameType::parse(buf)
    }
}

impl Encode for NameType {
    open spec fn wire(&self) -> Seq<u8> {
        seq![self.code()]
    }

    open spec fn encodable(&self) -> bool {
        true
    }

    fn encode(self, buf: &mut CryptoBuffer) -> (r: Result<(), TlsError>) {
        NameType::encode(self, buf)
    }
}

impl<'a> WireFormat<'a> for NameType {
    open spec fn well_formed(&self) -> bool {
        true
    }

    proof fn lemma_parse_of_wire(x: Self, rest: Seq<u8>) {
        assert((x.wire() + rest)[0] == x.code());
    }

    proof fn lemma_wire_of_parsed(s: Seq<u8>, x: Self) {
        assert(x.wire() =~= s.take(1));
    }
}

/// The error of `core::str::from_utf8`. Nothing is said of what it holds.
#[verifier::external_type_specification]
#[verifier::external_body]
pub struct ExUtf8Error(core::str::Utf8Error);

/// `core::str::from_utf8` turns bytes into a string slice: it succeeds
/// exactly on valid UTF-8, and the string then has those bytes.
pub assume_specification[ core::str::from_utf8 ](v: &[u8]) -> (r: Result<
    &str,
    core::str::Utf8Error,
>)
    ensures
        r is Ok <==> valid_utf8(v@),
        r matches Ok(s) ==> s.spec_bytes() == v@,
;

/// Whether `name` can stand as a host name: ASCII only, and no dot at the end.
pub open spec fn valid_hostname(name: Seq<u8>) -> bool {
    &&& forall|i: int| 0 <= i < name.len() ==> name[i] < 128
    &&& name.len() > 0 ==> name[name.len() - 1] != 0x2e
}

/// ASCII bytes are valid UTF-8.
proof fn lemma_ascii_is_utf8(name: Seq<u8>)
    requires
        forall|i: int| 0 <= i < name.len() ==> name[i] < 128,
    ensures
        valid_utf8(name),
{
    assert(name.subrange(0, 0) =~= Seq::<u8>::empty());
    assert(partial_valid_utf8(name, 0));
    partial_valid_utf8_extend_ascii_block(name, 0, name.len() as int);
    assert(name.subrange(0, name.len() as int) =~= name);
}

/// Whether `name` can stand as a host name.
fn check_hostname(name: &[u8]) -> (r: bool)
    ensures
        r == valid_hostname(name@),
{
    let n = name.len();
    let mut i: usize = 0;
    while i < n
        invariant
            i <= n,
            n == name@.len(),
            forall|k: int| 0 <= k < i ==> name@[k] < 128,
        decreases n - i,
    {
        if name[i] >= 128 {
            return false;
        }
        i = i + 1;
    }
    n == 0 || name[n - 1] != 0x2e
}

/// A server name: its kind and the name. Its view is the pair of the kind
/// and the bytes of the name.
#[derive(Debug, Clone, Copy, PartialEq, Eq)]
pub struct ServerName<'a> {
    pub name_type: NameType,
    pub name: &'a str,
}

impl<'a> View for ServerName<'a> {
    type V = (NameType, Seq<u8>);

    open spec fn view(&self) -> (NameType, Seq<u8>) {
        (self.name_type, self.name.spec_bytes())
    }
}

impl<'a> ServerName<'a> {
    /// The server name for the host `name`.
    pub fn hostname(name: &'a str) -> (r: Self)
        ensures
            r.name_type == NameType::HostName,
            r.name == name,
    {
        ServerName { name_type: NameType::HostName, name }
    }
}

impl<'a> Parse<'a> for ServerName<'a> {
    /// The kind, then the name behind its two-byte length; a name that is no
    /// host name is invalid data.
    open spec fn spec_parse(s: Seq<u8>) -> Result<((NameType, Seq<u8>), nat), ParseError> {
        match NameType::spec_parse(s) {
            Ok((name_type, _)) => match spec_parse_opaque_u16(s.skip(1)) {
                Ok((name, n)) => if valid_hostname(name) {
                    Ok(((name_type, name), 1 + n))
                } else {
                    Err(ParseError::InvalidData)
                },
                Err(e) => Err(e),
            },
            Err(e) => Err(e),
        }
    }

    fn parse(buf: &mut ParseBuffer<'a>) -> (r: Result<Self, ParseError>) {
        let name_type = match NameType::parse(buf) {
            Ok(t) => t,
            Err(e) => {
                return Err(e);
            },
        };
        assert(buf.unread() =~= old(buf).unread().skip(1));
        let name = match parse_opaque_u16(buf) {
            Ok(name) => name,
            Err(e) => {
                return Err(e);
            },
        };
        // the host name is a byte string in ASCII without a trailing dot
        if check_hostname(name) {
            proof {
                lemma_ascii_is_utf8(name@);
            }
            match core::str::from_utf8(name) {
                Ok(name) => Ok(ServerName { name_type, name }),
                Err(_) => Err(ParseError::InvalidData),
            }
        } else {
            Err(ParseError::InvalidData)
        }
    }
}

impl<'a> Encode for ServerName<'a> {
    open spec fn wire(&self) -> Seq<u8> {
        Encode::wire(&self.name_type) + wire_opaque_u16(self.name.spec_bytes())
    }

    /// The name fits its two-byte length. Whether it is a host name is not
    /// looked at.
    open spec fn encodable(&self) -> bool {
        self.name.spec_bytes().len() <= 0xffff
    }

    fn encode(self, buf: &mut CryptoBuffer) -> (r: Result<(), TlsError>) {
        let mark = buf.len();
        let name = self.name.as_bytes();
        match NameType::encode(self.name_type, buf) {
            Ok(_) => {},
            Err(e) => {
                return Err(e);
            },
        }
        match encode_opaque_u16(name, buf) {
            Ok(_) => {
                assert(buf@ =~= old(buf)@ + self.wire());
                Ok(())
            },
            Err(e) => {
                buf.truncate(mark);
                assert(buf@ =~= old(buf)@);
                Err(e)
            },
        }
    }
}

impl<'a> WireFormat<'a> for ServerName<'a> {
    /// The name is a host name.
    open spec fn well_formed(&self) -> bool {
        valid_hostname(self.name.spec_bytes())
    }

    proof fn lemma_parse_of_wire(x: Self, rest: Seq<u8>) {
        let name = x.name.spec_bytes();
        let head = Encode::wire(&x.name_type);
        let body = wire_opaque_u16(name);
        let tail = body + rest;
        let s = x.wire() + rest;
        assert(s == head + tail) by {
            assert(s =~= head + tail);
        }
        assert(head.len() == 1 && NameType::spec_parse(s) == Ok::<_, ParseError>(
            (x.name_type, 1nat),
        )) by {
            NameType::lemma_parse_of_wire(x.name_type, tail);
        }
        assert(s.skip(1) == tail) by {
            assert((head + tail).skip(1) =~= tail);
        }
        assert(spec_parse_opaque_u16(tail) == Ok::<_, ParseError>((name, 2 + name.len()))) by {
            lemma_parse_of_wire_opaque_u16(name, rest);
        }
        assert(body.len() == 2 + name.len()) by {
            crate::big_endian::lemma_u16_read_of_written(name.len() as u16, name);
        }
    }

    proof fn lemma_wire_of_parsed(s: Seq<u8>, x: Self) {
        NameType::lemma_wire_of_parsed(s, x.name_type);
        lemma_wire_of_parsed_opaque_u16(s.skip(1));
        let n = spec_parse_opaque_u16(s.skip(1))->Ok_0.1;
        assert(s.take(1) + s.skip(1).take(n as int) =~= s.take(1 + n as int));
    }
}

/// The names that the client gives for the server, behind a two-byte length.
pub struct ServerNameList<'a, Location: StorageType<'a, ServerName<'a>>>(pub Location::ListType);

impl<'a> View for ServerNameList<'a, Remote> {
    type V = Seq<<ServerName<'a> as View>::V>;

    /// The items of the list.
    open spec fn view(&self) -> Self::V {
        self.0@
    }
}

impl<'a> Parse<'a> for ServerNameList<'a, Remote> {
    open spec fn spec_parse(s: Seq<u8>) -> Result<(Self::V, nat), ParseError> {
        spec_parse_list::<ServerName<'a>>(s, 2)
    }

    fn parse(buf: &mut ParseBuffer<'a>) -> (r: Result<Self, ParseError>) {
        match parse_list_u16::<ServerName<'a>>(buf) {
            Ok(list) => Ok(ServerNameList(list)),
            Err(e) => Err(e),
        }
    }
}

impl<'a> Encode for ServerNameList<'a, Local> {
    open spec fn wire(&self) -> Seq<u8> {
        wire_list(self.0.0@, 2)
    }

    open spec fn encodable(&self) -> bool {
        list_encodable(self.0.0@, 2)
    }

    fn encode(self, buf: &mut CryptoBuffer) -> (r: Result<(), TlsError>) {
        encode_list_u16(self.0, buf)
    }
}

impl<'a> ServerNameList<'a, Local> {
    /// The list of the items of `items`.
    pub fn new(items: &'a [ServerName<'a>]) -> (r: Self)
        ensures
            r.0.0@ == items@,
    {
        ServerNameList(DynIterList::new(items))
    }
}

impl<'a> ServerNameList<'a, Remote> {
    /// A cursor over the items, first to last.
    pub fn iter(&self) -> (r: ListIter<'a, ServerName<'a>>)
        ensures
            r@ == self@,
    {
        self.0.iter()
    }

    /// The number of items.
    pub fn len(&self) -> (r: usize)
        ensures
            r == self@.len(),
    {
        self.0.len()
    }
}

/// The answer of a server that has used the name: an extension with an empty
/// body.
#[derive(Debug, Clone, Copy, PartialEq, Eq, Structural)]
pub struct ServerNameResponse;

impl View for ServerNameResponse {
    type V = ();

    open spec fn view(&self) -> () {
        ()
    }
}

impl<'a> Parse<'a> for ServerNameResponse {
    /// Nothing must be there.
    open spec fn spec_parse(s: Seq<u8>) -> Result<((), nat), ParseError> {
        if s.len() == 0 {
            Ok(((), 0nat))
        } else {
            Err(ParseError::InvalidData)
        }
    }

    /// Reads nothing: the position stays where it is, whether the body is
    /// empty or not.
    fn parse(buf: &mut ParseBuffer<'a>) -> (r: Result<Self, ParseError>)
        ensures
            final(buf).position() == old(buf).position(),
    {
        if buf.is_empty() {
            Ok(ServerNameResponse)
        } else {
            Err(ParseError::InvalidData)
        }
    }
}

impl Encode for ServerNameResponse {
    open spec fn wire(&self) -> Seq<u8> {
        Seq::empty()
    }

    open spec fn encodable(&self) -> bool {
        true
    }

    fn encode(self, buf: &mut CryptoBuffer) -> (r: Result<(), TlsError>) {
        let _ = buf.len();
        assert(buf@ =~= old(buf)@ + self.wire());
        Ok(())
    }
}

/// The empty answer is written as nothing, and nothing parses as the empty
/// answer.
pub proof fn lemma_server_name_response_round_trip(s: Seq<u8>, x: ServerNameResponse)
    ensures
        ServerNameResponse::spec_parse(x.wire()) == Ok::<_, ParseError>(((), 0nat)),
        ServerNameResponse::spec_parse(s) is Ok ==> x.wire() == s,
{
    assert(ServerNameResponse::spec_parse(s) is Ok ==> x.wire() =~= s);
}

} // verus!

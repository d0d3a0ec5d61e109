//! The `supported_groups` extension: the groups that a peer accepts for key
//! exchange.

use vstd::prelude::*;
use crate::TlsError;
use crate::big_endian::{
    lemma_u16_read_of_written, lemma_u16_written_of_read, u16_from_be, u16_to_be,
};
use crate::buffer::CryptoBuffer;
use crate::parse_buffer::{ParseBuffer, ParseError};
use crate::parse_encode::{
    encode_list_u16, list_encodable, parse_list_u16, spec_parse_list, wire_list, DynIterList,
    Encode, ListIter, Local, Parse, Remote, StorageType, WireFormat,
};

verus! {

/// A group for key exchange: an elliptic curve, a finite field, or a post-quantum hybrid.
#[derive(Debug, Clone, Copy, PartialEq, Eq, Structural)]
pub enum NamedGroup {
    Secp256r1,
    Secp384r1,
    Secp521r1,
    X25519,
    X448,
    Ffdhe2048,
    Ffdhe3072,
    Ffdhe4096,
    Ffdhe6144,
    Ffdhe8192,
    X25519MLKEM768,
    SecP256r1MLKEM768,
    SecP384r1MLKEM1024,
}

impl NamedGroup {
    /// The number that stands for the group on the wire.
    pub open spec fn code(self) -> u16 {
        match self {
            NamedGroup::Secp256r1 => 0x0017,
            NamedGroup::Secp384r1 => 0x0018,
            NamedGroup::Secp521r1 => 0x0019,
            NamedGroup::X25519 => 0x001d,
            NamedGroup::X448 => 0x001e,
            NamedGroup::Ffdhe2048 => 0x0100,
            NamedGroup::Ffdhe3072 => 0x0101,
            NamedGroup::Ffdhe4096 => 0x0102,
            NamedGroup::Ffdhe6144 => 0x0103,
            NamedGroup::Ffdhe8192 => 0x0104,
            NamedGroup::X25519MLKEM768 => 0x11ec,
            NamedGroup::SecP256r1MLKEM768 => 0x11eb,
            NamedGroup::SecP384r1MLKEM1024 => 0x11ed,
        }
    }

    /// The group that `code` stands for, if it stands for one.
    pub open spec fn spec_of(code: u16) -> Option<NamedGroup> {
        if code == 0x0017 {
            Some(NamedGroup::Secp256r1)
        } else if code == 0x0018 {
            Some(NamedGroup::Secp384r1)
        } else if code == 0x0019 {
            Some(NamedGroup::Secp521r1)
        } else if code == 0x001d {
            Some(NamedGroup::X25519)
        } else if code == 0x001e {
            Some(NamedGroup::X448)
        } else if code == 0x0100 {
            Some(NamedGroup::Ffdhe2048)
        } else if code == 0x0101 {
            Some(NamedGroup::Ffdhe3072)
        } else if code == 0x0102 {
            Some(NamedGroup::Ffdhe4096)
        } else if code == 0x0103 {
            Some(NamedGroup::Ffdhe6144)
        } else if code == 0x0104 {
            Some(NamedGroup::Ffdhe8192)
        } else if code == 0x11ec {
            Some(NamedGroup::X25519MLKEM768)
        } else if code == 0x11eb {
            Some(NamedGroup::SecP256r1MLKEM768)
        } else if code == 0x11ed {
            Some(NamedGroup::SecP384r1MLKEM1024)
        } else {
            None
        }
    }

    /// The group that `code` stands for, if it stands for one.
    pub fn of(code: u16) -> (r: Option<NamedGroup>)
        ensures
            r == Self::spec_of(code),
    {
        match code {
            0x0017 => Some(NamedGroup::Secp256r1),
            0x0018 => Some(NamedGroup::Secp384r1),
            0x0019 => Some(NamedGroup::Secp521r1),
            0x001d => Some(NamedGroup::X25519),
            0x001e => Some(NamedGroup::X448),
            0x0100 => Some(NamedGroup::Ffdhe2048),
            0x0101 => Some(NamedGroup::Ffdhe3072),
            0x0102 => Some(NamedGroup::Ffdhe4096),
            0x0103 => Some(NamedGroup::Ffdhe6144),
            0x0104 => Some(NamedGroup::Ffdhe8192),
            0x11ec => Some(NamedGroup::X25519MLKEM768),
            0x11eb => Some(NamedGroup::SecP256r1MLKEM768),
            0x11ed => Some(NamedGroup::SecP384r1MLKEM1024),
            _ => None,
        }
    }

    /// The number that stands for the group on the wire.
    pub fn as_u16(self) -> (r: u16)
        ensures
            r == self.code(),
    {
        match self {
            NamedGroup::Secp256r1 => 0x0017,
            NamedGroup::Secp384r1 => 0x0018,
            NamedGroup::Secp521r1 => 0x0019,
            NamedGroup::X25519 => 0x001d,
            NamedGroup::X448 => 0x001e,
            NamedGroup::Ffdhe2048 => 0x0100,
            NamedGroup::Ffdhe3072 => 0x0101,
            NamedGroup::Ffdhe4096 => 0x0102,
            NamedGroup::Ffdhe6144 => 0x0103,
            NamedGroup::Ffdhe8192 => 0x0104,
            NamedGroup::X25519MLKEM768 => 0x11ec,
            NamedGroup::SecP256r1MLKEM768 => 0x11eb,
            NamedGroup::SecP384r1MLKEM1024 => 0x11ed,
        }
    }

    /// The number of a value stands for that value and for no other.
    pub proof fn lemma_code_of(v: NamedGroup, code: u16)
        ensures
            Self::spec_of(v.code()) == Some(v),
            Self::spec_of(code) matches Some(w) ==> w.code() == code,
    {
    }
}

impl View for NamedGroup {
    type V = NamedGroup;

    open spec fn view(&self) -> NamedGroup {
        *self
    }
}

impl<'a> Parse<'a> for NamedGroup {
    open spec fn spec_parse(s: Seq<u8>) -> Result<(NamedGroup, nat), ParseError> {
        if s.len() < 2 {
            Err(ParseError::InsufficientSpace)
        } else {
            match Self::spec_of(u16_from_be(s)) {
                Some(v) => Ok((v, 2nat)),
                None => Err(ParseError::InvalidData),
            }
        }
    }

    fn parse(buf: &mut ParseBuffer<'a>) -> (r: Result<Self, ParseError>) {
        match buf.read_u16() {
            Ok(code) => match Self::of(code) {
                Some(v) => Ok(v),
                None => Err(ParseError::InvalidData),
            },
            Err(e) => Err(e),
        }
    }
}

impl Encode for NamedGroup {
    open spec fn wire(&self) -> Seq<u8> {
        u16_to_be(self.code())
    }

    open spec fn encodable(&self) -> bool {
        true
    }

    fn encode(self, buf: &mut CryptoBuffer) -> (r: Result<(), TlsError>) {
        buf.push_u16(self.as_u16())
    }
}

impl<'a> WireFormat<'a> for NamedGroup {
    open spec fn well_formed(&self) -> bool {
        true
    }

    proof fn lemma_parse_of_wire(x: Self, rest: Seq<u8>) {
        lemma_u16_read_of_written(x.code(), rest);
    }

    proof fn lemma_wire_of_parsed(s: Seq<u8>, x: Self) {
        lemma_u16_written_of_read(s);
    }
}

/// The groups that a peer supports, most preferred first, behind a two-byte length.
pub struct SupportedGroups<'a, Location: StorageType<'a, NamedGroup>>(pub Location::ListType);

impl<'a> View for SupportedGroups<'a, Remote> {
    type V = Seq<<NamedGroup as View>::V>;

    /// The items of the list.
    open spec fn view(&self) -> Self::V {
        self.0@
    }
}

impl<'a> Parse<'a> for SupportedGroups<'a, Remote> {
    open spec fn spec_parse(s: Seq<u8>) -> Result<(Self::V, nat), ParseError> {
        spec_parse_list::<NamedGroup>(s, 2)
    }

    fn parse(buf: &mut ParseBuffer<'a>) -> (r: Result<Self, ParseError>) {
        match parse_list_u16::<NamedGroup>(buf) {
            Ok(list) => Ok(SupportedGroups(list)),
            Err(e) => Err(e),
        }
    }
}

impl<'a> Encode for SupportedGroups<'a, Local> {
    open spec fn wire(&self) -> Seq<u8> {
        wire_list(self.0.0@, 2)
    }

    open spec fn encodable(&self) -> bool {
        list_encodable(self.0.0@, 2)
    }

    fn encode(self, buf: &mut CryptoBuffer) -> (r: Result<(), TlsError>) {
        encode_list_u16(self.0, buf)
    }
}

impl<'a> SupportedGroups<'a, Local> {
    /// The list of the items of `items`.
    pub fn new(items: &'a [NamedGroup]) -> (r: Self)
        ensures
            r.0.0@ == items@,
    {
        SupportedGroups(DynIterList::new(items))
    }
}

impl<'a> SupportedGroups<'a, Remote> {
    /// A cursor over the items, first to last.
    pub fn iter(&self) -> (r: ListIter<'a, NamedGroup>)
        ensures
            r@ == self@,
    {
        self.0.iter()
    }

    /// The number of items.
    pub fn len(&self) -> (r: usize)
        ensures
            r == self@.len(),
    {
        self.0.len()
    }
}

} // verus!

//! The `signature_algorithms` extension: the signature schemes that a peer
//! accepts in the handshake.

use vstd::prelude::*;
use crate::TlsError;
use crate::big_endian::{
    lemma_u16_read_of_written, lemma_u16_written_of_read, u16_from_be, u16_to_be,
};
use crate::buffer::CryptoBuffer;
use crate::parse_buffer::{ParseBuffer, ParseError};
use crate::parse_encode::{
    encode_list_u16, list_encodable, parse_list_u16, spec_parse_list, wire_list, DynIterList,
    Encode, ListIter, Local, Parse, Remote, StorageType, WireFormat,
};

verus! {

/// A signature scheme.
#[derive(Debug, Clone, Copy, PartialEq, Eq, Structural)]
pub enum SignatureScheme {
    RsaPkcs1Sha256,
    RsaPkcs1Sha384,
    RsaPkcs1Sha512,
    EcdsaSecp256r1Sha256,
    EcdsaSecp384r1Sha384,
    EcdsaSecp521r1Sha512,
    RsaPssRsaeSha256,
    RsaPssRsaeSha384,
    RsaPssRsaeSha512,
    Ed25519,
    Ed448,
    RsaPssPssSha256,
    RsaPssPssSha384,
    RsaPssPssSha512,
    RsaPkcs1Sha1,
    EcdsaSha1,
}

impl SignatureScheme {
    /// The number that stands for the scheme on the wire.
    pub open spec fn code(self) -> u16 {
        match self {
            SignatureScheme::RsaPkcs1Sha256 => 0x0401,
            SignatureScheme::RsaPkcs1Sha384 => 0x0501,
            SignatureScheme::RsaPkcs1Sha512 => 0x0601,
            SignatureScheme::EcdsaSecp256r1Sha256 => 0x0403,
            SignatureScheme::EcdsaSecp384r1Sha384 => 0x0503,
            SignatureScheme::EcdsaSecp521r1Sha512 => 0x0603,
            SignatureScheme::RsaPssRsaeSha256 => 0x0804,
            SignatureScheme::RsaPssRsaeSha384 => 0x0805,
            SignatureScheme::RsaPssRsaeSha512 => 0x0806,
            SignatureScheme::Ed25519 => 0x0807,
            SignatureScheme::Ed448 => 0x0808,
            SignatureScheme::RsaPssPssSha256 => 0x0809,
            SignatureScheme::RsaPssPssSha384 => 0x080a,
            SignatureScheme::RsaPssPssSha512 => 0x080b,
            SignatureScheme::RsaPkcs1Sha1 => 0x0201,
            SignatureScheme::EcdsaSha1 => 0x0203,
        }
    }

    /// The scheme that `code` stands for, if it stands for one.
    pub open spec fn spec_of(code: u16) -> Option<SignatureScheme> {
        if code == 0x0401 {
            Some(SignatureScheme::RsaPkcs1Sha256)
        } else if code == 0x0501 {
            Some(SignatureScheme::RsaPkcs1Sha384)
        } else if code == 0x0601 {
            Some(SignatureScheme::RsaPkcs1Sha512)
        } else if code == 0x0403 {
            Some(SignatureScheme::EcdsaSecp256r1Sha256)
        } else if code == 0x0503 {
            Some(SignatureScheme::EcdsaSecp384r1Sha384)
        } else if code == 0x0603 {
            Some(SignatureScheme::EcdsaSecp521r1Sha512)
        } else if code == 0x0804 {
            Some(SignatureScheme::RsaPssRsaeSha256)
        } else if code == 0x0805 {
            Some(SignatureScheme::RsaPssRsaeSha384)
        } else if code == 0x0806 {
            Some(SignatureScheme::RsaPssRsaeSha512)
        } else if code == 0x0807 {
            Some(SignatureScheme::Ed25519)
        } else if code == 0x0808 {
            Some(SignatureScheme::Ed448)
        } else if code == 0x0809 {
            Some(SignatureScheme::RsaPssPssSha256)
        } else if code == 0x080a {
            Some(SignatureScheme::RsaPssPssSha384)
        } else if code == 0x080b {
            Some(SignatureScheme::RsaPssPssSha512)
        } else if code == 0x0201 {
            Some(SignatureScheme::RsaPkcs1Sha1)
        } else if code == 0x0203 {
            Some(SignatureScheme::EcdsaSha1)
        } else {
            None
        }
    }

    /// The scheme that `code` stands for, if it stands for one.
    pub fn of(code: u16) -> (r: Option<SignatureScheme>)
        ensures
            r == Self::spec_of(code),
    {
        match code {
            0x0401 => Some(SignatureScheme::RsaPkcs1Sha256),
            0x0501 => Some(SignatureScheme::RsaPkcs1Sha384),
            0x0601 => Some(SignatureScheme::RsaPkcs1Sha512),
            0x0403 => Some(SignatureScheme::EcdsaSecp256r1Sha256),
            0x0503 => Some(SignatureScheme::EcdsaSecp384r1Sha384),
            0x0603 => Some(SignatureScheme::EcdsaSecp521r1Sha512),
            0x0804 => Some(SignatureScheme::RsaPssRsaeSha256),
            0x0805 => Some(SignatureScheme::RsaPssRsaeSha384),
            0x0806 => Some(SignatureScheme::RsaPssRsaeSha512),
            0x0807 => Some(SignatureScheme::Ed25519),
            0x0808 => Some(SignatureScheme::Ed448),
            0x0809 => Some(SignatureScheme::RsaPssPssSha256),
            0x080a => Some(SignatureScheme::RsaPssPssSha384),
            0x080b => Some(SignatureScheme::RsaPssPssSha512),
            0x0201 => Some(SignatureScheme::RsaPkcs1Sha1),
            0x0203 => Some(SignatureScheme::EcdsaSha1),
            _ => None,
        }
    }

    /// The number that stands for the scheme on the wire.
    pub fn as_u16(self) -> (r: u16)
        ensures
            r == self.code(),
    {
        match self {
            SignatureScheme::RsaPkcs1Sha256 => 0x0401,
            SignatureScheme::RsaPkcs1Sha384 => 0x0501,
            SignatureScheme::RsaPkcs1Sha512 => 0x0601,
            SignatureScheme::EcdsaSecp256r1Sha256 => 0x0403,
            SignatureScheme::EcdsaSecp384r1Sha384 => 0x0503,
            SignatureScheme::EcdsaSecp521r1Sha512 => 0x0603,
            SignatureScheme::RsaPssRsaeSha256 => 0x0804,
            SignatureScheme::RsaPssRsaeSha384 => 0x0805,
            SignatureScheme::RsaPssRsaeSha512 => 0x0806,
            SignatureScheme::Ed25519 => 0x0807,
            SignatureScheme::Ed448 => 0x0808,
            SignatureScheme::RsaPssPssSha256 => 0x0809,
            SignatureScheme::RsaPssPssSha384 => 0x080a,
            SignatureScheme::RsaPssPssSha512 => 0x080b,
            SignatureScheme::RsaPkcs1Sha1 => 0x0201,
            SignatureScheme::EcdsaSha1 => 0x0203,
        }
    }

    /// The number of a value stands for that value and for no other.
    pub proof fn lemma_code_of(v: SignatureScheme, code: u16)
        ensures
            Self::spec_of(v.code()) == Some(v),
            Self::spec_of(code) matches Some(w) ==> w.code() == code,
    {
    }
}

impl View for SignatureScheme {
    type V = SignatureScheme;

    open spec fn view(&self) -> SignatureScheme {
        *self
    }
}

impl<'a> Parse<'a> for SignatureScheme {
    open spec fn spec_parse(s: Seq<u8>) -> Result<(SignatureScheme, nat), ParseError> {
        if s.len() < 2 {
            Err(ParseError::InsufficientSpace)
        } else {
            match Self::spec_of(u16_from_be(s)) {
                Some(v) => Ok((v, 2nat)),
                None => Err(ParseError::InvalidData),
            }
        }
    }

    fn parse(buf: &mut ParseBuffer<'a>) -> (r: Result<Self, ParseError>) {
        match buf.read_u16() {
            Ok(code) => match Self::of(code) {
                Some(v) => Ok(v),
                None => Err(ParseError::InvalidData),
            },
            Err(e) => Err(e),
        }
    }
}

impl Encode for SignatureScheme {
    open spec fn wire(&self) -> Seq<u8> {
        u16_to_be(self.code())
    }

    open spec fn encodable(&self) -> bool {
        true
    }

    fn encode(self, buf: &mut CryptoBuffer) -> (r: Result<(), TlsError>) {
        buf.push_u16(self.as_u16())
    }
}

impl<'a> WireFormat<'a> for SignatureScheme {
    open spec fn well_formed(&self) -> bool {
        true
    }

    proof fn lemma_parse_of_wire(x: Self, rest: Seq<u8>) {
        lemma_u16_read_of_written(x.code(), rest);
    }

    proof fn lemma_wire_of_parsed(s: Seq<u8>, x: Self) {
        lemma_u16_written_of_read(s);
    }
}

/// The signature schemes that a peer accepts, most preferred first, behind a two-byte length.
pub struct SignatureAlgorithms<'a, Location: StorageType<'a, SignatureScheme>>(
    pub Location::ListType,
);

impl<'a> View for SignatureAlgorithms<'a, Remote> {
    type V = Seq<<SignatureScheme as View>::V>;

    /// The items of the list.
    open spec fn view(&self) -> Self::V {
        self.0@
    }
}

impl<'a> Parse<'a> for SignatureAlgorithms<'a, Remote> {
    open spec fn spec_parse(s: Seq<u8>) -> Result<(Self::V, nat), ParseError> {
        spec_parse_list::<SignatureScheme>(s, 2)
    }

    fn parse(buf: &mut ParseBuffer<'a>) -> (r: Result<Self, ParseError>) {
        match parse_list_u16::<SignatureScheme>(buf) {
            Ok(list) => Ok(SignatureAlgorithms(list)),
            Err(e) => Err(e),
        }
    }
}

impl<'a> Encode for SignatureAlgorithms<'a, Local> {
    open spec fn wire(&self) -> Seq<u8> {
        wire_list(self.0.0@, 2)
    }

    open spec fn encodable(&self) -> bool {
        list_encodable(self.0.0@, 2)
    }

    fn encode(self, buf: &mut CryptoBuffer) -> (r: Result<(), TlsError>) {
        encode_list_u16(self.0, buf)
    }
}

impl<'a> SignatureAlgorithms<'a, Local> {
    /// The list of the items of `items`.
    pub fn new(items: &'a [SignatureScheme]) -> (r: Self)
        ensures
            r.0.0@ == items@,
    {
        SignatureAlgorithms(DynIterList::new(items))
    }
}

impl<'a> SignatureAlgorithms<'a, Remote> {
    /// A cursor over the items, first to last.
    pub fn iter(&self) -> (r: ListIter<'a, SignatureScheme>)
        ensures
            r@ == self@,
    {
        self.0.iter()
    }

    /// The number of items.
    pub fn len(&self) -> (r: usize)
        ensures
            r == self@.len(),
    {
        self.0.len()
    }
}

} // verus!

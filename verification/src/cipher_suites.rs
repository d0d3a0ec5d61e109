//! Cipher suites: the pairs of an AEAD and a hash that a connection can use.

use vstd::prelude::*;
use crate::TlsError;
use crate::big_endian::{
    lemma_u16_read_of_written, lemma_u16_written_of_read, u16_from_be, u16_to_be,
};
use crate::buffer::CryptoBuffer;
use crate::parse_buffer::{ParseBuffer, ParseError};
use crate::parse_encode::{Encode, Parse, WireFormat};

verus! {

/// A cipher suite.
#[derive(Debug, Clone, Copy, PartialEq, Eq, Structural)]
pub enum CipherSuite {
    TlsAes128GcmSha256,
    TlsAes256GcmSha384,
    TlsChacha20Poly1305Sha256,
    TlsAes128CcmSha256,
    TlsAes128Ccm8Sha256,
    TlsPskAes128GcmSha256,
}

impl CipherSuite {
    /// The number that stands for the cipher suite on the wire.
    pub open spec fn code(self) -> u16 {
        match self {
            CipherSuite::TlsAes128GcmSha256 => 0x1301,
            CipherSuite::TlsAes256GcmSha384 => 0x1302,
            CipherSuite::TlsChacha20Poly1305Sha256 => 0x1303,
            CipherSuite::TlsAes128CcmSha256 => 0x1304,
            CipherSuite::TlsAes128Ccm8Sha256 => 0x1305,
            CipherSuite::TlsPskAes128GcmSha256 => 0x00a8,
        }
    }

    /// The cipher suite that `code` stands for, if it stands for one.
    pub open spec fn spec_of(code: u16) -> Option<CipherSuite> {
        if code == 0x1301 {
            Some(CipherSuite::TlsAes128GcmSha256)
        } else if code == 0x1302 {
            Some(CipherSuite::TlsAes256GcmSha384)
        } else if code == 0x1303 {
            Some(CipherSuite::TlsChacha20Poly1305Sha256)
        } else if code == 0x1304 {
            Some(CipherSuite::TlsAes128CcmSha256)
        } else if code == 0x1305 {
            Some(CipherSuite::TlsAes128Ccm8Sha256)
        } else if code == 0x00a8 {
            Some(CipherSuite::TlsPskAes128GcmSha256)
        } else {
            None
        }
    }

    /// The cipher suite that `code` stands for, if it stands for one.
    pub fn of(code: u16) -> (r: Option<CipherSuite>)
        ensures
            r == Self::spec_of(code),
    {
        match code {
            0x1301 => Some(CipherSuite::TlsAes128GcmSha256),
            0x1302 => Some(CipherSuite::TlsAes256GcmSha384),
            0x1303 => Some(CipherSuite::TlsChacha20Poly1305Sha256),
            0x1304 => Some(CipherSuite::TlsAes128CcmSha256),
            0x1305 => Some(CipherSuite::TlsAes128Ccm8Sha256),
            0x00a8 => Some(CipherSuite::TlsPskAes128GcmSha256),
            _ => None,
        }
    }

    /// The number that stands for the cipher suite on the wire.
    pub fn as_u16(self) -> (r: u16)
        ensures
            r == self.code(),
    {
        match self {
            CipherSuite::TlsAes128GcmSha256 => 0x1301,
            CipherSuite::TlsAes256GcmSha384 => 0x1302,
            CipherSuite::TlsChacha20Poly1305Sha256 => 0x1303,
            CipherSuite::TlsAes128CcmSha256 => 0x1304,
            CipherSuite::TlsAes128Ccm8Sha256 => 0x1305,
            CipherSuite::TlsPskAes128GcmSha256 => 0x00a8,
        }
    }

    /// The number of a value stands for that value and for no other.
    pub proof fn lemma_code_of(v: CipherSuite, code: u16)
        ensures
            Self::spec_of(v.code()) == Some(v),
            Self::spec_of(code) matches Some(w) ==> w.code() == code,
    {
    }
}

impl View for CipherSuite {
    type V = CipherSuite;

    open spec fn view(&self) -> CipherSuite {
        *self
    }
}

impl<'a> Parse<'a> for CipherSuite {
    open spec fn spec_parse(s: Seq<u8>) -> Result<(CipherSuite, nat), ParseError> {
        if s.len() < 2 {
            Err(ParseError::InsufficientSpace)
        } else {
            match Self::spec_of(u16_from_be(s)) {
                Some(v) => Ok((v, 2nat)),
                None => Err(ParseError::InvalidData),
            }
        }
    }

    fn parse(buf: &mut ParseBuffer<'a>) -> (r: Result<Self, ParseError>) {
        match buf.read_u16() {
            Ok(code) => match Self::of(code) {
                Some(v) => Ok(v),
                None => Err(ParseError::InvalidData),
            },
            Err(e) => Err(e),
        }
    }
}

impl Encode for CipherSuite {
    open spec fn wire(&self) -> Seq<u8> {
        u16_to_be(self.code())
    }

    open spec fn encodable(&self) -> bool {
        true
    }

    fn encode(self, buf: &mut CryptoBuffer) -> (r: Result<(), TlsError>) {
        buf.push_u16(self.as_u16())
    }
}

impl<'a> WireFormat<'a> for CipherSuite {
    open spec fn well_formed(&self) -> bool {
        true
    }

    proof fn lemma_parse_of_wire(x: Self, rest: Seq<u8>) {
        lemma_u16_read_of_written(x.code(), rest);
    }

    proof fn lemma_wire_of_parsed(s: Seq<u8>, x: Self) {
        lemma_u16_written_of_read(s);
    }
}

} // verus!

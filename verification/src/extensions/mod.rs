//! Extensions: their bodies, and which of them each handshake message may carry.

use vstd::prelude::*;
use crate::TlsError;
use crate::big_endian::{
    lemma_u16_read_of_written, lemma_u16_written_of_read, u16_from_be, u16_to_be,
};
use crate::buffer::CryptoBuffer;
use crate::parse_buffer::{ParseBuffer, ParseError};
use crate::parse_encode::{encoded, parsed, Encode, Parse, WireFormat};

pub mod extension_data;
pub mod messages;

verus! {

/// The type of an extension, for the extensions that this stack knows.
#[derive(Debug, Clone, Copy, PartialEq, Eq, Structural)]
pub enum ExtensionType {
    ServerName,
    MaxFragmentLength,
    StatusRequest,
    SupportedGroups,
    SignatureAlgorithms,
    UseSrtp,
    Heartbeat,
    ApplicationLayerProtocolNegotiation,
    SignedCertificateTimestamp,
    ClientCertificateType,
    ServerCertificateType,
    Padding,
    CompressCertificate,
    PreSharedKey,
    EarlyData,
    SupportedVersions,
    Cookie,
    PskKeyExchangeModes,
    CertificateAuthorities,
    OidFilters,
    PostHandshakeAuth,
    SignatureAlgorithmsCert,
    KeyShare,
}

impl ExtensionType {
    /// The number that stands for the extension type on the wire.
    pub open spec fn code(self) -> u16 {
        match self {
            ExtensionType::ServerName => 0,
            ExtensionType::MaxFragmentLength => 1,
            ExtensionType::StatusRequest => 5,
            ExtensionType::SupportedGroups => 10,
            ExtensionType::SignatureAlgorithms => 13,
            ExtensionType::UseSrtp => 14,
            ExtensionType::Heartbeat => 15,
            ExtensionType::ApplicationLayerProtocolNegotiation => 16,
            ExtensionType::SignedCertificateTimestamp => 18,
            ExtensionType::ClientCertificateType => 19,
            ExtensionType::ServerCertificateType => 20,
            ExtensionType::Padding => 21,
            ExtensionType::CompressCertificate => 27,
            ExtensionType::PreSharedKey => 41,
            ExtensionType::EarlyData => 42,
            ExtensionType::SupportedVersions => 43,
            ExtensionType::Cookie => 44,
            ExtensionType::PskKeyExchangeModes => 45,
            ExtensionType::CertificateAuthorities => 47,
            ExtensionType::OidFilters => 48,
            ExtensionType::PostHandshakeAuth => 49,
            ExtensionType::SignatureAlgorithmsCert => 50,
            ExtensionType::KeyShare => 51,
        }
    }

    /// The extension type that `code` stands for, if it stands for one.
    pub open spec fn spec_of(code: u16) -> Option<ExtensionType> {
        if code == 0 {
            Some(ExtensionType::ServerName)
        } else if code == 1 {
            Some(ExtensionType::MaxFragmentLength)
        } else if code == 5 {
            Some(ExtensionType::StatusRequest)
        } else if code == 10 {
            Some(ExtensionType::SupportedGroups)
        } else if code == 13 {
            Some(ExtensionType::SignatureAlgorithms)
        } else if code == 14 {
            Some(ExtensionType::UseSrtp)
        } else if code == 15 {
            Some(ExtensionType::Heartbeat)
        } else if code == 16 {
            Some(ExtensionType::ApplicationLayerProtocolNegotiation)
        } else if code == 18 {
            Some(ExtensionType::SignedCertificateTimestamp)
        } else if code == 19 {
            Some(ExtensionType::ClientCertificateType)
        } else if code == 20 {
            Some(ExtensionType::ServerCertificateType)
        } else if code == 21 {
            Some(ExtensionType::Padding)
        } else if code == 27 {
            Some(ExtensionType::CompressCertificate)
        } else if code == 41 {
            Some(ExtensionType::PreSharedKey)
        } else if code == 42 {
            Some(ExtensionType::EarlyData)
        } else if code == 43 {
            Some(ExtensionType::SupportedVersions)
        } else if code == 44 {
            Some(ExtensionType::Cookie)
        } else if code == 45 {
            Some(ExtensionType::PskKeyExchangeModes)
        } else if code == 47 {
            Some(ExtensionType::CertificateAuthorities)
        } else if code == 48 {
            Some(ExtensionType::OidFilters)
        } else if code == 49 {
            Some(ExtensionType::PostHandshakeAuth)
        } else if code == 50 {
            Some(ExtensionType::SignatureAlgorithmsCert)
        } else if code == 51 {
            Some(ExtensionType::KeyShare)
        } else {
            None
        }
    }

    /// The extension type that `code` stands for, if it stands for one.
    pub fn of(code: u16) -> (r: Option<ExtensionType>)
        ensures
            r == Self::spec_of(code),
    {
        match code {
            0 => Some(ExtensionType::ServerName),
            1 => Some(ExtensionType::MaxFragmentLength),
            5 => Some(ExtensionType::StatusRequest),
            10 => Some(ExtensionType::SupportedGroups),
            13 => Some(ExtensionType::SignatureAlgorithms),
            14 => Some(ExtensionType::UseSrtp),
            15 => Some(ExtensionType::Heartbeat),
            16 => Some(ExtensionType::ApplicationLayerProtocolNegotiation),
            18 => Some(ExtensionType::SignedCertificateTimestamp),
            19 => Some(ExtensionType::ClientCertificateType),
            20 => Some(ExtensionType::ServerCertificateType),
            21 => Some(ExtensionType::Padding),
            27 => Some(ExtensionType::CompressCertificate),
            41 => Some(ExtensionType::PreSharedKey),
            42 => Some(ExtensionType::EarlyData),
            43 => Some(ExtensionType::SupportedVersions),
            44 => Some(ExtensionType::Cookie),
            45 => Some(ExtensionType::PskKeyExchangeModes),
            47 => Some(ExtensionType::CertificateAuthorities),
            48 => Some(ExtensionType::OidFilters),
            49 => Some(ExtensionType::PostHandshakeAuth),
            50 => Some(ExtensionType::SignatureAlgorithmsCert),
            51 => Some(ExtensionType::KeyShare),
            _ => None,
        }
    }

    /// The number that stands for the extension type on the wire.
    pub fn as_u16(self) -> (r: u16)
        ensures
            r == self.code(),
    {
        match self {
            ExtensionType::ServerName => 0,
            ExtensionType::MaxFragmentLength => 1,
            ExtensionType::StatusRequest => 5,
            ExtensionType::SupportedGroups => 10,
            ExtensionType::SignatureAlgorithms => 13,
            ExtensionType::UseSrtp => 14,
            ExtensionType::Heartbeat => 15,
            ExtensionType::ApplicationLayerProtocolNegotiation => 16,
            ExtensionType::SignedCertificateTimestamp => 18,
            ExtensionType::ClientCertificateType => 19,
            ExtensionType::ServerCertificateType => 20,
            ExtensionType::Padding => 21,
            ExtensionType::CompressCertificate => 27,
            ExtensionType::PreSharedKey => 41,
            ExtensionType::EarlyData => 42,
            ExtensionType::SupportedVersions => 43,
            ExtensionType::Cookie => 44,
            ExtensionType::PskKeyExchangeModes => 45,
            ExtensionType::CertificateAuthorities => 47,
            ExtensionType::OidFilters => 48,
            ExtensionType::PostHandshakeAuth => 49,
            ExtensionType::SignatureAlgorithmsCert => 50,
            ExtensionType::KeyShare => 51,
        }
    }

    /// The number of a value stands for that value and for no other.
    pub proof fn lemma_code_of(v: ExtensionType, code: u16)
        ensures
            Self::spec_of(v.code()) == Some(v),
            Self::spec_of(code) matches Some(w) ==> w.code() == code,
    {
    }
    /// Reads an extension type from two bytes; a number that stands for no
    /// known type is invalid data.
    pub fn parse(buf: &mut ParseBuffer) -> (r: Result<Self, ParseError>)
        ensures
            parsed(*old(buf), *final(buf), r, <Self as Parse>::spec_parse(old(buf).unread())),
    {
        match buf.read_u16() {
            Ok(code) => match Self::of(code) {
                Some(v) => Ok(v),
                None => Err(ParseError::InvalidData),
            },
            Err(e) => Err(e),
        }
    }

    /// Writes the extension type as two bytes.
    pub fn encode(self, buf: &mut CryptoBuffer) -> (r: Result<(), TlsError>)
        ensures
            encoded(*old(buf), *final(buf), r, true, Encode::wire(&self)),
    {
        buf.push_u16(self.as_u16())
    }
}

impl View for ExtensionType {
    type V = ExtensionType;

    open spec fn view(&self) -> ExtensionType {
        *self
    }
}

impl<'a> Parse<'a> for ExtensionType {
    open spec fn spec_parse(s: Seq<u8>) -> Result<(ExtensionType, nat), ParseError> {
        if s.len() < 2 {
            Err(ParseError::InsufficientSpace)
        } else {
            match Self::spec_of(u16_from_be(s)) {
                Some(v) => Ok((v, 2nat)),
                None => Err(ParseError::InvalidData),
            }
        }
    }

    fn parse(buf: &mut ParseBuffer<'a>) -> (r: Result<Self, ParseError>) {
        ExtensionType::parse(buf)
    }
}

impl Encode for ExtensionType {
    open spec fn wire(&self) -> Seq<u8> {
        u16_to_be(self.code())
    }

    open spec fn encodable(&self) -> bool {
        true
    }

    fn encode(self, buf: &mut CryptoBuffer) -> (r: Result<(), TlsError>) {
        ExtensionType::encode(self, buf)
    }
}

impl<'a> WireFormat<'a> for ExtensionType {
    open spec fn well_formed(&self) -> bool {
        true
    }

    proof fn lemma_parse_of_wire(x: Self, rest: Seq<u8>) {
        lemma_u16_read_of_written(x.code(), rest);
    }

    proof fn lemma_wire_of_parsed(s: Seq<u8>, x: Self) {
        lemma_u16_written_of_read(s);
    }
}

} // verus!

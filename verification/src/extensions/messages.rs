//! The extensions of each handshake message: which types a message may
//! carry, how the body of each is read there, and the parser of a message's
//! extension block.

use vstd::prelude::*;
use crate::TlsError;
use crate::alert::{AlertDescription, AlertLevel};
use crate::big_endian::{lemma_u16_read_of_written, u16_from_be, u16_to_be};
use crate::buffer::CryptoBuffer;
use crate::extensions::ExtensionType;
use crate::extensions::extension_data::key_share::{
    KeyShareClientHello, KeyShareEntry, KeyShareServerHello,
};
use crate::extensions::extension_data::max_fragment_length::MaxFragmentLength;
use crate::extensions::extension_data::pre_shared_key::{
    spec_parse_psk_offer, PreSharedKeyClientHello, PreSharedKeyServerHello,
};
use crate::extensions::extension_data::psk_key_exchange_modes::{
    PskKeyExchangeMode, PskKeyExchangeModes,
};
use crate::extensions::extension_data::server_name::{
    NameType, ServerName, ServerNameList, ServerNameResponse,
};
use crate::extensions::extension_data::signature_algorithms::{
    SignatureAlgorithms, SignatureScheme,
};
use crate::extensions::extension_data::signature_algorithms_cert::SignatureAlgorithmsCert;
use crate::extensions::extension_data::supported_groups::{NamedGroup, SupportedGroups};
use crate::extensions::extension_data::supported_versions::{
    spec_parse_versions_offered, ProtocolVersion, SupportedVersionsClientHello,
    SupportedVersionsServerHello,
};
use crate::extensions::extension_data::unimplemented::Unimplemented;
use crate::parse_buffer::{ParseBuffer, ParseError};
use crate::parse_encode::{encoded, spec_parse_list, views, Encode, Parse, Remote};

verus! {

/// A handshake message that carries extensions.
#[derive(Debug, Clone, Copy, PartialEq, Eq, Structural)]
pub enum MessageKind {
    ClientHello,
    ServerHello,
    EncryptedExtensions,
    CertificateRequest,
    Certificate,
    NewSessionTicket,
    HelloRetryRequest,
}

/// How the body of an extension is read.
#[derive(Debug, Clone, Copy, PartialEq, Eq, Structural)]
pub enum BodyKind {
    /// The names that a client gives for the server.
    ServerNames,
    /// The empty answer of a server that used the name.
    ServerNameAck,
    /// The versions that a client offers.
    VersionsOffered,
    /// The version that the server selected.
    VersionSelected,
    SignatureAlgorithms,
    SupportedGroups,
    /// The key shares that a client offers.
    KeySharesOffered,
    /// The key share that the server selected.
    KeyShareSelected,
    /// The pre-shared keys that a client offers.
    PskOffered,
    /// The pre-shared key that the server selected.
    PskSelected,
    PskKeyExchangeModes,
    SignatureAlgorithmsCert,
    MaxFragmentLength,
    /// Kept as bytes, not interpreted.
    Opaque,
}

/// How the body of an extension of type `t` is read in the message `m`, or
/// `None` where the message must not carry that type.
pub open spec fn spec_body_kind(t: ExtensionType, m: MessageKind) -> Option<BodyKind> {
    match m {
        MessageKind::ClientHello => match t {
            ExtensionType::ServerName => Some(BodyKind::ServerNames),
            ExtensionType::SupportedVersions => Some(BodyKind::VersionsOffered),
            ExtensionType::SignatureAlgorithms => Some(BodyKind::SignatureAlgorithms),
            ExtensionType::SupportedGroups => Some(BodyKind::SupportedGroups),
            ExtensionType::KeyShare => Some(BodyKind::KeySharesOffered),
            ExtensionType::PreSharedKey => Some(BodyKind::PskOffered),
            ExtensionType::PskKeyExchangeModes => Some(BodyKind::PskKeyExchangeModes),
            ExtensionType::SignatureAlgorithmsCert => Some(BodyKind::SignatureAlgorithmsCert),
            ExtensionType::MaxFragmentLength => Some(BodyKind::MaxFragmentLength),
            ExtensionType::StatusRequest
            | ExtensionType::UseSrtp
            | ExtensionType::Heartbeat
            | ExtensionType::ApplicationLayerProtocolNegotiation
            | ExtensionType::SignedCertificateTimestamp
            | ExtensionType::ClientCertificateType
            | ExtensionType::ServerCertificateType
            | ExtensionType::Padding
            | ExtensionType::EarlyData
            | ExtensionType::Cookie
            | ExtensionType::CertificateAuthorities
            | ExtensionType::OidFilters
            | ExtensionType::PostHandshakeAuth => Some(BodyKind::Opaque),
            ExtensionType::CompressCertificate => None,
        },
        MessageKind::ServerHello => match t {
            ExtensionType::KeyShare => Some(BodyKind::KeyShareSelected),
            ExtensionType::PreSharedKey => Some(BodyKind::PskSelected),
            ExtensionType::SupportedVersions => Some(BodyKind::VersionSelected),
            // a HelloRetryRequest arrives as a ServerHello and may carry a cookie
            ExtensionType::Cookie => Some(BodyKind::Opaque),
            _ => None,
        },
        MessageKind::EncryptedExtensions => match t {
            ExtensionType::ServerName => Some(BodyKind::ServerNameAck),
            ExtensionType::MaxFragmentLength => Some(BodyKind::MaxFragmentLength),
            ExtensionType::SupportedGroups => Some(BodyKind::SupportedGroups),
            ExtensionType::UseSrtp
            | ExtensionType::Heartbeat
            | ExtensionType::ApplicationLayerProtocolNegotiation
            | ExtensionType::ClientCertificateType
            | ExtensionType::ServerCertificateType
            | ExtensionType::EarlyData => Some(BodyKind::Opaque),
            _ => None,
        },
        MessageKind::CertificateRequest => match t {
            ExtensionType::SignatureAlgorithms => Some(BodyKind::SignatureAlgorithms),
            ExtensionType::StatusRequest
            | ExtensionType::SignedCertificateTimestamp
            | ExtensionType::CertificateAuthorities
            | ExtensionType::OidFilters
            | ExtensionType::SignatureAlgorithmsCert
            | ExtensionType::CompressCertificate => Some(BodyKind::Opaque),
            _ => None,
        },
        MessageKind::Certificate => match t {
            ExtensionType::StatusRequest | ExtensionType::SignedCertificateTimestamp => Some(
                BodyKind::Opaque,
            ),
            _ => None,
        },
        MessageKind::NewSessionTicket => match t {
            ExtensionType::EarlyData => Some(BodyKind::Opaque),
            _ => None,
        },
        MessageKind::HelloRetryRequest => match t {
            ExtensionType::KeyShare | ExtensionType::Cookie | ExtensionType::SupportedVersions => Some(
                BodyKind::Opaque,
            ),
            _ => None,
        },
    }
}

/// How the body of an extension of type `t` is read in the message `m`, or
/// `None` where the message must not carry that type.
pub fn body_kind(t: ExtensionType, m: MessageKind) -> (r: Option<BodyKind>)
    ensures
        r == spec_body_kind(t, m),
{
    match m {
        MessageKind::ClientHello => match t {
            ExtensionType::ServerName => Some(BodyKind::ServerNames),
            ExtensionType::SupportedVersions => Some(BodyKind::VersionsOffered),
            ExtensionType::SignatureAlgorithms => Some(BodyKind::SignatureAlgorithms),
            ExtensionType::SupportedGroups => Some(BodyKind::SupportedGroups),
            ExtensionType::KeyShare => Some(BodyKind::KeySharesOffered),
            ExtensionType::PreSharedKey => Some(BodyKind::PskOffered),
            ExtensionType::PskKeyExchangeModes => Some(BodyKind::PskKeyExchangeModes),
            ExtensionType::SignatureAlgorithmsCert => Some(BodyKind::SignatureAlgorithmsCert),
            ExtensionType::MaxFragmentLength => Some(BodyKind::MaxFragmentLength),
            ExtensionType::StatusRequest
            | ExtensionType::UseSrtp
            | ExtensionType::Heartbeat
            | ExtensionType::ApplicationLayerProtocolNegotiation
            | ExtensionType::SignedCertificateTimestamp
            | ExtensionType::ClientCertificateType
            | ExtensionType::ServerCertificateType
            | ExtensionType::Padding
            | ExtensionType::EarlyData
            | ExtensionType::Cookie
            | ExtensionType::CertificateAuthorities
            | ExtensionType::OidFilters
            | ExtensionType::PostHandshakeAuth => Some(BodyKind::Opaque),
            ExtensionType::CompressCertificate => None,
        },
        MessageKind::ServerHello => match t {
            ExtensionType::KeyShare => Some(BodyKind::KeyShareSelected),
            ExtensionType::PreSharedKey => Some(BodyKind::PskSelected),
            ExtensionType::SupportedVersions => Some(BodyKind::VersionSelected),
            ExtensionType::Cookie => Some(BodyKind::Opaque),
            _ => None,
        },
        MessageKind::EncryptedExtensions => match t {
            ExtensionType::ServerName => Some(BodyKind::ServerNameAck),
            ExtensionType::MaxFragmentLength => Some(BodyKind::MaxFragmentLength),
            ExtensionType::SupportedGroups => Some(BodyKind::SupportedGroups),
            ExtensionType::UseSrtp
            | ExtensionType::Heartbeat
            | ExtensionType::ApplicationLayerProtocolNegotiation
            | ExtensionType::ClientCertificateType
            | ExtensionType::ServerCertificateType
            | ExtensionType::EarlyData => Some(BodyKind::Opaque),
            _ => None,
        },
        MessageKind::CertificateRequest => match t {
            ExtensionType::SignatureAlgorithms => Some(BodyKind::SignatureAlgorithms),
            ExtensionType::StatusRequest
            | ExtensionType::SignedCertificateTimestamp
            | ExtensionType::CertificateAuthorities
            | ExtensionType::OidFilters
            | ExtensionType::SignatureAlgorithmsCert
            | ExtensionType::CompressCertificate => Some(BodyKind::Opaque),
            _ => None,
        },
        MessageKind::Certificate => match t {
            ExtensionType::StatusRequest | ExtensionType::SignedCertificateTimestamp => Some(
                BodyKind::Opaque,
            ),
            _ => None,
        },
        MessageKind::NewSessionTicket => match t {
            ExtensionType::EarlyData => Some(BodyKind::Opaque),
            _ => None,
        },
        MessageKind::HelloRetryRequest => match t {
            ExtensionType::KeyShare | ExtensionType::Cookie | ExtensionType::SupportedVersions => Some(
                BodyKind::Opaque,
            ),
            _ => None,
        },
    }
}

/// An extension received from the peer, with its body read as the message
/// it came in asks.
pub enum Extension<'a> {
    ServerName(ServerNameList<'a, Remote>),
    ServerNameAck(ServerNameResponse),
    SupportedVersions(SupportedVersionsClientHello<'a, Remote>),
    SelectedVersion(SupportedVersionsServerHello),
    SignatureAlgorithms(SignatureAlgorithms<'a, Remote>),
    SupportedGroups(SupportedGroups<'a, Remote>),
    KeyShares(KeyShareClientHello<'a>),
    KeyShare(KeyShareServerHello<'a>),
    PreSharedKey(PreSharedKeyClientHello<'a, Remote>),
    SelectedIdentity(PreSharedKeyServerHello),
    PskKeyExchangeModes(PskKeyExchangeModes<'a, Remote>),
    SignatureAlgorithmsCert(SignatureAlgorithmsCert<'a, Remote>),
    MaxFragmentLength(MaxFragmentLength),
    /// An extension that is carried without being interpreted.
    Opaque(ExtensionType, Unimplemented<'a>),
}

/// What an extension holds, as values: lists as sequences, byte strings as
/// sequences of bytes.
pub enum ExtensionView {
    ServerName(Seq<(NameType, Seq<u8>)>),
    ServerNameAck,
    SupportedVersions(Seq<ProtocolVersion>),
    SelectedVersion(ProtocolVersion),
    SignatureAlgorithms(Seq<SignatureScheme>),
    SupportedGroups(Seq<NamedGroup>),
    KeyShares(Seq<(NamedGroup, Seq<u8>)>),
    KeyShare((NamedGroup, Seq<u8>)),
    PreSharedKey(Seq<(Seq<u8>, u32)>, Seq<Seq<u8>>),
    SelectedIdentity(u16),
    PskKeyExchangeModes(Seq<PskKeyExchangeMode>),
    SignatureAlgorithmsCert(Seq<SignatureScheme>),
    MaxFragmentLength(MaxFragmentLength),
    Opaque(ExtensionType, Seq<u8>),
}

impl ExtensionView {
    /// The type of the extension.
    pub open spec fn extension_type(self) -> ExtensionType {
        match self {
            ExtensionView::ServerName(_) | ExtensionView::ServerNameAck => ExtensionType::ServerName,
            ExtensionView::SupportedVersions(_) | ExtensionView::SelectedVersion(_) => {
                ExtensionType::SupportedVersions
            },
            ExtensionView::SignatureAlgorithms(_) => ExtensionType::SignatureAlgorithms,
            ExtensionView::SupportedGroups(_) => ExtensionType::SupportedGroups,
            ExtensionView::KeyShares(_) | ExtensionView::KeyShare(_) => ExtensionType::KeyShare,
            ExtensionView::PreSharedKey(_, _) | ExtensionView::SelectedIdentity(_) => {
                ExtensionType::PreSharedKey
            },
            ExtensionView::PskKeyExchangeModes(_) => ExtensionType::PskKeyExchangeModes,
            ExtensionView::SignatureAlgorithmsCert(_) => ExtensionType::SignatureAlgorithmsCert,
            ExtensionView::MaxFragmentLength(_) => ExtensionType::MaxFragmentLength,
            ExtensionView::Opaque(t, _) => t,
        }
    }
}

impl<'a> View for Extension<'a> {
    type V = ExtensionView;

    open spec fn view(&self) -> ExtensionView {
        match self {
            Extension::ServerName(x) => ExtensionView::ServerName(x@),
            Extension::ServerNameAck(_) => ExtensionView::ServerNameAck,
            Extension::SupportedVersions(x) => ExtensionView::SupportedVersions(x@),
            Extension::SelectedVersion(x) => ExtensionView::SelectedVersion(x@),
            Extension::SignatureAlgorithms(x) => ExtensionView::SignatureAlgorithms(x@),
            Extension::SupportedGroups(x) => ExtensionView::SupportedGroups(x@),
            Extension::KeyShares(x) => ExtensionView::KeyShares(x@),
            Extension::KeyShare(x) => ExtensionView::KeyShare(x@),
            Extension::PreSharedKey(x) => ExtensionView::PreSharedKey(x@.0, x@.1),
            Extension::SelectedIdentity(x) => ExtensionView::SelectedIdentity(x@),
            Extension::PskKeyExchangeModes(x) => ExtensionView::PskKeyExchangeModes(x@),
            Extension::SignatureAlgorithmsCert(x) => ExtensionView::SignatureAlgorithmsCert(x@),
            Extension::MaxFragmentLength(x) => ExtensionView::MaxFragmentLength(x@),
            Extension::Opaque(t, x) => ExtensionView::Opaque(*t, x@),
        }
    }
}

/// What the body `body` of an extension of type `t` holds when it is read
/// as `kind` asks, or why it cannot be read so. Bytes of the body behind
/// what was read are ignored.
#[verifier::opaque]
pub open spec fn spec_parse_body(kind: BodyKind, t: ExtensionType, body: Seq<u8>) -> Result<
    ExtensionView,
    ParseError,
> {
    match kind {
        BodyKind::ServerNames => match spec_parse_list::<ServerName>(body, 2) {
            Ok((v, _)) => Ok(ExtensionView::ServerName(v)),
            Err(e) => Err(e),
        },
        BodyKind::ServerNameAck => match ServerNameResponse::spec_parse(body) {
            Ok(_) => Ok(ExtensionView::ServerNameAck),
            Err(e) => Err(e),
        },
        BodyKind::VersionsOffered => match spec_parse_versions_offered(body) {
            Ok((v, _)) => Ok(ExtensionView::SupportedVersions(v)),
            Err(e) => Err(e),
        },
        BodyKind::VersionSelected => match SupportedVersionsServerHello::spec_parse(body) {
            Ok((v, _)) => Ok(ExtensionView::SelectedVersion(v)),
            Err(e) => Err(e),
        },
        BodyKind::SignatureAlgorithms => match spec_parse_list::<SignatureScheme>(body, 2) {
            Ok((v, _)) => Ok(ExtensionView::SignatureAlgorithms(v)),
            Err(e) => Err(e),
        },
        BodyKind::SupportedGroups => match spec_parse_list::<NamedGroup>(body, 2) {
            Ok((v, _)) => Ok(ExtensionView::SupportedGroups(v)),
            Err(e) => Err(e),
        },
        BodyKind::KeySharesOffered => match spec_parse_list::<KeyShareEntry>(body, 2) {
            Ok((v, _)) => Ok(ExtensionView::KeyShares(v)),
            Err(e) => Err(e),
        },
        BodyKind::KeyShareSelected => match KeyShareEntry::spec_parse(body) {
            Ok((v, _)) => Ok(ExtensionView::KeyShare(v)),
            Err(e) => Err(e),
        },
        BodyKind::PskOffered => match spec_parse_psk_offer(body) {
            Ok((v, _)) => Ok(ExtensionView::PreSharedKey(v.0, v.1)),
            Err(e) => Err(e),
        },
        BodyKind::PskSelected => match u16::spec_parse(body) {
            Ok((v, _)) => Ok(ExtensionView::SelectedIdentity(v)),
            Err(e) => Err(e),
        },
        BodyKind::PskKeyExchangeModes => match spec_parse_list::<PskKeyExchangeMode>(body, 1) {
            Ok((v, _)) => Ok(ExtensionView::PskKeyExchangeModes(v)),
            Err(e) => Err(e),
        },
        BodyKind::SignatureAlgorithmsCert => match spec_parse_list::<SignatureScheme>(body, 2) {
            Ok((v, _)) => Ok(ExtensionView::SignatureAlgorithmsCert(v)),
            Err(e) => Err(e),
        },
        BodyKind::MaxFragmentLength => match MaxFragmentLength::spec_parse(body) {
            Ok((v, _)) => Ok(ExtensionView::MaxFragmentLength(v)),
            Err(e) => Err(e),
        },
        BodyKind::Opaque => Ok(ExtensionView::Opaque(t, body)),
    }
}

/// The error that ends the handshake when a message carries an extension
/// that it must not carry.
pub open spec fn illegal_parameter() -> TlsError {
    TlsError::AbortHandshake(AlertLevel::Fatal, AlertDescription::IllegalParameter)
}

/// What stands at the front of `s` when an extension of the message `m` is
/// expected: two bytes of type, two bytes of length and that many bytes of
/// body. Gives the extension and the number of bytes it takes, or
/// - a decode error where type, length or body are cut short,
/// - `UnknownExtensionType` where the type is not known,
/// - a fatal `illegal_parameter` where `m` must not carry the type,
/// - a decode error where the body cannot be read.
pub open spec fn spec_parse_extension(s: Seq<u8>, m: MessageKind) -> Result<
    (ExtensionView, nat),
    TlsError,
> {
    if s.len() < 4 || s.len() < 4 + u16_from_be(s.skip(2)) {
        Err(TlsError::DecodeError)
    } else {
        let len = u16_from_be(s.skip(2)) as nat;
        match ExtensionType::spec_of(u16_from_be(s)) {
            None => Err(TlsError::UnknownExtensionType),
            Some(t) => match spec_body_kind(t, m) {
                None => Err(illegal_parameter()),
                Some(kind) => match spec_parse_body(kind, t, s.subrange(4, 4 + len as int)) {
                    Ok(v) => Ok((v, 4 + len)),
                    Err(_) => Err(TlsError::DecodeError),
                },
            },
        }
    }
}

/// What reading a body does when `expected` is what the specification finds
/// in it: it returns an extension with that view, or that error.
pub open spec fn body_parsed(
    r: Result<Extension, ParseError>,
    expected: Result<ExtensionView, ParseError>,
) -> bool {
    match expected {
        Ok(v) => r matches Ok(x) && x@ == v,
        Err(e) => r matches Err(f) && f == e,
    }
}

/// The number of bytes of the extension at the front of `s`, header and body.
pub open spec fn extension_len(s: Seq<u8>) -> nat {
    (4 + u16_from_be(s.skip(2))) as nat
}

impl<'a> Extension<'a> {
    /// The type of the extension.
    pub fn extension_type(&self) -> (r: ExtensionType)
        ensures
            r == self@.extension_type(),
    {
        match self {
            Extension::ServerName(_) | Extension::ServerNameAck(_) => ExtensionType::ServerName,
            Extension::SupportedVersions(_) | Extension::SelectedVersion(_) => {
                ExtensionType::SupportedVersions
            },
            Extension::SignatureAlgorithms(_) => ExtensionType::SignatureAlgorithms,
            Extension::SupportedGroups(_) => ExtensionType::SupportedGroups,
            Extension::KeyShares(_) | Extension::KeyShare(_) => ExtensionType::KeyShare,
            Extension::PreSharedKey(_) | Extension::SelectedIdentity(_) => {
                ExtensionType::PreSharedKey
            },
            Extension::PskKeyExchangeModes(_) => ExtensionType::PskKeyExchangeModes,
            Extension::SignatureAlgorithmsCert(_) => ExtensionType::SignatureAlgorithmsCert,
            Extension::MaxFragmentLength(_) => ExtensionType::MaxFragmentLength,
            Extension::Opaque(t, _) => *t,
        }
    }

    /// Reads a body of the kind `ServerNames`.
    fn parse_server_names(t: ExtensionType, body: &mut ParseBuffer<'a>) -> (r: Result<
        Extension<'a>,
        ParseError,
    >)
        ensures
            body_parsed(r, spec_parse_body(BodyKind::ServerNames, t, old(body).unread())),
    {
        reveal(spec_parse_body);
        match ServerNameList::<Remote>::parse(body) {
            Ok(x) => Ok(Extension::ServerName(x)),
            Err(e) => Err(e),
        }
    }

    /// Reads a body of the kind `ServerNameAck`.
    fn parse_server_name_ack(t: ExtensionType, body: &mut ParseBuffer<'a>) -> (r: Result<
        Extension<'a>,
        ParseError,
    >)
        ensures
            body_parsed(r, spec_parse_body(BodyKind::ServerNameAck, t, old(body).unread())),
    {
        reveal(spec_parse_body);
        match ServerNameResponse::parse(body) {
            Ok(x) => Ok(Extension::ServerNameAck(x)),
            Err(e) => Err(e),
        }
    }

    /// Reads a body of the kind `VersionsOffered`.
    fn parse_versions_offered(t: ExtensionType, body: &mut ParseBuffer<'a>) -> (r: Result<
        Extension<'a>,
        ParseError,
    >)
        ensures
            body_parsed(r, spec_parse_body(BodyKind::VersionsOffered, t, old(body).unread())),
    {
        reveal(spec_parse_body);
        match SupportedVersionsClientHello::<Remote>::parse(body) {
            Ok(x) => Ok(Extension::SupportedVersions(x)),
            Err(e) => Err(e),
        }
    }

    /// Reads a body of the kind `VersionSelected`.
    fn parse_version_selected(t: ExtensionType, body: &mut ParseBuffer<'a>) -> (r: Result<
        Extension<'a>,
        ParseError,
    >)
        ensures
            body_parsed(r, spec_parse_body(BodyKind::VersionSelected, t, old(body).unread())),
    {
        reveal(spec_parse_body);
        match SupportedVersionsServerHello::parse(body) {
            Ok(x) => Ok(Extension::SelectedVersion(x)),
            Err(e) => Err(e),
        }
    }

    /// Reads a body of the kind `SignatureAlgorithms`.
    fn parse_signature_algorithms(t: ExtensionType, body: &mut ParseBuffer<'a>) -> (r: Result<
        Extension<'a>,
        ParseError,
    >)
        ensures
            body_parsed(r, spec_parse_body(BodyKind::SignatureAlgorithms, t, old(body).unread())),
    {
        reveal(spec_parse_body);
        match SignatureAlgorithms::<Remote>::parse(body) {
            Ok(x) => Ok(Extension::SignatureAlgorithms(x)),
            Err(e) => Err(e),
        }
    }

    /// Reads a body of the kind `SupportedGroups`.
    fn parse_supported_groups(t: ExtensionType, body: &mut ParseBuffer<'a>) -> (r: Result<
        Extension<'a>,
        ParseError,
    >)
        ensures
            body_parsed(r, spec_parse_body(BodyKind::SupportedGroups, t, old(body).unread())),
    {
        reveal(spec_parse_body);
        match SupportedGroups::<Remote>::parse(body) {
            Ok(x) => Ok(Extension::SupportedGroups(x)),
            Err(e) => Err(e),
        }
    }

    /// Reads a body of the kind `KeySharesOffered`.
    fn parse_key_shares_offered(t: ExtensionType, body: &mut ParseBuffer<'a>) -> (r: Result<
        Extension<'a>,
        ParseError,
    >)
        ensures
            body_parsed(r, spec_parse_body(BodyKind::KeySharesOffered, t, old(body).unread())),
    {
        reveal(spec_parse_body);
        match KeyShareClientHello::parse(body) {
            Ok(x) => Ok(Extension::KeyShares(x)),
            Err(e) => Err(e),
        }
    }

    /// Reads a body of the kind `KeyShareSelected`.
    fn parse_key_share_selected(t: ExtensionType, body: &mut ParseBuffer<'a>) -> (r: Result<
        Extension<'a>,
        ParseError,
    >)
        ensures
            body_parsed(r, spec_parse_body(BodyKind::KeyShareSelected, t, old(body).unread())),
    {
        reveal(spec_parse_body);
        match KeyShareServerHello::parse(body) {
            Ok(x) => Ok(Extension::KeyShare(x)),
            Err(e) => Err(e),
        }
    }

    /// Reads a body of the kind `PskOffered`.
    fn parse_psk_offered(t: ExtensionType, body: &mut ParseBuffer<'a>) -> (r: Result<
        Extension<'a>,
        ParseError,
    >)
        ensures
            body_parsed(r, spec_parse_body(BodyKind::PskOffered, t, old(body).unread())),
    {
        reveal(spec_parse_body);
        match PreSharedKeyClientHello::<Remote>::parse(body) {
            Ok(x) => Ok(Extension::PreSharedKey(x)),
            Err(e) => Err(e),
        }
    }

    /// Reads a body of the kind `PskSelected`.
    fn parse_psk_selected(t: ExtensionType, body: &mut ParseBuffer<'a>) -> (r: Result<
        Extension<'a>,
        ParseError,
    >)
        ensures
            body_parsed(r, spec_parse_body(BodyKind::PskSelected, t, old(body).unread())),
    {
        reveal(spec_parse_body);
        match PreSharedKeyServerHello::parse(body) {
            Ok(x) => Ok(Extension::SelectedIdentity(x)),
            Err(e) => Err(e),
        }
    }

    /// Reads a body of the kind `PskKeyExchangeModes`.
    fn parse_psk_key_exchange_modes(t: ExtensionType, body: &mut ParseBuffer<'a>) -> (r: Result<
        Extension<'a>,
        ParseError,
    >)
        ensures
            body_parsed(r, spec_parse_body(BodyKind::PskKeyExchangeModes, t, old(body).unread())),
    {
        reveal(spec_parse_body);
        match PskKeyExchangeModes::<Remote>::parse(body) {
            Ok(x) => Ok(Extension::PskKeyExchangeModes(x)),
            Err(e) => Err(e),
        }
    }

    /// Reads a body of the kind `SignatureAlgorithmsCert`.
    fn parse_signature_algorithms_cert(t: ExtensionType, body: &mut ParseBuffer<'a>) -> (r: Result<
        Extension<'a>,
        ParseError,
    >)
        ensures
            body_parsed(r, spec_parse_body(BodyKind::SignatureAlgorithmsCert, t, old(body).unread())),
    {
        reveal(spec_parse_body);
        match SignatureAlgorithmsCert::<Remote>::parse(body) {
            Ok(x) => Ok(Extension::SignatureAlgorithmsCert(x)),
            Err(e) => Err(e),
        }
    }

    /// Reads a body of the kind `MaxFragmentLength`.
    fn parse_max_fragment_length(t: ExtensionType, body: &mut ParseBuffer<'a>) -> (r: Result<
        Extension<'a>,
        ParseError,
    >)
        ensures
            body_parsed(r, spec_parse_body(BodyKind::MaxFragmentLength, t, old(body).unread())),
    {
        reveal(spec_parse_body);
        match MaxFragmentLength::parse(body) {
            Ok(x) => Ok(Extension::MaxFragmentLength(x)),
            Err(e) => Err(e),
        }
    }

    /// Reads the body of an extension of type `t` as `kind` asks.
    fn parse_body(kind: BodyKind, t: ExtensionType, body: &mut ParseBuffer<'a>) -> (r: Result<
        Extension<'a>,
        ParseError,
    >)
        ensures
            body_parsed(r, spec_parse_body(kind, t, old(body).unread())),
    {
        reveal(spec_parse_body);
        match kind {
            BodyKind::ServerNames => Extension::parse_server_names(t, body),
            BodyKind::ServerNameAck => Extension::parse_server_name_ack(t, body),
            BodyKind::VersionsOffered => Extension::parse_versions_offered(t, body),
            BodyKind::VersionSelected => Extension::parse_version_selected(t, body),
            BodyKind::SignatureAlgorithms => Extension::parse_signature_algorithms(t, body),
            BodyKind::SupportedGroups => Extension::parse_supported_groups(t, body),
            BodyKind::KeySharesOffered => Extension::parse_key_shares_offered(t, body),
            BodyKind::KeyShareSelected => Extension::parse_key_share_selected(t, body),
            BodyKind::PskOffered => Extension::parse_psk_offered(t, body),
            BodyKind::PskSelected => Extension::parse_psk_selected(t, body),
            BodyKind::PskKeyExchangeModes => Extension::parse_psk_key_exchange_modes(t, body),
            BodyKind::SignatureAlgorithmsCert => Extension::parse_signature_algorithms_cert(t, body),
            BodyKind::MaxFragmentLength => Extension::parse_max_fragment_length(t, body),
            BodyKind::Opaque => match Unimplemented::parse(body) {
                Ok(x) => Ok(Extension::Opaque(t, x)),
                Err(e) => Err(e),
            },
        }
    }

    /// Reads one extension of the message `message`. The extension's bytes
    /// are passed over even where its type is not known, so that the
    /// extensions behind it can be read.
    pub fn parse(buf: &mut ParseBuffer<'a>, message: MessageKind) -> (r: Result<
        Extension<'a>,
        TlsError,
    >)
        ensures
            old(buf).wf(),
            final(buf).wf(),
            final(buf).bytes() == old(buf).bytes(),
            match spec_parse_extension(old(buf).unread(), message) {
                Ok((v, n)) => r matches Ok(x) && x@ == v
                    && final(buf).position() == old(buf).position() + n,
                Err(e) => r matches Err(f) && f == e && (e == TlsError::UnknownExtensionType
                    ==> final(buf).position() == old(buf).position() + extension_len(
                    old(buf).unread(),
                )),
            },
    {
        let code = match buf.read_u16() {
            Ok(v) => v,
            Err(_) => {
                return Err(TlsError::DecodeError);
            },
        };
        assert(buf.unread() =~= old(buf).unread().skip(2));
        let data_len = match buf.read_u16() {
            Ok(v) => v as usize,
            Err(_) => {
                return Err(TlsError::DecodeError);
            },
        };
        let mut ext_data = match buf.slice(data_len) {
            Ok(sub) => sub,
            Err(_) => {
                return Err(TlsError::DecodeError);
            },
        };
        assert(ext_data.unread() =~= old(buf).unread().subrange(4, 4 + data_len));
        let ext_type = match ExtensionType::of(code) {
            Some(t) => t,
            None => {
                return Err(TlsError::UnknownExtensionType);
            },
        };
        match body_kind(ext_type, message) {
            Some(kind) => match Extension::parse_body(kind, ext_type, &mut ext_data) {
                Ok(x) => Ok(x),
                Err(_) => Err(TlsError::DecodeError),
            },
            // an extension that is known and that this message must not
            // carry ends the handshake with an "illegal_parameter" alert
            None => Err(
                TlsError::AbortHandshake(AlertLevel::Fatal, AlertDescription::IllegalParameter),
            ),
        }
    }
}

/// `heapless::Vec`, a vector that keeps up to `N` items in place, without
/// the heap. Nothing is said of what is inside.
#[verifier::external_type_specification]
#[verifier::external_body]
#[verifier::reject_recursive_types(T)]
pub struct ExHeaplessVec<T, const N: usize>(heapless::Vec<T, N>);

/// The number of extensions that a vector of extensions has room for.
pub const EXTENSION_CAPACITY: usize = 8;

/// The extensions that a vector holds, in the order in which they were pushed.
pub uninterp spec fn held(v: heapless::Vec<Extension<'_>, 8>) -> Seq<Extension<'_>>;

/// `heapless::Vec::new` makes a vector that holds nothing.
#[verifier::external_body]
pub(crate) fn vec_new<'a>() -> (r: heapless::Vec<Extension<'a>, 8>)
    ensures
        held(r).len() == 0,
{
    heapless::Vec::new()
}

/// `heapless::Vec::push` appends the item when the vector holds fewer items
/// than its capacity, which is 8 here; otherwise it changes nothing and
/// hands the item back.
#[verifier::external_body]
pub(crate) fn vec_push<'a>(v: &mut heapless::Vec<Extension<'a>, 8>, item: Extension<'a>) -> (r:
    Result<(), Extension<'a>>)
    ensures
        r is Ok <==> held(*old(v)).len() < 8,
        r is Ok ==> held(*final(v)) == held(*old(v)).push(item),
        r matches Err(back) ==> back == item && held(*final(v)) == held(*old(v)),
{
    v.push(item)
}

/// `heapless::Vec::as_slice` gives the items that the vector holds, as a slice.
#[verifier::external_body]
pub(crate) fn vec_as_slice<'v, 'a>(v: &'v heapless::Vec<Extension<'a>, 8>) -> (r: &'v [Extension<
    'a,
>])
    ensures
        r@ == held(*v),
{
    v.as_slice()
}

/// The extensions that a vector holds, as a slice.
pub fn extensions<'v, 'a>(v: &'v heapless::Vec<Extension<'a>, 8>) -> (r: &'v [Extension<'a>])
    ensures
        r@ == held(*v),
{
    vec_as_slice(v)
}

/// `rest` with `done` in front of it, where `rest` is a result and not an error.
pub open spec fn prepend(done: Seq<ExtensionView>, rest: Result<Seq<ExtensionView>, TlsError>) -> Result<
    Seq<ExtensionView>,
    TlsError,
> {
    match rest {
        Ok(x) => Ok(done + x),
        Err(e) => Err(e),
    }
}

/// The extensions of the message `m` that the bytes `s` hold from first to
/// last, where there is room for `room` of them. Extensions of unknown type
/// are left out; one extension more than there is room for is a decode
/// error; every other error of an extension is the error of the block.
pub open spec fn spec_parse_extensions(s: Seq<u8>, m: MessageKind, room: nat) -> Result<
    Seq<ExtensionView>,
    TlsError,
>
    decreases s.len(),
{
    if s.len() == 0 {
        Ok(Seq::empty())
    } else {
        match spec_parse_extension(s, m) {
            Ok((v, n)) => if room == 0 {
                Err(TlsError::DecodeError)
            } else {
                prepend(seq![v], spec_parse_extensions(s.skip(n as int), m, (room - 1) as nat))
            },
            Err(TlsError::UnknownExtensionType) => spec_parse_extensions(
                s.skip(extension_len(s) as int),
                m,
                room,
            ),
            Err(e) => Err(e),
        }
    }
}

/// What stands at the front of `s` when the extension block of the message
/// `m` is expected: a two-byte length and that many bytes of extensions.
/// Gives the extensions and the number of bytes that length and extensions
/// take.
pub open spec fn spec_parse_vector(s: Seq<u8>, m: MessageKind, room: nat) -> Result<
    (Seq<ExtensionView>, nat),
    TlsError,
> {
    if s.len() < 2 {
        Err(TlsError::InvalidExtensionsLength)
    } else if s.len() < 2 + u16_from_be(s) {
        Err(TlsError::DecodeError)
    } else {
        match spec_parse_extensions(s.subrange(2, 2 + u16_from_be(s)), m, room) {
            Ok(v) => Ok((v, (2 + u16_from_be(s)) as nat)),
            Err(e) => Err(e),
        }
    }
}

/// The number of extensions that a block may hold when the caller allows
/// `limit`: no more than the vector has room for.
pub open spec fn spec_room(limit: usize) -> nat {
    if limit < EXTENSION_CAPACITY {
        limit as nat
    } else {
        EXTENSION_CAPACITY as nat
    }
}

/// Reads the extension block of the message `message`: a two-byte length,
/// then extensions up to that length. Extensions of unknown type are passed
/// over. At most `limit` extensions are accepted, and never more than
/// [`EXTENSION_CAPACITY`].
pub fn parse_vector<'a>(buf: &mut ParseBuffer<'a>, message: MessageKind, limit: usize) -> (r: Result<
    heapless::Vec<Extension<'a>, 8>,
    TlsError,
>)
    ensures
        old(buf).wf(),
        final(buf).wf(),
        final(buf).bytes() == old(buf).bytes(),
        match spec_parse_vector(old(buf).unread(), message, spec_room(limit)) {
            Ok((exts, n)) => r matches Ok(v) && views(held(v)) == exts && final(buf).position()
                == old(buf).position() + n,
            Err(e) => r matches Err(f) && f == e,
        },
{
    let extensions_len = match buf.read_u16() {
        Ok(v) => v as usize,
        Err(_) => {
            return Err(TlsError::InvalidExtensionsLength);
        },
    };
    let ext_buf = match buf.slice(extensions_len) {
        Ok(sub) => sub,
        Err(_) => {
            return Err(TlsError::DecodeError);
        },
    };
    assert(ext_buf.bytes() =~= old(buf).unread().subrange(2, 2 + extensions_len));
    parse_extensions(ext_buf.as_slice(), message, limit)
}

/// Reads the extensions of the message `message` that `data` holds from its
/// first byte to its last. Extensions of unknown type are passed over. At
/// most `limit` extensions are accepted, and never more than
/// [`EXTENSION_CAPACITY`].
#[verifier::rlimit(30)]
pub fn parse_extensions<'a>(data: &'a [u8], message: MessageKind, limit: usize) -> (r: Result<
    heapless::Vec<Extension<'a>, 8>,
    TlsError,
>)
    ensures
        match spec_parse_extensions(data@, message, spec_room(limit)) {
            Ok(exts) => r matches Ok(v) && views(held(v)) == exts,
            Err(e) => r matches Err(f) && f == e,
        },
{
    let mut ext_buf = ParseBuffer::new(data);
    let room = if limit < EXTENSION_CAPACITY {
        limit
    } else {
        EXTENSION_CAPACITY
    };
    let mut extensions = vec_new();
    let ghost body = data@;
    assert(ext_buf.unread() =~= body);
    assert(views(held(extensions)) =~= Seq::<ExtensionView>::empty());
    assert(spec_parse_extensions(body, message, room as nat) == prepend(
        views(held(extensions)),
        spec_parse_extensions(body, message, room as nat),
    )) by {
        let r0 = spec_parse_extensions(body, message, room as nat);
        if r0 is Ok {
            assert(Seq::<ExtensionView>::empty() + r0->Ok_0 =~= r0->Ok_0);
        }
    }
    while !ext_buf.is_empty()
        invariant
            body == data@,
            room == spec_room(limit),
            ext_buf.wf(),
            held(extensions).len() <= room,
            spec_parse_extensions(body, message, room as nat) == prepend(
                views(held(extensions)),
                spec_parse_extensions(
                    ext_buf.unread(),
                    message,
                    (room - held(extensions).len()) as nat,
                ),
            ),
        decreases ext_buf.unread().len(),
    {
        let ghost unread = ext_buf.unread();
        let ghost before = held(extensions);
        let ghost start = ext_buf.position();
        match Extension::parse(&mut ext_buf, message) {
            Ok(extension) => {
                let ghost v = extension@;
                if vec_as_slice(&extensions).len() >= room {
                    return Err(TlsError::DecodeError);
                }
                match vec_push(&mut extensions, extension) {
                    Ok(_) => {},
                    Err(_) => {
                        return Err(TlsError::DecodeError);
                    },
                }
                proof {
                    let n = ext_buf.position() - start;
                    assert(ext_buf.unread() =~= unread.skip(n as int));
                    assert(views(held(extensions)) =~= views(before) + seq![v]);
                    let tail = spec_parse_extensions(
                        ext_buf.unread(),
                        message,
                        (room - held(extensions).len()) as nat,
                    );
                    if tail is Ok {
                        assert(views(before) + (seq![v] + tail->Ok_0) =~= (views(before) + seq![v])
                            + tail->Ok_0);
                    }
                }
            },
            Err(TlsError::UnknownExtensionType) => {
                // an extension of a type that is not known is passed over
                assert(ext_buf.unread() =~= unread.skip(extension_len(unread) as int));
            },
            Err(e) => {
                return Err(e);
            },
        }
    }
    proof {
        let done = views(held(extensions));
        assert(done + Seq::<ExtensionView>::empty() =~= done);
    }
    Ok(extensions)
}

/// The bytes of an extension of type `t` with the body `body`: the type,
/// the length of the body, the body.
pub open spec fn wire_extension(t: ExtensionType, body: Seq<u8>) -> Seq<u8> {
    u16_to_be(t.code()) + u16_to_be(body.len() as u16) + body
}

/// Writes an extension of type `t`: the type, then `body` behind a two-byte
/// length.
pub fn encode_extension<E: Encode>(buf: &mut CryptoBuffer, t: ExtensionType, body: E) -> (r: Result<
    (),
    TlsError,
>)
    ensures
        encoded(
            *old(buf),
            *final(buf),
            r,
            body.encodable() && body.wire().len() <= 0xffff,
            wire_extension(t, body.wire()),
        ),
{
    let mark = buf.len();
    match ExtensionType::encode(t, buf) {
        Ok(_) => {},
        Err(e) => {
            return Err(e);
        },
    }
    match buf.push_u16_prefixed(body) {
        Ok(_) => {
            assert(buf@ =~= old(buf)@ + wire_extension(t, body.wire()));
            Ok(())
        },
        Err(e) => {
            buf.truncate(mark);
            assert(buf@ =~= old(buf)@);
            Err(e)
        },
    }
}

/// An extension to send: its type and its body.
pub struct LocalExtension<E>(pub ExtensionType, pub E);

impl<E: Encode> Encode for LocalExtension<E> {
    open spec fn wire(&self) -> Seq<u8> {
        wire_extension(self.0, self.1.wire())
    }

    open spec fn encodable(&self) -> bool {
        self.1.encodable() && self.1.wire().len() <= 0xffff
    }

    fn encode(self, buf: &mut CryptoBuffer) -> (r: Result<(), TlsError>) {
        let LocalExtension(t, body) = self;
        encode_extension(buf, t, body)
    }
}

/// Parsing what was written for an extension gives the extension back,
/// whatever follows it: where the message `m` may carry the type and the body
/// reads as `v`, the written extension parses as `v`.
pub proof fn lemma_parse_of_wire_extension(
    t: ExtensionType,
    body: Seq<u8>,
    rest: Seq<u8>,
    m: MessageKind,
)
    requires
        body.len() <= 0xffff,
        spec_body_kind(t, m) is Some,
        spec_parse_body(spec_body_kind(t, m)->Some_0, t, body) is Ok,
    ensures
        spec_parse_extension(wire_extension(t, body) + rest, m) == Ok::<_, TlsError>(
            (spec_parse_body(spec_body_kind(t, m)->Some_0, t, body)->Ok_0, 4 + body.len()),
        ),
{
    let s = wire_extension(t, body) + rest;
    let tail = u16_to_be(body.len() as u16) + body + rest;
    assert(s =~= u16_to_be(t.code()) + tail);
    lemma_u16_read_of_written(t.code(), tail);
    assert(s.skip(2) =~= u16_to_be(body.len() as u16) + (body + rest));
    lemma_u16_read_of_written(body.len() as u16, body + rest);
    ExtensionType::lemma_code_of(t, 0);
    assert(s.subrange(4, 4 + body.len() as int) =~= body);
}

/// Writing an extension that was parsed from `s`, with the type and the
/// body that it came with, gives the bytes it was parsed from.
pub proof fn lemma_wire_of_parsed_extension(s: Seq<u8>, m: MessageKind)
    requires
        spec_parse_extension(s, m) is Ok,
    ensures
        spec_parse_extension(s, m)->Ok_0.1 == extension_len(s),
        extension_len(s) <= s.len(),
        ExtensionType::spec_of(u16_from_be(s)) is Some,
        wire_extension(
            ExtensionType::spec_of(u16_from_be(s))->Some_0,
            s.subrange(4, extension_len(s) as int),
        ) == s.take(extension_len(s) as int),
{
    let t = ExtensionType::spec_of(u16_from_be(s))->Some_0;
    let n = extension_len(s) as int;
    let body = s.subrange(4, n);
    ExtensionType::lemma_code_of(t, u16_from_be(s));
    crate::big_endian::lemma_u16_written_of_read(s);
    crate::big_endian::lemma_u16_written_of_read(s.skip(2));
    assert(s.skip(2).take(2) =~= s.subrange(2, 4));
    assert(wire_extension(t, body) =~= s.take(2) + s.subrange(2, 4) + body);
    assert(s.take(2) + s.subrange(2, 4) + body =~= s.take(n));
}

/// A block that starts with what was written for an extension holds that
/// extension, followed by the extensions of what comes behind it.
pub proof fn lemma_written_extension_is_first(
    t: ExtensionType,
    body: Seq<u8>,
    rest: Seq<u8>,
    m: MessageKind,
    room: nat,
)
    requires
        body.len() <= 0xffff,
        spec_body_kind(t, m) is Some,
        spec_parse_body(spec_body_kind(t, m)->Some_0, t, body) is Ok,
        room > 0,
    ensures
        spec_parse_extensions(wire_extension(t, body) + rest, m, room) == prepend(
            seq![spec_parse_body(spec_body_kind(t, m)->Some_0, t, body)->Ok_0],
            spec_parse_extensions(rest, m, (room - 1) as nat),
        ),
{
    let w = wire_extension(t, body);
    lemma_parse_of_wire_extension(t, body, rest, m);
    assert(w.len() == 4 + body.len());
    assert((w + rest).skip(w.len() as int) =~= rest);
}

/// An extension of unknown type is skipped: a block that starts with a
/// well-formed extension whose type is not known holds the extensions of
/// what follows it.
pub proof fn lemma_unknown_extension_skipped(
    unknown: Seq<u8>,
    rest: Seq<u8>,
    m: MessageKind,
    room: nat,
)
    requires
        unknown.len() >= 4,
        unknown.len() == extension_len(unknown),
        ExtensionType::spec_of(u16_from_be(unknown)) is None,
    ensures
        spec_parse_extensions(unknown + rest, m, room) == spec_parse_extensions(rest, m, room),
{
    let s = unknown + rest;
    assert(u16_from_be(s) == u16_from_be(unknown));
    assert(s.skip(2)[0] == unknown.skip(2)[0]);
    assert(s.skip(2)[1] == unknown.skip(2)[1]);
    assert(extension_len(s) == extension_len(unknown));
    assert(s.skip(unknown.len() as int) =~= rest);
}

/// Whether `s` is a run of whole extensions from its first byte to its
/// last, whatever their types and bodies.
pub open spec fn whole_extensions(s: Seq<u8>) -> bool
    decreases s.len(),
{
    s.len() == 0 || (s.len() >= 4 && extension_len(s) <= s.len() && whole_extensions(
        s.skip(extension_len(s) as int),
    ))
}

/// What stands at the front of a block does not depend on what follows the
/// first extension.
proof fn lemma_extension_is_local(s: Seq<u8>, t: Seq<u8>, m: MessageKind)
    requires
        s.len() >= 4,
        extension_len(s) <= s.len(),
        extension_len(s) <= t.len(),
        s.take(extension_len(s) as int) == t.take(extension_len(s) as int),
    ensures
        extension_len(t) == extension_len(s),
        spec_parse_extension(t, m) == spec_parse_extension(s, m),
{
    let n = extension_len(s) as int;
    assert forall|i: int| 0 <= i < n implies s[i] == t[i] by {
        assert(s.take(n)[i] == t.take(n)[i]);
    }
    assert(s.skip(2)[0] == t.skip(2)[0] && s.skip(2)[1] == t.skip(2)[1]);
    assert(s.subrange(4, n) =~= t.subrange(4, n));
}

/// An extension of unknown type is skipped wherever it stands: a block in
/// which a well-formed extension whose type is not known stands between
/// whole extensions and anything else holds the extensions of the block
/// without it.
pub proof fn lemma_unknown_extension_skipped_anywhere(
    before: Seq<u8>,
    unknown: Seq<u8>,
    after: Seq<u8>,
    m: MessageKind,
    room: nat,
)
    requires
        whole_extensions(before),
        unknown.len() >= 4,
        unknown.len() == extension_len(unknown),
        ExtensionType::spec_of(u16_from_be(unknown)) is None,
    ensures
        spec_parse_extensions(before + unknown + after, m, room) == spec_parse_extensions(
            before + after,
            m,
            room,
        ),
    decreases before.len(),
{
    if before.len() == 0 {
        assert(before + unknown + after =~= unknown + after);
        assert(before + after =~= after);
        lemma_unknown_extension_skipped(unknown, after, m, room);
    } else {
        let n = extension_len(before) as int;
        let with = before + unknown + after;
        let without = before + after;
        assert(with.take(n) =~= before.take(n));
        assert(without.take(n) =~= before.take(n));
        lemma_extension_is_local(before, with, m);
        lemma_extension_is_local(before, without, m);
        assert(with.skip(n) =~= before.skip(n) + unknown + after);
        assert(without.skip(n) =~= before.skip(n) + after);
        lemma_unknown_extension_skipped_anywhere(before.skip(n), unknown, after, m, room);
        if room > 0 {
            lemma_unknown_extension_skipped_anywhere(
                before.skip(n),
                unknown,
                after,
                m,
                (room - 1) as nat,
            );
        }
    }
}

/// An extension in a message that must not carry it is fatal: a block that
/// starts with a well-formed extension of a known type that the message `m`
/// must not carry fails with a fatal `illegal_parameter`.
pub proof fn lemma_illegal_extension_is_fatal(s: Seq<u8>, t: ExtensionType, m: MessageKind, room: nat)
    requires
        s.len() >= 4,
        s.len() >= extension_len(s),
        ExtensionType::spec_of(u16_from_be(s)) == Some(t),
        spec_body_kind(t, m) is None,
    ensures
        spec_parse_extension(s, m) == Err::<(ExtensionView, nat), TlsError>(illegal_parameter()),
        spec_parse_extensions(s, m, room) == Err::<Seq<ExtensionView>, TlsError>(
            illegal_parameter(),
        ),
        spec_body_kind(ExtensionType::KeyShare, MessageKind::EncryptedExtensions) is None,
{
}

} // verus!

//! Handshake messages: their types, the messages that go out and the
//! messages that come in, and how each is fed to the transcript.

use vstd::prelude::*;
use vstd::slice::slice_subrange;
use crate::TlsError;
use crate::big_endian::u24_from_be;
use crate::buffer::CryptoBuffer;
use crate::extensions::extension_data::signature_algorithms::SignatureScheme;
use crate::extensions::messages::ExtensionView;
use crate::handshake::certificate::{spec_parse_certificate, CertificateRef};
use crate::handshake::certificate_request::{spec_parse_certificate_request, CertificateRequestRef};
use crate::handshake::certificate_verify::{spec_parse_certificate_verify, CertificateVerify};
use crate::handshake::client_hello::{spec_finalize, ClientHello};
use crate::handshake::encrypted_extensions::{spec_parse_encrypted_extensions, EncryptedExtensions};
use crate::handshake::finished::{spec_parse_finished, Finished};
use crate::handshake::new_session_ticket::{
    spec_parse_new_session_ticket, NewSessionTicket, NewSessionTicketView,
};
use crate::handshake::remote_hello::{spec_parse_server_hello, RemoteServerHello, ServerHelloView};
use crate::key_schedule::WriteKeySchedule;
use crate::parse_buffer::{ParseBuffer, ParseError};
use crate::parse_encode::{encoded, parsed, wire_opaque_u24, Encode, Parse, WireFormat};
use crate::transcript::{sha256, Transcript};

pub mod certificate;
pub mod certificate_request;
pub mod certificate_verify;
pub mod client_hello;
pub mod encrypted_extensions;
pub mod finished;
pub mod new_session_ticket;
pub mod remote_hello;

verus! {

/// The protocol version that every hello names for the sake of middleboxes.
pub const LEGACY_VERSION: u16 = 0x0303;

/// The type of a handshake message.
#[derive(Debug, Clone, Copy, PartialEq, Eq, Structural)]
pub enum HandshakeType {
    ClientHello,
    ServerHello,
    NewSessionTicket,
    EndOfEarlyData,
    EncryptedExtensions,
    Certificate,
    CertificateRequest,
    CertificateVerify,
    Finished,
    KeyUpdate,
    MessageHash,
}

impl HandshakeType {
    /// The number that stands for the message type on the wire.
    pub open spec fn code(self) -> u8 {
        match self {
            HandshakeType::ClientHello => 1,
            HandshakeType::ServerHello => 2,
            HandshakeType::NewSessionTicket => 4,
            HandshakeType::EndOfEarlyData => 5,
            HandshakeType::EncryptedExtensions => 8,
            HandshakeType::Certificate => 11,
            HandshakeType::CertificateRequest => 13,
            HandshakeType::CertificateVerify => 15,
            HandshakeType::Finished => 20,
            HandshakeType::KeyUpdate => 24,
            HandshakeType::MessageHash => 254,
        }
    }

    /// The message type that `code` stands for, if it stands for one.
    pub open spec fn spec_of(code: u8) -> Option<HandshakeType> {
        if code == 1 {
            Some(HandshakeType::ClientHello)
        } else if code == 2 {
            Some(HandshakeType::ServerHello)
        } else if code == 4 {
            Some(HandshakeType::NewSessionTicket)
        } else if code == 5 {
            Some(HandshakeType::EndOfEarlyData)
        } else if code == 8 {
            Some(HandshakeType::EncryptedExtensions)
        } else if code == 11 {
            Some(HandshakeType::Certificate)
        } else if code == 13 {
            Some(HandshakeType::CertificateRequest)
        } else if code == 15 {
            Some(HandshakeType::CertificateVerify)
        } else if code == 20 {
            Some(HandshakeType::Finished)
        } else if code == 24 {
            Some(HandshakeType::KeyUpdate)
        } else if code == 254 {
            Some(HandshakeType::MessageHash)
        } else {
            None
        }
    }

    /// The message type that `code` stands for, if it stands for one.
    pub fn of(code: u8) -> (r: Option<HandshakeType>)
        ensures
            r == Self::spec_of(code),
    {
        match code {
            1 => Some(HandshakeType::ClientHello),
            2 => Some(HandshakeType::ServerHello),
            4 => Some(HandshakeType::NewSessionTicket),
            5 => Some(HandshakeType::EndOfEarlyData),
            8 => Some(HandshakeType::EncryptedExtensions),
            11 => Some(HandshakeType::Certificate),
            13 => Some(HandshakeType::CertificateRequest),
            15 => Some(HandshakeType::CertificateVerify),
            20 => Some(HandshakeType::Finished),
            24 => Some(HandshakeType::KeyUpdate),
            254 => Some(HandshakeType::MessageHash),
            _ => None,
        }
    }

    /// The number that stands for the message type on the wire.
    pub fn as_u8(self) -> (r: u8)
        ensures
            r == self.code(),
    {
        match self {
            HandshakeType::ClientHello => 1,
            HandshakeType::ServerHello => 2,
            HandshakeType::NewSessionTicket => 4,
            HandshakeType::EndOfEarlyData => 5,
            HandshakeType::EncryptedExtensions => 8,
            HandshakeType::Certificate => 11,
            HandshakeType::CertificateRequest => 13,
            HandshakeType::CertificateVerify => 15,
            HandshakeType::Finished => 20,
            HandshakeType::KeyUpdate => 24,
            HandshakeType::MessageHash => 254,
        }
    }

    /// The number of a value stands for that value and for no other.
    pub proof fn lemma_code_of(v: HandshakeType, code: u8)
        ensures
            Self::spec_of(v.code()) == Some(v),
            Self::spec_of(code) matches Some(w) ==> w.code() == code,
    {
    }
    /// Reads the type of a handshake message from one byte; a number that
    /// stands for no type is invalid data.
    pub fn parse(buf: &mut ParseBuffer) -> (r: Result<Self, ParseError>)
        ensures
            parsed(*old(buf), *final(buf), r, <Self as Parse>::spec_parse(old(buf).unread())),
    {
        match buf.read_u8() {
            Ok(code) => match Self::of(code) {
                Some(v) => Ok(v),
                None => Err(ParseError::InvalidData),
            },
            Err(e) => Err(e),
        }
    }
}

impl View for HandshakeType {
    type V = HandshakeType;

    open spec fn view(&self) -> HandshakeType {
        *self
    }
}

impl<'a> Parse<'a> for HandshakeType {
    open spec fn spec_parse(s: Seq<u8>) -> Result<(HandshakeType, nat), ParseError> {
        if s.len() < 1 {
            Err(ParseError::InsufficientSpace)
        } else {
            match Self::spec_of(s[0]) {
                Some(v) => Ok((v, 1nat)),
                None => Err(ParseError::InvalidData),
            }
        }
    }

    fn parse(buf: &mut ParseBuffer<'a>) -> (r: Result<Self, ParseError>) {
        HandshakeType::parse(buf)
    }
}

impl Encode for HandshakeType {
    open spec fn wire(&self) -> Seq<u8> {
        seq![self.code()]
    }

    open spec fn encodable(&self) -> bool {
        true
    }

    fn encode(self, buf: &mut CryptoBuffer) -> (r: Result<(), TlsError>) {
        buf.push(self.as_u8())
    }
}

impl<'a> WireFormat<'a> for HandshakeType {
    open spec fn well_formed(&self) -> bool {
        true
    }

    proof fn lemma_parse_of_wire(x: Self, rest: Seq<u8>) {
        assert((x.wire() + rest)[0] == x.code());
    }

    proof fn lemma_wire_of_parsed(s: Seq<u8>, x: Self) {
        assert(x.wire() =~= s.take(1));
    }
}

/// A handshake message to send.
pub enum LocalHandshake<'config, 'a> {
    ClientCert(CertificateRef<'a>),
    ClientCertVerify(CertificateVerify<'a>),
    ClientHello(ClientHello<'config>),
    Finished(Finished),
}

impl<'config, 'a> LocalHandshake<'config, 'a> {
    /// The type of the message.
    pub open spec fn spec_handshake_type(self) -> HandshakeType {
        match self {
            LocalHandshake::ClientHello(_) => HandshakeType::ClientHello,
            LocalHandshake::Finished(_) => HandshakeType::Finished,
            LocalHandshake::ClientCert(_) => HandshakeType::Certificate,
            LocalHandshake::ClientCertVerify(_) => HandshakeType::CertificateVerify,
        }
    }

    /// The bytes of the body of the message.
    pub open spec fn body_wire(self) -> Seq<u8> {
        match self {
            LocalHandshake::ClientHello(inner) => inner.wire(),
            LocalHandshake::Finished(inner) => inner.wire(),
            LocalHandshake::ClientCert(inner) => inner.wire(),
            LocalHandshake::ClientCertVerify(inner) => inner.wire(),
        }
    }

    /// Whether the body of the message can be written.
    pub open spec fn body_encodable(self) -> bool {
        match self {
            LocalHandshake::ClientHello(inner) => inner.encodable(),
            LocalHandshake::Finished(inner) => inner.encodable(),
            LocalHandshake::ClientCert(inner) => inner.encodable(),
            LocalHandshake::ClientCertVerify(inner) => inner.encodable(),
        }
    }

    /// The bytes of the message: one byte of type, then the body behind a
    /// three-byte length.
    pub open spec fn message_wire(self) -> Seq<u8> {
        seq![self.spec_handshake_type().code()] + wire_opaque_u24(self.body_wire())
    }

    /// Whether the message can be written: its body can, and fits the
    /// three-byte length.
    pub open spec fn message_encodable(self) -> bool {
        self.body_encodable() && self.body_wire().len() <= 0xff_ffff
    }

    /// The number of identities of a pre-shared key that the message
    /// offers: those of a ClientHello, none for any other message.
    pub open spec fn offered_identities(self) -> nat {
        match self {
            LocalHandshake::ClientHello(inner) => inner.config.psk_identities@.len(),
            _ => 0,
        }
    }

    /// The type of the message.
    pub fn handshake_type(&self) -> (r: HandshakeType)
        ensures
            r == self.spec_handshake_type(),
    {
        match self {
            LocalHandshake::ClientHello(_) => HandshakeType::ClientHello,
            LocalHandshake::Finished(_) => HandshakeType::Finished,
            LocalHandshake::ClientCert(_) => HandshakeType::Certificate,
            LocalHandshake::ClientCertVerify(_) => HandshakeType::CertificateVerify,
        }
    }

    /// Writes the body of the message.
    pub fn encode_inner(&self, buf: &mut CryptoBuffer) -> (r: Result<(), TlsError>)
        ensures
            encoded(*old(buf), *final(buf), r, self.body_encodable(), self.body_wire()),
    {
        match self {
            LocalHandshake::ClientHello(inner) => inner.encode(buf),
            LocalHandshake::Finished(inner) => inner.encode(buf),
            LocalHandshake::ClientCert(inner) => inner.encode(buf),
            LocalHandshake::ClientCertVerify(inner) => inner.encode(buf),
        }
    }

    /// Writes the message: its type, then its body behind a three-byte
    /// length.
    pub fn encode(&self, buf: &mut CryptoBuffer) -> (r: Result<(), TlsError>)
        ensures
            encoded(*old(buf), *final(buf), r, self.message_encodable(), self.message_wire()),
    {
        let mark = buf.len();
        match buf.push(self.handshake_type().as_u8()) {
            Ok(_) => {},
            Err(e) => {
                return Err(e);
            },
        }
        match buf.push_u24_prefixed(HandshakeBody(self)) {
            Ok(_) => {
                assert(buf@ =~= old(buf)@ + self.message_wire());
                Ok(())
            },
            Err(e) => {
                buf.truncate(mark);
                assert(buf@ =~= old(buf)@);
                Err(e)
            },
        }
    }

    /// Completes the encoded message in `buf`, which holds the whole
    /// message and nothing else, and feeds it to the transcript. A
    /// ClientHello has its binders filled in on the way; every other message
    /// is fed as it stands. On failure nothing changes.
    pub fn finalize(
        &self,
        buf: &mut CryptoBuffer,
        transcript: &mut Transcript,
        write_key_schedule: &mut WriteKeySchedule,
    ) -> (r: Result<(), TlsError>)
        ensures
            final(buf).capacity() == old(buf).capacity(),
            final(write_key_schedule).binder_key() == old(write_key_schedule).binder_key(),
            final(write_key_schedule).sequence_number()
                == old(write_key_schedule).sequence_number(),
            final(write_key_schedule).traffic_secret() == old(write_key_schedule).traffic_secret(),
            match spec_finalize(
                old(buf)@,
                self.offered_identities(),
                old(transcript)@,
                old(write_key_schedule).binder_key(),
            ) {
                Ok(message) => r is Ok && final(buf)@ == message
                    && final(transcript)@ == old(transcript)@ + message,
                Err(e) => r matches Err(f) && f == e && final(buf)@ == old(buf)@
                    && final(transcript)@ == old(transcript)@,
            },
    {
        if let LocalHandshake::ClientHello(hello) = self {
            hello.finalize(buf, transcript, write_key_schedule)
        } else {
            transcript.update(buf.as_slice());
            Ok(())
        }
    }

    /// Feeds the message in `buf`, which holds the whole message and
    /// nothing else, to the transcript.
    pub fn finalize_encrypted(buf: &mut CryptoBuffer, transcript: &mut Transcript)
        ensures
            final(buf).capacity() == old(buf).capacity(),
            final(buf)@ == old(buf)@,
            final(transcript)@ == old(transcript)@ + old(buf)@,
    {
        let enc_buf = buf.as_slice();
        transcript.update(enc_buf);
    }
}

/// The body of a handshake message to send, as the body of its
/// length-prefixed region.
pub struct HandshakeBody<'x, 'config, 'a>(pub &'x LocalHandshake<'config, 'a>);

impl<'x, 'config, 'a> Encode for HandshakeBody<'x, 'config, 'a> {
    open spec fn wire(&self) -> Seq<u8> {
        self.0.body_wire()
    }

    open spec fn encodable(&self) -> bool {
        self.0.body_encodable()
    }

    fn encode(self, buf: &mut CryptoBuffer) -> (r: Result<(), TlsError>) {
        self.0.encode_inner(buf)
    }
}

/// A handshake message that was received.
pub enum RemoteHandshake<'a> {
    ServerHello(RemoteServerHello<'a>),
    EncryptedExtensions(EncryptedExtensions<'a>),
    NewSessionTicket(NewSessionTicket<'a>),
    Certificate(CertificateRef<'a>),
    CertificateRequest(CertificateRequestRef<'a>),
    CertificateVerify(CertificateVerify<'a>),
    Finished(Finished),
}

/// What a received handshake message holds, as values. A Finished message
/// holds its MAC and, once it has been read against a transcript, the hash
/// of that transcript.
pub enum RemoteHandshakeView {
    ServerHello(ServerHelloView),
    EncryptedExtensions(Seq<ExtensionView>),
    NewSessionTicket(NewSessionTicketView),
    Certificate((Seq<u8>, Seq<u8>)),
    CertificateRequest((Seq<u8>, Seq<ExtensionView>)),
    CertificateVerify((SignatureScheme, Seq<u8>)),
    Finished(Seq<u8>, Option<Seq<u8>>),
}

impl RemoteHandshakeView {
    /// The type of the message.
    pub open spec fn handshake_type(self) -> HandshakeType {
        match self {
            RemoteHandshakeView::ServerHello(_) => HandshakeType::ServerHello,
            RemoteHandshakeView::EncryptedExtensions(_) => HandshakeType::EncryptedExtensions,
            RemoteHandshakeView::NewSessionTicket(_) => HandshakeType::NewSessionTicket,
            RemoteHandshakeView::Certificate(_) => HandshakeType::Certificate,
            RemoteHandshakeView::CertificateRequest(_) => HandshakeType::CertificateRequest,
            RemoteHandshakeView::CertificateVerify(_) => HandshakeType::CertificateVerify,
            RemoteHandshakeView::Finished(_, _) => HandshakeType::Finished,
        }
    }

    /// The message with the transcript hash `hash` noted where it is a
    /// Finished message, and as it is otherwise.
    pub open spec fn with_hash(self, hash: Seq<u8>) -> RemoteHandshakeView {
        match self {
            RemoteHandshakeView::Finished(verify, _) => RemoteHandshakeView::Finished(
                verify,
                Some(hash),
            ),
            _ => self,
        }
    }
}

impl<'a> View for RemoteHandshake<'a> {
    type V = RemoteHandshakeView;

    open spec fn view(&self) -> RemoteHandshakeView {
        match self {
            RemoteHandshake::ServerHello(x) => RemoteHandshakeView::ServerHello(x@),
            RemoteHandshake::EncryptedExtensions(x) => RemoteHandshakeView::EncryptedExtensions(x@),
            RemoteHandshake::NewSessionTicket(x) => RemoteHandshakeView::NewSessionTicket(x@),
            RemoteHandshake::Certificate(x) => RemoteHandshakeView::Certificate(x@),
            RemoteHandshake::CertificateRequest(x) => RemoteHandshakeView::CertificateRequest(x@),
            RemoteHandshake::CertificateVerify(x) => RemoteHandshakeView::CertificateVerify(x@),
            RemoteHandshake::Finished(x) => RemoteHandshakeView::Finished(
                x.verify@,
                match x.hash {
                    Some(h) => Some(h@),
                    None => None,
                },
            ),
        }
    }
}

/// What stands at the front of `body` when the body of a handshake message
/// of the type `t` is expected whose header announces `len` bytes: the
/// message and the number of bytes that the body takes, or why it cannot be
/// read. The length that the header announces is held against the body
/// only for a Finished message.
#[verifier::opaque]
pub open spec fn spec_parse_handshake_body(t: HandshakeType, body: Seq<u8>, len: u32) -> Result<
    (RemoteHandshakeView, nat),
    TlsError,
> {
    match t {
        HandshakeType::ServerHello => match spec_parse_server_hello(body) {
            Ok((v, n)) => Ok((RemoteHandshakeView::ServerHello(v), n)),
            Err(e) => Err(e),
        },
        HandshakeType::NewSessionTicket => match spec_parse_new_session_ticket(body) {
            Ok((v, n)) => Ok((RemoteHandshakeView::NewSessionTicket(v), n)),
            Err(e) => Err(e),
        },
        HandshakeType::EncryptedExtensions => match spec_parse_encrypted_extensions(body) {
            Ok((v, n)) => Ok((RemoteHandshakeView::EncryptedExtensions(v), n)),
            Err(e) => Err(e),
        },
        HandshakeType::Certificate => match spec_parse_certificate(body) {
            Ok((v, n)) => Ok((RemoteHandshakeView::Certificate(v), n)),
            Err(e) => Err(e),
        },
        HandshakeType::CertificateRequest => match spec_parse_certificate_request(body) {
            Ok((v, n)) => Ok((RemoteHandshakeView::CertificateRequest(v), n)),
            Err(e) => Err(e),
        },
        HandshakeType::CertificateVerify => match spec_parse_certificate_verify(body) {
            Ok((v, n)) => Ok((RemoteHandshakeView::CertificateVerify(v), n)),
            Err(e) => Err(e),
        },
        HandshakeType::Finished => match spec_parse_finished(body, len) {
            Ok(v) => Ok((RemoteHandshakeView::Finished(v, None), v.len())),
            Err(e) => Err(e),
        },
        _ => Err(TlsError::Unimplemented),
    }
}

/// What stands at the front of `s` when a handshake message is expected:
/// one byte of type, three bytes of length, and the body. Gives the message
/// and the number of bytes it takes, or
/// - `InvalidHandshake` where the type is missing or stands for no type,
///   or the length is cut short,
/// - `Unimplemented` where the type is one that this stack does not read,
/// - the error of the body.
pub open spec fn spec_parse_handshake(s: Seq<u8>) -> Result<(RemoteHandshakeView, nat), TlsError> {
    if s.len() < 1 {
        Err(TlsError::InvalidHandshake)
    } else {
        match HandshakeType::spec_of(s[0]) {
            None => Err(TlsError::InvalidHandshake),
            Some(t) => if s.len() < 4 {
                Err(TlsError::InvalidHandshake)
            } else {
                match spec_parse_handshake_body(t, s.skip(4), u24_from_be(s.skip(1))) {
                    Ok((v, n)) => Ok((v, 4 + n)),
                    Err(e) => Err(e),
                }
            },
        }
    }
}

/// What reading a body does when `expected` is what the specification
/// finds in the unread bytes: it returns a message with that view and
/// moves past its bytes, or returns that error.
pub open spec fn body_read(
    before: ParseBuffer,
    after: ParseBuffer,
    r: Result<RemoteHandshake, TlsError>,
    expected: Result<(RemoteHandshakeView, nat), TlsError>,
) -> bool {
    &&& before.wf()
    &&& after.wf()
    &&& after.bytes() == before.bytes()
    &&& match expected {
        Ok((v, n)) => r matches Ok(x) && x@ == v && after.position() == before.position() + n,
        Err(e) => r matches Err(f) && f == e,
    }
}

impl<'a> RemoteHandshake<'a> {
    /// The type of the message.
    pub fn handshake_type(&self) -> (r: HandshakeType)
        ensures
            r == self@.handshake_type(),
    {
        match self {
            RemoteHandshake::ServerHello(_) => HandshakeType::ServerHello,
            RemoteHandshake::EncryptedExtensions(_) => HandshakeType::EncryptedExtensions,
            RemoteHandshake::NewSessionTicket(_) => HandshakeType::NewSessionTicket,
            RemoteHandshake::Certificate(_) => HandshakeType::Certificate,
            RemoteHandshake::CertificateRequest(_) => HandshakeType::CertificateRequest,
            RemoteHandshake::CertificateVerify(_) => HandshakeType::CertificateVerify,
            RemoteHandshake::Finished(_) => HandshakeType::Finished,
        }
    }

    /// Reads the body of a message of the type `ServerHello`.
    fn parse_server_hello(body: &mut ParseBuffer<'a>, len: u32) -> (r: Result<
        RemoteHandshake<'a>,
        TlsError,
    >)
        ensures
            body_read(
                *old(body),
                *final(body),
                r,
                spec_parse_handshake_body(HandshakeType::ServerHello, old(body).unread(), len),
            ),
    {
        reveal(spec_parse_handshake_body);
        match RemoteServerHello::parse(body) {
            Ok(x) => Ok(RemoteHandshake::ServerHello(x)),
            Err(e) => Err(e),
        }
    }

    /// Reads the body of a message of the type `NewSessionTicket`.
    fn parse_new_session_ticket(body: &mut ParseBuffer<'a>, len: u32) -> (r: Result<
        RemoteHandshake<'a>,
        TlsError,
    >)
        ensures
            body_read(
                *old(body),
                *final(body),
                r,
                spec_parse_handshake_body(HandshakeType::NewSessionTicket, old(body).unread(), len),
            ),
    {
        reveal(spec_parse_handshake_body);
        match NewSessionTicket::parse(body) {
            Ok(x) => Ok(RemoteHandshake::NewSessionTicket(x)),
            Err(e) => Err(e),
        }
    }

    /// Reads the body of a message of the type `EncryptedExtensions`.
    fn parse_encrypted_extensions(body: &mut ParseBuffer<'a>, len: u32) -> (r: Result<
        RemoteHandshake<'a>,
        TlsError,
    >)
        ensures
            body_read(
                *old(body),
                *final(body),
                r,
                spec_parse_handshake_body(
                    HandshakeType::EncryptedExtensions,
                    old(body).unread(),
                    len,
                ),
            ),
    {
        reveal(spec_parse_handshake_body);
        match EncryptedExtensions::parse(body) {
            Ok(x) => Ok(RemoteHandshake::EncryptedExtensions(x)),
            Err(e) => Err(e),
        }
    }

    /// Reads the body of a message of the type `Certificate`.
    fn parse_certificate(body: &mut ParseBuffer<'a>, len: u32) -> (r: Result<
        RemoteHandshake<'a>,
        TlsError,
    >)
        ensures
            body_read(
                *old(body),
                *final(body),
                r,
                spec_parse_handshake_body(HandshakeType::Certificate, old(body).unread(), len),
            ),
    {
        reveal(spec_parse_handshake_body);
        match CertificateRef::parse(body) {
            Ok(x) => Ok(RemoteHandshake::Certificate(x)),
            Err(e) => Err(e),
        }
    }

    /// Reads the body of a message of the type `CertificateRequest`.
    fn parse_certificate_request(body: &mut ParseBuffer<'a>, len: u32) -> (r: Result<
        RemoteHandshake<'a>,
        TlsError,
    >)
        ensures
            body_read(
                *old(body),
                *final(body),
                r,
                spec_parse_handshake_body(
                    HandshakeType::CertificateRequest,
                    old(body).unread(),
                    len,
                ),
            ),
    {
        reveal(spec_parse_handshake_body);
        match CertificateRequestRef::parse(body) {
            Ok(x) => Ok(RemoteHandshake::CertificateRequest(x)),
            Err(e) => Err(e),
        }
    }

    /// Reads the body of a message of the type `CertificateVerify`.
    fn parse_certificate_verify(body: &mut ParseBuffer<'a>, len: u32) -> (r: Result<
        RemoteHandshake<'a>,
        TlsError,
    >)
        ensures
            body_read(
                *old(body),
                *final(body),
                r,
                spec_parse_handshake_body(
                    HandshakeType::CertificateVerify,
                    old(body).unread(),
                    len,
                ),
            ),
    {
        reveal(spec_parse_handshake_body);
        match CertificateVerify::parse(body) {
            Ok(x) => Ok(RemoteHandshake::CertificateVerify(x)),
            Err(e) => Err(e),
        }
    }

    /// Reads the body of a Finished message whose header announces `len`
    /// bytes.
    fn parse_finished(body: &mut ParseBuffer<'a>, len: u32) -> (r: Result<
        RemoteHandshake<'a>,
        TlsError,
    >)
        ensures
            body_read(
                *old(body),
                *final(body),
                r,
                spec_parse_handshake_body(HandshakeType::Finished, old(body).unread(), len),
            ),
    {
        reveal(spec_parse_handshake_body);
        match Finished::parse(body, len) {
            Ok(x) => Ok(RemoteHandshake::Finished(x)),
            Err(e) => Err(e),
        }
    }

    /// Reads one handshake message and feeds its bytes, header and body, to
    /// the transcript. A Finished message also gets the hash of the
    /// transcript as it stood before the message. On failure the transcript
    /// is as it was.
    pub fn read(buf: &mut ParseBuffer<'a>, digest: &mut Transcript) -> (r: Result<Self, TlsError>)
        ensures
            old(buf).wf(),
            final(buf).wf(),
            final(buf).bytes() == old(buf).bytes(),
            match spec_parse_handshake(old(buf).unread()) {
                Ok((v, n)) => r matches Ok(x) && x@ == v.with_hash(sha256(old(digest)@))
                    && final(buf).position() == old(buf).position() + n
                        && final(digest)@ == old(digest)@ + old(buf).unread().take(n as int),
                Err(e) => r matches Err(f) && f == e && final(digest)@ == old(digest)@,
            },
    {
        let handshake_start = buf.offset();
        let handshake = match Self::parse(buf) {
            Ok(handshake) => handshake,
            Err(e) => {
                return Err(e);
            },
        };
        let handshake_end = buf.offset();
        let handshake = match handshake {
            RemoteHandshake::Finished(finished) => RemoteHandshake::Finished(
                Finished { verify: finished.verify, hash: Some(digest.hash()) },
            ),
            other => other,
        };
        let message = slice_subrange(buf.as_slice(), handshake_start, handshake_end);
        assert(message@ =~= old(buf).unread().take(handshake_end - handshake_start));
        digest.update(message);
        Ok(handshake)
    }

    /// Reads one handshake message.
    pub fn parse(buf: &mut ParseBuffer<'a>) -> (r: Result<Self, TlsError>)
        ensures
            old(buf).wf(),
            final(buf).wf(),
            final(buf).bytes() == old(buf).bytes(),
            match spec_parse_handshake(old(buf).unread()) {
                Ok((v, n)) => r matches Ok(x) && x@ == v
                    && final(buf).position() == old(buf).position() + n,
                Err(e) => r matches Err(f) && f == e,
            },
    {
        let handshake_type = match HandshakeType::parse(buf) {
            Ok(t) => t,
            Err(_) => {
                return Err(TlsError::InvalidHandshake);
            },
        };
        assert(buf.unread() =~= old(buf).unread().skip(1));
        let content_len = match buf.read_u24() {
            Ok(v) => v,
            Err(_) => {
                return Err(TlsError::InvalidHandshake);
            },
        };
        assert(buf.unread() =~= old(buf).unread().skip(4));
        match handshake_type {
            HandshakeType::ServerHello => Self::parse_server_hello(buf, content_len),
            HandshakeType::NewSessionTicket => Self::parse_new_session_ticket(buf, content_len),
            HandshakeType::EncryptedExtensions => Self::parse_encrypted_extensions(
                buf,
                content_len,
            ),
            HandshakeType::Certificate => Self::parse_certificate(buf, content_len),
            HandshakeType::CertificateRequest => Self::parse_certificate_request(buf, content_len),
            HandshakeType::CertificateVerify => Self::parse_certificate_verify(buf, content_len),
            HandshakeType::Finished => Self::parse_finished(buf, content_len),
            _ => {
                reveal(spec_parse_handshake_body);
                Err(TlsError::Unimplemented)
            },
        }
    }
}

/// What a message that was sent holds for the peer that reads it. A
/// ClientHello is not among the messages that are read here.
pub open spec fn spec_as_received(h: LocalHandshake) -> RemoteHandshakeView {
    match h {
        LocalHandshake::Finished(f) => RemoteHandshakeView::Finished(f.verify@, None),
        LocalHandshake::ClientCertVerify(v) => RemoteHandshakeView::CertificateVerify(v@),
        LocalHandshake::ClientCert(c) => RemoteHandshakeView::Certificate(c@),
        LocalHandshake::ClientHello(_) => RemoteHandshakeView::Finished(Seq::empty(), None),
    }
}

/// The header that is written for a handshake message of the type `t` with
/// the body `body` is read as that type and the length of that body, and
/// the body stands behind it.
proof fn lemma_message_header(t: HandshakeType, body: Seq<u8>, rest: Seq<u8>)
    requires
        body.len() <= 0xff_ffff,
    ensures
        (seq![t.code()] + wire_opaque_u24(body)).len() == 4 + body.len(),
        HandshakeType::spec_of((seq![t.code()] + wire_opaque_u24(body) + rest)[0]) == Some(t),
        u24_from_be((seq![t.code()] + wire_opaque_u24(body) + rest).skip(1)) == body.len(),
        (seq![t.code()] + wire_opaque_u24(body) + rest).skip(4) == body + rest,
{
    let s = seq![t.code()] + wire_opaque_u24(body) + rest;
    let tail = wire_opaque_u24(body) + rest;
    assert(s == seq![t.code()] + tail) by {
        assert(s =~= seq![t.code()] + tail);
    }
    assert(s[0] == t.code());
    HandshakeType::lemma_code_of(t, 0);
    assert(s.skip(1) == tail) by {
        assert(s.skip(1) =~= tail);
    }
    assert(u24_from_be(tail) == body.len() && wire_opaque_u24(body).len() == 3 + body.len()) by {
        crate::big_endian::lemma_u24_read_of_written(body.len() as u32, body + rest);
        assert(tail =~= crate::big_endian::u24_to_be(body.len() as u32) + (body + rest));
    }
    assert(s.skip(4) == body + rest) by {
        assert(s.skip(4) =~= body + rest);
    }
}

/// The body that is written for a handshake message is read as the
/// message, whatever follows it.
proof fn lemma_body_parses_back(h: LocalHandshake, rest: Seq<u8>)
    requires
        h.message_encodable(),
        !(h is ClientHello),
        h matches LocalHandshake::ClientCert(c) ==> crate::parse_encode::items_error::<
            crate::handshake::certificate::CertificateEntryRef,
        >(c.raw_entries@) is None,
    ensures
        spec_parse_handshake_body(
            h.spec_handshake_type(),
            h.body_wire() + rest,
            h.body_wire().len() as u32,
        ) == Ok::<_, TlsError>((spec_as_received(h), h.body_wire().len())),
{
    let body = h.body_wire();
    reveal(spec_parse_handshake_body);
    match h {
        LocalHandshake::Finished(f) => {
            assert((body + rest).take(32) =~= f.verify@);
        },
        LocalHandshake::ClientCertVerify(v) => {
            crate::handshake::certificate_verify::lemma_certificate_verify_round_trip(
                v,
                body,
                rest,
            );
        },
        LocalHandshake::ClientCert(c) => {
            crate::handshake::certificate::lemma_certificate_round_trip(c, body, rest);
        },
        LocalHandshake::ClientHello(_) => {},
    }
}

/// Parsing what was written for a handshake message gives the message back,
/// whatever follows it: for a Finished, a CertificateVerify and a
/// Certificate message whose entries are entries from first to last.
pub proof fn lemma_parse_of_wire_handshake(h: LocalHandshake, rest: Seq<u8>)
    requires
        h.message_encodable(),
        !(h is ClientHello),
        h matches LocalHandshake::ClientCert(c) ==> crate::parse_encode::items_error::<
            crate::handshake::certificate::CertificateEntryRef,
        >(c.raw_entries@) is None,
    ensures
        spec_parse_handshake(h.message_wire() + rest) == Ok::<_, TlsError>(
            (spec_as_received(h), h.message_wire().len()),
        ),
{
    lemma_message_header(h.spec_handshake_type(), h.body_wire(), rest);
    lemma_body_parses_back(h, rest);
}

} // verus!

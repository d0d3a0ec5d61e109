//! Records: the frames in which every message travels, their headers, and
//! the inner plaintext of a protected record.

use vstd::prelude::*;
use vstd::slice::slice_subrange;
use crate::TlsError;
use crate::alert::{spec_parse_alert, Alert, AlertDescription, AlertLevel};
use crate::application_data::ApplicationData;
use crate::big_endian::u16_from_be;
use crate::buffer::CryptoBuffer;
use crate::change_cipher_spec::ChangeCipherSpec;
use crate::config::TlsConfig;
use crate::content_types::ContentType;
use crate::handshake::{spec_parse_handshake, LocalHandshake, RemoteHandshake, RemoteHandshakeView};
use crate::handshake::client_hello::{spec_finalize, ClientHello};
use crate::key_schedule::WriteKeySchedule;
use crate::parse_buffer::ParseBuffer;
use crate::parse_encode::{encoded, Encode};
use crate::transcript::{sha256, Transcript};

verus! {

/// Whether a record is protected by the traffic keys.
pub type Encrypted = bool;

/// The largest length that the header of a record may announce: 2^14 bytes
/// of plaintext and 256 bytes that protection may add.
pub const MAX_RECORD_LENGTH: usize = 16640;

/// A record to send.
pub enum LocalRecord<'config, 'a> {
    Handshake(LocalHandshake<'config, 'a>, Encrypted),
    Alert(Alert, Encrypted),
}

/// What the header of a record to send is made from: the kind of the
/// record, and whether it is protected.
#[derive(Debug, Clone, Copy, PartialEq, Eq, Structural)]
pub enum ClientRecordHeader {
    Handshake(Encrypted),
    Alert(Encrypted),
    ApplicationData,
}

impl ClientRecordHeader {
    /// Whether the record is protected.
    pub open spec fn spec_is_encrypted(self) -> bool {
        match self {
            ClientRecordHeader::Handshake(encrypted) | ClientRecordHeader::Alert(encrypted) => {
                encrypted
            },
            ClientRecordHeader::ApplicationData => true,
        }
    }

    /// The content type in the header of the record: application data
    /// where the record is protected, the true type otherwise.
    pub open spec fn spec_header_content_type(self) -> ContentType {
        match self {
            ClientRecordHeader::Handshake(false) => ContentType::Handshake,
            ClientRecordHeader::Alert(false) => ContentType::Alert,
            ClientRecordHeader::Handshake(true)
            | ClientRecordHeader::Alert(true)
            | ClientRecordHeader::ApplicationData => ContentType::ApplicationData,
        }
    }

    /// The true content type of the record, which stands behind the payload
    /// where the record is protected.
    pub open spec fn spec_trailer_content_type(self) -> ContentType {
        match self {
            ClientRecordHeader::Handshake(_) => ContentType::Handshake,
            ClientRecordHeader::Alert(_) => ContentType::Alert,
            ClientRecordHeader::ApplicationData => ContentType::ApplicationData,
        }
    }

    /// The legacy version in the header of the record: 0x0301 for a
    /// handshake message or an alert in the clear, 0x0303 otherwise.
    pub open spec fn spec_version(self) -> Seq<u8> {
        if self.spec_is_encrypted() {
            seq![0x03u8, 0x03]
        } else {
            seq![0x03u8, 0x01]
        }
    }

    /// The first three bytes of the header of the record: the content type
    /// and the legacy version.
    pub open spec fn wire(self) -> Seq<u8> {
        seq![self.spec_header_content_type().code()] + self.spec_version()
    }

    /// Whether the record is protected.
    pub fn is_encrypted(self) -> (r: bool)
        ensures
            r == self.spec_is_encrypted(),
    {
        match self {
            ClientRecordHeader::Handshake(encrypted) | ClientRecordHeader::Alert(encrypted) => {
                encrypted
            },
            ClientRecordHeader::ApplicationData => true,
        }
    }

    /// The content type in the header of the record.
    pub fn header_content_type(self) -> (r: ContentType)
        ensures
            r == self.spec_header_content_type(),
    {
        match self {
            ClientRecordHeader::Handshake(false) => ContentType::Handshake,
            ClientRecordHeader::Alert(false) => ContentType::Alert,
            ClientRecordHeader::Handshake(true)
            | ClientRecordHeader::Alert(true)
            | ClientRecordHeader::ApplicationData => ContentType::ApplicationData,
        }
    }

    /// The true content type of the record.
    pub fn trailer_content_type(self) -> (r: ContentType)
        ensures
            r == self.spec_trailer_content_type(),
    {
        match self {
            ClientRecordHeader::Handshake(_) => ContentType::Handshake,
            ClientRecordHeader::Alert(_) => ContentType::Alert,
            ClientRecordHeader::ApplicationData => ContentType::ApplicationData,
        }
    }

    /// The legacy version in the header of the record.
    pub fn version(self) -> (r: [u8; 2])
        ensures
            r@ == self.spec_version(),
    {
        match self {
            ClientRecordHeader::Handshake(true)
            | ClientRecordHeader::Alert(true)
            | ClientRecordHeader::ApplicationData => {
                let v: [u8; 2] = [0x03, 0x03];
                assert(v@ =~= seq![0x03u8, 0x03]);
                v
            },
            ClientRecordHeader::Handshake(false) | ClientRecordHeader::Alert(false) => {
                let v: [u8; 2] = [0x03, 0x01];
                assert(v@ =~= seq![0x03u8, 0x01]);
                v
            },
        }
    }

    /// Writes the whole header of a record whose payload takes `length`
    /// bytes: the content type, the legacy version, and the length. A
    /// length above [`MAX_RECORD_LENGTH`] cannot be written.
    pub fn encode_with_length(self, length: usize, buf: &mut CryptoBuffer) -> (r: Result<
        (),
        TlsError,
    >)
        ensures
            encoded(
                *old(buf),
                *final(buf),
                r,
                length <= MAX_RECORD_LENGTH,
                wire_record_header(self, length as u16),
            ),
    {
        if length > MAX_RECORD_LENGTH {
            let _ = buf.len();
            return Err(TlsError::EncodeError);
        }
        let version = self.version();
        let data: [u8; 5] = [
            self.header_content_type().as_u8(),
            version[0],
            version[1],
            (length / 256) as u8,
            (length % 256) as u8,
        ];
        assert(data@ =~= wire_record_header(self, length as u16));
        buf.extend_from_slice(&data)
    }

    /// Writes the true content type behind the payload of a protected
    /// record.
    pub fn encode_trailer(self, buf: &mut CryptoBuffer) -> (r: Result<(), TlsError>)
        ensures
            encoded(
                *old(buf),
                *final(buf),
                r,
                true,
                seq![self.spec_trailer_content_type().code()],
            ),
    {
        buf.push(self.trailer_content_type().as_u8())
    }

    /// Writes the content type and the legacy version.
    pub fn encode(self, buf: &mut CryptoBuffer) -> (r: Result<(), TlsError>)
        ensures
            encoded(*old(buf), *final(buf), r, true, self.wire()),
    {
        let version = self.version();
        let data: [u8; 3] = [self.header_content_type().as_u8(), version[0], version[1]];
        assert(data@ =~= self.wire());
        buf.extend_from_slice(&data)
    }
}

impl<'config, 'a> LocalRecord<'config, 'a> {
    /// What the header of the record is made from.
    pub open spec fn spec_header(self) -> ClientRecordHeader {
        match self {
            LocalRecord::Handshake(_, encrypted) => ClientRecordHeader::Handshake(encrypted),
            LocalRecord::Alert(_, encrypted) => ClientRecordHeader::Alert(encrypted),
        }
    }

    /// The bytes of the payload of the record.
    pub open spec fn payload_wire(self) -> Seq<u8> {
        match self {
            LocalRecord::Handshake(handshake, _) => handshake.message_wire(),
            LocalRecord::Alert(alert, _) => alert.wire(),
        }
    }

    /// Whether the payload of the record can be written.
    pub open spec fn payload_encodable(self) -> bool {
        match self {
            LocalRecord::Handshake(handshake, _) => handshake.message_encodable(),
            LocalRecord::Alert(_, _) => true,
        }
    }

    /// What the header of the record is made from.
    pub fn header(&self) -> (r: ClientRecordHeader)
        ensures
            r == self.spec_header(),
    {
        match self {
            LocalRecord::Handshake(_, encrypted) => ClientRecordHeader::Handshake(*encrypted),
            LocalRecord::Alert(_, encrypted) => ClientRecordHeader::Alert(*encrypted),
        }
    }

    /// The record that carries the ClientHello for the configuration
    /// `config`, in the clear, with the given random, session id and public
    /// key.
    pub fn client_hello(
        config: &'config TlsConfig<'config>,
        random: [u8; 32],
        session_id: [u8; 32],
        public_key: &'config [u8],
    ) -> (r: Self)
        ensures
            r == LocalRecord::<'config, 'a>::Handshake(
                LocalHandshake::ClientHello(
                    ClientHello { config, random, session_id, public_key },
                ),
                false,
            ),
    {
        LocalRecord::Handshake(
            LocalHandshake::ClientHello(ClientHello::new(config, random, session_id, public_key)),
            false,
        )
    }

    /// The record that tells the peer that no more data will be sent; it is
    /// protected where the connection has been opened.
    pub fn close_notify(opened: bool) -> (r: Self)
        ensures
            r == LocalRecord::<'config, 'a>::Alert(
                Alert { level: AlertLevel::Warning, description: AlertDescription::CloseNotify },
                opened,
            ),
    {
        LocalRecord::Alert(Alert::new(AlertLevel::Warning, AlertDescription::CloseNotify), opened)
    }

    /// Writes the payload of the record and gives the number of bytes
    /// written.
    pub fn encode_payload(&self, buf: &mut CryptoBuffer) -> (r: Result<usize, TlsError>)
        ensures
            old(buf).wf(),
            final(buf).wf(),
            final(buf).capacity() == old(buf).capacity(),
            r is Ok <==> self.payload_encodable() && old(buf).fits(self.payload_wire().len()),
            r matches Ok(n) ==> n == self.payload_wire().len() && final(buf)@ == old(buf)@
                + self.payload_wire(),
            r matches Err(e) ==> e == TlsError::EncodeError && final(buf)@ == old(buf)@,
    {
        let record_length_marker = buf.len();
        match self {
            LocalRecord::Handshake(handshake, _) => match handshake.encode(buf) {
                Ok(_) => {},
                Err(e) => {
                    return Err(e);
                },
            },
            LocalRecord::Alert(alert, _) => match alert.encode(buf) {
                Ok(_) => {},
                Err(e) => {
                    return Err(e);
                },
            },
        }
        Ok(buf.len() - record_length_marker)
    }

    /// Completes the encoded payload in `buf`, which holds the payload and
    /// nothing else: a handshake message is fed to the transcript, a
    /// ClientHello in the clear with its binders filled in first; an alert
    /// is left as it is. On failure nothing changes.
    pub fn finish_record(
        &self,
        buf: &mut CryptoBuffer,
        transcript: &mut Transcript,
        write_key_schedule: &mut WriteKeySchedule,
    ) -> (r: Result<(), TlsError>)
        ensures
            final(buf).capacity() == old(buf).capacity(),
            final(write_key_schedule).binder_key() == old(write_key_schedule).binder_key(),
            final(write_key_schedule).sequence_number()
                == old(write_key_schedule).sequence_number(),
            final(write_key_schedule).traffic_secret() == old(write_key_schedule).traffic_secret(),
            match *self {
                LocalRecord::Handshake(handshake, false) => match spec_finalize(
                    old(buf)@,
                    handshake.offered_identities(),
                    old(transcript)@,
                    old(write_key_schedule).binder_key(),
                ) {
                    Ok(message) => r is Ok && final(buf)@ == message
                        && final(transcript)@ == old(transcript)@ + message,
                    Err(e) => r matches Err(f) && f == e && final(buf)@ == old(buf)@
                        && final(transcript)@ == old(transcript)@,
                },
                LocalRecord::Handshake(_, true) => r is Ok && final(buf)@ == old(buf)@
                    && final(transcript)@ == old(transcript)@ + old(buf)@,
                LocalRecord::Alert(_, _) => r is Ok && final(buf)@ == old(buf)@
                    && final(transcript)@ == old(transcript)@,
            },
    {
        match self {
            LocalRecord::Handshake(handshake, false) => {
                handshake.finalize(buf, transcript, write_key_schedule)
            },
            LocalRecord::Handshake(_, true) => {
                LocalHandshake::finalize_encrypted(buf, transcript);
                Ok(())
            },
            _ => Ok(()),
        }
    }
}

/// The header of a record that was received: five bytes whose first names
/// a content type. The last two spell the length of the payload.
pub struct RecordHeader {
    header: [u8; 5],
}

/// Whether five bytes are the header of a record: the first names a content
/// type.
pub open spec fn valid_record_header(header: Seq<u8>) -> bool {
    &&& header.len() == 5
    &&& ContentType::spec_of(header[0]) is Some
}

impl View for RecordHeader {
    type V = Seq<u8>;

    /// The five bytes of the header.
    closed spec fn view(&self) -> Seq<u8> {
        self.header@
    }
}

impl RecordHeader {
    /// The bytes are the header of a record.
    #[verifier::type_invariant]
    spec fn inv(self) -> bool {
        valid_record_header(self.header@)
    }

    /// The number of bytes of a record header.
    pub const LEN: usize = 5;

    /// The content type that the header names.
    pub open spec fn spec_content_type(self) -> ContentType {
        ContentType::spec_of(self@[0])->Some_0
    }

    /// The length of the payload that the header announces.
    pub open spec fn spec_content_length(self) -> nat {
        u16_from_be(self@.skip(3)) as nat
    }

    /// The content type that the header names.
    pub fn content_type(&self) -> (r: ContentType)
        ensures
            r == self.spec_content_type(),
            valid_record_header(self@),
    {
        proof {
            use_type_invariant(self);
        }
        // the content type was checked when the header was decoded
        match ContentType::of(self.header[0]) {
            Some(t) => t,
            None => ContentType::Invalid,
        }
    }

    /// The length of the payload that the header announces.
    pub fn content_length(&self) -> (r: usize)
        ensures
            r == self.spec_content_length(),
            valid_record_header(self@),
    {
        proof {
            use_type_invariant(self);
        }
        let hi = self.header[3] as usize;
        let lo = self.header[4] as usize;
        hi * 256 + lo
    }

    /// Whether the header announces a payload that a record may carry: one
    /// of at most [`MAX_RECORD_LENGTH`] bytes.
    pub open spec fn spec_within_limit(self) -> bool {
        self.spec_content_length() <= MAX_RECORD_LENGTH
    }

    /// Holds the announced length against the limit of a record. A header
    /// that announces more than [`MAX_RECORD_LENGTH`] bytes is an invalid
    /// record, and its payload is not to be read.
    pub fn check_length(&self) -> (r: Result<usize, TlsError>)
        ensures
            match r {
                Ok(n) => self.spec_within_limit() && n == self.spec_content_length(),
                Err(e) => !self.spec_within_limit() && e == TlsError::InvalidRecord,
            },
    {
        let length = self.content_length();
        if length > MAX_RECORD_LENGTH {
            Err(TlsError::InvalidRecord)
        } else {
            Ok(length)
        }
    }

    /// The five bytes of the header.
    pub fn data(&self) -> (r: &[u8; 5])
        ensures
            r@ == self@,
    {
        &self.header
    }

    /// Accepts five bytes as the header of a record. They are an invalid
    /// record where the first names no content type. Any length is
    /// accepted here: [`RecordHeader::check_length`] holds it against the
    /// limit.
    pub fn decode(header: [u8; 5]) -> (r: Result<RecordHeader, TlsError>)
        ensures
            match r {
                Ok(h) => ContentType::spec_of(header[0]) is Some && h@ == header@,
                Err(e) => ContentType::spec_of(header[0]) is None && e == TlsError::InvalidRecord,
            },
    {
        match ContentType::of(header[0]) {
            None => Err(TlsError::InvalidRecord),
            Some(_) => Ok(RecordHeader { header }),
        }
    }
}

/// A record that was received.
pub enum RemoteRecord<'a> {
    Handshake(RemoteHandshake<'a>),
    ChangeCipherSpec(ChangeCipherSpec),
    Alert(Alert),
    ApplicationData(ApplicationData<'a>),
}

/// What a received record holds, as values.
pub enum RemoteRecordView {
    Handshake(RemoteHandshakeView),
    ChangeCipherSpec,
    Alert(Alert),
    ApplicationData(Seq<u8>),
}

impl<'a> View for RemoteRecord<'a> {
    type V = RemoteRecordView;

    open spec fn view(&self) -> RemoteRecordView {
        match self {
            RemoteRecord::Handshake(x) => RemoteRecordView::Handshake(x@),
            RemoteRecord::ChangeCipherSpec(_) => RemoteRecordView::ChangeCipherSpec,
            RemoteRecord::Alert(x) => RemoteRecordView::Alert(*x),
            RemoteRecord::ApplicationData(x) => RemoteRecordView::ApplicationData(x@),
        }
    }
}

/// What the payload `data` of a record of the content type `t` holds when
/// the transcript holds `transcript`, or why it cannot be read:
/// - a record of the type "invalid" is not read,
/// - a change_cipher_spec record must hold the single byte 1,
/// - an alert record holds an alert,
/// - a handshake record holds a handshake message, at its front,
/// - an application data record holds its payload.
pub open spec fn spec_decode_record(t: ContentType, data: Seq<u8>, transcript: Seq<u8>) -> Result<
    RemoteRecordView,
    TlsError,
> {
    match t {
        ContentType::Invalid => Err(TlsError::Unimplemented),
        ContentType::ChangeCipherSpec => if data == seq![1u8] {
            Ok(RemoteRecordView::ChangeCipherSpec)
        } else {
            Err(TlsError::AbortHandshake(AlertLevel::Fatal, AlertDescription::UnexpectedMessage))
        },
        ContentType::Alert => match spec_parse_alert(data) {
            Ok(alert) => Ok(RemoteRecordView::Alert(alert)),
            Err(e) => Err(e),
        },
        ContentType::Handshake => match spec_parse_handshake(data) {
            Ok((v, _)) => Ok(RemoteRecordView::Handshake(v.with_hash(sha256(transcript)))),
            Err(e) => Err(e),
        },
        ContentType::ApplicationData => Ok(RemoteRecordView::ApplicationData(data)),
    }
}

/// What decoding a record feeds to the transcript: the bytes of the
/// handshake message where the record holds one, and nothing otherwise.
pub open spec fn spec_record_transcript(t: ContentType, data: Seq<u8>) -> Seq<u8> {
    match t {
        ContentType::Handshake => match spec_parse_handshake(data) {
            Ok((_, n)) => data.take(n as int),
            Err(_) => Seq::empty(),
        },
        _ => Seq::empty(),
    }
}

impl<'a> RemoteRecord<'a> {
    /// The content type of the record.
    pub fn content_type(&self) -> (r: ContentType)
        ensures
            r == match self@ {
                RemoteRecordView::Handshake(_) => ContentType::Handshake,
                RemoteRecordView::ChangeCipherSpec => ContentType::ChangeCipherSpec,
                RemoteRecordView::Alert(_) => ContentType::Alert,
                RemoteRecordView::ApplicationData(_) => ContentType::ApplicationData,
            },
    {
        match self {
            RemoteRecord::Handshake(_) => ContentType::Handshake,
            RemoteRecord::ChangeCipherSpec(_) => ContentType::ChangeCipherSpec,
            RemoteRecord::Alert(_) => ContentType::Alert,
            RemoteRecord::ApplicationData(_) => ContentType::ApplicationData,
        }
    }

    /// Reads the plaintext `plaintext` of a protected record, as it came out
    /// of the AEAD: finds the true content type behind the payload, and
    /// reads the payload as a record of that type. A handshake message is
    /// fed to the transcript.
    pub fn decode_protected(
        header: RecordHeader,
        plaintext: &'a mut [u8],
        digest: &mut Transcript,
    ) -> (r: Result<RemoteRecord<'a>, TlsError>)
        ensures
            match spec_parse_inner_plaintext(old(plaintext)@) {
                Ok((t, n)) => {
                    &&& match spec_decode_record(t, old(plaintext)@.take(n as int), old(digest)@) {
                        Ok(v) => r matches Ok(x) && x@ == v,
                        Err(e) => r matches Err(f) && f == e,
                    }
                    &&& final(digest)@ == old(digest)@ + spec_record_transcript(
                        t,
                        old(plaintext)@.take(n as int),
                    )
                },
                Err(e) => r matches Err(f) && f == e && final(digest)@ == old(digest)@,
            },
            r matches Ok(RemoteRecord::ApplicationData(a)) ==> a.header == header,
    {
        let (content_type, len) = match parse_inner_plaintext(plaintext) {
            Ok(found) => found,
            Err(e) => {
                return Err(e);
            },
        };
        match content_type {
            ContentType::Invalid => {
                assert(digest@ =~= old(digest)@ + Seq::<u8>::empty());
                Err(TlsError::Unimplemented)
            },
            ContentType::ChangeCipherSpec => {
                assert(digest@ =~= old(digest)@ + Seq::<u8>::empty());
                match ChangeCipherSpec::read(slice_subrange(plaintext, 0, len)) {
                    Ok(ccs) => Ok(RemoteRecord::ChangeCipherSpec(ccs)),
                    Err(e) => Err(e),
                }
            },
            ContentType::Alert => {
                assert(digest@ =~= old(digest)@ + Seq::<u8>::empty());
                let mut parse = ParseBuffer::new(slice_subrange(plaintext, 0, len));
                assert(parse.unread() =~= old(plaintext)@.take(len as int));
                match Alert::parse(&mut parse) {
                    Ok(alert) => Ok(RemoteRecord::Alert(alert)),
                    Err(e) => Err(e),
                }
            },
            ContentType::Handshake => {
                let mut parse = ParseBuffer::new(slice_subrange(plaintext, 0, len));
                assert(parse.unread() =~= old(plaintext)@.take(len as int));
                match RemoteHandshake::read(&mut parse, digest) {
                    Ok(handshake) => Ok(RemoteRecord::Handshake(handshake)),
                    Err(e) => {
                        assert(digest@ =~= old(digest)@ + Seq::<u8>::empty());
                        Err(e)
                    },
                }
            },
            ContentType::ApplicationData => {
                assert(digest@ =~= old(digest)@ + Seq::<u8>::empty());
                let buf = CryptoBuffer::wrap_with_pos(plaintext, len);
                Ok(RemoteRecord::ApplicationData(ApplicationData::new(buf, header)))
            },
        }
    }

    /// Reads the payload `data` of the record with the header `header`. A
    /// handshake message is fed to the transcript.
    pub fn decode(header: RecordHeader, data: &'a mut [u8], digest: &mut Transcript) -> (r: Result<
        RemoteRecord<'a>,
        TlsError,
    >)
        requires
            header.spec_content_length() == old(data)@.len(),
        ensures
            match spec_decode_record(header.spec_content_type(), old(data)@, old(digest)@) {
                Ok(v) => r matches Ok(x) && x@ == v,
                Err(e) => r matches Err(f) && f == e,
            },
            final(digest)@ == old(digest)@ + spec_record_transcript(
                header.spec_content_type(),
                old(data)@,
            ),
            r matches Ok(RemoteRecord::ApplicationData(a)) ==> a.header == header,
    {
        match header.content_type() {
            ContentType::Invalid => {
                assert(digest@ =~= old(digest)@ + Seq::<u8>::empty());
                Err(TlsError::Unimplemented)
            },
            ContentType::ChangeCipherSpec => {
                assert(digest@ =~= old(digest)@ + Seq::<u8>::empty());
                match ChangeCipherSpec::read(data) {
                    Ok(ccs) => Ok(RemoteRecord::ChangeCipherSpec(ccs)),
                    Err(e) => Err(e),
                }
            },
            ContentType::Alert => {
                assert(digest@ =~= old(digest)@ + Seq::<u8>::empty());
                let mut parse = ParseBuffer::new(data);
                assert(parse.unread() =~= old(data)@);
                match Alert::parse(&mut parse) {
                    Ok(alert) => Ok(RemoteRecord::Alert(alert)),
                    Err(e) => Err(e),
                }
            },
            ContentType::Handshake => {
                let mut parse = ParseBuffer::new(data);
                assert(parse.unread() =~= old(data)@);
                match RemoteHandshake::read(&mut parse, digest) {
                    Ok(handshake) => Ok(RemoteRecord::Handshake(handshake)),
                    Err(e) => {
                        assert(digest@ =~= old(digest)@ + Seq::<u8>::empty());
                        Err(e)
                    },
                }
            },
            ContentType::ApplicationData => {
                assert(digest@ =~= old(digest)@ + Seq::<u8>::empty());
                let len = data.len();
                let buf = CryptoBuffer::wrap_with_pos(data, len);
                assert(buf@ =~= old(data)@);
                Ok(RemoteRecord::ApplicationData(ApplicationData::new(buf, header)))
            },
        }
    }
}

/// The number of bytes that the tag of the AEAD adds to a record.
pub const TAG_LENGTH: usize = 16;

/// `n` zero bytes.
pub open spec fn zero_padding(n: nat) -> Seq<u8> {
    Seq::new(n, |i: int| 0u8)
}

/// The inner plaintext of a protected record: the payload, then the true
/// content type, then zero bytes of padding.
pub open spec fn wire_inner_plaintext(payload: Seq<u8>, t: ContentType, padding: nat) -> Seq<u8> {
    payload + seq![t.code()] + zero_padding(padding)
}

/// The index of the last byte of `s` that is not zero, if there is one.
pub open spec fn last_non_zero(s: Seq<u8>) -> Option<int>
    decreases s.len(),
{
    if s.len() == 0 {
        None
    } else if s.last() != 0 {
        Some(s.len() - 1)
    } else {
        last_non_zero(s.drop_last())
    }
}

/// What the plaintext `s` of a protected record holds: the zero bytes at
/// its end are padding, the last byte that is not zero is the true content
/// type, and what stands before it is the payload. Gives the content type
/// and the length of the payload, or
/// - a fatal `unexpected_message` where no byte is other than zero,
/// - an invalid record where that byte names no content type.
pub open spec fn spec_parse_inner_plaintext(s: Seq<u8>) -> Result<(ContentType, nat), TlsError> {
    match last_non_zero(s) {
        None => Err(
            TlsError::AbortHandshake(AlertLevel::Fatal, AlertDescription::UnexpectedMessage),
        ),
        Some(i) => match ContentType::spec_of(s[i]) {
            Some(t) => Ok((t, i as nat)),
            None => Err(TlsError::InvalidRecord),
        },
    }
}

/// Finds the true content type and the payload in the plaintext of a
/// protected record: gives the type and the length of the payload, which
/// is the front of `plaintext`.
pub fn parse_inner_plaintext(plaintext: &[u8]) -> (r: Result<(ContentType, usize), TlsError>)
    ensures
        match spec_parse_inner_plaintext(plaintext@) {
            Ok((t, n)) => r matches Ok(x) && x.0 == t && x.1 == n && n < plaintext@.len(),
            Err(e) => r matches Err(f) && f == e,
        },
{
    let mut end = plaintext.len();
    assert(plaintext@.take(end as int) =~= plaintext@);
    while end > 0 && plaintext[end - 1] == 0
        invariant
            end <= plaintext@.len(),
            last_non_zero(plaintext@) == last_non_zero(plaintext@.take(end as int)),
        decreases end,
    {
        assert(plaintext@.take(end as int).drop_last() =~= plaintext@.take(end - 1));
        end = end - 1;
    }
    if end == 0 {
        return Err(
            TlsError::AbortHandshake(AlertLevel::Fatal, AlertDescription::UnexpectedMessage),
        );
    }
    assert(plaintext@.take(end as int).last() == plaintext@[end - 1]);
    match ContentType::of(plaintext[end - 1]) {
        Some(t) => Ok((t, end - 1)),
        None => Err(TlsError::InvalidRecord),
    }
}

/// The header of a protected record whose ciphertext, tag included, takes
/// `length` bytes: the content type "application data", the legacy version
/// 0x0303, and the length. It is also what the AEAD takes as associated
/// data. There is none for a length above [`MAX_RECORD_LENGTH`].
pub fn protected_record_header(length: usize) -> (r: Result<[u8; 5], TlsError>)
    ensures
        match r {
            Ok(h) => length <= MAX_RECORD_LENGTH && h@ == wire_record_header(
                ClientRecordHeader::ApplicationData,
                length as u16,
            ),
            Err(e) => length > MAX_RECORD_LENGTH && e == TlsError::EncodeError,
        },
{
    if length > MAX_RECORD_LENGTH {
        Err(TlsError::EncodeError)
    } else {
        let h: [u8; 5] = [23, 0x03, 0x03, (length / 256) as u8, (length % 256) as u8];
        assert(h@ =~= wire_record_header(ClientRecordHeader::ApplicationData, length as u16));
        Ok(h)
    }
}

/// In the inner plaintext of a record, the last byte that is not zero is
/// the content type, as long as the type is not the type "invalid", whose
/// number is zero.
proof fn lemma_last_non_zero_of_inner(payload: Seq<u8>, t: ContentType, padding: nat)
    requires
        t != ContentType::Invalid,
    ensures
        last_non_zero(wire_inner_plaintext(payload, t, padding)) == Some(payload.len() as int),
    decreases padding,
{
    let s = wire_inner_plaintext(payload, t, padding);
    if padding == 0 {
        assert(s.last() == t.code());
    } else {
        assert(s.last() == 0);
        assert(s.drop_last() =~= wire_inner_plaintext(payload, t, (padding - 1) as nat));
        lemma_last_non_zero_of_inner(payload, t, (padding - 1) as nat);
    }
}

/// Reading the inner plaintext made of a payload, a content type and any
/// padding gives the content type and the payload back, for every content
/// type but the type "invalid".
pub proof fn lemma_inner_plaintext_round_trip(payload: Seq<u8>, t: ContentType, padding: nat)
    requires
        t != ContentType::Invalid,
    ensures
        spec_parse_inner_plaintext(wire_inner_plaintext(payload, t, padding)) == Ok::<
            (ContentType, nat),
            TlsError,
        >((t, payload.len())),
{
    lemma_last_non_zero_of_inner(payload, t, padding);
    ContentType::lemma_code_of(t, 0);
    assert(wire_inner_plaintext(payload, t, padding)[payload.len() as int] == t.code());
}

/// The header of a record to send, as it is written: the content type, the
/// legacy version, and the length of what follows.
pub open spec fn wire_record_header(header: ClientRecordHeader, length: u16) -> Seq<u8> {
    header.wire() + crate::big_endian::u16_to_be(length)
}

/// The header written for a record is the header of a record when it is
/// read: it names the content type that was written, and announces the
/// length that was written.
pub proof fn lemma_record_header_round_trip(header: ClientRecordHeader, length: u16)
    ensures
        wire_record_header(header, length).len() == 5,
        valid_record_header(wire_record_header(header, length)),
        ContentType::spec_of(wire_record_header(header, length)[0]) == Some(
            header.spec_header_content_type(),
        ),
        u16_from_be(wire_record_header(header, length).skip(3)) == length,
{
    let w = wire_record_header(header, length);
    ContentType::lemma_code_of(header.spec_header_content_type(), 0);
    assert(w.skip(3) =~= crate::big_endian::u16_to_be(length) + Seq::<u8>::empty());
    crate::big_endian::lemma_u16_read_of_written(length, Seq::empty());
}

/// Decoding the payload that was written for a record gives the record
/// back: an alert as it was, and a handshake message as its peer reads it,
/// with the hash of the transcript where it is a Finished message. This
/// holds for the handshake messages that are read here: a Finished, a
/// CertificateVerify, and a Certificate whose entries are entries from
/// first to last.
pub proof fn lemma_record_round_trip(record: LocalRecord, transcript: Seq<u8>)
    requires
        record.payload_encodable(),
        record matches LocalRecord::Handshake(h, _) ==> !(h is ClientHello),
        record matches LocalRecord::Handshake(LocalHandshake::ClientCert(c), _)
            ==> crate::parse_encode::items_error::<
            crate::handshake::certificate::CertificateEntryRef,
        >(c.raw_entries@) is None,
    ensures
        spec_decode_record(
            record.spec_header().spec_trailer_content_type(),
            record.payload_wire(),
            transcript,
        ) == Ok::<RemoteRecordView, TlsError>(
            match record {
                LocalRecord::Alert(alert, _) => RemoteRecordView::Alert(alert),
                LocalRecord::Handshake(h, _) => RemoteRecordView::Handshake(
                    crate::handshake::spec_as_received(h).with_hash(sha256(transcript)),
                ),
            },
        ),
{
    match record {
        LocalRecord::Alert(alert, _) => {
            crate::alert::lemma_alert_round_trip(alert, Seq::empty(), Seq::empty());
            assert(alert.wire() + Seq::<u8>::empty() =~= alert.wire());
        },
        LocalRecord::Handshake(h, _) => {
            crate::handshake::lemma_parse_of_wire_handshake(h, Seq::empty());
            assert(h.message_wire() + Seq::<u8>::empty() =~= h.message_wire());
        },
    }
}

} // verus!

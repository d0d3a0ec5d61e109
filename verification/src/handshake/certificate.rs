//! The Certificate message: a chain of certificates, each with its
//! extensions.

use vstd::prelude::*;
use crate::TlsError;
use crate::buffer::CryptoBuffer;
use crate::extensions::messages::{
    held, parse_extensions, spec_parse_extensions, Extension, MessageKind,
};
use crate::parse_buffer::{ParseBuffer, ParseError};
use crate::parse_encode::{
    encode_opaque_u16, encode_opaque_u24, encoded, items_error, items_of,
    lemma_parse_of_wire_opaque_u16, lemma_parse_of_wire_opaque_u24, lemma_wire_of_parsed_opaque_u16,
    lemma_wire_of_parsed_opaque_u24, parse_opaque_u16, parse_opaque_u24, parsed,
    spec_parse_opaque_u16, spec_parse_opaque_u24, views, wire_opaque_u16, wire_opaque_u24, Encode,
    ListIter, Parse, SliceU8, WireFormat, ZerocopyList,
};

verus! {

/// One certificate of a chain: its bytes, and the bytes of its extension
/// block without the length in front. Its view is the pair of the two.
#[derive(Debug, Clone, Copy, PartialEq, Eq)]
pub struct CertificateEntryRef<'a> {
    pub cert_data: &'a [u8],
    pub extensions: &'a [u8],
}

impl<'a> View for CertificateEntryRef<'a> {
    type V = (Seq<u8>, Seq<u8>);

    open spec fn view(&self) -> (Seq<u8>, Seq<u8>) {
        (self.cert_data@, self.extensions@)
    }
}

/// The number of extensions that an entry of a certificate chain may carry.
pub const ENTRY_EXTENSIONS: usize = 2;

impl<'a> CertificateEntryRef<'a> {
    /// A certificate without extensions.
    pub fn x509(cert_data: &'a [u8]) -> (r: Self)
        ensures
            r@ == (cert_data@, Seq::<u8>::empty()),
    {
        let none: &'a [u8] = &[];
        assert(none@ =~= Seq::<u8>::empty());
        CertificateEntryRef { cert_data, extensions: none }
    }
}

impl<'a> Parse<'a> for CertificateEntryRef<'a> {
    /// The certificate behind a three-byte length, then its extensions
    /// behind a two-byte length.
    open spec fn spec_parse(s: Seq<u8>) -> Result<((Seq<u8>, Seq<u8>), nat), ParseError> {
        match spec_parse_opaque_u24(s) {
            Ok((cert, n)) => match spec_parse_opaque_u16(s.skip(n as int)) {
                Ok((extensions, m)) => Ok(((cert, extensions), n + m)),
                Err(e) => Err(e),
            },
            Err(e) => Err(e),
        }
    }

    fn parse(buf: &mut ParseBuffer<'a>) -> (r: Result<Self, ParseError>) {
        let cert_data = match parse_opaque_u24(buf) {
            Ok(v) => v,
            Err(e) => {
                return Err(e);
            },
        };
        assert(buf.unread() =~= old(buf).unread().skip(3 + cert_data@.len() as int));
        match parse_opaque_u16(buf) {
            Ok(extensions) => Ok(CertificateEntryRef { cert_data, extensions }),
            Err(e) => Err(e),
        }
    }
}

impl<'a> Encode for CertificateEntryRef<'a> {
    open spec fn wire(&self) -> Seq<u8> {
        wire_opaque_u24(self.cert_data@) + wire_opaque_u16(self.extensions@)
    }

    open spec fn encodable(&self) -> bool {
        self.cert_data@.len() <= 0xff_ffff && self.extensions@.len() <= 0xffff
    }

    fn encode(self, buf: &mut CryptoBuffer) -> (r: Result<(), TlsError>) {
        let mark = buf.len();
        match encode_opaque_u24(self.cert_data, buf) {
            Ok(_) => {},
            Err(e) => {
                return Err(e);
            },
        }
        match encode_opaque_u16(self.extensions, buf) {
            Ok(_) => {
                assert(buf@ =~= old(buf)@ + self.wire());
                Ok(())
            },
            Err(e) => {
                buf.truncate(mark);
                assert(buf@ =~= old(buf)@);
                Err(e)
            },
        }
    }
}

impl<'a> WireFormat<'a> for CertificateEntryRef<'a> {
    open spec fn well_formed(&self) -> bool {
        true
    }

    proof fn lemma_parse_of_wire(x: Self, rest: Seq<u8>) {
        let s = x.wire() + rest;
        let cert = x.cert_data@;
        let head = wire_opaque_u24(cert);
        let tail = wire_opaque_u16(x.extensions@) + rest;
        assert(s == head + tail) by {
            assert(s =~= head + tail);
        }
        assert(spec_parse_opaque_u24(s) == Ok::<_, ParseError>((cert, 3 + cert.len()))) by {
            lemma_parse_of_wire_opaque_u24(cert, tail);
        }
        assert(head.len() == 3 + cert.len()) by {
            crate::big_endian::lemma_u24_read_of_written(cert.len() as u32, tail);
        }
        assert(s.skip(3 + cert.len() as int) == tail) by {
            assert((head + tail).skip(head.len() as int) =~= tail);
        }
        assert(spec_parse_opaque_u16(tail) == Ok::<_, ParseError>(
            (x.extensions@, 2 + x.extensions@.len()),
        )) by {
            lemma_parse_of_wire_opaque_u16(x.extensions@, rest);
        }
        assert(x.wire().len() > 0);
    }

    proof fn lemma_wire_of_parsed(s: Seq<u8>, x: Self) {
        lemma_wire_of_parsed_opaque_u24(s);
        let n = spec_parse_opaque_u24(s)->Ok_0.1;
        lemma_wire_of_parsed_opaque_u16(s.skip(n as int));
        let m = spec_parse_opaque_u16(s.skip(n as int))->Ok_0.1;
        assert(s.take(n as int) + s.skip(n as int).take(m as int) =~= s.take(n as int + m as int));
    }
}

/// A Certificate message: the request context, and the bytes of the entries
/// of the chain, one after the other, without the length in front of them.
/// Its view is the pair of the context's bytes and the entries' bytes.
#[derive(Debug, Clone, Copy, PartialEq, Eq)]
pub struct CertificateRef<'a> {
    pub request_context: &'a [u8],
    pub raw_entries: &'a [u8],
}

impl<'a> View for CertificateRef<'a> {
    type V = (Seq<u8>, Seq<u8>);

    open spec fn view(&self) -> (Seq<u8>, Seq<u8>) {
        (self.request_context@, self.raw_entries@)
    }
}

/// The entries of the chain that the bytes `raw` spell, first to last: of
/// each the certificate and the bytes of its extensions.
pub open spec fn spec_entries(raw: Seq<u8>) -> Seq<(Seq<u8>, Seq<u8>)> {
    items_of::<CertificateEntryRef>(raw)
}

/// What stands at the front of `s` when the body of a Certificate message
/// is expected: the request context behind a one-byte length, then the
/// bytes of the entries behind a three-byte length, which must spell
/// entries from first to last. What cannot be read is a decode error.
pub open spec fn spec_parse_certificate(s: Seq<u8>) -> Result<((Seq<u8>, Seq<u8>), nat), TlsError> {
    match SliceU8::spec_parse(s) {
        Err(_) => Err(TlsError::DecodeError),
        Ok((context, n)) => match spec_parse_opaque_u24(s.skip(n as int)) {
            Err(_) => Err(TlsError::DecodeError),
            Ok((raw, m)) => match items_error::<CertificateEntryRef>(raw) {
                Some(_) => Err(TlsError::DecodeError),
                None => Ok(((context, raw), n + m)),
            },
        },
    }
}

impl<'a> CertificateRef<'a> {
    /// Reads the body of a Certificate message, and checks that the entries
    /// are entries from first to last. The entries are kept as the bytes
    /// that spell them.
    pub fn parse(buf: &mut ParseBuffer<'a>) -> (r: Result<Self, TlsError>)
        ensures
            old(buf).wf(),
            final(buf).wf(),
            final(buf).bytes() == old(buf).bytes(),
            match spec_parse_certificate(old(buf).unread()) {
                Ok((v, n)) => r matches Ok(x) && x@ == v
                    && final(buf).position() == old(buf).position() + n,
                Err(e) => r matches Err(f) && f == e,
            },
    {
        let ghost s = buf.unread();
        let request_context = match SliceU8::parse(buf) {
            Ok(v) => v.0,
            Err(_) => {
                return Err(TlsError::DecodeError);
            },
        };
        assert(buf.unread() =~= s.skip(1 + request_context@.len() as int));
        let raw_entries = match parse_opaque_u24(buf) {
            Ok(v) => v,
            Err(_) => {
                return Err(TlsError::DecodeError);
            },
        };
        let mut entries = ParseBuffer::new(raw_entries);
        assert(entries.unread() =~= raw_entries@);
        match ZerocopyList::<CertificateEntryRef<'a>>::parse(&mut entries) {
            Ok(_) => Ok(CertificateRef { request_context, raw_entries }),
            Err(_) => Err(TlsError::DecodeError),
        }
    }

    /// A cursor over the entries of the chain, first to last.
    pub fn entries(&self) -> (r: ListIter<'a, CertificateEntryRef<'a>>)
        ensures
            r@ == spec_entries(self@.1),
    {
        ZerocopyList::<'a, CertificateEntryRef<'a>>(
            self.raw_entries,
            core::marker::PhantomData,
        ).iter()
    }

    /// Writes the request context behind a one-byte length, then the entries
    /// behind a three-byte length.
    pub fn encode(&self, buf: &mut CryptoBuffer) -> (r: Result<(), TlsError>)
        ensures
            encoded(*old(buf), *final(buf), r, self.encodable(), self.wire()),
    {
        let mark = buf.len();
        match SliceU8(self.request_context).encode(buf) {
            Ok(_) => {},
            Err(e) => {
                return Err(e);
            },
        }
        match encode_opaque_u24(self.raw_entries, buf) {
            Ok(_) => {
                assert(buf@ =~= old(buf)@ + self.wire());
                Ok(())
            },
            Err(e) => {
                buf.truncate(mark);
                assert(buf@ =~= old(buf)@);
                Err(e)
            },
        }
    }
}

impl<'a> Encode for CertificateRef<'a> {
    open spec fn wire(&self) -> Seq<u8> {
        SliceU8(self.request_context).wire() + wire_opaque_u24(self.raw_entries@)
    }

    open spec fn encodable(&self) -> bool {
        self.request_context@.len() <= 0xff && self.raw_entries@.len() <= 0xff_ffff
    }

    fn encode(self, buf: &mut CryptoBuffer) -> (r: Result<(), TlsError>) {
        CertificateRef::encode(&self, buf)
    }
}

/// Parsing what was written for a Certificate message whose entries are
/// entries from first to last gives the message back, and writing a message
/// that was parsed gives the bytes it was parsed from.
pub proof fn lemma_certificate_round_trip(x: CertificateRef, s: Seq<u8>, rest: Seq<u8>)
    ensures
        x.encodable() && items_error::<CertificateEntryRef>(x.raw_entries@) is None
            ==> spec_parse_certificate(x.wire() + rest) == Ok::<_, TlsError>((x@, x.wire().len())),
        match spec_parse_certificate(s) {
            Ok(p) => x@ == p.0 ==> x.encodable() && p.1 <= s.len() && x.wire() == s.take(
                p.1 as int,
            ),
            Err(_) => true,
        },
{
    if x.encodable() && items_error::<CertificateEntryRef>(x.raw_entries@) is None {
        lemma_certificate_parse_of_wire(x, rest);
    }
    if spec_parse_certificate(s) is Ok {
        let p = spec_parse_certificate(s)->Ok_0;
        if x@ == p.0 {
            lemma_certificate_wire_of_parsed(x, s);
        }
    }
}

/// Parsing what was written for a Certificate message whose entries are
/// entries from first to last gives the message back.
proof fn lemma_certificate_parse_of_wire(x: CertificateRef, rest: Seq<u8>)
    requires
        x.encodable(),
        items_error::<CertificateEntryRef>(x.raw_entries@) is None,
    ensures
        spec_parse_certificate(x.wire() + rest) == Ok::<_, TlsError>((x@, x.wire().len())),
{
    let context = SliceU8(x.request_context);
    let head = context.wire();
    let entries = wire_opaque_u24(x.raw_entries@);
    let tail = entries + rest;
    let w = x.wire() + rest;
    assert(w == head + tail) by {
        assert(w =~= head + tail);
    }
    assert(SliceU8::spec_parse(w) == Ok::<_, ParseError>((x.request_context@, head.len()))) by {
        SliceU8::lemma_parse_of_wire(context, tail);
    }
    assert(w.skip(head.len() as int) == tail) by {
        assert((head + tail).skip(head.len() as int) =~= tail);
    }
    assert(spec_parse_opaque_u24(tail) == Ok::<_, ParseError>(
        (x.raw_entries@, 3 + x.raw_entries@.len()),
    )) by {
        lemma_parse_of_wire_opaque_u24(x.raw_entries@, rest);
    }
    assert(entries.len() == 3 + x.raw_entries@.len()) by {
        crate::big_endian::lemma_u24_read_of_written(x.raw_entries@.len() as u32, rest);
    }
}

/// Writing a Certificate message that was parsed from `s` gives the bytes
/// it was parsed from.
proof fn lemma_certificate_wire_of_parsed(x: CertificateRef, s: Seq<u8>)
    requires
        spec_parse_certificate(s) is Ok,
        x@ == spec_parse_certificate(s)->Ok_0.0,
    ensures
        x.encodable(),
        spec_parse_certificate(s)->Ok_0.1 <= s.len(),
        x.wire() == s.take(spec_parse_certificate(s)->Ok_0.1 as int),
{
    let context = SliceU8(x.request_context);
    let n = 1 + s[0] as int;
    assert(context.encodable() && context.wire() == s.take(n)) by {
        SliceU8::lemma_wire_of_parsed(s, context);
    }
    let m = spec_parse_opaque_u24(s.skip(n))->Ok_0.1 as int;
    assert(x.raw_entries@.len() <= 0xff_ffff && m <= s.skip(n).len() && wire_opaque_u24(
        x.raw_entries@,
    ) == s.skip(n).take(m)) by {
        lemma_wire_of_parsed_opaque_u24(s.skip(n));
    }
    assert(s.take(n) + s.skip(n).take(m) =~= s.take(n + m));
}

/// The extensions of an entry of a certificate chain.
pub fn entry_extensions<'a>(entry: &CertificateEntryRef<'a>) -> (r: Result<
    heapless::Vec<Extension<'a>, 8>,
    TlsError,
>)
    ensures
        match spec_parse_extensions(
            entry.extensions@,
            MessageKind::Certificate,
            ENTRY_EXTENSIONS as nat,
        ) {
            Ok(exts) => r matches Ok(v) && views(held(v)) == exts,
            Err(e) => r matches Err(f) && f == e,
        },
{
    parse_extensions(entry.extensions, MessageKind::Certificate, ENTRY_EXTENSIONS)
}

} // verus!

//! The CertificateVerify message: a signature over the transcript.

use vstd::prelude::*;
use crate::TlsError;
use crate::buffer::CryptoBuffer;
use crate::extensions::extension_data::signature_algorithms::SignatureScheme;
use crate::parse_buffer::ParseBuffer;
use crate::parse_encode::{
    encode_opaque_u16, encoded, lemma_parse_of_wire_opaque_u16, lemma_wire_of_parsed_opaque_u16,
    parse_opaque_u16, spec_parse_opaque_u16, wire_opaque_u16, Encode, Parse, WireFormat,
};

verus! {

/// A CertificateVerify message: the scheme of the signature and the
/// signature. Its view is the pair of the scheme and the signature's bytes.
#[derive(Debug, Clone, Copy, PartialEq, Eq)]
pub struct CertificateVerify<'a> {
    pub signature_scheme: SignatureScheme,
    pub signature: &'a [u8],
}

/// A CertificateVerify message as it is received.
pub type CertificateVerifyRef<'a> = CertificateVerify<'a>;

impl<'a> View for CertificateVerify<'a> {
    type V = (SignatureScheme, Seq<u8>);

    open spec fn view(&self) -> (SignatureScheme, Seq<u8>) {
        (self.signature_scheme, self.signature@)
    }
}

/// What stands at the front of `s` when the body of a CertificateVerify
/// message is expected: two bytes of scheme, then the signature behind a
/// two-byte length. What cannot be read is a decode error.
pub open spec fn spec_parse_certificate_verify(s: Seq<u8>) -> Result<
    ((SignatureScheme, Seq<u8>), nat),
    TlsError,
> {
    match SignatureScheme::spec_parse(s) {
        Ok((scheme, _)) => match spec_parse_opaque_u16(s.skip(2)) {
            Ok((signature, n)) => Ok(((scheme, signature), 2 + n)),
            Err(_) => Err(TlsError::DecodeError),
        },
        Err(_) => Err(TlsError::DecodeError),
    }
}

impl<'a> CertificateVerify<'a> {
    /// Reads the body of a CertificateVerify message.
    pub fn parse(buf: &mut ParseBuffer<'a>) -> (r: Result<Self, TlsError>)
        ensures
            old(buf).wf(),
            final(buf).wf(),
            final(buf).bytes() == old(buf).bytes(),
            match spec_parse_certificate_verify(old(buf).unread()) {
                Ok((v, n)) => r matches Ok(x) && x@ == v
                    && final(buf).position() == old(buf).position() + n,
                Err(e) => r matches Err(f) && f == e,
            },
    {
        let signature_scheme = match SignatureScheme::parse(buf) {
            Ok(scheme) => scheme,
            Err(_) => {
                return Err(TlsError::DecodeError);
            },
        };
        assert(buf.unread() =~= old(buf).unread().skip(2));
        match parse_opaque_u16(buf) {
            Ok(signature) => Ok(CertificateVerify { signature_scheme, signature }),
            Err(_) => Err(TlsError::DecodeError),
        }
    }

    /// Writes the scheme, then the signature behind a two-byte length.
    pub fn encode(&self, buf: &mut CryptoBuffer) -> (r: Result<(), TlsError>)
        ensures
            encoded(*old(buf), *final(buf), r, self.encodable(), self.wire()),
    {
        let mark = buf.len();
        match self.signature_scheme.encode(buf) {
            Ok(_) => {},
            Err(e) => {
                return Err(e);
            },
        }
        match encode_opaque_u16(self.signature, buf) {
            Ok(_) => {
                assert(buf@ =~= old(buf)@ + self.wire());
                Ok(())
            },
            Err(e) => {
                buf.truncate(mark);
                assert(buf@ =~= old(buf)@);
                Err(e)
            },
        }
    }
}

impl<'a> Encode for CertificateVerify<'a> {
    open spec fn wire(&self) -> Seq<u8> {
        self.signature_scheme.wire() + wire_opaque_u16(self.signature@)
    }

    open spec fn encodable(&self) -> bool {
        self.signature@.len() <= 0xffff
    }

    fn encode(self, buf: &mut CryptoBuffer) -> (r: Result<(), TlsError>) {
        CertificateVerify::encode(&self, buf)
    }
}

/// Parsing what was written for a CertificateVerify message gives the
/// message back, and writing a message that was parsed gives the bytes it
/// was parsed from.
pub proof fn lemma_certificate_verify_round_trip(x: CertificateVerify, s: Seq<u8>, rest: Seq<u8>)
    ensures
        x.encodable() ==> spec_parse_certificate_verify(x.wire() + rest) == Ok::<_, TlsError>(
            (x@, x.wire().len()),
        ),
        match spec_parse_certificate_verify(s) {
            Ok(p) => p.0 == x@ ==> x.encodable() && p.1 <= s.len() && x.wire() == s.take(
                p.1 as int,
            ),
            Err(_) => true,
        },
{
    if x.encodable() {
        let w = x.wire() + rest;
        let tail = wire_opaque_u16(x.signature@) + rest;
        assert(w =~= x.signature_scheme.wire() + tail);
        SignatureScheme::lemma_parse_of_wire(x.signature_scheme, tail);
        assert(w.skip(2) =~= tail);
        lemma_parse_of_wire_opaque_u16(x.signature@, rest);
    }
    if spec_parse_certificate_verify(s) is Ok {
        let p = spec_parse_certificate_verify(s)->Ok_0;
        if p.0 == x@ {
            SignatureScheme::lemma_wire_of_parsed(s, x.signature_scheme);
            lemma_wire_of_parsed_opaque_u16(s.skip(2));
            let n = spec_parse_opaque_u16(s.skip(2))->Ok_0.1;
            assert(s.take(2) + s.skip(2).take(n as int) =~= s.take(2 + n as int));
        }
    }
}

} // verus!

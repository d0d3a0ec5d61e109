//! The CertificateRequest message: the server asks the client for a
//! certificate.

use vstd::prelude::*;
use crate::TlsError;
use crate::extensions::messages::{
    held, parse_vector, spec_parse_vector, Extension, ExtensionView, MessageKind,
    EXTENSION_CAPACITY,
};
use crate::parse_buffer::ParseBuffer;
use crate::parse_encode::{views, Parse, SliceU8};

verus! {

/// A CertificateRequest message. Its view is the pair of the request
/// context's bytes and the extensions.
pub struct CertificateRequestRef<'a> {
    pub request_context: &'a [u8],
    pub extensions: heapless::Vec<Extension<'a>, 8>,
}

impl<'a> View for CertificateRequestRef<'a> {
    type V = (Seq<u8>, Seq<ExtensionView>);

    open spec fn view(&self) -> (Seq<u8>, Seq<ExtensionView>) {
        (self.request_context@, views(held(self.extensions)))
    }
}

/// What stands at the front of `s` when the body of a CertificateRequest
/// message is expected: the request context behind a one-byte length, then
/// a block of extensions. A context cut short is a decode error; the
/// extensions fail with their own errors.
pub open spec fn spec_parse_certificate_request(s: Seq<u8>) -> Result<
    ((Seq<u8>, Seq<ExtensionView>), nat),
    TlsError,
> {
    match SliceU8::spec_parse(s) {
        Err(_) => Err(TlsError::DecodeError),
        Ok((context, n)) => match spec_parse_vector(
            s.skip(n as int),
            MessageKind::CertificateRequest,
            EXTENSION_CAPACITY as nat,
        ) {
            Err(e) => Err(e),
            Ok((extensions, k)) => Ok(((context, extensions), n + k)),
        },
    }
}

impl<'a> CertificateRequestRef<'a> {
    /// Reads the body of a CertificateRequest message.
    pub fn parse(buf: &mut ParseBuffer<'a>) -> (r: Result<Self, TlsError>)
        ensures
            old(buf).wf(),
            final(buf).wf(),
            final(buf).bytes() == old(buf).bytes(),
            match spec_parse_certificate_request(old(buf).unread()) {
                Ok((v, n)) => r matches Ok(x) && x@ == v
                    && final(buf).position() == old(buf).position() + n,
                Err(e) => r matches Err(f) && f == e,
            },
    {
        let ghost s = buf.unread();
        let request_context = match SliceU8::parse(buf) {
            Ok(v) => v.0,
            Err(_) => {
                return Err(TlsError::DecodeError);
            },
        };
        assert(buf.unread() =~= s.skip(1 + request_context@.len() as int));
        match parse_vector(buf, MessageKind::CertificateRequest, EXTENSION_CAPACITY) {
            Ok(extensions) => Ok(CertificateRequestRef { request_context, extensions }),
            Err(e) => Err(e),
        }
    }
}

} // verus!

//! The EncryptedExtensions message: the extensions that the server sends
//! under the handshake keys.

use vstd::prelude::*;
use crate::TlsError;
use crate::extensions::messages::{
    held, parse_vector, spec_parse_vector, Extension, ExtensionView, MessageKind,
    EXTENSION_CAPACITY,
};
use crate::parse_buffer::ParseBuffer;
use crate::parse_encode::views;

verus! {

/// An EncryptedExtensions message. Its view is its extensions.
pub struct EncryptedExtensions<'a> {
    pub extensions: heapless::Vec<Extension<'a>, 8>,
}

impl<'a> View for EncryptedExtensions<'a> {
    type V = Seq<ExtensionView>;

    open spec fn view(&self) -> Seq<ExtensionView> {
        views(held(self.extensions))
    }
}

/// What stands at the front of `s` when the body of an EncryptedExtensions
/// message is expected: a block of extensions.
pub open spec fn spec_parse_encrypted_extensions(s: Seq<u8>) -> Result<
    (Seq<ExtensionView>, nat),
    TlsError,
> {
    spec_parse_vector(s, MessageKind::EncryptedExtensions, EXTENSION_CAPACITY as nat)
}

impl<'a> EncryptedExtensions<'a> {
    /// Reads the body of an EncryptedExtensions message.
    pub fn parse(buf: &mut ParseBuffer<'a>) -> (r: Result<Self, TlsError>)
        ensures
            old(buf).wf(),
            final(buf).wf(),
            final(buf).bytes() == old(buf).bytes(),
            match spec_parse_encrypted_extensions(old(buf).unread()) {
                Ok((v, n)) => r matches Ok(x) && x@ == v
                    && final(buf).position() == old(buf).position() + n,
                Err(e) => r matches Err(f) && f == e,
            },
    {
        match parse_vector(buf, MessageKind::EncryptedExtensions, EXTENSION_CAPACITY) {
            Ok(extensions) => Ok(EncryptedExtensions { extensions }),
            Err(e) => Err(e),
        }
    }
}

} // verus!

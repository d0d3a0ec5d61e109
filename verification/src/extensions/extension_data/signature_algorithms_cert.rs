//! The `signature_algorithms_cert` extension: the signature schemes that a
//! peer accepts in certificates.

use vstd::prelude::*;
use crate::TlsError;
use crate::buffer::CryptoBuffer;
use crate::extensions::extension_data::signature_algorithms::SignatureScheme;
use crate::parse_buffer::{ParseBuffer, ParseError};
use crate::parse_encode::{
    encode_list_u16, list_encodable, parse_list_u16, spec_parse_list, wire_list, DynIterList,
    Encode, ListIter, Local, Parse, Remote, StorageType,
};

verus! {

/// The signature schemes that a peer accepts in certificates, behind a two-byte length.
pub struct SignatureAlgorithmsCert<'a, Location: StorageType<'a, SignatureScheme>>(
    pub Location::ListType,
);

impl<'a> View for SignatureAlgorithmsCert<'a, Remote> {
    type V = Seq<<SignatureScheme as View>::V>;

    /// The items of the list.
    open spec fn view(&self) -> Self::V {
        self.0@
    }
}

impl<'a> Parse<'a> for SignatureAlgorithmsCert<'a, Remote> {
    open spec fn spec_parse(s: Seq<u8>) -> Result<(Self::V, nat), ParseError> {
        spec_parse_list::<SignatureScheme>(s, 2)
    }

    fn parse(buf: &mut ParseBuffer<'a>) -> (r: Result<Self, ParseError>) {
        match parse_list_u16::<SignatureScheme>(buf) {
            Ok(list) => Ok(SignatureAlgorithmsCert(list)),
            Err(e) => Err(e),
        }
    }
}

impl<'a> Encode for SignatureAlgorithmsCert<'a, Local> {
    open spec fn wire(&self) -> Seq<u8> {
        wire_list(self.0.0@, 2)
    }

    open spec fn encodable(&self) -> bool {
        list_encodable(self.0.0@, 2)
    }

    fn encode(self, buf: &mut CryptoBuffer) -> (r: Result<(), TlsError>) {
        encode_list_u16(self.0, buf)
    }
}

impl<'a> SignatureAlgorithmsCert<'a, Local> {
    /// The list of the items of `items`.
    pub fn new(items: &'a [SignatureScheme]) -> (r: Self)
        ensures
            r.0.0@ == items@,
    {
        SignatureAlgorithmsCert(DynIterList::new(items))
    }
}

impl<'a> SignatureAlgorithmsCert<'a, Remote> {
    /// A cursor over the items, first to last.
    pub fn iter(&self) -> (r: ListIter<'a, SignatureScheme>)
        ensures
            r@ == self@,
    {
        self.0.iter()
    }

    /// The number of items.
    pub fn len(&self) -> (r: usize)
        ensures
            r == self@.len(),
    {
        self.0.len()
    }
}

} // verus!

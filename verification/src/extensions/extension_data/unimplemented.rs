//! The body of an extension that is carried without being interpreted.

use vstd::prelude::*;
use crate::TlsError;
use crate::buffer::CryptoBuffer;
use crate::parse_buffer::{ParseBuffer, ParseError};
use crate::parse_encode::{Encode, Parse};

verus! {

/// The bytes of an extension body, kept as they came.
#[derive(Debug, Clone, Copy, PartialEq, Eq)]
pub struct Unimplemented<'a> {
    pub data: &'a [u8],
}

impl<'a> View for Unimplemented<'a> {
    type V = Seq<u8>;

    open spec fn view(&self) -> Seq<u8> {
        self.data@
    }
}

impl<'a> Parse<'a> for Unimplemented<'a> {
    /// All of `s` is the body.
    open spec fn spec_parse(s: Seq<u8>) -> Result<(Seq<u8>, nat), ParseError> {
        Ok((s, s.len()))
    }

    fn parse(buf: &mut ParseBuffer<'a>) -> (r: Result<Self, ParseError>) {
        let n = buf.remaining();
        match buf.slice(n) {
            Ok(sub) => {
                assert(sub.bytes() =~= old(buf).unread());
                Ok(Unimplemented { data: sub.as_slice() })
            },
            Err(e) => Err(e),
        }
    }
}

impl<'a> Encode for Unimplemented<'a> {
    open spec fn wire(&self) -> Seq<u8> {
        self.data@
    }

    open spec fn encodable(&self) -> bool {
        true
    }

    fn encode(self, buf: &mut CryptoBuffer) -> (r: Result<(), TlsError>) {
        buf.extend_from_slice(self.data)
    }
}

/// An uninterpreted body is written as the bytes it was parsed from, and
/// parsing what was written for one gives it back.
pub proof fn lemma_unimplemented_round_trip(s: Seq<u8>, x: Unimplemented)
    ensures
        Unimplemented::spec_parse(x.wire()) == Ok::<_, ParseError>((x@, x.wire().len())),
        Unimplemented::spec_parse(s) matches Ok(p) && (p.0 == x@
            ==> x.wire() == s.take(p.1 as int)),
{
    assert(s.take(s.len() as int) =~= s);
}

} // verus!

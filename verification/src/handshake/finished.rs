//! The Finished message: a MAC over the transcript.

use vstd::prelude::*;
use crate::TlsError;
use crate::buffer::CryptoBuffer;
use crate::parse_buffer::ParseBuffer;
use crate::parse_encode::{encoded, Encode};
use crate::transcript::HASH_LEN;

verus! {

/// A Finished message. A message that was received also carries the hash of
/// the transcript as it stood before the message, against which its MAC is
/// verified.
#[derive(Debug, Clone, Copy, PartialEq, Eq)]
pub struct Finished {
    pub verify: [u8; 32],
    pub hash: Option<[u8; 32]>,
}

/// What the body of a Finished message holds when the header announces
/// `len` bytes: the 32 bytes of the MAC. Any other length, and a body cut
/// short, are decode errors.
pub open spec fn spec_parse_finished(s: Seq<u8>, len: u32) -> Result<Seq<u8>, TlsError> {
    if len != HASH_LEN || s.len() < HASH_LEN {
        Err(TlsError::DecodeError)
    } else {
        Ok(s.take(HASH_LEN as int))
    }
}

impl Finished {
    /// Reads the body of a Finished message whose header announces `len`
    /// bytes. The transcript hash is left open.
    pub fn parse(buf: &mut ParseBuffer, len: u32) -> (r: Result<Self, TlsError>)
        ensures
            old(buf).wf(),
            final(buf).wf(),
            final(buf).bytes() == old(buf).bytes(),
            match spec_parse_finished(old(buf).unread(), len) {
                Ok(v) => r matches Ok(x) && x.verify@ == v && x.hash is None
                    && final(buf).position() == old(buf).position() + HASH_LEN,
                Err(e) => r matches Err(f) && f == e,
            },
    {
        if len != 32 {
            let _ = buf.remaining();
            return Err(TlsError::DecodeError);
        }
        let sub = match buf.slice(HASH_LEN) {
            Ok(sub) => sub,
            Err(_) => {
                return Err(TlsError::DecodeError);
            },
        };
        let data = sub.as_slice();
        let mut verify: [u8; 32] = [0u8; 32];
        let mut i: usize = 0;
        while i < 32
            invariant
                i <= 32,
                data@.len() == 32,
                forall|k: int| 0 <= k < i ==> verify@[k] == data@[k],
            decreases 32 - i,
        {
            verify[i] = data[i];
            i = i + 1;
        }
        assert(verify@ =~= data@);
        Ok(Finished { verify, hash: None })
    }

    /// Writes the MAC.
    pub fn encode(&self, buf: &mut CryptoBuffer) -> (r: Result<(), TlsError>)
        ensures
            encoded(*old(buf), *final(buf), r, true, self.verify@),
    {
        buf.extend_from_slice(&self.verify)
    }
}

impl Encode for Finished {
    open spec fn wire(&self) -> Seq<u8> {
        self.verify@
    }

    open spec fn encodable(&self) -> bool {
        true
    }

    fn encode(self, buf: &mut CryptoBuffer) -> (r: Result<(), TlsError>) {
        Finished::encode(&self, buf)
    }
}

/// Parsing what was written for a Finished message gives its MAC back, and
/// writing a MAC that was parsed gives the bytes it was parsed from.
pub proof fn lemma_finished_round_trip(x: Finished, s: Seq<u8>, len: u32)
    ensures
        spec_parse_finished(x.wire(), HASH_LEN as u32) == Ok::<_, TlsError>(x.verify@),
        spec_parse_finished(s, len) matches Ok(v) ==> (x.verify@ == v ==> x.wire() == s.take(
            HASH_LEN as int,
        )),
{
    assert(x.verify@.take(HASH_LEN as int) =~= x.verify@);
}

} // verus!

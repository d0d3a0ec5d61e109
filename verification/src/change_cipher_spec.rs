//! The change_cipher_spec record that middleboxes expect to see. It carries
//! nothing and is dropped.

use vstd::prelude::*;
use crate::TlsError;
use crate::alert::{AlertDescription, AlertLevel};

verus! {

/// A change_cipher_spec message.
#[derive(Debug, Clone, Copy, PartialEq, Eq, Structural)]
pub struct ChangeCipherSpec {}

impl ChangeCipherSpec {
    /// A change_cipher_spec message.
    pub fn new() -> Self {
        ChangeCipherSpec {  }
    }

    /// Accepts the payload of a change_cipher_spec record, which must be the
    /// single byte 1. Anything else is an unexpected message and fatal.
    pub fn read(data: &[u8]) -> (r: Result<Self, TlsError>)
        ensures
            r is Ok <==> data@ == seq![1u8],
            r matches Err(e) ==> e == TlsError::AbortHandshake(
                AlertLevel::Fatal,
                AlertDescription::UnexpectedMessage,
            ),
    {
        if data.len() == 1 && data[0] == 1 {
            assert(data@ =~= seq![1u8]);
            Ok(ChangeCipherSpec {  })
        } else {
            Err(TlsError::AbortHandshake(AlertLevel::Fatal, AlertDescription::UnexpectedMessage))
        }
    }
}

} // verus!

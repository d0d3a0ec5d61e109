//! Core of a TLS 1.3 stack for constrained environments: the zero-copy wire
//! codec, the record framing and the handshake messages, with every function
//! specified over byte sequences and verified against that specification.

use vstd::prelude::*;
use crate::alert::{AlertDescription, AlertLevel};

pub mod alert;
pub mod application_data;
pub mod big_endian;
pub mod buffer;
pub mod change_cipher_spec;
pub mod cipher_suites;
pub mod config;
pub mod content_types;
pub mod crypto_engine;
pub mod extensions;
pub mod handshake;
pub mod key_schedule;
pub mod parse_buffer;
pub mod parse_encode;
pub mod record;
pub mod state;
pub mod storage_location;
pub mod transcript;

verus! {

/// The errors that the stack reports to its caller.
#[derive(Debug, Clone, Copy, PartialEq, Eq, Structural)]
pub enum TlsError {
    /// A value did not fit the write buffer, or a length did not fit its prefix.
    EncodeError,
    /// Received bytes do not spell what the protocol expects at that place.
    DecodeError,
    /// A record header names no known content type.
    InvalidRecord,
    /// A handshake message header is cut short or names no known type.
    InvalidHandshake,
    /// A cipher suite field is cut short, odd in length or names no known suite.
    InvalidCipherSuite,
    /// The legacy session id does not fit the message.
    InvalidSessionIdLength,
    /// The length of an extension block is cut short.
    InvalidExtensionsLength,
    /// An extension of a type this stack does not know; the block parser skips it.
    UnknownExtensionType,
    /// A message or record that the stack recognises and does not handle.
    Unimplemented,
    /// The handshake must end with this alert.
    AbortHandshake(AlertLevel, AlertDescription),
}

} // verus!

//! The NewSessionTicket message: a ticket for resuming the session later.

use vstd::prelude::*;
use crate::TlsError;
use crate::big_endian::u32_from_be;
use crate::extensions::messages::{
    held, parse_vector, spec_parse_vector, Extension, ExtensionView, MessageKind,
};
use crate::parse_buffer::ParseBuffer;
use crate::parse_encode::{parse_opaque_u16, spec_parse_opaque_u16, views, Parse, SliceU8};

verus! {

/// A NewSessionTicket message.
pub struct NewSessionTicket<'a> {
    pub lifetime: u32,
    pub age_add: u32,
    pub nonce: &'a [u8],
    pub ticket: &'a [u8],
    pub extensions: heapless::Vec<Extension<'a>, 8>,
}

/// What a NewSessionTicket message holds, as values.
pub struct NewSessionTicketView {
    pub lifetime: u32,
    pub age_add: u32,
    pub nonce: Seq<u8>,
    pub ticket: Seq<u8>,
    pub extensions: Seq<ExtensionView>,
}

impl<'a> View for NewSessionTicket<'a> {
    type V = NewSessionTicketView;

    open spec fn view(&self) -> NewSessionTicketView {
        NewSessionTicketView {
            lifetime: self.lifetime,
            age_add: self.age_add,
            nonce: self.nonce@,
            ticket: self.ticket@,
            extensions: views(held(self.extensions)),
        }
    }
}

/// The number of extensions that a NewSessionTicket message may carry.
pub const TICKET_EXTENSIONS: usize = 1;

/// What stands at the front of `s` when the body of a NewSessionTicket
/// message is expected: four bytes of lifetime, four bytes of age offset,
/// the nonce behind a one-byte length, the ticket behind a two-byte length,
/// and a block of extensions. What is cut short is a decode error; the
/// extensions fail with their own errors.
pub open spec fn spec_parse_new_session_ticket(s: Seq<u8>) -> Result<
    (NewSessionTicketView, nat),
    TlsError,
> {
    if s.len() < 8 {
        Err(TlsError::DecodeError)
    } else {
        match SliceU8::spec_parse(s.skip(8)) {
            Err(_) => Err(TlsError::DecodeError),
            Ok((nonce, n)) => match spec_parse_opaque_u16(s.skip(8 + n as int)) {
                Err(_) => Err(TlsError::DecodeError),
                Ok((ticket, t)) => match spec_parse_vector(
                    s.skip(8 + n as int + t as int),
                    MessageKind::NewSessionTicket,
                    TICKET_EXTENSIONS as nat,
                ) {
                    Err(e) => Err(e),
                    Ok((extensions, k)) => Ok(
                        (
                            NewSessionTicketView {
                                lifetime: u32_from_be(s),
                                age_add: u32_from_be(s.skip(4)),
                                nonce,
                                ticket,
                                extensions,
                            },
                            8 + n + t + k,
                        ),
                    ),
                },
            },
        }
    }
}

impl<'a> NewSessionTicket<'a> {
    /// Reads the body of a NewSessionTicket message.
    pub fn parse(buf: &mut ParseBuffer<'a>) -> (r: Result<Self, TlsError>)
        ensures
            old(buf).wf(),
            final(buf).wf(),
            final(buf).bytes() == old(buf).bytes(),
            match spec_parse_new_session_ticket(old(buf).unread()) {
                Ok((v, n)) => r matches Ok(x) && x@ == v
                    && final(buf).position() == old(buf).position() + n,
                Err(e) => r matches Err(f) && f == e,
            },
    {
        let ghost s = buf.unread();
        let lifetime = match buf.read_u32() {
            Ok(v) => v,
            Err(_) => {
                return Err(TlsError::DecodeError);
            },
        };
        assert(buf.unread() =~= s.skip(4));
        let age_add = match buf.read_u32() {
            Ok(v) => v,
            Err(_) => {
                return Err(TlsError::DecodeError);
            },
        };
        assert(buf.unread() =~= s.skip(8));
        let nonce = match SliceU8::parse(buf) {
            Ok(v) => v.0,
            Err(_) => {
                return Err(TlsError::DecodeError);
            },
        };
        let ghost n: int = 1 + nonce@.len() as int;
        assert(buf.unread() =~= s.skip(8 + n));
        let ticket = match parse_opaque_u16(buf) {
            Ok(v) => v,
            Err(_) => {
                return Err(TlsError::DecodeError);
            },
        };
        let ghost t: int = 2 + ticket@.len() as int;
        assert(buf.unread() =~= s.skip(8 + n + t));
        match parse_vector(buf, MessageKind::NewSessionTicket, TICKET_EXTENSIONS) {
            Ok(extensions) => Ok(NewSessionTicket { lifetime, age_add, nonce, ticket, extensions }),
            Err(e) => Err(e),
        }
    }
}

} // verus!

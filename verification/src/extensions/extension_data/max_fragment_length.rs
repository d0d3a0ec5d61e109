//! The `max_fragment_length` extension: a smaller limit on the plaintext of
//! a record.

use vstd::prelude::*;
use crate::TlsError;
use crate::buffer::CryptoBuffer;
use crate::parse_buffer::{ParseBuffer, ParseError};
use crate::parse_encode::{Encode, Parse, WireFormat};

verus! {

/// The largest plaintext fragment that a peer asks for.
#[derive(Debug, Clone, Copy, PartialEq, Eq, Structural)]
pub enum MaxFragmentLength {
    /// 512 bytes.
    Bits9,
    /// 1024 bytes.
    Bits10,
    /// 2048 bytes.
    Bits11,
    /// 4096 bytes.
    Bits12,
}

impl MaxFragmentLength {
    /// The number that stands for the limit on the wire.
    pub open spec fn code(self) -> u8 {
        match self {
            MaxFragmentLength::Bits9 => 1,
            MaxFragmentLength::Bits10 => 2,
            MaxFragmentLength::Bits11 => 3,
            MaxFragmentLength::Bits12 => 4,
        }
    }

    /// The limit that `code` stands for, if it stands for one.
    pub open spec fn spec_of(code: u8) -> Option<MaxFragmentLength> {
        if code == 1 {
            Some(MaxFragmentLength::Bits9)
        } else if code == 2 {
            Some(MaxFragmentLength::Bits10)
        } else if code == 3 {
            Some(MaxFragmentLength::Bits11)
        } else if code == 4 {
            Some(MaxFragmentLength::Bits12)
        } else {
            None
        }
    }

    /// The limit that `code` stands for, if it stands for one.
    pub fn of(code: u8) -> (r: Option<MaxFragmentLength>)
        ensures
            r == Self::spec_of(code),
    {
        match code {
            1 => Some(MaxFragmentLength::Bits9),
            2 => Some(MaxFragmentLength::Bits10),
            3 => Some(MaxFragmentLength::Bits11),
            4 => Some(MaxFragmentLength::Bits12),
            _ => None,
        }
    }

    /// The number that stands for the limit on the wire.
    pub fn as_u8(self) -> (r: u8)
        ensures
            r == self.code(),
    {
        match self {
            MaxFragmentLength::Bits9 => 1,
            MaxFragmentLength::Bits10 => 2,
            MaxFragmentLength::Bits11 => 3,
            MaxFragmentLength::Bits12 => 4,
        }
    }

    /// The number of a value stands for that value and for no other.
    pub proof fn lemma_code_of(v: MaxFragmentLength, code: u8)
        ensures
            Self::spec_of(v.code()) == Some(v),
            Self::spec_of(code) matches Some(w) ==> w.code() == code,
    {
    }
}

impl View for MaxFragmentLength {
    type V = MaxFragmentLength;

    open spec fn view(&self) -> MaxFragmentLength {
        *self
    }
}

impl<'a> Parse<'a> for MaxFragmentLength {
    open spec fn spec_parse(s: Seq<u8>) -> Result<(MaxFragmentLength, nat), ParseError> {
        if s.len() < 1 {
            Err(ParseError::InsufficientSpace)
        } else {
            match Self::spec_of(s[0]) {
                Some(v) => Ok((v, 1nat)),
                None => Err(ParseError::InvalidData),
            }
        }
    }

    fn parse(buf: &mut ParseBuffer<'a>) -> (r: Result<Self, ParseError>) {
        match buf.read_u8() {
            Ok(code) => match Self::of(code) {
                Some(v) => Ok(v),
                None => Err(ParseError::InvalidData),
            },
            Err(e) => Err(e),
        }
    }
}

impl Encode for MaxFragmentLength {
    open spec fn wire(&self) -> Seq<u8> {
        seq![self.code()]
    }

    open spec fn encodable(&self) -> bool {
        true
    }

    fn encode(self, buf: &mut CryptoBuffer) -> (r: Result<(), TlsError>) {
        buf.push(self.as_u8())
    }
}

impl<'a> WireFormat<'a> for MaxFragmentLength {
    open spec fn well_formed(&self) -> bool {
        true
    }

    proof fn lemma_parse_of_wire(x: Self, rest: Seq<u8>) {
        assert((x.wire() + rest)[0] == x.code());
    }

    proof fn lemma_wire_of_parsed(s: Seq<u8>, x: Self) {
        assert(x.wire() =~= s.take(1));
    }
}

} // verus!

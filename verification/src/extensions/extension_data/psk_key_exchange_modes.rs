//! The `psk_key_exchange_modes` extension: how a client is willing to use a
//! pre-shared key.

use vstd::prelude::*;
use crate::TlsError;
use crate::buffer::CryptoBuffer;
use crate::parse_buffer::{ParseBuffer, ParseError};
use crate::parse_encode::{
    encode_list_u8, list_encodable, parse_list_u8, spec_parse_list, wire_list, DynIterList, Encode,
    ListIter, Local, Parse, Remote, StorageType, WireFormat,
};

verus! {

/// A way to establish keys from a pre-shared key.
#[derive(Debug, Clone, Copy, PartialEq, Eq, Structural)]
pub enum PskKeyExchangeMode {
    /// The pre-shared key alone.
    PskKe,
    /// The pre-shared key together with a Diffie-Hellman exchange.
    PskDheKe,
}

impl PskKeyExchangeMode {
    /// The number that stands for the mode on the wire.
    pub open spec fn code(self) -> u8 {
        match self {
            PskKeyExchangeMode::PskKe => 0,
            PskKeyExchangeMode::PskDheKe => 1,
        }
    }

    /// The mode that `code` stands for, if it stands for one.
    pub open spec fn spec_of(code: u8) -> Option<PskKeyExchangeMode> {
        if code == 0 {
            Some(PskKeyExchangeMode::PskKe)
        } else if code == 1 {
            Some(PskKeyExchangeMode::PskDheKe)
        } else {
            None
        }
    }

    /// The mode that `code` stands for, if it stands for one.
    pub fn of(code: u8) -> (r: Option<PskKeyExchangeMode>)
        ensures
            r == Self::spec_of(code),
    {
        match code {
            0 => Some(PskKeyExchangeMode::PskKe),
            1 => Some(PskKeyExchangeMode::PskDheKe),
            _ => None,
        }
    }

    /// The number that stands for the mode on the wire.
    pub fn as_u8(self) -> (r: u8)
        ensures
            r == self.code(),
    {
        match self {
            PskKeyExchangeMode::PskKe => 0,
            PskKeyExchangeMode::PskDheKe => 1,
        }
    }

    /// The number of a value stands for that value and for no other.
    pub proof fn lemma_code_of(v: PskKeyExchangeMode, code: u8)
        ensures
            Self::spec_of(v.code()) == Some(v),
            Self::spec_of(code) matches Some(w) ==> w.code() == code,
    {
    }
}

impl View for PskKeyExchangeMode {
    type V = PskKeyExchangeMode;

    open spec fn view(&self) -> PskKeyExchangeMode {
        *self
    }
}

impl<'a> Parse<'a> for PskKeyExchangeMode {
    open spec fn spec_parse(s: Seq<u8>) -> Result<(PskKeyExchangeMode, nat), ParseError> {
        if s.len() < 1 {
            Err(ParseError::InsufficientSpace)
        } else {
            match Self::spec_of(s[0]) {
                Some(v) => Ok((v, 1nat)),
                None => Err(ParseError::InvalidData),
            }
        }
    }

    fn parse(buf: &mut ParseBuffer<'a>) -> (r: Result<Self, ParseError>) {
        match buf.read_u8() {
            Ok(code) => match Self::of(code) {
                Some(v) => Ok(v),
                None => Err(ParseError::InvalidData),
            },
            Err(e) => Err(e),
        }
    }
}

impl Encode for PskKeyExchangeMode {
    open spec fn wire(&self) -> Seq<u8> {
        seq![self.code()]
    }

    open spec fn encodable(&self) -> bool {
        true
    }

    fn encode(self, buf: &mut CryptoBuffer) -> (r: Result<(), TlsError>) {
        buf.push(self.as_u8())
    }
}

impl<'a> WireFormat<'a> for PskKeyExchangeMode {
    open spec fn well_formed(&self) -> bool {
        true
    }

    proof fn lemma_parse_of_wire(x: Self, rest: Seq<u8>) {
        assert((x.wire() + rest)[0] == x.code());
    }

    proof fn lemma_wire_of_parsed(s: Seq<u8>, x: Self) {
        assert(x.wire() =~= s.take(1));
    }
}

/// The modes that a client supports, behind a one-byte length.
pub struct PskKeyExchangeModes<'a, Location: StorageType<'a, PskKeyExchangeMode>>(
    pub Location::ListType,
);

impl<'a> View for PskKeyExchangeModes<'a, Remote> {
    type V = Seq<<PskKeyExchangeMode as View>::V>;

    /// The items of the list.
    open spec fn view(&self) -> Self::V {
        self.0@
    }
}

impl<'a> Parse<'a> for PskKeyExchangeModes<'a, Remote> {
    open spec fn spec_parse(s: Seq<u8>) -> Result<(Self::V, nat), ParseError> {
        spec_parse_list::<PskKeyExchangeMode>(s, 1)
    }

    fn parse(buf: &mut ParseBuffer<'a>) -> (r: Result<Self, ParseError>) {
        match parse_list_u8::<PskKeyExchangeMode>(buf) {
            Ok(list) => Ok(PskKeyExchangeModes(list)),
            Err(e) => Err(e),
        }
    }
}

impl<'a> Encode for PskKeyExchangeModes<'a, Local> {
    open spec fn wire(&self) -> Seq<u8> {
        wire_list(self.0.0@, 1)
    }

    open spec fn encodable(&self) -> bool {
        list_encodable(self.0.0@, 1)
    }

    fn encode(self, buf: &mut CryptoBuffer) -> (r: Result<(), TlsError>) {
        encode_list_u8(self.0, buf)
    }
}

impl<'a> PskKeyExchangeModes<'a, Local> {
    /// The list of the items of `items`.
    pub fn new(items: &'a [PskKeyExchangeMode]) -> (r: Self)
        ensures
            r.0.0@ == items@,
    {
        PskKeyExchangeModes(DynIterList::new(items))
    }
}

impl<'a> PskKeyExchangeModes<'a, Remote> {
    /// A cursor over the items, first to last.
    pub fn iter(&self) -> (r: ListIter<'a, PskKeyExchangeMode>)
        ensures
            r@ == self@,
    {
        self.0.iter()
    }

    /// The number of items.
    pub fn len(&self) -> (r: usize)
        ensures
            r == self@.len(),
    {
        self.0.len()
    }
}

} // verus!

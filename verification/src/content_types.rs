//! The content type that opens every record.

use vstd::prelude::*;

verus! {

/// The content type of a record.
#[derive(Debug, Clone, Copy, PartialEq, Eq, Structural)]
pub enum ContentType {
    Invalid,
    ChangeCipherSpec,
    Alert,
    Handshake,
    ApplicationData,
}

impl ContentType {
    /// The byte that stands for this content type on the wire.
    pub open spec fn code(self) -> u8 {
        match self {
            ContentType::Invalid => 0,
            ContentType::ChangeCipherSpec => 20,
            ContentType::Alert => 21,
            ContentType::Handshake => 22,
            ContentType::ApplicationData => 23,
        }
    }

    /// The content type that `num` stands for, if any.
    pub open spec fn spec_of(num: u8) -> Option<ContentType> {
        if num == 0 {
            Some(ContentType::Invalid)
        } else if num == 20 {
            Some(ContentType::ChangeCipherSpec)
        } else if num == 21 {
            Some(ContentType::Alert)
        } else if num == 22 {
            Some(ContentType::Handshake)
        } else if num == 23 {
            Some(ContentType::ApplicationData)
        } else {
            None
        }
    }

    /// The content type that `num` stands for, if any.
    pub fn of(num: u8) -> (r: Option<ContentType>)
        ensures
            r == Self::spec_of(num),
    {
        match num {
            0 => Some(ContentType::Invalid),
            20 => Some(ContentType::ChangeCipherSpec),
            21 => Some(ContentType::Alert),
            22 => Some(ContentType::Handshake),
            23 => Some(ContentType::ApplicationData),
            _ => None,
        }
    }

    /// The byte that stands for this content type on the wire.
    pub fn as_u8(self) -> (r: u8)
        ensures
            r == self.code(),
    {
        match self {
            ContentType::Invalid => 0,
            ContentType::ChangeCipherSpec => 20,
            ContentType::Alert => 21,
            ContentType::Handshake => 22,
            ContentType::ApplicationData => 23,
        }
    }

    /// A content type is found again from its byte, and a byte that names a
    /// content type is the byte of that type.
    pub proof fn lemma_code_of(t: ContentType, num: u8)
        ensures
            Self::spec_of(t.code()) == Some(t),
            Self::spec_of(num) matches Some(u) ==> u.code() == num,
    {
    }
}

} // verus!

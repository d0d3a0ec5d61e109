//! Alerts: the two-byte messages that warn the peer or end the connection.

use vstd::prelude::*;
use crate::TlsError;
use crate::buffer::CryptoBuffer;
use crate::parse_buffer::ParseBuffer;
use crate::parse_encode::{encoded, Encode};

verus! {

/// How severe an alert is.
#[derive(Debug, Clone, Copy, PartialEq, Eq, Structural)]
pub enum AlertLevel {
    Warning,
    Fatal,
}

impl AlertLevel {
    /// The number that stands for the level on the wire.
    pub open spec fn code(self) -> u8 {
        match self {
            AlertLevel::Warning => 1,
            AlertLevel::Fatal => 2,
        }
    }

    /// The level that `code` stands for, if it stands for one.
    pub open spec fn spec_of(code: u8) -> Option<AlertLevel> {
        if code == 1 {
            Some(AlertLevel::Warning)
        } else if code == 2 {
            Some(AlertLevel::Fatal)
        } else {
            None
        }
    }

    /// The level that `code` stands for, if it stands for one.
    pub fn of(code: u8) -> (r: Option<AlertLevel>)
        ensures
            r == Self::spec_of(code),
    {
        match code {
            1 => Some(AlertLevel::Warning),
            2 => Some(AlertLevel::Fatal),
            _ => None,
        }
    }

    /// The number that stands for the level on the wire.
    pub fn as_u8(self) -> (r: u8)
        ensures
            r == self.code(),
    {
        match self {
            AlertLevel::Warning => 1,
            AlertLevel::Fatal => 2,
        }
    }

    /// The number of a value stands for that value and for no other.
    pub proof fn lemma_code_of(v: AlertLevel, code: u8)
        ensures
            Self::spec_of(v.code()) == Some(v),
            Self::spec_of(code) matches Some(w) ==> w.code() == code,
    {
    }
}

/// What an alert reports.
#[derive(Debug, Clone, Copy, PartialEq, Eq, Structural)]
pub enum AlertDescription {
    CloseNotify,
    UnexpectedMessage,
    BadRecordMac,
    RecordOverflow,
    HandshakeFailure,
    BadCertificate,
    UnsupportedCertificate,
    CertificateRevoked,
    CertificateExpired,
    CertificateUnknown,
    IllegalParameter,
    UnknownCa,
    AccessDenied,
    DecodeError,
    DecryptError,
    ProtocolVersion,
    InsufficientSecurity,
    InternalError,
    InappropriateFallback,
    UserCanceled,
    MissingExtension,
    UnsupportedExtension,
    UnrecognizedName,
    BadCertificateStatusResponse,
    UnknownPskIdentity,
    CertificateRequired,
    NoApplicationProtocol,
}

impl AlertDescription {
    /// The number that stands for the description on the wire.
    pub open spec fn code(self) -> u8 {
        match self {
            AlertDescription::CloseNotify => 0,
            AlertDescription::UnexpectedMessage => 10,
            AlertDescription::BadRecordMac => 20,
            AlertDescription::RecordOverflow => 22,
            AlertDescription::HandshakeFailure => 40,
            AlertDescription::BadCertificate => 42,
            AlertDescription::UnsupportedCertificate => 43,
            AlertDescription::CertificateRevoked => 44,
            AlertDescription::CertificateExpired => 45,
            AlertDescription::CertificateUnknown => 46,
            AlertDescription::IllegalParameter => 47,
            AlertDescription::UnknownCa => 48,
            AlertDescription::AccessDenied => 49,
            AlertDescription::DecodeError => 50,
            AlertDescription::DecryptError => 51,
            AlertDescription::ProtocolVersion => 70,
            AlertDescription::InsufficientSecurity => 71,
            AlertDescription::InternalError => 80,
            AlertDescription::InappropriateFallback => 86,
            AlertDescription::UserCanceled => 90,
            AlertDescription::MissingExtension => 109,
            AlertDescription::UnsupportedExtension => 110,
            AlertDescription::UnrecognizedName => 112,
            AlertDescription::BadCertificateStatusResponse => 113,
            AlertDescription::UnknownPskIdentity => 115,
            AlertDescription::CertificateRequired => 116,
            AlertDescription::NoApplicationProtocol => 120,
        }
    }

    /// The description that `code` stands for, if it stands for one.
    pub open spec fn spec_of(code: u8) -> Option<AlertDescription> {
        if code == 0 {
            Some(AlertDescription::CloseNotify)
        } else if code == 10 {
            Some(AlertDescription::UnexpectedMessage)
        } else if code == 20 {
            Some(AlertDescription::BadRecordMac)
        } else if code == 22 {
            Some(AlertDescription::RecordOverflow)
        } else if code == 40 {
            Some(AlertDescription::HandshakeFailure)
        } else if code == 42 {
            Some(AlertDescription::BadCertificate)
        } else if code == 43 {
            Some(AlertDescription::UnsupportedCertificate)
        } else if code == 44 {
            Some(AlertDescription::CertificateRevoked)
        } else if code == 45 {
            Some(AlertDescription::CertificateExpired)
        } else if code == 46 {
            Some(AlertDescription::CertificateUnknown)
        } else if code == 47 {
            Some(AlertDescription::IllegalParameter)
        } else if code == 48 {
            Some(AlertDescription::UnknownCa)
        } else if code == 49 {
            Some(AlertDescription::AccessDenied)
        } else if code == 50 {
            Some(AlertDescription::DecodeError)
        } else if code == 51 {
            Some(AlertDescription::DecryptError)
        } else if code == 70 {
            Some(AlertDescription::ProtocolVersion)
        } else if code == 71 {
            Some(AlertDescription::InsufficientSecurity)
        } else if code == 80 {
            Some(AlertDescription::InternalError)
        } else if code == 86 {
            Some(AlertDescription::InappropriateFallback)
        } else if code == 90 {
            Some(AlertDescription::UserCanceled)
        } else if code == 109 {
            Some(AlertDescription::MissingExtension)
        } else if code == 110 {
            Some(AlertDescription::UnsupportedExtension)
        } else if code == 112 {
            Some(AlertDescription::UnrecognizedName)
        } else if code == 113 {
            Some(AlertDescription::BadCertificateStatusResponse)
        } else if code == 115 {
            Some(AlertDescription::UnknownPskIdentity)
        } else if code == 116 {
            Some(AlertDescription::CertificateRequired)
        } else if code == 120 {
            Some(AlertDescription::NoApplicationProtocol)
        } else {
            None
        }
    }

    /// The description that `code` stands for, if it stands for one.
    pub fn of(code: u8) -> (r: Option<AlertDescription>)
        ensures
            r == Self::spec_of(code),
    {
        match code {
            0 => Some(AlertDescription::CloseNotify),
            10 => Some(AlertDescription::UnexpectedMessage),
            20 => Some(AlertDescription::BadRecordMac),
            22 => Some(AlertDescription::RecordOverflow),
            40 => Some(AlertDescription::HandshakeFailure),
            42 => Some(AlertDescription::BadCertificate),
            43 => Some(AlertDescription::UnsupportedCertificate),
            44 => Some(AlertDescription::CertificateRevoked),
            45 => Some(AlertDescription::CertificateExpired),
            46 => Some(AlertDescription::CertificateUnknown),
            47 => Some(AlertDescription::IllegalParameter),
            48 => Some(AlertDescription::UnknownCa),
            49 => Some(AlertDescription::AccessDenied),
            50 => Some(AlertDescription::DecodeError),
            51 => Some(AlertDescription::DecryptError),
            70 => Some(AlertDescription::ProtocolVersion),
            71 => Some(AlertDescription::InsufficientSecurity),
            80 => Some(AlertDescription::InternalError),
            86 => Some(AlertDescription::InappropriateFallback),
            90 => Some(AlertDescription::UserCanceled),
            109 => Some(AlertDescription::MissingExtension),
            110 => Some(AlertDescription::UnsupportedExtension),
            112 => Some(AlertDescription::UnrecognizedName),
            113 => Some(AlertDescription::BadCertificateStatusResponse),
            115 => Some(AlertDescription::UnknownPskIdentity),
            116 => Some(AlertDescription::CertificateRequired),
            120 => Some(AlertDescription::NoApplicationProtocol),
            _ => None,
        }
    }

    /// The number that stands for the description on the wire.
    pub fn as_u8(self) -> (r: u8)
        ensures
            r == self.code(),
    {
        match self {
            AlertDescription::CloseNotify => 0,
            AlertDescription::UnexpectedMessage => 10,
            AlertDescription::BadRecordMac => 20,
            AlertDescription::RecordOverflow => 22,
            AlertDescription::HandshakeFailure => 40,
            AlertDescription::BadCertificate => 42,
            AlertDescription::UnsupportedCertificate => 43,
            AlertDescription::CertificateRevoked => 44,
            AlertDescription::CertificateExpired => 45,
            AlertDescription::CertificateUnknown => 46,
            AlertDescription::IllegalParameter => 47,
            AlertDescription::UnknownCa => 48,
            AlertDescription::AccessDenied => 49,
            AlertDescription::DecodeError => 50,
            AlertDescription::DecryptError => 51,
            AlertDescription::ProtocolVersion => 70,
            AlertDescription::InsufficientSecurity => 71,
            AlertDescription::InternalError => 80,
            AlertDescription::InappropriateFallback => 86,
            AlertDescription::UserCanceled => 90,
            AlertDescription::MissingExtension => 109,
            AlertDescription::UnsupportedExtension => 110,
            AlertDescription::UnrecognizedName => 112,
            AlertDescription::BadCertificateStatusResponse => 113,
            AlertDescription::UnknownPskIdentity => 115,
            AlertDescription::CertificateRequired => 116,
            AlertDescription::NoApplicationProtocol => 120,
        }
    }

    /// The number of a value stands for that value and for no other.
    pub proof fn lemma_code_of(v: AlertDescription, code: u8)
        ensures
            Self::spec_of(v.code()) == Some(v),
            Self::spec_of(code) matches Some(w) ==> w.code() == code,
    {
    }
}

/// An alert: its level and what it reports.
#[derive(Debug, Clone, Copy, PartialEq, Eq, Structural)]
pub struct Alert {
    pub level: AlertLevel,
    pub description: AlertDescription,
}

/// What stands at the front of `s` when an alert is expected: one byte of
/// level and one byte of description. Bytes that are missing or that stand
/// for no level or description are a decode error.
pub open spec fn spec_parse_alert(s: Seq<u8>) -> Result<Alert, TlsError> {
    if s.len() < 2 {
        Err(TlsError::DecodeError)
    } else {
        match (AlertLevel::spec_of(s[0]), AlertDescription::spec_of(s[1])) {
            (Some(level), Some(description)) => Ok(Alert { level, description }),
            _ => Err(TlsError::DecodeError),
        }
    }
}

impl Alert {
    /// The alert with the given level and description.
    pub fn new(level: AlertLevel, description: AlertDescription) -> (r: Self)
        ensures
            r == (Alert { level, description }),
    {
        Alert { level, description }
    }

    /// Reads an alert and moves past its two bytes.
    pub fn parse(buf: &mut ParseBuffer) -> (r: Result<Alert, TlsError>)
        ensures
            old(buf).wf(),
            final(buf).wf(),
            final(buf).bytes() == old(buf).bytes(),
            r == spec_parse_alert(old(buf).unread()),
            r is Ok ==> final(buf).position() == old(buf).position() + 2,
    {
        let level = match buf.read_u8() {
            Ok(v) => v,
            Err(_) => {
                return Err(TlsError::DecodeError);
            },
        };
        assert(buf.unread() =~= old(buf).unread().skip(1));
        let description = match buf.read_u8() {
            Ok(v) => v,
            Err(_) => {
                return Err(TlsError::DecodeError);
            },
        };
        match (AlertLevel::of(level), AlertDescription::of(description)) {
            (Some(level), Some(description)) => Ok(Alert { level, description }),
            _ => Err(TlsError::DecodeError),
        }
    }

    /// Writes the alert as its two bytes.
    pub fn encode(&self, buf: &mut CryptoBuffer) -> (r: Result<(), TlsError>)
        ensures
            encoded(*old(buf), *final(buf), r, true, self.wire()),
    {
        let data: [u8; 2] = [self.level.as_u8(), self.description.as_u8()];
        assert(data@ =~= self.wire());
        buf.extend_from_slice(&data)
    }
}

impl Encode for Alert {
    open spec fn wire(&self) -> Seq<u8> {
        seq![self.level.code(), self.description.code()]
    }

    open spec fn encodable(&self) -> bool {
        true
    }

    fn encode(self, buf: &mut CryptoBuffer) -> (r: Result<(), TlsError>) {
        Alert::encode(&self, buf)
    }
}

/// Parsing what was written for an alert gives the alert back, and writing
/// an alert that was parsed gives the two bytes it was parsed from.
pub proof fn lemma_alert_round_trip(a: Alert, s: Seq<u8>, rest: Seq<u8>)
    ensures
        spec_parse_alert(a.wire() + rest) == Ok::<Alert, TlsError>(a),
        spec_parse_alert(s) matches Ok(b) ==> b.wire() == s.take(2),
{
    let w = a.wire() + rest;
    assert(w[0] == a.level.code() && w[1] == a.description.code());
    AlertLevel::lemma_code_of(a.level, 0);
    AlertDescription::lemma_code_of(a.description, 0);
    if spec_parse_alert(s) is Ok {
        let b = spec_parse_alert(s)->Ok_0;
        AlertLevel::lemma_code_of(b.level, s[0]);
        AlertDescription::lemma_code_of(b.description, s[1]);
        assert(b.wire() =~= s.take(2));
    }
}

} // verus!

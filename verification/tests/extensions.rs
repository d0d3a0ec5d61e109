use embedded_tls::alert::{AlertDescription, AlertLevel};
use embedded_tls::buffer::CryptoBuffer;
use embedded_tls::extensions::extension_data::key_share::KeyShareEntry;
use embedded_tls::extensions::extension_data::supported_groups::NamedGroup;
use embedded_tls::extensions::extension_data::supported_versions::{
    tls13, SupportedVersionsClientHello,
};
use embedded_tls::extensions::messages::{
    body_kind, encode_extension, extensions, parse_extensions, parse_vector, BodyKind, Extension,
    MessageKind, EXTENSION_CAPACITY,
};
use embedded_tls::extensions::ExtensionType;
use embedded_tls::parse_buffer::{ParseBuffer, ParseError};
use embedded_tls::parse_encode::Local;
use embedded_tls::TlsError;

const ILLEGAL_PARAMETER: TlsError =
    TlsError::AbortHandshake(AlertLevel::Fatal, AlertDescription::IllegalParameter);

#[test]
fn extension_type_code_points() {
    let all = [
        (ExtensionType::ServerName, 0u16),
        (ExtensionType::MaxFragmentLength, 1),
        (ExtensionType::StatusRequest, 5),
        (ExtensionType::SupportedGroups, 10),
        (ExtensionType::SignatureAlgorithms, 13),
        (ExtensionType::UseSrtp, 14),
        (ExtensionType::Heartbeat, 15),
        (ExtensionType::ApplicationLayerProtocolNegotiation, 16),
        (ExtensionType::SignedCertificateTimestamp, 18),
        (ExtensionType::ClientCertificateType, 19),
        (ExtensionType::ServerCertificateType, 20),
        (ExtensionType::Padding, 21),
        (ExtensionType::CompressCertificate, 27),
        (ExtensionType::PreSharedKey, 41),
        (ExtensionType::EarlyData, 42),
        (ExtensionType::SupportedVersions, 43),
        (ExtensionType::Cookie, 44),
        (ExtensionType::PskKeyExchangeModes, 45),
        (ExtensionType::CertificateAuthorities, 47),
        (ExtensionType::OidFilters, 48),
        (ExtensionType::PostHandshakeAuth, 49),
        (ExtensionType::SignatureAlgorithmsCert, 50),
        (ExtensionType::KeyShare, 51),
    ];
    for (t, code) in all {
        assert_eq!(t.as_u16(), code);
        assert_eq!(ExtensionType::of(code), Some(t));
        let wire = code.to_be_bytes();
        assert_eq!(ExtensionType::parse(&mut ParseBuffer::new(&wire)), Ok(t));
    }
    let unknown = [0x12, 0x34];
    assert_eq!(
        ExtensionType::parse(&mut ParseBuffer::new(&unknown)),
        Err(ParseError::InvalidData)
    );
    let cut = [0x00];
    assert_eq!(
        ExtensionType::parse(&mut ParseBuffer::new(&cut)),
        Err(ParseError::InsufficientSpace)
    );
}

#[test]
fn each_message_reads_key_share_its_own_way() {
    let t = ExtensionType::KeyShare;
    assert_eq!(body_kind(t, MessageKind::ClientHello), Some(BodyKind::KeySharesOffered));
    assert_eq!(body_kind(t, MessageKind::ServerHello), Some(BodyKind::KeyShareSelected));
    assert_eq!(body_kind(t, MessageKind::HelloRetryRequest), Some(BodyKind::Opaque));
    assert_eq!(body_kind(t, MessageKind::EncryptedExtensions), None);
    assert_eq!(body_kind(t, MessageKind::CertificateRequest), None);
    assert_eq!(body_kind(t, MessageKind::Certificate), None);
    assert_eq!(body_kind(t, MessageKind::NewSessionTicket), None);
    assert_eq!(
        body_kind(ExtensionType::ServerName, MessageKind::EncryptedExtensions),
        Some(BodyKind::ServerNameAck)
    );
    assert_eq!(
        body_kind(ExtensionType::Cookie, MessageKind::ServerHello),
        Some(BodyKind::Opaque)
    );
    assert_eq!(
        body_kind(ExtensionType::EarlyData, MessageKind::NewSessionTicket),
        Some(BodyKind::Opaque)
    );
    assert_eq!(body_kind(ExtensionType::CompressCertificate, MessageKind::ClientHello), None);
    assert_eq!(
        body_kind(ExtensionType::CompressCertificate, MessageKind::CertificateRequest),
        Some(BodyKind::Opaque)
    );
}

#[test]
fn extension_parses_known_type_in_its_message() {
    let wire = [0x00, 0x33, 0x00, 0x06, 0x00, 0x17, 0x00, 0x02, 0xAA, 0xBB, 0xEE];
    let mut parse = ParseBuffer::new(&wire);
    let ext = Extension::parse(&mut parse, MessageKind::ServerHello).ok().unwrap();
    assert_eq!(parse.offset(), 10);
    assert_eq!(ext.extension_type(), ExtensionType::KeyShare);
    match ext {
        Extension::KeyShare(share) => {
            assert_eq!(share.0.group, NamedGroup::Secp256r1);
            assert_eq!(share.0.opaque, &[0xAA, 0xBB]);
        }
        _ => panic!("not a key share"),
    }
}

#[test]
fn extension_of_unknown_type_is_passed_over() {
    let wire = [0xFF, 0x01, 0x00, 0x02, 0xAA, 0xBB, 0xEE];
    let mut parse = ParseBuffer::new(&wire);
    assert_eq!(
        Extension::parse(&mut parse, MessageKind::ClientHello).err(),
        Some(TlsError::UnknownExtensionType)
    );
    assert_eq!(parse.offset(), 6);
}

#[test]
fn key_share_in_encrypted_extensions_is_fatal() {
    let wire = [0x00, 0x33, 0x00, 0x06, 0x00, 0x17, 0x00, 0x02, 0xAA, 0xBB];
    assert_eq!(
        Extension::parse(&mut ParseBuffer::new(&wire), MessageKind::EncryptedExtensions).err(),
        Some(ILLEGAL_PARAMETER)
    );
    let block = [0x00, 0x0A, 0x00, 0x33, 0x00, 0x06, 0x00, 0x17, 0x00, 0x02, 0xAA, 0xBB];
    assert_eq!(
        parse_vector(&mut ParseBuffer::new(&block), MessageKind::EncryptedExtensions, 8).err(),
        Some(ILLEGAL_PARAMETER)
    );
    // the same extension is fine in a ServerHello
    assert!(parse_vector(&mut ParseBuffer::new(&block), MessageKind::ServerHello, 4).is_ok());
}

#[test]
fn extension_cut_short_is_decode_error() {
    for wire in [&[][..], &[0x00][..], &[0x00, 0x33, 0x00][..], &[0x00, 0x33, 0x00, 0x02, 0xAA][..]] {
        assert_eq!(
            Extension::parse(&mut ParseBuffer::new(wire), MessageKind::ServerHello).err(),
            Some(TlsError::DecodeError)
        );
    }
    // an unknown type with a body cut short is a decode error, not unknown
    let wire = [0xFF, 0x01, 0x00, 0x03, 0xAA];
    assert_eq!(
        Extension::parse(&mut ParseBuffer::new(&wire), MessageKind::ServerHello).err(),
        Some(TlsError::DecodeError)
    );
}

#[test]
fn extension_with_unreadable_body_is_decode_error() {
    // a key share whose group is not known
    let wire = [0x00, 0x33, 0x00, 0x04, 0xFF, 0xFF, 0x00, 0x00];
    assert_eq!(
        Extension::parse(&mut ParseBuffer::new(&wire), MessageKind::ServerHello).err(),
        Some(TlsError::DecodeError)
    );
    // versions offered without TLS 1.3
    let wire = [0x00, 0x2B, 0x00, 0x03, 0x02, 0x03, 0x03];
    assert_eq!(
        Extension::parse(&mut ParseBuffer::new(&wire), MessageKind::ClientHello).err(),
        Some(TlsError::DecodeError)
    );
    // a server name answer that is not empty
    let wire = [0x00, 0x00, 0x00, 0x01, 0x00];
    assert_eq!(
        Extension::parse(&mut ParseBuffer::new(&wire), MessageKind::EncryptedExtensions).err(),
        Some(TlsError::DecodeError)
    );
}

#[test]
fn opaque_extension_keeps_its_bytes() {
    let wire = [0x00, 0x10, 0x00, 0x03, 0x02, b'h', b'2'];
    let ext = Extension::parse(&mut ParseBuffer::new(&wire), MessageKind::ClientHello)
        .ok()
        .unwrap();
    match ext {
        Extension::Opaque(t, body) => {
            assert_eq!(t, ExtensionType::ApplicationLayerProtocolNegotiation);
            assert_eq!(body.data, &[0x02, b'h', b'2']);
        }
        _ => panic!("not opaque"),
    }
}

#[test]
fn block_with_unknown_extension_parses_without_it() {
    let with_unknown = [
        0x00, 0x13, // nineteen bytes of extensions
        0x00, 0x2B, 0x00, 0x03, 0x02, 0x03, 0x04, // supported_versions
        0xAB, 0xCD, 0x00, 0x02, 0x01, 0x02, // not known
        0x00, 0x2D, 0x00, 0x02, 0x01, 0x01, // psk_key_exchange_modes
    ];
    let without = [
        0x00, 0x0D, 0x00, 0x2B, 0x00, 0x03, 0x02, 0x03, 0x04, 0x00, 0x2D, 0x00, 0x02, 0x01, 0x01,
    ];
    let mut parse = ParseBuffer::new(&with_unknown);
    let a = parse_vector(&mut parse, MessageKind::ClientHello, 8).ok().unwrap();
    assert!(parse.is_empty());
    let b = parse_vector(&mut ParseBuffer::new(&without), MessageKind::ClientHello, 8)
        .ok()
        .unwrap();
    assert_eq!(a.len(), 2);
    assert_eq!(b.len(), 2);
    let types = |v: &[Extension]| v.iter().map(|e| e.extension_type()).collect::<Vec<_>>();
    assert_eq!(
        types(extensions(&a)),
        vec![ExtensionType::SupportedVersions, ExtensionType::PskKeyExchangeModes]
    );
    assert_eq!(types(extensions(&a)), types(extensions(&b)));
}

#[test]
fn block_of_only_unknown_extensions_is_empty() {
    let block = [0x00, 0x08, 0xAA, 0xAA, 0x00, 0x00, 0xBB, 0xBB, 0x00, 0x00];
    let v = parse_vector(&mut ParseBuffer::new(&block), MessageKind::ServerHello, 0).ok().unwrap();
    assert_eq!(v.len(), 0);
}

#[test]
fn block_length_errors() {
    let nothing: [u8; 0] = [];
    assert_eq!(
        parse_vector(&mut ParseBuffer::new(&nothing), MessageKind::ClientHello, 8).err(),
        Some(TlsError::InvalidExtensionsLength)
    );
    let one = [0x00];
    assert_eq!(
        parse_vector(&mut ParseBuffer::new(&one), MessageKind::ClientHello, 8).err(),
        Some(TlsError::InvalidExtensionsLength)
    );
    let cut = [0x00, 0x05, 0x00, 0x2B];
    assert_eq!(
        parse_vector(&mut ParseBuffer::new(&cut), MessageKind::ClientHello, 8).err(),
        Some(TlsError::DecodeError)
    );
    let empty = [0x00, 0x00, 0xFF];
    let mut parse = ParseBuffer::new(&empty);
    let v = parse_vector(&mut parse, MessageKind::ClientHello, 8).ok().unwrap();
    assert_eq!(v.len(), 0);
    assert_eq!(parse.offset(), 2);
}

fn cookies(n: usize) -> Vec<u8> {
    let mut body = Vec::new();
    for i in 0..n {
        body.extend_from_slice(&[0x00, 0x2C, 0x00, 0x01, i as u8]);
    }
    body
}

#[test]
fn more_extensions_than_room_is_decode_error() {
    assert_eq!(EXTENSION_CAPACITY, 8);
    let four = cookies(4);
    let five = cookies(5);
    let eight = cookies(8);
    let nine = cookies(9);
    assert_eq!(parse_extensions(&four, MessageKind::ServerHello, 4).ok().unwrap().len(), 4);
    assert_eq!(
        parse_extensions(&five, MessageKind::ServerHello, 4).err(),
        Some(TlsError::DecodeError)
    );
    assert_eq!(parse_extensions(&eight, MessageKind::ClientHello, 8).ok().unwrap().len(), 8);
    assert_eq!(
        parse_extensions(&nine, MessageKind::ClientHello, 8).err(),
        Some(TlsError::DecodeError)
    );
    // a limit above the capacity is the capacity
    assert_eq!(parse_extensions(&eight, MessageKind::ClientHello, 100).ok().unwrap().len(), 8);
    assert_eq!(
        parse_extensions(&nine, MessageKind::ClientHello, 100).err(),
        Some(TlsError::DecodeError)
    );
    // unknown extensions take no room
    let mut mixed = cookies(4);
    mixed.extend_from_slice(&[0xAB, 0xCD, 0x00, 0x00]);
    assert_eq!(parse_extensions(&mixed, MessageKind::ServerHello, 4).ok().unwrap().len(), 4);
    // the first error wins
    let mut late_error = cookies(5);
    late_error.extend_from_slice(&[0x00, 0x33]);
    assert_eq!(
        parse_extensions(&late_error, MessageKind::ServerHello, 8).err(),
        Some(TlsError::DecodeError)
    );
}

#[test]
fn extensions_come_out_in_the_order_they_went_in() {
    let body = cookies(3);
    let v = parse_extensions(&body, MessageKind::ServerHello, 4).ok().unwrap();
    let all = extensions(&v);
    assert_eq!(all.len(), 3);
    for (i, ext) in all.iter().enumerate() {
        match ext {
            Extension::Opaque(t, data) => {
                assert_eq!(*t, ExtensionType::Cookie);
                assert_eq!(data.data, &[i as u8]);
            }
            _ => panic!("not opaque"),
        }
    }
}

#[test]
fn encoded_extension_parses_back() {
    let versions = [tls13()];
    let mut bytes = [0u8; 32];
    let mut buf = CryptoBuffer::wrap(&mut bytes);
    assert_eq!(
        encode_extension(
            &mut buf,
            ExtensionType::SupportedVersions,
            SupportedVersionsClientHello::<Local>::new(&versions)
        ),
        Ok(())
    );
    assert_eq!(buf.as_slice(), &[0x00, 0x2B, 0x00, 0x03, 0x02, 0x03, 0x04]);
    let wire = buf.as_slice().to_vec();
    let ext = Extension::parse(&mut ParseBuffer::new(&wire), MessageKind::ClientHello)
        .ok()
        .unwrap();
    match ext {
        Extension::SupportedVersions(list) => {
            assert_eq!(list.len(), 1);
            assert_eq!(list.iter().next(), Some(tls13()));
        }
        _ => panic!("not supported_versions"),
    }
}

#[test]
fn encode_extension_rewinds_on_failure() {
    let entry = KeyShareEntry { group: NamedGroup::Secp256r1, opaque: &[1, 2, 3, 4, 5, 6] };
    let mut bytes = [0u8; 12];
    let mut buf = CryptoBuffer::wrap(&mut bytes);
    buf.push(0x77).unwrap();
    assert_eq!(
        encode_extension(&mut buf, ExtensionType::KeyShare, entry),
        Err(TlsError::EncodeError)
    );
    assert_eq!(buf.as_slice(), &[0x77]);
}

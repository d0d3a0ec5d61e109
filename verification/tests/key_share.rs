use embedded_tls::buffer::CryptoBuffer;
use embedded_tls::extensions::extension_data::key_share::{
    KeyShareClientHello, KeyShareEntry, KeyShareHelloRetryRequest, KeyShareServerHello,
};
use embedded_tls::extensions::extension_data::supported_groups::NamedGroup;
use embedded_tls::parse_buffer::{ParseBuffer, ParseError};
use embedded_tls::TlsError;

#[test]
fn test_parse_empty() {
    let buffer = [
        0x00, 0x17, // Secp256r1
        0x00, 0x00, // key_exchange length = 0 bytes
    ];
    let result = KeyShareEntry::parse(&mut ParseBuffer::new(&buffer)).unwrap();

    assert_eq!(NamedGroup::Secp256r1, result.group);
    assert_eq!(0, result.opaque.len());
}

#[test]
fn test_parse() {
    let buffer = [
        0x00, 0x17, // Secp256r1
        0x00, 0x02, // key_exchange length = 2 bytes
        0xAA, 0xBB,
    ];
    let result = KeyShareEntry::parse(&mut ParseBuffer::new(&buffer)).unwrap();

    assert_eq!(NamedGroup::Secp256r1, result.group);
    assert_eq!(2, result.opaque.len());
    assert_eq!([0xAA, 0xBB], result.opaque);
}

#[test]
fn key_share_entry_reencodes_to_the_same_bytes() {
    let buffer = [0x00, 0x17, 0x00, 0x02, 0xAA, 0xBB];
    let entry = KeyShareEntry::parse(&mut ParseBuffer::new(&buffer)).unwrap();
    let mut bytes = [0u8; 16];
    let mut buf = CryptoBuffer::wrap(&mut bytes);
    assert_eq!(entry.encode(&mut buf), Ok(()));
    assert_eq!(buf.as_slice(), &buffer);
}

#[test]
fn key_share_entry_errors() {
    let unknown_group = [0x12, 0x34, 0x00, 0x00];
    assert_eq!(
        KeyShareEntry::parse(&mut ParseBuffer::new(&unknown_group)).err(),
        Some(ParseError::InvalidData)
    );
    let cut_group = [0x00];
    assert_eq!(
        KeyShareEntry::parse(&mut ParseBuffer::new(&cut_group)).err(),
        Some(ParseError::InsufficientSpace)
    );
    let cut_length = [0x00, 0x17, 0x00];
    assert_eq!(
        KeyShareEntry::parse(&mut ParseBuffer::new(&cut_length)).err(),
        Some(ParseError::InsufficientSpace)
    );
    let cut_key = [0x00, 0x17, 0x00, 0x03, 0xAA];
    assert_eq!(
        KeyShareEntry::parse(&mut ParseBuffer::new(&cut_key)).err(),
        Some(ParseError::InsufficientSpace)
    );
}

#[test]
fn key_share_entry_encode_rewinds_when_key_does_not_fit() {
    let entry = KeyShareEntry { group: NamedGroup::X25519, opaque: &[1, 2, 3, 4] };
    let mut bytes = [0u8; 7];
    let mut buf = CryptoBuffer::wrap(&mut bytes);
    buf.push(0xEE).unwrap();
    assert_eq!(entry.encode(&mut buf), Err(TlsError::EncodeError));
    assert_eq!(buf.as_slice(), &[0xEE]);
}

#[test]
fn key_share_server_hello_round_trip() {
    let buffer = [0x00, 0x1D, 0x00, 0x01, 0x42, 0x99];
    let mut parse = ParseBuffer::new(&buffer);
    let share = KeyShareServerHello::parse(&mut parse).unwrap();
    assert_eq!(share.0.group, NamedGroup::X25519);
    assert_eq!(share.0.opaque, &[0x42]);
    assert_eq!(parse.offset(), 5);
    let mut bytes = [0u8; 8];
    let mut buf = CryptoBuffer::wrap(&mut bytes);
    share.encode(&mut buf).unwrap();
    assert_eq!(buf.as_slice(), &buffer[..5]);
}

#[test]
fn key_share_client_hello_parses_and_iterates() {
    let buffer = [
        0x00, 0x0B, // eleven bytes of entries
        0x00, 0x17, 0x00, 0x02, 0xAA, 0xBB, // Secp256r1
        0x00, 0x1D, 0x00, 0x01, 0xCC, // X25519
    ];
    let mut parse = ParseBuffer::new(&buffer);
    let shares = KeyShareClientHello::parse(&mut parse).unwrap();
    assert!(parse.is_empty());
    let mut it = shares.key_shares();
    let first = it.next().unwrap();
    assert_eq!(first.group, NamedGroup::Secp256r1);
    assert_eq!(first.opaque, &[0xAA, 0xBB]);
    let second = it.next().unwrap();
    assert_eq!(second.group, NamedGroup::X25519);
    assert_eq!(second.opaque, &[0xCC]);
    assert!(it.next().is_none());
    assert!(it.next().is_none());

    let mut bytes = [0u8; 16];
    let mut buf = CryptoBuffer::wrap(&mut bytes);
    shares.encode(&mut buf).unwrap();
    assert_eq!(buf.as_slice(), &buffer);
}

#[test]
fn key_share_client_hello_rejects_broken_entries() {
    let trailing = [0x00, 0x07, 0x00, 0x17, 0x00, 0x02, 0xAA, 0xBB, 0x00];
    assert_eq!(
        KeyShareClientHello::parse(&mut ParseBuffer::new(&trailing)).err(),
        Some(ParseError::InsufficientSpace)
    );
    let unknown = [0x00, 0x04, 0xFF, 0xFF, 0x00, 0x00];
    assert_eq!(
        KeyShareClientHello::parse(&mut ParseBuffer::new(&unknown)).err(),
        Some(ParseError::InvalidData)
    );
    let cut = [0x00, 0x09, 0x00, 0x17];
    assert_eq!(
        KeyShareClientHello::parse(&mut ParseBuffer::new(&cut)).err(),
        Some(ParseError::InsufficientSpace)
    );
    let empty = [0x00, 0x00];
    let shares = KeyShareClientHello::parse(&mut ParseBuffer::new(&empty)).unwrap();
    assert!(shares.key_shares().next().is_none());
}

#[test]
fn key_share_client_hello_encode_from_entries() {
    let entries = [
        KeyShareEntry { group: NamedGroup::Secp256r1, opaque: &[0xAA, 0xBB] },
        KeyShareEntry { group: NamedGroup::X25519, opaque: &[0xCC] },
    ];
    let mut bytes = [0u8; 32];
    let mut buf = CryptoBuffer::wrap(&mut bytes);
    assert_eq!(KeyShareClientHello::encode_from_iter(&mut buf, &entries), Ok(()));
    assert_eq!(
        buf.as_slice(),
        &[0x00, 0x0B, 0x00, 0x17, 0x00, 0x02, 0xAA, 0xBB, 0x00, 0x1D, 0x00, 0x01, 0xCC]
    );
}

#[test]
fn key_share_hello_retry_request_round_trip() {
    let buffer = [0x00, 0x18];
    let retry = KeyShareHelloRetryRequest::parse(&mut ParseBuffer::new(&buffer)).unwrap();
    assert_eq!(retry.selected_group, NamedGroup::Secp384r1);
    let mut bytes = [0u8; 2];
    let mut buf = CryptoBuffer::wrap(&mut bytes);
    retry.encode(&mut buf).unwrap();
    assert_eq!(buf.as_slice(), &buffer);
}

#[test]
fn named_group_code_points() {
    let all = [
        (NamedGroup::Secp256r1, 0x0017u16),
        (NamedGroup::Secp384r1, 0x0018),
        (NamedGroup::Secp521r1, 0x0019),
        (NamedGroup::X25519, 0x001D),
        (NamedGroup::X448, 0x001E),
        (NamedGroup::Ffdhe2048, 0x0100),
        (NamedGroup::Ffdhe3072, 0x0101),
        (NamedGroup::Ffdhe4096, 0x0102),
        (NamedGroup::Ffdhe6144, 0x0103),
        (NamedGroup::Ffdhe8192, 0x0104),
        (NamedGroup::SecP256r1MLKEM768, 0x11EB),
        (NamedGroup::X25519MLKEM768, 0x11EC),
        (NamedGroup::SecP384r1MLKEM1024, 0x11ED),
    ];
    for (group, code) in all {
        assert_eq!(group.as_u16(), code);
        assert_eq!(NamedGroup::of(code), Some(group));
    }
    assert_eq!(NamedGroup::of(0x0000), None);
    assert_eq!(NamedGroup::of(0x11EA), None);
}

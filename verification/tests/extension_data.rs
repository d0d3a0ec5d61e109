use embedded_tls::buffer::CryptoBuffer;
use embedded_tls::extensions::extension_data::max_fragment_length::MaxFragmentLength;
use embedded_tls::extensions::extension_data::pre_shared_key::{
    Binders, PreSharedKeyClientHello, PreSharedKeyServerHello, PskIdentity, PskIdentityList,
};
use embedded_tls::extensions::extension_data::psk_key_exchange_modes::{
    PskKeyExchangeMode, PskKeyExchangeModes,
};
use embedded_tls::extensions::extension_data::server_name::{
    NameType, ServerName, ServerNameList, ServerNameResponse,
};
use embedded_tls::extensions::extension_data::signature_algorithms::{
    SignatureAlgorithms, SignatureScheme,
};
use embedded_tls::extensions::extension_data::signature_algorithms_cert::SignatureAlgorithmsCert;
use embedded_tls::extensions::extension_data::supported_groups::{NamedGroup, SupportedGroups};
use embedded_tls::extensions::extension_data::supported_versions::{
    tls13, ProtocolVersion, SupportedVersionsClientHello, SupportedVersionsServerHello,
};
use embedded_tls::extensions::extension_data::unimplemented::Unimplemented;
use embedded_tls::parse_buffer::{ParseBuffer, ParseError};
use embedded_tls::parse_encode::{Encode, Local, Parse, Remote};
use embedded_tls::TlsError;

fn encoded<E: Encode>(value: E) -> Result<Vec<u8>, TlsError> {
    let mut bytes = [0u8; 256];
    let mut buf = CryptoBuffer::wrap(&mut bytes);
    value.encode(&mut buf)?;
    Ok(buf.as_slice().to_vec())
}

#[test]
fn server_name_example_com_encodes_as_specified() {
    let name = ServerName::hostname("example.com");
    assert_eq!(name.name_type, NameType::HostName);
    assert_eq!(
        encoded(name),
        Ok(vec![
            0x00, 0x00, 0x0B, 0x65, 0x78, 0x61, 0x6d, 0x70, 0x6c, 0x65, 0x2e, 0x63, 0x6f, 0x6d
        ])
    );
}

#[test]
fn server_name_round_trip() {
    let wire = [
        0x00, 0x00, 0x0B, 0x65, 0x78, 0x61, 0x6d, 0x70, 0x6c, 0x65, 0x2e, 0x63, 0x6f, 0x6d, 0x99,
    ];
    let mut parse = ParseBuffer::new(&wire);
    let name = ServerName::parse(&mut parse).unwrap();
    assert_eq!(name, ServerName::hostname("example.com"));
    assert_eq!(parse.offset(), 14);
    assert_eq!(encoded(name).unwrap(), &wire[..14]);
}

#[test]
fn server_name_with_non_ascii_name_is_invalid_data() {
    // "é" in UTF-8
    let wire = [0x00, 0x00, 0x02, 0xC3, 0xA9];
    assert_eq!(
        ServerName::parse(&mut ParseBuffer::new(&wire)).err(),
        Some(ParseError::InvalidData)
    );
    let high_bit = [0x00, 0x00, 0x01, 0x80];
    assert_eq!(
        ServerName::parse(&mut ParseBuffer::new(&high_bit)).err(),
        Some(ParseError::InvalidData)
    );
    // such a name is written as it stands, and is not read back
    let written = encoded(ServerName::hostname("\u{e9}")).unwrap();
    assert_eq!(written, wire);
}

#[test]
fn server_name_with_trailing_dot_is_invalid_data() {
    let wire = [0x00, 0x00, 0x02, 0x61, 0x2e];
    assert_eq!(
        ServerName::parse(&mut ParseBuffer::new(&wire)).err(),
        Some(ParseError::InvalidData)
    );
    assert_eq!(encoded(ServerName::hostname("a.")), Ok(wire.to_vec()));
    let dot_inside = [0x00, 0x00, 0x03, 0x61, 0x2e, 0x62];
    assert_eq!(
        ServerName::parse(&mut ParseBuffer::new(&dot_inside)).map(|n| n.name),
        Ok("a.b")
    );
}

#[test]
fn server_name_errors() {
    let unknown_type = [0x01, 0x00, 0x01, 0x61];
    assert_eq!(
        ServerName::parse(&mut ParseBuffer::new(&unknown_type)).err(),
        Some(ParseError::InvalidData)
    );
    let cut = [0x00, 0x00, 0x05, 0x61];
    assert_eq!(
        ServerName::parse(&mut ParseBuffer::new(&cut)).err(),
        Some(ParseError::InsufficientSpace)
    );
    let nothing: [u8; 0] = [];
    assert_eq!(
        ServerName::parse(&mut ParseBuffer::new(&nothing)).err(),
        Some(ParseError::InsufficientSpace)
    );
    let empty_name = [0x00, 0x00, 0x00];
    assert_eq!(ServerName::parse(&mut ParseBuffer::new(&empty_name)).map(|n| n.name), Ok(""));
}

#[test]
fn name_type_parse_and_encode() {
    let host = [0x00];
    assert_eq!(NameType::parse(&mut ParseBuffer::new(&host)), Ok(NameType::HostName));
    let other = [0x01];
    assert_eq!(NameType::parse(&mut ParseBuffer::new(&other)), Err(ParseError::InvalidData));
    let nothing: [u8; 0] = [];
    assert_eq!(
        NameType::parse(&mut ParseBuffer::new(&nothing)),
        Err(ParseError::InsufficientSpace)
    );
    let mut bytes = [0xFFu8; 1];
    let mut buf = CryptoBuffer::wrap(&mut bytes);
    assert_eq!(NameType::HostName.encode(&mut buf), Ok(()));
    assert_eq!(buf.as_slice(), &[0x00]);
    assert_eq!(NameType::HostName.encode(&mut buf), Err(TlsError::EncodeError));
}

#[test]
fn server_name_list_round_trip() {
    let names = [ServerName::hostname("a.example"), ServerName::hostname("b")];
    let wire = encoded(ServerNameList::<Local>::new(&names)).unwrap();
    assert_eq!(
        wire,
        vec![
            0x00, 0x10, 0x00, 0x00, 0x09, b'a', b'.', b'e', b'x', b'a', b'm', b'p', b'l', b'e',
            0x00, 0x00, 0x01, b'b'
        ]
    );
    let mut parse = ParseBuffer::new(&wire);
    let list = ServerNameList::<Remote>::parse(&mut parse).ok().unwrap();
    assert_eq!(list.len(), 2);
    let mut it = list.iter();
    assert_eq!(it.next(), Some(names[0]));
    assert_eq!(it.next(), Some(names[1]));
    assert_eq!(it.next(), None);
}

#[test]
fn server_name_response_must_be_empty() {
    let nothing: [u8; 0] = [];
    assert_eq!(
        ServerNameResponse::parse(&mut ParseBuffer::new(&nothing)),
        Ok(ServerNameResponse)
    );
    let something = [0x00];
    let mut body = ParseBuffer::new(&something);
    assert_eq!(ServerNameResponse::parse(&mut body), Err(ParseError::InvalidData));
    // the body is not passed over
    assert_eq!(body.offset(), 0);
    assert_eq!(body.remaining(), 1);
    assert_eq!(encoded(ServerNameResponse), Ok(vec![]));
}

#[test]
fn supported_versions_client_hello_encodes_as_specified() {
    let versions = [tls13()];
    assert_eq!(
        encoded(SupportedVersionsClientHello::<Local>::new(&versions)),
        Ok(vec![0x02, 0x03, 0x04])
    );
}

#[test]
fn supported_versions_client_hello_without_tls13_is_invalid_data() {
    let empty = [0x00];
    assert_eq!(
        SupportedVersionsClientHello::<Remote>::parse(&mut ParseBuffer::new(&empty)).err(),
        Some(ParseError::InvalidData)
    );
    let only_tls12 = [0x02, 0x03, 0x03];
    assert_eq!(
        SupportedVersionsClientHello::<Remote>::parse(&mut ParseBuffer::new(&only_tls12)).err(),
        Some(ParseError::InvalidData)
    );
    // such lists are written as they stand
    let versions = [ProtocolVersion(0x0303)];
    assert_eq!(
        encoded(SupportedVersionsClientHello::<Local>::new(&versions)),
        Ok(only_tls12.to_vec())
    );
    let none: [ProtocolVersion; 0] = [];
    assert_eq!(encoded(SupportedVersionsClientHello::<Local>::new(&none)), Ok(empty.to_vec()));
}

#[test]
fn supported_versions_client_hello_parses_list_with_tls13() {
    let wire = [0x04, 0x03, 0x03, 0x03, 0x04];
    let mut parse = ParseBuffer::new(&wire);
    let list = SupportedVersionsClientHello::<Remote>::parse(&mut parse).ok().unwrap();
    assert_eq!(list.len(), 2);
    let mut it = list.iter();
    assert_eq!(it.next(), Some(ProtocolVersion(0x0303)));
    assert_eq!(it.next(), Some(tls13()));
    assert_eq!(it.next(), None);
    let odd = [0x03, 0x03, 0x04, 0x03];
    assert_eq!(
        SupportedVersionsClientHello::<Remote>::parse(&mut ParseBuffer::new(&odd)).err(),
        Some(ParseError::InsufficientSpace)
    );
    let cut = [0x04, 0x03, 0x04];
    assert_eq!(
        SupportedVersionsClientHello::<Remote>::parse(&mut ParseBuffer::new(&cut)).err(),
        Some(ParseError::InsufficientSpace)
    );
}

#[test]
fn supported_versions_server_hello_round_trip() {
    let wire = [0x03, 0x04];
    let selected = SupportedVersionsServerHello::parse(&mut ParseBuffer::new(&wire)).unwrap();
    assert_eq!(selected.selected_version, tls13());
    assert_eq!(tls13(), ProtocolVersion(0x0304));
    assert_eq!(encoded(selected), Ok(vec![0x03, 0x04]));
}

#[test]
fn psk_key_exchange_mode_values() {
    let ke = [0x00];
    assert_eq!(
        PskKeyExchangeMode::parse(&mut ParseBuffer::new(&ke)),
        Ok(PskKeyExchangeMode::PskKe)
    );
    let dhe = [0x01];
    assert_eq!(
        PskKeyExchangeMode::parse(&mut ParseBuffer::new(&dhe)),
        Ok(PskKeyExchangeMode::PskDheKe)
    );
    let other = [0x02];
    assert_eq!(
        PskKeyExchangeMode::parse(&mut ParseBuffer::new(&other)),
        Err(ParseError::InvalidData)
    );
    assert_eq!(encoded(PskKeyExchangeMode::PskKe), Ok(vec![0x00]));
    assert_eq!(encoded(PskKeyExchangeMode::PskDheKe), Ok(vec![0x01]));
}

#[test]
fn psk_key_exchange_modes_round_trip() {
    let modes = [PskKeyExchangeMode::PskDheKe, PskKeyExchangeMode::PskKe];
    let wire = encoded(PskKeyExchangeModes::<Local>::new(&modes)).unwrap();
    assert_eq!(wire, vec![0x02, 0x01, 0x00]);
    let list = PskKeyExchangeModes::<Remote>::parse(&mut ParseBuffer::new(&wire)).ok().unwrap();
    assert_eq!(list.len(), 2);
    let mut it = list.iter();
    assert_eq!(it.next(), Some(PskKeyExchangeMode::PskDheKe));
    assert_eq!(it.next(), Some(PskKeyExchangeMode::PskKe));
    assert_eq!(it.next(), None);
    let bad = [0x02, 0x01, 0x07];
    assert_eq!(
        PskKeyExchangeModes::<Remote>::parse(&mut ParseBuffer::new(&bad)).err(),
        Some(ParseError::InvalidData)
    );
}

#[test]
fn psk_identity_round_trip() {
    let wire = [0x00, 0x03, b'k', b'e', b'y', 0x01, 0x02, 0x03, 0x04];
    let identity = PskIdentity::parse(&mut ParseBuffer::new(&wire)).unwrap();
    assert_eq!(identity.identity, b"key");
    assert_eq!(identity.obfuscated_ticket_age, 0x0102_0304);
    assert_eq!(encoded(identity).unwrap(), wire);
    let cut_age = [0x00, 0x01, b'k', 0x00, 0x00];
    assert_eq!(
        PskIdentity::parse(&mut ParseBuffer::new(&cut_age)).err(),
        Some(ParseError::InsufficientSpace)
    );
}

#[test]
fn external_psk_identity_has_ticket_age_zero() {
    let identity = PskIdentity::external(b"vader");
    assert_eq!(identity.identity, b"vader");
    assert_eq!(identity.obfuscated_ticket_age, 0);
    assert_eq!(
        encoded(identity),
        Ok(vec![0x00, 0x05, b'v', b'a', b'd', b'e', b'r', 0, 0, 0, 0])
    );
}

#[test]
fn binder_placeholders_are_lengths_and_zeros() {
    let lens = [2u8, 0, 3];
    assert_eq!(
        encoded(Binders::<Local>::placeholders(&lens)),
        Ok(vec![0x00, 0x08, 2, 0, 0, 0, 3, 0, 0, 0])
    );
    let none: [u8; 0] = [];
    assert_eq!(encoded(Binders::<Local>::placeholders(&none)), Ok(vec![0x00, 0x00]));
}

#[test]
fn binders_parse_and_iterate() {
    let wire = [0x00, 0x05, 0x02, 0xAA, 0xBB, 0x01, 0xCC];
    let binders = Binders::<Remote>::parse(&mut ParseBuffer::new(&wire)).ok().unwrap();
    assert_eq!(binders.len(), 2);
    let mut it = binders.iter();
    assert_eq!(it.next().map(|b| b.0), Some(&[0xAA, 0xBB][..]));
    assert_eq!(it.next().map(|b| b.0), Some(&[0xCC][..]));
    assert!(it.next().is_none());
}

#[test]
fn pre_shared_key_offer_round_trip() {
    let identities = [PskIdentity::external(b"a"), PskIdentity::external(b"bc")];
    let lens = [2u8, 2];
    let offer: PreSharedKeyClientHello<Local> = PreSharedKeyClientHello {
        identities: PskIdentityList::new(&identities),
        binders: Binders::placeholders(&lens),
    };
    let wire = encoded(offer).unwrap();
    assert_eq!(
        wire,
        vec![
            0x00, 0x0F, 0x00, 0x01, b'a', 0, 0, 0, 0, 0x00, 0x02, b'b', b'c', 0, 0, 0, 0, 0x00,
            0x06, 2, 0, 0, 2, 0, 0
        ]
    );
    let mut parse = ParseBuffer::new(&wire);
    let parsed = PreSharedKeyClientHello::<Remote>::parse(&mut parse).ok().unwrap();
    assert!(parse.is_empty());
    assert_eq!(parsed.identities.len(), 2);
    assert_eq!(parsed.binders.len(), 2);
    let mut ids = parsed.identities.iter();
    assert_eq!(ids.next(), Some(identities[0]));
    assert_eq!(ids.next(), Some(identities[1]));
    assert_eq!(ids.next(), None);
    let mut binders = parsed.binders.iter();
    assert_eq!(binders.next().map(|b| b.0), Some(&[0u8, 0][..]));
    assert_eq!(binders.next().map(|b| b.0), Some(&[0u8, 0][..]));
}

#[test]
fn pre_shared_key_offer_with_unequal_lists_is_invalid_data() {
    // two identities, one binder
    let wire = [
        0x00, 0x0E, 0x00, 0x01, b'a', 0, 0, 0, 0, 0x00, 0x01, b'b', 0, 0, 0, 0, 0x00, 0x03, 2,
        0xAA, 0xBB,
    ];
    assert_eq!(
        PreSharedKeyClientHello::<Remote>::parse(&mut ParseBuffer::new(&wire)).err(),
        Some(ParseError::InvalidData)
    );
    // one identity, two binders
    let wire = [0x00, 0x07, 0x00, 0x01, b'a', 0, 0, 0, 0, 0x00, 0x04, 1, 0xAA, 1, 0xBB];
    assert_eq!(
        PreSharedKeyClientHello::<Remote>::parse(&mut ParseBuffer::new(&wire)).err(),
        Some(ParseError::InvalidData)
    );
    // one of each
    let wire = [0x00, 0x07, 0x00, 0x01, b'a', 0, 0, 0, 0, 0x00, 0x02, 1, 0xAA];
    assert!(PreSharedKeyClientHello::<Remote>::parse(&mut ParseBuffer::new(&wire)).is_ok());
    // none of either
    let wire = [0x00, 0x00, 0x00, 0x00];
    assert!(PreSharedKeyClientHello::<Remote>::parse(&mut ParseBuffer::new(&wire)).is_ok());
    // to send, room for one binder with two identities is written as it
    // stands, and is not read back
    let identities = [PskIdentity::external(b"a"), PskIdentity::external(b"b")];
    let lens = [2u8];
    let offer: PreSharedKeyClientHello<Local> = PreSharedKeyClientHello {
        identities: PskIdentityList::new(&identities),
        binders: Binders::placeholders(&lens),
    };
    let written = encoded(offer).unwrap();
    assert_eq!(
        written,
        vec![0x00, 0x0E, 0x00, 0x01, b'a', 0, 0, 0, 0, 0x00, 0x01, b'b', 0, 0, 0, 0, 0x00, 0x03, 2, 0, 0]
    );
    assert_eq!(
        PreSharedKeyClientHello::<Remote>::parse(&mut ParseBuffer::new(&written)).err(),
        Some(ParseError::InvalidData)
    );
}

#[test]
fn pre_shared_key_server_hello_round_trip() {
    let wire = [0x00, 0x01];
    let selected = PreSharedKeyServerHello::parse(&mut ParseBuffer::new(&wire)).unwrap();
    assert_eq!(selected.selected_identity, 1);
    assert_eq!(encoded(selected), Ok(vec![0x00, 0x01]));
}

#[test]
fn supported_groups_round_trip() {
    let groups = [NamedGroup::X25519, NamedGroup::Secp256r1, NamedGroup::X25519MLKEM768];
    let wire = encoded(SupportedGroups::<Local>::new(&groups)).unwrap();
    assert_eq!(wire, vec![0x00, 0x06, 0x00, 0x1D, 0x00, 0x17, 0x11, 0xEC]);
    let list = SupportedGroups::<Remote>::parse(&mut ParseBuffer::new(&wire)).ok().unwrap();
    assert_eq!(list.len(), 3);
    let mut it = list.iter();
    assert_eq!(it.next(), Some(NamedGroup::X25519));
    assert_eq!(it.next(), Some(NamedGroup::Secp256r1));
    assert_eq!(it.next(), Some(NamedGroup::X25519MLKEM768));
    assert_eq!(it.next(), None);
    let unknown = [0x00, 0x02, 0xAB, 0xCD];
    assert_eq!(
        SupportedGroups::<Remote>::parse(&mut ParseBuffer::new(&unknown)).err(),
        Some(ParseError::InvalidData)
    );
}

#[test]
fn signature_algorithms_round_trip() {
    let schemes = [SignatureScheme::EcdsaSecp256r1Sha256, SignatureScheme::Ed25519];
    let wire = encoded(SignatureAlgorithms::<Local>::new(&schemes)).unwrap();
    assert_eq!(wire, vec![0x00, 0x04, 0x04, 0x03, 0x08, 0x07]);
    let list = SignatureAlgorithms::<Remote>::parse(&mut ParseBuffer::new(&wire)).ok().unwrap();
    let mut it = list.iter();
    assert_eq!(it.next(), Some(SignatureScheme::EcdsaSecp256r1Sha256));
    assert_eq!(it.next(), Some(SignatureScheme::Ed25519));
    assert_eq!(it.next(), None);
    let same = encoded(SignatureAlgorithmsCert::<Local>::new(&schemes)).unwrap();
    assert_eq!(same, wire);
    let list = SignatureAlgorithmsCert::<Remote>::parse(&mut ParseBuffer::new(&same)).ok().unwrap();
    assert_eq!(list.len(), 2);
    assert_eq!(SignatureScheme::of(0x0804), Some(SignatureScheme::RsaPssRsaeSha256));
    assert_eq!(SignatureScheme::RsaPkcs1Sha256.as_u16(), 0x0401);
    assert_eq!(SignatureScheme::of(0xFFFF), None);
}

#[test]
fn max_fragment_length_values() {
    for (code, limit) in [
        (1u8, MaxFragmentLength::Bits9),
        (2, MaxFragmentLength::Bits10),
        (3, MaxFragmentLength::Bits11),
        (4, MaxFragmentLength::Bits12),
    ] {
        let wire = [code];
        assert_eq!(MaxFragmentLength::parse(&mut ParseBuffer::new(&wire)), Ok(limit));
        assert_eq!(encoded(limit), Ok(vec![code]));
    }
    let zero = [0u8];
    assert_eq!(
        MaxFragmentLength::parse(&mut ParseBuffer::new(&zero)),
        Err(ParseError::InvalidData)
    );
    let five = [5u8];
    assert_eq!(
        MaxFragmentLength::parse(&mut ParseBuffer::new(&five)),
        Err(ParseError::InvalidData)
    );
}

#[test]
fn unimplemented_takes_everything() {
    let wire = [1, 2, 3];
    let mut parse = ParseBuffer::new(&wire);
    parse.read_u8().unwrap();
    let body = Unimplemented::parse(&mut parse).unwrap();
    assert_eq!(body.data, &[2, 3]);
    assert!(parse.is_empty());
    assert_eq!(encoded(body), Ok(vec![2, 3]));
    let again = Unimplemented::parse(&mut parse).unwrap();
    assert_eq!(again.data.len(), 0);
}

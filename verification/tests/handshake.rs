use embedded_tls::alert::{AlertDescription, AlertLevel};
use embedded_tls::buffer::CryptoBuffer;
use embedded_tls::cipher_suites::CipherSuite;
use embedded_tls::config::TlsConfig;
use embedded_tls::crypto_engine::EphemeralSecret;
use embedded_tls::extensions::extension_data::max_fragment_length::MaxFragmentLength;
use embedded_tls::extensions::extension_data::pre_shared_key::PskIdentity;
use embedded_tls::extensions::extension_data::signature_algorithms::SignatureScheme;
use embedded_tls::extensions::extension_data::supported_groups::NamedGroup;
use embedded_tls::extensions::messages::{extensions, Extension};
use embedded_tls::extensions::ExtensionType;
use embedded_tls::handshake::certificate::{entry_extensions, CertificateEntryRef, CertificateRef};
use embedded_tls::handshake::certificate_request::CertificateRequestRef;
use embedded_tls::handshake::certificate_verify::CertificateVerify;
use embedded_tls::handshake::client_hello::ClientHello;
use embedded_tls::handshake::encrypted_extensions::EncryptedExtensions;
use embedded_tls::handshake::finished::Finished;
use embedded_tls::handshake::new_session_ticket::NewSessionTicket;
use embedded_tls::handshake::remote_hello::{
    parse_session_id, RemoteClientHello, RemoteServerHello,
};
use embedded_tls::handshake::{HandshakeType, LocalHandshake, RemoteHandshake};
use embedded_tls::key_schedule::{hmac_sha256, WriteKeySchedule};
use embedded_tls::parse_buffer::{ParseBuffer, ParseError};
use embedded_tls::parse_encode::{Encode, Parse};
use embedded_tls::transcript::Transcript;
use embedded_tls::TlsError;
use p256::elliptic_curve::sec1::ToEncodedPoint;

const ILLEGAL_PARAMETER: TlsError =
    TlsError::AbortHandshake(AlertLevel::Fatal, AlertDescription::IllegalParameter);

const HELLO_RETRY_RANDOM: [u8; 32] = [
    0xCF, 0x21, 0xAD, 0x74, 0xE5, 0x9A, 0x61, 0x11, 0xBE, 0x1D, 0x8C, 0x02, 0x1E, 0x65, 0xB8, 0x91,
    0xC2, 0xA2, 0x11, 0x16, 0x7A, 0xBB, 0x8C, 0x5E, 0x07, 0x9E, 0x09, 0xE2, 0xC8, 0xA8, 0x33, 0x9C,
];

#[test]
fn handshake_type_code_points() {
    let all = [
        (1u8, HandshakeType::ClientHello),
        (2, HandshakeType::ServerHello),
        (4, HandshakeType::NewSessionTicket),
        (5, HandshakeType::EndOfEarlyData),
        (8, HandshakeType::EncryptedExtensions),
        (11, HandshakeType::Certificate),
        (13, HandshakeType::CertificateRequest),
        (15, HandshakeType::CertificateVerify),
        (20, HandshakeType::Finished),
        (24, HandshakeType::KeyUpdate),
        (254, HandshakeType::MessageHash),
    ];
    for (code, t) in all {
        let wire = [code];
        assert_eq!(HandshakeType::parse(&mut ParseBuffer::new(&wire)), Ok(t));
        assert_eq!(t.as_u8(), code);
    }
    for code in [0u8, 3, 6, 21, 255] {
        let wire = [code];
        assert_eq!(
            HandshakeType::parse(&mut ParseBuffer::new(&wire)),
            Err(ParseError::InvalidData)
        );
    }
    assert_eq!(
        HandshakeType::parse(&mut ParseBuffer::new(&[])),
        Err(ParseError::InsufficientSpace)
    );
}

fn server_hello(random: &[u8; 32], session_id: &[u8], suite: [u8; 2], compression: u8, exts: &[u8]) -> Vec<u8> {
    let mut v = vec![0x03, 0x03];
    v.extend_from_slice(random);
    v.push(session_id.len() as u8);
    v.extend_from_slice(session_id);
    v.extend_from_slice(&suite);
    v.push(compression);
    v.extend_from_slice(&(exts.len() as u16).to_be_bytes());
    v.extend_from_slice(exts);
    v
}

const SELECTED_VERSION: [u8; 6] = [0x00, 0x2B, 0x00, 0x02, 0x03, 0x04];

fn key_share_extension(key: &[u8]) -> Vec<u8> {
    let mut v = vec![0x00, 0x33];
    v.extend_from_slice(&((key.len() + 4) as u16).to_be_bytes());
    v.extend_from_slice(&[0x00, 0x17]);
    v.extend_from_slice(&(key.len() as u16).to_be_bytes());
    v.extend_from_slice(key);
    v
}

#[test]
fn session_id_is_found_behind_version_and_random() {
    let mut wire = vec![0x03, 0x03];
    wire.extend_from_slice(&[0xAB; 32]);
    wire.extend_from_slice(&[0x03, 1, 2, 3, 0x99]);
    let mut parse = ParseBuffer::new(&wire);
    let id = parse_session_id(&mut parse).ok().unwrap();
    assert_eq!(id.as_slice(), &[1, 2, 3]);
    assert_eq!(parse.offset(), 38);
}

#[test]
fn session_id_errors() {
    assert_eq!(
        parse_session_id(&mut ParseBuffer::new(&[0x03])).err(),
        Some(TlsError::InvalidHandshake)
    );
    let mut wire = vec![0x03, 0x03];
    wire.extend_from_slice(&[0xAB; 31]);
    assert_eq!(
        parse_session_id(&mut ParseBuffer::new(&wire)).err(),
        Some(TlsError::DecodeError)
    );
    wire.push(0xAB);
    assert_eq!(
        parse_session_id(&mut ParseBuffer::new(&wire)).err(),
        Some(TlsError::InvalidSessionIdLength)
    );
    wire.push(0x02);
    wire.push(0x01);
    assert_eq!(
        parse_session_id(&mut ParseBuffer::new(&wire)).err(),
        Some(TlsError::InvalidSessionIdLength)
    );
    let mut long = vec![0x03, 0x03];
    long.extend_from_slice(&[0xAB; 32]);
    long.push(40);
    long.extend_from_slice(&[0u8; 40]);
    assert_eq!(parse_session_id(&mut ParseBuffer::new(&long)).ok().unwrap().remaining(), 40);
    long[34] = 41;
    assert_eq!(
        parse_session_id(&mut ParseBuffer::new(&long)).err(),
        Some(TlsError::InvalidSessionIdLength)
    );
}

#[test]
fn server_hello_parses() {
    let mut exts = SELECTED_VERSION.to_vec();
    exts.extend_from_slice(&key_share_extension(&[0xAA, 0xBB]));
    let wire = server_hello(&[0x42; 32], &[9; 32], [0x13, 0x01], 0, &exts);
    let mut parse = ParseBuffer::new(&wire);
    let hello = RemoteServerHello::parse(&mut parse).ok().unwrap();
    assert!(parse.is_empty());
    assert_eq!(hello.random, &[0x42; 32]);
    assert_eq!(hello.session_id, &[9; 32]);
    assert_eq!(hello.cipher_suite, CipherSuite::TlsAes128GcmSha256);
    assert!(!hello.is_hello_retry_request());
    assert_eq!(hello.extensions.len(), 2);
    let share = hello.key_share().unwrap();
    assert_eq!(share.group, NamedGroup::Secp256r1);
    assert_eq!(share.opaque, &[0xAA, 0xBB]);
}

#[test]
fn server_hello_without_key_share_has_none() {
    let wire = server_hello(&[0x42; 32], &[], [0x13, 0x01], 0, &SELECTED_VERSION);
    let hello = RemoteServerHello::parse(&mut ParseBuffer::new(&wire)).ok().unwrap();
    assert_eq!(hello.session_id.len(), 0);
    assert!(hello.key_share().is_none());
    let secret = EphemeralSecret::from_bytes([1u8; 32]);
    assert!(hello.calculate_shared_secret(&secret).is_none());
    assert!(hello.initialize_crypto_engine(&secret).is_none());
}

#[test]
fn server_hello_gives_the_first_key_share() {
    let mut exts = key_share_extension(&[1]);
    exts.extend_from_slice(&SELECTED_VERSION);
    exts.extend_from_slice(&key_share_extension(&[2]));
    let wire = server_hello(&[0x42; 32], &[], [0x13, 0x01], 0, &exts);
    let hello = RemoteServerHello::parse(&mut ParseBuffer::new(&wire)).ok().unwrap();
    assert_eq!(hello.key_share().unwrap().opaque, &[1]);
}

#[test]
fn server_hello_errors() {
    let good = server_hello(&[0x42; 32], &[], [0x13, 0x01], 0, &SELECTED_VERSION);
    for (cut, error) in [
        (1, TlsError::InvalidHandshake),
        (20, TlsError::DecodeError),
        (34, TlsError::InvalidSessionIdLength),
        (35, TlsError::InvalidCipherSuite),
        (36, TlsError::InvalidCipherSuite),
        (37, TlsError::DecodeError),
        (38, TlsError::InvalidExtensionsLength),
        (39, TlsError::InvalidExtensionsLength),
        (41, TlsError::DecodeError),
    ] {
        assert_eq!(
            RemoteServerHello::parse(&mut ParseBuffer::new(&good[..cut])).err(),
            Some(error),
            "cut at {}",
            cut
        );
    }
    let unknown_suite = server_hello(&[0x42; 32], &[], [0xFF, 0xFF], 0, &SELECTED_VERSION);
    assert_eq!(
        RemoteServerHello::parse(&mut ParseBuffer::new(&unknown_suite)).err(),
        Some(TlsError::InvalidCipherSuite)
    );
    let compressed = server_hello(&[0x42; 32], &[], [0x13, 0x01], 1, &SELECTED_VERSION);
    assert_eq!(
        RemoteServerHello::parse(&mut ParseBuffer::new(&compressed)).err(),
        Some(ILLEGAL_PARAMETER)
    );
    // an extension of a ClientHello has no place in a ServerHello
    let misplaced = server_hello(&[0x42; 32], &[], [0x13, 0x01], 0, &[0x00, 0x0A, 0x00, 0x02, 0x00, 0x00]);
    assert_eq!(
        RemoteServerHello::parse(&mut ParseBuffer::new(&misplaced)).err(),
        Some(ILLEGAL_PARAMETER)
    );
    // five extensions are one too many
    let mut five = Vec::new();
    for _ in 0..5 {
        five.extend_from_slice(&[0x00, 0x2C, 0x00, 0x00]);
    }
    let crowded = server_hello(&[0x42; 32], &[], [0x13, 0x01], 0, &five);
    assert_eq!(
        RemoteServerHello::parse(&mut ParseBuffer::new(&crowded)).err(),
        Some(TlsError::DecodeError)
    );
}

#[test]
fn hello_retry_request_is_told_by_its_random() {
    assert_eq!(Transcript::digest(b"HelloRetryRequest"), HELLO_RETRY_RANDOM);
    // in a HelloRetryRequest the key share names a group only
    let exts = [0x00, 0x33, 0x00, 0x02, 0x00, 0x18, 0x00, 0x2B, 0x00, 0x02, 0x03, 0x04];
    let wire = server_hello(&HELLO_RETRY_RANDOM, &[], [0x13, 0x01], 0, &exts);
    let hello = RemoteServerHello::parse(&mut ParseBuffer::new(&wire)).ok().unwrap();
    assert!(hello.is_hello_retry_request());
    assert!(hello.key_share().is_none());
    match &extensions(&hello.extensions)[0] {
        Extension::Opaque(t, body) => {
            assert_eq!(*t, ExtensionType::KeyShare);
            assert_eq!(body.data, &[0x00, 0x18]);
        }
        _ => panic!("not opaque"),
    }
    // the same extensions under another random are those of a ServerHello
    let mut other = HELLO_RETRY_RANDOM;
    other[31] ^= 1;
    let wire = server_hello(&other, &[], [0x13, 0x01], 0, &exts);
    assert_eq!(
        RemoteServerHello::parse(&mut ParseBuffer::new(&wire)).err(),
        Some(TlsError::DecodeError)
    );
}

fn scalar(last: u8) -> [u8; 32] {
    let mut s = [0x22u8; 32];
    s[31] = last;
    s
}

fn public_key(scalar: &[u8; 32]) -> Vec<u8> {
    let secret = p256::SecretKey::from_slice(scalar).unwrap();
    secret.public_key().to_encoded_point(false).as_bytes().to_vec()
}

#[test]
fn shared_secret_from_the_servers_key_share() {
    let (client, server) = (scalar(1), scalar(2));
    let exts = key_share_extension(&public_key(&server));
    let wire = server_hello(&[0x42; 32], &[], [0x13, 0x01], 0, &exts);
    let hello = RemoteServerHello::parse(&mut ParseBuffer::new(&wire)).ok().unwrap();
    let secret = EphemeralSecret::from_bytes(client);
    let shared = hello.calculate_shared_secret(&secret).unwrap();
    let expected = p256::ecdh::diffie_hellman(
        p256::SecretKey::from_slice(&server).unwrap().to_nonzero_scalar(),
        p256::PublicKey::from_sec1_bytes(&public_key(&client)).unwrap().as_affine(),
    );
    assert_eq!(&shared.raw_secret_bytes()[..], &expected.raw_secret_bytes()[..]);
    let engine = hello.initialize_crypto_engine(&secret).unwrap();
    assert_eq!(engine.group, NamedGroup::Secp256r1);
    assert_eq!(engine.shared.raw_secret_bytes(), shared.raw_secret_bytes());

    let broken = server_hello(&[0x42; 32], &[], [0x13, 0x01], 0, &key_share_extension(&[4, 1, 2]));
    let hello = RemoteServerHello::parse(&mut ParseBuffer::new(&broken)).ok().unwrap();
    assert!(hello.key_share().is_some());
    assert!(hello.calculate_shared_secret(&secret).is_none());
    assert!(hello.initialize_crypto_engine(&secret).is_none());
}

const SCHEMES: [SignatureScheme; 2] =
    [SignatureScheme::EcdsaSecp256r1Sha256, SignatureScheme::RsaPssRsaeSha256];
const GROUPS: [NamedGroup; 1] = [NamedGroup::Secp256r1];

fn encode_hello(hello: &ClientHello) -> Vec<u8> {
    let mut bytes = [0u8; 1024];
    let mut buf = CryptoBuffer::wrap(&mut bytes);
    hello.encode(&mut buf).unwrap();
    buf.as_slice().to_vec()
}

#[test]
fn client_hello_encodes_its_fixed_part() {
    let config = TlsConfig::new(&SCHEMES, &GROUPS);
    let key = [0x04u8; 65];
    let hello = ClientHello::new(&config, [0xA1; 32], [0xB2; 32], &key);
    let wire = encode_hello(&hello);
    assert_eq!(&wire[..2], &[0x03, 0x03]);
    assert_eq!(&wire[2..34], &[0xA1; 32]);
    assert_eq!(wire[34], 32);
    assert_eq!(&wire[35..67], &[0xB2; 32]);
    assert_eq!(&wire[67..71], &[0x00, 0x02, 0x13, 0x01]);
    assert_eq!(&wire[71..73], &[0x01, 0x00]);
    let ext_len = u16::from_be_bytes([wire[73], wire[74]]) as usize;
    assert_eq!(wire.len(), 75 + ext_len);
    // supported_versions comes first
    assert_eq!(&wire[75..82], &[0x00, 0x2B, 0x00, 0x03, 0x02, 0x03, 0x04]);
    // signature_algorithms next
    assert_eq!(&wire[82..92], &[0x00, 0x0D, 0x00, 0x06, 0x00, 0x04, 0x04, 0x03, 0x08, 0x04]);
}

#[test]
fn client_hello_parses_back() {
    let identities = [PskIdentity::external(b"id")];
    let config = TlsConfig::new(&SCHEMES, &GROUPS)
        .with_server_name("example.com")
        .with_max_fragment_length(MaxFragmentLength::Bits10)
        .with_psk(&identities);
    let key = public_key(&scalar(3));
    let hello = ClientHello::new(&config, [0xA1; 32], [0xB2; 32], &key);
    let wire = encode_hello(&hello);
    let mut parse = ParseBuffer::new(&wire);
    let parsed = RemoteClientHello::parse(&mut parse).ok().unwrap();
    assert!(parse.is_empty());
    assert_eq!(parsed.random, &[0xA1; 32]);
    assert_eq!(parsed.session_id, &[0xB2; 32]);
    assert_eq!(parsed.cipher_suites, &[0x13, 0x01]);
    let mut suites = parsed.cipher_suites();
    assert_eq!(suites.next(), Some(Ok(CipherSuite::TlsAes128GcmSha256)));
    assert_eq!(suites.next(), None);
    let all = extensions(&parsed.extensions);
    let types: Vec<ExtensionType> = all.iter().map(|e| e.extension_type()).collect();
    assert_eq!(
        types,
        vec![
            ExtensionType::SupportedVersions,
            ExtensionType::SignatureAlgorithms,
            ExtensionType::MaxFragmentLength,
            ExtensionType::SupportedGroups,
            ExtensionType::PskKeyExchangeModes,
            ExtensionType::KeyShare,
            ExtensionType::ServerName,
            ExtensionType::PreSharedKey,
        ]
    );
    match &all[1] {
        Extension::SignatureAlgorithms(list) => {
            let mut it = list.iter();
            assert_eq!(it.next(), Some(SCHEMES[0]));
            assert_eq!(it.next(), Some(SCHEMES[1]));
            assert_eq!(it.next(), None);
        }
        _ => panic!("not signature_algorithms"),
    }
    match &all[2] {
        Extension::MaxFragmentLength(limit) => assert_eq!(*limit, MaxFragmentLength::Bits10),
        _ => panic!("not max_fragment_length"),
    }
    match &all[5] {
        Extension::KeyShares(shares) => {
            let mut it = shares.key_shares();
            let share = it.next().unwrap();
            assert_eq!(share.group, NamedGroup::Secp256r1);
            assert_eq!(share.opaque, &key[..]);
            assert!(it.next().is_none());
        }
        _ => panic!("not key_share"),
    }
    match &all[6] {
        Extension::ServerName(names) => {
            assert_eq!(names.iter().next().map(|n| n.name), Some("example.com"));
        }
        _ => panic!("not server_name"),
    }
    match &all[7] {
        Extension::PreSharedKey(offer) => {
            assert_eq!(offer.identities.iter().next(), Some(identities[0]));
            assert_eq!(offer.binders.iter().next().map(|b| b.0), Some(&[0u8; 32][..]));
            assert_eq!(offer.binders.len(), 1);
        }
        _ => panic!("not pre_shared_key"),
    }
}

#[test]
fn client_hello_without_options_has_five_extensions() {
    let config = TlsConfig::new(&SCHEMES, &GROUPS);
    let key = public_key(&scalar(3));
    let wire = encode_hello(&ClientHello::new(&config, [0; 32], [0; 32], &key));
    let parsed = RemoteClientHello::parse(&mut ParseBuffer::new(&wire)).ok().unwrap();
    assert_eq!(parsed.extensions.len(), 5);
}

#[test]
fn client_hello_that_cannot_be_written_leaves_the_buffer() {
    let key = [4u8; 65];
    let mut bytes = [0u8; 1024];
    let mut buf = CryptoBuffer::wrap(&mut bytes);
    buf.push(0x55).unwrap();

    let five = [PskIdentity::external(b"x"); 5];
    let config = TlsConfig::new(&SCHEMES, &GROUPS).with_psk(&five);
    let hello = ClientHello::new(&config, [0; 32], [0; 32], &key);
    assert_eq!(hello.encode(&mut buf), Err(TlsError::EncodeError));
    assert_eq!(buf.as_slice(), &[0x55]);

    let config = TlsConfig::new(&SCHEMES, &GROUPS);
    let hello = ClientHello::new(&config, [0; 32], [0; 32], &key);
    let mut small = [0u8; 100];
    let mut buf = CryptoBuffer::wrap(&mut small);
    assert_eq!(hello.encode(&mut buf), Err(TlsError::EncodeError));
    assert_eq!(buf.len(), 0);
}

#[test]
fn remote_client_hello_errors() {
    let config = TlsConfig::new(&SCHEMES, &GROUPS);
    let key = [4u8; 65];
    let good = encode_hello(&ClientHello::new(&config, [0; 32], [0; 32], &key));
    for (cut, error) in [
        (0, TlsError::InvalidHandshake),
        (33, TlsError::DecodeError),
        (66, TlsError::InvalidSessionIdLength),
        (68, TlsError::InvalidCipherSuite),
        (70, TlsError::InvalidCipherSuite),
        (71, TlsError::InvalidHandshake),
        (72, TlsError::InvalidHandshake),
        (74, TlsError::InvalidExtensionsLength),
        (80, TlsError::DecodeError),
    ] {
        assert_eq!(
            RemoteClientHello::parse(&mut ParseBuffer::new(&good[..cut])).err(),
            Some(error),
            "cut at {}",
            cut
        );
    }
    let mut odd = good.clone();
    odd[68] = 3;
    assert_eq!(
        RemoteClientHello::parse(&mut ParseBuffer::new(&odd)).err(),
        Some(TlsError::InvalidCipherSuite)
    );
}

#[test]
fn remote_client_hello_passes_over_compression_methods() {
    let mut wire = vec![0x03, 0x03];
    wire.extend_from_slice(&[7; 32]);
    wire.push(0);
    // no cipher suites, three compression methods, no extensions
    wire.extend_from_slice(&[0x00, 0x00, 0x03, 0x01, 0x02, 0x03, 0x00, 0x00]);
    let mut parse = ParseBuffer::new(&wire);
    let hello = RemoteClientHello::parse(&mut parse).ok().unwrap();
    assert!(parse.is_empty());
    assert_eq!(hello.cipher_suites().next(), None);
    assert_eq!(hello.extensions.len(), 0);
    let cut = &wire[..wire.len() - 3];
    assert_eq!(
        RemoteClientHello::parse(&mut ParseBuffer::new(cut)).err(),
        Some(TlsError::InvalidHandshake)
    );
}

#[test]
fn cipher_suites_of_a_client_hello_known_and_unknown() {
    let mut wire = vec![0x03, 0x03];
    wire.extend_from_slice(&[0; 32]);
    wire.push(0);
    wire.extend_from_slice(&[0x00, 0x06, 0x13, 0x02, 0xAA, 0xAA, 0x13, 0x01]);
    wire.extend_from_slice(&[0x01, 0x00, 0x00, 0x00]);
    let hello = RemoteClientHello::parse(&mut ParseBuffer::new(&wire)).ok().unwrap();
    let mut suites = hello.cipher_suites();
    assert_eq!(suites.next(), Some(Ok(CipherSuite::TlsAes256GcmSha384)));
    assert_eq!(suites.next(), Some(Err(TlsError::InvalidCipherSuite)));
    assert_eq!(suites.next(), Some(Ok(CipherSuite::TlsAes128GcmSha256)));
    assert_eq!(suites.next(), None);
    assert_eq!(suites.next(), None);
}

#[test]
fn finalize_without_psk_feeds_the_message_as_it_stands() {
    let config = TlsConfig::new(&SCHEMES, &GROUPS);
    let key = [4u8; 65];
    let message = LocalHandshake::ClientHello(ClientHello::new(&config, [1; 32], [2; 32], &key));
    let mut bytes = [0u8; 1024];
    let mut buf = CryptoBuffer::wrap(&mut bytes);
    message.encode(&mut buf).unwrap();
    let wire = buf.as_slice().to_vec();
    assert_eq!(wire[0], 1);
    assert_eq!(u32::from_be_bytes([0, wire[1], wire[2], wire[3]]) as usize, wire.len() - 4);
    let mut transcript = Transcript::new();
    let mut schedule = WriteKeySchedule::new();
    assert_eq!(message.finalize(&mut buf, &mut transcript, &mut schedule), Ok(()));
    assert_eq!(buf.as_slice(), &wire[..]);
    assert_eq!(transcript.hash(), Transcript::digest(&wire));
}

#[test]
fn finalize_with_psk_fills_the_binders() {
    let identities = [PskIdentity::external(b"one"), PskIdentity::external(b"two")];
    let config = TlsConfig::new(&SCHEMES, &GROUPS).with_psk(&identities);
    let key = [4u8; 65];
    let message = LocalHandshake::ClientHello(ClientHello::new(&config, [1; 32], [2; 32], &key));
    let mut bytes = [0u8; 1024];
    let mut buf = CryptoBuffer::wrap(&mut bytes);
    message.encode(&mut buf).unwrap();
    let before = buf.as_slice().to_vec();
    let pos = before.len() - 66;
    assert_eq!(&before[pos - 2..pos], &[0x00, 66]);
    assert_eq!(before[pos], 32);
    assert_eq!(&before[pos + 1..pos + 33], &[0u8; 32]);

    let mut transcript = Transcript::new();
    transcript.update(b"earlier");
    let mut schedule = WriteKeySchedule::new();
    // without a binder key nothing happens
    assert_eq!(
        message.finalize(&mut buf, &mut transcript, &mut schedule),
        Err(TlsError::EncodeError)
    );
    assert_eq!(buf.as_slice(), &before[..]);
    assert_eq!(transcript.hash(), Transcript::digest(b"earlier"));

    schedule.set_binder_key([9u8; 32]);
    assert_eq!(message.finalize(&mut buf, &mut transcript, &mut schedule), Ok(()));
    let after = buf.as_slice().to_vec();
    assert_eq!(after.len(), before.len());
    assert_eq!(&after[..pos], &before[..pos]);
    let mut signed = b"earlier".to_vec();
    signed.extend_from_slice(&before[..pos]);
    let binder = hmac_sha256(&[9u8; 32], &Transcript::digest(&signed));
    assert_eq!(after[pos], 32);
    assert_eq!(&after[pos + 1..pos + 33], &binder);
    assert_eq!(after[pos + 33], 32);
    assert_eq!(&after[pos + 34..pos + 66], &binder);
    let mut all = b"earlier".to_vec();
    all.extend_from_slice(&after);
    assert_eq!(transcript.hash(), Transcript::digest(&all));
}

#[test]
fn finalize_with_psk_needs_room_for_the_binders() {
    let identities = [PskIdentity::external(b"one")];
    let config = TlsConfig::new(&SCHEMES, &GROUPS).with_psk(&identities);
    let key = [4u8; 65];
    let message = LocalHandshake::ClientHello(ClientHello::new(&config, [1; 32], [2; 32], &key));
    let mut bytes = [0u8; 64];
    let mut buf = CryptoBuffer::wrap(&mut bytes);
    buf.extend_from_slice(&[0u8; 32]).unwrap();
    let mut transcript = Transcript::new();
    let mut schedule = WriteKeySchedule::new();
    schedule.set_binder_key([9u8; 32]);
    assert_eq!(
        message.finalize(&mut buf, &mut transcript, &mut schedule),
        Err(TlsError::EncodeError)
    );
    assert_eq!(transcript.hash(), Transcript::new().hash());
}

#[test]
fn finished_round_trip() {
    let wire = [0x5A; 32];
    let mut parse = ParseBuffer::new(&wire);
    let finished = Finished::parse(&mut parse, 32).unwrap();
    assert_eq!(finished.verify, [0x5A; 32]);
    assert_eq!(finished.hash, None);
    assert!(parse.is_empty());
    let mut bytes = [0u8; 32];
    let mut buf = CryptoBuffer::wrap(&mut bytes);
    finished.encode(&mut buf).unwrap();
    assert_eq!(buf.as_slice(), &wire);
    assert_eq!(Finished::parse(&mut ParseBuffer::new(&wire), 31), Err(TlsError::DecodeError));
    assert_eq!(Finished::parse(&mut ParseBuffer::new(&wire), 48), Err(TlsError::DecodeError));
    assert_eq!(
        Finished::parse(&mut ParseBuffer::new(&wire[..31]), 32),
        Err(TlsError::DecodeError)
    );
}

#[test]
fn certificate_verify_round_trip() {
    let wire = [0x04, 0x03, 0x00, 0x03, 0xDE, 0xAD, 0xBF];
    let verify = CertificateVerify::parse(&mut ParseBuffer::new(&wire)).unwrap();
    assert_eq!(verify.signature_scheme, SignatureScheme::EcdsaSecp256r1Sha256);
    assert_eq!(verify.signature, &[0xDE, 0xAD, 0xBF]);
    let mut bytes = [0u8; 16];
    let mut buf = CryptoBuffer::wrap(&mut bytes);
    verify.encode(&mut buf).unwrap();
    assert_eq!(buf.as_slice(), &wire);
    for bad in [&[0x04][..], &[0xFF, 0xFF, 0x00, 0x00][..], &[0x04, 0x03, 0x00][..], &[0x04, 0x03, 0x00, 0x02, 0x01][..]] {
        assert_eq!(
            CertificateVerify::parse(&mut ParseBuffer::new(bad)).err(),
            Some(TlsError::DecodeError)
        );
    }
}

#[test]
fn certificate_round_trip() {
    let wire = [
        0x01, 0x77, // request context
        0x00, 0x00, 0x0F, // fifteen bytes of entries
        0x00, 0x00, 0x02, 0xC1, 0xC2, 0x00, 0x00, // a certificate without extensions
        0x00, 0x00, 0x01, 0xC3, 0x00, 0x04, 0x00, 0x05, 0x00, 0x00, // one with status_request
    ];
    // the second entry takes ten bytes, so the list is seventeen
    let mut wire = wire.to_vec();
    wire[4] = 0x11;
    let mut parse = ParseBuffer::new(&wire);
    let cert = CertificateRef::parse(&mut parse).unwrap();
    assert!(parse.is_empty());
    assert_eq!(cert.request_context, &[0x77]);
    assert_eq!(cert.raw_entries, &wire[5..]);
    let mut entries = cert.entries();
    let first = entries.next().unwrap();
    assert_eq!(first.cert_data, &[0xC1, 0xC2]);
    assert_eq!(entry_extensions(&first).ok().unwrap().len(), 0);
    let second = entries.next().unwrap();
    assert_eq!(second.cert_data, &[0xC3]);
    let exts = entry_extensions(&second).ok().unwrap();
    assert_eq!(exts.len(), 1);
    assert_eq!(extensions(&exts)[0].extension_type(), ExtensionType::StatusRequest);
    assert!(entries.next().is_none());

    let mut bytes = [0u8; 64];
    let mut buf = CryptoBuffer::wrap(&mut bytes);
    cert.encode(&mut buf).unwrap();
    assert_eq!(buf.as_slice(), &wire[..]);
}

#[test]
fn certificate_entry_encodes_with_empty_extensions() {
    let entry = CertificateEntryRef::x509(&[1, 2, 3]);
    let mut bytes = [0u8; 16];
    let mut buf = CryptoBuffer::wrap(&mut bytes);
    entry.encode(&mut buf).unwrap();
    assert_eq!(buf.as_slice(), &[0x00, 0x00, 0x03, 1, 2, 3, 0x00, 0x00]);
    let wire = buf.as_slice().to_vec();
    assert_eq!(CertificateEntryRef::parse(&mut ParseBuffer::new(&wire)), Ok(entry));
}

#[test]
fn certificate_errors() {
    for bad in [
        &[][..],
        &[0x02, 0x01][..],
        &[0x00, 0x00, 0x00][..],
        &[0x00, 0x00, 0x00, 0x05, 0x00][..],
        // an entry cut short
        &[0x00, 0x00, 0x00, 0x04, 0x00, 0x00, 0x02, 0xC1][..],
        // an entry without its extensions
        &[0x00, 0x00, 0x00, 0x04, 0x00, 0x00, 0x01, 0xC1][..],
    ] {
        assert_eq!(
            CertificateRef::parse(&mut ParseBuffer::new(bad)).err(),
            Some(TlsError::DecodeError)
        );
    }
    let entry = CertificateEntryRef { cert_data: &[1], extensions: &[0x00, 0x33, 0x00, 0x00] };
    assert_eq!(entry_extensions(&entry).err(), Some(ILLEGAL_PARAMETER));
}

#[test]
fn certificate_request_parses() {
    let wire = [0x02, 0xA, 0xB, 0x00, 0x08, 0x00, 0x0D, 0x00, 0x04, 0x00, 0x02, 0x08, 0x07];
    let req = CertificateRequestRef::parse(&mut ParseBuffer::new(&wire)).ok().unwrap();
    assert_eq!(req.request_context, &[0xA, 0xB]);
    assert_eq!(req.extensions.len(), 1);
    assert_eq!(
        CertificateRequestRef::parse(&mut ParseBuffer::new(&[0x02, 0x0A])).err(),
        Some(TlsError::DecodeError)
    );
    assert_eq!(
        CertificateRequestRef::parse(&mut ParseBuffer::new(&[0x00])).err(),
        Some(TlsError::InvalidExtensionsLength)
    );
    let misplaced = [0x00, 0x00, 0x04, 0x00, 0x33, 0x00, 0x00];
    assert_eq!(
        CertificateRequestRef::parse(&mut ParseBuffer::new(&misplaced)).err(),
        Some(ILLEGAL_PARAMETER)
    );
}

#[test]
fn encrypted_extensions_parse() {
    let wire = [0x00, 0x09, 0x00, 0x00, 0x00, 0x00, 0x00, 0x01, 0x00, 0x01, 0x02];
    let ee = EncryptedExtensions::parse(&mut ParseBuffer::new(&wire)).ok().unwrap();
    let all = extensions(&ee.extensions);
    assert_eq!(all.len(), 2);
    assert_eq!(all[0].extension_type(), ExtensionType::ServerName);
    match &all[1] {
        Extension::MaxFragmentLength(limit) => assert_eq!(*limit, MaxFragmentLength::Bits10),
        _ => panic!("not max_fragment_length"),
    }
}

#[test]
fn new_session_ticket_parses() {
    let wire = [
        0x00, 0x00, 0x0E, 0x10, // lifetime
        0x01, 0x02, 0x03, 0x04, // age add
        0x02, 0xAA, 0xBB, // nonce
        0x00, 0x03, 0x01, 0x02, 0x03, // ticket
        0x00, 0x04, 0x00, 0x2A, 0x00, 0x00, // early_data
    ];
    let ticket = NewSessionTicket::parse(&mut ParseBuffer::new(&wire)).ok().unwrap();
    assert_eq!(ticket.lifetime, 3600);
    assert_eq!(ticket.age_add, 0x0102_0304);
    assert_eq!(ticket.nonce, &[0xAA, 0xBB]);
    assert_eq!(ticket.ticket, &[1, 2, 3]);
    assert_eq!(ticket.extensions.len(), 1);
    for cut in [0, 7, 8, 10, 12, 15] {
        assert_eq!(
            NewSessionTicket::parse(&mut ParseBuffer::new(&wire[..cut])).err(),
            Some(TlsError::DecodeError)
        );
    }
    assert_eq!(
        NewSessionTicket::parse(&mut ParseBuffer::new(&wire[..16])).err(),
        Some(TlsError::InvalidExtensionsLength)
    );
    let mut two = wire[..16].to_vec();
    two.extend_from_slice(&[0x00, 0x08, 0x00, 0x2A, 0x00, 0x00, 0x00, 0x2A, 0x00, 0x00]);
    assert_eq!(
        NewSessionTicket::parse(&mut ParseBuffer::new(&two)).err(),
        Some(TlsError::DecodeError)
    );
}

fn message(t: u8, body: &[u8]) -> Vec<u8> {
    let mut v = vec![t];
    v.extend_from_slice(&(body.len() as u32).to_be_bytes()[1..]);
    v.extend_from_slice(body);
    v
}

#[test]
fn remote_handshake_reads_each_message() {
    let hello = message(2, &server_hello(&[0x42; 32], &[], [0x13, 0x01], 0, &SELECTED_VERSION));
    let ee = message(8, &[0x00, 0x00]);
    let cert = message(11, &[0x00, 0x00, 0x00, 0x00]);
    let req = message(13, &[0x00, 0x00, 0x00]);
    let verify = message(15, &[0x08, 0x07, 0x00, 0x01, 0xFF]);
    let finished = message(20, &[0x33; 32]);
    let mut ticket = vec![0u8; 8];
    ticket.extend_from_slice(&[0x00, 0x00, 0x00, 0x00, 0x00]);
    let ticket = message(4, &ticket);
    for (wire, t) in [
        (&hello, HandshakeType::ServerHello),
        (&ee, HandshakeType::EncryptedExtensions),
        (&cert, HandshakeType::Certificate),
        (&req, HandshakeType::CertificateRequest),
        (&verify, HandshakeType::CertificateVerify),
        (&finished, HandshakeType::Finished),
        (&ticket, HandshakeType::NewSessionTicket),
    ] {
        let mut with_more = wire.clone();
        with_more.extend_from_slice(&[0xEE; 3]);
        let mut parse = ParseBuffer::new(&with_more);
        let mut transcript = Transcript::new();
        transcript.update(b"before");
        let read = RemoteHandshake::read(&mut parse, &mut transcript).ok().unwrap();
        assert_eq!(read.handshake_type(), t);
        assert_eq!(parse.offset(), wire.len());
        let mut all = b"before".to_vec();
        all.extend_from_slice(wire);
        assert_eq!(transcript.hash(), Transcript::digest(&all));
    }
}

#[test]
fn finished_carries_the_hash_of_the_transcript_before_it() {
    let first = message(8, &[0x00, 0x00]);
    let finished = message(20, &[0x33; 32]);
    let mut wire = first.clone();
    wire.extend_from_slice(&finished);
    let mut parse = ParseBuffer::new(&wire);
    let mut transcript = Transcript::new();
    RemoteHandshake::read(&mut parse, &mut transcript).ok().unwrap();
    match RemoteHandshake::read(&mut parse, &mut transcript).ok().unwrap() {
        RemoteHandshake::Finished(f) => {
            assert_eq!(f.verify, [0x33; 32]);
            assert_eq!(f.hash, Some(Transcript::digest(&first)));
        }
        _ => panic!("not finished"),
    }
    assert_eq!(transcript.hash(), Transcript::digest(&wire));
    // parsing alone leaves the hash open
    match RemoteHandshake::parse(&mut ParseBuffer::new(&finished)).ok().unwrap() {
        RemoteHandshake::Finished(f) => assert_eq!(f.hash, None),
        _ => panic!("not finished"),
    };
}

#[test]
fn remote_handshake_errors_leave_the_transcript() {
    let short_finished = message(20, &[0x33; 31]);
    let mut cut_body = message(8, &[0x00, 0x00]);
    cut_body.pop();
    for (wire, error) in [
        (vec![], TlsError::InvalidHandshake),
        (vec![3, 0, 0, 0], TlsError::InvalidHandshake),
        (vec![2, 0, 0], TlsError::InvalidHandshake),
        (vec![1, 0, 0, 0], TlsError::Unimplemented),
        (vec![5, 0, 0, 9], TlsError::Unimplemented),
        (vec![24, 0, 0, 1, 0], TlsError::Unimplemented),
        (vec![254, 0, 0, 0], TlsError::Unimplemented),
        (cut_body, TlsError::InvalidExtensionsLength),
        (short_finished, TlsError::DecodeError),
        (message(2, &[0x03]), TlsError::InvalidHandshake),
        (message(8, &[]), TlsError::InvalidExtensionsLength),
        (message(8, &[0x00, 0x04, 0x00, 0x33, 0x00, 0x00]), ILLEGAL_PARAMETER),
    ] {
        let mut transcript = Transcript::new();
        assert_eq!(
            RemoteHandshake::read(&mut ParseBuffer::new(&wire), &mut transcript).err(),
            Some(error),
            "{:?}",
            wire
        );
        assert_eq!(transcript.hash(), Transcript::new().hash());
    }
}

#[test]
fn local_handshake_messages_parse_back() {
    let finished = Finished { verify: [0x77; 32], hash: None };
    let verify = CertificateVerify { signature_scheme: SignatureScheme::Ed25519, signature: &[1, 2] };
    let entries = [0x00, 0x00, 0x01, 0xCC, 0x00, 0x00];
    let cert = CertificateRef { request_context: &[], raw_entries: &entries };
    for (local, t) in [
        (LocalHandshake::Finished(finished), HandshakeType::Finished),
        (LocalHandshake::ClientCertVerify(verify), HandshakeType::CertificateVerify),
        (LocalHandshake::ClientCert(cert), HandshakeType::Certificate),
    ] {
        assert_eq!(local.handshake_type(), t);
        let mut bytes = [0u8; 128];
        let mut buf = CryptoBuffer::wrap(&mut bytes);
        local.encode(&mut buf).unwrap();
        let wire = buf.as_slice().to_vec();
        let mut transcript = Transcript::new();
        LocalHandshake::finalize_encrypted(&mut buf, &mut transcript);
        assert_eq!(transcript.hash(), Transcript::digest(&wire));
        let mut parse = ParseBuffer::new(&wire);
        let remote = RemoteHandshake::parse(&mut parse).ok().unwrap();
        assert!(parse.is_empty());
        match (remote, &local) {
            (RemoteHandshake::Finished(r), LocalHandshake::Finished(l)) => assert_eq!(r, *l),
            (RemoteHandshake::CertificateVerify(r), LocalHandshake::ClientCertVerify(l)) => {
                assert_eq!(r, *l)
            }
            (RemoteHandshake::Certificate(r), LocalHandshake::ClientCert(l)) => assert_eq!(r, *l),
            _ => panic!("another message came back"),
        };
    }
}

#[test]
fn local_handshake_encode_inner_is_the_body() {
    let finished = LocalHandshake::Finished(Finished { verify: [0x77; 32], hash: None });
    let mut bytes = [0u8; 40];
    let mut buf = CryptoBuffer::wrap(&mut bytes);
    finished.encode_inner(&mut buf).unwrap();
    assert_eq!(buf.as_slice(), &[0x77; 32]);
    let mut bytes = [0u8; 40];
    let mut buf = CryptoBuffer::wrap(&mut bytes);
    finished.encode(&mut buf).unwrap();
    assert_eq!(&buf.as_slice()[..4], &[20, 0, 0, 32]);
    let mut small = [0u8; 35];
    let mut buf = CryptoBuffer::wrap(&mut small);
    assert_eq!(finished.encode(&mut buf), Err(TlsError::EncodeError));
    assert_eq!(buf.len(), 0);
}

#[test]
fn server_must_select_a_suite_that_was_offered() {
    let wire = server_hello(&[0x42; 32], &[], [0x13, 0x02], 0, &SELECTED_VERSION);
    let hello = RemoteServerHello::parse(&mut ParseBuffer::new(&wire)).ok().unwrap();
    assert_eq!(hello.cipher_suite, CipherSuite::TlsAes256GcmSha384);
    assert_eq!(hello.check_cipher_suite(&[CipherSuite::TlsAes128GcmSha256]), Err(ILLEGAL_PARAMETER));
    assert_eq!(hello.check_cipher_suite(&[]), Err(ILLEGAL_PARAMETER));
    assert_eq!(
        hello.check_cipher_suite(&[CipherSuite::TlsAes128GcmSha256, CipherSuite::TlsAes256GcmSha384]),
        Ok(())
    );
}

#[test]
fn client_hello_that_names_no_host_is_written_and_not_read_back() {
    let config = TlsConfig::new(&SCHEMES, &GROUPS).with_server_name("bad.");
    let key = [4u8; 65];
    let wire = encode_hello(&ClientHello::new(&config, [0; 32], [0; 32], &key));
    assert_eq!(
        RemoteClientHello::parse(&mut ParseBuffer::new(&wire)).err(),
        Some(TlsError::DecodeError)
    );
}

#[test]
fn announced_length_is_held_against_a_finished_message_only() {
    // EncryptedExtensions that announce nine bytes and hold two
    let wire = [8u8, 0, 0, 9, 0, 0];
    let mut parse = ParseBuffer::new(&wire);
    let read = RemoteHandshake::parse(&mut parse).ok().unwrap();
    assert_eq!(read.handshake_type(), HandshakeType::EncryptedExtensions);
    assert_eq!(parse.offset(), 6);
    // a Finished that announces 33 bytes
    let mut wire = vec![20u8, 0, 0, 33];
    wire.extend_from_slice(&[1u8; 33]);
    assert_eq!(
        RemoteHandshake::parse(&mut ParseBuffer::new(&wire)).err(),
        Some(TlsError::DecodeError)
    );
}

use embedded_tls::alert::{Alert, AlertDescription, AlertLevel};
use embedded_tls::buffer::CryptoBuffer;
use embedded_tls::change_cipher_spec::ChangeCipherSpec;
use embedded_tls::config::TlsConfig;
use embedded_tls::content_types::ContentType;
use embedded_tls::extensions::extension_data::signature_algorithms::SignatureScheme;
use embedded_tls::extensions::extension_data::supported_groups::NamedGroup;
use embedded_tls::handshake::finished::Finished;
use embedded_tls::handshake::{HandshakeType, LocalHandshake};
use embedded_tls::key_schedule::WriteKeySchedule;
use embedded_tls::parse_buffer::ParseBuffer;
use embedded_tls::record::{
    ClientRecordHeader, LocalRecord, RecordHeader, RemoteRecord, MAX_RECORD_LENGTH,
};
use embedded_tls::transcript::Transcript;
use embedded_tls::TlsError;

const UNEXPECTED_MESSAGE: TlsError =
    TlsError::AbortHandshake(AlertLevel::Fatal, AlertDescription::UnexpectedMessage);

#[test]
fn content_type_code_points() {
    for (code, t) in [
        (0u8, ContentType::Invalid),
        (20, ContentType::ChangeCipherSpec),
        (21, ContentType::Alert),
        (22, ContentType::Handshake),
        (23, ContentType::ApplicationData),
    ] {
        assert_eq!(ContentType::of(code), Some(t));
        assert_eq!(t.as_u8(), code);
    }
    assert_eq!(ContentType::of(1), None);
    assert_eq!(ContentType::of(24), None);
    assert_eq!(ContentType::of(255), None);
}

#[test]
fn alert_round_trip() {
    let alert = Alert::new(AlertLevel::Fatal, AlertDescription::HandshakeFailure);
    let mut bytes = [0u8; 2];
    let mut buf = CryptoBuffer::wrap(&mut bytes);
    assert_eq!(alert.encode(&mut buf), Ok(()));
    assert_eq!(buf.as_slice(), &[2, 40]);
    assert_eq!(alert.encode(&mut buf), Err(TlsError::EncodeError));
    let mut parse = ParseBuffer::new(&[2, 40, 9]);
    assert_eq!(Alert::parse(&mut parse), Ok(alert));
    assert_eq!(parse.offset(), 2);
    assert_eq!(
        Alert::parse(&mut ParseBuffer::new(&[1, 0])),
        Ok(Alert::new(AlertLevel::Warning, AlertDescription::CloseNotify))
    );
    for bad in [&[][..], &[1][..], &[0, 0][..], &[3, 0][..], &[1, 1][..], &[2, 255][..]] {
        assert_eq!(Alert::parse(&mut ParseBuffer::new(bad)), Err(TlsError::DecodeError));
    }
    assert_eq!(AlertDescription::of(47), Some(AlertDescription::IllegalParameter));
    assert_eq!(AlertDescription::IllegalParameter.as_u8(), 47);
    assert_eq!(AlertDescription::NoApplicationProtocol.as_u8(), 120);
    assert_eq!(AlertDescription::of(109), Some(AlertDescription::MissingExtension));
    assert_eq!(AlertLevel::of(1), Some(AlertLevel::Warning));
    assert_eq!(AlertLevel::Fatal.as_u8(), 2);
}

#[test]
fn change_cipher_spec_must_be_the_byte_one() {
    assert_eq!(ChangeCipherSpec::read(&[1]), Ok(ChangeCipherSpec::new()));
    for bad in [&[][..], &[0][..], &[2][..], &[1, 1][..]] {
        assert_eq!(ChangeCipherSpec::read(bad), Err(UNEXPECTED_MESSAGE));
    }
}

#[test]
fn client_record_header_in_the_clear_and_protected() {
    let all = [
        (ClientRecordHeader::Handshake(false), false, ContentType::Handshake, ContentType::Handshake, [3, 1]),
        (ClientRecordHeader::Alert(false), false, ContentType::Alert, ContentType::Alert, [3, 1]),
        (ClientRecordHeader::Handshake(true), true, ContentType::ApplicationData, ContentType::Handshake, [3, 3]),
        (ClientRecordHeader::Alert(true), true, ContentType::ApplicationData, ContentType::Alert, [3, 3]),
        (ClientRecordHeader::ApplicationData, true, ContentType::ApplicationData, ContentType::ApplicationData, [3, 3]),
    ];
    for (header, encrypted, outer, inner, version) in all {
        assert_eq!(header.is_encrypted(), encrypted);
        assert_eq!(header.header_content_type(), outer);
        assert_eq!(header.trailer_content_type(), inner);
        assert_eq!(header.version(), version);
        let mut bytes = [0u8; 4];
        let mut buf = CryptoBuffer::wrap(&mut bytes);
        buf.push(0xFF).unwrap();
        assert_eq!(header.encode(&mut buf), Ok(()));
        assert_eq!(buf.as_slice(), &[0xFF, outer.as_u8(), version[0], version[1]]);
        assert_eq!(header.encode(&mut buf), Err(TlsError::EncodeError));
        assert_eq!(buf.len(), 4);
    }
}

#[test]
fn record_header_decodes() {
    assert_eq!(RecordHeader::LEN, 5);
    let header = RecordHeader::decode([22, 3, 3, 0x01, 0x02]).ok().unwrap();
    assert_eq!(header.content_type(), ContentType::Handshake);
    assert_eq!(header.content_length(), 0x0102);
    assert_eq!(header.data(), &[22, 3, 3, 0x01, 0x02]);
    let header = RecordHeader::decode([23, 3, 3, 0x41, 0x00]).ok().unwrap();
    assert_eq!(header.content_type(), ContentType::ApplicationData);
    assert_eq!(header.content_length(), MAX_RECORD_LENGTH);
    let header = RecordHeader::decode([0, 0, 0, 0, 0]).ok().unwrap();
    assert_eq!(header.content_type(), ContentType::Invalid);
    assert_eq!(header.content_length(), 0);
}

#[test]
fn record_header_of_unknown_type_is_invalid() {
    assert_eq!(RecordHeader::decode([1, 3, 3, 0, 0]).err(), Some(TlsError::InvalidRecord));
    assert_eq!(RecordHeader::decode([19, 3, 3, 0, 0]).err(), Some(TlsError::InvalidRecord));
    assert_eq!(RecordHeader::decode([24, 3, 3, 0, 0]).err(), Some(TlsError::InvalidRecord));
    assert_eq!(RecordHeader::decode([255, 3, 3, 0, 0]).err(), Some(TlsError::InvalidRecord));
}

#[test]
fn record_header_of_each_known_type_decodes_whatever_its_length() {
    for t in [0u8, 20, 21, 22, 23] {
        for length in [[0u8, 0], [0x41, 0x00], [0x41, 0x01], [0xFF, 0xFF]] {
            let bytes = [t, 3, 3, length[0], length[1]];
            let header = RecordHeader::decode(bytes).ok().unwrap();
            assert_eq!(header.data(), &bytes);
            assert_eq!(header.content_type().as_u8(), t);
            assert_eq!(header.content_length(), usize::from(u16::from_be_bytes(length)));
        }
    }
}

#[test]
fn record_header_length_is_held_against_the_limit() {
    let header = RecordHeader::decode([23, 3, 3, 0, 0]).ok().unwrap();
    assert_eq!(header.check_length(), Ok(0));
    let header = RecordHeader::decode([23, 3, 3, 0x41, 0x00]).ok().unwrap();
    assert_eq!(header.check_length(), Ok(MAX_RECORD_LENGTH));
    let header = RecordHeader::decode([23, 3, 3, 0x41, 0x01]).ok().unwrap();
    assert_eq!(header.check_length(), Err(TlsError::InvalidRecord));
    let header = RecordHeader::decode([23, 3, 3, 0xFF, 0xFF]).ok().unwrap();
    assert_eq!(header.check_length(), Err(TlsError::InvalidRecord));
}

fn header_for(t: u8, len: usize) -> RecordHeader {
    RecordHeader::decode([t, 3, 3, (len >> 8) as u8, len as u8]).ok().unwrap()
}

#[test]
fn remote_record_of_each_content_type() {
    let mut transcript = Transcript::new();

    let mut data = [1u8];
    let record = RemoteRecord::decode(header_for(20, 1), &mut data, &mut transcript).ok().unwrap();
    assert_eq!(record.content_type(), ContentType::ChangeCipherSpec);

    let mut data = [2u8, 50];
    match RemoteRecord::decode(header_for(21, 2), &mut data, &mut transcript).ok().unwrap() {
        RemoteRecord::Alert(alert) => {
            assert_eq!(alert, Alert::new(AlertLevel::Fatal, AlertDescription::DecodeError))
        }
        _ => panic!("not an alert"),
    }

    let mut data = *b"ping";
    match RemoteRecord::decode(header_for(23, 4), &mut data, &mut transcript).ok().unwrap() {
        RemoteRecord::ApplicationData(app) => {
            assert_eq!(app.as_slice(), b"ping");
            assert_eq!(app.header.content_length(), 4);
            assert_eq!(app.header.data(), &[23, 3, 3, 0, 4]);
        }
        _ => panic!("not application data"),
    }
    assert_eq!(transcript.hash(), Transcript::new().hash());

    let mut data = [8u8, 0, 0, 2, 0, 0];
    let record = RemoteRecord::decode(header_for(22, 6), &mut data, &mut transcript).ok().unwrap();
    assert_eq!(record.content_type(), ContentType::Handshake);
    match record {
        RemoteRecord::Handshake(h) => {
            assert_eq!(h.handshake_type(), HandshakeType::EncryptedExtensions)
        }
        _ => panic!("not a handshake message"),
    }
    assert_eq!(transcript.hash(), Transcript::digest(&[8u8, 0, 0, 2, 0, 0]));
}

#[test]
fn remote_record_errors() {
    let mut transcript = Transcript::new();
    let mut data = [0u8; 3];
    assert_eq!(
        RemoteRecord::decode(header_for(0, 3), &mut data, &mut transcript).err(),
        Some(TlsError::Unimplemented)
    );
    let mut data = [2u8];
    assert_eq!(
        RemoteRecord::decode(header_for(20, 1), &mut data, &mut transcript).err(),
        Some(UNEXPECTED_MESSAGE)
    );
    let mut data = [9u8, 9];
    assert_eq!(
        RemoteRecord::decode(header_for(21, 2), &mut data, &mut transcript).err(),
        Some(TlsError::DecodeError)
    );
    let mut data = [99u8, 0, 0, 0];
    assert_eq!(
        RemoteRecord::decode(header_for(22, 4), &mut data, &mut transcript).err(),
        Some(TlsError::InvalidHandshake)
    );
    assert_eq!(transcript.hash(), Transcript::new().hash());
}

#[test]
fn close_notify_record() {
    for opened in [false, true] {
        let record = LocalRecord::close_notify(opened);
        assert_eq!(record.header(), ClientRecordHeader::Alert(opened));
        let mut bytes = [0u8; 8];
        let mut buf = CryptoBuffer::wrap(&mut bytes);
        buf.push(0xEE).unwrap();
        assert_eq!(record.encode_payload(&mut buf), Ok(2));
        assert_eq!(buf.as_slice(), &[0xEE, 1, 0]);
        let mut transcript = Transcript::new();
        let mut schedule = WriteKeySchedule::new();
        assert_eq!(record.finish_record(&mut buf, &mut transcript, &mut schedule), Ok(()));
        assert_eq!(transcript.hash(), Transcript::new().hash());
        assert_eq!(buf.as_slice(), &[0xEE, 1, 0]);
    }
}

#[test]
fn client_hello_record() {
    let schemes = [SignatureScheme::Ed25519];
    let groups = [NamedGroup::Secp256r1];
    let config = TlsConfig::new(&schemes, &groups);
    let key = [4u8; 65];
    let record = LocalRecord::client_hello(&config, [1; 32], [2; 32], &key);
    assert_eq!(record.header(), ClientRecordHeader::Handshake(false));
    let mut bytes = [0u8; 512];
    let mut buf = CryptoBuffer::wrap(&mut bytes);
    let n = record.encode_payload(&mut buf).unwrap();
    assert_eq!(n, buf.len());
    let wire = buf.as_slice().to_vec();
    assert_eq!(wire[0], 1);
    assert_eq!(&wire[4..6], &[3, 3]);
    assert_eq!(&wire[6..38], &[1; 32]);
    let mut transcript = Transcript::new();
    let mut schedule = WriteKeySchedule::new();
    assert_eq!(record.finish_record(&mut buf, &mut transcript, &mut schedule), Ok(()));
    assert_eq!(transcript.hash(), Transcript::digest(&wire));

    let mut small = [0u8; 16];
    let mut buf = CryptoBuffer::wrap(&mut small);
    assert_eq!(record.encode_payload(&mut buf), Err(TlsError::EncodeError));
    assert_eq!(buf.len(), 0);
}

#[test]
fn protected_handshake_record_is_fed_to_the_transcript_as_it_stands() {
    let record = LocalRecord::Handshake(
        LocalHandshake::Finished(Finished { verify: [5; 32], hash: None }),
        true,
    );
    assert_eq!(record.header(), ClientRecordHeader::Handshake(true));
    let mut bytes = [0u8; 64];
    let mut buf = CryptoBuffer::wrap(&mut bytes);
    assert_eq!(record.encode_payload(&mut buf), Ok(36));
    let wire = buf.as_slice().to_vec();
    let mut transcript = Transcript::new();
    transcript.update(b"x");
    let mut schedule = WriteKeySchedule::new();
    assert_eq!(record.finish_record(&mut buf, &mut transcript, &mut schedule), Ok(()));
    let mut all = b"x".to_vec();
    all.extend_from_slice(&wire);
    assert_eq!(transcript.hash(), Transcript::digest(&all));
}

#[test]
fn protected_record_is_read_by_its_inner_type() {
    let mut transcript = Transcript::new();

    let mut plaintext = *b"ping\x17\0\0";
    match RemoteRecord::decode_protected(header_for(23, 7), &mut plaintext, &mut transcript)
        .ok()
        .unwrap()
    {
        RemoteRecord::ApplicationData(app) => assert_eq!(app.as_slice(), b"ping"),
        _ => panic!("not application data"),
    }

    let mut plaintext = [1u8, 0, 21, 0, 0, 0];
    match RemoteRecord::decode_protected(header_for(23, 6), &mut plaintext, &mut transcript)
        .ok()
        .unwrap()
    {
        RemoteRecord::Alert(alert) => {
            assert_eq!(alert, Alert::new(AlertLevel::Warning, AlertDescription::CloseNotify))
        }
        _ => panic!("not an alert"),
    }
    assert_eq!(transcript.hash(), Transcript::new().hash());

    let mut plaintext = [20u8, 0, 0, 32, 7, 7, 7, 7, 7, 7, 7, 7, 7, 7, 7, 7, 7, 7, 7, 7, 7, 7, 7, 7, 7, 7,
        7, 7, 7, 7, 7, 7, 7, 7, 7, 7, 22, 0];
    match RemoteRecord::decode_protected(header_for(23, 38), &mut plaintext, &mut transcript)
        .ok()
        .unwrap()
    {
        RemoteRecord::Handshake(h) => assert_eq!(h.handshake_type(), HandshakeType::Finished),
        _ => panic!("not a handshake message"),
    }
    let mut message = vec![20u8, 0, 0, 32];
    message.extend_from_slice(&[7u8; 32]);
    assert_eq!(transcript.hash(), Transcript::digest(&message));
}

#[test]
fn protected_record_errors() {
    let mut transcript = Transcript::new();
    let mut zeros = [0u8; 4];
    assert_eq!(
        RemoteRecord::decode_protected(header_for(23, 4), &mut zeros, &mut transcript).err(),
        Some(UNEXPECTED_MESSAGE)
    );
    let mut unknown = [1u8, 2, 99];
    assert_eq!(
        RemoteRecord::decode_protected(header_for(23, 3), &mut unknown, &mut transcript).err(),
        Some(TlsError::InvalidRecord)
    );
    let mut short_alert = [1u8, 21];
    assert_eq!(
        RemoteRecord::decode_protected(header_for(23, 2), &mut short_alert, &mut transcript).err(),
        Some(TlsError::DecodeError)
    );
    let mut inner_ccs = [1u8, 20];
    assert!(matches!(
        RemoteRecord::decode_protected(header_for(23, 2), &mut inner_ccs, &mut transcript),
        Ok(RemoteRecord::ChangeCipherSpec(_))
    ));
    assert_eq!(transcript.hash(), Transcript::new().hash());
}

#[test]
fn whole_record_header_is_read_back() {
    for (header, t) in [
        (ClientRecordHeader::Handshake(false), ContentType::Handshake),
        (ClientRecordHeader::Alert(false), ContentType::Alert),
        (ClientRecordHeader::Handshake(true), ContentType::ApplicationData),
        (ClientRecordHeader::ApplicationData, ContentType::ApplicationData),
    ] {
        let mut bytes = [0u8; 5];
        let mut buf = CryptoBuffer::wrap(&mut bytes);
        assert_eq!(header.encode_with_length(0x1234, &mut buf), Ok(()));
        assert_eq!(&buf.as_slice()[3..], &[0x12, 0x34]);
        let read = RecordHeader::decode(bytes).ok().unwrap();
        assert_eq!(read.content_type(), t);
        assert_eq!(read.content_length(), 0x1234);
    }
    let mut bytes = [0u8; 5];
    let mut buf = CryptoBuffer::wrap(&mut bytes);
    assert_eq!(
        ClientRecordHeader::ApplicationData.encode_with_length(16641, &mut buf),
        Err(TlsError::EncodeError)
    );
    assert_eq!(buf.len(), 0);
    assert_eq!(ClientRecordHeader::ApplicationData.encode_with_length(16640, &mut buf), Ok(()));
    let mut small = [0u8; 4];
    let mut buf = CryptoBuffer::wrap(&mut small);
    assert_eq!(
        ClientRecordHeader::ApplicationData.encode_with_length(1, &mut buf),
        Err(TlsError::EncodeError)
    );
}

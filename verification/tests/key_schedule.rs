use embedded_tls::handshake::finished::Finished;
use embedded_tls::key_schedule::{
    derive_secret, expand_block, finished_key, hkdf_extract, traffic_iv, traffic_key, verify_data,
    KeySchedule, ReadKeySchedule, WriteKeySchedule,
};
use embedded_tls::transcript::Transcript;
use hkdf::Hkdf;
use hmac::{Hmac, Mac};

fn hex(s: &str) -> Vec<u8> {
    (0..s.len()).step_by(2).map(|i| u8::from_str_radix(&s[i..i + 2], 16).unwrap()).collect()
}

fn reference_expand_label(secret: &[u8], label: &str, context: &[u8], len: usize) -> Vec<u8> {
    let mut info = Vec::new();
    info.extend_from_slice(&(len as u16).to_be_bytes());
    info.push((label.len() + 6) as u8);
    info.extend_from_slice(b"tls13 ");
    info.extend_from_slice(label.as_bytes());
    info.push(context.len() as u8);
    info.extend_from_slice(context);
    let mut out = vec![0u8; len];
    Hkdf::<sha2::Sha256>::from_prk(secret).unwrap().expand(&info, &mut out).unwrap();
    out
}

fn reference_hmac(key: &[u8], msg: &[u8]) -> Vec<u8> {
    let mut mac = Hmac::<sha2::Sha256>::new_from_slice(key).unwrap();
    mac.update(msg);
    mac.finalize().into_bytes().to_vec()
}

#[test]
fn extract_agrees_with_hkdf() {
    for (salt, ikm) in [(&[0u8; 32][..], &[0u8; 32][..]), (&b"salt"[..], &b"input"[..]), (&[][..], &[7u8; 80][..])] {
        let (prk, _) = Hkdf::<sha2::Sha256>::extract(Some(salt), ikm);
        assert_eq!(hkdf_extract(salt, ikm).to_vec(), prk.to_vec());
    }
}

#[test]
fn early_secret_without_psk_is_the_known_value() {
    let early = KeySchedule::early(None);
    assert_eq!(
        early.secret().to_vec(),
        hex("33ad0a1c607ec03b09e6cd9893680ce210adf300aa1f2660e1b22e10f170f92a")
    );
    let with_psk = KeySchedule::early(Some(&[1u8; 32]));
    let (prk, _) = Hkdf::<sha2::Sha256>::extract(Some(&[0u8; 32]), &[1u8; 32]);
    assert_eq!(with_psk.secret().to_vec(), prk.to_vec());
}

#[test]
fn ladder_of_a_known_handshake() {
    let shared = hex("8bd4054fb55b9d63fdfbacf9f04b9f0d35e6d63f537563efd46272900f89492d");
    let early = KeySchedule::early(None);
    let handshake = early.handshake(Some(&shared));
    assert_eq!(
        handshake.secret().to_vec(),
        hex("1dc826e93606aa6fdc0aadc12f741b01046aa6b99f691ed221a9f0ca043fbeac")
    );
    let master = handshake.master();
    assert_eq!(
        master.secret().to_vec(),
        hex("18df06843d13a08bf2a449844c5f8a478001bc4d4c627984d5a41da8d0402919")
    );
}

#[test]
fn ladder_agrees_with_hkdf() {
    let empty_hash = Transcript::digest(b"");
    let early = KeySchedule::early(Some(b"psk"));
    let derived = reference_expand_label(early.secret(), "derived", &empty_hash, 32);
    let (expected, _) = Hkdf::<sha2::Sha256>::extract(Some(&derived), b"shared");
    let handshake = early.handshake(Some(b"shared"));
    assert_eq!(handshake.secret().to_vec(), expected.to_vec());
    let (expected, _) = Hkdf::<sha2::Sha256>::extract(Some(&derived), &[0u8; 32]);
    assert_eq!(early.handshake(None).secret().to_vec(), expected.to_vec());

    let derived = reference_expand_label(handshake.secret(), "derived", &empty_hash, 32);
    let (expected, _) = Hkdf::<sha2::Sha256>::extract(Some(&derived), &[0u8; 32]);
    assert_eq!(handshake.master().secret().to_vec(), expected.to_vec());
}

#[test]
fn derive_secret_agrees_with_hkdf() {
    let secret = [0x5Au8; 32];
    let hash = Transcript::digest(b"messages");
    for label in ["c hs traffic", "s hs traffic", "c ap traffic", "s ap traffic", "exp master", "res master", "ext binder", "derived", ""] {
        assert_eq!(
            derive_secret(&secret, label.as_bytes(), &hash).map(|s| s.to_vec()),
            Some(reference_expand_label(&secret, label, &hash, 32))
        );
        let stage = KeySchedule::early(Some(b"k"));
        assert_eq!(
            stage.derive(label.as_bytes(), &hash).map(|s| s.to_vec()),
            Some(reference_expand_label(stage.secret(), label, &hash, 32))
        );
    }
    let long = [b'x'; 250];
    assert_eq!(derive_secret(&secret, &long, &hash), None);
    assert!(derive_secret(&secret, &long[..249], &hash).is_some());
}

#[test]
fn expand_block_limits() {
    let secret = [1u8; 32];
    assert!(expand_block(&secret, b"l", &[0u8; 255], 32).is_some());
    assert!(expand_block(&secret, b"l", &[0u8; 256], 32).is_none());
    assert!(expand_block(&secret, b"l", b"c", 33).is_none());
    assert!(expand_block(&secret, &[0u8; 250], b"c", 1).is_none());
    // the length asked for is part of what is expanded
    assert_ne!(expand_block(&secret, b"l", b"c", 12), expand_block(&secret, b"l", b"c", 16));
    assert_eq!(
        expand_block(&secret, b"l", b"c", 16).map(|b| b[..16].to_vec()),
        Some(reference_expand_label(&secret, "l", b"c", 16))
    );
}

#[test]
fn traffic_keys_of_a_known_handshake() {
    let mut server = [0u8; 32];
    server.copy_from_slice(&hex("b67b7d690cc16c4e75e54213cb2d37b4e9c912bcded9105d42befd59d391ad38"));
    assert_eq!(traffic_key(&server).to_vec(), hex("3fce516009c21727d0f2e4e86ee403bc"));
    assert_eq!(traffic_iv(&server).to_vec(), hex("5d313eb2671276ee13000b30"));
    let mut client = [0u8; 32];
    client.copy_from_slice(&hex("b3eddb126e067f35a780b3abf45e2d8f3b1a950738f52e9600746a0e27a55a21"));
    assert_eq!(traffic_key(&client).to_vec(), hex("dbfaa693d1762c5b666af5d950258d01"));
    assert_eq!(traffic_iv(&client).to_vec(), hex("5bd3c71b836e0b76bb73265f"));
}

#[test]
fn traffic_keys_agree_with_hkdf() {
    let secret = [0xC3u8; 32];
    assert_eq!(traffic_key(&secret).to_vec(), reference_expand_label(&secret, "key", b"", 16));
    assert_eq!(traffic_iv(&secret).to_vec(), reference_expand_label(&secret, "iv", b"", 12));
    assert_eq!(
        finished_key(&secret).to_vec(),
        reference_expand_label(&secret, "finished", b"", 32)
    );
    let hash = Transcript::digest(b"transcript");
    assert_eq!(
        verify_data(&secret, &hash).to_vec(),
        reference_hmac(&reference_expand_label(&secret, "finished", b"", 32), &hash)
    );
}

#[test]
fn schedules_give_keys_for_the_secret_in_use() {
    let mut write = WriteKeySchedule::new();
    write.install_traffic_secret([0xC3; 32]);
    assert_eq!(write.key(), traffic_key(&[0xC3; 32]));
    assert_eq!(write.iv(), traffic_iv(&[0xC3; 32]));
    write.install_traffic_secret([0xC4; 32]);
    assert_eq!(write.key(), traffic_key(&[0xC4; 32]));
    let mut read = ReadKeySchedule::new();
    read.install_traffic_secret([0xC5; 32]);
    assert_eq!(read.key(), traffic_key(&[0xC5; 32]));
    assert_eq!(read.iv(), traffic_iv(&[0xC5; 32]));
}

#[test]
fn finished_that_one_side_creates_the_other_verifies() {
    let mut transcript = Transcript::new();
    transcript.update(b"all the messages before");
    let mut write = WriteKeySchedule::new();
    write.install_traffic_secret([0x11; 32]);
    let sent = write.create_finished(&transcript);
    assert_eq!(sent.hash, None);
    assert_eq!(sent.verify, verify_data(&[0x11; 32], &transcript.hash()));

    let mut read = ReadKeySchedule::new();
    read.install_traffic_secret([0x11; 32]);
    // as it is read, the message gets the hash of the transcript before it
    let received = Finished { verify: sent.verify, hash: Some(transcript.hash()) };
    assert!(read.verify_finished(&received));
    assert!(!read.verify_finished(&sent));
    let mut forged = received;
    forged.verify[31] ^= 1;
    assert!(!read.verify_finished(&forged));
    let other_transcript = Finished { verify: sent.verify, hash: Some(Transcript::digest(b"x")) };
    assert!(!read.verify_finished(&other_transcript));
    read.install_traffic_secret([0x12; 32]);
    assert!(!read.verify_finished(&received));
}

#[test]
fn new_schedules_hold_the_zero_secret() {
    let write = WriteKeySchedule::new();
    assert!(!write.has_binder_key());
    assert_eq!(write.key(), traffic_key(&[0; 32]));
    assert_eq!(write.iv(), traffic_iv(&[0; 32]));
    let read = ReadKeySchedule::new();
    assert_eq!(read.key(), traffic_key(&[0; 32]));
    assert_eq!(read.iv(), traffic_iv(&[0; 32]));
}

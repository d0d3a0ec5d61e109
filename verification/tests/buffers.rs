use embedded_tls::buffer::CryptoBuffer;
use embedded_tls::parse_buffer::{ParseBuffer, ParseError};
use embedded_tls::parse_encode::{Both, Encode, Parse, SliceU8};
use embedded_tls::TlsError;

#[test]
fn parse_buffer_reads_big_endian_integers() {
    let data = [0x01, 0x02, 0x03, 0x04, 0x05, 0x06, 0x07, 0x08, 0x09, 0x0a];
    let mut buf = ParseBuffer::new(&data);
    assert_eq!(buf.read_u8(), Ok(0x01));
    assert_eq!(buf.read_u16(), Ok(0x0203));
    assert_eq!(buf.read_u24(), Ok(0x0004_0506));
    assert_eq!(buf.read_u32(), Ok(0x0708_090a));
    assert!(buf.is_empty());
    assert_eq!(buf.offset(), 10);
}

#[test]
fn parse_buffer_read_past_end_is_insufficient_space() {
    let data = [0x01, 0x02, 0x03];
    let mut buf = ParseBuffer::new(&data);
    assert_eq!(buf.read_u32(), Err(ParseError::InsufficientSpace));
    assert_eq!(buf.offset(), 0);
    assert_eq!(buf.read_u24(), Ok(0x0001_0203));
    assert_eq!(buf.read_u8(), Err(ParseError::InsufficientSpace));
    assert_eq!(buf.read_u16(), Err(ParseError::InsufficientSpace));
    assert_eq!(buf.read_u24(), Err(ParseError::InsufficientSpace));
}

#[test]
fn parse_buffer_slice_advances_parent() {
    let data = [1, 2, 3, 4, 5];
    let mut buf = ParseBuffer::new(&data);
    buf.read_u8().unwrap();
    let mut sub = buf.slice(3).ok().unwrap();
    assert_eq!(sub.as_slice(), &[2, 3, 4]);
    assert_eq!(sub.offset(), 0);
    assert_eq!(sub.remaining(), 3);
    assert_eq!(buf.offset(), 4);
    assert_eq!(buf.remaining(), 1);
    assert_eq!(sub.read_u8(), Ok(2));
    assert!(buf.slice(2).is_err());
    assert_eq!(buf.offset(), 4);
    assert_eq!(buf.as_slice(), &[1, 2, 3, 4, 5]);
}

#[test]
fn parse_buffer_slice_of_whole_rest_and_of_nothing() {
    let data = [9, 8];
    let mut buf = ParseBuffer::new(&data);
    let none = buf.slice(0).ok().unwrap();
    assert!(none.is_empty());
    let all = buf.slice(2).ok().unwrap();
    assert_eq!(all.as_slice(), &[9, 8]);
    assert!(buf.is_empty());
}

#[test]
fn parse_buffer_fill_copies_and_advances() {
    let data = [1, 2, 3, 4, 5];
    let mut buf = ParseBuffer::new(&data);
    let mut dest = [0u8; 3];
    assert_eq!(buf.fill(&mut dest), Ok(()));
    assert_eq!(dest, [1, 2, 3]);
    assert_eq!(buf.offset(), 3);
    let mut more = [7u8; 3];
    assert_eq!(buf.fill(&mut more), Err(ParseError::InsufficientSpace));
    assert_eq!(more, [7, 7, 7]);
    assert_eq!(buf.offset(), 3);
}

#[test]
fn crypto_buffer_pushes_big_endian_integers() {
    let mut bytes = [0u8; 16];
    let mut buf = CryptoBuffer::wrap(&mut bytes);
    assert!(buf.is_empty());
    assert_eq!(buf.push(0xAB), Ok(()));
    assert_eq!(buf.push_u16(0x0102), Ok(()));
    assert_eq!(buf.push_u24(0x0003_0405), Ok(()));
    assert_eq!(buf.push_u32(0x0607_0809), Ok(()));
    assert_eq!(buf.extend_from_slice(&[0x0a, 0x0b]), Ok(()));
    assert_eq!(
        buf.as_slice(),
        &[0xAB, 0x01, 0x02, 0x03, 0x04, 0x05, 0x06, 0x07, 0x08, 0x09, 0x0a, 0x0b]
    );
    assert_eq!(buf.len(), 12);
    assert_eq!(buf.space(), 4);
}

#[test]
fn crypto_buffer_full_is_encode_error_and_unchanged() {
    let mut bytes = [0u8; 3];
    let mut buf = CryptoBuffer::wrap(&mut bytes);
    assert_eq!(buf.push_u16(0x0102), Ok(()));
    assert_eq!(buf.push_u16(0x0304), Err(TlsError::EncodeError));
    assert_eq!(buf.push_u32(1), Err(TlsError::EncodeError));
    assert_eq!(buf.push_u24(1), Err(TlsError::EncodeError));
    assert_eq!(buf.extend_from_slice(&[1, 2]), Err(TlsError::EncodeError));
    assert_eq!(buf.as_slice(), &[0x01, 0x02]);
    assert_eq!(buf.push(0x05), Ok(()));
    assert_eq!(buf.push(0x06), Err(TlsError::EncodeError));
    assert_eq!(buf.as_slice(), &[0x01, 0x02, 0x05]);
}

#[test]
fn crypto_buffer_wrap_with_pos_counts_written_bytes() {
    let mut bytes = [1u8, 2, 3, 4];
    let mut buf = CryptoBuffer::wrap_with_pos(&mut bytes, 2);
    assert_eq!(buf.as_slice(), &[1, 2]);
    assert_eq!(buf.push(9), Ok(()));
    assert_eq!(buf.as_slice(), &[1, 2, 9]);
}

#[test]
fn crypto_buffer_truncate_and_overwrite() {
    let mut bytes = [0u8; 8];
    let mut buf = CryptoBuffer::wrap(&mut bytes);
    buf.extend_from_slice(&[1, 2, 3, 4, 5]).unwrap();
    assert_eq!(buf.overwrite(1, &[9, 9]), Ok(()));
    assert_eq!(buf.as_slice(), &[1, 9, 9, 4, 5]);
    assert_eq!(buf.overwrite(4, &[7, 7]), Err(TlsError::EncodeError));
    assert_eq!(buf.as_slice(), &[1, 9, 9, 4, 5]);
    buf.truncate(7);
    assert_eq!(buf.len(), 5);
    buf.truncate(2);
    assert_eq!(buf.as_slice(), &[1, 9]);
}

#[test]
fn length_prefix_is_big_endian_length_of_body() {
    let body = [0xAAu8; 300];
    let mut bytes = [0u8; 512];
    let mut buf = CryptoBuffer::wrap(&mut bytes);
    assert_eq!(buf.push_u16_prefixed(&body[..]), Ok(()));
    assert_eq!(buf.len(), 302);
    assert_eq!(&buf.as_slice()[..2], &[0x01, 0x2C]);
    assert_eq!(&buf.as_slice()[2..], &body[..]);

    let mut bytes = [0u8; 512];
    let mut buf = CryptoBuffer::wrap(&mut bytes);
    assert_eq!(buf.push_u24_prefixed(&body[..]), Ok(()));
    assert_eq!(&buf.as_slice()[..3], &[0x00, 0x01, 0x2C]);
    assert_eq!(buf.len(), 303);

    let mut bytes = [0u8; 512];
    let mut buf = CryptoBuffer::wrap(&mut bytes);
    assert_eq!(buf.push_u8_prefixed(&body[..255]), Ok(()));
    assert_eq!(buf.as_slice()[0], 0xFF);
    assert_eq!(buf.len(), 256);
}

#[test]
fn length_prefix_of_empty_body_is_zero() {
    let body: [u8; 0] = [];
    let mut bytes = [0xFFu8; 8];
    let mut buf = CryptoBuffer::wrap(&mut bytes);
    buf.push(7).unwrap();
    assert_eq!(buf.push_u8_prefixed(&body[..]), Ok(()));
    assert_eq!(buf.push_u16_prefixed(&body[..]), Ok(()));
    assert_eq!(buf.push_u24_prefixed(&body[..]), Ok(()));
    assert_eq!(buf.as_slice(), &[7, 0, 0, 0, 0, 0, 0]);
}

#[test]
fn nested_length_prefixes() {
    let inner = SliceU8(&[1, 2, 3]);
    let mut bytes = [0u8; 16];
    let mut buf = CryptoBuffer::wrap(&mut bytes);
    assert_eq!(buf.push_u16_prefixed(Both(inner, SliceU8(&[9]))), Ok(()));
    assert_eq!(buf.as_slice(), &[0, 6, 3, 1, 2, 3, 1, 9]);
}

#[test]
fn failing_body_rewinds_to_before_the_prefix() {
    let body = [1u8; 10];
    let mut bytes = [0u8; 8];
    let mut buf = CryptoBuffer::wrap(&mut bytes);
    buf.extend_from_slice(&[5, 6]).unwrap();
    assert_eq!(buf.push_u16_prefixed(&body[..]), Err(TlsError::EncodeError));
    assert_eq!(buf.as_slice(), &[5, 6]);
    assert_eq!(buf.push_u8_prefixed(&body[..]), Err(TlsError::EncodeError));
    assert_eq!(buf.push_u24_prefixed(&body[..]), Err(TlsError::EncodeError));
    assert_eq!(buf.as_slice(), &[5, 6]);
    // the second of two parts fails: the first is dropped too
    assert_eq!(
        buf.push_u16_prefixed(Both(SliceU8(&[1, 2]), SliceU8(&body[..]))),
        Err(TlsError::EncodeError)
    );
    assert_eq!(buf.as_slice(), &[5, 6]);
}

#[test]
fn body_too_long_for_its_prefix_is_encode_error() {
    let body = [0u8; 256];
    let mut bytes = [0u8; 512];
    let mut buf = CryptoBuffer::wrap(&mut bytes);
    buf.push(1).unwrap();
    assert_eq!(buf.push_u8_prefixed(&body[..]), Err(TlsError::EncodeError));
    assert_eq!(buf.as_slice(), &[1]);
    assert_eq!(SliceU8(&body[..]).encode(&mut buf), Err(TlsError::EncodeError));
    assert_eq!(buf.as_slice(), &[1]);
}

#[test]
fn no_room_for_the_prefix_is_encode_error() {
    let mut bytes = [0u8; 1];
    let mut buf = CryptoBuffer::wrap(&mut bytes);
    let body: [u8; 0] = [];
    assert_eq!(buf.push_u16_prefixed(&body[..]), Err(TlsError::EncodeError));
    assert_eq!(buf.len(), 0);
}

#[test]
fn integers_round_trip() {
    let mut bytes = [0u8; 8];
    let mut buf = CryptoBuffer::wrap(&mut bytes);
    0x12u8.encode(&mut buf).unwrap();
    0x3456u16.encode(&mut buf).unwrap();
    0x789a_bcdeu32.encode(&mut buf).unwrap();
    assert_eq!(buf.as_slice(), &[0x12, 0x34, 0x56, 0x78, 0x9a, 0xbc, 0xde]);
    let written = [0x12, 0x34, 0x56, 0x78, 0x9a, 0xbc, 0xde];
    let mut parse = ParseBuffer::new(&written);
    assert_eq!(u8::parse(&mut parse), Ok(0x12));
    assert_eq!(u16::parse(&mut parse), Ok(0x3456));
    assert_eq!(u32::parse(&mut parse), Ok(0x789a_bcde));
}

#[test]
fn slice_u8_round_trip() {
    let data = [3, 0xA, 0xB, 0xC, 0xFF];
    let mut parse = ParseBuffer::new(&data);
    let s = SliceU8::parse(&mut parse).unwrap();
    assert_eq!(s.0, &[0xA, 0xB, 0xC]);
    assert_eq!(parse.offset(), 4);
    let mut bytes = [0u8; 8];
    let mut buf = CryptoBuffer::wrap(&mut bytes);
    s.encode(&mut buf).unwrap();
    assert_eq!(buf.as_slice(), &data[..4]);
    let short = [3, 1, 2];
    assert_eq!(
        SliceU8::parse(&mut ParseBuffer::new(&short)).err(),
        Some(ParseError::InsufficientSpace)
    );
    let empty: [u8; 0] = [];
    assert_eq!(
        SliceU8::parse(&mut ParseBuffer::new(&empty)).err(),
        Some(ParseError::InsufficientSpace)
    );
}

#[test]
fn region_written_by_a_closure_gets_its_length() {
    let mut bytes = [0u8; 16];
    let mut buf = CryptoBuffer::wrap(&mut bytes);
    buf.push(0xEE).unwrap();
    assert_eq!(buf.with_u8_length(|b| b.extend_from_slice(&[1, 2, 3])), Ok(()));
    assert_eq!(buf.with_u16_length(|b| b.push_u16(0xAABB)), Ok(()));
    assert_eq!(buf.with_u24_length(|_| Ok(())), Ok(()));
    assert_eq!(buf.as_slice(), &[0xEE, 3, 1, 2, 3, 0, 2, 0xAA, 0xBB, 0, 0, 0]);
}

#[test]
fn regions_written_by_closures_nest() {
    let mut bytes = [0u8; 32];
    let mut buf = CryptoBuffer::wrap(&mut bytes);
    let r = buf.with_u24_length(|b| {
        b.push(0xA0)?;
        b.with_u16_length(|b| {
            b.with_u8_length(|b| b.extend_from_slice(&[1, 2]))?;
            b.with_u8_length(|b| b.extend_from_slice(&[3]))
        })?;
        b.push(0xA1)
    });
    assert_eq!(r, Ok(()));
    assert_eq!(buf.as_slice(), &[0, 0, 9, 0xA0, 0, 5, 2, 1, 2, 1, 3, 0xA1]);
}

#[test]
fn failing_closure_rewinds_to_before_the_prefix() {
    let mut bytes = [0u8; 8];
    let mut buf = CryptoBuffer::wrap(&mut bytes);
    buf.extend_from_slice(&[5, 6]).unwrap();
    let r = buf.with_u16_length(|b| {
        b.extend_from_slice(&[1, 2, 3])?;
        Err(TlsError::InvalidHandshake)
    });
    assert_eq!(r, Err(TlsError::InvalidHandshake));
    assert_eq!(buf.as_slice(), &[5, 6]);
    assert_eq!(buf.len(), 2);
    // a failure deep inside rewinds every region around it
    let r = buf.with_u8_length(|b| {
        b.push(1)?;
        b.with_u24_length(|b| b.extend_from_slice(&[0u8; 10]))
    });
    assert_eq!(r, Err(TlsError::EncodeError));
    assert_eq!(buf.as_slice(), &[5, 6]);
    // a body too long for its prefix
    let mut large = [0u8; 600];
    let mut buf = CryptoBuffer::wrap(&mut large);
    buf.push(9).unwrap();
    assert_eq!(buf.with_u8_length(|b| b.extend_from_slice(&[0u8; 256])), Err(TlsError::EncodeError));
    assert_eq!(buf.as_slice(), &[9]);
    assert_eq!(buf.with_u8_length(|b| b.extend_from_slice(&[0u8; 255])), Ok(()));
    assert_eq!(buf.len(), 257);
}

#[test]
fn body_of_a_region_sees_a_buffer_that_begins_behind_the_prefix() {
    let mut bytes = [0u8; 16];
    let mut buf = CryptoBuffer::wrap(&mut bytes);
    buf.extend_from_slice(&[1, 2, 3]).unwrap();
    assert_eq!(buf.room(), 16);
    let r = buf.with_u16_length(|b| {
        assert_eq!(b.len(), 0);
        assert!(b.is_empty());
        assert_eq!(b.room(), 11);
        assert_eq!(b.space(), 11);
        b.extend_from_slice(&[7, 8])?;
        assert_eq!(b.as_slice(), &[7, 8]);
        // what was written before the region is out of reach
        assert_eq!(b.overwrite(0, &[9]), Ok(()));
        b.truncate(1);
        b.with_u8_length(|inner| {
            assert_eq!(inner.len(), 0);
            assert_eq!(inner.room(), 9);
            inner.push(5)
        })?;
        assert_eq!(b.as_slice(), &[9, 1, 5]);
        Ok(())
    });
    assert_eq!(r, Ok(()));
    assert_eq!(buf.as_slice(), &[1, 2, 3, 0, 3, 9, 1, 5]);
    assert_eq!(buf.len(), 8);
    assert_eq!(buf.room(), 16);
}

#[test]
fn closure_is_not_run_where_the_prefix_does_not_fit() {
    let mut bytes = [0u8; 3];
    let mut buf = CryptoBuffer::wrap(&mut bytes);
    buf.extend_from_slice(&[1, 2]).unwrap();
    let mut ran = false;
    let r = buf.with_u16_length(|_| {
        ran = true;
        Ok(())
    });
    assert_eq!(r, Err(TlsError::EncodeError));
    assert!(!ran);
    assert_eq!(buf.as_slice(), &[1, 2]);
    // a prefix that just fits leaves the body no room
    let r = buf.with_u8_length(|b| {
        ran = true;
        assert_eq!(b.room(), 0);
        Ok(())
    });
    assert_eq!(r, Ok(()));
    assert!(ran);
    assert_eq!(buf.as_slice(), &[1, 2, 0]);
}

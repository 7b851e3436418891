//! Byte-level primitives: fixed-width integers, varints, strings, buffers,
//! frames.

use prague_protocol::error::Error;
use prague_protocol::network::{read_frame, write_frame};
use prague_protocol::primitives::{
    read_i16_be, read_i32_be, read_i64_be, read_u32_be, write_i16_be, write_i32_be, write_i64_be,
};
use prague_protocol::strings::{
    read_compact_bytes, read_compact_string, read_nullable_string, write_compact_bytes,
    write_nullable_string, WireString,
};
use prague_protocol::utf8::validate_utf8;
use prague_protocol::uuid::{read_uuid, write_uuid, Uuid};
use prague_protocol::varint::{VarInt, VarLong};

#[test]
fn fixed_ints_are_big_endian() {
    let mut out = Vec::new();
    write_i32_be(&mut out, 1);
    assert_eq!(out, vec![0, 0, 0, 1]);
    let mut out = Vec::new();
    write_i16_be(&mut out, -1);
    assert_eq!(out, vec![0xFF, 0xFF]);
    let mut out = Vec::new();
    write_i64_be(&mut out, -2);
    assert_eq!(out, vec![0xFF, 0xFF, 0xFF, 0xFF, 0xFF, 0xFF, 0xFF, 0xFE]);
}

#[test]
fn fixed_ints_round_trip() {
    for v in [i32::MIN, -1, 0, 1, 0x1234_5678, i32::MAX] {
        let mut out = Vec::new();
        write_i32_be(&mut out, v);
        assert_eq!(read_i32_be(&out, 0), Ok((v, 4)));
    }
    for v in [i64::MIN, -1, 0, 7, i64::MAX] {
        let mut out = Vec::new();
        write_i64_be(&mut out, v);
        assert_eq!(read_i64_be(&out, 0), Ok((v, 8)));
    }
    for v in [i16::MIN, -1, 0, 300, i16::MAX] {
        let mut out = Vec::new();
        write_i16_be(&mut out, v);
        assert_eq!(read_i16_be(&out, 0), Ok((v, 2)));
    }
}

#[test]
fn fixed_int_reads_fail_truncated() {
    assert_eq!(read_i32_be(&[0, 0, 0], 0), Err(Error::Truncated));
    assert_eq!(read_u32_be(&[0, 0, 0, 0], 1), Err(Error::Truncated));
    assert_eq!(read_i64_be(&[0; 7], 0), Err(Error::Truncated));
}

#[test]
fn varint_known_encodings() {
    let mut out = Vec::new();
    VarInt::write(&mut out, 0);
    assert_eq!(out, vec![0]);
    let mut out = Vec::new();
    VarInt::write(&mut out, 127);
    assert_eq!(out, vec![127]);
    let mut out = Vec::new();
    VarInt::write(&mut out, 128);
    assert_eq!(out, vec![0x80, 0x01]);
    let mut out = Vec::new();
    VarInt::write(&mut out, 300);
    assert_eq!(out, vec![0xAC, 0x02]);
}

#[test]
fn varint_round_trips() {
    for v in [0u32, 1, 127, 128, 300, 16383, 16384, u32::MAX] {
        let mut out = Vec::new();
        VarInt::write(&mut out, v);
        let (back, end) = VarInt::read(&out, 0).unwrap();
        assert_eq!(back, v);
        assert_eq!(end, out.len());
    }
}

#[test]
fn varint_rejects_overlong_runs() {
    // five continuation bytes with no terminator
    assert_eq!(
        VarInt::read(&[0x80, 0x80, 0x80, 0x80, 0x80, 0x00], 0),
        Err(Error::MalformedVarint)
    );
    // a run that hits the end of the buffer first
    assert_eq!(VarInt::read(&[0x80], 0), Err(Error::Truncated));
    // five bytes whose value overflows 32 bits
    assert_eq!(
        VarInt::read(&[0xFF, 0xFF, 0xFF, 0xFF, 0x7F], 0),
        Err(Error::MalformedVarint)
    );
}

#[test]
fn varlong_zigzag_known_encodings() {
    let mut out = Vec::new();
    VarLong::write(&mut out, 0);
    assert_eq!(out, vec![0]);
    let mut out = Vec::new();
    VarLong::write(&mut out, -1);
    assert_eq!(out, vec![1]);
    let mut out = Vec::new();
    VarLong::write(&mut out, 1);
    assert_eq!(out, vec![2]);
    let mut out = Vec::new();
    VarLong::write(&mut out, -2);
    assert_eq!(out, vec![3]);
}

#[test]
fn varlong_round_trips() {
    for v in [0i64, 1, -1, 63, -64, 64, i64::MIN, i64::MAX] {
        let mut out = Vec::new();
        VarLong::write(&mut out, v);
        let (back, end) = VarLong::read(&out, 0).unwrap();
        assert_eq!(back, v);
        assert_eq!(end, out.len());
    }
}

#[test]
fn varlong_rejects_overlong_runs() {
    assert_eq!(
        VarLong::read(&[0x80; 10], 0),
        Err(Error::MalformedVarint)
    );
    // ten bytes whose value overflows 64 bits
    assert_eq!(
        VarLong::read(&[0xFF, 0xFF, 0xFF, 0xFF, 0xFF, 0xFF, 0xFF, 0xFF, 0xFF, 0x7F], 0),
        Err(Error::MalformedVarint)
    );
}

#[test]
fn compact_length_zero_is_absence() {
    assert_eq!(read_compact_bytes(&[0], 0), Ok((None, 1)));
}

#[test]
fn compact_length_one_is_empty() {
    assert_eq!(read_compact_bytes(&[1], 0), Ok((Some(Vec::new()), 1)));
    let (s, end) = read_compact_string(&[1], 0).unwrap();
    assert_eq!(s.unwrap().bytes, Vec::<u8>::new());
    assert_eq!(end, 1);
}

#[test]
fn compact_length_k_plus_one_is_k_bytes() {
    let buf = [4, b'a', b'b', b'c'];
    assert_eq!(read_compact_bytes(&buf, 0), Ok((Some(vec![b'a', b'b', b'c']), 4)));
    let mut out = Vec::new();
    write_compact_bytes(&mut out, Some(&vec![b'a', b'b', b'c']));
    assert_eq!(out, buf.to_vec());
    // a declared length past the end of the buffer
    assert_eq!(read_compact_bytes(&[5, b'a', b'b', b'c'], 0), Err(Error::Truncated));
}

#[test]
fn compact_string_rejects_ill_formed_bytes() {
    assert_eq!(read_compact_string(&[2, 0xFF], 0), Err(Error::InvalidUtf8));
    assert_eq!(read_compact_string(&[3, 0xC2, 0x20], 0), Err(Error::InvalidUtf8));
}

#[test]
fn nullable_string_round_trips() {
    let mut out = Vec::new();
    write_nullable_string(&mut out, None);
    assert_eq!(out, vec![0xFF, 0xFF]);
    assert_eq!(read_nullable_string(&out, 0).unwrap().0, None);

    let w = WireString::from_bytes(b"abc".to_vec()).unwrap();
    let mut out = Vec::new();
    write_nullable_string(&mut out, Some(&w));
    assert_eq!(out, vec![0, 3, b'a', b'b', b'c']);
    let (back, end) = read_nullable_string(&out, 0).unwrap();
    assert_eq!(back.unwrap(), w);
    assert_eq!(end, 5);
}

#[test]
fn utf8_validation_accepts_and_rejects() {
    assert!(validate_utf8("".as_bytes()));
    assert!(validate_utf8("plain".as_bytes()));
    assert!(validate_utf8("käse — 林檎 🍎".as_bytes()));
    // lone continuation byte
    assert!(!validate_utf8(&[0x80]));
    // overlong two-byte form
    assert!(!validate_utf8(&[0xC0, 0xAF]));
    // surrogate code point
    assert!(!validate_utf8(&[0xED, 0xA0, 0x80]));
    // truncated multi-byte sequence
    assert!(!validate_utf8(&[0xE2, 0x82]));
    // past the last code point
    assert!(!validate_utf8(&[0xF5, 0x80, 0x80, 0x80]));
}

#[test]
fn wire_string_constructor_validates() {
    assert!(WireString::from_bytes(vec![0xFF]).is_err());
    let w = WireString::from_bytes(b"ok".to_vec()).unwrap();
    assert_eq!(w.bytes, b"ok".to_vec());
}

#[test]
fn uuid_is_sixteen_raw_bytes() {
    let bytes: Vec<u8> = (0u8..16).collect();
    let u = Uuid::from_bytes(bytes.clone()).unwrap();
    let mut out = Vec::new();
    write_uuid(&mut out, &u);
    assert_eq!(out, bytes);
    let (back, end) = read_uuid(&out, 0).unwrap();
    assert_eq!(back, u);
    assert_eq!(end, 16);
    assert!(Uuid::from_bytes(vec![0; 15]).is_err());
    assert_eq!(read_uuid(&[0; 15], 0), Err(Error::Truncated));
}

#[test]
fn frame_round_trips() {
    let body = vec![1u8, 2, 3];
    let framed = write_frame(&body);
    assert_eq!(framed, vec![0, 0, 0, 3, 1, 2, 3]);
    let (back, end) = read_frame(&framed, 0, 1024).unwrap();
    assert_eq!(back, body);
    assert_eq!(end, 7);
}

#[test]
fn frame_declaring_ten_backed_by_five_is_truncated() {
    let buf = [0u8, 0, 0, 10, 1, 2, 3, 4, 5];
    assert_eq!(read_frame(&buf, 0, 1024), Err(Error::Truncated));
}

#[test]
fn frame_size_is_validated() {
    // negative declared length
    let buf = [0xFFu8, 0xFF, 0xFF, 0xFF];
    assert_eq!(read_frame(&buf, 0, 1024), Err(Error::InvalidFrameSize(-1)));
    // declared length above the configured maximum
    let buf = [0u8, 0, 0, 9, 0, 0, 0, 0, 0, 0, 0, 0, 0];
    assert_eq!(read_frame(&buf, 0, 8), Err(Error::InvalidFrameSize(9)));
}

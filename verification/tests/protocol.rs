use minecraft_protocol::errors::ProtoError;
use minecraft_protocol::protocol::{Reader, Writer};

fn varint_bytes(v: i32) -> Vec<u8> {
    let mut w = Writer::new();
    w.write_varint(v);
    w.into_bytes()
}

fn read_varint_of(bytes: &[u8]) -> Result<i32, ProtoError> {
    let mut r = Reader::new(bytes);
    r.read_varint()
}

#[test]
fn varint_round_trip_representative_values() {
    for v in [0, 1, 127, 128, 255, 2_147_483_647, -1, i32::MIN] {
        let enc = varint_bytes(v);
        assert_eq!(read_varint_of(&enc), Ok(v), "value {v}");
    }
}

#[test]
fn varint_group_counts() {
    for v in 0..=127 {
        assert_eq!(varint_bytes(v).len(), 1, "value {v}");
    }
    for v in [-1, -2, i32::MIN, -127, -128000] {
        assert_eq!(varint_bytes(v).len(), 5, "value {v}");
    }
    assert_eq!(varint_bytes(128).len(), 2);
    assert_eq!(varint_bytes(2_147_483_647).len(), 5);
}

#[test]
fn varint_exact_encodings() {
    assert_eq!(varint_bytes(0), vec![0x00]);
    assert_eq!(varint_bytes(1), vec![0x01]);
    assert_eq!(varint_bytes(127), vec![0x7f]);
    assert_eq!(varint_bytes(128), vec![0x80, 0x01]);
    assert_eq!(varint_bytes(255), vec![0xff, 0x01]);
    assert_eq!(varint_bytes(2_147_483_647), vec![0xff, 0xff, 0xff, 0xff, 0x07]);
    assert_eq!(varint_bytes(-1), vec![0xff, 0xff, 0xff, 0xff, 0x0f]);
    assert_eq!(varint_bytes(i32::MIN), vec![0x80, 0x80, 0x80, 0x80, 0x08]);
}

#[test]
fn varint_too_many_continuation_bytes() {
    let bytes = [0x80, 0x80, 0x80, 0x80, 0x80, 0x01];
    assert_eq!(read_varint_of(&bytes), Err(ProtoError::MalformedVarInt));
}

#[test]
fn varint_truncated_input() {
    assert_eq!(read_varint_of(&[]), Err(ProtoError::BufferUnderrun));
    assert_eq!(read_varint_of(&[0x80]), Err(ProtoError::BufferUnderrun));
    assert_eq!(read_varint_of(&[0x80, 0x80]), Err(ProtoError::BufferUnderrun));
}

#[test]
fn string_round_trip() {
    for s in ["", "hello", "ASCII only", "h\u{e9}llo w\u{f6}rld", "\u{1F600}\u{4e16}\u{754c}"] {
        let mut w = Writer::new();
        w.write_string(s);
        let enc = w.into_bytes();
        let mut r = Reader::new(&enc);
        assert_eq!(r.read_string().as_deref(), Ok(s), "string {s:?}");
        assert!(r.get_leftover_bytes().is_empty());
    }
}

#[test]
fn string_invalid_utf8() {
    // declared length 2, then an invalid sequence
    let bytes = [0x02, 0xff, 0xfe];
    let mut r = Reader::new(&bytes);
    assert_eq!(r.read_string(), Err(ProtoError::InvalidUtf8));
}

#[test]
fn string_declared_length_exceeds_input() {
    let bytes = [0x05, b'a', b'b'];
    let mut r = Reader::new(&bytes);
    assert_eq!(r.read_string(), Err(ProtoError::BufferUnderrun));
}

#[test]
fn string_negative_length_rejected() {
    // varint -1 as a length prefix
    let bytes = [0xff, 0xff, 0xff, 0xff, 0x0f, b'a'];
    let mut r = Reader::new(&bytes);
    assert_eq!(r.read_string(), Err(ProtoError::BufferUnderrun));
}

#[test]
fn byte_array_round_trip() {
    let payload: Vec<u8> = vec![0, 1, 2, 250, 255];
    let mut w = Writer::new();
    w.write_varint(payload.len() as i32);
    w.write_raw(&payload);
    let enc = w.into_bytes();
    let mut r = Reader::new(&enc);
    assert_eq!(r.read_byte_array(), Ok(payload));
}

#[test]
fn bool_round_trip_and_nonzero_is_true() {
    let mut w = Writer::new();
    w.write_bool(true);
    w.write_bool(false);
    let enc = w.into_bytes();
    assert_eq!(enc, vec![1, 0]);
    let mut r = Reader::new(&enc);
    assert_eq!(r.read_bool(), Ok(true));
    assert_eq!(r.read_bool(), Ok(false));
    let mut r2 = Reader::new(&[0x2a]);
    assert_eq!(r2.read_bool(), Ok(true));
}

#[test]
fn u16_round_trip_big_endian() {
    let mut w = Writer::new();
    w.write_u16(0xabcd);
    let enc = w.into_bytes();
    assert_eq!(enc, vec![0xab, 0xcd]);
    let mut r = Reader::new(&enc);
    assert_eq!(r.read_u16(), Ok(0xabcd));
    let mut short = Reader::new(&[0xab]);
    assert_eq!(short.read_u16(), Err(ProtoError::BufferUnderrun));
}

#[test]
fn i64_round_trip_big_endian() {
    for v in [0i64, 1, -1, 123_456_789, i64::MIN, i64::MAX] {
        let mut w = Writer::new();
        w.write_i64(v);
        let enc = w.into_bytes();
        assert_eq!(enc, v.to_be_bytes().to_vec(), "value {v}");
        let mut r = Reader::new(&enc);
        assert_eq!(r.read_i64(), Ok(v), "value {v}");
    }
}

#[test]
fn uuid_round_trip_is_raw_bytes() {
    let id: u128 = 0x00112233_4455_6677_8899_aabbccddeeff;
    let mut w = Writer::new();
    w.write_uuid(id);
    let enc = w.into_bytes();
    assert_eq!(enc, id.to_be_bytes().to_vec());
    let mut r = Reader::new(&enc);
    assert_eq!(r.read_uuid(), Ok(id));
}

#[test]
fn uuid_truncated_input() {
    let mut r = Reader::new(&[0u8; 15]);
    assert_eq!(r.read_uuid(), Err(ProtoError::BufferUnderrun));
}

#[test]
fn leftover_bytes_after_reads() {
    let bytes = [0x01, 0xaa, 0xbb];
    let mut r = Reader::new(&bytes);
    assert_eq!(r.read_varint(), Ok(1));
    assert_eq!(r.get_leftover_bytes(), &[0xaa, 0xbb]);
}

#[test]
fn writer_len_and_is_empty() {
    let mut w = Writer::new();
    assert!(w.is_empty());
    assert_eq!(w.len(), 0);
    w.write_u16(7);
    assert!(!w.is_empty());
    assert_eq!(w.len(), 2);
}

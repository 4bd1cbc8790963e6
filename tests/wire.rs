use zarja::error::Error;
use zarja::wire::{consume_field, consume_fields, decode_varint, WireType};

#[test]
fn test_decode_varint_single_byte() {
    let data = [0x08];
    let (value, len) = decode_varint(&data).unwrap();
    assert_eq!(value, 8);
    assert_eq!(len, 1);
}

#[test]
fn test_decode_varint_multi_byte() {
    let data = [0xAC, 0x02];
    let (value, len) = decode_varint(&data).unwrap();
    assert_eq!(value, 300);
    assert_eq!(len, 2);
}

#[test]
fn test_decode_varint_max() {
    let data = [0xFF, 0xFF, 0xFF, 0xFF, 0xFF, 0xFF, 0xFF, 0xFF, 0xFF, 0x01];
    let (value, len) = decode_varint(&data).unwrap();
    assert_eq!(value, u64::MAX);
    assert_eq!(len, 10);
}

#[test]
fn test_wire_type_conversion() {
    assert_eq!(WireType::try_from(0).unwrap(), WireType::Varint);
    assert_eq!(WireType::try_from(1).unwrap(), WireType::I64);
    assert_eq!(WireType::try_from(2).unwrap(), WireType::Len);
    assert_eq!(WireType::try_from(5).unwrap(), WireType::I32);
    assert!(WireType::try_from(6).is_err());
}

#[test]
fn test_consume_varint_field() {
    let data = [0x08, 0x96, 0x01];
    let (field_num, len) = consume_field(&data).unwrap();
    assert_eq!(field_num, 1);
    assert_eq!(len, 3);
}

#[test]
fn test_consume_len_field() {
    let data = [0x0A, 0x05, b'h', b'e', b'l', b'l', b'o'];
    let (field_num, len) = consume_field(&data).unwrap();
    assert_eq!(field_num, 1);
    assert_eq!(len, 7);
}

#[test]
fn test_consume_fixed32_field() {
    let data = [0x0D, 0x01, 0x02, 0x03, 0x04];
    let (field_num, len) = consume_field(&data).unwrap();
    assert_eq!(field_num, 1);
    assert_eq!(len, 5);
}

#[test]
fn test_consume_fixed64_field() {
    let data = [0x09, 0x01, 0x02, 0x03, 0x04, 0x05, 0x06, 0x07, 0x08];
    let (field_num, len) = consume_field(&data).unwrap();
    assert_eq!(field_num, 1);
    assert_eq!(len, 9);
}

#[test]
fn test_invalid_field_number() {
    let data = [0x00, 0x01];
    assert!(consume_field(&data).is_err());
}

fn encode_varint(mut v: u64) -> Vec<u8> {
    let mut out = Vec::new();
    loop {
        if v < 0x80 {
            out.push(v as u8);
            return out;
        }
        out.push((v & 0x7f) as u8 | 0x80);
        v >>= 7;
    }
}

#[test]
fn varint_round_trip_samples() {
    for v in [0u64, 1, 127, 128, 300, 16_383, 16_384, u32::MAX as u64, 1 << 56, u64::MAX - 1, u64::MAX] {
        let mut bytes = encode_varint(v);
        let k = bytes.len();
        bytes.extend_from_slice(&[0xFF, 0x00]);
        let (value, len) = decode_varint(&bytes).unwrap();
        assert_eq!(value, v);
        assert_eq!(len, k);
        assert!((1..=10).contains(&len));
    }
}

#[test]
fn varint_errors_report_offset() {
    assert_eq!(decode_varint(&[]), Err(Error::VarintDecode { offset: 0 }));
    assert_eq!(decode_varint(&[0x80, 0x80]), Err(Error::VarintDecode { offset: 2 }));
    assert_eq!(decode_varint(&[0xFF; 12]), Err(Error::VarintDecode { offset: 10 }));
}

#[test]
fn consume_field_errors() {
    assert!(matches!(consume_field(&[]), Err(Error::InvalidWireFormat { .. })));
    assert!(matches!(consume_field(&[0x0E, 0x00]), Err(Error::InvalidWireFormat { .. })));
    assert!(matches!(consume_field(&[0x00, 0x01]), Err(Error::InvalidFieldNumber { .. })));
    assert!(matches!(consume_field(&[0x0A, 0x05, b'h']), Err(Error::InvalidWireFormat { .. })));
    assert!(matches!(consume_field(&[0x09, 0x01]), Err(Error::InvalidWireFormat { .. })));
    assert!(matches!(consume_field(&[0x0D, 0x01]), Err(Error::InvalidWireFormat { .. })));
    // field number 2^29 is one past the largest
    let mut tag = encode_varint((536_870_912u64 << 3) | 0);
    tag.push(0x01);
    assert!(matches!(consume_field(&tag), Err(Error::InvalidFieldNumber { .. })));
}

#[test]
fn consume_field_groups_take_tag_only() {
    assert_eq!(consume_field(&[0x0B, 0xFF]).unwrap(), (1, 1));
    assert_eq!(consume_field(&[0x0C]).unwrap(), (1, 1));
}

#[test]
fn consume_field_never_exceeds_input() {
    let samples: [&[u8]; 6] = [
        &[0x0A, 0x02, 0x01, 0x02],
        &[0x08, 0xFF],
        &[0x12, 0x00],
        &[0xFA, 0xFF, 0xFF, 0xFF, 0x0F],
        &[0x0A, 0xFF, 0xFF, 0xFF, 0xFF, 0xFF, 0xFF, 0xFF, 0xFF, 0x01],
        &[0x1D, 0, 0, 0, 0, 0x33],
    ];
    for s in samples {
        if let Ok((_, k)) = consume_field(s) {
            assert!(k >= 1 && k <= s.len());
        }
    }
}

#[test]
fn consume_fields_whole_message() {
    // name = "a.proto", package = "p", a varint field 5 and a fixed32 field 6
    let msg = [
        0x0A, 0x07, b'a', b'.', b'p', b'r', b'o', b't', b'o', 0x12, 0x01, b'p', 0x28, 0x96, 0x01, 0x35, 1, 2, 3, 4,
    ];
    assert_eq!(consume_fields(&msg), msg.len());
}

#[test]
fn consume_fields_stops_at_garbage() {
    let data = [0x08, 0x01, 0x00, 0x08, 0x01];
    assert_eq!(consume_fields(&data), 2);
    assert_eq!(consume_fields(&[]), 0);
}

#[test]
fn consume_field_reads_only_its_bytes() {
    let field = [0x0A, 0x03, b'a', b'b', b'c'];
    let expected = consume_field(&field).unwrap();
    for tail in [&[][..], &[0xFF][..], &[0x00, 0x00, 0x00][..], &[0x80; 12][..]] {
        let mut data = field.to_vec();
        data.extend_from_slice(tail);
        assert_eq!(consume_field(&data).unwrap(), expected);
    }
}

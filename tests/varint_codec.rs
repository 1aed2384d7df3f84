use token_splice::error::EditError;
use token_splice::varint::{encode_varint, read_varint};

#[test]
fn encode_then_decode_gives_value_and_length() {
    let values: [u64; 7] = [0, 1, 127, 128, 16383, 4294967295, 9223372036854775807];
    for v in values {
        let bytes = encode_varint(v);
        assert_eq!(read_varint(&bytes, 0), Ok((v, bytes.len())));
    }
}

#[test]
fn encodings_are_exact() {
    assert_eq!(encode_varint(0), vec![0]);
    assert_eq!(encode_varint(127), vec![127]);
    assert_eq!(encode_varint(128), vec![128, 1]);
    assert_eq!(encode_varint(16383), vec![255, 127]);
    assert_eq!(encode_varint(4294967295), vec![255, 255, 255, 255, 15]);
    assert_eq!(
        encode_varint(u64::MAX),
        vec![255, 255, 255, 255, 255, 255, 255, 255, 255, 1]
    );
}

#[test]
fn decode_at_an_offset() {
    let data = vec![9, 9, 172, 2, 7];
    assert_eq!(read_varint(&data, 2), Ok((300, 4)));
}

#[test]
fn decode_stops_at_truncation() {
    assert_eq!(read_varint(&[0x80, 0x80], 0), Err(EditError::TruncatedInput));
    assert_eq!(read_varint(&[], 0), Err(EditError::TruncatedInput));
    assert_eq!(read_varint(&[1], 5), Err(EditError::TruncatedInput));
}

#[test]
fn decode_refuses_more_than_ten_groups() {
    let data = vec![0xff; 11];
    assert_eq!(read_varint(&data, 0), Err(EditError::MalformedVarint));
    let ten = vec![0xff; 10];
    assert_eq!(read_varint(&ten, 0), Err(EditError::MalformedVarint));
}

#[test]
fn tenth_group_keeps_only_the_low_bit() {
    let data = vec![255, 255, 255, 255, 255, 255, 255, 255, 255, 127];
    assert_eq!(read_varint(&data, 0), Ok((u64::MAX, 10)));
}

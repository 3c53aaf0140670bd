use asky::packet_length::{
    get_packet_length, read_varint, BinaryReaderError, PacketLengthParseError, VarIntError,
    MAXIMUM_PACKET_LENGTH,
};

#[test]
fn single_byte_lengths() {
    assert_eq!(get_packet_length(&[0x00]).unwrap(), 0);
    assert_eq!(get_packet_length(&[0x05, 0xAA]).unwrap(), 5);
    assert_eq!(get_packet_length(&[0x7F]).unwrap(), 127);
}

#[test]
fn multi_byte_lengths() {
    assert_eq!(get_packet_length(&[0x80, 0x01]).unwrap(), 128);
    assert_eq!(get_packet_length(&[0xAC, 0x02, 0xFF]).unwrap(), 300);
    assert_eq!(get_packet_length(&[0xFF, 0xFF, 0x7F]).unwrap(), MAXIMUM_PACKET_LENGTH);
}

#[test]
fn too_large_length() {
    assert_eq!(
        get_packet_length(&[0x80, 0x80, 0x80, 0x01]).unwrap_err(),
        PacketLengthParseError::PacketTooLarge
    );
}

#[test]
fn negative_length() {
    assert_eq!(
        get_packet_length(&[0xFF, 0xFF, 0xFF, 0xFF, 0x0F]).unwrap_err(),
        PacketLengthParseError::NegativeLength
    );
}

#[test]
fn missing_bytes() {
    assert_eq!(
        get_packet_length(&[]).unwrap_err(),
        PacketLengthParseError::BinaryReader(BinaryReaderError::UnexpectedEof)
    );
    assert_eq!(
        get_packet_length(&[0x80, 0x80]).unwrap_err(),
        PacketLengthParseError::BinaryReader(BinaryReaderError::UnexpectedEof)
    );
}

#[test]
fn varint_too_long() {
    assert_eq!(
        get_packet_length(&[0x80, 0x80, 0x80, 0x80, 0x80, 0x01]).unwrap_err(),
        PacketLengthParseError::BinaryReader(BinaryReaderError::VarIntTooLong)
    );
    assert_eq!(read_varint(&[0xFF; 5]).unwrap_err(), VarIntError::TooLong);
}

#[test]
fn varint_values_and_sizes() {
    assert_eq!(read_varint(&[0x01]).unwrap(), (1, 1));
    assert_eq!(read_varint(&[0xFF, 0x01]).unwrap(), (255, 2));
    assert_eq!(read_varint(&[0xFF, 0xFF, 0xFF, 0xFF, 0x07]).unwrap(), (i32::MAX, 5));
    assert_eq!(read_varint(&[0x80, 0x80, 0x80, 0x80, 0x08]).unwrap(), (i32::MIN, 5));
    assert_eq!(read_varint(&[0xFF, 0xFF, 0xFF, 0xFF, 0x0F]).unwrap(), (-1, 5));
}

#[test]
fn trailing_bytes_do_not_matter() {
    let mut bytes = vec![0xAC, 0x02];
    assert_eq!(read_varint(&bytes).unwrap(), (300, 2));
    bytes.extend_from_slice(&[0x80, 0x80, 0x80]);
    assert_eq!(read_varint(&bytes).unwrap(), (300, 2));
}

#[test]
fn written_lengths_read_back() {
    for len in [0usize, 1, 127, 128, 255, 16383, 16384, 2_097_151] {
        let mut bytes = Vec::new();
        let mut v = len;
        loop {
            if v < 128 {
                bytes.push(v as u8);
                break;
            }
            bytes.push((v % 128 + 128) as u8);
            v /= 128;
        }
        bytes.push(0x99);
        assert_eq!(get_packet_length(&bytes).unwrap(), len);
    }
}

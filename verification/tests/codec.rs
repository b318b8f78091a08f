use erpc_rust::codec::{BasicCodec, BasicCodecFactory, CodecFactory, MessageInfo, MessageType};
use erpc_rust::crc16::calculate;
use erpc_rust::{CodecError, ErpcError};

#[test]
fn integers_are_little_endian() {
    let mut codec = BasicCodec::new();
    codec.write_uint8(0xab).unwrap();
    codec.write_uint16(0x1234).unwrap();
    codec.write_uint32(0xdeadbeef).unwrap();
    assert_eq!(codec.as_bytes(), &[0xab, 0x34, 0x12, 0xef, 0xbe, 0xad, 0xde]);
    assert_eq!(codec.read_uint8().unwrap(), 0xab);
    assert_eq!(codec.read_uint16().unwrap(), 0x1234);
    assert_eq!(codec.read_uint32().unwrap(), 0xdeadbeef);
    assert_eq!(codec.read_uint8(), Err(ErpcError::Codec(CodecError::BufferUnderflow)));
}

#[test]
fn string_roundtrip_and_wire_format() {
    let mut codec = BasicCodec::new();
    codec.write_string("héllo").unwrap();
    assert_eq!(codec.as_bytes()[..4], [6, 0, 0, 0]);
    assert_eq!(codec.read_string().unwrap(), "héllo");
    assert_eq!(codec.remaining_len(), 0);
}

#[test]
fn binary_roundtrip() {
    let mut codec = BasicCodec::new();
    codec.write_binary(&[0xde, 0xad, 0xbe, 0xef]).unwrap();
    codec.write_uint8(7).unwrap();
    assert_eq!(codec.read_binary().unwrap(), vec![0xde, 0xad, 0xbe, 0xef]);
    assert_eq!(codec.read_uint8().unwrap(), 7);
}

#[test]
fn short_binary_is_rejected_without_consuming() {
    let mut codec = BasicCodec::from_data(vec![5, 0, 0, 0, 1, 2]);
    assert_eq!(codec.read_binary(), Err(ErpcError::Codec(CodecError::BufferUnderflow)));
    assert_eq!(codec.remaining_len(), 6);
}

#[test]
fn invalid_utf8_is_rejected_without_consuming() {
    let mut codec = BasicCodec::from_data(vec![2, 0, 0, 0, 0xff, 0xfe]);
    assert_eq!(codec.read_string(), Err(ErpcError::Codec(CodecError::InvalidUtf8)));
    assert_eq!(codec.remaining_len(), 6);
}

#[test]
fn message_header_roundtrip() {
    let info = MessageInfo::new(MessageType::Reply, 3, 9, 0x01020304);
    let mut codec = BasicCodec::new();
    codec.start_write_message(&info).unwrap();
    assert_eq!(codec.as_bytes(), &[2, 9, 3, 1, 4, 3, 2, 1]);
    assert_eq!(codec.start_read_message().unwrap(), info);
    assert_eq!(codec.get_remaining_bytes().unwrap(), Vec::<u8>::new());
}

#[test]
fn start_write_message_discards_previous_contents() {
    let mut codec = BasicCodec::new();
    codec.write_uint32(77).unwrap();
    codec
        .start_write_message(&MessageInfo::new(MessageType::Invocation, 1, 2, 3))
        .unwrap();
    assert_eq!(codec.len(), 8);
}

#[test]
fn header_errors() {
    let mut bad_version = BasicCodec::from_data(vec![0, 1, 1, 2, 0, 0, 0, 0]);
    assert_eq!(
        bad_version.start_read_message(),
        Err(ErpcError::Codec(CodecError::InvalidVersion(2)))
    );
    let mut bad_type = BasicCodec::from_data(vec![9, 1, 1, 1, 0, 0, 0, 0]);
    assert_eq!(
        bad_type.start_read_message(),
        Err(ErpcError::Codec(CodecError::InvalidMessageType(9)))
    );
    let mut short = BasicCodec::from_data(vec![0, 1, 1, 1, 0]);
    assert_eq!(
        short.start_read_message(),
        Err(ErpcError::Codec(CodecError::BufferUnderflow))
    );
    assert_eq!(short.remaining_len(), 5);
}

#[test]
fn remaining_bytes_follow_the_header() {
    let mut codec = BasicCodec::new();
    codec
        .start_write_message(&MessageInfo::new(MessageType::Oneway, 1, 1, 1))
        .unwrap();
    codec.write_bytes(&[1, 2, 3]).unwrap();
    let mut reader = BasicCodecFactory::new().create_from_data(codec.as_bytes().to_vec());
    reader.start_read_message().unwrap();
    assert_eq!(reader.get_remaining_bytes().unwrap(), vec![1, 2, 3]);
}

#[test]
fn message_type_codes() {
    assert_eq!(MessageType::Invocation.to_u8(), 0);
    assert_eq!(MessageType::Notification.to_u8(), 3);
    assert_eq!(MessageType::from_u8(2), Some(MessageType::Reply));
    assert_eq!(MessageType::from_u8(4), None);
}

#[test]
fn crc16_known_values() {
    assert_eq!(calculate(&[]), 0xEF4A);
    assert_eq!(calculate(b"123456789"), 0x89AC);
    assert_eq!(calculate(&[1]), 0x56E0);
}

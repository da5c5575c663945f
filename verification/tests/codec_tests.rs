use neuralbridge_mcp::protocol::codec::{
    decode_frame, encode_frame, CodecError, MessageFramer, MessageHeader, MessageType,
    HEADER_SIZE, MAX_PAYLOAD_SIZE,
};

#[test]
fn test_header_encode_decode() {
    let header = MessageHeader::new(MessageType::Request, 1234);
    let encoded = header.encode();
    let decoded = MessageHeader::decode(&encoded).unwrap();
    assert_eq!(decoded.message_type, MessageType::Request);
    assert_eq!(decoded.payload_length, 1234);
}

#[test]
fn test_invalid_magic() {
    let mut buf = [0u8; 7];
    buf[0..2].copy_from_slice(&[0xFF, 0xFF]);
    let result = MessageHeader::decode(&buf);
    assert!(result.is_err());
}

#[test]
fn test_message_framer() {
    let mut framer = MessageFramer::new();
    let header = MessageHeader::new(MessageType::Response, 4);
    let encoded_header = header.encode();
    let payload = b"test";
    framer.add_data(&encoded_header[..3]);
    assert!(framer.try_extract_message().unwrap().is_none());
    framer.add_data(&encoded_header[3..]);
    framer.add_data(payload);
    let (extracted_header, extracted_payload) = framer.try_extract_message().unwrap().unwrap();
    assert_eq!(extracted_header.message_type, MessageType::Response);
    assert_eq!(extracted_payload, payload);
}

#[test]
fn header_layout_is_big_endian() {
    let h = MessageHeader::new(MessageType::Event, 0x01020304);
    assert_eq!(h.encode(), [0x4E, 0x42, 0x03, 0x01, 0x02, 0x03, 0x04]);
}

#[test]
fn header_errors() {
    assert!(matches!(MessageHeader::decode(&[0x4E, 0x42, 1]), Err(CodecError::BufferTooShort(3))));
    assert!(matches!(
        MessageHeader::decode(&[0xFF, 0xFF, 1, 0, 0, 0, 0]),
        Err(CodecError::InvalidMagic(0xFFFF))
    ));
    assert!(matches!(
        MessageHeader::decode(&[0x4E, 0x42, 9, 0, 0, 0, 0]),
        Err(CodecError::InvalidMessageType(9))
    ));
    let too_big = (MAX_PAYLOAD_SIZE + 1).to_be_bytes();
    let buf = [0x4E, 0x42, 1, too_big[0], too_big[1], too_big[2], too_big[3]];
    assert!(matches!(MessageHeader::decode(&buf), Err(CodecError::PayloadTooLarge(_))));
    assert!(MessageType::from_u8(0).is_err());
    assert_eq!(MessageType::from_u8(2).unwrap(), MessageType::Response);
}

#[test]
fn frame_roundtrip() {
    let frame = encode_frame(MessageType::Request, b"hello");
    assert_eq!(frame.len(), HEADER_SIZE + 5);
    let (h, p) = decode_frame(&frame).unwrap();
    assert_eq!(h.message_type, MessageType::Request);
    assert_eq!(h.payload_length, 5);
    assert_eq!(p, b"hello");
}

#[test]
fn decode_frame_incomplete() {
    let frame = encode_frame(MessageType::Request, b"hello");
    assert!(matches!(
        decode_frame(&frame[..9]),
        Err(CodecError::IncompletePayload(2, 5))
    ));
}

#[test]
fn framer_skips_garbage_before_magic() {
    let mut framer = MessageFramer::new();
    framer.add_data(&[1, 2, 3]);
    framer.add_data(&encode_frame(MessageType::Event, b"ev"));
    let mut got = None;
    for _ in 0..4 {
        match framer.try_extract_message() {
            Ok(Some(m)) => {
                got = Some(m);
                break;
            }
            Ok(None) => break,
            Err(_) => continue,
        }
    }
    let (h, p) = got.expect("frame after garbage");
    assert_eq!(h.message_type, MessageType::Event);
    assert_eq!(p, b"ev");
    assert_eq!(framer.buffered_len(), 0);
}

#[test]
fn framer_yields_frames_in_order() {
    let mut framer = MessageFramer::new();
    let mut data = encode_frame(MessageType::Response, b"a");
    data.extend_from_slice(&encode_frame(MessageType::Event, b"bc"));
    framer.add_data(&data);
    let (h1, p1) = framer.try_extract_message().unwrap().unwrap();
    let (h2, p2) = framer.try_extract_message().unwrap().unwrap();
    assert_eq!((h1.message_type, p1), (MessageType::Response, b"a".to_vec()));
    assert_eq!((h2.message_type, p2), (MessageType::Event, b"bc".to_vec()));
    assert!(framer.try_extract_message().unwrap().is_none());
}

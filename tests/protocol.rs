use lan_meeting::codec::MessageCodec;
use lan_meeting::protocol::{decode_frame, encode_frame, MessageType, NetworkError, ProtocolFault, MAX_MESSAGE_SIZE};

#[test]
fn frame_layout_is_magic_version_type_length_payload() {
    let bytes = encode_frame(MessageType::Heartbeat, &[9, 8, 7]).unwrap();
    assert_eq!(bytes, vec![0x4C, 0x4D, 1, 0x03, 0, 0, 0, 3, 9, 8, 7]);
}

#[test]
fn frame_round_trip_for_every_type() {
    let types = [
        MessageType::Handshake, MessageType::HandshakeAck, MessageType::Disconnect,
        MessageType::Heartbeat, MessageType::HeartbeatAck, MessageType::ScreenOffer,
        MessageType::ScreenRequest, MessageType::ScreenStart, MessageType::ScreenFrame,
        MessageType::ScreenStop, MessageType::ControlRequest, MessageType::ControlGrant,
        MessageType::ControlRevoke, MessageType::InputEvent, MessageType::ChatMessage,
        MessageType::FileOffer, MessageType::FileAccept, MessageType::FileReject,
        MessageType::FileChunk, MessageType::FileComplete, MessageType::FileCancel,
    ];
    for t in types {
        let payload: Vec<u8> = (0..40).collect();
        let bytes = encode_frame(t, &payload).unwrap();
        let f = decode_frame(&bytes).unwrap();
        assert_eq!(f.message_type, t);
        assert_eq!(f.payload, payload);
        assert_eq!(MessageType::from_code(t.code()).unwrap(), t);
    }
}

#[test]
fn oversize_payload_is_refused() {
    let payload = vec![0u8; MAX_MESSAGE_SIZE + 1];
    assert_eq!(encode_frame(MessageType::FileChunk, &payload).unwrap_err(), NetworkError::ProtocolError(ProtocolFault::TooLarge));
}

#[test]
fn decode_errors_name_the_fault() {
    assert_eq!(decode_frame(&[0x4C, 0x4D, 1]).unwrap_err(), NetworkError::ProtocolError(ProtocolFault::TooShort));
    assert_eq!(decode_frame(&[0, 0, 1, 3, 0, 0, 0, 0]).unwrap_err(), NetworkError::ProtocolError(ProtocolFault::BadMagic));
    assert_eq!(decode_frame(&[0x4C, 0x4D, 2, 3, 0, 0, 0, 0]).unwrap_err(), NetworkError::ProtocolError(ProtocolFault::UnsupportedVersion(2)));
    assert_eq!(decode_frame(&[0x4C, 0x4D, 1, 0x99, 0, 0, 0, 0]).unwrap_err(), NetworkError::ProtocolError(ProtocolFault::UnknownType(0x99)));
    assert_eq!(decode_frame(&[0x4C, 0x4D, 1, 3, 0x01, 0, 0, 1]).unwrap_err(), NetworkError::ProtocolError(ProtocolFault::TooLarge));
    assert_eq!(decode_frame(&[0x4C, 0x4D, 1, 3, 0, 0, 0, 5, 1]).unwrap_err(), NetworkError::ProtocolError(ProtocolFault::Incomplete));
}

#[test]
fn codec_feed_then_decode_returns_message() {
    let bytes = encode_frame(MessageType::ChatMessage, b"hello").unwrap();
    let mut codec = MessageCodec::new();
    codec.feed(&bytes);
    let f = codec.decode().unwrap().unwrap();
    assert_eq!(f.message_type, MessageType::ChatMessage);
    assert_eq!(f.payload, b"hello".to_vec());
    assert_eq!(codec.buffer_len(), 0);
}

#[test]
fn codec_payload_split_across_three_feeds() {
    let bytes = encode_frame(MessageType::Heartbeat, &[1, 2, 3, 4, 5, 6]).unwrap();
    let mut codec = MessageCodec::new();
    codec.feed(&bytes[..3]);
    assert!(codec.decode().unwrap().is_none());
    codec.feed(&bytes[3..9]);
    assert!(codec.decode().unwrap().is_none());
    codec.feed(&bytes[9..]);
    let f = codec.decode().unwrap().unwrap();
    assert_eq!(f.payload, vec![1, 2, 3, 4, 5, 6]);
    assert_eq!(codec.buffer_len(), 0);
    assert!(codec.decode().unwrap().is_none());
}

#[test]
fn codec_resyncs_on_magic_after_garbage() {
    let frame = encode_frame(MessageType::Heartbeat, &[0, 0, 0, 0, 0, 0, 0, 42]).unwrap();
    let mut codec = MessageCodec::new();
    codec.feed(&[0x11, 0x22, 0x33]);
    codec.feed(&frame);
    assert_eq!(codec.decode().unwrap_err(), NetworkError::ProtocolError(ProtocolFault::BadMagic));
    assert_eq!(codec.buffer_len(), frame.len());
    let f = codec.decode().unwrap().unwrap();
    assert_eq!(f.message_type, MessageType::Heartbeat);
}

#[test]
fn codec_clears_when_no_magic_follows() {
    let mut codec = MessageCodec::new();
    codec.feed(&[1, 2, 3, 4, 5, 6, 7, 8, 9]);
    assert!(codec.decode().is_err());
    assert_eq!(codec.buffer_len(), 0);
}

#[test]
fn codec_skips_header_of_oversize_message() {
    let mut codec = MessageCodec::new();
    codec.feed(&[0x4C, 0x4D, 1, 3, 0x02, 0, 0, 0, 7]);
    assert_eq!(codec.decode().unwrap_err(), NetworkError::ProtocolError(ProtocolFault::TooLarge));
    assert_eq!(codec.buffer_len(), 1);
}

use lan_meeting::connections::{frame_payload, try_take_framed};
use lan_meeting::media::{
    encode_frame_message, encode_resolution_request, encode_resolution_request_msg,
    encode_start_message, encode_stop_message, is_simple_message, parse_media_message, MediaMessage,
};

#[test]
fn start_message_layout() {
    assert_eq!(encode_start_message(1280, 720), vec![1, 0, 0, 5, 0, 0, 0, 2, 208]);
}

#[test]
fn frame_message_layout_and_parse() {
    let m = encode_frame_message(0x0102030405060708, &[0xAA, 0xBB]);
    assert_eq!(m, vec![2, 1, 2, 3, 4, 5, 6, 7, 8, 0, 0, 0, 2, 0xAA, 0xBB]);
    match parse_media_message(&m) {
        Some(MediaMessage::Frame { timestamp, payload }) => {
            assert_eq!(timestamp, 0x0102030405060708);
            assert_eq!(payload, vec![0xAA, 0xBB]);
        }
        _ => panic!("not a frame"),
    }
}

#[test]
fn stop_and_resolution_request() {
    assert_eq!(encode_stop_message(), vec![3]);
    let r = encode_resolution_request(1280, 720, 4_000_000);
    assert_eq!(r, encode_resolution_request_msg(1280, 720, 4_000_000));
    assert!(matches!(
        parse_media_message(&r),
        Some(MediaMessage::ResolutionRequest { target_width: 1280, target_height: 720, bitrate: 4_000_000 })
    ));
}

#[test]
fn truncated_messages_do_not_parse() {
    assert!(parse_media_message(&[1, 0, 0]).is_none());
    assert!(parse_media_message(&[2, 0, 0, 0, 0, 0, 0, 0, 1, 0, 0, 0, 5, 1]).is_none());
    assert!(parse_media_message(&[]).is_none());
    assert!(parse_media_message(&[9]).is_none());
}

#[test]
fn media_tags_are_recognised() {
    assert!(is_simple_message(&[1]));
    assert!(is_simple_message(&[4, 0]));
    assert!(!is_simple_message(&[0x4C, 0x4D]));
    assert!(!is_simple_message(&[]));
}

#[test]
fn stream_framing_round_trip() {
    let mut buf = frame_payload(&[5, 6, 7]);
    buf.extend_from_slice(&frame_payload(&[8])[..2]);
    assert_eq!(&buf[..4], &[0, 0, 0, 3]);
    assert_eq!(try_take_framed(&mut buf), Some(vec![5, 6, 7]));
    assert_eq!(try_take_framed(&mut buf), None);
    buf.extend_from_slice(&[0, 1, 8]);
    assert_eq!(try_take_framed(&mut buf), Some(vec![8]));
    assert!(buf.is_empty());
}

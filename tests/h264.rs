use lan_meeting::decoder::{DecoderConfig, OutputFormat, SoftwareDecoder, VideoDecoder};
use lan_meeting::encoder::{frame_type_of, FrameType};
use openh264::encoder::Encoder;
use openh264::formats::YUVBuffer;

fn encoded_frames(n: usize) -> Vec<Vec<u8>> {
    let mut enc = Encoder::new().unwrap();
    let mut out = Vec::new();
    for i in 0..n {
        let yuv = YUVBuffer::from_vec(vec![(40 + i * 10) as u8; 16 * 16 * 3 / 2], 16, 16);
        out.push(enc.encode(&yuv).unwrap().to_vec());
    }
    out
}

#[test]
fn first_encoded_frame_is_a_keyframe() {
    let frames = encoded_frames(2);
    assert_eq!(frame_type_of(&frames[0]), FrameType::KeyFrame);
}

#[test]
fn software_decoder_outputs_planar_frames() {
    let frames = encoded_frames(3);
    let mut dec = SoftwareDecoder::new().unwrap();
    dec.init(DecoderConfig { width: 16, height: 16, output_format: OutputFormat::YUV420 }).unwrap();
    let mut got = None;
    for (i, f) in frames.iter().enumerate() {
        if let Ok(Some(frame)) = dec.decode(f, i as u64) {
            got = Some(frame);
        }
    }
    let frame = got.expect("a decoded picture");
    assert_eq!((frame.width, frame.height), (16, 16));
    assert_eq!(frame.format, OutputFormat::YUV420);
    let strides = frame.strides().unwrap();
    assert!(strides[0] >= 16);
    assert!(frame.cpu_data().unwrap().len() >= 16 * 16);
}

#[test]
fn software_decoder_outputs_bgra_frames() {
    let frames = encoded_frames(3);
    let mut dec = SoftwareDecoder::new().unwrap();
    dec.init(DecoderConfig { width: 16, height: 16, output_format: OutputFormat::BGRA }).unwrap();
    let mut got = None;
    for f in &frames {
        if let Ok(Some(frame)) = dec.decode(f, 7) {
            got = Some(frame);
        }
    }
    let frame = got.expect("a decoded picture");
    assert_eq!(frame.cpu_data().unwrap().len(), 16 * 16 * 4);
    assert_eq!(frame.timestamp, 7);
}

#[test]
fn decoding_before_init_fails() {
    let mut dec = SoftwareDecoder::new().unwrap();
    assert!(dec.decode(&[0, 0, 0, 1, 0x65], 0).is_err());
}

#[test]
fn software_decoder_flush_is_empty() {
    let mut dec = SoftwareDecoder::new().unwrap();
    dec.init(DecoderConfig { width: 16, height: 16, output_format: OutputFormat::YUV420 }).unwrap();
    assert!(dec.flush().unwrap().is_empty());
}

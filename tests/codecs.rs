use lan_meeting::decoder::{create_decoder, frame_from_planes, yuv420_to_bgra, DecodedFrame, DecodedPlanes, DecoderBackend, DecoderError, OutputFormat, VaapiDecoder};
use lan_meeting::encoder::{bgra_to_yuv420, create_encoder, frame_type_of, is_keyframe, EncoderBackend, EncoderConfig, EncoderError, FrameType, HwEncoderType, SoftwareEncoderCore, NvencEncoder};

#[test]
fn keyframe_detection_follows_nal_type() {
    assert!(is_keyframe(&[0, 0, 0, 1, 0x67, 0x42]));
    assert!(is_keyframe(&[0, 0, 1, 0x65, 0x88]));
    assert!(is_keyframe(&[0, 0, 1, 0x65]));
    assert!(!is_keyframe(&[0, 0, 0, 1, 0x41, 0x9a]));
    assert!(!is_keyframe(&[]));
    // a NAL header byte without a start code before it does not count
    assert_eq!(frame_type_of(&[0x25, 0, 0, 0, 0]), FrameType::Delta);
    assert_eq!(frame_type_of(&[0x21, 0, 0, 0, 0]), FrameType::Delta);
}

#[test]
fn keyframe_after_access_unit_delimiter() {
    let stream = [0, 0, 0, 1, 0x09, 0xF0, 0, 0, 0, 1, 0x65, 0x88];
    assert!(is_keyframe(&stream));
    assert_eq!(frame_type_of(&stream), FrameType::KeyFrame);
    let delta = [0, 0, 0, 1, 0x09, 0xF0, 0, 0, 0, 1, 0x41, 0x88];
    assert_eq!(frame_type_of(&delta), FrameType::Delta);
}

#[test]
fn software_encoder_name() {
    assert_eq!(SoftwareEncoderCore::new().info(), "OpenH264 (Software)");
}

#[test]
fn bt601_conversion_of_white_and_black() {
    let white = vec![255u8; 2 * 2 * 4];
    assert_eq!(bgra_to_yuv420(&white, 2, 2), vec![235, 235, 235, 235, 128, 128]);
    let black = vec![0u8; 2 * 2 * 4];
    assert_eq!(bgra_to_yuv420(&black, 2, 2), vec![16, 16, 16, 16, 128, 128]);
    // pure red: Y 82, U 90, V 240
    let red = [0u8, 0, 255, 255].repeat(4);
    assert_eq!(bgra_to_yuv420(&red, 2, 2), vec![82, 82, 82, 82, 90, 240]);
}

#[test]
fn yuv_to_bgra_conversion() {
    let out = yuv420_to_bgra(&[235, 16], &[128], &[128], 2, 1, 1, 2, 1);
    assert_eq!(out, vec![235, 235, 235, 255, 16, 16, 16, 255]);
    let red = yuv420_to_bgra(&[82], &[90], &[240], 1, 1, 1, 1, 1);
    assert_eq!(red, vec![14, 15, 239, 255]);
}

#[test]
fn planes_to_frame() {
    let p = DecodedPlanes { width: 2, height: 2, y: vec![1, 2, 3, 4], u: vec![5], v: vec![6], y_stride: 2, uv_stride: 1 };
    let f = frame_from_planes(&p, OutputFormat::YUV420, 9).unwrap();
    assert_eq!(f.cpu_data().unwrap(), &[1, 2, 3, 4, 5, 6]);
    assert_eq!(f.strides(), Some([2, 1, 1]));
    let g = frame_from_planes(&p, OutputFormat::BGRA, 9).unwrap();
    assert_eq!(g.cpu_data().unwrap().len(), 16);
    assert!(g.is_cpu());
    let short = DecodedPlanes { width: 4, height: 2, y: vec![1, 2], u: vec![], v: vec![], y_stride: 4, uv_stride: 2 };
    assert!(matches!(frame_from_planes(&short, OutputFormat::YUV420, 0), Err(DecoderError::InvalidData(_))));
    let d = DecodedFrame::bgra(1, 1, 3, vec![0, 0, 0, 255]);
    assert_eq!(d.strides(), None);
}

#[test]
fn encoder_core_crops_oversize_input_and_latches_keyframe() {
    let mut core = SoftwareEncoderCore::new();
    assert!(core.prepare(&[]).is_err());
    core.init(EncoderConfig { width: 4096, height: 2200, ..EncoderConfig::default() });
    assert_eq!(core.dimensions(), Some((3840, 2160)));
    let mut small = SoftwareEncoderCore::new();
    small.init(EncoderConfig { width: 4, height: 2, ..EncoderConfig::default() });
    small.request_keyframe();
    let (yuv, force) = small.prepare(&vec![0u8; 4 * 2 * 4]).unwrap();
    assert!(force);
    assert_eq!(yuv.len(), 4 * 2 + 2 * 2);
    let (_, force_again) = small.prepare(&vec![0u8; 4 * 2 * 4]).unwrap();
    assert!(!force_again);
    let f = small.finish(vec![0, 0, 0, 1, 0x65, 0], 77);
    assert_eq!(f.frame_type, FrameType::KeyFrame);
    assert_eq!((f.size, f.timestamp), (6, 77));
    small.set_bitrate(1000);
    assert_eq!(small.config.unwrap().bitrate, 1000);
}

#[test]
fn selection_falls_back_to_software() {
    assert!(matches!(create_encoder(), Ok(EncoderBackend::Software(_))));
    assert!(matches!(create_decoder(), Ok(DecoderBackend::Software(_))));
    assert!(matches!(NvencEncoder::new(), Err(EncoderError::HardwareNotAvailable)));
    assert!(matches!(VaapiDecoder::new(), Err(DecoderError::HardwareNotAvailable)));
    assert_eq!(HwEncoderType::Qsv.codec_name(), "h264_qsv");
}

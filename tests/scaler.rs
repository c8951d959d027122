use lan_meeting::scaler::{AdaptMode, FrameScaler, OPENH264_MAX_HEIGHT, OPENH264_MAX_WIDTH};
use std::borrow::Cow;

#[test]
fn test_no_scaling_needed() {
    let scaler = FrameScaler::new(1920, 1080);
    assert!(!scaler.needs_scaling);
    assert_eq!(scaler.dst_width, 1920);
    assert_eq!(scaler.dst_height, 1080);
}

#[test]
fn test_crop_height_only() {
    let scaler = FrameScaler::new(3456, 2168);
    assert!(scaler.needs_scaling);
    assert_eq!(scaler.dst_width, 3456);
    assert_eq!(scaler.dst_height, 2160);
}

#[test]
fn test_crop_width_only() {
    let scaler = FrameScaler::new(4096, 2160);
    assert!(scaler.needs_scaling);
    assert_eq!(scaler.dst_width, 3840);
    assert_eq!(scaler.dst_height, 2160);
}

#[test]
fn test_crop_both() {
    let scaler = FrameScaler::new(4096, 2200);
    assert!(scaler.needs_scaling);
    assert_eq!(scaler.dst_width, 3840);
    assert_eq!(scaler.dst_height, 2160);
}

#[test]
fn test_dimensions_are_even() {
    let scaler = FrameScaler::new(3457, 2169);
    assert!(scaler.dst_width % 2 == 0);
    assert!(scaler.dst_height % 2 == 0);
}

#[test]
fn test_crop_height_zero_cost() {
    let scaler = FrameScaler {
        src_width: 4,
        src_height: 6,
        dst_width: 4,
        dst_height: 4,
        needs_scaling: true,
        mode: AdaptMode::CropHeight,
    };
    let frame = vec![0u8; 4 * 6 * 4];
    let result = scaler.scale(&frame);
    assert!(matches!(result, Cow::Borrowed(_)));
    assert_eq!(result.len(), 4 * 4 * 4);
}

#[test]
fn test_downscale_target() {
    let scaler = FrameScaler::new_with_target(3456, 2160, 1280, 720);
    assert!(scaler.needs_scaling);
    assert_eq!(scaler.dst_width, 1152);
    assert_eq!(scaler.dst_height, 720);
}

#[test]
fn test_downscale_preserves_aspect_ratio() {
    let scaler = FrameScaler::new_with_target(1920, 1080, 1280, 720);
    assert_eq!(scaler.dst_width, 1280);
    assert_eq!(scaler.dst_height, 720);
}

#[test]
fn test_downscale_no_upscale() {
    let scaler = FrameScaler::new_with_target(640, 480, 1280, 720);
    assert!(!scaler.needs_scaling);
    assert_eq!(scaler.dst_width, 640);
    assert_eq!(scaler.dst_height, 480);
}

#[test]
fn test_downscale_even_dimensions() {
    let scaler = FrameScaler::new_with_target(3456, 2160, 1281, 721);
    assert_eq!(scaler.dst_width % 2, 0);
    assert_eq!(scaler.dst_height % 2, 0);
}

#[test]
fn test_downscale_nearest_pixel_values() {
    let scaler = FrameScaler::new_with_target(4, 4, 2, 2);
    let mut src = vec![0u8; 4 * 4 * 4];
    src[0..4].copy_from_slice(&[0, 0, 255, 255]);
    src[4..8].copy_from_slice(&[0, 255, 0, 255]);
    let row2 = 2 * 4 * 4;
    src[row2..row2 + 4].copy_from_slice(&[255, 0, 0, 255]);
    src[row2 + 4..row2 + 8].copy_from_slice(&[255, 255, 255, 255]);

    let result = scaler.scale(&src);
    assert_eq!(result.len(), 2 * 2 * 4);
    assert_eq!(&result[0..4], &[0, 0, 255, 255]);
    assert_eq!(&result[8..12], &[255, 0, 0, 255]);
}

#[test]
fn boundary_native_max_is_not_scaled() {
    let scaler = FrameScaler::new(3840, 2160);
    assert!(!scaler.needs_scaling);
    assert_eq!(scaler.mode, AdaptMode::Passthrough);
    assert_eq!((scaler.dst_width, scaler.dst_height), (3840, 2160));
}

#[test]
fn boundary_wide_source_crops_width() {
    let scaler = FrameScaler::new(4096, 2160);
    assert_eq!(scaler.mode, AdaptMode::CropWidth);
    assert_eq!((scaler.dst_width, scaler.dst_height), (3840, 2160));
}

#[test]
fn boundary_odd_source_crops_both() {
    let scaler = FrameScaler::new(3457, 2169);
    assert_eq!(scaler.mode, AdaptMode::CropBoth);
    assert_eq!((scaler.dst_width, scaler.dst_height), (3456, 2160));
}

#[test]
fn odd_source_within_limits_is_cropped_to_even() {
    let scaler = FrameScaler::new(1921, 1081);
    assert_eq!(scaler.mode, AdaptMode::CropBoth);
    assert_eq!((scaler.dst_width, scaler.dst_height), (1920, 1080));
    let frame: Vec<u8> = (0..(1921u32 * 1081 * 4)).map(|i| (i % 251) as u8).collect();
    let out = scaler.scale(&frame);
    assert_eq!(out.len(), 1920 * 1080 * 4);
    // second row starts after the dropped column of the first source row
    assert_eq!(out[1920 * 4], frame[1921 * 4]);
}

#[test]
fn boundary_downscale_into_720p_box() {
    let scaler = FrameScaler::new_with_target(3456, 2160, 1280, 720);
    assert_eq!(scaler.mode, AdaptMode::Downscale);
    assert_eq!((scaler.dst_width, scaler.dst_height), (1152, 720));
}

#[test]
fn dimensions_even_and_within_max_for_many_sources() {
    for &(w, h) in &[(0u32, 0u32), (1, 1), (3, 5), (7681, 4321), (u32::MAX, u32::MAX), (5000, 100)] {
        let s = FrameScaler::new(w, h);
        assert_eq!(s.dst_width % 2, 0);
        assert_eq!(s.dst_height % 2, 0);
        assert!(s.dst_width <= OPENH264_MAX_WIDTH && s.dst_height <= OPENH264_MAX_HEIGHT);
        let t = FrameScaler::new_with_target(w, h, 1920, 1080);
        assert_eq!(t.dst_width % 2, 0);
        assert_eq!(t.dst_height % 2, 0);
        assert!(t.dst_width <= 1920 && t.dst_height <= 1080);
    }
}

#[test]
fn passthrough_returns_input_borrowed() {
    let scaler = FrameScaler::new(4, 2);
    let frame: Vec<u8> = (0..32).collect();
    let out = scaler.scale(&frame);
    assert!(matches!(out, Cow::Borrowed(_)));
    assert_eq!(&out[..], &frame[..]);
}

#[test]
fn crop_height_keeps_prefix() {
    let scaler = FrameScaler::new(2, 2162);
    assert_eq!(scaler.mode, AdaptMode::CropHeight);
    let frame: Vec<u8> = (0..(2u32 * 2162 * 4)).map(|i| (i % 7) as u8).collect();
    let out = scaler.scale(&frame);
    assert_eq!(&out[..], &frame[..2 * 2160 * 4]);
}

#[test]
fn cropping_and_downscaling_allocate() {
    let crop = FrameScaler::new(4098, 2);
    assert_eq!(crop.mode, AdaptMode::CropWidth);
    let frame = vec![1u8; 4098 * 2 * 4];
    assert!(matches!(crop.scale(&frame), Cow::Owned(_)));
    let down = FrameScaler::new_with_target(8, 8, 4, 4);
    assert!(matches!(down.scale(&vec![0u8; 8 * 8 * 4]), Cow::Owned(_)));
}

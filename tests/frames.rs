use lan_meeting::capture::{CaptureControl, CaptureError};
use lan_meeting::decoder::{nv12_to_bgra, nv12_to_yuv420p};
use lan_meeting::renderer::{choose_present_mode, viewport_for, LatestFrameSlot, PresentMode, Viewport};

#[test]
fn nv12_is_deinterleaved() {
    let (out, strides) = nv12_to_yuv420p(&[1, 2, 3, 4, 10, 20], 2, 2);
    assert_eq!(out, vec![1, 2, 3, 4, 10, 20]);
    assert_eq!(strides, [2, 1, 1]);
    let (short, _) = nv12_to_yuv420p(&[1, 2, 3, 4], 2, 2);
    assert_eq!(short, vec![1, 2, 3, 4, 128, 128]);
}

#[test]
fn nv12_to_bgra_white_and_black() {
    assert_eq!(nv12_to_bgra(&[235, 128, 128], 1, 1), vec![255, 255, 255, 255]);
    assert_eq!(nv12_to_bgra(&[16, 128, 128], 1, 1), vec![0, 0, 0, 255]);
    assert_eq!(nv12_to_bgra(&[16], 1, 1), vec![0, 0, 0, 255]);
}

#[test]
fn letterbox_and_pillarbox() {
    assert_eq!(viewport_for(1920, 1080, 1000, 1000), Viewport { x: 0, y: 219, width: 1000, height: 562 });
    assert_eq!(viewport_for(1080, 1920, 1000, 1000), Viewport { x: 219, y: 0, width: 562, height: 1000 });
    assert_eq!(viewport_for(1280, 720, 1280, 720), Viewport { x: 0, y: 0, width: 1280, height: 720 });
}

#[test]
fn window_keeps_only_latest_frame() {
    let mut slot = LatestFrameSlot::new();
    assert_eq!(slot.put(1), None);
    assert_eq!(slot.put(2), Some(1));
    assert_eq!(slot.take(), Some(2));
    assert_eq!(slot.take(), None);
}

#[test]
fn capture_requires_start_and_restarts() {
    let mut c = CaptureControl::new();
    assert!(matches!(c.check_capture(), Err(CaptureError::NotCapturing)));
    assert!(!c.start(3));
    assert_eq!(c.check_capture().unwrap(), 3);
    assert!(c.start(4));
    assert_eq!(c.check_capture().unwrap(), 4);
    c.stop();
    assert!(!c.is_capturing());
    assert!(!c.start(4));
}

#[test]
fn present_mode_prefers_lowest_latency() {
    assert_eq!(choose_present_mode(&vec![PresentMode::Fifo, PresentMode::Immediate, PresentMode::Mailbox]), PresentMode::Mailbox);
    assert_eq!(choose_present_mode(&vec![PresentMode::Fifo, PresentMode::Immediate]), PresentMode::Immediate);
    assert_eq!(choose_present_mode(&vec![PresentMode::Other]), PresentMode::Fifo);
    assert_eq!(choose_present_mode(&vec![]), PresentMode::Fifo);
}

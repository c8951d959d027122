use lan_meeting::encoder::{EncodedFrame, FrameType};
use lan_meeting::media::{encode_frame_message, encode_resolution_request, encode_start_message, encode_stop_message};
use lan_meeting::renderer::{admit_frame, overlay_visible, toolbar_request, RendererError};
use lan_meeting::sharer::{plan_stream, select_display, DisplaySize, FrameLoop, SharingState, StartDecision, UpstreamAction};
use lan_meeting::viewer::{initial_resolution_request, SessionPhase, ViewerSession};

#[test]
fn start_stop_start_sets_up_again() {
    let mut s = SharingState::new();
    assert_eq!(s.start_sharing(), StartDecision::SetUp);
    s.finish_start();
    assert!(s.is_simple_sharing());
    assert_eq!(s.start_sharing(), StartDecision::AlreadySharing);
    s.stop_sharing();
    s.stop_sharing();
    assert_eq!(s.start_sharing(), StartDecision::SetUp);
    s.finish_start();
    assert!(s.is_simple_sharing());
}

#[test]
fn display_selection_falls_back_to_first() {
    let displays = vec![DisplaySize { id: 4, width: 1920, height: 1080 }, DisplaySize { id: 7, width: 2560, height: 1440 }];
    assert_eq!(select_display(&displays, 7), Some(1));
    assert_eq!(select_display(&displays, 9), Some(0));
    assert_eq!(select_display(&vec![], 0), None);
}

#[test]
fn stream_plan_fits_720p_box() {
    let plan = plan_stream(1920, 1080);
    assert_eq!((plan.scaler.dst_width, plan.scaler.dst_height), (1280, 720));
    assert_eq!((plan.config.width, plan.config.height, plan.config.bitrate, plan.config.fps), (1280, 720, 2_000_000, 30));
    let (lp, start) = FrameLoop::new(&plan);
    assert_eq!(start, encode_start_message(1280, 720));
    assert_eq!(lp.sequence, 0);
}

#[test]
fn resolution_request_renegotiates_stream() {
    let plan = plan_stream(3456, 2160);
    let (mut lp, _) = FrameLoop::new(&plan);
    match lp.on_upstream(&encode_resolution_request(1280, 720, 4_000_000)) {
        UpstreamAction::Reconfigure { scaler, config, start_message } => {
            assert_eq!((scaler.dst_width, scaler.dst_height), (1152, 720));
            assert_eq!((config.bitrate, config.max_bitrate), (4_000_000, 8_000_000));
            assert_eq!(start_message, encode_start_message(1152, 720));
            lp.commit_reconfigure(scaler);
            assert_eq!((lp.encode_width, lp.encode_height, lp.sequence), (1152, 720, 0));
        }
        UpstreamAction::Ignore => panic!("request ignored"),
    }
    assert!(matches!(lp.on_upstream(&[7, 1, 2]), UpstreamAction::Ignore));
}

#[test]
fn live_change_to_720p_from_1080p() {
    let plan = plan_stream(1920, 1080);
    let (lp, _) = FrameLoop::new(&plan);
    match lp.on_upstream(&encode_resolution_request(1280, 720, 4_000_000)) {
        UpstreamAction::Reconfigure { start_message, .. } => assert_eq!(start_message, encode_start_message(1280, 720)),
        UpstreamAction::Ignore => panic!("request ignored"),
    }
}

#[test]
fn frame_timestamps_never_decrease() {
    let plan = plan_stream(640, 480);
    let (mut lp, _) = FrameLoop::new(&plan);
    let frame = EncodedFrame { data: vec![0, 0, 0, 1, 0x65, 1], timestamp: 0, frame_type: FrameType::KeyFrame, size: 6 };
    let a = lp.frame_message(&frame, 1000).unwrap();
    let b = lp.frame_message(&frame, 900).unwrap();
    assert_eq!(a, encode_frame_message(1000, &frame.data));
    assert_eq!(b, encode_frame_message(1000, &frame.data));
    let empty = EncodedFrame { data: vec![], timestamp: 0, frame_type: FrameType::Delta, size: 0 };
    assert!(lp.frame_message(&empty, 2000).is_none());
    assert_eq!(lp.sequence, 3);
    assert_eq!(lp.stop_message(), encode_stop_message());
}

#[test]
fn viewer_decodes_all_renders_last_and_stops() {
    let mut v = ViewerSession::new();
    let plan = v.on_start(1280, 720);
    assert!(plan.create_window);
    assert!(!v.on_start(1152, 720).create_window);
    let batch = vec![
        encode_frame_message(1, &[1]),
        vec![2, 0],
        encode_frame_message(2, &[2, 2]),
        encode_stop_message(),
        encode_frame_message(3, &[3]),
    ];
    let p = v.on_frames(&batch, true);
    assert_eq!(p.decode, vec![(1, vec![1]), (2, vec![2, 2])]);
    assert!(p.render_last);
    assert!(p.end);
    assert_eq!(v.phase, SessionPhase::Ended);
}

#[test]
fn viewer_window_closed_mid_stream_ends_session() {
    let mut v = ViewerSession::new();
    v.on_start(640, 480);
    assert!(matches!(admit_frame(false), Err(RendererError::WindowError(_))));
    assert!(admit_frame(true).is_ok());
    let p = v.on_frames(&vec![encode_frame_message(5, &[9])], false);
    assert!(p.decode.is_empty());
    assert!(p.end);
    assert_eq!(v.phase, SessionPhase::Ended);
}

#[test]
fn frames_before_start_are_dropped() {
    let mut v = ViewerSession::new();
    let p = v.on_frames(&vec![encode_frame_message(5, &[9])], true);
    assert!(p.decode.is_empty() && !p.end);
    assert_eq!(v.phase, SessionPhase::Created);
}

#[test]
fn initial_request_only_for_non_default_settings() {
    assert_eq!(initial_resolution_request(0, 0), None);
    assert_eq!(initial_resolution_request(1, 1), Some(encode_resolution_request(1920, 1080, 4_000_000)));
    assert_eq!(initial_resolution_request(9, 9), Some(encode_resolution_request(3840, 2160, 12_000_000)));
    assert_eq!(toolbar_request(2, 3), (2560, 1440, 12_000_000));
}

#[test]
fn overlay_hides_after_three_seconds() {
    assert!(overlay_visible(true, 5000, 3000));
    assert!(!overlay_visible(true, 6000, 3000));
    assert!(!overlay_visible(false, 3000, 3000));
}

#[test]
fn viewer_sessions_are_keyed_by_peer() {
    let mut s = lan_meeting::viewer::ViewerSessions::new();
    s.create_viewer_session("10.0.0.2".to_string(), "Desk".to_string());
    s.create_viewer_session("10.0.0.3".to_string(), "Laptop".to_string());
    s.create_viewer_session("10.0.0.2".to_string(), "Desk".to_string());
    assert_eq!(s.len(), 2);
    s.remove_viewer_session("10.0.0.2");
    assert_eq!(s.len(), 1);
    s.remove_viewer_session("10.0.0.9");
    assert_eq!(s.len(), 1);
}

use lan_meeting::links::{viewer_url, viewer_window_label};
use lan_meeting::chat::{add_system_message, receive_message, send_message, ChatManager, MessageType, MAX_HISTORY_SIZE};
use lan_meeting::input::{has_permission, Modifiers, MouseButton};
use lan_meeting::streaming::{Quality, StreamingConfig};
use lan_meeting::transfer::{checksum_matches, chunk_count, file_info, ChunkTracker, CHUNK_SIZE};

#[test]
fn chat_history_is_bounded() {
    let mut m = ChatManager::new();
    let first = send_message(&mut m, "hi", "dev-1", "Desk");
    assert!(first.is_local);
    assert_eq!(first.message_type, MessageType::Text);
    receive_message(&mut m, "dev-2", "Laptop", "yo", 42);
    add_system_message(&mut m, "joined");
    assert_eq!(m.message_count(), 3);
    assert_eq!(m.get_messages_after(41).len() >= 1, true);
    assert_eq!(m.get_messages()[1].timestamp, 42);
    for i in 0..MAX_HISTORY_SIZE {
        receive_message(&mut m, "dev-2", "Laptop", &format!("{}", i), i as u64);
    }
    assert_eq!(m.message_count(), MAX_HISTORY_SIZE);
    assert_eq!(m.get_messages()[0].content, "0");
    m.clear();
    assert_eq!(m.message_count(), 0);
}

#[test]
fn modifiers_and_buttons() {
    let m = Modifiers::new().with_shift().with_meta();
    assert!(m.shift && m.meta && !m.ctrl && !m.alt);
    assert_eq!(MouseButton::from(2), MouseButton::Middle);
    assert_eq!(MouseButton::from(99), MouseButton::Left);
    assert!(has_permission());
}

#[test]
fn quality_bitrates() {
    assert_eq!(Quality::Auto.bitrate(), 8_000_000);
    assert_eq!(Quality::High.bitrate(), 8_000_000);
    assert_eq!(Quality::Medium.bitrate(), 4_000_000);
    assert_eq!(Quality::Low.bitrate(), 2_000_000);
    assert_eq!(StreamingConfig::default().fps, 30);
}

#[test]
fn chunk_bookkeeping() {
    assert_eq!(chunk_count(0), 0);
    assert_eq!(chunk_count(1000), 1);
    assert_eq!(chunk_count(CHUNK_SIZE * 2 + 1), 3);
    let mut t = ChunkTracker::new(CHUNK_SIZE * 2 + 1);
    t.mark_received(CHUNK_SIZE, 10);
    assert_eq!(t.missing_chunks(), vec![0, 2 * CHUNK_SIZE]);
    assert!(!t.is_complete());
    t.mark_received(0, 10);
    t.mark_received(2 * CHUNK_SIZE, 1);
    assert!(t.is_complete());
    assert_eq!(t.bytes_received(), 21);
}

#[test]
fn checksums_and_mime() {
    assert!(checksum_matches(b"abc", "ba7816bf8f01cfea414140de5dae2223b00361a396177a9cb410ff61f20015ad"));
    assert!(!checksum_matches(b"abd", "ba7816bf8f01cfea414140de5dae2223b00361a396177a9cb410ff61f20015ad"));
    let info = file_info("f1".to_string(), "notes.txt".to_string(), 13, "x".to_string());
    assert_eq!(info.mime_type.as_deref(), Some("text/plain"));
}

#[test]
fn viewer_page_address_and_window_label() {
    assert_eq!(viewer_url("a b", "Zo\u{eb}", "10.0.0.1"), "/viewer.html?peer_id=a%20b&peer_name=Zo%C3%AB&peer_ip=10.0.0.1");
    assert_eq!(viewer_window_label("10.0.0.1:19876"), "viewer-10-0-0-1-19876");
    assert_eq!(viewer_window_label(""), "viewer-");
}

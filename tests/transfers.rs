use lan_meeting::transfer::{file_info, FileTransfer, TransferDirection, TransferError, TransferRegistry, TransferStatus};

fn info(id: &str, size: u64) -> lan_meeting::transfer::FileInfo {
    file_info(id.to_string(), format!("{}.bin", id), size, "00".to_string())
}

#[test]
fn incoming_transfer_lifecycle() {
    let mut reg = TransferRegistry::new();
    reg.insert(FileTransfer::new_incoming(info("f1", 100), "peer"));
    reg.insert(FileTransfer::new_outgoing(info("f2", 50), "peer", "/tmp/f2.bin"));
    assert_eq!(reg.get_active_transfers().len(), 1);
    assert!(matches!(reg.accept_transfer("f2", "/x"), Err(TransferError::TransferFailed(_))));
    assert!(matches!(reg.accept_transfer("nope", "/x"), Err(TransferError::TransferNotFound(_))));
    reg.accept_transfer("f1", "/downloads/f1.bin").unwrap();
    let t = reg.get_transfer("f1").unwrap();
    assert_eq!(t.status, TransferStatus::InProgress);
    assert_eq!(t.direction, TransferDirection::Incoming);
    assert_eq!(t.local_path.as_deref(), Some("/downloads/f1.bin"));
    reg.update_progress("f1", 40);
    assert_eq!(reg.get_transfer("f1").unwrap().bytes_transferred, 40);
    reg.complete_transfer("f1");
    let done = reg.get_transfer("f1").unwrap();
    assert_eq!((done.status, done.bytes_transferred), (TransferStatus::Completed, 100));
    reg.cleanup_finished();
    assert_eq!(reg.get_all_transfers().len(), 1);
    reg.reject_transfer("f2").unwrap();
    assert_eq!(reg.get_transfer("f2").unwrap().status, TransferStatus::Cancelled);
    assert!(matches!(reg.reject_transfer("f9"), Err(TransferError::TransferNotFound(_))));
}

#[test]
fn failed_transfer_keeps_reason() {
    let mut t = FileTransfer::new_outgoing(info("f3", 10), "peer", "/tmp/f3");
    t.start();
    t.fail("disk full");
    assert_eq!(t.status, TransferStatus::Failed);
    assert_eq!(t.error.as_deref(), Some("disk full"));
}

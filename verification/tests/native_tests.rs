use downloader_core::native::{
    percent_of, transfer_step, TransferAction, TransferEvent, TransferState,
};

#[test]
fn percent_handles_unknown_and_overshooting_totals() {
    assert_eq!(percent_of(0, 0), 0);
    assert_eq!(percent_of(500, 0), 0);
    assert_eq!(percent_of(50, 200), 25);
    assert_eq!(percent_of(199, 200), 99);
    assert_eq!(percent_of(200, 200), 100);
    assert_eq!(percent_of(999, 200), 100);
}

#[test]
fn cancellation_is_a_distinguishable_outcome() {
    let mut s = TransferState { downloaded: 10, total: 100, last_emitted: 10 };
    let action = transfer_step(&mut s, TransferEvent::CancelSignalled);
    assert_eq!(action, TransferAction::StopCancelled);
    assert_ne!(action, TransferAction::StopComplete);
    assert_eq!(s.downloaded, 10);
}

#[test]
fn ticks_emit_only_changed_percentages() {
    let mut s = TransferState { downloaded: 0, total: 200, last_emitted: 0 };
    assert_eq!(transfer_step(&mut s, TransferEvent::Tick), TransferAction::KeepGoing);
    assert_eq!(transfer_step(&mut s, TransferEvent::Chunk { size: 100 }), TransferAction::KeepGoing);
    assert_eq!(transfer_step(&mut s, TransferEvent::Tick), TransferAction::EmitProgress(50));
    assert_eq!(transfer_step(&mut s, TransferEvent::Tick), TransferAction::KeepGoing);
    assert_eq!(transfer_step(&mut s, TransferEvent::Chunk { size: 100 }), TransferAction::KeepGoing);
    assert_eq!(transfer_step(&mut s, TransferEvent::Tick), TransferAction::EmitProgress(100));
    assert_eq!(transfer_step(&mut s, TransferEvent::StreamEnd), TransferAction::StopComplete);
}

#[test]
fn byte_counting_saturates() {
    let mut s = TransferState { downloaded: u64::MAX - 5, total: 0, last_emitted: 0 };
    assert_eq!(transfer_step(&mut s, TransferEvent::Chunk { size: 50 }), TransferAction::KeepGoing);
    assert_eq!(s.downloaded, u64::MAX);
}

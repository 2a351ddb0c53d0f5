use downloader_core::store::{
    ActiveDownloads, CancelError, DownloadInfo, DownloadStatus, ExtractionStatus,
};

fn record(id: &str, status: DownloadStatus, progress: u8) -> DownloadInfo {
    DownloadInfo {
        id: id.to_string(),
        filename: format!("{}.bin", id),
        url: format!("https://host/{}", id),
        progress,
        status,
        path: None,
        error: None,
        provider: None,
        downloaded_at: None,
        extracted: false,
        extracted_path: None,
        extraction_status: ExtractionStatus::Idle,
        extraction_progress: 0,
    }
}

#[test]
fn stale_progress_reports_are_dropped() {
    let mut store = ActiveDownloads::new();
    let _token = store.track_new("d1", "f.bin", "https://host/f.bin", None);
    assert!(store.set_status("d1", DownloadStatus::Downloading));
    let mut stored: Vec<u8> = Vec::new();
    for v in [10u8, 5, 20, 15, 50] {
        if store.apply_progress("d1", v) {
            stored.push(v);
        }
    }
    assert_eq!(stored, vec![10, 20, 50]);
    assert_eq!(store.get("d1").unwrap().progress, 50);
}

#[test]
fn progress_needs_a_downloading_record() {
    let mut store = ActiveDownloads::new();
    let _token = store.track_new("d1", "f.bin", "https://host/f.bin", None);
    assert!(!store.apply_progress("d1", 10));
    assert!(!store.apply_progress("unknown", 10));
    assert!(store.set_status("d1", DownloadStatus::Downloading));
    assert!(!store.apply_progress("d1", 101));
    assert!(store.apply_progress("d1", 100));
}

#[test]
fn startup_sweep_fails_midflight_records_only() {
    let records = vec![
        record("a", DownloadStatus::Downloading, 40),
        record("b", DownloadStatus::Completed, 100),
        record("c", DownloadStatus::Starting, 0),
    ];
    let mut store = ActiveDownloads::from_records(records);
    store.cleanup_active_downloads();
    let a = store.get("a").unwrap();
    assert_eq!(a.status, DownloadStatus::Failed);
    assert!(!a.error.as_ref().unwrap().is_empty());
    let b = store.get("b").unwrap();
    assert_eq!(b.status, DownloadStatus::Completed);
    assert!(b.error.is_none());
    assert_eq!(b.progress, 100);
    let c = store.get("c").unwrap();
    assert_eq!(c.status, DownloadStatus::Failed);
}

#[test]
fn cancelling_a_tracked_download() {
    let mut store = ActiveDownloads::new();
    let token = store.track_new("d1", "f.bin", "https://host/f.bin", Some("prov"));
    assert!(store.set_status("d1", DownloadStatus::Downloading));
    assert!(store.apply_progress("d1", 30));
    assert!(store.has_token("d1"));
    assert!(!token.is_cancelled());

    assert!(store.cancel_download("d1").is_ok());

    let rec = store.get("d1").unwrap();
    assert_eq!(rec.status, DownloadStatus::Cancelled);
    assert_eq!(rec.progress, 0);
    assert!(!rec.error.as_ref().unwrap().is_empty());
    assert!(!store.has_token("d1"));
    assert!(token.is_cancelled());
}

#[test]
fn cancelling_an_unknown_id_is_a_not_found_error() {
    let mut store = ActiveDownloads::new();
    assert_eq!(store.cancel_download("ghost"), Err(CancelError::UnknownDownload));
}

#[test]
fn terminal_records_never_change() {
    let mut store = ActiveDownloads::new();
    let _token = store.track_new("d1", "f.bin", "https://host/f.bin", None);
    assert!(store.set_status("d1", DownloadStatus::Downloading));
    assert!(store.complete_download("d1", "/tmp/f.bin"));
    assert!(!store.set_status("d1", DownloadStatus::Failed));
    assert!(!store.fail_download("d1", "late error"));
    let rec = store.get("d1").unwrap();
    assert_eq!(rec.status, DownloadStatus::Completed);
    assert!(rec.error.is_none());
}

#[test]
fn completion_stamps_a_time_and_drops_the_token() {
    let mut store = ActiveDownloads::new();
    let _token = store.track_new("d1", "f.bin", "https://host/f.bin", None);
    assert!(store.has_token("d1"));
    assert!(store.complete_download("d1", "/tmp/f.bin"));
    let rec = store.get("d1").unwrap();
    assert_eq!(rec.status, DownloadStatus::Completed);
    assert_eq!(rec.progress, 100);
    assert_eq!(rec.path.as_deref(), Some("/tmp/f.bin"));
    assert!(!rec.downloaded_at.as_ref().unwrap().is_empty());
    assert!(!store.has_token("d1"));
}

#[test]
fn failure_keeps_progress_and_reports_reason() {
    let mut store = ActiveDownloads::new();
    let _token = store.track_new("d1", "f.bin", "https://host/f.bin", None);
    assert!(store.set_status("d1", DownloadStatus::Downloading));
    assert!(store.apply_progress("d1", 70));
    assert!(store.fail_download("d1", "connection reset"));
    let rec = store.get("d1").unwrap();
    assert_eq!(rec.status, DownloadStatus::Failed);
    assert_eq!(rec.progress, 70);
    assert_eq!(rec.error.as_deref(), Some("connection reset"));
    assert!(!store.has_token("d1"));
}

#[test]
fn manual_downloads_register_completed() {
    let mut store = ActiveDownloads::new();
    store.register_manual_download("m1", "game.zip", "/downloads/game.zip");
    let rec = store.get("m1").unwrap();
    assert_eq!(rec.status, DownloadStatus::Completed);
    assert_eq!(rec.progress, 100);
    assert_eq!(rec.url, "manual");
    assert_eq!(rec.provider.as_deref(), Some("manual"));
    assert_eq!(rec.path.as_deref(), Some("/downloads/game.zip"));
    assert!(!rec.downloaded_at.as_ref().unwrap().is_empty());
    assert!(!store.has_token("m1"));
}

#[test]
fn extraction_substate_transitions() {
    let mut store = ActiveDownloads::new();
    store.register_manual_download("m1", "game.zip", "/downloads/game.zip");
    assert!(store.begin_extraction("m1"));
    let rec = store.get("m1").unwrap();
    assert_eq!(rec.extraction_status, ExtractionStatus::Extracting);
    assert_eq!(rec.extraction_progress, 0);

    assert!(store.finish_extraction("m1", "/downloads/game"));
    let rec = store.get("m1").unwrap();
    assert_eq!(rec.extraction_status, ExtractionStatus::Completed);
    assert_eq!(rec.extraction_progress, 100);
    assert!(rec.extracted);
    assert_eq!(rec.extracted_path.as_deref(), Some("/downloads/game"));
    assert!(!store.begin_extraction("ghost"));
}

#[test]
fn failed_extraction_never_dangles() {
    let mut store = ActiveDownloads::new();
    store.register_manual_download("m1", "game.zip", "/downloads/game.zip");
    assert!(store.begin_extraction("m1"));
    assert!(store.fail_extraction("m1"));
    let rec = store.get("m1").unwrap();
    assert_eq!(rec.extraction_status, ExtractionStatus::Failed);
    assert_eq!(rec.extraction_progress, 0);
    assert!(!rec.extracted);
}

#[test]
fn snapshot_is_decoupled_from_the_store() {
    let mut store = ActiveDownloads::new();
    store.register_manual_download("m1", "a.zip", "/d/a.zip");
    store.register_manual_download("m2", "b.zip", "/d/b.zip");
    let snap = store.get_active_downloads();
    assert_eq!(snap.len(), 2);
    store.register_manual_download("m3", "c.zip", "/d/c.zip");
    assert_eq!(snap.len(), 2);
    assert_eq!(store.get_active_downloads().len(), 3);
}

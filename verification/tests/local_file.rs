use hotdownloader_core::local_download_file::{must_reset, open_mode, OpenMode};

#[test]
fn truncated_partial_file_resets_offset_and_contents() {
    // A part file holding "old" (3 bytes) while 10 bytes were recorded.
    let downloaded: u64 = 10;
    assert_eq!(open_mode(downloaded), OpenMode::Append);
    assert!(must_reset(Some(3), downloaded));
    assert!(must_reset(None, downloaded));
    assert!(!must_reset(Some(12), downloaded));
    assert_eq!(open_mode(0), OpenMode::Truncate);
}

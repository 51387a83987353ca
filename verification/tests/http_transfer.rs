use std::sync::Mutex;

use hotdownloader_core::http_transfer::{classify_response, retry_or_fail, ResponseAction, SpeedSamples, StreamOutcome};
use hotdownloader_core::http_transfer::flush_completed;
use hotdownloader_core::ports::{DownloadProgressSink, ReportingSink};

#[derive(Default)]
struct RecordingProgressSink {
    errors: Mutex<Vec<String>>,
}

impl DownloadProgressSink for RecordingProgressSink {
    fn progress(&self, _task_id: &str, _downloaded: u64, _total: u64, _speed: u64) {}
    fn file_complete(&self, _task_id: &str) {}
    fn completed(&self, _task_id: &str, _final_path: &str, _saf_folder_uri: Option<String>) {}
    fn error(&self, _task_id: &str, message: &str) {
        self.errors.lock().unwrap().push(message.to_string());
    }
    fn link_expired(&self, _task_id: &str, _current_offset: u64) {}
    fn metadata_error(&self, _task_id: &str, _message: &str) {}
}

#[test]
fn ignored_range_requires_reopening_file_from_zero() {
    assert_eq!(
        classify_response(200, None, Some("100"), 30, 100),
        ResponseAction::RestartFromBeginning { total: 100 }
    );
}

#[test]
fn partial_response_must_start_at_requested_offset() {
    assert_eq!(
        classify_response(206, Some("bytes 10-99/100"), None, 30, 100),
        ResponseAction::InvalidRange
    );
    assert_eq!(
        classify_response(206, Some("bytes 30-99/100"), Some("70"), 30, 70),
        ResponseAction::Stream { total: 100 }
    );
}

#[test]
fn expired_link_and_unknown_size_follow_existing_contract() {
    assert_eq!(classify_response(403, None, None, 12, 100), ResponseAction::LinkExpired);
    assert_eq!(classify_response(416, None, None, 100, 100), ResponseAction::AlreadyComplete);
    assert_eq!(classify_response(200, None, None, 0, 500), ResponseAction::Stream { total: 500 });
}

#[test]
fn repeated_stream_failure_reports_terminal_error() {
    let sink = RecordingProgressSink::default();
    let mut reporting = ReportingSink::new(&sink);
    let mut retries = 0;

    assert_eq!(retry_or_fail(&mut retries, &mut reporting, "task", "断流"), StreamOutcome::Retry);
    assert_eq!(retry_or_fail(&mut retries, &mut reporting, "task", "断流"), StreamOutcome::Retry);
    assert_eq!(retry_or_fail(&mut retries, &mut reporting, "task", "断流"), StreamOutcome::Failed);
    assert_eq!(retries, 2);
    assert_eq!(sink.errors.lock().unwrap().as_slice(), ["断流"]);
}

#[test]
fn failed_flush_is_reported_once() {
    let sink = RecordingProgressSink::default();
    let mut reporting = ReportingSink::new(&sink);
    assert_eq!(flush_completed(Ok(()), &mut reporting, "task"), StreamOutcome::Completed);
    assert_eq!(flush_completed(Err("disk full".to_string()), &mut reporting, "task"), StreamOutcome::Failed);
    assert_eq!(sink.errors.lock().unwrap().as_slice(), ["刷新文件缓冲区失败: disk full"]);
}

#[test]
fn server_errors_and_missing_sizes_are_classified() {
    assert_eq!(classify_response(500, None, None, 0, 10), ResponseAction::HttpError(500));
    assert_eq!(classify_response(404, None, None, 0, 10), ResponseAction::LinkExpired);
    assert_eq!(classify_response(200, None, Some("0"), 0, 10), ResponseAction::Stream { total: 10 });
    assert_eq!(classify_response(206, None, None, 5, 10), ResponseAction::InvalidRange);
}

#[test]
fn speed_is_the_average_of_the_last_five_samples() {
    let mut samples = SpeedSamples::new();
    assert_eq!(samples.record(10), 10);
    assert_eq!(samples.record(20), 15);
    for _ in 0..5 {
        samples.record(100);
    }
    assert_eq!(samples.record(50), 90);
}

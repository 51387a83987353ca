use hotdownloader_core::download_link::{
    after_link_attempt, is_retryable_link_error, LinkAttemptDecision, LINK_ATTEMPTS,
};
use hotdownloader_core::download_worker::{WorkerAction, WorkerLoop};

/// Requests a link as the runtime does, without the waits: `fetch` is called
/// with the attempt number until the decision finishes the sequence.
fn fetch_with_retry(
    mut fetch: impl FnMut(u32) -> Result<(String, String), String>,
) -> (Result<(String, String), String>, u32, Vec<u64>) {
    let mut attempts: u32 = 0;
    let mut waits: Vec<u64> = Vec::new();
    for attempt in 0..LINK_ATTEMPTS {
        attempts += 1;
        match after_link_attempt(attempt, fetch(attempt)) {
            LinkAttemptDecision::Finish(result) => return (result, attempts, waits),
            LinkAttemptDecision::RetryAfter(seconds) => waits.push(seconds),
        }
    }
    panic!("the third attempt always finishes");
}

#[test]
fn platform_rejection_is_not_retried() {
    let (result, attempts, _) = fetch_with_retry(|_| Err("平台拒绝: 104003".to_string()));
    assert_eq!(result.unwrap_err(), "平台拒绝: 104003");
    assert_eq!(attempts, 1);
}

#[test]
fn temporary_network_error_retries_and_returns_link() {
    let (result, attempts, waits) = fetch_with_retry(|attempt| {
        if attempt == 0 {
            Err("网络错误: 连接超时".to_string())
        } else {
            Ok(("https://example.test/audio".to_string(), String::new()))
        }
    });
    assert_eq!(result.unwrap().0, "https://example.test/audio", "第二次请求成功后应立即返回真实链接");
    assert_eq!(attempts, 2);
    assert_eq!(waits, vec![1]);
}

#[test]
fn temporary_errors_stop_after_three_attempts() {
    let (result, attempts, waits) = fetch_with_retry(|attempt| Err(format!("读取响应失败: {attempt}")));
    assert_eq!(result.unwrap_err(), "读取响应失败: 2");
    assert_eq!(attempts, 3);
    assert_eq!(waits, vec![1, 2]);
}

#[test]
fn only_network_read_and_parse_errors_are_retryable() {
    assert!(is_retryable_link_error("网络错误: timeout"));
    assert!(is_retryable_link_error("读取响应失败: eof"));
    assert!(is_retryable_link_error("解析响应失败: json"));
    assert!(!is_retryable_link_error("平台拒绝: 104003"));
    assert!(!is_retryable_link_error("错误"));
}

#[test]
fn worker_reports_link_rejection_without_tauri() {
    let mut worker = WorkerLoop::new(0);
    let mut errors: Vec<String> = Vec::new();
    assert_eq!(worker.next_action(false, false), WorkerAction::FetchLink);
    let (link, _, _) = fetch_with_retry(|_| Err("平台拒绝".to_string()));
    if let Some(message) = worker.on_link(link.map(|_| ())) {
        errors.push(message);
    }
    assert_eq!(worker.next_action(false, false), WorkerAction::Stop);
    assert!(!worker.completed);
    assert_eq!(errors.as_slice(), ["获取下载链接失败: 平台拒绝"]);
}

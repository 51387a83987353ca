use std::sync::Mutex;

use hotdownloader_core::contract::{
    BatchResult, CreateTaskRequest, CreateTaskResult, DuplicateAction, QualityItem, SongInput, TaskRecord, TaskStatus,
};
use hotdownloader_core::download_config::DownloadConfig;
use hotdownloader_core::json::JsonValue;
use hotdownloader_core::task_service::{
    creation_step, duplicate_action, offset_from_len, remembered_final_path, CreationStep, task_id, RetryOutcome, ResumeStep, TaskEnvironment, TaskService,
};
use hotdownloader_core::task_state::{TaskEventSink, TaskRepository, TaskState};

struct MemoryRepository(Mutex<Vec<TaskRecord>>);

impl TaskRepository for MemoryRepository {
    fn load(&self) -> Result<Vec<TaskRecord>, String> {
        Ok(self.0.lock().unwrap().iter().map(|t| t.duplicate()).collect())
    }

    fn save(&self, tasks: &[TaskRecord]) -> Result<(), String> {
        *self.0.lock().unwrap() = tasks.iter().map(|t| t.duplicate()).collect();
        Ok(())
    }
}

struct QuietEvents;

impl TaskEventSink for QuietEvents {
    fn updated(&self, _task: TaskRecord) {}
    fn removed(&self, _task_id: &str) {}
}

struct ExistingOriginalPath {
    download_dir: String,
    file_length: Option<u64>,
}

impl TaskEnvironment for ExistingOriginalPath {
    fn download_config(&self) -> DownloadConfig {
        DownloadConfig::from_settings(&JsonValue::Object(Vec::new()), &self.download_dir)
    }

    fn file_exists(&self, path: &str, _is_saf: bool, _saf_folder_uri: Option<&str>) -> bool {
        path.ends_with("歌曲 - 歌手.mp3")
    }

    fn file_len(&self, _path: &str, _is_saf: bool) -> Option<u64> {
        self.file_length
    }
}

fn request(action: Option<DuplicateAction>) -> CreateTaskRequest {
    CreateTaskRequest {
        song: SongInput {
            platform: "qqmusic".into(),
            id: 1,
            mid: "song-mid".into(),
            title: "歌曲".into(),
            artist: "歌手".into(),
            album: String::new(),
            cover_url: String::new(),
            media_mid: String::new(),
            qualities: vec![QualityItem { quality: "320kmp3".into(), filename: "source.mp3".into(), size: 100 }],
        },
        desired_quality: "320kmp3".into(),
        duplicate_action: action,
    }
}

fn selected() -> Option<QualityItem> {
    Some(QualityItem { quality: "320kmp3".into(), filename: "source.mp3".into(), size: 100 })
}

fn empty_state() -> TaskState<MemoryRepository, QuietEvents> {
    TaskState::load(MemoryRepository(Mutex::new(Vec::new())), QuietEvents).ok().unwrap()
}

fn record(id: &str, status: TaskStatus, retry_count: u32) -> TaskRecord {
    TaskRecord {
        id: id.into(),
        platform: "qqmusic".into(),
        song_id: 1,
        song_mid: "mid".into(),
        song_title: "歌曲".into(),
        artist: "歌手".into(),
        album: "专辑".into(),
        cover_url: String::new(),
        media_mid: String::new(),
        filename: "song.mp3".into(),
        quality: "320kmp3".into(),
        status,
        error_msg: None,
        file_path: None,
        file_size: 100,
        downloaded: 0,
        retry_count,
        added_at: 1,
        available_qualities: None,
        speed: None,
        save_path: None,
    }
}

#[test]
fn duplicate_confirmation_and_rename_stay_in_rust_service() {
    let mut state = empty_state();
    let environment = ExistingOriginalPath { download_dir: "/tmp/music".into(), file_length: None };
    let mut service = TaskService::new(&environment);

    let first = service.create_download_task(&mut state, request(None), selected(), "ask", 1).unwrap();
    assert!(matches!(first, CreateTaskResult::NeedsConfirmation { .. }));
    assert!(state.list().is_empty());

    let second = service
        .create_download_task(&mut state, request(Some(DuplicateAction::Rename)), selected(), "ask", 2)
        .unwrap();
    let CreateTaskResult::Created { task } = second else {
        panic!("重命名应创建任务");
    };
    assert!(task.save_path.unwrap().ends_with("歌曲 - 歌手 (1).mp3"));
    assert_eq!(state.list().len(), 1);
}

#[test]
fn interrupted_task_resumes_from_file_without_spending_retry_budget() {
    let mut interrupted = record("interrupted-1", TaskStatus::Interrupted, 3);
    interrupted.save_path = Some("/tmp/interrupted-1.mp3".into());
    let mut state = TaskState::load(MemoryRepository(Mutex::new(vec![interrupted])), QuietEvents).ok().unwrap();
    let environment = ExistingOriginalPath { download_dir: "/tmp".into(), file_length: Some(40) };
    let mut service = TaskService::new(&environment);

    let measured = service.measure(&state, "interrupted-1");
    assert!(matches!(
        service.retry_task(&mut state, "interrupted-1", true, "ask", None, measured).unwrap(),
        RetryOutcome::NotRetried
    ));
    assert!(matches!(service.resume_task(&mut state, "interrupted-1").unwrap(), ResumeStep::Restart));
    let measured = service.measure(&state, "interrupted-1");
    assert_eq!(measured, Some(40));
    service.restart_interrupted(&mut state, "interrupted-1", measured).unwrap();
    let resumed = state.get("interrupted-1").unwrap();
    assert_eq!(resumed.status, TaskStatus::Waiting);
    assert_eq!(resumed.retry_count, 3);
    assert_eq!(resumed.quality, "320kmp3");
    assert_eq!(resumed.downloaded, 40);
}

#[test]
fn unavailable_quality_creates_a_visible_failed_task() {
    let mut state = empty_state();
    let environment = ExistingOriginalPath { download_dir: "/tmp/music".into(), file_length: None };
    let mut service = TaskService::new(&environment);
    let created = service.create_download_task(&mut state, request(None), None, "ask", 255).unwrap();
    let CreateTaskResult::Created { task } = created else {
        panic!("an unavailable quality still creates a task");
    };
    assert_eq!(task.status, TaskStatus::Error);
    assert_eq!(task.error_msg.as_deref(), Some("所选音质不可用"));
    assert!(task.save_path.is_none());
    assert!(task.id.starts_with("ff-"));
    let mut bad = request(None);
    bad.song.platform = "other".into();
    assert_eq!(
        service.create_download_task(&mut state, bad, selected(), "ask", 1).unwrap_err(),
        "不支持的平台: other"
    );
}

#[test]
fn retries_resume_then_give_up_or_downgrade() {
    let mut failed = record("t", TaskStatus::Error, 0);
    failed.save_path = Some("/tmp/t.mp3".into());
    failed.available_qualities = Some(vec![QualityItem { quality: "128kmp3".into(), filename: "low.mp3".into(), size: 50 }]);
    let mut state = TaskState::load(MemoryRepository(Mutex::new(vec![failed])), QuietEvents).ok().unwrap();
    let environment = ExistingOriginalPath { download_dir: "/tmp".into(), file_length: Some(200) };
    let mut service = TaskService::new(&environment);

    let measured = service.measure(&state, "t");
    match service.retry_task(&mut state, "t", true, "ask", None, measured).unwrap() {
        RetryOutcome::Requeued(task) => {
            assert_eq!(task.retry_count, 1);
            assert_eq!(task.downloaded, 0);
            assert_eq!(task.status, TaskStatus::Waiting);
        }
        _ => panic!("the first retries keep the quality"),
    }

    let mut exhausted = record("x", TaskStatus::Error, 3);
    exhausted.available_qualities = Some(Vec::new());
    let mut state = TaskState::load(MemoryRepository(Mutex::new(vec![exhausted])), QuietEvents).ok().unwrap();
    let measured = service.measure(&state, "x");
    assert!(matches!(service.retry_task(&mut state, "x", false, "ask", None, measured).unwrap(), RetryOutcome::NotRetried));
    let given_up = state.get("x").unwrap();
    assert_eq!(given_up.retry_count, 4);
    assert_eq!(given_up.error_msg.as_deref(), Some("重试次数已用尽"));

    let next = Some(QualityItem { quality: "128kmp3".into(), filename: "low.mp3".into(), size: 50 });
    let measured = service.measure(&state, "x");
    match service.retry_task(&mut state, "x", true, "ask", next, measured).unwrap() {
        RetryOutcome::Downgraded(task) => {
            assert_eq!(task.quality, "128kmp3");
            assert_eq!(task.retry_count, 0);
            assert_eq!(task.file_size, 50);
            assert_eq!(task.save_path.as_deref(), Some("/tmp/歌曲 - 歌手 (1).mp3"));
        }
        _ => panic!("downgrading moves to the next quality"),
    }
    let measured = service.measure(&state, "missing");
    assert!(service.retry_task(&mut state, "missing", true, "ask", None, measured).is_err());
}

#[test]
fn pause_needs_a_running_task() {
    let mut state =
        TaskState::load(MemoryRepository(Mutex::new(vec![record("p", TaskStatus::Completed, 0)])), QuietEvents).ok().unwrap();
    let environment = ExistingOriginalPath { download_dir: "/tmp".into(), file_length: None };
    let mut service = TaskService::new(&environment);
    assert_eq!(service.pause_task(&mut state, "p").unwrap_err(), "只有等待或下载中的任务可以暂停");
    assert_eq!(service.resume_task(&mut state, "p").unwrap_err(), "只有暂停或中断的任务可以恢复");
    assert_eq!(service.pause_task(&mut state, "none").unwrap_err(), "任务不存在");
}

#[test]
fn small_rules_of_the_service() {
    assert_eq!(task_id(255, 16), "ff-10");
    assert_eq!(duplicate_action(None, "rename"), Some(DuplicateAction::Rename));
    assert_eq!(duplicate_action(Some(DuplicateAction::Cancel), "overwrite"), Some(DuplicateAction::Cancel));
    assert_eq!(duplicate_action(None, "ask"), None);
    let mut done = record("d", TaskStatus::Completed, 0);
    done.save_path = Some("relative.mp3".into());
    assert_eq!(remembered_final_path(&done), None);
    done.file_path = Some("/music/d.mp3".into());
    assert_eq!(remembered_final_path(&done).as_deref(), Some("/music/d.mp3"));
    let mut batch = BatchResult::empty();
    batch.record("a", Ok(()));
    batch.record("b", Err("失败".into()));
    assert_eq!((batch.succeeded, batch.failed), (1, 1));
    assert_eq!(batch.errors, vec!["b: 失败".to_string()]);
}

#[test]
fn resume_offset_keeps_a_file_no_longer_than_the_total() {
    assert_eq!(offset_from_len(100, Some(40)), 40);
    assert_eq!(offset_from_len(100, Some(100)), 100);
    assert_eq!(offset_from_len(100, Some(120)), 0);
    assert_eq!(offset_from_len(0, Some(120)), 120);
    assert_eq!(offset_from_len(100, None), 0);
}


#[test]
fn creation_steps_follow_the_request_then_the_strategy() {
    assert_eq!(creation_step(false, false, None, "ask"), CreationStep::Create);
    assert_eq!(creation_step(true, false, None, "ask"), CreationStep::AskUser);
    assert_eq!(creation_step(true, false, Some(DuplicateAction::Rename), "ask"), CreationStep::Rename);
    assert_eq!(creation_step(false, true, None, "cancel"), CreationStep::Cancel);
    assert_eq!(creation_step(true, false, None, "overwrite"), CreationStep::Overwrite);
    assert_eq!(creation_step(true, true, Some(DuplicateAction::Overwrite), "ask"), CreationStep::RefuseOverwrite);
}

#[test]
fn cancel_marks_a_failed_removal_and_removes_otherwise() {
    let mut state = TaskState::load(
        MemoryRepository(Mutex::new(vec![record("a", TaskStatus::Downloading, 0), record("b", TaskStatus::Paused, 0)])),
        QuietEvents,
    )
    .ok()
    .unwrap();
    let environment = ExistingOriginalPath { download_dir: "/tmp".into(), file_length: None };
    let mut service = TaskService::new(&environment);
    assert_eq!(service.cancel_task(&mut state, "a", Err("删除文件失败: busy".into())).unwrap_err(), "删除文件失败: busy");
    let a = state.get("a").unwrap();
    assert_eq!(a.status, TaskStatus::Error);
    assert_eq!(a.error_msg.as_deref(), Some("删除文件失败: busy"));
    service.cancel_task(&mut state, "b", Ok(())).unwrap();
    assert!(state.get("b").is_none());
    assert_eq!(service.cancel_task(&mut state, "zz", Ok(())).unwrap_err(), "任务不存在");
}

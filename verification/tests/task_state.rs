use std::sync::atomic::{AtomicBool, AtomicUsize, Ordering};
use std::sync::{Arc, Mutex};

use hotdownloader_core::contract::{TaskRecord, TaskStatus};
use hotdownloader_core::task_state::{TaskEventSink, TaskRepository, TaskState};

struct MemoryRepository {
    rows: Mutex<Vec<TaskRecord>>,
    saves: AtomicUsize,
    fail_save: AtomicBool,
}

impl MemoryRepository {
    fn new(rows: Vec<TaskRecord>) -> Self {
        Self { rows: Mutex::new(rows), saves: AtomicUsize::new(0), fail_save: AtomicBool::new(false) }
    }
}

struct SharedRepository(Arc<MemoryRepository>);

impl TaskRepository for SharedRepository {
    fn load(&self) -> Result<Vec<TaskRecord>, String> {
        Ok(self.0.rows.lock().unwrap().iter().map(|t| t.duplicate()).collect())
    }

    fn save(&self, tasks: &[TaskRecord]) -> Result<(), String> {
        if self.0.fail_save.load(Ordering::SeqCst) {
            return Err("模拟写盘失败".into());
        }
        *self.0.rows.lock().unwrap() = tasks.iter().map(|t| t.duplicate()).collect();
        self.0.saves.fetch_add(1, Ordering::SeqCst);
        Ok(())
    }
}

#[derive(Default)]
struct RecordedEvents(Mutex<Vec<String>>);

struct SharedEvents(Arc<RecordedEvents>);

impl TaskEventSink for SharedEvents {
    fn updated(&self, task: TaskRecord) {
        self.0 .0.lock().unwrap().push(format!("updated:{}", task.id));
    }

    fn removed(&self, task_id: &str) {
        self.0 .0.lock().unwrap().push(format!("removed:{task_id}"));
    }
}

fn task(status: TaskStatus) -> TaskRecord {
    TaskRecord {
        id: "task-1".into(),
        platform: "qqmusic".into(),
        song_id: 1,
        song_mid: "mid".into(),
        song_title: "歌曲".into(),
        artist: "歌手".into(),
        album: "专辑".into(),
        cover_url: String::new(),
        media_mid: String::new(),
        filename: "song.mp3".into(),
        quality: "320kmp3".into(),
        status,
        error_msg: None,
        file_path: None,
        file_size: 100,
        downloaded: 0,
        retry_count: 0,
        added_at: 1,
        available_qualities: None,
        speed: None,
        save_path: None,
    }
}

#[test]
fn restart_marks_interrupted_tasks_and_saves_without_emitting() {
    let repository = Arc::new(MemoryRepository::new(vec![task(TaskStatus::Downloading)]));
    let events = Arc::new(RecordedEvents::default());

    let state = TaskState::load(SharedRepository(repository.clone()), SharedEvents(events.clone())).ok().unwrap();

    assert_eq!(state.list()[0].status, TaskStatus::Error);
    assert_eq!(repository.saves.load(Ordering::SeqCst), 1);
    assert!(events.0.lock().unwrap().is_empty());
}

#[test]
fn failed_save_rolls_back_and_does_not_emit() {
    let repository = Arc::new(MemoryRepository::new(Vec::new()));
    let events = Arc::new(RecordedEvents::default());
    let mut state = TaskState::load(SharedRepository(repository.clone()), SharedEvents(events.clone())).ok().unwrap();
    repository.fail_save.store(true, Ordering::SeqCst);

    assert!(state.insert(task(TaskStatus::Waiting)).is_err());
    assert!(state.list().is_empty());
    assert!(events.0.lock().unwrap().is_empty());
}

#[test]
fn progress_persists_only_the_first_state_transition() {
    let repository = Arc::new(MemoryRepository::new(Vec::new()));
    let events = Arc::new(RecordedEvents::default());
    let mut state = TaskState::load(SharedRepository(repository.clone()), SharedEvents(events.clone())).ok().unwrap();
    state.insert(task(TaskStatus::Waiting)).unwrap();

    state.progress("task-1", 10, 100, 5);
    state.progress("task-1", 20, 100, 5);

    assert_eq!(state.list()[0].downloaded, 20);
    assert_eq!(repository.saves.load(Ordering::SeqCst), 2);
    assert_eq!(repository.rows.lock().unwrap()[0].downloaded, 10);
    assert_eq!(events.0.lock().unwrap().len(), 3);
}

#[test]
fn finished_tasks_ignore_late_progress_and_keep_their_path() {
    let repository = Arc::new(MemoryRepository::new(Vec::new()));
    let events = Arc::new(RecordedEvents::default());
    let mut state = TaskState::load(SharedRepository(repository.clone()), SharedEvents(events.clone())).ok().unwrap();
    state.insert(task(TaskStatus::Waiting)).unwrap();
    state.completed("task-1", "/music/song.mp3");
    state.progress("task-1", 5, 100, 1);
    let done = state.get("task-1").unwrap();
    assert_eq!(done.status, TaskStatus::Completed);
    assert_eq!(done.downloaded, 100);
    assert_eq!(done.file_path.as_deref(), Some("/music/song.mp3"));
    assert!(state.remove("missing").is_err());
    state.remove("task-1").unwrap();
    assert!(state.list().is_empty());
}

#[test]
fn restart_with_a_failing_save_reports_the_repository_error() {
    let repository = Arc::new(MemoryRepository::new(vec![task(TaskStatus::Downloading)]));
    repository.fail_save.store(true, Ordering::SeqCst);
    let events = Arc::new(RecordedEvents::default());
    let error = TaskState::load(SharedRepository(repository.clone()), SharedEvents(events.clone())).err().unwrap();
    assert_eq!(error.message, "模拟写盘失败");
    assert!(events.0.lock().unwrap().is_empty());

    let quiet = Arc::new(MemoryRepository::new(vec![task(TaskStatus::Completed)]));
    quiet.fail_save.store(true, Ordering::SeqCst);
    assert!(TaskState::load(SharedRepository(quiet), SharedEvents(events.clone())).is_ok());
}

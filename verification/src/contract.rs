//! The task records and requests exchanged with the front end and stored on disk.

use vstd::prelude::*;

verus! {

/// A downloadable quality of a song; its file name and size belong to it and
/// change with it when the quality is downgraded.
#[derive(Clone, Debug)]
pub struct QualityItem {
    pub quality: String,
    pub filename: String,
    pub size: u64,
}

/// Song data submitted by the front end. What is downloaded is decided from the
/// settings and the task rules.
#[derive(Clone, Debug)]
pub struct SongInput {
    pub platform: String,
    pub id: u64,
    pub mid: String,
    pub title: String,
    pub artist: String,
    pub album: String,
    pub cover_url: String,
    pub media_mid: String,
    pub qualities: Vec<QualityItem>,
}

/// A stored task. Old records may lack the quality list, the speed and the
/// target path.
#[derive(Clone, Debug)]
pub struct TaskRecord {
    pub id: String,
    pub platform: String,
    pub song_id: u64,
    pub song_mid: String,
    pub song_title: String,
    pub artist: String,
    pub album: String,
    pub cover_url: String,
    pub media_mid: String,
    pub filename: String,
    pub quality: String,
    pub status: TaskStatus,
    pub error_msg: Option<String>,
    pub file_path: Option<String>,
    pub file_size: u64,
    pub downloaded: u64,
    pub retry_count: u32,
    pub added_at: u64,
    pub available_qualities: Option<Vec<QualityItem>>,
    pub speed: Option<u64>,
    pub save_path: Option<String>,
}

/// The state of a task.
#[derive(Clone, Copy, Debug, PartialEq, Eq, Structural)]
pub enum TaskStatus {
    Waiting,
    Downloading,
    Paused,
    Processing,
    Completed,
    Error,
    /// Waiting, after a restart, for the user to resume; resuming spends no retry.
    Interrupted,
}

/// What to do when the target file already exists.
#[derive(Clone, Copy, Debug, PartialEq, Eq, Structural)]
pub enum DuplicateAction {
    Overwrite,
    Rename,
    Cancel,
}

/// A request to create a download task.
#[derive(Debug)]
pub struct CreateTaskRequest {
    pub song: SongInput,
    pub desired_quality: String,
    pub duplicate_action: Option<DuplicateAction>,
}

/// The result of creating a task. With the `ask` strategy the user must first
/// confirm, and nothing is stored yet.
#[derive(Debug)]
pub enum CreateTaskResult {
    Created { task: TaskRecord },
    NeedsConfirmation { song_title: String },
    Cancelled,
}

/// How many tasks of a batch succeeded and failed, with one message per failure.
#[derive(Debug)]
pub struct BatchResult {
    pub succeeded: usize,
    pub failed: usize,
    pub errors: Vec<String>,
}

/// A quality item as a value.
pub struct QualityItemView {
    pub quality: Seq<char>,
    pub filename: Seq<char>,
    pub size: u64,
}

impl View for QualityItem {
    type V = QualityItemView;

    open spec fn view(&self) -> QualityItemView {
        QualityItemView { quality: self.quality@, filename: self.filename@, size: self.size }
    }
}

/// The values of a list of quality items.
pub open spec fn qualities_view(qs: Seq<QualityItem>) -> Seq<QualityItemView> {
    qs.map_values(|q: QualityItem| q@)
}

/// An optional string as a value.
pub open spec fn opt_string_view(s: Option<String>) -> Option<Seq<char>> {
    match s {
        Some(v) => Some(v@),
        None => None,
    }
}

/// A task record as a value.
pub struct TaskRecordView {
    pub id: Seq<char>,
    pub platform: Seq<char>,
    pub song_id: u64,
    pub song_mid: Seq<char>,
    pub song_title: Seq<char>,
    pub artist: Seq<char>,
    pub album: Seq<char>,
    pub cover_url: Seq<char>,
    pub media_mid: Seq<char>,
    pub filename: Seq<char>,
    pub quality: Seq<char>,
    pub status: TaskStatus,
    pub error_msg: Option<Seq<char>>,
    pub file_path: Option<Seq<char>>,
    pub file_size: u64,
    pub downloaded: u64,
    pub retry_count: u32,
    pub added_at: u64,
    pub available_qualities: Option<Seq<QualityItemView>>,
    pub speed: Option<u64>,
    pub save_path: Option<Seq<char>>,
}

impl View for TaskRecord {
    type V = TaskRecordView;

    open spec fn view(&self) -> TaskRecordView {
        TaskRecordView {
            id: self.id@,
            platform: self.platform@,
            song_id: self.song_id,
            song_mid: self.song_mid@,
            song_title: self.song_title@,
            artist: self.artist@,
            album: self.album@,
            cover_url: self.cover_url@,
            media_mid: self.media_mid@,
            filename: self.filename@,
            quality: self.quality@,
            status: self.status,
            error_msg: opt_string_view(self.error_msg),
            file_path: opt_string_view(self.file_path),
            file_size: self.file_size,
            downloaded: self.downloaded,
            retry_count: self.retry_count,
            added_at: self.added_at,
            available_qualities: match self.available_qualities {
                Some(qs) => Some(qualities_view(qs@)),
                None => None,
            },
            speed: self.speed,
            save_path: opt_string_view(self.save_path),
        }
    }
}

/// The values of a list of task records.
pub open spec fn records_view(ts: Seq<TaskRecord>) -> Seq<TaskRecordView> {
    ts.map_values(|t: TaskRecord| t@)
}

/// A copy of a quality item.
pub fn copy_quality(q: &QualityItem) -> (r: QualityItem)
    ensures
        r@ == q@,
{
    QualityItem { quality: q.quality.clone(), filename: q.filename.clone(), size: q.size }
}

/// A copy of a list of quality items.
pub fn copy_qualities(qs: &Vec<QualityItem>) -> (r: Vec<QualityItem>)
    ensures
        qualities_view(r@) == qualities_view(qs@),
{
    let mut out: Vec<QualityItem> = Vec::new();
    let mut i: usize = 0;
    while i < qs.len()
        invariant
            i <= qs.len(),
            qualities_view(out@) == qualities_view(qs@.take(i as int)),
        decreases qs.len() - i,
    {
        out.push(copy_quality(&qs[i]));
        assert(qualities_view(qs@.take(i + 1)) =~= qualities_view(qs@.take(i as int)).push(qs@[i as int]@));
        assert(qualities_view(out@) =~= qualities_view(qs@.take(i + 1)));
        i = i + 1;
    }
    assert(qs@.take(i as int) =~= qs@);
    out
}

/// A copy of an optional string.
pub fn copy_opt_string(s: &Option<String>) -> (r: Option<String>)
    ensures
        opt_string_view(r) == opt_string_view(*s),
{
    match s {
        Some(v) => Some(v.clone()),
        None => None,
    }
}

impl TaskRecord {
    /// A copy of the record.
    pub fn duplicate(&self) -> (r: TaskRecord)
        ensures
            r@ == self@,
    {
        let available = match &self.available_qualities {
            Some(qs) => Some(copy_qualities(qs)),
            None => None,
        };
        TaskRecord {
            id: self.id.clone(),
            platform: self.platform.clone(),
            song_id: self.song_id,
            song_mid: self.song_mid.clone(),
            song_title: self.song_title.clone(),
            artist: self.artist.clone(),
            album: self.album.clone(),
            cover_url: self.cover_url.clone(),
            media_mid: self.media_mid.clone(),
            filename: self.filename.clone(),
            quality: self.quality.clone(),
            status: self.status,
            error_msg: copy_opt_string(&self.error_msg),
            file_path: copy_opt_string(&self.file_path),
            file_size: self.file_size,
            downloaded: self.downloaded,
            retry_count: self.retry_count,
            added_at: self.added_at,
            available_qualities: available,
            speed: self.speed,
            save_path: copy_opt_string(&self.save_path),
        }
    }
}

} // verus!

//! The authoritative task list. Every state change is written to the repository
//! before it is announced, and a failed write leaves the list as it was.

use vstd::prelude::*;

use crate::contract::{records_view, TaskRecord, TaskRecordView, TaskStatus};
use crate::text::str_eq;

verus! {

/// Persistence of the task records: a settings store or a plain JSON file.
pub trait TaskRepository {
    fn load(&self) -> Result<Vec<TaskRecord>, String>;

    fn save(&self, tasks: &[TaskRecord]) -> Result<(), String>;
}

/// Where task changes are announced; the transport pushes whole records to its
/// subscribers.
pub trait TaskEventSink {
    fn updated(&self, task: TaskRecord);

    fn removed(&self, task_id: &str);
}

/// An announcement made to the event sink.
pub enum TaskEvent {
    Updated(TaskRecordView),
    Removed(Seq<char>),
}

/// The index of the first task with the given id at or after `i`.
pub open spec fn spec_position_from(ts: Seq<TaskRecordView>, id: Seq<char>, i: int) -> Option<int>
    decreases ts.len() - i,
{
    if i < 0 || i >= ts.len() {
        None
    } else if ts[i].id == id {
        Some(i)
    } else {
        spec_position_from(ts, id, i + 1)
    }
}

/// The index of the first task with the given id.
pub open spec fn spec_position(ts: Seq<TaskRecordView>, id: Seq<char>) -> Option<int> {
    spec_position_from(ts, id, 0)
}

/// Whether a task was still in progress: waiting, downloading, post-processing
/// or paused.
pub open spec fn spec_in_progress(s: TaskStatus) -> bool {
    s == TaskStatus::Waiting || s == TaskStatus::Downloading || s == TaskStatus::Processing
        || s == TaskStatus::Paused
}

/// The message of a task interrupted by a restart.
pub open spec fn interrupted_message() -> Seq<char> {
    "应用关闭导致中断"@
}

/// A task found in progress after a restart: an error that the user may retry,
/// with no speed and nothing counted as downloaded.
pub open spec fn spec_interrupted(t: TaskRecordView) -> TaskRecordView {
    TaskRecordView {
        status: TaskStatus::Error,
        error_msg: Some(interrupted_message()),
        speed: None,
        downloaded: 0,
        ..t
    }
}

/// The loaded tasks with every task in progress marked interrupted.
pub open spec fn spec_mark_interrupted(ts: Seq<TaskRecordView>) -> Seq<TaskRecordView> {
    ts.map_values(
        |t: TaskRecordView|
            if spec_in_progress(t.status) {
                spec_interrupted(t)
            } else {
                t
            },
    )
}

/// Whether any task is in progress.
pub open spec fn spec_any_in_progress(ts: Seq<TaskRecordView>) -> bool {
    exists|i: int| 0 <= i < ts.len() && spec_in_progress(#[trigger] ts[i].status)
}

/// Whether a progress report for the task is saved: only the first one, which
/// moves it from waiting to downloading.
pub open spec fn spec_progress_saves(ts: Seq<TaskRecordView>, id: Seq<char>) -> bool {
    match spec_position(ts, id) {
        Some(i) => ts[i].status == TaskStatus::Waiting,
        None => false,
    }
}

/// Whether a progress report for the task changes anything: a late report must
/// not bring back a finished, failed or post-processing task.
pub open spec fn spec_progress_applies(ts: Seq<TaskRecordView>, id: Seq<char>) -> bool {
    match spec_position(ts, id) {
        Some(i) => !(ts[i].status == TaskStatus::Completed || ts[i].status == TaskStatus::Error
            || ts[i].status == TaskStatus::Processing),
        None => false,
    }
}

/// A task after a progress report.
pub open spec fn spec_progressed(t: TaskRecordView, downloaded: u64, total: u64, speed: u64) -> TaskRecordView {
    TaskRecordView {
        downloaded: downloaded,
        file_size: total,
        speed: Some(speed),
        status: if t.status == TaskStatus::Waiting {
            TaskStatus::Downloading
        } else {
            t.status
        },
        error_msg: None,
        ..t
    }
}

/// The task list after a progress report that applies.
pub open spec fn spec_progress_tasks(
    ts: Seq<TaskRecordView>,
    id: Seq<char>,
    downloaded: u64,
    total: u64,
    speed: u64,
) -> Seq<TaskRecordView> {
    match spec_position(ts, id) {
        Some(i) => ts.update(i, spec_progressed(ts[i], downloaded, total, speed)),
        None => ts,
    }
}

/// A task whose file transfer ended and whose post-processing runs.
pub open spec fn spec_processing(t: TaskRecordView) -> TaskRecordView {
    TaskRecordView { status: TaskStatus::Processing, downloaded: t.file_size, speed: None, ..t }
}

/// A task that completed, saved at `path`.
pub open spec fn spec_completed(t: TaskRecordView, path: Seq<char>) -> TaskRecordView {
    TaskRecordView {
        status: TaskStatus::Completed,
        file_path: Some(path),
        downloaded: t.file_size,
        speed: None,
        error_msg: None,
        ..t
    }
}

/// A task that failed with a message, at the given offset if one is known.
pub open spec fn spec_failed(t: TaskRecordView, message: Seq<char>, offset: Option<u64>) -> TaskRecordView {
    TaskRecordView {
        status: TaskStatus::Error,
        error_msg: Some(message),
        speed: None,
        downloaded: match offset {
            Some(o) => o,
            None => t.downloaded,
        },
        ..t
    }
}

/// The message for an unknown task id.
pub open spec fn missing_task_message() -> Seq<char> {
    "任务不存在"@
}

/// The message for a task id that is already taken.
pub open spec fn duplicate_id_message() -> Seq<char> {
    "任务 ID 已存在"@
}

/// The task list, owned with its repository and event sink. A change is saved
/// before it is announced; a failed save restores the list and announces nothing.
pub struct TaskState<R: TaskRepository, E: TaskEventSink> {
    repository: R,
    events: E,
    tasks: Vec<TaskRecord>,
    saved: Ghost<Seq<Seq<TaskRecordView>>>,
    requested: Ghost<Seq<Seq<TaskRecordView>>>,
    emitted: Ghost<Seq<TaskEvent>>,
}

/// Why the task state could not be built: the message, with a record of the
/// list read from the repository (none when reading failed) and of the lists
/// handed to it to be saved.
pub struct LoadError {
    pub message: String,
    loaded_list: Ghost<Option<Seq<TaskRecordView>>>,
    requested: Ghost<Seq<Seq<TaskRecordView>>>,
}

impl LoadError {
    /// The list read from the repository, when reading succeeded.
    pub closed spec fn loaded(&self) -> Option<Seq<TaskRecordView>> {
        self.loaded_list@
    }

    /// The lists handed to the repository to be saved.
    pub closed spec fn save_requests(&self) -> Seq<Seq<TaskRecordView>> {
        self.requested@
    }
}

/// The state after a change to task `i` that is saved first: the changed list
/// is handed to the repository, and either the save succeeded, the task holds
/// `t` and is announced, or it failed and nothing else changed.
pub open spec fn spec_persisted_change<R: TaskRepository, E: TaskEventSink>(
    before: TaskState<R, E>,
    after: TaskState<R, E>,
    i: int,
    t: TaskRecordView,
) -> bool {
    let next = before.tasks().update(i, t);
    &&& after.save_requests() == before.save_requests().push(next)
    &&& ((after.tasks() == next && after.saves() == before.saves().push(next) && after.events()
        == before.events().push(TaskEvent::Updated(t))) || (after.tasks() == before.tasks()
        && after.saves() == before.saves() && after.events() == before.events()))
}

/// The state is as it was: same tasks, nothing saved, asked or announced.
pub open spec fn spec_unchanged<R: TaskRepository, E: TaskEventSink>(before: TaskState<R, E>, after: TaskState<R, E>) -> bool {
    &&& after.tasks() == before.tasks()
    &&& after.saves() == before.saves()
    &&& after.save_requests() == before.save_requests()
    &&& after.events() == before.events()
}

/// The state built from the loaded tasks after a restart: tasks in progress are
/// marked interrupted, that change alone is saved, and nothing is announced.
pub open spec fn spec_restarted(
    loaded: Seq<TaskRecordView>,
    tasks: Seq<TaskRecordView>,
    saves: Seq<Seq<TaskRecordView>>,
    events: Seq<TaskEvent>,
) -> bool {
    &&& tasks == spec_mark_interrupted(loaded)
    &&& events == Seq::<TaskEvent>::empty()
    &&& saves == (if spec_any_in_progress(loaded) {
        seq![spec_mark_interrupted(loaded)]
    } else {
        Seq::<Seq<TaskRecordView>>::empty()
    })
}

impl<R: TaskRepository, E: TaskEventSink> TaskState<R, E> {
    /// The tasks, in order.
    pub closed spec fn tasks(&self) -> Seq<TaskRecordView> {
        records_view(self.tasks@)
    }

    /// Every task list written to the repository, oldest first.
    pub closed spec fn saves(&self) -> Seq<Seq<TaskRecordView>> {
        self.saved@
    }

    /// Every announcement made to the event sink, oldest first.
    pub closed spec fn events(&self) -> Seq<TaskEvent> {
        self.emitted@
    }

    /// Every task list handed to the repository to be saved, whether the save
    /// succeeded or not, oldest first.
    pub closed spec fn save_requests(&self) -> Seq<Seq<TaskRecordView>> {
        self.requested@
    }

    /// Builds the state from the loaded records. A restart loses the download
    /// contexts, so tasks still in progress become errors the user can retry;
    /// such a change is saved, and nothing is announced.
    pub fn from_loaded(repository: R, events: E, loaded: Vec<TaskRecord>) -> (r: Result<Self, LoadError>)
        ensures
            r is Err ==> spec_any_in_progress(records_view(loaded@)) && r->Err_0.loaded() == Some(
                records_view(loaded@),
            ) && r->Err_0.save_requests() == seq![spec_mark_interrupted(records_view(loaded@))],
            !spec_any_in_progress(records_view(loaded@)) ==> r is Ok,
            r is Ok ==> r->Ok_0.tasks() == spec_mark_interrupted(records_view(loaded@)),
            r is Ok ==> r->Ok_0.events() == Seq::<TaskEvent>::empty(),
            r is Ok ==> r->Ok_0.saves() == (if spec_any_in_progress(records_view(loaded@)) {
                seq![spec_mark_interrupted(records_view(loaded@))]
            } else {
                Seq::<Seq<TaskRecordView>>::empty()
            }),
            r is Ok ==> spec_restarted(records_view(loaded@), r->Ok_0.tasks(), r->Ok_0.saves(), r->Ok_0.events()),
            r is Ok ==> r->Ok_0.save_requests() == r->Ok_0.saves(),
    {
        let mut tasks = loaded;
        let ghost loaded_view = records_view(tasks@);
        let mut interrupted = false;
        let mut i: usize = 0;
        while i < tasks.len()
            invariant
                i <= tasks.len(),
                loaded_view.len() == tasks.len(),
                forall|k: int| 0 <= k < i ==> (#[trigger] records_view(tasks@)[k]) == spec_mark_interrupted(loaded_view)[k],
                forall|k: int| i <= k < tasks.len() ==> (#[trigger] records_view(tasks@)[k]) == loaded_view[k],
                interrupted == (exists|k: int| 0 <= k < i && spec_in_progress(#[trigger] loaded_view[k].status)),
            decreases tasks.len() - i,
        {
            let s = tasks[i].status;
            let ghost prev = tasks@;
            assert(records_view(prev)[i as int] == loaded_view[i as int]);
            if s == TaskStatus::Waiting || s == TaskStatus::Downloading || s == TaskStatus::Processing
                || s == TaskStatus::Paused {
                let mut t = tasks[i].duplicate();
                t.status = TaskStatus::Error;
                t.error_msg = Some(String::from_str("应用关闭导致中断"));
                t.speed = None;
                t.downloaded = 0;
                assert(t@ == spec_interrupted(loaded_view[i as int]));
                tasks[i] = t;
                assert(records_view(tasks@) =~= records_view(prev).update(i as int, t@));
                interrupted = true;
            }
            assert(records_view(tasks@)[i as int] == spec_mark_interrupted(loaded_view)[i as int]);
            i = i + 1;
        }
        assert(records_view(tasks@) =~= spec_mark_interrupted(loaded_view));
        let mut state = TaskState {
            repository,
            events,
            tasks,
            saved: Ghost(Seq::empty()),
            requested: Ghost(Seq::empty()),
            emitted: Ghost(Seq::empty()),
        };
        if interrupted {
            match state.persist() {
                Ok(()) => {},
                Err(e) => {
                    let ghost requested = state.requested@;
                    assert(requested =~= seq![spec_mark_interrupted(loaded_view)]);
                    return Err(LoadError { message: e, loaded_list: Ghost(Some(loaded_view)), requested: Ghost(requested) });
                },
            }
        }
        Ok(state)
    }

    /// Loads the stored records and builds the state from them.
    pub fn load(repository: R, events: E) -> (r: Result<Self, LoadError>)
        ensures
            r is Err ==> match r->Err_0.loaded() {
                None => r->Err_0.save_requests() == Seq::<Seq<TaskRecordView>>::empty(),
                Some(l) => spec_any_in_progress(l) && r->Err_0.save_requests() == seq![spec_mark_interrupted(l)],
            },
            r is Ok ==> forall|i: int|
                0 <= i < r->Ok_0.tasks().len() ==> !spec_in_progress(#[trigger] r->Ok_0.tasks()[i].status),
            r is Ok ==> r->Ok_0.events() == Seq::<TaskEvent>::empty(),
            r is Ok ==> r->Ok_0.saves().len() <= 1,
            r is Ok ==> exists|loaded: Seq<TaskRecordView>|
                #[trigger] spec_restarted(loaded, r->Ok_0.tasks(), r->Ok_0.saves(), r->Ok_0.events()),
            r is Ok ==> r->Ok_0.save_requests() == r->Ok_0.saves(),
    {
        let loaded = match repository.load() {
            Ok(loaded) => loaded,
            Err(e) => return Err(LoadError { message: e, loaded_list: Ghost(None), requested: Ghost(Seq::empty()) }),
        };
        let ghost loaded_view = records_view(loaded@);
        let r = Self::from_loaded(repository, events, loaded);
        proof {
            if r is Ok {
                assert(spec_restarted(loaded_view, r->Ok_0.tasks(), r->Ok_0.saves(), r->Ok_0.events()));
                let ts = r->Ok_0.tasks();
                assert forall|i: int| 0 <= i < ts.len() implies !spec_in_progress(#[trigger] ts[i].status) by {
                }
            }
        }
        r
    }

    /// Writes the current list to the repository.
    fn persist(&mut self) -> (r: Result<(), String>)
        ensures
            final(self).tasks@ == old(self).tasks@,
            final(self).emitted@ == old(self).emitted@,
            final(self).requested@ == old(self).requested@.push(records_view(old(self).tasks@)),
            r is Ok ==> final(self).saved@ == old(self).saved@.push(records_view(old(self).tasks@)),
            r is Err ==> final(self).saved@ == old(self).saved@,
    {
        let r = self.repository.save(self.tasks.as_slice());
        proof {
            self.requested@ = self.requested@.push(records_view(self.tasks@));
        }
        if r.is_ok() {
            proof {
                self.saved@ = self.saved@.push(records_view(self.tasks@));
            }
        }
        r
    }

    /// The index of the first task with the given id.
    fn position(&self, id: &str) -> (r: Option<usize>)
        ensures
            match spec_position(self.tasks(), id@) {
                Some(i) => r is Some && r->0 == i && 0 <= i < self.tasks@.len(),
                None => r is None,
            },
    {
        proof {
            lemma_position_from(self.tasks(), id@, 0);
        }
        let mut i: usize = 0;
        while i < self.tasks.len()
            invariant
                i <= self.tasks.len(),
                spec_position(self.tasks(), id@) == spec_position_from(self.tasks(), id@, i as int),
            decreases self.tasks.len() - i,
        {
            if str_eq(self.tasks[i].id.as_str(), id) {
                return Some(i);
            }
            i = i + 1;
        }
        None
    }

    /// A copy of every task, in order.
    pub fn list(&self) -> (r: Vec<TaskRecord>)
        ensures
            records_view(r@) == self.tasks(),
    {
        let mut out: Vec<TaskRecord> = Vec::new();
        let mut i: usize = 0;
        while i < self.tasks.len()
            invariant
                i <= self.tasks.len(),
                records_view(out@) == records_view(self.tasks@.take(i as int)),
            decreases self.tasks.len() - i,
        {
            let ghost prev = out@;
            let d = self.tasks[i].duplicate();
            out.push(d);
            assert(records_view(out@) =~= records_view(prev).push(d@));
            assert(self.tasks@.take(i + 1) =~= self.tasks@.take(i as int).push(self.tasks@[i as int]));
            assert(records_view(self.tasks@.take(i + 1)) =~= records_view(self.tasks@.take(i as int)).push(
                self.tasks@[i as int]@,
            ));
            assert(records_view(out@) =~= records_view(self.tasks@.take(i + 1)));
            i = i + 1;
        }
        assert(self.tasks@.take(i as int) =~= self.tasks@);
        out
    }

    /// A copy of the task with the given id.
    pub fn get(&self, id: &str) -> (r: Option<TaskRecord>)
        ensures
            match spec_position(self.tasks(), id@) {
                Some(i) => r is Some && r->0@ == self.tasks()[i],
                None => r is None,
            },
    {
        match self.position(id) {
            Some(i) => {
                let r = self.tasks[i].duplicate();
                assert(self.tasks()[i as int] == self.tasks@[i as int]@);
                Some(r)
            },
            None => None,
        }
    }

    /// Whether an unfinished task already targets the path; a queued task holds
    /// its path before the file exists on disk.
    pub fn path_reserved(&self, path: &str) -> (r: bool)
        ensures
            r == exists|i: int|
                0 <= i < self.tasks().len() && #[trigger] self.tasks()[i].status != TaskStatus::Completed
                    && self.tasks()[i].save_path == Some(path@),
    {
        let mut i: usize = 0;
        while i < self.tasks.len()
            invariant
                i <= self.tasks.len(),
                forall|k: int|
                    0 <= k < i ==> !(#[trigger] self.tasks()[k].status != TaskStatus::Completed
                        && self.tasks()[k].save_path == Some(path@)),
            decreases self.tasks.len() - i,
        {
            let t = &self.tasks[i];
            if t.status != TaskStatus::Completed {
                match &t.save_path {
                    Some(p) => {
                        if str_eq(p.as_str(), path) {
                            assert(self.tasks()[i as int].save_path == Some(path@));
                            return true;
                        }
                    },
                    None => {},
                }
            }
            assert(!(self.tasks()[i as int].status != TaskStatus::Completed
                && self.tasks()[i as int].save_path == Some(path@)));
            i = i + 1;
        }
        false
    }

    /// Adds a task. It is saved before it is announced; when saving fails the
    /// list is restored and nothing is announced.
    pub fn insert(&mut self, task: TaskRecord) -> (r: Result<(), String>)
        ensures
            spec_position(old(self).tasks(), task@.id) is Some ==> r is Err && r->Err_0@
                == duplicate_id_message() && final(self).tasks() == old(self).tasks()
                && final(self).saves() == old(self).saves() && final(self).events() == old(self).events(),
            spec_position(old(self).tasks(), task@.id) is None ==> (r is Ok && final(self).tasks()
                == old(self).tasks().push(task@) && final(self).saves() == old(self).saves().push(
                old(self).tasks().push(task@)) && final(self).events() == old(self).events().push(
                TaskEvent::Updated(task@))) || (r is Err && final(self).tasks() == old(self).tasks()
                && final(self).saves() == old(self).saves() && final(self).events() == old(self).events()),
            spec_position(old(self).tasks(), task@.id) is Some ==> final(self).save_requests()
                == old(self).save_requests(),
            spec_position(old(self).tasks(), task@.id) is None ==> final(self).save_requests()
                == old(self).save_requests().push(old(self).tasks().push(task@)),
    {
        if self.position(task.id.as_str()).is_some() {
            return Err(String::from_str("任务 ID 已存在"));
        }
        let ghost before = self.tasks@;
        self.tasks.push(task.duplicate());
        assert(records_view(self.tasks@) =~= records_view(before).push(task@));
        match self.persist() {
            Ok(()) => {},
            Err(e) => {
                self.tasks.pop();
                assert(self.tasks@ =~= before);
                return Err(e);
            },
        }
        let ghost shown = task@;
        self.events.updated(task);
        proof {
            self.emitted@ = self.emitted@.push(TaskEvent::Updated(shown));
        }
        Ok(())
    }

    /// Changes the task with the given id. A persisted change is saved before it
    /// is announced, and a failed save restores the task and announces nothing;
    /// frequent progress changes may skip the save.
    pub fn update<F: FnOnce(TaskRecord) -> TaskRecord>(&mut self, id: &str, persist: bool, change: F) -> (r:
        Result<TaskRecord, String>)
        requires
            forall|t: TaskRecord| change.requires((t,)),
        ensures
            spec_position(old(self).tasks(), id@) is None ==> r is Err && r->Err_0@
                == missing_task_message() && final(self).tasks() == old(self).tasks()
                && final(self).saves() == old(self).saves() && final(self).events() == old(self).events(),
            spec_position(old(self).tasks(), id@) matches Some(i) ==> exists|t: TaskRecord, n: TaskRecord|
                #![trigger change.ensures((t,), n)]
                t@ == old(self).tasks()[i] && change.ensures((t,), n) && ({
                    let next = old(self).tasks().update(i, n@);
                    if persist {
                        final(self).save_requests() == old(self).save_requests().push(next) && ((r is Ok
                            && r->Ok_0@ == n@ && final(self).tasks() == next && final(self).saves()
                            == old(self).saves().push(next) && final(self).events()
                            == old(self).events().push(TaskEvent::Updated(n@))) || (r is Err
                            && final(self).tasks() == old(self).tasks() && final(self).saves()
                            == old(self).saves() && final(self).events() == old(self).events()))
                    } else {
                        r is Ok && r->Ok_0@ == n@ && final(self).tasks() == next && final(self).saves()
                            == old(self).saves() && final(self).events() == old(self).events().push(
                            TaskEvent::Updated(n@))
                    }
                }),
    {
        let index = match self.position(id) {
            Some(i) => i,
            None => return Err(String::from_str("任务不存在")),
        };
        let current = self.tasks[index].duplicate();
        assert(self.tasks()[index as int] == self.tasks@[index as int]@);
        let ghost t = current;
        let changed = change(current);
        let ghost n = changed;
        let r = self.apply_change(index, changed, persist);
        assert(change.ensures((t,), n));
        r
    }

    /// Puts a new record in place of the task with the given id, as `update`
    /// does with a change that yields that record.
    pub fn replace(&mut self, id: &str, persist: bool, record: TaskRecord) -> (r: Result<TaskRecord, String>)
        ensures
            spec_position(old(self).tasks(), id@) is None ==> r is Err && r->Err_0@
                == missing_task_message() && final(self).tasks() == old(self).tasks()
                && final(self).saves() == old(self).saves() && final(self).events() == old(self).events(),
            spec_position(old(self).tasks(), id@) matches Some(i) ==> ({
                let next = old(self).tasks().update(i, record@);
                if persist {
                    final(self).save_requests() == old(self).save_requests().push(next) && ((r is Ok
                        && r->Ok_0@ == record@ && final(self).tasks() == next && final(self).saves()
                        == old(self).saves().push(next) && final(self).events()
                        == old(self).events().push(TaskEvent::Updated(record@))) || (r is Err
                        && final(self).tasks() == old(self).tasks() && final(self).saves()
                        == old(self).saves() && final(self).events() == old(self).events()))
                } else {
                    r is Ok && r->Ok_0@ == record@ && final(self).tasks() == next && final(self).saves()
                        == old(self).saves() && final(self).events() == old(self).events().push(
                        TaskEvent::Updated(record@))
                }
            }),
    {
        let index = match self.position(id) {
            Some(i) => i,
            None => return Err(String::from_str("任务不存在")),
        };
        self.apply_change(index, record, persist)
    }

    /// Puts a changed record at `index`, saving first when asked; a failed save
    /// restores the old record and announces nothing.
    fn apply_change(&mut self, index: usize, changed: TaskRecord, persist: bool) -> (r: Result<TaskRecord, String>)
        requires
            index < old(self).tasks@.len(),
        ensures
            ({
                let next = old(self).tasks().update(index as int, changed@);
                if persist {
                    (r is Ok && r->Ok_0@ == changed@ && final(self).tasks() == next && final(self).saves()
                        == old(self).saves().push(next) && final(self).events()
                        == old(self).events().push(TaskEvent::Updated(changed@))) || (r is Err
                        && final(self).tasks() == old(self).tasks() && final(self).saves()
                        == old(self).saves() && final(self).events() == old(self).events())
                } else {
                    r is Ok && r->Ok_0@ == changed@ && final(self).tasks() == next && final(self).saves()
                        == old(self).saves() && final(self).events() == old(self).events().push(
                        TaskEvent::Updated(changed@))
                }
            }),
            persist ==> final(self).save_requests() == old(self).save_requests().push(
                old(self).tasks().update(index as int, changed@),
            ),
            !persist ==> final(self).save_requests() == old(self).save_requests(),
    {
        let ghost before = self.tasks@;
        let previous = self.tasks[index].duplicate();
        let ghost n = changed@;
        self.tasks[index] = changed;
        assert(records_view(self.tasks@) =~= records_view(before).update(index as int, n));
        if persist {
            match self.persist() {
                Ok(()) => {},
                Err(e) => {
                    self.tasks[index] = previous;
                    assert(records_view(self.tasks@) =~= records_view(before));
                    return Err(e);
                },
            }
        }
        let announced = self.tasks[index].duplicate();
        let ghost shown = announced@;
        self.events.updated(announced);
        proof {
            self.emitted@ = self.emitted@.push(TaskEvent::Updated(shown));
        }
        Ok(self.tasks[index].duplicate())
    }

    /// Removes the task with the given id. The removal is saved before it is
    /// announced; a failed save puts the task back in its place.
    pub fn remove(&mut self, id: &str) -> (r: Result<(), String>)
        ensures
            spec_position(old(self).tasks(), id@) is None ==> r is Err && r->Err_0@
                == missing_task_message() && final(self).tasks() == old(self).tasks()
                && final(self).saves() == old(self).saves() && final(self).events() == old(self).events(),
            spec_position(old(self).tasks(), id@) matches Some(i) ==> (r is Ok && final(self).tasks()
                == old(self).tasks().remove(i) && final(self).saves() == old(self).saves().push(
                old(self).tasks().remove(i)) && final(self).events() == old(self).events().push(
                TaskEvent::Removed(id@))) || (r is Err && final(self).tasks() == old(self).tasks()
                && final(self).saves() == old(self).saves() && final(self).events() == old(self).events()),
            spec_position(old(self).tasks(), id@) is None ==> final(self).save_requests()
                == old(self).save_requests(),
            spec_position(old(self).tasks(), id@) matches Some(i) ==> final(self).save_requests()
                == old(self).save_requests().push(old(self).tasks().remove(i)),
    {
        let index = match self.position(id) {
            Some(i) => i,
            None => return Err(String::from_str("任务不存在")),
        };
        let ghost before = self.tasks@;
        let removed = self.tasks.remove(index);
        assert(records_view(self.tasks@) =~= records_view(before).remove(index as int));
        match self.persist() {
            Ok(()) => {},
            Err(e) => {
                self.tasks.insert(index, removed);
                assert(self.tasks@ =~= before);
                return Err(e);
            },
        }
        self.events.removed(id);
        proof {
            self.emitted@ = self.emitted@.push(TaskEvent::Removed(id@));
        }
        Ok(())
    }

    /// Records a progress report. A late report does not bring back a finished,
    /// failed or post-processing task. Saving rewrites the whole list, so only the
    /// first report, which moves the task from waiting to downloading, is saved;
    /// when that save fails the report is dropped.
    pub fn progress(&mut self, id: &str, downloaded: u64, total: u64, speed: u64)
        ensures
            !spec_progress_applies(old(self).tasks(), id@) ==> final(self).tasks() == old(self).tasks()
                && final(self).saves() == old(self).saves() && final(self).events() == old(self).events(),
            spec_progress_applies(old(self).tasks(), id@) && !spec_progress_saves(old(self).tasks(), id@)
                ==> ({
                let next = spec_progress_tasks(old(self).tasks(), id@, downloaded, total, speed);
                final(self).tasks() == next && final(self).saves() == old(self).saves()
                    && final(self).events() == old(self).events().push(
                    TaskEvent::Updated(next[spec_position(old(self).tasks(), id@)->0]))
            }),
            spec_progress_saves(old(self).tasks(), id@) ==> ({
                let next = spec_progress_tasks(old(self).tasks(), id@, downloaded, total, speed);
                (final(self).tasks() == next && final(self).saves() == old(self).saves().push(next)
                    && final(self).events() == old(self).events().push(
                    TaskEvent::Updated(next[spec_position(old(self).tasks(), id@)->0])))
                    || (final(self).tasks() == old(self).tasks() && final(self).saves()
                    == old(self).saves() && final(self).events() == old(self).events())
            }),
            spec_progress_saves(old(self).tasks(), id@) ==> final(self).save_requests()
                == old(self).save_requests().push(
                spec_progress_tasks(old(self).tasks(), id@, downloaded, total, speed),
            ),
            !spec_progress_saves(old(self).tasks(), id@) ==> final(self).save_requests()
                == old(self).save_requests(),
    {
        let index = match self.position(id) {
            Some(i) => i,
            None => return,
        };
        let s = self.tasks[index].status;
        if s == TaskStatus::Completed || s == TaskStatus::Error || s == TaskStatus::Processing {
            return;
        }
        let needs_persist = s == TaskStatus::Waiting;
        let ghost before = self.tasks@;
        let previous = self.tasks[index].duplicate();
        let mut t = self.tasks[index].duplicate();
        t.downloaded = downloaded;
        t.file_size = total;
        t.speed = Some(speed);
        if t.status == TaskStatus::Waiting {
            t.status = TaskStatus::Downloading;
        }
        t.error_msg = None;
        assert(records_view(before)[index as int] == before[index as int]@);
        assert(t@ == spec_progressed(records_view(before)[index as int], downloaded, total, speed));
        self.tasks[index] = t;
        assert(records_view(self.tasks@) =~= records_view(before).update(index as int, t@));
        assert(records_view(self.tasks@) =~= spec_progress_tasks(records_view(before), id@, downloaded, total, speed));
        if needs_persist {
            match self.persist() {
                Ok(()) => {},
                Err(_) => {
                    self.tasks[index] = previous;
                    assert(records_view(self.tasks@) =~= records_view(before));
                    return;
                },
            }
        }
        let announced = self.tasks[index].duplicate();
        let ghost shown = announced@;
        self.events.updated(announced);
        proof {
            self.emitted@ = self.emitted@.push(TaskEvent::Updated(shown));
        }
    }

    /// Marks the file transfer finished: post-processing such as metadata still
    /// runs, so the task is not yet completed.
    pub fn file_complete(&mut self, id: &str)
        ensures
            spec_position(old(self).tasks(), id@) is None ==> spec_unchanged(*old(self), *final(self)),
            spec_position(old(self).tasks(), id@) matches Some(i) ==> spec_persisted_change(
                *old(self),
                *final(self),
                i,
                spec_processing(old(self).tasks()[i]),
            ),
    {
        if let Some(index) = self.position(id) {
            assert(self.tasks()[index as int] == self.tasks@[index as int]@);
            let mut t = self.tasks[index].duplicate();
            t.status = TaskStatus::Processing;
            t.downloaded = t.file_size;
            t.speed = None;
            let _ = self.apply_change(index, t, true);
        }
    }

    /// Marks the task completed once post-processing succeeded, with the final
    /// path used to open or delete the file.
    pub fn completed(&mut self, id: &str, path: &str)
        ensures
            spec_position(old(self).tasks(), id@) is None ==> spec_unchanged(*old(self), *final(self)),
            spec_position(old(self).tasks(), id@) matches Some(i) ==> spec_persisted_change(
                *old(self),
                *final(self),
                i,
                spec_completed(old(self).tasks()[i], path@),
            ),
    {
        if let Some(index) = self.position(id) {
            assert(self.tasks()[index as int] == self.tasks@[index as int]@);
            let mut t = self.tasks[index].duplicate();
            t.status = TaskStatus::Completed;
            t.file_path = Some(String::from_str(path));
            t.downloaded = t.file_size;
            t.speed = None;
            t.error_msg = None;
            let _ = self.apply_change(index, t, true);
        }
    }

    /// Marks the task failed. An offset from the worker replaces the progress;
    /// without one the progress stays and a retry measures the file again.
    pub fn failed(&mut self, id: &str, message: &str, offset: Option<u64>)
        ensures
            spec_position(old(self).tasks(), id@) is None ==> spec_unchanged(*old(self), *final(self)),
            spec_position(old(self).tasks(), id@) matches Some(i) ==> spec_persisted_change(
                *old(self),
                *final(self),
                i,
                spec_failed(old(self).tasks()[i], message@, offset),
            ),
    {
        if let Some(index) = self.position(id) {
            assert(self.tasks()[index as int] == self.tasks@[index as int]@);
            let mut t = self.tasks[index].duplicate();
            t.status = TaskStatus::Error;
            t.error_msg = Some(String::from_str(message));
            t.speed = None;
            if let Some(o) = offset {
                t.downloaded = o;
            }
            let _ = self.apply_change(index, t, true);
        }
    }
}

/// After a progress report has moved a waiting task to downloading, no later
/// report for it is saved: only the first state transition is persisted.
pub proof fn lemma_progress_saves_once(
    ts: Seq<TaskRecordView>,
    id: Seq<char>,
    downloaded: u64,
    total: u64,
    speed: u64,
)
    requires
        spec_progress_applies(ts, id),
    ensures
        !spec_progress_saves(spec_progress_tasks(ts, id, downloaded, total, speed), id),
{
    lemma_position_from(ts, id, 0);
    let i = spec_position(ts, id)->0;
    lemma_position_after_update(ts, id, i, spec_progressed(ts[i], downloaded, total, speed), 0);
}

/// The position found is the first task at or after `from` with the id.
pub proof fn lemma_position_from(ts: Seq<TaskRecordView>, id: Seq<char>, from: int)
    requires
        0 <= from,
    ensures
        match spec_position_from(ts, id, from) {
            Some(i) => from <= i < ts.len() && ts[i].id == id && forall|k: int|
                from <= k < i ==> (#[trigger] ts[k]).id != id,
            None => forall|k: int| from <= k < ts.len() ==> (#[trigger] ts[k]).id != id,
        },
    decreases ts.len() - from,
{
    if from < ts.len() && ts[from].id != id {
        lemma_position_from(ts, id, from + 1);
    }
}

/// Replacing a task by one with the same id leaves every id's position alone.
pub proof fn lemma_position_after_update(ts: Seq<TaskRecordView>, id: Seq<char>, i: int, t: TaskRecordView, from: int)
    requires
        0 <= i < ts.len(),
        t.id == ts[i].id,
        0 <= from,
    ensures
        spec_position_from(ts.update(i, t), id, from) == spec_position_from(ts, id, from),
    decreases ts.len() - from,
{
    if from < ts.len() {
        lemma_position_after_update(ts, id, i, t, from + 1);
    }
}

/// A failure that took effect marks the task failed with the message, with no
/// speed; an offset from the worker replaces its progress, and without one the
/// progress stays. The other tasks are untouched.
pub proof fn lemma_failed_records_offset<R: TaskRepository, E: TaskEventSink>(
    before: TaskState<R, E>,
    after: TaskState<R, E>,
    id: Seq<char>,
    message: Seq<char>,
    offset: Option<u64>,
)
    requires
        spec_position(before.tasks(), id) is Some,
        spec_persisted_change(
            before,
            after,
            spec_position(before.tasks(), id)->0,
            spec_failed(before.tasks()[spec_position(before.tasks(), id)->0], message, offset),
        ),
        after.saves().len() > before.saves().len(),
    ensures
        ({
            let i = spec_position(before.tasks(), id)->0;
            let t = after.tasks()[i];
            &&& after.tasks().len() == before.tasks().len()
            &&& t.id == id
            &&& t.status == TaskStatus::Error
            &&& t.error_msg == Some(message)
            &&& t.speed is None
            &&& t.downloaded == match offset {
                Some(o) => o,
                None => before.tasks()[i].downloaded,
            }
            &&& forall|j: int| 0 <= j < before.tasks().len() && j != i ==> after.tasks()[j] == before.tasks()[j]
        }),
{
    let i = spec_position(before.tasks(), id)->0;
    lemma_position_from(before.tasks(), id, 0);
}


/// Whether or not the repository accepts it, the record that a failure asks
/// to save has the task failed with the message and no speed, and its progress
/// is the worker's offset when one came, else the progress it had.
pub proof fn lemma_failed_requests_offset<R: TaskRepository, E: TaskEventSink>(
    before: TaskState<R, E>,
    after: TaskState<R, E>,
    id: Seq<char>,
    message: Seq<char>,
    offset: Option<u64>,
)
    requires
        spec_position(before.tasks(), id) is Some,
        spec_persisted_change(
            before,
            after,
            spec_position(before.tasks(), id)->0,
            spec_failed(before.tasks()[spec_position(before.tasks(), id)->0], message, offset),
        ),
    ensures
        ({
            let i = spec_position(before.tasks(), id)->0;
            let asked = after.save_requests().last();
            &&& after.save_requests().len() == before.save_requests().len() + 1
            &&& asked.len() == before.tasks().len()
            &&& asked[i].id == id
            &&& asked[i].status == TaskStatus::Error
            &&& asked[i].error_msg == Some(message)
            &&& asked[i].speed is None
            &&& asked[i].downloaded == match offset {
                Some(o) => o,
                None => before.tasks()[i].downloaded,
            }
            &&& forall|j: int| 0 <= j < before.tasks().len() && j != i ==> asked[j] == before.tasks()[j]
        }),
{
    lemma_position_from(before.tasks(), id, 0);
}

} // verus!

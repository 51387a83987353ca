//! Creating, pausing, resuming, removing and retrying download tasks. The
//! runtime answers questions about files and settings; every rule about names,
//! conflicts and retries is decided here. Driving the download engine (an
//! asynchronous queue of workers) is left to the runtime, which calls these
//! functions before and after it starts or stops a worker.

use vstd::prelude::*;

use crate::contract::{
    copy_opt_string, copy_qualities, copy_quality, qualities_view, BatchResult, CreateTaskRequest,
    CreateTaskResult, DuplicateAction, QualityItem, QualityItemView, TaskRecord, TaskRecordView, TaskStatus,
};
use crate::download_config::{spec_is_absolute, DownloadConfig};
use crate::download_path::{
    file_stem_of, extension_of, parent_of, resolve_download_path, spec_extension, spec_file_stem, spec_join,
    spec_parent, spec_saved_file_name, spec_uses_saf,
};
use crate::platform::{platform_of_name, unsupported_platform_message, Platform};
use crate::task_context::SongInfo;
use crate::task_state::{duplicate_id_message, spec_failed, spec_persisted_change,
    missing_task_message, spec_position, TaskEvent, TaskEventSink, TaskRepository, TaskState,
};
use crate::text::{push_decimal, push_hex, push_str_chars, spec_decimal, spec_hex, str_chars, string_from_chars};

verus! {

/// What the runtime knows about files and settings. A SAF path is a file name
/// inside the folder that the URI names; any other path is a local file.
pub trait TaskEnvironment {
    fn download_config(&self) -> DownloadConfig;

    fn file_exists(&self, path: &str, is_saf: bool, saf_folder_uri: Option<&str>) -> bool;

    fn file_len(&self, path: &str, is_saf: bool) -> Option<u64>;
}

/// A question put to the runtime about the disk, with its answer.
pub enum DiskQuery {
    /// Whether a file is at the path (in the SAF folder for a SAF path).
    Exists { path: Seq<char>, is_saf: bool, saf_folder_uri: Option<Seq<char>>, taken: bool },
    /// The length of the file at the path.
    Length { path: Seq<char>, is_saf: bool, length: Option<u64> },
    /// The download settings in force.
    Settings { config: DownloadConfig },
}

/// The runtime, with a record of every question put to it about the disk and
/// of its answers, oldest first.
pub struct AskedEnvironment<'a, V: TaskEnvironment> {
    environment: &'a V,
    asked: Ghost<Seq<DiskQuery>>,
}

/// An optional text as an optional sequence.
pub open spec fn opt_text(o: Option<&str>) -> Option<Seq<char>> {
    match o {
        Some(s) => Some(s@),
        None => None,
    }
}

/// An optional string as an optional sequence.
pub open spec fn opt_string(o: Option<String>) -> Option<Seq<char>> {
    match o {
        Some(s) => Some(s@),
        None => None,
    }
}

/// Whether `after` is `before` with more questions after it.
pub open spec fn spec_extends(before: Seq<DiskQuery>, after: Seq<DiskQuery>) -> bool {
    before.len() <= after.len() && after.take(before.len() as int) == before
}

/// Whether the question asked whether a file is at this path.
pub open spec fn asked_exists(q: DiskQuery, path: Seq<char>, is_saf: bool, uri: Option<Seq<char>>) -> bool {
    q matches DiskQuery::Exists { path: p, is_saf: s, saf_folder_uri: u, .. } && p == path && s == is_saf && u == uri
}

/// Whether the runtime answered that a file is there.
pub open spec fn reported_taken(q: DiskQuery) -> bool {
    q matches DiskQuery::Exists { taken, .. } && taken
}

impl<'a, V: TaskEnvironment> AskedEnvironment<'a, V> {
    /// The questions asked so far, with their answers.
    pub closed spec fn queries(&self) -> Seq<DiskQuery> {
        self.asked@
    }

    /// Asks `environment`, with nothing asked yet.
    pub fn new(environment: &'a V) -> (r: Self)
        ensures
            r.queries() == Seq::<DiskQuery>::empty(),
    {
        AskedEnvironment { environment, asked: Ghost(Seq::empty()) }
    }

    /// The download settings in force; the answer is recorded.
    pub fn download_config(&mut self) -> (r: DownloadConfig)
        ensures
            final(self).queries() == old(self).queries().push(DiskQuery::Settings { config: r }),
    {
        let r = self.environment.download_config();
        proof {
            self.asked@ = self.asked@.push(DiskQuery::Settings { config: r });
        }
        r
    }

    /// Whether a file is at the path; the answer is recorded.
    pub fn file_exists(&mut self, path: &str, is_saf: bool, saf_folder_uri: Option<&str>) -> (r: bool)
        ensures
            final(self).queries() == old(self).queries().push(
                DiskQuery::Exists { path: path@, is_saf, saf_folder_uri: opt_text(saf_folder_uri), taken: r },
            ),
    {
        let r = self.environment.file_exists(path, is_saf, saf_folder_uri);
        proof {
            self.asked@ = self.asked@.push(
                DiskQuery::Exists { path: path@, is_saf, saf_folder_uri: opt_text(saf_folder_uri), taken: r },
            );
        }
        r
    }

    /// The length of the file at the path; the answer is recorded.
    pub fn file_len(&mut self, path: &str, is_saf: bool) -> (r: Option<u64>)
        ensures
            final(self).queries() == old(self).queries().push(DiskQuery::Length { path: path@, is_saf, length: r }),
    {
        let r = self.environment.file_len(path, is_saf);
        proof {
            self.asked@ = self.asked@.push(DiskQuery::Length { path: path@, is_saf, length: r });
        }
        r
    }
}

/// Where a task would be saved, whether a file is already there, and the first
/// numbered name that is free on disk.
#[derive(Debug)]
pub struct PathCheck {
    pub original_path: String,
    pub exists: bool,
    pub suggested_path: String,
    pub is_saf: bool,
    pub saf_folder_uri: Option<String>,
}

/// The highest number tried when a free name is looked for.
pub const MAX_NAME_NUMBER: u64 = 9999;

/// The message when no numbered name is free.
pub open spec fn no_free_name_message() -> Seq<char> {
    "无法生成不重复的文件名"@
}

/// The message when a path has no file name to number.
pub open spec fn invalid_file_name_message() -> Seq<char> {
    "无效文件名"@
}

/// The message when a local path has no directory to put a numbered name in.
pub open spec fn invalid_directory_message() -> Seq<char> {
    "无效下载目录"@
}

/// Whether an unfinished task targets the path.
pub open spec fn spec_path_reserved(ts: Seq<TaskRecordView>, path: Seq<char>) -> bool {
    exists|i: int| 0 <= i < ts.len() && #[trigger] ts[i].status != TaskStatus::Completed && ts[i].save_path == Some(path)
}

/// The extension of a path, or nothing.
pub open spec fn spec_extension_or_empty(p: Seq<char>) -> Seq<char> {
    match spec_extension(p) {
        Some(e) => e,
        None => Seq::empty(),
    }
}

/// A file name with a number: `stem (n).ext`, or `stem (n)` without extension.
pub open spec fn spec_numbered_name(stem: Seq<char>, n: nat, ext: Seq<char>) -> Seq<char> {
    if ext.len() == 0 {
        stem + " ("@ + spec_decimal(n) + ")"@
    } else {
        stem + " ("@ + spec_decimal(n) + ")."@ + ext
    }
}

/// A numbered name for a path: the bare name for SAF, else the name in the
/// parent directory.
pub open spec fn spec_numbered_path(stem: Seq<char>, ext: Seq<char>, n: nat, is_saf: bool, parent: Seq<char>) -> Seq<char> {
    let name = spec_numbered_name(stem, n, ext);
    if is_saf {
        name
    } else {
        spec_join(parent, name)
    }
}

/// The `n`-th alternative that `unique_path` offers for a path, which needs
/// the path's stem and, for a local path, its parent directory.
pub open spec fn spec_unique_candidate(original: Seq<char>, n: nat, is_saf: bool) -> Seq<char> {
    spec_numbered_path(
        spec_file_stem(original)->0,
        spec_extension_or_empty(original),
        n,
        is_saf,
        spec_parent(original)->0,
    )
}

/// The `n`-th alternative that a path check suggests: a path without a stem is
/// numbered as `unnamed`, one without a parent as in the current directory.
pub open spec fn spec_suggestion(original: Seq<char>, n: nat, is_saf: bool) -> Seq<char> {
    let stem = match spec_file_stem(original) {
        Some(s) => s,
        None => "unnamed"@,
    };
    let parent = match spec_parent(original) {
        Some(d) => d,
        None => "."@,
    };
    spec_numbered_path(stem, spec_extension_or_empty(original), n, is_saf, parent)
}

/// The song information that names a task's file.
pub open spec fn spec_task_song_info(t: TaskRecord) -> SongInfo {
    SongInfo {
        title: t.song_title,
        artist: t.artist,
        album: t.album,
        quality: t.quality,
        cover_url: t.cover_url,
    }
}

/// Whether a task's file goes through SAF under a configuration.
pub open spec fn spec_config_uses_saf(config: DownloadConfig) -> bool {
    spec_uses_saf(
        config.download_dir@,
        match config.saf_folder_uri {
            Some(u) => Some(u@),
            None => None,
        },
    )
}

/// The path of a task's file under a configuration: the file name for SAF, else
/// the file name in the download directory.
pub open spec fn spec_task_path(config: DownloadConfig, t: TaskRecord) -> Seq<char> {
    let name = spec_saved_file_name(config.naming_template@, spec_task_song_info(t), t.filename@);
    if spec_config_uses_saf(config) {
        name
    } else {
        spec_join(config.download_dir@, name)
    }
}

/// A directory and a name joined as `Path::join` does.
fn join_path(dir: &[char], name: &[char]) -> (r: Vec<char>)
    ensures
        r@ == spec_join(dir@, name@),
{
    proof {
        reveal_strlit("/");
    }
    let mut out: Vec<char> = Vec::new();
    if name.len() > 0 && name[0] == '/' {
        let mut k: usize = 0;
        while k < name.len()
            invariant
                k <= name.len(),
                out@ == name@.take(k as int),
            decreases name.len() - k,
        {
            out.push(name[k]);
            assert(name@.take(k + 1) =~= name@.take(k as int).push(name@[k as int]));
            k = k + 1;
        }
        assert(name@.take(k as int) =~= name@);
        return out;
    }
    let mut k: usize = 0;
    while k < dir.len()
        invariant
            k <= dir.len(),
            out@ == dir@.take(k as int),
        decreases dir.len() - k,
    {
        out.push(dir[k]);
        assert(dir@.take(k + 1) =~= dir@.take(k as int).push(dir@[k as int]));
        k = k + 1;
    }
    assert(dir@.take(k as int) =~= dir@);
    if dir.len() > 0 && dir[dir.len() - 1] != '/' {
        out.push('/');
    }
    let ghost before = out@;
    let mut k: usize = 0;
    while k < name.len()
        invariant
            k <= name.len(),
            out@ == before + name@.take(k as int),
        decreases name.len() - k,
    {
        out.push(name[k]);
        assert(name@.take(k + 1) =~= name@.take(k as int).push(name@[k as int]));
        k = k + 1;
    }
    assert(name@.take(k as int) =~= name@);
    assert(out@ =~= spec_join(dir@, name@));
    out
}

/// A numbered name for a path, in its parent directory unless it is for SAF.
fn numbered_path(stem: &[char], ext: &[char], n: u64, is_saf: bool, parent: &[char]) -> (r: String)
    ensures
        r@ == spec_numbered_path(stem@, ext@, n as nat, is_saf, parent@),
{
    proof {
        reveal_strlit(" (");
        reveal_strlit(")");
        reveal_strlit(").");
    }
    let mut name: Vec<char> = Vec::new();
    let mut k: usize = 0;
    while k < stem.len()
        invariant
            k <= stem.len(),
            name@ == stem@.take(k as int),
        decreases stem.len() - k,
    {
        name.push(stem[k]);
        assert(stem@.take(k + 1) =~= stem@.take(k as int).push(stem@[k as int]));
        k = k + 1;
    }
    assert(stem@.take(k as int) =~= stem@);
    name.push(' ');
    name.push('(');
    push_decimal(n, &mut name);
    name.push(')');
    if ext.len() > 0 {
        name.push('.');
        let ghost before = name@;
        let mut k: usize = 0;
        while k < ext.len()
            invariant
                k <= ext.len(),
                name@ == before + ext@.take(k as int),
            decreases ext.len() - k,
        {
            name.push(ext[k]);
            assert(ext@.take(k + 1) =~= ext@.take(k as int).push(ext@[k as int]));
            k = k + 1;
        }
        assert(ext@.take(k as int) =~= ext@);
    }
    assert(name@ =~= spec_numbered_name(stem@, n as nat, ext@));
    if is_saf {
        string_from_chars(name.as_slice())
    } else {
        let full = join_path(parent, name.as_slice());
        string_from_chars(full.as_slice())
    }
}

/// The extension of a path, or nothing.
fn extension_or_empty(p: &[char]) -> (r: Vec<char>)
    ensures
        r@ == spec_extension_or_empty(p@),
{
    match extension_of(p) {
        Some(e) => e,
        None => Vec::new(),
    }
}

/// A result as sequences.
pub open spec fn result_view(r: Result<String, String>) -> Result<Seq<char>, Seq<char>> {
    match r {
        Ok(s) => Ok(s@),
        Err(e) => Err(e@),
    }
}

/// Whether a numbered candidate is out: a task reserves it or the runtime
/// answered that a file is there.
pub open spec fn spec_candidate_taken(ts: Seq<TaskRecordView>, q: DiskQuery, p: Seq<char>) -> bool {
    reported_taken(q) || spec_path_reserved(ts, p)
}

/// The search for a free path, given the questions it asked the runtime and
/// the answers: first the suggested path; when that is out, the numbered
/// candidates 1, 2, … in turn, the first one free of tasks and reported absent
/// being chosen; when all of them up to the highest number are out, no name.
pub open spec fn spec_unique_log(
    ts: Seq<TaskRecordView>,
    original: Seq<char>,
    suggested: Seq<char>,
    is_saf: bool,
    uri: Option<Seq<char>>,
    l: Seq<DiskQuery>,
    r: Result<Seq<char>, Seq<char>>,
) -> bool {
    &&& l.len() >= 1
    &&& asked_exists(l[0], suggested, is_saf, uri)
    &&& if !spec_candidate_taken(ts, l[0], suggested) {
        l.len() == 1 && r == Ok::<Seq<char>, Seq<char>>(suggested)
    } else if spec_file_stem(original) is None {
        l.len() == 1 && r == Err::<Seq<char>, Seq<char>>(invalid_file_name_message())
    } else if !is_saf && spec_parent(original) is None {
        l.len() == 1 && r == Err::<Seq<char>, Seq<char>>(invalid_directory_message())
    } else {
        &&& 2 <= l.len() <= MAX_NAME_NUMBER + 1
        &&& forall|j: int|
            1 <= j < l.len() ==> asked_exists(#[trigger] l[j], spec_unique_candidate(original, j as nat, is_saf), is_saf, uri)
        &&& forall|j: int|
            1 <= j < l.len() - 1 ==> spec_candidate_taken(ts, #[trigger] l[j], spec_unique_candidate(original, j as nat, is_saf))
        &&& match r {
            Ok(p) => p == spec_unique_candidate(original, (l.len() - 1) as nat, is_saf) && !spec_candidate_taken(ts, l.last(), p),
            Err(m) => m == no_free_name_message() && l.len() == MAX_NAME_NUMBER + 1 && spec_candidate_taken(
                ts,
                l.last(),
                spec_unique_candidate(original, MAX_NAME_NUMBER as nat, is_saf),
            ),
        }
    }
}

/// A path for a task whose target is taken: the suggested path when no task
/// holds it and no file is there, else the first numbered name that is free
/// of both. Whatever the runtime reports of the disk, the path returned is
/// never one that an unfinished task targets. The runtime is asked about every
/// candidate tried, and `spec_unique_log` states the choice over its answers.
#[verifier::loop_isolation(false)]
#[verifier::spinoff_prover]
pub fn unique_path<R: TaskRepository, E: TaskEventSink, V: TaskEnvironment>(
    state: &TaskState<R, E>,
    environment: &mut AskedEnvironment<V>,
    original: &str,
    suggested: &str,
    is_saf: bool,
    saf_folder_uri: Option<&str>,
) -> (r: Result<String, String>)
    ensures
        r is Ok ==> !spec_path_reserved(state.tasks(), r->Ok_0@) && (r->Ok_0@ == suggested@ || exists|n: nat|
            1 <= n <= MAX_NAME_NUMBER && r->Ok_0@ == #[trigger] spec_unique_candidate(original@, n, is_saf)),
        r is Err ==> (r->Err_0@ == invalid_file_name_message() && spec_file_stem(original@) is None) || (
        r->Err_0@ == invalid_directory_message() && !is_saf && spec_file_stem(original@) is Some && spec_parent(
            original@,
        ) is None) || r->Err_0@ == no_free_name_message(),
        spec_extends(old(environment).queries(), final(environment).queries()),
        spec_unique_log(
            state.tasks(),
            original@,
            suggested@,
            is_saf,
            opt_text(saf_folder_uri),
            final(environment).queries().skip(old(environment).queries().len() as int),
            result_view(r),
        ),
{
    let ghost start = environment.queries();
    let ghost uri = opt_text(saf_folder_uri);
    let taken0 = environment.file_exists(suggested, is_saf, saf_folder_uri);
    let ghost q0 = environment.queries()[start.len() as int];
    assert(environment.queries().skip(start.len() as int) =~= seq![q0]);
    assert(environment.queries().take(start.len() as int) =~= start);
    if !taken0 && !state.path_reserved(suggested) {
        return Ok(String::from_str(suggested));
    }
    let chars = str_chars(original);
    let stem = match file_stem_of(chars.as_slice()) {
        Some(s) => s,
        None => return Err(String::from_str("无效文件名")),
    };
    let ext = extension_or_empty(chars.as_slice());
    let parent: Vec<char> = if is_saf {
        Vec::new()
    } else {
        match parent_of(chars.as_slice()) {
            Some(d) => d,
            None => return Err(String::from_str("无效下载目录")),
        }
    };
    let mut n: u64 = 1;
    while n <= MAX_NAME_NUMBER
        invariant
            1 <= n <= MAX_NAME_NUMBER + 1,
            spec_file_stem(original@) == Some(stem@),
            ext@ == spec_extension_or_empty(original@),
            !is_saf ==> spec_parent(original@) == Some(parent@),
            uri == opt_text(saf_folder_uri),
            environment.queries().len() == start.len() + n,
            environment.queries().take(start.len() as int) == start,
            environment.queries()[start.len() as int] == q0,
            asked_exists(q0, suggested@, is_saf, uri),
            spec_candidate_taken(state.tasks(), q0, suggested@),
            forall|j: int|
                1 <= j < n ==> asked_exists(
                    #[trigger] environment.queries()[start.len() + j],
                    spec_unique_candidate(original@, j as nat, is_saf),
                    is_saf,
                    uri,
                ),
            forall|j: int|
                1 <= j < n ==> spec_candidate_taken(
                    state.tasks(),
                    #[trigger] environment.queries()[start.len() + j],
                    spec_unique_candidate(original@, j as nat, is_saf),
                ),
        decreases MAX_NAME_NUMBER + 1 - n,
    {
        let candidate = numbered_path(stem.as_slice(), ext.as_slice(), n, is_saf, parent.as_slice());
        assert(candidate@ == spec_unique_candidate(original@, n as nat, is_saf));
        let ghost before = environment.queries();
        let taken = environment.file_exists(candidate.as_str(), is_saf, saf_folder_uri);
        assert(environment.queries().take(start.len() as int) =~= start) by {
            assert(environment.queries() =~= before.push(environment.queries().last()));
        }
        if !taken && !state.path_reserved(candidate.as_str()) {
            let ghost l = environment.queries().skip(start.len() as int);
            assert(l.len() == n + 1);
            assert forall|j: int| 1 <= j < l.len() implies asked_exists(
                #[trigger] l[j],
                spec_unique_candidate(original@, j as nat, is_saf),
                is_saf,
                uri,
            ) by {
                assert(l[j] == environment.queries()[start.len() + j]);
            }
            assert forall|j: int| 1 <= j < l.len() - 1 implies spec_candidate_taken(
                state.tasks(),
                #[trigger] l[j],
                spec_unique_candidate(original@, j as nat, is_saf),
            ) by {
                assert(l[j] == environment.queries()[start.len() + j]);
            }
            assert(l[0] == q0);
            return Ok(candidate);
        }
        n = n + 1;
    }
    let ghost l = environment.queries().skip(start.len() as int);
    assert(l.len() == MAX_NAME_NUMBER + 1);
    assert forall|j: int| 1 <= j < l.len() implies asked_exists(
        #[trigger] l[j],
        spec_unique_candidate(original@, j as nat, is_saf),
        is_saf,
        uri,
    ) by {
        assert(l[j] == environment.queries()[start.len() + j]);
    }
    assert forall|j: int| 1 <= j < l.len() - 1 implies spec_candidate_taken(
        state.tasks(),
        #[trigger] l[j],
        spec_unique_candidate(original@, j as nat, is_saf),
    ) by {
        assert(l[j] == environment.queries()[start.len() + j]);
    }
    assert(l.last() == environment.queries()[start.len() + MAX_NAME_NUMBER]);
    assert(l[0] == q0);
    proof {
        reveal_strlit("无法生成不重复的文件名");
    }
    Err(String::from_str("无法生成不重复的文件名"))
}

/// The folder URI of a check under a configuration: the configured one for SAF,
/// none for a local path.
pub open spec fn spec_check_uri(config: DownloadConfig) -> Option<Seq<char>> {
    if spec_config_uses_saf(config) {
        opt_string(config.saf_folder_uri)
    } else {
        None
    }
}

/// A path check's answer as values: whether a file is there and the
/// suggestion, or the error.
pub open spec fn spec_check_view(r: Result<PathCheck, String>) -> Result<(bool, Seq<char>), Seq<char>> {
    match r {
        Ok(c) => Ok((c.exists, c.suggested_path@)),
        Err(e) => Err(e@),
    }
}

/// The path check, given the questions it asked the runtime and the answers:
/// first whether a file is at the path itself, which is what the check reports
/// as `exists`; when one is, the numbered suggestions 1, 2, … in turn, the
/// first one reported absent being suggested; when all up to the highest
/// number are reported taken, no name.
pub open spec fn spec_check_log(
    original: Seq<char>,
    is_saf: bool,
    uri: Option<Seq<char>>,
    l: Seq<DiskQuery>,
    r: Result<(bool, Seq<char>), Seq<char>>,
) -> bool {
    &&& l.len() >= 1
    &&& asked_exists(l[0], original, is_saf, uri)
    &&& if !reported_taken(l[0]) {
        l.len() == 1 && r == Ok::<(bool, Seq<char>), Seq<char>>((false, original))
    } else {
        &&& 2 <= l.len() <= MAX_NAME_NUMBER + 1
        &&& forall|j: int|
            1 <= j < l.len() ==> asked_exists(#[trigger] l[j], spec_suggestion(original, j as nat, is_saf), is_saf, uri)
        &&& forall|j: int| 1 <= j < l.len() - 1 ==> reported_taken(#[trigger] l[j])
        &&& match r {
            Ok(v) => v == (true, spec_suggestion(original, (l.len() - 1) as nat, is_saf)) && !reported_taken(l.last()),
            Err(m) => m == no_free_name_message() && l.len() == MAX_NAME_NUMBER + 1 && reported_taken(l.last()),
        }
    }
}

/// The path a task would be saved at under a configuration, whether a file is
/// there, and the first numbered alternative that is free on disk; the runtime
/// is asked about each path tried, and `spec_check_log` states the answer over
/// its answers.
#[verifier::loop_isolation(false)]
#[verifier::spinoff_prover]
pub fn task_path_check_with<V: TaskEnvironment>(
    environment: &mut AskedEnvironment<V>,
    task: &TaskRecord,
    config: &DownloadConfig,
) -> (r: Result<PathCheck, String>)
    ensures
        r is Ok ==> spec_path_check_fits(*config, *task, r->Ok_0),
        r is Err ==> r->Err_0@ == no_free_name_message(),
        spec_extends(old(environment).queries(), final(environment).queries()),
        spec_check_log(
            spec_task_path(*config, *task),
            spec_config_uses_saf(*config),
            spec_check_uri(*config),
            final(environment).queries().skip(old(environment).queries().len() as int),
            spec_check_view(r),
        ),
{
    let ghost start = environment.queries();
    let song_info = SongInfo {
        title: task.song_title.clone(),
        artist: task.artist.clone(),
        album: task.album.clone(),
        quality: task.quality.clone(),
        cover_url: task.cover_url.clone(),
    };
    let saf_uri: Option<&str> = match &config.saf_folder_uri {
        Some(u) => Some(u.as_str()),
        None => None,
    };
    let (is_saf, download_dir, saf_folder_uri) = resolve_download_path(
        config.download_dir.as_str(),
        config.naming_template.as_str(),
        saf_uri,
        &song_info,
        task.filename.as_str(),
    );
    assert(spec_saved_file_name(config.naming_template@, song_info, task.filename@) == spec_saved_file_name(
        config.naming_template@,
        spec_task_song_info(*task),
        task.filename@,
    ));
    let uri_ref: Option<&str> = match &saf_folder_uri {
        Some(u) => Some(u.as_str()),
        None => None,
    };
    let ghost uri = opt_text(uri_ref);
    assert(download_dir@ == spec_task_path(*config, *task));
    assert(is_saf == spec_config_uses_saf(*config));
    assert(uri == spec_check_uri(*config));
    let exists = environment.file_exists(download_dir.as_str(), is_saf, uri_ref);
    let ghost q0 = environment.queries()[start.len() as int];
    assert(environment.queries().skip(start.len() as int) =~= seq![q0]);
    assert(environment.queries().take(start.len() as int) =~= start);
    if exists {
        let chars = str_chars(download_dir.as_str());
        let stem: Vec<char> = match file_stem_of(chars.as_slice()) {
            Some(s) => s,
            None => str_chars("unnamed"),
        };
        let ext = extension_or_empty(chars.as_slice());
        let parent: Vec<char> = match parent_of(chars.as_slice()) {
            Some(d) => d,
            None => str_chars("."),
        };
        let mut n: u64 = 1;
        while n <= MAX_NAME_NUMBER
            invariant
                1 <= n <= MAX_NAME_NUMBER + 1,
                stem@ == match spec_file_stem(download_dir@) {
                    Some(s) => s,
                    None => "unnamed"@,
                },
                ext@ == spec_extension_or_empty(download_dir@),
                parent@ == match spec_parent(download_dir@) {
                    Some(d) => d,
                    None => "."@,
                },
                environment.queries().len() == start.len() + n,
                environment.queries().take(start.len() as int) == start,
                environment.queries()[start.len() as int] == q0,
                forall|j: int|
                    1 <= j < n ==> asked_exists(
                        #[trigger] environment.queries()[start.len() + j],
                        spec_suggestion(download_dir@, j as nat, is_saf),
                        is_saf,
                        uri,
                    ),
                forall|j: int| 1 <= j < n ==> reported_taken(#[trigger] environment.queries()[start.len() + j]),
            decreases MAX_NAME_NUMBER + 1 - n,
        {
            let candidate = numbered_path(stem.as_slice(), ext.as_slice(), n, is_saf, parent.as_slice());
            assert(candidate@ == spec_suggestion(download_dir@, n as nat, is_saf));
            let ghost before = environment.queries();
            let taken = environment.file_exists(candidate.as_str(), is_saf, uri_ref);
            assert(environment.queries().take(start.len() as int) =~= start) by {
                assert(environment.queries() =~= before.push(environment.queries().last()));
            }
            if !taken {
                let ghost l = environment.queries().skip(start.len() as int);
                assert(l.len() == n + 1);
                assert forall|j: int| 1 <= j < l.len() implies asked_exists(
                    #[trigger] l[j],
                    spec_suggestion(download_dir@, j as nat, is_saf),
                    is_saf,
                    uri,
                ) by {
                    assert(l[j] == environment.queries()[start.len() + j]);
                }
                assert forall|j: int| 1 <= j < l.len() - 1 implies reported_taken(#[trigger] l[j]) by {
                    assert(l[j] == environment.queries()[start.len() + j]);
                }
                assert(l[0] == q0);
                let found = PathCheck {
                    original_path: download_dir,
                    exists,
                    suggested_path: candidate,
                    is_saf,
                    saf_folder_uri,
                };
                assert(found.suggested_path@ == spec_suggestion(found.original_path@, n as nat, found.is_saf));
                return Ok(found);
            }
            n = n + 1;
        }
        let ghost l = environment.queries().skip(start.len() as int);
        assert(l.len() == MAX_NAME_NUMBER + 1);
        assert forall|j: int| 1 <= j < l.len() implies asked_exists(
            #[trigger] l[j],
            spec_suggestion(download_dir@, j as nat, is_saf),
            is_saf,
            uri,
        ) by {
            assert(l[j] == environment.queries()[start.len() + j]);
        }
        assert forall|j: int| 1 <= j < l.len() - 1 implies reported_taken(#[trigger] l[j]) by {
            assert(l[j] == environment.queries()[start.len() + j]);
        }
        assert(l.last() == environment.queries()[start.len() + MAX_NAME_NUMBER]);
        assert(l[0] == q0);
        proof {
            reveal_strlit("无法生成不重复的文件名");
        }
        return Err(String::from_str("无法生成不重复的文件名"));
    }
    let suggested_path = download_dir.clone();
    Ok(PathCheck { original_path: download_dir, exists, suggested_path, is_saf, saf_folder_uri })
}

/// What a path check under a configuration reports: the task's path under it,
/// whether it goes through SAF (with the folder URI), and, when a file is
/// there, a numbered name as suggestion, else the path itself.
pub open spec fn spec_path_check_fits(config: DownloadConfig, task: TaskRecord, c: PathCheck) -> bool {
    &&& c.original_path@ == spec_task_path(config, task)
    &&& c.is_saf == spec_config_uses_saf(config)
    &&& (c.is_saf ==> c.saf_folder_uri is Some && c.saf_folder_uri->0@ == config.saf_folder_uri->0@)
    &&& (!c.is_saf ==> c.saf_folder_uri is None)
    &&& (!c.exists ==> c.suggested_path@ == c.original_path@)
    &&& (c.exists ==> exists|n: nat|
        1 <= n <= MAX_NAME_NUMBER && c.suggested_path@ == #[trigger] spec_suggestion(c.original_path@, n, c.is_saf))
}

/// The path check under the configuration the runtime currently gives. That
/// configuration is the runtime's answer at the time of the call, so the
/// contract states the check under whichever configuration it gave.
pub fn task_path_check<V: TaskEnvironment>(environment: &mut AskedEnvironment<V>, task: &TaskRecord) -> (r:
    Result<PathCheck, String>)
    ensures
        r is Err ==> r->Err_0@ == no_free_name_message(),
        r is Ok ==> (!r->Ok_0.exists ==> r->Ok_0.suggested_path@ == r->Ok_0.original_path@),
        spec_extends(old(environment).queries(), final(environment).queries()),
        spec_task_checked(*task, final(environment).queries().skip(old(environment).queries().len() as int), r),
{
    let ghost start = environment.queries();
    let config = environment.download_config();
    let ghost mid = environment.queries();
    let r = task_path_check_with(environment, task, &config);
    proof {
        let l = environment.queries().skip(start.len() as int);
        assert(mid.take(start.len() as int) =~= start);
        assert(environment.queries().take(start.len() as int) =~= start);
        assert(mid[start.len() as int] == DiskQuery::Settings { config });
        assert(environment.queries().take(mid.len() as int)[start.len() as int] == mid[start.len() as int]);
        assert(l[0] == DiskQuery::Settings { config });
        assert(l.skip(1) =~= environment.queries().skip(mid.len() as int));
        assert(spec_checked_under(config, *task, l.skip(1), r));
    }
    r
}

/// The path check of a task over the runtime's answers: the settings were
/// asked first, and the check under that answer followed.
pub open spec fn spec_task_checked(task: TaskRecord, l: Seq<DiskQuery>, r: Result<PathCheck, String>) -> bool {
    l.len() >= 1 && match l[0] {
        DiskQuery::Settings { config } => spec_checked_under(config, task, l.skip(1), r),
        _ => false,
    }
}

/// The check of a task under a configuration, over the runtime's answers:
/// what `task_path_check_with` states.
pub open spec fn spec_checked_under(config: DownloadConfig, task: TaskRecord, l: Seq<DiskQuery>, r: Result<PathCheck, String>) -> bool {
    &&& r is Ok ==> spec_path_check_fits(config, task, r->Ok_0)
    &&& spec_check_log(spec_task_path(config, task), spec_config_uses_saf(config), spec_check_uri(config), l, spec_check_view(r))
}


/// The most retries of one quality before it is given up or downgraded.
pub const MAX_RETRIES: u32 = 3;

/// The message of a task created for a quality the song does not offer.
pub open spec fn quality_unavailable_message() -> Seq<char> {
    "所选音质不可用"@
}

/// The message when a task that is neither waiting nor downloading is paused.
pub open spec fn not_pausable_message() -> Seq<char> {
    "只有等待或下载中的任务可以暂停"@
}

/// The message when a task that is neither paused nor interrupted is resumed.
pub open spec fn not_resumable_message() -> Seq<char> {
    "只有暂停或中断的任务可以恢复"@
}

/// The message when the retries of every quality are spent.
pub open spec fn retries_exhausted_message() -> Seq<char> {
    "重试次数已用尽"@
}

/// The message when an old task has no list of qualities to downgrade along.
pub open spec fn no_qualities_message() -> Seq<char> {
    "旧任务缺少可用品质信息，请重新添加下载"@
}

/// The message when no lower quality is left.
pub open spec fn no_next_quality_message() -> Seq<char> {
    "已无后续可用品质"@
}

/// The message when the downgraded file exists and the strategy is to cancel.
pub open spec fn downgrade_target_exists_message() -> Seq<char> {
    "降级目标文件已存在"@
}

/// The message of a task whose worker could not be started.
pub open spec fn spec_start_failure_message(error: Seq<char>) -> Seq<char> {
    "启动下载失败: "@ + error
}

/// A task id: the creation time in milliseconds and a random number, both in
/// lower-case hexadecimal, joined by `-`.
pub open spec fn spec_task_id(now: u64, nonce: u64) -> Seq<char> {
    spec_hex(now as nat) + "-"@ + spec_hex(nonce as nat)
}

/// The action that the duplicate strategy setting names, if any (`ask` names
/// none: the user is asked).
pub open spec fn spec_strategy_action(strategy: Seq<char>) -> Option<DuplicateAction> {
    if strategy == "overwrite"@ {
        Some(DuplicateAction::Overwrite)
    } else if strategy == "rename"@ {
        Some(DuplicateAction::Rename)
    } else if strategy == "cancel"@ {
        Some(DuplicateAction::Cancel)
    } else {
        None
    }
}

/// The action for a taken target: the one in the request, else the strategy's.
pub open spec fn spec_duplicate_action(explicit: Option<DuplicateAction>, strategy: Seq<char>) -> Option<DuplicateAction> {
    match explicit {
        Some(a) => Some(a),
        None => spec_strategy_action(strategy),
    }
}

/// A new task for a request, before its target path is chosen: waiting for
/// the selected quality, or an error when the song does not offer one.
pub open spec fn spec_new_task(request: CreateTaskRequest, selected: Option<QualityItem>, id: Seq<char>, now: u64) -> TaskRecordView {
    TaskRecordView {
        id: id,
        platform: request.song.platform@,
        song_id: request.song.id,
        song_mid: request.song.mid@,
        song_title: request.song.title@,
        artist: request.song.artist@,
        album: request.song.album@,
        cover_url: request.song.cover_url@,
        media_mid: request.song.media_mid@,
        filename: match selected {
            Some(q) => q.filename@,
            None => Seq::empty(),
        },
        quality: match selected {
            Some(q) => q.quality@,
            None => request.desired_quality@,
        },
        status: if selected is Some {
            TaskStatus::Waiting
        } else {
            TaskStatus::Error
        },
        error_msg: if selected is Some {
            None
        } else {
            Some(quality_unavailable_message())
        },
        file_path: None,
        file_size: match selected {
            Some(q) => q.size,
            None => 0,
        },
        downloaded: 0,
        retry_count: 0,
        added_at: now,
        available_qualities: Some(qualities_view(request.song.qualities@)),
        speed: None,
        save_path: None,
    }
}

/// A task that is retried in its own quality, resuming at `downloaded`.
pub open spec fn spec_requeued(t: TaskRecordView, downloaded: u64) -> TaskRecordView {
    TaskRecordView {
        retry_count: (t.retry_count + 1) as u32,
        downloaded: downloaded,
        error_msg: None,
        status: TaskStatus::Waiting,
        ..t
    }
}

/// A task whose retries are spent, with the reason it stays failed.
pub open spec fn spec_given_up(t: TaskRecordView, message: Seq<char>) -> TaskRecordView {
    TaskRecordView { retry_count: (t.retry_count + 1) as u32, error_msg: Some(message), ..t }
}

/// A task downgraded to the next quality, starting afresh at `path`.
pub open spec fn spec_downgraded(t: TaskRecordView, next: QualityItemView, path: Seq<char>) -> TaskRecordView {
    TaskRecordView {
        quality: next.quality,
        filename: next.filename,
        file_size: next.size,
        downloaded: 0,
        retry_count: 0,
        save_path: Some(path),
        error_msg: None,
        status: TaskStatus::Waiting,
        ..t
    }
}

/// What task creation does once it knows whether the target is taken.
#[derive(Debug, Clone, Copy, PartialEq, Eq, Structural)]
pub enum CreationStep {
    /// The target is free: store the task at it.
    Create,
    /// Ask the user first; nothing is stored.
    AskUser,
    /// The user or the strategy cancels; nothing is stored.
    Cancel,
    /// Store the task at a free numbered path.
    Rename,
    /// Store the task at the taken target, replacing the file there.
    Overwrite,
    /// Overwriting is refused while another task downloads to the target.
    RefuseOverwrite,
}

/// The step for a target that exists on disk or is reserved by an unfinished
/// task: the action in the request, else the strategy's, else asking.
pub open spec fn spec_creation_step(
    exists: bool,
    reserved: bool,
    explicit: Option<DuplicateAction>,
    strategy: Seq<char>,
) -> CreationStep {
    if !exists && !reserved {
        CreationStep::Create
    } else {
        match spec_duplicate_action(explicit, strategy) {
            None => CreationStep::AskUser,
            Some(DuplicateAction::Cancel) => CreationStep::Cancel,
            Some(DuplicateAction::Rename) => CreationStep::Rename,
            Some(DuplicateAction::Overwrite) => if reserved {
                CreationStep::RefuseOverwrite
            } else {
                CreationStep::Overwrite
            },
        }
    }
}

/// The message when overwriting a target that another task downloads to.
pub open spec fn busy_target_message() -> Seq<char> {
    "同名任务正在下载，请选择保留两份"@
}

/// The task `x` is handed to the repository with the list: saved and returned,
/// or the save failed, or its id was taken and nothing was asked.
pub open spec fn spec_stored_or_failed<R: TaskRepository, E: TaskEventSink>(
    a: TaskState<R, E>,
    b: TaskState<R, E>,
    r: Result<CreateTaskResult, String>,
    x: TaskRecordView,
) -> bool {
    ||| (r matches Ok(CreateTaskResult::Created { task }) && task@ == x && spec_written(a, b, a.tasks().push(x)))
    ||| (r is Err && spec_write_failed(a, b, a.tasks().push(x)))
    ||| (r is Err && r->Err_0@ == duplicate_id_message() && spec_position(a.tasks(), x.id) is Some
        && spec_untouched(a, b))
}

/// What creation returns after the path check `c` for the new task `t`.
pub open spec fn spec_creation_outcome<R: TaskRepository, E: TaskEventSink>(
    a: TaskState<R, E>,
    b: TaskState<R, E>,
    r: Result<CreateTaskResult, String>,
    t: TaskRecordView,
    c: PathCheck,
    explicit: Option<DuplicateAction>,
    strategy: Seq<char>,
) -> bool {
    let reserved = spec_path_reserved(a.tasks(), c.original_path@);
    match spec_creation_step(c.exists, reserved, explicit, strategy) {
        CreationStep::AskUser => r matches Ok(CreateTaskResult::NeedsConfirmation { song_title })
            && song_title@ == t.song_title && spec_untouched(a, b),
        CreationStep::Cancel => r matches Ok(CreateTaskResult::Cancelled) && spec_untouched(a, b),
        CreationStep::RefuseOverwrite => r is Err && r->Err_0@ == busy_target_message() && spec_untouched(a, b),
        CreationStep::Create => spec_stored_or_failed(a, b, r, TaskRecordView { save_path: Some(c.original_path@), ..t }),
        CreationStep::Overwrite => spec_stored_or_failed(
            a,
            b,
            r,
            TaskRecordView { save_path: Some(c.original_path@), ..t },
        ),
        CreationStep::Rename => (r is Err && spec_path_error(r->Err_0@) && spec_untouched(a, b)) || exists|p: Seq<char>|
            #[trigger] spec_renamed_to(a, c, p) && spec_stored_or_failed(
                a,
                b,
                r,
                TaskRecordView { save_path: Some(p), ..t },
            ),
    }
}

/// Task creation after the path check `c`, with the questions the search for
/// a free name asked the runtime: a rename takes the path that search chose
/// over the runtime's answers (`spec_unique_log`); the other steps ask nothing.
pub open spec fn spec_creation_logged<R: TaskRepository, E: TaskEventSink>(
    a: TaskState<R, E>,
    b: TaskState<R, E>,
    r: Result<CreateTaskResult, String>,
    t: TaskRecordView,
    c: PathCheck,
    explicit: Option<DuplicateAction>,
    strategy: Seq<char>,
    l: Seq<DiskQuery>,
) -> bool {
    let step = spec_creation_step(c.exists, spec_path_reserved(a.tasks(), c.original_path@), explicit, strategy);
    if step is Rename {
        exists|u: Result<Seq<char>, Seq<char>>|
            #[trigger] spec_unique_log(
                a.tasks(),
                c.original_path@,
                c.suggested_path@,
                c.is_saf,
                opt_string(c.saf_folder_uri),
                l,
                u,
            ) && match u {
                Err(m) => r is Err && r->Err_0@ == m && spec_untouched(a, b),
                Ok(p) => spec_stored_or_failed(a, b, r, TaskRecordView { save_path: Some(p), ..t }),
            }
    } else {
        l.len() == 0 && spec_creation_outcome(a, b, r, t, c, explicit, strategy)
    }
}

/// Task creation for a selected quality over the runtime's answers: the path
/// check of the new task `t` asked `l1` (under the settings then in force),
/// and what follows asked `l2`.
pub open spec fn spec_created_after_check<R: TaskRepository, E: TaskEventSink>(
    a: TaskState<R, E>,
    b: TaskState<R, E>,
    r: Result<CreateTaskResult, String>,
    t: TaskRecord,
    l1: Seq<DiskQuery>,
    l2: Seq<DiskQuery>,
    check: Result<PathCheck, String>,
    explicit: Option<DuplicateAction>,
    strategy: Seq<char>,
) -> bool {
    &&& spec_task_checked(t, l1, check)
    &&& match check {
        Err(m) => l2.len() == 0 && r is Err && r->Err_0@ == m@ && spec_untouched(a, b),
        Ok(c) => spec_creation_logged(a, b, r, t@, c, explicit, strategy, l2),
    }
}

/// The task whose path a downgrade checks: the next quality, from the start,
/// with no path yet.
pub open spec fn spec_downgrade_probe(t: TaskRecordView, q: QualityItemView) -> TaskRecordView {
    TaskRecordView {
        quality: q.quality,
        filename: q.filename,
        file_size: q.size,
        downloaded: 0,
        retry_count: 0,
        save_path: None,
        ..t
    }
}

/// A downgrade stored at `p`: saved as waiting and returned, or the save
/// failed and the state is as it was.
pub open spec fn spec_downgrade_at<R: TaskRepository, E: TaskEventSink>(
    a: TaskState<R, E>,
    b: TaskState<R, E>,
    r: Result<RetryOutcome, String>,
    i: int,
    t: TaskRecordView,
    q: QualityItemView,
    p: Seq<char>,
) -> bool {
    let n = spec_downgraded(t, q, p);
    (r matches Ok(RetryOutcome::Downgraded(x)) && x@ == n && spec_written(a, b, a.tasks().update(i, n))) || (r is Err
        && spec_write_failed(a, b, a.tasks().update(i, n)))
}

/// A downgrade over the runtime's answers: the path check of the probe `t2`
/// asked `l1`; a free target is taken as it is; a taken one is refused under
/// `cancel`, replaced under `overwrite` when no task holds it, and otherwise
/// a free name is searched for, asking `l2`.
pub open spec fn spec_downgrade_logged<R: TaskRepository, E: TaskEventSink>(
    a: TaskState<R, E>,
    b: TaskState<R, E>,
    r: Result<RetryOutcome, String>,
    i: int,
    t: TaskRecordView,
    q: QualityItemView,
    t2: TaskRecord,
    l1: Seq<DiskQuery>,
    l2: Seq<DiskQuery>,
    check: Result<PathCheck, String>,
    strategy: Seq<char>,
) -> bool {
    &&& spec_task_checked(t2, l1, check)
    &&& match check {
        Err(m) => l2.len() == 0 && r is Err && r->Err_0@ == m@ && spec_untouched(a, b),
        Ok(c) => {
            let reserved = spec_path_reserved(a.tasks(), c.original_path@);
            if !(c.exists || reserved) {
                l2.len() == 0 && spec_downgrade_at(a, b, r, i, t, q, c.original_path@)
            } else if strategy == "cancel"@ {
                l2.len() == 0 && spec_given_up_outcome(
                    a,
                    b,
                    r,
                    a.tasks().update(i, TaskRecordView { error_msg: Some(downgrade_target_exists_message()), ..t }),
                )
            } else if strategy == "overwrite"@ && !reserved {
                l2.len() == 0 && spec_downgrade_at(a, b, r, i, t, q, c.original_path@)
            } else {
                exists|u: Result<Seq<char>, Seq<char>>|
                    #[trigger] spec_unique_log(
                        a.tasks(),
                        c.original_path@,
                        c.suggested_path@,
                        c.is_saf,
                        opt_string(c.saf_folder_uri),
                        l2,
                        u,
                    ) && match u {
                        Err(m) => r is Err && r->Err_0@ == m && spec_untouched(a, b),
                        Ok(p) => spec_downgrade_at(a, b, r, i, t, q, p),
                    }
            }
        },
    }
}

/// A numbered path for a taken target: free of unfinished tasks, and the
/// check's suggestion or a numbered candidate.
pub open spec fn spec_renamed_to<R: TaskRepository, E: TaskEventSink>(a: TaskState<R, E>, c: PathCheck, p: Seq<char>) -> bool {
    !spec_path_reserved(a.tasks(), p) && (p == c.suggested_path@ || exists|n: nat|
        1 <= n <= MAX_NAME_NUMBER && p == #[trigger] spec_unique_candidate(c.original_path@, n, c.is_saf))
}

/// Whether the state's tasks, saves and announcements are as they were.
pub open spec fn spec_state_kept<R: TaskRepository, E: TaskEventSink>(a: TaskState<R, E>, b: TaskState<R, E>) -> bool {
    a.tasks() == b.tasks() && a.saves() == b.saves() && a.events() == b.events()
}

/// A task that is not retried: the list `next` is handed to the repository and
/// either saved, with `NotRetried`, or the save failed with an error.
pub open spec fn spec_given_up_outcome<R: TaskRepository, E: TaskEventSink>(
    a: TaskState<R, E>,
    b: TaskState<R, E>,
    r: Result<RetryOutcome, String>,
    next: Seq<TaskRecordView>,
) -> bool {
    (r is Ok && r->Ok_0 is NotRetried && spec_written(a, b, next)) || (r is Err && spec_write_failed(a, b, next))
}

/// Nothing changed and nothing was handed to the repository.
pub open spec fn spec_untouched<R: TaskRepository, E: TaskEventSink>(a: TaskState<R, E>, b: TaskState<R, E>) -> bool {
    spec_state_kept(a, b) && b.save_requests() == a.save_requests()
}

/// The list `next` was handed to the repository, saved, and is the new list.
pub open spec fn spec_written<R: TaskRepository, E: TaskEventSink>(
    a: TaskState<R, E>,
    b: TaskState<R, E>,
    next: Seq<TaskRecordView>,
) -> bool {
    &&& b.save_requests() == a.save_requests().push(next)
    &&& b.tasks() == next
    &&& b.saves() == a.saves().push(next)
}

/// The list `next` was handed to the repository, the save failed, and the
/// state is as it was.
pub open spec fn spec_write_failed<R: TaskRepository, E: TaskEventSink>(
    a: TaskState<R, E>,
    b: TaskState<R, E>,
    next: Seq<TaskRecordView>,
) -> bool {
    b.save_requests() == a.save_requests().push(next) && spec_state_kept(a, b)
}

/// An interrupted task queued again at offset `downloaded`.
pub open spec fn spec_restarted_task(t: TaskRecordView, downloaded: u64) -> TaskRecordView {
    TaskRecordView { status: TaskStatus::Waiting, downloaded: downloaded, speed: None, error_msg: None, ..t }
}

/// Whether an error is one of the path choice's own: no free numbered name, no
/// file name, or no directory.
pub open spec fn spec_path_error(e: Seq<char>) -> bool {
    e == no_free_name_message() || e == invalid_file_name_message() || e == invalid_directory_message()
}

/// A random number from the thread's generator.
#[verifier::external_body]
fn random_u64() -> (r: u64) {
    rand::random::<u64>()
}

/// The action for a taken target: the one in the request, else the strategy's.
pub fn duplicate_action(explicit: Option<DuplicateAction>, strategy: &str) -> (r: Option<DuplicateAction>)
    ensures
        r == spec_duplicate_action(explicit, strategy@),
{
    match explicit {
        Some(a) => Some(a),
        None => {
            let s = str_chars(strategy);
            let overwrite = str_chars("overwrite");
            let rename = str_chars("rename");
            let cancel = str_chars("cancel");
            if crate::text::chars_eq(s.as_slice(), overwrite.as_slice()) {
                Some(DuplicateAction::Overwrite)
            } else if crate::text::chars_eq(s.as_slice(), rename.as_slice()) {
                Some(DuplicateAction::Rename)
            } else if crate::text::chars_eq(s.as_slice(), cancel.as_slice()) {
                Some(DuplicateAction::Cancel)
            } else {
                None
            }
        },
    }
}

/// The step of task creation once it is known whether the target exists on
/// disk and whether an unfinished task reserves it.
pub fn creation_step(exists: bool, reserved: bool, explicit: Option<DuplicateAction>, strategy: &str) -> (r:
    CreationStep)
    ensures
        r == spec_creation_step(exists, reserved, explicit, strategy@),
{
    if !exists && !reserved {
        return CreationStep::Create;
    }
    match duplicate_action(explicit, strategy) {
        None => CreationStep::AskUser,
        Some(DuplicateAction::Cancel) => CreationStep::Cancel,
        Some(DuplicateAction::Rename) => CreationStep::Rename,
        Some(DuplicateAction::Overwrite) => if reserved {
            CreationStep::RefuseOverwrite
        } else {
            CreationStep::Overwrite
        },
    }
}

/// A task id from the creation time and a random number.
pub fn task_id(now: u64, nonce: u64) -> (r: String)
    ensures
        r@ == spec_task_id(now, nonce),
{
    proof {
        reveal_strlit("-");
    }
    let mut out: Vec<char> = Vec::new();
    push_hex(now, &mut out);
    out.push('-');
    push_hex(nonce, &mut out);
    assert(out@ =~= spec_task_id(now, nonce));
    string_from_chars(out.as_slice())
}

/// The message of a task whose worker could not be started.
pub fn start_failure_message(error: &str) -> (r: String)
    ensures
        r@ == spec_start_failure_message(error@),
{
    let mut message = String::from_str("启动下载失败: ");
    message.append(error);
    message
}

/// A new task for a request, before its target path is chosen.
pub fn new_task_record(request: CreateTaskRequest, selected: &Option<QualityItem>, id: String, now: u64) -> (r:
    TaskRecord)
    ensures
        r@ == spec_new_task(request, *selected, id@, now),
{
    let available = copy_qualities(&request.song.qualities);
    let (filename, quality, status, error_msg, file_size) = match selected {
        Some(q) => (q.filename.clone(), q.quality.clone(), TaskStatus::Waiting, None, q.size),
        None => (
            String::new(),
            request.desired_quality.clone(),
            TaskStatus::Error,
            Some(String::from_str("所选音质不可用")),
            0,
        ),
    };
    TaskRecord {
        id,
        platform: request.song.platform,
        song_id: request.song.id,
        song_mid: request.song.mid,
        song_title: request.song.title,
        artist: request.song.artist,
        album: request.song.album,
        cover_url: request.song.cover_url,
        media_mid: request.song.media_mid,
        filename,
        quality,
        status,
        error_msg,
        file_path: None,
        file_size,
        downloaded: 0,
        retry_count: 0,
        added_at: now,
        available_qualities: Some(available),
        speed: None,
        save_path: None,
    }
}

/// Whether a path is absolute.
fn is_absolute_path(p: &str) -> (r: bool)
    ensures
        r == spec_is_absolute(p@),
{
    let chars = str_chars(p);
    chars.len() > 0 && chars[0] == '/'
}

/// The offset a task resumes at, given the length measured on disk: the length
/// when there is one and it does not exceed a known total, else 0.
pub open spec fn spec_offset_from_len(file_size: u64, measured: Option<u64>) -> u64 {
    match measured {
        Some(n) => if file_size == 0 || n <= file_size {
            n
        } else {
            0
        },
        None => 0,
    }
}

/// The offset a task resumes at, given the length measured on disk: a file
/// longer than the expected total cannot be appended to.
pub fn offset_from_len(file_size: u64, measured: Option<u64>) -> (r: u64)
    ensures
        r == spec_offset_from_len(file_size, measured),
{
    match measured {
        Some(n) => if file_size == 0 || n <= file_size {
            n
        } else {
            0
        },
        None => 0,
    }
}

/// Where a task resumes: the length of its file on disk, or 0 when the file
/// cannot be measured (a SAF file) or is longer than the expected total, which
/// appending would corrupt. The length is the runtime's answer at the time of
/// the call, so the contract states the offset for whichever answer it gave.
pub fn resume_offset<V: TaskEnvironment>(environment: &mut AskedEnvironment<V>, task: &TaskRecord) -> (r: u64)
    ensures
        r == 0 || task.file_size == 0 || r <= task.file_size,
        exists|measured: Option<u64>| r == #[trigger] spec_offset_from_len(task.file_size, measured),
{
    let measured = measured_length(environment, task);
    let r = offset_from_len(task.file_size, measured);
    assert(r == spec_offset_from_len(task.file_size, measured));
    r
}

/// The measuring of a task's file, over the questions asked and the answers:
/// a stored absolute path is measured as it is; otherwise the path check is
/// made, and the path it reports is measured unless it is a SAF path (which
/// cannot be measured) or the check found no name; then the length is
/// unknown.
pub open spec fn spec_measured(task: TaskRecord, l: Seq<DiskQuery>, r: Option<u64>) -> bool {
    let stored_absolute = match task.save_path {
        Some(p) => spec_is_absolute(p@),
        None => false,
    };
    if stored_absolute {
        l == seq![DiskQuery::Length { path: task.save_path->0@, is_saf: false, length: r }]
    } else {
        exists|k: int, c: Result<PathCheck, String>|
            #![trigger spec_task_checked(task, l.take(k), c)]
            0 <= k <= l.len() && spec_task_checked(task, l.take(k), c) && match c {
                Ok(pc) => if pc.is_saf {
                    l.len() == k && r is None
                } else {
                    l.len() == k + 1 && l[k] == DiskQuery::Length { path: pc.original_path@, is_saf: false, length: r }
                },
                Err(_) => l.len() == k && r is None,
            }
    }
}

/// The length of a task's file on disk as the runtime reports it: the file at
/// its stored absolute path, else at the path the current settings give it;
/// `None` for a SAF file, which cannot be measured, or when the runtime reports
/// no length. `spec_measured` states which path is measured.
pub fn measured_length<V: TaskEnvironment>(environment: &mut AskedEnvironment<V>, task: &TaskRecord) -> (r: Option<u64>)
    ensures
        spec_extends(old(environment).queries(), final(environment).queries()),
        spec_measured(*task, final(environment).queries().skip(old(environment).queries().len() as int), r),
{
    let ghost start = environment.queries();
    match &task.save_path {
        Some(p) => if is_absolute_path(p.as_str()) {
            let r = environment.file_len(p.as_str(), false);
            assert(environment.queries().skip(start.len() as int) =~= seq![environment.queries().last()]);
            assert(environment.queries().take(start.len() as int) =~= start);
            return r;
        },
        None => {},
    }
    let check = task_path_check(environment, task);
    let ghost mid = environment.queries();
    let ghost l1 = mid.skip(start.len() as int);
    match check {
        Ok(c) => if !c.is_saf {
            let r = environment.file_len(c.original_path.as_str(), false);
            proof {
                let l = environment.queries().skip(start.len() as int);
                assert(l.take(l1.len() as int) =~= l1);
                assert(environment.queries().take(start.len() as int) =~= start);
                assert(spec_task_checked(*task, l.take(l1.len() as int), Ok::<PathCheck, String>(c)));
            }
            r
        } else {
            proof {
                let l = environment.queries().skip(start.len() as int);
                assert(l.take(l1.len() as int) =~= l1);
                assert(spec_task_checked(*task, l.take(l1.len() as int), Ok::<PathCheck, String>(c)));
            }
            None
        },
        Err(e) => {
            proof {
                let l = environment.queries().skip(start.len() as int);
                assert(l.take(l1.len() as int) =~= l1);
                assert(spec_task_checked(*task, l.take(l1.len() as int), Err::<PathCheck, String>(e)));
            }
            None
        },
    }
}

/// The final path that the engine must know of before a task is removed: its
/// completed file, else its target path when that is absolute.
pub fn remembered_final_path(task: &TaskRecord) -> (r: Option<String>)
    ensures
        match task.file_path {
            Some(p) => r is Some && r->0@ == p@,
            None => match task.save_path {
                Some(p) => if spec_is_absolute(p@) {
                    r is Some && r->0@ == p@
                } else {
                    r is None
                },
                None => r is None,
            },
        },
{
    match &task.file_path {
        Some(p) => Some(p.clone()),
        None => match &task.save_path {
            Some(p) => if is_absolute_path(p.as_str()) {
                Some(p.clone())
            } else {
                None
            },
            None => None,
        },
    }
}

impl BatchResult {
    /// A batch with nothing done yet.
    pub fn empty() -> (r: BatchResult)
        ensures
            r.succeeded == 0 && r.failed == 0 && r.errors@.len() == 0,
    {
        BatchResult { succeeded: 0, failed: 0, errors: Vec::new() }
    }

    /// Counts one task's outcome; a failure keeps the task id with its message.
    pub fn record(&mut self, task_id: &str, outcome: Result<(), String>)
        requires
            old(self).succeeded + old(self).failed < usize::MAX,
        ensures
            outcome is Ok ==> final(self).succeeded == old(self).succeeded + 1 && final(self).failed == old(
                self,
            ).failed && final(self).errors@ == old(self).errors@,
            outcome is Err ==> final(self).failed == old(self).failed + 1 && final(self).succeeded == old(
                self,
            ).succeeded && final(self).errors@.len() == old(self).errors@.len() + 1 && (forall|k: int|
                0 <= k < old(self).errors@.len() ==> final(self).errors@[k] == old(self).errors@[k])
                && final(self).errors@[old(self).errors@.len() as int]@ == task_id@ + ": "@ + outcome->Err_0@,
    {
        match outcome {
            Ok(()) => {
                self.succeeded = self.succeeded + 1;
            },
            Err(e) => {
                proof {
                    reveal_strlit(": ");
                }
                let mut message = String::from_str(task_id);
                message.append(": ");
                message.append(e.as_str());
                self.errors.push(message);
                self.failed = self.failed + 1;
            },
        }
    }
}

/// What resuming a task asks of the engine.
#[derive(Debug)]
pub enum ResumeStep {
    /// The paused worker keeps its context and simply continues.
    Continue,
    /// The task was interrupted by a restart: its worker must be built anew.
    Restart,
}

/// What a retry asks of the engine.
#[derive(Debug)]
pub enum RetryOutcome {
    /// Nothing to start: the task was not failed, or it stays failed.
    NotRetried,
    /// The task moved to the next quality; its worker must be built anew.
    Downgraded(TaskRecord),
    /// The task retries its quality from the measured offset.
    Requeued(TaskRecord),
}

/// Task commands for one runtime. Each command borrows the task state; the
/// runtime serializes commands and drives the download engine around them.
pub struct TaskService<'a, V: TaskEnvironment> {
    pub environment: AskedEnvironment<'a, V>,
}

impl<'a, V: TaskEnvironment> TaskService<'a, V> {
    /// A service that asks the given runtime about files and settings.
    pub fn new(environment: &'a V) -> (r: Self)
        ensures
            r.environment.queries() == Seq::<DiskQuery>::empty(),
    {
        TaskService { environment: AskedEnvironment::new(environment) }
    }

    /// Every task, in order.
    pub fn load_tasks<R: TaskRepository, E: TaskEventSink>(&self, state: &TaskState<R, E>) -> (r: Vec<TaskRecord>)
        ensures
            crate::contract::records_view(r@) == state.tasks(),
    {
        state.list()
    }

    /// Creates a task for a song. A quality the song does not offer still gives
    /// a visible failed task. When the target path is taken, on disk or by an
    /// unfinished task, the action in the request or else the duplicate strategy
    /// decides: ask the user (nothing is stored), cancel, rename to a free
    /// numbered path, or overwrite, which is refused while another task
    /// downloads to that path. The task is stored before it is returned; the
    /// runtime then hands a waiting task to the engine.
    pub fn create_download_task<R: TaskRepository, E: TaskEventSink>(
        &mut self,
        state: &mut TaskState<R, E>,
        request: CreateTaskRequest,
        selected: Option<QualityItem>,
        duplicate_strategy: &str,
        now: u64,
    ) -> (r: Result<CreateTaskResult, String>)
        ensures
            platform_of_name(request.song.platform@) is None ==> r is Err && r->Err_0@
                == unsupported_platform_message(request.song.platform@) && spec_untouched(*old(state), *final(state)),
            r is Err ==> final(state).tasks() == old(state).tasks(),
            r is Ok && !(r->Ok_0 is Created) ==> spec_state_kept(*old(state), *final(state)),
            r matches Ok(CreateTaskResult::NeedsConfirmation { song_title }) ==> song_title@ == request.song.title@
                && selected is Some && spec_duplicate_action(request.duplicate_action, duplicate_strategy@) is None,
            r matches Ok(CreateTaskResult::Cancelled) ==> selected is Some && spec_duplicate_action(
                request.duplicate_action,
                duplicate_strategy@,
            ) == Some(DuplicateAction::Cancel),
            r matches Ok(CreateTaskResult::Created { task }) ==> {
                &&& platform_of_name(request.song.platform@) is Some
                &&& exists|nonce: u64| #[trigger] spec_task_id(now, nonce) == task@.id && task@ == TaskRecordView {
                    save_path: task@.save_path,
                    ..spec_new_task(request, selected, spec_task_id(now, nonce), now)
                }
                &&& final(state).tasks() == old(state).tasks().push(task@)
                &&& selected is None ==> task@.save_path is None
                &&& selected is Some ==> task@.save_path is Some && !spec_path_reserved(
                    old(state).tasks(),
                    task@.save_path->0,
                )
            },
            platform_of_name(request.song.platform@) is Some && selected is None ==> exists|nonce: u64|
                spec_stored_or_failed(
                    *old(state),
                    *final(state),
                    r,
                    #[trigger] spec_new_task(request, selected, spec_task_id(now, nonce), now),
                ),
            platform_of_name(request.song.platform@) is Some && selected is Some ==> (r is Err && r->Err_0@
                == no_free_name_message() && spec_untouched(*old(state), *final(state))) || exists|
                t: TaskRecord,
                c: PathCheck,
            |
                #![trigger spec_creation_outcome(*old(state), *final(state), r, t@, c, request.duplicate_action, duplicate_strategy@)]
                (exists|nonce: u64| t@ == #[trigger] spec_new_task(request, selected, spec_task_id(now, nonce), now))
                    && (exists|config: DownloadConfig| #[trigger] spec_path_check_fits(config, t, c))
                    && spec_creation_outcome(
                    *old(state),
                    *final(state),
                    r,
                    t@,
                    c,
                    request.duplicate_action,
                    duplicate_strategy@,
                ),
            platform_of_name(request.song.platform@) is None || selected is None ==> final(self).environment.queries()
                == old(self).environment.queries(),
            platform_of_name(request.song.platform@) is Some && selected is Some ==> exists|
                t: TaskRecord,
                l1: Seq<DiskQuery>,
                l2: Seq<DiskQuery>,
                check: Result<PathCheck, String>,
            |
                #![trigger spec_created_after_check(*old(state), *final(state), r, t, l1, l2, check, request.duplicate_action, duplicate_strategy@)]
                (exists|nonce: u64| t@ == #[trigger] spec_new_task(request, selected, spec_task_id(now, nonce), now))
                    && final(self).environment.queries() == old(self).environment.queries() + l1 + l2
                    && spec_created_after_check(
                    *old(state),
                    *final(state),
                    r,
                    t,
                    l1,
                    l2,
                    check,
                    request.duplicate_action,
                    duplicate_strategy@,
                ),
    {
        match Platform::from_str(request.song.platform.as_str()) {
            Ok(_) => {},
            Err(e) => return Err(e),
        }
        let ghost before = *state;
        let explicit = request.duplicate_action;
        let nonce = random_u64();
        let id = task_id(now, nonce);
        let ghost req = request;
        let mut task = new_task_record(request, &selected, id, now);
        let ghost t0 = task;
        assert(task@ == spec_new_task(req, selected, spec_task_id(now, nonce), now));
        let ghost q0 = self.environment.queries();
        if selected.is_some() {
            let checked = task_path_check(&mut self.environment, &task);
            let ghost cr = checked;
            let ghost q1 = self.environment.queries();
            let ghost l1 = q1.skip(q0.len() as int);
            assert(q1 =~= q0 + l1);
            let ghost strat = duplicate_strategy@;
            let check = match checked {
                Ok(c) => c,
                Err(e) => {
                    let r: Result<CreateTaskResult, String> = Err(e);
                    assert(self.environment.queries() =~= q0 + l1 + Seq::<DiskQuery>::empty());
                    assert(spec_created_after_check(before, *state, r, t0, l1, Seq::<DiskQuery>::empty(), cr, explicit, strat));
                    return r;
                },
            };
            let ghost c0 = check;
            let reserved = state.path_reserved(check.original_path.as_str());
            let step = creation_step(check.exists, reserved, explicit, duplicate_strategy);
            proof {
                if let DiskQuery::Settings { config } = l1[0] {
                    assert(spec_path_check_fits(config, t0, c0));
                }
            }
            match step {
                CreationStep::AskUser => {
                    let r = Ok(CreateTaskResult::NeedsConfirmation { song_title: task.song_title });
                    assert(spec_creation_outcome(before, *state, r, t0@, c0, explicit, duplicate_strategy@));
                    assert(self.environment.queries() =~= q0 + l1 + Seq::<DiskQuery>::empty());
                    assert(spec_created_after_check(before, *state, r, t0, l1, Seq::<DiskQuery>::empty(), cr, explicit, strat));
                    return r;
                },
                CreationStep::Cancel => {
                    let r = Ok(CreateTaskResult::Cancelled);
                    assert(spec_creation_outcome(before, *state, r, t0@, c0, explicit, duplicate_strategy@));
                    assert(self.environment.queries() =~= q0 + l1 + Seq::<DiskQuery>::empty());
                    assert(spec_created_after_check(before, *state, r, t0, l1, Seq::<DiskQuery>::empty(), cr, explicit, strat));
                    return r;
                },
                CreationStep::RefuseOverwrite => {
                    let r = Err(String::from_str("同名任务正在下载，请选择保留两份"));
                    proof {
                        reveal_strlit("同名任务正在下载，请选择保留两份");
                    }
                    assert(spec_creation_outcome(before, *state, r, t0@, c0, explicit, duplicate_strategy@));
                    assert(self.environment.queries() =~= q0 + l1 + Seq::<DiskQuery>::empty());
                    assert(spec_created_after_check(before, *state, r, t0, l1, Seq::<DiskQuery>::empty(), cr, explicit, strat));
                    return r;
                },
                CreationStep::Rename => {
                    let uri: Option<&str> = match &check.saf_folder_uri {
                        Some(u) => Some(u.as_str()),
                        None => None,
                    };
                    assert(opt_text(uri) == opt_string(c0.saf_folder_uri));
                    let unique = unique_path(
                        state,
                        &mut self.environment,
                        check.original_path.as_str(),
                        check.suggested_path.as_str(),
                        check.is_saf,
                        uri,
                    );
                    let ghost ur = result_view(unique);
                    let ghost l2 = self.environment.queries().skip(q1.len() as int);
                    assert(self.environment.queries() =~= q0 + l1 + l2);
                    assert(spec_unique_log(
                        before.tasks(),
                        c0.original_path@,
                        c0.suggested_path@,
                        c0.is_saf,
                        opt_string(c0.saf_folder_uri),
                        l2,
                        ur,
                    ));
                    let path = match unique {
                        Ok(p) => p,
                        Err(e) => {
                            let r: Result<CreateTaskResult, String> = Err(e);
                            assert(spec_creation_outcome(before, *state, r, t0@, c0, explicit, duplicate_strategy@));
                            assert(spec_created_after_check(before, *state, r, t0, l1, l2, cr, explicit, strat));
                            return r;
                        },
                    };
                    let ghost pv = path@;
                    task.save_path = Some(path);
                    let r = self.store(state, task);
                    assert(spec_renamed_to(before, c0, pv));
                    assert(spec_creation_outcome(before, *state, r, t0@, c0, explicit, duplicate_strategy@));
                    assert(spec_created_after_check(before, *state, r, t0, l1, l2, cr, explicit, strat));
                    return r;
                },
                _ => {
                    task.save_path = Some(check.original_path);
                    let r = self.store(state, task);
                    assert(spec_creation_outcome(before, *state, r, t0@, c0, explicit, duplicate_strategy@));
                    assert(self.environment.queries() =~= q0 + l1 + Seq::<DiskQuery>::empty());
                    assert(spec_created_after_check(before, *state, r, t0, l1, Seq::<DiskQuery>::empty(), cr, explicit, strat));
                    return r;
                },
            }
        }
        let r = self.store(state, task);
        assert(spec_stored_or_failed(before, *state, r, spec_new_task(req, selected, spec_task_id(now, nonce), now)));
        r
    }

    /// Stores a new task and returns it as created.
    fn store<R: TaskRepository, E: TaskEventSink>(&self, state: &mut TaskState<R, E>, task: TaskRecord) -> (r:
        Result<CreateTaskResult, String>)
        ensures
            spec_stored_or_failed(*old(state), *final(state), r, task@),
            r is Err ==> final(state).tasks() == old(state).tasks(),
            r matches Ok(CreateTaskResult::Created { task: n }) ==> n@ == task@ && final(state).tasks() == old(
                state,
            ).tasks().push(task@),
    {
        let stored = task.duplicate();
        match state.insert(stored) {
            Ok(()) => {},
            Err(e) => return Err(e),
        }
        Ok(CreateTaskResult::Created { task })
    }

    /// Ends the cancellation of a task once the engine has stopped it and,
    /// when asked, removed its file: `removal` is that outcome. A failed
    /// removal marks an unfinished task failed with the message and is
    /// returned; otherwise the task is removed from the list.
    pub fn cancel_task<R: TaskRepository, E: TaskEventSink>(
        &self,
        state: &mut TaskState<R, E>,
        task_id: &str,
        removal: Result<(), String>,
    ) -> (r: Result<(), String>)
        ensures
            match spec_position(old(state).tasks(), task_id@) {
                None => r is Err && r->Err_0@ == missing_task_message() && spec_untouched(*old(state), *final(state)),
                Some(i) => match removal {
                    Err(e) => r is Err && r->Err_0@ == e@ && if old(state).tasks()[i].status == TaskStatus::Completed {
                        spec_untouched(*old(state), *final(state))
                    } else {
                        spec_persisted_change(
                            *old(state),
                            *final(state),
                            i,
                            spec_failed(old(state).tasks()[i], e@, None),
                        )
                    },
                    Ok(()) => final(state).save_requests() == old(state).save_requests().push(
                        old(state).tasks().remove(i),
                    ) && ((r is Ok && final(state).tasks() == old(state).tasks().remove(i) && final(state).saves()
                        == old(state).saves().push(old(state).tasks().remove(i))) || (r is Err && spec_state_kept(
                        *old(state),
                        *final(state),
                    ))),
                },
            },
    {
        let task = match state.get(task_id) {
            Some(t) => t,
            None => return Err(String::from_str("任务不存在")),
        };
        match removal {
            Err(e) => {
                if task.status != TaskStatus::Completed {
                    state.failed(task_id, e.as_str(), None);
                }
                Err(e)
            },
            Ok(()) => state.remove(task_id),
        }
    }

    /// Whether a task may be paused: it must exist and be waiting or
    /// downloading. The runtime stops the worker before `pause_task`.
    pub fn pausable<R: TaskRepository, E: TaskEventSink>(&self, state: &TaskState<R, E>, task_id: &str) -> (r:
        Result<(), String>)
        ensures
            match spec_position(state.tasks(), task_id@) {
                None => r is Err && r->Err_0@ == missing_task_message(),
                Some(i) => if state.tasks()[i].status == TaskStatus::Downloading || state.tasks()[i].status
                    == TaskStatus::Waiting {
                    r is Ok
                } else {
                    r is Err && r->Err_0@ == not_pausable_message()
                },
            },
    {
        let task = match state.get(task_id) {
            Some(t) => t,
            None => return Err(String::from_str("任务不存在")),
        };
        if task.status != TaskStatus::Downloading && task.status != TaskStatus::Waiting {
            return Err(String::from_str("只有等待或下载中的任务可以暂停"));
        }
        Ok(())
    }

    /// Marks a waiting or downloading task paused, with no speed; the change
    /// is saved before it is announced.
    pub fn pause_task<R: TaskRepository, E: TaskEventSink>(&self, state: &mut TaskState<R, E>, task_id: &str) -> (r:
        Result<(), String>)
        ensures
            match spec_position(old(state).tasks(), task_id@) {
                None => r is Err && r->Err_0@ == missing_task_message() && spec_state_kept(*old(state), *final(state)),
                Some(i) => {
                    let t = old(state).tasks()[i];
                    if t.status == TaskStatus::Downloading || t.status == TaskStatus::Waiting {
                        (r is Ok && final(state).tasks() == old(state).tasks().update(
                            i,
                            TaskRecordView { status: TaskStatus::Paused, speed: None, ..t },
                        )) || (r is Err && spec_state_kept(*old(state), *final(state)))
                    } else {
                        r is Err && r->Err_0@ == not_pausable_message() && spec_state_kept(*old(state), *final(state))
                    }
                },
            },
    {
        let mut task = match state.get(task_id) {
            Some(t) => t,
            None => return Err(String::from_str("任务不存在")),
        };
        if task.status != TaskStatus::Downloading && task.status != TaskStatus::Waiting {
            return Err(String::from_str("只有等待或下载中的任务可以暂停"));
        }
        task.status = TaskStatus::Paused;
        task.speed = None;
        match state.replace(task_id, true, task) {
            Ok(_) => Ok(()),
            Err(e) => Err(e),
        }
    }

    /// The first half of resuming a task. A paused task continues in its
    /// worker and is marked downloading. An interrupted task is only answered
    /// with `Restart` and left unchanged: resuming it is completed by
    /// `restart_interrupted`, which the runtime calls with the measured file
    /// length after its old worker has exited.
    pub fn resume_task<R: TaskRepository, E: TaskEventSink>(&self, state: &mut TaskState<R, E>, task_id: &str) -> (r:
        Result<ResumeStep, String>)
        ensures
            match spec_position(old(state).tasks(), task_id@) {
                None => r is Err && r->Err_0@ == missing_task_message() && spec_state_kept(*old(state), *final(state)),
                Some(i) => {
                    let t = old(state).tasks()[i];
                    if t.status == TaskStatus::Paused {
                        (r is Ok && r->Ok_0 is Continue && final(state).tasks() == old(state).tasks().update(
                            i,
                            TaskRecordView { status: TaskStatus::Downloading, ..t },
                        )) || (r is Err && spec_state_kept(*old(state), *final(state)))
                    } else if t.status == TaskStatus::Interrupted {
                        r is Ok && r->Ok_0 is Restart && spec_state_kept(*old(state), *final(state))
                    } else {
                        r is Err && r->Err_0@ == not_resumable_message() && spec_state_kept(*old(state), *final(state))
                    }
                },
            },
    {
        let mut task = match state.get(task_id) {
            Some(t) => t,
            None => return Err(String::from_str("任务不存在")),
        };
        match task.status {
            TaskStatus::Paused => {
                task.status = TaskStatus::Downloading;
                match state.replace(task_id, true, task) {
                    Ok(_) => Ok(ResumeStep::Continue),
                    Err(e) => Err(e),
                }
            },
            TaskStatus::Interrupted => Ok(ResumeStep::Restart),
            _ => Err(String::from_str("只有暂停或中断的任务可以恢复")),
        }
    }

    /// Puts an interrupted task back in the queue in its own quality, resuming
    /// at the length of its file on disk, without spending a retry.
    pub fn restart_interrupted<R: TaskRepository, E: TaskEventSink>(
        &self,
        state: &mut TaskState<R, E>,
        task_id: &str,
        measured: Option<u64>,
    ) -> (r: Result<TaskRecord, String>)
        ensures
            match spec_position(old(state).tasks(), task_id@) {
                None => r is Err && r->Err_0@ == missing_task_message() && spec_untouched(*old(state), *final(state)),
                Some(i) => {
                    let t = old(state).tasks()[i];
                    let n = spec_restarted_task(t, spec_offset_from_len(t.file_size, measured));
                    let next = old(state).tasks().update(i, n);
                    (r is Ok && r->Ok_0@ == n && spec_written(*old(state), *final(state), next)) || (r is Err
                        && spec_write_failed(*old(state), *final(state), next))
                },
            },
    {
        let mut task = match state.get(task_id) {
            Some(t) => t,
            None => return Err(String::from_str("任务不存在")),
        };
        let offset = offset_from_len(task.file_size, measured);
        task.status = TaskStatus::Waiting;
        task.downloaded = offset;
        task.speed = None;
        task.error_msg = None;
        state.replace(task_id, true, task)
    }

    /// The length of a stored task's file on disk as the runtime reports it,
    /// for `restart_interrupted` and `retry_task`; `None` for an unknown task.
    pub fn measure<R: TaskRepository, E: TaskEventSink>(&mut self, state: &TaskState<R, E>, task_id: &str) -> (r:
        Option<u64>)
        ensures
            spec_position(state.tasks(), task_id@) is None ==> r is None,
    {
        match state.get(task_id) {
            Some(t) => measured_length(&mut self.environment, &t),
            None => None,
        }
    }

    /// Retries a failed task. Up to three retries keep its quality and resume at
    /// the length of its file on disk. After that the task moves to the next
    /// quality (`next_quality`, which the task rules pick among the qualities
    /// it was created with) when downgrading is on, at a path chosen by the
    /// duplicate strategy without asking (`ask` keeps both files); else it stays
    /// failed with the reason. The retried task is saved as waiting before it
    /// is returned for the runtime to hand to the engine.
    pub fn retry_task<R: TaskRepository, E: TaskEventSink>(
        &mut self,
        state: &mut TaskState<R, E>,
        task_id: &str,
        auto_downgrade: bool,
        duplicate_strategy: &str,
        next_quality: Option<QualityItem>,
        measured: Option<u64>,
    ) -> (r: Result<RetryOutcome, String>)
        requires
            spec_position(old(state).tasks(), task_id@) matches Some(i) ==> old(state).tasks()[i].retry_count
                < u32::MAX,
        ensures
            spec_position(old(state).tasks(), task_id@) is None ==> r is Err && r->Err_0@ == missing_task_message()
                && spec_untouched(*old(state), *final(state)),
            spec_position(old(state).tasks(), task_id@) matches Some(i) ==> {
                let t = old(state).tasks()[i];
                let ts = old(state).tasks();
                let requeued = spec_requeued(t, spec_offset_from_len(t.file_size, measured));
                let spent = t.status == TaskStatus::Error && t.retry_count + 1 > MAX_RETRIES;
                &&& t.status != TaskStatus::Error ==> r is Ok && r->Ok_0 is NotRetried && spec_untouched(
                    *old(state),
                    *final(state),
                )
                &&& (t.status == TaskStatus::Error && t.retry_count + 1 <= MAX_RETRIES) ==> (r matches Ok(
                    RetryOutcome::Requeued(n),
                ) && n@ == requeued && spec_written(*old(state), *final(state), ts.update(i, requeued))) || (r is Err
                    && spec_write_failed(*old(state), *final(state), ts.update(i, requeued)))
                &&& (spent && !auto_downgrade) ==> spec_given_up_outcome(
                    *old(state),
                    *final(state),
                    r,
                    ts.update(i, spec_given_up(t, retries_exhausted_message())),
                )
                &&& (spent && auto_downgrade && t.available_qualities is None) ==> spec_given_up_outcome(
                    *old(state),
                    *final(state),
                    r,
                    ts.update(i, spec_given_up(t, no_qualities_message())),
                )
                &&& (spent && auto_downgrade && t.available_qualities is Some && next_quality is None)
                    ==> spec_given_up_outcome(
                    *old(state),
                    *final(state),
                    r,
                    ts.update(i, spec_given_up(t, no_next_quality_message())),
                )
                &&& (spent && auto_downgrade && t.available_qualities is Some && next_quality is Some) ==> (
                r matches Ok(RetryOutcome::Downgraded(n)) && n@.save_path is Some && n@ == spec_downgraded(
                    t,
                    next_quality->0@,
                    n@.save_path->0,
                ) && !spec_path_reserved(ts, n@.save_path->0) && spec_written(
                    *old(state),
                    *final(state),
                    ts.update(i, n@),
                )) || (duplicate_strategy@ == "cancel"@ && spec_given_up_outcome(
                    *old(state),
                    *final(state),
                    r,
                    ts.update(i, TaskRecordView { error_msg: Some(downgrade_target_exists_message()), ..t }),
                )) || (r is Err && spec_path_error(r->Err_0@) && spec_untouched(*old(state), *final(state))) || (
                r is Err && exists|p: Seq<char>|
                    spec_write_failed(
                        *old(state),
                        *final(state),
                        ts.update(i, #[trigger] spec_downgraded(t, next_quality->0@, p)),
                    ))
                &&& (spent && auto_downgrade && t.available_qualities is Some && next_quality is Some) ==> exists|
                    t2: TaskRecord,
                    l1: Seq<DiskQuery>,
                    l2: Seq<DiskQuery>,
                    check: Result<PathCheck, String>,
                |
                    #![trigger spec_downgrade_logged(*old(state), *final(state), r, i, t, next_quality->0@, t2, l1, l2, check, duplicate_strategy@)]
                    t2@ == spec_downgrade_probe(t, next_quality->0@) && final(self).environment.queries() == old(
                        self,
                    ).environment.queries() + l1 + l2 && spec_downgrade_logged(
                        *old(state),
                        *final(state),
                        r,
                        i,
                        t,
                        next_quality->0@,
                        t2,
                        l1,
                        l2,
                        check,
                        duplicate_strategy@,
                    )
            },
    {
        let ghost nq = next_quality;
        let stored = match state.get(task_id) {
            Some(t) => t,
            None => return Err(String::from_str("任务不存在")),
        };
        if stored.status != TaskStatus::Error {
            return Ok(RetryOutcome::NotRetried);
        }
        let next_count = stored.retry_count + 1;
        if next_count <= MAX_RETRIES {
            let mut task = stored.duplicate();
            task.retry_count = next_count;
            task.downloaded = offset_from_len(stored.file_size, measured);
            task.error_msg = None;
            task.status = TaskStatus::Waiting;
            return match state.replace(task_id, true, task) {
                Ok(n) => Ok(RetryOutcome::Requeued(n)),
                Err(e) => Err(e),
            };
        }
        let give_up: Option<&str> = if !auto_downgrade {
            Some("重试次数已用尽")
        } else if stored.available_qualities.is_none() {
            Some("旧任务缺少可用品质信息，请重新添加下载")
        } else if next_quality.is_none() {
            Some("已无后续可用品质")
        } else {
            None
        };
        match give_up {
            Some(message) => {
                let mut task = stored.duplicate();
                task.retry_count = next_count;
                task.error_msg = Some(String::from_str(message));
                return match state.replace(task_id, true, task) {
                    Ok(_) => Ok(RetryOutcome::NotRetried),
                    Err(e) => Err(e),
                };
            },
            None => {},
        }
        let next = match next_quality {
            Some(q) => q,
            None => return Ok(RetryOutcome::NotRetried),
        };
        let mut task = stored.duplicate();
        task.quality = next.quality;
        task.filename = next.filename;
        task.file_size = next.size;
        task.downloaded = 0;
        task.retry_count = 0;
        task.save_path = None;
        let ghost a = *state;
        let ghost ii = spec_position(state.tasks(), task_id@)->0;
        let ghost tt = state.tasks()[ii];
        let ghost strat = duplicate_strategy@;
        let ghost t2 = task;
        let ghost q0 = self.environment.queries();
        let checked = task_path_check(&mut self.environment, &task);
        let ghost cr = checked;
        let ghost q1 = self.environment.queries();
        let ghost l1 = q1.skip(q0.len() as int);
        assert(q1 =~= q0 + l1);
        let check = match checked {
            Ok(c) => c,
            Err(e) => {
                let r: Result<RetryOutcome, String> = Err(e);
                assert(self.environment.queries() =~= q0 + l1 + Seq::<DiskQuery>::empty());
                assert(spec_downgrade_logged(a, *state, r, ii, tt, nq->0@, t2, l1, Seq::<DiskQuery>::empty(), cr, strat));
                return r;
            },
        };
        let ghost c0 = check;
        let ghost l2: Seq<DiskQuery> = Seq::empty();
        let reserved = state.path_reserved(check.original_path.as_str());
        if check.exists || reserved {
            let strategy = str_chars(duplicate_strategy);
            let cancel = str_chars("cancel");
            let overwrite = str_chars("overwrite");
            if crate::text::chars_eq(strategy.as_slice(), cancel.as_slice()) {
                let mut refused = stored.duplicate();
                refused.error_msg = Some(String::from_str("降级目标文件已存在"));
                let r = match state.replace(task_id, true, refused) {
                    Ok(_) => Ok(RetryOutcome::NotRetried),
                    Err(e) => Err(e),
                };
                assert(self.environment.queries() =~= q0 + l1 + Seq::<DiskQuery>::empty());
                assert(spec_downgrade_logged(a, *state, r, ii, tt, nq->0@, t2, l1, Seq::<DiskQuery>::empty(), cr, strat));
                return r;
            } else if crate::text::chars_eq(strategy.as_slice(), overwrite.as_slice()) && !reserved {
                task.save_path = Some(check.original_path);
            } else {
                let uri: Option<&str> = match &check.saf_folder_uri {
                    Some(u) => Some(u.as_str()),
                    None => None,
                };
                assert(opt_text(uri) == opt_string(c0.saf_folder_uri));
                let unique = unique_path(
                    state,
                    &mut self.environment,
                    check.original_path.as_str(),
                    check.suggested_path.as_str(),
                    check.is_saf,
                    uri,
                );
                let ghost ur = result_view(unique);
                proof {
                    l2 = self.environment.queries().skip(q1.len() as int);
                }
                assert(self.environment.queries() =~= q0 + l1 + l2);
                assert(spec_unique_log(
                    a.tasks(),
                    c0.original_path@,
                    c0.suggested_path@,
                    c0.is_saf,
                    opt_string(c0.saf_folder_uri),
                    l2,
                    ur,
                ));
                let path = match unique {
                    Ok(p) => p,
                    Err(e) => {
                        let r: Result<RetryOutcome, String> = Err(e);
                        assert(spec_downgrade_logged(a, *state, r, ii, tt, nq->0@, t2, l1, l2, cr, strat));
                        return r;
                    },
                };
                task.save_path = Some(path);
            }
        } else {
            task.save_path = Some(check.original_path);
        }
        task.error_msg = None;
        task.status = TaskStatus::Waiting;
        let ghost tv = task@;
        let ghost before = *state;
        let ghost i = spec_position(state.tasks(), task_id@)->0;
        let r = state.replace(task_id, true, task);
        proof {
            if r is Err {
                let w = tv.save_path->0;
                assert(tv == spec_downgraded(before.tasks()[i], nq->0@, w));
                assert(spec_write_failed(
                    before,
                    *state,
                    before.tasks().update(i, spec_downgraded(before.tasks()[i], nq->0@, w)),
                ));
            }
        }
        let r = match r {
            Ok(n) => Ok(RetryOutcome::Downgraded(n)),
            Err(e) => Err(e),
        };
        assert(self.environment.queries() =~= q0 + l1 + l2);
        assert(spec_downgrade_logged(a, *state, r, ii, tt, nq->0@, t2, l1, l2, cr, strat));
        r
    }
}

} // verus!

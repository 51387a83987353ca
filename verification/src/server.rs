//! The rules of the stand-alone service: which API call a request is, who may
//! make it, which static files may be served, and which music query a request
//! asks for. Connections only borrow the runtime; they never own a task.

use vstd::prelude::*;

use crate::download_link::{spec_starts_with, starts_with};
use crate::download_path::{extension_of, spec_extension};
use crate::json::{
    entries_view, json_string, json_view, obj_insert, obj_remove, opt_as_str, opt_as_u64, opt_view, spec_as_str,
    spec_as_u64, spec_index, spec_obj_insert, spec_obj_remove, value_get, JsonValue, JsonView,
};
use crate::platform::{platform_of_name, unsupported_platform_message, Platform};
use crate::text::{chars_eq, push_str_chars, str_chars, str_eq, string_from_chars};

verus! {

/// An event pushed to the browsers: its name and its JSON data.
#[derive(Clone, Debug)]
pub struct ServerEvent {
    pub name: &'static str,
    pub data: String,
}

/// A music query from the web page.
#[derive(Debug)]
pub struct MusicRequest {
    pub platform: String,
    pub keyword: String,
    pub input: String,
    pub id: String,
    pub song_id: u64,
    pub page: u32,
    pub limit: u32,
}

/// The page a query asks for when it names none.
pub fn first_page() -> (r: u32)
    ensures
        r == 1,
{
    1
}

/// The page size a query asks for when it names none.
pub fn default_limit() -> (r: u32)
    ensures
        r == 20,
{
    20
}

/// A music query the service performs.
#[derive(Debug, Clone, Copy, PartialEq, Eq, Structural)]
pub enum MusicOperation {
    SearchSongs,
    HotKeywords,
    Suggestions,
    FetchPlaylist,
    SearchPlaylists,
    SearchAlbums,
    FetchAlbum,
    SearchArtists,
    ArtistSongs,
    ArtistAlbums,
    Cover,
    Lyrics,
}

/// The query an action path names, for both platforms.
pub open spec fn spec_music_operation(action: Seq<char>) -> Option<MusicOperation> {
    if action == "songs/search"@ {
        Some(MusicOperation::SearchSongs)
    } else if action == "hot-keywords"@ {
        Some(MusicOperation::HotKeywords)
    } else if action == "suggestions"@ {
        Some(MusicOperation::Suggestions)
    } else if action == "playlists/fetch"@ {
        Some(MusicOperation::FetchPlaylist)
    } else if action == "playlists/search"@ {
        Some(MusicOperation::SearchPlaylists)
    } else if action == "albums/search"@ {
        Some(MusicOperation::SearchAlbums)
    } else if action == "albums/fetch"@ {
        Some(MusicOperation::FetchAlbum)
    } else if action == "artists/search"@ {
        Some(MusicOperation::SearchArtists)
    } else if action == "artists/songs"@ {
        Some(MusicOperation::ArtistSongs)
    } else if action == "artists/albums"@ {
        Some(MusicOperation::ArtistAlbums)
    } else if action == "cover"@ {
        Some(MusicOperation::Cover)
    } else if action == "lyrics"@ {
        Some(MusicOperation::Lyrics)
    } else {
        None
    }
}

/// The message for a QQ Music cover query: its covers come with the search
/// results.
pub open spec fn qq_cover_message() -> Seq<char> {
    "QQ 音乐封面已包含在搜索结果中，无需单独获取"@
}

/// What a music request asks for: the platform must be known, the page and page
/// size valid (a size from 1 to 100), and the action one of the queries; a cover
/// is only fetched separately for Kuwo.
pub open spec fn spec_plan_music(action: Seq<char>, platform: Seq<char>, page: u32, limit: u32) -> Result<
    (Platform, MusicOperation),
    Seq<char>,
> {
    match platform_of_name(platform) {
        None => Err(unsupported_platform_message(platform)),
        Some(p) => if page == 0 || limit == 0 || limit > 100 {
            Err("无效的分页参数"@)
        } else {
            match spec_music_operation(action) {
                None => Err("未知音乐操作"@),
                Some(op) => if op == MusicOperation::Cover && p == Platform::QqMusic {
                    Err(qq_cover_message())
                } else {
                    Ok((p, op))
                },
            }
        },
    }
}

/// The query an action path names.
fn music_operation(action: &str) -> (r: Option<MusicOperation>)
    ensures
        r == spec_music_operation(action@),
{
    if str_eq(action, "songs/search") {
        Some(MusicOperation::SearchSongs)
    } else if str_eq(action, "hot-keywords") {
        Some(MusicOperation::HotKeywords)
    } else if str_eq(action, "suggestions") {
        Some(MusicOperation::Suggestions)
    } else if str_eq(action, "playlists/fetch") {
        Some(MusicOperation::FetchPlaylist)
    } else if str_eq(action, "playlists/search") {
        Some(MusicOperation::SearchPlaylists)
    } else if str_eq(action, "albums/search") {
        Some(MusicOperation::SearchAlbums)
    } else if str_eq(action, "albums/fetch") {
        Some(MusicOperation::FetchAlbum)
    } else if str_eq(action, "artists/search") {
        Some(MusicOperation::SearchArtists)
    } else if str_eq(action, "artists/songs") {
        Some(MusicOperation::ArtistSongs)
    } else if str_eq(action, "artists/albums") {
        Some(MusicOperation::ArtistAlbums)
    } else if str_eq(action, "cover") {
        Some(MusicOperation::Cover)
    } else if str_eq(action, "lyrics") {
        Some(MusicOperation::Lyrics)
    } else {
        None
    }
}

/// Checks a music request and decides which platform query performs it.
pub fn plan_music_request(action: &str, request: &MusicRequest) -> (r: Result<(Platform, MusicOperation), String>)
    ensures
        match spec_plan_music(action@, request.platform@, request.page, request.limit) {
            Ok(plan) => r is Ok && r->Ok_0 == plan,
            Err(m) => r is Err && r->Err_0@ == m,
        },
{
    let platform = match Platform::from_str(request.platform.as_str()) {
        Ok(p) => p,
        Err(e) => return Err(e),
    };
    if request.page == 0 || request.limit == 0 || request.limit > 100 {
        return Err(String::from_str("无效的分页参数"));
    }
    match music_operation(action) {
        None => Err(String::from_str("未知音乐操作")),
        Some(op) => if op == MusicOperation::Cover && platform == Platform::QqMusic {
            Err(String::from_str("QQ 音乐封面已包含在搜索结果中，无需单独获取"))
        } else {
            Ok((platform, op))
        },
    }
}

/// Whether a request may use the API: with no token configured anyone may;
/// otherwise the supplied token must equal it byte for byte.
pub open spec fn spec_accepts_token(expected: Option<Seq<char>>, supplied: Option<Seq<char>>) -> bool {
    match expected {
        None => true,
        Some(e) => match supplied {
            None => false,
            Some(s) => s == e,
        },
    }
}

/// The text of an optional string slice.
pub open spec fn opt_str_view(o: Option<&str>) -> Option<Seq<char>> {
    match o {
        Some(s) => Some(s@),
        None => None,
    }
}

/// Whether a request may use the API. The comparison does not stop at the first
/// differing byte, so that its time reveals nothing about a matching prefix.
pub fn accepts_token(expected: Option<&str>, supplied: Option<&str>) -> (r: bool)
    ensures
        r == spec_accepts_token(opt_str_view(expected), opt_str_view(supplied)),
{
    let expected = match expected {
        None => return true,
        Some(e) => e,
    };
    let supplied = match supplied {
        None => return false,
        Some(s) => s,
    };
    let a = expected.as_bytes();
    let b = supplied.as_bytes();
    if a.len() != b.len() {
        proof {
            if supplied@ == expected@ {
                assert(vstd::utf8::encode_utf8(supplied@) == vstd::utf8::encode_utf8(expected@));
            }
        }
        return false;
    }
    let mut difference: u8 = 0;
    let mut i: usize = 0;
    while i < a.len()
        invariant
            i <= a.len(),
            a.len() == b.len(),
            (difference == 0) == (forall|k: int| 0 <= k < i ==> a@[k] == b@[k]),
        decreases a.len() - i,
    {
        let x = a[i];
        let y = b[i];
        let d = difference;
        assert((d | (x ^ y)) == 0 <==> (d == 0 && x == y)) by (bit_vector);
        difference = difference | (x ^ y);
        i = i + 1;
    }
    proof {
        vstd::utf8::encode_utf8_decode_utf8(expected@);
        vstd::utf8::encode_utf8_decode_utf8(supplied@);
        if difference == 0 {
            assert(a@ =~= b@);
        } else {
            if supplied@ == expected@ {
                assert(a@ == b@);
            }
        }
    }
    difference == 0
}

/// The token of an `Authorization: Bearer <token>` header.
pub fn bearer_token(header: Option<&str>) -> (r: Option<String>)
    ensures
        match header {
            Some(h) => if spec_starts_with(h@, "Bearer "@) {
                r is Some && r->0@ == h@.skip(7)
            } else {
                r is None
            },
            None => r is None,
        },
{
    match header {
        None => None,
        Some(h) => {
            let chars = str_chars(h);
            proof {
                reveal_strlit("Bearer ");
            }
            if starts_with(chars.as_slice(), "Bearer ") {
                let rest = &chars.as_slice()[7..chars.len()];
                assert(rest@ =~= h@.skip(7));
                Some(string_from_chars(rest))
            } else {
                None
            }
        },
    }
}

/// The separator between artist names: the setting, unless empty, else `、`.
pub fn artist_separator(settings: &JsonValue) -> (r: String)
    ensures
        r@ == (match spec_as_str(spec_index(json_view(*settings), "artistSeparator"@)) {
            Some(s) => if s.len() > 0 {
                s
            } else {
                "、"@
            },
            None => "、"@,
        }),
{
    match opt_as_str(value_get(settings, "artistSeparator")) {
        Some(s) => if s.unicode_len() > 0 {
            String::from_str(s)
        } else {
            String::from_str("、")
        },
        None => String::from_str("、"),
    }
}

/// How many downloads run at once: the setting kept within 1 to 32, else 3.
pub fn max_concurrent(settings: &JsonValue) -> (r: u32)
    ensures
        r == (match spec_as_u64(spec_index(json_view(*settings), "maxConcurrent"@)) {
            Some(n) => if n < 1 {
                1
            } else if n > 32 {
                32
            } else {
                n as u32
            },
            None => 3,
        }),
{
    match opt_as_u64(value_get(settings, "maxConcurrent")) {
        Some(n) => if n < 1 {
            1
        } else if n > 32 {
            32
        } else {
            n as u32
        },
        None => 3,
    }
}

/// The settings the service runs with: the web page cannot choose a path outside
/// the container, so the download directory is the one the service started with,
/// and the SAF fields are dropped.
pub open spec fn spec_server_settings(es: Seq<(Seq<char>, JsonView)>, default_dir: Seq<char>) -> Seq<(Seq<char>, JsonView)> {
    spec_obj_remove(
        spec_obj_remove(
            spec_obj_insert(es, "downloadDir"@, JsonView::String(default_dir)),
            "safFolderUri"@,
        ),
        "safFolderName"@,
    )
}

/// Fixes the download directory of loaded settings and drops the SAF fields.
/// Settings that are not an object are refused.
pub fn server_settings(settings: JsonValue, default_dir: &str) -> (r: Result<JsonValue, String>)
    ensures
        match json_view(settings) {
            JsonView::Object(es) => r is Ok && json_view(r->Ok_0) == JsonView::Object(
                spec_server_settings(es, default_dir@),
            ),
            _ => r is Err && r->Err_0@ == "settings.json 必须是 JSON 对象"@,
        },
{
    match settings {
        JsonValue::Object(mut es) => {
            obj_insert(&mut es, String::from_str("downloadDir"), json_string(default_dir));
            let _ = obj_remove(&mut es, "safFolderUri");
            let _ = obj_remove(&mut es, "safFolderName");
            Ok(JsonValue::Object(es))
        },
        _ => Err(String::from_str("settings.json 必须是 JSON 对象")),
    }
}

/// Whether an update changed the number of concurrent downloads, so that the
/// scheduler must be told.
pub fn concurrency_changed(changed_fields: &Vec<String>) -> (r: bool)
    ensures
        r == exists|i: int| 0 <= i < changed_fields@.len() && (#[trigger] changed_fields@[i])@ == "maxConcurrent"@,
{
    let mut i: usize = 0;
    while i < changed_fields.len()
        invariant
            i <= changed_fields.len(),
            forall|k: int| 0 <= k < i ==> (#[trigger] changed_fields@[k])@ != "maxConcurrent"@,
        decreases changed_fields.len() - i,
    {
        if str_eq(changed_fields[i].as_str(), "maxConcurrent") {
            return true;
        }
        i = i + 1;
    }
    false
}

/// A server-sent event frame.
pub fn sse_frame(event: &str, data: &str) -> (r: String)
    ensures
        r@ == "event: "@ + event@ + "\ndata: "@ + data@ + "\n\n"@,
{
    let mut m = String::from_str("event: ");
    m.append(event);
    m.append("\ndata: ");
    m.append(data);
    m.append("\n\n");
    m
}

/// An HTTP request method.
#[derive(Debug, Clone, Copy, PartialEq, Eq, Structural)]
pub enum HttpMethod {
    Get,
    Put,
    Post,
    Other,
}

/// What an API request is.
#[derive(Debug)]
pub enum Route {
    /// A static file of the web page.
    Static,
    /// A non-GET request for a static file.
    StaticMethodNotAllowed,
    ListTasks,
    Events,
    GetSettings,
    DefaultDownloadDir,
    PutSettings,
    /// A music query with its action path.
    Music(String),
    LoginStatus,
    LoginQr,
    Logout,
    ManualLogin,
    /// The state of a QR login session.
    QrCheck(String),
    UnknownQrSession,
    CreateTask,
    RemoveTasks,
    /// An operation on one task: its id and the operation's name.
    TaskAction(String, String),
    UnknownTaskAction,
    NotFound,
}

/// The text after every leading occurrence of `p` (`trim_start_matches`).
pub open spec fn spec_trim_prefix_all(s: Seq<char>, p: Seq<char>) -> Seq<char>
    decreases s.len(),
{
    if p.len() > 0 && spec_starts_with(s, p) {
        spec_trim_prefix_all(s.skip(p.len() as int), p)
    } else {
        s
    }
}

/// The index of the first `/` in `s`, or none.
pub open spec fn spec_first_slash(s: Seq<char>, i: int) -> Option<int>
    decreases s.len() - i,
{
    if i < 0 || i >= s.len() {
        None
    } else if s[i] == '/' {
        Some(i)
    } else {
        spec_first_slash(s, i + 1)
    }
}

/// What an API request is, by method and path; the static files are everything
/// outside `/api`.
pub open spec fn spec_route(method: HttpMethod, path: Seq<char>) -> Route {
    if !spec_starts_with(path, "/api/"@) && path != "/api"@ {
        if method == HttpMethod::Get {
            Route::Static
        } else {
            Route::StaticMethodNotAllowed
        }
    } else if method == HttpMethod::Get && path == "/api/tasks"@ {
        Route::ListTasks
    } else if method == HttpMethod::Get && path == "/api/events"@ {
        Route::Events
    } else if method == HttpMethod::Get && path == "/api/settings"@ {
        Route::GetSettings
    } else if method == HttpMethod::Get && path == "/api/settings/default-download-dir"@ {
        Route::DefaultDownloadDir
    } else if method == HttpMethod::Put && path == "/api/settings"@ {
        Route::PutSettings
    } else if method == HttpMethod::Post && spec_starts_with(path, "/api/music/"@) {
        Route::Music(arbitrary())
    } else if method == HttpMethod::Get && path == "/api/login/status"@ {
        Route::LoginStatus
    } else if method == HttpMethod::Post && path == "/api/login/qr"@ {
        Route::LoginQr
    } else if method == HttpMethod::Post && path == "/api/login/logout"@ {
        Route::Logout
    } else if method == HttpMethod::Post && path == "/api/login/manual"@ {
        Route::ManualLogin
    } else if method == HttpMethod::Get && spec_starts_with(path, "/api/login/qr/"@) {
        Route::QrCheck(arbitrary())
    } else if method == HttpMethod::Post && path == "/api/tasks"@ {
        Route::CreateTask
    } else if method == HttpMethod::Post && path == "/api/tasks/remove"@ {
        Route::RemoveTasks
    } else if method == HttpMethod::Post && spec_starts_with(path, "/api/tasks/"@) {
        Route::TaskAction(arbitrary(), arbitrary())
    } else {
        Route::NotFound
    }
}

/// Whether a route is the one the method and path give; the texts a route
/// carries are stated exactly.
pub open spec fn route_matches(r: Route, method: HttpMethod, path: Seq<char>) -> bool {
    match spec_route(method, path) {
        Route::Music(_) => r matches Route::Music(a) && a@ == spec_trim_prefix_all(path, "/api/music/"@),
        Route::QrCheck(_) => {
            let id = spec_trim_prefix_all(path, "/api/login/qr/"@);
            if id.len() == 0 || spec_first_slash(id, 0) is Some {
                r is UnknownQrSession
            } else {
                r matches Route::QrCheck(i) && i@ == id
            }
        },
        Route::TaskAction(_, _) => {
            let rest = spec_trim_prefix_all(path, "/api/tasks/"@);
            match spec_first_slash(rest, 0) {
                Some(k) => {
                    let id = rest.take(k);
                    let action = rest.skip(k + 1);
                    if id.len() == 0 || spec_first_slash(action, 0) is Some {
                        r is UnknownTaskAction
                    } else {
                        r matches Route::TaskAction(i, a) && i@ == id && a@ == action
                    }
                },
                None => r is UnknownTaskAction,
            }
        },
        Route::Static => r is Static,
        Route::StaticMethodNotAllowed => r is StaticMethodNotAllowed,
        Route::ListTasks => r is ListTasks,
        Route::Events => r is Events,
        Route::GetSettings => r is GetSettings,
        Route::DefaultDownloadDir => r is DefaultDownloadDir,
        Route::PutSettings => r is PutSettings,
        Route::LoginStatus => r is LoginStatus,
        Route::LoginQr => r is LoginQr,
        Route::Logout => r is Logout,
        Route::ManualLogin => r is ManualLogin,
        Route::UnknownQrSession => r is UnknownQrSession,
        Route::CreateTask => r is CreateTask,
        Route::RemoveTasks => r is RemoveTasks,
        Route::UnknownTaskAction => r is UnknownTaskAction,
        Route::NotFound => r is NotFound,
    }
}

/// The text after every leading occurrence of `p`.
fn trim_prefix_all(s: &[char], p: &str) -> (r: Vec<char>)
    requires
        p@.len() > 0,
    ensures
        r@ == spec_trim_prefix_all(s@, p@),
{
    let pc = str_chars(p);
    let mut i: usize = 0;
    assert(s@.skip(0) =~= s@);
    while i <= s.len() && s.len() - i >= pc.len() && starts_with(&s[i..s.len()], p)
        invariant
            i <= s.len(),
            pc@ == p@,
            p@.len() > 0,
            spec_trim_prefix_all(s@, p@) == spec_trim_prefix_all(s@.skip(i as int), p@),
        decreases s.len() - i,
    {
        assert(s@.subrange(i as int, s@.len() as int) =~= s@.skip(i as int));
        assert(s@.skip(i as int).skip(pc.len() as int) =~= s@.skip(i + pc.len()));
        i = i + pc.len();
    }
    proof {
        if i <= s.len() {
            assert(s@.subrange(i as int, s@.len() as int) =~= s@.skip(i as int));
        }
    }
    let mut out: Vec<char> = Vec::new();
    let mut k = i;
    while k < s.len()
        invariant
            i <= k <= s.len(),
            out@ == s@.subrange(i as int, k as int),
        decreases s.len() - k,
    {
        out.push(s[k]);
        k = k + 1;
    }
    assert(out@ =~= s@.skip(i as int));
    out
}

/// The index of the first `/`, or none.
fn first_slash(s: &[char]) -> (r: Option<usize>)
    ensures
        match spec_first_slash(s@, 0) {
            Some(k) => r is Some && r->0 == k && 0 <= k < s.len() && s@[k] == '/',
            None => r is None,
        },
{
    proof {
        lemma_first_slash(s@, 0);
    }
    let mut i: usize = 0;
    while i < s.len()
        invariant
            i <= s.len(),
            spec_first_slash(s@, 0) == spec_first_slash(s@, i as int),
        decreases s.len() - i,
    {
        if s[i] == '/' {
            return Some(i);
        }
        i = i + 1;
    }
    None
}

/// The first `/` found lies in the text.
pub proof fn lemma_first_slash(s: Seq<char>, i: int)
    requires
        0 <= i,
    ensures
        match spec_first_slash(s, i) {
            Some(k) => i <= k < s.len() && s[k] == '/',
            None => true,
        },
    decreases s.len() - i,
{
    if i < s.len() && s[i] != '/' {
        lemma_first_slash(s, i + 1);
    }
}

/// The characters of `s` from `a` to `b`.
fn slice_string(s: &[char], a: usize, b: usize) -> (r: String)
    requires
        a <= b <= s.len(),
    ensures
        r@ == s@.subrange(a as int, b as int),
{
    let part = &s[a..b];
    assert(part@ =~= s@.subrange(a as int, b as int));
    string_from_chars(part)
}

/// Decides what an API request is from its method and path.
pub fn route_request(method: HttpMethod, path: &str) -> (r: Route)
    ensures
        route_matches(r, method, path@),
{
    let p = str_chars(path);
    let api = starts_with(p.as_slice(), "/api/");
    if !api && !str_eq(path, "/api") {
        return if method == HttpMethod::Get {
            Route::Static
        } else {
            Route::StaticMethodNotAllowed
        };
    }
    if method == HttpMethod::Get && str_eq(path, "/api/tasks") {
        Route::ListTasks
    } else if method == HttpMethod::Get && str_eq(path, "/api/events") {
        Route::Events
    } else if method == HttpMethod::Get && str_eq(path, "/api/settings") {
        Route::GetSettings
    } else if method == HttpMethod::Get && str_eq(path, "/api/settings/default-download-dir") {
        Route::DefaultDownloadDir
    } else if method == HttpMethod::Put && str_eq(path, "/api/settings") {
        Route::PutSettings
    } else if method == HttpMethod::Post && starts_with(p.as_slice(), "/api/music/") {
        proof {
            reveal_strlit("/api/music/");
        }
        let action = trim_prefix_all(p.as_slice(), "/api/music/");
        Route::Music(string_from_chars(action.as_slice()))
    } else if method == HttpMethod::Get && str_eq(path, "/api/login/status") {
        Route::LoginStatus
    } else if method == HttpMethod::Post && str_eq(path, "/api/login/qr") {
        Route::LoginQr
    } else if method == HttpMethod::Post && str_eq(path, "/api/login/logout") {
        Route::Logout
    } else if method == HttpMethod::Post && str_eq(path, "/api/login/manual") {
        Route::ManualLogin
    } else if method == HttpMethod::Get && starts_with(p.as_slice(), "/api/login/qr/") {
        proof {
            reveal_strlit("/api/login/qr/");
        }
        let id = trim_prefix_all(p.as_slice(), "/api/login/qr/");
        if id.len() == 0 || first_slash(id.as_slice()).is_some() {
            Route::UnknownQrSession
        } else {
            Route::QrCheck(string_from_chars(id.as_slice()))
        }
    } else if method == HttpMethod::Post && str_eq(path, "/api/tasks") {
        Route::CreateTask
    } else if method == HttpMethod::Post && str_eq(path, "/api/tasks/remove") {
        Route::RemoveTasks
    } else if method == HttpMethod::Post && starts_with(p.as_slice(), "/api/tasks/") {
        proof {
            reveal_strlit("/api/tasks/");
        }
        let rest = trim_prefix_all(p.as_slice(), "/api/tasks/");
        match first_slash(rest.as_slice()) {
            Some(k) => {
                let id = slice_string(rest.as_slice(), 0, k);
                let action_chars = &rest.as_slice()[k + 1..rest.len()];
                assert(action_chars@ =~= rest@.skip(k + 1));
                assert(id@ =~= rest@.take(k as int));
                if k == 0 || first_slash(action_chars).is_some() {
                    Route::UnknownTaskAction
                } else {
                    Route::TaskAction(id, string_from_chars(action_chars))
                }
            },
            None => Route::UnknownTaskAction,
        }
    } else {
        Route::NotFound
    }
}

/// An operation on one task.
#[derive(Debug, Clone, Copy, PartialEq, Eq, Structural)]
pub enum TaskOperation {
    Pause,
    Resume,
    Retry,
    Cancel,
    Remove,
}

/// The operation a task action names.
pub open spec fn spec_task_operation(action: Seq<char>) -> Option<TaskOperation> {
    if action == "pause"@ {
        Some(TaskOperation::Pause)
    } else if action == "resume"@ {
        Some(TaskOperation::Resume)
    } else if action == "retry"@ {
        Some(TaskOperation::Retry)
    } else if action == "cancel"@ {
        Some(TaskOperation::Cancel)
    } else if action == "remove"@ {
        Some(TaskOperation::Remove)
    } else {
        None
    }
}

/// The operation a task action names.
pub fn task_operation(action: &str) -> (r: Result<TaskOperation, String>)
    ensures
        match spec_task_operation(action@) {
            Some(op) => r == Ok::<TaskOperation, String>(op),
            None => r is Err && r->Err_0@ == "未知任务操作"@,
        },
{
    if str_eq(action, "pause") {
        Ok(TaskOperation::Pause)
    } else if str_eq(action, "resume") {
        Ok(TaskOperation::Resume)
    } else if str_eq(action, "retry") {
        Ok(TaskOperation::Retry)
    } else if str_eq(action, "cancel") {
        Ok(TaskOperation::Cancel)
    } else if str_eq(action, "remove") {
        Ok(TaskOperation::Remove)
    } else {
        Err(String::from_str("未知任务操作"))
    }
}

/// Whether a path segment `[i, j)` of `s` is whole: it begins at the start or
/// after a `/`, and ends at the end or before one.
pub open spec fn is_segment(s: Seq<char>, i: int, j: int) -> bool {
    0 <= i <= j <= s.len() && (i == 0 || s[i - 1] == '/') && (j == s.len() || s[j] == '/')
        && forall|k: int| i <= k < j ==> s[k] != '/'
}

/// Whether a relative path has a component other than a plain name: a leading
/// `.` or a `..` anywhere.
pub open spec fn has_special_component(rel: Seq<char>) -> bool {
    (rel == "."@ || spec_starts_with(rel, "./"@)) || exists|i: int, j: int|
        is_segment(rel, i, j) && #[trigger] rel.subrange(i, j) == ".."@
}

/// The file a static request may read, relative to the web directory: `/` is
/// the index page; a path with `%`, `\\`, `.` or `..` components is refused, so
/// that no request reaches the data directory or process files.
pub open spec fn spec_static_path(url_path: Seq<char>) -> Option<Seq<char>> {
    let rel = if url_path == "/"@ {
        "index.html"@
    } else {
        spec_trim_prefix_all(url_path, "/"@)
    };
    if rel.contains('%') || rel.contains('\\') || has_special_component(rel) {
        None
    } else {
        Some(rel)
    }
}

/// Whether the segment ending at `j` and beginning after the last `/` before it
/// is `..`, for every segment of `rel`.
fn has_parent_segment(rel: &[char]) -> (r: bool)
    ensures
        r == exists|i: int, j: int| is_segment(rel@, i, j) && #[trigger] rel@.subrange(i, j) == ".."@,
{
    let dots = str_chars("..");
    proof {
        reveal_strlit("..");
    }
    let mut start: usize = 0;
    let mut k: usize = 0;
    while k < rel.len()
        invariant
            start <= k <= rel.len(),
            dots@ == ".."@,
            start == 0 || rel@[start - 1] == '/',
            forall|m: int| start <= m < k ==> rel@[m] != '/',
            forall|i: int, j: int| is_segment(rel@, i, j) && j < k && #[trigger] rel@.subrange(i, j) == ".."@ ==> false,
        decreases rel.len() - k,
    {
        if rel[k] == '/' {
            let seg = &rel[start..k];
            assert(seg@ =~= rel@.subrange(start as int, k as int));
            if chars_eq(seg, dots.as_slice()) {
                assert(is_segment(rel@, start as int, k as int));
                return true;
            }
            assert forall|i: int, j: int| is_segment(rel@, i, j) && j < k + 1 && #[trigger] rel@.subrange(i, j) == ".."@ implies false by {
                if j == k {
                    if i < start {
                        assert(rel@[start - 1] == '/');
                    } else if i > start {
                        assert(rel@[i - 1] == '/');
                    }
                }
            }
            start = k + 1;
        } else {
            assert forall|i: int, j: int| is_segment(rel@, i, j) && j < k + 1 && #[trigger] rel@.subrange(i, j) == ".."@ implies false by {
                if j == k {
                    assert(rel@[j] != '/');
                }
            }
        }
        k = k + 1;
    }
    let seg = &rel[start..k];
    assert(seg@ =~= rel@.subrange(start as int, k as int));
    if chars_eq(seg, dots.as_slice()) {
        assert(is_segment(rel@, start as int, k as int));
        return true;
    }
    assert forall|i: int, j: int| is_segment(rel@, i, j) && #[trigger] rel@.subrange(i, j) == ".."@ implies false by {
        if j == k {
            if i < start {
                assert(rel@[start - 1] == '/');
            } else if i > start {
                assert(rel@[i - 1] == '/');
            }
        }
    }
    false
}

/// Whether a character occurs in the text.
fn contains_char(s: &[char], c: char) -> (r: bool)
    ensures
        r == s@.contains(c),
{
    let mut i: usize = 0;
    while i < s.len()
        invariant
            i <= s.len(),
            forall|k: int| 0 <= k < i ==> s@[k] != c,
        decreases s.len() - i,
    {
        if s[i] == c {
            assert(s@[i as int] == c);
            return true;
        }
        i = i + 1;
    }
    false
}

/// The file a static request may read, relative to the web directory.
pub fn static_relative_path(url_path: &str) -> (r: Option<String>)
    ensures
        match spec_static_path(url_path@) {
            Some(p) => r is Some && r->0@ == p,
            None => r is None,
        },
{
    proof {
        reveal_strlit("/");
        reveal_strlit(".");
        reveal_strlit("./");
    }
    let rel: Vec<char> = if str_eq(url_path, "/") {
        str_chars("index.html")
    } else {
        let p = str_chars(url_path);
        trim_prefix_all(p.as_slice(), "/")
    };
    let dot = str_chars(".");
    let leading_dot = chars_eq(rel.as_slice(), dot.as_slice()) || starts_with(rel.as_slice(), "./");
    if contains_char(rel.as_slice(), '%') || contains_char(rel.as_slice(), '\\') || leading_dot
        || has_parent_segment(rel.as_slice()) {
        None
    } else {
        Some(string_from_chars(rel.as_slice()))
    }
}

/// The content type of a static file, by its extension.
pub open spec fn spec_content_type(rel: Seq<char>) -> Seq<char> {
    let e = match spec_extension(rel) {
        Some(e) => e,
        None => Seq::empty(),
    };
    if e == "html"@ {
        "text/html; charset=utf-8"@
    } else if e == "js"@ {
        "text/javascript; charset=utf-8"@
    } else if e == "css"@ {
        "text/css; charset=utf-8"@
    } else if e == "json"@ {
        "application/json"@
    } else if e == "svg"@ {
        "image/svg+xml"@
    } else if e == "png"@ {
        "image/png"@
    } else if e == "jpg"@ || e == "jpeg"@ {
        "image/jpeg"@
    } else if e == "webp"@ {
        "image/webp"@
    } else if e == "ico"@ {
        "image/x-icon"@
    } else if e == "woff"@ {
        "font/woff"@
    } else if e == "woff2"@ {
        "font/woff2"@
    } else {
        "application/octet-stream"@
    }
}

/// The content type of a static file, by its extension.
pub fn content_type(rel: &str) -> (r: &'static str)
    ensures
        r@ == spec_content_type(rel@),
{
    let chars = str_chars(rel);
    let e: Vec<char> = match extension_of(chars.as_slice()) {
        Some(e) => e,
        None => Vec::new(),
    };
    let es = string_from_chars(e.as_slice());
    let ext = es.as_str();
    if str_eq(ext, "html") {
        "text/html; charset=utf-8"
    } else if str_eq(ext, "js") {
        "text/javascript; charset=utf-8"
    } else if str_eq(ext, "css") {
        "text/css; charset=utf-8"
    } else if str_eq(ext, "json") {
        "application/json"
    } else if str_eq(ext, "svg") {
        "image/svg+xml"
    } else if str_eq(ext, "png") {
        "image/png"
    } else if str_eq(ext, "jpg") || str_eq(ext, "jpeg") {
        "image/jpeg"
    } else if str_eq(ext, "webp") {
        "image/webp"
    } else if str_eq(ext, "ico") {
        "image/x-icon"
    } else if str_eq(ext, "woff") {
        "font/woff"
    } else if str_eq(ext, "woff2") {
        "font/woff2"
    } else {
        "application/octet-stream"
    }
}

/// What happens to a request before its route is served.
#[derive(Debug, Clone, Copy, PartialEq, Eq, Structural)]
pub enum RequestGate {
    /// A static file of the web page: served without a token.
    ServeStatic,
    /// A non-GET request for a static file: refused with 405.
    StaticMethodNotAllowed,
    /// An API route without an accepted token: refused with 401.
    Unauthorized,
    /// An API route with an accepted token: served.
    Serve,
}

/// The token in an `authorization` header: the text after `Bearer `.
pub open spec fn spec_bearer(header: Option<Seq<char>>) -> Option<Seq<char>> {
    match header {
        Some(h) => if spec_starts_with(h, "Bearer "@) {
            Some(h.skip(7))
        } else {
            None
        },
        None => None,
    }
}

/// Whether a request is served: a static file always is, and any other route
/// needs the server's token if it has one.
pub open spec fn spec_request_gate(route: Route, expected: Option<Seq<char>>, header: Option<Seq<char>>) -> RequestGate {
    match route {
        Route::Static => RequestGate::ServeStatic,
        Route::StaticMethodNotAllowed => RequestGate::StaticMethodNotAllowed,
        _ => if spec_accepts_token(expected, spec_bearer(header)) {
            RequestGate::Serve
        } else {
            RequestGate::Unauthorized
        },
    }
}

/// Decides whether a request is served, from its route, the configured token
/// and its `authorization` header.
pub fn request_gate(route: &Route, expected: Option<&str>, authorization: Option<&str>) -> (r: RequestGate)
    ensures
        r == spec_request_gate(*route, opt_str_view(expected), opt_str_view(authorization)),
{
    match route {
        Route::Static => RequestGate::ServeStatic,
        Route::StaticMethodNotAllowed => RequestGate::StaticMethodNotAllowed,
        _ => {
            let supplied = bearer_token(authorization);
            let token: Option<&str> = match &supplied {
                Some(t) => Some(t.as_str()),
                None => None,
            };
            assert(opt_str_view(token) == spec_bearer(opt_str_view(authorization)));
            if accepts_token(expected, token) {
                RequestGate::Serve
            } else {
                RequestGate::Unauthorized
            }
        },
    }
}

} // verus!

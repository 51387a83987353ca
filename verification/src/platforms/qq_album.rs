//! The songs of a QQ Music album, fetched page by page. The runtime sends each
//! request this module builds and hands back the response; this module decides
//! what the page adds, whether it is valid and when the album is complete.

use vstd::prelude::*;

use crate::json::{
    array_view, copy_json, entries_view, index_opt, insert_pair, json_string, json_text, json_view,
    opt_as_array, opt_as_i64, opt_as_str, opt_as_u64, opt_deref, opt_json_to_text, opt_view, spec_as_array,
    spec_as_i64, spec_as_str, spec_as_u64, spec_index, spec_object_of, spec_value_get, spec_value_index,
    value_get, JsonValue, JsonView,
};
use crate::platforms::common::{spec_str_or_empty, str_or_empty};
use crate::platforms::qqmusic::{jnum, jstr, number_value, parse_song, spec_parse_song, string_value};
use crate::text::{parse_u64, push_str_chars, spec_parse_u64, str_chars, str_eq};

verus! {

/// The most requests made for one album.
pub const MAX_ALBUM_REQUESTS: u32 = 1000;

/// The number of songs asked for per page.
pub const ALBUM_PAGE_SIZE: u64 = 100;

/// The message when the album needs more requests than allowed.
pub open spec fn album_page_limit_message() -> Seq<char> {
    "专辑分页超出限制"@
}

/// Whether a character is an ASCII letter or digit.
pub open spec fn spec_is_ascii_alphanumeric(c: char) -> bool {
    ('0' <= c && c <= '9') || ('a' <= c && c <= 'z') || ('A' <= c && c <= 'Z')
}

/// An album MID: ASCII letters and digits only, at least one.
pub open spec fn spec_valid_album_mid(id: Seq<char>) -> bool {
    id.len() > 0 && forall|i: int| 0 <= i < id.len() ==> spec_is_ascii_alphanumeric(#[trigger] id[i])
}

/// What identifies a song of a page: the JSON text of its `songInfo.mid`
/// (`null` when missing).
pub open spec fn spec_song_key(item: JsonValue) -> Seq<char> {
    match spec_value_index(spec_value_get(item, "songInfo"@), "mid"@) {
        Some(x) => json_text(x),
        None => "null"@,
    }
}

/// The song information of a page item.
pub open spec fn spec_song_info(item: JsonValue) -> JsonView {
    opt_view(spec_value_get(item, "songInfo"@))
}

/// The keys seen and the songs kept after a run of page items: a song whose key
/// was seen before is skipped; a new one is kept when it parses.
pub open spec fn spec_album_fold(
    seen: Seq<Seq<char>>,
    songs: Seq<JsonView>,
    items: Seq<JsonValue>,
    separator: Seq<char>,
) -> (Seq<Seq<char>>, Seq<JsonView>)
    decreases items.len(),
{
    if items.len() == 0 {
        (seen, songs)
    } else {
        let prev = spec_album_fold(seen, songs, items.drop_last(), separator);
        let item = items.last();
        let key = spec_song_key(item);
        if prev.0.contains(key) {
            prev
        } else {
            (
                prev.0.push(key),
                prev.1 + match spec_parse_song(spec_song_info(item), separator) {
                    Some(v) => seq![v],
                    None => Seq::empty(),
                },
            )
        }
    }
}

/// The progress of an album's download, as a value.
pub struct AlbumSongsView {
    pub id: Seq<char>,
    pub begin: u64,
    pub seen: Seq<Seq<char>>,
    pub songs: Seq<JsonView>,
    pub requests: u32,
}

/// What a page leads to.
#[derive(Debug)]
pub enum AlbumStep {
    /// More songs are to be asked for.
    Continue,
    /// The album is complete: its information and songs.
    Finished(JsonValue),
    /// The page is invalid; the album fails with the message.
    Failed(String),
}

/// What a page leads to, as a value.
pub enum AlbumStepView {
    Continue,
    Finished(JsonView),
    Failed(Seq<char>),
}

/// A step as a value.
pub open spec fn album_step_view(s: AlbumStep) -> AlbumStepView {
    match s {
        AlbumStep::Continue => AlbumStepView::Continue,
        AlbumStep::Finished(v) => AlbumStepView::Finished(json_view(v)),
        AlbumStep::Failed(m) => AlbumStepView::Failed(m@),
    }
}

/// The album's total song count, a number or a number written as a string.
pub open spec fn spec_total(v: JsonView) -> Option<u64> {
    match spec_as_u64(v) {
        Some(n) => Some(n),
        None => match spec_as_str(v) {
            Some(s) => spec_parse_u64(s),
            None => None,
        },
    }
}

/// The album's information and songs, named after the first song's album and
/// artists.
pub open spec fn spec_album_result(id: Seq<char>, songs: Seq<JsonView>, total: u64) -> JsonView {
    let first = if songs.len() > 0 {
        songs[0]
    } else {
        JsonView::Null
    };
    let album = JsonView::Object(
        spec_object_of(
            seq![
                ("id"@, jstr(id)),
                ("name"@, jstr(spec_str_or_empty(spec_index(first, "album"@)))),
                ("artist"@, jstr(spec_str_or_empty(spec_index(first, "artist"@)))),
                (
                    "artists"@,
                    JsonView::Array(
                        match spec_as_array(spec_index(first, "artists"@)) {
                            Some(a) => a,
                            None => Seq::empty(),
                        },
                    ),
                ),
                ("coverUrl"@, jstr("https://y.gtimg.cn/music/photo_new/T002R300x300M000"@ + id + ".jpg"@)),
                ("publishDate"@, jstr(Seq::empty())),
                ("songCount"@, jnum(total)),
            ],
        ),
    );
    JsonView::Object(spec_object_of(seq![("album"@, album), ("songs"@, JsonView::Array(songs))]))
}

/// What a page does to the progress, and what it leads to.
pub open spec fn spec_album_page(st: AlbumSongsView, data: JsonView, items_raw: Option<Seq<JsonValue>>, separator: Seq<
    char,
>) -> (AlbumSongsView, AlbumStepView) {
    let list = spec_index(data, "albumSonglist"@);
    let body = spec_index(list, "data"@);
    if spec_as_i64(spec_index(data, "code"@)) != Some(0i64) || spec_as_i64(spec_index(list, "code"@)) != Some(
        0i64,
    ) {
        (st, AlbumStepView::Failed("QQ 音乐专辑接口返回错误"@))
    } else {
        match items_raw {
            None => (st, AlbumStepView::Failed("未找到专辑歌曲列表"@)),
            Some(items) => match spec_total(spec_index(body, "totalNum"@)) {
                None => (st, AlbumStepView::Failed("未找到专辑歌曲总数"@)),
                Some(total) => if items.len() == 0 && st.begin < total {
                    (st, AlbumStepView::Failed("专辑歌曲未完整返回，请重试"@))
                } else {
                    let folded = spec_album_fold(st.seen, st.songs, items, separator);
                    let begin = if st.begin + items.len() > u64::MAX {
                        u64::MAX
                    } else {
                        (st.begin + items.len()) as u64
                    };
                    let next = AlbumSongsView { begin: begin, seen: folded.0, songs: folded.1, ..st };
                    if items.len() > 0 && folded.0.len() == st.seen.len() {
                        (next, AlbumStepView::Failed("专辑接口返回重复分页，请重试"@))
                    } else if begin >= total {
                        (next, AlbumStepView::Finished(spec_album_result(st.id, folded.1, total)))
                    } else {
                        (next, AlbumStepView::Continue)
                    }
                },
            },
        }
    }
}

/// The raw song list of a page, as stored.
pub open spec fn spec_page_items(data: JsonValue) -> Option<Seq<JsonValue>> {
    match spec_value_index(spec_value_index(spec_value_get(data, "albumSonglist"@), "data"@), "songList"@) {
        Some(JsonValue::Array(items)) => Some(items@),
        _ => None,
    }
}

/// The progress of an album whose fetching starts.
pub open spec fn spec_album_start(id: Seq<char>) -> AlbumSongsView {
    AlbumSongsView { id: id, begin: 0, seen: Seq::empty(), songs: Seq::empty(), requests: 0 }
}

/// The request for the page of an album that begins at `begin`.
pub open spec fn spec_album_request(id: Seq<char>, begin: u64, comm: JsonView) -> JsonView {
    let param = JsonView::Object(
        spec_object_of(
            seq![
                ("albumMid"@, jstr(id)),
                ("albumID"@, jnum(0)),
                ("begin"@, jnum(begin)),
                ("num"@, jnum(ALBUM_PAGE_SIZE)),
                ("order"@, jnum(2)),
            ],
        ),
    );
    let list = JsonView::Object(
        spec_object_of(
            seq![
                ("method"@, jstr("GetAlbumSongList"@)),
                ("module"@, jstr("music.musichallAlbum.AlbumSongList"@)),
                ("param"@, param),
            ],
        ),
    );
    JsonView::Object(spec_object_of(seq![("comm"@, comm), ("albumSonglist"@, list)]))
}

/// An album being fetched: its MID, where the next page begins, the songs
/// seen and kept so far, and the requests made.
#[derive(Debug)]
pub struct AlbumSongs {
    id: String,
    begin: u64,
    seen: Vec<String>,
    songs: Vec<JsonValue>,
    requests: u32,
}

impl AlbumSongs {
    /// The progress as a value.
    pub closed spec fn view(&self) -> AlbumSongsView {
        AlbumSongsView {
            id: self.id@,
            begin: self.begin,
            seen: self.seen@.map_values(|k: String| k@),
            songs: array_view(self.songs@),
            requests: self.requests,
        }
    }

    /// Starts fetching an album; its MID must be ASCII letters and digits.
    pub fn start(id: &str) -> (r: Result<AlbumSongs, String>)
        ensures
            spec_valid_album_mid(id@) ==> r is Ok && r->Ok_0.view() == spec_album_start(id@),
            !spec_valid_album_mid(id@) ==> r is Err && r->Err_0@ == "无效的专辑 MID"@,
    {
        let chars = str_chars(id);
        if chars.len() == 0 {
            return Err(String::from_str("无效的专辑 MID"));
        }
        let mut i: usize = 0;
        while i < chars.len()
            invariant
                i <= chars.len(),
                chars@ == id@,
                forall|k: int| 0 <= k < i ==> spec_is_ascii_alphanumeric(#[trigger] chars@[k]),
            decreases chars.len() - i,
        {
            let c = chars[i];
            if !(('0' <= c && c <= '9') || ('a' <= c && c <= 'z') || ('A' <= c && c <= 'Z')) {
                assert(!spec_is_ascii_alphanumeric(id@[i as int]));
                return Err(String::from_str("无效的专辑 MID"));
            }
            i = i + 1;
        }
        let r = AlbumSongs { id: String::from_str(id), begin: 0, seen: Vec::new(), songs: Vec::new(), requests: 0 };
        assert(r.view().seen =~= Seq::<Seq<char>>::empty());
        assert(r.view().songs =~= Seq::<JsonView>::empty());
        Ok(r)
    }

    /// The body of the next page's request, with the common request fields the
    /// caller gives; none once the most requests have been made.
    pub fn next_request(&mut self, comm: JsonValue) -> (r: Option<JsonValue>)
        ensures
            old(self).view().requests >= MAX_ALBUM_REQUESTS ==> r is None && final(self).view() == old(
                self,
            ).view(),
            old(self).view().requests < MAX_ALBUM_REQUESTS ==> r is Some && final(self).view() == (
            AlbumSongsView { requests: (old(self).view().requests + 1) as u32, ..old(self).view() }) && json_view(
                r->0,
            ) == spec_album_request(old(self).view().id, old(self).view().begin, json_view(comm)),
    {
        if self.requests >= MAX_ALBUM_REQUESTS {
            return None;
        }
        self.requests = self.requests + 1;
        let ghost param_pairs = seq![
            ("albumMid"@, jstr(self.id@)),
            ("albumID"@, jnum(0)),
            ("begin"@, jnum(self.begin)),
            ("num"@, jnum(ALBUM_PAGE_SIZE)),
            ("order"@, jnum(2)),
        ];
        let mut param: Vec<(String, JsonValue)> = Vec::new();
        let ghost mut pairs: Seq<(Seq<char>, JsonView)> = Seq::empty();
        assert(entries_view(param@) =~= spec_object_of(pairs));
        insert_pair(&mut param, Ghost(pairs), "albumMid", json_string(self.id.as_str()));
        proof { pairs = pairs.push(param_pairs[0]); }
        insert_pair(&mut param, Ghost(pairs), "albumID", number_value(0));
        proof { pairs = pairs.push(param_pairs[1]); }
        insert_pair(&mut param, Ghost(pairs), "begin", number_value(self.begin));
        proof { pairs = pairs.push(param_pairs[2]); }
        insert_pair(&mut param, Ghost(pairs), "num", number_value(ALBUM_PAGE_SIZE));
        proof { pairs = pairs.push(param_pairs[3]); }
        insert_pair(&mut param, Ghost(pairs), "order", number_value(2));
        proof { pairs = pairs.push(param_pairs[4]); }
        assert(pairs =~= param_pairs);
        let param_value = JsonValue::Object(param);
        let ghost pv = json_view(param_value);
        let ghost list_pairs = seq![
            ("method"@, jstr("GetAlbumSongList"@)),
            ("module"@, jstr("music.musichallAlbum.AlbumSongList"@)),
            ("param"@, pv),
        ];
        let mut list: Vec<(String, JsonValue)> = Vec::new();
        let ghost mut pairs2: Seq<(Seq<char>, JsonView)> = Seq::empty();
        assert(entries_view(list@) =~= spec_object_of(pairs2));
        insert_pair(&mut list, Ghost(pairs2), "method", json_string("GetAlbumSongList"));
        proof { pairs2 = pairs2.push(list_pairs[0]); }
        insert_pair(&mut list, Ghost(pairs2), "module", json_string("music.musichallAlbum.AlbumSongList"));
        proof { pairs2 = pairs2.push(list_pairs[1]); }
        insert_pair(&mut list, Ghost(pairs2), "param", param_value);
        proof { pairs2 = pairs2.push(list_pairs[2]); }
        assert(pairs2 =~= list_pairs);
        let list_value = JsonValue::Object(list);
        let ghost lv = json_view(list_value);
        let ghost cv = json_view(comm);
        let mut body: Vec<(String, JsonValue)> = Vec::new();
        let ghost mut pairs3: Seq<(Seq<char>, JsonView)> = Seq::empty();
        assert(entries_view(body@) =~= spec_object_of(pairs3));
        insert_pair(&mut body, Ghost(pairs3), "comm", comm);
        proof { pairs3 = pairs3.push(("comm"@, cv)); }
        insert_pair(&mut body, Ghost(pairs3), "albumSonglist", list_value);
        proof { pairs3 = pairs3.push(("albumSonglist"@, lv)); }
        assert(pairs3 =~= seq![("comm"@, cv), ("albumSonglist"@, lv)]);
        Some(JsonValue::Object(body))
    }
}

impl AlbumSongs {
    /// Reads a page: each new song (by the JSON text of its MID) is kept when it
    /// parses, and the album is complete once as many songs were received as
    /// its total. A page with an error code, without a list or a total, empty
    /// before the end, or holding only songs already seen, fails the album.
    pub fn on_page(&mut self, data: &JsonValue, artist_separator: &str) -> (r: AlbumStep)
        ensures
            ({
                let outcome = spec_album_page(
                    old(self).view(),
                    json_view(*data),
                    spec_page_items(*data),
                    artist_separator@,
                );
                final(self).view() == outcome.0 && album_step_view(r) == outcome.1
            }),
    {
        let list = value_get(data, "albumSonglist");
        let body = index_opt(list, "data");
        if !is_zero(opt_as_i64(value_get(data, "code"))) || !is_zero(opt_as_i64(index_opt(list, "code"))) {
            return AlbumStep::Failed(String::from_str("QQ 音乐专辑接口返回错误"));
        }
        let items = match index_opt(body, "songList") {
            Some(JsonValue::Array(items)) => items,
            _ => return AlbumStep::Failed(String::from_str("未找到专辑歌曲列表")),
        };
        assert(spec_page_items(*data) == Some(items@));
        let total_value = index_opt(body, "totalNum");
        let total: u64 = match opt_as_u64(total_value) {
            Some(n) => n,
            None => match opt_as_str(total_value) {
                Some(t) => {
                    let chars = str_chars(t);
                    match parse_u64(chars.as_slice()) {
                        Some(n) => n,
                        None => return AlbumStep::Failed(String::from_str("未找到专辑歌曲总数")),
                    }
                },
                None => return AlbumStep::Failed(String::from_str("未找到专辑歌曲总数")),
            },
        };
        if items.len() == 0 && self.begin < total {
            return AlbumStep::Failed(String::from_str("专辑歌曲未完整返回，请重试"));
        }
        let ghost start = self.view();
        let before = self.seen.len();
        let mut i: usize = 0;
        assert(items@.take(0) =~= Seq::<JsonValue>::empty());
        while i < items.len()
            invariant
                i <= items.len(),
                self.id@ == start.id,
                self.begin == start.begin,
                self.requests == start.requests,
                ({
                    let f = spec_album_fold(start.seen, start.songs, items@.take(i as int), artist_separator@);
                    self.seen@.map_values(|k: String| k@) == f.0 && array_view(self.songs@) == f.1
                }),
            decreases items.len() - i,
        {
            assert(items@.take(i + 1).drop_last() =~= items@.take(i as int));
            assert(items@.take(i + 1).last() == items@[i as int]);
            let item = &items[i];
            let info = value_get(item, "songInfo");
            let key = opt_json_to_text(index_opt(info, "mid"));
            assert(key@ == spec_song_key(*item));
            if !seen_contains(&self.seen, key.as_str()) {
                let ghost prev_seen = self.seen@;
                let ghost prev_songs = self.songs@;
                self.seen.push(key);
                assert(self.seen@.map_values(|k: String| k@) =~= prev_seen.map_values(|k: String| k@).push(
                    spec_song_key(*item),
                ));
                let null = JsonValue::Null;
                let raw: &JsonValue = match info {
                    Some(x) => x,
                    None => &null,
                };
                assert(json_view(*raw) == spec_song_info(*item));
                match parse_song(raw, artist_separator) {
                    Some(v) => {
                        self.songs.push(v);
                        assert(array_view(self.songs@) =~= array_view(prev_songs) + seq![json_view(v)]);
                    },
                    None => {
                        assert(array_view(self.songs@) =~= array_view(prev_songs) + Seq::<JsonView>::empty());
                    },
                }
            }
            i = i + 1;
        }
        assert(items@.take(i as int) =~= items@);
        let count = items.len() as u64;
        self.begin = if count > u64::MAX - self.begin {
            u64::MAX
        } else {
            self.begin + count
        };
        if items.len() > 0 && self.seen.len() == before {
            return AlbumStep::Failed(String::from_str("专辑接口返回重复分页，请重试"));
        }
        if self.begin >= total {
            return AlbumStep::Finished(album_result(self.id.as_str(), &self.songs, total));
        }
        AlbumStep::Continue
    }
}

/// Whether an optional integer is zero.
fn is_zero(v: Option<i64>) -> (r: bool)
    ensures
        r == (v == Some(0i64)),
{
    match v {
        Some(n) => n == 0,
        None => false,
    }
}

/// A copy of a list of values.
fn copy_items(v: &Vec<JsonValue>) -> (r: Vec<JsonValue>)
    ensures
        array_view(r@) == array_view(v@),
{
    let mut out: Vec<JsonValue> = Vec::new();
    let mut i: usize = 0;
    while i < v.len()
        invariant
            i <= v.len(),
            array_view(out@) == array_view(v@).take(i as int),
        decreases v.len() - i,
    {
        let c = copy_json(&v[i]);
        let ghost before = out@;
        out.push(c);
        assert(array_view(out@) =~= array_view(before).push(json_view(c)));
        assert(array_view(v@).take(i + 1) =~= array_view(v@).take(i as int).push(json_view(v@[i as int])));
        i = i + 1;
    }
    assert(array_view(v@).take(i as int) =~= array_view(v@));
    out
}

/// The album's information and songs, named after the first song.
fn album_result(id: &str, songs: &Vec<JsonValue>, total: u64) -> (r: JsonValue)
    ensures
        json_view(r) == spec_album_result(id@, array_view(songs@), total),
{
    proof {
        reveal_strlit("");
        reveal_strlit(".jpg");
        reveal_strlit("https://y.gtimg.cn/music/photo_new/T002R300x300M000");
    }
    let first: Option<&JsonValue> = if songs.len() > 0 {
        Some(&songs[0])
    } else {
        None
    };
    let name = str_or_empty(index_opt(first, "album"));
    let artist = str_or_empty(index_opt(first, "artist"));
    let art_v = index_opt(first, "artists");
    let artists: Vec<JsonValue> = match opt_as_array(art_v) {
        Some(a) => {
            assert(spec_as_array(opt_view(opt_deref(art_v))) == Some(array_view(a@)));
            copy_items(a)
        },
        None => {
            assert(spec_as_array(opt_view(opt_deref(art_v))) is None);
            let empty: Vec<JsonValue> = Vec::new();
            assert(array_view(empty@) =~= Seq::<JsonView>::empty());
            empty
        },
    };
    let mut cover: Vec<char> = Vec::new();
    push_str_chars(&mut cover, "https://y.gtimg.cn/music/photo_new/T002R300x300M000");
    push_str_chars(&mut cover, id);
    push_str_chars(&mut cover, ".jpg");
    let ghost first_view = if array_view(songs@).len() > 0 {
        array_view(songs@)[0]
    } else {
        JsonView::Null
    };
    assert(opt_view(opt_deref(first)) == first_view);
    let ghost av = JsonView::Array(array_view(artists@));
    assert(av == JsonView::Array(
        match spec_as_array(spec_index(first_view, "artists"@)) {
            Some(a) => a,
            None => Seq::empty(),
        },
    ));
    let ghost album_pairs = seq![
        ("id"@, jstr(id@)),
        ("name"@, jstr(name@)),
        ("artist"@, jstr(artist@)),
        ("artists"@, av),
        ("coverUrl"@, jstr(cover@)),
        ("publishDate"@, jstr(Seq::empty())),
        ("songCount"@, jnum(total)),
    ];
    let mut album: Vec<(String, JsonValue)> = Vec::new();
    let ghost mut pairs: Seq<(Seq<char>, JsonView)> = Seq::empty();
    assert(entries_view(album@) =~= spec_object_of(pairs));
    insert_pair(&mut album, Ghost(pairs), "id", json_string(id));
    proof { pairs = pairs.push(album_pairs[0]); }
    insert_pair(&mut album, Ghost(pairs), "name", json_string(name));
    proof { pairs = pairs.push(album_pairs[1]); }
    insert_pair(&mut album, Ghost(pairs), "artist", json_string(artist));
    proof { pairs = pairs.push(album_pairs[2]); }
    insert_pair(&mut album, Ghost(pairs), "artists", JsonValue::Array(artists));
    proof { pairs = pairs.push(album_pairs[3]); }
    insert_pair(&mut album, Ghost(pairs), "coverUrl", string_value(cover.as_slice()));
    proof { pairs = pairs.push(album_pairs[4]); }
    assert(""@ =~= Seq::<char>::empty());
    insert_pair(&mut album, Ghost(pairs), "publishDate", json_string(""));
    proof { pairs = pairs.push(album_pairs[5]); }
    insert_pair(&mut album, Ghost(pairs), "songCount", number_value(total));
    proof { pairs = pairs.push(album_pairs[6]); }
    assert(pairs =~= album_pairs);
    assert(name@ == spec_str_or_empty(spec_index(first_view, "album"@)));
    assert(artist@ == spec_str_or_empty(spec_index(first_view, "artist"@)));
    assert(cover@ == "https://y.gtimg.cn/music/photo_new/T002R300x300M000"@ + id@ + ".jpg"@);
    assert(album_pairs =~= seq![
        ("id"@, jstr(id@)),
        ("name"@, jstr(spec_str_or_empty(spec_index(first_view, "album"@)))),
        ("artist"@, jstr(spec_str_or_empty(spec_index(first_view, "artist"@)))),
        (
            "artists"@,
            JsonView::Array(
                match spec_as_array(spec_index(first_view, "artists"@)) {
                    Some(a) => a,
                    None => Seq::empty(),
                },
            ),
        ),
        ("coverUrl"@, jstr("https://y.gtimg.cn/music/photo_new/T002R300x300M000"@ + id@ + ".jpg"@)),
        ("publishDate"@, jstr(Seq::empty())),
        ("songCount"@, jnum(total)),
    ]);
    let album_value = JsonValue::Object(album);
    let ghost alv = json_view(album_value);
    let all = copy_items(songs);
    let ghost sv = JsonView::Array(array_view(all@));
    let mut out: Vec<(String, JsonValue)> = Vec::new();
    let ghost mut pairs2: Seq<(Seq<char>, JsonView)> = Seq::empty();
    assert(entries_view(out@) =~= spec_object_of(pairs2));
    insert_pair(&mut out, Ghost(pairs2), "album", album_value);
    proof { pairs2 = pairs2.push(("album"@, alv)); }
    insert_pair(&mut out, Ghost(pairs2), "songs", JsonValue::Array(all));
    proof { pairs2 = pairs2.push(("songs"@, sv)); }
    assert(pairs2 =~= seq![("album"@, alv), ("songs"@, sv)]);
    JsonValue::Object(out)
}

/// Whether a key was seen.
fn seen_contains(seen: &Vec<String>, key: &str) -> (r: bool)
    ensures
        r == seen@.map_values(|k: String| k@).contains(key@),
{
    let ghost sv = seen@.map_values(|k: String| k@);
    let mut i: usize = 0;
    while i < seen.len()
        invariant
            i <= seen.len(),
            sv == seen@.map_values(|k: String| k@),
            forall|k: int| 0 <= k < i ==> sv[k] != key@,
        decreases seen.len() - i,
    {
        if str_eq(seen[i].as_str(), key) {
            assert(sv[i as int] == key@);
            return true;
        }
        i = i + 1;
    }
    false
}

/// Whether no key occurs twice.
pub open spec fn spec_distinct(keys: Seq<Seq<char>>) -> bool {
    forall|i: int, j: int| 0 <= i < j < keys.len() ==> keys[i] != keys[j]
}

/// Reading page items never records a key twice, and keeps at most one song
/// per new key: no song of an album is listed twice.
pub proof fn lemma_album_fold_distinct(
    seen: Seq<Seq<char>>,
    songs: Seq<JsonView>,
    items: Seq<JsonValue>,
    separator: Seq<char>,
)
    requires
        spec_distinct(seen),
    ensures
        spec_distinct(spec_album_fold(seen, songs, items, separator).0),
        spec_album_fold(seen, songs, items, separator).1.len() - songs.len() <= spec_album_fold(
            seen,
            songs,
            items,
            separator,
        ).0.len() - seen.len(),
    decreases items.len(),
{
    if items.len() > 0 {
        lemma_album_fold_distinct(seen, songs, items.drop_last(), separator);
        let prev = spec_album_fold(seen, songs, items.drop_last(), separator);
        let key = spec_song_key(items.last());
        if !prev.0.contains(key) {
            let next = prev.0.push(key);
            assert forall|i: int, j: int| 0 <= i < j < next.len() implies next[i] != next[j] by {
                if j == prev.0.len() {
                    assert(next[i] == prev.0[i]);
                }
            }
        }
    }
}

} // verus!

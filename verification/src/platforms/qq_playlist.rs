//! QQ Music playlists: finding the playlist id in what the user typed, reading
//! a playlist's songs, and reading a page of playlist search results.

use vstd::prelude::*;

use crate::json::{
    array_view, entries_view, index_opt, insert_pair, json_string, json_view, opt_as_array, opt_as_i64,
    opt_as_u64, opt_deref, opt_view, spec_as_array, spec_as_i64, spec_as_u64, spec_get, spec_index,
    spec_object_of, value_get, JsonNumber, JsonValue, JsonView, parse_response_json, parsed_json,
    response_parse_message,
};
use crate::platforms::common::{spec_split, spec_str_or_empty, split_chars, str_or_empty};
use crate::platforms::qqmusic::{
    jnum, jstr, number_value, parse_songs, spec_parsed_songs, spec_u64_or_zero, string_value,
};
use crate::text::{chars_eq, spec_all_ascii_digits};
use crate::qqmusic_link::spec_i64_text;
use crate::text::{push_str_chars, spec_trim, str_chars, string_from_chars, trim_bounds};

verus! {

/// An integer value, or `-1` when there is none (the response's codes).
pub open spec fn spec_code(v: JsonView) -> i64 {
    match spec_as_i64(v) {
        Some(n) => n,
        None => -1i64,
    }
}

/// The decimal text of an `i64`.
pub fn i64_text(v: i64) -> (r: String)
    ensures
        r@ == spec_i64_text(v),
{
    let mut out: Vec<char> = Vec::new();
    if v < 0 {
        out.push('-');
        let m: u64 = if v == i64::MIN {
            9223372036854775808u64
        } else {
            (-v) as u64
        };
        crate::text::push_decimal(m, &mut out);
    } else {
        crate::text::push_decimal(v as u64, &mut out);
    }
    string_from_chars(out.as_slice())
}

/// A code of the response, `-1` when missing.
fn code_of(v: Option<&JsonValue>) -> (r: i64)
    ensures
        r == spec_code(opt_view(opt_deref(v))),
{
    match opt_as_i64(v) {
        Some(n) => n,
        None => -1,
    }
}

/// A number of the response, 0 when missing.
fn u64_or_zero(v: Option<&JsonValue>) -> (r: u64)
    ensures
        r == spec_u64_or_zero(opt_view(opt_deref(v))),
{
    match opt_as_u64(v) {
        Some(n) => n,
        None => 0,
    }
}

/// The page number the search expects: the front end counts from 1, the
/// service from 0.
pub open spec fn spec_page_no(page: u32) -> u32 {
    if page > 0 {
        (page - 1) as u32
    } else {
        0
    }
}

/// The number of items on the pages before `page_no`.
pub fn page_offset(page_no: u32, limit: u32) -> (r: u128)
    ensures
        r == page_no * limit,
        r <= 0xffff_ffff_ffff_ffff,
{
    proof {
        assert((page_no as int) * (limit as int) <= 0xffff_ffff * 0xffff_ffff) by (nonlinear_arith)
            requires
                page_no <= 0xffff_ffff,
                limit <= 0xffff_ffff,
        ;
    }
    (page_no as u128) * (limit as u128)
}

/// A playlist of the search results; none without an id.
pub open spec fn spec_playlist_entry(item: JsonView) -> Option<JsonView> {
    let id = spec_str_or_empty(spec_index(item, "dissid"@));
    if id.len() == 0 {
        None
    } else {
        Some(
            JsonView::Object(
                spec_object_of(
                    seq![
                        ("id"@, jstr(id)),
                        ("name"@, jstr(spec_str_or_empty(spec_index(item, "dissname"@)))),
                        ("creator"@, jstr(spec_str_or_empty(spec_index(spec_index(item, "creator"@), "name"@)))),
                        ("coverUrl"@, jstr(spec_str_or_empty(spec_index(item, "imgurl"@)))),
                        ("songCount"@, jnum(spec_u64_or_zero(spec_index(item, "song_count"@)))),
                        ("playCount"@, jnum(spec_u64_or_zero(spec_index(item, "listennum"@)))),
                        ("introduction"@, jstr(spec_str_or_empty(spec_index(item, "introduction"@)))),
                    ],
                ),
            ),
        )
    }
}

/// The playlists of the search results, in order.
pub open spec fn spec_playlist_entries(items: Seq<JsonView>) -> Seq<JsonView>
    decreases items.len(),
{
    if items.len() == 0 {
        Seq::empty()
    } else {
        spec_playlist_entries(items.drop_last()) + match spec_playlist_entry(items.last()) {
            Some(p) => seq![p],
            None => Seq::empty(),
        }
    }
}

/// A page of search results: the playlists and whether more follow.
pub open spec fn spec_playlist_page(playlists: Seq<JsonView>, has_more: bool) -> JsonView {
    JsonView::Object(
        spec_object_of(seq![("playlists"@, JsonView::Array(playlists)), ("has_more"@, JsonView::Bool(has_more))]),
    )
}

/// What a playlist search answers: the playlists with an id and whether more
/// pages follow; a failure without data means no result, any other failure
/// is reported with its codes.
pub open spec fn spec_search_playlists(data: JsonView, page: u32, limit: u32) -> Result<JsonView, Seq<char>> {
    let code = spec_code(spec_index(data, "code"@));
    let subcode = spec_code(spec_index(data, "subcode"@));
    if code != 0 || subcode != 0 {
        if spec_get(data, "data"@) is None {
            Ok(spec_playlist_page(Seq::empty(), false))
        } else {
            Err(
                "接口错误: code="@ + spec_i64_text(code) + ", subcode="@ + spec_i64_text(subcode) + ", message="@
                    + spec_str_or_empty(spec_index(data, "message"@)),
            )
        }
    } else {
        let body = spec_index(data, "data"@);
        let list = match spec_as_array(spec_index(body, "list"@)) {
            Some(items) => items,
            None => Seq::empty(),
        };
        let playlists = spec_playlist_entries(list);
        let sum = spec_u64_or_zero(spec_index(body, "sum"@));
        let has_more = spec_page_no(page) * limit + playlists.len() < sum;
        Ok(spec_playlist_page(playlists, has_more))
    }
}

/// A playlist of the search results, if it has an id.
fn playlist_entry(item: &JsonValue) -> (r: Option<JsonValue>)
    ensures
        match spec_playlist_entry(json_view(*item)) {
            Some(p) => r is Some && json_view(r->0) == p,
            None => r is None,
        },
{
    let id = str_or_empty(value_get(item, "dissid"));
    if id.unicode_len() == 0 {
        return None;
    }
    let name = str_or_empty(value_get(item, "dissname"));
    let creator = str_or_empty(index_opt(value_get(item, "creator"), "name"));
    let cover = str_or_empty(value_get(item, "imgurl"));
    let songs = u64_or_zero(value_get(item, "song_count"));
    let plays = u64_or_zero(value_get(item, "listennum"));
    let intro = str_or_empty(value_get(item, "introduction"));
    let ghost pieces = seq![
        ("id"@, jstr(id@)),
        ("name"@, jstr(name@)),
        ("creator"@, jstr(creator@)),
        ("coverUrl"@, jstr(cover@)),
        ("songCount"@, jnum(songs)),
        ("playCount"@, jnum(plays)),
        ("introduction"@, jstr(intro@)),
    ];
    let mut es: Vec<(String, JsonValue)> = Vec::new();
    let ghost mut pairs: Seq<(Seq<char>, JsonView)> = Seq::empty();
    assert(entries_view(es@) =~= spec_object_of(pairs));
    insert_pair(&mut es, Ghost(pairs), "id", json_string(id));
    proof { pairs = pairs.push(pieces[0]); }
    insert_pair(&mut es, Ghost(pairs), "name", json_string(name));
    proof { pairs = pairs.push(pieces[1]); }
    insert_pair(&mut es, Ghost(pairs), "creator", json_string(creator));
    proof { pairs = pairs.push(pieces[2]); }
    insert_pair(&mut es, Ghost(pairs), "coverUrl", json_string(cover));
    proof { pairs = pairs.push(pieces[3]); }
    insert_pair(&mut es, Ghost(pairs), "songCount", number_value(songs));
    proof { pairs = pairs.push(pieces[4]); }
    insert_pair(&mut es, Ghost(pairs), "playCount", number_value(plays));
    proof { pairs = pairs.push(pieces[5]); }
    insert_pair(&mut es, Ghost(pairs), "introduction", json_string(intro));
    proof { pairs = pairs.push(pieces[6]); }
    assert(pairs =~= pieces);
    Some(JsonValue::Object(es))
}

/// A page of search results as the front end receives it.
fn playlist_page(playlists: Vec<JsonValue>, has_more: bool) -> (r: JsonValue)
    ensures
        json_view(r) == spec_playlist_page(array_view(playlists@), has_more),
{
    let ghost items = array_view(playlists@);
    let mut es: Vec<(String, JsonValue)> = Vec::new();
    let ghost mut pairs: Seq<(Seq<char>, JsonView)> = Seq::empty();
    assert(entries_view(es@) =~= spec_object_of(pairs));
    insert_pair(&mut es, Ghost(pairs), "playlists", JsonValue::Array(playlists));
    proof { pairs = pairs.push(("playlists"@, JsonView::Array(items))); }
    insert_pair(&mut es, Ghost(pairs), "has_more", JsonValue::Bool(has_more));
    proof { pairs = pairs.push(("has_more"@, JsonView::Bool(has_more))); }
    assert(pairs =~= seq![("playlists"@, JsonView::Array(items)), ("has_more"@, JsonView::Bool(has_more))]);
    JsonValue::Object(es)
}

/// Reads a page of playlist search results from the service's response.
pub fn search_playlists_result(data: &JsonValue, page: u32, limit: u32) -> (r: Result<JsonValue, String>)
    ensures
        match spec_search_playlists(json_view(*data), page, limit) {
            Ok(v) => r is Ok && json_view(r->Ok_0) == v,
            Err(m) => r is Err && r->Err_0@ == m,
        },
{
    let ghost dv = json_view(*data);
    let code = code_of(value_get(data, "code"));
    let subcode = code_of(value_get(data, "subcode"));
    if code != 0 || subcode != 0 {
        if value_get(data, "data").is_none() {
            let empty: Vec<JsonValue> = Vec::new();
            assert(array_view(empty@) =~= Seq::<JsonView>::empty());
            return Ok(playlist_page(empty, false));
        }
        let mut out: Vec<char> = Vec::new();
        push_str_chars(&mut out, "接口错误: code=");
        push_str_chars(&mut out, i64_text(code).as_str());
        push_str_chars(&mut out, ", subcode=");
        push_str_chars(&mut out, i64_text(subcode).as_str());
        push_str_chars(&mut out, ", message=");
        push_str_chars(&mut out, str_or_empty(value_get(data, "message")));
        return Err(string_from_chars(out.as_slice()));
    }
    let body = value_get(data, "data");
    let mut playlists: Vec<JsonValue> = Vec::new();
    let ghost list_view = match spec_as_array(spec_index(spec_index(dv, "data"@), "list"@)) {
        Some(items) => items,
        None => Seq::<JsonView>::empty(),
    };
    match opt_as_array(index_opt(body, "list")) {
        Some(items) => {
            assert(array_view(items@) == list_view);
            let mut i: usize = 0;
            while i < items.len()
                invariant
                    i <= items.len(),
                    array_view(items@) == list_view,
                    array_view(playlists@) == spec_playlist_entries(list_view.take(i as int)),
                decreases items.len() - i,
            {
                assert(list_view.take(i + 1).drop_last() =~= list_view.take(i as int));
                assert(list_view.take(i + 1).last() == json_view(items@[i as int]));
                let ghost before = playlists@;
                match playlist_entry(&items[i]) {
                    Some(p) => {
                        playlists.push(p);
                        assert(array_view(playlists@) =~= array_view(before) + seq![json_view(p)]);
                    },
                    None => {},
                }
                i = i + 1;
            }
            assert(list_view.take(i as int) =~= list_view);
        },
        None => {
            assert(array_view(playlists@) =~= spec_playlist_entries(list_view));
        },
    }
    let sum = u64_or_zero(index_opt(body, "sum"));
    let page_no: u32 = if page > 0 {
        page - 1
    } else {
        0
    };
    let offset: u128 = page_offset(page_no, limit);
    let has_more = offset + (playlists.len() as u128) < sum as u128;
    Ok(playlist_page(playlists, has_more))
}

/// What a URL consists of, as far as finding a playlist id needs: its path and
/// its decoded query pairs.
pub struct UrlParts {
    pub path: String,
    pub query: Vec<(String, String)>,
}

/// A URL's path and decoded query pairs as values.
pub struct UrlPartsView {
    pub path: Seq<char>,
    pub query: Seq<(Seq<char>, Seq<char>)>,
}

/// The query pairs as values.
pub open spec fn pairs_view(v: Seq<(String, String)>) -> Seq<(Seq<char>, Seq<char>)> {
    v.map_values(|p: (String, String)| (p.0@, p.1@))
}

/// An optional parsed URL as a value.
pub open spec fn url_parts_view(u: Option<UrlParts>) -> Option<UrlPartsView> {
    match u {
        Some(p) => Some(UrlPartsView { path: p.path@, query: pairs_view(p.query@) }),
        None => None,
    }
}

/// What the `url` crate makes of a text: nothing when it is no URL, else the
/// URL's path and its query pairs, decoded as a form.
pub uninterp spec fn parsed_url(input: Seq<char>) -> Option<UrlPartsView>;

/// Parses a URL with `url::Url::parse` (as `reqwest::Url`) and keeps its path
/// (`Url::path`) and its decoded query pairs (`Url::query_pairs`). The result
/// is named, not described: the WHATWG parsing rules are the crate's.
#[verifier::external_body]
fn parse_url(input: &str) -> (r: Option<UrlParts>)
    ensures
        url_parts_view(r) == parsed_url(input@),
{
    match reqwest::Url::parse(input) {
        Ok(url) => Some(
            UrlParts {
                path: url.path().to_string(),
                query: url.query_pairs().map(|(k, v)| (k.into_owned(), v.into_owned())).collect(),
            },
        ),
        Err(_) => None,
    }
}

/// The suffix of a page name.
pub open spec fn html_suffix() -> Seq<char> {
    seq!['.', 'h', 't', 'm', 'l']
}

/// A text without any trailing `.html` (`trim_end_matches(".html")`).
pub open spec fn spec_trim_html(s: Seq<char>) -> Seq<char>
    decreases s.len(),
{
    if s.len() >= 5 && s.subrange(s.len() - 5, s.len() as int) == html_suffix() {
        spec_trim_html(s.take(s.len() - 5))
    } else {
        s
    }
}

/// A playlist id: digits only, at least one.
pub open spec fn spec_is_id(s: Seq<char>) -> bool {
    s.len() > 0 && spec_all_ascii_digits(s)
}

/// The value of the first query pair with the key, if any.
pub open spec fn spec_first_value(pairs: Seq<(Seq<char>, Seq<char>)>, key: Seq<char>, i: int) -> Option<Seq<char>>
    decreases pairs.len() - i,
{
    if i < 0 || i >= pairs.len() {
        None
    } else if pairs[i].0 == key {
        Some(pairs[i].1)
    } else {
        spec_first_value(pairs, key, i + 1)
    }
}

/// The index of the first segment equal to the text, if any.
pub open spec fn spec_first_segment(segs: Seq<Seq<char>>, seg: Seq<char>, i: int) -> Option<int>
    decreases segs.len() - i,
{
    if i < 0 || i >= segs.len() {
        None
    } else if segs[i] == seg {
        Some(i)
    } else {
        spec_first_segment(segs, seg, i + 1)
    }
}

/// The playlist id in a URL: the first `id` query parameter when it is a
/// number, else the path segment after `playlist`, without `.html`.
pub open spec fn spec_id_from_url(parts: UrlPartsView) -> Option<Seq<char>> {
    let from_query = match spec_first_value(parts.query, "id"@, 0) {
        Some(v) => if spec_is_id(spec_trim(v)) {
            Some(spec_trim(v))
        } else {
            None
        },
        None => None,
    };
    if from_query is Some {
        from_query
    } else if parts.path.len() > 0 && parts.path[0] == '/' {
        let segs = spec_split(parts.path.drop_first(), '/');
        match spec_first_segment(segs, "playlist"@, 0) {
            Some(pos) => if pos + 1 < segs.len() && spec_is_id(spec_trim_html(segs[pos + 1])) {
                Some(spec_trim_html(segs[pos + 1]))
            } else {
                None
            },
            None => None,
        }
    } else {
        None
    }
}

/// The playlist id in what the user typed: the trimmed text when it is a
/// number, else the id found in it as a URL.
pub open spec fn spec_extract_playlist_id(input: Seq<char>) -> Result<Seq<char>, Seq<char>> {
    let t = spec_trim(input);
    if t.len() == 0 {
        Err("请输入歌单链接或 ID"@)
    } else if spec_all_ascii_digits(t) {
        Ok(t)
    } else {
        match parsed_url(t) {
            None => Err("无法识别的歌单链接或 ID"@),
            Some(parts) => match spec_id_from_url(parts) {
                Some(id) => Ok(id),
                None => Err("无法从链接中提取歌单 ID"@),
            },
        }
    }
}

/// Whether the characters are digits only.
fn all_ascii_digits(s: &[char]) -> (r: bool)
    ensures
        r == spec_all_ascii_digits(s@),
{
    let mut i: usize = 0;
    while i < s.len()
        invariant
            i <= s.len(),
            forall|k: int| 0 <= k < i ==> crate::text::spec_is_ascii_digit(#[trigger] s@[k]),
        decreases s.len() - i,
    {
        if !('0' <= s[i] && s[i] <= '9') {
            return false;
        }
        i = i + 1;
    }
    true
}

/// The trimmed characters of a text.
fn trimmed(s: &str) -> (r: Vec<char>)
    ensures
        r@ == spec_trim(s@),
{
    let chars = str_chars(s);
    let (a, b) = trim_bounds(chars.as_slice());
    let mut out: Vec<char> = Vec::new();
    let mut k = a;
    while k < b
        invariant
            a <= k <= b,
            b <= chars.len(),
            out@ == chars@.subrange(a as int, k as int),
        decreases b - k,
    {
        out.push(chars[k]);
        k = k + 1;
    }
    out
}

/// The characters without any trailing `.html`.
fn trim_html(s: &[char]) -> (r: Vec<char>)
    ensures
        r@ == spec_trim_html(s@),
{
    let mut n = s.len();
    assert(s@.take(n as int) =~= s@);
    while n >= 5 && s[n - 5] == '.' && s[n - 4] == 'h' && s[n - 3] == 't' && s[n - 2] == 'm' && s[n - 1] == 'l'
        invariant
            n <= s.len(),
            spec_trim_html(s@) == spec_trim_html(s@.take(n as int)),
        decreases n,
    {
        let ghost t = s@.take(n as int);
        let ghost tail = t.subrange(t.len() - 5, t.len() as int);
        assert(tail[0] == s@[n - 5]);
        assert(tail[1] == s@[n - 4]);
        assert(tail[2] == s@[n - 3]);
        assert(tail[3] == s@[n - 2]);
        assert(tail[4] == s@[n - 1]);
        assert(tail =~= html_suffix());
        assert(t.take(t.len() - 5) =~= s@.take(n - 5));
        n = n - 5;
    }
    let ghost t = s@.take(n as int);
    assert(!(t.len() >= 5 && t.subrange(t.len() - 5, t.len() as int) == html_suffix())) by {
        if t.len() >= 5 && t.subrange(t.len() - 5, t.len() as int) == html_suffix() {
            let tail = t.subrange(t.len() - 5, t.len() as int);
            assert(tail[0] == s@[n - 5]);
            assert(tail[1] == s@[n - 4]);
            assert(tail[2] == s@[n - 3]);
            assert(tail[3] == s@[n - 2]);
            assert(tail[4] == s@[n - 1]);
        }
    }
    let mut out: Vec<char> = Vec::new();
    let mut k: usize = 0;
    while k < n
        invariant
            k <= n <= s.len(),
            out@ == s@.take(k as int),
        decreases n - k,
    {
        out.push(s[k]);
        assert(s@.take(k + 1) =~= s@.take(k as int).push(s@[k as int]));
        k = k + 1;
    }
    out
}

/// The index of the first query pair with the key, if any.
fn first_pair_index(pairs: &Vec<(String, String)>, key: &str) -> (r: Option<usize>)
    ensures
        match spec_first_value(pairs_view(pairs@), key@, 0) {
            Some(v) => r is Some && r->0 < pairs@.len() && pairs@[r->0 as int].1@ == v,
            None => r is None,
        },
{
    let ghost pv = pairs_view(pairs@);
    let mut i: usize = 0;
    while i < pairs.len()
        invariant
            i <= pairs.len(),
            pv == pairs_view(pairs@),
            spec_first_value(pv, key@, 0) == spec_first_value(pv, key@, i as int),
        decreases pairs.len() - i,
    {
        assert(pv[i as int] == (pairs@[i as int].0@, pairs@[i as int].1@));
        if crate::text::str_eq(pairs[i].0.as_str(), key) {
            return Some(i);
        }
        i = i + 1;
    }
    None
}

/// The index of the first segment equal to the text, if any.
fn first_segment_index(segs: &Vec<Vec<char>>, seg: &[char]) -> (r: Option<usize>)
    ensures
        match spec_first_segment(segs@.map_values(|p: Vec<char>| p@), seg@, 0) {
            Some(k) => r is Some && r->0 == k && k < segs@.len(),
            None => r is None,
        },
{
    let ghost sv = segs@.map_values(|p: Vec<char>| p@);
    let mut j: usize = 0;
    while j < segs.len()
        invariant
            j <= segs.len(),
            sv == segs@.map_values(|p: Vec<char>| p@),
            spec_first_segment(sv, seg@, 0) == spec_first_segment(sv, seg@, j as int),
        decreases segs.len() - j,
    {
        assert(sv[j as int] == segs@[j as int]@);
        if chars_eq(segs[j].as_slice(), seg) {
            return Some(j);
        }
        j = j + 1;
    }
    None
}

/// The playlist id in a URL's parts, if it holds one.
pub fn id_from_url(parts: &UrlParts) -> (r: Option<String>)
    ensures
        match spec_id_from_url(url_parts_view(Some(*parts))->0) {
            Some(id) => r is Some && r->0@ == id,
            None => r is None,
        },
{
    let ghost pv = url_parts_view(Some(*parts))->0;
    match first_pair_index(&parts.query, "id") {
        Some(k) => {
            let v = trimmed(parts.query[k].1.as_str());
            if v.len() > 0 && all_ascii_digits(v.as_slice()) {
                return Some(string_from_chars(v.as_slice()));
            }
        },
        None => {},
    }
    let path = str_chars(parts.path.as_str());
    if path.len() == 0 || path[0] != '/' {
        return None;
    }
    let rest = &path.as_slice()[1..path.len()];
    assert(rest@ =~= pv.path.drop_first());
    let segs = split_chars(rest, '/');
    let ghost sv = segs@.map_values(|p: Vec<char>| p@);
    assert(sv == spec_split(pv.path.drop_first(), '/'));
    let playlist = str_chars("playlist");
    match first_segment_index(&segs, playlist.as_slice()) {
        Some(j) => {
            if j < segs.len() - 1 {
                assert(sv[j + 1] == segs@[j + 1]@);
                let id = trim_html(segs[j + 1].as_slice());
                if id.len() > 0 && all_ascii_digits(id.as_slice()) {
                    return Some(string_from_chars(id.as_slice()));
                }
            }
            None
        },
        None => None,
    }
}

/// The playlist id in what the user typed: a number, or a playlist link.
pub fn extract_playlist_id(input: &str) -> (r: Result<String, String>)
    ensures
        match spec_extract_playlist_id(input@) {
            Ok(id) => r is Ok && r->Ok_0@ == id,
            Err(m) => r is Err && r->Err_0@ == m,
        },
{
    let t = trimmed(input);
    if t.len() == 0 {
        return Err(String::from_str("请输入歌单链接或 ID"));
    }
    if all_ascii_digits(t.as_slice()) {
        return Ok(string_from_chars(t.as_slice()));
    }
    let text = string_from_chars(t.as_slice());
    match parse_url(text.as_str()) {
        None => Err(String::from_str("无法识别的歌单链接或 ID")),
        Some(parts) => match id_from_url(&parts) {
            Some(id) => Ok(id),
            None => Err(String::from_str("无法从链接中提取歌单 ID")),
        },
    }
}

/// A playlist's information as the front end receives it.
pub open spec fn spec_playlist_info(id: Seq<char>, cd: JsonView) -> JsonView {
    JsonView::Object(
        spec_object_of(
            seq![
                ("id"@, jstr(id)),
                ("name"@, jstr(spec_str_or_empty(spec_index(cd, "dissname"@)))),
                ("creator"@, jstr(spec_str_or_empty(spec_index(cd, "nickname"@)))),
                ("coverUrl"@, jstr(spec_str_or_empty(spec_index(cd, "logo"@)))),
                ("songCount"@, jnum(spec_u64_or_zero(spec_index(cd, "songnum"@)))),
                ("playCount"@, jnum(spec_u64_or_zero(spec_index(cd, "visitnum"@)))),
            ],
        ),
    )
}

/// What a playlist request answers: the playlist's information and its songs
/// that parse, or the reason there are none.
pub open spec fn spec_playlist_songs(id: Seq<char>, data: JsonView, separator: Seq<char>) -> Result<JsonView, Seq<char>> {
    let code = spec_code(spec_index(data, "code"@));
    let subcode = spec_code(spec_index(data, "subcode"@));
    if code != 0 || subcode != 0 {
        Err(
            "接口错误: code="@ + spec_i64_text(code) + ", subcode="@ + spec_i64_text(subcode) + ", msg="@
                + spec_str_or_empty(spec_index(data, "msg"@)),
        )
    } else {
        match spec_as_array(spec_index(data, "cdlist"@)) {
            Some(cds) => if cds.len() > 0 {
                let cd = cds[0];
                match spec_as_array(spec_index(cd, "songlist"@)) {
                    Some(list) => Ok(
                        JsonView::Object(
                            spec_object_of(
                                seq![
                                    ("playlist"@, spec_playlist_info(id, cd)),
                                    ("songs"@, JsonView::Array(spec_parsed_songs(list, separator))),
                                ],
                            ),
                        ),
                    ),
                    None => Err("未找到歌曲列表"@),
                }
            } else {
                Err("未找到歌单数据"@)
            },
            None => Err("未找到歌单数据"@),
        }
    }
}

/// A playlist's information as the front end receives it.
fn playlist_info(id: &str, cd: &JsonValue) -> (r: JsonValue)
    ensures
        json_view(r) == spec_playlist_info(id@, json_view(*cd)),
{
    let name = str_or_empty(value_get(cd, "dissname"));
    let creator = str_or_empty(value_get(cd, "nickname"));
    let cover = str_or_empty(value_get(cd, "logo"));
    let songs = u64_or_zero(value_get(cd, "songnum"));
    let plays = u64_or_zero(value_get(cd, "visitnum"));
    let ghost pieces = seq![
        ("id"@, jstr(id@)),
        ("name"@, jstr(name@)),
        ("creator"@, jstr(creator@)),
        ("coverUrl"@, jstr(cover@)),
        ("songCount"@, jnum(songs)),
        ("playCount"@, jnum(plays)),
    ];
    let mut es: Vec<(String, JsonValue)> = Vec::new();
    let ghost mut pairs: Seq<(Seq<char>, JsonView)> = Seq::empty();
    assert(entries_view(es@) =~= spec_object_of(pairs));
    insert_pair(&mut es, Ghost(pairs), "id", json_string(id));
    proof { pairs = pairs.push(pieces[0]); }
    insert_pair(&mut es, Ghost(pairs), "name", json_string(name));
    proof { pairs = pairs.push(pieces[1]); }
    insert_pair(&mut es, Ghost(pairs), "creator", json_string(creator));
    proof { pairs = pairs.push(pieces[2]); }
    insert_pair(&mut es, Ghost(pairs), "coverUrl", json_string(cover));
    proof { pairs = pairs.push(pieces[3]); }
    insert_pair(&mut es, Ghost(pairs), "songCount", number_value(songs));
    proof { pairs = pairs.push(pieces[4]); }
    insert_pair(&mut es, Ghost(pairs), "playCount", number_value(plays));
    proof { pairs = pairs.push(pieces[5]); }
    assert(pairs =~= pieces);
    JsonValue::Object(es)
}

/// Reads a playlist's information and songs from the service's response.
pub fn playlist_songs_result(id: &str, data: &JsonValue, artist_separator: &str) -> (r: Result<JsonValue, String>)
    ensures
        match spec_playlist_songs(id@, json_view(*data), artist_separator@) {
            Ok(v) => r is Ok && json_view(r->Ok_0) == v,
            Err(m) => r is Err && r->Err_0@ == m,
        },
{
    let code = code_of(value_get(data, "code"));
    let subcode = code_of(value_get(data, "subcode"));
    if code != 0 || subcode != 0 {
        let mut out: Vec<char> = Vec::new();
        push_str_chars(&mut out, "接口错误: code=");
        push_str_chars(&mut out, i64_text(code).as_str());
        push_str_chars(&mut out, ", subcode=");
        push_str_chars(&mut out, i64_text(subcode).as_str());
        push_str_chars(&mut out, ", msg=");
        push_str_chars(&mut out, str_or_empty(value_get(data, "msg")));
        return Err(string_from_chars(out.as_slice()));
    }
    let cds = match opt_as_array(value_get(data, "cdlist")) {
        Some(cds) => cds,
        None => return Err(String::from_str("未找到歌单数据")),
    };
    if cds.len() == 0 {
        return Err(String::from_str("未找到歌单数据"));
    }
    let cd = &cds[0];
    assert(array_view(cds@)[0] == json_view(*cd));
    let list = match opt_as_array(value_get(cd, "songlist")) {
        Some(list) => list,
        None => return Err(String::from_str("未找到歌曲列表")),
    };
    let info = playlist_info(id, cd);
    let songs = parse_songs(list, artist_separator);
    let ghost iv = json_view(info);
    let ghost sv = JsonView::Array(array_view(songs@));
    let mut es: Vec<(String, JsonValue)> = Vec::new();
    let ghost mut pairs: Seq<(Seq<char>, JsonView)> = Seq::empty();
    assert(entries_view(es@) =~= spec_object_of(pairs));
    insert_pair(&mut es, Ghost(pairs), "playlist", info);
    proof { pairs = pairs.push(("playlist"@, iv)); }
    insert_pair(&mut es, Ghost(pairs), "songs", JsonValue::Array(songs));
    proof { pairs = pairs.push(("songs"@, sv)); }
    assert(pairs =~= seq![("playlist"@, iv), ("songs"@, sv)]);
    Ok(JsonValue::Object(es))
}

/// A playlist id found in what the user typed is always a non-empty run of
/// digits, whatever the input and however the URL parser reads it.
pub proof fn lemma_playlist_id_is_digits(input: Seq<char>)
    ensures
        spec_extract_playlist_id(input) is Ok ==> spec_is_id(spec_extract_playlist_id(input)->Ok_0),
{
}

/// The playlist search page from the response body as received: a body that
/// is not JSON gives the parse error.
pub fn search_playlists_from_body(body: &str, page: u32, limit: u32) -> (r: Result<JsonValue, String>)
    ensures
        match parsed_json(body@) {
            Err(e) => r is Err && r->Err_0@ == response_parse_message(e),
            Ok(data) => match spec_search_playlists(data, page, limit) {
                Ok(v) => r is Ok && json_view(r->Ok_0) == v,
                Err(m) => r is Err && r->Err_0@ == m,
            },
        },
{
    let data = match parse_response_json(body) {
        Ok(d) => d,
        Err(e) => return Err(e),
    };
    search_playlists_result(&data, page, limit)
}

/// A playlist's songs from the response body as received: a body that is not
/// JSON gives the parse error.
pub fn playlist_songs_from_body(id: &str, body: &str, artist_separator: &str) -> (r: Result<JsonValue, String>)
    ensures
        match parsed_json(body@) {
            Err(e) => r is Err && r->Err_0@ == response_parse_message(e),
            Ok(data) => match spec_playlist_songs(id@, data, artist_separator@) {
                Ok(v) => r is Ok && json_view(r->Ok_0) == v,
                Err(m) => r is Err && r->Err_0@ == m,
            },
        },
{
    let data = match parse_response_json(body) {
        Ok(d) => d,
        Err(e) => return Err(e),
    };
    playlist_songs_result(id, &data, artist_separator)
}

} // verus!

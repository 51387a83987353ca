use hotdownloader_core::json::{JsonNumber, JsonValue};
use hotdownloader_core::platforms::qq_album::{AlbumSongs, AlbumStep};
use hotdownloader_core::json::parse_response_json;
use hotdownloader_core::platforms::qq_playlist::{
    extract_playlist_id, playlist_songs_from_body, playlist_songs_result, search_playlists_from_body,
    search_playlists_result,
};
use hotdownloader_core::qqmusic_link::parse_vkey_body;
use hotdownloader_core::platforms::qqmusic::{build_qualities, parse_artists, parse_song};

fn to_json(v: &serde_json::Value) -> JsonValue {
    match v {
        serde_json::Value::Null => JsonValue::Null,
        serde_json::Value::Bool(b) => JsonValue::Bool(*b),
        serde_json::Value::Number(n) => {
            if let Some(u) = n.as_u64() {
                JsonValue::Number(JsonNumber::PosInt(u))
            } else if let Some(i) = n.as_i64() {
                JsonValue::Number(JsonNumber::NegInt(i))
            } else {
                JsonValue::Number(JsonNumber::Float(n.to_string()))
            }
        }
        serde_json::Value::String(s) => JsonValue::String(s.clone()),
        serde_json::Value::Array(a) => JsonValue::Array(a.iter().map(to_json).collect()),
        serde_json::Value::Object(m) => {
            JsonValue::Object(m.iter().map(|(k, v)| (k.clone(), to_json(v))).collect())
        }
    }
}

fn from_json(v: &JsonValue) -> serde_json::Value {
    match v {
        JsonValue::Null => serde_json::Value::Null,
        JsonValue::Bool(b) => serde_json::Value::Bool(*b),
        JsonValue::Number(JsonNumber::PosInt(u)) => serde_json::Value::from(*u),
        JsonValue::Number(JsonNumber::NegInt(i)) => serde_json::Value::from(*i),
        JsonValue::Number(JsonNumber::Float(t)) => serde_json::from_str(t).unwrap(),
        JsonValue::String(s) => serde_json::Value::String(s.clone()),
        JsonValue::Array(a) => serde_json::Value::Array(a.iter().map(from_json).collect()),
        JsonValue::Object(es) => {
            let mut m = serde_json::Map::new();
            for (k, v) in es {
                m.insert(k.clone(), from_json(v));
            }
            serde_json::Value::Object(m)
        }
    }
}

fn parse(text: &str) -> JsonValue {
    to_json(&serde_json::from_str(text).unwrap())
}

#[test]
fn preserves_numeric_ids_and_mids_for_each_artist_and_album() {
    let raw = parse(
        r#"{
            "mid": "songMid", "file": {"media_mid": "mediaMid"},
            "singer": [
                {"id": 4558, "mid": "artistA", "name": "甲"},
                {"id": "4944", "mid": "artistB", "name": "乙"}
            ],
            "album": {"id": 8217, "mid": "albumMid", "name": "专辑"}
        }"#,
    );
    let song = from_json(&parse_song(&raw, " / ").unwrap());
    assert_eq!(song["artist"], "甲 / 乙");
    let first: serde_json::Value =
        serde_json::from_str(r#"{"id": "4558", "mid": "artistA", "name": "甲"}"#).unwrap();
    assert_eq!(song["artists"][0], first);
    assert_eq!(song["artists"][1]["mid"], "artistB");
    assert_eq!(song["albumId"], "8217");
    assert_eq!(song["albumMid"], "albumMid");
}

#[test]
fn missing_mid_is_not_replaced_with_numeric_id() {
    let list = parse(
        r#"[
            {"id": 4558, "mid": "", "name": "周杰伦"},
            {"singer_id": "4944", "singer_mid": "artistB", "singer_name": "乙"},
            {"id": 0, "name": "未知"}
        ]"#,
    );
    let artists: Vec<serde_json::Value> = parse_artists(Some(&list)).iter().map(from_json).collect();
    assert_eq!(artists[0]["id"], "4558");
    assert_eq!(artists[0]["mid"], "");
    assert_eq!(artists[1]["mid"], "artistB");
    assert_eq!(artists[2]["id"], "");
}

#[test]
fn song_without_media_mid_is_skipped_and_cover_falls_back_to_singer() {
    assert!(parse_song(&parse(r#"{"mid": "m", "file": {}}"#), "/").is_none());
    assert!(parse_song(&parse(r#"{"file": {"media_mid": "x"}}"#), "/").is_none());
    let song = from_json(
        &parse_song(
            &parse(r#"{"mid": "m", "id": "12", "title": "T", "file": {"media_mid": "x"},
                       "album": {"mid": "空"}, "singer": [{"mid": "S1", "name": " "}]}"#),
            "/",
        )
        .unwrap(),
    );
    assert_eq!(song["coverUrl"], "https://y.gtimg.cn/music/photo_new/T001R500x500M000S1.jpg");
    assert_eq!(song["id"], 12);
    assert_eq!(song["title"], "T");
    assert_eq!(song["artists"], serde_json::Value::Array(Vec::new()));
}

#[test]
fn qualities_list_standard_then_special_files() {
    let file = parse(
        r#"{"media_mid": "MM", "size_128mp3": 100, "size_flac": 300, "size_48aac": 0,
            "size_new": [900, 700, 0]}"#,
    );
    let vs = parse(r#"["", "", "", "V3", "V4"]"#);
    let list: Vec<serde_json::Value> = build_qualities(Some(&file), Some(&vs)).iter().map(from_json).collect();
    let labels: Vec<&str> = list.iter().map(|q| q["quality"].as_str().unwrap()).collect();
    assert_eq!(labels, vec!["128kmp3", "flac", "臻品全景声", "臻品母带"]);
    assert_eq!(list[0]["filename"], "M500MM.mp3");
    assert_eq!(list[1]["filename"], "F0M0MM.mflac");
    assert_eq!(list[2]["filename"], "Q0M0V4.mflac");
    assert_eq!(list[2]["size"], 700);
    assert_eq!(list[3]["filename"], "AIM0V3.mflac");
    assert!(build_qualities(Some(&parse(r#"{"size_new": [5, 5, 5]}"#)), None).is_empty());
}

#[test]
fn playlist_id_comes_from_digits_query_or_path() {
    assert_eq!(extract_playlist_id("  123456 ").unwrap(), "123456");
    assert_eq!(extract_playlist_id("").unwrap_err(), "请输入歌单链接或 ID");
    assert_eq!(
        extract_playlist_id("https://y.qq.com/n/yqq/playsquare/123.html?id=456").unwrap(),
        "456"
    );
    assert_eq!(extract_playlist_id("https://y.qq.com/n/yqq/playlist/789.html").unwrap(), "789");
    assert_eq!(extract_playlist_id("not a link").unwrap_err(), "无法识别的歌单链接或 ID");
    assert_eq!(
        extract_playlist_id("https://y.qq.com/n/yqq/song/1.html").unwrap_err(),
        "无法从链接中提取歌单 ID"
    );
}

#[test]
fn playlist_search_reports_pages_and_errors() {
    let ok = parse(
        r#"{"code": 0, "subcode": 0, "data": {"sum": 3, "list": [
            {"dissid": "11", "dissname": "A", "creator": {"name": "C"}, "song_count": 4, "listennum": 9},
            {"dissid": "", "dissname": "skip"}
        ]}}"#,
    );
    let page = from_json(&search_playlists_result(&ok, 1, 1).unwrap());
    assert_eq!(page["playlists"].as_array().unwrap().len(), 1);
    assert_eq!(page["playlists"][0]["creator"], "C");
    assert_eq!(page["playlists"][0]["introduction"], "");
    assert_eq!(page["has_more"], true);
    let empty = from_json(&search_playlists_result(&parse(r#"{"code": 1}"#), 1, 10).unwrap());
    assert_eq!(empty["has_more"], false);
    assert_eq!(
        search_playlists_result(&parse(r#"{"code": -2, "subcode": 3, "data": {}, "message": "m"}"#), 1, 10)
            .unwrap_err(),
        "接口错误: code=-2, subcode=3, message=m"
    );
}

#[test]
fn playlist_songs_keep_information_and_parsed_songs() {
    let data = parse(
        r#"{"code": 0, "subcode": 0, "cdlist": [{"dissname": "歌单", "nickname": "我",
            "logo": "L", "songnum": 2, "visitnum": 7,
            "songlist": [{"mid": "a", "file": {"media_mid": "b"}}, {"mid": ""}]}]}"#,
    );
    let result = from_json(&playlist_songs_result("42", &data, "/").unwrap());
    assert_eq!(result["playlist"]["id"], "42");
    assert_eq!(result["playlist"]["playCount"], 7);
    assert_eq!(result["songs"].as_array().unwrap().len(), 1);
    assert_eq!(
        playlist_songs_result("42", &parse(r#"{"code": 0, "subcode": 0, "cdlist": []}"#), "/").unwrap_err(),
        "未找到歌单数据"
    );
}

#[test]
fn album_pages_are_merged_without_duplicates() {
    let mut album = AlbumSongs::start("abc123").unwrap();
    assert!(AlbumSongs::start("bad-mid").is_err());
    assert!(album.next_request(JsonValue::Null).is_some());
    let first = parse(
        r#"{"code": 0, "albumSonglist": {"code": 0, "data": {"totalNum": 3, "songList": [
            {"songInfo": {"mid": "a", "file": {"media_mid": "x"}, "album": {"name": "专辑"},
                          "singer": [{"name": "歌手"}]}},
            {"songInfo": {"mid": "b", "file": {"media_mid": "y"}}}
        ]}}}"#,
    );
    assert!(matches!(album.on_page(&first, "/"), AlbumStep::Continue));
    let repeated = parse(
        r#"{"code": 0, "albumSonglist": {"code": 0, "data": {"totalNum": 3, "songList": [
            {"songInfo": {"mid": "a", "file": {"media_mid": "x"}}}
        ]}}}"#,
    );
    match album.on_page(&repeated, "/") {
        AlbumStep::Failed(message) => assert_eq!(message, "专辑接口返回重复分页，请重试"),
        _ => panic!("a page of seen songs must fail"),
    }
    let mut album = AlbumSongs::start("abc123").unwrap();
    let _ = album.on_page(&first, "/");
    let last = parse(
        r#"{"code": 0, "albumSonglist": {"code": 0, "data": {"totalNum": "3", "songList": [
            {"songInfo": {"mid": "c", "file": {"media_mid": "z"}}}
        ]}}}"#,
    );
    match album.on_page(&last, "/") {
        AlbumStep::Finished(result) => {
            let result = from_json(&result);
            assert_eq!(result["album"]["name"], "专辑");
            assert_eq!(result["album"]["artist"], "歌手");
            assert_eq!(result["album"]["songCount"], 3);
            assert_eq!(result["songs"].as_array().unwrap().len(), 3);
        }
        _ => panic!("the album must be complete"),
    }
}

#[test]
fn response_bodies_are_read_as_json() {
    let text = r#"{"b": [1, -2, 1.5, "x"], "a": null}"#;
    let parsed = from_json(&parse_response_json(text).unwrap());
    let expected: serde_json::Value = serde_json::from_str(text).unwrap();
    assert_eq!(parsed, expected);
    assert!(parse_response_json("{").unwrap_err().starts_with("解析响应失败: "));

    let body = r#"{"code": 0, "subcode": 0, "data": {"sum": 1, "list": [
        {"dissid": "11", "dissname": "A", "creator": {"name": "C"}, "song_count": 4, "listennum": 9}]}}"#;
    let page = from_json(&search_playlists_from_body(body, 1, 10).unwrap());
    assert_eq!(page["playlists"][0]["creator"], "C");
    assert_eq!(page["has_more"], false);
    assert!(search_playlists_from_body("not json", 1, 10).unwrap_err().starts_with("解析响应失败: "));
    assert_eq!(
        playlist_songs_from_body("42", r#"{"code": 0, "subcode": 0, "cdlist": []}"#, "/").unwrap_err(),
        "未找到歌单数据"
    );
    assert!(parse_vkey_body("<html>", "song.mp3").unwrap_err().starts_with("解析响应失败: "));
}

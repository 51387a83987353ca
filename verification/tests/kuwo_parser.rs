use hotdownloader_core::json::{JsonNumber, JsonValue};
use hotdownloader_core::platforms::kuwo::{
    build_qualities, detail_song, parse_artist, parse_artists, parse_detail_song, parse_song, pagination,
    picture_url, quality_info, search_artists_page, search_query,
};

fn to_json(v: &serde_json::Value) -> JsonValue {
    match v {
        serde_json::Value::Null => JsonValue::Null,
        serde_json::Value::Bool(b) => JsonValue::Bool(*b),
        serde_json::Value::Number(n) => {
            if let Some(u) = n.as_u64() {
                JsonValue::Number(JsonNumber::PosInt(u))
            } else if let Some(i) = n.as_i64() {
                JsonValue::Number(JsonNumber::NegInt(i))
            } else {
                JsonValue::Number(JsonNumber::Float(n.to_string()))
            }
        }
        serde_json::Value::String(s) => JsonValue::String(s.clone()),
        serde_json::Value::Array(a) => JsonValue::Array(a.iter().map(to_json).collect()),
        serde_json::Value::Object(m) => {
            JsonValue::Object(m.iter().map(|(k, v)| (k.clone(), to_json(v))).collect())
        }
    }
}

fn from_json(v: &JsonValue) -> serde_json::Value {
    match v {
        JsonValue::Null => serde_json::Value::Null,
        JsonValue::Bool(b) => serde_json::Value::Bool(*b),
        JsonValue::Number(JsonNumber::PosInt(u)) => serde_json::Value::from(*u),
        JsonValue::Number(JsonNumber::NegInt(i)) => serde_json::Value::from(*i),
        JsonValue::Number(JsonNumber::Float(t)) => serde_json::from_str(t).unwrap(),
        JsonValue::String(s) => serde_json::Value::String(s.clone()),
        JsonValue::Array(a) => serde_json::Value::Array(a.iter().map(from_json).collect()),
        JsonValue::Object(es) => {
            let mut m = serde_json::Map::new();
            for (k, v) in es {
                m.insert(k.clone(), from_json(v));
            }
            serde_json::Value::Object(m)
        }
    }
}

fn parse(text: &str) -> JsonValue {
    to_json(&serde_json::from_str(text).unwrap())
}

/// The byte count that a size such as `21.93Mb` stands for.
fn size_bytes(text: &str) -> u64 {
    let lower = text.to_lowercase();
    let (number, multiplier) = if let Some(n) = lower.strip_suffix("gb") {
        (n, 1024.0 * 1024.0 * 1024.0)
    } else if let Some(n) = lower.strip_suffix("mb") {
        (n, 1024.0 * 1024.0)
    } else if let Some(n) = lower.strip_suffix("kb") {
        (n, 1024.0)
    } else if let Some(n) = lower.strip_suffix('b') {
        (n, 1.0)
    } else {
        return 0;
    };
    if number.is_empty() || !number.chars().all(|c| c.is_ascii_digit() || c == '.') {
        return 0;
    }
    let value: f64 = number.parse().unwrap_or(0.0);
    (value * multiplier) as u64
}

fn sizes_for(song: &JsonValue) -> Vec<u64> {
    build_qualities(quality_info(song))
        .iter()
        .map(|q| size_bytes(&q.size_text))
        .collect()
}

fn song(raw: &serde_json::Value, separator: &str) -> serde_json::Value {
    let value = to_json(raw);
    let sizes = sizes_for(&value);
    from_json(&parse_song(&value, separator, &sizes).unwrap())
}

#[test]
fn search_song_uses_artist_and_album_short_paths() {
    let mut raw: serde_json::Value = serde_json::from_str(
        r#"{
            "MUSICRID": "MUSIC_6802907",
            "ARTIST": "林俊杰", "ARTISTID": "1062", "allartistid": "1062",
            "web_albumpic_short": "120/55/84/1457166092.jpg",
            "web_artistpic_short": "120/40/64/2063938955.jpg"
        }"#,
    )
    .unwrap();
    let first = song(&raw, "、");
    assert_eq!(
        first["coverUrl"],
        "https://img4.kuwo.cn/star/albumcover/300/55/84/1457166092.jpg"
    );
    assert_eq!(
        first["artists"][0]["coverUrl"],
        "https://img4.kuwo.cn/star/starheads/300/40/64/2063938955.jpg"
    );

    raw["albumpic"] = serde_json::Value::from("https://example.com/album.jpg");
    assert_eq!(song(&raw, "、")["coverUrl"], raw["albumpic"]);

    raw["albumpic"] = serde_json::Value::from("");
    raw["web_albumpic_short"] = serde_json::Value::from("");
    assert_eq!(song(&raw, "、")["coverUrl"], first["artists"][0]["coverUrl"]);

    raw["web_artistpic_short"] = serde_json::Value::from("");
    assert_eq!(song(&raw, "、")["coverUrl"], "");
}

#[test]
fn associates_artist_picture_with_its_artist_id() {
    let item = parse(
        r#"{"allartistid": "336&123", "ARTISTID": "123",
            "web_artistpic_short": "120/40/64/2063938955.jpg"}"#,
    );
    let artists: Vec<serde_json::Value> = parse_artists("甲&乙", &item).iter().map(from_json).collect();
    assert_eq!(artists[0]["coverUrl"], "");
    assert_eq!(
        artists[1]["coverUrl"],
        "https://img4.kuwo.cn/star/starheads/300/40/64/2063938955.jpg"
    );
    let empty = JsonValue::String(String::new());
    let invalid = JsonValue::String("invalid".to_string());
    assert_eq!(picture_url(Some(&empty), "starheads"), Vec::<char>::new());
    assert_eq!(picture_url(Some(&invalid), "starheads"), Vec::<char>::new());
}

#[test]
fn keeps_artist_id_positions_when_names_or_ids_are_empty() {
    let artists: Vec<serde_json::Value> = parse_artists("甲&&乙&丙", &parse(r#"{"allartistid": "123&999&&456"}"#))
        .iter()
        .map(from_json)
        .collect();
    let expected: Vec<serde_json::Value> = vec![
        serde_json::from_str(r#"{"id": "123", "mid": "", "name": "甲", "coverUrl": ""}"#).unwrap(),
        serde_json::from_str(r#"{"id": "", "mid": "", "name": "乙", "coverUrl": ""}"#).unwrap(),
        serde_json::from_str(r#"{"id": "456", "mid": "", "name": "丙", "coverUrl": ""}"#).unwrap(),
    ];
    assert_eq!(artists, expected);
    let missing: Vec<serde_json::Value> = parse_artists("甲&乙", &parse(r#"{"artistid": "123"}"#))
        .iter()
        .map(from_json)
        .collect();
    assert!(missing.iter().all(|artist| artist["id"] == ""));
    assert_eq!(
        from_json(&parse_artists("甲", &parse(r#"{"artistid": 123}"#))[0])["id"],
        "123"
    );
}

#[test]
fn search_song_preserves_related_ids_and_custom_separator() {
    let raw: serde_json::Value = serde_json::from_str(
        r#"{"MUSICRID": "MUSIC_228908", "ARTIST": "甲&乙",
            "allartistid": "336&123", "ALBUMID": "1293", "ALBUM": "叶惠美"}"#,
    )
    .unwrap();
    let parsed = song(&raw, "、");
    assert_eq!(parsed["artist"], "甲、乙");
    assert_eq!(parsed["artists"][1]["id"], "123");
    assert_eq!(parsed["albumId"], "1293");
    assert_eq!(parsed["albumMid"], "");
}

#[test]
fn parses_artist_song_without_id() {
    let item = parse(
        r#"{
            "musicrid": "228908",
            "name": "晴天",
            "artist": "周杰伦",
            "album": "叶惠美",
            "albumid": 1293,
            "artistid": "336",
            "duration": "269",
            "web_albumpic_short": "120/test.jpg",
            "MINFO": "level:p,bitrate:320,format:mp3,size:10.29Mb"
        }"#,
    );
    let sizes = sizes_for(&detail_song(&item));
    let parsed = from_json(&parse_detail_song(&item, " / ", &sizes).unwrap());
    assert_eq!(parsed["id"], 228908);
    assert_eq!(parsed["title"], "晴天");
    assert_eq!(parsed["album"], "叶惠美");
    assert_eq!(parsed["albumId"], "1293");
    assert_eq!(parsed["artists"][0]["id"], "336");
    assert_eq!(parsed["duration"], 269);
    assert_eq!(
        parsed["coverUrl"],
        "https://img4.kuwo.cn/star/albumcover/300/test.jpg"
    );
    assert!(!parsed["qualities"].as_array().unwrap().is_empty());
}

#[test]
fn album_search_uses_web_parameters() {
    let query = search_query("周杰伦 & Jay", 2, 20, "album");
    let params: std::collections::HashMap<String, String> = query.into_iter().collect();
    assert_eq!(params["all"], "周杰伦 & Jay");
    assert_eq!(params["pn"], "1");
    assert_eq!(params["ft"], "album");
}

#[test]
fn quality_records_keep_the_first_of_each_known_bitrate() {
    let records = build_qualities(
        "level:ff,bitrate:2000,format:flac,size:21.93Mb;level:p,bitrate:320,format:mp3,size:8.2Mb;\
         level:x,bitrate:2000,format:flac,size:1Mb;level:q,bitrate:999,format:aac,size:1Mb;\
         level:h,bitrate:20900,format:mflac,size:134.68Mb",
    );
    let names: Vec<(&str, &str, &str)> = records
        .iter()
        .map(|q| (q.quality.as_str(), q.filename.as_str(), q.size_text.as_str()))
        .collect();
    assert_eq!(
        names,
        vec![
            ("flac", "2000.flac", "21.93Mb"),
            ("320kmp3", "320.mp3", "8.2Mb"),
            ("臻品母带", "20900.mflac", "134.68Mb"),
        ]
    );
    assert!(build_qualities("").is_empty());
    assert!(build_qualities("level:,bitrate:320,format:mp3,size:1Mb").is_empty());
    assert_eq!(build_qualities("level:p,bitrate:0320,format:mp3,size:1.5Mb")[0].filename, "320.mp3");
}

#[test]
fn song_without_positive_id_is_skipped() {
    let value = parse(r#"{"MUSICRID": "MUSIC_0", "ARTIST": "甲"}"#);
    assert!(parse_song(&value, "、", &Vec::new()).is_none());
    let numeric = parse(r#"{"id": 77, "SONGNAME": "歌", "DURATION": 30}"#);
    let parsed = from_json(&parse_song(&numeric, "、", &Vec::new()).unwrap());
    assert_eq!(parsed["id"], 77);
    assert_eq!(parsed["mid"], "77");
    assert_eq!(parsed["mediaMid"], "77");
    assert_eq!(parsed["duration"], 30);
    let quoted = parse(r#"{"MUSICRID": "5", "FSONGNAME": "\"歌名\""}"#);
    assert_eq!(from_json(&parse_song(&quoted, "、", &Vec::new()).unwrap())["title"], "歌名");
}

#[test]
fn artist_listing_pagination_counts_loaded_items() {
    assert_eq!(pagination(&parse(r#"{"total": "45"}"#), 2, 20, 20).unwrap(), (45, true));
    assert_eq!(pagination(&parse(r#"{"total": 45}"#), 3, 20, 5).unwrap(), (45, false));
    assert!(!pagination(&parse(r#"{"total": 45}"#), 2, 20, 0).unwrap().1);
    assert_eq!(pagination(&parse(r#"{}"#), 1, 20, 5).unwrap_err(), "未找到歌手列表总数");
}

#[test]
fn parses_artist_and_pagination() {
    let artist = from_json(
        &parse_artist(&parse(
            r#"{"ARTISTID": "336", "ARTIST": "周杰伦", "SONGNUM": "1709", "ALBUMNUM": "45", "PICPATH": "240/test.jpg"}"#,
        ))
        .unwrap(),
    );
    assert_eq!(artist["id"], "336");
    assert_eq!(artist["songCount"], 1709);
    assert_eq!(artist["coverUrl"], "https://img1.kuwo.cn/star/starheads/240/test.jpg");

    assert_eq!(pagination(&parse(r#"{"total": "45"}"#), 2, 20, 20).unwrap(), (45, true));
    assert_eq!(pagination(&parse(r#"{"total": 45}"#), 3, 20, 5).unwrap(), (45, false));
    assert!(!pagination(&parse(r#"{"total": 45}"#), 2, 20, 0).unwrap().1);
}

#[test]
fn artist_search_skips_entries_without_id() {
    assert!(parse_artist(&parse(r#"{"ARTISTID": "0", "ARTIST": "x"}"#)).is_none());
    let cover = from_json(&parse_artist(&parse(r#"{"ARTISTID": 7, "hts_PICPATH": "http://a/b.jpg"}"#)).unwrap());
    assert_eq!(cover["coverUrl"], "https://a/b.jpg");
    assert_eq!(cover["albumCount"], 0);
    let page = from_json(
        &search_artists_page(
            &parse(r#"{"TOTAL": "3", "abslist": [{"ARTISTID": "1", "ARTIST": "A"}, {"ARTISTID": "0"}]}"#),
            1,
            2,
        )
        .unwrap(),
    );
    assert_eq!(page["artists"].as_array().unwrap().len(), 1);
    assert_eq!(page["has_more"], true);
    assert_eq!(page["total"], 3);
    assert_eq!(search_artists_page(&parse(r#"{}"#), 1, 2).unwrap_err(), "未找到歌手列表");
}

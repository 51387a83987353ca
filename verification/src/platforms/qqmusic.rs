//! QQ Music song entries in the front end's shape: ids, titles, artists, the
//! album, the cover and the qualities that can be downloaded.

use vstd::prelude::*;

use crate::json::{
    array_view, entries_view, index_opt, insert_pair, json_string, json_view, opt_as_array, opt_as_str,
    opt_as_u64, opt_deref, opt_view, spec_as_array, spec_as_str, spec_as_u64, spec_get, spec_index,
    spec_object_of, value_get, JsonNumber, JsonValue, JsonView, NumberView,
};
use crate::platforms::common::{
    entity_id, join_chars, spec_entity_id, spec_join, spec_non_empty_str, spec_str_or_empty, str_or_empty,
};
use crate::text::{is_blank, parse_u64, push_str_chars, spec_parse_u64, spec_trim, str_chars, string_from_chars};

verus! {

/// A JSON string.
pub open spec fn jstr(s: Seq<char>) -> JsonView {
    JsonView::String(s)
}

/// A JSON non-negative integer.
pub open spec fn jnum(n: u64) -> JsonView {
    JsonView::Number(NumberView::PosInt(n))
}

/// An artist of a song: its number id as a string, its MID and its name.
pub struct ArtistRef {
    pub id: Seq<char>,
    pub mid: Seq<char>,
    pub name: Seq<char>,
}

/// An artist's fields as read from an entry.
pub struct ArtistFields {
    pub id: String,
    pub mid: String,
    pub name: String,
}

/// The value under `key` when the entry has that key, else the value under
/// `fallback` (`item.get(key).unwrap_or(&item[fallback])`).
pub open spec fn spec_get_or(item: JsonView, key: Seq<char>, fallback: Seq<char>) -> JsonView {
    match spec_get(item, key) {
        Some(v) => v,
        None => spec_index(item, fallback),
    }
}

/// The text under `key`, else the text under `fallback`.
pub open spec fn spec_str_either(item: JsonView, key: Seq<char>, fallback: Seq<char>) -> Option<Seq<char>> {
    match spec_as_str(spec_index(item, key)) {
        Some(s) => Some(s),
        None => spec_as_str(spec_index(item, fallback)),
    }
}

/// An artist entry: it needs a name that is not blank, given as `name` or
/// `singer_name`; the id and MID may be missing.
pub open spec fn spec_artist_entry(item: JsonView) -> Option<ArtistRef> {
    match spec_str_either(item, "name"@, "singer_name"@) {
        None => None,
        Some(name) => if spec_trim(name).len() == 0 {
            None
        } else {
            Some(
                ArtistRef {
                    id: spec_entity_id(spec_get_or(item, "id"@, "singer_id"@), false),
                    mid: match spec_str_either(item, "mid"@, "singer_mid"@) {
                        Some(m) => m,
                        None => Seq::empty(),
                    },
                    name: name,
                },
            )
        },
    }
}

/// The artists of a list of entries, in order, skipping entries without one.
pub open spec fn spec_artist_entries(items: Seq<JsonView>) -> Seq<ArtistRef>
    decreases items.len(),
{
    if items.len() == 0 {
        Seq::empty()
    } else {
        spec_artist_entries(items.drop_last()) + match spec_artist_entry(items.last()) {
            Some(a) => seq![a],
            None => Seq::empty(),
        }
    }
}

/// The artists of a value: none unless it is an array.
pub open spec fn spec_artist_list(v: JsonView) -> Seq<ArtistRef> {
    match spec_as_array(v) {
        Some(items) => spec_artist_entries(items),
        None => Seq::empty(),
    }
}

/// An artist as the front end receives it.
pub open spec fn spec_artist_object(a: ArtistRef) -> JsonView {
    JsonView::Object(spec_object_of(seq![("id"@, jstr(a.id)), ("mid"@, jstr(a.mid)), ("name"@, jstr(a.name))]))
}

/// The artists as the front end receives them.
pub open spec fn spec_artist_objects(list: Seq<ArtistRef>) -> Seq<JsonView> {
    list.map_values(|a: ArtistRef| spec_artist_object(a))
}

/// The names of the artists.
pub open spec fn spec_artist_names(list: Seq<ArtistRef>) -> Seq<Seq<char>> {
    list.map_values(|a: ArtistRef| a.name)
}

/// One downloadable quality: its label, the file name on the server and the
/// size in bytes.
pub open spec fn spec_quality_object(label: Seq<char>, filename: Seq<char>, size: u64) -> JsonView {
    JsonView::Object(
        spec_object_of(seq![("quality"@, jstr(label)), ("filename"@, jstr(filename)), ("size"@, jnum(size))]),
    )
}

/// The number of standard qualities.
pub const STANDARD_QUALITY_COUNT: usize = 10;

/// A standard quality: its label, the file name's prefix and suffix, and the
/// key of its size in the file information.
pub open spec fn spec_standard_row(k: int) -> (Seq<char>, Seq<char>, Seq<char>, Seq<char>) {
    if k == 0 {
        ("48kaac"@, "C200"@, ".m4a"@, "size_48aac"@)
    } else if k == 1 {
        ("96kaac"@, "C400"@, ".m4a"@, "size_96aac"@)
    } else if k == 2 {
        ("192kaac"@, "C600"@, ".m4a"@, "size_192aac"@)
    } else if k == 3 {
        ("96kogg"@, "O4M0"@, ".mgg"@, "size_96ogg"@)
    } else if k == 4 {
        ("192kogg"@, "O6M0"@, ".mgg"@, "size_192ogg"@)
    } else if k == 5 {
        ("128kmp3"@, "M500"@, ".mp3"@, "size_128mp3"@)
    } else if k == 6 {
        ("320kmp3"@, "M800"@, ".mp3"@, "size_320mp3"@)
    } else if k == 7 {
        ("ape"@, "A000"@, ".ape"@, "size_ape"@)
    } else if k == 8 {
        ("flac"@, "F0M0"@, ".mflac"@, "size_flac"@)
    } else {
        ("hires"@, "RSM1"@, ".mflac"@, "size_hires"@)
    }
}

/// A number under a key of the file information, 0 when missing.
pub open spec fn spec_u64_or_zero(v: JsonView) -> u64 {
    match spec_as_u64(v) {
        Some(n) => n,
        None => 0,
    }
}

/// The first `k` standard qualities that the file offers (a positive size).
pub open spec fn spec_standard_qualities(file: JsonView, k: int) -> Seq<JsonView>
    decreases k,
{
    if k <= 0 {
        Seq::empty()
    } else {
        let row = spec_standard_row(k - 1);
        let size = spec_u64_or_zero(spec_index(file, row.3));
        let media_mid = spec_str_or_empty(spec_index(file, "media_mid"@));
        spec_standard_qualities(file, k - 1) + if size > 0 {
            seq![spec_quality_object(row.0, row.1 + media_mid + row.2, size)]
        } else {
            Seq::empty()
        }
    }
}

/// The item at `i` of an array, `null` past its end.
pub open spec fn spec_item(items: Seq<JsonView>, i: int) -> JsonView {
    if 0 <= i < items.len() {
        items[i]
    } else {
        JsonView::Null
    }
}

/// One special quality when its size is positive and its key is not empty.
pub open spec fn spec_special(label: Seq<char>, prefix: Seq<char>, key: Seq<char>, size: u64) -> Seq<JsonView> {
    if size > 0 && key.len() > 0 {
        seq![spec_quality_object(label, prefix + key + ".mflac"@, size)]
    } else {
        Seq::empty()
    }
}

/// The special qualities, which need both the `size_new` list and the `vs`
/// keys: spatial audio, spatial 5.1 and the master copy, in that order.
pub open spec fn spec_special_qualities(file: JsonView, vs: JsonView) -> Seq<JsonView> {
    match (spec_as_array(spec_index(file, "size_new"@)), spec_as_array(vs)) {
        (Some(sizes), Some(keys)) => {
            let vs3 = spec_str_or_empty(spec_item(keys, 3));
            let vs4 = spec_str_or_empty(spec_item(keys, 4));
            spec_special("臻品全景声"@, "Q0M0"@, vs4, spec_u64_or_zero(spec_item(sizes, 1))) + spec_special(
                "臻品全景声 5.1"@,
                "Q0M1"@,
                vs4,
                spec_u64_or_zero(spec_item(sizes, 2)),
            ) + spec_special("臻品母带"@, "AIM0"@, vs3, spec_u64_or_zero(spec_item(sizes, 0)))
        },
        _ => Seq::empty(),
    }
}

/// The qualities a song offers: the standard ones, then the special ones.
pub open spec fn spec_build_qualities(file: JsonView, vs: JsonView) -> Seq<JsonView> {
    spec_standard_qualities(file, STANDARD_QUALITY_COUNT as int) + spec_special_qualities(file, vs)
}

/// The song's title: `name`, else `title`, else nothing.
pub open spec fn spec_song_title(song: JsonView) -> Seq<char> {
    match spec_non_empty_str(spec_index(song, "name"@)) {
        Some(t) => t,
        None => match spec_non_empty_str(spec_index(song, "title"@)) {
            Some(t) => t,
            None => Seq::empty(),
        },
    }
}

/// The MID of the first singer of the raw list.
pub open spec fn spec_first_singer_mid(song: JsonView) -> Seq<char> {
    match spec_as_array(spec_index(song, "singer"@)) {
        Some(items) => if items.len() > 0 {
            spec_str_or_empty(spec_index(items[0], "mid"@))
        } else {
            Seq::empty()
        },
        None => Seq::empty(),
    }
}

/// The cover: the album's picture, else the first singer's, else nothing.
pub open spec fn spec_cover_url(album_mid: Seq<char>, singer_mid: Seq<char>) -> Seq<char> {
    if album_mid.len() > 0 && album_mid != "空"@ {
        "https://y.gtimg.cn/music/photo_new/T002R500x500M000"@ + album_mid + ".jpg"@
    } else if singer_mid.len() > 0 {
        "https://y.gtimg.cn/music/photo_new/T001R500x500M000"@ + singer_mid + ".jpg"@
    } else {
        Seq::empty()
    }
}

/// The song's number id: a number, or a number written as a string, else 0.
pub open spec fn spec_song_id(v: JsonView) -> u64 {
    match spec_as_u64(v) {
        Some(n) => n,
        None => match spec_as_str(v) {
            Some(s) => match spec_parse_u64(s) {
                Some(n) => n,
                None => 0,
            },
            None => 0,
        },
    }
}

/// A song in the front end's shape; none without a MID or a media MID, which
/// the download needs.
pub open spec fn spec_parse_song(song: JsonView, separator: Seq<char>) -> Option<JsonView> {
    let mid = spec_str_or_empty(spec_index(song, "mid"@));
    let media_mid = spec_str_or_empty(spec_index(spec_index(song, "file"@), "media_mid"@));
    if mid.len() == 0 || media_mid.len() == 0 {
        None
    } else {
        let artists = spec_artist_list(spec_index(song, "singer"@));
        let album = spec_index(song, "album"@);
        let album_mid = spec_str_or_empty(spec_index(album, "mid"@));
        Some(
            JsonView::Object(
                spec_object_of(
                    seq![
                        ("id"@, jnum(spec_song_id(spec_index(song, "id"@)))),
                        ("mid"@, jstr(mid)),
                        ("title"@, jstr(spec_song_title(song))),
                        ("artist"@, jstr(spec_join(spec_artist_names(artists), separator))),
                        ("artists"@, JsonView::Array(spec_artist_objects(artists))),
                        ("album"@, jstr(spec_str_or_empty(spec_index(album, "name"@)))),
                        ("albumId"@, jstr(spec_entity_id(spec_index(album, "id"@), false))),
                        ("albumMid"@, jstr(album_mid)),
                        ("coverUrl"@, jstr(spec_cover_url(album_mid, spec_first_singer_mid(song)))),
                        ("mediaMid"@, jstr(media_mid)),
                        (
                            "qualities"@,
                            JsonView::Array(
                                spec_build_qualities(spec_index(song, "file"@), spec_index(song, "vs"@)),
                            ),
                        ),
                    ],
                ),
            ),
        )
    }
}

/// A JSON string holding the characters.
pub fn string_value(chars: &[char]) -> (r: JsonValue)
    ensures
        json_view(r) == jstr(chars@),
{
    JsonValue::String(string_from_chars(chars))
}

/// A JSON non-negative integer.
pub fn number_value(n: u64) -> (r: JsonValue)
    ensures
        json_view(r) == jnum(n),
{
    JsonValue::Number(JsonNumber::PosInt(n))
}

/// The text under `key`, else the text under `fallback`.
fn str_either<'a>(item: &'a JsonValue, key: &str, fallback: &str) -> (r: Option<&'a str>)
    ensures
        match spec_str_either(json_view(*item), key@, fallback@) {
            Some(s) => r is Some && r->0@ == s,
            None => r is None,
        },
{
    match opt_as_str(value_get(item, key)) {
        Some(s) => Some(s),
        None => opt_as_str(value_get(item, fallback)),
    }
}

/// An artist entry's fields, if it names an artist.
pub fn artist_entry(item: &JsonValue) -> (r: Option<ArtistFields>)
    ensures
        match spec_artist_entry(json_view(*item)) {
            Some(a) => r is Some && r->0.id@ == a.id && r->0.mid@ == a.mid && r->0.name@ == a.name,
            None => r is None,
        },
{
    let name = match str_either(item, "name", "singer_name") {
        Some(n) => n,
        None => return None,
    };
    let name_chars = str_chars(name);
    if is_blank(name_chars.as_slice()) {
        return None;
    }
    let id_value: Option<&JsonValue> = match value_get(item, "id") {
        Some(v) => Some(v),
        None => value_get(item, "singer_id"),
    };
    let id = entity_id(id_value, false);
    let mid = match str_either(item, "mid", "singer_mid") {
        Some(m) => String::from_str(m),
        None => String::new(),
    };
    Some(ArtistFields { id, mid, name: String::from_str(name) })
}

/// An artist as the front end receives it.
pub fn artist_object(a: &ArtistFields) -> (r: JsonValue)
    ensures
        json_view(r) == spec_artist_object(ArtistRef { id: a.id@, mid: a.mid@, name: a.name@ }),
{
    let mut es: Vec<(String, JsonValue)> = Vec::new();
    let ghost mut pairs: Seq<(Seq<char>, JsonView)> = Seq::empty();
    assert(entries_view(es@) =~= spec_object_of(pairs));
    insert_pair(&mut es, Ghost(pairs), "id", json_string(a.id.as_str()));
    proof { pairs = pairs.push(("id"@, jstr(a.id@))); }
    insert_pair(&mut es, Ghost(pairs), "mid", json_string(a.mid.as_str()));
    proof { pairs = pairs.push(("mid"@, jstr(a.mid@))); }
    insert_pair(&mut es, Ghost(pairs), "name", json_string(a.name.as_str()));
    proof { pairs = pairs.push(("name"@, jstr(a.name@))); }
    assert(pairs =~= seq![("id"@, jstr(a.id@)), ("mid"@, jstr(a.mid@)), ("name"@, jstr(a.name@))]);
    JsonValue::Object(es)
}

/// The artists of a value and their names; none unless it is an array.
pub fn artists_with_names(value: Option<&JsonValue>) -> (r: (Vec<JsonValue>, Vec<Vec<char>>))
    ensures
        array_view(r.0@) == spec_artist_objects(spec_artist_list(opt_view(opt_deref(value)))),
        r.1@.map_values(|n: Vec<char>| n@) == spec_artist_names(spec_artist_list(opt_view(opt_deref(value)))),
{
    let mut objects: Vec<JsonValue> = Vec::new();
    let mut names: Vec<Vec<char>> = Vec::new();
    let items = match opt_as_array(value) {
        Some(items) => items,
        None => {
            assert(array_view(objects@) =~= Seq::<JsonView>::empty());
            assert(names@.map_values(|n: Vec<char>| n@) =~= Seq::<Seq<char>>::empty());
            return (objects, names);
        },
    };
    let ghost views = array_view(items@);
    assert(spec_as_array(opt_view(opt_deref(value))) == Some(views));
    let mut i: usize = 0;
    while i < items.len()
        invariant
            i <= items.len(),
            views == array_view(items@),
            array_view(objects@) == spec_artist_objects(spec_artist_entries(views.take(i as int))),
            names@.map_values(|n: Vec<char>| n@) == spec_artist_names(spec_artist_entries(views.take(i as int))),
        decreases items.len() - i,
    {
        assert(views.take(i + 1).drop_last() =~= views.take(i as int));
        assert(views.take(i + 1).last() == json_view(items@[i as int]));
        let ghost before = spec_artist_entries(views.take(i as int));
        match artist_entry(&items[i]) {
            Some(a) => {
                let ghost entry = ArtistRef { id: a.id@, mid: a.mid@, name: a.name@ };
                assert(spec_artist_entries(views.take(i + 1)) == before + seq![entry]);
                let ghost prev_objects = objects@;
                let ghost prev_names = names@;
                objects.push(artist_object(&a));
                names.push(str_chars(a.name.as_str()));
                assert(array_view(objects@) =~= array_view(prev_objects).push(spec_artist_object(entry)));
                assert(spec_artist_objects(before + seq![entry]) =~= spec_artist_objects(before).push(
                    spec_artist_object(entry),
                ));
                assert(names@.map_values(|n: Vec<char>| n@) =~= prev_names.map_values(|n: Vec<char>| n@).push(
                    entry.name,
                ));
                assert(spec_artist_names(before + seq![entry]) =~= spec_artist_names(before).push(entry.name));
            },
            None => {
                assert(spec_artist_entries(views.take(i + 1)) =~= before);
            },
        }
        i = i + 1;
    }
    assert(views.take(i as int) =~= views);
    (objects, names)
}

/// The artists of a value as the front end receives them; none unless it is
/// an array.
pub fn parse_artists(value: Option<&JsonValue>) -> (r: Vec<JsonValue>)
    ensures
        array_view(r@) == spec_artist_objects(spec_artist_list(opt_view(opt_deref(value)))),
{
    let (objects, _) = artists_with_names(value);
    objects
}

/// A standard quality: its label, the file name's prefix and suffix, and the
/// key of its size.
fn standard_row(k: usize) -> (r: (&'static str, &'static str, &'static str, &'static str))
    requires
        k < STANDARD_QUALITY_COUNT,
    ensures
        r.0@ == spec_standard_row(k as int).0,
        r.1@ == spec_standard_row(k as int).1,
        r.2@ == spec_standard_row(k as int).2,
        r.3@ == spec_standard_row(k as int).3,
{
    if k == 0 {
        ("48kaac", "C200", ".m4a", "size_48aac")
    } else if k == 1 {
        ("96kaac", "C400", ".m4a", "size_96aac")
    } else if k == 2 {
        ("192kaac", "C600", ".m4a", "size_192aac")
    } else if k == 3 {
        ("96kogg", "O4M0", ".mgg", "size_96ogg")
    } else if k == 4 {
        ("192kogg", "O6M0", ".mgg", "size_192ogg")
    } else if k == 5 {
        ("128kmp3", "M500", ".mp3", "size_128mp3")
    } else if k == 6 {
        ("320kmp3", "M800", ".mp3", "size_320mp3")
    } else if k == 7 {
        ("ape", "A000", ".ape", "size_ape")
    } else if k == 8 {
        ("flac", "F0M0", ".mflac", "size_flac")
    } else {
        ("hires", "RSM1", ".mflac", "size_hires")
    }
}

/// One downloadable quality as the front end receives it.
pub fn quality_object(label: &str, filename: &[char], size: u64) -> (r: JsonValue)
    ensures
        json_view(r) == spec_quality_object(label@, filename@, size),
{
    let mut es: Vec<(String, JsonValue)> = Vec::new();
    let ghost mut pairs: Seq<(Seq<char>, JsonView)> = Seq::empty();
    assert(entries_view(es@) =~= spec_object_of(pairs));
    insert_pair(&mut es, Ghost(pairs), "quality", json_string(label));
    proof { pairs = pairs.push(("quality"@, jstr(label@))); }
    insert_pair(&mut es, Ghost(pairs), "filename", string_value(filename));
    proof { pairs = pairs.push(("filename"@, jstr(filename@))); }
    insert_pair(&mut es, Ghost(pairs), "size", number_value(size));
    proof { pairs = pairs.push(("size"@, jnum(size))); }
    assert(pairs =~= seq![("quality"@, jstr(label@)), ("filename"@, jstr(filename@)), ("size"@, jnum(size))]);
    JsonValue::Object(es)
}

/// The item at `i` of an array, if there is one.
fn item_at(items: &Vec<JsonValue>, i: usize) -> (r: Option<&JsonValue>)
    ensures
        opt_view(opt_deref(r)) == spec_item(array_view(items@), i as int),
{
    if i < items.len() {
        Some(&items[i])
    } else {
        None
    }
}

/// Appends a special quality when its size is positive and its key is not empty.
fn push_special(list: &mut Vec<JsonValue>, label: &str, prefix: &str, key: &str, size: u64)
    ensures
        array_view(final(list)@) == array_view(old(list)@) + spec_special(label@, prefix@, key@, size),
{
    proof {
        reveal_strlit(".mflac");
    }
    if size > 0 && key.unicode_len() > 0 {
        let mut name: Vec<char> = Vec::new();
        push_str_chars(&mut name, prefix);
        push_str_chars(&mut name, key);
        push_str_chars(&mut name, ".mflac");
        let ghost before = list@;
        list.push(quality_object(label, name.as_slice(), size));
        assert(name@ =~= prefix@ + key@ + ".mflac"@);
        assert(array_view(list@) =~= array_view(before) + spec_special(label@, prefix@, key@, size));
    } else {
        assert(array_view(list@) =~= array_view(old(list)@) + spec_special(label@, prefix@, key@, size));
    }
}

/// The qualities a song offers: each standard quality with a positive size,
/// then spatial audio, spatial 5.1 and the master copy where both their size
/// and their key are given.
pub fn build_qualities(file: Option<&JsonValue>, vs: Option<&JsonValue>) -> (r: Vec<JsonValue>)
    ensures
        array_view(r@) == spec_build_qualities(opt_view(opt_deref(file)), opt_view(opt_deref(vs))),
{
    let ghost fv = opt_view(opt_deref(file));
    let media_mid = str_or_empty(index_opt(file, "media_mid"));
    let mut list: Vec<JsonValue> = Vec::new();
    let mut k: usize = 0;
    assert(array_view(list@) =~= spec_standard_qualities(fv, 0));
    while k < STANDARD_QUALITY_COUNT
        invariant
            k <= STANDARD_QUALITY_COUNT,
            fv == opt_view(opt_deref(file)),
            media_mid@ == spec_str_or_empty(spec_index(fv, "media_mid"@)),
            array_view(list@) == spec_standard_qualities(fv, k as int),
        decreases STANDARD_QUALITY_COUNT - k,
    {
        let (label, prefix, suffix, size_key) = standard_row(k);
        let size = match opt_as_u64(index_opt(file, size_key)) {
            Some(n) => n,
            None => 0,
        };
        let ghost before = list@;
        if size > 0 {
            let mut name: Vec<char> = Vec::new();
            push_str_chars(&mut name, prefix);
            push_str_chars(&mut name, media_mid);
            push_str_chars(&mut name, suffix);
            list.push(quality_object(label, name.as_slice(), size));
            assert(name@ =~= prefix@ + media_mid@ + suffix@);
            assert(array_view(list@) =~= array_view(before).push(
                spec_quality_object(label@, prefix@ + media_mid@ + suffix@, size),
            ));
        }
        assert(array_view(list@) =~= spec_standard_qualities(fv, k + 1));
        k = k + 1;
    }
    let ghost standard = array_view(list@);
    match (opt_as_array(index_opt(file, "size_new")), opt_as_array(vs)) {
        (Some(sizes), Some(keys)) => {
            let vs3 = str_or_empty(item_at(keys, 3));
            let vs4 = str_or_empty(item_at(keys, 4));
            let panorama = match opt_as_u64(item_at(sizes, 1)) {
                Some(n) => n,
                None => 0,
            };
            let panorama_51 = match opt_as_u64(item_at(sizes, 2)) {
                Some(n) => n,
                None => 0,
            };
            let master = match opt_as_u64(item_at(sizes, 0)) {
                Some(n) => n,
                None => 0,
            };
            push_special(&mut list, "臻品全景声", "Q0M0", vs4, panorama);
            push_special(&mut list, "臻品全景声 5.1", "Q0M1", vs4, panorama_51);
            push_special(&mut list, "臻品母带", "AIM0", vs3, master);
            assert(array_view(list@) =~= standard + spec_special_qualities(fv, opt_view(opt_deref(vs))));
        },
        _ => {
            assert(array_view(list@) =~= standard + spec_special_qualities(fv, opt_view(opt_deref(vs))));
        },
    }
    list
}

/// The song's number id: a number, or a number written as a string, else 0.
fn song_id(v: Option<&JsonValue>) -> (r: u64)
    ensures
        r == spec_song_id(opt_view(opt_deref(v))),
{
    match opt_as_u64(v) {
        Some(n) => n,
        None => match opt_as_str(v) {
            Some(s) => {
                let chars = str_chars(s);
                match parse_u64(chars.as_slice()) {
                    Some(n) => n,
                    None => 0,
                }
            },
            None => 0,
        },
    }
}

/// The song's title: `name`, else `title`, else nothing.
fn song_title(song: &JsonValue) -> (r: &str)
    ensures
        r@ == spec_song_title(json_view(*song)),
{
    proof {
        reveal_strlit("");
    }
    match crate::platforms::common::non_empty_str(value_get(song, "name")) {
        Some(t) => t,
        None => match crate::platforms::common::non_empty_str(value_get(song, "title")) {
            Some(t) => t,
            None => "",
        },
    }
}

/// The cover: the album's picture, else the first singer's, else nothing.
fn cover_url(album_mid: &str, singer_mid: &str) -> (r: Vec<char>)
    ensures
        r@ == spec_cover_url(album_mid@, singer_mid@),
{
    proof {
        reveal_strlit("空");
        reveal_strlit(".jpg");
        reveal_strlit("https://y.gtimg.cn/music/photo_new/T002R500x500M000");
        reveal_strlit("https://y.gtimg.cn/music/photo_new/T001R500x500M000");
    }
    let mut out: Vec<char> = Vec::new();
    let album = str_chars(album_mid);
    let blank_mark = str_chars("空");
    if album.len() > 0 && !crate::text::chars_eq(album.as_slice(), blank_mark.as_slice()) {
        push_str_chars(&mut out, "https://y.gtimg.cn/music/photo_new/T002R500x500M000");
        push_str_chars(&mut out, album_mid);
        push_str_chars(&mut out, ".jpg");
    } else if singer_mid.unicode_len() > 0 {
        push_str_chars(&mut out, "https://y.gtimg.cn/music/photo_new/T001R500x500M000");
        push_str_chars(&mut out, singer_mid);
        push_str_chars(&mut out, ".jpg");
    }
    out
}

/// The MID of the first singer of the raw list.
fn first_singer_mid(song: &JsonValue) -> (r: &str)
    ensures
        r@ == spec_first_singer_mid(json_view(*song)),
{
    proof {
        reveal_strlit("");
    }
    match opt_as_array(value_get(song, "singer")) {
        Some(items) => if items.len() > 0 {
            assert(array_view(items@)[0] == json_view(items@[0]));
            str_or_empty(value_get(&items[0], "mid"))
        } else {
            ""
        },
        None => "",
    }
}

/// A song in the front end's shape: its ids, title, artists joined by the
/// separator, album, cover and qualities; none without a MID or a media MID.
pub fn parse_song(song: &JsonValue, artist_separator: &str) -> (r: Option<JsonValue>)
    ensures
        match spec_parse_song(json_view(*song), artist_separator@) {
            Some(v) => r is Some && json_view(r->0) == v,
            None => r is None,
        },
{
    let ghost sv = json_view(*song);
    let mid = str_or_empty(value_get(song, "mid"));
    if mid.unicode_len() == 0 {
        return None;
    }
    let file = value_get(song, "file");
    let media_mid = str_or_empty(index_opt(file, "media_mid"));
    if media_mid.unicode_len() == 0 {
        return None;
    }
    let id = song_id(value_get(song, "id"));
    let title = song_title(song);
    let (artists, names) = artists_with_names(value_get(song, "singer"));
    let artist = join_chars(&names, artist_separator);
    let album = value_get(song, "album");
    let album_name = str_or_empty(index_opt(album, "name"));
    let album_id = entity_id(index_opt(album, "id"), false);
    let album_mid = str_or_empty(index_opt(album, "mid"));
    let cover = cover_url(album_mid, first_singer_mid(song));
    let qualities = build_qualities(file, value_get(song, "vs"));
    let ghost artists_view = spec_artist_list(spec_index(sv, "singer"@));
    let ghost pieces = seq![
        ("id"@, jnum(id)),
        ("mid"@, jstr(mid@)),
        ("title"@, jstr(title@)),
        ("artist"@, jstr(artist@)),
        ("artists"@, JsonView::Array(array_view(artists@))),
        ("album"@, jstr(album_name@)),
        ("albumId"@, jstr(album_id@)),
        ("albumMid"@, jstr(album_mid@)),
        ("coverUrl"@, jstr(cover@)),
        ("mediaMid"@, jstr(media_mid@)),
        ("qualities"@, JsonView::Array(array_view(qualities@))),
    ];
    let mut es: Vec<(String, JsonValue)> = Vec::new();
    let ghost mut pairs: Seq<(Seq<char>, JsonView)> = Seq::empty();
    assert(entries_view(es@) =~= spec_object_of(pairs));
    insert_pair(&mut es, Ghost(pairs), "id", number_value(id));
    proof { pairs = pairs.push(pieces[0]); }
    insert_pair(&mut es, Ghost(pairs), "mid", json_string(mid));
    proof { pairs = pairs.push(pieces[1]); }
    insert_pair(&mut es, Ghost(pairs), "title", json_string(title));
    proof { pairs = pairs.push(pieces[2]); }
    insert_pair(&mut es, Ghost(pairs), "artist", string_value(artist.as_slice()));
    proof { pairs = pairs.push(pieces[3]); }
    insert_pair(&mut es, Ghost(pairs), "artists", JsonValue::Array(artists));
    proof { pairs = pairs.push(pieces[4]); }
    insert_pair(&mut es, Ghost(pairs), "album", json_string(album_name));
    proof { pairs = pairs.push(pieces[5]); }
    insert_pair(&mut es, Ghost(pairs), "albumId", JsonValue::String(album_id));
    proof { pairs = pairs.push(pieces[6]); }
    insert_pair(&mut es, Ghost(pairs), "albumMid", json_string(album_mid));
    proof { pairs = pairs.push(pieces[7]); }
    insert_pair(&mut es, Ghost(pairs), "coverUrl", string_value(cover.as_slice()));
    proof { pairs = pairs.push(pieces[8]); }
    insert_pair(&mut es, Ghost(pairs), "mediaMid", json_string(media_mid));
    proof { pairs = pairs.push(pieces[9]); }
    insert_pair(&mut es, Ghost(pairs), "qualities", JsonValue::Array(qualities));
    proof { pairs = pairs.push(pieces[10]); }
    assert(pairs =~= pieces);
    Some(JsonValue::Object(es))
}

/// The songs of a list that parse, in order.
pub open spec fn spec_parsed_songs(items: Seq<JsonView>, separator: Seq<char>) -> Seq<JsonView>
    decreases items.len(),
{
    if items.len() == 0 {
        Seq::empty()
    } else {
        spec_parsed_songs(items.drop_last(), separator) + match spec_parse_song(items.last(), separator) {
            Some(v) => seq![v],
            None => Seq::empty(),
        }
    }
}

/// Parses every song of a list, keeping those that parse.
pub fn parse_songs(items: &Vec<JsonValue>, artist_separator: &str) -> (r: Vec<JsonValue>)
    ensures
        array_view(r@) == spec_parsed_songs(array_view(items@), artist_separator@),
{
    let ghost views = array_view(items@);
    let mut songs: Vec<JsonValue> = Vec::new();
    let mut i: usize = 0;
    while i < items.len()
        invariant
            i <= items.len(),
            views == array_view(items@),
            array_view(songs@) == spec_parsed_songs(views.take(i as int), artist_separator@),
        decreases items.len() - i,
    {
        assert(views.take(i + 1).drop_last() =~= views.take(i as int));
        assert(views.take(i + 1).last() == json_view(items@[i as int]));
        let ghost before = songs@;
        match parse_song(&items[i], artist_separator) {
            Some(v) => {
                songs.push(v);
                assert(array_view(songs@) =~= array_view(before) + seq![json_view(v)]);
            },
            None => {},
        }
        i = i + 1;
    }
    assert(views.take(i as int) =~= views);
    songs
}

/// The standard quality table names ten different qualities, each with its own
/// file-name prefix, so no quality asks for another quality's file.
pub proof fn lemma_standard_rows_distinct(i: int, j: int)
    requires
        0 <= i < STANDARD_QUALITY_COUNT,
        0 <= j < STANDARD_QUALITY_COUNT,
        i != j,
    ensures
        spec_standard_row(i).0 != spec_standard_row(j).0,
        spec_standard_row(i).1 != spec_standard_row(j).1,
{
    reveal_strlit("48kaac");
    reveal_strlit("96kaac");
    reveal_strlit("192kaac");
    reveal_strlit("96kogg");
    reveal_strlit("192kogg");
    reveal_strlit("128kmp3");
    reveal_strlit("320kmp3");
    reveal_strlit("ape");
    reveal_strlit("flac");
    reveal_strlit("hires");
    reveal_strlit("C200");
    reveal_strlit("C400");
    reveal_strlit("C600");
    reveal_strlit("O4M0");
    reveal_strlit("O6M0");
    reveal_strlit("M500");
    reveal_strlit("M800");
    reveal_strlit("A000");
    reveal_strlit("F0M0");
    reveal_strlit("RSM1");
    let a = spec_standard_row(i);
    let b = spec_standard_row(j);
    assert(a.0.len() != b.0.len() || a.0[0] != b.0[0] || a.0[1] != b.0[1] || a.0[2] != b.0[2]
        || a.0[a.0.len() - 1] != b.0[b.0.len() - 1]);
    assert(a.1[0] != b.1[0] || a.1[1] != b.1[1] || a.1[2] != b.1[2] || a.1[3] != b.1[3]);
}


/// Each standard quality asks for the file that its label names: the label
/// `320kmp3` goes with the prefix `M800` and the suffix `.mp3`, `128kmp3` with
/// `M500` and `.mp3`, `flac` with `F0M0` and `.mflac`, and so on through the
/// table; its size is read under `size_` and the label without its `k`.
pub proof fn lemma_standard_row_files(k: int)
    requires
        0 <= k < STANDARD_QUALITY_COUNT,
    ensures
        ({
            let (label, prefix, suffix, size_key) = spec_standard_row(k);
            &&& label == "48kaac"@ ==> prefix == "C200"@ && suffix == ".m4a"@ && size_key == "size_48aac"@
            &&& label == "96kaac"@ ==> prefix == "C400"@ && suffix == ".m4a"@ && size_key == "size_96aac"@
            &&& label == "192kaac"@ ==> prefix == "C600"@ && suffix == ".m4a"@ && size_key == "size_192aac"@
            &&& label == "96kogg"@ ==> prefix == "O4M0"@ && suffix == ".mgg"@ && size_key == "size_96ogg"@
            &&& label == "192kogg"@ ==> prefix == "O6M0"@ && suffix == ".mgg"@ && size_key == "size_192ogg"@
            &&& label == "128kmp3"@ ==> prefix == "M500"@ && suffix == ".mp3"@ && size_key == "size_128mp3"@
            &&& label == "320kmp3"@ ==> prefix == "M800"@ && suffix == ".mp3"@ && size_key == "size_320mp3"@
            &&& label == "ape"@ ==> prefix == "A000"@ && suffix == ".ape"@ && size_key == "size_ape"@
            &&& label == "flac"@ ==> prefix == "F0M0"@ && suffix == ".mflac"@ && size_key == "size_flac"@
            &&& label == "hires"@ ==> prefix == "RSM1"@ && suffix == ".mflac"@ && size_key == "size_hires"@
        }),
{
    lemma_labels_differ();
}

proof fn lemma_labels_differ()
    ensures
        "48kaac"@ != "96kaac"@,
        "48kaac"@ != "192kaac"@,
        "48kaac"@ != "96kogg"@,
        "48kaac"@ != "192kogg"@,
        "48kaac"@ != "128kmp3"@,
        "48kaac"@ != "320kmp3"@,
        "48kaac"@ != "ape"@,
        "48kaac"@ != "flac"@,
        "48kaac"@ != "hires"@,
        "96kaac"@ != "192kaac"@,
        "96kaac"@ != "96kogg"@,
        "96kaac"@ != "192kogg"@,
        "96kaac"@ != "128kmp3"@,
        "96kaac"@ != "320kmp3"@,
        "96kaac"@ != "ape"@,
        "96kaac"@ != "flac"@,
        "96kaac"@ != "hires"@,
        "192kaac"@ != "96kogg"@,
        "192kaac"@ != "192kogg"@,
        "192kaac"@ != "128kmp3"@,
        "192kaac"@ != "320kmp3"@,
        "192kaac"@ != "ape"@,
        "192kaac"@ != "flac"@,
        "192kaac"@ != "hires"@,
        "96kogg"@ != "192kogg"@,
        "96kogg"@ != "128kmp3"@,
        "96kogg"@ != "320kmp3"@,
        "96kogg"@ != "ape"@,
        "96kogg"@ != "flac"@,
        "96kogg"@ != "hires"@,
        "192kogg"@ != "128kmp3"@,
        "192kogg"@ != "320kmp3"@,
        "192kogg"@ != "ape"@,
        "192kogg"@ != "flac"@,
        "192kogg"@ != "hires"@,
        "128kmp3"@ != "320kmp3"@,
        "128kmp3"@ != "ape"@,
        "128kmp3"@ != "flac"@,
        "128kmp3"@ != "hires"@,
        "320kmp3"@ != "ape"@,
        "320kmp3"@ != "flac"@,
        "320kmp3"@ != "hires"@,
        "ape"@ != "flac"@,
        "ape"@ != "hires"@,
        "flac"@ != "hires"@,
{
    reveal_strlit("48kaac");
    reveal_strlit("96kaac");
    reveal_strlit("192kaac");
    reveal_strlit("96kogg");
    reveal_strlit("192kogg");
    reveal_strlit("128kmp3");
    reveal_strlit("320kmp3");
    reveal_strlit("ape");
    reveal_strlit("flac");
    reveal_strlit("hires");
    assert("48kaac"@[1] != "96kaac"@[1]);
    assert("48kaac"@[0] != "192kaac"@[0] || "48kaac"@.len() != "192kaac"@.len());
    assert("96kaac"@.len() != "192kaac"@.len());
    assert("96kogg"@.len() != "192kogg"@.len());
    assert("48kaac"@[3] != "96kogg"@[3]);
    assert("96kaac"@[3] != "96kogg"@[3]);
    assert("192kaac"@[4] != "192kogg"@[4]);
    assert("128kmp3"@[0] != "320kmp3"@[0]);
    assert("ape"@.len() == 3 && "flac"@.len() == 4 && "hires"@.len() == 5);
}

} // verus!

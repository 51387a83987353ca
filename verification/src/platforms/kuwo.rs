//! Kuwo song entries in the front end's shape. A song's qualities come from a
//! text of records `level:…,bitrate:…,format:…,size:…`; each known bitrate
//! names a quality, and the first record of a bitrate wins.

use vstd::prelude::*;

use crate::json::{
    copy_entries, obj_get, spec_obj_get, array_view, entries_view, insert_pair, json_string, json_view, obj_insert, opt_as_str, opt_as_u64,
    opt_deref, opt_view, spec_as_str, spec_as_u64, spec_get, spec_index, spec_obj_insert, spec_object_of,
    value_get, copy_json, JsonNumber, JsonValue, JsonView, NumberView,
};
use crate::platforms::common::{
    entity_id, join_chars, non_empty_str, spec_entity_id, spec_join, spec_non_empty_str, spec_split,
    spec_str_or_empty, split_chars, str_or_empty,
};
use crate::platforms::qqmusic::{jnum, jstr, number_value, quality_object, spec_quality_object, string_value};
use crate::text::{
    is_decimal_digit, parse_u64, push_decimal, push_str_chars, spec_decimal, spec_is_decimal_digit,
    spec_parse_u64, spec_trim, str_chars, string_from_chars, trim_bounds,
};
use crate::unicode_word::{is_word_char, spec_is_word_char};

verus! {

/// Whether a character may stand in a size: a word character or a `.`.
pub open spec fn spec_is_size_char(c: char) -> bool {
    spec_is_word_char(c) || c == '.'
}

/// The character classes of the record grammar.
#[derive(Clone, Copy)]
pub enum CharClass {
    Word,
    Digit,
    Size,
}

/// Whether a character belongs to a class.
pub open spec fn spec_in_class(c: char, class: CharClass) -> bool {
    match class {
        CharClass::Word => spec_is_word_char(c),
        CharClass::Digit => spec_is_decimal_digit(c),
        CharClass::Size => spec_is_size_char(c),
    }
}

/// Where the longest run of a class that starts at `i` ends.
pub open spec fn spec_run_end(t: Seq<char>, i: int, class: CharClass) -> int
    decreases t.len() - i,
{
    if 0 <= i < t.len() && spec_in_class(t[i], class) {
        spec_run_end(t, i + 1, class)
    } else {
        i
    }
}

/// Whether the literal stands in the text at `i`.
pub open spec fn spec_lit_at(t: Seq<char>, i: int, lit: Seq<char>) -> bool {
    0 <= i && i + lit.len() <= t.len() && t.subrange(i, i + lit.len()) == lit
}

/// One record found in the text: its bitrate digits, format and size text,
/// and where it ends.
pub struct RecordMatch {
    pub bitrate: Seq<char>,
    pub format: Seq<char>,
    pub size: Seq<char>,
    pub end: int,
}

/// The record that starts at `i`, if one does: `level:` and a word, then
/// `,bitrate:` and digits, `,format:` and a word, `,size:` and a run of word
/// characters and dots (each run as long as it goes, as the greedy pattern
/// `level:(\w+),bitrate:(\d+),format:(\w+),size:([\w.]+)` reads it).
pub open spec fn spec_record_at(t: Seq<char>, i: int) -> Option<RecordMatch> {
    let a = i + 6;
    let e1 = spec_run_end(t, a, CharClass::Word);
    let b = e1 + 9;
    let e2 = spec_run_end(t, b, CharClass::Digit);
    let c = e2 + 8;
    let e3 = spec_run_end(t, c, CharClass::Word);
    let d = e3 + 6;
    let e4 = spec_run_end(t, d, CharClass::Size);
    if spec_lit_at(t, i, "level:"@) && e1 > a && spec_lit_at(t, e1, ",bitrate:"@) && e2 > b && spec_lit_at(
        t,
        e2,
        ",format:"@,
    ) && e3 > c && spec_lit_at(t, e3, ",size:"@) && e4 > d {
        Some(
            RecordMatch {
                bitrate: t.subrange(b, e2),
                format: t.subrange(c, e3),
                size: t.subrange(d, e4),
                end: e4,
            },
        )
    } else {
        None
    }
}

/// The records of the text from `p` on, in order and without overlap: the
/// leftmost record, then those after it.
pub open spec fn spec_records_from(t: Seq<char>, p: int) -> Seq<RecordMatch>
    decreases t.len() - p,
{
    if p < 0 || p >= t.len() {
        Seq::empty()
    } else {
        match spec_record_at(t, p) {
            Some(m) => if p < m.end <= t.len() {
                seq![m] + spec_records_from(t, m.end)
            } else {
                Seq::empty()
            },
            None => spec_records_from(t, p + 1),
        }
    }
}

/// The quality label of a known bitrate.
pub open spec fn spec_bitrate_label(b: u32) -> Option<Seq<char>> {
    if b == 20900 {
        Some("臻品母带"@)
    } else if b == 24000 {
        Some("臻品全景声 7.1.4"@)
    } else if b == 20501 {
        Some("臻品全景声 5.1"@)
    } else if b == 20201 {
        Some("臻品全景声"@)
    } else if b == 4000 {
        Some("hires"@)
    } else if b == 2000 {
        Some("flac"@)
    } else if b == 320 {
        Some("320kmp3"@)
    } else if b == 128 {
        Some("128kmp3"@)
    } else if b == 300 {
        Some("300kogg"@)
    } else if b == 192 {
        Some("192kogg"@)
    } else if b == 100 {
        Some("100kogg"@)
    } else if b == 48 {
        Some("48kaac"@)
    } else {
        None
    }
}

/// A bitrate as `str::parse::<u32>` reads it.
pub open spec fn spec_parse_u32(s: Seq<char>) -> Option<u32> {
    match spec_parse_u64(s) {
        Some(n) => if n <= u32::MAX {
            Some(n as u32)
        } else {
            None
        },
        None => None,
    }
}

/// A quality found in the text: its label, the size as written, and the file
/// name `bitrate.format` that the download reads both from.
pub struct QualityRecordView {
    pub quality: Seq<char>,
    pub size_text: Seq<char>,
    pub filename: Seq<char>,
}

/// The bitrates seen and the qualities kept after a run of records: a record
/// whose bitrate does not parse is skipped; a bitrate seen before is skipped;
/// an unknown bitrate gives no quality.
pub open spec fn spec_quality_fold(ms: Seq<RecordMatch>) -> (Seq<u32>, Seq<QualityRecordView>)
    decreases ms.len(),
{
    if ms.len() == 0 {
        (Seq::empty(), Seq::empty())
    } else {
        let prev = spec_quality_fold(ms.drop_last());
        let m = ms.last();
        match spec_parse_u32(m.bitrate) {
            None => prev,
            Some(b) => if prev.0.contains(b) {
                prev
            } else {
                (
                    prev.0.push(b),
                    prev.1 + match spec_bitrate_label(b) {
                        Some(label) => seq![
                            QualityRecordView {
                                quality: label,
                                size_text: m.size,
                                filename: spec_decimal(b as nat) + "."@ + m.format,
                            },
                        ],
                        None => Seq::empty(),
                    },
                )
            },
        }
    }
}

/// The qualities that a text of records offers.
pub open spec fn spec_quality_records(info: Seq<char>) -> Seq<QualityRecordView> {
    spec_quality_fold(spec_records_from(info, 0)).1
}

/// A quality found in the text.
#[derive(Debug)]
pub struct KuwoQuality {
    pub quality: String,
    pub size_text: String,
    pub filename: String,
}

impl View for KuwoQuality {
    type V = QualityRecordView;

    open spec fn view(&self) -> QualityRecordView {
        QualityRecordView { quality: self.quality@, size_text: self.size_text@, filename: self.filename@ }
    }
}

/// The values of a list of qualities.
pub open spec fn qualities_records_view(v: Seq<KuwoQuality>) -> Seq<QualityRecordView> {
    v.map_values(|q: KuwoQuality| q@)
}

/// Whether a character belongs to a class.
fn in_class(c: char, class: CharClass) -> (r: bool)
    ensures
        r == spec_in_class(c, class),
{
    match class {
        CharClass::Word => is_word_char(c),
        CharClass::Digit => is_decimal_digit(c),
        CharClass::Size => is_word_char(c) || c == '.',
    }
}

/// Where the longest run of a class that starts at `i` ends.
fn run_end(t: &[char], i: usize, class: CharClass) -> (r: usize)
    requires
        i <= t.len(),
    ensures
        r == spec_run_end(t@, i as int, class),
        i <= r <= t.len(),
{
    let mut j = i;
    while j < t.len() && in_class(t[j], class)
        invariant
            i <= j <= t.len(),
            spec_run_end(t@, i as int, class) == spec_run_end(t@, j as int, class),
        decreases t.len() - j,
    {
        j = j + 1;
    }
    j
}

/// Whether the literal stands in the text at `i`.
fn lit_at(t: &[char], i: usize, lit: &[char]) -> (r: bool)
    requires
        i <= t.len(),
    ensures
        r == spec_lit_at(t@, i as int, lit@),
{
    if lit.len() > t.len() - i {
        return false;
    }
    let mut k: usize = 0;
    while k < lit.len()
        invariant
            k <= lit.len(),
            i + lit.len() <= t.len(),
            forall|q: int| 0 <= q < k ==> t@[i + q] == lit@[q],
        decreases lit.len() - k,
    {
        if t[i + k] != lit[k] {
            assert(t@.subrange(i as int, i + lit.len())[k as int] != lit@[k as int]);
            return false;
        }
        k = k + 1;
    }
    assert(t@.subrange(i as int, i + lit.len()) =~= lit@);
    true
}

/// The characters from `a` to `b`.
fn chars_between(t: &[char], a: usize, b: usize) -> (r: String)
    requires
        a <= b <= t.len(),
    ensures
        r@ == t@.subrange(a as int, b as int),
{
    let piece = &t[a..b];
    assert(piece@ =~= t@.subrange(a as int, b as int));
    string_from_chars(piece)
}

/// A record found at a position: its bitrate digits, format, size text and end.
struct FoundRecord {
    bitrate: Vec<char>,
    format: String,
    size: String,
    end: usize,
}

/// The record that starts at `i`, if one does.
fn record_at(t: &[char], i: usize, level: &[char], bitrate: &[char], format: &[char], size: &[char]) -> (r: Option<
    FoundRecord,
>)
    requires
        i <= t.len(),
        level@ == "level:"@,
        bitrate@ == ",bitrate:"@,
        format@ == ",format:"@,
        size@ == ",size:"@,
    ensures
        match spec_record_at(t@, i as int) {
            Some(m) => r is Some && r->0.bitrate@ == m.bitrate && r->0.format@ == m.format && r->0.size@
                == m.size && r->0.end == m.end,
            None => r is None,
        },
        r is Some ==> i < r->0.end <= t.len(),
{
    proof {
        reveal_strlit("level:");
        reveal_strlit(",bitrate:");
        reveal_strlit(",format:");
        reveal_strlit(",size:");
    }
    if !lit_at(t, i, level) {
        return None;
    }
    let a = i + 6;
    let e1 = run_end(t, a, CharClass::Word);
    if e1 == a || !lit_at(t, e1, bitrate) {
        return None;
    }
    let b = e1 + 9;
    let e2 = run_end(t, b, CharClass::Digit);
    if e2 == b || !lit_at(t, e2, format) {
        return None;
    }
    let c = e2 + 8;
    let e3 = run_end(t, c, CharClass::Word);
    if e3 == c || !lit_at(t, e3, size) {
        return None;
    }
    let d = e3 + 6;
    let e4 = run_end(t, d, CharClass::Size);
    if e4 == d {
        return None;
    }
    let digits = &t[b..e2];
    let mut bitrate_digits: Vec<char> = Vec::new();
    let mut k: usize = 0;
    while k < digits.len()
        invariant
            k <= digits.len(),
            bitrate_digits@ == digits@.take(k as int),
        decreases digits.len() - k,
    {
        bitrate_digits.push(digits[k]);
        assert(digits@.take(k + 1) =~= digits@.take(k as int).push(digits@[k as int]));
        k = k + 1;
    }
    assert(digits@.take(k as int) =~= t@.subrange(b as int, e2 as int));
    Some(FoundRecord { bitrate: bitrate_digits, format: chars_between(t, c, e3), size: chars_between(t, d, e4), end: e4 })
}

/// The label of a known bitrate.
fn bitrate_label(b: u32) -> (r: Option<&'static str>)
    ensures
        match spec_bitrate_label(b) {
            Some(l) => r is Some && r->0@ == l,
            None => r is None,
        },
{
    if b == 20900 {
        Some("臻品母带")
    } else if b == 24000 {
        Some("臻品全景声 7.1.4")
    } else if b == 20501 {
        Some("臻品全景声 5.1")
    } else if b == 20201 {
        Some("臻品全景声")
    } else if b == 4000 {
        Some("hires")
    } else if b == 2000 {
        Some("flac")
    } else if b == 320 {
        Some("320kmp3")
    } else if b == 128 {
        Some("128kmp3")
    } else if b == 300 {
        Some("300kogg")
    } else if b == 192 {
        Some("192kogg")
    } else if b == 100 {
        Some("100kogg")
    } else if b == 48 {
        Some("48kaac")
    } else {
        None
    }
}

/// Whether a bitrate was seen.
fn seen_bitrate(seen: &Vec<u32>, b: u32) -> (r: bool)
    ensures
        r == seen@.contains(b),
{
    let mut i: usize = 0;
    while i < seen.len()
        invariant
            i <= seen.len(),
            forall|k: int| 0 <= k < i ==> seen@[k] != b,
        decreases seen.len() - i,
    {
        if seen[i] == b {
            assert(seen@[i as int] == b);
            return true;
        }
        i = i + 1;
    }
    false
}

/// Reads the qualities from a text of records; the sizes stay as written, to
/// be measured by the caller.
pub fn build_qualities(info_str: &str) -> (r: Vec<KuwoQuality>)
    ensures
        qualities_records_view(r@) == spec_quality_records(info_str@),
{
    proof {
        reveal_strlit(".");
    }
    let t = str_chars(info_str);
    let level = str_chars("level:");
    let bitrate = str_chars(",bitrate:");
    let format = str_chars(",format:");
    let size = str_chars(",size:");
    let mut out: Vec<KuwoQuality> = Vec::new();
    let mut seen: Vec<u32> = Vec::new();
    let ghost mut found: Seq<RecordMatch> = Seq::empty();
    let mut p: usize = 0;
    while p < t.len()
        invariant
            p <= t.len(),
            t@ == info_str@,
            level@ == "level:"@,
            bitrate@ == ",bitrate:"@,
            format@ == ",format:"@,
            size@ == ",size:"@,
            found + spec_records_from(t@, p as int) == spec_records_from(t@, 0),
            seen@ == spec_quality_fold(found).0,
            qualities_records_view(out@) == spec_quality_fold(found).1,
        decreases t.len() - p,
    {
        match record_at(t.as_slice(), p, level.as_slice(), bitrate.as_slice(), format.as_slice(), size.as_slice()) {
            None => {
                p = p + 1;
            },
            Some(rec) => {
                let ghost m = spec_record_at(t@, p as int)->0;
                assert(spec_records_from(t@, p as int) == seq![m] + spec_records_from(t@, m.end));
                let ghost next_found = found.push(m);
                assert(next_found.drop_last() =~= found);
                assert(next_found + spec_records_from(t@, m.end) =~= found + spec_records_from(t@, p as int));
                match parse_u64(rec.bitrate.as_slice()) {
                    Some(n) => if n <= 0xffff_ffff {
                        let b = n as u32;
                        assert(spec_parse_u32(m.bitrate) == Some(b));
                        if !seen_bitrate(&seen, b) {
                            seen.push(b);
                            match bitrate_label(b) {
                                Some(label) => {
                                    let mut name: Vec<char> = Vec::new();
                                    push_decimal(n, &mut name);
                                    name.push('.');
                                    push_str_chars(&mut name, rec.format.as_str());
                                    let q = KuwoQuality {
                                        quality: String::from_str(label),
                                        size_text: rec.size,
                                        filename: string_from_chars(name.as_slice()),
                                    };
                                    proof {
                                        reveal_strlit(".");
                                    }
                                    assert(b as nat == n as nat);
                                    assert(name@ =~= spec_decimal(n as nat) + "."@ + rec.format@);
                                    assert(q@.filename == spec_decimal(b as nat) + "."@ + m.format);
                                    let ghost before = out@;
                                    out.push(q);
                                    assert(qualities_records_view(out@) =~= qualities_records_view(before).push(q@));
                                    assert(spec_quality_fold(next_found).1 =~= spec_quality_fold(found).1 + seq![
                                        q@,
                                    ]);
                                },
                                None => {
                                    assert(spec_quality_fold(next_found).1 =~= spec_quality_fold(found).1);
                                },
                            }
                        }
                    } else {
                        assert(spec_parse_u32(m.bitrate) is None);
                    },
                    None => {},
                }
                proof {
                    found = next_found;
                }
                p = rec.end;
            },
        }
    }
    assert(spec_records_from(t@, p as int) == Seq::<RecordMatch>::empty());
    assert(found =~= spec_records_from(t@, 0));
    out
}

/// The qualities with their sizes, as the front end receives them.
pub open spec fn spec_quality_entries(records: Seq<QualityRecordView>, sizes: Seq<u64>) -> Seq<JsonView> {
    Seq::new(records.len(), |i: int| spec_quality_object(records[i].quality, records[i].filename, sizes[i]))
}

/// The qualities with the sizes the caller measured, one per quality.
pub fn quality_entries(records: &Vec<KuwoQuality>, sizes: &Vec<u64>) -> (r: Vec<JsonValue>)
    requires
        sizes.len() == records.len(),
    ensures
        array_view(r@) == spec_quality_entries(qualities_records_view(records@), sizes@),
{
    let ghost target = spec_quality_entries(qualities_records_view(records@), sizes@);
    let mut out: Vec<JsonValue> = Vec::new();
    let mut i: usize = 0;
    while i < records.len()
        invariant
            i <= records.len(),
            sizes.len() == records.len(),
            target == spec_quality_entries(qualities_records_view(records@), sizes@),
            array_view(out@) == target.take(i as int),
        decreases records.len() - i,
    {
        let name = str_chars(records[i].filename.as_str());
        let q = quality_object(records[i].quality.as_str(), name.as_slice(), sizes[i]);
        let ghost before = out@;
        out.push(q);
        assert(array_view(out@) =~= array_view(before).push(json_view(q)));
        assert(target.take(i + 1) =~= target.take(i as int).push(target[i as int]));
        i = i + 1;
    }
    assert(target.take(i as int) =~= target);
    out
}

/// The first `/` of a text at or after `i`.
pub open spec fn spec_slash_at(s: Seq<char>, i: int) -> Option<int>
    decreases s.len() - i,
{
    if i < 0 || i >= s.len() {
        None
    } else if s[i] == '/' {
        Some(i)
    } else {
        spec_slash_at(s, i + 1)
    }
}

/// A picture's address from its short path `size/path`: the path under the
/// directory at 300 pixels; nothing when the size is no number or the path is
/// empty.
pub open spec fn spec_picture_url(v: JsonView, directory: Seq<char>) -> Seq<char> {
    match spec_as_str(v) {
        None => Seq::empty(),
        Some(s) => match spec_slash_at(s, 0) {
            None => Seq::empty(),
            Some(k) => if spec_parse_u32(s.take(k)) is Some && s.skip(k + 1).len() > 0 {
                "https://img4.kuwo.cn/star/"@ + directory + "/300/"@ + s.skip(k + 1)
            } else {
                Seq::empty()
            },
        },
    }
}

/// A picture's address from its short path.
pub fn picture_url(value: Option<&JsonValue>, directory: &str) -> (r: Vec<char>)
    ensures
        r@ == spec_picture_url(opt_view(opt_deref(value)), directory@),
{
    proof {
        reveal_strlit("https://img4.kuwo.cn/star/");
        reveal_strlit("/300/");
    }
    let mut out: Vec<char> = Vec::new();
    let s = match opt_as_str(value) {
        Some(s) => str_chars(s),
        None => return out,
    };
    let mut k: usize = 0;
    while k < s.len() && s[k] != '/'
        invariant
            k <= s.len(),
            spec_slash_at(s@, 0) == spec_slash_at(s@, k as int),
        decreases s.len() - k,
    {
        k = k + 1;
    }
    if k == s.len() {
        return out;
    }
    let size = &s.as_slice()[0..k];
    assert(size@ =~= s@.take(k as int));
    let ok = match parse_u64(size) {
        Some(n) => n <= 0xffff_ffff,
        None => false,
    };
    if ok && k + 1 < s.len() {
        push_str_chars(&mut out, "https://img4.kuwo.cn/star/");
        push_str_chars(&mut out, directory);
        push_str_chars(&mut out, "/300/");
        let ghost before = out@;
        let mut j = k + 1;
        while j < s.len()
            invariant
                k + 1 <= j <= s.len(),
                out@ == before + s@.subrange(k + 1, j as int),
            decreases s.len() - j,
        {
            out.push(s[j]);
            assert(s@.subrange(k + 1, j + 1) =~= s@.subrange(k + 1, j as int).push(s@[j as int]));
            j = j + 1;
        }
        assert(s@.subrange(k + 1, j as int) =~= s@.skip(k + 1));
    }
    out
}

/// A number id written as text, trimmed; only a positive id counts.
pub open spec fn spec_id_text(s: Seq<char>) -> Seq<char> {
    match spec_parse_u64(spec_trim(s)) {
        Some(x) => if x > 0 {
            spec_decimal(x as nat)
        } else {
            Seq::empty()
        },
        None => Seq::empty(),
    }
}

/// An artist of a Kuwo entry: id, name and picture.
pub struct KuwoArtist {
    pub id: Seq<char>,
    pub name: Seq<char>,
    pub cover: Seq<char>,
}

/// The artist named at position `i`, paired with the id at the same position;
/// a sole artist without one takes the entry's artist id, and the entry's
/// picture goes to the artist whose id is that id.
pub open spec fn spec_kuwo_artist_at(
    names: Seq<Seq<char>>,
    ids: Seq<Seq<char>>,
    single: Seq<char>,
    cover: Seq<char>,
    i: int,
) -> Option<KuwoArtist> {
    let name = spec_trim(names[i]);
    if name.len() == 0 {
        None
    } else {
        let own = if i < ids.len() {
            spec_id_text(ids[i])
        } else {
            Seq::empty()
        };
        let id = if own.len() == 0 && names.len() == 1 {
            single
        } else {
            own
        };
        let pic = if id.len() > 0 && (id == single || (single.len() == 0 && names.len() == 1)) {
            cover
        } else {
            Seq::empty()
        };
        Some(KuwoArtist { id: id, name: name, cover: pic })
    }
}

/// The artists named among the first `k` names.
pub open spec fn spec_kuwo_artists_upto(
    names: Seq<Seq<char>>,
    ids: Seq<Seq<char>>,
    single: Seq<char>,
    cover: Seq<char>,
    k: int,
) -> Seq<KuwoArtist>
    decreases k,
{
    if k <= 0 {
        Seq::empty()
    } else {
        spec_kuwo_artists_upto(names, ids, single, cover, k - 1) + match spec_kuwo_artist_at(
            names,
            ids,
            single,
            cover,
            k - 1,
        ) {
            Some(a) => seq![a],
            None => Seq::empty(),
        }
    }
}

/// The artists of an entry whose names are joined by `&`, paired by position
/// with the ids of `allartistid` (or `ALLARTISTID`), skipping blank names.
pub open spec fn spec_kuwo_artists(name: Seq<char>, item: JsonView) -> Seq<KuwoArtist> {
    let names = spec_split(name, '&');
    let all_ids = match spec_as_str(spec_index(item, "allartistid"@)) {
        Some(s) => s,
        None => match spec_as_str(spec_index(item, "ALLARTISTID"@)) {
            Some(s) => s,
            None => Seq::empty(),
        },
    };
    let ids = spec_split(all_ids, '&');
    let single = spec_entity_id(crate::platforms::qqmusic::spec_get_or(item, "ARTISTID"@, "artistid"@), true);
    let cover = spec_picture_url(spec_index(item, "web_artistpic_short"@), "starheads"@);
    spec_kuwo_artists_upto(names, ids, single, cover, names.len() as int)
}

/// An artist as the front end receives it.
pub open spec fn spec_kuwo_artist_object(a: KuwoArtist) -> JsonView {
    JsonView::Object(
        spec_object_of(
            seq![
                ("id"@, jstr(a.id)),
                ("mid"@, jstr(Seq::empty())),
                ("name"@, jstr(a.name)),
                ("coverUrl"@, jstr(a.cover)),
            ],
        ),
    )
}

/// The artists as the front end receives them.
pub open spec fn spec_kuwo_artist_objects(list: Seq<KuwoArtist>) -> Seq<JsonView> {
    list.map_values(|a: KuwoArtist| spec_kuwo_artist_object(a))
}

/// The names of the artists.
pub open spec fn spec_kuwo_artist_names(list: Seq<KuwoArtist>) -> Seq<Seq<char>> {
    list.map_values(|a: KuwoArtist| a.name)
}

/// The trimmed characters of a text.
fn trimmed_chars(s: &[char]) -> (r: Vec<char>)
    ensures
        r@ == spec_trim(s@),
{
    let (a, b) = trim_bounds(s);
    let piece = &s[a..b];
    let mut out: Vec<char> = Vec::new();
    let mut k: usize = 0;
    while k < piece.len()
        invariant
            k <= piece.len(),
            out@ == piece@.take(k as int),
        decreases piece.len() - k,
    {
        out.push(piece[k]);
        assert(piece@.take(k + 1) =~= piece@.take(k as int).push(piece@[k as int]));
        k = k + 1;
    }
    assert(piece@.take(k as int) =~= spec_trim(s@));
    out
}

/// A number id written as text, trimmed; only a positive id counts.
fn id_text(s: &[char]) -> (r: Vec<char>)
    ensures
        r@ == spec_id_text(s@),
{
    let t = trimmed_chars(s);
    let mut out: Vec<char> = Vec::new();
    match parse_u64(t.as_slice()) {
        Some(x) => if x > 0 {
            push_decimal(x, &mut out);
            assert(out@ =~= spec_decimal(x as nat));
        },
        None => {},
    }
    out
}

/// An artist as the front end receives it.
fn kuwo_artist_object(id: &[char], name: &[char], cover: &[char]) -> (r: JsonValue)
    ensures
        json_view(r) == spec_kuwo_artist_object(KuwoArtist { id: id@, name: name@, cover: cover@ }),
{
    proof {
        reveal_strlit("");
    }
    let ghost pieces = seq![
        ("id"@, jstr(id@)),
        ("mid"@, jstr(Seq::empty())),
        ("name"@, jstr(name@)),
        ("coverUrl"@, jstr(cover@)),
    ];
    let mut es: Vec<(String, JsonValue)> = Vec::new();
    let ghost mut pairs: Seq<(Seq<char>, JsonView)> = Seq::empty();
    assert(entries_view(es@) =~= spec_object_of(pairs));
    insert_pair(&mut es, Ghost(pairs), "id", string_value(id));
    proof { pairs = pairs.push(pieces[0]); }
    assert(""@ =~= Seq::<char>::empty());
    insert_pair(&mut es, Ghost(pairs), "mid", json_string(""));
    proof { pairs = pairs.push(pieces[1]); }
    insert_pair(&mut es, Ghost(pairs), "name", string_value(name));
    proof { pairs = pairs.push(pieces[2]); }
    insert_pair(&mut es, Ghost(pairs), "coverUrl", string_value(cover));
    proof { pairs = pairs.push(pieces[3]); }
    assert(pairs =~= pieces);
    JsonValue::Object(es)
}

/// The text under `key`, else under `fallback`, else nothing.
fn str_either_or_empty<'a>(item: &'a JsonValue, key: &str, fallback: &str) -> (r: &'a str)
    ensures
        r@ == match spec_as_str(spec_index(json_view(*item), key@)) {
            Some(s) => s,
            None => match spec_as_str(spec_index(json_view(*item), fallback@)) {
                Some(s) => s,
                None => Seq::empty(),
            },
        },
{
    proof {
        reveal_strlit("");
    }
    match opt_as_str(value_get(item, key)) {
        Some(s) => s,
        None => match opt_as_str(value_get(item, fallback)) {
            Some(s) => s,
            None => "",
        },
    }
}

/// The artists of an entry and their names.
pub fn kuwo_artists_with_names(name: &str, item: &JsonValue) -> (r: (Vec<JsonValue>, Vec<Vec<char>>))
    ensures
        array_view(r.0@) == spec_kuwo_artist_objects(spec_kuwo_artists(name@, json_view(*item))),
        r.1@.map_values(|n: Vec<char>| n@) == spec_kuwo_artist_names(spec_kuwo_artists(name@, json_view(*item))),
{
    let name_chars = str_chars(name);
    let names = split_chars(name_chars.as_slice(), '&');
    let ghost nv = names@.map_values(|p: Vec<char>| p@);
    let all_ids = str_either_or_empty(item, "allartistid", "ALLARTISTID");
    let id_chars = str_chars(all_ids);
    let ids = split_chars(id_chars.as_slice(), '&');
    let ghost iv = ids@.map_values(|p: Vec<char>| p@);
    let single_value: Option<&JsonValue> = match value_get(item, "ARTISTID") {
        Some(v) => Some(v),
        None => value_get(item, "artistid"),
    };
    let single = entity_id(single_value, true);
    let single_chars = str_chars(single.as_str());
    let cover = picture_url(value_get(item, "web_artistpic_short"), "starheads");
    let empty: Vec<char> = Vec::new();
    let mut objects: Vec<JsonValue> = Vec::new();
    let mut out_names: Vec<Vec<char>> = Vec::new();
    let mut i: usize = 0;
    while i < names.len()
        invariant
            i <= names.len(),
            nv == names@.map_values(|p: Vec<char>| p@),
            nv == spec_split(name@, '&'),
            iv == ids@.map_values(|p: Vec<char>| p@),
            iv == spec_split(all_ids@, '&'),
            single_chars@ == single@,
            empty@ == Seq::<char>::empty(),
            array_view(objects@) == spec_kuwo_artist_objects(
                spec_kuwo_artists_upto(nv, iv, single@, cover@, i as int),
            ),
            out_names@.map_values(|n: Vec<char>| n@) == spec_kuwo_artist_names(
                spec_kuwo_artists_upto(nv, iv, single@, cover@, i as int),
            ),
        decreases names.len() - i,
    {
        assert(nv[i as int] == names@[i as int]@);
        let n = trimmed_chars(names[i].as_slice());
        let ghost before = spec_kuwo_artists_upto(nv, iv, single@, cover@, i as int);
        if n.len() > 0 {
            let own: Vec<char> = if i < ids.len() {
                assert(iv[i as int] == ids@[i as int]@);
                id_text(ids[i].as_slice())
            } else {
                Vec::new()
            };
            let id: &Vec<char> = if own.len() == 0 && names.len() == 1 {
                &single_chars
            } else {
                &own
            };
            let same = crate::text::chars_eq(id.as_slice(), single_chars.as_slice());
            let pic: &Vec<char> = if id.len() > 0 && (same || (single_chars.len() == 0 && names.len() == 1)) {
                &cover
            } else {
                &empty
            };
            let ghost entry = KuwoArtist { id: id@, name: n@, cover: pic@ };
            assert(spec_kuwo_artist_at(nv, iv, single@, cover@, i as int) == Some(entry));
            let obj = kuwo_artist_object(id.as_slice(), n.as_slice(), pic.as_slice());
            let ghost prev_objects = objects@;
            let ghost prev_names = out_names@;
            objects.push(obj);
            out_names.push(n);
            assert(spec_kuwo_artists_upto(nv, iv, single@, cover@, i + 1) == before + seq![entry]);
            assert(array_view(objects@) =~= array_view(prev_objects).push(spec_kuwo_artist_object(entry)));
            assert(spec_kuwo_artist_objects(before + seq![entry]) =~= spec_kuwo_artist_objects(before).push(
                spec_kuwo_artist_object(entry),
            ));
            assert(out_names@.map_values(|m: Vec<char>| m@) =~= prev_names.map_values(|m: Vec<char>| m@).push(
                entry.name,
            ));
            assert(spec_kuwo_artist_names(before + seq![entry]) =~= spec_kuwo_artist_names(before).push(
                entry.name,
            ));
        } else {
            assert(spec_kuwo_artists_upto(nv, iv, single@, cover@, i + 1) =~= before);
        }
        i = i + 1;
    }
    (objects, out_names)
}

/// The artists of an entry as the front end receives them.
pub fn parse_artists(name: &str, item: &JsonValue) -> (r: Vec<JsonValue>)
    ensures
        array_view(r@) == spec_kuwo_artist_objects(spec_kuwo_artists(name@, json_view(*item))),
{
    let (objects, _) = kuwo_artists_with_names(name, item);
    objects
}

/// The prefix of a song id in `MUSICRID`.
pub open spec fn music_prefix() -> Seq<char> {
    seq!['M', 'U', 'S', 'I', 'C', '_']
}

/// The song's number id: `id` (a number, or digits as a string) when the
/// entry has it, else `MUSICRID` without its `MUSIC_` prefix; only a positive
/// id counts.
pub open spec fn spec_kuwo_song_id(song: JsonView) -> Option<u64> {
    let from_id = match spec_get(song, "id"@) {
        Some(v) => match v {
            JsonView::String(s) => spec_parse_u64(s),
            JsonView::Number(_) => spec_as_u64(v),
            _ => None,
        },
        None => None,
    };
    let id = match from_id {
        Some(x) => Some(x),
        None => {
            let rid = spec_str_or_empty(spec_index(song, "MUSICRID"@));
            if rid.len() >= 6 && rid.take(6) == music_prefix() {
                spec_parse_u64(rid.skip(6))
            } else {
                spec_parse_u64(rid)
            }
        },
    };
    match id {
        Some(x) => if x > 0 {
            Some(x)
        } else {
            None
        },
        None => None,
    }
}

/// A text without leading and trailing `"` (`trim_matches('"')`).
pub open spec fn spec_trim_quotes_start(s: Seq<char>) -> Seq<char>
    decreases s.len(),
{
    if s.len() > 0 && s[0] == '"' {
        spec_trim_quotes_start(s.drop_first())
    } else {
        s
    }
}

/// A text without trailing `"`.
pub open spec fn spec_trim_quotes_end(s: Seq<char>) -> Seq<char>
    decreases s.len(),
{
    if s.len() > 0 && s.last() == '"' {
        spec_trim_quotes_end(s.drop_last())
    } else {
        s
    }
}

/// The song's title: `SONGNAME`, else `NAME`, else `FSONGNAME` without its
/// quotes, else nothing.
pub open spec fn spec_kuwo_title(song: JsonView) -> Seq<char> {
    match spec_non_empty_str(spec_index(song, "SONGNAME"@)) {
        Some(t) => t,
        None => match spec_non_empty_str(spec_index(song, "NAME"@)) {
            Some(t) => t,
            None => match spec_as_str(spec_index(song, "FSONGNAME"@)) {
                Some(f) => spec_trim_quotes_end(spec_trim_quotes_start(f)),
                None => Seq::empty(),
            },
        },
    }
}

/// The song's artist text: `ARTIST`, else `AARTIST`, else nothing.
pub open spec fn spec_raw_artist(song: JsonView) -> Seq<char> {
    match spec_non_empty_str(spec_index(song, "ARTIST"@)) {
        Some(t) => t,
        None => match spec_non_empty_str(spec_index(song, "AARTIST"@)) {
            Some(t) => t,
            None => Seq::empty(),
        },
    }
}

/// The song's length in seconds: a number, or digits as a string, else 0.
pub open spec fn spec_duration(v: JsonView) -> u64 {
    match v {
        JsonView::String(s) => match spec_parse_u64(s) {
            Some(n) => n,
            None => 0,
        },
        JsonView::Number(_) => match spec_as_u64(v) {
            Some(n) => n,
            None => 0,
        },
        _ => 0,
    }
}

/// The cover: `albumpic`, else the album picture, else the artist picture.
pub open spec fn spec_kuwo_cover(song: JsonView) -> Seq<char> {
    match spec_non_empty_str(spec_index(song, "albumpic"@)) {
        Some(u) => u,
        None => {
            let album = spec_picture_url(spec_index(song, "web_albumpic_short"@), "albumcover"@);
            if album.len() == 0 {
                spec_picture_url(spec_index(song, "web_artistpic_short"@), "starheads"@)
            } else {
                album
            }
        },
    }
}

/// The text of records of a song: `N_MINFO`, else `MINFO`, else nothing.
pub open spec fn spec_quality_info(song: JsonView) -> Seq<char> {
    match spec_non_empty_str(spec_index(song, "N_MINFO"@)) {
        Some(t) => t,
        None => spec_str_or_empty(spec_index(song, "MINFO"@)),
    }
}

/// A song in the front end's shape, its qualities sized as given; none
/// without a positive id.
pub open spec fn spec_kuwo_song(song: JsonView, separator: Seq<char>, sizes: Seq<u64>) -> Option<JsonView> {
    match spec_kuwo_song_id(song) {
        None => None,
        Some(id) => {
            let mid = spec_decimal(id as nat);
            let artists = spec_kuwo_artists(spec_raw_artist(song), song);
            Some(
                JsonView::Object(
                    spec_object_of(
                        seq![
                            ("id"@, jnum(id)),
                            ("mid"@, jstr(mid)),
                            ("title"@, jstr(spec_kuwo_title(song))),
                            ("artist"@, jstr(spec_join(spec_kuwo_artist_names(artists), separator))),
                            ("artists"@, JsonView::Array(spec_kuwo_artist_objects(artists))),
                            ("album"@, jstr(spec_str_or_empty(spec_index(song, "ALBUM"@)))),
                            (
                                "albumId"@,
                                jstr(
                                    spec_entity_id(
                                        crate::platforms::qqmusic::spec_get_or(song, "ALBUMID"@, "albumid"@),
                                        true,
                                    ),
                                ),
                            ),
                            ("albumMid"@, jstr(Seq::empty())),
                            ("duration"@, jnum(spec_duration(spec_index(song, "DURATION"@)))),
                            ("coverUrl"@, jstr(spec_kuwo_cover(song))),
                            ("mediaMid"@, jstr(mid)),
                            (
                                "qualities"@,
                                JsonView::Array(
                                    spec_quality_entries(spec_quality_records(spec_quality_info(song)), sizes),
                                ),
                            ),
                        ],
                    ),
                ),
            )
        },
    }
}

/// The text of records of a song.
pub fn quality_info(song: &JsonValue) -> (r: &str)
    ensures
        r@ == spec_quality_info(json_view(*song)),
{
    match non_empty_str(value_get(song, "N_MINFO")) {
        Some(t) => t,
        None => str_or_empty(value_get(song, "MINFO")),
    }
}

/// The song's number id, if it has a positive one.
fn kuwo_song_id(song: &JsonValue) -> (r: Option<u64>)
    ensures
        r == spec_kuwo_song_id(json_view(*song)),
{
    let from_id: Option<u64> = match value_get(song, "id") {
        Some(JsonValue::String(s)) => {
            let chars = str_chars(s.as_str());
            parse_u64(chars.as_slice())
        },
        Some(v) => match v {
            JsonValue::Number(_) => v.as_u64(),
            _ => None,
        },
        None => None,
    };
    let id = match from_id {
        Some(x) => Some(x),
        None => {
            let rid = str_chars(str_or_empty(value_get(song, "MUSICRID")));
            if rid.len() >= 6 && rid[0] == 'M' && rid[1] == 'U' && rid[2] == 'S' && rid[3] == 'I' && rid[4] == 'C'
                && rid[5] == '_' {
                assert(rid@.take(6) =~= music_prefix());
                let rest = &rid.as_slice()[6..rid.len()];
                assert(rest@ =~= rid@.skip(6));
                parse_u64(rest)
            } else {
                assert(!(rid@.len() >= 6 && rid@.take(6) == music_prefix())) by {
                    if rid@.len() >= 6 && rid@.take(6) == music_prefix() {
                        assert(rid@.take(6)[0] == 'M');
                        assert(rid@.take(6)[1] == 'U');
                        assert(rid@.take(6)[2] == 'S');
                        assert(rid@.take(6)[3] == 'I');
                        assert(rid@.take(6)[4] == 'C');
                        assert(rid@.take(6)[5] == '_');
                    }
                }
                parse_u64(rid.as_slice())
            }
        },
    };
    match id {
        Some(x) => if x > 0 {
            Some(x)
        } else {
            None
        },
        None => None,
    }
}

/// The characters without leading and trailing `"`.
fn trim_quotes(s: &[char]) -> (r: Vec<char>)
    ensures
        r@ == spec_trim_quotes_end(spec_trim_quotes_start(s@)),
{
    let mut a: usize = 0;
    assert(s@.subrange(0, s@.len() as int) =~= s@);
    while a < s.len() && s[a] == '"'
        invariant
            a <= s.len(),
            spec_trim_quotes_start(s@) == spec_trim_quotes_start(s@.subrange(a as int, s@.len() as int)),
        decreases s.len() - a,
    {
        assert(s@.subrange(a as int, s@.len() as int).drop_first() =~= s@.subrange(a + 1, s@.len() as int));
        a = a + 1;
    }
    let mut b: usize = s.len();
    while b > a && s[b - 1] == '"'
        invariant
            a <= b <= s.len(),
            spec_trim_quotes_start(s@) == s@.subrange(a as int, s@.len() as int),
            spec_trim_quotes_end(spec_trim_quotes_start(s@)) == spec_trim_quotes_end(
                s@.subrange(a as int, b as int),
            ),
        decreases b - a,
    {
        assert(s@.subrange(a as int, b as int).drop_last() =~= s@.subrange(a as int, b - 1));
        b = b - 1;
    }
    let mut out: Vec<char> = Vec::new();
    let mut k = a;
    while k < b
        invariant
            a <= k <= b,
            b <= s.len(),
            out@ == s@.subrange(a as int, k as int),
        decreases b - k,
    {
        out.push(s[k]);
        k = k + 1;
    }
    out
}

/// The song's title.
fn kuwo_title(song: &JsonValue) -> (r: Vec<char>)
    ensures
        r@ == spec_kuwo_title(json_view(*song)),
{
    match non_empty_str(value_get(song, "SONGNAME")) {
        Some(t) => str_chars(t),
        None => match non_empty_str(value_get(song, "NAME")) {
            Some(t) => str_chars(t),
            None => match opt_as_str(value_get(song, "FSONGNAME")) {
                Some(f) => {
                    let chars = str_chars(f);
                    trim_quotes(chars.as_slice())
                },
                None => Vec::new(),
            },
        },
    }
}

/// The song's artist text.
fn raw_artist(song: &JsonValue) -> (r: &str)
    ensures
        r@ == spec_raw_artist(json_view(*song)),
{
    proof {
        reveal_strlit("");
    }
    match non_empty_str(value_get(song, "ARTIST")) {
        Some(t) => t,
        None => match non_empty_str(value_get(song, "AARTIST")) {
            Some(t) => t,
            None => "",
        },
    }
}

/// The song's length in seconds.
fn duration(v: Option<&JsonValue>) -> (r: u64)
    ensures
        r == spec_duration(opt_view(opt_deref(v))),
{
    match v {
        Some(JsonValue::String(s)) => {
            let chars = str_chars(s.as_str());
            match parse_u64(chars.as_slice()) {
                Some(n) => n,
                None => 0,
            }
        },
        Some(x) => match x {
            JsonValue::Number(_) => match x.as_u64() {
                Some(n) => n,
                None => 0,
            },
            _ => 0,
        },
        None => 0,
    }
}

/// The song's cover.
fn kuwo_cover(song: &JsonValue) -> (r: Vec<char>)
    ensures
        r@ == spec_kuwo_cover(json_view(*song)),
{
    match non_empty_str(value_get(song, "albumpic")) {
        Some(u) => str_chars(u),
        None => {
            let album = picture_url(value_get(song, "web_albumpic_short"), "albumcover");
            if album.len() == 0 {
                picture_url(value_get(song, "web_artistpic_short"), "starheads")
            } else {
                album
            }
        },
    }
}

/// A song in the front end's shape, with the sizes the caller measured for
/// its qualities (one per quality of `build_qualities(quality_info(song))`);
/// none without a positive id.
pub fn parse_song(song: &JsonValue, artist_separator: &str, sizes: &Vec<u64>) -> (r: Option<JsonValue>)
    requires
        sizes.len() == spec_quality_records(spec_quality_info(json_view(*song))).len(),
    ensures
        match spec_kuwo_song(json_view(*song), artist_separator@, sizes@) {
            Some(v) => r is Some && json_view(r->0) == v,
            None => r is None,
        },
{
    proof {
        reveal_strlit("");
    }
    let id = match kuwo_song_id(song) {
        Some(x) => x,
        None => return None,
    };
    let mut mid: Vec<char> = Vec::new();
    push_decimal(id, &mut mid);
    assert(mid@ =~= spec_decimal(id as nat));
    let title = kuwo_title(song);
    let raw = raw_artist(song);
    let (artists, names) = kuwo_artists_with_names(raw, song);
    let artist = join_chars(&names, artist_separator);
    let album = str_or_empty(value_get(song, "ALBUM"));
    let album_value: Option<&JsonValue> = match value_get(song, "ALBUMID") {
        Some(v) => Some(v),
        None => value_get(song, "albumid"),
    };
    let album_id = entity_id(album_value, true);
    let length = duration(value_get(song, "DURATION"));
    let cover = kuwo_cover(song);
    let records = build_qualities(quality_info(song));
    let qualities = quality_entries(&records, sizes);
    let ghost pieces = seq![
        ("id"@, jnum(id)),
        ("mid"@, jstr(mid@)),
        ("title"@, jstr(title@)),
        ("artist"@, jstr(artist@)),
        ("artists"@, JsonView::Array(array_view(artists@))),
        ("album"@, jstr(album@)),
        ("albumId"@, jstr(album_id@)),
        ("albumMid"@, jstr(Seq::empty())),
        ("duration"@, jnum(length)),
        ("coverUrl"@, jstr(cover@)),
        ("mediaMid"@, jstr(mid@)),
        ("qualities"@, JsonView::Array(array_view(qualities@))),
    ];
    let mut es: Vec<(String, JsonValue)> = Vec::new();
    let ghost mut pairs: Seq<(Seq<char>, JsonView)> = Seq::empty();
    assert(entries_view(es@) =~= spec_object_of(pairs));
    insert_pair(&mut es, Ghost(pairs), "id", number_value(id));
    proof { pairs = pairs.push(pieces[0]); }
    insert_pair(&mut es, Ghost(pairs), "mid", string_value(mid.as_slice()));
    proof { pairs = pairs.push(pieces[1]); }
    insert_pair(&mut es, Ghost(pairs), "title", string_value(title.as_slice()));
    proof { pairs = pairs.push(pieces[2]); }
    insert_pair(&mut es, Ghost(pairs), "artist", string_value(artist.as_slice()));
    proof { pairs = pairs.push(pieces[3]); }
    insert_pair(&mut es, Ghost(pairs), "artists", JsonValue::Array(artists));
    proof { pairs = pairs.push(pieces[4]); }
    insert_pair(&mut es, Ghost(pairs), "album", json_string(album));
    proof { pairs = pairs.push(pieces[5]); }
    insert_pair(&mut es, Ghost(pairs), "albumId", JsonValue::String(album_id));
    proof { pairs = pairs.push(pieces[6]); }
    assert(""@ =~= Seq::<char>::empty());
    insert_pair(&mut es, Ghost(pairs), "albumMid", json_string(""));
    proof { pairs = pairs.push(pieces[7]); }
    insert_pair(&mut es, Ghost(pairs), "duration", number_value(length));
    proof { pairs = pairs.push(pieces[8]); }
    insert_pair(&mut es, Ghost(pairs), "coverUrl", string_value(cover.as_slice()));
    proof { pairs = pairs.push(pieces[9]); }
    insert_pair(&mut es, Ghost(pairs), "mediaMid", string_value(mid.as_slice()));
    proof { pairs = pairs.push(pieces[10]); }
    insert_pair(&mut es, Ghost(pairs), "qualities", JsonValue::Array(qualities));
    proof { pairs = pairs.push(pieces[11]); }
    assert(pairs =~= pieces);
    Some(JsonValue::Object(es))
}

/// The fields that the artist and album pages name in lower case, with the
/// names that the song parser reads.
pub open spec fn spec_detail_field(k: int) -> (Seq<char>, Seq<char>) {
    if k == 0 {
        ("SONGNAME"@, "name"@)
    } else if k == 1 {
        ("ARTIST"@, "artist"@)
    } else if k == 2 {
        ("ALBUM"@, "album"@)
    } else if k == 3 {
        ("DURATION"@, "duration"@)
    } else {
        ("MUSICRID"@, "musicrid"@)
    }
}

/// The number of renamed fields.
pub const DETAIL_FIELD_COUNT: usize = 5;

/// An entry's fields after copying the first `k` lower-case fields it has to
/// their upper-case names.
pub open spec fn spec_detail_entries(es: Seq<(Seq<char>, JsonView)>, k: int) -> Seq<(Seq<char>, JsonView)>
    decreases k,
{
    if k <= 0 {
        es
    } else {
        let prev = spec_detail_entries(es, k - 1);
        let field = spec_detail_field(k - 1);
        match spec_obj_get(es, field.1) {
            Some(v) => spec_obj_insert(prev, field.0, v),
            None => prev,
        }
    }
}

/// An entry of an artist or album page as the song parser reads it.
pub open spec fn spec_detail_song(item: JsonView) -> JsonView {
    match item {
        JsonView::Object(es) => JsonView::Object(spec_detail_entries(es, DETAIL_FIELD_COUNT as int)),
        _ => item,
    }
}

/// A renamed field: its upper-case and its lower-case name.
fn detail_field(k: usize) -> (r: (&'static str, &'static str))
    requires
        k < DETAIL_FIELD_COUNT,
    ensures
        r.0@ == spec_detail_field(k as int).0,
        r.1@ == spec_detail_field(k as int).1,
{
    if k == 0 {
        ("SONGNAME", "name")
    } else if k == 1 {
        ("ARTIST", "artist")
    } else if k == 2 {
        ("ALBUM", "album")
    } else if k == 3 {
        ("DURATION", "duration")
    } else {
        ("MUSICRID", "musicrid")
    }
}

/// An entry of an artist or album page, with its lower-case fields copied to
/// the names the song parser reads.
pub fn detail_song(item: &JsonValue) -> (r: JsonValue)
    ensures
        json_view(r) == spec_detail_song(json_view(*item)),
{
    match item {
        JsonValue::Object(es) => {
            let ghost ev = entries_view(es@);
            let mut song = copy_entries(es);
            let mut k: usize = 0;
            while k < DETAIL_FIELD_COUNT
                invariant
                    k <= DETAIL_FIELD_COUNT,
                    ev == entries_view(es@),
                    entries_view(song@) == spec_detail_entries(ev, k as int),
                decreases DETAIL_FIELD_COUNT - k,
            {
                let (target, source) = detail_field(k);
                match obj_get(es, source) {
                    Some(v) => {
                        obj_insert(&mut song, String::from_str(target), copy_json(v));
                    },
                    None => {},
                }
                k = k + 1;
            }
            JsonValue::Object(song)
        },
        _ => copy_json(item),
    }
}

/// A song of an artist or album page in the front end's shape, with the sizes
/// the caller measured for its qualities; none without a positive id.
pub fn parse_detail_song(item: &JsonValue, separator: &str, sizes: &Vec<u64>) -> (r: Option<JsonValue>)
    requires
        sizes.len() == spec_quality_records(spec_quality_info(spec_detail_song(json_view(*item)))).len(),
    ensures
        match spec_kuwo_song(spec_detail_song(json_view(*item)), separator@, sizes@) {
            Some(v) => r is Some && json_view(r->0) == v,
            None => r is None,
        },
{
    let song = detail_song(item);
    parse_song(&song, separator, sizes)
}

/// The total count of a listing, a number or digits as a string.
pub open spec fn spec_listing_total(v: JsonView) -> Option<u64> {
    match spec_as_u64(v) {
        Some(n) => Some(n),
        None => match spec_as_str(v) {
            Some(s) => spec_parse_u64(s),
            None => None,
        },
    }
}

/// Whether more items follow the page `page` (counted from 1) of `limit`
/// items, of which `returned` came back, out of `total`.
pub open spec fn spec_has_more(page: u32, limit: u32, returned: nat, total: u64) -> bool {
    let before = if page > 0 {
        (page - 1) * limit
    } else {
        0
    };
    before + returned < total
}

/// The total of an artist listing and whether more pages follow; an empty
/// page has none after it.
pub fn pagination(data: &JsonValue, page: u32, limit: u32, returned: usize) -> (r: Result<(u64, bool), String>)
    ensures
        match spec_listing_total(spec_index(json_view(*data), "total"@)) {
            Some(total) => r is Ok && r->Ok_0 == (total, returned > 0 && spec_has_more(page, limit, returned as nat, total)),
            None => r is Err && r->Err_0@ == "未找到歌手列表总数"@,
        },
{
    let v = value_get(data, "total");
    let total = match opt_as_u64(v) {
        Some(n) => n,
        None => match opt_as_str(v) {
            Some(t) => {
                let chars = str_chars(t);
                match parse_u64(chars.as_slice()) {
                    Some(n) => n,
                    None => return Err(String::from_str("未找到歌手列表总数")),
                }
            },
            None => return Err(String::from_str("未找到歌手列表总数")),
        },
    };
    let page_no: u32 = if page > 0 {
        page - 1
    } else {
        0
    };
    let before = crate::platforms::qq_playlist::page_offset(page_no, limit);
    let more = returned > 0 && before + (returned as u128) < total as u128;
    Ok((total, more))
}

/// The songs of a search page: the `abslist` of the response.
pub fn search_song_items(data: &JsonValue) -> (r: Result<&Vec<JsonValue>, String>)
    ensures
        match spec_index(json_view(*data), "abslist"@) {
            JsonView::Array(items) => r is Ok && array_view(r->Ok_0@) == items,
            _ => r is Err && r->Err_0@ == "未找到歌曲列表（abslist 字段缺失）"@,
        },
{
    match value_get(data, "abslist") {
        Some(JsonValue::Array(items)) => Ok(items),
        _ => Err(String::from_str("未找到歌曲列表（abslist 字段缺失）")),
    }
}

/// A page of song search results: the songs and whether more follow the
/// `TOTAL` matches (digits as a string, or a number).
pub open spec fn spec_search_songs_page(data: JsonView, page: u32, limit: u32, songs: Seq<JsonView>) -> JsonView {
    let total_value = spec_index(data, "TOTAL"@);
    let total = match spec_as_str(total_value) {
        Some(s) => match spec_parse_u64(s) {
            Some(n) => n,
            None => match spec_as_u64(total_value) {
                Some(n) => n,
                None => 0,
            },
        },
        None => match spec_as_u64(total_value) {
            Some(n) => n,
            None => 0,
        },
    };
    JsonView::Object(
        spec_object_of(
            seq![
                ("songs"@, JsonView::Array(songs)),
                ("has_more"@, JsonView::Bool(spec_has_more(page, limit, songs.len(), total))),
            ],
        ),
    )
}

/// A page of song search results with the songs that parsed.
pub fn search_songs_page(data: &JsonValue, page: u32, limit: u32, songs: Vec<JsonValue>) -> (r: JsonValue)
    ensures
        json_view(r) == spec_search_songs_page(json_view(*data), page, limit, array_view(songs@)),
{
    let v = value_get(data, "TOTAL");
    let from_text: Option<u64> = match opt_as_str(v) {
        Some(t) => {
            let chars = str_chars(t);
            parse_u64(chars.as_slice())
        },
        None => None,
    };
    let total: u64 = match from_text {
        Some(n) => n,
        None => match opt_as_u64(v) {
            Some(n) => n,
            None => 0,
        },
    };
    let page_no: u32 = if page > 0 {
        page - 1
    } else {
        0
    };
    let before = crate::platforms::qq_playlist::page_offset(page_no, limit);
    let more = before + (songs.len() as u128) < total as u128;
    let ghost sv = JsonView::Array(array_view(songs@));
    let mut es: Vec<(String, JsonValue)> = Vec::new();
    let ghost mut pairs: Seq<(Seq<char>, JsonView)> = Seq::empty();
    assert(entries_view(es@) =~= spec_object_of(pairs));
    insert_pair(&mut es, Ghost(pairs), "songs", JsonValue::Array(songs));
    proof { pairs = pairs.push(("songs"@, sv)); }
    insert_pair(&mut es, Ghost(pairs), "has_more", JsonValue::Bool(more));
    proof { pairs = pairs.push(("has_more"@, JsonView::Bool(more))); }
    assert(pairs =~= seq![("songs"@, sv), ("has_more"@, JsonView::Bool(more))]);
    JsonValue::Object(es)
}

/// The query of a Kuwo search request: the fixed parameters of the web search,
/// the keyword, the search type, and the page counted from 0.
pub fn search_query(keyword: &str, page: u32, limit: u32, search_type: &str) -> (r: Vec<(String, String)>)
    ensures
        r@.len() == 12,
        r@[0].0@ == "client"@ && r@[0].1@ == "kt"@,
        r@[1].0@ == "all"@ && r@[1].1@ == keyword@,
        r@[2].0@ == "ft"@ && r@[2].1@ == search_type@,
        r@[3].0@ == "encoding"@ && r@[3].1@ == "utf8"@,
        r@[4].0@ == "rformat"@ && r@[4].1@ == "json"@,
        r@[5].0@ == "pcjson"@ && r@[5].1@ == "1"@,
        r@[6].0@ == "itemset"@ && r@[6].1@ == "web_2013"@,
        r@[7].0@ == "vipver"@ && r@[7].1@ == "1"@,
        r@[8].0@ == "newver"@ && r@[8].1@ == "1"@,
        r@[9].0@ == "mobi"@ && r@[9].1@ == "1"@,
        r@[10].0@ == "pn"@ && r@[10].1@ == spec_decimal((if page > 0 { page - 1 } else { 0 }) as nat),
        r@[11].0@ == "rn"@ && r@[11].1@ == spec_decimal(limit as nat),
{
    let mut q: Vec<(String, String)> = Vec::new();
    q.push((String::from_str("client"), String::from_str("kt")));
    q.push((String::from_str("all"), String::from_str(keyword)));
    q.push((String::from_str("ft"), String::from_str(search_type)));
    q.push((String::from_str("encoding"), String::from_str("utf8")));
    q.push((String::from_str("rformat"), String::from_str("json")));
    q.push((String::from_str("pcjson"), String::from_str("1")));
    q.push((String::from_str("itemset"), String::from_str("web_2013")));
    q.push((String::from_str("vipver"), String::from_str("1")));
    q.push((String::from_str("newver"), String::from_str("1")));
    q.push((String::from_str("mobi"), String::from_str("1")));
    let page_no: u32 = if page > 0 {
        page - 1
    } else {
        0
    };
    let mut pn: Vec<char> = Vec::new();
    push_decimal(page_no as u64, &mut pn);
    q.push((String::from_str("pn"), string_from_chars(pn.as_slice())));
    let mut rn: Vec<char> = Vec::new();
    push_decimal(limit as u64, &mut rn);
    q.push((String::from_str("rn"), string_from_chars(rn.as_slice())));
    q
}

/// Whether an artist id is a positive number.
pub open spec fn spec_valid_artist_id(id: Seq<char>) -> bool {
    match spec_parse_u64(id) {
        Some(n) => n > 0,
        None => false,
    }
}

/// The query of an artist's songs or albums: the artist id, the page counted
/// from 0, the page size, the listing type and its order, and the fixed
/// parameters; refused unless the id is a positive number.
pub fn artist_query(id: &str, page: u32, limit: u32, albums: bool) -> (r: Result<Vec<(String, String)>, String>)
    ensures
        !spec_valid_artist_id(id@) ==> r is Err && r->Err_0@ == "无效的歌手 ID"@,
        spec_valid_artist_id(id@) ==> r is Ok && r->Ok_0@.len() == 13 && r->Ok_0@[0].0@ == "artistid"@
            && r->Ok_0@[0].1@ == id@ && r->Ok_0@[1].0@ == "pn"@ && r->Ok_0@[1].1@ == spec_decimal(
            (if page > 0 {
                page - 1
            } else {
                0
            }) as nat,
        ) && r->Ok_0@[2].0@ == "rn"@ && r->Ok_0@[2].1@ == spec_decimal(limit as nat) && r->Ok_0@[3].0@
            == "stype"@ && r->Ok_0@[3].1@ == (if albums {
            "albumlist"@
        } else {
            "artist2music"@
        }) && r->Ok_0@[4].0@ == "sortby"@ && r->Ok_0@[4].1@ == (if albums {
            "1"@
        } else {
            "0"@
        }) && r->Ok_0@[5].0@ == "alflac"@ && r->Ok_0@[5].1@ == "1"@ && r->Ok_0@[6].0@ == "show_copyright_off"@
            && r->Ok_0@[6].1@ == "1"@ && r->Ok_0@[7].0@ == "pcmp4"@ && r->Ok_0@[7].1@ == "1"@ && r->Ok_0@[8].0@
            == "encoding"@ && r->Ok_0@[8].1@ == "utf8"@ && r->Ok_0@[9].0@ == "plat"@ && r->Ok_0@[9].1@ == "pc"@
            && r->Ok_0@[10].0@ == "vipver"@ && r->Ok_0@[10].1@ == "MUSIC_9.1.0"@ && r->Ok_0@[11].0@ == "newver"@
            && r->Ok_0@[11].1@ == "1"@ && r->Ok_0@[12].0@ == "pcjson"@ && r->Ok_0@[12].1@ == "1"@,
{
    let chars = str_chars(id);
    match parse_u64(chars.as_slice()) {
        Some(n) => if n == 0 {
            return Err(String::from_str("无效的歌手 ID"));
        },
        None => return Err(String::from_str("无效的歌手 ID")),
    }
    let page_no: u32 = if page > 0 {
        page - 1
    } else {
        0
    };
    let mut pn: Vec<char> = Vec::new();
    push_decimal(page_no as u64, &mut pn);
    let mut rn: Vec<char> = Vec::new();
    push_decimal(limit as u64, &mut rn);
    let mut q: Vec<(String, String)> = Vec::new();
    q.push((String::from_str("artistid"), String::from_str(id)));
    q.push((String::from_str("pn"), string_from_chars(pn.as_slice())));
    q.push((String::from_str("rn"), string_from_chars(rn.as_slice())));
    q.push(
        (
            String::from_str("stype"),
            String::from_str(
                if albums {
                    "albumlist"
                } else {
                    "artist2music"
                },
            ),
        ),
    );
    q.push(
        (
            String::from_str("sortby"),
            String::from_str(
                if albums {
                    "1"
                } else {
                    "0"
                },
            ),
        ),
    );
    q.push((String::from_str("alflac"), String::from_str("1")));
    q.push((String::from_str("show_copyright_off"), String::from_str("1")));
    q.push((String::from_str("pcmp4"), String::from_str("1")));
    q.push((String::from_str("encoding"), String::from_str("utf8")));
    q.push((String::from_str("plat"), String::from_str("pc")));
    q.push((String::from_str("vipver"), String::from_str("MUSIC_9.1.0")));
    q.push((String::from_str("newver"), String::from_str("1")));
    q.push((String::from_str("pcjson"), String::from_str("1")));
    Ok(q)
}

/// The songs of an artist page: its `musiclist`.
pub fn artist_song_items(data: &JsonValue) -> (r: Result<&Vec<JsonValue>, String>)
    ensures
        match spec_index(json_view(*data), "musiclist"@) {
            JsonView::Array(items) => r is Ok && array_view(r->Ok_0@) == items,
            _ => r is Err && r->Err_0@ == "未找到歌手歌曲列表"@,
        },
{
    match value_get(data, "musiclist") {
        Some(JsonValue::Array(items)) => Ok(items),
        _ => Err(String::from_str("未找到歌手歌曲列表")),
    }
}

/// A page of an artist's songs: the songs that parsed, the total, whether
/// more follow, and the artist's name.
pub fn artist_songs_page(data: &JsonValue, songs: Vec<JsonValue>, total: u64, has_more: bool) -> (r: JsonValue)
    ensures
        json_view(r) == JsonView::Object(
            spec_object_of(
                seq![
                    ("songs"@, JsonView::Array(array_view(songs@))),
                    ("total"@, jnum(total)),
                    ("has_more"@, JsonView::Bool(has_more)),
                    ("name"@, jstr(spec_str_or_empty(spec_index(json_view(*data), "artist"@)))),
                ],
            ),
        ),
{
    let name = str_or_empty(value_get(data, "artist"));
    let ghost pieces = seq![
        ("songs"@, JsonView::Array(array_view(songs@))),
        ("total"@, jnum(total)),
        ("has_more"@, JsonView::Bool(has_more)),
        ("name"@, jstr(name@)),
    ];
    let mut es: Vec<(String, JsonValue)> = Vec::new();
    let ghost mut pairs: Seq<(Seq<char>, JsonView)> = Seq::empty();
    assert(entries_view(es@) =~= spec_object_of(pairs));
    insert_pair(&mut es, Ghost(pairs), "songs", JsonValue::Array(songs));
    proof { pairs = pairs.push(pieces[0]); }
    insert_pair(&mut es, Ghost(pairs), "total", number_value(total));
    proof { pairs = pairs.push(pieces[1]); }
    insert_pair(&mut es, Ghost(pairs), "has_more", JsonValue::Bool(has_more));
    proof { pairs = pairs.push(pieces[2]); }
    insert_pair(&mut es, Ghost(pairs), "name", json_string(name));
    proof { pairs = pairs.push(pieces[3]); }
    assert(pairs =~= pieces);
    JsonValue::Object(es)
}

/// Known bitrates name different qualities.
proof fn lemma_bitrate_label_injective(a: u32, b: u32)
    requires
        spec_bitrate_label(a) is Some,
        spec_bitrate_label(a) == spec_bitrate_label(b),
    ensures
        a == b,
{
    reveal_strlit("臻品母带");
    reveal_strlit("臻品全景声 7.1.4");
    reveal_strlit("臻品全景声 5.1");
    reveal_strlit("臻品全景声");
    reveal_strlit("hires");
    reveal_strlit("flac");
    reveal_strlit("320kmp3");
    reveal_strlit("128kmp3");
    reveal_strlit("300kogg");
    reveal_strlit("192kogg");
    reveal_strlit("100kogg");
    reveal_strlit("48kaac");
    let la = spec_bitrate_label(a)->0;
    let lb = spec_bitrate_label(b)->0;
    assert(la.len() == lb.len());
    assert(la[0] == lb[0]);
    assert(la[1] == lb[1]);
}

/// Every quality kept by the fold comes from a distinct bitrate it has seen.
proof fn lemma_fold_bitrates(ms: Seq<RecordMatch>) -> (bs: Seq<u32>)
    ensures
        bs.len() == spec_quality_fold(ms).1.len(),
        forall|i: int| 0 <= i < bs.len() ==> spec_quality_fold(ms).0.contains(#[trigger] bs[i]),
        forall|i: int|
            0 <= i < bs.len() ==> spec_bitrate_label(#[trigger] bs[i]) == Some(spec_quality_fold(ms).1[i].quality),
        forall|i: int, j: int| 0 <= i < j < bs.len() ==> bs[i] != bs[j],
    decreases ms.len(),
{
    if ms.len() == 0 {
        Seq::empty()
    } else {
        let prev = lemma_fold_bitrates(ms.drop_last());
        let before = spec_quality_fold(ms.drop_last());
        let m = ms.last();
        match spec_parse_u32(m.bitrate) {
            None => prev,
            Some(b) => if before.0.contains(b) {
                prev
            } else {
                match spec_bitrate_label(b) {
                    Some(label) => {
                        let bs = prev.push(b);
                        let after = spec_quality_fold(ms);
                        assert(after.0 == before.0.push(b));
                        assert forall|i: int| 0 <= i < bs.len() implies after.0.contains(#[trigger] bs[i]) by {
                            if i < prev.len() {
                                assert(before.0.contains(prev[i]));
                                let k = choose|k: int| 0 <= k < before.0.len() && before.0[k] == prev[i];
                                assert(after.0[k] == prev[i]);
                            } else {
                                assert(after.0[before.0.len() as int] == b);
                            }
                        }
                        assert forall|i: int, j: int| 0 <= i < j < bs.len() implies bs[i] != bs[j] by {
                            if j == prev.len() {
                                assert(before.0.contains(prev[i]));
                            }
                        }
                        bs
                    },
                    None => {
                        let after = spec_quality_fold(ms);
                        assert(after.0 == before.0.push(b));
                        assert forall|i: int| 0 <= i < prev.len() implies after.0.contains(#[trigger] prev[i]) by {
                            assert(before.0.contains(prev[i]));
                            let k = choose|k: int| 0 <= k < before.0.len() && before.0[k] == prev[i];
                            assert(after.0[k] == prev[i]);
                        }
                        assert(after.1 =~= before.1);
                        prev
                    },
                }
            },
        }
    }
}

/// The qualities read from a text of records have different labels: the first
/// record of a bitrate wins, and known bitrates name different qualities.
pub proof fn lemma_quality_labels_distinct(info: Seq<char>)
    ensures
        forall|i: int, j: int|
            0 <= i < j < spec_quality_records(info).len() ==> spec_quality_records(info)[i].quality
                != spec_quality_records(info)[j].quality,
{
    let ms = spec_records_from(info, 0);
    let bs = lemma_fold_bitrates(ms);
    let out = spec_quality_fold(ms).1;
    assert forall|i: int, j: int| 0 <= i < j < out.len() implies out[i].quality != out[j].quality by {
        assert(spec_bitrate_label(bs[i]) == Some(out[i].quality));
        assert(spec_bitrate_label(bs[j]) == Some(out[j].quality));
        if out[i].quality == out[j].quality {
            lemma_bitrate_label_injective(bs[i], bs[j]);
        }
    }
}

/// A count or id of a listing entry: a number or digits as a string, else 0.
pub open spec fn spec_listing_number(v: JsonView) -> u64 {
    match spec_listing_total(v) {
        Some(n) => n,
        None => 0,
    }
}

/// Reads a count or id of a listing entry.
pub fn listing_number(v: Option<&JsonValue>) -> (r: u64)
    ensures
        r == spec_listing_number(opt_view(opt_deref(v))),
{
    match opt_as_u64(v) {
        Some(n) => n,
        None => match opt_as_str(v) {
            Some(t) => {
                let chars = str_chars(t);
                match parse_u64(chars.as_slice()) {
                    Some(n) => n,
                    None => 0,
                }
            },
            None => 0,
        },
    }
}

/// The head picture of an artist entry: `hts_PICPATH`, else the Kuwo head
/// picture address of `PICPATH`, else nothing; always over HTTPS.
pub open spec fn spec_artist_cover(item: JsonView) -> Seq<char> {
    let raw = match spec_non_empty_str(spec_index(item, "hts_PICPATH"@)) {
        Some(s) => s,
        None => match spec_non_empty_str(spec_index(item, "PICPATH"@)) {
            Some(p) => "https://img1.kuwo.cn/star/starheads/"@ + p,
            None => Seq::empty(),
        },
    };
    crate::filename::spec_replace(raw, "http://"@, "https://"@)
}

/// An artist entry of a search in the front end's shape, or nothing for an
/// entry whose `ARTISTID` is 0.
pub open spec fn spec_parse_artist(item: JsonView) -> Option<JsonView> {
    let id = spec_listing_number(spec_index(item, "ARTISTID"@));
    if id == 0 {
        None
    } else {
        let e0 = Seq::<(Seq<char>, JsonView)>::empty();
        let e1 = spec_obj_insert(e0, "id"@, jstr(spec_decimal(id as nat)));
        let e2 = spec_obj_insert(e1, "name"@, jstr(spec_str_or_empty(spec_index(item, "ARTIST"@))));
        let e3 = spec_obj_insert(e2, "alias"@, jstr(spec_str_or_empty(spec_index(item, "AARTIST"@))));
        let e4 = spec_obj_insert(e3, "region"@, jstr(spec_str_or_empty(spec_index(item, "COUNTRY"@))));
        let e5 = spec_obj_insert(e4, "coverUrl"@, jstr(spec_artist_cover(item)));
        let e6 = spec_obj_insert(e5, "songCount"@, jnum(spec_listing_number(spec_index(item, "SONGNUM"@))));
        Some(JsonView::Object(spec_obj_insert(e6, "albumCount"@, jnum(spec_listing_number(spec_index(item, "ALBUMNUM"@))))))
    }
}

/// Reads an artist entry of a search.
pub fn parse_artist(item: &JsonValue) -> (r: Option<JsonValue>)
    ensures
        match spec_parse_artist(json_view(*item)) {
            Some(v) => r is Some && json_view(r->0) == v,
            None => r is None,
        },
{
    let id = listing_number(value_get(item, "ARTISTID"));
    if id == 0 {
        return None;
    }
    let raw: Vec<char> = match non_empty_str(value_get(item, "hts_PICPATH")) {
        Some(s) => str_chars(s),
        None => match non_empty_str(value_get(item, "PICPATH")) {
            Some(p) => {
                let mut out = str_chars("https://img1.kuwo.cn/star/starheads/");
                push_str_chars(&mut out, p);
                out
            },
            None => Vec::new(),
        },
    };
    proof {
        reveal_strlit("https://img1.kuwo.cn/star/starheads/");
        reveal_strlit("http://");
        reveal_strlit("https://");
        if spec_non_empty_str(spec_index(json_view(*item), "hts_PICPATH"@)) is None
            && spec_non_empty_str(spec_index(json_view(*item), "PICPATH"@)) is None {
            assert(raw@ =~= Seq::<char>::empty());
        }
    }
    let from = str_chars("http://");
    let to = str_chars("https://");
    let cover = crate::filename::replace_chars(raw.as_slice(), from.as_slice(), to.as_slice());
    let mut id_text: Vec<char> = Vec::new();
    push_decimal(id, &mut id_text);
    let mut es: Vec<(String, JsonValue)> = Vec::new();
    assert(entries_view(es@) =~= Seq::<(Seq<char>, JsonView)>::empty());
    obj_insert(&mut es, String::from_str("id"), string_value(id_text.as_slice()));
    obj_insert(&mut es, String::from_str("name"), json_string(str_or_empty(value_get(item, "ARTIST"))));
    obj_insert(&mut es, String::from_str("alias"), json_string(str_or_empty(value_get(item, "AARTIST"))));
    obj_insert(&mut es, String::from_str("region"), json_string(str_or_empty(value_get(item, "COUNTRY"))));
    obj_insert(&mut es, String::from_str("coverUrl"), string_value(cover.as_slice()));
    obj_insert(&mut es, String::from_str("songCount"), number_value(listing_number(value_get(item, "SONGNUM"))));
    obj_insert(&mut es, String::from_str("albumCount"), number_value(listing_number(value_get(item, "ALBUMNUM"))));
    Some(JsonValue::Object(es))
}

/// The artists read from search entries, in order, without the entries whose
/// id is 0.
pub open spec fn spec_parsed_artists(items: Seq<JsonView>) -> Seq<JsonView>
    decreases items.len(),
{
    if items.len() == 0 {
        Seq::empty()
    } else {
        let rest = spec_parsed_artists(items.drop_last());
        match spec_parse_artist(items.last()) {
            Some(a) => rest.push(a),
            None => rest,
        }
    }
}

/// An artist search page: the artists, whether more pages follow (an empty
/// page has none after it) and the total; without an `abslist` array the
/// search found no list.
pub open spec fn spec_search_artists(data: JsonView, page: u32, limit: u32) -> Result<JsonView, Seq<char>> {
    match spec_index(data, "abslist"@) {
        JsonView::Array(items) => {
            let total = spec_listing_number(spec_index(data, "TOTAL"@));
            let more = items.len() > 0 && spec_has_more(page, limit, items.len(), total);
            let e0 = Seq::<(Seq<char>, JsonView)>::empty();
            let e1 = spec_obj_insert(e0, "artists"@, JsonView::Array(spec_parsed_artists(items)));
            let e2 = spec_obj_insert(e1, "has_more"@, JsonView::Bool(more));
            Ok(JsonView::Object(spec_obj_insert(e2, "total"@, jnum(total))))
        },
        _ => Err("未找到歌手列表"@),
    }
}

/// Reads an artist search page from the search response.
pub fn search_artists_page(data: &JsonValue, page: u32, limit: u32) -> (r: Result<JsonValue, String>)
    ensures
        match spec_search_artists(json_view(*data), page, limit) {
            Ok(v) => r is Ok && json_view(r->Ok_0) == v,
            Err(m) => r is Err && r->Err_0@ == m,
        },
{
    let items: &Vec<JsonValue> = match value_get(data, "abslist") {
        Some(JsonValue::Array(a)) => a,
        _ => return Err(String::from_str("未找到歌手列表")),
    };
    let ghost iv = array_view(items@);
    let mut artists: Vec<JsonValue> = Vec::new();
    let mut k: usize = 0;
    while k < items.len()
        invariant
            k <= items.len(),
            iv == array_view(items@),
            array_view(artists@) == spec_parsed_artists(iv.take(k as int)),
        decreases items.len() - k,
    {
        assert(iv.take(k + 1).drop_last() =~= iv.take(k as int));
        assert(iv.take(k + 1).last() == json_view(items@[k as int]));
        let ghost before = artists@;
        match parse_artist(&items[k]) {
            Some(a) => {
                artists.push(a);
                assert(array_view(artists@) =~= array_view(before).push(json_view(artists@[before.len() as int])));
            },
            None => {},
        }
        k = k + 1;
    }
    assert(iv.take(k as int) =~= iv);
    let total = listing_number(value_get(data, "TOTAL"));
    let page_no: u32 = if page > 0 {
        page - 1
    } else {
        0
    };
    let before = crate::platforms::qq_playlist::page_offset(page_no, limit);
    let more = items.len() > 0 && before + (items.len() as u128) < total as u128;
    let mut es: Vec<(String, JsonValue)> = Vec::new();
    assert(entries_view(es@) =~= Seq::<(Seq<char>, JsonView)>::empty());
    obj_insert(&mut es, String::from_str("artists"), JsonValue::Array(artists));
    obj_insert(&mut es, String::from_str("has_more"), JsonValue::Bool(more));
    obj_insert(&mut es, String::from_str("total"), number_value(total));
    Ok(JsonValue::Object(es))
}

} // verus!

//! Where a download is saved: the directory setting, the built file name and the
//! extension of the playable format.

use vstd::prelude::*;

use crate::filename::{build_filename, spec_build_filename};
use crate::task_context::SongInfo;
use crate::text::{chars_eq, push_str_chars, str_chars, string_from_chars};

verus! {

/// SAF storage exists only in Android builds; this library is built for other
/// targets, where every download is a plain file path.
pub const TARGET_IS_ANDROID: bool = false;

/// Where the path segment that ends at `j` begins: after the last `/` before `j`.
pub open spec fn spec_segment_start(s: Seq<char>, j: int) -> int
    decreases j,
{
    if j <= 0 {
        0
    } else if s[j - 1] == '/' {
        j
    } else {
        spec_segment_start(s, j - 1)
    }
}

/// The last component of the path up to `j` that is neither empty nor `.`,
/// unless it is `..` (`Path::file_name` on a `/`-separated path).
pub open spec fn spec_file_name_upto(s: Seq<char>, j: int) -> Option<Seq<char>>
    decreases j,
{
    if j <= 0 || j > s.len() {
        None
    } else {
        let st = spec_segment_start(s, j);
        let seg = s.subrange(st, j);
        if seg.len() == 0 || seg == "."@ {
            if 0 < st && st <= j {
                spec_file_name_upto(s, st - 1)
            } else {
                None
            }
        } else if seg == ".."@ {
            None
        } else {
            Some(seg)
        }
    }
}

/// The file name of a path.
pub open spec fn spec_file_name(p: Seq<char>) -> Option<Seq<char>> {
    spec_file_name_upto(p, p.len() as int)
}

/// The index of the last `.` before `j`, or -1.
pub open spec fn spec_last_dot(s: Seq<char>, j: int) -> int
    decreases j,
{
    if j <= 0 {
        -1
    } else if s[j - 1] == '.' {
        j - 1
    } else {
        spec_last_dot(s, j - 1)
    }
}

/// The extension of a path: the part of its file name after the last `.`,
/// unless there is no `.` or the only one begins the name (`Path::extension`).
pub open spec fn spec_extension(p: Seq<char>) -> Option<Seq<char>> {
    match spec_file_name(p) {
        None => None,
        Some(name) => {
            let d = spec_last_dot(name, name.len() as int);
            if d <= 0 {
                None
            } else {
                Some(name.skip(d + 1))
            }
        },
    }
}

/// A file name appended to a directory (`Path::join` with `/`): an absolute name
/// replaces the directory; a separator is put between them where needed.
pub open spec fn spec_join(dir: Seq<char>, name: Seq<char>) -> Seq<char> {
    if name.len() > 0 && name[0] == '/' {
        name
    } else if dir.len() > 0 && dir.last() != '/' {
        dir + "/"@ + name
    } else {
        dir + name
    }
}

/// The playable format that an encrypted extension is saved as.
pub open spec fn spec_map_extension(e: Seq<char>) -> Seq<char> {
    if e == "mgg"@ {
        "ogg"@
    } else if e == "mflac"@ {
        "flac"@
    } else {
        e
    }
}

/// The extension of the platform's file name, `flac` without one.
pub open spec fn spec_raw_extension(quality_filename: Seq<char>) -> Seq<char> {
    match spec_extension(quality_filename) {
        Some(e) => e,
        None => "flac"@,
    }
}

/// The saved file's name: the built name, a `.` and the playable extension.
pub open spec fn spec_saved_file_name(template: Seq<char>, info: SongInfo, quality_filename: Seq<char>) -> Seq<char> {
    spec_build_filename(template, info) + "."@ + spec_map_extension(spec_raw_extension(quality_filename))
}

/// Whether a download goes through SAF: only in Android builds, for the `saf://`
/// directory setting with a folder URI.
pub open spec fn spec_uses_saf(dir: Seq<char>, saf_uri: Option<Seq<char>>) -> bool {
    dir == "saf://"@ && TARGET_IS_ANDROID && saf_uri is Some
}

/// Where the path segment that ends at `j` begins.
fn segment_start(s: &[char], j: usize) -> (r: usize)
    requires
        j <= s.len(),
    ensures
        r == spec_segment_start(s@, j as int),
        r <= j,
{
    let mut k = j;
    while k > 0 && s[k - 1] != '/'
        invariant
            k <= j,
            j <= s.len(),
            spec_segment_start(s@, j as int) == spec_segment_start(s@, k as int),
        decreases k,
    {
        k = k - 1;
    }
    k
}

/// The file name of a path, if it has one.
fn file_name(p: &[char]) -> (r: Option<Vec<char>>)
    ensures
        match spec_file_name(p@) {
            Some(n) => r is Some && r->0@ == n,
            None => r is None,
        },
{
    let dot = str_chars(".");
    let dotdot = str_chars("..");
    proof {
        reveal_strlit(".");
        reveal_strlit("..");
    }
    let mut j = p.len();
    while j > 0
        invariant
            j <= p.len(),
            dot@ == "."@,
            dotdot@ == ".."@,
            spec_file_name(p@) == spec_file_name_upto(p@, j as int),
        decreases j,
    {
        let st = segment_start(p, j);
        let seg = &p[st..j];
        assert(seg@ =~= p@.subrange(st as int, j as int));
        if seg.len() == 0 || chars_eq(seg, dot.as_slice()) {
            if st == 0 {
                return None;
            }
            j = st - 1;
        } else if chars_eq(seg, dotdot.as_slice()) {
            return None;
        } else {
            let mut name: Vec<char> = Vec::new();
            let mut k = st;
            while k < j
                invariant
                    st <= k <= j,
                    j <= p.len(),
                    name@ == p@.subrange(st as int, k as int),
                decreases j - k,
            {
                name.push(p[k]);
                k = k + 1;
            }
            return Some(name);
        }
    }
    None
}

/// The extension of a path, if it has one.
pub fn extension_of(p: &[char]) -> (r: Option<Vec<char>>)
    ensures
        match spec_extension(p@) {
            Some(e) => r is Some && r->0@ == e,
            None => r is None,
        },
{
    match file_name(p) {
        None => None,
        Some(name) => {
            let mut j = name.len();
            while j > 0 && name[j - 1] != '.'
                invariant
                    j <= name.len(),
                    spec_last_dot(name@, name@.len() as int) == spec_last_dot(name@, j as int),
                decreases j,
            {
                j = j - 1;
            }
            if j <= 1 {
                return None;
            }
            let mut e: Vec<char> = Vec::new();
            let mut k = j;
            while k < name.len()
                invariant
                    j <= k <= name.len(),
                    e@ == name@.subrange(j as int, k as int),
                decreases name.len() - k,
            {
                e.push(name[k]);
                k = k + 1;
            }
            assert(e@ =~= name@.skip(j as int));
            Some(e)
        },
    }
}

/// Maps an encrypted extension to the playable audio format it is saved as.
pub fn map_decrypted_extension(extension: &str) -> (r: &str)
    ensures
        r@ == spec_map_extension(extension@),
{
    let e = str_chars(extension);
    let mgg = str_chars("mgg");
    let mflac = str_chars("mflac");
    if chars_eq(e.as_slice(), mgg.as_slice()) {
        "ogg"
    } else if chars_eq(e.as_slice(), mflac.as_slice()) {
        "flac"
    } else {
        extension
    }
}

/// Computes where a task's file is saved: whether it goes through SAF, the path
/// or (for SAF) file name, and the SAF folder URI.
pub fn resolve_download_path(
    dir_setting: &str,
    template_setting: &str,
    saf_uri_setting: Option<&str>,
    song_info: &SongInfo,
    quality_filename: &str,
) -> (r: (bool, String, Option<String>))
    ensures
        ({
            let name = spec_saved_file_name(template_setting@, *song_info, quality_filename@);
            let uri = match saf_uri_setting {
                Some(u) => Some(u@),
                None => None,
            };
            if spec_uses_saf(dir_setting@, uri) {
                r.0 && r.1@ == name && r.2 is Some && r.2->0@ == uri->0
            } else {
                !r.0 && r.1@ == spec_join(dir_setting@, name) && r.2 is None
            }
        }),
{
    let stem = build_filename(template_setting, song_info);
    let qf = str_chars(quality_filename);
    let raw: Vec<char> = match extension_of(qf.as_slice()) {
        Some(e) => e,
        None => str_chars("flac"),
    };
    let raw_str = string_from_chars(raw.as_slice());
    let mapped = map_decrypted_extension(raw_str.as_str());
    let mut name: Vec<char> = Vec::new();
    push_str_chars(&mut name, stem.as_str());
    name.push('.');
    push_str_chars(&mut name, mapped);
    proof {
        reveal_strlit(".");
    }
    assert(name@ =~= spec_saved_file_name(template_setting@, *song_info, quality_filename@));
    let dir = str_chars(dir_setting);
    let saf_dir = str_chars("saf://");
    if chars_eq(dir.as_slice(), saf_dir.as_slice()) && TARGET_IS_ANDROID && saf_uri_setting.is_some() {
        let uri = match saf_uri_setting {
            Some(u) => Some(String::from_str(u)),
            None => None,
        };
        return (true, string_from_chars(name.as_slice()), uri);
    }
    let mut full: Vec<char> = Vec::new();
    if name.len() > 0 && name[0] == '/' {
        push_str_chars(&mut full, string_from_chars(name.as_slice()).as_str());
    } else {
        push_str_chars(&mut full, dir_setting);
        if dir.len() > 0 && dir[dir.len() - 1] != '/' {
            full.push('/');
        }
        let mut k: usize = 0;
        let ghost before = full@;
        while k < name.len()
            invariant
                k <= name.len(),
                full@ == before + name@.take(k as int),
            decreases name.len() - k,
        {
            full.push(name[k]);
            assert(name@.take(k + 1) =~= name@.take(k as int).push(name@[k as int]));
            k = k + 1;
        }
        assert(name@.take(k as int) =~= name@);
    }
    proof {
        reveal_strlit("/");
    }
    assert(full@ =~= spec_join(dir_setting@, name@));
    (false, string_from_chars(full.as_slice()), None)
}


/// The length of what stands before a path's components: a root `/`, or the
/// `.` of a path that starts in the current directory.
pub open spec fn spec_before_body(p: Seq<char>) -> int {
    if p.len() > 0 && p[0] == '/' {
        1
    } else if p.len() > 0 && p[0] == '.' && (p.len() == 1 || p[1] == '/') {
        1
    } else {
        0
    }
}

/// Where the last component of the first `n` characters begins.
pub open spec fn spec_component_start(p: Seq<char>, n: int) -> int {
    let st = spec_segment_start(p, n);
    if st > spec_before_body(p) {
        st
    } else {
        spec_before_body(p)
    }
}

/// How many characters are left once the last component of the first `n` and
/// the separator before it are taken off.
pub open spec fn spec_component_rest(p: Seq<char>, n: int) -> int {
    let st = spec_segment_start(p, n);
    if st > spec_before_body(p) {
        st - 1
    } else {
        spec_before_body(p)
    }
}

/// Whether a component is empty or `.`, which a path's components skip.
pub open spec fn spec_skipped_component(c: Seq<char>) -> bool {
    c.len() == 0 || c == "."@
}

/// The last component of a path, read from its end.
pub enum PathEnd {
    Normal(Seq<char>),
    ParentDir,
    CurDir,
    RootDir,
    Empty,
}

/// The last component of the first `n` characters, and how many characters
/// remain before it (`Components::next_back` on a `/`-separated path).
pub open spec fn spec_next_back(p: Seq<char>, n: int) -> (PathEnd, int)
    decreases n,
{
    let lb = spec_before_body(p);
    if n > lb && n <= p.len() {
        let c = p.subrange(spec_component_start(p, n), n);
        let rest = spec_component_rest(p, n);
        if spec_skipped_component(c) {
            if 0 <= rest < n {
                spec_next_back(p, rest)
            } else {
                (PathEnd::Empty, 0)
            }
        } else if c == ".."@ {
            (PathEnd::ParentDir, rest)
        } else {
            (PathEnd::Normal(c), rest)
        }
    } else if p.len() > 0 && p[0] == '/' {
        (PathEnd::RootDir, 0)
    } else if lb == 1 {
        (PathEnd::CurDir, 0)
    } else {
        (PathEnd::Empty, 0)
    }
}

/// The first `n` characters without trailing empty or `.` components.
pub open spec fn spec_trim_back(p: Seq<char>, n: int) -> int
    decreases n,
{
    let lb = spec_before_body(p);
    if n > lb && n <= p.len() {
        let c = p.subrange(spec_component_start(p, n), n);
        let rest = spec_component_rest(p, n);
        if spec_skipped_component(c) && 0 <= rest < n {
            spec_trim_back(p, rest)
        } else {
            n
        }
    } else {
        n
    }
}

/// The parent directory of a path (`Path::parent`): none for a root or an
/// empty path.
pub open spec fn spec_parent(p: Seq<char>) -> Option<Seq<char>> {
    let (last, rest) = spec_next_back(p, p.len() as int);
    match last {
        PathEnd::Normal(_) => Some(p.take(spec_trim_back(p, rest))),
        PathEnd::ParentDir => Some(p.take(spec_trim_back(p, rest))),
        PathEnd::CurDir => Some(Seq::empty()),
        PathEnd::RootDir => None,
        PathEnd::Empty => None,
    }
}

/// The file name of a path without its extension (`Path::file_stem`).
pub open spec fn spec_file_stem(p: Seq<char>) -> Option<Seq<char>> {
    match spec_file_name(p) {
        None => None,
        Some(name) => {
            let d = spec_last_dot(name, name.len() as int);
            if d <= 0 {
                Some(name)
            } else {
                Some(name.take(d))
            }
        },
    }
}

/// The length of what stands before the components.
fn before_body(p: &[char]) -> (r: usize)
    ensures
        r == spec_before_body(p@),
{
    if p.len() > 0 && p[0] == '/' {
        1
    } else if p.len() > 0 && p[0] == '.' && (p.len() == 1 || p[1] == '/') {
        1
    } else {
        0
    }
}

/// Whether the characters from `a` to `b` are empty or a single `.`.
fn skipped_between(p: &[char], a: usize, b: usize) -> (r: bool)
    requires
        a <= b <= p.len(),
    ensures
        r == spec_skipped_component(p@.subrange(a as int, b as int)),
{
    proof {
        reveal_strlit(".");
    }
    let ghost c = p@.subrange(a as int, b as int);
    if a == b {
        true
    } else if b - a == 1 && p[a] == '.' {
        assert(c =~= "."@);
        true
    } else {
        assert(c.len() != 1 || c[0] != '.');
        false
    }
}

/// Whether the characters from `a` to `b` are `..`.
fn dotdot_between(p: &[char], a: usize, b: usize) -> (r: bool)
    requires
        a <= b <= p.len(),
    ensures
        r == (p@.subrange(a as int, b as int) == ".."@),
{
    proof {
        reveal_strlit("..");
    }
    let ghost c = p@.subrange(a as int, b as int);
    if b - a == 2 && p[a] == '.' && p[a + 1] == '.' {
        assert(c =~= ".."@);
        true
    } else {
        assert(c.len() != 2 || c[0] != '.' || c[1] != '.');
        false
    }
}

/// The parent directory of a path, if it has one.
pub fn parent_of(p: &[char]) -> (r: Option<Vec<char>>)
    ensures
        match spec_parent(p@) {
            Some(d) => r is Some && r->0@ == d,
            None => r is None,
        },
{
    let lb = before_body(p);
    let mut n = p.len();
    let mut found = false;
    while n > lb
        invariant
            lb == spec_before_body(p@),
            lb <= n <= p.len(),
            !found,
            spec_next_back(p@, p@.len() as int) == spec_next_back(p@, n as int),
        decreases n,
    {
        let st = segment_start(p, n);
        let (cs, rest) = if st > lb {
            (st, st - 1)
        } else {
            (lb, lb)
        };
        if skipped_between(p, cs, n) {
            n = rest;
        } else {
            let parent_dir = dotdot_between(p, cs, n);
            let ghost last = spec_next_back(p@, n as int);
            assert(last.1 == rest);
            assert(parent_dir ==> last.0 == PathEnd::ParentDir);
            assert(!parent_dir ==> last.0 == PathEnd::Normal(p@.subrange(cs as int, n as int)));
            let mut m = rest;
            let mut kept = false;
            while m > lb && !kept
                invariant
                    lb == spec_before_body(p@),
                    lb <= m <= p.len(),
                    spec_trim_back(p@, rest as int) == spec_trim_back(p@, m as int),
                    kept ==> spec_trim_back(p@, m as int) == m,
                decreases m, if kept { 0int } else { 1int },
            {
                let st2 = segment_start(p, m);
                let (cs2, rest2) = if st2 > lb {
                    (st2, st2 - 1)
                } else {
                    (lb, lb)
                };
                if skipped_between(p, cs2, m) {
                    m = rest2;
                } else {
                    kept = true;
                }
            }
            assert(spec_trim_back(p@, m as int) == m);
            let mut out: Vec<char> = Vec::new();
            let mut k: usize = 0;
            while k < m
                invariant
                    k <= m <= p.len(),
                    out@ == p@.take(k as int),
                decreases m - k,
            {
                out.push(p[k]);
                assert(p@.take(k + 1) =~= p@.take(k as int).push(p@[k as int]));
                k = k + 1;
            }
            return Some(out);
        }
    }
    if p.len() > 0 && p[0] == '/' {
        None
    } else if lb == 1 {
        Some(Vec::new())
    } else {
        None
    }
}

/// The file name of a path without its extension, if it has a file name.
pub fn file_stem_of(p: &[char]) -> (r: Option<Vec<char>>)
    ensures
        match spec_file_stem(p@) {
            Some(s) => r is Some && r->0@ == s,
            None => r is None,
        },
{
    match file_name(p) {
        None => None,
        Some(name) => {
            let mut j = name.len();
            while j > 0 && name[j - 1] != '.'
                invariant
                    j <= name.len(),
                    spec_last_dot(name@, name@.len() as int) == spec_last_dot(name@, j as int),
                decreases j,
            {
                j = j - 1;
            }
            if j <= 1 {
                return Some(name);
            }
            let mut s: Vec<char> = Vec::new();
            let mut k: usize = 0;
            while k < j - 1
                invariant
                    k <= j - 1,
                    j <= name.len(),
                    s@ == name@.take(k as int),
                decreases j - 1 - k,
            {
                s.push(name[k]);
                assert(name@.take(k + 1) =~= name@.take(k as int).push(name@[k as int]));
                k = k + 1;
            }
            Some(s)
        },
    }
}

} // verus!

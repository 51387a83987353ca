//! What post-processing does after a file transfer: which lyrics and cover to
//! fetch, what goes into the audio tags, and whether a separate LRC file is
//! written. Failures here never fail the download.

use vstd::prelude::*;

use crate::platform::Platform;
use crate::platforms::lyric::LyricData;
use crate::download_path::{file_stem_of, parent_of, spec_file_stem, spec_join, spec_parent};
use crate::text::{is_blank, push_str_chars, spec_trim, str_chars, string_from_chars};

verus! {

/// Lyrics and cover fetched once, for the tags and for a separate LRC file.
#[derive(Debug)]
pub struct PostprocessAssets {
    pub lyric: Option<LyricData>,
    pub cover_bytes: Option<Vec<u8>>,
}

/// The complete post-processing of plain files, held by the stand-alone service.
pub struct LocalDownloadPostprocessor;

/// The text of an optional string when it is not blank.
pub open spec fn spec_non_blank(s: Option<String>) -> Option<Seq<char>> {
    match s {
        Some(v) => if spec_trim(v@).len() > 0 {
            Some(v@)
        } else {
            None
        },
        None => None,
    }
}

/// Whether lyrics are fetched: for the tags or for an LRC file.
pub fn lyric_wanted(write_metadata: bool, download_lrc: bool) -> (r: bool)
    ensures
        r == (write_metadata || download_lrc),
{
    write_metadata || download_lrc
}

/// Whether a Kuwo cover is looked up: Kuwo search results may lack one, and it
/// is only needed for the tags.
pub fn should_fetch_kuwo_cover(write_metadata: bool, cover_url: &str, platform: Platform) -> (r: bool)
    ensures
        r == (write_metadata && cover_url@.len() == 0 && platform == Platform::Kuwo),
{
    write_metadata && cover_url.unicode_len() == 0 && platform == Platform::Kuwo
}

/// Whether the cover image is downloaded: only for the tags, and only with a URL.
pub fn should_download_cover(write_metadata: bool, cover_url: &str) -> (r: bool)
    ensures
        r == (write_metadata && cover_url@.len() > 0),
{
    write_metadata && cover_url.unicode_len() > 0
}

/// The text of an optional string when it is not blank.
fn non_blank(s: &Option<String>) -> (r: Option<String>)
    ensures
        match spec_non_blank(*s) {
            Some(t) => r is Some && r->0@ == t,
            None => r is None,
        },
{
    match s {
        Some(v) => {
            let chars = str_chars(v.as_str());
            if is_blank(chars.as_slice()) {
                None
            } else {
                Some(v.clone())
            }
        },
        None => None,
    }
}

/// The lyrics for the audio tag: the enhanced lyrics, else the plain ones,
/// whichever first is not blank.
pub fn metadata_lyric(assets: &PostprocessAssets) -> (r: Option<String>)
    ensures
        match assets.lyric {
            Some(l) => match spec_non_blank(l.elrc) {
                Some(t) => r is Some && r->0@ == t,
                None => match spec_non_blank(l.lrc) {
                    Some(t) => r is Some && r->0@ == t,
                    None => r is None,
                },
            },
            None => r is None,
        },
{
    match &assets.lyric {
        Some(l) => match non_blank(&l.elrc) {
            Some(t) => Some(t),
            None => non_blank(&l.lrc),
        },
        None => None,
    }
}

/// Whether the tags are written at all: without lyrics and without a cover the
/// audio's own title, artist and album are left alone.
pub fn metadata_has_content(lyric: &Option<String>, assets: &PostprocessAssets) -> (r: bool)
    ensures
        r == (lyric is Some || assets.cover_bytes is Some),
{
    lyric.is_some() || assets.cover_bytes.is_some()
}

/// The content of the separate LRC file: the plain lyrics, unless blank.
pub fn local_lrc_content(lyric: &LyricData) -> (r: Option<String>)
    ensures
        match spec_non_blank(lyric.lrc) {
            Some(t) => r is Some && r->0@ == t,
            None => r is None,
        },
{
    non_blank(&lyric.lrc)
}

/// Where the LRC file of an audio file goes: beside it, named after its stem
/// (`unknown` without one), with the `.lrc` extension.
pub open spec fn spec_lrc_path(audio_path: Seq<char>) -> Seq<char> {
    let stem = match spec_file_stem(audio_path) {
        Some(s) => s,
        None => "unknown"@,
    };
    let parent = match spec_parent(audio_path) {
        Some(d) => d,
        None => "."@,
    };
    spec_join(parent, stem + ".lrc"@)
}

/// Where the LRC file of an audio file goes.
pub fn lrc_path(audio_path: &str) -> (r: String)
    ensures
        r@ == spec_lrc_path(audio_path@),
{
    proof {
        reveal_strlit("/");
        reveal_strlit(".lrc");
    }
    let chars = str_chars(audio_path);
    let stem: Vec<char> = match file_stem_of(chars.as_slice()) {
        Some(s) => s,
        None => str_chars("unknown"),
    };
    let parent: Vec<char> = match parent_of(chars.as_slice()) {
        Some(d) => d,
        None => str_chars("."),
    };
    let mut name: Vec<char> = stem;
    push_str_chars(&mut name, ".lrc");
    let mut out: Vec<char> = Vec::new();
    if name.len() > 0 && name[0] == '/' {
        out = name;
    } else {
        let mut k: usize = 0;
        while k < parent.len()
            invariant
                k <= parent.len(),
                out@ == parent@.take(k as int),
            decreases parent.len() - k,
        {
            out.push(parent[k]);
            assert(parent@.take(k + 1) =~= parent@.take(k as int).push(parent@[k as int]));
            k = k + 1;
        }
        assert(parent@.take(k as int) =~= parent@);
        if parent.len() > 0 && parent[parent.len() - 1] != '/' {
            out.push('/');
        }
        let ghost before = out@;
        let mut k: usize = 0;
        while k < name.len()
            invariant
                k <= name.len(),
                out@ == before + name@.take(k as int),
            decreases name.len() - k,
        {
            out.push(name[k]);
            assert(name@.take(k + 1) =~= name@.take(k as int).push(name@[k as int]));
            k = k + 1;
        }
        assert(name@.take(k as int) =~= name@);
    }
    assert(out@ =~= spec_lrc_path(audio_path@));
    string_from_chars(out.as_slice())
}

} // verus!

//! File names built from the naming template and the song's data.

use vstd::prelude::*;

use crate::task_context::SongInfo;
use crate::text::{chars_eq, is_whitespace, spec_is_whitespace, spec_trim, spec_trim_start, str_chars, string_from_chars};

verus! {

/// Whether a character may not stand in a file name on common platforms.
pub open spec fn spec_is_illegal(c: char) -> bool {
    c == '\\' || c == '/' || c == ':' || c == '*' || c == '?' || c == '"' || c == '<' || c == '>'
        || c == '|'
}

/// Every illegal character replaced by `_`.
pub open spec fn spec_sanitize(s: Seq<char>) -> Seq<char> {
    s.map_values(|c: char| if spec_is_illegal(c) {
        '_'
    } else {
        c
    })
}

/// Every occurrence of `pat`, left to right and without overlap, replaced by
/// `rep` (`str::replace` for a non-empty pattern).
pub open spec fn spec_replace(s: Seq<char>, pat: Seq<char>, rep: Seq<char>) -> Seq<char>
    decreases s.len(),
{
    if pat.len() == 0 || s.len() < pat.len() {
        s
    } else if s.take(pat.len() as int) == pat {
        rep + spec_replace(s.skip(pat.len() as int), pat, rep)
    } else {
        seq![s[0]] + spec_replace(s.skip(1), pat, rep)
    }
}

/// The template with `{song}`, `{artist}`, `{album}` and `{quality}` replaced in
/// that order.
pub open spec fn spec_apply_template(
    template: Seq<char>,
    artist: Seq<char>,
    title: Seq<char>,
    album: Seq<char>,
    quality: Seq<char>,
) -> Seq<char> {
    spec_replace(
        spec_replace(
            spec_replace(spec_replace(template, "{song}"@, title), "{artist}"@, artist),
            "{album}"@,
            album,
        ),
        "{quality}"@,
        quality,
    )
}

/// The default naming template.
pub open spec fn default_template() -> Seq<char> {
    "{song} - {artist}"@
}

/// The name used when neither template yields a character.
pub open spec fn unknown_song_name() -> Seq<char> {
    "未知歌曲"@
}

/// The sanitized name that a template gives for the song.
pub open spec fn spec_template_name(template: Seq<char>, info: SongInfo) -> Seq<char> {
    spec_sanitize(
        spec_apply_template(template, info.artist@, info.title@, info.album@, info.quality@),
    )
}

/// A character that makes a name: neither whitespace nor illegal in file names.
pub open spec fn spec_is_valid_char(c: char) -> bool {
    !spec_is_whitespace(c) && !spec_is_illegal(c)
}

/// Whether the text holds a valid character.
pub open spec fn spec_has_valid_char(s: Seq<char>) -> bool {
    exists|i: int| 0 <= i < s.len() && spec_is_valid_char(#[trigger] s[i])
}

/// The file name without extension. A filled-in template with a valid
/// character gives the name; one without (a template of illegal characters
/// only, say) falls back to the default template while the title or the artist
/// holds a valid character, and else to a fixed name.
pub open spec fn spec_build_filename(template: Seq<char>, info: SongInfo) -> Seq<char> {
    let filled = spec_apply_template(template, info.artist@, info.title@, info.album@, info.quality@);
    if spec_has_valid_char(filled) {
        spec_sanitize(filled)
    } else if spec_has_valid_char(info.title@) || spec_has_valid_char(info.artist@) {
        spec_template_name(default_template(), info)
    } else {
        unknown_song_name()
    }
}

/// Whether a character may not stand in a file name.
fn is_illegal(c: char) -> (r: bool)
    ensures
        r == spec_is_illegal(c),
{
    c == '\\' || c == '/' || c == ':' || c == '*' || c == '?' || c == '"' || c == '<' || c == '>'
        || c == '|'
}

/// The characters with every illegal one replaced by `_`.
fn sanitize_chars(s: &[char]) -> (r: Vec<char>)
    ensures
        r@ == spec_sanitize(s@),
{
    let mut out: Vec<char> = Vec::new();
    let mut i: usize = 0;
    while i < s.len()
        invariant
            i <= s.len(),
            out@ == spec_sanitize(s@.take(i as int)),
        decreases s.len() - i,
    {
        let c = s[i];
        if is_illegal(c) {
            out.push('_');
        } else {
            out.push(c);
        }
        assert(spec_sanitize(s@.take(i + 1)) =~= spec_sanitize(s@.take(i as int)).push(
            if spec_is_illegal(c) {
                '_'
            } else {
                c
            },
        ));
        i = i + 1;
    }
    assert(s@.take(i as int) =~= s@);
    out
}

/// Replaces the characters that are illegal in file names with `_`.
pub fn sanitize_name(raw: &str) -> (r: String)
    ensures
        r@ == spec_sanitize(raw@),
{
    let chars = str_chars(raw);
    let out = sanitize_chars(chars.as_slice());
    string_from_chars(out.as_slice())
}

/// Replaces every occurrence of a non-empty pattern.
pub(crate) fn replace_chars(s: &[char], pat: &[char], rep: &[char]) -> (r: Vec<char>)
    requires
        pat.len() > 0,
    ensures
        r@ == spec_replace(s@, pat@, rep@),
{
    let mut out: Vec<char> = Vec::new();
    let mut i: usize = 0;
    let plen = pat.len();
    assert(s@.skip(0) =~= s@);
    assert(out@ + spec_replace(s@, pat@, rep@) =~= spec_replace(s@, pat@, rep@));
    while i < s.len()
        invariant
            i <= s.len(),
            plen == pat.len(),
            plen > 0,
            out@ + spec_replace(s@.skip(i as int), pat@, rep@) == spec_replace(s@, pat@, rep@),
        decreases s.len() - i,
    {
        let ghost rest = s@.skip(i as int);
        if s.len() - i >= plen && chars_eq(&s[i..i + plen], pat) {
            assert(rest.take(plen as int) =~= s@.subrange(i as int, i + plen));
            assert(rest.skip(plen as int) =~= s@.skip(i + plen));
            let mut k: usize = 0;
            let ghost before = out@;
            while k < rep.len()
                invariant
                    k <= rep.len(),
                    out@ == before + rep@.take(k as int),
                decreases rep.len() - k,
            {
                out.push(rep[k]);
                assert(rep@.take(k + 1) =~= rep@.take(k as int).push(rep[k as int]));
                k = k + 1;
            }
            assert(rep@.take(k as int) =~= rep@);
            assert(out@ + spec_replace(s@.skip(i + plen), pat@, rep@) =~= before + spec_replace(
                rest,
                pat@,
                rep@,
            ));
            i = i + plen;
        } else {
            proof {
                if s.len() - i >= plen {
                    assert(rest.take(plen as int) =~= s@.subrange(i as int, i + plen));
                }
            }
            assert(rest.skip(1) =~= s@.skip(i + 1));
            let ghost before = out@;
            out.push(s[i]);
            proof {
                if rest.len() < plen {
                    assert(spec_replace(rest, pat@, rep@) == rest);
                    assert(spec_replace(rest.skip(1), pat@, rep@) == rest.skip(1));
                    assert(rest =~= seq![s@[i as int]] + rest.skip(1));
                }
            }
            assert(out@ + spec_replace(s@.skip(i + 1), pat@, rep@) =~= before + spec_replace(
                rest,
                pat@,
                rep@,
            ));
            i = i + 1;
        }
    }
    assert(s@.skip(i as int) =~= Seq::<char>::empty());
    assert(out@ + Seq::<char>::empty() =~= out@);
    out
}

/// The template with its placeholders replaced, as characters.
fn apply_template_chars(
    template: &str,
    artist: &str,
    title: &str,
    album: &str,
    quality: &str,
) -> (r: Vec<char>)
    ensures
        r@ == spec_apply_template(template@, artist@, title@, album@, quality@),
{
    let song_key = str_chars("{song}");
    let artist_key = str_chars("{artist}");
    let album_key = str_chars("{album}");
    let quality_key = str_chars("{quality}");
    proof {
        reveal_strlit("{song}");
        reveal_strlit("{artist}");
        reveal_strlit("{album}");
        reveal_strlit("{quality}");
    }
    let t = str_chars(template);
    let title_chars = str_chars(title);
    let artist_chars = str_chars(artist);
    let album_chars = str_chars(album);
    let quality_chars = str_chars(quality);
    let a = replace_chars(t.as_slice(), song_key.as_slice(), title_chars.as_slice());
    let b = replace_chars(a.as_slice(), artist_key.as_slice(), artist_chars.as_slice());
    let c = replace_chars(b.as_slice(), album_key.as_slice(), album_chars.as_slice());
    replace_chars(c.as_slice(), quality_key.as_slice(), quality_chars.as_slice())
}

/// Replaces the song, artist, album and quality placeholders of a naming
/// template with the actual values.
pub fn apply_template(template: &str, artist: &str, title: &str, album: &str, quality: &str) -> (r:
    String)
    ensures
        r@ == spec_apply_template(template@, artist@, title@, album@, quality@),
{
    let out = apply_template_chars(template, artist, title, album, quality);
    string_from_chars(out.as_slice())
}

/// The sanitized name that a template gives for the song.
fn template_name(template: &str, info: &SongInfo) -> (r: Vec<char>)
    ensures
        r@ == spec_template_name(template@, *info),
{
    let name = apply_template_chars(
        template,
        info.artist.as_str(),
        info.title.as_str(),
        info.album.as_str(),
        info.quality.as_str(),
    );
    sanitize_chars(name.as_slice())
}

/// Whether the characters hold a valid one.
fn has_valid_char(s: &[char]) -> (r: bool)
    ensures
        r == spec_has_valid_char(s@),
{
    let mut i: usize = 0;
    while i < s.len()
        invariant
            i <= s.len(),
            forall|k: int| 0 <= k < i ==> !spec_is_valid_char(#[trigger] s@[k]),
        decreases s.len() - i,
    {
        if !is_whitespace(s[i]) && !is_illegal(s[i]) {
            assert(spec_is_valid_char(s@[i as int]));
            return true;
        }
        i = i + 1;
    }
    false
}

/// Builds the file name without extension. A template without a valid
/// character falls back to the default template, and, when the song's title
/// and artist hold none either, to a fixed name.
pub fn build_filename(template: &str, info: &SongInfo) -> (r: String)
    ensures
        r@ == spec_build_filename(template@, *info),
{
    let filled = apply_template_chars(
        template,
        info.artist.as_str(),
        info.title.as_str(),
        info.album.as_str(),
        info.quality.as_str(),
    );
    if has_valid_char(filled.as_slice()) {
        let name = sanitize_chars(filled.as_slice());
        return string_from_chars(name.as_slice());
    }
    let title = str_chars(info.title.as_str());
    let artist = str_chars(info.artist.as_str());
    if has_valid_char(title.as_slice()) || has_valid_char(artist.as_slice()) {
        let fallback = template_name("{song} - {artist}", info);
        string_from_chars(fallback.as_slice())
    } else {
        String::from_str("未知歌曲")
    }
}

/// A sanitized name holds no character that is illegal in file names.
pub proof fn lemma_sanitized_is_legal(s: Seq<char>)
    ensures
        forall|i: int| 0 <= i < spec_sanitize(s).len() ==> !spec_is_illegal(#[trigger] spec_sanitize(s)[i]),
{
}

/// A text holding a character that is not whitespace does not trim to nothing.
pub proof fn lemma_non_space_survives_trim(s: Seq<char>, i: int)
    requires
        0 <= i < s.len(),
        !spec_is_whitespace(s[i]),
    ensures
        spec_trim(s).len() > 0,
    decreases i,
{
    if spec_is_whitespace(s[0]) {
        assert(spec_trim_start(s) == spec_trim_start(s.drop_first()));
        assert(s.drop_first()[i - 1] == s[i]);
        lemma_non_space_survives_trim(s.drop_first(), i - 1);
        assert(spec_trim(s) == spec_trim(s.drop_first()));
    } else {
        crate::text::lemma_trim_keeps_non_space(s);
    }
}

/// Replacing a pattern that lacks a character keeps that character.
pub proof fn lemma_replace_keeps_char(s: Seq<char>, pat: Seq<char>, rep: Seq<char>, c: char)
    requires
        pat.len() > 0,
        !pat.contains(c),
        s.contains(c),
    ensures
        spec_replace(s, pat, rep).contains(c),
    decreases s.len(),
{
    let i = choose|i: int| 0 <= i < s.len() && s[i] == c;
    if s.len() < pat.len() {
    } else if s.take(pat.len() as int) == pat {
        if i < pat.len() {
            assert(pat[i] == c);
        }
        assert(s.skip(pat.len() as int)[i - pat.len()] == c);
        lemma_replace_keeps_char(s.skip(pat.len() as int), pat, rep, c);
        let t = spec_replace(s.skip(pat.len() as int), pat, rep);
        let j = choose|j: int| 0 <= j < t.len() && t[j] == c;
        assert((rep + t)[rep.len() + j] == c);
    } else {
        if i == 0 {
            assert((seq![s[0]] + spec_replace(s.skip(1), pat, rep))[0] == c);
        } else {
            assert(s.skip(1)[i - 1] == c);
            lemma_replace_keeps_char(s.skip(1), pat, rep, c);
            let t = spec_replace(s.skip(1), pat, rep);
            let j = choose|j: int| 0 <= j < t.len() && t[j] == c;
            assert((seq![s[0]] + t)[1 + j] == c);
        }
    }
}

/// The default template keeps its `-` whatever the song's data.
pub proof fn lemma_default_template_has_dash(info: SongInfo)
    ensures
        spec_template_name(default_template(), info).contains('-'),
{
    reveal_strlit("{song} - {artist}");
    reveal_strlit("{song}");
    reveal_strlit("{artist}");
    reveal_strlit("{album}");
    reveal_strlit("{quality}");
    let t = default_template();
    assert(t[7] == '-');
    assert(!"{song}"@.contains('-')) by {
        assert forall|k: int| 0 <= k < "{song}"@.len() implies "{song}"@[k] != '-' by {}
    }
    assert(!"{artist}"@.contains('-')) by {
        assert forall|k: int| 0 <= k < "{artist}"@.len() implies "{artist}"@[k] != '-' by {}
    }
    assert(!"{album}"@.contains('-')) by {
        assert forall|k: int| 0 <= k < "{album}"@.len() implies "{album}"@[k] != '-' by {}
    }
    assert(!"{quality}"@.contains('-')) by {
        assert forall|k: int| 0 <= k < "{quality}"@.len() implies "{quality}"@[k] != '-' by {}
    }
    let a = spec_replace(t, "{song}"@, info.title@);
    lemma_replace_keeps_char(t, "{song}"@, info.title@, '-');
    let b = spec_replace(a, "{artist}"@, info.artist@);
    lemma_replace_keeps_char(a, "{artist}"@, info.artist@, '-');
    let c = spec_replace(b, "{album}"@, info.album@);
    lemma_replace_keeps_char(b, "{album}"@, info.album@, '-');
    let d = spec_replace(c, "{quality}"@, info.quality@);
    lemma_replace_keeps_char(c, "{quality}"@, info.quality@, '-');
    let j = choose|j: int| 0 <= j < d.len() && d[j] == '-';
    assert(spec_sanitize(d)[j] == '-');
}

/// A built file name is never blank and never holds a character that is illegal
/// in file names, so it names a single file within the download directory.
pub proof fn lemma_build_filename_is_usable(template: Seq<char>, info: SongInfo)
    ensures
        spec_trim(spec_build_filename(template, info)).len() > 0,
        forall|i: int|
            0 <= i < spec_build_filename(template, info).len() ==> !spec_is_illegal(
                #[trigger] spec_build_filename(template, info)[i],
            ),
{
    let filled = spec_apply_template(template, info.artist@, info.title@, info.album@, info.quality@);
    lemma_sanitized_is_legal(filled);
    lemma_sanitized_is_legal(spec_apply_template(default_template(), info.artist@, info.title@, info.album@, info.quality@));
    if spec_has_valid_char(filled) {
        let i = choose|i: int| 0 <= i < filled.len() && spec_is_valid_char(#[trigger] filled[i]);
        assert(spec_sanitize(filled)[i] == filled[i]);
        lemma_non_space_survives_trim(spec_sanitize(filled), i);
    } else if spec_has_valid_char(info.title@) || spec_has_valid_char(info.artist@) {
        lemma_default_template_has_dash(info);
        let f = spec_template_name(default_template(), info);
        let j = choose|j: int| 0 <= j < f.len() && f[j] == '-';
        lemma_non_space_survives_trim(f, j);
    } else {
        reveal_strlit("未知歌曲");
        let u = unknown_song_name();
        assert(u.len() == 4);
        assert(!crate::text::spec_is_whitespace(u[0]));
        assert(spec_trim(u).len() > 0) by {
            crate::text::lemma_trim_keeps_non_space(u);
        }
    }
}

} // verus!

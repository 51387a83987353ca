//! The settings a download task starts with. A task keeps the same snapshot for
//! its whole run, so a changed directory or template never applies halfway.

use vstd::prelude::*;

use crate::json::{spec_as_bool, spec_as_str, spec_get, json_view, JsonValue, JsonView};
use crate::text::{chars_eq, str_chars, str_eq};

verus! {

/// A snapshot of the download settings.
#[derive(Clone, Debug, PartialEq, Eq)]
pub struct DownloadConfig {
    pub download_dir: String,
    pub naming_template: String,
    pub saf_folder_uri: Option<String>,
    pub write_metadata: bool,
    pub download_lrc: bool,
}

/// The runtime reads the settings and knows the platform's default directory.
pub trait DownloadConfigProvider {
    fn current(&self) -> DownloadConfig;
}

/// Whether `sub` occurs in `s` at `i`.
pub open spec fn occurs_at(s: Seq<char>, sub: Seq<char>, i: int) -> bool {
    0 <= i && i + sub.len() <= s.len() && s.subrange(i, i + sub.len()) == sub
}

/// Whether `sub` occurs in `s` (`str::contains`).
pub open spec fn spec_contains(s: Seq<char>, sub: Seq<char>) -> bool {
    exists|i: int| occurs_at(s, sub, i)
}

/// Whether a path is absolute: it starts at the root `/`.
pub open spec fn spec_is_absolute(p: Seq<char>) -> bool {
    p.len() > 0 && p[0] == '/'
}

/// The text under a key of the settings, if it is a string.
pub open spec fn setting_str(settings: JsonView, key: Seq<char>) -> Option<Seq<char>> {
    match spec_get(settings, key) {
        Some(v) => spec_as_str(v),
        None => None,
    }
}

/// The flag under a key of the settings, false unless it is a boolean.
pub open spec fn setting_flag(settings: JsonView, key: Seq<char>) -> bool {
    match spec_get(settings, key) {
        Some(v) => match spec_as_bool(v) {
            Some(b) => b,
            None => false,
        },
        None => false,
    }
}

/// The directory the settings ask for: a non-empty `downloadDir`, else the
/// default.
pub open spec fn spec_requested_dir(settings: JsonView, default_dir: Seq<char>) -> Seq<char> {
    match setting_str(settings, "downloadDir"@) {
        Some(d) => if d.len() > 0 {
            d
        } else {
            default_dir
        },
        None => default_dir,
    }
}

/// The download directory: an app-private Android directory or a relative path
/// falls back to the default; an absolute path and the SAF marker stay.
pub open spec fn spec_download_dir(settings: JsonView, default_dir: Seq<char>) -> Seq<char> {
    let requested = spec_requested_dir(settings, default_dir);
    if spec_contains(requested, "/data/user/0/"@) || spec_contains(requested, "/data/data/"@) {
        default_dir
    } else if spec_is_absolute(requested) || requested == "saf://"@ {
        requested
    } else {
        default_dir
    }
}

/// The naming template: `namingTemplate`, else the default template.
pub open spec fn spec_naming_template(settings: JsonView) -> Seq<char> {
    match setting_str(settings, "namingTemplate"@) {
        Some(t) => t,
        None => "{song} - {artist}"@,
    }
}

/// The SAF folder URI: a non-empty `safFolderUri`.
pub open spec fn spec_saf_folder_uri(settings: JsonView) -> Option<Seq<char>> {
    match setting_str(settings, "safFolderUri"@) {
        Some(u) => if u.len() > 0 {
            Some(u)
        } else {
            None
        },
        None => None,
    }
}

/// Whether `sub` occurs in `s`.
fn contains_chars(s: &[char], sub: &[char]) -> (r: bool)
    ensures
        r == spec_contains(s@, sub@),
{
    if sub.len() > s.len() {
        assert forall|i: int| !occurs_at(s@, sub@, i) by {}
        return false;
    }
    if sub.len() == 0 {
        assert(s@.subrange(0, 0) =~= sub@);
        assert(occurs_at(s@, sub@, 0));
        return true;
    }
    let mut i: usize = 0;
    while i <= s.len() - sub.len()
        invariant
            1 <= sub.len() <= s.len(),
            i <= s.len() - sub.len() + 1,
            forall|k: int| 0 <= k < i ==> !occurs_at(s@, sub@, k),
        decreases s.len() - sub.len() + 1 - i,
    {
        let window = &s[i..i + sub.len()];
        assert(window@ =~= s@.subrange(i as int, i + sub@.len()));
        if chars_eq(window, sub) {
            assert(occurs_at(s@, sub@, i as int));
            return true;
        }
        i = i + 1;
    }
    assert forall|k: int| !occurs_at(s@, sub@, k) by {
        if 0 <= k < i {
        } else if k >= i {
            assert(k + sub.len() > s.len());
        }
    }
    false
}

impl DownloadConfig {
    /// Reads the business fields of the settings; how they are stored and the
    /// platform's default directory come from the runtime.
    pub fn from_settings(settings: &JsonValue, default_dir: &str) -> (r: Self)
        ensures
            r.download_dir@ == spec_download_dir(json_view(*settings), default_dir@),
            r.naming_template@ == spec_naming_template(json_view(*settings)),
            match spec_saf_folder_uri(json_view(*settings)) {
                Some(u) => r.saf_folder_uri is Some && r.saf_folder_uri->0@ == u,
                None => r.saf_folder_uri is None,
            },
            r.write_metadata == setting_flag(json_view(*settings), "writeMetadata"@),
            r.download_lrc == setting_flag(json_view(*settings), "downloadLrc"@),
    {
        let requested: &str = match settings.get("downloadDir") {
            Some(v) => match v.as_str() {
                Some(d) => if d.unicode_len() > 0 {
                    d
                } else {
                    default_dir
                },
                None => default_dir,
            },
            None => default_dir,
        };
        let chars = str_chars(requested);
        let private_user = str_chars("/data/user/0/");
        let private_data = str_chars("/data/data/");
        let download_dir = if contains_chars(chars.as_slice(), private_user.as_slice()) || contains_chars(
            chars.as_slice(),
            private_data.as_slice(),
        ) {
            String::from_str(default_dir)
        } else if (chars.len() > 0 && chars[0] == '/') || str_eq(requested, "saf://") {
            String::from_str(requested)
        } else {
            String::from_str(default_dir)
        };
        let naming_template = match settings.get("namingTemplate") {
            Some(v) => match v.as_str() {
                Some(t) => String::from_str(t),
                None => String::from_str("{song} - {artist}"),
            },
            None => String::from_str("{song} - {artist}"),
        };
        let saf_folder_uri = match settings.get("safFolderUri") {
            Some(v) => match v.as_str() {
                Some(u) => if u.unicode_len() > 0 {
                    Some(String::from_str(u))
                } else {
                    None
                },
                None => None,
            },
            None => None,
        };
        let write_metadata = match settings.get("writeMetadata") {
            Some(v) => match v.as_bool() {
                Some(b) => b,
                None => false,
            },
            None => false,
        };
        let download_lrc = match settings.get("downloadLrc") {
            Some(v) => match v.as_bool() {
                Some(b) => b,
                None => false,
            },
            None => false,
        };
        DownloadConfig { download_dir, naming_template, saf_folder_uri, write_metadata, download_lrc }
    }
}

/// A non-empty absolute `downloadDir` outside Android's app-private
/// directories is the download directory, whatever the default.
pub proof fn lemma_absolute_dir_kept(settings: JsonView, default_dir: Seq<char>, dir: Seq<char>)
    requires
        setting_str(settings, "downloadDir"@) == Some(dir),
        dir.len() > 0,
        dir[0] == '/',
        !spec_contains(dir, "/data/user/0/"@),
        !spec_contains(dir, "/data/data/"@),
    ensures
        spec_download_dir(settings, default_dir) == dir,
{
}


/// A requested directory inside an app-private Android directory falls back to
/// the default directory.
pub proof fn lemma_private_dir_replaced(settings: JsonView, default_dir: Seq<char>, dir: Seq<char>)
    requires
        setting_str(settings, "downloadDir"@) == Some(dir),
        dir.len() > 0,
        spec_contains(dir, "/data/user/0/"@) || spec_contains(dir, "/data/data/"@),
    ensures
        spec_download_dir(settings, default_dir) == default_dir,
{
}

/// A relative requested directory (one that does not start at `/`), other than
/// the SAF marker, falls back to the default directory.
pub proof fn lemma_relative_dir_replaced(settings: JsonView, default_dir: Seq<char>, dir: Seq<char>)
    requires
        setting_str(settings, "downloadDir"@) == Some(dir),
        dir.len() > 0,
        dir[0] != '/',
        dir != "saf://"@,
    ensures
        spec_download_dir(settings, default_dir) == default_dir,
{
}

/// The SAF marker `saf://` is kept as the download directory.
pub proof fn lemma_saf_marker_kept(settings: JsonView, default_dir: Seq<char>)
    requires
        setting_str(settings, "downloadDir"@) == Some("saf://"@),
    ensures
        spec_download_dir(settings, default_dir) == "saf://"@,
{
    reveal_strlit("saf://");
    reveal_strlit("/data/user/0/");
    reveal_strlit("/data/data/");
    assert(!spec_contains("saf://"@, "/data/user/0/"@));
    assert(!spec_contains("saf://"@, "/data/data/"@));
}

} // verus!

use hotdownloader_core::download_path::{file_stem_of, map_decrypted_extension, parent_of, resolve_download_path};
use hotdownloader_core::filename::{build_filename, sanitize_name};
use hotdownloader_core::task_context::SongInfo;

fn chars(s: &str) -> Vec<char> {
    s.chars().collect()
}

#[test]
fn encrypted_extension_uses_playable_output_format() {
    assert_eq!(map_decrypted_extension("mgg"), "ogg");
    assert_eq!(map_decrypted_extension("mflac"), "flac");
}

#[test]
fn path_uses_sanitized_template_and_decrypted_extension() {
    let info = SongInfo {
        title: "a/b".into(),
        artist: "Singer".into(),
        album: String::new(),
        quality: String::new(),
        cover_url: String::new(),
    };
    let (is_saf, path, uri) = resolve_download_path("downloads", "{song} - {artist}", None, &info, "encrypted.mflac");

    assert!(!is_saf);
    assert_eq!(
        path,
        std::path::Path::new("downloads").join("a_b - Singer.flac").to_string_lossy()
    );
    assert!(uri.is_none());
}

#[test]
fn parent_and_stem_follow_std_paths() {
    for p in ["/home/u/song - a.mp3", "dir//x.flac", "./b", "b", "/b", "a/b/", "/", "", ".", "a/..", "x/./y.mp3"] {
        let expected_parent = std::path::Path::new(p).parent().map(|d| d.to_string_lossy().to_string());
        let got_parent = parent_of(&chars(p)).map(|v| v.into_iter().collect::<String>());
        assert_eq!(got_parent, expected_parent, "parent of {p:?}");
        let expected_stem = std::path::Path::new(p).file_stem().map(|d| d.to_string_lossy().to_string());
        let got_stem = file_stem_of(&chars(p)).map(|v| v.into_iter().collect::<String>());
        assert_eq!(got_stem, expected_stem, "stem of {p:?}");
    }
}

#[test]
fn file_names_fall_back_when_the_template_is_blank() {
    let info = SongInfo {
        title: "歌名".into(),
        artist: "歌手".into(),
        album: String::new(),
        quality: "flac".into(),
        cover_url: String::new(),
    };
    assert_eq!(build_filename("{album}", &info), "歌名 - 歌手");
    assert_eq!(build_filename("{quality}-{song}", &info), "flac-歌名");
    assert_eq!(sanitize_name("a:b*c?"), "a_b_c_");
}

#[test]
fn template_without_valid_characters_uses_the_default_then_a_fixed_name() {
    let info = SongInfo {
        title: "T".into(),
        artist: "A".into(),
        album: String::new(),
        quality: String::new(),
        cover_url: String::new(),
    };
    assert_eq!(build_filename("///", &info), "T - A");
    assert_eq!(build_filename(" : ", &info), "T - A");
    let blank = SongInfo {
        title: String::new(),
        artist: String::new(),
        album: String::new(),
        quality: String::new(),
        cover_url: String::new(),
    };
    assert_eq!(build_filename("", &blank), "未知歌曲");
    assert_eq!(build_filename("{song}", &blank), "未知歌曲");
    let only_artist = SongInfo { artist: "A/B".into(), ..blank };
    assert_eq!(build_filename("", &only_artist), " - A_B");
}

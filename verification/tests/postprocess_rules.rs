use hotdownloader_core::platform::Platform;
use hotdownloader_core::platforms::lyric::LyricData;
use hotdownloader_core::postprocess::{
    local_lrc_content, lrc_path, lyric_wanted, metadata_has_content, metadata_lyric,
    should_download_cover, should_fetch_kuwo_cover, PostprocessAssets,
};

fn lyric(lrc: Option<&str>, elrc: Option<&str>) -> LyricData {
    LyricData {
        lrc: lrc.map(|s| s.to_string()),
        elrc: elrc.map(|s| s.to_string()),
        raw: None,
        instrumental: false,
    }
}

#[test]
fn lrc_file_sits_beside_the_audio_file() {
    assert_eq!(lrc_path("/music/a/歌名.flac"), "/music/a/歌名.lrc");
    assert_eq!(lrc_path("/music/a/b.c.mp3"), "/music/a/b.c.lrc");
    assert_eq!(lrc_path("song.flac"), "song.lrc");
}

#[test]
fn lyrics_are_fetched_for_tags_or_lrc_file() {
    assert!(lyric_wanted(true, false));
    assert!(lyric_wanted(false, true));
    assert!(!lyric_wanted(false, false));
}

#[test]
fn kuwo_cover_is_looked_up_only_when_missing() {
    assert!(should_fetch_kuwo_cover(true, "", Platform::Kuwo));
    assert!(!should_fetch_kuwo_cover(true, "http://img/x.jpg", Platform::Kuwo));
    assert!(!should_fetch_kuwo_cover(false, "", Platform::Kuwo));
    assert!(should_download_cover(true, "http://img/x.jpg"));
    assert!(!should_download_cover(true, ""));
}

#[test]
fn tag_lyric_prefers_enhanced_then_plain() {
    let both = PostprocessAssets { lyric: Some(lyric(Some("[00:01]a"), Some("<1>a"))), cover_bytes: None };
    assert_eq!(metadata_lyric(&both), Some("<1>a".to_string()));
    let blank_enhanced = PostprocessAssets { lyric: Some(lyric(Some("[00:01]a"), Some("  "))), cover_bytes: None };
    assert_eq!(metadata_lyric(&blank_enhanced), Some("[00:01]a".to_string()));
    let none = PostprocessAssets { lyric: None, cover_bytes: None };
    assert_eq!(metadata_lyric(&none), None);
    assert!(!metadata_has_content(&None, &none));
    let cover = PostprocessAssets { lyric: None, cover_bytes: Some(vec![1, 2]) };
    assert!(metadata_has_content(&None, &cover));
}

#[test]
fn lrc_content_skips_blank_lyrics() {
    assert_eq!(local_lrc_content(&lyric(Some("[00:01]a"), None)), Some("[00:01]a".to_string()));
    assert_eq!(local_lrc_content(&lyric(Some(" \n"), None)), None);
    assert_eq!(local_lrc_content(&lyric(None, Some("<1>a"))), None);
}

#[test]
fn ordinary_lrc_uses_audio_stem_and_preserves_content() {
    let directory = "/tmp/hotdownloader-lrc-1f";
    let audio = format!("{directory}/歌名.flac");
    let lyric = lyric(Some("[00:01.00]歌词\n"), None);
    assert_eq!(lrc_path(&audio), format!("{directory}/歌名.lrc"));
    assert_eq!(local_lrc_content(&lyric), Some("[00:01.00]歌词\n".to_string()));
}

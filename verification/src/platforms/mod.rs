//! Platform-independent parsing of the music platforms' responses.

pub mod common;
pub mod kuwo;
pub mod lyric;
pub mod qq_album;
pub mod qq_playlist;
pub mod qqmusic;

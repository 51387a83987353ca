//! Lyrics as every platform returns them.

use vstd::prelude::*;

verus! {

/// Lyrics of a song.
#[derive(Debug, Clone, Default)]
pub struct LyricData {
    /// Plain LRC lyrics, word timings merged into lines.
    pub lrc: Option<String>,
    /// Enhanced LRC with word timings, when QRC lyrics are available.
    pub elrc: Option<String>,
    /// The decrypted `LyricContent`: QRC or plain LRC text.
    pub raw: Option<String>,
    /// Whether the song is instrumental.
    pub instrumental: bool,
}

} // verus!

//! Song information that names files and fills metadata.

use vstd::prelude::*;

verus! {

/// Song information used for file naming and metadata.
#[derive(Clone, Debug)]
pub struct SongInfo {
    pub title: String,
    pub artist: String,
    pub album: String,
    pub quality: String,
    pub cover_url: String,
}

} // verus!

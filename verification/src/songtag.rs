//! The tag data read from one audio file.

use vstd::prelude::*;

verus! {

/// What is known of one song file: its path and the normalised fields of its
/// ID3 tag.
#[derive(Debug, Clone)]
pub struct SongTag {
    pub file_path: String,
    pub title: String,
    pub artist: String,
    pub album: String,
    pub genre: String,
    pub track: Option<i32>,
    pub year: Option<i32>,
}

} // verus!

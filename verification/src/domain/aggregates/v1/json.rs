//! Version 1 of the document that describes an album.

use vstd::prelude::*;

verus! {

/// The whole document.
#[derive(Debug)]
pub struct Json {
    pub version: u8,
    pub title: String,
    pub genre: Option<String>,
    pub info: Option<Info>,
    pub files: Vec<File>,
}

/// One audio file and its tracks.
#[derive(Debug)]
pub struct File {
    pub path: String,
    pub tracks: Vec<Track>,
    pub file_type: String,
}

/// One track; the times are sequences of minute, second and frame.
#[derive(Debug)]
pub struct Track {
    pub title: String,
    pub info: Option<Info>,
    pub pregap: Option<Pregap>,
    pub postgap: Option<Vec<u8>>,
    pub start_at: Option<Vec<u8>>,
}

/// The people behind an album or a track.
#[derive(Debug)]
pub struct Info {
    pub arranger: Option<String>,
    pub composer: Option<String>,
    pub lyricist: Option<String>,
    pub performer: Option<String>,
}

/// The gap before a track; its kind is `"included"` or `"silent"`.
#[derive(Debug)]
pub struct Pregap {
    pub duration: Vec<u8>,
    pub pregap_type: String,
}

} // verus!

//! Version 1 of the document and the sheet it is turned into.

pub mod cue;
pub mod json;

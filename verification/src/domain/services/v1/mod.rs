//! From version 1 of the document to a sheet.

pub mod build_error;
pub mod json2cue;
pub mod path;

pub use self::build_error::{BuildError, BuildFailure, TimePart, TrackBuildError, TrackBuildFailure};
pub use self::json2cue::Json2CueV1;

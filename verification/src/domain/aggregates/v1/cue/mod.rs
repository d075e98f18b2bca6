//! The elements of a sheet.

pub mod cue;
pub mod file;
pub mod file_type;
pub mod info;
pub mod pregap;
pub mod pregap_type;
pub mod time;
pub mod track;

pub use self::cue::Cue;
pub use self::file::{File, FileCdtext, FileCdtextResult, FileError, FileFormatter};
pub use self::file_type::FileType;
pub use self::info::{Info, InfoFormatter};
pub use self::pregap::Pregap;
pub use self::pregap_type::PregapType;
pub use self::time::{Msf, Time, TimeArithmetic, TimeError, TimeField, TimeFormatter};
pub use self::track::{Track, TrackError, TrackFormatter};

//! The kinds of audio file a sheet can name.

use vstd::prelude::*;

verus! {

/// The kind of an audio file.
#[derive(Debug, Clone, Copy, PartialEq, Eq, Structural)]
pub enum FileType {
    /// Waveform audio.
    Wave,
}

} // verus!

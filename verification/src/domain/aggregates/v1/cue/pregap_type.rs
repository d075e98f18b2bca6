//! How the gap before a track relates to the track.

use vstd::prelude::*;

verus! {

/// Whether the gap before a track is silence put in front of it or the
/// leading part of the track itself.
#[derive(Debug, Clone, Copy, PartialEq, Eq, Structural)]
pub enum PregapType {
    /// Silence before the track's audio starts.
    Silent,
    /// The leading part of the track, counted in its own duration.
    Included,
}

} // verus!

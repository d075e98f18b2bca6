//! The gap before a track.

use super::pregap_type::PregapType;
use super::time::{Time, TimeFormatter};
use vstd::prelude::*;

verus! {

/// The gap before a track: its kind and how long it lasts.
pub struct Pregap<T: TimeFormatter = Time> {
    pub pregap_type: PregapType,
    pub duration: T,
}

} // verus!

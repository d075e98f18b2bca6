//! Text helpers shared by every layer.

pub mod text;
pub mod util;

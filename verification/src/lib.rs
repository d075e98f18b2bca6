//! Builds the text of a CUE sheet from a structured description of an album.
//!
//! The value objects under [`domain`] render themselves into the lines of a
//! sheet; every function comes with a contract over a mathematical model of
//! the text it produces.

pub mod domain;
pub mod share;

//! Value objects, grouped by the version of the document they belong to.

pub mod v1;

//! Services, grouped by the version of the document they read.

pub mod v1;

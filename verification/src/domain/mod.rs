//! The model of a sheet and the service that builds one from a document.

pub mod aggregates;
pub mod services;

//! Helpers for querying the versions of a crate, downloading their sources,
//! and inspecting the documentation that rustdoc produces for them.

pub mod code;
pub mod foreign_types;
pub mod query;
pub mod version;
pub mod viewer;
pub mod listing;

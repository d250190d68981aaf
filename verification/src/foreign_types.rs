//! Types of std and of outside crates that the library's values carry.
//! Verus sees none of their contents.

use vstd::prelude::*;

verus! {

/// An I/O error of std.
#[verifier::external_type_specification]
#[verifier::external_body]
pub struct ExIoError(std::io::Error);

/// The error that a channel's `recv` reports once every sender is gone.
#[verifier::external_type_specification]
#[verifier::external_body]
pub struct ExRecvError(std::sync::mpsc::RecvError);

/// The error of a failed `semver` parse.
#[verifier::external_type_specification]
#[verifier::external_body]
pub struct ExSemverError(semver::Error);

/// An error of an HTTP request made with `reqwest`.
#[verifier::external_type_specification]
#[verifier::external_body]
pub struct ExReqwestError(reqwest::Error);

/// An error of the crates.io index.
#[verifier::external_type_specification]
#[verifier::external_body]
pub struct ExCratesIndexError(crates_index::Error);

/// An error of a rustdoc JSON build.
#[verifier::external_type_specification]
#[verifier::external_body]
pub struct ExRustdocBuildError(rustdoc_json::BuildError);

} // verus!

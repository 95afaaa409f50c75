//! A compact, read-only IP geolocation database engine.
//!
//! The database file combines a bit-indexed binary search tree over the IP
//! address space with a self-describing, pointer-deduplicated data section.
//! This crate parses the trailing metadata block, walks the search tree by
//! the bits of an address, and selectively decodes only the country code and
//! approximate coordinates of the matching record.

use vstd::prelude::*;

pub mod db;
pub mod decode;
pub mod ext;
pub mod http;
pub mod ip;
pub mod meta;
pub mod model;
pub mod tree;

pub use crate::db::Country;
pub use crate::db::Location;
pub use crate::db::Reader;
pub use crate::db::Record;
pub use crate::http::lookup;
pub use crate::http::Options;
pub use crate::http::Request;
pub use crate::http::Response;
pub use crate::ip::Ip;

verus! {

/// Failure to understand the trailing metadata block of a database file.
#[derive(Debug, PartialEq, Eq, Structural, Clone, Copy)]
pub enum FormatError {
    /// The metadata marker was not found within the search window.
    MetadataNotFound,
    /// The marker was found but the bytes after it do not decode as a map.
    MetadataMalformed,
    /// The metadata map decodes but required keys are missing or out of bounds.
    MetadataInvalid,
}

/// Failure (or plain absence) reported by a lookup.
#[derive(Debug, PartialEq, Eq, Structural, Clone, Copy)]
pub enum LookupError {
    /// The address has no entry in the search tree: an expected outcome,
    /// not a corruption signal.
    NotFound,
    /// A structurally invalid node read while walking the search tree.
    Traversal,
    /// Corrupt or unexpectedly-typed content in the data section.
    DataMalformed,
}

} // verus!

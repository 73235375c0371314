//! Dump and restore of a document index: a consistent view of an index is
//! written as a snapshot (a meta record and a line-delimited document stream),
//! and a snapshot is read back, validated and normalized for a new index.

pub mod batch;
pub mod documents;
pub mod dump;
pub mod env;
pub mod error;
pub mod fields;
pub mod http_error;
pub mod json;
pub mod members;
pub mod meta;
pub mod settings;
pub mod text;

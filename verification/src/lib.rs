//! A small key-value store modeled after a directory hierarchy: a `Fsdb`
//! names a base directory, each `Bucket` is one subdirectory holding one
//! encoded value per file, with an optional single level of sub-namespaces
//! and an optional cap on the length of key-derived file names.
//!
//! The store's state and every operation on it are verified against a
//! mathematical model of the directory tree; binding that state to a real
//! filesystem and a codec is left to an unverified shell around this crate.

pub mod errors;
pub mod laws;
pub mod model;
pub mod store;
mod table;

pub use errors::Error;
pub use errors::IoKind;
pub use store::Bucket;
pub use store::Fsdb;

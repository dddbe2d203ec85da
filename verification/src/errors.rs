//! The error kinds that bucket operations surface.

use vstd::prelude::*;

verus! {

/// The flavor of a filesystem failure, as far as callers can tell them apart.
#[derive(Clone, Copy, Debug, PartialEq, Eq, Structural)]
pub enum IoKind {
    /// The file or directory addressed by the operation does not exist.
    NotFound,
    /// Any other filesystem failure, such as a name already taken by an
    /// entry of the wrong kind.
    Other,
}

/// An operation on a store fails in one of three ways: the filesystem call
/// fails, a value cannot be encoded to bytes, or stored bytes cannot be
/// decoded back into a value.
///
/// The verified core works on already-encoded byte strings, so it reports
/// only `Io` errors itself; `Encode` and `Decode` are the kinds a codec
/// layered on top maps its own failures to.
#[derive(Clone, Copy, Debug, PartialEq, Eq, Structural)]
pub enum Error {
    /// A filesystem failure.
    Io(IoKind),
    /// A value could not be serialized.
    Encode,
    /// Stored bytes could not be deserialized.
    Decode,
}

} // verus!

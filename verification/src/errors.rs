//! The error taxonomy of the crate.

use vstd::prelude::*;

verus! {

/// A fatal failure while resolving settings: the document is malformed,
/// a required field is missing from every source, the namespace value is
/// invalid, or a location offers no parent directory to create a file in.
///
/// Resolution never falls back to defaults on any of these: silently
/// ignoring a malformed file would mask operator mistakes.
#[derive(Clone, Copy, Debug, PartialEq, Eq, Structural)]
pub enum ConfigError {
    /// The settings document does not match the grammar; carries the
    /// one-based number of the first offending line.
    Malformed { line: usize },
    /// A field the caller requires is present in no source.
    MissingField,
    /// A namespace value was found but is empty.
    EmptyNamespace,
    /// The location has no parent directory that could be created.
    NoParent,
    /// The location exists but its content could not be read; raised by
    /// callers that probe the location before resolving.
    Unreadable,
}

/// A directory-level failure: the external secret store was unreachable,
/// unauthorized, or timed out. The underlying store error is carried as a
/// string-described cause; no partial directory accompanies it.
#[derive(Debug)]
pub struct DirectoryError {
    /// Description of the underlying store failure.
    pub cause: String,
}

} // verus!

use vstd::prelude::*;

verus! {

/// Errors that occur when accessing a project's identity or its secret
/// files.
///
/// Each variant is a distinct failure kind; the `String` payloads carry a
/// human-readable description of the offending input.
#[derive(Debug)]
#[non_exhaustive]
pub enum Error {
    /// The devsecrets directory for this project has not been initialized:
    /// the root directory or the project's child directory does not exist
    /// yet. This is an expected first-run condition, not an I/O failure.
    DirectoryNotInitialized,
    /// The relative path used to access a secret is invalid: it is absolute,
    /// or holds a component that is not a plain name (`..`, `.`, an empty
    /// component, or a reserved character).
    InvalidRelativePath(String),
    /// The request path's final suffix does not match the extension that the
    /// chosen format declares.
    InvalidExtension(String),
    /// The identity sidecar file exists but its content is not one canonical
    /// UUID string. Never auto-corrected: a corrupt sidecar is a condition a
    /// human must investigate.
    CorruptIdentity(String),
    /// A filesystem entry exists where a directory was expected, or a
    /// directory sits where a file was expected.
    ConflictingPathType(String),
    /// A low-level filesystem failure, including a file that is absent at
    /// resolve time.
    FileError(String),
    /// The file's content could not be decoded or deserialized; the payload
    /// preserves the underlying cause's description.
    ParseError(String),
}

} // verus!

use vstd::prelude::*;

verus! {

/// The failure taxonomy of the library: every fallible operation of the
/// pipeline surfaces exactly one of these, together with its contextual
/// detail (path, URL, status code). The caller treats any of them as fatal
/// for the whole invocation.
#[derive(Clone, Debug, PartialEq, Eq)]
pub enum FontError {
    /// The manifest payload could not be parsed.
    InvalidManifest,
    /// A computed destination path has no parent component.
    InvalidPath { path: String },
    /// Creating the parent directory of a destination failed.
    DirectoryCreateFailed { path: String },
    /// Creating the destination file, or writing to it, failed.
    FileWriteFailed { path: String },
    /// A request failed, returned a non-success status, or its body could
    /// not be read. `status` is the HTTP status when one was received.
    NetworkError { url: String, status: Option<u16> },
    /// A requested font name failed catalog validation.
    InvalidFontName { name: String },
}

} // verus!

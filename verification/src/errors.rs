//! The error taxonomy of the download engine. Every failing download ends in
//! exactly one of these; cancellation is a distinct terminal outcome, not an
//! error.

use vstd::prelude::*;

verus! {

/// Why a download failed.
#[derive(Clone, Copy, Debug, PartialEq, Eq, Structural)]
pub enum DownloadError {
    /// The URL string could not be parsed.
    InvalidUrl,
    /// An authentication token was present but is not a valid header value.
    InvalidToken,
    /// The platform's downloads directory could not be determined while
    /// resolving a relative destination.
    Environment,
    /// A filesystem operation (directory creation, file creation, write)
    /// failed.
    Io,
    /// A network-level failure before or during streaming.
    Transfer,
    /// A non-success HTTP status on the GET response.
    HttpStatus(u16),
}

} // verus!

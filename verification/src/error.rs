use vstd::prelude::*;

verus! {

/// Why a remote refresh of one cinema's calendar failed.
///
/// `Network`: the fetch itself failed. `Remote`: the source answered with a
/// non-success status. `Parse`: the payload did not decode into the
/// calendar schema.
#[derive(Clone, Copy, Debug, PartialEq, Eq, Structural)]
pub enum SyncError {
    Network,
    Remote,
    Parse,
}

/// A failure surfaced to a caller of the library.
///
/// `InvalidIdentifier`: the cinema identifier does not normalize.
/// `Parse`: a cached document does not decode. `Io`: a cached document
/// could not be read. `SyncFailed`: a refresh was attempted and failed,
/// with the underlying cause kept.
#[derive(Clone, Copy, Debug, PartialEq, Eq, Structural)]
pub enum Error {
    InvalidIdentifier,
    Parse,
    Io,
    SyncFailed(SyncError),
}

impl Error {
    /// A short description, for diagnostics.
    pub fn describe(&self) -> (r: &'static str)
        ensures
            r@ == match *self {
                Error::InvalidIdentifier => "invalid cinema identifier"@,
                Error::Parse => "calendar file did not parse"@,
                Error::Io => "calendar file could not be read"@,
                Error::SyncFailed(SyncError::Network) => "sync failed: network error"@,
                Error::SyncFailed(SyncError::Remote) => "sync failed: remote error"@,
                Error::SyncFailed(SyncError::Parse) => "sync failed: payload did not parse"@,
            },
    {
        match self {
            Error::InvalidIdentifier => "invalid cinema identifier",
            Error::Parse => "calendar file did not parse",
            Error::Io => "calendar file could not be read",
            Error::SyncFailed(SyncError::Network) => "sync failed: network error",
            Error::SyncFailed(SyncError::Remote) => "sync failed: remote error",
            Error::SyncFailed(SyncError::Parse) => "sync failed: payload did not parse",
        }
    }
}

} // verus!

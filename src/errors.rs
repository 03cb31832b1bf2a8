use vstd::prelude::*;

verus! {

/// The error kinds of the playlist automation core.
#[derive(Debug, PartialEq, Eq)]
pub enum Error {
    /// The remote service reported a failure; the text describes it.
    SpotifyClient(String),
    /// The remote service rejected an authorization code; the text is the cause.
    AuthorizationFailed(String),
    /// The lock guarding the session was poisoned by an earlier panic.
    LockPoisoned,
    /// No usable session is installed, or renewing a credential was rejected.
    NoAuthToken,
    /// A required environment variable is missing.
    EnvVar { name: String },
    /// A stored playlist identifier could not be read as one.
    SpotifyId(String),
    /// The state store failed; the text describes it.
    Database(String),
    /// A time-range name outside `short`, `medium` and `long`.
    InvalidTimeRange,
    /// The state store holds no refresh credential.
    NoTokenStored,
    /// A paginated search ran out of pages without a match.
    NoPlaylistFound,
    /// A referenced playlist does not exist.
    PlaylistDoesNotExist,
    /// A release year whose leading segment is not a decimal number.
    InvalidYear,
    /// A year range whose lower bound is not below its upper bound.
    InvalidYearRange,
}

impl Error {
    /// Whether the error comes from what the caller asked for: an input that
    /// is rejected before any remote call, or a missing session.
    pub open spec fn is_caller_error(&self) -> bool {
        match self {
            Error::InvalidTimeRange | Error::InvalidYear | Error::InvalidYearRange | Error::NoAuthToken => true,
            _ => false,
        }
    }

    /// The HTTP status that answers a request failing with this error: 400
    /// for a caller error, 401 for a refused authorization, 500 otherwise.
    pub fn http_status(&self) -> (r: u16)
        ensures
            r == (if self.is_caller_error() {
                400u16
            } else if self is AuthorizationFailed {
                401u16
            } else {
                500u16
            }),
    {
        match self {
            Error::InvalidTimeRange | Error::InvalidYear | Error::InvalidYearRange | Error::NoAuthToken => 400,
            Error::AuthorizationFailed(_) => 401,
            _ => 500,
        }
    }
}

} // verus!

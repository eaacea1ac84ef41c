//! The errors of a VOD recovery.
use vstd::prelude::*;

verus! {

/// Why a recovery failed.
#[derive(Debug)]
pub enum TwitchRecoverError {
    /// The tracking address holds no streamer (the address is given).
    UrlParseStreamer(String),
    /// The tracking address holds no VOD id (the address is given).
    UrlParseVodId(String),
    /// The tracking page holds no readable start time (its address is given).
    PageParseTimestamp(String),
    /// No user agent could be picked for a request.
    UserAgent,
    /// A host could not be reached (the transport's message is given).
    BadRequest(String),
    /// A host answered with a status other than 200 (status and address).
    BadResponseCode(u16, String),
    /// No candidate address of the VOD answered.
    VodNotFound,
}

/// The variant of a [`TwitchRecoverError`], without its context.
#[derive(Clone, Copy, Debug, PartialEq, Eq, Structural)]
pub enum TwitchRecoverErrorKind {
    UrlParseStreamer,
    UrlParseVodId,
    PageParseTimestamp,
    UserAgent,
    BadRequest,
    BadResponseCode,
    VodNotFound,
}

impl TwitchRecoverError {
    /// The variant of this error.
    pub open spec fn spec_kind(&self) -> TwitchRecoverErrorKind {
        match self {
            TwitchRecoverError::UrlParseStreamer(_) => TwitchRecoverErrorKind::UrlParseStreamer,
            TwitchRecoverError::UrlParseVodId(_) => TwitchRecoverErrorKind::UrlParseVodId,
            TwitchRecoverError::PageParseTimestamp(_) => TwitchRecoverErrorKind::PageParseTimestamp,
            TwitchRecoverError::UserAgent => TwitchRecoverErrorKind::UserAgent,
            TwitchRecoverError::BadRequest(_) => TwitchRecoverErrorKind::BadRequest,
            TwitchRecoverError::BadResponseCode(_, _) => TwitchRecoverErrorKind::BadResponseCode,
            TwitchRecoverError::VodNotFound => TwitchRecoverErrorKind::VodNotFound,
        }
    }

    /// The variant of this error.
    pub fn kind(&self) -> (r: TwitchRecoverErrorKind)
        ensures
            r == self.spec_kind(),
    {
        match self {
            TwitchRecoverError::UrlParseStreamer(_) => TwitchRecoverErrorKind::UrlParseStreamer,
            TwitchRecoverError::UrlParseVodId(_) => TwitchRecoverErrorKind::UrlParseVodId,
            TwitchRecoverError::PageParseTimestamp(_) => TwitchRecoverErrorKind::PageParseTimestamp,
            TwitchRecoverError::UserAgent => TwitchRecoverErrorKind::UserAgent,
            TwitchRecoverError::BadRequest(_) => TwitchRecoverErrorKind::BadRequest,
            TwitchRecoverError::BadResponseCode(_, _) => TwitchRecoverErrorKind::BadResponseCode,
            TwitchRecoverError::VodNotFound => TwitchRecoverErrorKind::VodNotFound,
        }
    }
}

/// The result of a recovery step.
pub type TwitchRecoverResult<T> = Result<T, TwitchRecoverError>;

} // verus!

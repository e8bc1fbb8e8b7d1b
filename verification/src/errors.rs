//! Error taxonomy of the service.
//!
//! Client-visible errors carry a stable machine-readable code and a human
//! description; server-side failures are downgraded to a generic code before
//! they reach a client, so that upstream error text never leaks out.

use vstd::prelude::*;

verus! {

/// Classifies a server-side failure for logging purposes only; the
/// classification is never exposed to clients.
#[derive(Debug, Clone, Copy, PartialEq, Eq, Structural)]
pub enum ErrorCause {
    Database,
    Internal,
}

/// Stable machine-readable error codes surfaced in response payloads.
#[derive(Debug)]
pub enum ErrorCode {
    FetchUpdaterRelease,
    FetchGameRelease,
    NicknameEmpty,
    NicknameToolong,
    NicknameForbiddenCharacters,
    AuthenticationInvalidToken,
    EmptyToken,
    TokenGenerationFailed,
    External(String),
    Internal,
}

impl ErrorCode {
    /// The wire form of this code.
    pub open spec fn spec_str(&self) -> Seq<char> {
        match self {
            ErrorCode::FetchUpdaterRelease => "fetch_updater_release"@,
            ErrorCode::FetchGameRelease => "fetch_game_release"@,
            ErrorCode::NicknameEmpty => "nickname_empty"@,
            ErrorCode::NicknameToolong => "nickname_toolong"@,
            ErrorCode::NicknameForbiddenCharacters => "nickname_forbidden_characters"@,
            ErrorCode::AuthenticationInvalidToken => "authentication_invalid_token"@,
            ErrorCode::EmptyToken => "empty_token"@,
            ErrorCode::TokenGenerationFailed => "token_generation_failed"@,
            ErrorCode::External(s) => s@,
            ErrorCode::Internal => "internal"@,
        }
    }

    pub fn as_str(&self) -> (r: &str)
        ensures
            r@ == self.spec_str(),
    {
        match self {
            ErrorCode::FetchUpdaterRelease => "fetch_updater_release",
            ErrorCode::FetchGameRelease => "fetch_game_release",
            ErrorCode::NicknameEmpty => "nickname_empty",
            ErrorCode::NicknameToolong => "nickname_toolong",
            ErrorCode::NicknameForbiddenCharacters => "nickname_forbidden_characters",
            ErrorCode::AuthenticationInvalidToken => "authentication_invalid_token",
            ErrorCode::EmptyToken => "empty_token",
            ErrorCode::TokenGenerationFailed => "token_generation_failed",
            ErrorCode::External(s) => s.as_str(),
            ErrorCode::Internal => "internal",
        }
    }

    /// True for the codes whose text is produced outside the service and must
    /// never reach a client verbatim.
    pub open spec fn spec_is_hidden(&self) -> bool {
        match self {
            ErrorCode::External(_) => true,
            ErrorCode::Internal => true,
            _ => false,
        }
    }

    /// The body a client sees for a server-side failure carrying this code:
    /// a hidden code is downgraded to the generic `internal` code with fixed
    /// retry text, so upstream error text never leaks out; any other code is
    /// passed through, with its own wire text as the description.
    pub fn client_body(&self) -> (r: RequestError)
        ensures
            self.spec_is_hidden() ==> r.err_code is Internal && r.err_desc@
                == "an internal error occured, please retry later."@,
            !self.spec_is_hidden() ==> r.err_code == *self && r.err_desc@ == self.spec_str(),
    {
        let err_code = match self {
            ErrorCode::External(_) | ErrorCode::Internal => ErrorCode::Internal,
            ErrorCode::FetchUpdaterRelease => ErrorCode::FetchUpdaterRelease,
            ErrorCode::FetchGameRelease => ErrorCode::FetchGameRelease,
            ErrorCode::NicknameEmpty => ErrorCode::NicknameEmpty,
            ErrorCode::NicknameToolong => ErrorCode::NicknameToolong,
            ErrorCode::NicknameForbiddenCharacters => ErrorCode::NicknameForbiddenCharacters,
            ErrorCode::AuthenticationInvalidToken => ErrorCode::AuthenticationInvalidToken,
            ErrorCode::EmptyToken => ErrorCode::EmptyToken,
            ErrorCode::TokenGenerationFailed => ErrorCode::TokenGenerationFailed,
        };
        let err_desc = match self {
            ErrorCode::External(_) | ErrorCode::Internal => {
                "an internal error occured, please retry later.".to_owned()
            },
            _ => self.as_str().to_owned(),
        };
        RequestError { err_code, err_desc }
    }
}

/// Body of an HTTP 400 response: a code plus a description.
#[derive(Debug)]
pub struct RequestError {
    pub err_code: ErrorCode,
    pub err_desc: String,
}

impl RequestError {
    pub fn new(err_code: ErrorCode, err_desc: String) -> (r: RequestError)
        ensures
            r.err_code == err_code,
            r.err_desc@ == err_desc@,
    {
        RequestError { err_code, err_desc }
    }
}

/// Body of an HTTP 404 response for an unknown platform.
#[derive(Debug)]
pub struct PlatformError {
    pub err_desc: String,
}

impl PlatformError {
    pub fn new(err_desc: String) -> (r: PlatformError)
        ensures
            r.err_desc@ == err_desc@,
    {
        PlatformError { err_desc }
    }
}

/// Route-level failure: either a server-side error (HTTP 500), a rejected
/// request (HTTP 400) or an unknown platform (HTTP 404).
#[derive(Debug)]
pub enum RouteError {
    ServerError(ErrorCause, ErrorCode),
    InvalidRequest(RequestError),
    NotFoundPlatform(PlatformError),
}

impl RouteError {
    pub fn status_code(&self) -> (r: u16)
        ensures
            r == match self {
                RouteError::ServerError(_, _) => 500u16,
                RouteError::InvalidRequest(_) => 400u16,
                RouteError::NotFoundPlatform(_) => 404u16,
            },
    {
        match self {
            RouteError::ServerError(_, _) => 500,
            RouteError::InvalidRequest(_) => 400,
            RouteError::NotFoundPlatform(_) => 404,
        }
    }
}

/// A failure internal to the service, tagged by its source at the boundary
/// where it is converted; no foreign error value is carried around.
#[derive(Debug)]
pub enum InternalError {
    /// The checksum body did not split into exactly two tokens; carries the
    /// observed token count.
    InvalidSha256(usize),
    /// The checksum body named a file other than the asset itself.
    WrongChecksum,
    /// No eligible release, or no assets bundle in any eligible release.
    NoReleaseFound,
    /// A release tag was not a semantic version where one was required.
    InvalidVersion,
    /// The wall clock was unavailable or precedes the Unix epoch.
    SystemTimeError,
    /// The secure random source failed to produce bytes.
    RandomSourceFailure,
    /// The cipher rejected the request.
    CipherFailure,
}

} // verus!

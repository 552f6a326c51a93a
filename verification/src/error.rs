//! The ways in which serving a request can fail.

use vstd::prelude::*;

verus! {

/// A failure while a request is served. None of them ends the server: each
/// is answered with a status or ends the response it occurred in.
#[derive(Clone, Copy, Debug, PartialEq, Eq, Structural)]
pub enum GatewayError {
    /// In `ApiKey` mode the request presented no key, or one that is not configured.
    AuthDenied,
    /// The Lambda invocation could not be started.
    UpstreamUnavailable,
    /// The Lambda reply stream failed after it had started.
    UpstreamStreamError,
    /// The buffered reply is not a well-formed response document.
    BadUpstreamResponse,
    /// The metadata document of a streamed reply could not be understood.
    MalformedPrelude,
}

/// The status that answers an error, where the error is answered with one.
/// A stream error only ends the body, and a malformed metadata document is
/// replaced by the default document: neither has a status.
pub open spec fn error_status(error: GatewayError) -> Option<u16> {
    match error {
        GatewayError::AuthDenied => Some(401u16),
        GatewayError::UpstreamUnavailable => Some(502u16),
        GatewayError::BadUpstreamResponse => Some(502u16),
        GatewayError::UpstreamStreamError => None,
        GatewayError::MalformedPrelude => None,
    }
}

impl GatewayError {
    /// The HTTP status that answers this error, if it is answered with one.
    pub fn status(&self) -> (status: Option<u16>)
        ensures
            status == error_status(*self),
    {
        match self {
            GatewayError::AuthDenied => Some(401),
            GatewayError::UpstreamUnavailable => Some(502),
            GatewayError::BadUpstreamResponse => Some(502),
            GatewayError::UpstreamStreamError => None,
            GatewayError::MalformedPrelude => None,
        }
    }
}

} // verus!

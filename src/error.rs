//! Errors of the upstream link flow.
use vstd::prelude::*;

use crate::cookie::UpstreamSessionsCookie;

verus! {

/// Why a request on an upstream link failed.
#[derive(Debug, Clone, PartialEq, Eq)]
pub enum RouteError {
    /// The link named in the request does not exist.
    LinkNotFound,
    /// The upstream session is missing, or was not started for this link.
    SessionNotFound,
    /// The user bound to the link does not exist or is locked.
    UserNotFound,
    /// The provider of the link does not exist.
    ProviderNotFound,
    /// A required attribute template rendered to an empty string.
    RequiredAttributeEmpty { template: String },
    /// A required attribute template could not be rendered.
    RequiredAttributeRender { template: String, message: String },
    /// The upstream session was already consumed; `cookie` is the browser's
    /// cookie without the stale entry for the link, to save back.
    SessionConsumed { cookie: UpstreamSessionsCookie },
    /// The browser holds no in-flight attempt for this link.
    MissingCookie,
    /// The submitted action does not fit the state of the link.
    InvalidFormAction,
    /// The homeserver could not be asked.
    HomeserverConnection { message: String },
}

impl RouteError {
    /// The HTTP status the error is answered with: not found for a missing
    /// link, an error page otherwise.
    pub fn status_code(&self) -> (r: u16)
        ensures
            r == if *self is LinkNotFound {
                404u16
            } else {
                500u16
            },
    {
        match self {
            RouteError::LinkNotFound => 404,
            _ => 500,
        }
    }
}

} // verus!

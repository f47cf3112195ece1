//! Pairing a request message with the session's authentication token.
//!
//! Every call to the backend carries the session token alongside the
//! request body; the transport layer turns this pairing into its own
//! request envelope.

use vstd::prelude::*;

verus! {

/// A request message together with the authentication token to send it
/// under.
pub struct RequestWithToken<'a, T> {
    /// The request body.
    pub request: T,
    /// The session's authentication token.
    pub token: &'a str,
}

impl<'a, T> RequestWithToken<'a, T> {
    /// Pairs a request body with a token.
    pub fn new(request: T, token: &'a str) -> (r: RequestWithToken<'a, T>)
        ensures
            r.token@ == token@,
    {
        RequestWithToken { request, token }
    }
}

} // verus!

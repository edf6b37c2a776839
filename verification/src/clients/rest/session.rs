//! The state of a session with the remote service.
//!
//! A session is connected while its endpoint was reached by the last request
//! and authentication has not failed since the last connect.

use vstd::prelude::*;
use crate::clients::rest::tags::same_text;
use crate::error::{Error, ErrorView};

verus! {

/// What the transport holds of its session.
#[derive(Debug, Clone, Copy, PartialEq, Eq, Structural)]
pub struct Session {
    pub auth_failure: bool,
    pub endpoint_reachable: bool,
}

/// The error for an answer of the service that has the wrong shape.
pub open spec fn invalid_response() -> ErrorView {
    ErrorView::ClientError("Invalid response from server"@)
}

/// The error for an answer whose header does not say `AUTHENTICATED`.
pub open spec fn not_authenticated() -> ErrorView {
    ErrorView::ClientError("Failed to authenticate"@)
}

/// The error for an answer without a payload.
pub open spec fn no_payload() -> ErrorView {
    ErrorView::ClientError("Invalid response from server: payload is not valid"@)
}

/// Whether the authentication status of an answer's header says that the
/// request was authenticated.
pub open spec fn authenticated(status: Option<Seq<char>>) -> bool {
    status == Some("AUTHENTICATED"@)
}

/// The text of an optional string.
pub open spec fn optional_text(s: Option<&str>) -> Option<Seq<char>> {
    match s {
        Some(s) => Some(s@),
        None => None,
    }
}

/// Whether the authentication status of an answer's header says that the
/// request was authenticated. A header without a status does not.
pub fn has_authenticated(status: Option<&str>) -> (b: bool)
    ensures
        b == authenticated(optional_text(status)),
{
    match status {
        Some(s) => same_text(s, "AUTHENTICATED"),
        None => false,
    }
}

impl Session {
    /// Whether the session counts as connected.
    pub open spec fn is_connected(self) -> bool {
        self.endpoint_reachable && !self.auth_failure
    }

    /// The session after a request was answered with the given
    /// authentication status, with or without a payload.
    pub open spec fn answered(self, status: Option<Seq<char>>, has_payload: bool) -> Session {
        if !authenticated(status) {
            Session { auth_failure: true, ..self }
        } else if !has_payload {
            self
        } else {
            Session { endpoint_reachable: true, ..self }
        }
    }

    /// A session that is not connected.
    pub fn new() -> (s: Session)
        ensures
            s == (Session { auth_failure: false, endpoint_reachable: false }),
            !s.is_connected(),
    {
        Session { auth_failure: false, endpoint_reachable: false }
    }

    /// Whether the session counts as connected.
    pub fn connected(&self) -> (b: bool)
        ensures
            b == self.is_connected(),
    {
        self.endpoint_reachable && !self.auth_failure
    }

    /// Ends the session. Always succeeds.
    pub fn disconnect(&mut self) -> (b: bool)
        ensures
            b,
            *final(self) == (Session { auth_failure: false, endpoint_reachable: false }),
    {
        self.auth_failure = false;
        self.endpoint_reachable = false;
        true
    }

    /// Takes in the answer to the request for a client identifier, which must
    /// be a JSON object. With one the session is connected; without one it
    /// stays as it was.
    pub fn connect(&mut self, identifier_is_object: bool) -> (r: Result<(), Error>)
        ensures
            match r {
                Ok(_) => identifier_is_object && *final(self) == (Session {
                    auth_failure: false,
                    endpoint_reachable: true,
                }),
                Err(e) => !identifier_is_object && e@ == invalid_response() && *final(self) == *old(
                    self,
                ),
            },
    {
        if !identifier_is_object {
            return Err(Error::from_client("Invalid response from server"));
        }
        self.auth_failure = false;
        self.endpoint_reachable = true;
        Ok(())
    }

    /// Marks the start of a request: until it is answered, the endpoint does
    /// not count as reached.
    pub fn begin_request(&mut self)
        ensures
            *final(self) == (Session { endpoint_reachable: false, ..*old(self) }),
    {
        self.endpoint_reachable = false;
    }

    /// Takes in the answer to a request that was begun: its authentication
    /// status, and whether it holds a payload.
    pub fn accept_answer(&mut self, status: Option<&str>, has_payload: bool) -> (r: Result<
        (),
        Error,
    >)
        ensures
            *final(self) == old(self).answered(optional_text(status), has_payload),
            match r {
                Ok(_) => authenticated(optional_text(status)) && has_payload,
                Err(e) => if !authenticated(optional_text(status)) {
                    e@ == not_authenticated()
                } else {
                    !has_payload && e@ == no_payload()
                },
            },
    {
        if !has_authenticated(status) {
            self.auth_failure = true;
            return Err(Error::from_client("Failed to authenticate"));
        }
        if !has_payload {
            return Err(Error::from_client("Invalid response from server: payload is not valid"));
        }
        self.endpoint_reachable = true;
        Ok(())
    }
}

} // verus!

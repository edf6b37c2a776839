//! One side of the conversation with the remote service: the session, and
//! the client identifier that every request carries.

use vstd::prelude::*;
use crate::clients::rest::json::{
    lemma_object,
    member_at,
    member_of,
    members,
    object_at,
    object_of,
    text_at,
    text_of,
    Json,
    JsonView,
};
use crate::clients::rest::session::{
    authenticated,
    invalid_response,
    no_payload,
    not_authenticated,
    Session,
};
use crate::clients::rest::tags::same_text;
use crate::error::Error;

verus! {

/// The state of the conversation.
pub struct Protocol {
    pub session: Session,
    /// The client identifier that the service gave: the members that every
    /// request carries beside its payload.
    pub request_template: Json,
}

/// The members of an object; none for what is no object.
pub open spec fn members_of(j: JsonView) -> Seq<(Seq<char>, JsonView)> {
    match j {
        JsonView::Object(entries) => entries,
        _ => Seq::empty(),
    }
}

/// The members that do not stand under the key, in order.
pub open spec fn without_key(entries: Seq<(Seq<char>, JsonView)>, key: Seq<char>) -> Seq<
    (Seq<char>, JsonView),
>
    decreases entries.len(),
{
    if entries.len() == 0 {
        Seq::empty()
    } else if entries.last().0 == key {
        without_key(entries.drop_last(), key)
    } else {
        without_key(entries.drop_last(), key).push(entries.last())
    }
}

/// The request that carries the payload: the members of the client
/// identifier, and the payload under `payload` in place of whatever the
/// identifier has there.
pub open spec fn enveloped(template: JsonView, payload: JsonView) -> JsonView {
    JsonView::Object(without_key(members_of(template), "payload"@).push(("payload"@, payload)))
}

/// The authentication status that an answer's header gives.
pub open spec fn status_of(response: JsonView) -> Option<Seq<char>> {
    text_at(member_at(object_at(response.member("header"@)), "authenticationStatus"@))
}

impl Protocol {
    /// A conversation that has not begun: not connected, with an empty
    /// client identifier.
    pub fn new() -> (p: Protocol)
        ensures
            p.session == (Session { auth_failure: false, endpoint_reachable: false }),
            p.request_template@ == JsonView::Object(Seq::empty()),
    {
        let entries: Vec<(String, Json)> = Vec::new();
        assert(members(entries@) =~= Seq::empty());
        Protocol { session: Session::new(), request_template: Json::object(entries) }
    }

    /// Whether the session counts as connected.
    pub fn connected(&self) -> (b: bool)
        ensures
            b == self.session.is_connected(),
    {
        self.session.connected()
    }

    /// Ends the session. The client identifier stays.
    pub fn disconnect(&mut self) -> (b: bool)
        ensures
            b,
            final(self).session == (Session { auth_failure: false, endpoint_reachable: false }),
            final(self).request_template == old(self).request_template,
    {
        self.session.disconnect()
    }

    /// Takes in the answer to the request for a client identifier. An object
    /// becomes the client identifier and the session is connected; anything
    /// else is an error and changes nothing.
    pub fn connect(&mut self, identifier: Json) -> (r: Result<(), Error>)
        ensures
            match r {
                Ok(_) => {
                    &&& identifier@ is Object
                    &&& final(self).request_template == identifier
                    &&& final(self).session == (Session {
                        auth_failure: false,
                        endpoint_reachable: true,
                    })
                },
                Err(e) => {
                    &&& !(identifier@ is Object)
                    &&& e@ == invalid_response()
                    &&& *final(self) == *old(self)
                },
            },
    {
        let is_object = identifier.is_object();
        match self.session.connect(is_object) {
            Ok(_) => {
                self.request_template = identifier;
                Ok(())
            },
            Err(e) => Err(e),
        }
    }

    /// Begins a request: wraps the payload into the request that is sent, and
    /// holds the endpoint not reached until the answer is taken in.
    pub fn begin_request(&mut self, payload: Json) -> (request: Json)
        ensures
            request@ == enveloped(old(self).request_template@, payload@),
            final(self).session == (Session { endpoint_reachable: false, ..old(self).session }),
            final(self).request_template == old(self).request_template,
    {
        self.session.begin_request();
        let mut entries: Vec<(String, Json)> = Vec::new();
        assert(members(entries@) =~= Seq::empty());
        match &self.request_template {
            Json::Object(given) => {
                proof {
                    lemma_object(*given);
                }
                let ghost all = members(given@);
                let mut i: usize = 0;
                assert(all.take(0) =~= Seq::empty());
                while i < given.len()
                    invariant
                        i <= given@.len(),
                        all == members(given@),
                        members(entries@) == without_key(all.take(i as int), "payload"@),
                    decreases given@.len() - i,
                {
                    proof {
                        assert(all.take(i + 1).drop_last() =~= all.take(i as int));
                        assert(all.take(i + 1).last() == (given@[i as int].0@, given@[i as int].1@));
                    }
                    if !same_text(given[i].0.as_str(), "payload") {
                        Json::push_member(&mut entries, given[i].0.as_str(), given[i].1.duplicate());
                    }
                    i = i + 1;
                }
                assert(all.take(i as int) =~= all);
            },
            _ => {},
        }
        Json::push_member(&mut entries, "payload", payload);
        Json::object(entries)
    }

    /// Takes in the answer to the request that was begun, and hands out its
    /// payload.
    ///
    /// An answer whose header does not say `AUTHENTICATED` is an error, and
    /// authentication counts as failed until the next connect. An answer
    /// without a payload is an error. Any other answer means that the
    /// endpoint was reached.
    pub fn accept_answer<'a>(&mut self, response: &'a Json) -> (r: Result<&'a Json, Error>)
        ensures
            final(self).session == old(self).session.answered(
                status_of(response@),
                response@.member("payload"@) is Some,
            ),
            final(self).request_template == old(self).request_template,
            match r {
                Ok(payload) => {
                    &&& authenticated(status_of(response@))
                    &&& response@.member("payload"@) == Some(payload@)
                },
                Err(e) => if !authenticated(status_of(response@)) {
                    e@ == not_authenticated()
                } else {
                    response@.member("payload"@) is None && e@ == no_payload()
                },
            },
    {
        let status = text_of(member_of(object_of(response.member("header")), "authenticationStatus"));
        let status = match status {
            Some(s) => Some(s.as_str()),
            None => None,
        };
        let payload = response.member("payload");
        match self.session.accept_answer(status, payload.is_some()) {
            Ok(_) => {},
            Err(e) => {
                return Err(e);
            },
        }
        match payload {
            Some(payload) => Ok(payload),
            None => Err(Error::from_client("Invalid response from server: payload is not valid")),
        }
    }
}

} // verus!

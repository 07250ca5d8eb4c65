//! The sender of events to the Open Podcast service: where it sends them,
//! and the token it shows.

use vstd::prelude::*;
use vstd::string::StringExecFns;

verus! {

/// What a sender holds.
pub struct ClientParts {
    /// The address to which events are sent.
    pub endpoint: Seq<char>,
    /// The token that is shown with every event.
    pub token: Seq<char>,
}

/// The sender of events to the Open Podcast service.
pub struct Client {
    endpoint: String,
    token: String,
}

impl View for Client {
    type V = ClientParts;

    closed spec fn view(&self) -> ClientParts {
        ClientParts { endpoint: self.endpoint@, token: self.token@ }
    }
}

impl Client {
    /// A sender to `endpoint` that shows `token`.
    pub fn new(endpoint: &str, token: &str) -> (client: Client)
        ensures
            client@ == (ClientParts { endpoint: endpoint@, token: token@ }),
    {
        Client { endpoint: endpoint.to_owned(), token: token.to_owned() }
    }

    /// The address to which events are sent.
    pub fn endpoint(&self) -> (endpoint: &str)
        ensures
            endpoint@ == self@.endpoint,
    {
        self.endpoint.as_str()
    }

    /// The token that is shown with every event.
    pub fn token(&self) -> (token: &str)
        ensures
            token@ == self@.token,
    {
        self.token.as_str()
    }

    /// The value of the `Authorization` header that shows the token.
    pub fn authorization(&self) -> (value: String)
        ensures
            value@ == "Bearer "@ + self@.token,
    {
        let mut value = String::from_str("Bearer ");
        value.append(self.token.as_str());
        value
    }
}

} // verus!

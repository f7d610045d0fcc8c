//! A connection as the server keeps it.

use vstd::prelude::*;

use crate::packet::{ClientOptions, ClientOptionsView};

verus! {

/// One accepted connection.
///
/// The session is authenticated while it has options: from the handshake
/// until it quits softly.
#[derive(Debug, PartialEq)]
pub struct Client {
    pub id: u32,
    pub ready: bool,
    pub options: Option<ClientOptions>,
}

/// The mathematical value of a session.
pub struct SessionView {
    pub id: u32,
    pub ready: bool,
    pub options: Option<ClientOptionsView>,
}

impl View for Client {
    type V = SessionView;

    open spec fn view(&self) -> SessionView {
        SessionView {
            id: self.id,
            ready: self.ready,
            options: match self.options {
                Some(options) => Some(options@),
                None => None,
            },
        }
    }
}

impl Client {
    /// A fresh session: not ready, not yet authenticated.
    pub fn new(id: u32) -> (client: Client)
        ensures
            client@ == (SessionView { id, ready: false, options: None }),
    {
        Client { id, ready: false, options: None }
    }

    /// Whether the session has completed the handshake.
    pub fn initialized(&self) -> (yes: bool)
        ensures
            yes == (self@.options is Some),
    {
        self.options.is_some()
    }
}

/// The values of a list of sessions, in order.
pub open spec fn sessions(clients: Seq<Client>) -> Seq<SessionView> {
    Seq::new(clients.len(), |i: int| clients[i]@)
}

} // verus!

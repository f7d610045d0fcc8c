//! The lobby as it is shown to every player.

use vstd::prelude::*;

use crate::packet::{ClientOptions, ClientOptionsView};

verus! {

/// What happened to the lobby in a lobby event.
#[derive(Clone, Copy, Debug, PartialEq, Eq, Structural)]
pub enum Action {
    Join,
    Return,
    Leave,
    Ready,
}

impl Action {
    /// The byte that stands for the action on the wire.
    pub open spec fn ordinal(self) -> u8 {
        match self {
            Action::Join => 0,
            Action::Return => 1,
            Action::Leave => 2,
            Action::Ready => 3,
        }
    }

    /// The action that a wire byte stands for, if any.
    pub open spec fn from_ordinal(byte: u8) -> Option<Action> {
        if byte == 0 {
            Some(Action::Join)
        } else if byte == 1 {
            Some(Action::Return)
        } else if byte == 2 {
            Some(Action::Leave)
        } else if byte == 3 {
            Some(Action::Ready)
        } else {
            None
        }
    }

    pub fn to_u8(self) -> (byte: u8)
        ensures
            byte == self.ordinal(),
    {
        match self {
            Action::Join => 0,
            Action::Return => 1,
            Action::Leave => 2,
            Action::Ready => 3,
        }
    }

    pub fn from_u8(byte: u8) -> (action: Option<Action>)
        ensures
            action == Action::from_ordinal(byte),
    {
        match byte {
            0 => Some(Action::Join),
            1 => Some(Action::Return),
            2 => Some(Action::Leave),
            3 => Some(Action::Ready),
            _ => None,
        }
    }
}

/// One authenticated player as the lobby lists it.
#[derive(Debug, PartialEq)]
pub struct Client {
    pub id: u32,
    pub ready: bool,
    pub options: ClientOptions,
}

impl Clone for Client {
    fn clone(&self) -> (copy: Client)
        ensures
            copy@ == self@,
    {
        Client { id: self.id, ready: self.ready, options: self.options.clone() }
    }
}

/// The mathematical value of a [`Client`].
pub struct ClientView {
    pub id: u32,
    pub ready: bool,
    pub options: ClientOptionsView,
}

impl View for Client {
    type V = ClientView;

    open spec fn view(&self) -> ClientView {
        ClientView { id: self.id, ready: self.ready, options: self.options@ }
    }
}

/// The lobby: the authenticated players in the order in which they connected.
#[derive(Debug, PartialEq, Default)]
pub struct Clients {
    inner: Vec<Client>,
}

impl Clone for Clients {
    fn clone(&self) -> (copy: Clients)
        ensures
            copy@ == self@,
    {
        let mut inner: Vec<Client> = Vec::new();
        let mut i: usize = 0;
        while i < self.inner.len()
            invariant
                i <= self.inner.len(),
                inner@.len() == i,
                forall|k: int| 0 <= k < i ==> inner@[k]@ == self.inner@[k]@,
            decreases self.inner.len() - i,
        {
            inner.push(self.inner[i].clone());
            i += 1;
        }
        Clients { inner }
    }
}

impl View for Clients {
    type V = Seq<ClientView>;

    closed spec fn view(&self) -> Seq<ClientView> {
        Seq::new(self.inner@.len(), |i: int| self.inner@[i]@)
    }
}

impl Clients {
    pub fn empty() -> (clients: Clients)
        ensures
            clients@ == Seq::<ClientView>::empty(),
    {
        Clients { inner: Vec::new() }
    }

    pub fn len(&self) -> (n: usize)
        ensures
            n == self@.len(),
    {
        self.inner.len()
    }

    pub fn get(&self, index: usize) -> (client: &Client)
        requires
            index < self@.len(),
        ensures
            client@ == self@[index as int],
    {
        &self.inner[index]
    }

    pub fn from_vec(value: Vec<Client>) -> (clients: Clients)
        ensures
            clients@ == Seq::new(value@.len(), |i: int| value@[i]@),
    {
        Clients { inner: value }
    }

    pub fn into_inner(self) -> (inner: Vec<Client>)
        ensures
            self@ == Seq::new(inner@.len(), |i: int| inner@[i]@),
    {
        self.inner
    }
}

} // verus!

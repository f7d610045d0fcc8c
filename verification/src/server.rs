//! The session coordinator: the one place where the game's state changes.
//!
//! The coordinator never touches a socket. It is handed one [`Message`] at a
//! time, changes its state, and answers with the [`Effect`]s that the caller
//! has to carry out, in order. Where a round is to start, the answer also
//! holds a [`Pending`] round: the caller fetches a photo and hands both back
//! to [`Server::resume`].
//!
//! What the coordinator does is laid down by the module `rules`, which works
//! on mathematical values. The functions here are proved to compute it.

use bytes::Bytes;
use vstd::prelude::*;

use crate::buffer::bytes_view;
use crate::laws::lemma_transition_sound;
use crate::lobby::{Action, ClientView, Clients};
use crate::packet::{Coordinate, Error, Packet, PacketView, Player, RoundData, RoundDataView};
use crate::round;
use crate::round::results;
use crate::rules::{
    authenticated, completed, connected, entry, guessed, idle, in_lobby, in_results, in_round,
    kicked, lobby_event, lobby_of, position, quorum, recipients, resumed, returned, soft_kicked,
    started_if_quorum, target, transition, verified, wf, Outcome,
};
use crate::session::{sessions, Client, SessionView};

verus! {

/// Where the game stands.
#[derive(Debug, PartialEq)]
pub enum State {
    Lobby,
    Round(RoundData),
    Results(RoundData),
}

impl Clone for State {
    fn clone(&self) -> (copy: State)
        ensures
            copy@ == self@,
    {
        match self {
            State::Lobby => State::Lobby,
            State::Round(round) => State::Round(round.clone()),
            State::Results(round) => State::Results(round.clone()),
        }
    }
}

/// The mathematical value of a [`State`].
pub enum StateView {
    Lobby,
    Round(RoundDataView),
    Results(RoundDataView),
}

impl View for State {
    type V = StateView;

    open spec fn view(&self) -> StateView {
        match *self {
            State::Lobby => StateView::Lobby,
            State::Round(round) => StateView::Round(round@),
            State::Results(round) => StateView::Results(round@),
        }
    }
}

/// What the coordinator is told.
#[derive(Debug, PartialEq)]
pub enum Message {
    /// A connection was accepted and waits to be adopted.
    Connection,
    /// A session sent a message, or reading from it failed.
    Packet(u32, Result<Packet, Error>),
    /// The scores of the round's guesses, one per player of the roster, in
    /// the roster's order.
    GuessingComplete(Vec<u64>),
    /// The process is shutting down.
    Quit,
}

/// The mathematical value of a [`Message`].
pub enum MessageView {
    Connection,
    Packet(u32, Result<PacketView, Error>),
    GuessingComplete(Seq<u64>),
    Quit,
}

impl View for Message {
    type V = MessageView;

    open spec fn view(&self) -> MessageView {
        match *self {
            Message::Connection => MessageView::Connection,
            Message::Packet(id, Ok(packet)) => MessageView::Packet(id, Ok(packet@)),
            Message::Packet(id, Err(error)) => MessageView::Packet(id, Err(error)),
            Message::GuessingComplete(scores) => MessageView::GuessingComplete(scores@),
            Message::Quit => MessageView::Quit,
        }
    }
}

/// What the caller has to do for the coordinator.
#[derive(Debug, PartialEq)]
pub enum Effect {
    /// Adopt the waiting connection as the session with this id and start
    /// reading from it.
    Accept(u32),
    /// Shut the waiting connection down.
    Refuse,
    /// Write the message to every listed session at once, and wait until all
    /// writes have ended.
    Write { to: Vec<u32>, packet: Packet },
    /// Stop reading from the session and close its socket.
    Close(u32),
    /// Score the round's guesses against its answer and report them with
    /// [`Message::GuessingComplete`].
    Tally,
    /// Leave the receive loop.
    Stop,
}

/// The mathematical value of an [`Effect`].
pub enum EffectView {
    Accept(u32),
    Refuse,
    Write { to: Seq<u32>, packet: PacketView },
    Close(u32),
    Tally,
    Stop,
}

impl View for Effect {
    type V = EffectView;

    open spec fn view(&self) -> EffectView {
        match *self {
            Effect::Accept(id) => EffectView::Accept(id),
            Effect::Refuse => EffectView::Refuse,
            Effect::Write { to, packet } => EffectView::Write { to: to@, packet: packet@ },
            Effect::Close(id) => EffectView::Close(id),
            Effect::Tally => EffectView::Tally,
            Effect::Stop => EffectView::Stop,
        }
    }
}

/// The values of a list of effects, in order.
pub open spec fn effects(list: Seq<Effect>) -> Seq<EffectView> {
    Seq::new(list.len(), |i: int| list[i]@)
}

/// A round that waits for its photo.
#[derive(Debug, PartialEq)]
pub struct Pending {
    /// The round as it will start, but for the answer.
    pub round: RoundData,
    /// The session whose message met the quorum.
    pub by: u32,
}

/// The mathematical value of a [`Pending`] round.
pub struct PendingView {
    pub round: RoundDataView,
    pub by: u32,
}

impl View for Pending {
    type V = PendingView;

    open spec fn view(&self) -> PendingView {
        PendingView { round: self.round@, by: self.by }
    }
}

/// The coordinator's answer to one message.
#[derive(Debug, PartialEq)]
pub struct Step {
    /// What to do, in this order.
    pub effects: Vec<Effect>,
    /// The round to start once the effects are done, if the quorum was met.
    pub pending: Option<Pending>,
}

/// The coordinator: every session, the state of the game, and the id that
/// the next session will get.
#[derive(Debug, PartialEq)]
pub struct Server {
    pub clients: Vec<Client>,
    pub state: State,
    pub id_counter: u32,
}

/// The mathematical value of a [`Server`].
pub struct ServerView {
    pub clients: Seq<SessionView>,
    pub state: StateView,
    pub id_counter: u32,
}

impl View for Server {
    type V = ServerView;

    open spec fn view(&self) -> ServerView {
        ServerView {
            clients: sessions(self.clients@),
            state: self.state@,
            id_counter: self.id_counter,
        }
    }
}

impl Server {
    /// A coordinator with no sessions, in the lobby.
    pub fn new() -> (server: Server)
        ensures
            server@ == (ServerView {
                clients: Seq::<SessionView>::empty(),
                state: StateView::Lobby,
                id_counter: 0,
            }),
            wf(server@),
    {
        let server = Server { clients: Vec::new(), state: State::Lobby, id_counter: 0 };
        assert(server@.clients =~= Seq::<SessionView>::empty());
        server
    }

    /// Where the session with this id stands in the list of sessions.
    pub fn index(&self, id: u32) -> (found: Option<usize>)
        ensures
            position(self@.clients, id) == match found {
                Some(index) => Some(index as int),
                None => None,
            },
            found is Some ==> found->Some_0 < self.clients@.len(),
            found is Some ==> self.clients@[found->Some_0 as int].id == id,
    {
        let ghost all = self@.clients;
        let mut found: Option<usize> = None;
        let mut i: usize = 0;
        while i < self.clients.len()
            invariant
                i <= self.clients@.len(),
                all == self@.clients,
                position(all.take(i as int), id) == match found {
                    Some(index) => Some(index as int),
                    None => None,
                },
                found is Some ==> found->Some_0 < i && self.clients@[found->Some_0 as int].id == id,
            decreases self.clients@.len() - i,
        {
            assert(all.take(i + 1).drop_last() =~= all.take(i as int));
            if found.is_none() && self.clients[i].id == id {
                found = Some(i);
            }
            i += 1;
        }
        assert(all.take(i as int) =~= all);
        found
    }

    /// The lobby snapshot: the authenticated sessions, in order.
    pub fn lobby(&self) -> (lobby: Clients)
        ensures
            lobby@ == lobby_of(self@.clients),
    {
        let ghost all = self@.clients;
        let mut inner: Vec<crate::lobby::Client> = Vec::new();
        let mut i: usize = 0;
        while i < self.clients.len()
            invariant
                i <= self.clients@.len(),
                all == self@.clients,
                Seq::new(inner@.len(), |k: int| inner@[k]@) == lobby_of(all.take(i as int)),
            decreases self.clients@.len() - i,
        {
            let ghost before = Seq::new(inner@.len(), |k: int| inner@[k]@);
            proof {
                all.lemma_filter_map_take_succ(|client: SessionView| entry(client), i as int);
            }
            let client = &self.clients[i];
            match &client.options {
                Some(options) => {
                    let listed = crate::lobby::Client {
                        id: client.id,
                        ready: client.ready,
                        options: options.clone(),
                    };
                    inner.push(listed);
                    assert(Seq::new(inner@.len(), |k: int| inner@[k]@) =~= before + seq![
                        entry(all[i as int])->Some_0,
                    ]);
                },
                None => {
                    assert(before + Seq::<ClientView>::empty() =~= before);
                },
            }
            i += 1;
        }
        assert(all.take(i as int) =~= all);
        Clients::from_vec(inner)
    }

    /// Whether the quorum is met: at least two authenticated sessions are
    /// ready, and no authenticated session is not.
    pub fn ready(&self) -> (met: bool)
        ensures
            met == quorum(self@.clients),
    {
        let ghost all = self@.clients;
        let ghost is_in = |client: SessionView| client.options is Some;
        let ghost is_ready = |client: SessionView| client.options is Some && client.ready;
        let mut present: usize = 0;
        let mut ready: usize = 0;
        let mut i: usize = 0;
        while i < self.clients.len()
            invariant
                i <= self.clients@.len(),
                all == self@.clients,
                is_in == |client: SessionView| client.options is Some,
                is_ready == |client: SessionView| client.options is Some && client.ready,
                present == all.take(i as int).filter(is_in).len(),
                ready == all.take(i as int).filter(is_ready).len(),
                ready <= present <= i,
            decreases self.clients@.len() - i,
        {
            proof {
                assert(all.take(i + 1) =~= all.take(i as int).push(all[i as int]));
                all.take(i as int).lemma_filter_len_push(is_in, all[i as int]);
                all.take(i as int).lemma_filter_len_push(is_ready, all[i as int]);
            }
            if self.clients[i].initialized() {
                present += 1;
                if self.clients[i].ready {
                    ready += 1;
                }
            }
            i += 1;
        }
        assert(all.take(i as int) =~= all);
        ready >= 2 && ready == present
    }

    /// How many sessions are authenticated.
    pub fn count(&self) -> (present: usize)
        ensures
            present == authenticated(self@.clients),
    {
        let ghost all = self@.clients;
        let ghost is_in = |client: SessionView| client.options is Some;
        let mut present: usize = 0;
        let mut i: usize = 0;
        while i < self.clients.len()
            invariant
                i <= self.clients@.len(),
                all == self@.clients,
                is_in == |client: SessionView| client.options is Some,
                present == all.take(i as int).filter(is_in).len(),
                present <= i,
            decreases self.clients@.len() - i,
        {
            proof {
                assert(all.take(i + 1) =~= all.take(i as int).push(all[i as int]));
                all.take(i as int).lemma_filter_len_push(is_in, all[i as int]);
            }
            if self.clients[i].initialized() {
                present += 1;
            }
            i += 1;
        }
        assert(all.take(i as int) =~= all);
        present
    }

    /// Whom a broadcast reaches: every authenticated session but `exclude`.
    pub fn recipients(&self, exclude: Option<u32>) -> (to: Vec<u32>)
        ensures
            to@ == recipients(self@.clients, exclude),
    {
        let ghost all = self@.clients;
        let mut to: Vec<u32> = Vec::new();
        let mut i: usize = 0;
        while i < self.clients.len()
            invariant
                i <= self.clients@.len(),
                all == self@.clients,
                to@ == recipients(all.take(i as int), exclude),
            decreases self.clients@.len() - i,
        {
            let ghost before = to@;
            proof {
                all.lemma_filter_map_take_succ(
                    |client: SessionView| target(client, exclude),
                    i as int,
                );
            }
            let client = &self.clients[i];
            let excluded = match exclude {
                Some(id) => client.id == id,
                None => false,
            };
            if client.initialized() && !excluded {
                to.push(client.id);
                assert(to@ =~= before + seq![client.id]);
            } else {
                assert(before + Seq::<u32>::empty() =~= before);
            }
            i += 1;
        }
        assert(all.take(i as int) =~= all);
        to
    }

    /// The effect that sends `packet` to every authenticated session but
    /// `exclude`.
    pub fn broadcast(&self, packet: Packet, exclude: Option<u32>) -> (effect: Effect)
        ensures
            effect@ == (EffectView::Write {
                to: recipients(self@.clients, exclude),
                packet: packet@,
            }),
    {
        Effect::Write { to: self.recipients(exclude), packet }
    }

    /// The effect that tells the lobby what `id` did.
    pub fn broadcast_lobby(&self, id: u32, action: Action) -> (effect: Effect)
        ensures
            effect@ == lobby_event(self@.clients, action, id),
    {
        let clients = self.lobby();
        let exclude = if action == Action::Return {
            None
        } else {
            Some(id)
        };
        self.broadcast(Packet::LobbyEvent { action, user: id, lobby: clients }, exclude)
    }
}

/// The value of a pending round that may not be there.
pub open spec fn pending_view(pending: Option<Pending>) -> Option<PendingView> {
    match pending {
        Some(pending) => Some(pending@),
        None => None,
    }
}

/// The coordinator and its answer are what the rules ask for.
pub open spec fn meets(server: Server, step: Step, expect: Outcome) -> bool {
    &&& server@ == expect.server
    &&& effects(step.effects@) == expect.effects
    &&& pending_view(step.pending) == expect.pending
}

/// The answer that asks for nothing.
fn nothing() -> (step: Step)
    ensures
        effects(step.effects@) == Seq::<EffectView>::empty(),
        step.pending is None,
{
    let step = Step { effects: Vec::new(), pending: None };
    assert(effects(step.effects@) =~= Seq::<EffectView>::empty());
    step
}

/// The answer that asks for one effect.
fn single(effect: Effect) -> (step: Step)
    ensures
        effects(step.effects@) == seq![effect@],
        step.pending is None,
{
    let mut list: Vec<Effect> = Vec::new();
    list.push(effect);
    assert(effects(list@) =~= seq![effect@]);
    Step { effects: list, pending: None }
}

/// The answer that asks for `first` and then for what `step` asks.
fn after(first: Effect, step: Step) -> (all: Step)
    ensures
        effects(all.effects@) == seq![first@] + effects(step.effects@),
        all.pending == step.pending,
{
    let Step { effects: mut rest, pending } = step;
    let mut list: Vec<Effect> = Vec::new();
    list.push(first);
    list.append(&mut rest);
    assert(effects(list@) =~= seq![first@] + effects(step.effects@));
    Step { effects: list, pending }
}

impl Server {
    /// Whether the game is in the lobby.
    fn in_lobby(&self) -> (yes: bool)
        ensures
            yes == (self@.state is Lobby),
    {
        match self.state {
            State::Lobby => true,
            _ => false,
        }
    }

    /// A connection waits: in the lobby it becomes a session with the next
    /// id, as long as ids are left; otherwise it is turned away.
    pub fn client(&mut self) -> (step: Step)
        ensures
            meets(*final(self), step, connected(old(self)@)),
    {
        if self.in_lobby() && self.id_counter < u32::MAX {
            let id = self.id_counter;
            self.id_counter = id + 1;
            self.clients.push(Client::new(id));
            assert(self@.clients =~= old(self)@.clients.push(
                SessionView { id, ready: false, options: None },
            ));
            single(Effect::Accept(id))
        } else {
            single(Effect::Refuse)
        }
    }

    /// Returns the game to the lobby and tells everyone.
    pub fn return_to_lobby(&mut self, id: u32) -> (step: Step)
        ensures
            meets(*final(self), step, returned(old(self)@, id)),
    {
        self.state = State::Lobby;
        let event = self.broadcast_lobby(id, Action::Return);
        single(event)
    }

    /// Returns the game to the lobby if fewer than two authenticated
    /// sessions are left.
    pub fn verify(&mut self, id: u32) -> (step: Step)
        ensures
            meets(*final(self), step, verified(old(self)@, id)),
    {
        if self.count() < 2 {
            self.return_to_lobby(id)
        } else {
            nothing()
        }
    }

    /// Prepares a round in a fresh lobby session if the quorum is met.
    fn start_if_ready(&mut self, by: u32) -> (step: Step)
        ensures
            meets(
                *final(self),
                step,
                started_if_quorum(old(self)@, None, by),
            ),
    {
        if self.ready() {
            round::new(self, None, by)
        } else {
            nothing()
        }
    }

    fn soft_kick_at(&mut self, index: usize) -> (step: Step)
        requires
            index < old(self).clients@.len(),
        ensures
            meets(*final(self), step, soft_kicked(old(self)@, index as int)),
    {
        let id = self.clients[index].id;
        self.clients[index].options = None;
        assert(self@.clients =~= old(self)@.clients.update(
            index as int,
            SessionView { id, ready: old(self)@.clients[index as int].ready, options: None },
        ));
        if self.count() < 2 {
            self.return_to_lobby(id)
        } else if self.in_lobby() {
            self.start_if_ready(id)
        } else {
            nothing()
        }
    }

    /// The session quits softly: it stays connected but is no longer
    /// authenticated. With fewer than two authenticated sessions left the
    /// game returns to the lobby; in the lobby, a round is prepared if the
    /// others meet the quorum. A session that is not there changes nothing.
    pub fn soft_kick(&mut self, client: u32) -> (step: Step)
        ensures
            meets(
                *final(self),
                step,
                match position(old(self)@.clients, client) {
                    Some(index) => soft_kicked(old(self)@, index),
                    None => idle(old(self)@),
                },
            ),
    {
        match self.index(client) {
            Some(index) => self.soft_kick_at(index),
            None => nothing(),
        }
    }

    fn kick_at(&mut self, index: usize) -> (step: Step)
        requires
            index < old(self).clients@.len(),
        ensures
            meets(*final(self), step, kicked(old(self)@, index as int)),
    {
        let id = self.clients[index].id;
        self.clients.remove(index);
        assert(self@.clients =~= old(self)@.clients.remove(index as int));
        if self.in_lobby() {
            let leave = self.broadcast_lobby(id, Action::Leave);
            let rest = self.start_if_ready(id);
            let all = after(Effect::Close(id), after(leave, rest));
            assert(effects(all.effects@) =~= seq![EffectView::Close(id), leave@] + effects(
                rest.effects@,
            ));
            all
        } else {
            let rest = self.verify(id);
            after(Effect::Close(id), rest)
        }
    }

    /// The session is removed and its connection closed. In the lobby the
    /// others are told, and a round is prepared if they meet the quorum;
    /// elsewhere the game returns to the lobby if fewer than two
    /// authenticated sessions are left. A session that is not there changes
    /// nothing.
    pub fn kick(&mut self, client: u32) -> (step: Step)
        ensures
            meets(
                *final(self),
                step,
                match position(old(self)@.clients, client) {
                    Some(index) => kicked(old(self)@, index),
                    None => idle(old(self)@),
                },
            ),
    {
        match self.index(client) {
            Some(index) => self.kick_at(index),
            None => nothing(),
        }
    }
}

/// The value of a message that was read, or the error.
pub open spec fn packet_view(packet: Result<Packet, Error>) -> Result<PacketView, Error> {
    match packet {
        Ok(packet) => Ok(packet@),
        Err(error) => Err(error),
    }
}

/// Handles a message that the session `id` sent while the game is in the
/// lobby: the handshake, a ready vote that may meet the quorum, a soft quit;
/// anything else, and any failure to read, removes the session.
pub fn handler(server: &mut Server, id: u32, packet: Result<Packet, Error>) -> (step: Step)
    ensures
        meets(
            *final(server),
            step,
            match position(old(server)@.clients, id) {
                Some(index) => in_lobby(old(server)@, index, packet_view(packet)),
                None => idle(old(server)@),
            },
        ),
{
    match server.index(id) {
        Some(index) => server.lobby_packet(index, packet),
        None => nothing(),
    }
}

impl Server {
    fn lobby_packet(&mut self, index: usize, packet: Result<Packet, Error>) -> (step: Step)
        requires
            index < old(self).clients@.len(),
        ensures
            meets(*final(self), step, in_lobby(old(self)@, index as int, packet_view(packet))),
    {
        let id = self.clients[index].id;
        match packet {
            Ok(Packet::Init { options }) => {
                self.clients[index].options = Some(options.clone());
                assert(self@.clients =~= old(self)@.clients.update(
                    index as int,
                    SessionView {
                        id,
                        ready: old(self)@.clients[index as int].ready,
                        options: Some(options@),
                    },
                ));
                let lobby = self.lobby();
                let mut to: Vec<u32> = Vec::new();
                to.push(id);
                assert(to@ =~= seq![id]);
                let confirmed = Effect::Write { to, packet: Packet::Confirmed { id, options, lobby } };
                let joined = self.broadcast_lobby(id, Action::Join);
                let step = after(confirmed, single(joined));
                assert(effects(step.effects@) =~= seq![confirmed@, joined@]);
                step
            },
            Ok(Packet::WaitingStatus { ready }) => {
                self.clients[index].ready = ready;
                assert(self@.clients =~= old(self)@.clients.update(
                    index as int,
                    SessionView { id, ready, options: old(self)@.clients[index as int].options },
                ));
                let event = self.broadcast_lobby(id, Action::Ready);
                let rest = self.start_if_ready(id);
                after(event, rest)
            },
            Ok(Packet::SoftQuit) => self.soft_kick_at(index),
            _ => self.kick_at(index),
        }
    }

    /// Records the guess of the session `id` if a round is in progress, the
    /// session has a slot in its roster and has not guessed yet.
    fn guess(&mut self, id: u32, coordinates: Coordinate) -> (step: Step)
        requires
            old(self)@.state is Round,
        ensures
            meets(
                *final(self),
                step,
                guessed(old(self)@, old(self)@.state->Round_0, id, coordinates),
            ),
    {
        let to = self.recipients(Some(id));
        let ghost before = old(self)@.state->Round_0;
        let (recorded, done) = match &mut self.state {
            State::Round(round) => {
                match round.index(id) {
                    Some(index) => {
                        let player = round.players[index];
                        if player.guess.is_none() {
                            round.players[index] = Player {
                                guess: Some(coordinates),
                                points: player.points,
                                id: player.id,
                            };
                            assert(round@.players =~= before.players.update(
                                index as int,
                                Player {
                                    guess: Some(coordinates),
                                    points: player.points,
                                    id: player.id,
                                },
                            ));
                            (true, round.complete())
                        } else {
                            (false, false)
                        }
                    },
                    None => (false, false),
                }
            },
            _ => (false, false),
        };
        if recorded {
            let acknowledged = Effect::Write { to, packet: Packet::Guessed { player: id } };
            if done {
                let step = after(acknowledged, single(Effect::Tally));
                assert(effects(step.effects@) =~= seq![acknowledged@, EffectView::Tally]);
                step
            } else {
                single(acknowledged)
            }
        } else {
            nothing()
        }
    }

    fn round_packet(&mut self, index: usize, packet: Result<Packet, Error>) -> (step: Step)
        requires
            index < old(self).clients@.len(),
            old(self)@.state is Round,
        ensures
            meets(
                *final(self),
                step,
                in_round(
                    old(self)@,
                    old(self)@.state->Round_0,
                    index as int,
                    packet_view(packet),
                ),
            ),
    {
        let id = self.clients[index].id;
        match packet {
            Ok(Packet::RequestGameEnd) => self.return_to_lobby(id),
            Ok(Packet::SoftQuit) => self.soft_kick_at(index),
            Ok(Packet::Guess { coordinates }) => self.guess(id, coordinates),
            _ => self.kick_at(index),
        }
    }

    fn results_packet(&mut self, index: usize, packet: Result<Packet, Error>) -> (step: Step)
        requires
            index < old(self).clients@.len(),
            old(self)@.state is Results,
        ensures
            meets(
                *final(self),
                step,
                in_results(
                    old(self)@,
                    old(self)@.state->Results_0,
                    index as int,
                    packet_view(packet),
                ),
            ),
    {
        let id = self.clients[index].id;
        match packet {
            Ok(Packet::RequestGameEnd) => self.return_to_lobby(id),
            Ok(Packet::WaitingStatus { ready }) => {
                if !ready {
                    return self.return_to_lobby(id);
                }
                let last = match &self.state {
                    State::Results(round) => round.clone(),
                    _ => {
                        return nothing();
                    },
                };
                self.clients[index].ready = true;
                assert(self@.clients =~= old(self)@.clients.update(
                    index as int,
                    SessionView {
                        id,
                        ready: true,
                        options: old(self)@.clients[index as int].options,
                    },
                ));
                if self.ready() {
                    round::new(self, Some(&last), id)
                } else {
                    nothing()
                }
            },
            Ok(Packet::SoftQuit) => self.soft_kick_at(index),
            _ => self.kick_at(index),
        }
    }

    /// Takes the scores of the round in progress: if every player of its
    /// roster has guessed, the players are credited, the results are shown
    /// and everyone gets the scored round. Otherwise nothing happens.
    pub fn finish(&mut self, scores: &[u64]) -> (step: Step)
        ensures
            meets(*final(self), step, completed(old(self)@, scores@)),
    {
        let scored = match &self.state {
            State::Round(round) => {
                if !round.complete() {
                    return nothing();
                }
                let mut scored = round.clone();
                results(&mut scored, scores);
                scored
            },
            _ => {
                return nothing();
            },
        };
        let shown = scored.clone();
        self.state = State::Results(scored);
        let told = self.broadcast(Packet::Result { round: shown }, None);
        single(told)
    }

    /// Handles one message and says what is to be done about it.
    ///
    /// The answer is the one that the rules give, for every state and every
    /// message; a message from a session that is no longer there is ignored.
    pub fn handle(&mut self, message: Message) -> (step: Step)
        ensures
            meets(*final(self), step, transition(old(self)@, message@)),
            wf(old(self)@) ==> wf(final(self)@),
    {
        proof {
            if wf(self@) {
                lemma_transition_sound(self@, message@);
            }
        }
        match message {
            Message::Quit => single(Effect::Stop),
            Message::Connection => self.client(),
            Message::GuessingComplete(scores) => self.finish(scores.as_slice()),
            Message::Packet(id, packet) => {
                let index = match self.index(id) {
                    Some(index) => index,
                    None => {
                        return nothing();
                    },
                };
                match self.state {
                    State::Lobby => self.lobby_packet(index, packet),
                    State::Round(_) => self.round_packet(index, packet),
                    State::Results(_) => self.results_packet(index, packet),
                }
            },
        }
    }

    /// Takes the photo of a pending round, or the news that none could be
    /// had: with a photo and its location the round starts and everyone
    /// gets the photo; without, the game returns to the lobby.
    pub fn resume(&mut self, pending: Pending, photo: Option<(Bytes, Coordinate)>) -> (step: Step)
        ensures
            meets(
                *final(self),
                step,
                resumed(
                    old(self)@,
                    pending@,
                    match photo {
                        Some((image, answer)) => Some((bytes_view(image), answer)),
                        None => None,
                    },
                ),
            ),
            wf(old(self)@) ==> wf(final(self)@),
    {
        match photo {
            Some((image, answer)) => {
                let Pending { round, by } = pending;
                let number = round.number;
                self.state = State::Round(RoundData { number, answer, players: round.players });
                let told = self.broadcast(Packet::Round { number, image }, None);
                single(told)
            },
            None => self.return_to_lobby(pending.by),
        }
    }
}

} // verus!

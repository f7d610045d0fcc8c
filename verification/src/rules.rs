//! The rules of the game, as functions on mathematical values.
//!
//! [`transition`] says what one message does to the coordinator: the state
//! afterwards, the effects, and the round that is to start, if any.
//! [`resumed`] says the same of a photo that arrives for a pending round.

use vstd::prelude::*;

use crate::lobby::{Action, ClientView};
use crate::packet::{Coordinate, Error, PacketView, Player, RoundDataView};
use crate::server::{EffectView, MessageView, PendingView, ServerView, StateView};
use crate::session::SessionView;

verus! {

/// The most points that one round can give.
pub const MAX_SCORE: u64 = 1000;

/// The answer of the rules to one message: the coordinator afterwards, the
/// effects, and the round to start, if any.
pub struct Outcome {
    pub server: ServerView,
    pub effects: Seq<EffectView>,
    pub pending: Option<PendingView>,
}

/// The lobby entry of a session, if it is authenticated.
pub open spec fn entry(client: SessionView) -> Option<ClientView> {
    match client.options {
        Some(options) => Some(ClientView { id: client.id, ready: client.ready, options }),
        None => None,
    }
}

/// The lobby snapshot: the entries of the authenticated sessions, in the
/// order of the sessions.
pub open spec fn lobby_of(clients: Seq<SessionView>) -> Seq<ClientView> {
    clients.filter_map(|client: SessionView| entry(client))
}

/// The session's id, if a broadcast that leaves `exclude` out reaches it.
pub open spec fn target(client: SessionView, exclude: Option<u32>) -> Option<u32> {
    if client.options is Some && exclude != Some(client.id) {
        Some(client.id)
    } else {
        None
    }
}

/// Whom a broadcast reaches: every authenticated session but `exclude`.
pub open spec fn recipients(clients: Seq<SessionView>, exclude: Option<u32>) -> Seq<u32> {
    clients.filter_map(|client: SessionView| target(client, exclude))
}

/// How many sessions are authenticated.
pub open spec fn authenticated(clients: Seq<SessionView>) -> nat {
    clients.filter(|client: SessionView| client.options is Some).len()
}

/// How many sessions are authenticated and ready.
pub open spec fn ready_count(clients: Seq<SessionView>) -> nat {
    clients.filter(|client: SessionView| client.options is Some && client.ready).len()
}

/// The quorum: at least two authenticated sessions are ready, and no
/// authenticated session is not.
pub open spec fn quorum(clients: Seq<SessionView>) -> bool {
    ready_count(clients) >= 2 && ready_count(clients) == authenticated(clients)
}

/// The index of the first session with this id.
pub open spec fn position(clients: Seq<SessionView>, id: u32) -> Option<int>
    decreases clients.len(),
{
    if clients.len() == 0 {
        None
    } else {
        match position(clients.drop_last(), id) {
            Some(index) => Some(index),
            None => if clients.last().id == id {
                Some(clients.len() - 1)
            } else {
                None
            },
        }
    }
}

/// The points that the first player with this id has, or 0.
pub open spec fn points_of(players: Seq<Player>, id: u32) -> u64
    decreases players.len(),
{
    if players.len() == 0 {
        0
    } else if players[0].id == id {
        players[0].points
    } else {
        points_of(players.drop_first(), id)
    }
}

/// The roster slot of a session, if it is authenticated: no guess yet, and
/// the points that the session had in the round before, if there was one.
pub open spec fn slot(client: SessionView, old: Option<RoundDataView>) -> Option<Player> {
    if client.options is Some {
        Some(
            Player {
                guess: None,
                points: match old {
                    Some(round) => points_of(round.players, client.id),
                    None => 0,
                },
                id: client.id,
            },
        )
    } else {
        None
    }
}

/// The roster of a round that starts now: the authenticated sessions, in the
/// order of the sessions.
pub open spec fn roster(clients: Seq<SessionView>, old: Option<RoundDataView>) -> Seq<Player> {
    clients.filter_map(|client: SessionView| slot(client, old))
}

/// The number of a round that starts now: 0 in a fresh lobby session, else
/// one more than the round before (wrapping at the end of `u32`).
pub open spec fn next_number(old: Option<RoundDataView>) -> u32 {
    match old {
        Some(round) => if round.number == u32::MAX {
            0
        } else {
            (round.number + 1) as u32
        },
        None => 0,
    }
}

/// Every session, no longer ready.
pub open spec fn unready(clients: Seq<SessionView>) -> Seq<SessionView> {
    Seq::new(
        clients.len(),
        |i: int| SessionView { id: clients[i].id, ready: false, options: clients[i].options },
    )
}

/// Whether every player of the roster has guessed.
pub open spec fn all_guessed(players: Seq<Player>) -> bool {
    forall|i: int| 0 <= i < players.len() ==> (#[trigger] players[i]).guess is Some
}

/// The index of the first player with this id.
pub open spec fn player_position(players: Seq<Player>, id: u32) -> Option<int>
    decreases players.len(),
{
    if players.len() == 0 {
        None
    } else {
        match player_position(players.drop_last(), id) {
            Some(index) => Some(index),
            None => if players.last().id == id {
                Some(players.len() - 1)
            } else {
                None
            },
        }
    }
}

/// What a score adds to a player's points: the score, but never more than
/// [`MAX_SCORE`].
pub open spec fn award(score: u64) -> u64 {
    if score > MAX_SCORE {
        MAX_SCORE
    } else {
        score
    }
}

/// A player's points after a round: the points before plus the award,
/// stopping at the end of `u64`.
pub open spec fn credited(points: u64, score: u64) -> u64 {
    if points + award(score) > u64::MAX {
        u64::MAX
    } else {
        (points + award(score)) as u64
    }
}

/// The roster after scoring: player `i` is credited with `scores[i]`; a
/// player for whom no score was reported keeps its points.
pub open spec fn scored(players: Seq<Player>, scores: Seq<u64>) -> Seq<Player> {
    Seq::new(
        players.len(),
        |i: int|
            Player {
                guess: players[i].guess,
                points: if i < scores.len() {
                    credited(players[i].points, scores[i])
                } else {
                    players[i].points
                },
                id: players[i].id,
            },
    )
}

/// A broadcast of `packet` to every authenticated session.
pub open spec fn to_everyone(clients: Seq<SessionView>, packet: PacketView) -> EffectView {
    EffectView::Write { to: recipients(clients, None), packet }
}

/// A lobby event: it carries the lobby snapshot and goes to every
/// authenticated session but the acting one; a return to the lobby goes to
/// the acting session too.
pub open spec fn lobby_event(clients: Seq<SessionView>, action: Action, user: u32) -> EffectView {
    EffectView::Write {
        to: recipients(
            clients,
            if action == Action::Return {
                None
            } else {
                Some(user)
            },
        ),
        packet: PacketView::LobbyEvent { action, user, lobby: lobby_of(clients) },
    }
}

/// Nothing happens.
pub open spec fn idle(server: ServerView) -> Outcome {
    Outcome { server, effects: Seq::empty(), pending: None }
}

/// `head` is done first, then what `outcome` asks for.
pub open spec fn followed(head: Seq<EffectView>, outcome: Outcome) -> Outcome {
    Outcome { server: outcome.server, effects: head + outcome.effects, pending: outcome.pending }
}

/// The game returns to the lobby, and everyone is told.
pub open spec fn returned(server: ServerView, by: u32) -> Outcome {
    Outcome {
        server: ServerView {
            clients: server.clients,
            state: StateView::Lobby,
            id_counter: server.id_counter,
        },
        effects: seq![lobby_event(server.clients, Action::Return, by)],
        pending: None,
    }
}

/// A round is prepared: nobody is ready any more, everyone is told that the
/// round is loading, and the round waits for its photo with the roster of
/// this moment.
pub open spec fn prepared(server: ServerView, old: Option<RoundDataView>, by: u32) -> Outcome {
    let clients = unready(server.clients);
    Outcome {
        server: ServerView { clients, state: server.state, id_counter: server.id_counter },
        effects: seq![
            to_everyone(clients, PacketView::RoundLoading { lobby: lobby_of(clients) }),
        ],
        pending: Some(
            PendingView {
                round: RoundDataView {
                    number: next_number(old),
                    answer: Coordinate { latitude: 0, longitude: 0 },
                    players: roster(clients, old),
                },
                by,
            },
        ),
    }
}

/// A round is prepared if the quorum is met.
pub open spec fn started_if_quorum(
    server: ServerView,
    old: Option<RoundDataView>,
    by: u32,
) -> Outcome {
    if quorum(server.clients) {
        prepared(server, old, by)
    } else {
        idle(server)
    }
}

/// The game returns to the lobby if fewer than two authenticated sessions
/// are left.
pub open spec fn verified(server: ServerView, by: u32) -> Outcome {
    if authenticated(server.clients) < 2 {
        returned(server, by)
    } else {
        idle(server)
    }
}

/// The session at `index` quits softly: it stays connected but is no longer
/// authenticated.
pub open spec fn soft_kicked(server: ServerView, index: int) -> Outcome {
    let client = server.clients[index];
    let clients = server.clients.update(
        index,
        SessionView { id: client.id, ready: client.ready, options: None },
    );
    let server = ServerView { clients, state: server.state, id_counter: server.id_counter };
    if authenticated(clients) < 2 {
        returned(server, client.id)
    } else if server.state is Lobby {
        started_if_quorum(server, None, client.id)
    } else {
        idle(server)
    }
}

/// The session at `index` is removed and its connection closed.
pub open spec fn kicked(server: ServerView, index: int) -> Outcome {
    let id = server.clients[index].id;
    let clients = server.clients.remove(index);
    let server = ServerView { clients, state: server.state, id_counter: server.id_counter };
    if server.state is Lobby {
        followed(
            seq![EffectView::Close(id), lobby_event(clients, Action::Leave, id)],
            started_if_quorum(server, None, id),
        )
    } else {
        followed(seq![EffectView::Close(id)], verified(server, id))
    }
}

/// A message from the session at `index` while the game is in the lobby.
pub open spec fn in_lobby(
    server: ServerView,
    index: int,
    packet: Result<PacketView, Error>,
) -> Outcome {
    let client = server.clients[index];
    match packet {
        Ok(PacketView::Init { options }) => {
            let clients = server.clients.update(
                index,
                SessionView { id: client.id, ready: client.ready, options: Some(options) },
            );
            Outcome {
                server: ServerView { clients, state: server.state, id_counter: server.id_counter },
                effects: seq![
                    EffectView::Write {
                        to: seq![client.id],
                        packet: PacketView::Confirmed {
                            id: client.id,
                            options,
                            lobby: lobby_of(clients),
                        },
                    },
                    lobby_event(clients, Action::Join, client.id),
                ],
                pending: None,
            }
        },
        Ok(PacketView::WaitingStatus { ready }) => {
            let clients = server.clients.update(
                index,
                SessionView { id: client.id, ready, options: client.options },
            );
            followed(
                seq![lobby_event(clients, Action::Ready, client.id)],
                started_if_quorum(
                    ServerView { clients, state: server.state, id_counter: server.id_counter },
                    None,
                    client.id,
                ),
            )
        },
        Ok(PacketView::SoftQuit) => soft_kicked(server, index),
        _ => kicked(server, index),
    }
}

/// A guess from the session `id`: it is recorded if the session has a slot
/// in the roster and has not guessed yet, and is ignored otherwise. The
/// others learn that the session has guessed, not where; with the last guess
/// the round is ready to be scored.
pub open spec fn guessed(
    server: ServerView,
    round: RoundDataView,
    id: u32,
    coordinates: Coordinate,
) -> Outcome {
    match player_position(round.players, id) {
        Some(index) => if round.players[index].guess is None {
            let players = round.players.update(
                index,
                Player {
                    guess: Some(coordinates),
                    points: round.players[index].points,
                    id: round.players[index].id,
                },
            );
            let acknowledged = EffectView::Write {
                to: recipients(server.clients, Some(id)),
                packet: PacketView::Guessed { player: id },
            };
            Outcome {
                server: ServerView {
                    clients: server.clients,
                    state: StateView::Round(
                        RoundDataView { number: round.number, answer: round.answer, players },
                    ),
                    id_counter: server.id_counter,
                },
                effects: if all_guessed(players) {
                    seq![acknowledged, EffectView::Tally]
                } else {
                    seq![acknowledged]
                },
                pending: None,
            }
        } else {
            idle(server)
        },
        None => idle(server),
    }
}

/// A message from the session at `index` while a round is in progress.
pub open spec fn in_round(
    server: ServerView,
    round: RoundDataView,
    index: int,
    packet: Result<PacketView, Error>,
) -> Outcome {
    let id = server.clients[index].id;
    match packet {
        Ok(PacketView::RequestGameEnd) => returned(server, id),
        Ok(PacketView::SoftQuit) => soft_kicked(server, index),
        Ok(PacketView::Guess { coordinates }) => guessed(server, round, id, coordinates),
        _ => kicked(server, index),
    }
}

/// A message from the session at `index` while the results are shown.
pub open spec fn in_results(
    server: ServerView,
    round: RoundDataView,
    index: int,
    packet: Result<PacketView, Error>,
) -> Outcome {
    let client = server.clients[index];
    match packet {
        Ok(PacketView::RequestGameEnd) => returned(server, client.id),
        Ok(PacketView::WaitingStatus { ready }) => if ready {
            let clients = server.clients.update(
                index,
                SessionView { id: client.id, ready: true, options: client.options },
            );
            started_if_quorum(
                ServerView { clients, state: server.state, id_counter: server.id_counter },
                Some(round),
                client.id,
            )
        } else {
            returned(server, client.id)
        },
        Ok(PacketView::SoftQuit) => soft_kicked(server, index),
        _ => kicked(server, index),
    }
}

/// A connection waits: in the lobby it becomes a session with the next id,
/// as long as ids are left; otherwise it is turned away.
pub open spec fn connected(server: ServerView) -> Outcome {
    if server.state is Lobby && server.id_counter < u32::MAX {
        Outcome {
            server: ServerView {
                clients: server.clients.push(
                    SessionView { id: server.id_counter, ready: false, options: None },
                ),
                state: server.state,
                id_counter: (server.id_counter + 1) as u32,
            },
            effects: seq![EffectView::Accept(server.id_counter)],
            pending: None,
        }
    } else {
        Outcome { server, effects: seq![EffectView::Refuse], pending: None }
    }
}

/// The scores arrive: if a round is in progress and every player of its
/// roster has guessed, the players are credited, the results are shown and
/// everyone gets the scored round. Otherwise nothing happens.
pub open spec fn completed(server: ServerView, scores: Seq<u64>) -> Outcome {
    match server.state {
        StateView::Round(round) => if all_guessed(round.players) {
            let result = RoundDataView {
                number: round.number,
                answer: round.answer,
                players: scored(round.players, scores),
            };
            Outcome {
                server: ServerView {
                    clients: server.clients,
                    state: StateView::Results(result),
                    id_counter: server.id_counter,
                },
                effects: seq![to_everyone(server.clients, PacketView::Result { round: result })],
                pending: None,
            }
        } else {
            idle(server)
        },
        _ => idle(server),
    }
}

/// What the coordinator does with one message. A message from a session
/// that is no longer there is ignored.
pub open spec fn transition(server: ServerView, message: MessageView) -> Outcome {
    match message {
        MessageView::Quit => Outcome { server, effects: seq![EffectView::Stop], pending: None },
        MessageView::Connection => connected(server),
        MessageView::GuessingComplete(scores) => completed(server, scores),
        MessageView::Packet(id, packet) => match position(server.clients, id) {
            None => idle(server),
            Some(index) => match server.state {
                StateView::Lobby => in_lobby(server, index, packet),
                StateView::Round(round) => in_round(server, round, index, packet),
                StateView::Results(round) => in_results(server, round, index, packet),
            },
        },
    }
}

/// What the coordinator does once the photo of a pending round is there, or
/// could not be had: with a photo and its location the round starts and
/// everyone gets the photo; without, the game returns to the lobby.
pub open spec fn resumed(
    server: ServerView,
    pending: PendingView,
    photo: Option<(Seq<u8>, Coordinate)>,
) -> Outcome {
    match photo {
        Some((image, answer)) => Outcome {
            server: ServerView {
                clients: server.clients,
                state: StateView::Round(
                    RoundDataView {
                        number: pending.round.number,
                        answer,
                        players: pending.round.players,
                    },
                ),
                id_counter: server.id_counter,
            },
            effects: seq![
                to_everyone(
                    server.clients,
                    PacketView::Round { number: pending.round.number, image },
                ),
            ],
            pending: None,
        },
        None => returned(server, pending.by),
    }
}

/// The sessions have ids below `counter`, and no two share one.
pub open spec fn distinct(clients: Seq<SessionView>, counter: u32) -> bool {
    &&& forall|i: int| 0 <= i < clients.len() ==> (#[trigger] clients[i]).id < counter
    &&& forall|i: int, j: int|
        0 <= i < j < clients.len() ==> (#[trigger] clients[i]).id != (#[trigger] clients[j]).id
}

/// What always holds of the coordinator: no two sessions share an id, every
/// id was handed out by the counter, and results are only shown of a round
/// in which every player has guessed.
pub open spec fn wf(server: ServerView) -> bool {
    &&& distinct(server.clients, server.id_counter)
    &&& match server.state {
        StateView::Results(round) => all_guessed(round.players),
        _ => true,
    }
}

} // verus!

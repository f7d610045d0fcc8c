//! What holds of the rules, whatever the sessions do.

use vstd::prelude::*;

use crate::packet::{Coordinate, Error, PacketView, Player, RoundDataView};
use crate::rules::{
    all_guessed, authenticated, connected, credited, distinct, idle, in_lobby, in_results,
    in_round, kicked, next_number, player_position, position, prepared, quorum, ready_count,
    recipients, resumed, returned, roster, scored, soft_kicked, started_if_quorum, transition,
    unready, wf, Outcome, MAX_SCORE,
};
use crate::server::{EffectView, MessageView, PendingView, ServerView, StateView};
use crate::session::SessionView;

verus! {

/// `after` holds the sessions of `before`, in their order and with their
/// ids.
pub open spec fn same_ids(before: Seq<SessionView>, after: Seq<SessionView>) -> bool {
    &&& after.len() == before.len()
    &&& forall|i: int| 0 <= i < before.len() ==> (#[trigger] after[i]).id == before[i].id
}

proof fn lemma_same_ids_distinct(before: Seq<SessionView>, after: Seq<SessionView>, counter: u32)
    requires
        distinct(before, counter),
        same_ids(before, after),
    ensures
        distinct(after, counter),
{
    assert forall|i: int| 0 <= i < after.len() implies (#[trigger] after[i]).id < counter by {
        assert(before[i].id < counter);
    }
    assert forall|i: int, j: int| 0 <= i < j < after.len() implies (#[trigger] after[i]).id != (
    #[trigger] after[j]).id by {
        assert(before[i].id != before[j].id);
    }
}

proof fn lemma_remove_distinct(clients: Seq<SessionView>, index: int, counter: u32)
    requires
        distinct(clients, counter),
        0 <= index < clients.len(),
    ensures
        distinct(clients.remove(index), counter),
{
    let after = clients.remove(index);
    assert forall|i: int| 0 <= i < after.len() implies (#[trigger] after[i]).id < counter by {
        if i < index {
            assert(after[i] == clients[i]);
        } else {
            assert(after[i] == clients[i + 1]);
        }
    }
    assert forall|i: int, j: int| 0 <= i < j < after.len() implies (#[trigger] after[i]).id != (
    #[trigger] after[j]).id by {
        let a = if i < index {
            i
        } else {
            i + 1
        };
        let b = if j < index {
            j
        } else {
            j + 1
        };
        assert(after[i] == clients[a]);
        assert(after[j] == clients[b]);
        assert(clients[a].id != clients[b].id);
    }
}

/// The position of an id is an index of a session with that id.
pub proof fn lemma_position(clients: Seq<SessionView>, id: u32)
    ensures
        match position(clients, id) {
            Some(index) => 0 <= index < clients.len() && clients[index].id == id,
            None => forall|i: int| 0 <= i < clients.len() ==> (#[trigger] clients[i]).id != id,
        },
    decreases clients.len(),
{
    if clients.len() > 0 {
        lemma_position(clients.drop_last(), id);
        match position(clients.drop_last(), id) {
            Some(index) => {
                assert(clients.drop_last()[index] == clients[index]);
            },
            None => {
                assert forall|i: int| 0 <= i < clients.len() - 1 implies (
                #[trigger] clients[i]).id != id by {
                    assert(clients.drop_last()[i] == clients[i]);
                }
            },
        }
    }
}

/// The position of an id among the players is an index of a player with
/// that id.
pub proof fn lemma_player_position(players: Seq<Player>, id: u32)
    ensures
        match player_position(players, id) {
            Some(index) => 0 <= index < players.len() && players[index].id == id,
            None => forall|i: int| 0 <= i < players.len() ==> (#[trigger] players[i]).id != id,
        },
    decreases players.len(),
{
    if players.len() > 0 {
        lemma_player_position(players.drop_last(), id);
        match player_position(players.drop_last(), id) {
            Some(index) => {
                assert(players.drop_last()[index] == players[index]);
            },
            None => {
                assert forall|i: int| 0 <= i < players.len() - 1 implies (
                #[trigger] players[i]).id != id by {
                    assert(players.drop_last()[i] == players[i]);
                }
            },
        }
    }
}

/// The outcome leaves the coordinator well-formed and does not turn the
/// counter back.
pub open spec fn sound(server: ServerView, outcome: Outcome) -> bool {
    &&& wf(outcome.server)
    &&& outcome.server.id_counter >= server.id_counter
}

proof fn lemma_returned(server: ServerView, by: u32)
    requires
        wf(server),
    ensures
        sound(server, returned(server, by)),
{
}

proof fn lemma_prepared(server: ServerView, last: Option<RoundDataView>, by: u32)
    requires
        wf(server),
    ensures
        sound(server, prepared(server, last, by)),
{
    lemma_same_ids_distinct(server.clients, unready(server.clients), server.id_counter);
}

proof fn lemma_started(server: ServerView, last: Option<RoundDataView>, by: u32)
    requires
        wf(server),
    ensures
        sound(server, started_if_quorum(server, last, by)),
{
    lemma_prepared(server, last, by);
}

proof fn lemma_soft_kicked(server: ServerView, index: int)
    requires
        wf(server),
        0 <= index < server.clients.len(),
    ensures
        sound(server, soft_kicked(server, index)),
{
    let client = server.clients[index];
    let clients = server.clients.update(
        index,
        SessionView { id: client.id, ready: client.ready, options: None },
    );
    lemma_same_ids_distinct(server.clients, clients, server.id_counter);
    let next = ServerView { clients, state: server.state, id_counter: server.id_counter };
    lemma_returned(next, client.id);
    lemma_started(next, None, client.id);
}

proof fn lemma_kicked(server: ServerView, index: int)
    requires
        wf(server),
        0 <= index < server.clients.len(),
    ensures
        sound(server, kicked(server, index)),
{
    let id = server.clients[index].id;
    let clients = server.clients.remove(index);
    lemma_remove_distinct(server.clients, index, server.id_counter);
    let next = ServerView { clients, state: server.state, id_counter: server.id_counter };
    lemma_returned(next, id);
    lemma_started(next, None, id);
}

proof fn lemma_in_lobby(server: ServerView, index: int, packet: Result<PacketView, Error>)
    requires
        wf(server),
        0 <= index < server.clients.len(),
    ensures
        sound(server, in_lobby(server, index, packet)),
{
    let client = server.clients[index];
    lemma_soft_kicked(server, index);
    lemma_kicked(server, index);
    match packet {
        Ok(PacketView::Init { options }) => {
            let clients = server.clients.update(
                index,
                SessionView { id: client.id, ready: client.ready, options: Some(options) },
            );
            lemma_same_ids_distinct(server.clients, clients, server.id_counter);
        },
        Ok(PacketView::WaitingStatus { ready }) => {
            let clients = server.clients.update(
                index,
                SessionView { id: client.id, ready, options: client.options },
            );
            lemma_same_ids_distinct(server.clients, clients, server.id_counter);
            lemma_started(
                ServerView { clients, state: server.state, id_counter: server.id_counter },
                None,
                client.id,
            );
        },
        _ => {},
    }
}

proof fn lemma_in_round(
    server: ServerView,
    round: RoundDataView,
    index: int,
    packet: Result<PacketView, Error>,
)
    requires
        wf(server),
        server.state == StateView::Round(round),
        0 <= index < server.clients.len(),
    ensures
        sound(server, in_round(server, round, index, packet)),
{
    lemma_soft_kicked(server, index);
    lemma_kicked(server, index);
    lemma_returned(server, server.clients[index].id);
}

proof fn lemma_in_results(
    server: ServerView,
    round: RoundDataView,
    index: int,
    packet: Result<PacketView, Error>,
)
    requires
        wf(server),
        server.state == StateView::Results(round),
        0 <= index < server.clients.len(),
    ensures
        sound(server, in_results(server, round, index, packet)),
{
    let client = server.clients[index];
    lemma_soft_kicked(server, index);
    lemma_kicked(server, index);
    lemma_returned(server, client.id);
    let clients = server.clients.update(
        index,
        SessionView { id: client.id, ready: true, options: client.options },
    );
    lemma_same_ids_distinct(server.clients, clients, server.id_counter);
    lemma_started(
        ServerView { clients, state: server.state, id_counter: server.id_counter },
        Some(round),
        client.id,
    );
}

/// Every step keeps the coordinator well-formed: ids stay unique and below
/// the counter, the counter never goes back, and results are only ever
/// shown of a round in which every player has guessed.
pub proof fn lemma_transition_sound(server: ServerView, message: MessageView)
    requires
        wf(server),
    ensures
        wf(transition(server, message).server),
        transition(server, message).server.id_counter >= server.id_counter,
{
    match message {
        MessageView::Quit => {},
        MessageView::Connection => {},
        MessageView::GuessingComplete(scores) => {},
        MessageView::Packet(id, packet) => {
            lemma_position(server.clients, id);
            match position(server.clients, id) {
                None => {},
                Some(index) => match server.state {
                    StateView::Lobby => lemma_in_lobby(server, index, packet),
                    StateView::Round(round) => lemma_in_round(server, round, index, packet),
                    StateView::Results(round) => lemma_in_results(server, round, index, packet),
                },
            }
        },
    }
}

/// Starting or abandoning a pending round keeps the coordinator
/// well-formed.
pub proof fn lemma_resumed_sound(
    server: ServerView,
    pending: PendingView,
    photo: Option<(Seq<u8>, Coordinate)>,
)
    requires
        wf(server),
    ensures
        wf(resumed(server, pending, photo).server),
        resumed(server, pending, photo).server.id_counter == server.id_counter,
{
}

/// Never more sessions are ready than are authenticated, and as many only
/// where every authenticated session is ready.
pub proof fn lemma_ready_count(clients: Seq<SessionView>)
    ensures
        ready_count(clients) <= authenticated(clients) <= clients.len(),
        ready_count(clients) == authenticated(clients) <==> (forall|i: int|
            0 <= i < clients.len() && (#[trigger] clients[i]).options is Some ==> clients[i].ready),
    decreases clients.len(),
{
    let is_in = |client: SessionView| client.options is Some;
    let is_ready = |client: SessionView| client.options is Some && client.ready;
    if clients.len() == 0 {
        assert(clients.filter(is_in).len() == 0) by {
            reveal(Seq::filter);
        }
        assert(clients.filter(is_ready).len() == 0) by {
            reveal(Seq::filter);
        }
    } else {
        let front = clients.drop_last();
        lemma_ready_count(front);
        assert(clients =~= front.push(clients.last()));
        front.lemma_filter_len_push(is_in, clients.last());
        front.lemma_filter_len_push(is_ready, clients.last());
        if ready_count(clients) == authenticated(clients) {
            assert forall|i: int|
                0 <= i < clients.len() && (#[trigger] clients[i]).options is Some implies clients[i].ready by {
                if i < front.len() {
                    assert(front[i] == clients[i]);
                }
            }
        }
        if forall|i: int|
            0 <= i < clients.len() && (#[trigger] clients[i]).options is Some ==> clients[i].ready {
            assert forall|i: int|
                0 <= i < front.len() && (#[trigger] front[i]).options is Some implies front[i].ready by {
                assert(front[i] == clients[i]);
            }
        }
    }
}

/// The quorum in other words: at least two sessions are authenticated, and
/// every authenticated session is ready. So one authenticated session never
/// meets it, and two meet it exactly when both are ready.
pub proof fn lemma_quorum(clients: Seq<SessionView>)
    ensures
        quorum(clients) <==> authenticated(clients) >= 2 && (forall|i: int|
            0 <= i < clients.len() && (#[trigger] clients[i]).options is Some ==> clients[i].ready),
{
    lemma_ready_count(clients);
}

proof fn lemma_unready_authenticated(clients: Seq<SessionView>)
    ensures
        authenticated(unready(clients)) == authenticated(clients),
    decreases clients.len(),
{
    let is_in = |client: SessionView| client.options is Some;
    if clients.len() == 0 {
        assert(unready(clients) =~= clients);
    } else {
        let front = clients.drop_last();
        lemma_unready_authenticated(front);
        assert(clients =~= front.push(clients.last()));
        assert(unready(clients) =~= unready(front).push(unready(clients).last()));
        front.lemma_filter_len_push(is_in, clients.last());
        unready(front).lemma_filter_len_push(is_in, unready(clients).last());
    }
}

/// The round that went before, as far as the next round continues it: the
/// round whose results are shown.
pub open spec fn last_round(state: StateView) -> Option<RoundDataView> {
    match state {
        StateView::Results(round) => Some(round),
        _ => None,
    }
}

/// What holds whenever a round is prepared.
pub open spec fn round_start(server: ServerView, outcome: Outcome) -> bool {
    outcome.pending is Some ==> {
        &&& !(server.state is Round)
        &&& outcome.server.state == server.state
        &&& authenticated(outcome.server.clients) >= 2
        &&& forall|i: int|
            0 <= i < outcome.server.clients.len() ==> !(#[trigger] outcome.server.clients[i]).ready
        &&& outcome.pending->Some_0.round.players == roster(
            outcome.server.clients,
            last_round(server.state),
        )
        &&& outcome.pending->Some_0.round.number == next_number(last_round(server.state))
    }
}

proof fn lemma_started_round(server: ServerView, by: u32)
    requires
        !(server.state is Round),
    ensures
        round_start(server, started_if_quorum(server, last_round(server.state), by)),
{
    lemma_ready_count(server.clients);
    lemma_unready_authenticated(server.clients);
}

proof fn lemma_soft_kicked_round(server: ServerView, index: int)
    requires
        0 <= index < server.clients.len(),
    ensures
        round_start(server, soft_kicked(server, index)),
{
    let client = server.clients[index];
    let clients = server.clients.update(
        index,
        SessionView { id: client.id, ready: client.ready, options: None },
    );
    let next = ServerView { clients, state: server.state, id_counter: server.id_counter };
    if server.state is Lobby {
        lemma_started_round(next, client.id);
    }
}

proof fn lemma_kicked_round(server: ServerView, index: int)
    requires
        0 <= index < server.clients.len(),
    ensures
        round_start(server, kicked(server, index)),
{
    let id = server.clients[index].id;
    let clients = server.clients.remove(index);
    let next = ServerView { clients, state: server.state, id_counter: server.id_counter };
    if server.state is Lobby {
        lemma_started_round(next, id);
    }
}

/// A round is only ever prepared outside a round and with at least two
/// authenticated sessions; when it is, nobody is ready any more, the roster
/// is the authenticated sessions of that moment, and the round's number is
/// 0 in the lobby and one more than the last round's where results are
/// shown.
pub proof fn lemma_round_start(server: ServerView, message: MessageView)
    ensures
        round_start(server, transition(server, message)),
{
    match message {
        MessageView::Packet(id, packet) => {
            lemma_position(server.clients, id);
            match position(server.clients, id) {
                None => {},
                Some(index) => {
                    lemma_soft_kicked_round(server, index);
                    lemma_kicked_round(server, index);
                    let client = server.clients[index];
                    match server.state {
                        StateView::Lobby => {
                            if let Ok(PacketView::WaitingStatus { ready }) = packet {
                                let clients = server.clients.update(
                                    index,
                                    SessionView { id: client.id, ready, options: client.options },
                                );
                                lemma_started_round(
                                    ServerView {
                                        clients,
                                        state: server.state,
                                        id_counter: server.id_counter,
                                    },
                                    client.id,
                                );
                            }
                        },
                        StateView::Round(round) => {},
                        StateView::Results(round) => {
                            let clients = server.clients.update(
                                index,
                                SessionView { id: client.id, ready: true, options: client.options },
                            );
                            lemma_started_round(
                                ServerView {
                                    clients,
                                    state: server.state,
                                    id_counter: server.id_counter,
                                },
                                client.id,
                            );
                        },
                    }
                },
            }
        },
        _ => {},
    }
}

/// Rounds are numbered from 0 in every lobby session, and each round that
/// follows on shown results has the next number.
pub proof fn lemma_round_numbering(server: ServerView, message: MessageView)
    requires
        transition(server, message).pending is Some,
    ensures
        server.state is Lobby ==> transition(server, message).pending->Some_0.round.number == 0,
        server.state is Results && server.state->Results_0.number < u32::MAX ==> transition(
            server,
            message,
        ).pending->Some_0.round.number == server.state->Results_0.number + 1,
{
    lemma_round_start(server, message);
}

/// A ready vote in the lobby prepares a round exactly when, with the vote
/// counted, the quorum is met.
pub proof fn lemma_ready_vote(server: ServerView, index: int, ready: bool)
    requires
        server.state is Lobby,
        0 <= index < server.clients.len(),
    ensures
        in_lobby(server, index, Ok(PacketView::WaitingStatus { ready })).pending is Some
            <==> quorum(
            server.clients.update(
                index,
                SessionView {
                    id: server.clients[index].id,
                    ready,
                    options: server.clients[index].options,
                },
            ),
        ),
{
}

/// The roster holds one player for every authenticated session, in the
/// order of the sessions and under the session's id: the players are the
/// sessions that a broadcast reaches. Nobody has guessed yet.
pub proof fn lemma_roster(clients: Seq<SessionView>, last: Option<RoundDataView>)
    ensures
        roster(clients, last).len() == recipients(clients, None).len(),
        forall|k: int|
            0 <= k < roster(clients, last).len() ==> {
                &&& (#[trigger] roster(clients, last)[k]).id == recipients(clients, None)[k]
                &&& roster(clients, last)[k].guess is None
            },
    decreases clients.len(),
{
    if clients.len() > 0 {
        lemma_roster(clients.drop_last(), last);
    }
}

/// Results are only reached from a round in which every player has
/// guessed, by the arrival of the scores; and once shown they do not
/// change.
pub proof fn lemma_results(server: ServerView, message: MessageView)
    requires
        transition(server, message).server.state is Results,
    ensures
        match server.state {
            StateView::Lobby => false,
            StateView::Round(round) => {
                &&& all_guessed(round.players)
                &&& message is GuessingComplete
                &&& transition(server, message).server.state->Results_0 == (RoundDataView {
                    number: round.number,
                    answer: round.answer,
                    players: scored(round.players, message->GuessingComplete_0),
                })
            },
            StateView::Results(round) => transition(server, message).server.state->Results_0
                == round,
        },
{
    if let MessageView::Packet(id, packet) = message {
        lemma_position(server.clients, id);
    }
}

/// While a round is in progress its roster is frozen: it keeps its players,
/// their ids and their points, and a guess that is recorded stays as it is.
pub proof fn lemma_guess_stands(server: ServerView, message: MessageView)
    requires
        server.state is Round,
        transition(server, message).server.state is Round,
    ensures
        ({
            let before = server.state->Round_0;
            let after = transition(server, message).server.state->Round_0;
            &&& after.number == before.number
            &&& after.answer == before.answer
            &&& after.players.len() == before.players.len()
            &&& forall|i: int|
                0 <= i < before.players.len() ==> {
                    &&& (#[trigger] after.players[i]).id == before.players[i].id
                    &&& after.players[i].points == before.players[i].points
                    &&& before.players[i].guess is Some ==> after.players[i].guess
                        == before.players[i].guess
                }
        }),
{
    if let MessageView::Packet(id, packet) = message {
        lemma_position(server.clients, id);
        if let Ok(PacketView::Guess { coordinates }) = packet {
            lemma_player_position(server.state->Round_0.players, id);
        }
    }
}

/// A second guess from a player changes nothing and is answered with
/// nothing, and so is a guess from a session that has no slot in the
/// roster.
pub proof fn lemma_late_guess(server: ServerView, id: u32, coordinates: Coordinate)
    requires
        server.state is Round,
        position(server.clients, id) is Some,
        match player_position(server.state->Round_0.players, id) {
            Some(index) => server.state->Round_0.players[index].guess is Some,
            None => true,
        },
    ensures
        transition(server, MessageView::Packet(id, Ok(PacketView::Guess { coordinates })))
            == idle(server),
{
    lemma_position(server.clients, id);
    lemma_player_position(server.state->Round_0.players, id);
}

/// A round adds to a player's points at most [`MAX_SCORE`] and never takes
/// any away; a score within the bound is added as it is unless the total
/// would pass the end of `u64`.
pub proof fn lemma_award(points: u64, score: u64)
    ensures
        points <= credited(points, score) <= points + MAX_SCORE,
        score <= MAX_SCORE && points + score <= u64::MAX ==> credited(points, score) == points
            + score,
        score >= MAX_SCORE && points + MAX_SCORE <= u64::MAX ==> credited(points, score) == points
            + MAX_SCORE,
{
}

/// Removing a session leaves every other session in place, with its id and
/// its options.
pub proof fn lemma_kick_spares_others(server: ServerView, index: int)
    requires
        0 <= index < server.clients.len(),
    ensures
        ({
            let after = kicked(server, index).server.clients;
            &&& after.len() == server.clients.len() - 1
            &&& forall|k: int|
                0 <= k < after.len() ==> {
                    let from = if k < index {
                        k
                    } else {
                        k + 1
                    };
                    &&& (#[trigger] after[k]).id == server.clients[from].id
                    &&& after[k].options == server.clients[from].options
                }
        }),
{
}

/// The id that a new session gets is one that no session has.
pub proof fn lemma_accept_fresh(server: ServerView, id: u32)
    requires
        wf(server),
        connected(server).effects == seq![EffectView::Accept(id)],
    ensures
        id == server.id_counter,
        connected(server).server.id_counter == id + 1,
        forall|i: int| 0 <= i < server.clients.len() ==> (#[trigger] server.clients[i]).id != id,
{
    let effects = connected(server).effects;
    assert(effects[0] == EffectView::Accept(id));
}

} // verus!

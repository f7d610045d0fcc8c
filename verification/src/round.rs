//! The life of one round: how it is prepared and how it is scored.

use vstd::prelude::*;

use crate::packet::{Coordinate, Packet, Player, RoundData, RoundDataView};
use crate::rules::{
    all_guessed, player_position, points_of, prepared, roster, scored, slot, unready, MAX_SCORE,
};
use crate::server::{effects, meets, Effect, Pending, Server, Step};
use crate::session::{sessions, SessionView};

verus! {

/// The distance, in kilometres, up to which a guess earns the full score.
pub const BEST_DISTANCE: u64 = 250;

/// The distance, in kilometres, over which the score falls to 1/e of what it
/// was.
pub const DECAY: u64 = 1500;

/// The points that the first player with this id has, or 0.
pub fn points(players: &Vec<Player>, id: u32) -> (points: u64)
    ensures
        points == points_of(players@, id),
{
    let mut i: usize = 0;
    assert(players@.skip(0) =~= players@);
    while i < players.len()
        invariant
            i <= players@.len(),
            points_of(players@, id) == points_of(players@.skip(i as int), id),
        decreases players@.len() - i,
    {
        if players[i].id == id {
            return players[i].points;
        }
        assert(players@.skip(i as int).drop_first() =~= players@.skip(i + 1));
        i += 1;
    }
    0
}

/// Prepares a round: resets every session's ready flag, tells everyone that
/// the round is loading, and returns the round that waits for its photo.
///
/// The roster is the authenticated sessions of this moment. The round
/// continues `last` if there is one: its number is one more, and each player
/// keeps the points it had there.
pub fn new(server: &mut Server, last: Option<&RoundData>, by: u32) -> (step: Step)
    ensures
        meets(
            *final(server),
            step,
            prepared(
                old(server)@,
                match last {
                    Some(round) => Some(round@),
                    None => None,
                },
                by,
            ),
        ),
{
    let ghost before = server@.clients;
    let ghost old_view: Option<RoundDataView> = match last {
        Some(round) => Some(round@),
        None => None,
    };
    let mut i: usize = 0;
    while i < server.clients.len()
        invariant
            i <= server.clients@.len(),
            server.clients@.len() == before.len(),
            server.state == old(server).state,
            server.id_counter == old(server).id_counter,
            forall|k: int| 0 <= k < i ==> server@.clients[k] == unready(before)[k],
            forall|k: int| i <= k < before.len() ==> server@.clients[k] == before[k],
        decreases server.clients@.len() - i,
    {
        server.clients[i].ready = false;
        i += 1;
    }
    assert(server@.clients =~= unready(before));
    let lobby = server.lobby();
    let loading = server.broadcast(Packet::RoundLoading { lobby }, None);
    let number = match last {
        Some(round) => round.number.wrapping_add(1),
        None => 0,
    };
    let ghost all = server@.clients;
    let mut players: Vec<Player> = Vec::new();
    let mut i: usize = 0;
    while i < server.clients.len()
        invariant
            i <= server.clients@.len(),
            all == server@.clients,
            old_view == match last {
                Some(round) => Some(round@),
                None => None,
            },
            players@ == roster(all.take(i as int), old_view),
        decreases server.clients@.len() - i,
    {
        let ghost done = players@;
        proof {
            all.lemma_filter_map_take_succ(|client: SessionView| slot(client, old_view), i as int);
        }
        let client = &server.clients[i];
        if client.initialized() {
            let carried = match last {
                Some(round) => points(&round.players, client.id),
                None => 0,
            };
            players.push(Player { guess: None, points: carried, id: client.id });
            assert(players@ =~= done + seq![slot(all[i as int], old_view)->Some_0]);
        } else {
            assert(done + Seq::<Player>::empty() =~= done);
        }
        i += 1;
    }
    assert(all.take(i as int) =~= all);
    let round = RoundData { number, answer: Coordinate { latitude: 0, longitude: 0 }, players };
    let mut list: Vec<Effect> = Vec::new();
    list.push(loading);
    assert(effects(list@) =~= seq![loading@]);
    Step { effects: list, pending: Some(Pending { round, by }) }
}

/// Scores a round: player `i` is credited with `scores[i]`, capped at
/// [`MAX_SCORE`]; a player for whom no score was reported keeps its points.
pub fn results(round: &mut RoundData, scores: &[u64])
    ensures
        final(round)@ == (RoundDataView {
            number: old(round)@.number,
            answer: old(round)@.answer,
            players: scored(old(round)@.players, scores@),
        }),
{
    let ghost before = round.players@;
    let mut i: usize = 0;
    while i < round.players.len()
        invariant
            i <= round.players@.len(),
            round.players@.len() == before.len(),
            round.number == old(round).number,
            round.answer == old(round).answer,
            forall|k: int| 0 <= k < i ==> round.players@[k] == scored(before, scores@)[k],
            forall|k: int| i <= k < before.len() ==> round.players@[k] == before[k],
        decreases round.players@.len() - i,
    {
        if i < scores.len() {
            let score = if scores[i] > MAX_SCORE {
                MAX_SCORE
            } else {
                scores[i]
            };
            let player = round.players[i];
            let total = if player.points > u64::MAX - score {
                u64::MAX
            } else {
                player.points + score
            };
            round.players[i] = Player { guess: player.guess, points: total, id: player.id };
        }
        i += 1;
    }
    assert(round.players@ =~= scored(before, scores@));
}

impl RoundData {
    /// Where the player with this id stands in the roster.
    pub fn index(&self, id: u32) -> (found: Option<usize>)
        ensures
            player_position(self@.players, id) == match found {
                Some(index) => Some(index as int),
                None => None,
            },
            found is Some ==> found->Some_0 < self.players@.len(),
            found is Some ==> self.players@[found->Some_0 as int].id == id,
    {
        let mut found: Option<usize> = None;
        let mut i: usize = 0;
        while i < self.players.len()
            invariant
                i <= self.players@.len(),
                player_position(self.players@.take(i as int), id) == match found {
                    Some(index) => Some(index as int),
                    None => None,
                },
                found is Some ==> found->Some_0 < i && self.players@[found->Some_0 as int].id == id,
            decreases self.players@.len() - i,
        {
            assert(self.players@.take(i + 1).drop_last() =~= self.players@.take(i as int));
            if found.is_none() && self.players[i].id == id {
                found = Some(i);
            }
            i += 1;
        }
        assert(self.players@.take(i as int) =~= self.players@);
        found
    }

    /// Whether every player of the roster has guessed.
    pub fn complete(&self) -> (yes: bool)
        ensures
            yes == all_guessed(self@.players),
    {
        let mut i: usize = 0;
        while i < self.players.len()
            invariant
                i <= self.players@.len(),
                forall|k: int| 0 <= k < i ==> (#[trigger] self.players@[k]).guess is Some,
            decreases self.players@.len() - i,
        {
            if self.players[i].guess.is_none() {
                return false;
            }
            i += 1;
        }
        true
    }
}

} // verus!

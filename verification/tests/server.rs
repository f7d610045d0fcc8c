use bytes::Bytes;
use geoterm::deserializers::decode;
use geoterm::lobby::{Action, Client as Entry, Clients};
use geoterm::packet::{ClientOptions, Color, Coordinate, Error, Packet, Player, RoundData};
use geoterm::round;
use geoterm::server::{handler, Effect, Message, Pending, Server, State, Step};

fn options(user: &str) -> ClientOptions {
    ClientOptions { color: Color::Green, user: user.to_string() }
}

fn entry(id: u32, ready: bool, user: &str) -> Entry {
    Entry { id, ready, options: options(user) }
}

fn place(latitude: f32, longitude: f32) -> Coordinate {
    Coordinate { latitude: latitude.to_bits(), longitude: longitude.to_bits() }
}

fn quiet() -> Step {
    Step { effects: vec![], pending: None }
}

fn connect(server: &mut Server) -> u32 {
    let step = server.handle(Message::Connection);
    assert_eq!(step.pending, None);
    assert_eq!(step.effects.len(), 1);
    match step.effects[0] {
        Effect::Accept(id) => id,
        ref other => panic!("unexpected: {:?}", other),
    }
}

fn say(server: &mut Server, id: u32, packet: Packet) -> Step {
    server.handle(Message::Packet(id, Ok(packet)))
}

fn join(server: &mut Server, user: &str) -> u32 {
    let id = connect(server);
    say(server, id, Packet::Init { options: options(user) });
    id
}

fn ready(server: &mut Server, id: u32) -> Step {
    say(server, id, Packet::WaitingStatus { ready: true })
}

/// Two players in a round that has just started.
fn in_round() -> (Server, u32, u32) {
    let mut server = Server::new();
    let x = join(&mut server, "x");
    let y = join(&mut server, "y");
    ready(&mut server, x);
    let step = ready(&mut server, y);
    let pending = step.pending.expect("quorum");
    server.resume(pending, Some((Bytes::from(vec![1u8, 2, 3]), place(10.0, 20.0))));
    (server, x, y)
}

/// Two players looking at the results of round 0.
fn in_results() -> (Server, u32, u32) {
    let (mut server, x, y) = in_round();
    say(&mut server, x, Packet::Guess { coordinates: place(10.0, 20.0) });
    say(&mut server, y, Packet::Guess { coordinates: place(-30.0, 60.0) });
    server.handle(Message::GuessingComplete(vec![1000, 42]));
    (server, x, y)
}

#[test]
fn sessions_get_ids_in_order() {
    let mut server = Server::new();
    assert_eq!(server.state, State::Lobby);
    assert_eq!(connect(&mut server), 0);
    assert_eq!(connect(&mut server), 1);
    assert_eq!(connect(&mut server), 2);
    assert_eq!(server.clients.len(), 3);
    assert!(!server.clients[1].ready);
    assert!(!server.clients[1].initialized());
    assert_eq!(server.lobby(), Clients::empty());
}

#[test]
fn ids_are_not_handed_out_twice() {
    let mut server = Server::new();
    let a = connect(&mut server);
    let b = connect(&mut server);
    server.handle(Message::Packet(a, Err(Error::Close)));
    let c = connect(&mut server);
    assert_ne!(c, a);
    assert_ne!(c, b);
    assert_eq!(c, 2);
}

#[test]
fn connection_is_refused_when_ids_run_out() {
    let mut server = Server::new();
    server.id_counter = u32::MAX;
    let step = server.handle(Message::Connection);
    assert_eq!(step, Step { effects: vec![Effect::Refuse], pending: None });
    assert_eq!(server.clients.len(), 0);
}

#[test]
fn handshake_is_confirmed_and_announced() {
    let mut server = Server::new();
    let a = join(&mut server, "ada");
    let b = connect(&mut server);
    let quiet_one = connect(&mut server);
    let step = say(&mut server, b, Packet::Init { options: options("bob") });
    let lobby = Clients::from_vec(vec![entry(a, false, "ada"), entry(b, false, "bob")]);
    assert_eq!(
        step,
        Step {
            effects: vec![
                Effect::Write {
                    to: vec![b],
                    packet: Packet::Confirmed { id: b, options: options("bob"), lobby: lobby.clone() },
                },
                Effect::Write {
                    to: vec![a],
                    packet: Packet::LobbyEvent { action: Action::Join, user: b, lobby },
                },
            ],
            pending: None,
        }
    );
    assert!(server.clients[1].initialized());
    assert!(!server.clients[2].initialized());
    assert_eq!(server.recipients(None), vec![a, b]);
    assert_eq!(server.recipients(Some(a)), vec![b]);
    assert_eq!(server.recipients(Some(quiet_one)), vec![a, b]);
    assert_eq!(server.count(), 2);
}

#[test]
fn one_player_never_starts_a_round() {
    let mut server = Server::new();
    let a = join(&mut server, "ada");
    let idle = connect(&mut server);
    for vote in [true, false, true, true] {
        let step = say(&mut server, a, Packet::WaitingStatus { ready: vote });
        assert_eq!(step.pending, None);
        assert!(!server.ready());
        assert_eq!(server.state, State::Lobby);
    }
    // a session that has not shaken hands does not count, ready or not
    let step = say(&mut server, idle, Packet::WaitingStatus { ready: true });
    assert_eq!(step.pending, None);
    assert!(!server.ready());
}

#[test]
fn two_players_start_a_round_when_both_are_ready() {
    let mut server = Server::new();
    let a = join(&mut server, "ada");
    let b = join(&mut server, "bob");
    assert!(!server.ready());
    assert_eq!(ready(&mut server, a).pending, None);
    assert!(!server.ready());
    // a takes the vote back, b votes: still not both at once
    assert_eq!(say(&mut server, a, Packet::WaitingStatus { ready: false }).pending, None);
    assert_eq!(ready(&mut server, b).pending, None);
    assert!(!server.ready());
    let step = ready(&mut server, a);
    assert!(step.pending.is_some());
}

#[test]
fn three_players_need_all_three() {
    let mut server = Server::new();
    let a = join(&mut server, "ada");
    let b = join(&mut server, "bob");
    let c = join(&mut server, "cy");
    assert_eq!(ready(&mut server, a).pending, None);
    assert_eq!(ready(&mut server, b).pending, None);
    let step = ready(&mut server, c);
    let pending = step.pending.expect("quorum");
    assert_eq!(pending.by, c);
    assert_eq!(pending.round.players.len(), 3);
}

#[test]
fn both_ready_loads_and_starts_round_zero() {
    let mut server = Server::new();
    let a = join(&mut server, "ada");
    let b = join(&mut server, "bob");
    ready(&mut server, a);
    let step = ready(&mut server, b);
    let unready = Clients::from_vec(vec![entry(a, false, "ada"), entry(b, false, "bob")]);
    assert_eq!(
        step.effects,
        vec![
            Effect::Write {
                to: vec![a],
                packet: Packet::LobbyEvent {
                    action: Action::Ready,
                    user: b,
                    lobby: Clients::from_vec(vec![entry(a, true, "ada"), entry(b, true, "bob")]),
                },
            },
            Effect::Write { to: vec![a, b], packet: Packet::RoundLoading { lobby: unready } },
        ]
    );
    let pending = step.pending.expect("quorum");
    assert_eq!(
        pending,
        Pending {
            round: RoundData {
                number: 0,
                answer: Coordinate::default(),
                players: vec![
                    Player { guess: None, points: 0, id: a },
                    Player { guess: None, points: 0, id: b },
                ],
            },
            by: b,
        }
    );
    assert!(server.clients.iter().all(|client| !client.ready));
    assert_eq!(server.state, State::Lobby);

    let image = Bytes::from(vec![5u8, 6, 7]);
    let step = server.resume(pending, Some((image.clone(), place(48.0, 2.0))));
    assert_eq!(
        step,
        Step {
            effects: vec![Effect::Write { to: vec![a, b], packet: Packet::Round { number: 0, image } }],
            pending: None,
        }
    );
    assert_eq!(
        server.state,
        State::Round(RoundData {
            number: 0,
            answer: place(48.0, 2.0),
            players: vec![
                Player { guess: None, points: 0, id: a },
                Player { guess: None, points: 0, id: b },
            ],
        })
    );
}

#[test]
fn failed_fetch_returns_to_the_lobby() {
    let mut server = Server::new();
    let a = join(&mut server, "ada");
    let b = join(&mut server, "bob");
    ready(&mut server, a);
    let pending = ready(&mut server, b).pending.expect("quorum");
    let step = server.resume(pending, None);
    assert_eq!(
        step,
        Step {
            effects: vec![Effect::Write {
                to: vec![a, b],
                packet: Packet::LobbyEvent {
                    action: Action::Return,
                    user: b,
                    lobby: Clients::from_vec(vec![entry(a, false, "ada"), entry(b, false, "bob")]),
                },
            }],
            pending: None,
        }
    );
    assert_eq!(server.state, State::Lobby);
}

#[test]
fn guesses_are_acknowledged_before_the_result() {
    let (mut server, x, y) = in_round();
    let first = say(&mut server, x, Packet::Guess { coordinates: place(10.0, 20.0) });
    assert_eq!(
        first,
        Step {
            effects: vec![Effect::Write { to: vec![y], packet: Packet::Guessed { player: x } }],
            pending: None,
        }
    );
    assert!(matches!(server.state, State::Round(_)));
    let second = say(&mut server, y, Packet::Guess { coordinates: place(-30.0, 60.0) });
    assert_eq!(
        second,
        Step {
            effects: vec![
                Effect::Write { to: vec![x], packet: Packet::Guessed { player: y } },
                Effect::Tally,
            ],
            pending: None,
        }
    );
    assert!(matches!(server.state, State::Round(_)));

    let step = server.handle(Message::GuessingComplete(vec![1000, 42]));
    let scored = RoundData {
        number: 0,
        answer: place(10.0, 20.0),
        players: vec![
            Player { guess: Some(place(10.0, 20.0)), points: 1000, id: x },
            Player { guess: Some(place(-30.0, 60.0)), points: 42, id: y },
        ],
    };
    assert_eq!(
        step,
        Step {
            effects: vec![Effect::Write {
                to: vec![x, y],
                packet: Packet::Result { round: scored.clone() },
            }],
            pending: None,
        }
    );
    assert_eq!(server.state, State::Results(scored));
}

#[test]
fn results_wait_for_every_guess() {
    let (mut server, x, _y) = in_round();
    say(&mut server, x, Packet::Guess { coordinates: place(1.0, 1.0) });
    let before = server.state.clone();
    let step = server.handle(Message::GuessingComplete(vec![1000, 1000]));
    assert_eq!(step, quiet());
    assert_eq!(server.state, before);
    assert!(matches!(server.state, State::Round(_)));
}

#[test]
fn scores_outside_a_round_are_ignored() {
    let mut server = Server::new();
    join(&mut server, "ada");
    assert_eq!(server.handle(Message::GuessingComplete(vec![1])), quiet());
    assert_eq!(server.state, State::Lobby);
    let (mut server, _x, _y) = in_results();
    let before = server.state.clone();
    assert_eq!(server.handle(Message::GuessingComplete(vec![7, 7])), quiet());
    assert_eq!(server.state, before);
}

#[test]
fn second_guess_is_ignored() {
    let (mut server, x, y) = in_round();
    say(&mut server, x, Packet::Guess { coordinates: place(1.0, 2.0) });
    let again = say(&mut server, x, Packet::Guess { coordinates: place(50.0, 60.0) });
    assert_eq!(again, quiet());
    match &server.state {
        State::Round(round) => {
            assert_eq!(round.players[0].guess, Some(place(1.0, 2.0)));
            assert_eq!(round.players[1].guess, None);
            assert_eq!(round.index(y), Some(1));
            assert!(!round.complete());
        }
        other => panic!("unexpected: {:?}", other),
    }
    assert_eq!(server.clients.len(), 2);
}

#[test]
fn late_guess_after_the_last_one_asks_for_no_second_tally() {
    let (mut server, x, y) = in_round();
    say(&mut server, x, Packet::Guess { coordinates: place(1.0, 2.0) });
    say(&mut server, y, Packet::Guess { coordinates: place(3.0, 4.0) });
    assert_eq!(say(&mut server, y, Packet::Guess { coordinates: place(5.0, 6.0) }), quiet());
}

#[test]
fn guess_without_a_slot_is_ignored() {
    let mut server = Server::new();
    let x = join(&mut server, "x");
    let y = join(&mut server, "y");
    let late = connect(&mut server);
    ready(&mut server, x);
    let pending = ready(&mut server, y).pending.expect("quorum");
    server.resume(pending, Some((Bytes::new(), place(0.0, 0.0))));
    let step = say(&mut server, late, Packet::Guess { coordinates: place(1.0, 1.0) });
    assert_eq!(step, quiet());
    match &server.state {
        State::Round(round) => {
            assert_eq!(round.players.len(), 2);
            assert_eq!(round.index(late), None);
        }
        other => panic!("unexpected: {:?}", other),
    }
    assert_eq!(server.clients.len(), 3);
}

#[test]
fn guess_in_the_lobby_costs_the_connection() {
    let mut server = Server::new();
    let a = join(&mut server, "ada");
    let b = join(&mut server, "bob");
    let step = say(&mut server, b, Packet::Guess { coordinates: place(1.0, 1.0) });
    assert_eq!(
        step,
        Step {
            effects: vec![
                Effect::Close(b),
                Effect::Write {
                    to: vec![a],
                    packet: Packet::LobbyEvent {
                        action: Action::Leave,
                        user: b,
                        lobby: Clients::from_vec(vec![entry(a, false, "ada")]),
                    },
                },
            ],
            pending: None,
        }
    );
    assert_eq!(server.clients.len(), 1);
    assert_eq!(server.clients[0].id, a);
}

#[test]
fn unknown_tag_drops_only_its_sender() {
    let mut server = Server::new();
    let a = join(&mut server, "ada");
    let b = join(&mut server, "bob");
    let c = join(&mut server, "cy");
    let read = decode(&[255]);
    assert_eq!(read, Err(Error::Unknown(255)));
    let step = server.handle(Message::Packet(b, read));
    assert_eq!(step.effects[0], Effect::Close(b));
    assert_eq!(step.effects.len(), 2);
    assert_eq!(step.pending, None);
    let ids: Vec<u32> = server.clients.iter().map(|client| client.id).collect();
    assert_eq!(ids, vec![a, c]);
    assert!(server.clients.iter().all(|client| client.initialized()));
    assert_eq!(server.state, State::Lobby);
    // the others go on as before
    ready(&mut server, a);
    assert!(ready(&mut server, c).pending.is_some());
}

#[test]
fn unknown_tag_mid_round_keeps_the_round_going() {
    let mut server = Server::new();
    let a = join(&mut server, "ada");
    let b = join(&mut server, "bob");
    let c = join(&mut server, "cy");
    ready(&mut server, a);
    ready(&mut server, b);
    let pending = ready(&mut server, c).pending.expect("quorum");
    server.resume(pending, Some((Bytes::new(), place(0.0, 0.0))));
    let step = server.handle(Message::Packet(b, decode(&[255])));
    assert_eq!(step, Step { effects: vec![Effect::Close(b)], pending: None });
    match &server.state {
        State::Round(round) => assert_eq!(round.players.len(), 3),
        other => panic!("unexpected: {:?}", other),
    }
    assert_eq!(server.recipients(None), vec![a, c]);
}

#[test]
fn leaving_player_may_complete_the_quorum() {
    let mut server = Server::new();
    let a = join(&mut server, "ada");
    let b = join(&mut server, "bob");
    let c = join(&mut server, "cy");
    ready(&mut server, a);
    ready(&mut server, b);
    let step = server.kick(c);
    assert_eq!(step.effects.len(), 3);
    assert_eq!(step.effects[0], Effect::Close(c));
    let pending = step.pending.expect("quorum");
    assert_eq!(pending.round.number, 0);
    assert_eq!(pending.round.players.len(), 2);
}

#[test]
fn soft_quit_mid_round_returns_the_other_to_the_lobby() {
    let (mut server, x, y) = in_round();
    let step = say(&mut server, x, Packet::SoftQuit);
    assert_eq!(
        step,
        Step {
            effects: vec![Effect::Write {
                to: vec![y],
                packet: Packet::LobbyEvent {
                    action: Action::Return,
                    user: x,
                    lobby: Clients::from_vec(vec![entry(y, false, "y")]),
                },
            }],
            pending: None,
        }
    );
    assert_eq!(server.state, State::Lobby);
    // the socket stays, the authentication goes
    assert_eq!(server.clients.len(), 2);
    assert!(!server.clients[0].initialized());
    assert!(server.clients[1].initialized());
}

#[test]
fn soft_quit_with_enough_players_left_keeps_the_round() {
    let mut server = Server::new();
    let a = join(&mut server, "ada");
    let b = join(&mut server, "bob");
    let c = join(&mut server, "cy");
    ready(&mut server, a);
    ready(&mut server, b);
    let pending = ready(&mut server, c).pending.expect("quorum");
    server.resume(pending, Some((Bytes::new(), place(0.0, 0.0))));
    assert_eq!(say(&mut server, a, Packet::SoftQuit), quiet());
    assert!(matches!(server.state, State::Round(_)));
    assert_eq!(server.count(), 2);
}

#[test]
fn soft_quit_in_the_lobby_may_complete_the_quorum() {
    let mut server = Server::new();
    let a = join(&mut server, "ada");
    let b = join(&mut server, "bob");
    let c = join(&mut server, "cy");
    ready(&mut server, a);
    ready(&mut server, b);
    let step = server.soft_kick(c);
    assert_eq!(step.effects.len(), 1);
    let pending = step.pending.expect("quorum");
    assert_eq!(
        pending.round.players,
        vec![Player { guess: None, points: 0, id: a }, Player { guess: None, points: 0, id: b }]
    );
    assert_eq!(pending.by, c);
}

#[test]
fn soft_quit_of_the_last_but_one_tells_the_lobby() {
    let mut server = Server::new();
    let a = join(&mut server, "ada");
    let b = join(&mut server, "bob");
    let step = say(&mut server, a, Packet::SoftQuit);
    assert_eq!(
        step.effects,
        vec![Effect::Write {
            to: vec![b],
            packet: Packet::LobbyEvent {
                action: Action::Return,
                user: a,
                lobby: Clients::from_vec(vec![entry(b, false, "bob")]),
            },
        }]
    );
    assert_eq!(server.state, State::Lobby);
}

#[test]
fn disconnect_mid_round_returns_to_the_lobby() {
    let (mut server, x, y) = in_round();
    let step = server.handle(Message::Packet(y, Err(Error::Close)));
    assert_eq!(
        step.effects,
        vec![
            Effect::Close(y),
            Effect::Write {
                to: vec![x],
                packet: Packet::LobbyEvent {
                    action: Action::Return,
                    user: y,
                    lobby: Clients::from_vec(vec![entry(x, false, "x")]),
                },
            },
        ]
    );
    assert_eq!(server.state, State::Lobby);
    assert_eq!(server.clients.len(), 1);
}

#[test]
fn request_returns_everyone_to_the_lobby() {
    let (mut server, x, y) = in_round();
    let step = say(&mut server, y, Packet::RequestGameEnd);
    assert_eq!(
        step.effects,
        vec![Effect::Write {
            to: vec![x, y],
            packet: Packet::LobbyEvent {
                action: Action::Return,
                user: y,
                lobby: Clients::from_vec(vec![entry(x, false, "x"), entry(y, false, "y")]),
            },
        }]
    );
    assert_eq!(server.state, State::Lobby);
    let (mut server, x, _y) = in_results();
    say(&mut server, x, Packet::RequestGameEnd);
    assert_eq!(server.state, State::Lobby);
}

#[test]
fn rounds_count_up_and_points_carry_over() {
    let (mut server, x, y) = in_results();
    assert_eq!(ready(&mut server, x), quiet());
    let step = ready(&mut server, y);
    assert_eq!(step.effects.len(), 1);
    let pending = step.pending.expect("quorum");
    assert_eq!(pending.round.number, 1);
    assert_eq!(
        pending.round.players,
        vec![Player { guess: None, points: 1000, id: x }, Player { guess: None, points: 42, id: y }]
    );
    server.resume(pending, Some((Bytes::new(), place(0.0, 0.0))));
    say(&mut server, x, Packet::Guess { coordinates: place(0.0, 0.0) });
    say(&mut server, y, Packet::Guess { coordinates: place(0.0, 0.0) });
    server.handle(Message::GuessingComplete(vec![500, 958]));
    match &server.state {
        State::Results(round) => {
            assert_eq!(round.number, 1);
            assert_eq!(round.players[0].points, 1500);
            assert_eq!(round.players[1].points, 1000);
        }
        other => panic!("unexpected: {:?}", other),
    }
    ready(&mut server, y);
    let pending = ready(&mut server, x).pending.expect("quorum");
    assert_eq!(pending.round.number, 2);
}

#[test]
fn fresh_lobby_session_starts_at_zero_again() {
    let (mut server, x, y) = in_results();
    say(&mut server, x, Packet::RequestGameEnd);
    assert_eq!(server.state, State::Lobby);
    ready(&mut server, x);
    let pending = ready(&mut server, y).pending.expect("quorum");
    assert_eq!(pending.round.number, 0);
    assert_eq!(
        pending.round.players,
        vec![Player { guess: None, points: 0, id: x }, Player { guess: None, points: 0, id: y }]
    );
}

#[test]
fn unready_vote_in_results_returns_to_the_lobby() {
    let (mut server, x, _y) = in_results();
    let step = say(&mut server, x, Packet::WaitingStatus { ready: false });
    assert_eq!(step.effects.len(), 1);
    assert_eq!(server.state, State::Lobby);
}

#[test]
fn connection_during_a_round_is_refused() {
    let (mut server, _x, _y) = in_round();
    let step = server.handle(Message::Connection);
    assert_eq!(step, Step { effects: vec![Effect::Refuse], pending: None });
    assert_eq!(server.clients.len(), 2);
    let (mut server, _x, _y) = in_results();
    assert_eq!(server.client(), Step { effects: vec![Effect::Refuse], pending: None });
}

#[test]
fn message_of_a_removed_session_is_ignored() {
    let mut server = Server::new();
    let a = join(&mut server, "ada");
    let b = join(&mut server, "bob");
    server.kick(b);
    assert_eq!(say(&mut server, b, Packet::WaitingStatus { ready: true }), quiet());
    assert_eq!(server.handle(Message::Packet(b, Err(Error::Io))), quiet());
    assert_eq!(server.kick(77), quiet());
    assert_eq!(server.soft_kick(77), quiet());
    assert_eq!(server.index(a), Some(0));
    assert_eq!(server.index(b), None);
    assert_eq!(handler(&mut server, 77, Ok(Packet::SoftQuit)), quiet());
}

#[test]
fn quit_stops_the_loop() {
    let mut server = Server::new();
    assert_eq!(server.handle(Message::Quit), Step { effects: vec![Effect::Stop], pending: None });
    let (mut server, _x, _y) = in_round();
    assert_eq!(server.handle(Message::Quit), Step { effects: vec![Effect::Stop], pending: None });
    assert!(matches!(server.state, State::Round(_)));
}

#[test]
fn scores_are_capped_and_added() {
    let mut round = RoundData {
        number: 0,
        answer: place(0.0, 0.0),
        players: vec![
            Player { guess: Some(place(0.0, 0.0)), points: 10, id: 0 },
            Player { guess: Some(place(0.0, 0.0)), points: 20, id: 1 },
            Player { guess: Some(place(0.0, 0.0)), points: u64::MAX - 5, id: 2 },
            Player { guess: Some(place(0.0, 0.0)), points: 7, id: 3 },
        ],
    };
    round::results(&mut round, &[1000, 5000, 999]);
    assert_eq!(round.players[0].points, 1010);
    assert_eq!(round.players[1].points, 1020);
    assert_eq!(round.players[2].points, u64::MAX);
    assert_eq!(round.players[3].points, 7);
    round::results(&mut round, &[0, 0, 0, 0]);
    assert_eq!(round.players[0].points, 1010);
    assert_eq!(round::points(&round.players, 1), 1020);
    assert_eq!(round::points(&round.players, 9), 0);
}

#[test]
fn newcomer_in_the_next_round_starts_with_no_points() {
    let mut server = Server::new();
    let a = join(&mut server, "ada");
    let b = join(&mut server, "bob");
    let last = RoundData {
        number: 4,
        answer: place(0.0, 0.0),
        players: vec![Player { guess: Some(place(0.0, 0.0)), points: 300, id: b }],
    };
    let step = round::new(&mut server, Some(&last), a);
    let pending = step.pending.expect("always");
    assert_eq!(pending.round.number, 5);
    assert_eq!(
        pending.round.players,
        vec![Player { guess: None, points: 0, id: a }, Player { guess: None, points: 300, id: b }]
    );
}

#[test]
fn round_number_wraps_at_the_end() {
    let mut server = Server::new();
    let last = RoundData { number: u32::MAX, answer: place(0.0, 0.0), players: vec![] };
    let step = round::new(&mut server, Some(&last), 0);
    assert_eq!(step.pending.expect("always").round.number, 0);
}

#[test]
fn verify_needs_two() {
    let mut server = Server::new();
    let a = join(&mut server, "ada");
    let step = server.verify(a);
    assert_eq!(step.effects.len(), 1);
    let b = join(&mut server, "bob");
    assert_eq!(server.verify(b), quiet());
    let event = server.broadcast_lobby(a, Action::Ready);
    assert_eq!(
        event,
        Effect::Write {
            to: vec![b],
            packet: Packet::LobbyEvent {
                action: Action::Ready,
                user: a,
                lobby: Clients::from_vec(vec![entry(a, false, "ada"), entry(b, false, "bob")]),
            },
        }
    );
    assert_eq!(
        server.broadcast(Packet::SoftQuit, Some(b)),
        Effect::Write { to: vec![a], packet: Packet::SoftQuit }
    );
    let step = server.return_to_lobby(b);
    assert_eq!(step.effects.len(), 1);
    assert_eq!(server.finish(&[1, 2]), quiet());
}

use bytes::Bytes;
use geoterm::image::{encode, Raster, HEIGHT, WIDTH};
use geoterm::lobby::{Action, Client as Entry, Clients};
use geoterm::logic::{
    key_message, Client, Command, Handler, Key, Loading, Lobby, Message, Response, Results, Round,
    State,
};
use geoterm::packet::{ClientOptions, Color, Coordinate, Packet, Player, RoundData};

fn me() -> Client {
    Client {
        id: 1,
        options: ClientOptions { color: Color::Blue, user: "bobby".to_string() },
        lobby: Clients::empty(),
    }
}

fn lobby_of(names: &[&str]) -> Clients {
    Clients::from_vec(
        names
            .iter()
            .enumerate()
            .map(|(id, name)| Entry {
                id: id as u32,
                ready: false,
                options: ClientOptions { color: Color::Red, user: name.to_string() },
            })
            .collect(),
    )
}

fn lobby_view() -> Lobby {
    Lobby { clients: Clients::empty(), username: "bobby".to_string(), ready: false, id: 1 }
}

fn round_view() -> Round {
    Round {
        image: Raster { width: 0, height: 0, pixels: vec![] },
        image_len: 0,
        number: 2,
        guessed: false,
        guessing: false,
        cursor: (0, 0),
    }
}

fn result() -> RoundData {
    RoundData {
        number: 2,
        answer: Coordinate::default(),
        players: vec![Player { guess: Some(Coordinate::default()), points: 5, id: 1 }],
    }
}

fn results_view() -> Results {
    Results { ready: false, id: 1, data: result(), lobby: lobby_of(&["a", "b"]) }
}

#[test]
fn keys_become_messages() {
    assert_eq!(key_message(Key::Char('r'), false), Message::Ready);
    assert_eq!(key_message(Key::Char('r'), true), Message::Ready);
    assert_eq!(key_message(Key::Char('c'), true), Message::Quit);
    assert_eq!(key_message(Key::Char('c'), false), Message::Key(Key::Char('c')));
    assert_eq!(key_message(Key::Up, false), Message::Key(Key::Up));
    assert_eq!(key_message(Key::Enter, true), Message::Key(Key::Enter));
}

#[test]
fn lobby_toggles_ready() {
    let mut view = lobby_view();
    let mut client = me();
    let reply = view.handle(Message::Ready, &mut client);
    assert_eq!(
        reply,
        (Response::Continue, Some(Command::Send(Packet::WaitingStatus { ready: true })))
    );
    assert!(view.ready);
    let reply = view.handle(Message::Ready, &mut client);
    assert_eq!(
        reply,
        (Response::Continue, Some(Command::Send(Packet::WaitingStatus { ready: false })))
    );
    assert!(!view.ready);
}

#[test]
fn lobby_follows_lobby_events() {
    let mut view = lobby_view();
    let mut client = me();
    let reply = view.handle(
        Message::Packet(Packet::LobbyEvent {
            action: Action::Join,
            user: 0,
            lobby: lobby_of(&["a", "b"]),
        }),
        &mut client,
    );
    assert_eq!(reply, (Response::Continue, None));
    assert_eq!(view.clients, lobby_of(&["a", "b"]));
    assert_eq!(client, me());
}

#[test]
fn lobby_goes_to_loading() {
    let mut view = lobby_view();
    let mut client = me();
    let reply = view
        .handle(Message::Packet(Packet::RoundLoading { lobby: lobby_of(&["a", "b"]) }), &mut client);
    assert_eq!(reply, (Response::ChangeState(State::Loading), None));
    assert_eq!(client.lobby, lobby_of(&["a", "b"]));
    assert_eq!(view, lobby_view());
}

#[test]
fn lobby_leaves_the_rest_unhandled() {
    let mut view = lobby_view();
    let mut client = me();
    assert_eq!(view.handle(Message::Key(Key::Up), &mut client), (Response::Unhandled, None));
    assert_eq!(
        view.handle(Message::Packet(Packet::Guessed { player: 0 }), &mut client),
        (Response::Unhandled, None)
    );
    assert_eq!(view, lobby_view());
}

#[test]
fn loading_decodes_the_photo() {
    let image = Raster { width: WIDTH, height: HEIGHT, pixels: vec![255u8; 3 * 320 * 240] };
    let bytes = encode(&image);
    let len = bytes.len();
    let mut client = me();
    let (response, command) =
        Loading.handle(Message::Packet(Packet::Round { number: 4, image: bytes }), &mut client);
    assert_eq!(command, None);
    match response {
        Response::ChangeState(State::Round(round)) => {
            assert_eq!(round.number, 4);
            assert_eq!(round.image, image);
            assert_eq!(round.image_len, len);
            assert_eq!(round.cursor, (0, 0));
            assert!(!round.guessed);
            assert!(!round.guessing);
        }
        other => panic!("unexpected: {:?}", other),
    }
}

#[test]
fn loading_gives_up_on_a_broken_photo() {
    let mut client = me();
    let reply = Loading
        .handle(Message::Packet(Packet::Round { number: 0, image: Bytes::new() }), &mut client);
    assert_eq!(reply, (Response::Quit, None));
    assert_eq!(Loading.handle(Message::Ready, &mut client), (Response::Unhandled, None));
}

#[test]
fn round_moves_the_cursor_by_three_degrees() {
    let mut view = round_view();
    let mut client = me();
    for key in [Key::Up, Key::Char('i')] {
        assert_eq!(view.handle(Message::Key(key), &mut client), (Response::Continue, None));
    }
    assert_eq!(view.cursor, (0, 6));
    view.handle(Message::Key(Key::Down), &mut client);
    view.handle(Message::Key(Key::Char('k')), &mut client);
    view.handle(Message::Key(Key::Char('k')), &mut client);
    assert_eq!(view.cursor, (0, -3));
    view.handle(Message::Key(Key::Right), &mut client);
    view.handle(Message::Key(Key::Char('l')), &mut client);
    assert_eq!(view.cursor, (6, -3));
    view.handle(Message::Key(Key::Left), &mut client);
    view.handle(Message::Key(Key::Char('j')), &mut client);
    view.handle(Message::Key(Key::Char('j')), &mut client);
    assert_eq!(view.cursor, (-3, -3));
}

#[test]
fn cursor_stops_at_the_end_of_its_range() {
    let mut view = round_view();
    let mut client = me();
    view.cursor = (i32::MAX - 1, i32::MIN + 2);
    view.handle(Message::Key(Key::Right), &mut client);
    view.handle(Message::Key(Key::Down), &mut client);
    assert_eq!(view.cursor, (i32::MAX, i32::MIN));
}

#[test]
fn round_submits_the_cursor() {
    let mut view = round_view();
    let mut client = me();
    view.cursor = (12, -45);
    let reply = view.handle(Message::Key(Key::Char('s')), &mut client);
    assert_eq!(reply, (Response::Continue, Some(Command::Guess { longitude: 12, latitude: -45 })));
    assert!(view.guessed);
    let reply = view.handle(Message::Key(Key::Char(' ')), &mut client);
    assert_eq!(reply, (Response::Continue, Some(Command::Guess { longitude: 12, latitude: -45 })));
}

#[test]
fn round_switches_between_photo_and_map() {
    let mut view = round_view();
    let mut client = me();
    assert_eq!(view.handle(Message::Key(Key::Char('g')), &mut client), (Response::Continue, None));
    assert!(view.guessing);
    assert_eq!(view.handle(Message::Key(Key::Enter), &mut client), (Response::Continue, None));
    assert!(!view.guessing);
    assert_eq!(view.handle(Message::Key(Key::Char('x')), &mut client), (Response::Unhandled, None));
    assert_eq!(view.handle(Message::Key(Key::Other), &mut client), (Response::Unhandled, None));
    assert_eq!(view, round_view());
}

#[test]
fn round_goes_to_results() {
    let mut view = round_view();
    let mut client = me();
    client.lobby = lobby_of(&["a", "b"]);
    assert_eq!(
        view.handle(Message::Packet(Packet::Guessed { player: 0 }), &mut client),
        (Response::Continue, None)
    );
    let reply = view.handle(Message::Packet(Packet::Result { round: result() }), &mut client);
    assert_eq!(reply, (Response::ChangeState(State::Results(results_view())), None));
}

#[test]
fn round_returns_to_the_lobby() {
    let mut view = round_view();
    let mut client = me();
    let reply = view.handle(
        Message::Packet(Packet::LobbyEvent {
            action: Action::Return,
            user: 0,
            lobby: lobby_of(&["a"]),
        }),
        &mut client,
    );
    assert_eq!(
        reply,
        (
            Response::ChangeState(State::Lobby(Lobby {
                clients: lobby_of(&["a"]),
                username: "bobby".to_string(),
                ready: false,
                id: 1,
            })),
            None
        )
    );
    let reply = view.handle(
        Message::Packet(Packet::LobbyEvent { action: Action::Leave, user: 0, lobby: lobby_of(&["a"]) }),
        &mut client,
    );
    assert_eq!(reply, (Response::Unhandled, None));
}

#[test]
fn results_vote_and_ask_for_the_lobby() {
    let mut view = results_view();
    let mut client = me();
    assert_eq!(
        view.handle(Message::Ready, &mut client),
        (Response::Continue, Some(Command::Send(Packet::WaitingStatus { ready: true })))
    );
    assert!(view.ready);
    assert_eq!(
        view.handle(Message::Key(Key::Char('l')), &mut client),
        (Response::Continue, Some(Command::Send(Packet::RequestGameEnd)))
    );
    assert_eq!(view.handle(Message::Key(Key::Char('x')), &mut client), (Response::Unhandled, None));
}

#[test]
fn results_follow_the_server() {
    let mut view = results_view();
    let mut client = me();
    let reply = view.handle(
        Message::Packet(Packet::LobbyEvent { action: Action::Leave, user: 0, lobby: lobby_of(&["b"]) }),
        &mut client,
    );
    assert_eq!(reply, (Response::Continue, None));
    assert_eq!(view.lobby, lobby_of(&["b"]));
    let reply = view.handle(
        Message::Packet(Packet::LobbyEvent {
            action: Action::Return,
            user: 0,
            lobby: lobby_of(&["b"]),
        }),
        &mut client,
    );
    assert!(matches!(reply, (Response::ChangeState(State::Lobby(_)), None)));
    let reply =
        view.handle(Message::Packet(Packet::RoundLoading { lobby: lobby_of(&["c"]) }), &mut client);
    assert_eq!(reply, (Response::ChangeState(State::Loading), None));
    assert_eq!(client.lobby, lobby_of(&["c"]));
}

#[test]
fn program_walks_through_a_game() {
    let mut client = me();
    let mut state = State::Lobby(lobby_view());
    assert_eq!(
        state.advance(Message::Ready, &mut client),
        (true, Some(Command::Send(Packet::WaitingStatus { ready: true })))
    );
    assert_eq!(state.advance(Message::Resize, &mut client), (true, None));
    assert_eq!(
        state.advance(
            Message::Packet(Packet::RoundLoading { lobby: lobby_of(&["a", "b"]) }),
            &mut client
        ),
        (true, None)
    );
    assert_eq!(state, State::Loading);
    let image = Raster { width: WIDTH, height: HEIGHT, pixels: vec![0u8; 3 * 320 * 240] };
    assert_eq!(
        state.advance(Message::Packet(Packet::Round { number: 0, image: encode(&image) }), &mut client),
        (true, None)
    );
    assert!(matches!(state, State::Round(_)));
    assert_eq!(state.advance(Message::Key(Key::Right), &mut client), (true, None));
    assert_eq!(
        state.advance(Message::Key(Key::Char('s')), &mut client),
        (true, Some(Command::Guess { longitude: 3, latitude: 0 }))
    );
    assert_eq!(
        state.advance(Message::Packet(Packet::Result { round: result() }), &mut client),
        (true, None)
    );
    assert!(matches!(state, State::Results(_)));
    assert_eq!(
        state.advance(
            Message::Packet(Packet::LobbyEvent {
                action: Action::Return,
                user: 0,
                lobby: lobby_of(&["a", "b"]),
            }),
            &mut client
        ),
        (true, None)
    );
    assert!(matches!(state, State::Lobby(_)));
    assert_eq!(state.advance(Message::Quit, &mut client), (false, None));
}

#[test]
fn program_ends_on_a_broken_photo() {
    let mut client = me();
    let mut state = State::Loading;
    assert_eq!(
        state.advance(Message::Packet(Packet::Round { number: 0, image: Bytes::new() }), &mut client),
        (false, None)
    );
    assert_eq!(state, State::Loading);
}

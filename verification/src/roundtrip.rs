//! Decoding undoes encoding.
//!
//! For every value that the wire format can hold without loss, reading its
//! encoding gives the value back, whatever bytes follow it. The conditions
//! under which nothing is lost are spelled out by the `*_fits` predicates.

use vstd::prelude::*;
use vstd::utf8::*;

use crate::deserializers::{
    decode_spec, parse_client, parse_client_list, parse_clients, parse_coordinate, parse_guess,
    parse_body, parse_confirmed, parse_lobby_event, parse_name, parse_options, parse_packet,
    parse_round_start, parse_player, parse_player_list, parse_round,
    trim_zeros,
};
use crate::lobby::{Action, ClientView};
use crate::packet::{ClientOptionsView, Coordinate, Error, PacketView, Player, RoundDataView};
use crate::serializers::{
    body_wire, client_wire, clients_parts, clients_wire, coordinate_wire, count_be, guess_wire, name_slot,
    options_wire, packet_wire, player_wire, players_parts, round_wire,
};
use crate::wire::{bool_byte, concat, lemma_u32_be, parse_u32, parse_u8, u32_be};

verus! {

/// A display name survives its slot: its UTF-8 form has at most 16 bytes and
/// does not end in a zero byte.
pub open spec fn name_fits(user: Seq<char>) -> bool {
    let bytes = encode_utf8(user);
    bytes.len() <= 16 && (bytes.len() == 0 || bytes.last() != 0)
}

/// Every entry of the lobby has a name that fits, and the count fits in
/// four bytes.
pub open spec fn clients_fit(clients: Seq<ClientView>) -> bool {
    &&& clients.len() <= u32::MAX
    &&& forall|i: int| 0 <= i < clients.len() ==> name_fits(#[trigger] clients[i].options.user)
}

/// Every player's points fit in four bytes, and so does the count.
pub open spec fn players_fit(players: Seq<Player>) -> bool {
    &&& players.len() <= u32::MAX
    &&& forall|i: int| 0 <= i < players.len() ==> (#[trigger] players[i]).points <= u32::MAX
}

/// The message can be encoded without loss.
pub open spec fn packet_fits(packet: PacketView) -> bool {
    match packet {
        PacketView::Init { options } => name_fits(options.user),
        PacketView::Confirmed { id, options, lobby } => name_fits(options.user) && clients_fit(
            lobby,
        ),
        PacketView::LobbyEvent { action, user, lobby } => clients_fit(lobby),
        PacketView::WaitingStatus { ready } => true,
        PacketView::RoundLoading { lobby } => clients_fit(lobby),
        PacketView::Round { number, image } => image.len() <= u32::MAX,
        PacketView::Guess { coordinates } => true,
        PacketView::Guessed { player } => true,
        PacketView::Result { round } => players_fit(round.players),
        PacketView::RequestGameEnd => true,
        PacketView::SoftQuit => true,
    }
}

/// `count` zero bytes.
pub open spec fn zeros(count: nat) -> Seq<u8> {
    Seq::new(count, |i: int| 0u8)
}

proof fn lemma_zeros_valid(count: nat)
    ensures
        valid_utf8(zeros(count)),
    decreases count,
{
    if count > 0 {
        lemma_zeros_valid((count - 1) as nat);
        assert(pop_first_scalar(zeros(count)) =~= zeros((count - 1) as nat));
    }
}

proof fn lemma_trim_zeros(bytes: Seq<u8>, count: nat)
    requires
        bytes.len() == 0 || bytes.last() != 0,
    ensures
        trim_zeros(bytes + zeros(count)) == bytes,
    decreases count,
{
    if count == 0 {
        assert(bytes + zeros(0) =~= bytes);
    } else {
        lemma_trim_zeros(bytes, (count - 1) as nat);
        assert((bytes + zeros(count)).drop_last() =~= bytes + zeros((count - 1) as nat));
    }
}

/// A byte reads back.
pub proof fn lemma_parse_u8(value: u8, rest: Seq<u8>)
    ensures
        parse_u8(seq![value] + rest) == Ok::<(u8, Seq<u8>), Error>((value, rest)),
{
    assert((seq![value] + rest).skip(1) =~= rest);
}

/// A big-endian `u32` reads back.
pub proof fn lemma_parse_u32(value: u32, rest: Seq<u8>)
    ensures
        parse_u32(u32_be(value) + rest) == Ok::<(u32, Seq<u8>), Error>((value, rest)),
{
    lemma_u32_be(value);
    assert((u32_be(value) + rest).skip(4) =~= rest);
}

/// A name that fits reads back.
pub proof fn lemma_parse_name(user: Seq<char>, rest: Seq<u8>)
    requires
        name_fits(user),
    ensures
        parse_name(name_slot(user) + rest) == Ok::<(Seq<char>, Seq<u8>), Error>((user, rest)),
{
    let bytes = encode_utf8(user);
    let slot = name_slot(user);
    let pad = (16 - bytes.len()) as nat;
    assert(slot =~= bytes + zeros(pad));
    assert((slot + rest).take(16) =~= slot);
    assert((slot + rest).skip(16) =~= rest);
    encode_utf8_valid_utf8(user);
    lemma_zeros_valid(pad);
    valid_utf8_concat(bytes, zeros(pad));
    lemma_trim_zeros(bytes, pad);
    encode_utf8_decode_utf8(user);
}

/// Options whose name fits read back.
pub proof fn lemma_parse_options(options: ClientOptionsView, rest: Seq<u8>)
    requires
        name_fits(options.user),
    ensures
        parse_options(options_wire(options) + rest) == Ok::<(ClientOptionsView, Seq<u8>), Error>(
            (options, rest),
        ),
{
    let tail = name_slot(options.user) + rest;
    assert(options_wire(options) + rest =~= seq![options.color.ordinal()] + tail);
    lemma_parse_u8(options.color.ordinal(), tail);
    lemma_parse_name(options.user, rest);
}

/// A lobby entry whose name fits reads back.
pub proof fn lemma_parse_client(client: ClientView, rest: Seq<u8>)
    requires
        name_fits(client.options.user),
    ensures
        parse_client(client_wire(client) + rest) == Ok::<(ClientView, Seq<u8>), Error>(
            (client, rest),
        ),
{
    let tail2 = options_wire(client.options) + rest;
    let tail1 = seq![bool_byte(client.ready)] + tail2;
    assert(client_wire(client) + rest =~= u32_be(client.id) + tail1);
    lemma_parse_u32(client.id, tail1);
    lemma_parse_u8(bool_byte(client.ready), tail2);
    lemma_parse_options(client.options, rest);
}

/// The entries of a lobby read back one after the other.
pub proof fn lemma_parse_client_list(clients: Seq<ClientView>, rest: Seq<u8>)
    requires
        forall|i: int| 0 <= i < clients.len() ==> name_fits(#[trigger] clients[i].options.user),
    ensures
        parse_client_list(concat(clients_parts(clients)) + rest, clients.len()) == Ok::<
            (Seq<ClientView>, Seq<u8>),
            Error,
        >((clients, rest)),
    decreases clients.len(),
{
    if clients.len() == 0 {
        assert(concat(clients_parts(clients)) + rest =~= rest);
        assert(clients =~= Seq::<ClientView>::empty());
    } else {
        let others = clients.drop_first();
        assert(clients_parts(clients).drop_first() =~= clients_parts(others));
        let tail = concat(clients_parts(others)) + rest;
        assert(concat(clients_parts(clients)) + rest =~= client_wire(clients[0]) + tail);
        assert(name_fits(clients[0].options.user));
        lemma_parse_client(clients[0], tail);
        assert forall|i: int| 0 <= i < others.len() implies name_fits(
            #[trigger] others[i].options.user,
        ) by {
            assert(others[i] == clients[i + 1]);
        }
        lemma_parse_client_list(others, rest);
        assert(seq![clients[0]] + others =~= clients);
    }
}

/// A lobby that fits reads back.
pub proof fn lemma_parse_clients(clients: Seq<ClientView>, rest: Seq<u8>)
    requires
        clients_fit(clients),
    ensures
        parse_clients(clients_wire(clients) + rest) == Ok::<(Seq<ClientView>, Seq<u8>), Error>(
            (clients, rest),
        ),
{
    let tail = concat(clients_parts(clients)) + rest;
    assert(clients_wire(clients) + rest =~= u32_be(clients.len() as u32) + tail);
    lemma_parse_u32(clients.len() as u32, tail);
    lemma_parse_client_list(clients, rest);
}

/// A coordinate reads back.
pub proof fn lemma_parse_coordinate(coordinate: Coordinate, rest: Seq<u8>)
    ensures
        parse_coordinate(coordinate_wire(coordinate) + rest) == Ok::<
            (Coordinate, Seq<u8>),
            Error,
        >((coordinate, rest)),
{
    let tail = u32_be(coordinate.longitude) + rest;
    assert(coordinate_wire(coordinate) + rest =~= u32_be(coordinate.latitude) + tail);
    lemma_parse_u32(coordinate.latitude, tail);
    lemma_parse_u32(coordinate.longitude, rest);
}

/// A guess reads back, present or missing.
pub proof fn lemma_parse_guess(guess: Option<Coordinate>, rest: Seq<u8>)
    ensures
        parse_guess(guess_wire(guess) + rest) == Ok::<(Option<Coordinate>, Seq<u8>), Error>(
            (guess, rest),
        ),
{
    match guess {
        Some(coordinate) => {
            let tail = coordinate_wire(coordinate) + rest;
            assert(guess_wire(guess) + rest =~= seq![1u8] + tail);
            lemma_parse_u8(1u8, tail);
            lemma_parse_coordinate(coordinate, rest);
        },
        None => {
            let tail = seq![0u8, 0u8] + rest;
            assert(guess_wire(guess) + rest =~= seq![0u8] + tail);
            lemma_parse_u8(0u8, tail);
            assert(tail.skip(2) =~= rest);
        },
    }
}

/// A player whose points fit reads back.
pub proof fn lemma_parse_player(player: Player, rest: Seq<u8>)
    requires
        player.points <= u32::MAX,
    ensures
        parse_player(player_wire(player) + rest) == Ok::<(Player, Seq<u8>), Error>((player, rest)),
{
    let points = (player.points % 0x1_0000_0000) as u32;
    let tail2 = guess_wire(player.guess) + rest;
    let tail1 = u32_be(points) + tail2;
    assert(player_wire(player) + rest =~= u32_be(player.id) + tail1);
    lemma_parse_u32(player.id, tail1);
    lemma_parse_u32(points, tail2);
    lemma_parse_guess(player.guess, rest);
}

/// The players of a roster read back one after the other.
pub proof fn lemma_parse_player_list(players: Seq<Player>, rest: Seq<u8>)
    requires
        forall|i: int| 0 <= i < players.len() ==> (#[trigger] players[i]).points <= u32::MAX,
    ensures
        parse_player_list(concat(players_parts(players)) + rest, players.len()) == Ok::<
            (Seq<Player>, Seq<u8>),
            Error,
        >((players, rest)),
    decreases players.len(),
{
    if players.len() == 0 {
        assert(concat(players_parts(players)) + rest =~= rest);
        assert(players =~= Seq::<Player>::empty());
    } else {
        let others = players.drop_first();
        assert(players_parts(players).drop_first() =~= players_parts(others));
        let tail = concat(players_parts(others)) + rest;
        assert(concat(players_parts(players)) + rest =~= player_wire(players[0]) + tail);
        assert(players[0].points <= u32::MAX);
        lemma_parse_player(players[0], tail);
        assert forall|i: int| 0 <= i < others.len() implies (#[trigger] others[i]).points
            <= u32::MAX by {
            assert(others[i] == players[i + 1]);
        }
        lemma_parse_player_list(others, rest);
        assert(seq![players[0]] + others =~= players);
    }
}

/// A round record that fits reads back.
pub proof fn lemma_parse_round(round: RoundDataView, rest: Seq<u8>)
    requires
        players_fit(round.players),
    ensures
        parse_round(round_wire(round) + rest) == Ok::<(RoundDataView, Seq<u8>), Error>(
            (round, rest),
        ),
{
    let tail3 = concat(players_parts(round.players)) + rest;
    let tail2 = u32_be(round.players.len() as u32) + tail3;
    let tail1 = coordinate_wire(round.answer) + tail2;
    assert(round_wire(round) + rest =~= u32_be(round.number) + tail1);
    lemma_parse_u32(round.number, tail1);
    lemma_parse_coordinate(round.answer, tail2);
    lemma_parse_u32(round.players.len() as u32, tail3);
    lemma_parse_player_list(round.players, rest);
}

/// The body of a handshake confirmation reads back.
pub proof fn lemma_parse_confirmed(
    id: u32,
    options: ClientOptionsView,
    lobby: Seq<ClientView>,
    rest: Seq<u8>,
)
    requires
        name_fits(options.user),
        clients_fit(lobby),
    ensures
        parse_confirmed(u32_be(id) + options_wire(options) + clients_wire(lobby) + rest) == Ok::<
            (PacketView, Seq<u8>),
            Error,
        >((PacketView::Confirmed { id, options, lobby }, rest)),
{
    let tail2 = clients_wire(lobby) + rest;
    let tail1 = options_wire(options) + tail2;
    assert(u32_be(id) + options_wire(options) + clients_wire(lobby) + rest =~= u32_be(id) + tail1);
    lemma_parse_u32(id, tail1);
    lemma_parse_options(options, tail2);
    lemma_parse_clients(lobby, rest);
}

/// The body of a lobby event reads back.
pub proof fn lemma_parse_lobby_event(
    action: Action,
    user: u32,
    lobby: Seq<ClientView>,
    rest: Seq<u8>,
)
    requires
        clients_fit(lobby),
    ensures
        parse_lobby_event(seq![action.ordinal()] + u32_be(user) + clients_wire(lobby) + rest)
            == Ok::<(PacketView, Seq<u8>), Error>(
            (PacketView::LobbyEvent { action, user, lobby }, rest),
        ),
{
    let tail2 = clients_wire(lobby) + rest;
    let tail1 = u32_be(user) + tail2;
    assert(seq![action.ordinal()] + u32_be(user) + clients_wire(lobby) + rest =~= seq![
        action.ordinal(),
    ] + tail1);
    lemma_parse_u8(action.ordinal(), tail1);
    lemma_parse_u32(user, tail2);
    lemma_parse_clients(lobby, rest);
}

/// The body of a round start reads back.
pub proof fn lemma_parse_round_start(number: u32, image: Seq<u8>, rest: Seq<u8>)
    requires
        image.len() <= u32::MAX,
    ensures
        parse_round_start(u32_be(number) + count_be(image.len()) + image + rest) == Ok::<
            (PacketView, Seq<u8>),
            Error,
        >((PacketView::Round { number, image }, rest)),
{
    let tail2 = image + rest;
    let tail1 = u32_be(image.len() as u32) + tail2;
    assert(u32_be(number) + count_be(image.len()) + image + rest =~= u32_be(number) + tail1);
    lemma_parse_u32(number, tail1);
    lemma_parse_u32(image.len() as u32, tail2);
    assert(tail2.take(image.len() as int) =~= image);
    assert(tail2.skip(image.len() as int) =~= rest);
}

/// The body of a message that fits reads back under the message's tag.
pub proof fn lemma_parse_body(packet: PacketView, rest: Seq<u8>)
    requires
        packet_fits(packet),
    ensures
        parse_body(packet.tag(), body_wire(packet) + rest) == Ok::<(PacketView, Seq<u8>), Error>(
            (packet, rest),
        ),
{
    match packet {
        PacketView::Init { options } => {
            lemma_parse_options(options, rest);
        },
        PacketView::Confirmed { id, options, lobby } => {
            lemma_parse_confirmed(id, options, lobby, rest);
        },
        PacketView::LobbyEvent { action, user, lobby } => {
            lemma_parse_lobby_event(action, user, lobby, rest);
        },
        PacketView::WaitingStatus { ready } => {
            lemma_parse_u8(bool_byte(ready), rest);
        },
        PacketView::RoundLoading { lobby } => {
            lemma_parse_clients(lobby, rest);
        },
        PacketView::Round { number, image } => {
            lemma_parse_round_start(number, image, rest);
        },
        PacketView::Guess { coordinates } => {
            lemma_parse_coordinate(coordinates, rest);
        },
        PacketView::Guessed { player } => {
            lemma_parse_u32(player, rest);
        },
        PacketView::Result { round } => {
            lemma_parse_round(round, rest);
        },
        PacketView::RequestGameEnd => {
            assert(body_wire(packet) + rest =~= rest);
        },
        PacketView::SoftQuit => {
            assert(body_wire(packet) + rest =~= rest);
        },
    }
}

/// A message that fits reads back, whatever follows it.
pub proof fn lemma_parse_packet(packet: PacketView, rest: Seq<u8>)
    requires
        packet_fits(packet),
    ensures
        parse_packet(packet_wire(packet) + rest) == Ok::<(PacketView, Seq<u8>), Error>(
            (packet, rest),
        ),
{
    let body = body_wire(packet) + rest;
    assert(packet_wire(packet) + rest =~= seq![packet.tag()] + body);
    lemma_parse_u8(packet.tag(), body);
    lemma_parse_body(packet, rest);
}

/// Decoding the encoding of a message gives the message back, for every
/// message whose names, counts and points fit the wire format.
pub proof fn lemma_decode_encode(packet: PacketView)
    requires
        packet_fits(packet),
    ensures
        decode_spec(packet_wire(packet)) == Ok::<PacketView, Error>(packet),
{
    lemma_parse_packet(packet, Seq::empty());
    assert(packet_wire(packet) + Seq::<u8>::empty() =~= packet_wire(packet));
}

/// Encoded options always take 17 bytes.
pub proof fn lemma_options_width(options: ClientOptionsView)
    ensures
        options_wire(options).len() == 17,
{
}

/// An encoded guess takes 9 bytes when it is present and 3 when it is
/// missing.
pub proof fn lemma_guess_width(guess: Option<Coordinate>)
    ensures
        guess_wire(guess).len() == (if guess is Some {
            9int
        } else {
            3int
        }),
{
    if let Some(coordinate) = guess {
        lemma_u32_be(coordinate.latitude);
        lemma_u32_be(coordinate.longitude);
    }
}

} // verus!

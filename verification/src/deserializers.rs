//! Decoding: from bytes to the message they stand for, or to the reason why
//! they stand for none.
//!
//! Every `parse_*` function says what reading a value from the front of a
//! sequence of bytes gives: the value and the bytes that are left, or the
//! error. [`Deserialize::deserialize`] computes that on a slice with a
//! cursor, and [`decode`] reads one whole message from one frame.

use vstd::prelude::*;
use vstd::slice::{slice_subrange, slice_to_vec};
use vstd::string::*;
use vstd::utf8::*;

use crate::buffer::bytes_from_vec;
use crate::lobby::{Action, Client, ClientView, Clients};
use crate::packet::{
    ClientOptions, ClientOptionsView, Color, Coordinate, Error, Packet, PacketView, Player,
    RoundData, RoundDataView,
};
use crate::wire::{get_u32, get_u8, parse_bytes, parse_u32, parse_u8};

verus! {

/// `bytes` without the zero bytes at its end.
pub open spec fn trim_zeros(bytes: Seq<u8>) -> Seq<u8>
    decreases bytes.len(),
{
    if bytes.len() > 0 && bytes.last() == 0 {
        trim_zeros(bytes.drop_last())
    } else {
        bytes
    }
}

/// A display name: the 16-byte slot must be valid UTF-8 as a whole; the name
/// is what the slot holds before its trailing zero bytes.
pub open spec fn parse_name(input: Seq<u8>) -> Result<(Seq<char>, Seq<u8>), Error> {
    if input.len() < 16 {
        Err(Error::Truncated)
    } else if !valid_utf8(input.take(16)) {
        Err(Error::Utf8)
    } else {
        Ok((decode_utf8(trim_zeros(input.take(16))), input.skip(16)))
    }
}

/// Options: a colour byte that must name a colour, then the name slot.
pub open spec fn parse_options(input: Seq<u8>) -> Result<(ClientOptionsView, Seq<u8>), Error> {
    match parse_u8(input) {
        Err(error) => Err(error),
        Ok((byte, rest)) => match Color::from_ordinal(byte) {
            None => Err(Error::Color(byte)),
            Some(color) => match parse_name(rest) {
                Err(error) => Err(error),
                Ok((user, rest)) => Ok((ClientOptionsView { color, user }, rest)),
            },
        },
    }
}

/// A lobby entry: id, ready flag (any byte but zero is true), options.
pub open spec fn parse_client(input: Seq<u8>) -> Result<(ClientView, Seq<u8>), Error> {
    match parse_u32(input) {
        Err(error) => Err(error),
        Ok((id, rest)) => match parse_u8(rest) {
            Err(error) => Err(error),
            Ok((ready, rest)) => match parse_options(rest) {
                Err(error) => Err(error),
                Ok((options, rest)) => Ok((ClientView { id, ready: ready != 0, options }, rest)),
            },
        },
    }
}

/// `count` lobby entries, one after the other.
pub open spec fn parse_client_list(input: Seq<u8>, count: nat) -> Result<
    (Seq<ClientView>, Seq<u8>),
    Error,
>
    decreases count,
{
    if count == 0 {
        Ok((Seq::empty(), input))
    } else {
        match parse_client(input) {
            Err(error) => Err(error),
            Ok((first, rest)) => match parse_client_list(rest, (count - 1) as nat) {
                Err(error) => Err(error),
                Ok((others, rest)) => Ok((seq![first] + others, rest)),
            },
        }
    }
}

/// A lobby: a count, then that many entries.
pub open spec fn parse_clients(input: Seq<u8>) -> Result<(Seq<ClientView>, Seq<u8>), Error> {
    match parse_u32(input) {
        Err(error) => Err(error),
        Ok((count, rest)) => parse_client_list(rest, count as nat),
    }
}

/// A coordinate: latitude, then longitude.
pub open spec fn parse_coordinate(input: Seq<u8>) -> Result<(Coordinate, Seq<u8>), Error> {
    match parse_u32(input) {
        Err(error) => Err(error),
        Ok((latitude, rest)) => match parse_u32(rest) {
            Err(error) => Err(error),
            Ok((longitude, rest)) => Ok((Coordinate { latitude, longitude }, rest)),
        },
    }
}

/// A guess that may be missing: after a presence byte other than zero comes
/// the coordinate, after a zero come two bytes of padding.
pub open spec fn parse_guess(input: Seq<u8>) -> Result<(Option<Coordinate>, Seq<u8>), Error> {
    match parse_u8(input) {
        Err(error) => Err(error),
        Ok((present, rest)) => if present != 0 {
            match parse_coordinate(rest) {
                Err(error) => Err(error),
                Ok((coordinate, rest)) => Ok((Some(coordinate), rest)),
            }
        } else {
            match parse_bytes(rest, 2) {
                Err(error) => Err(error),
                Ok((_, rest)) => Ok((None, rest)),
            }
        },
    }
}

/// A player: id, points, guess.
pub open spec fn parse_player(input: Seq<u8>) -> Result<(Player, Seq<u8>), Error> {
    match parse_u32(input) {
        Err(error) => Err(error),
        Ok((id, rest)) => match parse_u32(rest) {
            Err(error) => Err(error),
            Ok((points, rest)) => match parse_guess(rest) {
                Err(error) => Err(error),
                Ok((guess, rest)) => Ok((Player { guess, points: points as u64, id }, rest)),
            },
        },
    }
}

/// `count` players, one after the other.
pub open spec fn parse_player_list(input: Seq<u8>, count: nat) -> Result<
    (Seq<Player>, Seq<u8>),
    Error,
>
    decreases count,
{
    if count == 0 {
        Ok((Seq::empty(), input))
    } else {
        match parse_player(input) {
            Err(error) => Err(error),
            Ok((first, rest)) => match parse_player_list(rest, (count - 1) as nat) {
                Err(error) => Err(error),
                Ok((others, rest)) => Ok((seq![first] + others, rest)),
            },
        }
    }
}

/// A round record: number, answer, a count, then that many players.
pub open spec fn parse_round(input: Seq<u8>) -> Result<(RoundDataView, Seq<u8>), Error> {
    match parse_u32(input) {
        Err(error) => Err(error),
        Ok((number, rest)) => match parse_coordinate(rest) {
            Err(error) => Err(error),
            Ok((answer, rest)) => match parse_u32(rest) {
                Err(error) => Err(error),
                Ok((count, rest)) => match parse_player_list(rest, count as nat) {
                    Err(error) => Err(error),
                    Ok((players, rest)) => Ok((RoundDataView { number, answer, players }, rest)),
                },
            },
        },
    }
}

/// The body of a handshake request: the options.
pub open spec fn parse_init(input: Seq<u8>) -> Result<(PacketView, Seq<u8>), Error> {
    match parse_options(input) {
        Err(error) => Err(error),
        Ok((options, rest)) => Ok((PacketView::Init { options }, rest)),
    }
}

/// The body of a handshake confirmation: id, options, lobby.
pub open spec fn parse_confirmed(input: Seq<u8>) -> Result<(PacketView, Seq<u8>), Error> {
    match parse_u32(input) {
        Err(error) => Err(error),
        Ok((id, rest)) => match parse_options(rest) {
            Err(error) => Err(error),
            Ok((options, rest)) => match parse_clients(rest) {
                Err(error) => Err(error),
                Ok((lobby, rest)) => Ok((PacketView::Confirmed { id, options, lobby }, rest)),
            },
        },
    }
}

/// The body of a lobby event: an action byte that must name an action, the
/// acting id, the lobby.
pub open spec fn parse_lobby_event(input: Seq<u8>) -> Result<(PacketView, Seq<u8>), Error> {
    match parse_u8(input) {
        Err(error) => Err(error),
        Ok((byte, rest)) => match Action::from_ordinal(byte) {
            None => Err(Error::Action(byte)),
            Some(action) => match parse_u32(rest) {
                Err(error) => Err(error),
                Ok((user, rest)) => match parse_clients(rest) {
                    Err(error) => Err(error),
                    Ok((lobby, rest)) => Ok((PacketView::LobbyEvent { action, user, lobby }, rest)),
                },
            },
        },
    }
}

/// The body of a ready toggle: one byte, true unless zero.
pub open spec fn parse_waiting_status(input: Seq<u8>) -> Result<(PacketView, Seq<u8>), Error> {
    match parse_u8(input) {
        Err(error) => Err(error),
        Ok((ready, rest)) => Ok((PacketView::WaitingStatus { ready: ready != 0 }, rest)),
    }
}

/// The body of a round-loading notice: the lobby.
pub open spec fn parse_round_loading(input: Seq<u8>) -> Result<(PacketView, Seq<u8>), Error> {
    match parse_clients(input) {
        Err(error) => Err(error),
        Ok((lobby, rest)) => Ok((PacketView::RoundLoading { lobby }, rest)),
    }
}

/// The body of a round start: the round number, the image's length, and
/// that many bytes of image.
pub open spec fn parse_round_start(input: Seq<u8>) -> Result<(PacketView, Seq<u8>), Error> {
    match parse_u32(input) {
        Err(error) => Err(error),
        Ok((number, rest)) => match parse_u32(rest) {
            Err(error) => Err(error),
            Ok((len, rest)) => match parse_bytes(rest, len as nat) {
                Err(error) => Err(error),
                Ok((image, rest)) => Ok((PacketView::Round { number, image }, rest)),
            },
        },
    }
}

/// The body of a guess: the coordinate.
pub open spec fn parse_guess_body(input: Seq<u8>) -> Result<(PacketView, Seq<u8>), Error> {
    match parse_coordinate(input) {
        Err(error) => Err(error),
        Ok((coordinates, rest)) => Ok((PacketView::Guess { coordinates }, rest)),
    }
}

/// The body of a guess acknowledgement: the id of the player who guessed.
pub open spec fn parse_guessed(input: Seq<u8>) -> Result<(PacketView, Seq<u8>), Error> {
    match parse_u32(input) {
        Err(error) => Err(error),
        Ok((player, rest)) => Ok((PacketView::Guessed { player }, rest)),
    }
}

/// The body of a round result: the round record.
pub open spec fn parse_result(input: Seq<u8>) -> Result<(PacketView, Seq<u8>), Error> {
    match parse_round(input) {
        Err(error) => Err(error),
        Ok((round, rest)) => Ok((PacketView::Result { round }, rest)),
    }
}

/// The body of a message whose tag is `tag`.
pub open spec fn parse_body(tag: u8, input: Seq<u8>) -> Result<(PacketView, Seq<u8>), Error> {
    if tag == 1 {
        parse_init(input)
    } else if tag == 2 {
        parse_confirmed(input)
    } else if tag == 3 {
        parse_lobby_event(input)
    } else if tag == 4 {
        parse_waiting_status(input)
    } else if tag == 5 {
        parse_round_loading(input)
    } else if tag == 6 {
        parse_round_start(input)
    } else if tag == 7 {
        parse_guess_body(input)
    } else if tag == 8 {
        parse_guessed(input)
    } else if tag == 9 {
        parse_result(input)
    } else if tag == 10 {
        Ok((PacketView::RequestGameEnd, input))
    } else if tag == 11 {
        Ok((PacketView::SoftQuit, input))
    } else {
        Err(Error::Unknown(tag))
    }
}

/// A message: the tag byte, then the body that the tag announces.
pub open spec fn parse_packet(input: Seq<u8>) -> Result<(PacketView, Seq<u8>), Error> {
    match parse_u8(input) {
        Err(error) => Err(error),
        Ok((tag, rest)) => parse_body(tag, rest),
    }
}

/// What a frame's payload stands for: one message and nothing after it.
pub open spec fn decode_spec(frame: Seq<u8>) -> Result<PacketView, Error> {
    match parse_packet(frame) {
        Err(error) => Err(error),
        Ok((packet, rest)) => if rest.len() == 0 {
            Ok(packet)
        } else {
            Err(Error::Trailing)
        },
    }
}

/// `read` is what `expect` asks for: the same error, or a value with the
/// expected view together with the cursor behind it.
pub open spec fn agrees<T: View>(
    read: Result<(T, usize), Error>,
    expect: Result<(T::V, Seq<u8>), Error>,
    bytes: Seq<u8>,
) -> bool {
    match expect {
        Ok((value, rest)) => {
            &&& read is Ok
            &&& read->Ok_0.0@ == value
            &&& read->Ok_0.1 <= bytes.len()
            &&& bytes.skip(read->Ok_0.1 as int) == rest
        },
        Err(error) => read == Err::<(T, usize), Error>(error),
    }
}

/// A value that can be read from the wire.
pub trait Deserialize: Sized + View {
    /// What reading the value from the front of `input` gives.
    spec fn parse(input: Seq<u8>) -> Result<(Self::V, Seq<u8>), Error>;

    /// Reads the value at `pos` and returns it with the cursor behind it.
    fn deserialize(bytes: &[u8], pos: usize) -> (read: Result<(Self, usize), Error>)
        requires
            pos <= bytes.len(),
        ensures
            agrees(read, Self::parse(bytes@.skip(pos as int)), bytes@),
    ;
}

/// `core::str::from_utf8`: succeeds exactly on well-formed UTF-8, and the
/// string it returns has the given bytes as its UTF-8 form.
#[verifier::external_body]
fn str_from_utf8(bytes: &[u8]) -> (text: Option<&str>)
    ensures
        text is Some <==> valid_utf8(bytes@),
        text is Some ==> encode_utf8(text->Some_0@) == bytes@,
{
    core::str::from_utf8(bytes).ok()
}

/// The length of `slot` without its trailing zero bytes.
fn trimmed_len(slot: &[u8]) -> (end: usize)
    ensures
        end <= slot@.len(),
        trim_zeros(slot@) == slot@.take(end as int),
        end < slot@.len() ==> slot@[end as int] == 0,
{
    let mut end: usize = slot.len();
    assert(slot@.take(end as int) =~= slot@);
    while end > 0 && slot[end - 1] == 0
        invariant
            end <= slot@.len(),
            trim_zeros(slot@) == trim_zeros(slot@.take(end as int)),
            end < slot@.len() ==> slot@[end as int] == 0,
        decreases end,
    {
        assert(slot@.take(end as int).drop_last() =~= slot@.take(end - 1));
        end -= 1;
    }
    end
}

/// Reads a display name from its 16-byte slot at `pos`.
fn read_name(bytes: &[u8], pos: usize) -> (read: Result<(String, usize), Error>)
    requires
        pos <= bytes.len(),
    ensures
        agrees(read, parse_name(bytes@.skip(pos as int)), bytes@),
{
    if bytes.len() - pos < 16 {
        return Err(Error::Truncated);
    }
    let slot = slice_subrange(bytes, pos, pos + 16);
    assert(slot@ =~= bytes@.skip(pos as int).take(16));
    assert(bytes@.skip(pos as int).skip(16) =~= bytes@.skip(pos + 16));
    let text = match str_from_utf8(slot) {
        None => {
            return Err(Error::Utf8);
        },
        Some(text) => text,
    };
    let end = trimmed_len(slot);
    proof {
        if end == 16 {
            is_char_boundary_start_end_of_seq(slot@);
        } else {
            is_char_boundary_iff_not_is_continuation_byte(slot@, end as int);
        }
        valid_utf8_split(slot@, end as int);
    }
    let (name, _) = text.split_at(end);
    let user = name.to_owned();
    proof {
        assert(slot@.subrange(0, end as int) =~= slot@.take(end as int));
        encode_utf8_decode_utf8(user@);
    }
    Ok((user, pos + 16))
}

impl Deserialize for ClientOptions {
    open spec fn parse(input: Seq<u8>) -> Result<(ClientOptionsView, Seq<u8>), Error> {
        parse_options(input)
    }

    fn deserialize(bytes: &[u8], pos: usize) -> (read: Result<(Self, usize), Error>) {
        let (byte, pos) = get_u8(bytes, pos)?;
        let color = match Color::from_u8(byte) {
            None => {
                return Err(Error::Color(byte));
            },
            Some(color) => color,
        };
        let (user, pos) = read_name(bytes, pos)?;
        Ok((ClientOptions { color, user }, pos))
    }
}

impl Deserialize for Client {
    open spec fn parse(input: Seq<u8>) -> Result<(ClientView, Seq<u8>), Error> {
        parse_client(input)
    }

    fn deserialize(bytes: &[u8], pos: usize) -> (read: Result<(Self, usize), Error>) {
        let (id, pos) = get_u32(bytes, pos)?;
        let (ready, pos) = get_u8(bytes, pos)?;
        let (options, pos) = ClientOptions::deserialize(bytes, pos)?;
        Ok((Client { id, ready: ready != 0, options }, pos))
    }
}

/// An error passes through, a list gets `head` in front of it.
pub open spec fn after<T>(head: Seq<T>, tail: Result<(Seq<T>, Seq<u8>), Error>) -> Result<
    (Seq<T>, Seq<u8>),
    Error,
> {
    match tail {
        Ok((items, rest)) => Ok((head + items, rest)),
        Err(error) => Err(error),
    }
}

impl Deserialize for Clients {
    open spec fn parse(input: Seq<u8>) -> Result<(Seq<ClientView>, Seq<u8>), Error> {
        parse_clients(input)
    }

    fn deserialize(bytes: &[u8], pos: usize) -> (read: Result<(Self, usize), Error>) {
        let (count, start) = get_u32(bytes, pos)?;
        let (clients, pos) = read_client_list(bytes, start, count)?;
        Ok((Clients::from_vec(clients), pos))
    }
}

/// Reads `count` lobby entries, one after the other.
fn read_client_list(bytes: &[u8], start: usize, count: u32) -> (read: Result<
    (Vec<Client>, usize),
    Error,
>)
    requires
        start <= bytes.len(),
    ensures
        match parse_client_list(bytes@.skip(start as int), count as nat) {
            Ok((items, rest)) => {
                &&& read is Ok
                &&& Seq::new(read->Ok_0.0@.len(), |k: int| read->Ok_0.0@[k]@) == items
                &&& read->Ok_0.1 <= bytes.len()
                &&& bytes@.skip(read->Ok_0.1 as int) == rest
            },
            Err(error) => read == Err::<(Vec<Client>, usize), Error>(error),
        },
{
    let ghost whole = parse_client_list(bytes@.skip(start as int), count as nat);
    let mut clients: Vec<Client> = Vec::new();
    let mut pos = start;
    let mut i: u32 = 0;
    assert(Seq::new(clients@.len(), |k: int| clients@[k]@) =~= Seq::<ClientView>::empty());
    assert(whole == after(Seq::<ClientView>::empty(), whole)) by {
        if let Ok((items, rest)) = whole {
            assert(Seq::<ClientView>::empty() + items =~= items);
        }
    }
    while i < count
        invariant
            i <= count,
            pos <= bytes.len(),
            whole == parse_client_list(bytes@.skip(start as int), count as nat),
            whole == after(
                Seq::new(clients@.len(), |k: int| clients@[k]@),
                parse_client_list(bytes@.skip(pos as int), (count - i) as nat),
            ),
        decreases count - i,
    {
        let ghost done = Seq::new(clients@.len(), |k: int| clients@[k]@);
        let (client, next) = Client::deserialize(bytes, pos)?;
        proof {
            let tail = parse_client_list(bytes@.skip(next as int), (count - i - 1) as nat);
            if let Ok((items, rest)) = tail {
                assert(done + (seq![client@] + items) =~= done.push(client@) + items);
            }
        }
        clients.push(client);
        assert(Seq::new(clients@.len(), |k: int| clients@[k]@) =~= done.push(client@));
        pos = next;
        i += 1;
    }
    proof {
        let done = Seq::new(clients@.len(), |k: int| clients@[k]@);
        assert(done + Seq::<ClientView>::empty() =~= done);
    }
    Ok((clients, pos))
}

impl Deserialize for Coordinate {
    open spec fn parse(input: Seq<u8>) -> Result<(Coordinate, Seq<u8>), Error> {
        parse_coordinate(input)
    }

    fn deserialize(bytes: &[u8], pos: usize) -> (read: Result<(Self, usize), Error>) {
        let (latitude, pos) = get_u32(bytes, pos)?;
        let (longitude, pos) = get_u32(bytes, pos)?;
        Ok((Coordinate { latitude, longitude }, pos))
    }
}

/// Reads a guess that may be missing.
fn read_guess(bytes: &[u8], pos: usize) -> (read: Result<(Option<Coordinate>, usize), Error>)
    requires
        pos <= bytes.len(),
    ensures
        match parse_guess(bytes@.skip(pos as int)) {
            Ok((guess, rest)) => read is Ok && read->Ok_0.0 == guess && read->Ok_0.1 <= bytes.len()
                && bytes@.skip(read->Ok_0.1 as int) == rest,
            Err(error) => read == Err::<(Option<Coordinate>, usize), Error>(error),
        },
{
    let (present, pos) = get_u8(bytes, pos)?;
    if present != 0 {
        let (coordinate, pos) = Coordinate::deserialize(bytes, pos)?;
        Ok((Some(coordinate), pos))
    } else {
        if bytes.len() - pos < 2 {
            return Err(Error::Truncated);
        }
        assert(bytes@.skip(pos as int).skip(2) =~= bytes@.skip(pos + 2));
        Ok((None, pos + 2))
    }
}

impl Deserialize for Player {
    open spec fn parse(input: Seq<u8>) -> Result<(Player, Seq<u8>), Error> {
        parse_player(input)
    }

    fn deserialize(bytes: &[u8], pos: usize) -> (read: Result<(Self, usize), Error>) {
        let (id, pos) = get_u32(bytes, pos)?;
        let (points, pos) = get_u32(bytes, pos)?;
        let (guess, pos) = read_guess(bytes, pos)?;
        Ok((Player { guess, points: points as u64, id }, pos))
    }
}

impl Deserialize for RoundData {
    open spec fn parse(input: Seq<u8>) -> Result<(RoundDataView, Seq<u8>), Error> {
        parse_round(input)
    }

    fn deserialize(bytes: &[u8], pos: usize) -> (read: Result<(Self, usize), Error>) {
        let (number, pos) = get_u32(bytes, pos)?;
        let (answer, pos) = Coordinate::deserialize(bytes, pos)?;
        let (count, start) = get_u32(bytes, pos)?;
        let (players, pos) = read_player_list(bytes, start, count)?;
        Ok((RoundData { number, answer, players }, pos))
    }
}

/// Reads `count` players, one after the other.
fn read_player_list(bytes: &[u8], start: usize, count: u32) -> (read: Result<
    (Vec<Player>, usize),
    Error,
>)
    requires
        start <= bytes.len(),
    ensures
        match parse_player_list(bytes@.skip(start as int), count as nat) {
            Ok((items, rest)) => {
                &&& read is Ok
                &&& read->Ok_0.0@ == items
                &&& read->Ok_0.1 <= bytes.len()
                &&& bytes@.skip(read->Ok_0.1 as int) == rest
            },
            Err(error) => read == Err::<(Vec<Player>, usize), Error>(error),
        },
{
    let ghost whole = parse_player_list(bytes@.skip(start as int), count as nat);
    let mut players: Vec<Player> = Vec::new();
    let mut pos = start;
    let mut i: u32 = 0;
    assert(whole == after(Seq::<Player>::empty(), whole)) by {
        if let Ok((items, rest)) = whole {
            assert(Seq::<Player>::empty() + items =~= items);
        }
    }
    while i < count
        invariant
            i <= count,
            pos <= bytes.len(),
            whole == parse_player_list(bytes@.skip(start as int), count as nat),
            whole == after(
                players@,
                parse_player_list(bytes@.skip(pos as int), (count - i) as nat),
            ),
        decreases count - i,
    {
        let ghost done = players@;
        let (player, next) = Player::deserialize(bytes, pos)?;
        proof {
            let tail = parse_player_list(bytes@.skip(next as int), (count - i - 1) as nat);
            if let Ok((items, rest)) = tail {
                assert(done + (seq![player] + items) =~= done.push(player) + items);
            }
        }
        players.push(player);
        pos = next;
        i += 1;
    }
    assert(players@ + Seq::<Player>::empty() =~= players@);
    Ok((players, pos))
}

/// Reads the body of a handshake confirmation.
fn read_confirmed(bytes: &[u8], pos: usize) -> (read: Result<(Packet, usize), Error>)
    requires
        pos <= bytes.len(),
    ensures
        agrees(read, parse_confirmed(bytes@.skip(pos as int)), bytes@),
{
    let (id, pos) = get_u32(bytes, pos)?;
    let (options, pos) = ClientOptions::deserialize(bytes, pos)?;
    let (lobby, pos) = Clients::deserialize(bytes, pos)?;
    Ok((Packet::Confirmed { id, options, lobby }, pos))
}

/// Reads the body of a lobby event.
fn read_lobby_event(bytes: &[u8], pos: usize) -> (read: Result<(Packet, usize), Error>)
    requires
        pos <= bytes.len(),
    ensures
        agrees(read, parse_lobby_event(bytes@.skip(pos as int)), bytes@),
{
    let (byte, pos) = get_u8(bytes, pos)?;
    let action = match Action::from_u8(byte) {
        None => {
            return Err(Error::Action(byte));
        },
        Some(action) => action,
    };
    let (user, pos) = get_u32(bytes, pos)?;
    let (lobby, pos) = Clients::deserialize(bytes, pos)?;
    Ok((Packet::LobbyEvent { action, user, lobby }, pos))
}

/// Reads the body of a round start.
fn read_round_start(bytes: &[u8], pos: usize) -> (read: Result<(Packet, usize), Error>)
    requires
        pos <= bytes.len(),
    ensures
        agrees(read, parse_round_start(bytes@.skip(pos as int)), bytes@),
{
    let (number, pos) = get_u32(bytes, pos)?;
    let (len, pos) = get_u32(bytes, pos)?;
    if bytes.len() - pos < len as usize {
        return Err(Error::Truncated);
    }
    let end = pos + len as usize;
    let image = bytes_from_vec(slice_to_vec(slice_subrange(bytes, pos, end)));
    assert(bytes@.subrange(pos as int, end as int) =~= bytes@.skip(pos as int).take(len as int));
    assert(bytes@.skip(pos as int).skip(len as int) =~= bytes@.skip(end as int));
    Ok((Packet::Round { number, image }, end))
}

impl Deserialize for Packet {
    open spec fn parse(input: Seq<u8>) -> Result<(PacketView, Seq<u8>), Error> {
        parse_packet(input)
    }

    fn deserialize(bytes: &[u8], pos: usize) -> (read: Result<(Self, usize), Error>) {
        let (tag, pos) = get_u8(bytes, pos)?;
        match tag {
            1 => {
                let (options, pos) = ClientOptions::deserialize(bytes, pos)?;
                Ok((Packet::Init { options }, pos))
            },
            2 => read_confirmed(bytes, pos),
            3 => read_lobby_event(bytes, pos),
            4 => {
                let (ready, pos) = get_u8(bytes, pos)?;
                Ok((Packet::WaitingStatus { ready: ready != 0 }, pos))
            },
            5 => {
                let (lobby, pos) = Clients::deserialize(bytes, pos)?;
                Ok((Packet::RoundLoading { lobby }, pos))
            },
            6 => read_round_start(bytes, pos),
            7 => {
                let (coordinates, pos) = Coordinate::deserialize(bytes, pos)?;
                Ok((Packet::Guess { coordinates }, pos))
            },
            8 => {
                let (player, pos) = get_u32(bytes, pos)?;
                Ok((Packet::Guessed { player }, pos))
            },
            9 => {
                let (round, pos) = RoundData::deserialize(bytes, pos)?;
                Ok((Packet::Result { round }, pos))
            },
            10 => Ok((Packet::RequestGameEnd, pos)),
            11 => Ok((Packet::SoftQuit, pos)),
            tag => Err(Error::Unknown(tag)),
        }
    }
}

/// `packet` is the message that `expect` asks for, or the same error.
pub open spec fn yields(packet: Result<Packet, Error>, expect: Result<PacketView, Error>) -> bool {
    match expect {
        Ok(view) => packet is Ok && packet->Ok_0@ == view,
        Err(error) => packet == Err::<Packet, Error>(error),
    }
}

/// Reads the one message that a frame's payload holds.
///
/// Fails when the payload is cut short, names no known message, holds a byte
/// that stands for no colour or action, carries a name that is not UTF-8, or
/// goes on after the message has ended.
pub fn decode(frame: &[u8]) -> (packet: Result<Packet, Error>)
    ensures
        yields(packet, decode_spec(frame@)),
{
    assert(frame@.skip(0) =~= frame@);
    let (packet, end) = Packet::deserialize(frame, 0)?;
    if end != frame.len() {
        return Err(Error::Trailing);
    }
    Ok(packet)
}

} // verus!

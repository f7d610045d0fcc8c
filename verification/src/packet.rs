//! The messages of the protocol and the values they carry.

use bytes::Bytes;
use vstd::prelude::*;

use crate::buffer::bytes_view;
use crate::lobby::{Action, ClientView, Clients};

verus! {

/// The TCP port on which the server listens.
pub const PORT: u16 = 4000;

/// The colour in which a player's guess is drawn.
#[derive(Clone, Copy, Debug, PartialEq, Eq, Structural)]
pub enum Color {
    Red,
    Yellow,
    Green,
    Blue,
    Magenta,
}

impl Color {
    /// The byte that stands for the colour on the wire.
    pub open spec fn ordinal(self) -> u8 {
        match self {
            Color::Red => 0,
            Color::Yellow => 1,
            Color::Green => 2,
            Color::Blue => 3,
            Color::Magenta => 4,
        }
    }

    /// The colour that a wire byte stands for, if any.
    pub open spec fn from_ordinal(byte: u8) -> Option<Color> {
        if byte == 0 {
            Some(Color::Red)
        } else if byte == 1 {
            Some(Color::Yellow)
        } else if byte == 2 {
            Some(Color::Green)
        } else if byte == 3 {
            Some(Color::Blue)
        } else if byte == 4 {
            Some(Color::Magenta)
        } else {
            None
        }
    }

    pub fn to_u8(self) -> (byte: u8)
        ensures
            byte == self.ordinal(),
    {
        match self {
            Color::Red => 0,
            Color::Yellow => 1,
            Color::Green => 2,
            Color::Blue => 3,
            Color::Magenta => 4,
        }
    }

    pub fn from_u8(byte: u8) -> (color: Option<Color>)
        ensures
            color == Color::from_ordinal(byte),
    {
        match byte {
            0 => Some(Color::Red),
            1 => Some(Color::Yellow),
            2 => Some(Color::Green),
            3 => Some(Color::Blue),
            4 => Some(Color::Magenta),
            _ => None,
        }
    }
}

/// What a player chooses when it introduces itself.
#[derive(Debug, PartialEq)]
pub struct ClientOptions {
    pub color: Color,
    pub user: String,
}

impl Clone for ClientOptions {
    fn clone(&self) -> (copy: ClientOptions)
        ensures
            copy@ == self@,
    {
        ClientOptions { color: self.color, user: self.user.clone() }
    }
}

/// The mathematical value of [`ClientOptions`].
pub struct ClientOptionsView {
    pub color: Color,
    pub user: Seq<char>,
}

impl View for ClientOptions {
    type V = ClientOptionsView;

    open spec fn view(&self) -> ClientOptionsView {
        ClientOptionsView { color: self.color, user: self.user@ }
    }
}

/// A point on the globe in WGS84 degrees.
///
/// Each field holds the IEEE 754 single-precision bit pattern of the angle,
/// which is also what travels on the wire.
#[derive(Debug, PartialEq, Eq, Clone, Copy, Structural)]
pub struct Coordinate {
    /// North-South, like the "y".
    pub latitude: u32,
    /// East-West, like the "x".
    pub longitude: u32,
}

impl View for Coordinate {
    type V = Coordinate;

    open spec fn view(&self) -> Coordinate {
        *self
    }
}

impl Default for Coordinate {
    fn default() -> (c: Coordinate)
        ensures
            c == (Coordinate { latitude: 0, longitude: 0 }),
    {
        Coordinate { latitude: 0, longitude: 0 }
    }
}

/// One player's slot in a round.
#[derive(Debug, PartialEq, Eq, Clone, Copy, Structural)]
pub struct Player {
    pub guess: Option<Coordinate>,
    pub points: u64,
    pub id: u32,
}

impl View for Player {
    type V = Player;

    open spec fn view(&self) -> Player {
        *self
    }
}

/// The record of one round: its number, the true location and the roster.
#[derive(Debug, PartialEq)]
pub struct RoundData {
    pub number: u32,
    pub answer: Coordinate,
    pub players: Vec<Player>,
}

impl Clone for RoundData {
    fn clone(&self) -> (copy: RoundData)
        ensures
            copy@ == self@,
    {
        let mut players: Vec<Player> = Vec::new();
        let mut i: usize = 0;
        while i < self.players.len()
            invariant
                i <= self.players.len(),
                players@ == self.players@.take(i as int),
            decreases self.players.len() - i,
        {
            players.push(self.players[i]);
            i += 1;
        }
        assert(self.players@.take(i as int) =~= self.players@);
        RoundData { number: self.number, answer: self.answer, players }
    }
}

/// The mathematical value of [`RoundData`].
pub struct RoundDataView {
    pub number: u32,
    pub answer: Coordinate,
    pub players: Seq<Player>,
}

impl View for RoundData {
    type V = RoundDataView;

    open spec fn view(&self) -> RoundDataView {
        RoundDataView { number: self.number, answer: self.answer, players: self.players@ }
    }
}

/// A protocol message.
#[derive(Debug, PartialEq)]
pub enum Packet {
    Init { options: ClientOptions },
    Confirmed { id: u32, options: ClientOptions, lobby: Clients },
    LobbyEvent { action: Action, user: u32, lobby: Clients },
    WaitingStatus { ready: bool },
    RoundLoading { lobby: Clients },
    Round { number: u32, image: Bytes },
    Guess { coordinates: Coordinate },
    Guessed { player: u32 },
    Result { round: RoundData },
    RequestGameEnd,
    SoftQuit,
}

/// The mathematical value of a [`Packet`].
pub enum PacketView {
    Init { options: ClientOptionsView },
    Confirmed { id: u32, options: ClientOptionsView, lobby: Seq<ClientView> },
    LobbyEvent { action: Action, user: u32, lobby: Seq<ClientView> },
    WaitingStatus { ready: bool },
    RoundLoading { lobby: Seq<ClientView> },
    Round { number: u32, image: Seq<u8> },
    Guess { coordinates: Coordinate },
    Guessed { player: u32 },
    Result { round: RoundDataView },
    RequestGameEnd,
    SoftQuit,
}

impl View for Packet {
    type V = PacketView;

    open spec fn view(&self) -> PacketView {
        match *self {
            Packet::Init { options } => PacketView::Init { options: options@ },
            Packet::Confirmed { id, options, lobby } => PacketView::Confirmed {
                id,
                options: options@,
                lobby: lobby@,
            },
            Packet::LobbyEvent { action, user, lobby } => PacketView::LobbyEvent {
                action,
                user,
                lobby: lobby@,
            },
            Packet::WaitingStatus { ready } => PacketView::WaitingStatus { ready },
            Packet::RoundLoading { lobby } => PacketView::RoundLoading { lobby: lobby@ },
            Packet::Round { number, image } => PacketView::Round { number, image: bytes_view(image) },
            Packet::Guess { coordinates } => PacketView::Guess { coordinates },
            Packet::Guessed { player } => PacketView::Guessed { player },
            Packet::Result { round } => PacketView::Result { round: round@ },
            Packet::RequestGameEnd => PacketView::RequestGameEnd,
            Packet::SoftQuit => PacketView::SoftQuit,
        }
    }
}

impl PacketView {
    /// The first byte of the message on the wire.
    pub open spec fn tag(self) -> u8 {
        match self {
            PacketView::Init { .. } => 1,
            PacketView::Confirmed { .. } => 2,
            PacketView::LobbyEvent { .. } => 3,
            PacketView::WaitingStatus { .. } => 4,
            PacketView::RoundLoading { .. } => 5,
            PacketView::Round { .. } => 6,
            PacketView::Guess { .. } => 7,
            PacketView::Guessed { .. } => 8,
            PacketView::Result { .. } => 9,
            PacketView::RequestGameEnd => 10,
            PacketView::SoftQuit => 11,
        }
    }
}

impl Clone for Packet {
    fn clone(&self) -> (copy: Packet)
        ensures
            copy@ == self@,
    {
        match self {
            Packet::Init { options } => Packet::Init { options: options.clone() },
            Packet::Confirmed { id, options, lobby } => Packet::Confirmed {
                id: *id,
                options: options.clone(),
                lobby: lobby.clone(),
            },
            Packet::LobbyEvent { action, user, lobby } => Packet::LobbyEvent {
                action: *action,
                user: *user,
                lobby: lobby.clone(),
            },
            Packet::WaitingStatus { ready } => Packet::WaitingStatus { ready: *ready },
            Packet::RoundLoading { lobby } => Packet::RoundLoading { lobby: lobby.clone() },
            Packet::Round { number, image } => Packet::Round {
                number: *number,
                image: image.clone(),
            },
            Packet::Guess { coordinates } => Packet::Guess { coordinates: *coordinates },
            Packet::Guessed { player } => Packet::Guessed { player: *player },
            Packet::Result { round } => Packet::Result { round: round.clone() },
            Packet::RequestGameEnd => Packet::RequestGameEnd,
            Packet::SoftQuit => Packet::SoftQuit,
        }
    }
}

impl Packet {
    pub fn tag(&self) -> (tag: u8)
        ensures
            tag == self@.tag(),
    {
        match self {
            Packet::Init { .. } => 1,
            Packet::Confirmed { .. } => 2,
            Packet::LobbyEvent { .. } => 3,
            Packet::WaitingStatus { .. } => 4,
            Packet::RoundLoading { .. } => 5,
            Packet::Round { .. } => 6,
            Packet::Guess { .. } => 7,
            Packet::Guessed { .. } => 8,
            Packet::Result { .. } => 9,
            Packet::RequestGameEnd => 10,
            Packet::SoftQuit => 11,
        }
    }
}

/// Why a connection's input could not be used.
#[derive(Debug, PartialEq)]
pub enum Error {
    /// The peer closed the socket.
    Close,
    /// Reading from the socket failed.
    Io,
    /// A display name is not valid UTF-8.
    Utf8,
    /// A well-formed message that the current state does not allow.
    Illegal(Packet),
    /// A message tag that the protocol does not know.
    Unknown(u8),
    /// The frame ends before the message does.
    Truncated,
    /// The frame goes on after the message has ended.
    Trailing,
    /// A byte that stands for no colour.
    Color(u8),
    /// A byte that stands for no lobby action.
    Action(u8),
}

} // verus!

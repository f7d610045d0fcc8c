//! Encoding: from a message to the bytes that stand for it.
//!
//! Every `*_wire` function says, as a plain sequence of bytes, what a value
//! looks like on the wire. [`Serialize::serialize`] appends exactly those
//! bytes, and [`encode`] returns them for a whole message.

use vstd::prelude::*;
use vstd::utf8::*;

use crate::buffer::bytes_as_slice;
use crate::lobby::{Client, ClientView, Clients};
use crate::packet::{
    ClientOptions, ClientOptionsView, Coordinate, Packet, PacketView, Player, RoundData,
    RoundDataView,
};
use crate::wire::{bool_byte, concat, lemma_concat_push, put_bytes, put_u32, put_u8, u32_be};

verus! {

/// A display name in its slot: the first 16 bytes of its UTF-8 form, padded
/// with zero bytes where the name is shorter.
pub open spec fn name_slot(user: Seq<char>) -> Seq<u8> {
    Seq::new(
        16,
        |i: int|
            if i < encode_utf8(user).len() {
                encode_utf8(user)[i]
            } else {
                0u8
            },
    )
}

/// A colour byte, then the name slot: 17 bytes.
pub open spec fn options_wire(options: ClientOptionsView) -> Seq<u8> {
    seq![options.color.ordinal()] + name_slot(options.user)
}

/// A lobby entry: id, ready flag, options.
pub open spec fn client_wire(client: ClientView) -> Seq<u8> {
    u32_be(client.id) + seq![bool_byte(client.ready)] + options_wire(client.options)
}

/// The count that precedes a list: its length in four bytes. A length that
/// does not fit is reduced modulo 2^32.
pub open spec fn count_be(len: nat) -> Seq<u8> {
    u32_be((len % 0x1_0000_0000) as u32)
}

/// The encodings of the lobby's entries, one per entry.
pub open spec fn clients_parts(clients: Seq<ClientView>) -> Seq<Seq<u8>> {
    Seq::new(clients.len(), |i: int| client_wire(clients[i]))
}

/// A lobby: the count, then every entry in order.
pub open spec fn clients_wire(clients: Seq<ClientView>) -> Seq<u8> {
    count_be(clients.len()) + concat(clients_parts(clients))
}

/// A coordinate: latitude, then longitude, four bytes each.
pub open spec fn coordinate_wire(coordinate: Coordinate) -> Seq<u8> {
    u32_be(coordinate.latitude) + u32_be(coordinate.longitude)
}

/// A guess that may be missing: a presence byte, then the coordinate or two
/// bytes of padding.
pub open spec fn guess_wire(guess: Option<Coordinate>) -> Seq<u8> {
    match guess {
        Some(coordinate) => seq![1u8] + coordinate_wire(coordinate),
        None => seq![0u8, 0u8, 0u8],
    }
}

/// A player: id, points in four bytes (reduced modulo 2^32), guess.
pub open spec fn player_wire(player: Player) -> Seq<u8> {
    u32_be(player.id) + u32_be((player.points % 0x1_0000_0000) as u32) + guess_wire(player.guess)
}

/// The encodings of a roster's players, one per player.
pub open spec fn players_parts(players: Seq<Player>) -> Seq<Seq<u8>> {
    Seq::new(players.len(), |i: int| player_wire(players[i]))
}

/// A round record: number, answer, count of players, every player in order.
pub open spec fn round_wire(round: RoundDataView) -> Seq<u8> {
    u32_be(round.number) + coordinate_wire(round.answer) + count_be(round.players.len()) + concat(
        players_parts(round.players),
    )
}

/// What follows the tag byte of a message.
pub open spec fn body_wire(packet: PacketView) -> Seq<u8> {
    match packet {
        PacketView::Init { options } => options_wire(options),
        PacketView::Confirmed { id, options, lobby } => u32_be(id) + options_wire(options)
            + clients_wire(lobby),
        PacketView::LobbyEvent { action, user, lobby } => seq![action.ordinal()] + u32_be(user)
            + clients_wire(lobby),
        PacketView::WaitingStatus { ready } => seq![bool_byte(ready)],
        PacketView::RoundLoading { lobby } => clients_wire(lobby),
        PacketView::Round { number, image } => u32_be(number) + count_be(image.len()) + image,
        PacketView::Guess { coordinates } => coordinate_wire(coordinates),
        PacketView::Guessed { player } => u32_be(player),
        PacketView::Result { round } => round_wire(round),
        PacketView::RequestGameEnd => Seq::empty(),
        PacketView::SoftQuit => Seq::empty(),
    }
}

/// A whole message: the tag byte, then the body.
pub open spec fn packet_wire(packet: PacketView) -> Seq<u8> {
    seq![packet.tag()] + body_wire(packet)
}

/// A value that has a place in the wire format.
pub trait Serialize {
    /// The bytes that stand for the value.
    spec fn wire(&self) -> Seq<u8>;

    /// Appends the value's bytes to `out`.
    fn serialize(&self, out: &mut Vec<u8>)
        ensures
            final(out)@ == old(out)@ + self.wire(),
    ;
}

/// The display name in its 16-byte slot.
pub fn fixed(user: &String) -> (slot: [u8; 16])
    ensures
        slot@ == name_slot(user@),
{
    let bytes = user.as_str().as_bytes();
    let mut slot: [u8; 16] = [0u8; 16];
    let mut i: usize = 0;
    while i < 16 && i < bytes.len()
        invariant
            i <= 16,
            i <= bytes@.len(),
            bytes@ == encode_utf8(user@),
            forall|k: int| 0 <= k < i ==> slot@[k] == bytes@[k],
            forall|k: int| i <= k < 16 ==> slot@[k] == 0u8,
        decreases 16 - i,
    {
        slot[i] = bytes[i];
        i += 1;
    }
    assert(slot@ =~= name_slot(user@));
    slot
}

/// The count of a list of `len` items as it goes on the wire.
fn count(len: usize) -> (count: u32)
    ensures
        u32_be(count) == count_be(len as nat),
{
    (len as u64 % 0x1_0000_0000) as u32
}

impl Serialize for ClientOptions {
    open spec fn wire(&self) -> Seq<u8> {
        options_wire(self@)
    }

    fn serialize(&self, out: &mut Vec<u8>) {
        put_u8(out, self.color.to_u8());
        let user = fixed(&self.user);
        put_bytes(out, user.as_slice());
        assert(out@ =~= old(out)@ + options_wire(self@));
    }
}

impl Serialize for Client {
    open spec fn wire(&self) -> Seq<u8> {
        client_wire(self@)
    }

    fn serialize(&self, out: &mut Vec<u8>) {
        put_u32(out, self.id);
        put_u8(
            out,
            if self.ready {
                1
            } else {
                0
            },
        );
        self.options.serialize(out);
        assert(out@ =~= old(out)@ + client_wire(self@));
    }
}

impl Serialize for Clients {
    open spec fn wire(&self) -> Seq<u8> {
        clients_wire(self@)
    }

    fn serialize(&self, out: &mut Vec<u8>) {
        let len = self.len();
        put_u32(out, count(len));
        let mut i: usize = 0;
        while i < len
            invariant
                i <= len,
                len == self@.len(),
                out@ == old(out)@ + count_be(len as nat) + concat(
                    clients_parts(self@.take(i as int)),
                ),
            decreases len - i,
        {
            self.get(i).serialize(out);
            proof {
                let done = clients_parts(self@.take(i as int));
                assert(clients_parts(self@.take(i + 1)) =~= done.push(client_wire(self@[i as int])));
                lemma_concat_push(done, client_wire(self@[i as int]));
                assert(out@ =~= old(out)@ + count_be(len as nat) + concat(
                    clients_parts(self@.take(i + 1)),
                ));
            }
            i += 1;
        }
        assert(self@.take(i as int) =~= self@);
        assert(out@ =~= old(out)@ + clients_wire(self@));
    }
}

impl Serialize for Coordinate {
    open spec fn wire(&self) -> Seq<u8> {
        coordinate_wire(*self)
    }

    fn serialize(&self, out: &mut Vec<u8>) {
        put_u32(out, self.latitude);
        put_u32(out, self.longitude);
        assert(out@ =~= old(out)@ + coordinate_wire(*self));
    }
}

impl Serialize for Player {
    open spec fn wire(&self) -> Seq<u8> {
        player_wire(*self)
    }

    fn serialize(&self, out: &mut Vec<u8>) {
        put_u32(out, self.id);
        put_u32(out, (self.points % 0x1_0000_0000) as u32);
        match self.guess {
            Some(guess) => {
                put_u8(out, 1);
                guess.serialize(out);
            },
            None => {
                put_u8(out, 0);
                put_u8(out, 0);
                put_u8(out, 0);
            },
        }
        assert(out@ =~= old(out)@ + player_wire(*self));
    }
}

impl Serialize for RoundData {
    open spec fn wire(&self) -> Seq<u8> {
        round_wire(self@)
    }

    fn serialize(&self, out: &mut Vec<u8>) {
        put_u32(out, self.number);
        self.answer.serialize(out);
        let len = self.players.len();
        put_u32(out, count(len));
        let ghost head = old(out)@ + u32_be(self.number) + coordinate_wire(self.answer) + count_be(
            len as nat,
        );
        assert(out@ =~= head);
        assert(concat(players_parts(self.players@.take(0))) =~= Seq::<u8>::empty());
        let mut i: usize = 0;
        while i < len
            invariant
                i <= len,
                len == self.players@.len(),
                out@ == head + concat(players_parts(self.players@.take(i as int))),
            decreases len - i,
        {
            self.players[i].serialize(out);
            proof {
                let done = players_parts(self.players@.take(i as int));
                assert(players_parts(self.players@.take(i + 1)) =~= done.push(
                    player_wire(self.players@[i as int]),
                ));
                lemma_concat_push(done, player_wire(self.players@[i as int]));
                assert(out@ =~= head + concat(players_parts(self.players@.take(i + 1))));
            }
            i += 1;
        }
        assert(self.players@.take(i as int) =~= self.players@);
        assert(out@ =~= old(out)@ + round_wire(self@));
    }
}

impl Serialize for Packet {
    open spec fn wire(&self) -> Seq<u8> {
        packet_wire(self@)
    }

    fn serialize(&self, out: &mut Vec<u8>) {
        put_u8(out, self.tag());
        match self {
            Packet::Init { options } => {
                options.serialize(out);
            },
            Packet::Confirmed { id, options, lobby } => {
                put_u32(out, *id);
                options.serialize(out);
                lobby.serialize(out);
            },
            Packet::LobbyEvent { action, user, lobby } => {
                put_u8(out, action.to_u8());
                put_u32(out, *user);
                lobby.serialize(out);
            },
            Packet::WaitingStatus { ready } => {
                put_u8(
                    out,
                    if *ready {
                        1
                    } else {
                        0
                    },
                );
            },
            Packet::RoundLoading { lobby } => {
                lobby.serialize(out);
            },
            Packet::Round { number, image } => {
                let bytes = bytes_as_slice(image);
                put_u32(out, *number);
                put_u32(out, count(bytes.len()));
                put_bytes(out, bytes);
            },
            Packet::Guess { coordinates } => {
                coordinates.serialize(out);
            },
            Packet::Guessed { player } => {
                put_u32(out, *player);
            },
            Packet::Result { round } => {
                round.serialize(out);
            },
            Packet::RequestGameEnd => {},
            Packet::SoftQuit => {},
        }
        assert(out@ =~= old(out)@ + packet_wire(self@));
    }
}

/// The bytes of a message, tag first.
pub fn encode(packet: &Packet) -> (bytes: Vec<u8>)
    ensures
        bytes@ == packet_wire(packet@),
{
    let mut bytes: Vec<u8> = Vec::new();
    packet.serialize(&mut bytes);
    assert(bytes@ =~= packet_wire(packet@));
    bytes
}

} // verus!

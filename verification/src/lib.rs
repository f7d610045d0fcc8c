//! Authoritative session logic for a multiplayer geography guessing game.
//!
//! The crate holds the three parts that decide what the game does: the binary
//! wire protocol, the server's lobby / round / results state machine together
//! with the client-side mirror of it, and the codec that packs photographs
//! into one byte per pixel before they are compressed for transport.
//! Sockets, terminals and the photo provider live outside; they hand this
//! crate plain values and act on the values it returns.

pub mod buffer;
pub mod compression;
pub mod deserializers;
pub mod frame;
pub mod image;
pub mod laws;
pub mod lobby;
pub mod logic;
pub mod packet;
pub mod relay;
pub mod round;
pub mod roundtrip;
pub mod rules;
pub mod serializers;
pub mod server;
pub mod session;
pub mod wire;

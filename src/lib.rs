//! The message protocol of a small multiplayer game, and the state that its
//! server and clients keep in step over an unreliable datagram transport.
//!
//! - `codec`: big-endian primitives, commands, messages and bounds-checked
//!   field extraction.
//! - `protocol`: the payload layout of each command and the builders of
//!   request and reply datagrams.
//! - `server`: the authoritative store (sessions, positions, frame counter,
//!   single-slot terrain mailboxes) and the dispatch of one datagram.
//! - `client`: the client's mirror of the shared state and the poll round.
pub mod client;
pub mod codec;
pub mod protocol;
pub mod server;

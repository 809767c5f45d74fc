//! Peer synchronisation for a two-player board game over one connection.
//!
//! One peer, the host, is the authority on legality; the other, the guest,
//! proposes moves and commits them only once the host has acknowledged them.
//! The crate holds the wire messages with their byte encoding, the frames
//! that carry them over a stream, and the state machine that decides, for
//! each local submission and each received message, what the session
//! becomes, which move is applied to the local board and which bytes go out.
//! The caller owns the connection, the window and the rule engine.
//!
//! - [`square`]: cells of the board and their numbers on the wire.
//! - [`varint`], [`wire`]: numbers in base 128 and the fields built from them.
//! - [`message`], [`c2s`], [`s2c`]: the messages and their bytes.
//! - [`frame`]: length-prefixed frames.
//! - [`session`]: one peer's state machine; [`laws`]: what holds of it.
//! - [`pair`]: a host and a guest together, and why their boards agree.
//! - [`ui`]: what the window keeps between two clicks.
#![allow(non_camel_case_types)]
#![allow(non_snake_case)]

pub mod square;
pub mod varint;
pub mod wire;
pub mod message;
pub mod c2s;
pub mod s2c;
pub mod frame;
pub mod session;
pub mod laws;
pub mod pair;
pub mod ui;

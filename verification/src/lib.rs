//! Replicated two-player battleship: board engine, per-peer room state
//! machine, cross-peer message protocol, matchmaking and social graph.
//!
//! Every peer keeps its own copy of the game and reacts to local operations
//! and to inbound messages; each handler is a pure function of the local
//! state and the event, returning the messages to send. The transport, the
//! clock and the identifier generator live outside this crate and hand in
//! plain values.

pub mod board;
pub mod messages;
pub mod operations;
pub mod protocol;
pub mod queries;
pub mod room;
pub mod state;
pub mod view;

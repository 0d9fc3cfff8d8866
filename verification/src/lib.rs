//! Rules engine for a networked Uno-style card game: the card and deck model,
//! the shared game state with its sanctioned operations, the turn logic that
//! decides whether a move is legal and what follows from it, the
//! conversation with one client, and the bookkeeping of the worker pool that
//! serves the connections.
//!
//! The library does no input or output and starts no thread. A server owns
//! the sockets, the threads and the lock round the one game, and asks the
//! library what to do.

pub mod card;
pub mod deck;
pub mod turn;
pub mod state;
pub mod game;
pub mod laws;
pub mod session;
pub mod pool;

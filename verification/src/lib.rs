//! An authoritative chess rules engine and server-side session layer.
//!
//! The crate is split into the board and piece model (`chessmove`), the
//! mathematical statement of the movement rules (`rules`), the per-piece
//! movement predicates (`moves`), the authoritative game state machine and
//! end-of-game detector (`chessstate`), the session and matchmaking layer
//! (`server`), and proved laws relating these (`laws`).

pub mod chessmove;
pub mod rules;
pub mod chessstate;
pub mod moves;
pub mod protocol;
pub mod server;
pub mod laws;

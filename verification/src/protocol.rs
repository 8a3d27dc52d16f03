//! The message shapes exchanged between clients and the session server,
//! and the classification of finished games.

use vstd::prelude::*;

use crate::chessmove::{ChessColor, ChessMove, ChessPieceType};
use crate::chessstate::ChessState;

verus! {

/// Why a game ended.
#[derive(Clone, Copy, Debug, PartialEq, Eq, Structural)]
pub enum EndReason {
    Checkmate,
    Stalemate,
    Resignation,
    Agreement,
    InsufficientMaterial,
    FiftyMoveRule,
    RepetitionOfMoves,
}

/// How a game ended: a win for one side or a draw, with the reason.
#[derive(Clone, Copy, Debug, PartialEq, Eq, Structural)]
pub enum GameEnd {
    White(EndReason),
    Black(EndReason),
    Draw(EndReason),
}

/// A command a client sends to the session server.
#[derive(Clone, Copy, Debug)]
pub enum ClientPacket {
    Reconnect,
    RequestDraw,
    Move(ChessMove),
    Promotion(ChessPieceType),
}

/// A notification the session server sends to a client.
#[derive(Clone, Debug)]
pub enum ServerPacket {
    MatchFound(ChessColor),
    InvalidMove(ChessState),
    StateReminder(ChessState),
    Move(ChessMove),
    Promotion(ChessPieceType),
    EndGame(GameEnd),
    DrawRequested,
}

} // verus!

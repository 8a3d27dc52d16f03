//! Executable per-piece movement predicates, each proved equal to its
//! mathematical statement in `rules`.

use vstd::prelude::*;

use crate::chessmove::{ChessColor, ChessMove, ChessPieceType};
use crate::chessstate::ChessState;
use crate::rules::{
    abs_diff, basic_piece_ok, bishop_ok, dest_free, diag_path_clear, diag_sq_empty, empty_at,
    file_path_clear, king_adjacent_ok, king_ok, knight_ok, pawn_ok, rank_path_clear, rook_ok,
};

verus! {

/// Returns the absolute difference of two coordinates.
pub(crate) fn abs_diff_u8(a: u8, b: u8) -> (r: u8)
    ensures
        r == abs_diff(a as int, b as int),
{
    if a >= b {
        a - b
    } else {
        b - a
    }
}

/// Returns whether side `c` may land on the given square: it is empty or
/// holds an enemy piece.
fn dest_free_at(state: &ChessState, c: ChessColor, tr: u8, tf: u8) -> (r: bool)
    requires
        state@.wf(),
        tr < 8,
        tf < 8,
    ensures
        r == dest_free(state@.board, c, tr as int, tf as int),
{
    match state.sq(tr, tf) {
        Option::None => true,
        Option::Some(p) => p.color != c,
    }
}

/// A plain king step for side `c`.
pub(crate) fn king_adjacent_move(state: &ChessState, c: ChessColor, chess_move: ChessMove) -> (r:
    bool)
    requires
        state@.wf(),
    ensures
        r == king_adjacent_ok(
            state@,
            c,
            chess_move.from.rank.as_int(),
            chess_move.from.file.as_int(),
            chess_move.to.rank.as_int(),
            chess_move.to.file.as_int(),
        ),
{
    let fr = chess_move.from.rank.to_u8();
    let ff = chess_move.from.file.to_u8();
    let tr = chess_move.to.rank.to_u8();
    let tf = chess_move.to.file.to_u8();
    abs_diff_u8(fr, tr) <= 1 && abs_diff_u8(ff, tf) <= 1 && dest_free_at(state, c, tr, tf)
}

/// A rook move for side `c`.
#[verifier::loop_isolation(false)]
pub(crate) fn rook_move(state: &ChessState, c: ChessColor, chess_move: ChessMove) -> (r: bool)
    requires
        state@.wf(),
    ensures
        r == rook_ok(
            state@,
            c,
            chess_move.from.rank.as_int(),
            chess_move.from.file.as_int(),
            chess_move.to.rank.as_int(),
            chess_move.to.file.as_int(),
        ),
{
    let fr = chess_move.from.rank.to_u8();
    let ff = chess_move.from.file.to_u8();
    let tr = chess_move.to.rank.to_u8();
    let tf = chess_move.to.file.to_u8();
    if fr == tr {
        let lo = if ff <= tf {
            ff
        } else {
            tf
        };
        let hi = if ff <= tf {
            tf
        } else {
            ff
        };
        let mut f = lo + 1;
        while f < hi
            invariant
                state@.wf(),
                lo < f <= hi || f == lo + 1,
                hi < 8,
                forall|j: int| lo < j < f ==> empty_at(state@.board, fr as int, j),
            decreases hi - f,
        {
            if state.sq(fr, f).is_some() {
                assert(!empty_at(state@.board, fr as int, f as int));
                return false;
            }
            f = f + 1;
        }
        assert(rank_path_clear(state@.board, fr as int, ff as int, tf as int));
        dest_free_at(state, c, tr, tf)
    } else if ff == tf {
        let lo = if fr <= tr {
            fr
        } else {
            tr
        };
        let hi = if fr <= tr {
            tr
        } else {
            fr
        };
        let mut r = lo + 1;
        while r < hi
            invariant
                state@.wf(),
                lo < r <= hi || r == lo + 1,
                hi < 8,
                forall|j: int| lo < j < r ==> empty_at(state@.board, j, ff as int),
            decreases hi - r,
        {
            if state.sq(r, ff).is_some() {
                assert(!empty_at(state@.board, r as int, ff as int));
                return false;
            }
            r = r + 1;
        }
        assert(file_path_clear(state@.board, ff as int, fr as int, tr as int));
        dest_free_at(state, c, tr, tf)
    } else {
        false
    }
}

/// A bishop move for side `c`.
#[verifier::loop_isolation(false)]
pub(crate) fn bishop_move(state: &ChessState, c: ChessColor, chess_move: ChessMove) -> (r: bool)
    requires
        state@.wf(),
    ensures
        r == bishop_ok(
            state@,
            c,
            chess_move.from.rank.as_int(),
            chess_move.from.file.as_int(),
            chess_move.to.rank.as_int(),
            chess_move.to.file.as_int(),
        ),
{
    let fr = chess_move.from.rank.to_u8();
    let ff = chess_move.from.file.to_u8();
    let tr = chess_move.to.rank.to_u8();
    let tf = chess_move.to.file.to_u8();
    let diag = (fr as i16) + (ff as i16) == (tr as i16) + (tf as i16) || (fr as i16) - (ff as i16)
        == (tr as i16) - (tf as i16);
    if !diag {
        return false;
    }
    let dist = abs_diff_u8(fr, tr);
    let mut d: u8 = 1;
    while d < dist
        invariant
            state@.wf(),
            fr < 8 && ff < 8 && tr < 8 && tf < 8,
            (fr as int) + (ff as int) == (tr as int) + (tf as int) || (fr as int) - (ff as int)
                == (tr as int) - (tf as int),
            dist == abs_diff(fr as int, tr as int),
            1 <= d,
            d <= dist || d == 1,
            forall|j: int|
                0 < j < d ==> #[trigger] diag_sq_empty(
                    state@.board,
                    fr as int,
                    ff as int,
                    tr as int,
                    tf as int,
                    j,
                ),
        decreases dist - d,
    {
        let cr = if tr >= fr {
            fr + d
        } else {
            fr - d
        };
        let cf = if tf >= ff {
            ff + d
        } else {
            ff - d
        };
        proof {
            if tr >= fr {
                assert(cr as int == fr as int + (d as int) * 1int);
            } else {
                assert(cr as int == fr as int + (d as int) * (-1int));
            }
            if tf >= ff {
                assert(cf as int == ff as int + (d as int) * 1int);
            } else {
                assert(cf as int == ff as int + (d as int) * (-1int));
            }
        }
        if state.sq(cr, cf).is_some() {
            proof {
                assert(!diag_sq_empty(
                    state@.board,
                    fr as int,
                    ff as int,
                    tr as int,
                    tf as int,
                    d as int,
                ));
            }
            return false;
        }
        proof {
            assert(diag_sq_empty(
                state@.board,
                fr as int,
                ff as int,
                tr as int,
                tf as int,
                d as int,
            ));
        }
        d = d + 1;
    }
    assert(diag_path_clear(state@.board, fr as int, ff as int, tr as int, tf as int));
    dest_free_at(state, c, tr, tf)
}

/// A knight move for side `c`.
pub(crate) fn knight_move(state: &ChessState, c: ChessColor, chess_move: ChessMove) -> (r: bool)
    requires
        state@.wf(),
    ensures
        r == knight_ok(
            state@,
            c,
            chess_move.from.rank.as_int(),
            chess_move.from.file.as_int(),
            chess_move.to.rank.as_int(),
            chess_move.to.file.as_int(),
        ),
{
    let fr = chess_move.from.rank.to_u8();
    let ff = chess_move.from.file.to_u8();
    let tr = chess_move.to.rank.to_u8();
    let tf = chess_move.to.file.to_u8();
    let rd = abs_diff_u8(fr, tr);
    let fd = abs_diff_u8(ff, tf);
    (rd == 2 && fd == 1 || rd == 1 && fd == 2) && dest_free_at(state, c, tr, tf)
}

/// A pawn move for side `c`.
pub(crate) fn pawn_move(state: &ChessState, c: ChessColor, chess_move: ChessMove) -> (r: bool)
    requires
        state@.wf(),
    ensures
        r == pawn_ok(
            state@,
            c,
            chess_move.from.rank.as_int(),
            chess_move.from.file.as_int(),
            chess_move.to.rank.as_int(),
            chess_move.to.file.as_int(),
        ),
{
    let fr = chess_move.from.rank.to_u8() as i16;
    let ff = chess_move.from.file.to_u8();
    let tr = chess_move.to.rank.to_u8() as i16;
    let tf = chess_move.to.file.to_u8();
    let dir: i16 = match c {
        ChessColor::White => 1,
        ChessColor::Black => -1,
    };
    if ff == tf {
        if tr == fr + dir {
            return state.sq(tr as u8, tf).is_none();
        }
        if (fr == 1 || fr == 6) && tr == fr + 2 * dir {
            return state.sq(tr as u8, tf).is_none() && state.sq((fr + dir) as u8, tf).is_none();
        }
        false
    } else if abs_diff_u8(ff, tf) == 1 {
        if tr == fr + dir {
            if let Option::Some(piece) = state.sq(tr as u8, tf) {
                return piece.color != c;
            }
        }
        match state.en_passant {
            Option::Some(epf) => {
                if epf.to_u8() == tf {
                    match c {
                        ChessColor::White => fr == 4 && tr == 5,
                        ChessColor::Black => fr == 3 && tr == 2,
                    }
                } else {
                    false
                }
            },
            Option::None => false,
        }
    } else {
        false
    }
}

/// The basic tier of one piece's movement for side `c`: the king moves by
/// adjacency only.
pub(crate) fn basic_move(
    state: &ChessState,
    c: ChessColor,
    kind: ChessPieceType,
    chess_move: ChessMove,
) -> (r: bool)
    requires
        state@.wf(),
    ensures
        r == basic_piece_ok(
            state@,
            c,
            kind,
            chess_move.from.rank.as_int(),
            chess_move.from.file.as_int(),
            chess_move.to.rank.as_int(),
            chess_move.to.file.as_int(),
        ),
{
    match kind {
        ChessPieceType::King => king_adjacent_move(state, c, chess_move),
        ChessPieceType::Queen => rook_move(state, c, chess_move) || bishop_move(
            state,
            c,
            chess_move,
        ),
        ChessPieceType::Rook => rook_move(state, c, chess_move),
        ChessPieceType::Bishop => bishop_move(state, c, chess_move),
        ChessPieceType::Knight => knight_move(state, c, chess_move),
        ChessPieceType::Pawn => pawn_move(state, c, chess_move),
    }
}

/// The full king rule for the side to move: a plain step or a castling
/// move with its rights, clearance, and attack side conditions.
pub fn king(state: &ChessState, chess_move: ChessMove) -> (r: bool)
    requires
        state@.wf(),
    ensures
        r == king_ok(
            state@,
            state@.turn,
            chess_move.from.rank.as_int(),
            chess_move.from.file.as_int(),
            chess_move.to.rank.as_int(),
            chess_move.to.file.as_int(),
        ),
{
    let fr = chess_move.from.rank.to_u8();
    let ff = chess_move.from.file.to_u8();
    let tr = chess_move.to.rank.to_u8();
    let tf = chess_move.to.file.to_u8();
    let rank_diff = abs_diff_u8(fr, tr);
    let file_diff = abs_diff_u8(ff, tf);
    if rank_diff <= 1 && file_diff <= 1 {
        return dest_free_at(state, state.turn, tr, tf);
    }
    if !(file_diff == 2 && rank_diff == 0) {
        return false;
    }
    let allowed = match state.turn {
        ChessColor::White => !(state.white_king_moved || state.white_a_rook_moved && tf == 2
            || state.white_h_rook_moved && tf == 6),
        ChessColor::Black => !(state.black_king_moved || state.black_a_rook_moved && tf == 2
            || state.black_h_rook_moved && tf == 6),
    };
    if !allowed {
        return false;
    }
    let br: u8 = match state.turn {
        ChessColor::White => 0,
        ChessColor::Black => 7,
    };
    if state.is_attacked_square(br, 4) {
        return false;
    }
    if tf == 2 {
        state.sq(br, 1).is_none() && state.sq(br, 2).is_none() && !state.is_attacked_square(br, 2)
            && state.sq(br, 3).is_none() && !state.is_attacked_square(br, 3)
    } else if tf == 6 {
        state.sq(br, 5).is_none() && !state.is_attacked_square(br, 5) && state.sq(br, 6).is_none()
            && !state.is_attacked_square(br, 6)
    } else {
        false
    }
}

/// The queen rule for the side to move: a rook move or a bishop move.
pub fn queen(state: &ChessState, chess_move: ChessMove) -> (r: bool)
    requires
        state@.wf(),
    ensures
        r == (rook_ok(
            state@,
            state@.turn,
            chess_move.from.rank.as_int(),
            chess_move.from.file.as_int(),
            chess_move.to.rank.as_int(),
            chess_move.to.file.as_int(),
        ) || bishop_ok(
            state@,
            state@.turn,
            chess_move.from.rank.as_int(),
            chess_move.from.file.as_int(),
            chess_move.to.rank.as_int(),
            chess_move.to.file.as_int(),
        )),
{
    rook(state, chess_move) || bishop(state, chess_move)
}

/// The rook rule for the side to move.
pub fn rook(state: &ChessState, chess_move: ChessMove) -> (r: bool)
    requires
        state@.wf(),
    ensures
        r == rook_ok(
            state@,
            state@.turn,
            chess_move.from.rank.as_int(),
            chess_move.from.file.as_int(),
            chess_move.to.rank.as_int(),
            chess_move.to.file.as_int(),
        ),
{
    rook_move(state, state.turn, chess_move)
}

/// The bishop rule for the side to move.
pub fn bishop(state: &ChessState, chess_move: ChessMove) -> (r: bool)
    requires
        state@.wf(),
    ensures
        r == bishop_ok(
            state@,
            state@.turn,
            chess_move.from.rank.as_int(),
            chess_move.from.file.as_int(),
            chess_move.to.rank.as_int(),
            chess_move.to.file.as_int(),
        ),
{
    bishop_move(state, state.turn, chess_move)
}

/// The knight rule for the side to move.
pub fn knight(state: &ChessState, chess_move: ChessMove) -> (r: bool)
    requires
        state@.wf(),
    ensures
        r == knight_ok(
            state@,
            state@.turn,
            chess_move.from.rank.as_int(),
            chess_move.from.file.as_int(),
            chess_move.to.rank.as_int(),
            chess_move.to.file.as_int(),
        ),
{
    knight_move(state, state.turn, chess_move)
}

/// The pawn rule for the side to move.
pub fn pawn(state: &ChessState, chess_move: ChessMove) -> (r: bool)
    requires
        state@.wf(),
    ensures
        r == pawn_ok(
            state@,
            state@.turn,
            chess_move.from.rank.as_int(),
            chess_move.from.file.as_int(),
            chess_move.to.rank.as_int(),
            chess_move.to.file.as_int(),
        ),
{
    pawn_move(state, state.turn, chess_move)
}

/// The full tier of one piece's movement for side `c`.
pub(crate) fn full_move(
    state: &ChessState,
    kind: ChessPieceType,
    chess_move: ChessMove,
) -> (r: bool)
    requires
        state@.wf(),
    ensures
        r == crate::rules::piece_move_ok(
            state@,
            state@.turn,
            kind,
            chess_move.from.rank.as_int(),
            chess_move.from.file.as_int(),
            chess_move.to.rank.as_int(),
            chess_move.to.file.as_int(),
        ),
{
    match kind {
        ChessPieceType::King => king(state, chess_move),
        ChessPieceType::Queen => queen(state, chess_move),
        ChessPieceType::Rook => rook(state, chess_move),
        ChessPieceType::Bishop => bishop(state, chess_move),
        ChessPieceType::Knight => knight(state, chess_move),
        ChessPieceType::Pawn => pawn(state, chess_move),
    }
}

} // verus!

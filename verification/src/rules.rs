//! The movement rules as mathematics: the ghost model of a game state,
//! per-piece movement predicates, square attack, and full move legality.
//!
//! The predicates come in two tiers. The basic tier (`basic_piece_ok`,
//! `square_attacked`) covers movement patterns and board occupancy only;
//! for the king that means plain adjacency. The full tier
//! (`piece_move_ok`, `valid_move`) adds castling, whose side conditions
//! are stated over the basic tier, and the rule that a move may not leave
//! the mover's own king attacked. Keeping attack evaluation on the basic
//! tier is what makes the definitions well founded.

use vstd::prelude::*;

use crate::chessmove::{
    at, ChessColor, ChessMove, ChessPiece, ChessPieceType, File,
};

verus! {

/// The mathematical image of a game state: the 64 squares in rank-major
/// order together with the side to move and the derived flags.
pub ghost struct StateModel {
    pub board: Seq<Option<ChessPiece>>,
    pub turn: ChessColor,
    pub en_passant: Option<File>,
    pub fifty_move_rule: u8,
    pub should_promote: bool,
    pub white_king_moved: bool,
    pub black_king_moved: bool,
    pub white_a_rook_moved: bool,
    pub black_a_rook_moved: bool,
    pub white_h_rook_moved: bool,
    pub black_h_rook_moved: bool,
}

impl StateModel {
    /// The board holds exactly one entry per square.
    pub open spec fn wf(self) -> bool {
        self.board.len() == 64
    }
}

/// Both coordinates name one of the eight ranks and files.
pub open spec fn in_range(r: int, f: int) -> bool {
    0 <= r < 8 && 0 <= f < 8
}

/// The absolute difference of two coordinates.
pub open spec fn abs_diff(a: int, b: int) -> int {
    if a >= b {
        a - b
    } else {
        b - a
    }
}

/// The square on rank `r` and file `f` is empty.
pub open spec fn empty_at(b: Seq<Option<ChessPiece>>, r: int, f: int) -> bool {
    at(b, r, f) is None
}

/// The square is empty or holds a piece of the other side, so a piece of
/// side `c` may land on it.
pub open spec fn dest_free(b: Seq<Option<ChessPiece>>, c: ChessColor, r: int, f: int) -> bool {
    match at(b, r, f) {
        Option::None => true,
        Option::Some(p) => p.color != c,
    }
}

/// A plain king step: at most one rank and one file away, onto a square
/// not held by the mover's own side.
pub open spec fn king_adjacent_ok(
    s: StateModel,
    c: ChessColor,
    fr: int,
    ff: int,
    tr: int,
    tf: int,
) -> bool {
    abs_diff(fr, tr) <= 1 && abs_diff(ff, tf) <= 1 && dest_free(s.board, c, tr, tf)
}

/// Every square strictly between two files of rank `r` is empty.
pub open spec fn rank_path_clear(b: Seq<Option<ChessPiece>>, r: int, f1: int, f2: int) -> bool {
    let lo = if f1 <= f2 {
        f1
    } else {
        f2
    };
    let hi = if f1 <= f2 {
        f2
    } else {
        f1
    };
    forall|f: int| lo < f < hi ==> empty_at(b, r, f)
}

/// Every square strictly between two ranks of file `f` is empty.
pub open spec fn file_path_clear(b: Seq<Option<ChessPiece>>, f: int, r1: int, r2: int) -> bool {
    let lo = if r1 <= r2 {
        r1
    } else {
        r2
    };
    let hi = if r1 <= r2 {
        r2
    } else {
        r1
    };
    forall|r: int| lo < r < hi ==> empty_at(b, r, f)
}

/// A rook move: along one rank or one file, every square strictly between
/// source and destination empty, landing on a free square.
pub open spec fn rook_ok(
    s: StateModel,
    c: ChessColor,
    fr: int,
    ff: int,
    tr: int,
    tf: int,
) -> bool {
    if fr == tr {
        rank_path_clear(s.board, fr, ff, tf) && dest_free(s.board, c, tr, tf)
    } else if ff == tf {
        file_path_clear(s.board, ff, fr, tr) && dest_free(s.board, c, tr, tf)
    } else {
        false
    }
}

/// The `d`th square along the diagonal from `(fr, ff)` toward `(tr, tf)`
/// is empty.
pub open spec fn diag_sq_empty(
    b: Seq<Option<ChessPiece>>,
    fr: int,
    ff: int,
    tr: int,
    tf: int,
    d: int,
) -> bool {
    let dr: int = if tr >= fr {
        1
    } else {
        -1
    };
    let df: int = if tf >= ff {
        1
    } else {
        -1
    };
    empty_at(b, fr + d * dr, ff + d * df)
}

/// Every square strictly between the two ends of a diagonal is empty.
pub open spec fn diag_path_clear(
    b: Seq<Option<ChessPiece>>,
    fr: int,
    ff: int,
    tr: int,
    tf: int,
) -> bool {
    forall|d: int| 0 < d < abs_diff(fr, tr) ==> #[trigger] diag_sq_empty(b, fr, ff, tr, tf, d)
}

/// A bishop move: along a diagonal, every square strictly between source
/// and destination empty, landing on a free square.
pub open spec fn bishop_ok(
    s: StateModel,
    c: ChessColor,
    fr: int,
    ff: int,
    tr: int,
    tf: int,
) -> bool {
    if fr + ff == tr + tf || fr - ff == tr - tf {
        diag_path_clear(s.board, fr, ff, tr, tf) && dest_free(s.board, c, tr, tf)
    } else {
        false
    }
}

/// A knight move: a (1, 2) or (2, 1) jump onto a free square.
pub open spec fn knight_ok(
    s: StateModel,
    c: ChessColor,
    fr: int,
    ff: int,
    tr: int,
    tf: int,
) -> bool {
    (abs_diff(fr, tr) == 2 && abs_diff(ff, tf) == 1 || abs_diff(fr, tr) == 1 && abs_diff(ff, tf)
        == 2) && dest_free(s.board, c, tr, tf)
}

/// A pawn move for side `c`: forward one onto an empty square, forward two
/// from the pawn's home rank through empty squares, diagonal one onto an
/// enemy piece, or an en-passant capture onto the flagged file.
pub open spec fn pawn_ok(
    s: StateModel,
    c: ChessColor,
    fr: int,
    ff: int,
    tr: int,
    tf: int,
) -> bool {
    let dir: int = if c == ChessColor::White {
        1
    } else {
        -1
    };
    if ff == tf {
        if tr == fr + dir {
            empty_at(s.board, tr, tf)
        } else if (fr == 1 || fr == 6) && tr == fr + 2 * dir {
            empty_at(s.board, tr, tf) && empty_at(s.board, fr + dir, tf)
        } else {
            false
        }
    } else if abs_diff(ff, tf) == 1 {
        if tr == fr + dir && at(s.board, tr, tf) is Some {
            match at(s.board, tr, tf) {
                Option::Some(p) => p.color != c,
                Option::None => false,
            }
        } else if s.en_passant matches Option::Some(epf) && epf.as_int() == tf {
            if c == ChessColor::White {
                fr == 4 && tr == 5
            } else {
                fr == 3 && tr == 2
            }
        } else {
            false
        }
    } else {
        false
    }
}

/// The basic tier of one piece's movement: pattern and occupancy only,
/// with the king restricted to plain adjacency.
pub open spec fn basic_piece_ok(
    s: StateModel,
    c: ChessColor,
    k: ChessPieceType,
    fr: int,
    ff: int,
    tr: int,
    tf: int,
) -> bool {
    match k {
        ChessPieceType::King => king_adjacent_ok(s, c, fr, ff, tr, tf),
        ChessPieceType::Queen => rook_ok(s, c, fr, ff, tr, tf) || bishop_ok(s, c, fr, ff, tr, tf),
        ChessPieceType::Rook => rook_ok(s, c, fr, ff, tr, tf),
        ChessPieceType::Bishop => bishop_ok(s, c, fr, ff, tr, tf),
        ChessPieceType::Knight => knight_ok(s, c, fr, ff, tr, tf),
        ChessPieceType::Pawn => pawn_ok(s, c, fr, ff, tr, tf),
    }
}

/// A piece of side `c` stands on `(fr, ff)` and has a basic move onto
/// `(tr, tf)`.
pub open spec fn attacks_from(
    s: StateModel,
    c: ChessColor,
    fr: int,
    ff: int,
    tr: int,
    tf: int,
) -> bool {
    &&& !(fr == tr && ff == tf)
    &&& at(s.board, fr, ff) matches Option::Some(p) && p.color == c && basic_piece_ok(
        s,
        c,
        p.piece_type,
        fr,
        ff,
        tr,
        tf,
    )
}

/// Some piece of side `c` has a basic move landing on `(tr, tf)`.
pub open spec fn square_attacked(s: StateModel, c: ChessColor, tr: int, tf: int) -> bool {
    exists|fr: int, ff: int|
        in_range(fr, ff) && #[trigger] attacks_from(s, c, fr, ff, tr, tf)
}

/// The rank on which side `c`'s pieces start.
pub open spec fn back_rank(c: ChessColor) -> int {
    if c == ChessColor::White {
        0
    } else {
        7
    }
}

/// A castling move for side `c`: a two-file king move on one rank, with
/// the side's king and the relevant rook never moved, the squares of the
/// back rank between king and rook empty, and neither the king's start
/// square nor the squares it crosses or lands on attacked by the enemy.
pub open spec fn castle_ok(
    s: StateModel,
    c: ChessColor,
    fr: int,
    ff: int,
    tr: int,
    tf: int,
) -> bool {
    let br = back_rank(c);
    &&& abs_diff(ff, tf) == 2 && fr == tr
    &&& match c {
        ChessColor::White => !(s.white_king_moved || s.white_a_rook_moved && tf == 2
            || s.white_h_rook_moved && tf == 6),
        ChessColor::Black => !(s.black_king_moved || s.black_a_rook_moved && tf == 2
            || s.black_h_rook_moved && tf == 6),
    }
    &&& !square_attacked(s, c.opposite(), br, 4)
    &&& {
        ||| tf == 2 && empty_at(s.board, br, 1) && empty_at(s.board, br, 2) && !square_attacked(
            s,
            c.opposite(),
            br,
            2,
        ) && empty_at(s.board, br, 3) && !square_attacked(s, c.opposite(), br, 3)
        ||| tf == 6 && empty_at(s.board, br, 5) && !square_attacked(s, c.opposite(), br, 5)
            && empty_at(s.board, br, 6) && !square_attacked(s, c.opposite(), br, 6)
    }
}

/// The full king rule: a plain adjacent step, or a castling move.
pub open spec fn king_ok(
    s: StateModel,
    c: ChessColor,
    fr: int,
    ff: int,
    tr: int,
    tf: int,
) -> bool {
    if abs_diff(fr, tr) <= 1 && abs_diff(ff, tf) <= 1 {
        dest_free(s.board, c, tr, tf)
    } else {
        castle_ok(s, c, fr, ff, tr, tf)
    }
}

/// The full tier of one piece's movement: the basic tier, with castling
/// added for the king.
pub open spec fn piece_move_ok(
    s: StateModel,
    c: ChessColor,
    k: ChessPieceType,
    fr: int,
    ff: int,
    tr: int,
    tf: int,
) -> bool {
    match k {
        ChessPieceType::King => king_ok(s, c, fr, ff, tr, tf),
        _ => basic_piece_ok(s, c, k, fr, ff, tr, tf),
    }
}

/// The flat index of the first square at or after `i`, in rank-major
/// order, holding side `c`'s king.
pub open spec fn first_king(b: Seq<Option<ChessPiece>>, c: ChessColor, i: int) -> Option<int>
    decreases 64 - i,
{
    if i < 0 || i >= 64 {
        Option::None
    } else if b[i] == Option::Some(
        ChessPiece { color: c, piece_type: ChessPieceType::King },
    ) {
        Option::Some(i)
    } else {
        first_king(b, c, i + 1)
    }
}

/// If no square before `i` holds side `c`'s king, the scan for the first
/// king may as well start at `i`.
pub proof fn lemma_first_king_skip(b: Seq<Option<ChessPiece>>, c: ChessColor, i: int)
    requires
        0 <= i <= 64,
        forall|j: int|
            0 <= j < i ==> b[j] != Option::Some(
                ChessPiece { color: c, piece_type: ChessPieceType::King },
            ),
    ensures
        first_king(b, c, 0) == first_king(b, c, i),
    decreases i,
{
    if i > 0 {
        lemma_first_king_skip(b, c, i - 1);
    }
}

/// The board after the bare relocation of a move: the source square
/// emptied, its old contents placed on the destination.
pub open spec fn relocated_board(b: Seq<Option<ChessPiece>>, fi: int, ti: int) -> Seq<
    Option<ChessPiece>,
> {
    b.update(fi, Option::None).update(ti, b[fi])
}

/// Full legality of a candidate move: the source differs from the
/// destination and holds a piece of the side to move, the piece's full
/// movement rule admits the move, and after the bare relocation the
/// mover's king (the first one in rank-major order) exists and is not
/// attacked by the enemy.
pub open spec fn valid_move(s: StateModel, m: ChessMove) -> bool {
    let fr = m.from.rank.as_int();
    let ff = m.from.file.as_int();
    let tr = m.to.rank.as_int();
    let tf = m.to.file.as_int();
    let b2 = relocated_board(s.board, fr * 8 + ff, tr * 8 + tf);
    let s2 = StateModel { board: b2, ..s };
    &&& !(fr == tr && ff == tf)
    &&& at(s.board, fr, ff) matches Option::Some(p) && p.color == s.turn && piece_move_ok(
        s,
        s.turn,
        p.piece_type,
        fr,
        ff,
        tr,
        tf,
    )
    &&& match first_king(b2, s.turn, 0) {
        Option::Some(ki) => !square_attacked(s2, s.turn.opposite(), ki / 8, ki % 8),
        Option::None => false,
    }
}

} // verus!

//! The authoritative game state machine: the mutable game record, move
//! application, promotion, and the end-of-game detector.

use vstd::prelude::*;

use crate::chessmove::{
    at, ChessColor, ChessMove, ChessPiece, ChessPieceType, Chessboard, ChessboardLocation,
    CompressedChessboard, File, Rank,
};
use crate::protocol::{EndReason, GameEnd};
use crate::rules::{
    abs_diff, attacks_from, back_rank, first_king, in_range, lemma_first_king_skip,
    relocated_board, square_attacked, valid_move, StateModel,
};

verus! {

/// The authoritative record of one game: the board, the side to move, and
/// the derived flags that the special-move rules read.
#[derive(Clone, Debug)]
pub struct ChessState {
    pub board: Chessboard,
    pub turn: ChessColor,
    /// The file of a pawn that advanced two ranks on the immediately
    /// preceding move, if any.
    pub en_passant: Option<File>,
    /// Moves since the last capture or pawn move.
    pub fifty_move_rule: u8,
    /// A pawn stands on its final rank and the promotion choice is still
    /// owed; while set, further moves are rejected.
    pub should_promote: bool,
    pub white_king_moved: bool,
    pub black_king_moved: bool,
    pub white_a_rook_moved: bool,
    pub black_a_rook_moved: bool,
    pub white_h_rook_moved: bool,
    pub black_h_rook_moved: bool,
}

impl View for ChessState {
    type V = StateModel;

    open spec fn view(&self) -> StateModel {
        StateModel {
            board: self.board@,
            turn: self.turn,
            en_passant: self.en_passant,
            fifty_move_rule: self.fifty_move_rule,
            should_promote: self.should_promote,
            white_king_moved: self.white_king_moved,
            black_king_moved: self.black_king_moved,
            white_a_rook_moved: self.white_a_rook_moved,
            black_a_rook_moved: self.black_a_rook_moved,
            white_h_rook_moved: self.white_h_rook_moved,
            black_h_rook_moved: self.black_h_rook_moved,
        }
    }
}

/// The recoverable rejection of a move or promotion request.
#[derive(Clone, Copy, Debug, PartialEq, Eq, Structural)]
pub struct InvalidMoveError;

/// What the starting position holds on back-rank file `f`.
pub open spec fn back_rank_kind(f: int) -> ChessPieceType {
    if f == 0 || f == 7 {
        ChessPieceType::Rook
    } else if f == 1 || f == 6 {
        ChessPieceType::Knight
    } else if f == 2 || f == 5 {
        ChessPieceType::Bishop
    } else if f == 3 {
        ChessPieceType::Queen
    } else {
        ChessPieceType::King
    }
}

/// What the standard starting position holds on flat square `i`.
pub open spec fn starting_square(i: int) -> Option<ChessPiece> {
    let r = i / 8;
    let f = i % 8;
    if r == 0 {
        Option::Some(ChessPiece { color: ChessColor::White, piece_type: back_rank_kind(f) })
    } else if r == 1 {
        Option::Some(ChessPiece { color: ChessColor::White, piece_type: ChessPieceType::Pawn })
    } else if r == 6 {
        Option::Some(ChessPiece { color: ChessColor::Black, piece_type: ChessPieceType::Pawn })
    } else if r == 7 {
        Option::Some(ChessPiece { color: ChessColor::Black, piece_type: back_rank_kind(f) })
    } else {
        Option::None
    }
}

/// The model of the standard starting position: White to move, no flags
/// set, the clock at zero.
pub open spec fn initial_model() -> StateModel {
    StateModel {
        board: Seq::new(64, |i: int| starting_square(i)),
        turn: ChessColor::White,
        en_passant: Option::None,
        fifty_move_rule: 0,
        should_promote: false,
        white_king_moved: false,
        black_king_moved: false,
        white_a_rook_moved: false,
        black_a_rook_moved: false,
        white_h_rook_moved: false,
        black_h_rook_moved: false,
    }
}

/// The square moved from holds a pawn.
pub open spec fn is_pawn_move(s: StateModel, m: ChessMove) -> bool {
    at(s.board, m.from.rank.as_int(), m.from.file.as_int()) matches Option::Some(p)
        && p.piece_type == ChessPieceType::Pawn
}

/// The move is an en-passant capture: a pawn changes file onto an empty
/// square, so the pawn behind the destination is taken instead.
pub open spec fn is_ep_capture(s: StateModel, m: ChessMove) -> bool {
    &&& is_pawn_move(s, m)
    &&& at(s.board, m.to.rank.as_int(), m.to.file.as_int()) is None
    &&& m.to.file != m.from.file
}

/// The destination square holds a piece, which the move captures.
pub open spec fn is_capture(s: StateModel, m: ChessMove) -> bool {
    at(s.board, m.to.rank.as_int(), m.to.file.as_int()) is Some
}

/// The half-move clock after a move: zero on a capture or pawn move, one
/// more otherwise.
pub open spec fn clock_after(s: StateModel, m: ChessMove) -> u8 {
    if is_capture(s, m) || is_pawn_move(s, m) {
        0u8
    } else {
        (s.fifty_move_rule + 1) as u8
    }
}

/// The en-passant flag after a move: the destination file when a pawn
/// advanced exactly two ranks, cleared otherwise.
pub open spec fn ep_after(s: StateModel, m: ChessMove) -> Option<File> {
    if is_pawn_move(s, m) && abs_diff(m.from.rank.as_int(), m.to.rank.as_int()) == 2 {
        Option::Some(m.to.file)
    } else {
        Option::None
    }
}

/// The rank on which a pawn of side `c` promotes.
pub open spec fn promotion_rank(c: ChessColor) -> int {
    if c == ChessColor::White {
        7
    } else {
        0
    }
}

/// The move is a castling move: a king moves two files from its start
/// square, so the matching rook is relocated as well.
pub open spec fn is_castle_move(s: StateModel, m: ChessMove) -> bool {
    &&& at(s.board, m.from.rank.as_int(), m.from.file.as_int()) matches Option::Some(p)
        && p.piece_type == ChessPieceType::King && m.from.rank.as_int() == back_rank(p.color)
    &&& m.from.file.as_int() == 4
    &&& abs_diff(m.from.file.as_int(), m.to.file.as_int()) == 2
}

/// A move requires a redraw of more than its two named squares: an
/// en-passant capture or a castling move.
pub open spec fn move_redraw(s: StateModel, m: ChessMove) -> bool {
    is_ep_capture(s, m) || is_castle_move(s, m)
}

/// The board after the moved piece is relocated: the captured en-passant
/// pawn removed, the source emptied, the piece placed on the destination.
pub open spec fn board_after_basic(s: StateModel, m: ChessMove) -> Seq<Option<ChessPiece>> {
    let fr = m.from.rank.as_int();
    let ff = m.from.file.as_int();
    let tr = m.to.rank.as_int();
    let tf = m.to.file.as_int();
    let p = at(s.board, fr, ff);
    let b1 = s.board.update(fr * 8 + ff, Option::None);
    let b2 = if is_ep_capture(s, m) {
        b1.update(fr * 8 + tf, Option::None)
    } else {
        b1
    };
    b2.update(tr * 8 + tf, p)
}

/// The board after a move: the relocation above, and on a castling move
/// the rook relocated from its corner to the square beside the king.
pub open spec fn board_after_move(s: StateModel, m: ChessMove) -> Seq<Option<ChessPiece>> {
    let fr = m.from.rank.as_int();
    let tf = m.to.file.as_int();
    let b3 = board_after_basic(s, m);
    if is_castle_move(s, m) {
        if tf == 6 {
            b3.update(fr * 8 + 7, Option::None).update(fr * 8 + 5, b3[fr * 8 + 7])
        } else {
            b3.update(fr * 8 + 0, Option::None).update(fr * 8 + 3, b3[fr * 8 + 0])
        }
    } else {
        b3
    }
}

/// Whether the move vacates or occupies the square on rank `r` and file
/// `f`, which irreversibly sets the matching castling-rights flag.
pub open spec fn touches(m: ChessMove, r: int, f: int) -> bool {
    m.from.rank.as_int() == r && m.from.file.as_int() == f || m.to.rank.as_int() == r
        && m.to.file.as_int() == f
}

/// The promotion flag after a move: a pawn stands on its final rank.
pub open spec fn promote_after(s: StateModel, m: ChessMove) -> bool {
    is_pawn_move(s, m) && (at(s.board, m.from.rank.as_int(), m.from.file.as_int())
        matches Option::Some(p) && m.to.rank.as_int() == promotion_rank(p.color))
}

/// The whole state after an accepted move: the board rewritten, the clock
/// and the en-passant and castling-rights flags updated, promotion
/// suspended when owed, and the turn passed to the other side.
pub open spec fn apply_move_model(s: StateModel, m: ChessMove) -> StateModel {
    StateModel {
        board: board_after_move(s, m),
        turn: s.turn.opposite(),
        en_passant: ep_after(s, m),
        fifty_move_rule: clock_after(s, m),
        should_promote: promote_after(s, m),
        white_king_moved: s.white_king_moved || touches(m, 0, 4),
        black_king_moved: s.black_king_moved || touches(m, 7, 4),
        white_a_rook_moved: s.white_a_rook_moved || touches(m, 0, 0),
        black_a_rook_moved: s.black_a_rook_moved || touches(m, 7, 0),
        white_h_rook_moved: s.white_h_rook_moved || touches(m, 0, 7),
        black_h_rook_moved: s.black_h_rook_moved || touches(m, 7, 7),
    }
}

/// The file of the first pawn of side `c`, at or after file `f`, standing
/// on `c`'s promotion rank.
pub open spec fn first_pawn_file(b: Seq<Option<ChessPiece>>, c: ChessColor, f: int) -> Option<int>
    decreases 8 - f,
{
    if f < 0 || f >= 8 {
        Option::None
    } else if at(b, promotion_rank(c), f) == Option::Some(
        ChessPiece { color: c, piece_type: ChessPieceType::Pawn },
    ) {
        Option::Some(f)
    } else {
        first_pawn_file(b, c, f + 1)
    }
}

/// If no file before `f` holds a promoting pawn of side `c`, the scan for
/// the first one may as well start at `f`.
pub proof fn lemma_first_pawn_skip(b: Seq<Option<ChessPiece>>, c: ChessColor, f: int)
    requires
        0 <= f <= 8,
        forall|j: int|
            0 <= j < f ==> at(b, promotion_rank(c), j) != Option::Some(
                ChessPiece { color: c, piece_type: ChessPieceType::Pawn },
            ),
    ensures
        first_pawn_file(b, c, 0) == first_pawn_file(b, c, f),
    decreases f,
{
    if f > 0 {
        lemma_first_pawn_skip(b, c, f - 1);
    }
}

/// The state after a promotion choice is applied: the first promoting
/// pawn of the side that just moved replaced by the chosen piece, and the
/// suspension lifted.
pub open spec fn promoted_model(s: StateModel, kind: ChessPieceType) -> StateModel {
    let c = s.turn.opposite();
    match first_pawn_file(s.board, c, 0) {
        Option::Some(f) => StateModel {
            board: s.board.update(
                promotion_rank(c) * 8 + f,
                Option::Some(ChessPiece { color: c, piece_type: kind }),
            ),
            should_promote: false,
            ..s
        },
        Option::None => s,
    }
}

/// The number of history entries equal to the compacted board `w`.
pub open spec fn count_eq(h: Seq<Seq<u32>>, w: Seq<u32>) -> int
    decreases h.len(),
{
    if h.len() == 0 {
        0
    } else {
        count_eq(h.drop_last(), w) + if h.last() == w {
            1int
        } else {
            0int
        }
    }
}

/// The number of occupied squares at or after flat square `i`.
pub open spec fn piece_count_from(b: Seq<Option<ChessPiece>>, i: int) -> int
    decreases 64 - i,
{
    if i < 0 || i >= 64 {
        0
    } else {
        piece_count_from(b, i + 1) + if b[i] is Some {
            1int
        } else {
            0int
        }
    }
}

/// The square holds a piece other than a king.
pub open spec fn is_non_king(sq: Option<ChessPiece>) -> bool {
    sq matches Option::Some(p) && p.piece_type != ChessPieceType::King
}

/// The first piece other than a king at or after flat square `i`, in
/// rank-major order.
pub open spec fn first_non_king(b: Seq<Option<ChessPiece>>, i: int) -> Option<ChessPiece>
    decreases 64 - i,
{
    if i < 0 || i >= 64 {
        Option::None
    } else if is_non_king(b[i]) {
        b[i]
    } else {
        first_non_king(b, i + 1)
    }
}

/// If no piece other than a king stands before square `i`, the scan for
/// the first one may as well start at `i`.
pub proof fn lemma_first_non_king_skip(b: Seq<Option<ChessPiece>>, i: int)
    requires
        0 <= i <= 64,
        forall|j: int| 0 <= j < i ==> !is_non_king(b[j]),
    ensures
        first_non_king(b, 0) == first_non_king(b, i),
    decreases i,
{
    if i > 0 {
        lemma_first_non_king_skip(b, i - 1);
    }
}

/// The move whose source is flat square `fi` and destination flat square
/// `ti`.
pub open spec fn move_of_indices(fi: int, ti: int) -> ChessMove {
    ChessMove {
        from: ChessboardLocation {
            rank: crate::chessmove::rank_of_int(fi / 8),
            file: crate::chessmove::file_of_int(fi % 8),
        },
        to: ChessboardLocation {
            rank: crate::chessmove::rank_of_int(ti / 8),
            file: crate::chessmove::file_of_int(ti % 8),
        },
    }
}

/// Some fully legal move exists for the side to move.
pub open spec fn any_valid_move(s: StateModel) -> bool {
    exists|fi: int, ti: int|
        0 <= fi < 64 && 0 <= ti < 64 && #[trigger] valid_move(s, move_of_indices(fi, ti))
}

/// The views of the stored history entries.
pub open spec fn history_views(h: Seq<CompressedChessboard>) -> Seq<Seq<u32>> {
    Seq::new(h.len(), |i: int| h[i]@)
}

/// The end-of-game classification, first match winning: the fifty-move
/// draw, the threefold-repetition draw, the insufficient-material draw
/// when only a bare minor piece accompanies the kings, then — only when
/// no legal move exists — checkmate for the other side if the mover's
/// king is attacked, else the stalemate draw. `None` while the game goes
/// on.
pub open spec fn game_end_spec(s: StateModel, h: Seq<Seq<u32>>) -> Option<GameEnd> {
    if s.fifty_move_rule == 50 {
        Option::Some(GameEnd::Draw(EndReason::FiftyMoveRule))
    } else if count_eq(h, crate::chessmove::compressed_board(s.board)) == 3 {
        Option::Some(GameEnd::Draw(EndReason::RepetitionOfMoves))
    } else if piece_count_from(s.board, 0) == 3 && (first_non_king(s.board, 0)
        matches Option::Some(p) && (p.piece_type == ChessPieceType::Bishop || p.piece_type
        == ChessPieceType::Knight)) {
        Option::Some(GameEnd::Draw(EndReason::InsufficientMaterial))
    } else if any_valid_move(s) {
        Option::None
    } else {
        match first_king(s.board, s.turn, 0) {
            Option::None => Option::Some(GameEnd::Draw(EndReason::Checkmate)),
            Option::Some(ki) => if square_attacked(s, s.turn.opposite(), ki / 8, ki % 8) {
                if s.turn == ChessColor::White {
                    Option::Some(GameEnd::Black(EndReason::Checkmate))
                } else {
                    Option::Some(GameEnd::White(EndReason::Checkmate))
                }
            } else {
                Option::Some(GameEnd::Draw(EndReason::Stalemate))
            },
        }
    }
}

/// Returns what the starting position holds on flat square `i`.
fn starting_square_exec(i: usize) -> (r: Option<ChessPiece>)
    requires
        i < 64,
    ensures
        r == starting_square(i as int),
{
    let rank = i / 8;
    let f = i % 8;
    if rank == 0 || rank == 7 {
        let color = if rank == 0 {
            ChessColor::White
        } else {
            ChessColor::Black
        };
        let kind = if f == 0 || f == 7 {
            ChessPieceType::Rook
        } else if f == 1 || f == 6 {
            ChessPieceType::Knight
        } else if f == 2 || f == 5 {
            ChessPieceType::Bishop
        } else if f == 3 {
            ChessPieceType::Queen
        } else {
            ChessPieceType::King
        };
        Option::Some(ChessPiece { color, piece_type: kind })
    } else if rank == 1 {
        Option::Some(ChessPiece { color: ChessColor::White, piece_type: ChessPieceType::Pawn })
    } else if rank == 6 {
        Option::Some(ChessPiece { color: ChessColor::Black, piece_type: ChessPieceType::Pawn })
    } else {
        Option::None
    }
}

impl Default for ChessState {
    /// The standard starting position.
    fn default() -> (r: ChessState)
        ensures
            r@ == initial_model(),
            r@.wf(),
    {
        let mut board: Chessboard = Vec::new();
        let mut i: usize = 0;
        while i < 64
            invariant
                i <= 64,
                board@.len() == i,
                forall|j: int| 0 <= j < i ==> board@[j] == starting_square(j),
            decreases 64 - i,
        {
            board.push(starting_square_exec(i));
            i = i + 1;
        }
        let r = ChessState {
            board,
            turn: ChessColor::White,
            en_passant: Option::None,
            fifty_move_rule: 0,
            should_promote: false,
            white_king_moved: false,
            black_king_moved: false,
            white_a_rook_moved: false,
            black_a_rook_moved: false,
            white_h_rook_moved: false,
            black_h_rook_moved: false,
        };
        proof {
            assert(r@.board =~= initial_model().board);
        }
        r
    }
}

impl ChessState {
    /// Returns the contents of one square.
    pub fn get_location(&self, location: ChessboardLocation) -> (r: Option<ChessPiece>)
        requires
            self@.wf(),
        ensures
            r == at(self@.board, location.rank.as_int(), location.file.as_int()),
    {
        let x = location.rank.to_u8() as usize;
        let y = location.file.to_u8() as usize;
        self.board[x * 8 + y]
    }

    /// Replaces the contents of one square.
    fn set_location(&mut self, location: ChessboardLocation, piece: Option<ChessPiece>)
        requires
            old(self)@.wf(),
        ensures
            final(self)@ == (StateModel {
                board: old(self)@.board.update(location.index(), piece),
                ..old(self)@
            }),
            final(self)@.wf(),
    {
        let x = location.rank.to_u8() as usize;
        let y = location.file.to_u8() as usize;
        self.board[x * 8 + y] = piece;
    }

    /// Removes and returns the contents of one square.
    fn take_piece(&mut self, location: ChessboardLocation) -> (r: Option<ChessPiece>)
        requires
            old(self)@.wf(),
        ensures
            r == at(old(self)@.board, location.rank.as_int(), location.file.as_int()),
            final(self)@ == (StateModel {
                board: old(self)@.board.update(location.index(), Option::None),
                ..old(self)@
            }),
            final(self)@.wf(),
    {
        let r = self.get_location(location);
        self.set_location(location, Option::None);
        r
    }

    /// Returns the contents of the square on rank `r` and file `f`.
    pub(crate) fn sq(&self, r: u8, f: u8) -> (p: Option<ChessPiece>)
        requires
            self@.wf(),
            r < 8,
            f < 8,
        ensures
            p == at(self@.board, r as int, f as int),
    {
        self.board[(r as usize) * 8 + (f as usize)]
    }

    /// Returns whether the square on rank `r` and file `f` is attacked by
    /// the side not to move, by sweeping every square for a piece with a
    /// basic move landing there.
    #[verifier::loop_isolation(false)]
    pub(crate) fn is_attacked_square(&self, r: u8, f: u8) -> (b: bool)
        requires
            self@.wf(),
            r < 8,
            f < 8,
        ensures
            b == square_attacked(self@, self@.turn.opposite(), r as int, f as int),
    {
        let c = self.turn.not();
        let mut idx: usize = 0;
        while idx < 64
            invariant
                self@.wf(),
                r < 8,
                f < 8,
                c == self@.turn.opposite(),
                idx <= 64,
                forall|fr: int, ff: int|
                    in_range(fr, ff) && fr * 8 + ff < idx ==> !#[trigger] attacks_from(
                        self@,
                        c,
                        fr,
                        ff,
                        r as int,
                        f as int,
                    ),
            decreases 64 - idx,
        {
            let frr = (idx / 8) as u8;
            let fff = (idx % 8) as u8;
            if !(frr == r && fff == f) {
                if let Option::Some(piece) = self.sq(frr, fff) {
                    if piece.color == c {
                        let m = ChessMove {
                            from: ChessboardLocation::new(frr, fff),
                            to: ChessboardLocation::new(r, f),
                        };
                        proof {
                            crate::chessmove::lemma_rank_roundtrip(frr as int);
                            crate::chessmove::lemma_file_roundtrip(fff as int);
                            crate::chessmove::lemma_rank_roundtrip(r as int);
                            crate::chessmove::lemma_file_roundtrip(f as int);
                        }
                        if crate::moves::basic_move(self, c, piece.piece_type, m) {
                            proof {
                                assert(attacks_from(
                                    self@,
                                    c,
                                    frr as int,
                                    fff as int,
                                    r as int,
                                    f as int,
                                ));
                            }
                            return true;
                        }
                    }
                }
            }
            proof {
                assert(!attacks_from(self@, c, frr as int, fff as int, r as int, f as int));
                assert(forall|fr: int, ff: int|
                    in_range(fr, ff) && fr * 8 + ff == idx ==> fr == idx as int / 8 && ff == idx
                        as int % 8);
            }
            idx = idx + 1;
        }
        proof {
            assert(forall|fr: int, ff: int|
                in_range(fr, ff) ==> fr * 8 + ff < 64 && !#[trigger] attacks_from(
                    self@,
                    c,
                    fr,
                    ff,
                    r as int,
                    f as int,
                ));
        }
        false
    }

    /// Returns whether a square is attacked by the side not to move.
    pub fn is_attacked(&self, location: ChessboardLocation) -> (b: bool)
        requires
            self@.wf(),
        ensures
            b == square_attacked(
                self@,
                self@.turn.opposite(),
                location.rank.as_int(),
                location.file.as_int(),
            ),
    {
        self.is_attacked_square(location.rank.to_u8(), location.file.to_u8())
    }

    /// Returns a copy of the state with the same view.
    pub fn snapshot(&self) -> (r: ChessState)
        requires
            self@.wf(),
        ensures
            r@ == self@,
    {
        let mut board: Chessboard = Vec::new();
        let mut i: usize = 0;
        while i < 64
            invariant
                self@.wf(),
                i <= 64,
                board@.len() == i,
                forall|j: int| 0 <= j < i ==> board@[j] == self@.board[j],
            decreases 64 - i,
        {
            board.push(self.board[i]);
            i = i + 1;
        }
        proof {
            assert(board@ =~= self@.board);
        }
        ChessState {
            board,
            turn: self.turn,
            en_passant: self.en_passant,
            fifty_move_rule: self.fifty_move_rule,
            should_promote: self.should_promote,
            white_king_moved: self.white_king_moved,
            black_king_moved: self.black_king_moved,
            white_a_rook_moved: self.white_a_rook_moved,
            black_a_rook_moved: self.black_a_rook_moved,
            white_h_rook_moved: self.white_h_rook_moved,
            black_h_rook_moved: self.black_h_rook_moved,
        }
    }

    /// Returns whether a candidate move is fully legal: the moved piece
    /// belongs to the side to move, its movement rule admits the move, and
    /// the move does not leave the mover's own king attacked.
    #[verifier::loop_isolation(false)]
    pub fn is_valid_move(&self, chess_move: ChessMove) -> (r: bool)
        requires
            self@.wf(),
        ensures
            r == valid_move(self@, chess_move),
    {
        let ghost fr = chess_move.from.rank.as_int();
        let ghost ff = chess_move.from.file.as_int();
        let ghost tr = chess_move.to.rank.as_int();
        let ghost tf = chess_move.to.file.as_int();
        if chess_move.to == chess_move.from {
            return false;
        }
        proof {
            crate::chessmove::lemma_rank_injective(chess_move.from.rank, chess_move.to.rank);
            crate::chessmove::lemma_file_injective(chess_move.from.file, chess_move.to.file);
        }
        let piece = match self.get_location(chess_move.from) {
            Option::Some(p) => p,
            Option::None => {
                return false;
            },
        };
        if piece.color != self.turn {
            return false;
        }
        if !crate::moves::full_move(self, piece.piece_type, chess_move) {
            return false;
        }
        let mut copy = self.snapshot();
        let p = copy.take_piece(chess_move.from);
        copy.set_location(chess_move.to, p);
        proof {
            assert(copy@.board == relocated_board(self@.board, fr * 8 + ff, tr * 8 + tf));
        }
        let king_piece = ChessPiece { color: self.turn, piece_type: ChessPieceType::King };
        let mut idx: usize = 0;
        while idx < 64
            invariant
                copy@.wf(),
                idx <= 64,
                copy@.turn == self@.turn,
                king_piece == (ChessPiece {
                    color: self@.turn,
                    piece_type: ChessPieceType::King,
                }),
                forall|j: int| 0 <= j < idx ==> copy@.board[j] != Option::Some(king_piece),
            decreases 64 - idx,
        {
            let found = match copy.board[idx] {
                Option::Some(q) => q.color == king_piece.color && q.piece_type
                    == king_piece.piece_type,
                Option::None => false,
            };
            if found {
                proof {
                    lemma_first_king_skip(copy@.board, self@.turn, idx as int);
                    assert(first_king(copy@.board, self@.turn, 0) == Option::Some(idx as int));
                }
                let kr = (idx / 8) as u8;
                let kf = (idx % 8) as u8;
                return !copy.is_attacked_square(kr, kf);
            }
            idx = idx + 1;
        }
        proof {
            lemma_first_king_skip(copy@.board, self@.turn, 64);
            assert(first_king(copy@.board, self@.turn, 0) is None);
        }
        false
    }

    /// Applies a candidate move if it is fully legal and no promotion
    /// choice is owed; otherwise rejects it and leaves the state exactly
    /// as it was. On success returns whether more than the two named
    /// squares changed, so a full redraw is required.
    pub fn move_piece(&mut self, chess_move: ChessMove) -> (r: Result<bool, InvalidMoveError>)
        requires
            old(self)@.wf(),
            old(self)@.fifty_move_rule < 255,
        ensures
            final(self)@.wf(),
            r is Ok <==> (!old(self)@.should_promote && valid_move(old(self)@, chess_move)),
            r is Err ==> final(self)@ == old(self)@,
            r matches Result::Ok(redraw) ==> final(self)@ == apply_move_model(
                old(self)@,
                chess_move,
            ) && redraw == move_redraw(old(self)@, chess_move),
    {
        if self.should_promote {
            return Result::Err(InvalidMoveError);
        }
        if !self.is_valid_move(chess_move) {
            return Result::Err(InvalidMoveError);
        }
        let out = self.apply_move(chess_move);
        Result::Ok(out)
    }

    /// Performs the state update of an accepted move; the legality check
    /// has already been made.
    #[verifier::rlimit(50)]
    fn apply_move(&mut self, chess_move: ChessMove) -> (out: bool)
        requires
            old(self)@.wf(),
            old(self)@.fifty_move_rule < 255,
            !(chess_move.from.rank.as_int() == chess_move.to.rank.as_int()
                && chess_move.from.file.as_int() == chess_move.to.file.as_int()),
        ensures
            final(self)@.wf(),
            final(self)@ == apply_move_model(old(self)@, chess_move),
            out == move_redraw(old(self)@, chess_move),
    {
        let ghost s0 = self@;
        let piece = self.get_location(chess_move.from);
        let is_pawn = match piece {
            Option::Some(p) => p.piece_type == ChessPieceType::Pawn,
            Option::None => false,
        };
        let is_king = match piece {
            Option::Some(p) => p.piece_type == ChessPieceType::King,
            Option::None => false,
        };
        let on_back_rank = match piece {
            Option::Some(p) => chess_move.from.rank.to_u8() == (match p.color {
                ChessColor::White => 0u8,
                ChessColor::Black => 7u8,
            }),
            Option::None => false,
        };
        let castles = is_king && on_back_rank && chess_move.from.file.to_u8() == 4
            && abs_diff_file(chess_move.from.file, chess_move.to.file) == 2;
        let promo = match piece {
            Option::Some(p) => is_pawn && chess_move.to.rank.to_u8() == (match p.color {
                ChessColor::White => 7u8,
                ChessColor::Black => 0u8,
            }),
            Option::None => false,
        };
        proof {
            assert(castles == is_castle_move(s0, chess_move));
            assert(promo == promote_after(s0, chess_move));
        }
        let ep_taken = self.apply_relocation(chess_move);
        self.apply_rights(chess_move);
        let mut out = ep_taken;
        if castles {
            self.apply_rook_shift(chess_move);
            out = true;
        }
        self.should_promote = promo;
        self.turn = self.turn.not();
        proof {
            assert(self@.board == board_after_move(s0, chess_move));
            assert(self@ == apply_move_model(s0, chess_move));
        }
        out
    }

    /// Relocates the moved piece: removes a pawn captured en passant,
    /// updates the half-move clock and the en-passant flag, and places the
    /// piece on its destination.
    #[verifier::rlimit(50)]
    fn apply_relocation(&mut self, chess_move: ChessMove) -> (out: bool)
        requires
            old(self)@.wf(),
            old(self)@.fifty_move_rule < 255,
            !(chess_move.from.rank.as_int() == chess_move.to.rank.as_int()
                && chess_move.from.file.as_int() == chess_move.to.file.as_int()),
        ensures
            final(self)@ == (StateModel {
                board: board_after_basic(old(self)@, chess_move),
                fifty_move_rule: clock_after(old(self)@, chess_move),
                en_passant: ep_after(old(self)@, chess_move),
                ..old(self)@
            }),
            out == is_ep_capture(old(self)@, chess_move),
    {
        let ghost s0 = self@;
        let ghost fr = chess_move.from.rank.as_int();
        let ghost ff = chess_move.from.file.as_int();
        let ghost tr = chess_move.to.rank.as_int();
        let ghost tf = chess_move.to.file.as_int();
        let ghost fi = fr * 8 + ff;
        let ghost ti = tr * 8 + tf;
        proof {
            crate::chessmove::lemma_rank_injective(chess_move.from.rank, chess_move.to.rank);
            crate::chessmove::lemma_file_injective(chess_move.from.file, chess_move.to.file);
            assert(0 <= fr < 8 && 0 <= ff < 8 && 0 <= tr < 8 && 0 <= tf < 8);
            assert(fi != ti);
        }
        let ghost b1 = s0.board.update(fi, Option::None);
        let piece = self.take_piece(chess_move.from);
        proof {
            assert(piece == at(s0.board, fr, ff));
            assert(self@.board == b1);
        }
        let is_pawn = match piece {
            Option::Some(p) => p.piece_type == ChessPieceType::Pawn,
            Option::None => false,
        };
        // en-passant capture: remove the pawn that was passed over
        let out = if is_pawn && self.get_location(chess_move.to).is_none()
            && chess_move.to.file != chess_move.from.file {
            self.set_location(
                ChessboardLocation { rank: chess_move.from.rank, file: chess_move.to.file },
                Option::None,
            );
            true
        } else {
            false
        };
        let ghost b2 = if is_ep_capture(s0, chess_move) {
            b1.update(fr * 8 + tf, Option::None)
        } else {
            b1
        };
        proof {
            assert(out == is_ep_capture(s0, chess_move));
            assert(self@.board == b2);
            assert(at(b2, tr, tf) == at(s0.board, tr, tf));
        }
        // half-move clock
        if self.get_location(chess_move.to).is_some() || is_pawn {
            self.fifty_move_rule = 0;
        } else {
            self.fifty_move_rule = self.fifty_move_rule + 1;
        }
        self.set_location(chess_move.to, piece);
        proof {
            assert(self@.board == board_after_basic(s0, chess_move));
            assert(self@.fifty_move_rule == clock_after(s0, chess_move));
        }
        // en-passant flag
        if is_pawn && abs_diff_rank(chess_move.from.rank, chess_move.to.rank) == 2 {
            self.en_passant = Option::Some(chess_move.to.file);
        } else {
            self.en_passant = Option::None;
        }
        out
    }

    /// Irreversibly sets the castling-rights flags whose king or rook
    /// start square the move vacates or occupies.
    fn apply_rights(&mut self, chess_move: ChessMove)
        ensures
            final(self)@ == (StateModel {
                white_king_moved: old(self)@.white_king_moved || touches(chess_move, 0, 4),
                black_king_moved: old(self)@.black_king_moved || touches(chess_move, 7, 4),
                white_a_rook_moved: old(self)@.white_a_rook_moved || touches(chess_move, 0, 0),
                black_a_rook_moved: old(self)@.black_a_rook_moved || touches(chess_move, 7, 0),
                white_h_rook_moved: old(self)@.white_h_rook_moved || touches(chess_move, 0, 7),
                black_h_rook_moved: old(self)@.black_h_rook_moved || touches(chess_move, 7, 7),
                ..old(self)@
            }),
    {
        if touches_square(chess_move, 0, 0) {
            self.white_a_rook_moved = true;
        }
        if touches_square(chess_move, 0, 7) {
            self.white_h_rook_moved = true;
        }
        if touches_square(chess_move, 7, 0) {
            self.black_a_rook_moved = true;
        }
        if touches_square(chess_move, 7, 7) {
            self.black_h_rook_moved = true;
        }
        if touches_square(chess_move, 0, 4) {
            self.white_king_moved = true;
        }
        if touches_square(chess_move, 7, 4) {
            self.black_king_moved = true;
        }
    }

    /// Relocates the rook of a castling move: from the H corner to the
    /// king's side for a king-side castle, from the A corner otherwise.
    fn apply_rook_shift(&mut self, chess_move: ChessMove)
        requires
            old(self)@.wf(),
        ensures
            final(self)@ == (StateModel {
                board: if chess_move.to.file.as_int() == 6 {
                    old(self)@.board.update(
                        chess_move.from.rank.as_int() * 8 + 7,
                        Option::None,
                    ).update(
                        chess_move.from.rank.as_int() * 8 + 5,
                        old(self)@.board[chess_move.from.rank.as_int() * 8 + 7],
                    )
                } else {
                    old(self)@.board.update(
                        chess_move.from.rank.as_int() * 8 + 0,
                        Option::None,
                    ).update(
                        chess_move.from.rank.as_int() * 8 + 3,
                        old(self)@.board[chess_move.from.rank.as_int() * 8 + 0],
                    )
                },
                ..old(self)@
            }),
    {
        if chess_move.to.file.to_u8() == 6 {
            let rook = self.take_piece(
                ChessboardLocation { rank: chess_move.from.rank, file: File::H },
            );
            self.set_location(
                ChessboardLocation { rank: chess_move.from.rank, file: File::F },
                rook,
            );
        } else {
            let rook = self.take_piece(
                ChessboardLocation { rank: chess_move.from.rank, file: File::A },
            );
            self.set_location(
                ChessboardLocation { rank: chess_move.from.rank, file: File::D },
                rook,
            );
        }
    }

    /// Applies the promotion choice: replaces the promoting pawn of the
    /// side that just moved by the chosen piece and lifts the suspension.
    /// Rejected when no promotion is owed, when the chosen kind is a king
    /// or a pawn, or when no promoting pawn stands on the final rank.
    #[verifier::loop_isolation(false)]
    pub fn promote(&mut self, piece_type: ChessPieceType) -> (r: Result<(), InvalidMoveError>)
        requires
            old(self)@.wf(),
        ensures
            final(self)@.wf(),
            r is Ok <==> (old(self)@.should_promote && piece_type != ChessPieceType::King
                && piece_type != ChessPieceType::Pawn && first_pawn_file(
                old(self)@.board,
                old(self)@.turn.opposite(),
                0,
            ) is Some),
            r is Err ==> final(self)@ == old(self)@,
            r is Ok ==> final(self)@ == promoted_model(old(self)@, piece_type),
    {
        if !self.should_promote {
            return Result::Err(InvalidMoveError);
        }
        let is_king = match piece_type {
            ChessPieceType::King => true,
            _ => false,
        };
        let is_pawn = match piece_type {
            ChessPieceType::Pawn => true,
            _ => false,
        };
        if is_king || is_pawn {
            return Result::Err(InvalidMoveError);
        }
        let c = self.turn.not();
        let pr: u8 = match c {
            ChessColor::White => 7,
            ChessColor::Black => 0,
        };
        let mut f: u8 = 0;
        while f < 8
            invariant
                self@ == old(self)@,
                self@.wf(),
                f <= 8,
                c == self@.turn.opposite(),
                pr == promotion_rank(c),
                forall|j: int|
                    0 <= j < f ==> at(self@.board, promotion_rank(c), j) != Option::Some(
                        ChessPiece { color: c, piece_type: ChessPieceType::Pawn },
                    ),
            decreases 8 - f,
        {
            let found = match self.sq(pr, f) {
                Option::Some(p) => p.color == c && p.piece_type == ChessPieceType::Pawn,
                Option::None => false,
            };
            if found {
                proof {
                    lemma_first_pawn_skip(self@.board, c, f as int);
                    assert(first_pawn_file(self@.board, c, 0) == Option::Some(f as int));
                }
                let ghost s0 = self@;
                self.set_location(
                    ChessboardLocation { rank: Rank::from(pr), file: File::from(f) },
                    Option::Some(ChessPiece { color: c, piece_type }),
                );
                self.should_promote = false;
                proof {
                    crate::chessmove::lemma_rank_roundtrip(pr as int);
                    crate::chessmove::lemma_file_roundtrip(f as int);
                    assert(self@ == promoted_model(s0, piece_type));
                }
                return Result::Ok(());
            }
            f = f + 1;
        }
        proof {
            lemma_first_pawn_skip(self@.board, c, 8);
            assert(first_pawn_file(self@.board, c, 0) is None);
        }
        Result::Err(InvalidMoveError)
    }

    /// Returns the first piece other than a king, in rank-major order.
    #[verifier::loop_isolation(false)]
    fn find_non_king(&self) -> (r: Option<ChessPiece>)
        requires
            self@.wf(),
        ensures
            r == first_non_king(self@.board, 0),
    {
        let mut j: usize = 0;
        while j < 64
            invariant
                j <= 64,
                forall|k: int| 0 <= k < j ==> !is_non_king(self@.board[k]),
            decreases 64 - j,
        {
            let found = match self.board[j] {
                Option::Some(p) => p.piece_type != ChessPieceType::King,
                Option::None => false,
            };
            if found {
                proof {
                    lemma_first_non_king_skip(self@.board, j as int);
                }
                return self.board[j];
            }
            j = j + 1;
        }
        proof {
            lemma_first_non_king_skip(self@.board, 64);
        }
        Option::None
    }

    /// Classifies the game after a completed move: one of the draw rules,
    /// a checkmate or stalemate when the side to move has no legal move,
    /// or `None` while the game goes on. `move_history` holds one
    /// compacted board per completed move.
    #[verifier::loop_isolation(false)]
    #[verifier::rlimit(100)]
    pub fn check_game_end(&self, move_history: &Vec<CompressedChessboard>) -> (r: Option<GameEnd>)
        requires
            self@.wf(),
        ensures
            r == game_end_spec(self@, history_views(move_history@)),
    {
        let ghost hist = history_views(move_history@);
        // fifty-move rule
        if self.fifty_move_rule == 50 {
            return Option::Some(GameEnd::Draw(EndReason::FiftyMoveRule));
        }
        // threefold repetition of the compacted board
        let w = crate::chessmove::compress_chessboard(&self.board);
        let mut n: u64 = 0;
        let mut i: usize = 0;
        while i < move_history.len()
            invariant
                i <= move_history@.len(),
                n == count_eq(hist.take(i as int), w@),
                n <= i,
            decreases move_history@.len() - i,
        {
            if compressed_eq(&move_history[i], &w) {
                n = n + 1;
            }
            proof {
                assert(hist.take(i + 1).drop_last() =~= hist.take(i as int));
                assert(hist.take(i + 1).last() == move_history@[i as int]@);
            }
            i = i + 1;
        }
        proof {
            assert(hist.take(move_history@.len() as int) =~= hist);
        }
        if n == 3 {
            return Option::Some(GameEnd::Draw(EndReason::RepetitionOfMoves));
        }
        // insufficient material: two kings and one minor piece
        let mut pieces: u8 = 0;
        let mut idx: usize = 0;
        while idx < 64
            invariant
                idx <= 64,
                pieces == piece_count_from(self@.board, 0) - piece_count_from(
                    self@.board,
                    idx as int,
                ),
                pieces <= idx,
            decreases 64 - idx,
        {
            if self.board[idx].is_some() {
                pieces = pieces + 1;
            }
            idx = idx + 1;
        }
        if pieces == 3 {
            let non_king = self.find_non_king();
            if let Option::Some(p) = non_king {
                let minor = match p.piece_type {
                    ChessPieceType::Bishop => true,
                    ChessPieceType::Knight => true,
                    _ => false,
                };
                if minor {
                    return Option::Some(GameEnd::Draw(EndReason::InsufficientMaterial));
                }
            }
        }
        // exhaustive scan for any fully legal move
        let mut k: usize = 0;
        while k < 4096
            invariant
                k <= 4096,
                forall|fi: int, ti: int|
                    0 <= fi < 64 && 0 <= ti < 64 && fi * 64 + ti < k ==> !#[trigger] valid_move(
                        self@,
                        move_of_indices(fi, ti),
                    ),
            decreases 4096 - k,
        {
            let fi = k / 64;
            let ti = k % 64;
            let m = ChessMove {
                from: ChessboardLocation::new((fi / 8) as u8, (fi % 8) as u8),
                to: ChessboardLocation::new((ti / 8) as u8, (ti % 8) as u8),
            };
            proof {
                assert(m == move_of_indices(fi as int, ti as int));
            }
            if self.is_valid_move(m) {
                proof {
                    assert(valid_move(self@, move_of_indices(fi as int, ti as int)));
                }
                return Option::None;
            }
            k = k + 1;
        }
        proof {
            assert(forall|fi: int, ti: int|
                0 <= fi < 64 && 0 <= ti < 64 ==> fi * 64 + ti < 4096 && !#[trigger] valid_move(
                    self@,
                    move_of_indices(fi, ti),
                ));
            assert(!any_valid_move(self@));
        }
        // no legal move: checkmate or stalemate by whether the king is
        // attacked
        let king_piece = ChessPiece { color: self.turn, piece_type: ChessPieceType::King };
        let mut idx2: usize = 0;
        while idx2 < 64
            invariant
                idx2 <= 64,
                forall|j: int| 0 <= j < idx2 ==> self@.board[j] != Option::Some(king_piece),
            decreases 64 - idx2,
        {
            let found = match self.board[idx2] {
                Option::Some(q) => q.color == king_piece.color && q.piece_type
                    == king_piece.piece_type,
                Option::None => false,
            };
            if found {
                proof {
                    lemma_first_king_skip(self@.board, self@.turn, idx2 as int);
                    assert(first_king(self@.board, self@.turn, 0) == Option::Some(idx2 as int));
                }
                let kr = (idx2 / 8) as u8;
                let kf = (idx2 % 8) as u8;
                if self.is_attacked_square(kr, kf) {
                    return match self.turn {
                        ChessColor::White => Option::Some(GameEnd::Black(EndReason::Checkmate)),
                        ChessColor::Black => Option::Some(GameEnd::White(EndReason::Checkmate)),
                    };
                }
                return Option::Some(GameEnd::Draw(EndReason::Stalemate));
            }
            idx2 = idx2 + 1;
        }
        proof {
            lemma_first_king_skip(self@.board, self@.turn, 64);
        }
        Option::Some(GameEnd::Draw(EndReason::Checkmate))
    }
}

/// Returns whether two compacted boards are bit-identical.
pub fn compressed_eq(a: &CompressedChessboard, b: &CompressedChessboard) -> (r: bool)
    ensures
        r == (a@ == b@),
{
    if a.len() != b.len() {
        proof {
            assert(a@.len() != b@.len());
        }
        return false;
    }
    let mut i: usize = 0;
    while i < a.len()
        invariant
            a@.len() == b@.len(),
            i <= a@.len(),
            forall|j: int| 0 <= j < i ==> a@[j] == b@[j],
        decreases a@.len() - i,
    {
        if a[i] != b[i] {
            return false;
        }
        i = i + 1;
    }
    proof {
        assert(a@ =~= b@);
    }
    true
}

/// Returns the absolute rank distance of a move.
fn abs_diff_rank(a: Rank, b: Rank) -> (r: u8)
    ensures
        r == abs_diff(a.as_int(), b.as_int()),
{
    crate::moves::abs_diff_u8(a.to_u8(), b.to_u8())
}

/// Returns the absolute file distance of a move.
fn abs_diff_file(a: File, b: File) -> (r: u8)
    ensures
        r == abs_diff(a.as_int(), b.as_int()),
{
    crate::moves::abs_diff_u8(a.to_u8(), b.to_u8())
}

/// Returns whether the move's source or destination is the square on rank
/// `r` and file `f`.
fn touches_square(m: ChessMove, r: u8, f: u8) -> (b: bool)
    ensures
        b == touches(m, r as int, f as int),
{
    m.from.rank.to_u8() == r && m.from.file.to_u8() == f || m.to.rank.to_u8() == r
        && m.to.file.to_u8() == f
}

} // verus!

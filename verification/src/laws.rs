//! Proved laws relating the engine's operations: reversibility of plain
//! relocations, the castling and en-passant side conditions, the clock
//! and repetition rules, faithfulness of the compact board encoding, and
//! the single-writer turn discipline of the session layer.

use vstd::prelude::*;

use crate::chessmove::{
    at, board_wf, compressed_board, lemma_piece_code_bound, lemma_row_word_bound, piece_code,
    pow16, row_word, ChessColor, ChessMove, ChessPiece,
};
use crate::chessstate::{
    apply_move_model, board_after_move, count_eq, ep_after, game_end_spec, is_capture,
    is_castle_move, is_ep_capture, is_pawn_move,
};
use crate::protocol::{EndReason, GameEnd};
use crate::rules::{
    abs_diff, back_rank, castle_ok, empty_at, relocated_board, square_attacked, valid_move,
    StateModel,
};
use crate::server::{move_accepted, turn_conn, GameModel};

verus! {

/// Applying a legal move that captures nothing, is no en-passant capture
/// and no castling move, and then relocating the moved piece back,
/// restores the board exactly as it was. The half-move clock and the
/// castling-rights flags are not restored by the inverse relocation: they
/// are irreversible by design. A capturing move is a named exception: the
/// captured piece cannot be restored by a relocation.
pub proof fn lemma_relocation_reversible(s: StateModel, m: ChessMove)
    requires
        s.wf(),
        valid_move(s, m),
        !is_capture(s, m),
        !is_ep_capture(s, m),
        !is_castle_move(s, m),
    ensures
        relocated_board(board_after_move(s, m), m.to.index(), m.from.index()) == s.board,
{
    let fi = m.from.index();
    let ti = m.to.index();
    crate::chessmove::lemma_rank_injective(m.from.rank, m.to.rank);
    crate::chessmove::lemma_file_injective(m.from.file, m.to.file);
    assert(fi != ti);
    assert(relocated_board(board_after_move(s, m), ti, fi) =~= s.board);
}

/// A legal castling move demands its full side conditions: the castling
/// rights of that side and wing intact, the back-rank squares between
/// king and rook empty, and neither the king's start square nor the
/// squares it crosses or lands on attacked by the enemy.
pub proof fn lemma_castling_requires(s: StateModel, m: ChessMove)
    requires
        valid_move(s, m),
        is_castle_move(s, m),
    ensures
        m.to.file.as_int() == 2 || m.to.file.as_int() == 6,
        s.turn == ChessColor::White ==> !s.white_king_moved,
        s.turn == ChessColor::Black ==> !s.black_king_moved,
        m.to.file.as_int() == 2 && s.turn == ChessColor::White ==> !s.white_a_rook_moved,
        m.to.file.as_int() == 6 && s.turn == ChessColor::White ==> !s.white_h_rook_moved,
        m.to.file.as_int() == 2 && s.turn == ChessColor::Black ==> !s.black_a_rook_moved,
        m.to.file.as_int() == 6 && s.turn == ChessColor::Black ==> !s.black_h_rook_moved,
        !square_attacked(s, s.turn.opposite(), back_rank(s.turn), 4),
        m.to.file.as_int() == 2 ==> {
            let br = back_rank(s.turn);
            &&& empty_at(s.board, br, 1) && empty_at(s.board, br, 2) && empty_at(s.board, br, 3)
            &&& !square_attacked(s, s.turn.opposite(), br, 2)
            &&& !square_attacked(s, s.turn.opposite(), br, 3)
        },
        m.to.file.as_int() == 6 ==> {
            let br = back_rank(s.turn);
            &&& empty_at(s.board, br, 5) && empty_at(s.board, br, 6)
            &&& !square_attacked(s, s.turn.opposite(), br, 5)
            &&& !square_attacked(s, s.turn.opposite(), br, 6)
        },
{
    let fr = m.from.rank.as_int();
    let ff = m.from.file.as_int();
    let tr = m.to.rank.as_int();
    let tf = m.to.file.as_int();
    assert(castle_ok(s, s.turn, fr, ff, tr, tf));
}

/// Once a side's king or a corner rook has moved — or its start square
/// was ever vacated or occupied — the matching rights flag stays set
/// through every further move, so castling with it is disabled for good,
/// even if the piece returns to its start square.
pub proof fn lemma_rights_flags_monotone(s: StateModel, m: ChessMove)
    ensures
        s.white_king_moved ==> apply_move_model(s, m).white_king_moved,
        s.black_king_moved ==> apply_move_model(s, m).black_king_moved,
        s.white_a_rook_moved ==> apply_move_model(s, m).white_a_rook_moved,
        s.black_a_rook_moved ==> apply_move_model(s, m).black_a_rook_moved,
        s.white_h_rook_moved ==> apply_move_model(s, m).white_h_rook_moved,
        s.black_h_rook_moved ==> apply_move_model(s, m).black_h_rook_moved,
{
}

/// With the king-moved flag of the side to move set, no castling-shaped
/// move is legal for it, whatever else the position holds.
pub proof fn lemma_castling_disabled(s: StateModel, m: ChessMove)
    requires
        s.turn == ChessColor::White ==> s.white_king_moved,
        s.turn == ChessColor::Black ==> s.black_king_moved,
        is_castle_move(s, m),
    ensures
        !valid_move(s, m),
{
}

/// A legal en-passant capture demands the en-passant flag set to the
/// destination file — set only by a two-square push on the immediately
/// preceding move — and runs between exactly the ranks beside the pushed
/// pawn.
pub proof fn lemma_en_passant_needs_flag(s: StateModel, m: ChessMove)
    requires
        valid_move(s, m),
        is_ep_capture(s, m),
    ensures
        s.en_passant == Option::Some(m.to.file),
        s.turn == ChessColor::White ==> m.from.rank.as_int() == 4 && m.to.rank.as_int() == 5,
        s.turn == ChessColor::Black ==> m.from.rank.as_int() == 3 && m.to.rank.as_int() == 2,
{
    match s.en_passant {
        Option::Some(epf) => {
            crate::chessmove::lemma_file_injective(epf, m.to.file);
        },
        Option::None => {},
    }
}

/// Every applied move rewrites the en-passant flag: a two-square pawn
/// push sets it to the pushed file, any other move clears it.
pub proof fn lemma_en_passant_cleared(s: StateModel, m: ChessMove)
    ensures
        apply_move_model(s, m).en_passant == ep_after(s, m),
        !(is_pawn_move(s, m) && abs_diff(m.from.rank.as_int(), m.to.rank.as_int()) == 2)
            ==> apply_move_model(s, m).en_passant is None,
{
}

/// The half-move clock resets to zero on any capture or pawn move and
/// counts up otherwise.
pub proof fn lemma_clock_reset(s: StateModel, m: ChessMove)
    requires
        s.fifty_move_rule < 255,
    ensures
        is_capture(s, m) || is_pawn_move(s, m) ==> apply_move_model(s, m).fifty_move_rule == 0,
        !(is_capture(s, m) || is_pawn_move(s, m)) ==> apply_move_model(s, m).fifty_move_rule
            == s.fifty_move_rule + 1,
{
}

/// A clock that has reached fifty forces the fifty-move draw, whatever
/// else the position or the history holds.
pub proof fn lemma_fifty_move_draw(s: StateModel, h: Seq<Seq<u32>>)
    requires
        s.fifty_move_rule == 50,
    ensures
        game_end_spec(s, h) == Option::Some(GameEnd::Draw(EndReason::FiftyMoveRule)),
{
}

/// A third occurrence of the current compacted board in the history
/// forces the repetition draw — however the position was reached — unless
/// the fifty-move rule fires first.
pub proof fn lemma_repetition_draw(s: StateModel, h: Seq<Seq<u32>>)
    requires
        s.fifty_move_rule != 50,
        count_eq(h, compressed_board(s.board)) == 3,
    ensures
        game_end_spec(s, h) == Option::Some(GameEnd::Draw(EndReason::RepetitionOfMoves)),
{
}

/// Applying a move passes the turn to the other side.
pub proof fn lemma_turn_alternates(s: StateModel, m: ChessMove)
    ensures
        apply_move_model(s, m).turn == s.turn.opposite(),
{
}

/// A move command from the connection of the side not to move is never
/// accepted. The handlers run one at a time on the exclusively owned
/// registry, so of two simultaneous submissions the first is applied and
/// the second is judged against the state the first produced.
pub proof fn lemma_wrong_turn_rejected(g: GameModel, conn: u64, m: ChessMove)
    requires
        !turn_conn(g, conn),
    ensures
        !move_accepted(g, conn, m),
{
}

/// After an accepted move the turn has passed, so a second submission by
/// the same connection against the resulting state is rejected: two
/// simultaneous submissions are never both accepted for the same side.
pub proof fn lemma_no_double_accept(g0: GameModel, g1: GameModel, conn: u64, m1: ChessMove, m2: ChessMove)
    requires
        g0.white != g0.black,
        g1.white == g0.white,
        g1.black == g0.black,
        move_accepted(g0, conn, m1),
        g1.state == apply_move_model(g0.state, m1),
    ensures
        !move_accepted(g1, conn, m2),
{
}

/// The square codes of the compact encoding name the thirteen possible
/// square contents one-to-one.
pub proof fn lemma_piece_code_injective(x: Option<ChessPiece>, y: Option<ChessPiece>)
    ensures
        piece_code(x) == piece_code(y) ==> x == y,
{
}

/// Equal packed rank words pack equal square codes, nibble by nibble.
proof fn lemma_row_digits(a: Seq<Option<ChessPiece>>, b: Seq<Option<ChessPiece>>, r: int, k: int)
    requires
        row_word(a, r, k) == row_word(b, r, k),
        0 <= k <= 8,
    ensures
        forall|f: int| 0 <= f < k ==> piece_code(at(a, r, f)) == piece_code(at(b, r, f)),
    decreases k,
{
    if k > 0 {
        lemma_piece_code_bound(at(a, r, k - 1));
        lemma_piece_code_bound(at(b, r, k - 1));
        assert(row_word(a, r, k - 1) == row_word(b, r, k - 1) && piece_code(at(a, r, k - 1))
            == piece_code(at(b, r, k - 1)));
        lemma_row_digits(a, b, r, k - 1);
    }
}

/// Two boards compare equal for repetition purposes exactly when their
/// compacted forms are bit-identical: the compact encoding loses nothing.
pub proof fn lemma_compress_faithful(a: Seq<Option<ChessPiece>>, b: Seq<Option<ChessPiece>>)
    requires
        board_wf(a),
        board_wf(b),
    ensures
        compressed_board(a) == compressed_board(b) <==> a == b,
{
    if compressed_board(a) == compressed_board(b) {
        assert forall|i: int| 0 <= i < 64 implies a[i] == b[i] by {
            let r = i / 8;
            let f = i % 8;
            assert(compressed_board(a)[r] == compressed_board(b)[r]);
            lemma_row_word_bound(a, r, 8);
            lemma_row_word_bound(b, r, 8);
            assert(pow16(8) == 0x1_0000_0000) by {
                assert(pow16(0) == 1);
                assert(pow16(1) == 16);
                assert(pow16(2) == 256);
                assert(pow16(3) == 4096);
                assert(pow16(4) == 65536);
                assert(pow16(5) == 1048576);
                assert(pow16(6) == 16777216);
                assert(pow16(7) == 268435456);
            }
            assert(row_word(a, r, 8) == row_word(b, r, 8));
            lemma_row_digits(a, b, r, 8);
            assert(piece_code(at(a, r, f)) == piece_code(at(b, r, f)));
            lemma_piece_code_injective(at(a, r, f), at(b, r, f));
            assert(at(a, r, f) == a[i] && at(b, r, f) == b[i]);
        }
        assert(a =~= b);
    }
    if a == b {
    }
}

} // verus!

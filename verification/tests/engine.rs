//! Tests of the board model, the legality engine, the state machine, and
//! the end-of-game detector.

use chess_core::chessmove::{
    compress_chessboard, ChessColor, ChessMove, ChessPiece, ChessPieceType, Chessboard,
    ChessboardLocation,
};
use chess_core::chessmove::{File, Rank};
use chess_core::chessstate::ChessState;
use chess_core::protocol::{EndReason, GameEnd};

fn mv(fr: u8, ff: u8, tr: u8, tf: u8) -> ChessMove {
    ChessMove {
        from: ChessboardLocation::new(fr, ff),
        to: ChessboardLocation::new(tr, tf),
    }
}

fn empty_board() -> Chessboard {
    let mut b = Vec::new();
    for _ in 0..64 {
        b.push(None);
    }
    b
}

fn put(b: &mut Chessboard, r: usize, f: usize, color: ChessColor, kind: ChessPieceType) {
    b[r * 8 + f] = Some(ChessPiece::new(color, kind));
}

fn state_with(board: Chessboard, turn: ChessColor) -> ChessState {
    ChessState {
        board,
        turn,
        en_passant: None,
        fifty_move_rule: 0,
        should_promote: false,
        white_king_moved: false,
        black_king_moved: false,
        white_a_rook_moved: false,
        black_a_rook_moved: false,
        white_h_rook_moved: false,
        black_h_rook_moved: false,
    }
}

fn count_legal_moves(s: &ChessState) -> (usize, usize) {
    let mut total = 0;
    let mut by_black = 0;
    for fi in 0..64u8 {
        for ti in 0..64u8 {
            let m = mv(fi / 8, fi % 8, ti / 8, ti % 8);
            if s.is_valid_move(m) {
                total += 1;
                if let Some(p) = s.get_location(m.from) {
                    if p.color == ChessColor::Black {
                        by_black += 1;
                    }
                }
            }
        }
    }
    (total, by_black)
}

#[test]
fn starting_position_has_twenty_white_moves() {
    let s = ChessState::default();
    let (total, by_black) = count_legal_moves(&s);
    assert_eq!(total, 20);
    assert_eq!(by_black, 0);
}

#[test]
fn starting_position_game_goes_on() {
    let s = ChessState::default();
    assert_eq!(s.check_game_end(&Vec::new()), None);
}

#[test]
fn invalid_move_leaves_state_unchanged() {
    let mut s = ChessState::default();
    let before = compress_chessboard(&s.board);
    let before_turn = s.turn;
    // a pawn cannot advance three ranks
    let r = s.move_piece(mv(1, 4, 4, 4));
    assert!(r.is_err());
    let after = compress_chessboard(&s.board);
    assert_eq!(before, after);
    assert_eq!(before_turn, s.turn);
    assert_eq!(s.en_passant, None);
    assert_eq!(s.fifty_move_rule, 0);
}

#[test]
fn pawn_double_push_sets_en_passant_file() {
    let mut s = ChessState::default();
    let r = s.move_piece(mv(1, 4, 3, 4));
    assert_eq!(r.unwrap(), false);
    assert_eq!(s.en_passant, Some(chess_core::chessmove::File::E));
    assert_eq!(s.turn, ChessColor::Black);
    assert_eq!(s.fifty_move_rule, 0);
}

#[test]
fn en_passant_capture_works_immediately_after_push() {
    let mut s = ChessState::default();
    assert!(s.move_piece(mv(1, 4, 3, 4)).is_ok()); // white e2-e4
    assert!(s.move_piece(mv(6, 0, 5, 0)).is_ok()); // black a7-a6
    assert!(s.move_piece(mv(3, 4, 4, 4)).is_ok()); // white e4-e5
    assert!(s.move_piece(mv(6, 3, 4, 3)).is_ok()); // black d7-d5
    // white captures en passant: e5 takes d6
    let r = s.move_piece(mv(4, 4, 5, 3));
    assert_eq!(r.unwrap(), true); // the captured pawn vanished: redraw
    // the passed-over pawn is gone and the capturing pawn stands on d6
    assert_eq!(s.get_location(ChessboardLocation::new(4, 3)), None);
    assert_eq!(
        s.get_location(ChessboardLocation::new(5, 3)),
        Some(ChessPiece::new(ChessColor::White, ChessPieceType::Pawn))
    );
}

#[test]
fn en_passant_window_closes_after_one_move() {
    let mut s = ChessState::default();
    assert!(s.move_piece(mv(1, 4, 3, 4)).is_ok()); // white e2-e4
    assert!(s.move_piece(mv(6, 0, 5, 0)).is_ok()); // black a7-a6
    assert!(s.move_piece(mv(3, 4, 4, 4)).is_ok()); // white e4-e5
    assert!(s.move_piece(mv(6, 3, 4, 3)).is_ok()); // black d7-d5
    assert!(s.move_piece(mv(1, 0, 2, 0)).is_ok()); // white declines: a2-a3
    assert_eq!(s.en_passant, None); // the flag is cleared by any move
    assert!(s.move_piece(mv(6, 7, 5, 7)).is_ok()); // black h7-h6
    // the en-passant capture is no longer available
    assert!(s.move_piece(mv(4, 4, 5, 3)).is_err());
}

#[test]
fn kingside_castling_moves_king_and_rook() {
    let mut s = ChessState::default();
    assert!(s.move_piece(mv(1, 4, 3, 4)).is_ok()); // e2-e4
    assert!(s.move_piece(mv(6, 4, 4, 4)).is_ok()); // e7-e5
    assert!(s.move_piece(mv(0, 6, 2, 5)).is_ok()); // Ng1-f3
    assert!(s.move_piece(mv(7, 1, 5, 2)).is_ok()); // Nb8-c6
    assert!(s.move_piece(mv(0, 5, 3, 2)).is_ok()); // Bf1-c4
    assert!(s.move_piece(mv(6, 1, 5, 1)).is_ok()); // b7-b6
    // white castles king-side: e1-g1
    let r = s.move_piece(mv(0, 4, 0, 6));
    assert_eq!(r.unwrap(), true); // more than two squares changed: redraw
    assert_eq!(
        s.get_location(ChessboardLocation::new(0, 6)),
        Some(ChessPiece::new(ChessColor::White, ChessPieceType::King))
    );
    assert_eq!(
        s.get_location(ChessboardLocation::new(0, 5)),
        Some(ChessPiece::new(ChessColor::White, ChessPieceType::Rook))
    );
    assert_eq!(s.get_location(ChessboardLocation::new(0, 7)), None);
    assert_eq!(s.get_location(ChessboardLocation::new(0, 4)), None);
    assert!(s.white_king_moved);
}

#[test]
fn castling_rejected_while_squares_are_occupied() {
    let mut s = ChessState::default();
    assert!(s.move_piece(mv(0, 4, 0, 6)).is_err());
}

#[test]
fn castling_disabled_after_king_moved_and_returned() {
    let mut s = ChessState::default();
    assert!(s.move_piece(mv(1, 4, 3, 4)).is_ok()); // e2-e4
    assert!(s.move_piece(mv(6, 0, 5, 0)).is_ok()); // a7-a6
    assert!(s.move_piece(mv(0, 4, 1, 4)).is_ok()); // Ke1-e2
    assert!(s.move_piece(mv(5, 0, 4, 0)).is_ok()); // a6-a5
    assert!(s.move_piece(mv(1, 4, 0, 4)).is_ok()); // Ke2-e1: back home
    assert!(s.white_king_moved);
    assert!(s.move_piece(mv(6, 1, 5, 1)).is_ok()); // b7-b6
    assert!(s.move_piece(mv(0, 6, 2, 5)).is_ok()); // Ng1-f3
    assert!(s.move_piece(mv(5, 1, 4, 1)).is_ok()); // b6-b5
    assert!(s.move_piece(mv(0, 5, 3, 2)).is_ok()); // Bf1-c4
    assert!(s.move_piece(mv(6, 7, 5, 7)).is_ok()); // h7-h6
    // f1 and g1 are empty, yet castling stays disabled for good
    assert_eq!(s.get_location(ChessboardLocation::new(0, 5)), None);
    assert_eq!(s.get_location(ChessboardLocation::new(0, 6)), None);
    assert!(s.move_piece(mv(0, 4, 0, 6)).is_err());
}

#[test]
fn fools_mate_is_checkmate_for_black() {
    let mut s = ChessState::default();
    let mut history = Vec::new();
    for m in [mv(1, 5, 2, 5), mv(6, 4, 4, 4), mv(1, 6, 3, 6), mv(7, 3, 3, 7)] {
        assert!(s.move_piece(m).is_ok());
        history.push(compress_chessboard(&s.board));
    }
    assert_eq!(
        s.check_game_end(&history),
        Some(GameEnd::Black(EndReason::Checkmate))
    );
}

#[test]
fn cornered_king_with_no_moves_is_stalemate() {
    // black king a8, white king b6, white rook b7, black to move
    let mut b = empty_board();
    put(&mut b, 7, 0, ChessColor::Black, ChessPieceType::King);
    put(&mut b, 5, 1, ChessColor::White, ChessPieceType::King);
    put(&mut b, 6, 1, ChessColor::White, ChessPieceType::Rook);
    let mut s = state_with(b, ChessColor::Black);
    // the kings of a reached endgame have long since moved
    s.white_king_moved = true;
    s.black_king_moved = true;
    assert_eq!(
        s.check_game_end(&Vec::new()),
        Some(GameEnd::Draw(EndReason::Stalemate))
    );
}

#[test]
fn bare_minor_piece_is_insufficient_material() {
    let mut b = empty_board();
    put(&mut b, 0, 4, ChessColor::White, ChessPieceType::King);
    put(&mut b, 7, 4, ChessColor::Black, ChessPieceType::King);
    put(&mut b, 3, 3, ChessColor::White, ChessPieceType::Bishop);
    let s = state_with(b, ChessColor::Black);
    assert_eq!(
        s.check_game_end(&Vec::new()),
        Some(GameEnd::Draw(EndReason::InsufficientMaterial))
    );
    let mut b2 = empty_board();
    put(&mut b2, 0, 4, ChessColor::White, ChessPieceType::King);
    put(&mut b2, 7, 4, ChessColor::Black, ChessPieceType::King);
    put(&mut b2, 3, 3, ChessColor::Black, ChessPieceType::Knight);
    let s2 = state_with(b2, ChessColor::White);
    assert_eq!(
        s2.check_game_end(&Vec::new()),
        Some(GameEnd::Draw(EndReason::InsufficientMaterial))
    );
}

#[test]
fn bare_rook_is_not_insufficient_material() {
    let mut b = empty_board();
    put(&mut b, 0, 4, ChessColor::White, ChessPieceType::King);
    put(&mut b, 7, 4, ChessColor::Black, ChessPieceType::King);
    put(&mut b, 3, 0, ChessColor::White, ChessPieceType::Rook);
    let s = state_with(b, ChessColor::White);
    assert_eq!(s.check_game_end(&Vec::new()), None);
}

#[test]
fn fifty_quiet_moves_draw_the_game() {
    let mut b = empty_board();
    put(&mut b, 0, 4, ChessColor::White, ChessPieceType::King);
    put(&mut b, 7, 4, ChessColor::Black, ChessPieceType::King);
    put(&mut b, 3, 0, ChessColor::White, ChessPieceType::Rook);
    let mut s = state_with(b, ChessColor::Black);
    s.fifty_move_rule = 49;
    assert!(s.move_piece(mv(7, 4, 7, 3)).is_ok()); // a quiet king move
    assert_eq!(s.fifty_move_rule, 50);
    assert_eq!(
        s.check_game_end(&Vec::new()),
        Some(GameEnd::Draw(EndReason::FiftyMoveRule))
    );
}

#[test]
fn clock_resets_on_pawn_move_and_capture() {
    let mut s = ChessState::default();
    assert!(s.move_piece(mv(0, 6, 2, 5)).is_ok()); // Ng1-f3: quiet
    assert_eq!(s.fifty_move_rule, 1);
    assert!(s.move_piece(mv(6, 4, 4, 4)).is_ok()); // e7-e5: pawn move
    assert_eq!(s.fifty_move_rule, 0);
    assert!(s.move_piece(mv(0, 1, 2, 2)).is_ok()); // Nb1-c3: quiet
    assert_eq!(s.fifty_move_rule, 1);
    assert!(s.move_piece(mv(4, 4, 3, 4)).is_ok()); // e5-e4: pawn move
    assert_eq!(s.fifty_move_rule, 0);
    assert!(s.move_piece(mv(2, 2, 3, 4)).is_ok()); // Nc3xe4: capture
    assert_eq!(s.fifty_move_rule, 0);
}

#[test]
fn threefold_repetition_draws_the_game() {
    let mut s = ChessState::default();
    let mut history = Vec::new();
    let shuffle = [mv(0, 6, 2, 5), mv(7, 6, 5, 5), mv(2, 5, 0, 6), mv(5, 5, 7, 6)];
    for round in 0..3 {
        for m in shuffle {
            assert!(s.move_piece(m).is_ok());
            history.push(compress_chessboard(&s.board));
        }
        let verdict = s.check_game_end(&history);
        if round < 2 {
            assert_eq!(verdict, None);
        } else {
            assert_eq!(verdict, Some(GameEnd::Draw(EndReason::RepetitionOfMoves)));
        }
    }
}

#[test]
fn promotion_suspends_play_until_resolved() {
    let mut b = empty_board();
    put(&mut b, 0, 4, ChessColor::White, ChessPieceType::King);
    put(&mut b, 7, 7, ChessColor::Black, ChessPieceType::King);
    put(&mut b, 6, 0, ChessColor::White, ChessPieceType::Pawn);
    let mut s = state_with(b, ChessColor::White);
    assert!(s.move_piece(mv(6, 0, 7, 0)).is_ok()); // a7-a8: reaches the last rank
    assert!(s.should_promote);
    // further moves are rejected while the choice is owed
    assert!(s.move_piece(mv(7, 7, 7, 6)).is_err());
    // a king or pawn may not be chosen
    assert!(s.promote(ChessPieceType::King).is_err());
    assert!(s.promote(ChessPieceType::Pawn).is_err());
    assert!(s.promote(ChessPieceType::Queen).is_ok());
    assert!(!s.should_promote);
    assert_eq!(
        s.get_location(ChessboardLocation::new(7, 0)),
        Some(ChessPiece::new(ChessColor::White, ChessPieceType::Queen))
    );
    // with no promotion pending the request is rejected
    assert!(s.promote(ChessPieceType::Rook).is_err());
    // play resumes for black, away from the new queen's rank
    assert!(s.move_piece(mv(7, 7, 6, 7)).is_ok());
}

#[test]
fn compress_packs_the_starting_position_exactly() {
    let s = ChessState::default();
    let w = compress_chessboard(&s.board);
    assert_eq!(
        w,
        vec![
            0xBCDA9DCB, 0xEEEEEEEE, 0, 0, 0, 0, 0x66666666, 0x34521543
        ]
    );
}

#[test]
fn compress_distinguishes_positions() {
    let mut s = ChessState::default();
    let before = compress_chessboard(&s.board);
    assert!(s.move_piece(mv(1, 4, 3, 4)).is_ok());
    let after = compress_chessboard(&s.board);
    assert_ne!(before, after);
}

#[test]
fn source_square_rules_reject_moves_outright() {
    let s = ChessState::default();
    // source equals destination
    assert!(!s.is_valid_move(mv(1, 4, 1, 4)));
    // empty source square
    assert!(!s.is_valid_move(mv(3, 3, 4, 3)));
    // a piece of the side not to move
    assert!(!s.is_valid_move(mv(6, 4, 5, 4)));
}

#[test]
fn moving_into_check_is_rejected() {
    // white king e1 faces a black rook on e8 with nothing between; the
    // king may not stay on the file after a sideways rook threat appears
    let mut b = empty_board();
    put(&mut b, 0, 4, ChessColor::White, ChessPieceType::King);
    put(&mut b, 7, 4, ChessColor::Black, ChessPieceType::King);
    put(&mut b, 5, 3, ChessColor::Black, ChessPieceType::Rook);
    let s = state_with(b, ChessColor::White);
    // stepping onto d1 walks into the rook's file
    assert!(!s.is_valid_move(mv(0, 4, 0, 3)));
    // stepping onto f1 is fine
    assert!(s.is_valid_move(mv(0, 4, 0, 5)));
}

#[test]
fn per_piece_predicates_match_the_rules() {
    let s = ChessState::default();
    // knight jumps over the pawn wall
    assert!(chess_core::moves::knight(&s, mv(0, 6, 2, 5)));
    assert!(!chess_core::moves::knight(&s, mv(0, 6, 2, 6)));
    // the rook is blocked by its own pawn
    assert!(!chess_core::moves::rook(&s, mv(0, 0, 3, 0)));
    // the bishop is blocked diagonally
    assert!(!chess_core::moves::bishop(&s, mv(0, 2, 2, 4)));
    // the queen has no lateral path either
    assert!(!chess_core::moves::queen(&s, mv(0, 3, 2, 3)));
    // a pawn may advance one or two squares from home
    assert!(chess_core::moves::pawn(&s, mv(1, 0, 2, 0)));
    assert!(chess_core::moves::pawn(&s, mv(1, 0, 3, 0)));
    assert!(!chess_core::moves::pawn(&s, mv(1, 0, 4, 0)));
    // the king has no room at the start
    assert!(!chess_core::moves::king(&s, mv(0, 4, 1, 4)));
}

#[test]
fn is_attacked_sees_enemy_coverage() {
    let mut b = empty_board();
    put(&mut b, 0, 4, ChessColor::White, ChessPieceType::King);
    put(&mut b, 7, 4, ChessColor::Black, ChessPieceType::King);
    put(&mut b, 4, 0, ChessColor::Black, ChessPieceType::Rook);
    let s = state_with(b, ChessColor::White);
    // the rook covers its whole rank and file
    assert!(s.is_attacked(ChessboardLocation::new(4, 7)));
    assert!(s.is_attacked(ChessboardLocation::new(0, 0)));
    assert!(!s.is_attacked(ChessboardLocation::new(3, 1)));
}

#[test]
fn coordinates_are_built_modulo_eight() {
    assert_eq!(Rank::from(0u8), Rank::One);
    assert_eq!(Rank::from(7u8), Rank::Eight);
    assert_eq!(Rank::from(9u8), Rank::Two);
    assert_eq!(File::from(4u8), File::E);
    assert_eq!(File::from(15u8), File::H);
    let loc = ChessboardLocation::new(10, 3);
    assert_eq!(loc.rank, Rank::Three);
    assert_eq!(loc.file, File::D);
}

#[test]
fn white_is_the_default_side_and_sides_alternate() {
    assert_eq!(ChessColor::default(), ChessColor::White);
    assert_eq!(ChessColor::White.not(), ChessColor::Black);
    assert_eq!(ChessColor::Black.not(), ChessColor::White);
}

#[test]
fn inverse_relocation_restores_board_but_not_clock_or_rights() {
    let mut s = ChessState::default();
    let before_board = compress_chessboard(&s.board);
    assert!(s.move_piece(mv(0, 6, 2, 5)).is_ok()); // Ng1-f3: quiet
    // undo the relocation by hand
    let knight = s.board[2 * 8 + 5].take();
    s.board[0 * 8 + 6] = knight;
    assert_eq!(compress_chessboard(&s.board), before_board);
    // the clock has still advanced: relocation is not idempotent on it
    assert_eq!(s.fifty_move_rule, 1);
    assert_eq!(s.turn, ChessColor::Black);

    let mut s2 = ChessState::default();
    assert!(s2.move_piece(mv(1, 4, 3, 4)).is_ok()); // e2-e4
    assert!(s2.move_piece(mv(6, 0, 5, 0)).is_ok()); // a7-a6
    assert!(s2.move_piece(mv(0, 4, 1, 4)).is_ok()); // Ke1-e2
    let king = s2.board[1 * 8 + 4].take();
    s2.board[0 * 8 + 4] = king;
    // the king stands on its start square again, yet the right is gone
    assert!(s2.white_king_moved);
}

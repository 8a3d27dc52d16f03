//! Tests of the session and matchmaking layer: queueing, pairing, move
//! dispatch, draw offers, reconnection, disconnects, and teardown.

use std::collections::HashMap;

use chess_core::chessmove::{ChessColor, ChessMove, ChessPieceType, ChessboardLocation};
use chess_core::protocol::{ClientPacket, EndReason, GameEnd};
use chess_core::server::{
    create_game, end_game, handle_disconnect, handle_draw_request, handle_move, handle_packet,
    handle_promotion, handle_reconnect, new_connection, ChessGameMap, ConnectionMap,
    DisconnectOutcome, DrawOutcome, GameId, GameQueue, MoveOutcome, PacketOutcome,
    PromotionOutcome, ReconnectOutcome,
};

fn mv(fr: u8, ff: u8, tr: u8, tf: u8) -> ChessMove {
    ChessMove {
        from: ChessboardLocation::new(fr, ff),
        to: ChessboardLocation::new(tr, tf),
    }
}

struct Server {
    queue: GameQueue,
    games: ChessGameMap,
    connections: ConnectionMap,
    next_id: GameId,
}

fn fresh_server() -> Server {
    Server {
        queue: GameQueue(Vec::new()),
        games: ChessGameMap(HashMap::new()),
        connections: ConnectionMap(HashMap::new()),
        next_id: GameId::default(),
    }
}

/// Queues the two connections and pairs them, returning the white and
/// black connection and the game identifier.
fn paired_game(srv: &mut Server, c1: u64, c2: u64) -> (u64, u64, GameId) {
    new_connection(&mut srv.queue, c1);
    new_connection(&mut srv.queue, c2);
    let (white, black, gid) = create_game(
        &mut srv.queue,
        &mut srv.games,
        &mut srv.connections,
        &mut srv.next_id,
    )
    .expect("two waiting connections must be paired");
    (white, black, gid)
}

#[test]
fn a_single_waiting_connection_is_not_paired() {
    let mut srv = fresh_server();
    new_connection(&mut srv.queue, 7);
    let r = create_game(
        &mut srv.queue,
        &mut srv.games,
        &mut srv.connections,
        &mut srv.next_id,
    );
    assert!(r.is_none());
    assert_eq!(srv.queue.0, vec![7]);
    assert!(srv.games.0.is_empty());
}

#[test]
fn two_waiting_connections_are_paired() {
    let mut srv = fresh_server();
    let (white, black, gid) = paired_game(&mut srv, 1, 2);
    assert!(srv.queue.0.is_empty());
    assert!(white == 1 && black == 2 || white == 2 && black == 1);
    assert_eq!(srv.connections.0.get(&1), Some(&gid));
    assert_eq!(srv.connections.0.get(&2), Some(&gid));
    let game = srv.games.0.get(&gid.0).expect("the game must be registered");
    assert_eq!(game.white, white);
    assert_eq!(game.black, black);
    assert_eq!(game.state.turn, ChessColor::White);
    assert!(game.move_history.is_empty());
    assert_eq!(srv.next_id, GameId(1));
}

#[test]
fn moves_are_applied_in_receipt_order_within_a_tick() {
    // both sides submit a move for the same position; the one from the
    // side to move is applied, the other is rejected, never both
    let mut srv = fresh_server();
    let (white, black, gid) = paired_game(&mut srv, 1, 2);
    // black's submission arrives first: it is not black's turn
    let r1 = handle_move(&srv.connections, &mut srv.games, black, mv(6, 4, 4, 4));
    assert!(matches!(r1, MoveOutcome::Rejected(_)));
    if let MoveOutcome::Rejected(snapshot) = r1 {
        assert_eq!(snapshot.turn, ChessColor::White);
    }
    // white's submission is then applied against the unchanged state
    let r2 = handle_move(&srv.connections, &mut srv.games, white, mv(1, 4, 3, 4));
    match r2 {
        MoveOutcome::Applied { opponent, redraw, end } => {
            assert_eq!(opponent, black);
            assert!(!redraw);
            assert!(end.is_none());
        }
        _ => panic!("white's move must be applied"),
    }
    let game = srv.games.0.get(&gid.0).unwrap();
    assert_eq!(game.state.turn, ChessColor::Black);
    assert_eq!(game.move_history.len(), 1);
}

#[test]
fn second_submission_for_the_same_side_is_rejected() {
    let mut srv = fresh_server();
    let (white, _black, gid) = paired_game(&mut srv, 1, 2);
    let r1 = handle_move(&srv.connections, &mut srv.games, white, mv(1, 4, 3, 4));
    assert!(matches!(r1, MoveOutcome::Applied { .. }));
    // white submits again for the position it no longer owns
    let r2 = handle_move(&srv.connections, &mut srv.games, white, mv(1, 3, 3, 3));
    assert!(matches!(r2, MoveOutcome::Rejected(_)));
    let game = srv.games.0.get(&gid.0).unwrap();
    assert_eq!(game.move_history.len(), 1);
}

#[test]
fn an_illegal_move_echoes_the_unchanged_state() {
    let mut srv = fresh_server();
    let (white, _black, gid) = paired_game(&mut srv, 1, 2);
    let before = chess_core::chessmove::compress_chessboard(
        &srv.games.0.get(&gid.0).unwrap().state.board,
    );
    let r = handle_move(&srv.connections, &mut srv.games, white, mv(1, 4, 4, 4));
    match r {
        MoveOutcome::Rejected(snapshot) => {
            let echoed = chess_core::chessmove::compress_chessboard(&snapshot.board);
            assert_eq!(echoed, before);
        }
        _ => panic!("an illegal move must be rejected"),
    }
}

#[test]
fn a_move_from_an_unknown_connection_is_ignored() {
    let mut srv = fresh_server();
    paired_game(&mut srv, 1, 2);
    let r = handle_move(&srv.connections, &mut srv.games, 99, mv(1, 4, 3, 4));
    assert!(matches!(r, MoveOutcome::NoGame));
}

#[test]
fn packets_are_dispatched_by_kind() {
    let mut srv = fresh_server();
    let (white, _black, _gid) = paired_game(&mut srv, 1, 2);
    let r = handle_packet(
        &srv.connections,
        &mut srv.games,
        white,
        ClientPacket::Move(mv(1, 4, 3, 4)),
    );
    assert!(matches!(r, PacketOutcome::Move(MoveOutcome::Applied { .. })));
    let r = handle_packet(&srv.connections, &mut srv.games, white, ClientPacket::Reconnect);
    assert!(matches!(
        r,
        PacketOutcome::Reconnect(ReconnectOutcome::Snapshot(_))
    ));
}

#[test]
fn draw_offer_is_forwarded_then_agreement_ends_the_game() {
    let mut srv = fresh_server();
    let (white, black, gid) = paired_game(&mut srv, 1, 2);
    // the first offer is recorded and forwarded to the opponent
    let r1 = handle_draw_request(&srv.connections, &mut srv.games, white);
    match r1 {
        DrawOutcome::Offered { opponent } => assert_eq!(opponent, Some(black)),
        _ => panic!("the first offer must be forwarded"),
    }
    // a repeated offer from the same side changes nothing
    let r2 = handle_draw_request(&srv.connections, &mut srv.games, white);
    assert!(matches!(r2, DrawOutcome::Ignored));
    // the crossing offer ends the game as an agreed draw
    let r3 = handle_draw_request(&srv.connections, &mut srv.games, black);
    match r3 {
        DrawOutcome::Agreed(event) => {
            assert_eq!(event.0, gid);
            assert_eq!(event.1, GameEnd::Draw(EndReason::Agreement));
            let (w, b) = end_game(&mut srv.connections, &mut srv.games, event)
                .expect("the game must still be registered");
            assert_eq!((w, b), (white, black));
        }
        _ => panic!("the crossing offer must end the game"),
    }
    assert!(srv.games.0.is_empty());
    assert!(srv.connections.0.is_empty());
    // commands for the torn-down game are ignored
    let r4 = handle_move(&srv.connections, &mut srv.games, white, mv(1, 4, 3, 4));
    assert!(matches!(r4, MoveOutcome::NoGame));
}

#[test]
fn a_completed_move_clears_an_outstanding_draw_offer() {
    let mut srv = fresh_server();
    let (white, black, gid) = paired_game(&mut srv, 1, 2);
    assert!(matches!(
        handle_draw_request(&srv.connections, &mut srv.games, black),
        DrawOutcome::Offered { .. }
    ));
    assert!(srv.games.0.get(&gid.0).unwrap().draw.is_some());
    let r = handle_move(&srv.connections, &mut srv.games, white, mv(1, 4, 3, 4));
    assert!(matches!(r, MoveOutcome::Applied { .. }));
    assert!(srv.games.0.get(&gid.0).unwrap().draw.is_none());
    // the old offer is gone: black's fresh offer is recorded anew
    assert!(matches!(
        handle_draw_request(&srv.connections, &mut srv.games, black),
        DrawOutcome::Offered { .. }
    ));
}

#[test]
fn reconnect_resyncs_a_live_game() {
    let mut srv = fresh_server();
    let (white, _black, gid) = paired_game(&mut srv, 1, 2);
    assert!(matches!(
        handle_move(&srv.connections, &mut srv.games, white, mv(1, 4, 3, 4)),
        MoveOutcome::Applied { .. }
    ));
    let r = handle_reconnect(&srv.connections, &srv.games, white);
    match r {
        ReconnectOutcome::Snapshot(snapshot) => {
            let live = &srv.games.0.get(&gid.0).unwrap().state;
            assert_eq!(snapshot.turn, live.turn);
            assert_eq!(
                chess_core::chessmove::compress_chessboard(&snapshot.board),
                chess_core::chessmove::compress_chessboard(&live.board)
            );
        }
        _ => panic!("a live game must be resynced"),
    }
    // an unpaired connection is ignored
    assert!(matches!(
        handle_reconnect(&srv.connections, &srv.games, 99),
        ReconnectOutcome::Ignored
    ));
    // a mapping pointing at a vanished game drops the connection
    srv.connections.0.insert(55, GameId(777));
    assert!(matches!(
        handle_reconnect(&srv.connections, &srv.games, 55),
        ReconnectOutcome::Dropped
    ));
}

#[test]
fn disconnect_of_a_queued_connection_leaves_the_queue() {
    let mut srv = fresh_server();
    new_connection(&mut srv.queue, 5);
    new_connection(&mut srv.queue, 6);
    new_connection(&mut srv.queue, 5);
    let r = handle_disconnect(&srv.connections, &srv.games, &mut srv.queue, 5);
    assert!(matches!(r, DisconnectOutcome::QueueRemoved));
    assert_eq!(srv.queue.0, vec![6]);
}

#[test]
fn disconnect_of_a_paired_connection_resigns_the_game() {
    let mut srv = fresh_server();
    let (white, black, gid) = paired_game(&mut srv, 1, 2);
    let r = handle_disconnect(&srv.connections, &srv.games, &mut srv.queue, white);
    match r {
        DisconnectOutcome::GameEnded(event) => {
            assert_eq!(event.0, gid);
            assert_eq!(event.1, GameEnd::Black(EndReason::Resignation));
            let (w, b) = end_game(&mut srv.connections, &mut srv.games, event).unwrap();
            assert_eq!((w, b), (white, black));
        }
        _ => panic!("a paired disconnect must end the game"),
    }
    assert!(srv.games.0.is_empty());
    // black's disconnect on the same game now only touches the queue
    let r2 = handle_disconnect(&srv.connections, &srv.games, &mut srv.queue, black);
    assert!(matches!(r2, DisconnectOutcome::QueueRemoved));
}

#[test]
fn promotion_is_relayed_and_the_end_detector_rerun() {
    let mut srv = fresh_server();
    let (white, black, gid) = paired_game(&mut srv, 1, 2);
    // a promotion request with nothing pending is rejected with an echo
    let r = handle_promotion(
        &srv.connections,
        &mut srv.games,
        white,
        ChessPieceType::Queen,
    );
    assert!(matches!(r, PromotionOutcome::Rejected(_)));
    // stage a pending promotion directly in the registry
    {
        let game = srv.games.0.get_mut(&gid.0).unwrap();
        let mut board = vec![None; 64];
        board[0 * 8 + 4] = Some(chess_core::chessmove::ChessPiece::new(
            ChessColor::White,
            ChessPieceType::King,
        ));
        board[7 * 8 + 7] = Some(chess_core::chessmove::ChessPiece::new(
            ChessColor::Black,
            ChessPieceType::King,
        ));
        board[7 * 8 + 0] = Some(chess_core::chessmove::ChessPiece::new(
            ChessColor::White,
            ChessPieceType::Pawn,
        ));
        game.state.board = board;
        game.state.turn = ChessColor::Black;
        game.state.should_promote = true;
    }
    let r2 = handle_promotion(
        &srv.connections,
        &mut srv.games,
        white,
        ChessPieceType::Queen,
    );
    match r2 {
        PromotionOutcome::Applied { opponent, end } => {
            assert_eq!(opponent, Some(black));
            assert!(end.is_none());
        }
        _ => panic!("a pending promotion must be applied"),
    }
    let game = srv.games.0.get(&gid.0).unwrap();
    assert!(!game.state.should_promote);
    assert_eq!(
        game.state.get_location(ChessboardLocation::new(7, 0)),
        Some(chess_core::chessmove::ChessPiece::new(
            ChessColor::White,
            ChessPieceType::Queen,
        ))
    );
}

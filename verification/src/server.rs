//! The session and matchmaking layer: the connection queue, random
//! pairing, the per-game registry, and the per-command decisions of the
//! protocol. Connections are opaque identities; performing the sends and
//! closes these decisions call for is the transport's job.

use vstd::prelude::*;

use std::collections::HashMap;

use crate::chessmove::{ChessColor, ChessMove, ChessPieceType, CompressedChessboard};
use crate::chessstate::{
    apply_move_model, game_end_spec, history_views, initial_model, ChessState,
};
use crate::protocol::{ClientPacket, EndReason, GameEnd};
use crate::rules::{valid_move, StateModel};

verus! {

/// Relies on rand's `Rng::gen_range` on the range `0..n`: the sample lies
/// in the range, which must not be empty.
#[verifier::external_body]
fn random_below(n: usize) -> (r: usize)
    requires
        n > 0,
    ensures
        r < n,
{
    rand::Rng::gen_range(&mut rand::thread_rng(), 0..n)
}

/// Relies on rand's `random::<bool>()`; nothing is promised of the
/// outcome.
#[verifier::external_body]
fn random_coin() -> (r: bool) {
    rand::random::<bool>()
}

/// The identifier of one game in the registry.
#[derive(Clone, Copy, Debug, PartialEq, Eq, Structural, Hash)]
pub struct GameId(pub u32);

impl Default for GameId {
    /// The identifier the registry hands out first.
    fn default() -> (r: GameId)
        ensures
            r == GameId(0),
    {
        GameId(0)
    }
}

/// A terminal result to act on: the finished game and how it ended.
#[derive(Clone, Copy, Debug)]
pub struct EndGameEvent(pub GameId, pub GameEnd);

/// Which game each paired connection belongs to.
pub struct ConnectionMap(pub HashMap<u64, GameId>);

/// The authoritative instance of every active game.
pub struct ChessGameMap(pub HashMap<u32, Game>);

/// The connections waiting to be paired, in arrival order.
pub struct GameQueue(pub Vec<u64>);

/// One active game: its two participants, the authoritative state, the
/// outstanding draw offer, and the compacted board after each move.
pub struct Game {
    pub white: u64,
    pub black: u64,
    pub state: ChessState,
    pub draw: Option<ChessColor>,
    pub move_history: Vec<CompressedChessboard>,
}

/// The mathematical image of one active game.
pub ghost struct GameModel {
    pub white: u64,
    pub black: u64,
    pub state: StateModel,
    pub draw: Option<ChessColor>,
    pub history: Seq<Seq<u32>>,
}

impl View for Game {
    type V = GameModel;

    open spec fn view(&self) -> GameModel {
        GameModel {
            white: self.white,
            black: self.black,
            state: self.state@,
            draw: self.draw,
            history: history_views(self.move_history@),
        }
    }
}

/// Every game in the registry has a well-formed board.
pub open spec fn games_wf(gm: Map<u32, Game>) -> bool {
    forall|k: u32| gm.dom().contains(k) ==> (#[trigger] gm[k])@.state.wf()
}

impl Game {
    /// A fresh game between two connections, in the starting position.
    pub fn new(white: u64, black: u64) -> (g: Game)
        ensures
            g.white == white,
            g.black == black,
            g.state@ == initial_model(),
            g.draw is None,
            g.move_history@.len() == 0,
    {
        Game {
            white,
            black,
            state: ChessState::default(),
            draw: Option::None,
            move_history: Vec::new(),
        }
    }

    /// The other participant of the game, if the connection is one of the
    /// two.
    pub fn opponent_of(&self, connection_id: u64) -> (r: Option<u64>)
        ensures
            r == (if connection_id == self.white {
                Option::Some(self.black)
            } else if connection_id == self.black {
                Option::Some(self.white)
            } else {
                Option::<u64>::None
            }),
    {
        if connection_id == self.white {
            Option::Some(self.black)
        } else if connection_id == self.black {
            Option::Some(self.white)
        } else {
            Option::None
        }
    }
}

/// Appends a new connection to the waiting queue.
pub fn new_connection(queue: &mut GameQueue, connection_id: u64)
    ensures
        final(queue).0@ == old(queue).0@.push(connection_id),
{
    queue.0.push(connection_id);
}

/// Pairs two waiting connections when the queue holds at least two:
/// removes two at random positions, assigns colors at random, registers a
/// fresh game under the next identifier, and returns the two connections
/// to be told their colors. With fewer than two waiting, changes nothing.
pub fn create_game(
    queue: &mut GameQueue,
    game_map: &mut ChessGameMap,
    connection_map: &mut ConnectionMap,
    id: &mut GameId,
) -> (r: Option<(u64, u64, GameId)>)
    requires
        old(id).0 < u32::MAX,
        games_wf(old(game_map).0@),
    ensures
        games_wf(final(game_map).0@),
        old(queue).0@.len() < 2 ==> {
            &&& r is None
            &&& final(queue).0 == old(queue).0
            &&& final(game_map).0 == old(game_map).0
            &&& final(connection_map).0 == old(connection_map).0
            &&& *final(id) == *old(id)
        },
        old(queue).0@.len() >= 2 ==> r is Some && {
            let white = r->Some_0.0;
            let black = r->Some_0.1;
            let gid = r->Some_0.2;
            &&& gid == *old(id)
            &&& final(id).0 == old(id).0 + 1
            &&& exists|i: int, j: int|
                {
                    &&& 0 <= i < old(queue).0@.len()
                    &&& 0 <= j < old(queue).0@.len() - 1
                    &&& final(queue).0@ == #[trigger] old(queue).0@.remove(i).remove(j)
                    &&& (white == old(queue).0@[i] && black == old(queue).0@.remove(i)[j] || white
                        == old(queue).0@.remove(i)[j] && black == old(queue).0@[i])
                }
            &&& final(connection_map).0@ == old(connection_map).0@.insert(white, gid).insert(
                black,
                gid,
            )
            &&& final(game_map).0@.dom() == old(game_map).0@.dom().insert(gid.0)
            &&& final(game_map).0@[gid.0].white == white
            &&& final(game_map).0@[gid.0].black == black
            &&& final(game_map).0@[gid.0].state@ == initial_model()
            &&& final(game_map).0@[gid.0].draw is None
            &&& final(game_map).0@[gid.0].move_history@.len() == 0
            &&& forall|k: u32|
                k != gid.0 && old(game_map).0@.dom().contains(k) ==> final(game_map).0@[k]
                    == old(game_map).0@[k]
        },
{
    if queue.0.len() < 2 {
        return Option::None;
    }
    let ghost q0 = queue.0@;
    let t1 = random_below(queue.0.len());
    let first = queue.0.remove(t1);
    let ghost q1 = queue.0@;
    let t2 = random_below(queue.0.len());
    let second = queue.0.remove(t2);
    let (white, black) = if random_coin() {
        (second, first)
    } else {
        (first, second)
    };
    proof {
        assert(q1 == q0.remove(t1 as int));
        assert(queue.0@ == q1.remove(t2 as int));
        assert((white == q0[t1 as int] && black == q1[t2 as int]) || (white == q1[t2 as int]
            && black == q0[t1 as int]));
    }
    let gid = *id;
    connection_map.0.insert(white, gid);
    connection_map.0.insert(black, gid);
    game_map.0.insert(gid.0, Game::new(white, black));
    id.0 = id.0 + 1;
    Option::Some((white, black, gid))
}

/// The registries after a handler differ from before at most in the game
/// under `k`, whose image is `g`.
pub open spec fn gm_updated(gm0: Map<u32, Game>, gm1: Map<u32, Game>, k: u32, g: GameModel) -> bool {
    &&& gm1.dom() == gm0.dom()
    &&& forall|j: u32| gm0.dom().contains(j) && j != k ==> gm1[j] == gm0[j]
    &&& gm1[k]@ == g
}

/// The connection speaks for the side to move of its game.
pub open spec fn turn_conn(g: GameModel, conn: u64) -> bool {
    conn == g.white && g.state.turn == ChessColor::White || conn == g.black && g.state.turn
        == ChessColor::Black
}

/// A move command is accepted: it arrives from the side to move, no
/// promotion choice is owed, the half-move clock has room, and the move
/// is fully legal.
pub open spec fn move_accepted(g: GameModel, conn: u64, m: ChessMove) -> bool {
    &&& turn_conn(g, conn)
    &&& !g.state.should_promote
    &&& g.state.fifty_move_rule < 255
    &&& valid_move(g.state, m)
}

/// The terminal event to raise after a completed move or promotion, if
/// any: none while a promotion choice is owed, else the end detector's
/// verdict.
pub open spec fn end_event_for(gid: GameId, s: StateModel, h: Seq<Seq<u32>>) -> Option<
    EndGameEvent,
> {
    if !s.should_promote && game_end_spec(s, h) is Some {
        Option::Some(EndGameEvent(gid, game_end_spec(s, h)->Some_0))
    } else {
        Option::None
    }
}

/// What the server decides for a move command.
#[derive(Clone, Debug)]
pub enum MoveOutcome {
    /// The connection is not mapped to a live game: ignore the command.
    NoGame,
    /// The move was rejected: echo the unchanged state to the sender as
    /// the implicit rejection.
    Rejected(ChessState),
    /// The move was applied: relay it to the opponent, redraw if more
    /// than two squares changed, and raise the terminal event if the game
    /// ended.
    Applied { opponent: u64, redraw: bool, end: Option<EndGameEvent> },
}

/// The exact decision for a move command: ignored without a live game;
/// applied, relayed, recorded in the history, the draw offer cleared, and
/// the end detector consulted when it comes from the side to move and is
/// legal; otherwise rejected with the unchanged state echoed back.
pub open spec fn move_outcome_ok(
    cm: Map<u64, GameId>,
    gm0: Map<u32, Game>,
    gm1: Map<u32, Game>,
    conn: u64,
    m: ChessMove,
    r: MoveOutcome,
) -> bool {
    if !cm.dom().contains(conn) {
        r is NoGame && gm1 == gm0
    } else {
        let gid = cm[conn];
        if !gm0.dom().contains(gid.0) {
            r is NoGame && gm1 == gm0
        } else {
            let g = gm0[gid.0]@;
            if move_accepted(g, conn, m) {
                let s1 = apply_move_model(g.state, m);
                let h1 = g.history.push(crate::chessmove::compressed_board(s1.board));
                &&& (r matches MoveOutcome::Applied { opponent, redraw, end } && {
                    &&& opponent == (if conn == g.white {
                        g.black
                    } else {
                        g.white
                    })
                    &&& redraw == crate::chessstate::move_redraw(g.state, m)
                    &&& end == end_event_for(gid, s1, h1)
                })
                &&& gm_updated(
                    gm0,
                    gm1,
                    gid.0,
                    GameModel { state: s1, draw: Option::None, history: h1, ..g },
                )
            } else {
                &&& (r matches MoveOutcome::Rejected(st) && st@ == g.state)
                &&& gm_updated(gm0, gm1, gid.0, g)
            }
        }
    }
}

/// Handles a move command from a connection: looks the game up, applies
/// the move when it is the sender's turn and legal, and decides what to
/// send and whether the game ended.
pub fn handle_move(
    connection_map: &ConnectionMap,
    game_map: &mut ChessGameMap,
    connection_id: u64,
    player_move: ChessMove,
) -> (r: MoveOutcome)
    requires
        games_wf(old(game_map).0@),
    ensures
        games_wf(final(game_map).0@),
        move_outcome_ok(
            connection_map.0@,
            old(game_map).0@,
            final(game_map).0@,
            connection_id,
            player_move,
            r,
        ),
{
    let ghost gm0 = game_map.0@;
    let gid = match connection_map.0.get(&connection_id) {
        Option::Some(g) => *g,
        Option::None => {
            return MoveOutcome::NoGame;
        },
    };
    let mut game = match game_map.0.remove(&gid.0) {
        Option::Some(g) => g,
        Option::None => {
            proof {
                assert(game_map.0@ =~= gm0);
            }
            return MoveOutcome::NoGame;
        },
    };
    let ghost g0 = game@;
    let is_turn = connection_id == game.white && game.state.turn == ChessColor::White
        || connection_id == game.black && game.state.turn == ChessColor::Black;
    if !is_turn || game.state.fifty_move_rule == 255 {
        let snap = game.state.snapshot();
        game_map.0.insert(gid.0, game);
        proof {
            assert(game_map.0@.dom() =~= gm0.dom());
        }
        return MoveOutcome::Rejected(snap);
    }
    match game.state.move_piece(player_move) {
        Result::Err(_) => {
            let snap = game.state.snapshot();
            game_map.0.insert(gid.0, game);
            proof {
                assert(game_map.0@.dom() =~= gm0.dom());
            }
            MoveOutcome::Rejected(snap)
        },
        Result::Ok(redraw) => {
            game.draw = Option::None;
            let w = crate::chessmove::compress_chessboard(&game.state.board);
            game.move_history.push(w);
            proof {
                assert(history_views(game.move_history@) =~= g0.history.push(
                    crate::chessmove::compressed_board(game.state@.board),
                ));
            }
            let opponent = if connection_id == game.white {
                game.black
            } else {
                game.white
            };
            let end = if !game.state.should_promote {
                match game.state.check_game_end(&game.move_history) {
                    Option::Some(reason) => Option::Some(EndGameEvent(gid, reason)),
                    Option::None => Option::None,
                }
            } else {
                Option::None
            };
            game_map.0.insert(gid.0, game);
            proof {
                assert(game_map.0@.dom() =~= gm0.dom());
            }
            MoveOutcome::Applied { opponent, redraw, end }
        },
    }
}

/// What the server decides for a reconnect command.
#[derive(Clone, Debug)]
pub enum ReconnectOutcome {
    /// The connection was never paired: ignore the command.
    Ignored,
    /// The connection still belongs to a live game: resync it with a full
    /// snapshot.
    Snapshot(ChessState),
    /// The connection is mapped to a game that is gone: drop it.
    Dropped,
}

/// The exact decision for a reconnect command.
pub open spec fn reconnect_outcome_ok(
    cm: Map<u64, GameId>,
    gm: Map<u32, Game>,
    conn: u64,
    r: ReconnectOutcome,
) -> bool {
    if !cm.dom().contains(conn) {
        r is Ignored
    } else if gm.dom().contains(cm[conn].0) {
        r matches ReconnectOutcome::Snapshot(st) && st@ == gm[cm[conn].0]@.state
    } else {
        r is Dropped
    }
}

/// Handles a reconnect command: a connection still mapped to a live game
/// receives a full state snapshot; one mapped to no game is dropped.
pub fn handle_reconnect(
    connection_map: &ConnectionMap,
    game_map: &ChessGameMap,
    connection_id: u64,
) -> (r: ReconnectOutcome)
    requires
        games_wf(game_map.0@),
    ensures
        reconnect_outcome_ok(connection_map.0@, game_map.0@, connection_id, r),
{
    let gid = match connection_map.0.get(&connection_id) {
        Option::Some(g) => *g,
        Option::None => {
            return ReconnectOutcome::Ignored;
        },
    };
    match game_map.0.get(&gid.0) {
        Option::Some(game) => ReconnectOutcome::Snapshot(game.state.snapshot()),
        Option::None => ReconnectOutcome::Dropped,
    }
}

/// What the server decides for a draw request.
#[derive(Clone, Copy, Debug)]
pub enum DrawOutcome {
    /// No live game, or the requester already has the outstanding offer:
    /// nothing happens.
    Ignored,
    /// The first offer from this side: record it and notify the opponent.
    Offered { opponent: Option<u64> },
    /// The other side had an outstanding offer: the game ends as an
    /// agreed draw.
    Agreed(EndGameEvent),
}

/// The side a connection speaks for in its game: White for the white
/// participant, Black for anyone else.
pub open spec fn conn_color(g: GameModel, conn: u64) -> ChessColor {
    if conn == g.white {
        ChessColor::White
    } else {
        ChessColor::Black
    }
}

/// The exact decision for a draw request: the first offer is recorded and
/// forwarded, a crossing offer from the other side ends the game by
/// agreement, a repeated offer from the same side does nothing.
pub open spec fn draw_outcome_ok(
    cm: Map<u64, GameId>,
    gm0: Map<u32, Game>,
    gm1: Map<u32, Game>,
    conn: u64,
    r: DrawOutcome,
) -> bool {
    if !cm.dom().contains(conn) {
        r is Ignored && gm1 == gm0
    } else {
        let gid = cm[conn];
        if !gm0.dom().contains(gid.0) {
            r is Ignored && gm1 == gm0
        } else {
            let g = gm0[gid.0]@;
            let color = conn_color(g, conn);
            match g.draw {
                Option::Some(d) => {
                    &&& if color != d {
                        r == DrawOutcome::Agreed(
                            EndGameEvent(gid, GameEnd::Draw(EndReason::Agreement)),
                        )
                    } else {
                        r is Ignored
                    }
                    &&& gm_updated(gm0, gm1, gid.0, g)
                },
                Option::None => {
                    &&& (r matches DrawOutcome::Offered { opponent } && opponent == (
                    if conn == g.white {
                        Option::Some(g.black)
                    } else if conn == g.black {
                        Option::Some(g.white)
                    } else {
                        Option::<u64>::None
                    }))
                    &&& gm_updated(gm0, gm1, gid.0, GameModel { draw: Option::Some(color), ..g })
                },
            }
        }
    }
}

/// Handles a draw request: records a first offer and forwards it, ends
/// the game as an agreed draw when the other side had one outstanding.
pub fn handle_draw_request(
    connection_map: &ConnectionMap,
    game_map: &mut ChessGameMap,
    connection_id: u64,
) -> (r: DrawOutcome)
    requires
        games_wf(old(game_map).0@),
    ensures
        games_wf(final(game_map).0@),
        draw_outcome_ok(
            connection_map.0@,
            old(game_map).0@,
            final(game_map).0@,
            connection_id,
            r,
        ),
{
    let ghost gm0 = game_map.0@;
    let gid = match connection_map.0.get(&connection_id) {
        Option::Some(g) => *g,
        Option::None => {
            return DrawOutcome::Ignored;
        },
    };
    let mut game = match game_map.0.remove(&gid.0) {
        Option::Some(g) => g,
        Option::None => {
            proof {
                assert(game_map.0@ =~= gm0);
            }
            return DrawOutcome::Ignored;
        },
    };
    let color = if connection_id == game.white {
        ChessColor::White
    } else {
        ChessColor::Black
    };
    let r = match game.draw {
        Option::Some(d) => {
            if color != d {
                DrawOutcome::Agreed(EndGameEvent(gid, GameEnd::Draw(EndReason::Agreement)))
            } else {
                DrawOutcome::Ignored
            }
        },
        Option::None => {
            game.draw = Option::Some(color);
            DrawOutcome::Offered { opponent: game.opponent_of(connection_id) }
        },
    };
    game_map.0.insert(gid.0, game);
    proof {
        assert(game_map.0@.dom() =~= gm0.dom());
    }
    r
}

/// What the server decides for a promotion command.
#[derive(Clone, Debug)]
pub enum PromotionOutcome {
    /// The connection is not mapped to a live game: ignore the command.
    Ignored,
    /// The request was rejected: echo the unchanged state to the sender.
    Rejected(ChessState),
    /// The pawn was replaced: relay the chosen kind to the opponent and
    /// raise the terminal event if the deferred end detector fires.
    Applied { opponent: Option<u64>, end: Option<EndGameEvent> },
}

/// A promotion command is accepted: a choice is owed, the kind is
/// permitted, and a promoting pawn stands on the final rank.
pub open spec fn promotion_accepted(g: GameModel, kind: ChessPieceType) -> bool {
    &&& g.state.should_promote
    &&& kind != ChessPieceType::King
    &&& kind != ChessPieceType::Pawn
    &&& crate::chessstate::first_pawn_file(g.state.board, g.state.turn.opposite(), 0) is Some
}

/// The exact decision for a promotion command: ignored without a live
/// game; the pawn replaced, the choice relayed, and the deferred end
/// detector run when accepted; otherwise rejected with the unchanged
/// state echoed back.
pub open spec fn promotion_outcome_ok(
    cm: Map<u64, GameId>,
    gm0: Map<u32, Game>,
    gm1: Map<u32, Game>,
    conn: u64,
    kind: ChessPieceType,
    r: PromotionOutcome,
) -> bool {
    if !cm.dom().contains(conn) {
        r is Ignored && gm1 == gm0
    } else {
        let gid = cm[conn];
        if !gm0.dom().contains(gid.0) {
            r is Ignored && gm1 == gm0
        } else {
            let g = gm0[gid.0]@;
            if promotion_accepted(g, kind) {
                let s1 = crate::chessstate::promoted_model(g.state, kind);
                &&& (r matches PromotionOutcome::Applied { opponent, end } && {
                    &&& opponent == (if conn == g.white {
                        Option::Some(g.black)
                    } else if conn == g.black {
                        Option::Some(g.white)
                    } else {
                        Option::<u64>::None
                    })
                    &&& end == end_event_for(gid, s1, g.history)
                })
                &&& gm_updated(gm0, gm1, gid.0, GameModel { state: s1, ..g })
            } else {
                &&& (r matches PromotionOutcome::Rejected(st) && st@ == g.state)
                &&& gm_updated(gm0, gm1, gid.0, g)
            }
        }
    }
}

/// Handles a promotion command: replaces the promoting pawn when a choice
/// is owed and the kind is permitted, relays it, and runs the end
/// detector that was deferred while the promotion was pending.
pub fn handle_promotion(
    connection_map: &ConnectionMap,
    game_map: &mut ChessGameMap,
    connection_id: u64,
    piece: ChessPieceType,
) -> (r: PromotionOutcome)
    requires
        games_wf(old(game_map).0@),
    ensures
        games_wf(final(game_map).0@),
        promotion_outcome_ok(
            connection_map.0@,
            old(game_map).0@,
            final(game_map).0@,
            connection_id,
            piece,
            r,
        ),
{
    let ghost gm0 = game_map.0@;
    let gid = match connection_map.0.get(&connection_id) {
        Option::Some(g) => *g,
        Option::None => {
            return PromotionOutcome::Ignored;
        },
    };
    let mut game = match game_map.0.remove(&gid.0) {
        Option::Some(g) => g,
        Option::None => {
            proof {
                assert(game_map.0@ =~= gm0);
            }
            return PromotionOutcome::Ignored;
        },
    };
    let r = match game.state.promote(piece) {
        Result::Ok(_) => {
            let end = match game.state.check_game_end(&game.move_history) {
                Option::Some(reason) => Option::Some(EndGameEvent(gid, reason)),
                Option::None => Option::None,
            };
            PromotionOutcome::Applied { opponent: game.opponent_of(connection_id), end }
        },
        Result::Err(_) => PromotionOutcome::Rejected(game.state.snapshot()),
    };
    game_map.0.insert(gid.0, game);
    proof {
        assert(game_map.0@.dom() =~= gm0.dom());
    }
    r
}

/// What the server decides when a connection goes away.
#[derive(Clone, Copy, Debug)]
pub enum DisconnectOutcome {
    /// The connection was only queued: it left the queue.
    QueueRemoved,
    /// The connection was in a live game: the opponent wins by
    /// resignation.
    GameEnded(EndGameEvent),
}

/// The waiting queue with every entry for one connection removed.
pub open spec fn without_conn(q: Seq<u64>, conn: u64) -> Seq<u64>
    decreases q.len(),
{
    if q.len() == 0 {
        Seq::empty()
    } else {
        let rest = without_conn(q.drop_last(), conn);
        if q.last() == conn {
            rest
        } else {
            rest.push(q.last())
        }
    }
}

/// The exact decision for a disconnect: a paired connection's game ends
/// with the opponent winning by resignation; an unpaired one merely
/// leaves the queue.
pub open spec fn disconnect_outcome_ok(
    cm: Map<u64, GameId>,
    gm: Map<u32, Game>,
    q0: Seq<u64>,
    q1: Seq<u64>,
    conn: u64,
    r: DisconnectOutcome,
) -> bool {
    if cm.dom().contains(conn) && gm.dom().contains(cm[conn].0) {
        let g = gm[cm[conn].0]@;
        &&& r == DisconnectOutcome::GameEnded(
            EndGameEvent(
                cm[conn],
                if conn == g.white {
                    GameEnd::Black(EndReason::Resignation)
                } else {
                    GameEnd::White(EndReason::Resignation)
                },
            ),
        )
        &&& q1 == q0
    } else {
        r is QueueRemoved && q1 == without_conn(q0, conn)
    }
}

/// Handles a disconnect: raises the resignation event for a paired
/// connection's game, or removes an unpaired connection from the queue.
/// The raised event is to be settled through `end_game`, which removes
/// both registry entries.
#[verifier::loop_isolation(false)]
pub fn handle_disconnect(
    connection_map: &ConnectionMap,
    game_map: &ChessGameMap,
    queue: &mut GameQueue,
    connection_id: u64,
) -> (r: DisconnectOutcome)
    ensures
        disconnect_outcome_ok(
            connection_map.0@,
            game_map.0@,
            old(queue).0@,
            final(queue).0@,
            connection_id,
            r,
        ),
{
    let mapped = match connection_map.0.get(&connection_id) {
        Option::Some(gid) => {
            match game_map.0.get(&gid.0) {
                Option::Some(game) => {
                    let event = EndGameEvent(
                        *gid,
                        if connection_id == game.white {
                            GameEnd::Black(EndReason::Resignation)
                        } else {
                            GameEnd::White(EndReason::Resignation)
                        },
                    );
                    Option::Some(event)
                },
                Option::None => Option::None,
            }
        },
        Option::None => Option::None,
    };
    if let Option::Some(event) = mapped {
        return DisconnectOutcome::GameEnded(event);
    }
    let ghost q0 = queue.0@;
    let mut kept: Vec<u64> = Vec::new();
    let mut i: usize = 0;
    while i < queue.0.len()
        invariant
            i <= queue.0@.len(),
            queue.0@ == q0,
            kept@ == without_conn(q0.take(i as int), connection_id),
        decreases queue.0@.len() - i,
    {
        let c = queue.0[i];
        proof {
            assert(q0.take(i + 1).drop_last() =~= q0.take(i as int));
        }
        if c != connection_id {
            kept.push(c);
        }
        i = i + 1;
    }
    proof {
        assert(q0.take(q0.len() as int) =~= q0);
    }
    queue.0 = kept;
    DisconnectOutcome::QueueRemoved
}

/// Settles a terminal event: removes the finished game and both of its
/// participants' registry entries, and returns the two connections so
/// the result can be sent to them and both can be closed. Returns nothing
/// when the game is already gone.
pub fn end_game(
    connection_map: &mut ConnectionMap,
    game_map: &mut ChessGameMap,
    event: EndGameEvent,
) -> (r: Option<(u64, u64)>)
    requires
        games_wf(old(game_map).0@),
    ensures
        games_wf(final(game_map).0@),
        if old(game_map).0@.dom().contains(event.0.0) {
            let g = old(game_map).0@[event.0.0]@;
            &&& r == Option::Some((g.white, g.black))
            &&& final(game_map).0@ == old(game_map).0@.remove(event.0.0)
            &&& final(connection_map).0@ == old(connection_map).0@.remove(g.white).remove(g.black)
        } else {
            &&& r is None
            &&& final(game_map).0@ == old(game_map).0@
            &&& final(connection_map).0@ == old(connection_map).0@
        },
{
    let ghost gm0 = game_map.0@;
    let ghost cm0 = connection_map.0@;
    let game = match game_map.0.remove(&event.0.0) {
        Option::Some(g) => g,
        Option::None => {
            proof {
                assert(game_map.0@ =~= gm0);
            }
            return Option::None;
        },
    };
    connection_map.0.remove(&game.white);
    connection_map.0.remove(&game.black);
    Option::Some((game.white, game.black))
}

/// What the server decides for one inbound command.
#[derive(Clone, Debug)]
pub enum PacketOutcome {
    Move(MoveOutcome),
    Reconnect(ReconnectOutcome),
    Draw(DrawOutcome),
    Promotion(PromotionOutcome),
}

/// Dispatches one inbound client command to its handler.
pub fn handle_packet(
    connection_map: &ConnectionMap,
    game_map: &mut ChessGameMap,
    connection_id: u64,
    packet: ClientPacket,
) -> (r: PacketOutcome)
    requires
        games_wf(old(game_map).0@),
    ensures
        games_wf(final(game_map).0@),
        match packet {
            ClientPacket::Move(m) => r matches PacketOutcome::Move(o) && move_outcome_ok(
                connection_map.0@,
                old(game_map).0@,
                final(game_map).0@,
                connection_id,
                m,
                o,
            ),
            ClientPacket::Reconnect => r matches PacketOutcome::Reconnect(o)
                && reconnect_outcome_ok(connection_map.0@, final(game_map).0@, connection_id, o)
                && final(game_map).0 == old(game_map).0,
            ClientPacket::RequestDraw => r matches PacketOutcome::Draw(o) && draw_outcome_ok(
                connection_map.0@,
                old(game_map).0@,
                final(game_map).0@,
                connection_id,
                o,
            ),
            ClientPacket::Promotion(kind) => r matches PacketOutcome::Promotion(o)
                && promotion_outcome_ok(
                connection_map.0@,
                old(game_map).0@,
                final(game_map).0@,
                connection_id,
                kind,
                o,
            ),
        },
{
    match packet {
        ClientPacket::Move(m) => PacketOutcome::Move(
            handle_move(connection_map, game_map, connection_id, m),
        ),
        ClientPacket::Reconnect => PacketOutcome::Reconnect(
            handle_reconnect(connection_map, game_map, connection_id),
        ),
        ClientPacket::RequestDraw => PacketOutcome::Draw(
            handle_draw_request(connection_map, game_map, connection_id),
        ),
        ClientPacket::Promotion(kind) => PacketOutcome::Promotion(
            handle_promotion(connection_map, game_map, connection_id, kind),
        ),
    }
}

} // verus!

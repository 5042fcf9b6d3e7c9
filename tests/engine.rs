use std::str::FromStr;

use chess::{Board, ChessMove, MoveGen, ALL_PIECES, ALL_SQUARES};
use sigma::board::GameStatus;
use sigma::eval::{count_all_pieces, eval, is_bad_king_move, is_terminal, white_score};
use sigma::move_string_conversion::move_to_string;
use sigma::ordering::order_moves_by_evaluation;
use sigma::search::{alpha_beta, engine, oracle_for, search_depth, Oracle};
use sigma::search_move::SearchMove;
use sigma::transposition_table::TranspostionTable;
use sigma::types::{Color, Move, Piece, INF};

fn to_move(m: ChessMove) -> Move {
    Move {
        source: m.get_source().to_int(),
        dest: m.get_dest().to_int(),
        promotion: m.get_promotion().map(|p| Piece::from_index(p.to_index())),
    }
}

fn to_chess(m: Move) -> ChessMove {
    ChessMove::new(
        ALL_SQUARES[m.source as usize],
        ALL_SQUARES[m.dest as usize],
        m.promotion.map(|p| ALL_PIECES[p.index()]),
    )
}

fn legal(board: &Board) -> Vec<Move> {
    MoveGen::new_legal(board).map(to_move).collect()
}

fn play(moves: &[&str]) -> Board {
    let mut board = Board::default();
    for m in moves {
        board = board.make_move_new(ChessMove::from_str(m).unwrap());
    }
    board
}

#[test]
fn mate_in_one_white_to_move() {
    let board = Board::from_str("6k1/5ppp/8/8/8/8/5PPP/R5K1 w - - 0 1").unwrap();
    let m = engine(&board, 0, None).unwrap();
    assert_eq!(move_to_string(m), "a1a8");
    assert_eq!(m, Move { source: 0, dest: 56, promotion: None });
}

#[test]
fn mated_side_to_move_scores_minus_infinity() {
    let board = Board::from_str("R5k1/5ppp/8/8/8/8/5PPP/6K1 b - - 0 1").unwrap();
    assert_eq!(eval(&board, legal(&board), 1), INF);
    let board = Board::from_str("6k1/8/8/8/8/8/5PPP/r5K1 w - - 0 1").unwrap();
    assert_eq!(eval(&board, legal(&board), 1), -INF);
}

#[test]
fn stalemate_detection() {
    let board = Board::from_str("7k/5Q2/6K1/8/8/8/8/8 b - - 0 1").unwrap();
    assert_eq!(eval(&board, legal(&board), 0), 0);
    assert_eq!(engine(&board, 0, None), None);
}

#[test]
fn bare_kings_score_zero() {
    let board = Board::from_str("8/8/3k4/8/8/4K3/8/8 w - - 0 1").unwrap();
    assert_eq!(eval(&board, legal(&board), 30), 0);
}

#[test]
fn starting_position_zero_plies() {
    let board = Board::default();
    let first = engine(&board, 0, None).unwrap();
    assert!(legal(&board).contains(&first));
    let second = engine(&board, 0, None).unwrap();
    assert_eq!(first, second);
}

#[test]
fn king_and_pawn_endgame_push() {
    let board = Board::from_str("4k3/8/4K3/4P3/8/8/8/8 w - - 0 1").unwrap();
    assert_eq!(search_depth(count_all_pieces(&board), 20), 4);
    let m = engine(&board, 20, None).unwrap();
    assert!(legal(&board).contains(&m));
    assert_eq!(m.source, 44);
    let score = eval(&board, legal(&board), 20);
    assert!(score > 0);
}

#[test]
fn transposition_cache_coherence() {
    let a = play(&["g1f3", "g8f6", "b1c3", "b8c6"]);
    let b = play(&["b1c3", "b8c6", "g1f3", "g8f6"]);
    assert_eq!(a, b);
    assert_eq!(engine(&a, 4, None), engine(&b, 4, None));
}

#[test]
fn move_ordering_monotonicity() {
    let board = play(&["e2e4", "d7d5"]);
    let moves = legal(&board);
    let ordered = order_moves_by_evaluation(&board, moves.clone(), true, 2);
    assert_eq!(ordered.len(), moves.len());
    let child_eval = |m: Move| {
        let next = board.make_move_new(to_chess(m));
        eval(&next, legal(&next), 3)
    };
    let first = child_eval(ordered[0]);
    for m in &ordered[1..] {
        assert!(first >= child_eval(*m));
    }
    let ascending = order_moves_by_evaluation(&board, moves, false, 2);
    let lowest = child_eval(ascending[0]);
    for m in &ascending[1..] {
        assert!(lowest <= child_eval(*m));
    }
}

#[test]
fn search_is_deterministic_with_fresh_cache() {
    let board = play(&["e2e4", "e7e5", "g1f3"]);
    let mut t1 = TranspostionTable::new();
    let mut t2 = TranspostionTable::new();
    let r1 = alpha_beta(&board, 2, -INF, INF, false, 3, false, false, &mut t1);
    let r2 = alpha_beta(&board, 2, -INF, INF, false, 3, false, false, &mut t2);
    assert_eq!(r1, r2);
    assert!(r1.mov().is_some());
}

#[test]
fn search_reuses_cached_child_results() {
    let board = Board::from_str("6k1/5ppp/8/8/8/8/5PPP/R5K1 w - - 0 1").unwrap();
    let mut table = TranspostionTable::new();
    let first = alpha_beta(&board, 2, -INF, INF, true, 0, false, false, &mut table);
    let mate = board.make_move_new(to_chess(Move { source: 0, dest: 56, promotion: None }));
    let cached = table.get_position(&mate).unwrap();
    assert_eq!(cached.eval(), INF);
    let again = alpha_beta(&board, 2, -INF, INF, true, 0, false, false, &mut table);
    assert_eq!(first, again);
}

#[test]
fn legal_oracle_move_is_taken() {
    let board = Board::default();
    let book = Move { source: 12, dest: 28, promotion: None };
    assert_eq!(engine(&board, 0, Some(book)), Some(book));
}

#[test]
fn illegal_oracle_move_is_ignored() {
    let board = Board::default();
    let bogus = Move { source: 12, dest: 36, promotion: None };
    let m = engine(&board, 0, Some(bogus)).unwrap();
    assert_ne!(m, bogus);
    assert!(legal(&board).contains(&m));
}

#[test]
fn oracle_choice_by_phase() {
    let start = Board::default();
    assert_eq!(oracle_for(&start, 0), Oracle::MoveDatabase);
    assert_eq!(oracle_for(&start, 11), Oracle::Nothing);
    let endgame = Board::from_str("4k3/8/4K3/4P3/8/8/8/8 w - - 0 1").unwrap();
    assert_eq!(oracle_for(&endgame, 40), Oracle::Tablebase);
}

#[test]
fn search_depth_by_phase() {
    assert_eq!(search_depth(32, 0), 2);
    assert_eq!(search_depth(32, 10), 2);
    assert_eq!(search_depth(12, 11), 4);
    assert_eq!(search_depth(13, 11), 3);
}

#[test]
fn terminal_statuses() {
    assert!(!is_terminal(GameStatus::Ongoing));
    assert!(is_terminal(GameStatus::Stalemate));
    assert!(is_terminal(GameStatus::Checkmate));
}

#[test]
fn white_relative_scores() {
    assert_eq!(white_score(250, Color::White), 250);
    assert_eq!(white_score(250, Color::Black), -250);
}

#[test]
fn piece_count_of_start() {
    assert_eq!(count_all_pieces(&Board::default()), 32);
    let board = Board::from_str("4k3/8/4K3/4P3/8/8/8/8 w - - 0 1").unwrap();
    assert_eq!(count_all_pieces(&board), 3);
}

#[test]
fn bad_king_moves_only_with_bare_kings() {
    let kings = Board::from_str("8/8/3k4/8/8/4K3/8/8 w - - 0 1").unwrap();
    let step = Move { source: 20, dest: 21, promotion: None };
    assert!(is_bad_king_move(&kings, &step, 2));
    assert!(!is_bad_king_move(&kings, &step, 3));
    let castle = Move { source: 4, dest: 6, promotion: None };
    assert!(!is_bad_king_move(&Board::default(), &castle, 2));
}

#[test]
fn bad_king_move_spares_checks_and_captures() {
    let check = Board::from_str("8/8/8/8/8/3k4/8/3RK3 b - - 0 1").unwrap();
    let step = Move { source: 19, dest: 20, promotion: None };
    assert!(!is_bad_king_move(&check, &step, 2));
    let capture = Board::from_str("8/8/8/8/8/4k3/4R3/4K3 b - - 0 1").unwrap();
    let take = Move { source: 20, dest: 12, promotion: None };
    assert!(!is_bad_king_move(&capture, &take, 2));
}

#[test]
fn search_result_accessors() {
    let m = Move { source: 12, dest: 28, promotion: None };
    let r = SearchMove::new(Some(m), 42);
    assert_eq!(r.mov(), Some(m));
    assert_eq!(r.eval(), 42);
}

#[test]
fn evaluation_is_finite_off_mate() {
    let board = play(&["e2e4", "e7e5", "d1h5", "b8c6", "f1c4", "g8f6"]);
    let score = eval(&board, legal(&board), 6);
    assert!(score > -INF && score < INF);
}

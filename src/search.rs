//! Alpha-beta search with quiescence, move ordering, a transposition cache
//! and depth changes driven by how much the evaluation moves.
use vstd::prelude::*;
use crate::board::{
    BoardView, GameStatus, view_of, after_move, legal_moves_of, in_check_of, hash_of, status_of,
    moves_on_board, legal_moves, make_move, in_check, status, side_to_move,
};
use crate::consts::{
    USE_QUIESCENSE_SEARCH_AFTER_NPLIES, QUIESCENCE_DEPTH, EXTENSION_THRESHOLD, DE_EXTENSION_THRESHOLD,
    MAX_PIECE_FOR_ENDGAME, OPENING_FOR_DIFF_EVAL, OPENING_SEARCH_DEPTH, ENDGAME_SEARCH_DEPTH,
    ENDGAME_PIECE_FOR_GREATER_DEPTH, SEARCH_DEPTH,
};
use crate::eval::{spec_eval, eval, is_terminal, spec_is_bad_king_move, is_bad_king_move, piece_count, count_all_pieces};
use crate::ordering::{ordered, keyed, sort_keyed, lemma_sort_keyed, order_moves_by_evaluation};
use crate::search_move::SearchMove;
use crate::transposition_table::TranspostionTable;
use crate::types::{Color, Move, INF};

verus! {

/// The static evaluation of `v` with its own legal moves.
pub open spec fn leaf_eval(v: BoardView, plies: int) -> i128 {
    spec_eval(v, legal_moves_of(v), plies) as i128
}

/// The best result and window after looking at move `m` whose score is `e`.
pub open spec fn improve(best: SearchMove, m: Move, e: i128, alpha: i128, beta: i128, maximizing: bool) -> (SearchMove, i128, i128) {
    if maximizing {
        let b = if e > best.evaluation { SearchMove { mov: Some(m), evaluation: e } } else { best };
        (b, if b.evaluation > alpha { b.evaluation } else { alpha }, beta)
    } else {
        let b = if e < best.evaluation { SearchMove { mov: Some(m), evaluation: e } } else { best };
        (b, alpha, if b.evaluation < beta { b.evaluation } else { beta })
    }
}

/// Capture-only search of `v` to `depth` plies, and the cache it leaves.
pub open spec fn spec_quiescence(
    v: BoardView,
    alpha: i128,
    beta: i128,
    maximizing: bool,
    depth: nat,
    plies: int,
    cache: Map<u64, SearchMove>,
) -> (SearchMove, Map<u64, SearchMove>)
    decreases depth, 1int, 0int,
{
    let sp = leaf_eval(v, plies);
    if depth == 0 || status_of(v) != GameStatus::Ongoing {
        (SearchMove { mov: None, evaluation: sp }, cache)
    } else if maximizing && sp >= beta {
        (SearchMove { mov: None, evaluation: beta }, cache)
    } else if !maximizing && sp <= alpha {
        (SearchMove { mov: None, evaluation: alpha }, cache)
    } else {
        let a = if maximizing && sp > alpha { sp } else { alpha };
        let b = if !maximizing && sp < beta { sp } else { beta };
        let ms = ordered(v, legal_moves_of(v), maximizing, plies);
        q_loop(v, ms, 0, a, b, maximizing, depth, plies, SearchMove { mov: None, evaluation: sp }, cache)
    }
}

/// The rest of a quiescence node, from the `i`-th ordered move on.
pub open spec fn q_loop(
    v: BoardView,
    ms: Seq<Move>,
    i: int,
    alpha: i128,
    beta: i128,
    maximizing: bool,
    depth: nat,
    plies: int,
    best: SearchMove,
    cache: Map<u64, SearchMove>,
) -> (SearchMove, Map<u64, SearchMove>)
    decreases depth, 0int, ms.len() - i,
{
    if i >= ms.len() || i < 0 || depth == 0 {
        (best, cache)
    } else {
        let m = ms[i];
        if v.cells[m.dest as int] is None || !in_check_of(v) {
            q_loop(v, ms, i + 1, alpha, beta, maximizing, depth, plies, best, cache)
        } else {
            let child = after_move(v, m);
            let h = hash_of(child);
            let looked = if cache.contains_key(h) {
                (cache[h], cache)
            } else {
                let sub = spec_quiescence(child, alpha, beta, !maximizing, (depth - 1) as nat, plies + 1, cache);
                (sub.0, sub.1.insert(h, sub.0))
            };
            let step = improve(best, m, looked.0.evaluation, alpha, beta, maximizing);
            if step.2 <= step.1 {
                (step.0, looked.1)
            } else {
                q_loop(v, ms, i + 1, step.1, step.2, maximizing, depth, plies, step.0, looked.1)
            }
        }
    }
}

/// The ordered moves are the legal moves, each once per occurrence.
pub proof fn lemma_ordered_legal(v: BoardView, ms: Seq<Move>, maximizing: bool, plies: int)
    ensures
        ordered(v, ms, maximizing, plies).len() == ms.len(),
        forall|k: int| 0 <= k < ms.len() ==> ms.contains(#[trigger] ordered(v, ms, maximizing, plies)[k]),
        forall|m: Move| ms.contains(m) ==> #[trigger] ordered(v, ms, maximizing, plies).contains(m),
{
    let kd = keyed(v, ms, plies);
    let n = ms.len() as int;
    lemma_sort_keyed(kd, maximizing, n);
    let sorted = sort_keyed(kd, maximizing, n);
    assert(kd.take(n) =~= kd);
    let o = ordered(v, ms, maximizing, plies);
    assert forall|k: int| 0 <= k < ms.len() implies ms.contains(#[trigger] o[k]) by {
        assert(sorted.contains(sorted[k]));
        assert(kd.contains(sorted[k]));
        let j = choose|j: int| 0 <= j < kd.len() && kd[j] == sorted[k];
        assert(ms[j] == o[k]);
    }
    assert forall|m: Move| ms.contains(m) implies #[trigger] o.contains(m) by {
        let j = choose|j: int| 0 <= j < ms.len() && ms[j] == m;
        assert(kd.contains(kd[j]));
        assert(sorted.contains(kd[j]));
        let k = choose|k: int| 0 <= k < sorted.len() && sorted[k] == kd[j];
        assert(o[k] == m);
    }
}

fn improve_exec(best: SearchMove, m: Move, e: i128, alpha: i128, beta: i128, maximizing: bool) -> (r: (SearchMove, i128, i128))
    ensures
        r == improve(best, m, e, alpha, beta, maximizing),
{
    if maximizing {
        let b = if e > best.evaluation { SearchMove::new(Some(m), e) } else { best };
        (b, if b.evaluation > alpha { b.evaluation } else { alpha }, beta)
    } else {
        let b = if e < best.evaluation { SearchMove::new(Some(m), e) } else { best };
        (b, alpha, if b.evaluation < beta { b.evaluation } else { beta })
    }
}

fn static_eval(board: &chess::Board, plies: i32) -> (r: i128)
    requires
        plies >= 0,
    ensures
        r == leaf_eval(view_of(*board), plies as int),
        -INF <= r <= INF,
{
    let moves = legal_moves(board);
    eval(board, moves, plies)
}

/// Extends a leaf through captures made while in check, up to `depth`
/// plies; the static evaluation stands in when nothing better is found.
fn quiescence_search(
    board: &chess::Board,
    alpha: i128,
    beta: i128,
    maximizing_player: bool,
    depth: u8,
    plies: i32,
    transposition_table: &mut TranspostionTable,
) -> (r: SearchMove)
    requires
        0 <= plies,
        plies + depth + 2 <= i32::MAX,
    ensures
        (r, final(transposition_table)@) == spec_quiescence(view_of(*board), alpha, beta, maximizing_player,
            depth as nat, plies as int, old(transposition_table)@),
    decreases depth,
{
    let ghost v = view_of(*board);
    let ghost result = spec_quiescence(v, alpha, beta, maximizing_player, depth as nat, plies as int, old(transposition_table)@);
    let sp = static_eval(board, plies);
    if depth == 0 || is_terminal(status(board)) {
        return SearchMove::new(None, sp);
    }
    if maximizing_player && sp >= beta {
        return SearchMove::new(None, beta);
    }
    if !maximizing_player && sp <= alpha {
        return SearchMove::new(None, alpha);
    }
    let mut alpha = if maximizing_player && sp > alpha { sp } else { alpha };
    let mut beta = if !maximizing_player && sp < beta { sp } else { beta };
    let mut best_move = SearchMove::new(None, sp);
    let all = legal_moves(board);
    let moves = order_moves_by_evaluation(board, all, maximizing_player, plies);
    proof {
        lemma_ordered_legal(v, legal_moves_of(v), maximizing_player, plies as int);
    }
    let checked = in_check(board);
    let mut i: usize = 0;
    let mut done = false;
    while i < moves.len() && !done
        invariant
            v == view_of(*board),
            0 <= plies,
            plies + depth + 2 <= i32::MAX,
            depth > 0,
            checked == in_check_of(v),
            moves@ == ordered(v, legal_moves_of(v), maximizing_player, plies as int),
            moves.len() == legal_moves_of(v).len(),
            moves_on_board(legal_moves_of(v)),
            forall|k: int| 0 <= k < moves.len() ==> legal_moves_of(v).contains(#[trigger] moves@[k]),
            i <= moves.len(),
            done ==> (best_move, transposition_table@) == result,
            !done ==> q_loop(v, moves@, i as int, alpha, beta, maximizing_player, depth as nat, plies as int,
                best_move, transposition_table@) == result,
        decreases moves.len() - i,
    {
        let m = moves[i];
        assert(legal_moves_of(v).contains(moves@[i as int]));
        proof {
            let j = choose|j: int| 0 <= j < legal_moves_of(v).len() && legal_moves_of(v)[j] == m;
            assert(legal_moves_of(v)[j].source < 64 && legal_moves_of(v)[j].dest < 64);
        }
        if crate::defense::cell(board, m.dest).is_none() || !checked {
            i = i + 1;
        } else {
            let next = make_move(board, m);
            let looked = match transposition_table.get_position(&next) {
                Some(val) => val,
                None => {
                    let sub = quiescence_search(&next, alpha, beta, !maximizing_player, depth - 1, plies + 1,
                        transposition_table);
                    transposition_table.add_position(&next, &sub);
                    sub
                },
            };
            let step = improve_exec(best_move, m, looked.evaluation, alpha, beta, maximizing_player);
            best_move = step.0;
            alpha = step.1;
            beta = step.2;
            if beta <= alpha {
                done = true;
            }
            i = i + 1;
        }
    }
    best_move
}

/// The termination measure of a search node: two per ply of depth, and one
/// more while the node may still be extended.
pub open spec fn measure(depth: nat, extended: bool) -> int {
    2 * depth + if extended { 0int } else { 1int }
}

/// The alpha-beta search of `v` (see `alpha_beta`), and the cache it leaves.
pub open spec fn spec_alpha_beta(
    v: BoardView,
    depth: nat,
    alpha: i128,
    beta: i128,
    maximizing: bool,
    plies: int,
    extended: bool,
    de_extended: bool,
    cache: Map<u64, SearchMove>,
) -> (SearchMove, Map<u64, SearchMove>)
    decreases measure(depth, extended), 1int, 0int,
{
    if depth == 0 || status_of(v) != GameStatus::Ongoing {
        if plies > USE_QUIESCENSE_SEARCH_AFTER_NPLIES {
            spec_quiescence(v, alpha, beta, maximizing, QUIESCENCE_DEPTH as nat, plies, cache)
        } else {
            (SearchMove { mov: None, evaluation: leaf_eval(v, plies) }, cache)
        }
    } else {
        let ms = ordered(v, legal_moves_of(v), maximizing, plies);
        let start = SearchMove { mov: None, evaluation: if maximizing { -INF as i128 } else { INF } };
        ab_loop(v, ms, 0, depth, alpha, beta, maximizing, plies, extended, de_extended, piece_count(v),
            leaf_eval(v, plies), start, cache)
    }
}

/// The depth, and the two flags, with which a child whose evaluation is
/// `child` is searched below a node whose evaluation is `parent`.
pub open spec fn child_depth(parent: i128, child: i128, depth: nat, extended: bool, de_extended: bool) -> (nat, bool, bool) {
    let gap = if parent >= child { parent - child } else { child - parent };
    if gap > EXTENSION_THRESHOLD && !extended {
        (depth, true, de_extended)
    } else if gap < DE_EXTENSION_THRESHOLD && !de_extended && depth > 1 {
        ((depth - 2) as nat, extended, true)
    } else {
        ((depth - 1) as nat, extended, de_extended)
    }
}

/// The result used for the child reached by `m`: the cached one on a hit,
/// else a fresh search, which is then cached.
pub open spec fn child_result(
    v: BoardView,
    m: Move,
    depth: nat,
    alpha: i128,
    beta: i128,
    maximizing: bool,
    plies: int,
    extended: bool,
    de_extended: bool,
    parent_eval: i128,
    cache: Map<u64, SearchMove>,
) -> (SearchMove, Map<u64, SearchMove>)
    decreases measure(depth, extended), 0int, 0int,
{
    let child = after_move(v, m);
    let h = hash_of(child);
    if cache.contains_key(h) {
        (cache[h], cache)
    } else if depth == 0 {
        (cache[h], cache)
    } else {
        let d = child_depth(parent_eval, leaf_eval(child, plies), depth, extended, de_extended);
        let sub = spec_alpha_beta(child, d.0, alpha, beta, !maximizing, plies + 1, d.1, d.2, cache);
        (sub.0, sub.1.insert(h, sub.0))
    }
}

/// The rest of a search node, from the `i`-th ordered move on.
pub open spec fn ab_loop(
    v: BoardView,
    ms: Seq<Move>,
    i: int,
    depth: nat,
    alpha: i128,
    beta: i128,
    maximizing: bool,
    plies: int,
    extended: bool,
    de_extended: bool,
    pieces: int,
    parent_eval: i128,
    best: SearchMove,
    cache: Map<u64, SearchMove>,
) -> (SearchMove, Map<u64, SearchMove>)
    decreases measure(depth, extended), 0int, ms.len() - i,
{
    if i >= ms.len() || i < 0 {
        (best, cache)
    } else if spec_is_bad_king_move(v, ms[i], pieces) {
        ab_loop(v, ms, i + 1, depth, alpha, beta, maximizing, plies, extended, de_extended, pieces, parent_eval, best, cache)
    } else {
        let m = ms[i];
        let looked = child_result(v, m, depth, alpha, beta, maximizing, plies, extended, de_extended, parent_eval, cache);
        let first = if best.mov is None { SearchMove { mov: Some(m), evaluation: looked.0.evaluation } } else { best };
        let step = improve(first, m, looked.0.evaluation, alpha, beta, maximizing);
        if step.2 <= step.1 {
            (step.0, looked.1)
        } else {
            ab_loop(v, ms, i + 1, depth, step.1, step.2, maximizing, plies, extended, de_extended, pieces,
                parent_eval, step.0, looked.1)
        }
    }
}

/// Searches `board` to `depth` plies with window (`alpha`, `beta`), for the
/// maximizing (White) or minimizing side. Leaves (depth 0 or a finished
/// game) take the static evaluation, or past the opening a quiescence
/// search. Inner nodes try the ordered moves, bad king moves left out,
/// reuse cached child results, and search a child one ply less deep, as
/// deep when its evaluation jumps by more than 1.5 pawns (once per line),
/// or two plies less when it moves by less than a pawn (once per line).
pub fn alpha_beta(
    board: &chess::Board,
    depth: u8,
    alpha: i128,
    beta: i128,
    maximizing_player: bool,
    plies: i32,
    extended: bool,
    de_extended: bool,
    transposition_table: &mut TranspostionTable,
) -> (r: SearchMove)
    requires
        0 <= plies,
        plies + measure(depth as nat, extended) + 10 <= i32::MAX,
    ensures
        (r, final(transposition_table)@) == spec_alpha_beta(view_of(*board), depth as nat, alpha, beta,
            maximizing_player, plies as int, extended, de_extended, old(transposition_table)@),
    decreases measure(depth as nat, extended),
{
    let ghost v = view_of(*board);
    let ghost result = spec_alpha_beta(v, depth as nat, alpha, beta, maximizing_player, plies as int, extended,
        de_extended, old(transposition_table)@);
    let board_eval = static_eval(board, plies);
    if depth == 0 || is_terminal(status(board)) {
        if plies > USE_QUIESCENSE_SEARCH_AFTER_NPLIES {
            return quiescence_search(board, alpha, beta, maximizing_player, QUIESCENCE_DEPTH, plies, transposition_table);
        } else {
            return SearchMove::new(None, board_eval);
        }
    }
    let mut alpha = alpha;
    let mut beta = beta;
    let mut best_move = if maximizing_player { SearchMove::new(None, -INF) } else { SearchMove::new(None, INF) };
    let all = legal_moves(board);
    let moves = order_moves_by_evaluation(board, all, maximizing_player, plies);
    let pieces = count_all_pieces(board);
    proof {
        lemma_ordered_legal(v, legal_moves_of(v), maximizing_player, plies as int);
    }
    let mut i: usize = 0;
    let mut done = false;
    while i < moves.len() && !done
        invariant
            v == view_of(*board),
            0 <= plies,
            plies + measure(depth as nat, extended) + 10 <= i32::MAX,
            depth > 0,
            pieces == piece_count(v),
            board_eval == leaf_eval(v, plies as int),
            -INF <= board_eval <= INF,
            moves@ == ordered(v, legal_moves_of(v), maximizing_player, plies as int),
            moves.len() == legal_moves_of(v).len(),
            moves_on_board(legal_moves_of(v)),
            forall|k: int| 0 <= k < moves.len() ==> legal_moves_of(v).contains(#[trigger] moves@[k]),
            i <= moves.len(),
            done ==> (best_move, transposition_table@) == result,
            !done ==> ab_loop(v, moves@, i as int, depth as nat, alpha, beta, maximizing_player, plies as int,
                extended, de_extended, pieces as int, board_eval, best_move, transposition_table@) == result,
        decreases moves.len() - i,
    {
        let m = moves[i];
        assert(legal_moves_of(v).contains(moves@[i as int]));
        proof {
            let j = choose|j: int| 0 <= j < legal_moves_of(v).len() && legal_moves_of(v)[j] == m;
            assert(legal_moves_of(v)[j].source < 64 && legal_moves_of(v)[j].dest < 64);
        }
        if is_bad_king_move(board, &m, pieces) {
            i = i + 1;
        } else {
            let next = make_move(board, m);
            let ghost cache0 = transposition_table@;
            let ghost expected = child_result(v, m, depth as nat, alpha, beta, maximizing_player, plies as int,
                extended, de_extended, board_eval, cache0);
            let looked = match transposition_table.get_position(&next) {
                Some(val) => val,
                None => {
                    let curr_eval = static_eval(&next, plies);
                    let gap: i128 = if board_eval >= curr_eval { board_eval - curr_eval } else { curr_eval - board_eval };
                    let sub = if gap > EXTENSION_THRESHOLD && !extended {
                        alpha_beta(&next, depth, alpha, beta, !maximizing_player, plies + 1, true, de_extended,
                            transposition_table)
                    } else if gap < DE_EXTENSION_THRESHOLD && !de_extended && depth > 1 {
                        alpha_beta(&next, depth - 2, alpha, beta, !maximizing_player, plies + 1, extended, true,
                            transposition_table)
                    } else {
                        alpha_beta(&next, depth - 1, alpha, beta, !maximizing_player, plies + 1, extended,
                            de_extended, transposition_table)
                    };
                    transposition_table.add_position(&next, &sub);
                    sub
                },
            };
            assert((looked, transposition_table@) == expected);
            let evaluation = looked.evaluation;
            if best_move.mov.is_none() {
                best_move = SearchMove::new(Some(m), evaluation);
            }
            let step = improve_exec(best_move, m, evaluation, alpha, beta, maximizing_player);
            best_move = step.0;
            alpha = step.1;
            beta = step.2;
            if beta <= alpha {
                done = true;
            }
            i = i + 1;
        }
    }
    best_move
}

/// The outside source of a move that the engine asks before searching.
#[derive(Clone, Copy, Debug, PartialEq, Eq, Structural)]
pub enum Oracle {
    /// The endgame tablebase, for positions with few pieces.
    Tablebase,
    /// The move database, in the opening.
    MoveDatabase,
    /// None: search at once.
    Nothing,
}

pub open spec fn spec_oracle_for(pieces: int, plies: int) -> Oracle {
    if pieces <= MAX_PIECE_FOR_ENDGAME {
        Oracle::Tablebase
    } else if plies <= OPENING_FOR_DIFF_EVAL {
        Oracle::MoveDatabase
    } else {
        Oracle::Nothing
    }
}

/// Which oracle to ask about `board`, `plies` plies into the game.
pub fn oracle_for(board: &chess::Board, plies: i32) -> (r: Oracle)
    ensures
        r == spec_oracle_for(piece_count(view_of(*board)), plies as int),
{
    let pieces = count_all_pieces(board);
    if pieces <= MAX_PIECE_FOR_ENDGAME {
        Oracle::Tablebase
    } else if plies <= OPENING_FOR_DIFF_EVAL {
        Oracle::MoveDatabase
    } else {
        Oracle::Nothing
    }
}

pub open spec fn spec_search_depth(pieces: int, plies: int) -> u8 {
    if plies <= OPENING_FOR_DIFF_EVAL {
        OPENING_SEARCH_DEPTH
    } else if pieces <= ENDGAME_PIECE_FOR_GREATER_DEPTH {
        ENDGAME_SEARCH_DEPTH
    } else {
        SEARCH_DEPTH
    }
}

/// The search depth: shallow in the opening, deeper with few pieces.
pub fn search_depth(pieces: u8, plies: i32) -> (r: u8)
    ensures
        r == spec_search_depth(pieces as int, plies as int),
        1 <= r <= 4,
{
    if plies <= OPENING_FOR_DIFF_EVAL {
        OPENING_SEARCH_DEPTH
    } else if pieces <= ENDGAME_PIECE_FOR_GREATER_DEPTH {
        ENDGAME_SEARCH_DEPTH
    } else {
        SEARCH_DEPTH
    }
}

/// The most plies the engine is asked about.
pub const MAX_PLIES: i32 = 1_000_000;

/// The engine's move: the oracle's move when it is legal, else the best
/// move of a fresh search (`None` only when the search finds no move).
pub open spec fn spec_engine(v: BoardView, plies: int, oracle_move: Option<Move>) -> Option<Move> {
    match oracle_move {
        Some(m) if legal_moves_of(v).contains(m) => Some(m),
        _ => spec_alpha_beta(v, spec_search_depth(piece_count(v), plies) as nat, -INF as i128, INF,
            v.side == Color::White, plies, false, false, Map::empty()).0.mov,
    }
}

fn is_legal(board: &chess::Board, m: Move) -> (r: bool)
    ensures
        r == legal_moves_of(view_of(*board)).contains(m),
{
    let moves = legal_moves(board);
    let mut i: usize = 0;
    while i < moves.len()
        invariant
            i <= moves.len(),
            moves@ == legal_moves_of(view_of(*board)),
            forall|k: int| 0 <= k < i ==> moves@[k] != m,
        decreases moves.len() - i,
    {
        if moves[i] == m {
            assert(moves@[i as int] == m);
            return true;
        }
        i = i + 1;
    }
    false
}

/// Picks a move for `board`, `plies` plies into the game. `oracle_move` is
/// what the oracle named by `oracle_for` answered, if anything; it is taken
/// when legal. Otherwise the position is searched from scratch with a fresh
/// cache, at the depth `search_depth` gives, for the side to move.
pub fn engine(board: &chess::Board, plies: i32, oracle_move: Option<Move>) -> (r: Option<Move>)
    requires
        0 <= plies <= MAX_PLIES,
    ensures
        r == spec_engine(view_of(*board), plies as int, oracle_move),
        r matches Some(m) ==> legal_moves_of(view_of(*board)).contains(m),
        (exists|m: Move| legal_moves_of(view_of(*board)).contains(m)
            && !spec_is_bad_king_move(view_of(*board), m, piece_count(view_of(*board)))) ==> r is Some,
{
    proof {
        lemma_engine_move(view_of(*board), plies as int, oracle_move);
    }
    if let Some(m) = oracle_move {
        if is_legal(board, m) {
            return Some(m);
        }
    }
    let pieces = count_all_pieces(board);
    let depth = search_depth(pieces, plies);
    let mut transposition_table = TranspostionTable::new();
    let maximizing = match side_to_move(board) {
        Color::White => true,
        Color::Black => false,
    };
    let search_move = alpha_beta(board, depth, -INF, INF, maximizing, plies, false, false, &mut transposition_table);
    search_move.mov
}

/// Some move from `i` on is not a bad king move.
pub open spec fn good_move_from(v: BoardView, ms: Seq<Move>, pieces: int, i: int) -> bool {
    exists|k: int| i <= k < ms.len() && !spec_is_bad_king_move(v, #[trigger] ms[k], pieces)
}

proof fn lemma_ab_loop_move(
    v: BoardView,
    ms: Seq<Move>,
    i: int,
    depth: nat,
    alpha: i128,
    beta: i128,
    maximizing: bool,
    plies: int,
    extended: bool,
    de_extended: bool,
    pieces: int,
    parent_eval: i128,
    best: SearchMove,
    cache: Map<u64, SearchMove>,
)
    requires
        0 <= i <= ms.len(),
    ensures
        ab_loop(v, ms, i, depth, alpha, beta, maximizing, plies, extended, de_extended, pieces, parent_eval, best,
            cache).0.mov is Some <==> (best.mov is Some || good_move_from(v, ms, pieces, i)),
        ab_loop(v, ms, i, depth, alpha, beta, maximizing, plies, extended, de_extended, pieces, parent_eval, best,
            cache).0.mov matches Some(m) ==> (best.mov == Some(m) || exists|k: int|
            i <= k < ms.len() && #[trigger] ms[k] == m && !spec_is_bad_king_move(v, m, pieces)),
    decreases ms.len() - i,
{
    if i < ms.len() {
        if spec_is_bad_king_move(v, ms[i], pieces) {
            lemma_ab_loop_move(v, ms, i + 1, depth, alpha, beta, maximizing, plies, extended, de_extended, pieces,
                parent_eval, best, cache);
            if good_move_from(v, ms, pieces, i) {
                let k = choose|k: int| i <= k < ms.len() && !spec_is_bad_king_move(v, #[trigger] ms[k], pieces);
                assert(k != i);
                assert(good_move_from(v, ms, pieces, i + 1));
            }
        } else {
            let m = ms[i];
            let looked = child_result(v, m, depth, alpha, beta, maximizing, plies, extended, de_extended, parent_eval, cache);
            let first = if best.mov is None { SearchMove { mov: Some(m), evaluation: looked.0.evaluation } } else { best };
            let step = improve(first, m, looked.0.evaluation, alpha, beta, maximizing);
            assert(!spec_is_bad_king_move(v, ms[i], pieces));
            assert(good_move_from(v, ms, pieces, i));
            if step.2 > step.1 {
                lemma_ab_loop_move(v, ms, i + 1, depth, step.1, step.2, maximizing, plies, extended, de_extended,
                    pieces, parent_eval, step.0, looked.1);
            }
        }
    }
}

/// The engine's move is legal, and there is one whenever some legal move
/// is not a bad king move.
pub proof fn lemma_engine_move(v: BoardView, plies: int, oracle_move: Option<Move>)
    ensures
        spec_engine(v, plies, oracle_move) matches Some(m) ==> legal_moves_of(v).contains(m),
        (exists|m: Move| legal_moves_of(v).contains(m) && !spec_is_bad_king_move(v, m, piece_count(v)))
            ==> spec_engine(v, plies, oracle_move) is Some,
{
    let maximizing = v.side == Color::White;
    let depth = spec_search_depth(piece_count(v), plies) as nat;
    let ms = ordered(v, legal_moves_of(v), maximizing, plies);
    lemma_ordered_legal(v, legal_moves_of(v), maximizing, plies);
    if depth > 0 && status_of(v) == GameStatus::Ongoing {
        let start = SearchMove { mov: None, evaluation: if maximizing { -INF as i128 } else { INF } };
        lemma_ab_loop_move(v, ms, 0, depth, -INF as i128, INF, maximizing, plies, false, false, piece_count(v),
            leaf_eval(v, plies), start, Map::empty());
        let r = ab_loop(v, ms, 0, depth, -INF as i128, INF, maximizing, plies, false, false, piece_count(v),
            leaf_eval(v, plies), start, Map::empty()).0;
        if let Some(m) = r.mov {
            let k = choose|k: int| 0 <= k < ms.len() && #[trigger] ms[k] == m && !spec_is_bad_king_move(v, m, piece_count(v));
            assert(legal_moves_of(v).contains(ms[k]));
        }
        if exists|m: Move| legal_moves_of(v).contains(m) && !spec_is_bad_king_move(v, m, piece_count(v)) {
            let m = choose|m: Move| legal_moves_of(v).contains(m) && !spec_is_bad_king_move(v, m, piece_count(v));
            assert(ms.contains(m));
            let k = choose|k: int| 0 <= k < ms.len() && ms[k] == m;
            assert(good_move_from(v, ms, piece_count(v), 0));
        }
    } else if exists|m: Move| legal_moves_of(v).contains(m) && !spec_is_bad_king_move(v, m, piece_count(v)) {
        let m = choose|m: Move| legal_moves_of(v).contains(m) && !spec_is_bad_king_move(v, m, piece_count(v));
        assert(legal_moves_of(v).len() > 0);
    }
}

/// A cache hit gives what the miss before it computed: once a child's
/// result has been searched and cached, looking the same child up again
/// yields that result and leaves the cache as it is.
pub proof fn lemma_cache_hit_matches_miss(
    v: BoardView,
    m: Move,
    depth: nat,
    alpha: i128,
    beta: i128,
    maximizing: bool,
    plies: int,
    extended: bool,
    de_extended: bool,
    parent_eval: i128,
    cache: Map<u64, SearchMove>,
)
    requires
        depth > 0,
        !cache.contains_key(hash_of(after_move(v, m))),
    ensures
        ({
            let miss = child_result(v, m, depth, alpha, beta, maximizing, plies, extended, de_extended, parent_eval, cache);
            let hit = child_result(v, m, depth, alpha, beta, maximizing, plies, extended, de_extended, parent_eval, miss.1);
            hit == miss && miss.1.contains_key(hash_of(after_move(v, m))) && miss.1[hash_of(after_move(v, m))] == miss.0
        }),
{
}

/// The search is a function of the position and its arguments: two boards
/// that hold the same position, searched with the same arguments from
/// empty caches, give the same result and leave the same cache.
pub proof fn lemma_alpha_beta_deterministic(
    b1: chess::Board,
    b2: chess::Board,
    depth: nat,
    alpha: i128,
    beta: i128,
    maximizing: bool,
    plies: int,
    extended: bool,
    de_extended: bool,
)
    requires
        view_of(b1) == view_of(b2),
    ensures
        spec_alpha_beta(view_of(b1), depth, alpha, beta, maximizing, plies, extended, de_extended, Map::empty())
            == spec_alpha_beta(view_of(b2), depth, alpha, beta, maximizing, plies, extended, de_extended, Map::empty()),
{
}

} // verus!

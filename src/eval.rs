//! The static evaluator: a White-relative score in millipawns, built from
//! five additive passes over a position.
use vstd::prelude::*;
use crate::board::{
    BoardView, GameStatus, board_cells, view_of, passed, piece_of, color_of,
    legal_moves_of, in_check_of, king_square_of, status_of, moves_on_board,
    side_to_move, king_square, in_check, legal_moves, null_move, status,
};
use crate::consts::{
    MAX_PIECE_FOR_ENDGAME, OPENING_PIECES_FOR_PIECE_SAFETY, OPENING_PIECES_FOR_KING_SAFETY,
    OPENING_FOR_DIFF_EVAL, PAWN_SHIELD_SCORE, ROOK_ON_7TH_RANK_BONUS, PAWN_ON_SAFE_FILE_DISADVANTAGE,
    PAWN_KING_DISTANCE_WEIGHT, GOOD_KNIGHT, KING_MOVED_NOT_ENDGAME, OPENING_QUEEN_SAFETY,
    QUEEN_NEAR_KING, QUEEN_TWO_FROM_KING, PAWN_CHAIN_BONUS, ENDGAME_PAWN_ROOK_DEFENSE_ADVANTAGE,
    DEFENDING_PIECE, CONTROLLING_SQUARE, DEFENDING_PIECE_OPENING, CONTROLLING_SQUARE_OPENING,
    ENDGAME_KING_DISTANCE_DIVISOR,
};
use crate::defense::{first_ray_defender, spec_is_defended, first_defender_on_rays, is_defended, cell};
use crate::geometry::{chebyshev, spec_distance, on_board, abs, distance, chebyshev_distance, is_valid_file_rank, square_index};
use crate::material::{material, material_value};
use crate::piece_table::{spec_pawn_square_value, spec_king_square_value, pawn_square_value, king_square_value};
use crate::types::{Color, Move, Piece, INF, other, invert_color};

verus! {

/// `advantage` for `turn`, as a White-relative score.
pub open spec fn ws(advantage: int, turn: Color) -> int {
    if turn == Color::White { advantage } else { -advantage }
}

/// Turns an advantage of the side `turn` into a White-relative score.
pub fn white_score(advantage: i128, turn: Color) -> (r: i128)
    requires
        advantage > i128::MIN,
    ensures
        r == ws(advantage as int, turn),
{
    match turn {
        Color::White => advantage,
        Color::Black => -advantage,
    }
}

/// Whether the game is over.
pub fn is_terminal(status: GameStatus) -> (r: bool)
    ensures
        r == (status != GameStatus::Ongoing),
{
    !matches!(status, GameStatus::Ongoing)
}

pub open spec fn occupied_count(cells: Seq<Option<(Piece, Color)>>, n: int) -> int
    decreases n,
{
    if n <= 0 {
        0
    } else {
        occupied_count(cells, n - 1) + if cells[n - 1] is Some { 1int } else { 0int }
    }
}

/// The number of pieces on the board, kings included.
pub open spec fn piece_count(v: BoardView) -> int {
    occupied_count(v.cells, 64)
}

/// Counts the pieces on the board.
pub fn count_all_pieces(board: &chess::Board) -> (r: u8)
    ensures
        r == piece_count(view_of(*board)),
{
    let mut res: u8 = 0;
    let mut sq: u8 = 0;
    while sq < 64
        invariant
            sq <= 64,
            res <= sq,
            res == occupied_count(board_cells(*board), sq as int),
        decreases 64 - sq,
    {
        if cell(board, sq).is_some() {
            res = res + 1;
        }
        sq = sq + 1;
    }
    res
}

/// A king move that the evaluator and the search leave out: while kings
/// are kept home, a king move that is neither castling nor a capture, made
/// while not in check.
pub open spec fn spec_is_bad_king_move(v: BoardView, m: Move, pieces: int) -> bool {
    &&& pieces <= OPENING_PIECES_FOR_KING_SAFETY
    &&& abs(m.dest - m.source) != 2
    &&& v.cells[m.dest as int] is None
    &&& !in_check_of(v)
    &&& (m.source == king_square_of(v, Color::White) || m.source == king_square_of(v, Color::Black))
}

/// Whether `mov` is a king move that is left out (see `spec_is_bad_king_move`).
pub fn is_bad_king_move(board: &chess::Board, mov: &Move, pieces: u8) -> (r: bool)
    requires
        mov.dest < 64,
    ensures
        r == spec_is_bad_king_move(view_of(*board), *mov, pieces as int),
{
    let is_opening_for_king_safety = pieces <= OPENING_PIECES_FOR_KING_SAFETY;
    let gap = if mov.dest >= mov.source { mov.dest - mov.source } else { mov.source - mov.dest };
    let is_castling = gap == 2;
    let is_capturing = cell(board, mov.dest).is_some();
    let is_check = in_check(board);
    is_opening_for_king_safety && !is_castling && !is_capturing && !is_check && (mov.source
        == king_square(board, Color::White) || mov.source == king_square(board, Color::Black))
}

/// The phase flags of one evaluation.
#[derive(Clone, Copy)]
pub struct Phase {
    pub endgame: bool,
    pub piece_safety: bool,
    pub king_safety: bool,
    pub plies: i32,
    pub white_shield: bool,
    pub black_shield: bool,
}

/// Whether the three squares one rank ahead of a color's king (behind it,
/// seen from White, for Black) are all on the board and occupied.
pub open spec fn has_shield(v: BoardView, c: Color) -> bool {
    let k = king_square_of(v, c) as int;
    let r = k / 8 + if c == Color::White { 1int } else { -1int };
    let f = k % 8;
    &&& on_board(f - 1, r) && on_board(f + 1, r)
    &&& v.cells[r * 8 + f - 1] is Some
    &&& v.cells[r * 8 + f] is Some
    &&& v.cells[r * 8 + f + 1] is Some
}

pub open spec fn spec_phase(v: BoardView, plies: int) -> Phase {
    let pieces = piece_count(v);
    let king_safety = pieces <= OPENING_PIECES_FOR_KING_SAFETY;
    Phase {
        endgame: pieces <= MAX_PIECE_FOR_ENDGAME,
        piece_safety: plies <= OPENING_PIECES_FOR_PIECE_SAFETY,
        king_safety,
        plies: plies as i32,
        white_shield: king_safety && has_shield(v, Color::White),
        black_shield: king_safety && has_shield(v, Color::Black),
    }
}

/// Pass one: the pawn shields.
pub open spec fn shield_score(ph: Phase) -> int {
    (if ph.white_shield { PAWN_SHIELD_SCORE as int } else { 0 })
        - (if ph.black_shield { PAWN_SHIELD_SCORE as int } else { 0 })
}

/// Whether a pawn stands on file `f` among the first `n` squares.
pub open spec fn pawn_file_seen(v: BoardView, f: int, n: int) -> bool
    decreases n,
{
    if n <= 0 {
        false
    } else {
        pawn_file_seen(v, f, n - 1) || (piece_of(v.cells[n - 1]) == Some(Piece::Pawn) && (n - 1) % 8 == f)
    }
}

/// Division rounded toward zero, by a positive divisor.
pub open spec fn tdiv(a: int, b: int) -> int {
    if a >= 0 { a / b } else { -((-a) / b) }
}

pub open spec fn rook_term(p: Piece, c: Color, rank: int) -> int {
    if p == Piece::Rook && c == Color::White && rank == 6 {
        ROOK_ON_7TH_RANK_BONUS as int
    } else if p == Piece::Rook && c == Color::Black && rank == 1 {
        -(ROOK_ON_7TH_RANK_BONUS as int)
    } else {
        0
    }
}

pub open spec fn endgame_pawn_term(v: BoardView, s: int, p: Piece, c: Color, ph: Phase) -> int {
    if ph.endgame && p == Piece::Pawn {
        (if pawn_file_seen(v, s % 8, s) { -ws(PAWN_ON_SAFE_FILE_DISADVANTAGE as int, c) } else { 0 })
            + PAWN_KING_DISTANCE_WEIGHT as int * (spec_distance(king_square_of(v, c) as int, s)
            - spec_distance(king_square_of(v, other(c)) as int, s))
    } else {
        0
    }
}

pub open spec fn knight_term(s: int, p: Piece, c: Color, ph: Phase) -> int {
    if p == Piece::Knight && ph.piece_safety {
        if c == Color::White && (s == 21 || s == 18) {
            GOOD_KNIGHT as int
        } else if c == Color::Black && (s == 42 || s == 45) {
            -(GOOD_KNIGHT as int)
        } else {
            0
        }
    } else {
        0
    }
}

pub open spec fn king_moved_term(p: Piece, c: Color, rank: int, ph: Phase) -> int {
    if p == Piece::King && ph.king_safety {
        let d = if ph.plies == 0 { 8 } else { ph.plies as int };
        if c == Color::Black && rank != 7 {
            KING_MOVED_NOT_ENDGAME as int / d
        } else if c == Color::White && rank != 0 {
            -(KING_MOVED_NOT_ENDGAME as int / d)
        } else {
            0
        }
    } else {
        0
    }
}

pub open spec fn queen_safety_term(p: Piece, c: Color, rank: int, ph: Phase) -> int {
    if p == Piece::Queen && ph.piece_safety {
        if c == Color::White && rank >= 4 {
            -(OPENING_QUEEN_SAFETY as int)
        } else if c == Color::Black && rank <= 3 {
            OPENING_QUEEN_SAFETY as int
        } else {
            0
        }
    } else {
        0
    }
}

pub open spec fn proximity_bonus(d: int) -> int {
    if d == 1 {
        QUEEN_NEAR_KING as int
    } else if d == 2 {
        QUEEN_TWO_FROM_KING as int
    } else {
        0
    }
}

pub open spec fn queen_attack_term(v: BoardView, s: int, p: Piece, c: Color, ph: Phase) -> int {
    let enemy_shield = if c == Color::White { ph.black_shield } else { ph.white_shield };
    if p == Piece::Queen && !ph.king_safety && spec_is_defended(v, s, c) && !enemy_shield {
        ws(proximity_bonus(spec_distance(king_square_of(v, other(c)) as int, s)), c)
    } else {
        0
    }
}

pub open spec fn worth_term(v: BoardView, s: int, p: Piece, c: Color, ph: Phase) -> int {
    match p {
        Piece::Pawn => ws(spec_pawn_square_value(v, s / 8, s % 8, c, ph.endgame), c),
        Piece::King => ws(spec_king_square_value(v, s / 8, s % 8, c, ph.endgame), c),
        _ => ws(material_value(Some(p)) as int, c),
    }
}

/// Pass two, for one square.
pub open spec fn square_term(v: BoardView, s: int, ph: Phase) -> int {
    match v.cells[s] {
        None => 0,
        Some(pc) => {
            let p = pc.0;
            let c = pc.1;
            rook_term(p, c, s / 8) + endgame_pawn_term(v, s, p, c, ph) + knight_term(s, p, c, ph)
                + king_moved_term(p, c, s / 8, ph) + queen_safety_term(p, c, s / 8, ph)
                + queen_attack_term(v, s, p, c, ph) + worth_term(v, s, p, c, ph)
        },
    }
}

/// Pass two over the first `n` squares.
pub open spec fn squares_score(v: BoardView, ph: Phase, n: int) -> int
    decreases n,
{
    if n <= 0 {
        0
    } else {
        squares_score(v, ph, n - 1) + square_term(v, n - 1, ph)
    }
}

fn pawn_shield(board: &chess::Board, c: Color) -> (r: bool)
    ensures
        r == has_shield(view_of(*board), c),
{
    let k = king_square(board, c);
    let (rank, file) = square_index(k);
    let r: i8 = match c {
        Color::White => rank as i8 + 1,
        Color::Black => rank as i8 - 1,
    };
    let f = file as i8;
    if !is_valid_file_rank(f - 1, r) || !is_valid_file_rank(f + 1, r) {
        return false;
    }
    let base = (r * 8 + f) as u8;
    cell(board, base - 1).is_some() && cell(board, base).is_some() && cell(board, base + 1).is_some()
}

fn phase_of(board: &chess::Board, pieces: u8, plies: i32) -> (r: Phase)
    requires
        pieces == piece_count(view_of(*board)),
    ensures
        r == spec_phase(view_of(*board), plies as int),
{
    let king_safety = pieces <= OPENING_PIECES_FOR_KING_SAFETY;
    Phase {
        endgame: pieces <= MAX_PIECE_FOR_ENDGAME,
        piece_safety: plies <= OPENING_PIECES_FOR_PIECE_SAFETY,
        king_safety,
        plies,
        white_shield: king_safety && pawn_shield(board, Color::White),
        black_shield: king_safety && pawn_shield(board, Color::Black),
    }
}

fn square_score(board: &chess::Board, sq: u8, ph: Phase, seen: bool) -> (r: i128)
    requires
        sq < 64,
        ph.plies >= 0,
        seen == pawn_file_seen(view_of(*board), (sq % 8) as int, sq as int),
    ensures
        r == square_term(view_of(*board), sq as int, ph),
        -100_000 <= r <= 100_000,
{
    let (p, c) = match cell(board, sq) {
        None => { return 0; },
        Some(pc) => pc,
    };
    let (rank, file) = square_index(sq);
    let mut score: i128 = 0;
    if p == Piece::Rook && c == Color::White && rank == 6 {
        score = score + ROOK_ON_7TH_RANK_BONUS;
    } else if p == Piece::Rook && c == Color::Black && rank == 1 {
        score = score - ROOK_ON_7TH_RANK_BONUS;
    }
    if ph.endgame && p == Piece::Pawn {
        if seen {
            score = score - white_score(PAWN_ON_SAFE_FILE_DISADVANTAGE, c);
        }
        let own = distance(king_square(board, c), sq) as i128;
        let enemy = distance(king_square(board, invert_color(c)), sq) as i128;
        score = score + PAWN_KING_DISTANCE_WEIGHT * (own - enemy);
    }
    if p == Piece::Knight && ph.piece_safety {
        if c == Color::White && (sq == 21 || sq == 18) {
            score = score + GOOD_KNIGHT;
        } else if c == Color::Black && (sq == 42 || sq == 45) {
            score = score - GOOD_KNIGHT;
        }
    }
    if p == Piece::King && ph.king_safety {
        let d: i128 = if ph.plies == 0 { 8 } else { ph.plies as i128 };
        if c == Color::Black && rank != 7 {
            score = score + KING_MOVED_NOT_ENDGAME / d;
        } else if c == Color::White && rank != 0 {
            score = score - KING_MOVED_NOT_ENDGAME / d;
        }
    }
    if p == Piece::Queen && ph.piece_safety {
        if c == Color::White && rank >= 4 {
            score = score - OPENING_QUEEN_SAFETY;
        } else if c == Color::Black && rank <= 3 {
            score = score + OPENING_QUEEN_SAFETY;
        }
    }
    let enemy_shield = match c {
        Color::White => ph.black_shield,
        Color::Black => ph.white_shield,
    };
    if p == Piece::Queen && !ph.king_safety && is_defended(board, sq, c) && !enemy_shield {
        let d = distance(king_square(board, invert_color(c)), sq);
        let bonus: i128 = if d == 1 {
            QUEEN_NEAR_KING
        } else if d == 2 {
            QUEEN_TWO_FROM_KING
        } else {
            0
        };
        score = score + white_score(bonus, c);
    }
    let worth = match p {
        Piece::Pawn => pawn_square_value(rank, file, c, ph.endgame, board),
        Piece::King => king_square_value(rank, file, c, ph.endgame, board),
        _ => material(Some(p)),
    };
    score + white_score(worth, c)
}

/// What pass three carries from one move to the next.
pub struct CaptureState {
    pub score: int,
    /// The largest material captured so far.
    pub max_captured: int,
    /// Source squares whose capture has been counted.
    pub sources: Set<int>,
}

/// The bonus that a defended pawn on `sq` brings to its side `c`: a pawn
/// chain when the first defender is a pawn, and in the endgame a rook
/// behind the pawn.
pub open spec fn defense_bonus(v: BoardView, sq: int, c: Color, endgame: bool) -> int {
    if piece_of(v.cells[sq]) == Some(Piece::Pawn) {
        match first_ray_defender(v, sq, c, 0) {
            Some(Piece::Pawn) => ws(PAWN_CHAIN_BONUS as int, c),
            Some(Piece::Rook) => if endgame { ws(ENDGAME_PAWN_ROOK_DEFENSE_ADVANTAGE as int, c) } else { 0 },
            _ => 0,
        }
    } else {
        0
    }
}

/// Pass three, for one move of the side to move.
pub open spec fn capture_step(v: BoardView, ph: Phase, pieces: int, st: CaptureState, m: Move) -> CaptureState {
    let side = v.side;
    let opp = other(side);
    if spec_is_bad_king_move(v, m, pieces) {
        st
    } else if color_of(v.cells[m.dest as int]) == Some(opp) {
        if st.sources.contains(m.source as int) {
            CaptureState {
                score: st.score + ws(DEFENDING_PIECE as int, side),
                max_captured: st.max_captured,
                sources: st.sources,
            }
        } else {
            let d = material_value(piece_of(v.cells[m.dest as int])) as int;
            let a = material_value(piece_of(v.cells[m.source as int])) as int;
            let raw = if spec_is_defended(v, m.dest as int, opp) {
                d - a - st.max_captured
            } else {
                d - st.max_captured
            };
            let gain = if raw > 0 { raw } else { 0 };
            CaptureState {
                score: st.score + defense_bonus(v, m.dest as int, opp, ph.endgame) + ws(gain, side),
                max_captured: if d > st.max_captured { d } else { st.max_captured },
                sources: st.sources.insert(m.source as int),
            }
        }
    } else {
        CaptureState {
            score: st.score + ws(CONTROLLING_SQUARE as int, side),
            max_captured: st.max_captured,
            sources: st.sources,
        }
    }
}

/// Pass three over the first `n` moves.
pub open spec fn captures(v: BoardView, ph: Phase, pieces: int, ms: Seq<Move>, n: int) -> CaptureState
    decreases n,
{
    if n <= 0 {
        CaptureState { score: 0, max_captured: 0, sources: Set::empty() }
    } else {
        capture_step(v, ph, pieces, captures(v, ph, pieces, ms, n - 1), ms[n - 1])
    }
}

/// Pass four, for one move the opponent could make if it were its turn.
pub open spec fn reply_term(v: BoardView, plies: int, endgame: bool, m: Move) -> int {
    let opp = other(v.side);
    let opening = plies <= OPENING_FOR_DIFF_EVAL;
    if v.cells[m.dest as int] is Some {
        (if endgame && piece_of(v.cells[m.dest as int]) == Some(Piece::Pawn)
            && piece_of(v.cells[m.source as int]) == Some(Piece::Pawn) {
            ws(ENDGAME_PAWN_ROOK_DEFENSE_ADVANTAGE as int, opp)
        } else {
            0
        }) + ws(if opening { DEFENDING_PIECE_OPENING as int } else { DEFENDING_PIECE as int }, opp)
    } else {
        ws(if opening { CONTROLLING_SQUARE_OPENING as int } else { CONTROLLING_SQUARE as int }, opp)
    }
}

pub open spec fn replies_score(v: BoardView, plies: int, endgame: bool, ms: Seq<Move>, n: int) -> int
    decreases n,
{
    if n <= 0 {
        0
    } else {
        replies_score(v, plies, endgame, ms, n - 1) + reply_term(v, plies, endgame, ms[n - 1])
    }
}

/// Pass four: the opponent's mobility, when passing the move is allowed.
pub open spec fn opponent_score(v: BoardView, plies: int, endgame: bool) -> int {
    if in_check_of(v) {
        0
    } else {
        let ms = legal_moves_of(passed(v));
        replies_score(v, plies, endgame, ms, ms.len() as int)
    }
}

/// Pass five: an endgame sum `s` grows by a tenth for each of the `k`
/// squares between the kings.
pub open spec fn king_distance_scaled(s: int, k: int) -> int {
    s + tdiv(s * k, ENDGAME_KING_DISTANCE_DIVISOR as int)
}

/// The evaluation of a position with its legal moves `ms`, White-relative:
/// mate is `-INF` with White to move and `INF` with Black to move, a
/// stalemate or two bare kings score 0, and otherwise the five passes add
/// up (pass five scales the sum in the endgame by the kings' distance).
pub open spec fn spec_eval(v: BoardView, ms: Seq<Move>, plies: int) -> int {
    let pieces = piece_count(v);
    if status_of(v) == GameStatus::Checkmate {
        if v.side == Color::White { -INF } else { INF as int }
    } else if status_of(v) == GameStatus::Stalemate || pieces == 2 {
        0
    } else {
        let ph = spec_phase(v, plies);
        let s = shield_score(ph) + squares_score(v, ph, 64) + captures(v, ph, pieces, ms, ms.len() as int).score
            + opponent_score(v, plies, ph.endgame);
        if ph.endgame {
            king_distance_scaled(s, chebyshev(king_square_of(v, Color::White) as int, king_square_of(v, Color::Black) as int))
        } else {
            s
        }
    }
}

fn defense_bonus_of(board: &chess::Board, sq: u8, c: Color, endgame: bool) -> (r: i128)
    requires
        sq < 64,
    ensures
        r == defense_bonus(view_of(*board), sq as int, c, endgame),
        -250 <= r <= 250,
{
    if !piece_on_is_pawn(board, sq) {
        return 0;
    }
    match first_defender_on_rays(board, sq, c) {
        Some(Piece::Pawn) => white_score(PAWN_CHAIN_BONUS, c),
        Some(Piece::Rook) => if endgame { white_score(ENDGAME_PAWN_ROOK_DEFENSE_ADVANTAGE, c) } else { 0 },
        _ => 0,
    }
}

fn piece_on_is_pawn(board: &chess::Board, sq: u8) -> (r: bool)
    requires
        sq < 64,
    ensures
        r == (piece_of(board_cells(*board)[sq as int]) == Some(Piece::Pawn)),
{
    match cell(board, sq) {
        Some((Piece::Pawn, _)) => true,
        _ => false,
    }
}

fn capture_score(board: &chess::Board, moves: &Vec<Move>, ph: Phase, pieces: u8) -> (r: i128)
    requires
        moves_on_board(moves@),
    ensures
        r == captures(view_of(*board), ph, pieces as int, moves@, moves.len() as int).score,
        -10_000 * moves.len() <= r <= 10_000 * moves.len(),
{
    let ghost v = view_of(*board);
    let side = side_to_move(board);
    let opp = invert_color(side);
    let mut score: i128 = 0;
    let mut max_captured: i128 = 0;
    let mut seen: Vec<bool> = Vec::new();
    while seen.len() < 64
        invariant
            seen.len() <= 64,
            forall|s: int| 0 <= s < seen.len() ==> !seen@[s],
        decreases 64 - seen.len(),
    {
        seen.push(false);
    }
    let mut i: usize = 0;
    while i < moves.len()
        invariant
            i <= moves.len(),
            moves_on_board(moves@),
            v == view_of(*board),
            side == v.side,
            opp == other(side),
            seen.len() == 64,
            score == captures(v, ph, pieces as int, moves@, i as int).score,
            max_captured == captures(v, ph, pieces as int, moves@, i as int).max_captured,
            0 <= max_captured <= 9500,
            -10_000 * i <= score <= 10_000 * i,
            forall|s: int| 0 <= s < 64 ==> seen@[s] == captures(v, ph, pieces as int, moves@, i as int).sources.contains(s),
            forall|s: int| captures(v, ph, pieces as int, moves@, i as int).sources.contains(s) ==> 0 <= s < 64,
        decreases moves.len() - i,
    {
        let m = moves[i];
        assert(moves@[i as int] == m);
        assert(m.source < 64 && m.dest < 64);
        if is_bad_king_move(board, &m, pieces) {
        } else if color_on_is(board, m.dest, opp) {
            if seen[m.source as usize] {
                score = score + white_score(DEFENDING_PIECE, side);
            } else {
                let d = material(crate::board::piece_on(board, m.dest));
                let a = material(crate::board::piece_on(board, m.source));
                let raw = if is_defended(board, m.dest, opp) {
                    d - a - max_captured
                } else {
                    d - max_captured
                };
                let gain = if raw > 0 { raw } else { 0 };
                score = score + defense_bonus_of(board, m.dest, opp, ph.endgame) + white_score(gain, side);
                if d > max_captured {
                    max_captured = d;
                }
                seen.set(m.source as usize, true);
            }
        } else {
            score = score + white_score(CONTROLLING_SQUARE, side);
        }
        i = i + 1;
        assert(captures(v, ph, pieces as int, moves@, i as int) == capture_step(v, ph, pieces as int,
            captures(v, ph, pieces as int, moves@, i - 1), moves@[i - 1]));
    }
    score
}

fn color_on_is(board: &chess::Board, sq: u8, c: Color) -> (r: bool)
    requires
        sq < 64,
    ensures
        r == (color_of(board_cells(*board)[sq as int]) == Some(c)),
{
    match crate::board::color_on(board, sq) {
        Some(x) => x == c,
        None => false,
    }
}

fn opponent_mobility(board: &chess::Board, plies: i32, endgame: bool) -> (r: i128)
    ensures
        r == opponent_score(view_of(*board), plies as int, endgame),
        -1000 * usize::MAX <= r <= 1000 * usize::MAX,
{
    let ghost v = view_of(*board);
    let flipped = match null_move(board) {
        None => { return 0; },
        Some(n) => n,
    };
    assert(view_of(flipped) == passed(v));
    let replies = legal_moves(&flipped);
    let opp = invert_color(side_to_move(board));
    let opening = plies <= OPENING_FOR_DIFF_EVAL;
    let mut score: i128 = 0;
    let mut i: usize = 0;
    while i < replies.len()
        invariant
            i <= replies.len(),
            v == view_of(*board),
            replies@ == legal_moves_of(passed(v)),
            moves_on_board(replies@),
            opp == other(v.side),
            opening == (plies <= OPENING_FOR_DIFF_EVAL),
            score == replies_score(v, plies as int, endgame, replies@, i as int),
            -1000 * i <= score <= 1000 * i,
        decreases replies.len() - i,
    {
        let m = replies[i];
        assert(replies@[i as int] == m);
        assert(replies@[i as int].source < 64 && replies@[i as int].dest < 64);
        let dest = cell(board, m.dest);
        if dest.is_some() {
            if endgame && piece_on_is_pawn(board, m.dest) && piece_on_is_pawn(board, m.source) {
                score = score + white_score(ENDGAME_PAWN_ROOK_DEFENSE_ADVANTAGE, opp);
            }
            score = score + white_score(if opening { DEFENDING_PIECE_OPENING } else { DEFENDING_PIECE }, opp);
        } else {
            score = score + white_score(if opening { CONTROLLING_SQUARE_OPENING } else { CONTROLLING_SQUARE }, opp);
        }
        i = i + 1;
    }
    score
}

/// Static evaluation of `board`, White-relative, in millipawns, given its
/// legal moves and the number of plies played.
pub fn eval(board: &chess::Board, legal_moves: Vec<Move>, plies: i32) -> (r: i128)
    requires
        plies >= 0,
        moves_on_board(legal_moves@),
    ensures
        r == spec_eval(view_of(*board), legal_moves@, plies as int),
        status_of(view_of(*board)) == GameStatus::Ongoing && piece_count(view_of(*board)) != 2 ==> -INF < r < INF,
        -INF <= r <= INF,
{
    let ghost v = view_of(*board);
    let pieces = count_all_pieces(board);
    let st = status(board);
    if st == GameStatus::Checkmate {
        return match side_to_move(board) {
            Color::White => -INF,
            Color::Black => INF,
        };
    } else if st == GameStatus::Stalemate || pieces == 2 {
        return 0;
    }
    let ph = phase_of(board, pieces, plies);
    let mut score: i128 = 0;
    if ph.white_shield {
        score = score + PAWN_SHIELD_SCORE;
    }
    if ph.black_shield {
        score = score - PAWN_SHIELD_SCORE;
    }
    let ghost first = score as int;
    let mut files: Vec<bool> = Vec::new();
    while files.len() < 8
        invariant
            files.len() <= 8,
            forall|f: int| 0 <= f < files.len() ==> !files@[f],
        decreases 8 - files.len(),
    {
        files.push(false);
    }
    let mut sq: u8 = 0;
    while sq < 64
        invariant
            sq <= 64,
            v == view_of(*board),
            ph.plies >= 0,
            files.len() == 8,
            forall|f: int| 0 <= f < 8 ==> files@[f] == pawn_file_seen(v, f, sq as int),
            -500 <= first <= 500,
            score == first + squares_score(v, ph, sq as int),
            -500 - 100_000 * sq <= score <= 500 + 100_000 * sq,
        decreases 64 - sq,
    {
        let seen = files[(sq % 8) as usize];
        let t = square_score(board, sq, ph, seen);
        score = score + t;
        if piece_on_is_pawn(board, sq) {
            files.set((sq % 8) as usize, true);
        }
        sq = sq + 1;
        assert forall|f: int| 0 <= f < 8 implies files@[f] == pawn_file_seen(v, f, sq as int) by {
            assert(pawn_file_seen(v, f, sq as int) == (pawn_file_seen(v, f, sq - 1)
                || (piece_of(v.cells[sq - 1]) == Some(Piece::Pawn) && (sq - 1) % 8 == f)));
        }
    }
    let n = legal_moves.len();
    let c = capture_score(board, &legal_moves, ph, pieces);
    score = score + c;
    let o = opponent_mobility(board, plies, ph.endgame);
    score = score + o;
    assert(-7_000_000 - 11_000 * usize::MAX <= score <= 7_000_000 + 11_000 * usize::MAX);
    if ph.endgame {
        let k = chebyshev_distance(king_square(board, Color::White), king_square(board, Color::Black)) as i128;
        let ghost b: int = 7_000_000 + 11_000 * usize::MAX;
        assert(-31 * b <= score * k <= 31 * b) by (nonlinear_arith)
            requires
                -b <= score <= b,
                0 <= k <= 31,
                b >= 0,
        ;
        let prod = score * k;
        let extra = if prod >= 0 {
            prod / ENDGAME_KING_DISTANCE_DIVISOR
        } else {
            -((-prod) / ENDGAME_KING_DISTANCE_DIVISOR)
        };
        score = score + extra;
    }
    score
}

/// A stalemate, or a board of two bare kings that is not mate, evaluates
/// to exactly 0.
pub proof fn lemma_eval_draw(v: BoardView, ms: Seq<Move>, plies: int)
    requires
        status_of(v) == GameStatus::Stalemate || (piece_count(v) == 2 && status_of(v) != GameStatus::Checkmate),
    ensures
        spec_eval(v, ms, plies) == 0,
{
}

/// When the side to move is mated the evaluation is minus infinity for
/// that side: `-INF` with White to move, `INF` with Black to move.
pub proof fn lemma_eval_mate(v: BoardView, ms: Seq<Move>, plies: int)
    requires
        status_of(v) == GameStatus::Checkmate,
    ensures
        spec_eval(v, ms, plies) == ws(-INF, v.side),
        v.side == Color::White ==> spec_eval(v, ms, plies) == -INF,
        v.side == Color::Black ==> spec_eval(v, ms, plies) == INF,
{
}

/// Castling, captures and moves made in check are never bad king moves.
pub proof fn lemma_bad_king_move_spares(v: BoardView, m: Move, pieces: int)
    requires
        abs(m.dest - m.source) == 2 || v.cells[m.dest as int] is Some || in_check_of(v),
    ensures
        !spec_is_bad_king_move(v, m, pieces),
{
}

/// The endgame scaling magnifies a winning sum: it never shrinks it, and
/// with the kings apart it strictly grows any sum of at least ten.
pub proof fn lemma_endgame_scaling_magnifies(s: int, k: int)
    requires
        s > 0,
        k >= 0,
    ensures
        king_distance_scaled(s, k) >= s,
        k >= 1 && s >= 10 ==> king_distance_scaled(s, k) > s,
{
    assert(s * k >= 0) by (nonlinear_arith)
        requires
            s > 0,
            k >= 0,
    ;
    if k >= 1 && s >= 10 {
        assert(s * k >= 10) by (nonlinear_arith)
            requires
                s >= 10,
                k >= 1,
        ;
    }
}

} // verus!

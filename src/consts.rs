//! Tuning constants of the evaluator and the search. Scores are millipawns.
use vstd::prelude::*;

verus! {

/// At most this many pieces on the board: the endgame.
pub const MAX_PIECE_FOR_ENDGAME: u8 = 10;
/// At most this many plies played: pieces are still being developed.
pub const OPENING_PIECES_FOR_PIECE_SAFETY: i32 = 16;
/// At most this many pieces on the board: kings are kept home.
pub const OPENING_PIECES_FOR_KING_SAFETY: u8 = 2;
/// At most this many plies played: the opening, for the move database
/// and for the weights of the opponent's mobility.
pub const OPENING_FOR_DIFF_EVAL: i32 = 10;
/// At most this many pieces on the board: search deeper.
pub const ENDGAME_PIECE_FOR_GREATER_DEPTH: u8 = 12;
pub const SEARCH_DEPTH: u8 = 3;
pub const OPENING_SEARCH_DEPTH: u8 = 2;
pub const ENDGAME_SEARCH_DEPTH: u8 = 4;
/// Leaves of the search past this many plies are resolved by quiescence.
pub const USE_QUIESCENSE_SEARCH_AFTER_NPLIES: i32 = 12;
pub const QUIESCENCE_DEPTH: u8 = 4;

pub const PAWN_SHIELD_SCORE: i128 = 250;
pub const ROOK_ON_7TH_RANK_BONUS: i128 = 400;
pub const PAWN_ON_SAFE_FILE_DISADVANTAGE: i128 = 300;
/// A pawn's distance to a king counts 1 / 1.6 pawn per square.
pub const PAWN_KING_DISTANCE_WEIGHT: i128 = 625;
pub const GOOD_KNIGHT: i128 = 300;
pub const KING_MOVED_NOT_ENDGAME: i128 = 4000;
pub const OPENING_QUEEN_SAFETY: i128 = 700;
pub const QUEEN_NEAR_KING: i128 = 2600;
pub const QUEEN_TWO_FROM_KING: i128 = 800;
pub const PAWN_CHAIN_BONUS: i128 = 150;
pub const ENDGAME_PAWN_ROOK_DEFENSE_ADVANTAGE: i128 = 250;
pub const DEFENDING_PIECE: i128 = 50;
pub const CONTROLLING_SQUARE: i128 = 30;
pub const DEFENDING_PIECE_OPENING: i128 = 20;
pub const CONTROLLING_SQUARE_OPENING: i128 = 10;
/// The endgame score grows by a tenth for each square between the kings.
pub const ENDGAME_KING_DISTANCE_DIVISOR: i128 = 10;
/// Evaluation gaps (parent to child) above this extend the search.
pub const EXTENSION_THRESHOLD: i128 = 1500;
/// Evaluation gaps below this shorten the search.
pub const DE_EXTENSION_THRESHOLD: i128 = 1000;

} // verus!

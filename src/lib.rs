//! Search and evaluation core of a UCI chess engine.
//!
//! Scores are integers in millipawns (a pawn is worth 1000); the board
//! itself and its move generation come from the `chess` crate.
pub mod types;
pub mod consts;
pub mod board;
pub mod geometry;
pub mod defense;
pub mod material;
pub mod piece_table;
pub mod eval;
pub mod ordering;
pub mod search_move;
pub mod transposition_table;
pub mod search;
pub mod uci;
pub mod move_string_conversion;

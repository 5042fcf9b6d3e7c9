//! Material worth of each kind of piece.
use vstd::prelude::*;
use crate::types::Piece;

verus! {

/// Millipawns of a piece; an empty square is worth nothing. The king's
/// worth only anchors its table bonus: a king is never captured.
pub open spec fn material_value(piece: Option<Piece>) -> i128 {
    match piece {
        Some(Piece::Pawn) => 1000,
        Some(Piece::Knight) => 3050,
        Some(Piece::Bishop) => 3350,
        Some(Piece::Rook) => 5730,
        Some(Piece::Queen) => 9500,
        Some(Piece::King) => 2260,
        None => 0,
    }
}

pub fn material(piece: Option<Piece>) -> (r: i128)
    ensures
        r == material_value(piece),
        0 <= r <= 9500,
{
    match piece {
        Some(Piece::Pawn) => 1000,
        Some(Piece::Knight) => 3050,
        Some(Piece::Bishop) => 3350,
        Some(Piece::Rook) => 5730,
        Some(Piece::Queen) => 9500,
        Some(Piece::King) => 2260,
        None => 0,
    }
}

} // verus!

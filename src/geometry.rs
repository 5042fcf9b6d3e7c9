//! Squares as (file, rank) pairs, and distances between them.
use vstd::prelude::*;

verus! {

pub open spec fn rank_of(sq: int) -> int {
    sq / 8
}

pub open spec fn file_of(sq: int) -> int {
    sq % 8
}

pub open spec fn abs(x: int) -> int {
    if x < 0 { -x } else { x }
}

/// King-move distance between two squares.
pub open spec fn chebyshev(a: int, b: int) -> int {
    let dr = abs(rank_of(a) - rank_of(b));
    let df = abs(file_of(a) - file_of(b));
    if dr >= df { dr } else { df }
}

/// Chebyshev distance minus one: adjacent squares are at distance 0.
pub open spec fn spec_distance(a: int, b: int) -> int {
    chebyshev(a, b) - 1
}

pub open spec fn on_board(file: int, rank: int) -> bool {
    0 <= file <= 7 && 0 <= rank <= 7
}

/// Whether (`file`, `rank`) lies on the board.
pub fn is_valid_file_rank(file: i8, rank: i8) -> (r: bool)
    ensures
        r == on_board(file as int, rank as int),
{
    0 <= file && file <= 7 && 0 <= rank && rank <= 7
}

/// (rank, file) of a square.
pub fn square_index(sq: u8) -> (r: (u8, u8))
    ensures
        r.0 == rank_of(sq as int),
        r.1 == file_of(sq as int),
{
    (sq / 8, sq % 8)
}

/// Chebyshev distance minus one.
pub fn distance(a: u8, b: u8) -> (r: i16)
    ensures
        r == spec_distance(a as int, b as int),
        -1 <= r <= 31,
{
    let (ra, fa) = square_index(a);
    let (rb, fb) = square_index(b);
    let dr = if ra >= rb { ra - rb } else { rb - ra };
    let df = if fa >= fb { fa - fb } else { fb - fa };
    let m = if dr >= df { dr } else { df };
    m as i16 - 1
}

/// King-move distance between two squares.
pub fn chebyshev_distance(a: u8, b: u8) -> (r: i16)
    ensures
        r == chebyshev(a as int, b as int),
        0 <= r <= 31,
{
    distance(a, b) + 1
}

} // verus!

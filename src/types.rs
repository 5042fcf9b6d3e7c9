use vstd::prelude::*;

verus! {

/// A kind of chess piece.
#[derive(Clone, Copy, Debug, PartialEq, Eq, Structural)]
pub enum Piece {
    Pawn,
    Knight,
    Bishop,
    Rook,
    Queen,
    King,
}

/// A side of the board.
#[derive(Clone, Copy, Debug, PartialEq, Eq, Structural)]
pub enum Color {
    White,
    Black,
}

/// A move: source square, destination square (both `rank * 8 + file`,
/// so a1 is 0 and h8 is 63) and an optional promotion piece.
#[derive(Clone, Copy, Debug, PartialEq, Eq, Structural)]
pub struct Move {
    pub source: u8,
    pub dest: u8,
    pub promotion: Option<Piece>,
}

/// The score of a mate for White; the negation is a mate for Black.
/// Every evaluation of a position that is not mate lies strictly between.
pub const INF: i128 = 1_000_000_000_000_000_000_000_000_000_000;

pub open spec fn other(c: Color) -> Color {
    match c {
        Color::White => Color::Black,
        Color::Black => Color::White,
    }
}

impl Piece {
    /// Index of the piece in the order pawn, knight, bishop, rook, queen, king.
    pub open spec fn spec_index(self) -> usize {
        match self {
            Piece::Pawn => 0,
            Piece::Knight => 1,
            Piece::Bishop => 2,
            Piece::Rook => 3,
            Piece::Queen => 4,
            Piece::King => 5,
        }
    }

    pub fn index(&self) -> (r: usize)
        ensures
            r == self.spec_index(),
            r < 6,
    {
        match self {
            Piece::Pawn => 0,
            Piece::Knight => 1,
            Piece::Bishop => 2,
            Piece::Rook => 3,
            Piece::Queen => 4,
            Piece::King => 5,
        }
    }

    pub fn from_index(i: usize) -> (r: Piece)
        requires
            i < 6,
        ensures
            r.spec_index() == i,
    {
        if i == 0 {
            Piece::Pawn
        } else if i == 1 {
            Piece::Knight
        } else if i == 2 {
            Piece::Bishop
        } else if i == 3 {
            Piece::Rook
        } else if i == 4 {
            Piece::Queen
        } else {
            Piece::King
        }
    }
}

impl Color {
    /// Index of the color: white 0, black 1.
    pub open spec fn spec_index(self) -> usize {
        match self {
            Color::White => 0,
            Color::Black => 1,
        }
    }

    pub fn index(&self) -> (r: usize)
        ensures
            r == self.spec_index(),
            r < 2,
    {
        match self {
            Color::White => 0,
            Color::Black => 1,
        }
    }

    pub fn from_index(i: usize) -> (r: Color)
        requires
            i < 2,
        ensures
            r.spec_index() == i,
    {
        if i == 0 {
            Color::White
        } else {
            Color::Black
        }
    }
}

/// Returns the opposite color.
pub fn invert_color(c: Color) -> (r: Color)
    ensures
        r == other(c),
{
    match c {
        Color::White => Color::Black,
        Color::Black => Color::White,
    }
}

} // verus!

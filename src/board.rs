//! The chess board of the `chess` crate, as the engine sees it.
//!
//! A `chess::Board` is opaque to the verifier. What it holds is named by
//! `board_cells`, `board_side`, `board_castling` and `board_en_passant`;
//! together they form a `BoardView`, and everything the crate computes
//! from a board (legal moves, the board after a move, its hash, whether the
//! side to move is in check) is a function of that view.
use vstd::prelude::*;
use crate::types::{Color, Move, Piece, other};

verus! {

#[verifier::external_type_specification]
#[verifier::external_body]
pub struct ExBoard(chess::Board);

/// The mathematical content of a board.
pub struct BoardView {
    /// The 64 squares, indexed `rank * 8 + file`.
    pub cells: Seq<Option<(Piece, Color)>>,
    pub side: Color,
    /// White king side, white queen side, black king side, black queen side.
    pub castling: Seq<bool>,
    pub en_passant: Option<u8>,
}

/// What stands on each of the 64 squares of a board.
pub uninterp spec fn board_cells(b: chess::Board) -> Seq<Option<(Piece, Color)>>;

/// The side to move on a board.
pub uninterp spec fn board_side(b: chess::Board) -> Color;

/// The four castling rights of a board.
pub uninterp spec fn board_castling(b: chess::Board) -> Seq<bool>;

/// The en-passant square that a board keeps, if any.
pub uninterp spec fn board_en_passant(b: chess::Board) -> Option<u8>;

/// The legal moves of a position, in the order the move generator yields them.
pub uninterp spec fn legal_moves_of(v: BoardView) -> Seq<Move>;

/// Whether the side to move is in check.
pub uninterp spec fn in_check_of(v: BoardView) -> bool;

/// The position after a legal move.
pub uninterp spec fn after_move(v: BoardView, m: Move) -> BoardView;

/// The Zobrist hash of a position.
pub uninterp spec fn hash_of(v: BoardView) -> u64;

/// The square of a color's king.
pub uninterp spec fn king_square_of(v: BoardView, c: Color) -> u8;

pub open spec fn view_of(b: chess::Board) -> BoardView {
    BoardView {
        cells: board_cells(b),
        side: board_side(b),
        castling: board_castling(b),
        en_passant: board_en_passant(b),
    }
}

/// The position with the other side to move and no en-passant square.
pub open spec fn passed(v: BoardView) -> BoardView {
    BoardView { cells: v.cells, side: other(v.side), castling: v.castling, en_passant: None }
}

pub open spec fn piece_of(c: Option<(Piece, Color)>) -> Option<Piece> {
    match c {
        Some(pc) => Some(pc.0),
        None => None,
    }
}

pub open spec fn color_of(c: Option<(Piece, Color)>) -> Option<Color> {
    match c {
        Some(pc) => Some(pc.1),
        None => None,
    }
}

/// Every square of every move lies on the board.
pub open spec fn moves_on_board(ms: Seq<Move>) -> bool {
    forall|i: int| 0 <= i < ms.len() ==> #[trigger] ms[i].source < 64 && ms[i].dest < 64
}

/// State of a game, as the move generator decides it.
#[derive(Clone, Copy, Debug, PartialEq, Eq, Structural)]
pub enum GameStatus {
    Ongoing,
    Stalemate,
    Checkmate,
}

pub open spec fn status_of(v: BoardView) -> GameStatus {
    if legal_moves_of(v).len() == 0 {
        if in_check_of(v) {
            GameStatus::Checkmate
        } else {
            GameStatus::Stalemate
        }
    } else {
        GameStatus::Ongoing
    }
}

/// Relies on `chess::Board::piece_on`: the kind of piece on a square.
#[verifier::external_body]
pub(crate) fn piece_on(b: &chess::Board, sq: u8) -> (r: Option<Piece>)
    requires
        sq < 64,
    ensures
        r == piece_of(board_cells(*b)[sq as int]),
{
    b.piece_on(chess::ALL_SQUARES[sq as usize]).map(|p| Piece::from_index(p.to_index()))
}

/// Relies on `chess::Board::color_on`: the color of the piece on a square.
#[verifier::external_body]
pub(crate) fn color_on(b: &chess::Board, sq: u8) -> (r: Option<Color>)
    requires
        sq < 64,
    ensures
        r == color_of(board_cells(*b)[sq as int]),
{
    b.color_on(chess::ALL_SQUARES[sq as usize]).map(|c| Color::from_index(c.to_index()))
}

/// Relies on `chess::Board::side_to_move`.
#[verifier::external_body]
pub(crate) fn side_to_move(b: &chess::Board) -> (r: Color)
    ensures
        r == board_side(*b),
{
    Color::from_index(b.side_to_move().to_index())
}

/// Relies on `chess::Board::castle_rights`: (king side, queen side) of a color.
#[verifier::external_body]
pub(crate) fn castle_rights(b: &chess::Board, c: Color) -> (r: (bool, bool))
    ensures
        r.0 == board_castling(*b)[2 * c.spec_index()],
        r.1 == board_castling(*b)[2 * c.spec_index() + 1],
{
    match b.castle_rights(chess::ALL_COLORS[c.index()]) {
        chess::CastleRights::NoRights => (false, false),
        chess::CastleRights::KingSide => (true, false),
        chess::CastleRights::QueenSide => (false, true),
        chess::CastleRights::Both => (true, true),
    }
}

/// Relies on `chess::Board::king_square`.
#[verifier::external_body]
pub(crate) fn king_square(b: &chess::Board, c: Color) -> (r: u8)
    ensures
        r == king_square_of(view_of(*b), c),
{
    b.king_square(chess::ALL_COLORS[c.index()]).to_int()
}

/// Relies on `chess::Board::checkers`: the side to move is in check when
/// the set of checking pieces is not empty.
#[verifier::external_body]
pub(crate) fn in_check(b: &chess::Board) -> (r: bool)
    ensures
        r == in_check_of(view_of(*b)),
{
    *b.checkers() != chess::EMPTY
}

/// Relies on `chess::MoveGen::new_legal`: the legal moves in generation order.
#[verifier::external_body]
pub(crate) fn legal_moves(b: &chess::Board) -> (r: Vec<Move>)
    ensures
        r@ == legal_moves_of(view_of(*b)),
        moves_on_board(r@),
{
    chess::MoveGen::new_legal(b).map(|m| Move {
        source: m.get_source().to_int(),
        dest: m.get_dest().to_int(),
        promotion: m.get_promotion().map(|p| Piece::from_index(p.to_index())),
    }).collect()
}

/// Relies on `chess::Board::status`: checkmate or stalemate when no legal
/// move exists, told apart by whether the side to move is in check.
#[verifier::external_body]
pub(crate) fn status(b: &chess::Board) -> (r: GameStatus)
    ensures
        r == status_of(view_of(*b)),
{
    match b.status() {
        chess::BoardStatus::Ongoing => GameStatus::Ongoing,
        chess::BoardStatus::Stalemate => GameStatus::Stalemate,
        chess::BoardStatus::Checkmate => GameStatus::Checkmate,
    }
}

/// Relies on `chess::Board::make_move_new`, called on a legal move only.
#[verifier::external_body]
pub(crate) fn make_move(b: &chess::Board, m: Move) -> (r: chess::Board)
    requires
        legal_moves_of(view_of(*b)).contains(m),
        m.source < 64,
        m.dest < 64,
    ensures
        view_of(r) == after_move(view_of(*b), m),
{
    b.make_move_new(chess::ChessMove::new(
        chess::ALL_SQUARES[m.source as usize],
        chess::ALL_SQUARES[m.dest as usize],
        m.promotion.map(|p| chess::ALL_PIECES[p.index()]),
    ))
}

/// Relies on `chess::Board::null_move`: `None` when the side to move is in
/// check, else the same board with the other side to move and the
/// en-passant square cleared.
#[verifier::external_body]
pub(crate) fn null_move(b: &chess::Board) -> (r: Option<chess::Board>)
    ensures
        r.is_some() == !in_check_of(view_of(*b)),
        r matches Some(n) ==> {
            &&& board_cells(n) == board_cells(*b)
            &&& board_side(n) == other(board_side(*b))
            &&& board_castling(n) == board_castling(*b)
            &&& board_en_passant(n) == None::<u8>
        },
{
    b.null_move()
}

/// Relies on `chess::Board::get_hash`.
#[verifier::external_body]
pub(crate) fn board_hash(b: &chess::Board) -> (r: u64)
    ensures
        r == hash_of(view_of(*b)),
{
    b.get_hash()
}

} // verus!

//! Piece-square tables: positional bonuses for pawns and kings, indexed
//! from Black's side of the board (White squares are mirrored).
use vstd::prelude::*;
use crate::board::{view_of, BoardView, castle_rights, side_to_move};
use crate::material::{material, material_value};
use crate::types::{Color, Piece};

verus! {

/// King bonuses before the endgame.
pub open spec fn king_table() -> Seq<int> {
    seq![
        -650, 230, 160, -100, -100, -100, 20, 130,
        -240, -150, -200, -200, -200, -200, -380, -290,
        -90, 240, 20, -160, -200, 60, 220, -220,
        -170, -200, -120, -270, -300, -250, -140, -360,
        -490, -10, -270, -390, -460, -440, -330, -510,
        -140, -140, -220, -460, -440, -300, -150, -270,
        -320, -70, -80, -640, -430, -160, -310, 320,
        -150, 360, 120, -540, 80, -280, 240, 140,
    ]
}

fn king_table_at(i: usize) -> (r: i128)
    requires
        i < 64,
    ensures
        r == king_table()[i as int],
        -1000 <= r <= 1000,
{
    let t: [i128; 64] = [
        -650, 230, 160, -100, -100, -100, 20, 130,
        -240, -150, -200, -200, -200, -200, -380, -290,
        -90, 240, 20, -160, -200, 60, 220, -220,
        -170, -200, -120, -270, -300, -250, -140, -360,
        -490, -10, -270, -390, -460, -440, -330, -510,
        -140, -140, -220, -460, -440, -300, -150, -270,
        -320, -70, -80, -640, -430, -160, -310, 320,
        -150, 360, 120, -540, 80, -280, 240, 140,
    ];
    proof {
        assert(t@.map_values(|x: i128| x as int) =~= king_table());
    }
    t[i]
}

/// King bonuses in the endgame.
pub open spec fn king_table_endgame() -> Seq<int> {
    seq![
        -740, -350, -180, -180, -110, 150, 40, -170,
        -120, 170, 140, 170, 170, 380, 230, 110,
        100, 170, 230, 150, 200, 450, 440, 130,
        -80, 220, 240, 270, 260, 330, 260, 30,
        -180, -40, 210, 240, 270, 230, 90, -110,
        -190, -30, 110, 210, 230, 160, 70, -90,
        -270, -110, 40, 130, 140, 40, -50, -170,
        -530, -340, -210, -110, -280, -140, -240, -430,
    ]
}

fn king_table_endgame_at(i: usize) -> (r: i128)
    requires
        i < 64,
    ensures
        r == king_table_endgame()[i as int],
        -1000 <= r <= 1000,
{
    let t: [i128; 64] = [
        -740, -350, -180, -180, -110, 150, 40, -170,
        -120, 170, 140, 170, 170, 380, 230, 110,
        100, 170, 230, 150, 200, 450, 440, 130,
        -80, 220, 240, 270, 260, 330, 260, 30,
        -180, -40, 210, 240, 270, 230, 90, -110,
        -190, -30, 110, 210, 230, 160, 70, -90,
        -270, -110, 40, 130, 140, 40, -50, -170,
        -530, -340, -210, -110, -280, -140, -240, -430,
    ];
    proof {
        assert(t@.map_values(|x: i128| x as int) =~= king_table_endgame());
    }
    t[i]
}

/// Pawn bonuses before the endgame.
pub open spec fn pawn_table() -> Seq<int> {
    seq![
        0, 0, 0, 0, 0, 0, 0, 0,
        1980, 1340, 1610, 1950, 1680, 1260, 1340, 1380,
        -60, 70, 260, 310, 650, 560, 250, -200,
        -140, 130, 60, 210, 230, 120, 170, -230,
        -270, -20, -50, 120, 170, 60, 100, -250,
        -260, -40, -40, -100, 30, 30, 330, -120,
        -350, -10, -200, -230, -150, 240, 380, -220,
        0, 0, 0, 0, 0, 0, 0, 0,
    ]
}

fn pawn_table_at(i: usize) -> (r: i128)
    requires
        i < 64,
    ensures
        r == pawn_table()[i as int],
        -1000 <= r <= 7000,
{
    let t: [i128; 64] = [
        0, 0, 0, 0, 0, 0, 0, 0,
        1980, 1340, 1610, 1950, 1680, 1260, 1340, 1380,
        -60, 70, 260, 310, 650, 560, 250, -200,
        -140, 130, 60, 210, 230, 120, 170, -230,
        -270, -20, -50, 120, 170, 60, 100, -250,
        -260, -40, -40, -100, 30, 30, 330, -120,
        -350, -10, -200, -230, -150, 240, 380, -220,
        0, 0, 0, 0, 0, 0, 0, 0,
    ];
    proof {
        assert(t@.map_values(|x: i128| x as int) =~= pawn_table());
    }
    t[i]
}

/// Pawn bonuses in the endgame.
pub open spec fn pawn_table_endgame() -> Seq<int> {
    seq![
        0, 0, 0, 0, 0, 0, 0, 0,
        6500, 6000, 6000, 6000, 6000, 6000, 6000, 6500,
        1400, 1000, 1000, 1000, 1000, 1000, 1000, 1400,
        500, 400, 400, 400, 400, 400, 400, 500,
        300, 300, 300, 300, 300, 300, 300, 300,
        200, 200, 200, 200, 200, 100, 200, 200,
        100, 100, 100, 100, 100, 100, 100, 100,
        0, 0, 0, 0, 0, 0, 0, 0,
    ]
}

fn pawn_table_endgame_at(i: usize) -> (r: i128)
    requires
        i < 64,
    ensures
        r == pawn_table_endgame()[i as int],
        -1000 <= r <= 7000,
{
    let t: [i128; 64] = [
        0, 0, 0, 0, 0, 0, 0, 0,
        6500, 6000, 6000, 6000, 6000, 6000, 6000, 6500,
        1400, 1000, 1000, 1000, 1000, 1000, 1000, 1400,
        500, 400, 400, 400, 400, 400, 400, 500,
        300, 300, 300, 300, 300, 300, 300, 300,
        200, 200, 200, 200, 200, 100, 200, 200,
        100, 100, 100, 100, 100, 100, 100, 100,
        0, 0, 0, 0, 0, 0, 0, 0,
    ];
    proof {
        assert(t@.map_values(|x: i128| x as int) =~= pawn_table_endgame());
    }
    t[i]
}

/// The table index of a square for White, whose tables are read mirrored.
pub fn flip_index(index: usize) -> (r: usize)
    requires
        index < 64,
    ensures
        r == 63 - index,
{
    63 - index
}

pub open spec fn spec_no_castle_rights(v: BoardView, c: Color) -> bool {
    !v.castling[2 * c.spec_index()] && !v.castling[2 * c.spec_index() + 1]
}

/// Whether a color has lost both castling rights.
pub fn no_castle_rights(board: &chess::Board, color: Color) -> (r: bool)
    ensures
        r == spec_no_castle_rights(view_of(*board), color),
{
    let rights = castle_rights(board, color);
    !(rights.0 || rights.1)
}

/// The table entry of a square for a color: mirrored for White.
pub open spec fn table_entry(t: Seq<int>, rank: int, file: int, color: Color) -> int {
    match color {
        Color::White => t[63 - (rank * 8 + file)],
        Color::Black => t[rank * 8 + file],
    }
}

pub open spec fn spec_pawn_square_value(v: BoardView, rank: int, file: int, color: Color, is_endgame: bool) -> int {
    let t = if is_endgame || spec_no_castle_rights(v, color) {
        pawn_table_endgame()
    } else {
        pawn_table()
    };
    table_entry(t, rank, file, color) + material_value(Some(Piece::Pawn))
}

pub open spec fn spec_king_square_value(v: BoardView, rank: int, file: int, color: Color, is_endgame: bool) -> int {
    let t = if is_endgame || spec_no_castle_rights(v, v.side) {
        king_table_endgame()
    } else {
        king_table()
    };
    table_entry(t, rank, file, color) + material_value(Some(Piece::King))
}

/// Worth of a pawn of `color` on (`rank`, `file`): its material plus the
/// table bonus. The endgame table is used in the endgame or once the color
/// has lost both castling rights.
pub fn pawn_square_value(rank: u8, file: u8, color: Color, is_endgame: bool, board: &chess::Board) -> (r: i128)
    requires
        rank < 8,
        file < 8,
    ensures
        r == spec_pawn_square_value(view_of(*board), rank as int, file as int, color, is_endgame),
        0 <= r <= 8000,
{
    let idx = (rank * 8 + file) as usize;
    let endgame_table = is_endgame || no_castle_rights(board, color);
    let i = match color {
        Color::White => flip_index(idx),
        Color::Black => idx,
    };
    let entry = if endgame_table { pawn_table_endgame_at(i) } else { pawn_table_at(i) };
    entry + material(Some(Piece::Pawn))
}

/// Worth of a king of `color` on (`rank`, `file`): its material plus the
/// table bonus. The endgame table is used in the endgame or once the side
/// to move has lost both castling rights.
pub fn king_square_value(rank: u8, file: u8, color: Color, is_endgame: bool, board: &chess::Board) -> (r: i128)
    requires
        rank < 8,
        file < 8,
    ensures
        r == spec_king_square_value(view_of(*board), rank as int, file as int, color, is_endgame),
        1260 <= r <= 3260,
{
    let idx = (rank * 8 + file) as usize;
    let endgame_table = is_endgame || no_castle_rights(board, side_to_move(board));
    let i = match color {
        Color::White => flip_index(idx),
        Color::Black => idx,
    };
    let entry = if endgame_table { king_table_endgame_at(i) } else { king_table_at(i) };
    entry + material(Some(Piece::King))
}

} // verus!

use std::str::FromStr;

use chess::Board;
use sigma::defense::is_defended;
use sigma::geometry::{chebyshev_distance, distance, is_valid_file_rank, square_index};
use sigma::material::material;
use sigma::move_string_conversion::{move_to_string, promo_piece_to_char, square_to_string};
use sigma::piece_table::{flip_index, king_square_value, no_castle_rights, pawn_square_value};
use sigma::types::{invert_color, Color, Move, Piece};
use sigma::uci::{parse_i32, ExtendedOption};

#[test]
fn material_values() {
    assert_eq!(material(Some(Piece::Pawn)), 1000);
    assert_eq!(material(Some(Piece::Knight)), 3050);
    assert_eq!(material(Some(Piece::Bishop)), 3350);
    assert_eq!(material(Some(Piece::Rook)), 5730);
    assert_eq!(material(Some(Piece::Queen)), 9500);
    assert_eq!(material(Some(Piece::King)), 2260);
    assert_eq!(material(None), 0);
}

#[test]
fn table_index_mirrors_for_white() {
    assert_eq!(flip_index(0), 63);
    assert_eq!(flip_index(12), 51);
    assert_eq!(flip_index(63), 0);
}

#[test]
fn pawn_values_by_phase() {
    let board = Board::default();
    // White e2 pawn: table entry 51 of the middlegame table, -0.23.
    assert_eq!(pawn_square_value(1, 4, Color::White, false, &board), 770);
    // Black e7 pawn: entry 52, -0.15.
    assert_eq!(pawn_square_value(6, 4, Color::Black, false, &board), 850);
    // Endgame table: White pawn on e7 is entry 11, 6.0.
    assert_eq!(pawn_square_value(6, 4, Color::White, true, &board), 7000);
}

#[test]
fn pawn_values_without_castling_rights() {
    let board = Board::from_str("4k3/8/8/8/8/8/4P3/4K3 w - - 0 1").unwrap();
    assert!(no_castle_rights(&board, Color::White));
    // Endgame table, entry 51: 0.1.
    assert_eq!(pawn_square_value(1, 4, Color::White, false, &board), 1100);
}

#[test]
fn king_values_by_phase() {
    let board = Board::default();
    assert!(!no_castle_rights(&board, Color::White));
    // White king e1: entry 59 of the middlegame table, -0.54.
    assert_eq!(king_square_value(0, 4, Color::White, false, &board), 1720);
    // Endgame table entry 59: -0.11.
    assert_eq!(king_square_value(0, 4, Color::White, true, &board), 2150);
    // Black king e8: entry 60, -0.28 in the endgame.
    assert_eq!(king_square_value(7, 4, Color::Black, true, &board), 1980);
}

#[test]
fn squares_and_distances() {
    assert!(is_valid_file_rank(0, 7));
    assert!(!is_valid_file_rank(8, 0));
    assert!(!is_valid_file_rank(0, -1));
    assert_eq!(square_index(28), (3, 4));
    assert_eq!(distance(4, 12), 0);
    assert_eq!(distance(4, 60), 6);
    assert_eq!(distance(0, 63), 6);
    assert_eq!(chebyshev_distance(0, 9), 1);
    assert_eq!(chebyshev_distance(4, 52), 6);
    assert_eq!(invert_color(Color::White), Color::Black);
}

#[test]
fn square_and_move_names() {
    assert_eq!(square_to_string(0), "a1");
    assert_eq!(square_to_string(63), "h8");
    assert_eq!(square_to_string(28), "e4");
    assert_eq!(move_to_string(Move { source: 12, dest: 28, promotion: None }), "e2e4");
    assert_eq!(move_to_string(Move { source: 52, dest: 60, promotion: Some(Piece::Queen) }), "e7e8q");
    assert_eq!(promo_piece_to_char(Piece::Knight), 'n');
    assert_eq!(promo_piece_to_char(Piece::Bishop), 'b');
    assert_eq!(promo_piece_to_char(Piece::Rook), 'r');
}

#[test]
fn pieces_defend_by_their_moves() {
    let board = Board::default();
    // e2 pawn: defended by king, queen, bishop.
    assert!(is_defended(&board, 12, Color::White));
    // f3: defended by the g2 pawn and the g1 knight.
    assert!(is_defended(&board, 21, Color::White));
    // e4: nothing white reaches it.
    assert!(!is_defended(&board, 28, Color::White));
    assert!(!is_defended(&board, 12, Color::Black));
}

#[test]
fn pawns_defend_diagonally_forward_only() {
    // White pawn d4 defends e5; a white pawn on d6 does not defend e5.
    let ahead = Board::from_str("4k3/8/8/4p3/3P4/8/8/4K3 w - - 0 1").unwrap();
    assert!(is_defended(&ahead, 36, Color::White));
    let behind = Board::from_str("4k3/8/3P4/4p3/8/8/8/4K3 w - - 0 1").unwrap();
    assert!(!is_defended(&behind, 36, Color::White));
}

#[test]
fn rays_stop_at_the_first_piece() {
    // Rook a1 behind a knight on a2 does not reach a4.
    let blocked = Board::from_str("4k3/8/8/8/8/8/N7/R3K3 w - - 0 1").unwrap();
    assert!(!is_defended(&blocked, 24, Color::White));
    let open = Board::from_str("4k3/8/8/8/8/8/8/R3K3 w - - 0 1").unwrap();
    assert!(is_defended(&open, 24, Color::White));
}

#[test]
fn defense_is_symmetric_under_mirroring() {
    let board = Board::from_str("4k3/8/8/4p3/3P4/2N5/8/R3K3 w - - 0 1").unwrap();
    let mirrored = Board::from_str("r3k3/8/2n5/3p4/4P3/8/8/4K3 b - - 0 1").unwrap();
    for sq in 0u8..64 {
        for (c, m) in [(Color::White, Color::Black), (Color::Black, Color::White)] {
            assert_eq!(is_defended(&board, sq, c), is_defended(&mirrored, sq ^ 56, m));
        }
    }
}

#[test]
fn integer_parsing() {
    assert_eq!(parse_i32("64"), Some(64));
    assert_eq!(parse_i32("-17"), Some(-17));
    assert_eq!(parse_i32("+5"), Some(5));
    assert_eq!(parse_i32("2147483647"), Some(i32::MAX));
    assert_eq!(parse_i32("-2147483648"), Some(i32::MIN));
    assert_eq!(parse_i32("2147483648"), None);
    assert_eq!(parse_i32(""), None);
    assert_eq!(parse_i32("-"), None);
    assert_eq!(parse_i32("12a"), None);
    assert_eq!(parse_i32("99999999999999999999"), None);
}

#[test]
fn option_bounds_are_checked() {
    let mut hash = ExtendedOption::new("spin", Some("64"), Some(1), Some(2048));
    assert_eq!(hash.option_type, "spin");
    assert_eq!(hash.default.as_deref(), Some("64"));
    assert_eq!(hash.value, None);
    assert!(hash.set_value("128"));
    assert_eq!(hash.value.as_deref(), Some("128"));
    assert!(!hash.set_value("0"));
    assert!(!hash.set_value("4096"));
    assert!(!hash.set_value("lots"));
    assert_eq!(hash.value.as_deref(), Some("128"));
    assert!(hash.set_value("2048"));
}

#[test]
fn unbounded_option_takes_any_value() {
    let mut name = ExtendedOption::new("string", None, None, None);
    assert_eq!(name.default, None);
    assert!(name.set_value("anything"));
    assert_eq!(name.value.as_deref(), Some("anything"));
}

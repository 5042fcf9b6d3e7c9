//! Moves in UCI notation: `<from><to>[promotion]`, squares `a1` to `h8`.
use vstd::prelude::*;
use crate::types::{Move, Piece};

verus! {

/// Relies on `String::push`: appends one character.
#[verifier::external_body]
fn push_char(s: &mut String, c: char)
    ensures
        final(s)@ == old(s)@.push(c),
{
    s.push(c)
}

pub open spec fn spec_promo_char(p: Piece) -> char {
    match p {
        Piece::Bishop => 'b',
        Piece::Knight => 'n',
        Piece::Queen => 'q',
        _ => 'r',
    }
}

/// The letter of a promotion piece; pawns and kings are never promoted to.
pub fn promo_piece_to_char(s: Piece) -> (r: char)
    requires
        s != Piece::Pawn,
        s != Piece::King,
    ensures
        r == spec_promo_char(s),
{
    match s {
        Piece::Bishop => 'b',
        Piece::Knight => 'n',
        Piece::Queen => 'q',
        _ => 'r',
    }
}

/// The name of a square: file letter, then rank digit.
pub open spec fn square_name(sq: int) -> Seq<char> {
    seq![((sq % 8) + 97) as char, ((sq / 8) + 49) as char]
}

/// The UCI text of a move.
pub open spec fn move_name(m: Move) -> Seq<char> {
    square_name(m.source as int) + square_name(m.dest as int) + match m.promotion {
        Some(p) => seq![spec_promo_char(p)],
        None => Seq::<char>::empty(),
    }
}

fn square_chars(s: &mut String, sq: u8)
    requires
        sq < 64,
    ensures
        final(s)@ == old(s)@ + square_name(sq as int),
{
    let file = sq % 8;
    let rank = sq / 8;
    push_char(s, (file + 97) as char);
    push_char(s, (rank + 49) as char);
    assert(final(s)@ =~= old(s)@ + square_name(sq as int));
}

/// The name of a square, such as `e4`.
pub fn square_to_string(sq: u8) -> (r: String)
    requires
        sq < 64,
    ensures
        r@ == square_name(sq as int),
{
    let mut s = String::new();
    square_chars(&mut s, sq);
    assert(s@ =~= square_name(sq as int));
    s
}

/// The UCI text of a move, such as `e2e4` or `e7e8q`.
pub fn move_to_string(mov: Move) -> (r: String)
    requires
        mov.source < 64,
        mov.dest < 64,
        mov.promotion matches Some(p) ==> p != Piece::Pawn && p != Piece::King,
    ensures
        r@ == move_name(mov),
{
    let mut s = String::new();
    square_chars(&mut s, mov.source);
    square_chars(&mut s, mov.dest);
    if let Some(p) = mov.promotion {
        push_char(&mut s, promo_piece_to_char(p));
    }
    assert(s@ =~= move_name(mov));
    s
}

} // verus!

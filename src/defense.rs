//! Which side defends a square: ray scans along the eight queen directions
//! and the eight knight jumps.
use vstd::prelude::*;
use crate::board::{BoardView, board_cells, view_of, piece_on, color_on};
use crate::geometry::{chebyshev, on_board, is_valid_file_rank};
use crate::types::{Color, Piece, other};

verus! {

/// File step of queen direction `d`: four diagonals, then four straights.
pub open spec fn dir_file(d: int) -> int {
    if d == 0 { -1 } else if d == 1 { 1 } else if d == 2 { 1 } else if d == 3 { -1 }
    else if d == 4 { 1 } else if d == 5 { 0 } else if d == 6 { 0 } else { -1 }
}

/// Rank step of queen direction `d`.
pub open spec fn dir_rank(d: int) -> int {
    if d == 0 { 1 } else if d == 1 { 1 } else if d == 2 { -1 } else if d == 3 { -1 }
    else if d == 4 { 0 } else if d == 5 { 1 } else if d == 6 { -1 } else { 0 }
}

pub open spec fn knight_file(k: int) -> int {
    if k == 0 { -2 } else if k == 1 { -2 } else if k == 2 { 1 } else if k == 3 { -1 }
    else if k == 4 { 2 } else if k == 5 { 2 } else if k == 6 { 1 } else { -1 }
}

pub open spec fn knight_rank(k: int) -> int {
    if k == 0 { 1 } else if k == 1 { -1 } else if k == 2 { -2 } else if k == 3 { -2 }
    else if k == 4 { 1 } else if k == 5 { -1 } else if k == 6 { 2 } else { 2 }
}

/// The first occupied square met when walking from (`file`, `rank`) in
/// steps of (`df`, `dr`), taking at most `fuel` steps.
pub open spec fn blocker(v: BoardView, file: int, rank: int, df: int, dr: int, fuel: nat) -> Option<int>
    decreases fuel,
{
    let nf = file + df;
    let nr = rank + dr;
    if fuel == 0 || !on_board(nf, nr) {
        None
    } else if v.cells[nr * 8 + nf] is Some {
        Some(nr * 8 + nf)
    } else {
        blocker(v, nf, nr, df, dr, (fuel - 1) as nat)
    }
}

/// Whether a piece of kind `p` and color `c`, met first along direction
/// (`df`, `dr`) from the target and `adjacent` to it, reaches the target.
pub open spec fn reaches(p: Piece, c: Color, df: int, dr: int, adjacent: bool) -> bool {
    match p {
        Piece::Pawn => adjacent && (df == 1 || df == -1) && (if c == Color::White { dr == -1 } else { dr == 1 }),
        Piece::King => adjacent,
        Piece::Bishop => df != 0 && dr != 0,
        Piece::Rook => df == 0 || dr == 0,
        Piece::Queen => true,
        Piece::Knight => false,
    }
}

/// The piece of `color` that defends `sq` along direction `d`, if any.
pub open spec fn ray_defender(v: BoardView, sq: int, color: Color, d: int) -> Option<Piece> {
    match blocker(v, sq % 8, sq / 8, dir_file(d), dir_rank(d), 7) {
        None => None,
        Some(t) => match v.cells[t] {
            Some(pc) => if pc.1 == color && reaches(pc.0, color, dir_file(d), dir_rank(d), chebyshev(sq, t) == 1) {
                Some(pc.0)
            } else {
                None
            },
            None => None,
        },
    }
}

/// The defender along the first defending direction from `d` on.
pub open spec fn first_ray_defender(v: BoardView, sq: int, color: Color, d: int) -> Option<Piece>
    decreases 8 - d,
{
    if d >= 8 || d < 0 {
        None
    } else {
        match ray_defender(v, sq, color, d) {
            Some(p) => Some(p),
            None => first_ray_defender(v, sq, color, d + 1),
        }
    }
}

pub open spec fn knight_defends(v: BoardView, sq: int, color: Color, k: int) -> bool {
    let f = sq % 8 + knight_file(k);
    let r = sq / 8 + knight_rank(k);
    on_board(f, r) && v.cells[r * 8 + f] == Some((Piece::Knight, color))
}

/// Whether a knight of `color` defends `sq` by one of the jumps from `k` on.
pub open spec fn knights_defend(v: BoardView, sq: int, color: Color, k: int) -> bool
    decreases 8 - k,
{
    if k >= 8 || k < 0 {
        false
    } else {
        knight_defends(v, sq, color, k) || knights_defend(v, sq, color, k + 1)
    }
}

/// Whether a piece of `color` defends `sq`.
pub open spec fn spec_is_defended(v: BoardView, sq: int, color: Color) -> bool {
    first_ray_defender(v, sq, color, 0) is Some || knights_defend(v, sq, color, 0)
}

fn queen_direction(d: usize) -> (r: (i8, i8))
    requires
        d < 8,
    ensures
        r.0 == dir_file(d as int),
        r.1 == dir_rank(d as int),
{
    if d == 0 { (-1, 1) } else if d == 1 { (1, 1) } else if d == 2 { (1, -1) } else if d == 3 { (-1, -1) }
    else if d == 4 { (1, 0) } else if d == 5 { (0, 1) } else if d == 6 { (0, -1) } else { (-1, 0) }
}

fn knight_jump(k: usize) -> (r: (i8, i8))
    requires
        k < 8,
    ensures
        r.0 == knight_file(k as int),
        r.1 == knight_rank(k as int),
{
    if k == 0 { (-2, 1) } else if k == 1 { (-2, -1) } else if k == 2 { (1, -2) } else if k == 3 { (-1, -2) }
    else if k == 4 { (2, 1) } else if k == 5 { (2, -1) } else if k == 6 { (1, 2) } else { (-1, 2) }
}

/// What stands on a square.
pub(crate) fn cell(b: &chess::Board, sq: u8) -> (r: Option<(Piece, Color)>)
    requires
        sq < 64,
    ensures
        r == board_cells(*b)[sq as int],
{
    let p = piece_on(b, sq);
    let c = color_on(b, sq);
    match (p, c) {
        (Some(p), Some(c)) => Some((p, c)),
        _ => None,
    }
}

fn ray_blocker(b: &chess::Board, file: i8, rank: i8, df: i8, dr: i8) -> (r: Option<u8>)
    requires
        0 <= file < 8,
        0 <= rank < 8,
        -1 <= df <= 1,
        -1 <= dr <= 1,
    ensures
        match r {
            Some(t) => t < 64 && blocker(view_of(*b), file as int, rank as int, df as int, dr as int, 7)
                == Some(t as int),
            None => blocker(view_of(*b), file as int, rank as int, df as int, dr as int, 7) is None,
        },
{
    let mut f = file;
    let mut r = rank;
    let mut fuel: u8 = 7;
    while fuel > 0
        invariant
            0 <= f < 8,
            0 <= r < 8,
            -1 <= df <= 1,
            -1 <= dr <= 1,
            blocker(view_of(*b), f as int, r as int, df as int, dr as int, fuel as nat)
                == blocker(view_of(*b), file as int, rank as int, df as int, dr as int, 7),
        decreases fuel,
    {
        let nf = f + df;
        let nr = r + dr;
        if !is_valid_file_rank(nf, nr) {
            return None;
        }
        let t = (nr * 8 + nf) as u8;
        if piece_on(b, t).is_some() {
            return Some(t);
        }
        f = nf;
        r = nr;
        fuel = fuel - 1;
    }
    None
}

fn piece_reaches(p: Piece, c: Color, df: i8, dr: i8, adjacent: bool) -> (r: bool)
    ensures
        r == reaches(p, c, df as int, dr as int, adjacent),
{
    match p {
        Piece::Pawn => adjacent && (df == 1 || df == -1) && (match c {
            Color::White => dr == -1,
            Color::Black => dr == 1,
        }),
        Piece::King => adjacent,
        Piece::Bishop => df != 0 && dr != 0,
        Piece::Rook => df == 0 || dr == 0,
        Piece::Queen => true,
        Piece::Knight => false,
    }
}

/// The defender of `sq` along the first direction, in scan order, whose
/// first piece belongs to `color` and reaches `sq`.
pub(crate) fn first_defender_on_rays(b: &chess::Board, sq: u8, color: Color) -> (r: Option<Piece>)
    requires
        sq < 64,
    ensures
        r == first_ray_defender(view_of(*b), sq as int, color, 0),
{
    let file = (sq % 8) as i8;
    let rank = (sq / 8) as i8;
    let mut d: usize = 0;
    while d < 8
        invariant
            d <= 8,
            sq < 64,
            file == sq % 8,
            rank == sq / 8,
            first_ray_defender(view_of(*b), sq as int, color, d as int)
                == first_ray_defender(view_of(*b), sq as int, color, 0),
        decreases 8 - d,
    {
        let (df, dr) = queen_direction(d);
        if let Some(t) = ray_blocker(b, file, rank, df, dr) {
            if let Some((p, c)) = cell(b, t) {
                let adjacent = crate::geometry::distance(sq, t) == 0;
                if c == color && piece_reaches(p, color, df, dr, adjacent) {
                    return Some(p);
                }
            }
        }
        d = d + 1;
    }
    None
}

fn knight_defender(b: &chess::Board, sq: u8, color: Color) -> (r: bool)
    requires
        sq < 64,
    ensures
        r == knights_defend(view_of(*b), sq as int, color, 0),
{
    let file = (sq % 8) as i8;
    let rank = (sq / 8) as i8;
    let mut k: usize = 0;
    while k < 8
        invariant
            k <= 8,
            file == sq % 8,
            rank == sq / 8,
            knights_defend(view_of(*b), sq as int, color, k as int)
                == knights_defend(view_of(*b), sq as int, color, 0),
        decreases 8 - k,
    {
        let (kf, kr) = knight_jump(k);
        let f = file + kf;
        let r = rank + kr;
        if is_valid_file_rank(f, r) {
            let t = (r * 8 + f) as u8;
            if let Some((p, c)) = cell(b, t) {
                if p == Piece::Knight && c == color {
                    return true;
                }
            }
        }
        k = k + 1;
    }
    false
}

/// Whether a piece of `color` defends `sq`: the first piece along one of
/// the eight queen directions belongs to `color` and moves that way (a
/// pawn diagonally forward onto `sq`, a king one step, a bishop along a
/// diagonal, a rook along a line, a queen either way), or a knight of
/// `color` is a knight's jump away. A piece never defends its own square.
pub fn is_defended(board: &chess::Board, sq: u8, color: Color) -> (r: bool)
    requires
        sq < 64,
    ensures
        r == spec_is_defended(view_of(*board), sq as int, color),
{
    first_defender_on_rays(board, sq, color).is_some() || knight_defender(board, sq, color)
}

/// The square on the same file and the mirrored rank.
pub open spec fn mirror_square(sq: int) -> int {
    (7 - sq / 8) * 8 + sq % 8
}

/// The same piece in the other color.
pub open spec fn swap_color(c: Option<(Piece, Color)>) -> Option<(Piece, Color)> {
    match c {
        Some(pc) => Some((pc.0, other(pc.1))),
        None => None,
    }
}

/// `w` is `v` flipped top to bottom with the colors swapped.
pub open spec fn is_color_mirror(v: BoardView, w: BoardView) -> bool {
    forall|sq: int| 0 <= sq < 64 ==> #[trigger] w.cells[mirror_square(sq)] == swap_color(v.cells[sq])
}

pub open spec fn mirror_dir(d: int) -> int {
    if d == 0 { 3 } else if d == 1 { 2 } else if d == 2 { 1 } else if d == 3 { 0 }
    else if d == 5 { 6 } else if d == 6 { 5 } else { d }
}

pub open spec fn mirror_jump(k: int) -> int {
    if k == 0 { 1 } else if k == 1 { 0 } else if k == 2 { 6 } else if k == 6 { 2 }
    else if k == 3 { 7 } else if k == 7 { 3 } else if k == 4 { 5 } else { 4 }
}

proof fn lemma_mirror_blocker(v: BoardView, w: BoardView, file: int, rank: int, df: int, dr: int, fuel: nat)
    requires
        is_color_mirror(v, w),
        on_board(file, rank),
        -1 <= df <= 1,
        -1 <= dr <= 1,
    ensures
        match blocker(v, file, rank, df, dr, fuel) {
            Some(t) => blocker(w, file, 7 - rank, df, -dr, fuel) == Some(mirror_square(t)) && 0 <= t < 64,
            None => blocker(w, file, 7 - rank, df, -dr, fuel) is None,
        },
    decreases fuel,
{
    let nf = file + df;
    let nr = rank + dr;
    if fuel > 0 && on_board(nf, nr) {
        let sq = nr * 8 + nf;
        assert(mirror_square(sq) == (7 - nr) * 8 + nf);
        assert(w.cells[mirror_square(sq)] == swap_color(v.cells[sq]));
        lemma_mirror_blocker(v, w, nf, nr, df, dr, (fuel - 1) as nat);
        assert(7 - rank + -dr == 7 - nr);
    }
}

proof fn lemma_mirror_chebyshev(a: int, b: int)
    requires
        0 <= a < 64,
        0 <= b < 64,
    ensures
        chebyshev(mirror_square(a), mirror_square(b)) == chebyshev(a, b),
{
    assert(mirror_square(a) / 8 == 7 - a / 8 && mirror_square(a) % 8 == a % 8);
    assert(mirror_square(b) / 8 == 7 - b / 8 && mirror_square(b) % 8 == b % 8);
}

proof fn lemma_mirror_ray(v: BoardView, w: BoardView, sq: int, c: Color, d: int)
    requires
        is_color_mirror(v, w),
        0 <= sq < 64,
        0 <= d < 8,
    ensures
        ray_defender(w, mirror_square(sq), other(c), mirror_dir(d)) == ray_defender(v, sq, c, d),
{
    let md = mirror_dir(d);
    assert(dir_file(md) == dir_file(d) && dir_rank(md) == -dir_rank(d));
    let ms = mirror_square(sq);
    assert(ms % 8 == sq % 8 && ms / 8 == 7 - sq / 8);
    lemma_mirror_blocker(v, w, sq % 8, sq / 8, dir_file(d), dir_rank(d), 7);
    match blocker(v, sq % 8, sq / 8, dir_file(d), dir_rank(d), 7) {
        Some(t) => {
            lemma_mirror_chebyshev(sq, t);
            assert(w.cells[mirror_square(t)] == swap_color(v.cells[t]));
        },
        None => {},
    }
}

proof fn lemma_first_ray_some(v: BoardView, sq: int, c: Color, d: int)
    requires
        0 <= d <= 8,
    ensures
        first_ray_defender(v, sq, c, d) is Some <==> exists|e: int| d <= e < 8 && (#[trigger] ray_defender(v, sq, c, e)) is Some,
    decreases 8 - d,
{
    if d < 8 {
        lemma_first_ray_some(v, sq, c, d + 1);
        if ray_defender(v, sq, c, d) is Some {
            assert(d <= d < 8);
        }
        if exists|e: int| d <= e < 8 && (#[trigger] ray_defender(v, sq, c, e)) is Some {
            let e = choose|e: int| d <= e < 8 && (#[trigger] ray_defender(v, sq, c, e)) is Some;
            if e != d {
                assert(d + 1 <= e < 8);
            }
        }
    }
}

proof fn lemma_knights_some(v: BoardView, sq: int, c: Color, k: int)
    requires
        0 <= k <= 8,
    ensures
        knights_defend(v, sq, c, k) <==> exists|j: int| k <= j < 8 && #[trigger] knight_defends(v, sq, c, j),
    decreases 8 - k,
{
    if k < 8 {
        lemma_knights_some(v, sq, c, k + 1);
        if exists|j: int| k <= j < 8 && #[trigger] knight_defends(v, sq, c, j) {
            let j = choose|j: int| k <= j < 8 && #[trigger] knight_defends(v, sq, c, j);
            if j != k {
                assert(k + 1 <= j < 8);
            }
        }
    }
}

proof fn lemma_mirror_knight(v: BoardView, w: BoardView, sq: int, c: Color, k: int)
    requires
        is_color_mirror(v, w),
        0 <= sq < 64,
        0 <= k < 8,
    ensures
        knight_defends(w, mirror_square(sq), other(c), mirror_jump(k)) == knight_defends(v, sq, c, k),
{
    let mk = mirror_jump(k);
    assert(knight_file(mk) == knight_file(k) && knight_rank(mk) == -knight_rank(k));
    let ms = mirror_square(sq);
    assert(ms % 8 == sq % 8 && ms / 8 == 7 - sq / 8);
    let f = sq % 8 + knight_file(k);
    let r = sq / 8 + knight_rank(k);
    if on_board(f, r) {
        assert(mirror_square(r * 8 + f) == (7 - r) * 8 + f);
        assert(w.cells[mirror_square(r * 8 + f)] == swap_color(v.cells[r * 8 + f]));
    }
}

/// Defense follows how pieces move, not where the board is: flipping the
/// board top to bottom and swapping the colors maps each defended square
/// to a square defended by the other color.
pub proof fn lemma_defense_mirror(v: BoardView, w: BoardView, sq: int, c: Color)
    requires
        is_color_mirror(v, w),
        0 <= sq < 64,
    ensures
        spec_is_defended(w, mirror_square(sq), other(c)) == spec_is_defended(v, sq, c),
{
    let ms = mirror_square(sq);
    let oc = other(c);
    lemma_first_ray_some(v, sq, c, 0);
    lemma_first_ray_some(w, ms, oc, 0);
    lemma_knights_some(v, sq, c, 0);
    lemma_knights_some(w, ms, oc, 0);
    assert forall|d: int| 0 <= d < 8 implies ray_defender(w, ms, oc, mirror_dir(d)) == #[trigger] ray_defender(v, sq, c, d) by {
        lemma_mirror_ray(v, w, sq, c, d);
    }
    assert forall|k: int| 0 <= k < 8 implies knight_defends(w, ms, oc, mirror_jump(k)) == #[trigger] knight_defends(v, sq, c, k) by {
        lemma_mirror_knight(v, w, sq, c, k);
    }
    if exists|e: int| 0 <= e < 8 && (#[trigger] ray_defender(v, sq, c, e)) is Some {
        let e = choose|e: int| 0 <= e < 8 && (#[trigger] ray_defender(v, sq, c, e)) is Some;
        assert(ray_defender(w, ms, oc, mirror_dir(e)) is Some);
    }
    if exists|e: int| 0 <= e < 8 && (#[trigger] ray_defender(w, ms, oc, e)) is Some {
        let e = choose|e: int| 0 <= e < 8 && (#[trigger] ray_defender(w, ms, oc, e)) is Some;
        assert(mirror_dir(mirror_dir(e)) == e);
        assert(ray_defender(v, sq, c, mirror_dir(e)) is Some);
    }
    if exists|j: int| 0 <= j < 8 && #[trigger] knight_defends(v, sq, c, j) {
        let j = choose|j: int| 0 <= j < 8 && #[trigger] knight_defends(v, sq, c, j);
        assert(knight_defends(w, ms, oc, mirror_jump(j)));
    }
    if exists|j: int| 0 <= j < 8 && #[trigger] knight_defends(w, ms, oc, j) {
        let j = choose|j: int| 0 <= j < 8 && #[trigger] knight_defends(w, ms, oc, j);
        assert(mirror_jump(mirror_jump(j)) == j);
        assert(knight_defends(v, sq, c, mirror_jump(j)));
    }
}

} // verus!

//! Move ordering: legal moves sorted by the evaluation of the position
//! they lead to, best first for the side being searched, stable on ties.
use vstd::prelude::*;
use crate::board::{BoardView, view_of, after_move, legal_moves_of, moves_on_board, legal_moves, make_move};
use crate::eval::{spec_eval, eval};
use crate::types::Move;

verus! {

/// Whether key `a` comes strictly before key `b`.
pub open spec fn better(a: int, b: int, maximizing: bool) -> bool {
    if maximizing { a > b } else { a < b }
}

/// Inserts `x` before the first entry whose key it beats, so that entries
/// with an equal key keep their order.
pub open spec fn insert_keyed(s: Seq<(Move, int)>, x: (Move, int), maximizing: bool) -> Seq<(Move, int)>
    decreases s.len(),
{
    if s.len() == 0 {
        seq![x]
    } else if better(x.1, s[0].1, maximizing) {
        seq![x] + s
    } else {
        seq![s[0]] + insert_keyed(s.drop_first(), x, maximizing)
    }
}

/// The first `n` entries of `s`, sorted stably by key.
pub open spec fn sort_keyed(s: Seq<(Move, int)>, maximizing: bool, n: int) -> Seq<(Move, int)>
    decreases n,
{
    if n <= 0 {
        Seq::empty()
    } else {
        insert_keyed(sort_keyed(s, maximizing, n - 1), s[n - 1], maximizing)
    }
}

pub open spec fn sorted_by_key(s: Seq<(Move, int)>, maximizing: bool) -> bool {
    forall|i: int, j: int| 0 <= i < j < s.len() ==> !better(#[trigger] s[j].1, #[trigger] s[i].1, maximizing)
}

/// The evaluation of the position after `m`.
pub open spec fn child_eval(v: BoardView, m: Move, plies: int) -> int {
    spec_eval(after_move(v, m), legal_moves_of(after_move(v, m)), plies + 1)
}

pub open spec fn keyed(v: BoardView, ms: Seq<Move>, plies: int) -> Seq<(Move, int)> {
    ms.map_values(|m: Move| (m, child_eval(v, m, plies)))
}

/// The moves `ms` of `v` in search order.
pub open spec fn ordered(v: BoardView, ms: Seq<Move>, maximizing: bool, plies: int) -> Seq<Move> {
    sort_keyed(keyed(v, ms, plies), maximizing, ms.len() as int).map_values(|p: (Move, int)| p.0)
}

pub open spec fn as_keys(s: Seq<(Move, i128)>) -> Seq<(Move, int)> {
    s.map_values(|p: (Move, i128)| (p.0, p.1 as int))
}

proof fn lemma_insert_at(s: Seq<(Move, int)>, x: (Move, int), maximizing: bool, j: int)
    requires
        0 <= j <= s.len(),
        forall|k: int| 0 <= k < j ==> !better(x.1, #[trigger] s[k].1, maximizing),
        j < s.len() ==> better(x.1, s[j].1, maximizing),
    ensures
        insert_keyed(s, x, maximizing) == s.take(j) + seq![x] + s.skip(j),
    decreases s.len(),
{
    if s.len() == 0 {
        assert(s.take(j) + seq![x] + s.skip(j) =~= seq![x]);
    } else if j == 0 {
        assert(s.take(j) + seq![x] + s.skip(j) =~= seq![x] + s);
    } else {
        let t = s.drop_first();
        assert forall|k: int| 0 <= k < j - 1 implies !better(x.1, #[trigger] t[k].1, maximizing) by {
            assert(t[k] == s[k + 1]);
        }
        lemma_insert_at(t, x, maximizing, j - 1);
        assert(seq![s[0]] + (t.take(j - 1) + seq![x] + t.skip(j - 1)) =~= s.take(j) + seq![x] + s.skip(j));
    }
}

proof fn lemma_insert_keeps(s: Seq<(Move, int)>, x: (Move, int), maximizing: bool)
    ensures
        insert_keyed(s, x, maximizing).len() == s.len() + 1,
        forall|y: (Move, int)| #[trigger] insert_keyed(s, x, maximizing).contains(y) <==> (s.contains(y) || y == x),
        sorted_by_key(s, maximizing) ==> sorted_by_key(insert_keyed(s, x, maximizing), maximizing),
    decreases s.len(),
{
    let r = insert_keyed(s, x, maximizing);
    if s.len() == 0 {
        assert forall|y: (Move, int)| r.contains(y) <==> (s.contains(y) || y == x) by {
            if r.contains(y) {
                assert(r[0] == x);
            }
            if y == x {
                assert(r[0] == y);
            }
        }
    } else if better(x.1, s[0].1, maximizing) {
        assert forall|y: (Move, int)| r.contains(y) <==> (s.contains(y) || y == x) by {
            if r.contains(y) {
                let k = choose|k: int| 0 <= k < r.len() && r[k] == y;
                if k > 0 {
                    assert(s[k - 1] == y);
                }
            }
            if s.contains(y) {
                let k = choose|k: int| 0 <= k < s.len() && s[k] == y;
                assert(r[k + 1] == y);
            }
            if y == x {
                assert(r[0] == y);
            }
        }
        if sorted_by_key(s, maximizing) {
            assert forall|i: int, j: int| 0 <= i < j < r.len() implies !better(#[trigger] r[j].1, #[trigger] r[i].1, maximizing) by {
                if i == 0 {
                    assert(r[j] == s[j - 1]);
                    if j - 1 > 0 {
                        assert(!better(s[j - 1].1, s[0].1, maximizing));
                    }
                } else {
                    assert(r[i] == s[i - 1] && r[j] == s[j - 1]);
                }
            }
        }
    } else {
        let t = s.drop_first();
        lemma_insert_keeps(t, x, maximizing);
        let rt = insert_keyed(t, x, maximizing);
        assert(r == seq![s[0]] + rt);
        assert forall|y: (Move, int)| r.contains(y) <==> (s.contains(y) || y == x) by {
            if r.contains(y) {
                let k = choose|k: int| 0 <= k < r.len() && r[k] == y;
                if k > 0 {
                    assert(rt[k - 1] == y);
                    assert(rt.contains(y));
                    if t.contains(y) {
                        let q = choose|q: int| 0 <= q < t.len() && t[q] == y;
                        assert(s[q + 1] == y);
                    }
                } else {
                    assert(s[0] == y);
                }
            }
            if s.contains(y) {
                let k = choose|k: int| 0 <= k < s.len() && s[k] == y;
                if k > 0 {
                    assert(t[k - 1] == y);
                    assert(t.contains(y));
                    assert(rt.contains(y));
                    let q = choose|q: int| 0 <= q < rt.len() && rt[q] == y;
                    assert(r[q + 1] == y);
                } else {
                    assert(r[0] == y);
                }
            }
            if y == x {
                assert(rt.contains(y));
                let q = choose|q: int| 0 <= q < rt.len() && rt[q] == y;
                assert(r[q + 1] == y);
            }
        }
        if sorted_by_key(s, maximizing) {
            assert(sorted_by_key(t, maximizing)) by {
                assert forall|i: int, j: int| 0 <= i < j < t.len() implies !better(#[trigger] t[j].1, #[trigger] t[i].1, maximizing) by {
                    assert(t[i] == s[i + 1] && t[j] == s[j + 1]);
                }
            }
            assert forall|i: int, j: int| 0 <= i < j < r.len() implies !better(#[trigger] r[j].1, #[trigger] r[i].1, maximizing) by {
                if i == 0 {
                    assert(r[j] == rt[j - 1]);
                    assert(rt.contains(rt[j - 1]));
                    if rt[j - 1] != x {
                        assert(t.contains(rt[j - 1]));
                        let q = choose|q: int| 0 <= q < t.len() && t[q] == rt[j - 1];
                        assert(s[q + 1] == rt[j - 1]);
                    }
                } else {
                    assert(r[i] == rt[i - 1] && r[j] == rt[j - 1]);
                }
            }
        }
    }
}

/// The stable sort keeps exactly the entries it is given, and sorts them.
pub proof fn lemma_sort_keyed(s: Seq<(Move, int)>, maximizing: bool, n: int)
    requires
        0 <= n <= s.len(),
    ensures
        sort_keyed(s, maximizing, n).len() == n,
        forall|y: (Move, int)| #[trigger] sort_keyed(s, maximizing, n).contains(y) <==> s.take(n).contains(y),
        sorted_by_key(sort_keyed(s, maximizing, n), maximizing),
    decreases n,
{
    if n == 0 {
        assert(s.take(0) =~= Seq::<(Move, int)>::empty());
    } else {
        lemma_sort_keyed(s, maximizing, n - 1);
        lemma_insert_keeps(sort_keyed(s, maximizing, n - 1), s[n - 1], maximizing);
        assert(s.take(n) =~= s.take(n - 1).push(s[n - 1]));
        assert forall|y: (Move, int)| s.take(n).contains(y) <==> (s.take(n - 1).contains(y) || y == s[n - 1]) by {
            if s.take(n).contains(y) {
                let k = choose|k: int| 0 <= k < n && #[trigger] s.take(n)[k] == y;
                if k < n - 1 {
                    assert(s.take(n - 1)[k] == y);
                }
            }
            if s.take(n - 1).contains(y) {
                let k = choose|k: int| 0 <= k < n - 1 && #[trigger] s.take(n - 1)[k] == y;
                assert(s.take(n)[k] == y);
            }
            if y == s[n - 1] {
                assert(s.take(n)[n - 1] == y);
            }
        }
    }
}

fn insert_by_key(out: &mut Vec<(Move, i128)>, x: (Move, i128), maximizing: bool)
    ensures
        as_keys(final(out)@) == insert_keyed(as_keys(old(out)@), (x.0, x.1 as int), maximizing),
{
    let ghost s = as_keys(out@);
    let ghost xk = (x.0, x.1 as int);
    let mut j: usize = 0;
    let mut found = false;
    while !found && j < out.len()
        invariant
            j <= out.len(),
            out@ == old(out)@,
            s == as_keys(out@),
            xk == (x.0, x.1 as int),
            forall|k: int| 0 <= k < j ==> !better(xk.1, #[trigger] s[k].1, maximizing),
            found ==> j < s.len() && better(xk.1, s[j as int].1, maximizing),
        decreases out.len() - j + if found { 0int } else { 1int },
    {
        let beats = if maximizing { x.1 > out[j].1 } else { x.1 < out[j].1 };
        if beats {
            found = true;
        } else {
            j = j + 1;
        }
    }
    proof {
        lemma_insert_at(s, xk, maximizing, j as int);
    }
    out.insert(j, x);
    assert(as_keys(out@) =~= s.take(j as int) + seq![xk] + s.skip(j as int));
}

/// Sorts keyed moves stably: best key first when `maximizing`, else lowest.
fn sort_by_key(items: &Vec<(Move, i128)>, maximizing: bool) -> (r: Vec<(Move, i128)>)
    ensures
        as_keys(r@) == sort_keyed(as_keys(items@), maximizing, items.len() as int),
{
    let mut out: Vec<(Move, i128)> = Vec::new();
    let mut i: usize = 0;
    while i < items.len()
        invariant
            i <= items.len(),
            as_keys(out@) == sort_keyed(as_keys(items@), maximizing, i as int),
        decreases items.len() - i,
    {
        insert_by_key(&mut out, items[i], maximizing);
        i = i + 1;
    }
    out
}

/// Orders the legal moves `movegen` of `board` by the evaluation of the
/// position each leads to: descending for the maximizing side, ascending
/// otherwise, ties kept in the order given.
pub fn order_moves_by_evaluation(board: &chess::Board, movegen: Vec<Move>, maximizing_player: bool, plies: i32) -> (r: Vec<Move>)
    requires
        0 <= plies < i32::MAX,
        moves_on_board(movegen@),
        forall|i: int| 0 <= i < movegen.len() ==> legal_moves_of(view_of(*board)).contains(#[trigger] movegen@[i]),
    ensures
        r@ == ordered(view_of(*board), movegen@, maximizing_player, plies as int),
{
    let ghost v = view_of(*board);
    let mut keyed_moves: Vec<(Move, i128)> = Vec::new();
    let mut i: usize = 0;
    while i < movegen.len()
        invariant
            i <= movegen.len(),
            0 <= plies < i32::MAX,
            v == view_of(*board),
            moves_on_board(movegen@),
            forall|i: int| 0 <= i < movegen.len() ==> legal_moves_of(v).contains(#[trigger] movegen@[i]),
            as_keys(keyed_moves@) =~= keyed(v, movegen@, plies as int).take(i as int),
        decreases movegen.len() - i,
    {
        let m = movegen[i];
        assert(movegen@[i as int].source < 64);
        let next = make_move(board, m);
        let replies = legal_moves(&next);
        let e = eval(&next, replies, plies + 1);
        assert(e == child_eval(v, m, plies as int));
        assert(keyed(v, movegen@, plies as int)[i as int] == (m, e as int));
        let ghost before = keyed_moves@;
        keyed_moves.push((m, e));
        assert(as_keys(keyed_moves@) =~= as_keys(before).push((m, e as int)));
        i = i + 1;
    }
    let sorted = sort_by_key(&keyed_moves, maximizing_player);
    let mut out: Vec<Move> = Vec::new();
    let mut k: usize = 0;
    while k < sorted.len()
        invariant
            k <= sorted.len(),
            out@ =~= as_keys(sorted@).take(k as int).map_values(|p: (Move, int)| p.0),
        decreases sorted.len() - k,
    {
        out.push(sorted[k].0);
        k = k + 1;
    }
    proof {
        assert(keyed(v, movegen@, plies as int).take(movegen.len() as int) =~= keyed(v, movegen@, plies as int));
        assert(as_keys(sorted@).take(sorted.len() as int) =~= as_keys(sorted@));
    }
    out
}

/// In search order, the first move leads to the position with the best
/// evaluation for the side to move: no later move's position evaluates
/// higher for the maximizing side, or lower for the minimizing side.
pub proof fn lemma_ordering_monotonic(v: BoardView, ms: Seq<Move>, maximizing: bool, plies: int)
    ensures
        forall|j: int| 0 < j < ordered(v, ms, maximizing, plies).len() ==> if maximizing {
            child_eval(v, ordered(v, ms, maximizing, plies)[0], plies)
                >= child_eval(v, #[trigger] ordered(v, ms, maximizing, plies)[j], plies)
        } else {
            child_eval(v, ordered(v, ms, maximizing, plies)[0], plies)
                <= child_eval(v, ordered(v, ms, maximizing, plies)[j], plies)
        },
{
    let kd = keyed(v, ms, plies);
    let n = ms.len() as int;
    lemma_sort_keyed(kd, maximizing, n);
    assert(kd.take(n) =~= kd);
    let sorted = sort_keyed(kd, maximizing, n);
    let o = ordered(v, ms, maximizing, plies);
    assert forall|k: int| 0 <= k < sorted.len() implies #[trigger] sorted[k].1 == child_eval(v, sorted[k].0, plies) by {
        assert(sorted.contains(sorted[k]));
        assert(kd.contains(sorted[k]));
        let i = choose|i: int| 0 <= i < kd.len() && kd[i] == sorted[k];
    }
    assert forall|j: int| 0 < j < o.len() implies (if maximizing {
        child_eval(v, o[0], plies) >= child_eval(v, #[trigger] o[j], plies)
    } else {
        child_eval(v, o[0], plies) <= child_eval(v, o[j], plies)
    }) by {
        assert(o[0] == sorted[0].0 && o[j] == sorted[j].0);
        assert(sorted[0].1 == child_eval(v, sorted[0].0, plies));
        assert(sorted[j].1 == child_eval(v, sorted[j].0, plies));
        assert(!better(sorted[j].1, sorted[0].1, maximizing));
    }
}

} // verus!

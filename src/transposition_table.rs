//! The transposition cache of one search: board hash to search result.
use vstd::prelude::*;
use std::collections::HashMap;
use crate::board::{hash_of, view_of, board_hash};
use crate::search_move::SearchMove;

verus! {

broadcast use vstd::std_specs::hash::group_hash_axioms;

/// Results of the current search, keyed by the hash of the position they
/// were computed for. Nothing is ever evicted.
pub struct TranspostionTable {
    table: HashMap<u64, SearchMove>,
}

impl View for TranspostionTable {
    type V = Map<u64, SearchMove>;

    closed spec fn view(&self) -> Map<u64, SearchMove> {
        self.table@
    }
}

impl TranspostionTable {
    /// An empty cache.
    pub fn new() -> (r: Self)
        ensures
            r@ == Map::<u64, SearchMove>::empty(),
    {
        TranspostionTable { table: HashMap::new() }
    }

    /// The result cached for `board`'s hash, if any.
    pub fn get_position(&self, board: &chess::Board) -> (r: Option<SearchMove>)
        ensures
            r == (if self@.contains_key(hash_of(view_of(*board))) {
                Some(self@[hash_of(view_of(*board))])
            } else {
                None
            }),
    {
        let h = board_hash(board);
        match self.table.get(&h) {
            Some(v) => Some(*v),
            None => None,
        }
    }

    /// Caches `mov` under `board`'s hash, replacing what was there.
    pub fn add_position(&mut self, board: &chess::Board, mov: &SearchMove)
        ensures
            final(self)@ == old(self)@.insert(hash_of(view_of(*board)), *mov),
    {
        let h = board_hash(board);
        self.table.insert(h, *mov);
    }
}

} // verus!

//! The result of a search: the best move found, if any, and its score.
use vstd::prelude::*;
use crate::types::Move;

verus! {

#[derive(Clone, Copy, Debug, PartialEq, Eq, Structural)]
pub struct SearchMove {
    pub mov: Option<Move>,
    pub evaluation: i128,
}

impl SearchMove {
    pub fn mov(&self) -> (r: Option<Move>)
        ensures
            r == self.mov,
    {
        self.mov
    }

    pub fn eval(&self) -> (r: i128)
        ensures
            r == self.evaluation,
    {
        self.evaluation
    }

    pub fn new(mov: Option<Move>, evaluation: i128) -> (r: SearchMove)
        ensures
            r == (SearchMove { mov, evaluation }),
    {
        SearchMove { mov, evaluation }
    }
}

} // verus!

use crate::chess::mv::Mv;
use crate::chess::piece::Piece;
use crate::chess::square::Square;
use vstd::prelude::*;

verus! {

/// What a stored score says of the true score: equal to it, at least it, or at most it.
#[derive(Debug, Copy, Clone, PartialEq, Eq, Structural)]
pub enum Flag {
    Exact,
    Lower,
    Upper,
}

impl Default for Flag {
    fn default() -> (r: Self)
        ensures
            r == Flag::Exact,
    {
        Flag::Exact
    }
}

/// A transposition table entry: the position's hash, the best move found, its score, the depth
/// it was searched to and what the score bounds.
#[derive(Debug, Copy, Clone, PartialEq, Eq, Structural)]
pub struct TTEntry {
    pub hash: u64,
    pub mv: Mv,
    pub score: i32,
    pub depth: i32,
    pub flag: Flag,
}

impl Default for TTEntry {
    fn default() -> (r: Self)
        ensures
            r == (TTEntry {
                hash: 0,
                mv: Mv { from: Square(0), to: Square(0), promo: Piece::NoPiece },
                score: 0,
                depth: 0,
                flag: Flag::Exact,
            }),
    {
        TTEntry {
            hash: 0,
            mv: Mv { from: Square(0), to: Square(0), promo: Piece::NoPiece },
            score: 0,
            depth: 0,
            flag: Flag::Exact,
        }
    }
}

} // verus!

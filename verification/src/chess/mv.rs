use crate::chess::piece::Piece;
use crate::chess::square::{lemma_square_flip_involution, Square};
use vstd::prelude::*;

verus! {

/// A move from one square to another, with the piece a pawn promotes to (`Piece::NoPiece` if none).
/// Castling is written as the king moving onto its own rook.
#[derive(Debug, Copy, Clone, PartialEq, Eq, Structural)]
pub struct Mv {
    pub from: Square,
    pub to: Square,
    pub promo: Piece,
}

impl Default for Mv {
    fn default() -> (r: Self)
        ensures
            r.from.0 == 0,
            r.to.0 == 0,
            r.promo == Piece::NoPiece,
    {
        Mv { from: Square(0), to: Square(0), promo: Piece::NoPiece }
    }
}

impl Mv {
    pub open spec fn spec_flipped(self) -> Mv {
        Mv { from: self.from.spec_flip(), to: self.to.spec_flip(), promo: self.promo }
    }

    /// The same move seen from the other side of the board.
    pub fn flipped(&self) -> (r: Mv)
        ensures
            r == self.spec_flipped(),
    {
        Self { from: self.from.flip(), to: self.to.flip(), promo: self.promo }
    }
}

/// Flipping a move twice gives the move back.
pub proof fn lemma_mv_flip_involution(mv: Mv)
    ensures
        mv.spec_flipped().spec_flipped() == mv,
{
    lemma_square_flip_involution(mv.from);
    lemma_square_flip_involution(mv.to);
}

} // verus!

use vstd::prelude::*;

verus! {

/// A kind of piece; `NoPiece` stands for no piece, as the promotion of a move that promotes nothing.
#[derive(Debug, Copy, Clone, PartialEq, Eq, Structural)]
pub enum Piece {
    Pawn,
    Knight,
    Bishop,
    Rook,
    Queen,
    King,
    NoPiece,
}

impl Piece {
    /// The position of the piece in tables indexed by piece: pawn 0 up to king 5, none 6.
    pub open spec fn spec_index(self) -> usize {
        match self {
            Piece::Pawn => 0,
            Piece::Knight => 1,
            Piece::Bishop => 2,
            Piece::Rook => 3,
            Piece::Queen => 4,
            Piece::King => 5,
            Piece::NoPiece => 6,
        }
    }

    pub fn index(self) -> (r: usize)
        ensures
            r == self.spec_index(),
            r <= 6,
    {
        match self {
            Piece::Pawn => 0,
            Piece::Knight => 1,
            Piece::Bishop => 2,
            Piece::Rook => 3,
            Piece::Queen => 4,
            Piece::King => 5,
            Piece::NoPiece => 6,
        }
    }

    /// The name of the piece, such as `Pawn`.
    pub fn name(&self) -> (r: &'static str)
        ensures
            r@ == (match *self {
                Piece::Pawn => "Pawn"@,
                Piece::Knight => "Knight"@,
                Piece::Bishop => "Bishop"@,
                Piece::Rook => "Rook"@,
                Piece::Queen => "Queen"@,
                Piece::King => "King"@,
                Piece::NoPiece => "None"@,
            }),
    {
        match self {
            Piece::Pawn => "Pawn",
            Piece::Knight => "Knight",
            Piece::Bishop => "Bishop",
            Piece::Rook => "Rook",
            Piece::Queen => "Queen",
            Piece::King => "King",
            Piece::NoPiece => "None",
        }
    }
}

} // verus!

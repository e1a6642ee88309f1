use vstd::prelude::*;

verus! {

/// Why a FEN string was refused.
#[derive(Debug, Clone, Copy, PartialEq, Eq)]
pub enum FenError {
    /// A character of the board that is neither a piece, a digit nor `/`.
    UnrecognisedPiece,
    /// The board does not describe exactly 64 squares.
    PieceCount,
    /// The side to move is not `w`, `W`, `b` or `B`.
    SideIllegal,
    SideMissing,
    WhiteKingMissing,
    BlackKingMissing,
    /// A character occurs twice among the castling rights.
    CastlingDuplicate,
    WhiteKingSideRookMissing,
    WhiteQueenSideRookMissing,
    BlackKingSideRookMissing,
    BlackQueenSideRookMissing,
    CastlingUnrecognised,
    /// The en passant square is not `-` and not a square of the board.
    EpIllegal,
    EpMissing,
    HalfmoveParse,
    HalfmoveRange,
    HalfmoveMissing,
    FullmoveParse,
    FullmoveRange,
    FullmoveMissing,
    /// More than six space separated parts.
    ExtraParts,
    /// The position read fails the position checks, for the reason given.
    Invalid(&'static str),
}

impl FenError {
    /// The text of the error.
    pub fn message(&self) -> (r: &'static str)
        ensures
            r@ == (match *self {
                FenError::UnrecognisedPiece => "Invalid FEN: unrecognised piece"@,
                FenError::PieceCount => "Invalid FEN: invalid number of pieces"@,
                FenError::SideIllegal => "Invalid FEN: side to move illegal character"@,
                FenError::SideMissing => "Invalid FEN: side to move missing"@,
                FenError::WhiteKingMissing => "Invalid FEN: white king missing"@,
                FenError::BlackKingMissing => "Invalid FEN: black king missing"@,
                FenError::CastlingDuplicate => "Invalid FEN: duplicated castling permissions"@,
                FenError::WhiteKingSideRookMissing => "Invalid FEN: white king side castle rook missing"@,
                FenError::WhiteQueenSideRookMissing => "Invalid FEN: white queen side castle rook missing"@,
                FenError::BlackKingSideRookMissing => "Invalid FEN: black king side castle rook missing"@,
                FenError::BlackQueenSideRookMissing => "Invalid FEN: black queen side castle rook missing"@,
                FenError::CastlingUnrecognised => "Invalid FEN: unrecognised castling permission"@,
                FenError::EpIllegal => "Invalid FEN: illegal EP square"@,
                FenError::EpMissing => "Invalid FEN: EP value missing"@,
                FenError::HalfmoveParse => "Invalid FEN: halfmove counter is not a number"@,
                FenError::HalfmoveRange => "Invalid FEN: halfmove counter out of range"@,
                FenError::HalfmoveMissing => "Invalid FEN: halfmove counter missing"@,
                FenError::FullmoveParse => "Invalid FEN: fullmove counter is not a number"@,
                FenError::FullmoveRange => "Invalid FEN: fullmove counter out of range"@,
                FenError::FullmoveMissing => "Invalid FEN: fullmove counter missing"@,
                FenError::ExtraParts => "Invalid FEN: extra parts"@,
                FenError::Invalid(e) => e@,
            }),
    {
        match self {
            FenError::UnrecognisedPiece => "Invalid FEN: unrecognised piece",
            FenError::PieceCount => "Invalid FEN: invalid number of pieces",
            FenError::SideIllegal => "Invalid FEN: side to move illegal character",
            FenError::SideMissing => "Invalid FEN: side to move missing",
            FenError::WhiteKingMissing => "Invalid FEN: white king missing",
            FenError::BlackKingMissing => "Invalid FEN: black king missing",
            FenError::CastlingDuplicate => "Invalid FEN: duplicated castling permissions",
            FenError::WhiteKingSideRookMissing => "Invalid FEN: white king side castle rook missing",
            FenError::WhiteQueenSideRookMissing => "Invalid FEN: white queen side castle rook missing",
            FenError::BlackKingSideRookMissing => "Invalid FEN: black king side castle rook missing",
            FenError::BlackQueenSideRookMissing => "Invalid FEN: black queen side castle rook missing",
            FenError::CastlingUnrecognised => "Invalid FEN: unrecognised castling permission",
            FenError::EpIllegal => "Invalid FEN: illegal EP square",
            FenError::EpMissing => "Invalid FEN: EP value missing",
            FenError::HalfmoveParse => "Invalid FEN: halfmove counter is not a number",
            FenError::HalfmoveRange => "Invalid FEN: halfmove counter out of range",
            FenError::HalfmoveMissing => "Invalid FEN: halfmove counter missing",
            FenError::FullmoveParse => "Invalid FEN: fullmove counter is not a number",
            FenError::FullmoveRange => "Invalid FEN: fullmove counter out of range",
            FenError::FullmoveMissing => "Invalid FEN: fullmove counter missing",
            FenError::ExtraParts => "Invalid FEN: extra parts",
            FenError::Invalid(e) => e,
        }
    }
}

} // verus!

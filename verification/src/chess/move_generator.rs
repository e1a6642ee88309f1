use crate::chess::mv::Mv;
use crate::chess::piece::Piece;
use crate::chess::position::Position;
use crate::chess::square::Square;
use vstd::prelude::*;

verus! {

impl Position {
    /// What every move the generator hands out satisfies: it moves a piece `p` of the side to
    /// move from a square of the board to a square of the board; it promotes, if at all, to a
    /// knight, bishop, rook or queen, and only a pawn reaching the last rank; and a pawn moves up
    /// the board, sideways only to take a piece of the other side or en passant.
    pub open spec fn gen_ok(self, p: Piece, mv: Mv) -> bool {
        &&& mv.from.valid()
        &&& mv.to.valid()
        &&& p != Piece::NoPiece
        &&& self.colours[0].has(mv.from.0 as int)
        &&& self.pieces[p.spec_index() as int].has(mv.from.0 as int)
        &&& (mv.promo == Piece::NoPiece || mv.promo == Piece::Knight || mv.promo == Piece::Bishop
            || mv.promo == Piece::Rook || mv.promo == Piece::Queen)
        &&& (mv.promo != Piece::NoPiece ==> p == Piece::Pawn && mv.to.0 >= 56)
        &&& (p == Piece::Pawn ==> {
            &&& mv.from.0 < mv.to.0
            &&& mv.to.0 >= 8
            &&& (mv.from.0 % 8 != mv.to.0 % 8 ==> self.colours[1].has(mv.to.0 as int) || self.ep
                == Some(mv.to))
        })
    }

    /// The legal moves of the position with the piece each one moves, in the order of
    /// `legal_moves`.
    pub fn generate_moves(&self) -> (moves: Vec<(Piece, Mv)>)
        requires
            self.wf(),
        ensures
            moves@.len() == self.spec_legal_moves().len(),
            forall|k: int| 0 <= k < moves@.len() ==> (#[trigger] moves@[k]).1 == self.spec_legal_moves()[k]
                && self.piece_on(moves@[k].1.from.0 as int) == Some(moves@[k].0),
    {
        let legal = self.legal_moves();
        let mut moves: Vec<(Piece, Mv)> = Vec::new();
        let mut i: usize = 0;
        while i < legal.len()
            invariant
                self.wf(),
                i <= legal.len(),
                legal@ == self.spec_legal_moves(),
                forall|k: int| 0 <= k < legal.len() ==> self.move_ok(#[trigger] legal[k]),
                moves@.len() == i,
                forall|k: int| 0 <= k < i ==> (#[trigger] moves@[k]).1 == legal@[k]
                    && self.piece_on(moves@[k].1.from.0 as int) == Some(moves@[k].0),
            decreases legal.len() - i,
        {
            let mv = legal[i];
            proof {
                assert(self.move_ok(legal[i as int]));
            }
            let piece = self.get_piece_on(mv.from).unwrap();
            moves.push((piece, mv));
            i = i + 1;
        }
        moves
    }

    /// Calls `func` with the piece, origin, destination and promotion of each legal move, in the
    /// order of `legal_moves`.
    pub fn move_generator<F: FnMut(Piece, Square, Square, Piece)>(&self, mut func: F)
        requires
            self.wf(),
            forall|p: Piece, f: Square, t: Square, q: Piece| call_requires(func, (p, f, t, q)),
    {
        let moves = self.generate_moves();
        let mut i: usize = 0;
        while i < moves.len()
            invariant
                forall|p: Piece, f: Square, t: Square, q: Piece| call_requires(func, (p, f, t, q)),
            decreases moves.len() - i,
        {
            let (piece, mv) = moves[i];
            func(piece, mv.from, mv.to, mv.promo);
            i = i + 1;
        }
    }
}

} // verus!

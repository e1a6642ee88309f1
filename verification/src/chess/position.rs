use crate::chess::bitboard::{bit, lemma_bit_ops, lemma_bits_ext, Bitboard};
use crate::chess::colour::Colour;
use crate::chess::mv::Mv;
use crate::chess::piece::Piece;
use crate::chess::side::Side;
use crate::chess::square::Square;
use vstd::prelude::*;

verus! {

/// A chess position, always seen from the side to move: `colours[0]` holds the pieces of the
/// side to move and `colours[1]` those of the other side, and the board is flipped top to bottom
/// when black is to move, so the side to move always plays up the board.
#[derive(Debug, Copy, Clone, PartialEq, Eq)]
pub struct Position {
    pub colours: [Bitboard; 2],
    pub pieces: [Bitboard; 6],
    pub halfmoves: i32,
    pub fullmoves: i32,
    pub turn: Colour,
    pub ep: Option<Square>,
    pub us_ksc: bool,
    pub us_qsc: bool,
    pub them_ksc: bool,
    pub them_qsc: bool,
    pub castle_files: [u8; 4],
    pub hash: u64,
    pub is_frc: bool,
}

impl Default for Position {
    fn default() -> (r: Self)
        ensures
            r.colours[0].0 == 0 && r.colours[1].0 == 0,
            forall|i: int| 0 <= i < 6 ==> #[trigger] r.pieces[i].0 == 0,
            r.halfmoves == 0,
            r.fullmoves == 1,
            r.turn == Colour::White,
            r.ep.is_none(),
            !r.us_ksc && !r.us_qsc && !r.them_ksc && !r.them_qsc,
            r.castle_files@ == seq![7u8, 0, 7, 0],
            r.hash == 0,
            !r.is_frc,
    {
        Self {
            colours: [Bitboard(0x0), Bitboard(0x0)],
            pieces: [
                Bitboard(0x0),
                Bitboard(0x0),
                Bitboard(0x0),
                Bitboard(0x0),
                Bitboard(0x0),
                Bitboard(0x0),
            ],
            halfmoves: 0,
            fullmoves: 1,
            turn: Colour::White,
            ep: None,
            us_ksc: false,
            us_qsc: false,
            them_ksc: false,
            them_qsc: false,
            castle_files: [7, 0, 7, 0],
            hash: 0u64,
            is_frc: false,
        }
    }
}

impl Position {
    /// The squares of the side to move.
    pub open spec fn us(self) -> u64 {
        self.colours[0].0
    }

    /// The squares of the other side.
    pub open spec fn them(self) -> u64 {
        self.colours[1].0
    }

    /// The occupied squares.
    pub open spec fn occ(self) -> u64 {
        self.colours[0].0 | self.colours[1].0
    }

    /// The squares holding the piece kept at `i` of `pieces`.
    pub open spec fn pc(self, i: int) -> u64 {
        self.pieces[i].0
    }

    /// The piece on square `s`, looking through the piece kinds from pawn to king.
    pub open spec fn piece_on(self, s: int) -> Option<Piece> {
        if self.pieces[0].has(s) {
            Some(Piece::Pawn)
        } else if self.pieces[1].has(s) {
            Some(Piece::Knight)
        } else if self.pieces[2].has(s) {
            Some(Piece::Bishop)
        } else if self.pieces[3].has(s) {
            Some(Piece::Rook)
        } else if self.pieces[4].has(s) {
            Some(Piece::Queen)
        } else if self.pieces[5].has(s) {
            Some(Piece::King)
        } else {
            None
        }
    }

    /// The colour of the piece on square `s`, the side to move being checked first.
    pub open spec fn colour_on(self, s: int) -> Option<Colour> {
        if self.colours[0].has(s) {
            Some(self.turn)
        } else if self.colours[1].has(s) {
            Some(self.turn.spec_other())
        } else {
            None
        }
    }

    /// The position is well formed: both kings are on the board, no square has both colours or
    /// two kinds of piece, every occupied square holds a piece, the castling files are files, and
    /// the en passant square is a square.
    pub open spec fn wf(self) -> bool {
        &&& self.pc(5) & self.us() != 0
        &&& self.pc(5) & self.them() != 0
        &&& forall|i: int| 0 <= i < 4 ==> #[trigger] self.castle_files[i] < 8
        &&& (self.ep matches Some(e) ==> e.valid())
        &&& forall|s: int| !(#[trigger] self.colours[0].has(s) && self.colours[1].has(s))
        &&& forall|s: int, i: int, j: int|
            0 <= i < j < 6 ==> !(#[trigger] self.pieces[i].has(s) && #[trigger] self.pieces[j].has(s))
        &&& forall|s: int|
            #![trigger self.colours[0].has(s)]
            #![trigger self.colours[1].has(s)]
            (self.colours[0].has(s) || self.colours[1].has(s)) ==> self.piece_on(s).is_some()
    }

    /// Checks that the position is well formed.
    pub fn is_wf(&self) -> (r: bool)
        ensures
            r == self.wf(),
    {
        broadcast use crate::chess::bitboard::group_bit_facts;

        let p0 = self.pieces[0].0;
        let p1 = self.pieces[1].0;
        let p2 = self.pieces[2].0;
        let p3 = self.pieces[3].0;
        let p4 = self.pieces[4].0;
        let p5 = self.pieces[5].0;
        let all = p0 | p1 | p2 | p3 | p4 | p5;
        let overlap = (p0 & p1) | (p0 & p2) | (p0 & p3) | (p0 & p4) | (p0 & p5) | (p1 & p2) | (p1 & p3) | (p1 & p4) | (p1 & p5) | (p2 & p3) | (p2 & p4) | (p2 & p5) | (p3 & p4) | (p3 & p5) | (p4 & p5);
        let us = self.colours[0].0;
        let them = self.colours[1].0;
        let ok = (p5 & us) != 0 && (p5 & them) != 0 && self.castle_files[0] < 8
            && self.castle_files[1] < 8 && self.castle_files[2] < 8 && self.castle_files[3] < 8
            && (match self.ep {
            Some(e) => e.0 < 64,
            None => true,
        }) && (us & them) == 0 && overlap == 0 && ((us | them) & !all) == 0;
        proof {
            crate::chess::bitboard::lemma_empty_iff(us & them);
            crate::chess::bitboard::lemma_empty_iff(overlap);
            crate::chess::bitboard::lemma_empty_iff((us | them) & !all);
            if ok {
                assert forall|s: int, a: int, b: int|
                    0 <= a < b < 6 implies !(#[trigger] self.pieces[a].has(s) && #[trigger] self.pieces[b].has(s)) by {
                    if 0 <= s < 64 && self.pieces[a].has(s) && self.pieces[b].has(s) {
                        assert(!bit(overlap, s as u64));
                        assert(self.pieces[0int].0 == p0 && self.pieces[1int].0 == p1 && self.pieces[2int].0 == p2);
                        assert(self.pieces[3int].0 == p3 && self.pieces[4int].0 == p4 && self.pieces[5int].0 == p5);
                    }
                }
                assert forall|s: int| !(#[trigger] self.colours[0].has(s) && self.colours[1].has(s)) by {
                    if 0 <= s < 64 {
                        assert(!bit(us & them, s as u64));
                    }
                }
                assert forall|s: int|
                    #![trigger self.colours[0].has(s)]
                    #![trigger self.colours[1].has(s)]
                    (self.colours[0].has(s) || self.colours[1].has(s)) implies self.piece_on(s).is_some() by {
                    assert(!bit((us | them) & !all, s as u64));
                }
            } else {
                if (p5 & us) != 0 && (p5 & them) != 0 && self.castle_files[0] < 8
                    && self.castle_files[1] < 8 && self.castle_files[2] < 8 && self.castle_files[3] < 8
                    && (match self.ep { Some(e) => e.0 < 64, None => true }) {
                    if (us & them) != 0 {
                        let s = choose|s: u64| s < 64 && #[trigger] bit(us & them, s);
                        assert(self.colours[0].has(s as int) && self.colours[1].has(s as int));
                    } else if overlap != 0 {
                        let s = choose|s: u64| s < 64 && #[trigger] bit(overlap, s);
                        assert(exists|a: int, b: int| 0 <= a < b < 6 && #[trigger] self.pieces[a].has(s as int) && #[trigger] self.pieces[b].has(s as int)) by {
                            if bit(p0 & p1, s) { assert(self.pieces[0int].has(s as int) && self.pieces[1int].has(s as int)); }
                            if bit(p0 & p2, s) { assert(self.pieces[0int].has(s as int) && self.pieces[2int].has(s as int)); }
                            if bit(p0 & p3, s) { assert(self.pieces[0int].has(s as int) && self.pieces[3int].has(s as int)); }
                            if bit(p0 & p4, s) { assert(self.pieces[0int].has(s as int) && self.pieces[4int].has(s as int)); }
                            if bit(p0 & p5, s) { assert(self.pieces[0int].has(s as int) && self.pieces[5int].has(s as int)); }
                            if bit(p1 & p2, s) { assert(self.pieces[1int].has(s as int) && self.pieces[2int].has(s as int)); }
                            if bit(p1 & p3, s) { assert(self.pieces[1int].has(s as int) && self.pieces[3int].has(s as int)); }
                            if bit(p1 & p4, s) { assert(self.pieces[1int].has(s as int) && self.pieces[4int].has(s as int)); }
                            if bit(p1 & p5, s) { assert(self.pieces[1int].has(s as int) && self.pieces[5int].has(s as int)); }
                            if bit(p2 & p3, s) { assert(self.pieces[2int].has(s as int) && self.pieces[3int].has(s as int)); }
                            if bit(p2 & p4, s) { assert(self.pieces[2int].has(s as int) && self.pieces[4int].has(s as int)); }
                            if bit(p2 & p5, s) { assert(self.pieces[2int].has(s as int) && self.pieces[5int].has(s as int)); }
                            if bit(p3 & p4, s) { assert(self.pieces[3int].has(s as int) && self.pieces[4int].has(s as int)); }
                            if bit(p3 & p5, s) { assert(self.pieces[3int].has(s as int) && self.pieces[5int].has(s as int)); }
                            if bit(p4 & p5, s) { assert(self.pieces[4int].has(s as int) && self.pieces[5int].has(s as int)); }
                        }
                    } else {
                        let s = choose|s: u64| s < 64 && #[trigger] bit((us | them) & !all, s);
                        assert(self.colours[0].has(s as int) || self.colours[1].has(s as int));
                        assert(self.piece_on(s as int).is_none());
                    }
                } else if !(self.castle_files[0] < 8 && self.castle_files[1] < 8 && self.castle_files[2] < 8 && self.castle_files[3] < 8) {
                    if self.castle_files[0] >= 8 { assert(!(self.castle_files[0int] < 8)); }
                    if self.castle_files[1] >= 8 { assert(!(self.castle_files[1int] < 8)); }
                    if self.castle_files[2] >= 8 { assert(!(self.castle_files[2int] < 8)); }
                    if self.castle_files[3] >= 8 { assert(!(self.castle_files[3int] < 8)); }
                }
            }
        }
        ok
    }

    /// The position seen from the other side: the board mirrored, the colours swapped, the castling
    /// rights swapped, the en passant square mirrored and the turn passed on.
    pub open spec fn spec_flip(self) -> Position {
        Position {
            colours: [
                Bitboard(crate::chess::bitboard::spec_swap_bytes(self.colours[1].0)),
                Bitboard(crate::chess::bitboard::spec_swap_bytes(self.colours[0].0)),
            ],
            pieces: [
                Bitboard(crate::chess::bitboard::spec_swap_bytes(self.pieces[0].0)),
                Bitboard(crate::chess::bitboard::spec_swap_bytes(self.pieces[1].0)),
                Bitboard(crate::chess::bitboard::spec_swap_bytes(self.pieces[2].0)),
                Bitboard(crate::chess::bitboard::spec_swap_bytes(self.pieces[3].0)),
                Bitboard(crate::chess::bitboard::spec_swap_bytes(self.pieces[4].0)),
                Bitboard(crate::chess::bitboard::spec_swap_bytes(self.pieces[5].0)),
            ],
            us_ksc: self.them_ksc,
            them_ksc: self.us_ksc,
            us_qsc: self.them_qsc,
            them_qsc: self.us_qsc,
            ep: match self.ep {
                Some(e) => Some(e.spec_flip()),
                None => None,
            },
            turn: self.turn.spec_other(),
            ..self
        }
    }

    /// The standard starting position, white to move.
    pub open spec fn spec_startpos() -> Position {
        Position {
            colours: [Bitboard(0xFFFF), Bitboard(0xFFFF000000000000)],
            pieces: [
                Bitboard(0x00FF00000000FF00),
                Bitboard(0x4200000000000042),
                Bitboard(0x2400000000000024),
                Bitboard(0x8100000000000081),
                Bitboard(0x800000000000008),
                Bitboard(0x1000000000000010),
            ],
            halfmoves: 0,
            fullmoves: 1,
            turn: Colour::White,
            ep: None,
            us_ksc: true,
            us_qsc: true,
            them_ksc: true,
            them_qsc: true,
            castle_files: [7, 0, 7, 0],
            hash: 0x3adfd94b38170629,
            is_frc: false,
        }
    }

    pub fn startpos() -> (r: Self)
        ensures
            r == Self::spec_startpos(),
    {
        Self {
            colours: [Bitboard(0xFFFF), Bitboard(0xFFFF000000000000)],
            pieces: [
                Bitboard(0x00FF00000000FF00),
                Bitboard(0x4200000000000042),
                Bitboard(0x2400000000000024),
                Bitboard(0x8100000000000081),
                Bitboard(0x800000000000008),
                Bitboard(0x1000000000000010),
            ],
            halfmoves: 0,
            fullmoves: 1,
            turn: Colour::White,
            ep: None,
            us_ksc: true,
            us_qsc: true,
            them_ksc: true,
            them_qsc: true,
            castle_files: [7, 0, 7, 0],
            hash: 0x3adfd94b38170629,
            is_frc: false,
        }
    }

    /// The position seen from the other side.
    pub fn from_flipped(pos: &Position) -> (r: Self)
        ensures
            r == pos.spec_flip(),
    {
        let mut npos = *pos;
        npos.flip();
        npos
    }

    /// Sees the position from the other side: mirrors the board, swaps the colours and the
    /// castling rights, mirrors the en passant square and passes the turn.
    pub fn flip(&mut self)
        ensures
            *final(self) == old(self).spec_flip(),
    {
        let c0 = self.colours[0].flip();
        let c1 = self.colours[1].flip();
        self.colours = [c1, c0];
        self.pieces = [
            self.pieces[0].flip(),
            self.pieces[1].flip(),
            self.pieces[2].flip(),
            self.pieces[3].flip(),
            self.pieces[4].flip(),
            self.pieces[5].flip(),
        ];

        let (a, b) = (self.them_ksc, self.us_ksc);
        self.us_ksc = a;
        self.them_ksc = b;
        let (a, b) = (self.them_qsc, self.us_qsc);
        self.us_qsc = a;
        self.them_qsc = b;

        if let Some(e) = self.ep {
            self.ep = Some(e.flip());
        }

        self.turn = self.turn.other();
    }

    pub fn get_turn(&self) -> (r: Colour)
        ensures
            r == self.turn,
    {
        self.turn
    }

    pub fn get_us(&self) -> (r: Bitboard)
        ensures
            r == self.colours[0],
    {
        self.colours[0]
    }

    pub fn get_them(&self) -> (r: Bitboard)
        ensures
            r == self.colours[1],
    {
        self.colours[1]
    }

    pub fn get_white(&self) -> (r: Bitboard)
        ensures
            r == (if self.turn == Colour::White { self.colours[0] } else { self.colours[1] }),
    {
        if self.turn == Colour::White {
            self.colours[0]
        } else {
            self.colours[1]
        }
    }

    pub fn get_black(&self) -> (r: Bitboard)
        ensures
            r == (if self.turn == Colour::White { self.colours[1] } else { self.colours[0] }),
    {
        if self.turn == Colour::White {
            self.colours[1]
        } else {
            self.colours[0]
        }
    }

    pub fn get_side(&self, side: Side) -> (r: Bitboard)
        ensures
            r == self.colours[side.spec_index() as int],
    {
        self.colours[side.index()]
    }

    pub fn get_empty(&self) -> (r: Bitboard)
        ensures
            r.0 == !self.occ(),
    {
        Bitboard(!(self.colours[0] | self.colours[1]).0)
    }

    pub fn get_occupied(&self) -> (r: Bitboard)
        ensures
            r.0 == self.occ(),
    {
        self.colours[0] | self.colours[1]
    }

    pub fn get_pawns(&self) -> (r: Bitboard)
        ensures
            r == self.pieces[0],
    {
        self.pieces[0]
    }

    pub fn get_knights(&self) -> (r: Bitboard)
        ensures
            r == self.pieces[1],
    {
        self.pieces[1]
    }

    pub fn get_bishops(&self) -> (r: Bitboard)
        ensures
            r == self.pieces[2],
    {
        self.pieces[2]
    }

    pub fn get_rooks(&self) -> (r: Bitboard)
        ensures
            r == self.pieces[3],
    {
        self.pieces[3]
    }

    pub fn get_queens(&self) -> (r: Bitboard)
        ensures
            r == self.pieces[4],
    {
        self.pieces[4]
    }

    pub fn get_kings(&self) -> (r: Bitboard)
        ensures
            r == self.pieces[5],
    {
        self.pieces[5]
    }

    pub fn get_piece(&self, idx: usize) -> (r: Bitboard)
        requires
            idx < 6,
        ensures
            r == self.pieces[idx as int],
    {
        self.pieces[idx]
    }

    pub fn get_piece_on(&self, sq: Square) -> (r: Option<Piece>)
        requires
            sq.valid(),
        ensures
            r == self.piece_on(sq.0 as int),
    {
        if self.pieces[0].is_set(sq) {
            Some(Piece::Pawn)
        } else if self.pieces[1].is_set(sq) {
            Some(Piece::Knight)
        } else if self.pieces[2].is_set(sq) {
            Some(Piece::Bishop)
        } else if self.pieces[3].is_set(sq) {
            Some(Piece::Rook)
        } else if self.pieces[4].is_set(sq) {
            Some(Piece::Queen)
        } else if self.pieces[5].is_set(sq) {
            Some(Piece::King)
        } else {
            None
        }
    }

    pub fn get_colour_on(&self, sq: Square) -> (r: Option<Colour>)
        requires
            sq.valid(),
        ensures
            r == self.colour_on(sq.0 as int),
    {
        if self.colours[0].is_set(sq) {
            Some(self.turn)
        } else if self.colours[1].is_set(sq) {
            Some(self.turn.other())
        } else {
            None
        }
    }

    pub fn is_occupied(&self, sq: Square) -> (r: bool)
        requires
            sq.valid(),
        ensures
            r == (self.colours[0].has(sq.0 as int) || self.colours[1].has(sq.0 as int)),
    {
        proof {
            lemma_bit_ops(self.colours[0].0, self.colours[1].0, sq.0 as u64);
        }
        self.get_occupied().is_set(sq)
    }

    pub fn is_empty(&self, sq: Square) -> (r: bool)
        requires
            sq.valid(),
        ensures
            r == !(self.colours[0].has(sq.0 as int) || self.colours[1].has(sq.0 as int)),
    {
        !self.is_occupied(sq)
    }

    /// The move takes a piece of the other side, directly or en passant.
    pub open spec fn spec_is_capture(self, mv: Mv) -> bool {
        self.colours[1].has(mv.to.0 as int) || (self.pieces[0].has(mv.from.0 as int)
            && self.ep == Some(mv.to))
    }

    pub fn is_capture(&self, mv: &Mv) -> (r: bool)
        requires
            mv.from.valid(),
            mv.to.valid(),
        ensures
            r == self.spec_is_capture(*mv),
    {
        self.get_them().is_set(mv.to) || (self.get_pawns().is_set(mv.from) && self.ep.is_some()
            && self.ep.unwrap() == mv.to)
    }
}

/// Seeing a position from the other side twice gives the position back.
pub proof fn lemma_position_flip_involution(pos: Position)
    ensures
        pos.spec_flip().spec_flip() == pos,
{
    let f = pos.spec_flip().spec_flip();
    crate::chess::bitboard::lemma_flip_involution(pos.colours[0]);
    crate::chess::bitboard::lemma_flip_involution(pos.colours[1]);
    assert forall|i: int| 0 <= i < 6 implies #[trigger] f.pieces[i] == pos.pieces[i] by {
        crate::chess::bitboard::lemma_flip_involution(pos.pieces[i]);
    }
    assert(f.pieces =~= pos.pieces);
    assert(f.colours =~= pos.colours);
    if let Some(e) = pos.ep {
        crate::chess::square::lemma_square_flip_involution(e);
    }
}

} // verus!

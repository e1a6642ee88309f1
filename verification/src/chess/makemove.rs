use crate::chess::bitboard::{bit, Bitboard};
use crate::chess::mv::Mv;
use crate::chess::piece::Piece;
use crate::chess::position::Position;
use crate::chess::side::Side;
use crate::chess::square::Square;
use vstd::prelude::*;

verus! {

/// `pieces` with the set of the kind at `i` toggled on the squares of `m`.
pub open spec fn xor_piece(pieces: [Bitboard; 6], i: int, m: u64) -> [Bitboard; 6] {
    [
        Bitboard(if i == 0 { pieces[0].0 ^ m } else { pieces[0].0 }),
        Bitboard(if i == 1 { pieces[1].0 ^ m } else { pieces[1].0 }),
        Bitboard(if i == 2 { pieces[2].0 ^ m } else { pieces[2].0 }),
        Bitboard(if i == 3 { pieces[3].0 ^ m } else { pieces[3].0 }),
        Bitboard(if i == 4 { pieces[4].0 ^ m } else { pieces[4].0 }),
        Bitboard(if i == 5 { pieces[5].0 ^ m } else { pieces[5].0 }),
    ]
}

pub fn toggle(pieces: &mut [Bitboard; 6], i: usize, m: Bitboard)
    requires
        i < 6,
    ensures
        *final(pieces) == xor_piece(*old(pieces), i as int, m.0),
{
    pieces[i] = pieces[i] ^ m;
    assert(*pieces =~= xor_piece(*old(pieces), i as int, m.0));
}

impl Position {
    /// The moving piece relocated, a captured piece removed, and the halfmove counter updated.
    #[verifier::opaque]
    pub open spec fn play_relocate(self, mv: Mv, piece: Piece, captured: Option<Piece>) -> Position {
        let bb_from = 1u64 << mv.from.0;
        let bb_to = 1u64 << mv.to.0;
        let p1 = xor_piece(self.pieces, piece.spec_index() as int, bb_from | bb_to);
        let cap = self.colours[1].has(mv.to.0 as int);
        Position {
            colours: [
                Bitboard(self.us() ^ (bb_from | bb_to)),
                Bitboard(if cap { self.them() ^ bb_to } else { self.them() }),
            ],
            pieces: if cap {
                xor_piece(p1, captured.unwrap().spec_index() as int, bb_to)
            } else {
                p1
            },
            halfmoves: if cap || piece == Piece::Pawn { 0 } else { (self.halfmoves + 1) as i32 },
            ..self
        }
    }

    /// The pawn taken en passant removed, and the new en passant square set.
    #[verifier::opaque]
    pub open spec fn play_ep(self, mv: Mv, piece: Piece, captured: Option<Piece>) -> Position {
        let epc = piece == Piece::Pawn && mv.from.0 % 8 != mv.to.0 % 8 && captured.is_none();
        let below = (1u64 << self.ep.unwrap().0) >> 8u64;
        Position {
            colours: [self.colours[0], Bitboard(if epc { self.them() ^ below } else { self.them() })],
            pieces: if epc { xor_piece(self.pieces, 0, below) } else { self.pieces },
            ep: if piece == Piece::Pawn && mv.to.0 - mv.from.0 == 16 {
                Some(Square((mv.to.0 - 8) as u8))
            } else {
                None
            },
            ..self
        }
    }

    /// When the king has moved onto its own rook: the king put on its castling square (the
    /// seventh file on the king side, the third on the queen side) and the rook next to it.
    #[verifier::opaque]
    pub open spec fn play_castle(self, mv: Mv) -> Position {
        let bb_from = 1u64 << mv.from.0;
        let bb_to = 1u64 << mv.to.0;
        let kr = self.pieces[5].0 & self.pieces[3].0;
        let ks = kr != 0 && mv.to.0 > mv.from.0;
        let qs = kr != 0 && mv.to.0 < mv.from.0;
        let (k, r, rook) = if ks {
            (6u64, 5u64, self.castle_files[0])
        } else {
            (2u64, 3u64, self.castle_files[1])
        };
        if ks || qs {
            Position {
                colours: [
                    Bitboard(self.us() ^ (bb_from | bb_to) ^ bb_from ^ (1u64 << k) ^ (1u64 << rook) ^ (1u64 << r)),
                    self.colours[1],
                ],
                pieces: xor_piece(
                    xor_piece(
                        xor_piece(xor_piece(xor_piece(self.pieces, 5, bb_from | bb_to), 5, bb_from), 5, 1u64 << k),
                        3,
                        1u64 << rook,
                    ),
                    3,
                    1u64 << r,
                ),
                ..self
            }
        } else {
            self
        }
    }

    /// A promoted pawn replaced by the piece it promotes to.
    #[verifier::opaque]
    pub open spec fn play_promo(self, mv: Mv) -> Position {
        let bb_to = 1u64 << mv.to.0;
        if mv.promo != Piece::NoPiece {
            Position {
                pieces: xor_piece(xor_piece(self.pieces, 0, bb_to), mv.promo.spec_index() as int, bb_to),
                ..self
            }
        } else {
            self
        }
    }

    /// The castling rights lost by moving a king (from `ksq_us` or `ksq_them`) or a castling
    /// rook, or by moving onto a castling rook.
    #[verifier::opaque]
    pub open spec fn play_rights(self, mv: Mv, ksq_us: u8, ksq_them: u8) -> Position {
        let ksc_us = self.castle_files[0];
        let qsc_us = self.castle_files[1];
        let ksc_them = (56 + self.castle_files[2]) as u8;
        let qsc_them = (56 + self.castle_files[3]) as u8;
        Position {
            us_ksc: self.us_ksc && mv.from.0 != ksq_us && mv.from.0 != ksc_us && mv.to.0 != ksc_us,
            us_qsc: self.us_qsc && mv.from.0 != ksq_us && mv.from.0 != qsc_us && mv.to.0 != qsc_us,
            them_ksc: self.them_ksc && mv.from.0 != ksq_them && mv.from.0 != ksc_them && mv.to.0
                != ksc_them,
            them_qsc: self.them_qsc && mv.from.0 != ksq_them && mv.from.0 != qsc_them && mv.to.0
                != qsc_them,
            ..self
        }
    }

    /// The position after `mv`, before it is seen from the other side: the hash replaced by
    /// `spec_predict_hash` when `update_hash`, then the stages above in turn.
    pub open spec fn spec_play(self, mv: Mv, update_hash: bool) -> Position {
        let piece = self.piece_on(mv.from.0 as int).unwrap();
        let captured = self.piece_on(mv.to.0 as int);
        let s0 = Position {
            hash: if update_hash { self.spec_predict_hash(mv) } else { self.hash },
            ..self
        };
        s0.play_relocate(mv, piece, captured).play_ep(mv, piece, captured).play_castle(mv).play_promo(
            mv,
        ).play_rights(mv, self.king_sq(Side::Us), self.king_sq(Side::Them))
    }

    /// The position after `mv`, seen from the side that moves next.
    pub open spec fn spec_makemove(self, mv: Mv, update_hash: bool) -> Position {
        self.spec_play(mv, update_hash).spec_flip()
    }

    fn do_relocate(&mut self, mv: &Mv, piece: Piece, captured: Option<Piece>)
        requires
            mv.from.valid(),
            mv.to.valid(),
            piece != Piece::NoPiece,
            old(self).colours[1].has(mv.to.0 as int) ==> captured.is_some() && captured != Some(Piece::NoPiece),
            old(self).halfmoves < i32::MAX,
        ensures
            *final(self) == old(self).play_relocate(*mv, piece, captured),
            final(self).ep == old(self).ep,
            final(self).castle_files == old(self).castle_files,
    {
        reveal(Position::play_relocate);
        let bb_from = Bitboard::from_square(mv.from);
        let bb_to = Bitboard::from_square(mv.to);
        let ghost start = *old(self);
        self.colours[0] = self.colours[0] ^ (bb_from | bb_to);
        toggle(&mut self.pieces, piece.index(), bb_from | bb_to);
        let cap = self.get_them().is_set(mv.to);
        if cap {
            self.colours[1] = self.colours[1] ^ bb_to;
            toggle(&mut self.pieces, captured.unwrap().index(), bb_to);
        }
        if cap || piece == Piece::Pawn {
            self.halfmoves = 0;
        } else {
            self.halfmoves = self.halfmoves + 1;
        }
        assert(self.colours =~= start.play_relocate(*mv, piece, captured).colours);
    }

    fn do_ep(&mut self, mv: &Mv, piece: Piece, captured: Option<Piece>)
        requires
            mv.from.valid(),
            mv.to.valid(),
            piece == Piece::Pawn ==> mv.from.0 < mv.to.0 && mv.to.0 >= 8,
            piece == Piece::Pawn && mv.from.0 % 8 != mv.to.0 % 8 && captured.is_none() ==> old(self).ep == Some(mv.to),
        ensures
            *final(self) == old(self).play_ep(*mv, piece, captured),
            final(self).castle_files == old(self).castle_files,
    {
        reveal(Position::play_ep);
        let ghost start = *old(self);
        if piece == Piece::Pawn && mv.from.file() != mv.to.file() && captured.is_none() {
            let below = Bitboard::from_square(self.ep.unwrap()).south();
            self.colours[1] = self.colours[1] ^ below;
            toggle(&mut self.pieces, 0, below);
        }
        if piece == Piece::Pawn && mv.to.0 - mv.from.0 == 16 {
            self.ep = Some(Square(mv.to.0 - 8));
        } else {
            self.ep = None;
        }
        assert(self.colours =~= start.play_ep(*mv, piece, captured).colours);
    }

    fn do_castle(&mut self, mv: &Mv)
        requires
            mv.from.valid(),
            mv.to.valid(),
            old(self).castle_files[0] < 8,
            old(self).castle_files[1] < 8,
        ensures
            *final(self) == old(self).play_castle(*mv),
            final(self).castle_files == old(self).castle_files,
    {
        reveal(Position::play_castle);
        let ghost start = *old(self);
        let bb_from = Bitboard::from_square(mv.from);
        let bb_to = Bitboard::from_square(mv.to);
        let kr = self.get_kings() & self.get_rooks();
        let ks = kr.is_occupied() && mv.to.0 > mv.from.0;
        let qs = kr.is_occupied() && mv.to.0 < mv.from.0;
        if ks || qs {
            let (k, r, rook) = if ks {
                (Square(6), Square(5), Square::from_coords(self.castle_files[0], 0))
            } else {
                (Square(2), Square(3), Square::from_coords(self.castle_files[1], 0))
            };
            self.colours[0] = self.colours[0] ^ (bb_from | bb_to);
            toggle(&mut self.pieces, 5, bb_from | bb_to);

            // King
            self.colours[0] = self.colours[0] ^ Bitboard::from_square(mv.from);
            self.colours[0] = self.colours[0] ^ Bitboard::from_square(k);
            toggle(&mut self.pieces, 5, Bitboard::from_square(mv.from));
            toggle(&mut self.pieces, 5, Bitboard::from_square(k));

            // Rook
            self.colours[0] = self.colours[0] ^ Bitboard::from_square(rook);
            self.colours[0] = self.colours[0] ^ Bitboard::from_square(r);
            toggle(&mut self.pieces, 3, Bitboard::from_square(rook));
            toggle(&mut self.pieces, 3, Bitboard::from_square(r));
            assert(self.colours =~= start.play_castle(*mv).colours);
        }
    }

    fn do_promo(&mut self, mv: &Mv)
        requires
            mv.to.valid(),
            mv.promo == Piece::NoPiece || mv.promo == Piece::Knight || mv.promo == Piece::Bishop
                || mv.promo == Piece::Rook || mv.promo == Piece::Queen,
        ensures
            *final(self) == old(self).play_promo(*mv),
            final(self).castle_files == old(self).castle_files,
    {
        reveal(Position::play_promo);
        if mv.promo != Piece::NoPiece {
            let bb_to = Bitboard::from_square(mv.to);
            toggle(&mut self.pieces, 0, bb_to);
            toggle(&mut self.pieces, mv.promo.index(), bb_to);
        }
    }

    fn do_rights(&mut self, mv: &Mv, ksq_us: Square, ksq_them: Square)
        requires
            forall|i: int| 0 <= i < 4 ==> #[trigger] old(self).castle_files[i] < 8,
        ensures
            *final(self) == old(self).play_rights(*mv, ksq_us.0, ksq_them.0),
    {
        reveal(Position::play_rights);
        assert(self.castle_files[0int] < 8 && self.castle_files[1int] < 8);
        assert(self.castle_files[2int] < 8 && self.castle_files[3int] < 8);
        let ksc_us = Square::from_coords(self.castle_files[0], 0);
        let qsc_us = Square::from_coords(self.castle_files[1], 0);
        let ksc_them = Square::from_coords(self.castle_files[2], 7);
        let qsc_them = Square::from_coords(self.castle_files[3], 7);
        self.us_ksc = self.us_ksc && mv.from != ksq_us && mv.from != ksc_us && mv.to != ksc_us;
        self.us_qsc = self.us_qsc && mv.from != ksq_us && mv.from != qsc_us && mv.to != qsc_us;
        self.them_ksc = self.them_ksc && mv.from != ksq_them && mv.from != ksc_them && mv.to
            != ksc_them;
        self.them_qsc = self.them_qsc && mv.from != ksq_them && mv.from != qsc_them && mv.to
            != qsc_them;
    }

    /// Plays `mv`, which must move a piece of the side to move the way the move generator moves
    /// it, and turns the board to the other side. With `UPDATE_HASH` the hash is kept up to date.
    pub fn makemove<const UPDATE_HASH: bool>(&mut self, mv: &Mv)
        requires
            old(self).wf(),
            old(self).move_ok(*mv),
            old(self).halfmoves < i32::MAX,
        ensures
            *final(self) == old(self).spec_makemove(*mv, UPDATE_HASH),
    {
        let piece = self.get_piece_on(mv.from).unwrap();
        let captured = self.get_piece_on(mv.to);

        let ksq_us = (self.get_us() & self.get_kings()).lsb();
        let ksq_them = (self.get_them() & self.get_kings()).lsb();
        proof {
            assert(self.castle_files[0int] < 8 && self.castle_files[1int] < 8);
            assert(self.castle_files[2int] < 8 && self.castle_files[3int] < 8);
            crate::chess::zobrist::lemma_and_comm(self.pc(5), self.us());
            crate::chess::zobrist::lemma_and_comm(self.pc(5), self.them());
            if self.colours[1].has(mv.to.0 as int) {
                assert(self.piece_on(mv.to.0 as int).is_some());
            }
        }
        if UPDATE_HASH {
            self.hash = self.predict_hash(mv);
        }
        self.do_relocate(mv, piece, captured);
        self.do_ep(mv, piece, captured);
        self.do_castle(mv);
        self.do_promo(mv);

        self.do_rights(mv, ksq_us, ksq_them);
        self.flip();
    }

    /// The position after `mv`.
    pub fn after_move<const UPDATE_HASH: bool>(&self, mv: &Mv) -> (r: Self)
        requires
            self.wf(),
            self.move_ok(*mv),
            self.halfmoves < i32::MAX,
        ensures
            r == self.spec_makemove(*mv, UPDATE_HASH),
    {
        let mut npos = *self;
        npos.makemove::<UPDATE_HASH>(mv);
        npos
    }
}

} // verus!

verus! {

/// Playing a move hands the turn to the other side, resets the halfmove counter after a capture
/// or a pawn move and counts it up otherwise, and leaves an en passant square exactly after a
/// pawn's double step: the square it passed over, seen from the side that moves next.
pub proof fn lemma_makemove_counters(pos: Position, mv: Mv, update_hash: bool)
    requires
        pos.halfmoves < i32::MAX,
        pos.piece_on(mv.from.0 as int) is Some,
    ensures
        ({
            let n = pos.spec_makemove(mv, update_hash);
            let pawn = pos.piece_on(mv.from.0 as int) == Some(Piece::Pawn);
            &&& n.turn == pos.turn.spec_other()
            &&& n.halfmoves == (if pos.colours[1].has(mv.to.0 as int) || pawn {
                0
            } else {
                pos.halfmoves + 1
            })
            &&& n.ep == (if pawn && mv.to.0 - mv.from.0 == 16 {
                Some(Square((mv.to.0 - 8) as u8).spec_flip())
            } else {
                None
            })
        }),
{
    reveal(Position::play_relocate);
    reveal(Position::play_ep);
    reveal(Position::play_castle);
    reveal(Position::play_promo);
    reveal(Position::play_rights);
}

} // verus!

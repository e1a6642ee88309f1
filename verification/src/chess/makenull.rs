use crate::chess::mv::Mv;
use crate::chess::piece::Piece;
use crate::chess::position::{lemma_position_flip_involution, Position};
use crate::chess::zobrist::{ep_key, lemma_xor_laws, turn_key, KEYS_EP, KEYS_TURN};
use vstd::prelude::*;

verus! {

impl Position {
    /// The position after passing the turn: the hash loses the turn key and the key of the en
    /// passant file, the board is seen from the other side, the halfmove counter is reset and
    /// the en passant square cleared.
    pub open spec fn spec_makenull(self) -> Position {
        let h1 = self.hash ^ KEYS_TURN;
        let h2 = match self.ep {
            Some(sq) => h1 ^ KEYS_EP[(sq.0 % 8) as int],
            None => h1,
        };
        Position { hash: h2, ..self }.spec_flip().with_null_reset()
    }

    pub open spec fn with_null_reset(self) -> Position {
        Position { halfmoves: 0, ep: None, ..self }
    }

    /// Passes the turn to the other side.
    pub fn makenull(&mut self)
        requires
            old(self).ep matches Some(e) ==> e.valid(),
        ensures
            *final(self) == old(self).spec_makenull(),
    {
        self.hash = self.hash ^ turn_key();
        if let Some(sq) = self.ep {
            self.hash = self.hash ^ ep_key(sq);
        }

        self.flip();
        self.halfmoves = 0;
        self.ep = None;
    }

    /// The position after passing the turn.
    pub fn after_null(&self) -> (r: Self)
        requires
            self.ep matches Some(e) ==> e.valid(),
        ensures
            r == self.spec_makenull(),
    {
        let mut npos = *self;
        npos.makenull();
        npos
    }
}

/// Passing the turn twice gives the position back, when there is no en passant square and the
/// halfmove counter is zero.
pub proof fn lemma_makenull_twice(pos: Position)
    requires
        pos.ep.is_none(),
        pos.halfmoves == 0,
    ensures
        pos.spec_makenull().spec_makenull() == pos,
{
    let p1 = pos.spec_makenull();
    lemma_xor_laws(pos.hash, KEYS_TURN, KEYS_TURN);
    lemma_xor_laws(pos.hash ^ KEYS_TURN, KEYS_TURN, 0);
    lemma_xor_laws(KEYS_TURN, KEYS_TURN, 0);
    lemma_position_flip_involution(pos);
    let q = Position { hash: pos.hash ^ KEYS_TURN, ..pos };
    lemma_position_flip_involution(q);
    assert(p1.spec_makenull() =~= pos);
}

/// Passing the turn forgets the en passant square and the halfmove counter: two positions that
/// differ only in them are the same after passing the turn, provided their hashes differ only by
/// the key of the en passant file.
pub proof fn lemma_makenull_forgets_ep(a: Position, b: Position)
    requires
        a.ep.is_some(),
        a.ep.unwrap().valid(),
        b.ep.is_none(),
        b.hash == a.hash ^ KEYS_EP[(a.ep.unwrap().0 % 8) as int],
        (Position { ep: None, halfmoves: 0, hash: 0, ..a }) == (Position { ep: None, halfmoves: 0, hash: 0, ..b }),
    ensures
        a.spec_makenull() == b.spec_makenull(),
{
    let k = KEYS_EP[(a.ep.unwrap().0 % 8) as int];
    lemma_xor_laws(a.hash, KEYS_TURN, k);
    lemma_xor_laws(a.hash, k, KEYS_TURN);
    lemma_xor_laws(k, KEYS_TURN, 0);
    assert(a.hash ^ KEYS_TURN ^ k == b.hash ^ KEYS_TURN);
    assert(a.spec_makenull() =~= b.spec_makenull());
}

} // verus!

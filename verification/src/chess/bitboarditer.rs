use crate::chess::bitboard::{bit, lemma_bit_ops, Bitboard};
use crate::chess::square::Square;
use vstd::prelude::*;
use vstd::std_specs::bits::{axiom_u64_trailing_zeros, u64_trailing_zeros};

verus! {

/// Every square of `a` is a square of `b`.
pub open spec fn subset(a: u64, b: u64) -> bool {
    forall|s: u64| s < 64 && #[trigger] bit(a, s) ==> bit(b, s)
}

/// Clearing the lowest bit of `x`, with `x & (x - 1)`, removes exactly square `t`.
pub proof fn lemma_clear_lowest(x: u64, t: u64, s: u64)
    by (bit_vector)
    requires
        x != 0,
        t < 64,
        s < 64,
        (x >> t) & 1u64 == 1u64,
        x << ((64 - t) as u64) == 0,
    ensures
        ((x & ((x - 1) as u64)) >> s) & 1u64 == 1u64 <==> ((x >> s) & 1u64 == 1u64 && s != t),
        (x & ((x - 1) as u64)) < x,
{
}

/// Walks through the squares of a set from the lowest up.
#[derive(Debug, Copy, Clone)]
pub struct BitboardIter(u64);

impl BitboardIter {
    /// The squares not yet handed out.
    pub closed spec fn remaining(&self) -> u64 {
        self.0
    }

    /// Starts a walk through the squares of `bb`.
    pub fn new(bb: Bitboard) -> (r: Self)
        ensures
            r.remaining() == bb.0,
    {
        BitboardIter(bb.0)
    }

    /// No square is left.
    pub fn is_empty(&self) -> (r: bool)
        ensures
            r == (self.remaining() == 0),
    {
        self.0 == 0
    }

    /// Hands out the lowest remaining square, or `None` when none is left.
    pub fn next(&mut self) -> (r: Option<Square>)
        ensures
            old(self).remaining() == 0 ==> r.is_none() && final(self).remaining() == 0,
            old(self).remaining() != 0 ==> {
                &&& r matches Some(sq)
                &&& sq.valid()
                &&& sq.0 == u64_trailing_zeros(old(self).remaining())
                &&& bit(old(self).remaining(), sq.0 as u64)
                &&& final(self).remaining() < old(self).remaining()
                &&& forall|s: u64| s < 64 ==> (#[trigger] bit(final(self).remaining(), s) <==> (bit(
                    old(self).remaining(),
                    s,
                ) && s != sq.0))
            },
    {
        if self.0 == 0 {
            None
        } else {
            let x = self.0;
            let index = x.trailing_zeros() as u8;
            proof {
                axiom_u64_trailing_zeros(x);
                assert forall|s: u64| s < 64 implies #[trigger] bit(x & ((x - 1) as u64), s) <==> (bit(x, s)
                    && s != index) by {
                    lemma_clear_lowest(x, index as u64, s);
                }
                lemma_clear_lowest(x, index as u64, 0);
            }
            self.0 = x & (x - 1);
            Some(Square(index))
        }
    }
}

impl Bitboard {
    /// A walk through the squares of the set, from the lowest up.
    pub fn iter(self) -> (r: BitboardIter)
        ensures
            r.remaining() == self.0,
    {
        BitboardIter::new(self)
    }
}

} // verus!

use crate::chess::mv::Mv;
use crate::chess::position::Position;
use vstd::prelude::*;

verus! {

/// `a + b`, or `u64::MAX` when the sum does not fit.
pub open spec fn sat_add(a: u64, b: u64) -> u64 {
    if a + b > u64::MAX {
        u64::MAX
    } else {
        (a + b) as u64
    }
}

impl Position {
    /// The number of paths of `depth` legal moves: 1 at depth 0, the number of legal moves at
    /// depth 1, and deeper down the sum over the legal moves of the count from the position
    /// after each (a position that is not well formed, or whose halfmove counter is at its
    /// limit, counts nothing). The sum stops growing at `u64::MAX`.
    pub open spec fn spec_perft(self, depth: nat) -> u64
        decreases depth, 0nat,
    {
        if depth == 0 {
            1
        } else if depth == 1 {
            self.spec_legal_moves().len() as u64
        } else {
            self.perft_sum(self.spec_legal_moves(), (depth - 1) as nat)
        }
    }

    /// The counts at `depth` from the positions after each move of `ms`, summed.
    pub open spec fn perft_sum(self, ms: Seq<Mv>, depth: nat) -> u64
        decreases depth, ms.len(),
    {
        if ms.len() == 0 {
            0
        } else {
            let n = self.spec_makemove(ms.last(), false);
            let child = if n.wf() && n.halfmoves < i32::MAX {
                n.spec_perft(depth)
            } else {
                0
            };
            sat_add(self.perft_sum(ms.drop_last(), depth), child)
        }
    }

    /// The number of paths of `depth` legal moves from the position.
    pub fn perft(&self, depth: u8) -> (r: u64)
        requires
            self.wf(),
            self.halfmoves < i32::MAX,
        ensures
            r == self.spec_perft(depth as nat),
        decreases depth,
    {
        if depth == 0 {
            return 1;
        } else if depth == 1 {
            return self.count_moves() as u64;
        }
        let mut nodes: u64 = 0;
        let moves = self.legal_moves();
        let mut i: usize = 0;
        while i < moves.len()
            invariant
                self.wf(),
                self.halfmoves < i32::MAX,
                depth >= 2,
                i <= moves.len(),
                moves@ == self.spec_legal_moves(),
                forall|k: int| 0 <= k < moves@.len() ==> self.move_ok(#[trigger] moves@[k]),
                nodes == self.perft_sum(moves@.take(i as int), (depth - 1) as nat),
            decreases moves.len() - i,
        {
            let npos = self.after_move::<false>(&moves[i]);
            let mut child: u64 = 0;
            if npos.is_wf() && npos.halfmoves < i32::MAX {
                child = npos.perft(depth - 1);
            }
            proof {
                assert(moves@.take(i + 1).drop_last() =~= moves@.take(i as int));
                assert(moves@.take(i + 1).last() == moves@[i as int]);
            }
            nodes = nodes.saturating_add(child);
            i = i + 1;
        }
        proof {
            assert(moves@.take(moves.len() as int) =~= moves@);
        }
        nodes
    }
}

} // verus!

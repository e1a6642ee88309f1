use crate::chess::mv::Mv;
use crate::chess::position::Position;
use crate::search::eval::spec_eval;
use crate::search::qsearch::{q_loop, q_moves, spec_qsearch, MAX_PLY};
use vstd::prelude::*;

verus! {

/// The quiescence value of a position without a search window: the larger of its evaluation
/// (standing pat) and, over its captures, the negated quiescence value of the position after the
/// capture, one ply deeper; only the evaluation at the deepest ply. A capture after which the
/// position is not well formed, or its halfmove counter at its limit, counts for nothing.
pub open spec fn quiet_value(pos: Position, ply: int) -> int
    decreases MAX_PLY - ply + 1, 0int,
{
    let stand = spec_eval(pos);
    if ply >= MAX_PLY {
        stand
    } else {
        quiet_best(pos, q_moves(pos), 0, stand, ply)
    }
}

/// The larger of `best` and the negated quiescence values after the captures of `ms` from the
/// `i`-th on.
pub open spec fn quiet_best(pos: Position, ms: Seq<Mv>, i: int, best: int, ply: int) -> int
    decreases MAX_PLY - ply, ms.len() - i,
{
    if i < 0 || i >= ms.len() || ply >= MAX_PLY {
        best
    } else {
        let n = pos.spec_makemove(ms[i], false);
        if !(n.wf() && n.halfmoves != i32::MAX) {
            quiet_best(pos, ms, i + 1, best, ply)
        } else {
            let s = -quiet_value(n, ply + 1);
            quiet_best(pos, ms, i + 1, if s > best { s } else { best }, ply)
        }
    }
}

/// The larger of `x` and the best from a start of `b` is the best from a start of the larger of
/// `b` and `x`; the best never falls below its start.
proof fn lemma_quiet_best_start(pos: Position, ms: Seq<Mv>, i: int, b: int, x: int, ply: int)
    ensures
        quiet_best(pos, ms, i, if x > b { x } else { b }, ply) == (if x > quiet_best(pos, ms, i, b, ply) {
            x
        } else {
            quiet_best(pos, ms, i, b, ply)
        }),
        quiet_best(pos, ms, i, b, ply) >= b,
    decreases ms.len() - i,
{
    if !(i < 0 || i >= ms.len() || ply >= MAX_PLY) {
        let n = pos.spec_makemove(ms[i], false);
        if !(n.wf() && n.halfmoves != i32::MAX) {
            lemma_quiet_best_start(pos, ms, i + 1, b, x, ply);
        } else {
            let s = -quiet_value(n, ply + 1);
            let bs = if s > b { s } else { b };
            lemma_quiet_best_start(pos, ms, i + 1, bs, x, ply);
            lemma_quiet_best_start(pos, ms, i + 1, if x > b { x } else { b }, s, ply);
            lemma_quiet_best_start(pos, ms, i + 1, b, s, ply);
        }
    }
}

/// The quiescence search is alpha-beta over the quiescence value, failing soft: a score at or
/// above `beta` is a lower bound of the value, a score below `beta` an upper bound, and a score
/// strictly inside the window is the value itself. So a capture that the other side answers with
/// a winning recapture never raises the score above standing pat.
pub proof fn lemma_qsearch_value(pos: Position, alpha: int, beta: int, ply: int)
    requires
        alpha < beta,
    ensures
        ({
            let v = spec_qsearch(pos, alpha, beta, ply);
            let m = quiet_value(pos, ply);
            &&& v >= beta ==> m >= v
            &&& v < beta ==> m <= v
            &&& alpha < v < beta ==> m == v
        }),
    decreases MAX_PLY - ply + 1, 0int,
{
    let stand = spec_eval(pos);
    if stand >= beta {
        if ply < MAX_PLY {
            lemma_quiet_best_start(pos, q_moves(pos), 0, stand, stand, ply);
        }
    } else if ply < MAX_PLY {
        let a = if stand > alpha { stand } else { alpha };
        lemma_q_loop_value(pos, q_moves(pos), 0, a, beta, stand, ply);
    }
}

/// The same for the capture loop: with best score `best` at most the current `alpha` below
/// `beta`, the loop's score `w` is at least `best`; at or above `beta` it is a lower bound of the
/// best value from the remaining captures, below `beta` an upper bound, and above `alpha` and
/// below `beta` that value itself.
proof fn lemma_q_loop_value(pos: Position, ms: Seq<Mv>, i: int, alpha: int, beta: int, best: int, ply: int)
    requires
        best <= alpha < beta,
        0 <= i,
    ensures
        ({
            let w = q_loop(pos, ms, i, alpha, beta, best, ply);
            let m = quiet_best(pos, ms, i, best, ply);
            &&& w >= best
            &&& m >= best
            &&& w >= beta ==> m >= w
            &&& w < beta ==> m <= w
            &&& alpha < w < beta ==> m >= w
        }),
    decreases MAX_PLY - ply, ms.len() - i,
{
    if !(i >= ms.len() || ply >= MAX_PLY) {
        let n = pos.spec_makemove(ms[i], false);
        if !(n.wf() && n.halfmoves != i32::MAX) {
            lemma_q_loop_value(pos, ms, i + 1, alpha, beta, best, ply);
        } else {
            lemma_qsearch_value(n, -beta, -alpha, ply + 1);
            let score = -spec_qsearch(n, -beta, -alpha, ply + 1);
            let sm = -quiet_value(n, ply + 1);
            let best2 = if score > best { score } else { best };
            let alpha2 = if score > alpha { score } else { alpha };
            lemma_quiet_best_start(pos, ms, i + 1, best, sm, ply);
            lemma_quiet_best_start(pos, ms, i + 1, best, score, ply);
            if alpha2 < beta {
                lemma_q_loop_value(pos, ms, i + 1, alpha2, beta, best2, ply);
            }
        }
    }
}

} // verus!

use crate::chess::position::Position;
use crate::search::eval::{eval, spec_eval, EVAL_BOUND};
use crate::chess::mv::Mv;
use crate::search::negamax::{movable, sel_sort, sort, INF};
use crate::search::stats::Stats;
use vstd::prelude::*;

verus! {

/// The deepest ply a search goes to; a position that deep is only evaluated.
pub const MAX_PLY: i32 = 1024;

/// The larger of two plies.
pub open spec fn max_ply(a: i32, b: i32) -> i32 {
    if a > b {
        a
    } else {
        b
    }
}

/// The captures the quiescence search tries, best looking first.
pub open spec fn q_moves(pos: Position) -> Seq<Mv> {
    sel_sort(pos, pos.spec_legal_moves().filter(|m: Mv| pos.spec_is_capture(m)), 0)
}

/// The quiescence score: the evaluation when it reaches `beta` or the deepest ply, else the
/// best of the evaluation and the negated scores after the captures, tried in order until one
/// reaches `beta` (alpha-beta, fail-soft). A capture after which the position is not well formed,
/// or its halfmove counter at its limit, is passed over.
pub open spec fn spec_qsearch(pos: Position, alpha: int, beta: int, ply: int) -> int
    decreases MAX_PLY - ply + 1, 0int,
{
    let stand = spec_eval(pos);
    if stand >= beta {
        stand
    } else if ply >= MAX_PLY {
        stand
    } else {
        q_loop(pos, q_moves(pos), 0, if stand > alpha { stand } else { alpha }, beta, stand, ply)
    }
}

/// The rest of the quiescence search from the `i`-th capture on, with window `alpha..beta` and
/// best score `best` so far.
pub open spec fn q_loop(pos: Position, ms: Seq<Mv>, i: int, alpha: int, beta: int, best: int, ply: int) -> int
    decreases MAX_PLY - ply, ms.len() - i,
{
    if i < 0 || i >= ms.len() || ply >= MAX_PLY {
        best
    } else {
        let n = pos.spec_makemove(ms[i], false);
        if !(n.wf() && n.halfmoves != i32::MAX) {
            q_loop(pos, ms, i + 1, alpha, beta, best, ply)
        } else {
            let score = -spec_qsearch(n, -beta, -alpha, ply + 1);
            let best2 = if score > best { score } else { best };
            let alpha2 = if score > alpha { score } else { alpha };
            if alpha2 >= beta {
                best2
            } else {
                q_loop(pos, ms, i + 1, alpha2, beta, best2, ply)
            }
        }
    }
}

/// A quiescence search: the score of the position for the side to move, searching captures only
/// until the position is quiet, within the window `alpha..beta`; the side to move may always stand
/// pat on the evaluation.
#[verifier::rlimit(40)]
#[verifier::loop_isolation(false)]
pub fn qsearch(pos: &Position, stats: &mut Stats, alpha: i32, beta: i32, ply: i32) -> (r: i32)
    requires
        pos.wf(),
        pos.halfmoves < i32::MAX,
        -INF <= alpha < beta <= INF,
        0 <= ply <= MAX_PLY,
    ensures
        -EVAL_BOUND <= r <= EVAL_BOUND,
        r == spec_qsearch(*pos, alpha as int, beta as int, ply as int),
        spec_eval(*pos) >= beta ==> r == spec_eval(*pos) && final(stats).nodes == old(stats).nodes,
        r >= spec_eval(*pos),
        final(stats).seldepth >= max_ply(old(stats).seldepth, ply),
        final(stats).depth == old(stats).depth,
        final(stats).best_move == old(stats).best_move,
    decreases MAX_PLY - ply,
{
    let ghost old_alpha = alpha;
    let mut alpha = alpha;
    let stand_pat = eval(pos);
    if ply > stats.seldepth {
        stats.seldepth = ply;
    }
    if stand_pat >= beta {
        assert(spec_qsearch(*pos, old_alpha as int, beta as int, ply as int) == stand_pat);
        return stand_pat;
    }
    if stand_pat > alpha {
        alpha = stand_pat;
    }
    let mut best_score = stand_pat;
    if ply >= MAX_PLY {
        assert(spec_qsearch(*pos, old_alpha as int, beta as int, ply as int) == stand_pat);
        return best_score;
    }
    let mut moves = pos.legal_captures();
    assert(movable(*pos, moves@)) by {
        assert forall|k: int| 0 <= k < moves@.len() implies {
            &&& (#[trigger] moves@[k]).from.valid()
            &&& moves@[k].to.valid()
            &&& pos.piece_on(moves@[k].from.0 as int) is Some
        } by {
            assert(pos.move_ok(moves@[k]));
        }
    }
    let ghost found = moves@;
    sort(pos, &mut moves);
    let ghost sorted = moves@;
    assert(sorted == q_moves(*pos));
    let ghost target = q_loop(*pos, sorted, 0, alpha as int, beta as int, best_score as int, ply as int);
    assert(target == spec_qsearch(*pos, old_alpha as int, beta as int, ply as int));
    assert forall|k: int| 0 <= k < moves@.len() implies pos.move_ok(#[trigger] moves@[k]) by {
        assert(found.contains(moves@[k]));
        let j = choose|j: int| 0 <= j < found.len() && found[j] == moves@[k];
        assert(pos.move_ok(found[j]));
    }
    let mut i: usize = 0;
    while i < moves.len()
        invariant
            pos.wf(),
            pos.halfmoves < i32::MAX,
            0 <= ply < MAX_PLY,
            -INF <= alpha < beta <= INF,
            -EVAL_BOUND <= best_score <= EVAL_BOUND,
            best_score >= stand_pat,
            stand_pat == spec_eval(*pos),
            stand_pat < beta,
            moves@ == sorted,
            forall|k: int| 0 <= k < moves@.len() ==> pos.move_ok(#[trigger] moves@[k]),
            stats.seldepth >= max_ply(old(stats).seldepth, ply),
            stats.depth == old(stats).depth,
            stats.best_move == old(stats).best_move,
            i <= moves.len(),
            q_loop(*pos, sorted, i as int, alpha as int, beta as int, best_score as int, ply as int) == target,
            target == spec_qsearch(*pos, old_alpha as int, beta as int, ply as int),
        decreases moves.len() - i,
    {
        let mv = moves[i];
        let ghost k = i as int;
        let ghost old_a = alpha;
        let ghost old_best = best_score;
        assert(q_loop(*pos, sorted, k, old_a as int, beta as int, old_best as int, ply as int) == target);
        i = i + 1;
        stats.nodes = stats.nodes.saturating_add(1);
        let npos = pos.after_move::<false>(&mv);
        if !npos.is_wf() || npos.halfmoves == i32::MAX {
            continue;
        }
        let score = -qsearch(&npos, stats, -beta, -alpha, ply + 1);
        if score > best_score {
            best_score = score;
        }
        if score > alpha {
            alpha = score;
        }
        if alpha >= beta {
            assert(q_loop(*pos, sorted, k, old_a as int, beta as int, old_best as int, ply as int) == best_score);
            assert(target == best_score);
            assert(spec_qsearch(*pos, old_alpha as int, beta as int, ply as int) == best_score);
            return best_score;
        }
    }
    assert(q_loop(*pos, sorted, i as int, alpha as int, beta as int, best_score as int, ply as int) == best_score);
    best_score
}

} // verus!

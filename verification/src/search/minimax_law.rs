use crate::chess::mv::Mv;
use crate::chess::position::Position;
use crate::search::negamax::{n_loop, repetitions, sel_sort, spec_negamax, DRAW_SCORE, INF, MATE_SCORE};
use crate::search::qsearch::{spec_qsearch, MAX_PLY};
use crate::search::quiet_law::{lemma_qsearch_value, quiet_value};
use vstd::prelude::*;

verus! {

/// The position after `mv`, as the search plays it, can be searched: it is well formed and its
/// halfmove counter is below its limit.
pub open spec fn searchable(pos: Position, mv: Mv) -> bool {
    let n = pos.spec_makemove(mv, true);
    n.wf() && n.halfmoves != i32::MAX
}

/// Some move of `ms` from the `i`-th on leads to a position that can be searched.
pub open spec fn any_searchable(pos: Position, ms: Seq<Mv>, i: int) -> bool
    decreases ms.len() - i,
{
    if i < 0 || i >= ms.len() {
        false
    } else {
        searchable(pos, ms[i]) || any_searchable(pos, ms, i + 1)
    }
}

/// The game value of `pos` searched `depth` plies deep without a window (plain negamax): one ply
/// more when in check; the quiescence value once the depth is used up or at the deepest ply; a
/// draw after 100 halfmoves or on a repetition (three occurrences at the root, two deeper); mate
/// (scored by its distance from the root) or stalemate when no move can be searched; else the
/// largest negated value of the positions after the moves.
pub open spec fn minimax_value(pos: Position, hist: Seq<u64>, ply: int, depth: int) -> int
    decreases MAX_PLY - ply, 1int, 0int,
{
    let in_check = pos.spec_in_check();
    let d = if in_check { depth + 1 } else { depth };
    if d <= 0 || ply >= MAX_PLY {
        quiet_value(pos, ply)
    } else if pos.halfmoves >= 100 || repetitions(hist, pos.hash, pos.halfmoves, hist.len()) >= (if ply
        == 0 { 3nat } else { 2nat }) {
        DRAW_SCORE as int
    } else {
        let ms = sel_sort(pos, pos.spec_legal_moves(), 0);
        if any_searchable(pos, ms, 0) {
            minimax_best(pos, hist, ms, 0, ply, d, -INF as int)
        } else if in_check {
            -MATE_SCORE + ply
        } else {
            DRAW_SCORE as int
        }
    }
}

/// The larger of `best` and the negated values of the positions after the moves of `ms` from the
/// `i`-th on.
pub open spec fn minimax_best(pos: Position, hist: Seq<u64>, ms: Seq<Mv>, i: int, ply: int, depth: int, best: int) -> int
    decreases MAX_PLY - ply, 0int, ms.len() - i,
{
    if i < 0 || i >= ms.len() || ply >= MAX_PLY {
        best
    } else if !searchable(pos, ms[i]) {
        minimax_best(pos, hist, ms, i + 1, ply, depth, best)
    } else {
        let n = pos.spec_makemove(ms[i], true);
        let s = -minimax_value(n, hist.push(n.hash), ply + 1, depth - 1);
        minimax_best(pos, hist, ms, i + 1, ply, depth, if s > best { s } else { best })
    }
}

/// Every position the search reaches below `pos` has a value below `INF`, so that each move
/// searched scores above `-INF`.
pub open spec fn values_bounded(pos: Position, hist: Seq<u64>, ply: int, depth: int) -> bool
    decreases MAX_PLY - ply, 1int, 0int,
{
    let in_check = pos.spec_in_check();
    let d = if in_check { depth + 1 } else { depth };
    if d <= 0 || ply >= MAX_PLY {
        true
    } else if pos.halfmoves >= 100 || repetitions(hist, pos.hash, pos.halfmoves, hist.len()) >= (if ply
        == 0 { 3nat } else { 2nat }) {
        true
    } else {
        bounded_from(pos, hist, sel_sort(pos, pos.spec_legal_moves(), 0), 0, ply, d)
    }
}

/// The positions after the moves of `ms` from the `i`-th on have values below `INF`, and so do
/// the positions below them.
pub open spec fn bounded_from(pos: Position, hist: Seq<u64>, ms: Seq<Mv>, i: int, ply: int, depth: int) -> bool
    decreases MAX_PLY - ply, 0int, ms.len() - i,
{
    if i < 0 || i >= ms.len() || ply >= MAX_PLY {
        true
    } else if !searchable(pos, ms[i]) {
        bounded_from(pos, hist, ms, i + 1, ply, depth)
    } else {
        let n = pos.spec_makemove(ms[i], true);
        &&& minimax_value(n, hist.push(n.hash), ply + 1, depth - 1) < INF
        &&& values_bounded(n, hist.push(n.hash), ply + 1, depth - 1)
        &&& bounded_from(pos, hist, ms, i + 1, ply, depth)
    }
}

/// The best from a start of the larger of `b` and `x` is the larger of `x` and the best from a
/// start of `b`; the best never falls below its start.
proof fn lemma_minimax_best_start(pos: Position, hist: Seq<u64>, ms: Seq<Mv>, i: int, ply: int, depth: int, b: int, x: int)
    ensures
        minimax_best(pos, hist, ms, i, ply, depth, if x > b { x } else { b }) == (if x > minimax_best(
            pos,
            hist,
            ms,
            i,
            ply,
            depth,
            b,
        ) {
            x
        } else {
            minimax_best(pos, hist, ms, i, ply, depth, b)
        }),
        minimax_best(pos, hist, ms, i, ply, depth, b) >= b,
    decreases ms.len() - i,
{
    if !(i < 0 || i >= ms.len() || ply >= MAX_PLY) {
        if !searchable(pos, ms[i]) {
            lemma_minimax_best_start(pos, hist, ms, i + 1, ply, depth, b, x);
        } else {
            let n = pos.spec_makemove(ms[i], true);
            let s = -minimax_value(n, hist.push(n.hash), ply + 1, depth - 1);
            let bs = if s > b { s } else { b };
            lemma_minimax_best_start(pos, hist, ms, i + 1, ply, depth, bs, x);
            lemma_minimax_best_start(pos, hist, ms, i + 1, ply, depth, if x > b { x } else { b }, s);
            lemma_minimax_best_start(pos, hist, ms, i + 1, ply, depth, b, s);
        }
    }
}

/// The alpha-beta search is negamax over `minimax_value`, failing soft, whenever every position
/// it reaches has a value below `INF`: a score at or above `beta` is a lower bound of the value,
/// a score below `beta` an upper bound, and a score strictly inside the window the value itself.
#[verifier::spinoff_prover]
#[verifier::rlimit(60)]
pub proof fn lemma_negamax_value(pos: Position, hist: Seq<u64>, alpha: int, beta: int, ply: int, depth: int, bm: Option<Mv>)
    requires
        -INF <= alpha < beta <= INF,
        0 <= ply,
        values_bounded(pos, hist, ply, depth),
    ensures
        ({
            let v = spec_negamax(pos, hist, alpha, beta, ply, depth, bm).0;
            let m = minimax_value(pos, hist, ply, depth);
            &&& v >= beta ==> m >= v
            &&& v < beta ==> m <= v
            &&& alpha < v < beta ==> m == v
        }),
    decreases MAX_PLY - ply, 1int, 0int,
{
    let in_check = pos.spec_in_check();
    let d = if in_check { depth + 1 } else { depth };
    if d <= 0 || ply >= MAX_PLY {
        lemma_qsearch_value(pos, alpha, beta, ply);
    } else if pos.halfmoves >= 100 || repetitions(hist, pos.hash, pos.halfmoves, hist.len()) >= (if ply
        == 0 { 3nat } else { 2nat }) {
    } else {
        let ms = sel_sort(pos, pos.spec_legal_moves(), 0);
        lemma_n_loop_value(pos, hist, ms, 0, alpha, beta, ply, d, -INF as int, None, bm, in_check);
    }
}

/// The same for the move loop, from the `i`-th move on, with the current `alpha`, best score
/// `best` and best move so far: `-INF` and none before any move is searched.
#[verifier::spinoff_prover]
#[verifier::rlimit(60)]
proof fn lemma_n_loop_value(
    pos: Position,
    hist: Seq<u64>,
    ms: Seq<Mv>,
    i: int,
    alpha: int,
    beta: int,
    ply: int,
    depth: int,
    best: int,
    best_move: Option<Mv>,
    bm: Option<Mv>,
    in_check: bool,
)
    requires
        -INF <= alpha < beta <= INF,
        best <= alpha,
        best_move is None ==> best == -INF,
        best_move is Some ==> best > -INF,
        0 <= i,
        0 <= ply < MAX_PLY,
        bounded_from(pos, hist, ms, i, ply, depth),
    ensures
        ({
            let w = n_loop(pos, hist, ms, i, alpha, beta, ply, depth, best, best_move, bm, in_check).0;
            let found = best_move is Some || any_searchable(pos, ms, i);
            let m = if found {
                minimax_best(pos, hist, ms, i, ply, depth, best)
            } else if in_check {
                -MATE_SCORE + ply
            } else {
                DRAW_SCORE as int
            };
            &&& w >= beta ==> m >= w
            &&& w < beta ==> m <= w
            &&& alpha < w < beta ==> m >= w
        }),
    decreases MAX_PLY - ply, 0int, ms.len() - i,
{
    if !(i >= ms.len() || ply >= MAX_PLY) {
        if !searchable(pos, ms[i]) {
            lemma_n_loop_value(pos, hist, ms, i + 1, alpha, beta, ply, depth, best, best_move, bm, in_check);
        } else {
            let n = pos.spec_makemove(ms[i], true);
            let h = hist.push(n.hash);
            lemma_negamax_value(n, h, -beta, -alpha, ply + 1, depth - 1, bm);
            let child = spec_negamax(n, h, -beta, -alpha, ply + 1, depth - 1, bm);
            let score = -child.0;
            let sm = -minimax_value(n, h, ply + 1, depth - 1);
            let best2 = if score > best { score } else { best };
            let best_move2 = if score > best { Some(ms[i]) } else { best_move };
            let alpha2 = if score > alpha { score } else { alpha };
            lemma_minimax_best_start(pos, hist, ms, i + 1, ply, depth, best, sm);
            lemma_minimax_best_start(pos, hist, ms, i + 1, ply, depth, best, score);
            if alpha2 < beta {
                lemma_n_loop_value(pos, hist, ms, i + 1, alpha2, beta, ply, depth, best2, best_move2, child.1, in_check);
            }
        }
    }
}

} // verus!

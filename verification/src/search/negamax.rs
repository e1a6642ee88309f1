use crate::chess::mv::Mv;
use crate::chess::piece::Piece;
use crate::chess::position::Position;
use crate::search::eval::EVAL_BOUND;
use crate::search::hashtable::Hashtable;
use crate::search::qsearch::{max_ply, qsearch, spec_qsearch, MAX_PLY};
use crate::search::stats::Stats;
use crate::search::ttentry::TTEntry;
use vstd::prelude::*;

verus! {

/// A score no position reaches.
pub const INF: i32 = 10_000_000;

/// The score of being mated now; a mate `n` plies away scores `n` more.
pub const MATE_SCORE: i32 = 1_000_000;

/// The score of a draw for the side to move.
pub const DRAW_SCORE: i32 = -50;

/// The piece values the move ordering uses, pawn to king.
pub open spec fn order_value(p: Piece) -> int {
    match p {
        Piece::Pawn => 100,
        Piece::Knight => 300,
        Piece::Bishop => 325,
        Piece::Rook => 500,
        Piece::Queen => 900,
        _ => 0,
    }
}

/// How promising a move looks: ten times the value of the piece it takes less the value of the
/// piece that takes, and 0 for a move that takes nothing.
pub open spec fn order_score(pos: Position, mv: Mv) -> int {
    match pos.piece_on(mv.to.0 as int) {
        Some(captured) => 10 * order_value(captured) - order_value(
            pos.piece_on(mv.from.0 as int).unwrap(),
        ),
        None => 0,
    }
}

/// Every move of `moves` moves a piece of `pos` between squares of the board.
pub open spec fn movable(pos: Position, moves: Seq<Mv>) -> bool {
    forall|k: int|
        0 <= k < moves.len() ==> {
            &&& (#[trigger] moves[k]).from.valid()
            &&& moves[k].to.valid()
            &&& pos.piece_on(moves[k].from.0 as int) is Some
        }
}

fn value_of(p: Piece) -> (r: i32)
    ensures
        r == order_value(p),
{
    match p {
        Piece::Pawn => 100,
        Piece::Knight => 300,
        Piece::Bishop => 325,
        Piece::Rook => 500,
        Piece::Queen => 900,
        _ => 0,
    }
}

fn score_move(pos: &Position, mv: &Mv) -> (r: i32)
    requires
        mv.from.valid(),
        mv.to.valid(),
        pos.piece_on(mv.from.0 as int) is Some,
    ensures
        r == order_score(*pos, *mv),
{
    match pos.get_piece_on(mv.to) {
        Some(captured) => {
            let piece = match pos.get_piece_on(mv.from) {
                Some(p) => p,
                None => Piece::NoPiece,
            };
            10 * value_of(captured) - value_of(piece)
        },
        None => 0,
    }
}

fn swap_moves(v: &mut Vec<Mv>, i: usize, j: usize)
    requires
        i < old(v).len(),
        j < old(v).len(),
    ensures
        final(v)@ == old(v)@.update(i as int, old(v)@[j as int]).update(j as int, old(v)@[i as int]),
        final(v)@.to_multiset() == old(v)@.to_multiset(),
{
    broadcast use {vstd::seq_lib::to_multiset_update, vstd::multiset::group_multiset_axioms};

    let a = v[i];
    let b = v[j];
    v.set(i, b);
    v.set(j, a);
    proof {
        let s = old(v)@;
        let m = s.to_multiset();
        let s1 = s.update(i as int, b);
        assert(s1.to_multiset() == m.insert(b).remove(a));
        assert(s1[j as int] == b);
        let m1 = m.insert(b).remove(a);
        assert(s1.update(j as int, a).to_multiset() == m1.insert(a).remove(b));
        assert(m.count(a) > 0) by {
            broadcast use vstd::seq_lib::group_to_multiset_ensures;
            assert(s.contains(a));
        }
        assert(m1.insert(a).remove(b) =~= m);
    }
}

/// The first index from `j` on whose move scores higher than every earlier candidate, starting
/// from `best`: the index the selection step picks.
pub open spec fn first_best(pos: Position, s: Seq<Mv>, j: int, best: int) -> int
    decreases s.len() - j,
{
    if j >= s.len() {
        best
    } else if order_score(pos, s[j]) > order_score(pos, s[best]) {
        first_best(pos, s, j + 1, j)
    } else {
        first_best(pos, s, j + 1, best)
    }
}

/// `s` sorted from index `i` on by selection: each place in turn takes the first of the best
/// scoring moves left, swapping with the move that stood there.
pub open spec fn sel_sort(pos: Position, s: Seq<Mv>, i: int) -> Seq<Mv>
    decreases s.len() - i,
{
    if i < 0 || i + 1 >= s.len() {
        s
    } else {
        let b = first_best(pos, s, i + 1, i);
        if 0 <= b < s.len() {
            sel_sort(pos, s.update(i, s[b]).update(b, s[i]), i + 1)
        } else {
            s
        }
    }
}

/// Orders `moves` by `order_score`, highest first.
pub fn sort(pos: &Position, moves: &mut Vec<Mv>)
    requires
        movable(*pos, old(moves)@),
    ensures
        final(moves)@ == sel_sort(*pos, old(moves)@, 0),
        final(moves)@.to_multiset() == old(moves)@.to_multiset(),
        final(moves)@.len() == old(moves)@.len(),
        forall|k: int| 0 <= k < final(moves)@.len() ==> old(moves)@.contains(#[trigger] final(moves)@[k]),
        movable(*pos, final(moves)@),
        forall|i: int, j: int|
            0 <= i < j < final(moves)@.len() ==> order_score(*pos, #[trigger] final(moves)@[i])
                >= order_score(*pos, #[trigger] final(moves)@[j]),
{
    broadcast use vstd::seq_lib::group_to_multiset_ensures;

    if moves.len() < 2 {
        assert forall|k: int| 0 <= k < moves@.len() implies old(moves)@.contains(#[trigger] moves@[k]) by {
            assert(moves@[k] == old(moves)@[k]);
        }
        return;
    }
    let n = moves.len();
    let mut i: usize = 0;
    while i + 1 < n
        invariant
            n == moves.len() >= 2,
            i < n,
            sel_sort(*pos, old(moves)@, 0) == sel_sort(*pos, moves@, i as int),
            moves@.to_multiset() == old(moves)@.to_multiset(),
            movable(*pos, moves@),
            forall|a: int, b: int|
                0 <= a < b < n && a < i ==> order_score(*pos, #[trigger] moves@[a]) >= order_score(
                    *pos,
                    #[trigger] moves@[b],
                ),
        decreases n - i,
    {
        let mut best = i;
        let mut best_score = score_move(pos, &moves[i]);
        let mut j = i + 1;
        while j < n
            invariant
                n == moves.len(),
                i < j <= n,
                i <= best < j,
                movable(*pos, moves@),
                best_score == order_score(*pos, moves@[best as int]),
                forall|k: int| i <= k < j ==> order_score(*pos, #[trigger] moves@[k]) <= best_score,
                first_best(*pos, moves@, i + 1, i as int) == first_best(*pos, moves@, j as int, best as int),
            decreases n - j,
        {
            let s = score_move(pos, &moves[j]);
            if s > best_score {
                best = j;
                best_score = s;
            }
            j = j + 1;
        }
        let ghost before = moves@;
        assert(first_best(*pos, before, i + 1, i as int) == best);
        swap_moves(moves, i, best);
        assert(sel_sort(*pos, before, i as int) == sel_sort(*pos, moves@, i + 1));
        assert forall|a: int, b: int|
            0 <= a < b < n && a < i + 1 implies order_score(*pos, #[trigger] moves@[a]) >= order_score(
            *pos,
            #[trigger] moves@[b],
        ) by {
            if a < i {
                if b == best {
                    assert(order_score(*pos, before[a]) >= order_score(*pos, before[i as int]));
                } else if b == i {
                    assert(order_score(*pos, before[a]) >= order_score(*pos, before[best as int]));
                } else {
                    assert(order_score(*pos, before[a]) >= order_score(*pos, before[b]));
                }
            } else {
                if b == best {
                    assert(order_score(*pos, before[i as int]) <= best_score);
                } else {
                    assert(order_score(*pos, before[b]) <= best_score);
                }
            }
        }
        i = i + 1;
    }
    assert forall|k: int| 0 <= k < moves@.len() implies old(moves)@.contains(#[trigger] moves@[k]) by {
        assert(moves@.to_multiset().count(moves@[k]) > 0);
    }
}

/// How many of the positions among the last `halfmoves` of `history` (the most recent last),
/// taking every other one from the most recent, have the hash `hash`; a negative counter looks
/// through the whole history.
pub open spec fn repetitions(history: Seq<u64>, hash: u64, halfmoves: i32, n: nat) -> nat
    decreases n,
{
    if n == 0 {
        0
    } else {
        let k = (n - 1) as int;
        let len = history.len() as int;
        let limit = if halfmoves < 0 || halfmoves >= len {
            len
        } else {
            halfmoves as int
        };
        repetitions(history, hash, halfmoves, (n - 1) as nat) + if k < limit && k % 2 == 0
            && history[len - 1 - k] == hash {
            1nat
        } else {
            0nat
        }
    }
}

/// Counts the earlier occurrences of the position among the positions of the current run of
/// reversible moves, every other one from the most recent.
fn count_repetitions(history: &Vec<u64>, hash: u64, halfmoves: i32) -> (r: usize)
    ensures
        r == repetitions(history@, hash, halfmoves, history@.len()),
{
    let len = history.len();
    let limit = if halfmoves < 0 || halfmoves as usize >= len {
        len
    } else {
        halfmoves as usize
    };
    let mut count: usize = 0;
    let mut k: usize = 0;
    while k < len
        invariant
            k <= len == history@.len(),
            limit <= len,
            limit == (if halfmoves < 0 || halfmoves >= len { len as int } else { halfmoves as int }),
            count == repetitions(history@, hash, halfmoves, k as nat),
            count <= k,
        decreases len - k,
    {
        if k < limit && k % 2 == 0 && history[len - 1 - k] == hash {
            count = count + 1;
        }
        k = k + 1;
    }
    count
}

/// `should_stop` answers false whenever it is asked with the search depth `depth`.
pub open spec fn never_stops<F: Fn(&Stats) -> bool>(should_stop: &F, depth: i32) -> bool {
    forall|s: &Stats, b: bool| s.depth == depth && #[trigger] call_ensures(*should_stop, (s,), b) ==> !b
}

/// `should_stop` answers true whenever it is asked with the search depth `depth`.
pub open spec fn always_stops<F: Fn(&Stats) -> bool>(should_stop: &F, depth: i32) -> bool {
    forall|s: &Stats, b: bool| s.depth == depth && #[trigger] call_ensures(*should_stop, (s,), b) ==> b
}

/// The search score of `pos` and the best move left behind, when the search is not stopped:
/// one ply more when in check; the quiescence score once the depth is used up or at the deepest
/// ply; a draw after 100 halfmoves or a repetition (two earlier occurrences among the reversible
/// moves of `hist`, three at the root); else the alpha-beta search over the legal moves in
/// their sorted order. `bm` is the best move left by earlier searches.
pub open spec fn spec_negamax(
    pos: Position,
    hist: Seq<u64>,
    alpha: int,
    beta: int,
    ply: int,
    depth: int,
    bm: Option<Mv>,
) -> (int, Option<Mv>)
    decreases MAX_PLY - ply, 1int, 0int,
{
    let in_check = pos.spec_in_check();
    let d = if in_check { depth + 1 } else { depth };
    if d <= 0 || ply >= MAX_PLY {
        (spec_qsearch(pos, alpha, beta, ply), bm)
    } else if pos.halfmoves >= 100 || repetitions(hist, pos.hash, pos.halfmoves, hist.len()) >= (if ply
        == 0 { 3nat } else { 2nat }) {
        (DRAW_SCORE as int, bm)
    } else {
        n_loop(pos, hist, sel_sort(pos, pos.spec_legal_moves(), 0), 0, alpha, beta, ply, d, -INF, None, bm, in_check)
    }
}

/// The rest of the alpha-beta search from the `i`-th move on: window `alpha..beta`, best score
/// `best` and best move `best_move` of this node so far, `bm` the best move left behind by the
/// searches below.
pub open spec fn n_loop(
    pos: Position,
    hist: Seq<u64>,
    ms: Seq<Mv>,
    i: int,
    alpha: int,
    beta: int,
    ply: int,
    depth: int,
    best: int,
    best_move: Option<Mv>,
    bm: Option<Mv>,
    in_check: bool,
) -> (int, Option<Mv>)
    decreases MAX_PLY - ply, 0int, ms.len() - i,
{
    if i < 0 || i >= ms.len() || ply >= MAX_PLY {
        if best_move is None {
            (if in_check { -MATE_SCORE + ply } else { DRAW_SCORE as int }, bm)
        } else {
            (best, best_move)
        }
    } else {
        let n = pos.spec_makemove(ms[i], true);
        if !(n.wf() && n.halfmoves != i32::MAX) {
            n_loop(pos, hist, ms, i + 1, alpha, beta, ply, depth, best, best_move, bm, in_check)
        } else {
            let child = spec_negamax(n, hist.push(n.hash), -beta, -alpha, ply + 1, depth - 1, bm);
            let score = -child.0;
            let best2 = if score > best { score } else { best };
            let best_move2 = if score > best { Some(ms[i]) } else { best_move };
            let alpha2 = if score > alpha { score } else { alpha };
            if alpha2 >= beta {
                (best2, best_move2)
            } else {
                n_loop(pos, hist, ms, i + 1, alpha2, beta, ply, depth, best2, best_move2, child.1, in_check)
            }
        }
    }
}

/// An alpha-beta search of the position to `depth` plies (one more when in check), then a
/// quiescence search; the score for the side to move within the window `alpha..beta`. A position
/// that has been played twice before (three times at the root) or whose halfmove counter has
/// reached 100 is a draw; a position without moves is mated or stalemated. The best move found
/// at this node is left in `stats`. The search gives up, scoring 0, when `should_stop` says so.
#[verifier::loop_isolation(false)]
#[verifier::spinoff_prover]
#[verifier::rlimit(100)]
pub fn negamax<F: Fn(&Stats) -> bool>(
    pos: &Position,
    history: &mut Vec<u64>,
    tt: &mut Hashtable<TTEntry>,
    stats: &mut Stats,
    should_stop: &F,
    alpha: i32,
    beta: i32,
    ply: i32,
    depth: i32,
) -> (r: i32)
    requires
        pos.wf(),
        pos.halfmoves < i32::MAX,
        -INF <= alpha < beta <= INF,
        0 <= ply <= MAX_PLY,
        depth < i32::MAX,
        forall|s: &Stats| #[trigger] should_stop.requires((s,)),
    ensures
        final(history)@ == old(history)@,
        -EVAL_BOUND <= r <= EVAL_BOUND,
        final(stats).depth == old(stats).depth,
        final(stats).seldepth >= max_ply(old(stats).seldepth, ply),
        pos.spec_legal_moves().len() == 0 ==> final(stats).best_move == old(stats).best_move,
        never_stops(should_stop, old(stats).depth) ==> (r as int, final(stats).best_move) == spec_negamax(
            *pos,
            old(history)@,
            alpha as int,
            beta as int,
            ply as int,
            depth as int,
            old(stats).best_move,
        ),
        always_stops(should_stop, old(stats).depth) ==> final(stats).best_move == old(stats).best_move,
    decreases MAX_PLY - ply,
{
    let ghost hist0 = history@;
    let ghost alpha0 = alpha;
    let ghost bm0 = stats.best_move;
    let mut alpha = alpha;
    let mut depth = depth;
    if ply > stats.seldepth {
        stats.seldepth = ply;
    }
    let in_check = pos.in_check();
    let is_root = ply == 0;
    let ghost old_depth = depth;
    // Check extensions
    if in_check {
        depth = depth + 1;
    }
    if depth <= 0 || ply >= MAX_PLY {
        return qsearch(pos, stats, alpha, beta, ply);
    }
    if should_stop(&*stats) {
        return 0;
    }
    let mut best_move: Option<Mv> = None;
    let mut best_score = -INF;
    let is_50move = pos.halfmoves >= 100;
    let is_threefold = count_repetitions(history, pos.hash, pos.halfmoves) >= if is_root {
        3
    } else {
        2
    };
    if is_50move || is_threefold {
        return DRAW_SCORE;
    }
    let mut moves = pos.legal_moves();
    let ghost found = moves@;
    assert(movable(*pos, moves@)) by {
        assert forall|k: int| 0 <= k < moves@.len() implies {
            &&& (#[trigger] moves@[k]).from.valid()
            &&& moves@[k].to.valid()
            &&& pos.piece_on(moves@[k].from.0 as int) is Some
        } by {
            assert(pos.move_ok(moves@[k]));
        }
    }
    sort(pos, &mut moves);
    let ghost sorted = moves@;
    assert(sorted == sel_sort(*pos, pos.spec_legal_moves(), 0));
    assert forall|k: int| 0 <= k < moves@.len() implies pos.move_ok(#[trigger] moves@[k]) by {
        assert(found.contains(moves@[k]));
        let j = choose|j: int| 0 <= j < found.len() && found[j] == moves@[k];
        assert(pos.move_ok(found[j]));
    }
    let ghost target = n_loop(*pos, hist0, sorted, 0, alpha0 as int, beta as int, ply as int, depth as int, -INF as int, None, bm0, in_check);
    proof {
        if never_stops(should_stop, old(stats).depth) {
            assert(spec_negamax(*pos, hist0, alpha0 as int, beta as int, ply as int, old_depth as int, bm0) == target);
        }
    }
    let mut i: usize = 0;
    while i < moves.len()
        invariant
            pos.wf(),
            pos.halfmoves < i32::MAX,
            0 <= ply < MAX_PLY,
            -INF <= alpha < beta <= INF,
            -INF <= best_score <= EVAL_BOUND,
            best_move is Some ==> -EVAL_BOUND <= best_score,
            depth > 0,
            forall|k: int| 0 <= k < moves@.len() ==> pos.move_ok(#[trigger] moves@[k]),
            forall|s: &Stats| #[trigger] should_stop.requires((s,)),
            history@ == old(history)@,
            stats.depth == old(stats).depth,
            stats.seldepth >= max_ply(old(stats).seldepth, ply),
            moves@.len() == pos.spec_legal_moves().len(),
            i <= moves.len(),
            best_move is Some ==> i > 0,
            pos.spec_legal_moves().len() == 0 ==> stats.best_move == old(stats).best_move,
            moves@ == sorted,
            history@ == hist0,
            never_stops(should_stop, old(stats).depth) ==> n_loop(*pos, hist0, sorted, i as int, alpha as int, beta as int, ply as int, depth as int, best_score as int, best_move, stats.best_move, in_check) == target,
        decreases moves.len() - i,
    {
        let mv = moves[i];
        let ghost k = i as int;
        let ghost a_k = alpha;
        let ghost best_k = best_score;
        let ghost bmv_k = best_move;
        let ghost bm_k = stats.best_move;
        i = i + 1;
        stats.nodes = stats.nodes.saturating_add(1);
        let npos = pos.after_move::<true>(&mv);
        if !npos.is_wf() || npos.halfmoves == i32::MAX {
            continue;
        }
        history.push(npos.hash);
        let score = -negamax(&npos, history, tt, stats, should_stop, -beta, -alpha, ply + 1, depth - 1);
        history.pop();
        if score > best_score {
            best_score = score;
            best_move = Some(mv);
        }
        if score > alpha {
            alpha = score;
        }
        if alpha >= beta {
            stats.best_move = best_move;
            return best_score;
        }
    }
    assert(i == moves.len());
    if best_move.is_none() {
        if in_check {
            return -MATE_SCORE + ply;
        } else {
            return DRAW_SCORE;
        }
    }
    stats.best_move = best_move;
    best_score
}

} // verus!

verus! {

/// When the search has depth left and is not at its deepest ply, it is a draw exactly on the
/// halfmove count (100 or more) or on a repetition: the position occurring three times among the
/// reversible moves of the history at the root (counting itself), twice deeper down. Otherwise
/// the moves are searched, in sorted order, from an empty best score and best move.
pub proof fn lemma_search_or_draw(
    pos: Position,
    hist: Seq<u64>,
    alpha: int,
    beta: int,
    ply: int,
    depth: int,
    bm: Option<Mv>,
)
    requires
        0 <= ply < MAX_PLY,
        (if pos.spec_in_check() { depth + 1 } else { depth }) > 0,
    ensures
        ({
            let reps = repetitions(hist, pos.hash, pos.halfmoves, hist.len());
            let limit: nat = if ply == 0 { 3 } else { 2 };
            let d = if pos.spec_in_check() { depth + 1 } else { depth };
            &&& (pos.halfmoves >= 100 || reps >= limit) ==> spec_negamax(pos, hist, alpha, beta, ply, depth, bm)
                == (DRAW_SCORE as int, bm)
            &&& (pos.halfmoves < 100 && reps < limit) ==> spec_negamax(pos, hist, alpha, beta, ply, depth, bm)
                == n_loop(pos, hist, sel_sort(pos, pos.spec_legal_moves(), 0), 0, alpha, beta, ply, d, -INF as int, None, bm, pos.spec_in_check())
            &&& (pos.halfmoves < 100 && reps < limit && pos.spec_legal_moves().len() == 0) ==> spec_negamax(
                pos,
                hist,
                alpha,
                beta,
                ply,
                depth,
                bm,
            ) == (if pos.spec_in_check() { -MATE_SCORE + ply } else { DRAW_SCORE as int }, bm)
        }),
{
    assert(sel_sort(pos, pos.spec_legal_moves(), 0).len() == pos.spec_legal_moves().len()) by {
        lemma_sel_sort_len(pos, pos.spec_legal_moves(), 0);
    }
}

/// Sorting keeps the number of moves.
proof fn lemma_sel_sort_len(pos: Position, s: Seq<Mv>, i: int)
    ensures
        sel_sort(pos, s, i).len() == s.len(),
    decreases s.len() - i,
{
    if !(i < 0 || i + 1 >= s.len()) {
        let b = first_best(pos, s, i + 1, i);
        if 0 <= b < s.len() {
            lemma_sel_sort_len(pos, s.update(i, s[b]).update(b, s[i]), i + 1);
        }
    }
}

} // verus!

use crate::chess::bitboard::popcount;
use crate::chess::mv::Mv;
use crate::chess::position::Position;
use crate::search::stats::Stats;
use vstd::prelude::*;

verus! {

/// The material of the side `side` (0 for the side to move): pawns 100, knights 300, bishops
/// 320, rooks 500, queens 900.
pub open spec fn side_material(pos: Position, side: int) -> int {
    let c = pos.colours[side].0;
    (100 * popcount(pos.pc(0) & c) + 300 * popcount(pos.pc(1) & c) + 320 * popcount(pos.pc(2) & c)
        + 500 * popcount(pos.pc(3) & c) + 900 * popcount(pos.pc(4) & c)) as int
}

/// The material balance for the side to move.
pub open spec fn spec_material(pos: Position) -> int {
    side_material(pos, 0) - side_material(pos, 1)
}

fn material(pos: &Position) -> (r: i32)
    ensures
        r == spec_material(*pos),
{
    let mut score: i32 = 0;
    // Us
    score = score + 100 * (pos.get_pawns() & pos.get_us()).count();
    score = score + 300 * (pos.get_knights() & pos.get_us()).count();
    score = score + 320 * (pos.get_bishops() & pos.get_us()).count();
    score = score + 500 * (pos.get_rooks() & pos.get_us()).count();
    score = score + 900 * (pos.get_queens() & pos.get_us()).count();
    // Them
    score = score - 100 * (pos.get_pawns() & pos.get_them()).count();
    score = score - 300 * (pos.get_knights() & pos.get_them()).count();
    score = score - 320 * (pos.get_bishops() & pos.get_them()).count();
    score = score - 500 * (pos.get_rooks() & pos.get_them()).count();
    score = score - 900 * (pos.get_queens() & pos.get_them()).count();
    score
}

/// The score of a move for the greedy player: the material balance after it, for the side that
/// made it.
pub open spec fn greedy_score(pos: Position, m: Mv) -> int {
    -spec_material(pos.spec_makemove(m, false))
}

/// The material of one side is far from a million.
proof fn lemma_material_bounds(pos: Position)
    ensures
        -200_000 <= spec_material(pos) <= 200_000,
{
    crate::chess::bitboard::lemma_popcount_le(pos.pc(0) & pos.colours[0].0);
    crate::chess::bitboard::lemma_popcount_le(pos.pc(1) & pos.colours[0].0);
    crate::chess::bitboard::lemma_popcount_le(pos.pc(2) & pos.colours[0].0);
    crate::chess::bitboard::lemma_popcount_le(pos.pc(3) & pos.colours[0].0);
    crate::chess::bitboard::lemma_popcount_le(pos.pc(4) & pos.colours[0].0);
    crate::chess::bitboard::lemma_popcount_le(pos.pc(0) & pos.colours[1].0);
    crate::chess::bitboard::lemma_popcount_le(pos.pc(1) & pos.colours[1].0);
    crate::chess::bitboard::lemma_popcount_le(pos.pc(2) & pos.colours[1].0);
    crate::chess::bitboard::lemma_popcount_le(pos.pc(3) & pos.colours[1].0);
    crate::chess::bitboard::lemma_popcount_le(pos.pc(4) & pos.colours[1].0);
}

/// Among `moves`, the first of those after which the side that moved has the best material
/// balance; `None` when there is no move. The search statistics count one node a move.
/// A node counter `n` after counting `k` more nodes, stopping at `u64::MAX`.
pub open spec fn nodes_after(n: u64, k: nat) -> u64 {
    if n + k > u64::MAX {
        u64::MAX
    } else {
        (n + k) as u64
    }
}

pub fn greedy_pick(pos: &Position, moves: &Vec<Mv>, stats: &mut Stats) -> (r: Option<Mv>)
    requires
        pos.wf(),
        pos.halfmoves < i32::MAX,
        forall|k: int| 0 <= k < moves@.len() ==> pos.move_ok(#[trigger] moves@[k]),
    ensures
        r is None <==> moves@.len() == 0,
        r matches Some(m) ==> exists|k: int|
            0 <= k < moves@.len() && moves@[k] == m && (forall|j: int|
                0 <= j < moves@.len() ==> greedy_score(*pos, #[trigger] moves@[j]) <= greedy_score(
                    *pos,
                    m,
                )) && (forall|j: int| 0 <= j < k ==> greedy_score(*pos, #[trigger] moves@[j]) < greedy_score(*pos, m)),
        final(stats).depth == old(stats).depth,
        final(stats).seldepth == old(stats).seldepth,
        final(stats).best_move == old(stats).best_move,
        final(stats).nodes == nodes_after(old(stats).nodes, moves@.len()),
{
    let mut best_move: Option<Mv> = None;
    let mut best_score: i32 = -1_000_000;
    let ghost mut best_k: int = 0;
    let mut i: usize = 0;
    while i < moves.len()
        invariant
            pos.wf(),
            pos.halfmoves < i32::MAX,
            i <= moves@.len(),
            forall|k: int| 0 <= k < moves@.len() ==> pos.move_ok(#[trigger] moves@[k]),
            best_move is None <==> i == 0,
            best_move is None ==> best_score == -1_000_000,
            best_move matches Some(m) ==> {
                &&& 0 <= best_k < i
                &&& moves@[best_k] == m
                &&& greedy_score(*pos, m) == best_score
                &&& forall|j: int| 0 <= j < i ==> greedy_score(*pos, #[trigger] moves@[j]) <= best_score
                &&& forall|j: int| 0 <= j < best_k ==> greedy_score(*pos, #[trigger] moves@[j]) < best_score
            },
            stats.depth == old(stats).depth,
            stats.seldepth == old(stats).seldepth,
            stats.best_move == old(stats).best_move,
            stats.nodes == nodes_after(old(stats).nodes, i as nat),
        decreases moves.len() - i,
    {
        let mv = moves[i];
        stats.nodes = stats.nodes.saturating_add(1);
        let npos = pos.after_move::<false>(&mv);
        let score = -material(&npos);
        proof {
            lemma_material_bounds(npos);
        }
        if score > best_score {
            best_score = score;
            best_move = Some(mv);
            proof {
                best_k = i as int;
            }
        }
        i = i + 1;
    }
    best_move
}

/// The legal move after which the side that moved has the best material balance, the first of
/// them in the order of `legal_moves` when several tie; `None` when there is no legal move. The
/// search statistics record depth 1 and one node a move.
#[verifier::spinoff_prover]
#[verifier::rlimit(80)]
pub fn greedy(pos: &Position, stats: &mut Stats) -> (r: Option<Mv>)
    requires
        pos.wf(),
        pos.halfmoves < i32::MAX,
    ensures
        r matches Some(m) ==> pos.move_ok(m) && pos.spec_legal(m),
        r is None <==> pos.spec_legal_moves().len() == 0,
        r matches Some(m) ==> exists|k: int|
            0 <= k < pos.spec_legal_moves().len() && pos.spec_legal_moves()[k] == m && (forall|j: int|
                0 <= j < pos.spec_legal_moves().len() ==> greedy_score(*pos, #[trigger] pos.spec_legal_moves()[j])
                    <= greedy_score(*pos, m)) && (forall|j: int| 0 <= j < k ==> greedy_score(*pos, #[trigger] pos.spec_legal_moves()[j]) < greedy_score(*pos, m)),
        final(stats).depth == 1,
        final(stats).seldepth == 1,
        final(stats).best_move == old(stats).best_move,
        final(stats).nodes == nodes_after(old(stats).nodes, pos.spec_legal_moves().len()),
{
    let moves = pos.legal_moves();
    let best = greedy_pick(pos, &moves, stats);
    stats.depth = 1;
    stats.seldepth = 1;
    proof {
        if let Some(m) = best {
            let k = choose|k: int| 0 <= k < moves@.len() && moves@[k] == m && (forall|j: int|
                0 <= j < moves@.len() ==> greedy_score(*pos, #[trigger] moves@[j]) <= greedy_score(
                    *pos,
                    m,
                )) && (forall|j: int| 0 <= j < k ==> greedy_score(*pos, #[trigger] moves@[j]) < greedy_score(*pos, m));
            assert(pos.move_ok(moves@[k]) && pos.spec_legal(moves@[k]));
        }
    }
    best
}

} // verus!


use crate::chess::mv::Mv;
use crate::chess::position::Position;
use crate::search::stats::Stats;
use rand::rngs::ThreadRng;
use rand::seq::SliceRandom;
use vstd::prelude::*;

verus! {

#[verifier::external_type_specification]
#[verifier::external_body]
pub struct ExThreadRng(rand::rngs::ThreadRng);

/// Calls `rand::thread_rng`: the random number generator of the current thread. Nothing is
/// claimed of it.
#[verifier::external_body]
fn thread_rng() -> (r: ThreadRng) {
    rand::thread_rng()
}

/// Calls `SliceRandom::choose` on the moves: claims that it gives `None` exactly when there is
/// no move, and otherwise one of the moves; which one is left to chance.
#[verifier::external_body]
fn choose_move(moves: &Vec<Mv>, rng: &mut ThreadRng) -> (r: Option<Mv>)
    ensures
        r.is_none() <==> moves@.len() == 0,
        r matches Some(m) ==> moves@.contains(m),
{
    moves.as_slice().choose(rng).copied()
}

/// A legal move picked at random, or `None` when there is none; the search statistics record
/// one node at depth 1.
pub fn random(pos: &Position, stats: &mut Stats) -> (r: Option<Mv>)
    requires
        pos.wf(),
    ensures
        r is None <==> pos.spec_legal_moves().len() == 0,
        r matches Some(m) ==> pos.spec_legal_moves().contains(m) && pos.move_ok(m),
        final(stats).depth == 1,
        final(stats).seldepth == 1,
        final(stats).nodes == 1,
        final(stats).best_move == old(stats).best_move,
{
    let moves = pos.legal_moves();
    let mut rng = thread_rng();
    let mv = choose_move(&moves, &mut rng);
    stats.depth = 1;
    stats.seldepth = 1;
    stats.nodes = 1;
    proof {
        if let Some(m) = mv {
            let k = choose|k: int| 0 <= k < moves@.len() && moves@[k] == m;
            assert(pos.move_ok(moves@[k]));
        }
    }
    mv
}

} // verus!

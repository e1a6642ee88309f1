use crate::chess::mv::Mv;
use vstd::prelude::*;

verus! {

/// What a search has done so far: the depth completed, the deepest ply reached, the nodes
/// visited and the best move found.
pub struct Stats {
    pub depth: i32,
    pub seldepth: i32,
    pub nodes: u64,
    pub best_move: Option<Mv>,
}

impl Default for Stats {
    fn default() -> (r: Self)
        ensures
            r.depth == 0,
            r.seldepth == 0,
            r.nodes == 0,
            r.best_move.is_none(),
    {
        Stats { depth: 0, seldepth: 0, nodes: 0, best_move: None }
    }
}

} // verus!

use crate::chess::mv::Mv;
use crate::chess::position::Position;
use vstd::prelude::*;

verus! {

/// What a search reports as it goes: the position searched, the depth, the deepest ply, the
/// nodes, the score in centipawns or as a mate distance, the time taken in milliseconds, how full
/// the transposition table is (per thousand) and the principal variation.
pub struct Info {
    pub pos: Position,
    pub depth: Option<i32>,
    pub seldepth: Option<i32>,
    pub nodes: Option<u64>,
    pub score: Option<i32>,
    pub mate: Option<i32>,
    pub elapsed: Option<u128>,
    pub hashfull: Option<i32>,
    pub pv: Vec<Mv>,
}

} // verus!

use vstd::prelude::*;

verus! {

/// How long a search runs: on the clock (white's time, black's time, white's increment, black's
/// increment, moves to go), for a fixed time in milliseconds, to a depth, for a number of nodes,
/// until told to stop; or a move path count to a depth, in total or split by first move.
#[derive(Clone, Copy)]
pub enum Type {
    Time(u32, u32, Option<u32>, Option<u32>, Option<u32>),
    Movetime(u32),
    Depth(i32),
    Nodes(u64),
    Infinite,
    Perft(u8),
    SplitPerft(u8),
}

} // verus!

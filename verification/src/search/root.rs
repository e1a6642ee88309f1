use crate::chess::colour::Colour;
use crate::chess::mv::Mv;
use crate::chess::position::Position;
use crate::search::hashtable::Hashtable;
use crate::search::info::Info;
use crate::search::negamax::{always_stops, negamax, never_stops, spec_negamax, INF};
use crate::search::settings::Type;
use crate::search::stats::Stats;
use crate::search::ttentry::TTEntry;
use std::time::{Duration, Instant};
use vstd::prelude::*;

verus! {

/// The deepest iteration of the search.
pub const MAX_DEPTH: i32 = 128;

#[verifier::external_type_specification]
#[verifier::external_body]
pub struct ExInstant(std::time::Instant);

/// Calls `Instant::now`: the present moment. Nothing is claimed of it.
#[verifier::external_body]
fn now() -> (r: Instant) {
    Instant::now()
}

/// Calls `Instant::elapsed`: the time since `start`. Nothing is claimed of it.
#[verifier::external_body]
fn elapsed(start: &Instant) -> (r: Duration) {
    start.elapsed()
}

/// Calls `Duration::as_millis`: the whole milliseconds of `d`. Nothing is claimed of it.
#[verifier::external_body]
fn as_millis(d: &Duration) -> (r: u128) {
    d.as_millis()
}

/// The time the side to move may spend on this move: its remaining time shared out over the
/// moves to go (30 when not given).
pub open spec fn time_budget(ustime: u32, movestogo: Option<u32>) -> int {
    match movestogo {
        Some(m) => ustime as int / m as int,
        None => ustime as int / 30,
    }
}

/// The search settings a search can run under: a clock with no moves to go of zero, or any
/// other limit, but not a move path count.
pub open spec fn search_settings_ok(settings: Type) -> bool {
    match settings {
        Type::Time(_, _, _, _, mtg) => mtg != Some(0u32),
        Type::Perft(_) => false,
        Type::SplitPerft(_) => false,
        _ => true,
    }
}

/// Decides whether the search has gone on long enough: on the clock, once the time budget of
/// the side to move has been spent; for a fixed time, once it has passed; to a depth, past it;
/// for a number of nodes, once they have been visited; never when searching until told.
pub fn should_stop(settings: &Type, turn: Colour, elapsed_ms: u128, stats: &Stats) -> (r: bool)
    requires
        search_settings_ok(*settings),
    ensures
        match *settings {
            Type::Time(wtime, btime, _, _, mtg) => r == (elapsed_ms >= time_budget(
                if turn == Colour::White { wtime } else { btime },
                mtg,
            )),
            Type::Movetime(time) => r == (elapsed_ms >= time),
            Type::Depth(d) => r == (stats.depth > d),
            Type::Nodes(n) => r == (stats.nodes >= n),
            _ => !r,
        },
{
    match settings {
        Type::Time(wtime, btime, _, _, mtg) => {
            let ustime = if turn == Colour::White {
                *wtime
            } else {
                *btime
            };
            let per_move = match mtg {
                Some(m) => ustime / *m,
                None => ustime / 30,
            };
            elapsed_ms >= per_move as u128
        },
        Type::Movetime(time) => elapsed_ms >= *time as u128,
        Type::Depth(d) => stats.depth > *d,
        Type::Nodes(n) => stats.nodes >= *n,
        _ => false,
    }
}

/// A fixed-depth run of the search, iterations 1 to `k`, each a full search whose best move is
/// handed to the next: whether some iteration left no best move, and the best move after the
/// last one run.
pub open spec fn depth_run(pos: Position, hist: Seq<u64>, k: int) -> (bool, Option<Mv>)
    decreases k,
{
    if k <= 0 {
        (false, None)
    } else {
        let prev = depth_run(pos, hist, k - 1);
        if prev.0 {
            prev
        } else {
            let bm = spec_negamax(pos, hist, -INF as int, INF as int, 0, k, prev.1).1;
            (bm is None, bm)
        }
    }
}

/// Once an iteration has left no best move, the run stays failed.
proof fn lemma_run_failed(pos: Position, hist: Seq<u64>, j: int, k: int)
    requires
        j <= k,
        depth_run(pos, hist, j).0,
    ensures
        depth_run(pos, hist, k).0,
    decreases k - j,
{
    if j < k {
        lemma_run_failed(pos, hist, j, k - 1);
    }
}

/// Searches `pos` deeper and deeper, from depth 1 up, until the settings say to stop, reporting
/// each finished iteration to `info_printer`; gives the best move of the last finished
/// iteration, or an error when the position has no move.
#[verifier::loop_isolation(false)]
#[verifier::spinoff_prover]
#[verifier::rlimit(60)]
pub fn root<P: Fn(&Info)>(
    pos: Position,
    history: &mut Vec<u64>,
    tt: &mut Hashtable<TTEntry>,
    settings: Type,
    info_printer: P,
) -> (r: Result<Mv, &'static str>)
    requires
        pos.wf(),
        pos.halfmoves < i32::MAX,
        search_settings_ok(settings),
        forall|i: &Info| #[trigger] info_printer.requires((i,)),
    ensures
        final(history)@ == old(history)@,
        pos.spec_legal_moves().len() == 0 ==> r is Err,
        match settings {
            Type::Depth(d) => 1 <= d < MAX_DEPTH ==> r == (if depth_run(pos, old(history)@, d as int).0 {
                Err::<Mv, &'static str>("No bestmove")
            } else {
                Ok::<Mv, &'static str>(depth_run(pos, old(history)@, d as int).1->Some_0)
            }),
            _ => true,
        },
{
    let start = now();
    let mut stats = Stats::default();
    let mut best_move: Option<Mv> = None;
    let turn = pos.get_turn();
    let limits = settings;
    let clock = &start;
    let stop = |s: &Stats| -> (b: bool)
        requires
            search_settings_ok(limits),
        ensures
            limits matches Type::Depth(d) ==> b == (s.depth > d),
        {
            let d = elapsed(clock);
            should_stop(&limits, turn, as_millis(&d), s)
        };
    let mut depth: i32 = 1;
    while depth < MAX_DEPTH
        invariant
            1 <= depth <= MAX_DEPTH,
            pos.wf(),
            pos.halfmoves < i32::MAX,
            search_settings_ok(settings),
            forall|s: &Stats| #[trigger] stop.requires((s,)),
            forall|i: &Info| #[trigger] info_printer.requires((i,)),
            depth > 1 ==> best_move is Some,
            history@ == old(history)@,
            pos.spec_legal_moves().len() == 0 ==> stats.best_move is None && best_move is None,
            match settings {
                Type::Depth(d) => 1 <= d < MAX_DEPTH ==> {
                    &&& depth <= d + 1
                    &&& !depth_run(pos, old(history)@, depth - 1).0
                    &&& stats.best_move == depth_run(pos, old(history)@, depth - 1).1
                    &&& depth > 1 ==> best_move == stats.best_move
                },
                _ => true,
            },
        decreases MAX_DEPTH - depth,
    {
        stats.depth = depth;
        proof {
            if let Type::Depth(d) = settings {
                if 1 <= d < MAX_DEPTH {
                    if depth <= d {
                        assert forall|s: &Stats, b: bool| s.depth == depth && #[trigger] call_ensures(stop, (s,), b) implies !b by {}
                        assert(never_stops(&stop, depth));
                    } else {
                        assert forall|s: &Stats, b: bool| s.depth == depth && #[trigger] call_ensures(stop, (s,), b) implies b by {}
                        assert(always_stops(&stop, depth));
                    }
                }
            }
        }
        let score = negamax(&pos, history, tt, &mut stats, &stop, -INF, INF, 0, depth);
        let took = elapsed(&start);
        if stats.best_move.is_none() {
            proof {
                if let Type::Depth(d) = settings {
                    if 1 <= d < MAX_DEPTH {
                        assert(depth_run(pos, old(history)@, depth as int).0);
                        lemma_run_failed(pos, old(history)@, depth as int, d as int);
                    }
                }
            }
            return Err("No bestmove");
        }
        if depth > 1 && stop(&stats) {
            break;
        }
        let pv = vec![stats.best_move.unwrap()];
        info_printer(
            &Info {
                pos,
                depth: Some(stats.depth),
                seldepth: Some(stats.seldepth),
                nodes: Some(stats.nodes),
                score: Some(score),
                mate: None,
                elapsed: Some(as_millis(&took)),
                hashfull: tt.hashfull(),
                pv,
            },
        );
        best_move = stats.best_move;
        depth = depth + 1;
    }
    match best_move {
        Some(mv) => Ok(mv),
        None => Err("No bestmove"),
    }
}

} // verus!

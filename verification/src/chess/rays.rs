use crate::chess::bitboard::{bit, lemma_bit_ops, lemma_bits_ext, spec_adjacent, spec_east, spec_north_east, spec_north_west, spec_south_east, spec_south_west, spec_west, Bitboard};
use crate::chess::square::Square;
use vstd::prelude::*;

verus! {

/// The eight directions a piece can slide in.
#[derive(Debug, Copy, Clone, PartialEq, Eq, Structural)]
pub enum Dir {
    North,
    South,
    East,
    West,
    NorthEast,
    NorthWest,
    SouthEast,
    SouthWest,
}

/// Every square of `x` moved one step in direction `d`; steps that would leave the board are dropped.
pub open spec fn step(d: Dir, x: u64) -> u64 {
    match d {
        Dir::North => x << 8u64,
        Dir::South => x >> 8u64,
        Dir::East => spec_east(x),
        Dir::West => spec_west(x),
        Dir::NorthEast => spec_north_east(x),
        Dir::NorthWest => spec_north_west(x),
        Dir::SouthEast => spec_south_east(x),
        Dir::SouthWest => spec_south_west(x),
    }
}

/// The squares reached from `x` in direction `d` within `k + 1` steps, each step but the first
/// starting from a square that is not in `blockers`.
pub open spec fn ray_fill(d: Dir, x: u64, blockers: u64, k: nat) -> u64
    decreases k,
{
    if k == 0 {
        step(d, x)
    } else {
        let m = ray_fill(d, x, blockers, (k - 1) as nat);
        m | step(d, m & !blockers)
    }
}

/// The squares a piece on `sq` slides to in direction `d`: up to and including the first square
/// of `blockers` on its way, or to the edge of the board.
pub open spec fn spec_ray(d: Dir, sq: u8, blockers: u64) -> u64 {
    ray_fill(d, 1u64 << sq, blockers, 6)
}

/// The squares a bishop on `sq` attacks when `blockers` are occupied.
pub open spec fn spec_bishop_attacks(sq: u8, blockers: u64) -> u64 {
    spec_ray(Dir::NorthEast, sq, blockers) | spec_ray(Dir::NorthWest, sq, blockers) | spec_ray(
        Dir::SouthEast,
        sq,
        blockers,
    ) | spec_ray(Dir::SouthWest, sq, blockers)
}

/// The squares a rook on `sq` attacks when `blockers` are occupied.
pub open spec fn spec_rook_attacks(sq: u8, blockers: u64) -> u64 {
    spec_ray(Dir::North, sq, blockers) | spec_ray(Dir::South, sq, blockers) | spec_ray(
        Dir::East,
        sq,
        blockers,
    ) | spec_ray(Dir::West, sq, blockers)
}

/// The squares a knight on a square of `x` jumps to.
pub open spec fn spec_knights(x: u64) -> u64 {
    spec_north_east(x << 8u64) | spec_north_west(x << 8u64) | spec_south_east(x >> 8u64)
        | spec_south_west(x >> 8u64) | spec_north_east(spec_east(x)) | spec_south_east(spec_east(x))
        | spec_north_west(spec_west(x)) | spec_south_west(spec_west(x))
}

/// The squares the pawns of `x` attack: to the north for the side to move, else to the south.
pub open spec fn spec_pawns(us: bool, x: u64) -> u64 {
    if us {
        spec_north_east(x) | spec_north_west(x)
    } else {
        spec_south_east(x) | spec_south_west(x)
    }
}

/// The squares a piece on `sq` slides to going north east, stopping on the first blocker.
pub fn ray_ne(sq: Square, blockers: Bitboard) -> (r: Bitboard)
    requires
        sq.valid(),
    ensures
        r.0 == spec_ray(Dir::NorthEast, sq.0, blockers.0),
{
    proof {
        reveal_with_fuel(ray_fill, 7);
    }
    let mut mask = Bitboard::empty();

    mask = mask | Bitboard::from_square(sq).north_east();
    mask = mask | (mask & Bitboard(!blockers.0)).north_east();
    mask = mask | (mask & Bitboard(!blockers.0)).north_east();
    mask = mask | (mask & Bitboard(!blockers.0)).north_east();
    mask = mask | (mask & Bitboard(!blockers.0)).north_east();
    mask = mask | (mask & Bitboard(!blockers.0)).north_east();
    mask = mask | (mask & Bitboard(!blockers.0)).north_east();

    proof {
        lemma_zero_or(step(Dir::NorthEast, 1u64 << sq.0));
    }
    mask
}

/// The squares a piece on `sq` slides to going north west, stopping on the first blocker.
pub fn ray_nw(sq: Square, blockers: Bitboard) -> (r: Bitboard)
    requires
        sq.valid(),
    ensures
        r.0 == spec_ray(Dir::NorthWest, sq.0, blockers.0),
{
    proof {
        reveal_with_fuel(ray_fill, 7);
    }
    let mut mask = Bitboard::empty();

    mask = mask | Bitboard::from_square(sq).north_west();
    mask = mask | (mask & Bitboard(!blockers.0)).north_west();
    mask = mask | (mask & Bitboard(!blockers.0)).north_west();
    mask = mask | (mask & Bitboard(!blockers.0)).north_west();
    mask = mask | (mask & Bitboard(!blockers.0)).north_west();
    mask = mask | (mask & Bitboard(!blockers.0)).north_west();
    mask = mask | (mask & Bitboard(!blockers.0)).north_west();

    proof {
        lemma_zero_or(step(Dir::NorthWest, 1u64 << sq.0));
    }
    mask
}

/// The squares a piece on `sq` slides to going south east, stopping on the first blocker.
pub fn ray_se(sq: Square, blockers: Bitboard) -> (r: Bitboard)
    requires
        sq.valid(),
    ensures
        r.0 == spec_ray(Dir::SouthEast, sq.0, blockers.0),
{
    proof {
        reveal_with_fuel(ray_fill, 7);
    }
    let mut mask = Bitboard::empty();

    mask = mask | Bitboard::from_square(sq).south_east();
    mask = mask | (mask & Bitboard(!blockers.0)).south_east();
    mask = mask | (mask & Bitboard(!blockers.0)).south_east();
    mask = mask | (mask & Bitboard(!blockers.0)).south_east();
    mask = mask | (mask & Bitboard(!blockers.0)).south_east();
    mask = mask | (mask & Bitboard(!blockers.0)).south_east();
    mask = mask | (mask & Bitboard(!blockers.0)).south_east();

    proof {
        lemma_zero_or(step(Dir::SouthEast, 1u64 << sq.0));
    }
    mask
}

/// The squares a piece on `sq` slides to going south west, stopping on the first blocker.
pub fn ray_sw(sq: Square, blockers: Bitboard) -> (r: Bitboard)
    requires
        sq.valid(),
    ensures
        r.0 == spec_ray(Dir::SouthWest, sq.0, blockers.0),
{
    proof {
        reveal_with_fuel(ray_fill, 7);
    }
    let mut mask = Bitboard::empty();

    mask = mask | Bitboard::from_square(sq).south_west();
    mask = mask | (mask & Bitboard(!blockers.0)).south_west();
    mask = mask | (mask & Bitboard(!blockers.0)).south_west();
    mask = mask | (mask & Bitboard(!blockers.0)).south_west();
    mask = mask | (mask & Bitboard(!blockers.0)).south_west();
    mask = mask | (mask & Bitboard(!blockers.0)).south_west();
    mask = mask | (mask & Bitboard(!blockers.0)).south_west();

    proof {
        lemma_zero_or(step(Dir::SouthWest, 1u64 << sq.0));
    }
    mask
}

/// The squares a piece on `sq` slides to going north, stopping on the first blocker.
pub fn ray_n(sq: Square, blockers: Bitboard) -> (r: Bitboard)
    requires
        sq.valid(),
    ensures
        r.0 == spec_ray(Dir::North, sq.0, blockers.0),
{
    proof {
        reveal_with_fuel(ray_fill, 7);
    }
    let mut mask = Bitboard::empty();

    mask = mask | Bitboard::from_square(sq).north();
    mask = mask | (mask & Bitboard(!blockers.0)).north();
    mask = mask | (mask & Bitboard(!blockers.0)).north();
    mask = mask | (mask & Bitboard(!blockers.0)).north();
    mask = mask | (mask & Bitboard(!blockers.0)).north();
    mask = mask | (mask & Bitboard(!blockers.0)).north();
    mask = mask | (mask & Bitboard(!blockers.0)).north();

    proof {
        lemma_zero_or(step(Dir::North, 1u64 << sq.0));
    }
    mask
}

/// The squares a piece on `sq` slides to going south, stopping on the first blocker.
pub fn ray_s(sq: Square, blockers: Bitboard) -> (r: Bitboard)
    requires
        sq.valid(),
    ensures
        r.0 == spec_ray(Dir::South, sq.0, blockers.0),
{
    proof {
        reveal_with_fuel(ray_fill, 7);
    }
    let mut mask = Bitboard::empty();

    mask = mask | Bitboard::from_square(sq).south();
    mask = mask | (mask & Bitboard(!blockers.0)).south();
    mask = mask | (mask & Bitboard(!blockers.0)).south();
    mask = mask | (mask & Bitboard(!blockers.0)).south();
    mask = mask | (mask & Bitboard(!blockers.0)).south();
    mask = mask | (mask & Bitboard(!blockers.0)).south();
    mask = mask | (mask & Bitboard(!blockers.0)).south();

    proof {
        lemma_zero_or(step(Dir::South, 1u64 << sq.0));
    }
    mask
}

/// The squares a piece on `sq` slides to going east, stopping on the first blocker.
pub fn ray_e(sq: Square, blockers: Bitboard) -> (r: Bitboard)
    requires
        sq.valid(),
    ensures
        r.0 == spec_ray(Dir::East, sq.0, blockers.0),
{
    proof {
        reveal_with_fuel(ray_fill, 7);
    }
    let mut mask = Bitboard::empty();

    mask = mask | Bitboard::from_square(sq).east();
    mask = mask | (mask & Bitboard(!blockers.0)).east();
    mask = mask | (mask & Bitboard(!blockers.0)).east();
    mask = mask | (mask & Bitboard(!blockers.0)).east();
    mask = mask | (mask & Bitboard(!blockers.0)).east();
    mask = mask | (mask & Bitboard(!blockers.0)).east();
    mask = mask | (mask & Bitboard(!blockers.0)).east();

    proof {
        lemma_zero_or(step(Dir::East, 1u64 << sq.0));
    }
    mask
}

/// The squares a piece on `sq` slides to going west, stopping on the first blocker.
pub fn ray_w(sq: Square, blockers: Bitboard) -> (r: Bitboard)
    requires
        sq.valid(),
    ensures
        r.0 == spec_ray(Dir::West, sq.0, blockers.0),
{
    proof {
        reveal_with_fuel(ray_fill, 7);
    }
    let mut mask = Bitboard::empty();

    mask = mask | Bitboard::from_square(sq).west();
    mask = mask | (mask & Bitboard(!blockers.0)).west();
    mask = mask | (mask & Bitboard(!blockers.0)).west();
    mask = mask | (mask & Bitboard(!blockers.0)).west();
    mask = mask | (mask & Bitboard(!blockers.0)).west();
    mask = mask | (mask & Bitboard(!blockers.0)).west();
    mask = mask | (mask & Bitboard(!blockers.0)).west();

    proof {
        lemma_zero_or(step(Dir::West, 1u64 << sq.0));
    }
    mask
}

proof fn lemma_zero_or(x: u64)
    ensures
        0u64 | x == x,
{
    assert forall|s: u64| s < 64 implies #[trigger] bit(0u64 | x, s) == bit(x, s) by {
        lemma_bit_ops(0u64, x, s);
    }
    lemma_bits_ext(0u64 | x, x);
}

/// The squares the knights of `bb` jump to.
pub fn knights(bb: Bitboard) -> (r: Bitboard)
    ensures
        r.0 == spec_knights(bb.0),
{
    bb.north().north_east() | bb.north().north_west() | bb.south().south_east()
        | bb.south().south_west() | bb.east().north_east() | bb.east().south_east()
        | bb.west().north_west() | bb.west().south_west()
}

/// The squares the pawns of `bb` attack, for the side to move when `US`, else for the other side.
pub fn pawns<const US: bool>(bb: Bitboard) -> (r: Bitboard)
    ensures
        r.0 == spec_pawns(US, bb.0),
{
    if US {
        bb.north_east() | bb.north_west()
    } else {
        bb.south_east() | bb.south_west()
    }
}

/// The squares next to `sq`.
pub fn adjacent(sq: Square) -> (r: Bitboard)
    requires
        sq.valid(),
    ensures
        r.0 == spec_adjacent(1u64 << sq.0),
{
    Bitboard::from_square(sq).adjacent()
}

/// The squares next to a square of `bb`.
pub fn adjacent_bb(bb: Bitboard) -> (r: Bitboard)
    ensures
        r.0 == spec_adjacent(bb.0),
{
    bb.adjacent()
}

} // verus!

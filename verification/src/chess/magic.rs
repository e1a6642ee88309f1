use crate::chess::bitboard::{spec_adjacent, Bitboard};
use crate::chess::rays::{self, spec_bishop_attacks, spec_knights, spec_rook_attacks, step, Dir};
use crate::chess::square::Square;
use vstd::prelude::*;
use vstd::wrapping::u64_specs::wrapping_mul;

verus! {

pub const BISHOP_MAGICS: [u64; 64] = [
    0x007fbfbfbfbfbfff, 0x0000a060401007fc, 0x0001004008020000, 0x0000806004000000,
    0x0000100400000000, 0x000021c100b20000, 0x0000040041008000, 0x00000fb0203fff80,
    0x0000040100401004, 0x0000020080200802, 0x0000004010202000, 0x0000008060040000,
    0x0000004402000000, 0x0000000801008000, 0x000007efe0bfff80, 0x0000000820820020,
    0x0000400080808080, 0x00021f0100400808, 0x00018000c06f3fff, 0x0000258200801000,
    0x0000240080840000, 0x000018000c03fff8, 0x00000a5840208020, 0x0000020008208020,
    0x0000804000810100, 0x0001011900802008, 0x0000804000810100, 0x000100403c0403ff,
    0x00078402a8802000, 0x0000101000804400, 0x0000080800104100, 0x00004004c0082008,
    0x0001010120008020, 0x000080809a004010, 0x0007fefe08810010, 0x0003ff0f833fc080,
    0x007fe08019003042, 0x003fffefea003000, 0x0000101010002080, 0x0000802005080804,
    0x0000808080a80040, 0x0000104100200040, 0x0003ffdf7f833fc0, 0x0000008840450020,
    0x00007ffc80180030, 0x007fffdd80140028, 0x00020080200a0004, 0x0000101010100020,
    0x0007ffdfc1805000, 0x0003ffefe0c02200, 0x0000000820806000, 0x0000000008403000,
    0x0000000100202000, 0x0000004040802000, 0x0004010040100400, 0x00006020601803f4,
    0x0003ffdfdfc28048, 0x0000000820820020, 0x0000000008208060, 0x0000000000808020,
    0x0000000001002020, 0x0000000401002008, 0x0000004040404040, 0x007fff9fdf7ff813,
];

pub const BISHOP_OFFSETS: [usize; 64] = [
    5378, 4093, 4314, 6587,
    6491, 6330, 5609, 22236,
    6106, 5625, 16785, 16817,
    6842, 7003, 4197, 7356,
    4602, 4538, 29531, 45393,
    12420, 15763, 5050, 4346,
    6074, 7866, 32139, 57673,
    55365, 15818, 5562, 6390,
    7930, 13329, 7170, 27267,
    53787, 5097, 6643, 6138,
    7418, 7898, 42012, 57350,
    22813, 56693, 5818, 7098,
    4451, 4709, 4794, 13364,
    4570, 4282, 14964, 4026,
    4826, 7354, 4848, 15946,
    14932, 16588, 6905, 16076,
];

pub const ROOK_MAGICS: [u64; 64] = [
    0x00280077ffebfffe, 0x2004010201097fff, 0x0010020010053fff, 0x0040040008004002,
    0x7fd00441ffffd003, 0x4020008887dffffe, 0x004000888847ffff, 0x006800fbff75fffd,
    0x000028010113ffff, 0x0020040201fcffff, 0x007fe80042ffffe8, 0x00001800217fffe8,
    0x00001800073fffe8, 0x00001800e05fffe8, 0x00001800602fffe8, 0x000030002fffffa0,
    0x00300018010bffff, 0x0003000c0085fffb, 0x0004000802010008, 0x0004002020020004,
    0x0001002002002001, 0x0001001000801040, 0x0000004040008001, 0x0000006800cdfff4,
    0x0040200010080010, 0x0000080010040010, 0x0004010008020008, 0x0000040020200200,
    0x0002008010100100, 0x0000008020010020, 0x0000008020200040, 0x0000820020004020,
    0x00fffd1800300030, 0x007fff7fbfd40020, 0x003fffbd00180018, 0x001fffde80180018,
    0x000fffe0bfe80018, 0x0001000080202001, 0x0003fffbff980180, 0x0001fffdff9000e0,
    0x00fffefeebffd800, 0x007ffff7ffc01400, 0x003fffbfe4ffe800, 0x001ffff01fc03000,
    0x000fffe7f8bfe800, 0x0007ffdfdf3ff808, 0x0003fff85fffa804, 0x0001fffd75ffa802,
    0x00ffffd7ffebffd8, 0x007fff75ff7fbfd8, 0x003fff863fbf7fd8, 0x001fffbfdfd7ffd8,
    0x000ffff810280028, 0x0007ffd7f7feffd8, 0x0003fffc0c480048, 0x0001ffffafd7ffd8,
    0x00ffffe4ffdfa3ba, 0x007fffef7ff3d3da, 0x003fffbfdfeff7fa, 0x001fffeff7fbfc22,
    0x0000020408001001, 0x0007fffeffff77fd, 0x0003ffffbf7dfeec, 0x0001ffff9dffa333,
];

pub const ROOK_OFFSETS: [usize; 64] = [
    26304, 35520, 38592, 8026,
    22196, 80870, 76747, 30400,
    11115, 18205, 53577, 62724,
    34282, 29196, 23806, 49481,
    2410, 36498, 24478, 10074,
    79315, 51779, 13586, 19323,
    70612, 83652, 63110, 34496,
    84966, 54341, 60421, 86402,
    50245, 76622, 84676, 78757,
    37346, 370, 42182, 45385,
    61659, 12790, 16762, 0,
    38380, 11098, 21803, 39189,
    58628, 44116, 78357, 44481,
    64134, 41759, 1394, 40910,
    66516, 3897, 3930, 72934,
    72662, 56325, 66501, 14826,
];

/// The squares whose occupancy bears on a bishop on each square: its diagonals without the edges.
pub const BISHOP_MASKS: [u64; 64] = [
    0x0040201008040200, 0x0000402010080400, 0x0000004020100a00, 0x0000000040221400,
    0x0000000002442800, 0x0000000204085000, 0x0000020408102000, 0x0002040810204000,
    0x0020100804020000, 0x0040201008040000, 0x00004020100a0000, 0x0000004022140000,
    0x0000000244280000, 0x0000020408500000, 0x0002040810200000, 0x0004081020400000,
    0x0010080402000200, 0x0020100804000400, 0x004020100a000a00, 0x0000402214001400,
    0x0000024428002800, 0x0002040850005000, 0x0004081020002000, 0x0008102040004000,
    0x0008040200020400, 0x0010080400040800, 0x0020100a000a1000, 0x0040221400142200,
    0x0002442800284400, 0x0004085000500800, 0x0008102000201000, 0x0010204000402000,
    0x0004020002040800, 0x0008040004081000, 0x00100a000a102000, 0x0022140014224000,
    0x0044280028440200, 0x0008500050080400, 0x0010200020100800, 0x0020400040201000,
    0x0002000204081000, 0x0004000408102000, 0x000a000a10204000, 0x0014001422400000,
    0x0028002844020000, 0x0050005008040200, 0x0020002010080400, 0x0040004020100800,
    0x0000020408102000, 0x0000040810204000, 0x00000a1020400000, 0x0000142240000000,
    0x0000284402000000, 0x0000500804020000, 0x0000201008040200, 0x0000402010080400,
    0x0002040810204000, 0x0004081020400000, 0x000a102040000000, 0x0014224000000000,
    0x0028440200000000, 0x0050080402000000, 0x0020100804020000, 0x0040201008040200,
];

/// The squares whose occupancy bears on a rook on each square: its lines without the edges.
pub const ROOK_MASKS: [u64; 64] = [
    0x000101010101017e, 0x000202020202027c, 0x000404040404047a, 0x0008080808080876,
    0x001010101010106e, 0x002020202020205e, 0x004040404040403e, 0x008080808080807e,
    0x0001010101017e00, 0x0002020202027c00, 0x0004040404047a00, 0x0008080808087600,
    0x0010101010106e00, 0x0020202020205e00, 0x0040404040403e00, 0x0080808080807e00,
    0x00010101017e0100, 0x00020202027c0200, 0x00040404047a0400, 0x0008080808760800,
    0x00101010106e1000, 0x00202020205e2000, 0x00404040403e4000, 0x00808080807e8000,
    0x000101017e010100, 0x000202027c020200, 0x000404047a040400, 0x0008080876080800,
    0x001010106e101000, 0x002020205e202000, 0x004040403e404000, 0x008080807e808000,
    0x0001017e01010100, 0x0002027c02020200, 0x0004047a04040400, 0x0008087608080800,
    0x0010106e10101000, 0x0020205e20202000, 0x0040403e40404000, 0x0080807e80808000,
    0x00017e0101010100, 0x00027c0202020200, 0x00047a0404040400, 0x0008760808080800,
    0x00106e1010101000, 0x00205e2020202000, 0x00403e4040404000, 0x00807e8080808000,
    0x007e010101010100, 0x007c020202020200, 0x007a040404040400, 0x0076080808080800,
    0x006e101010101000, 0x005e202020202000, 0x003e404040404000, 0x007e808080808000,
    0x7e01010101010100, 0x7c02020202020200, 0x7a04040404040400, 0x7608080808080800,
    0x6e10101010101000, 0x5e20202020202000, 0x3e40404040404000, 0x7e80808080808000,
];

/// The squares one rank up.
pub fn north(bb: u64) -> (r: u64)
    ensures
        r == bb << 8u64,
{
    bb << 8
}

/// The squares one file to the right.
pub fn east(bb: u64) -> (r: u64)
    ensures
        r == crate::chess::bitboard::spec_east(bb),
{
    (bb << 1) & 0xfefefefefefefefe
}

/// The squares one rank down.
pub fn south(bb: u64) -> (r: u64)
    ensures
        r == bb >> 8u64,
{
    bb >> 8
}

/// The squares one file to the left.
pub fn west(bb: u64) -> (r: u64)
    ensures
        r == crate::chess::bitboard::spec_west(bb),
{
    (bb >> 1) & 0x7f7f7f7f7f7f7f7f
}

/// One step of each of the eight directions, as the shifts above compose it.
fn dir_step(d: Dir, bb: u64) -> (r: u64)
    ensures
        r == step(d, bb),
{
    proof {
        lemma_composed_steps(bb);
    }
    match d {
        Dir::North => north(bb),
        Dir::South => south(bb),
        Dir::East => east(bb),
        Dir::West => west(bb),
        Dir::NorthEast => north(east(bb)),
        Dir::NorthWest => north(west(bb)),
        Dir::SouthEast => south(east(bb)),
        Dir::SouthWest => south(west(bb)),
    }
}

/// A diagonal step is a step along the file and one along the rank.
proof fn lemma_composed_steps(x: u64)
    by (bit_vector)
    ensures
        ((x << 1u64) & 0xfefefefefefefefeu64) << 8u64 == (x << 9u64) & 0xfefefefefefefefeu64,
        ((x >> 1u64) & 0x7f7f7f7f7f7f7f7fu64) << 8u64 == (x << 7u64) & 0x7f7f7f7f7f7f7f7fu64,
        ((x << 1u64) & 0xfefefefefefefefeu64) >> 8u64 == (x >> 7u64) & 0xfefefefefefefefeu64,
        ((x >> 1u64) & 0x7f7f7f7f7f7f7f7fu64) >> 8u64 == (x >> 9u64) & 0x7f7f7f7f7f7f7f7fu64,
{
}

/// `n` steps in direction `d`.
pub open spec fn steps(d: Dir, x: u64, n: nat) -> u64
    decreases n,
{
    if n == 0 {
        x
    } else {
        step(d, steps(d, x, (n - 1) as nat))
    }
}

/// Eight steps in any direction leave the board.
proof fn lemma_eight_steps(d: Dir, x: u64)
    ensures
        steps(d, x, 8) == 0,
{
    reveal_with_fuel(steps, 9);
    lemma_eight_steps_bits(x);
}

proof fn lemma_eight_steps_bits(x: u64)
    by (bit_vector)
    ensures
        ((((((((x << 8u64) << 8u64) << 8u64) << 8u64) << 8u64) << 8u64) << 8u64) << 8u64) == 0,
        ((((((((x >> 8u64) >> 8u64) >> 8u64) >> 8u64) >> 8u64) >> 8u64) >> 8u64) >> 8u64) == 0,
        ({
            let f = |y: u64| (y << 1u64) & 0xfefefefefefefefeu64;
            f(f(f(f(f(f(f(f(x)))))))) == 0
        }),
        ({
            let f = |y: u64| (y >> 1u64) & 0x7f7f7f7f7f7f7f7fu64;
            f(f(f(f(f(f(f(f(x)))))))) == 0
        }),
        ({
            let f = |y: u64| (y << 9u64) & 0xfefefefefefefefeu64;
            f(f(f(f(f(f(f(f(x)))))))) == 0
        }),
        ({
            let f = |y: u64| (y << 7u64) & 0x7f7f7f7f7f7f7f7fu64;
            f(f(f(f(f(f(f(f(x)))))))) == 0
        }),
        ({
            let f = |y: u64| (y >> 7u64) & 0xfefefefefefefefeu64;
            f(f(f(f(f(f(f(f(x)))))))) == 0
        }),
        ({
            let f = |y: u64| (y >> 9u64) & 0x7f7f7f7f7f7f7f7fu64;
            f(f(f(f(f(f(f(f(x)))))))) == 0
        }),
{
}

/// The squares passed over walking from `y` in direction `d`, at most `n` steps, each square
/// counted while one more step stays on the board: the squares of a ray a blocker can stand on.
pub open spec fn inner_walk(d: Dir, y: u64, n: nat) -> u64
    decreases n,
{
    if n == 0 || step(d, y) == 0 {
        0
    } else {
        y | inner_walk(d, step(d, y), (n - 1) as nat)
    }
}

/// The squares of the ray from the square of `bb` in direction `d` that a blocker can stand on:
/// all but the last before the edge.
pub open spec fn inner_ray(d: Dir, bb: u64) -> u64 {
    inner_walk(d, step(d, bb), 7)
}

proof fn lemma_or_assoc(a: u64, b: u64, c: u64)
    by (bit_vector)
    ensures
        a | (b | c) == (a | b) | c,
        a | 0u64 == a,
        0u64 | a == a,
{
}

/// Walks from `bb` in direction `d`, gathering the squares passed over while one more step stays
/// on the board.
fn walk_inner(d: Dir, bb: u64) -> (r: u64)
    ensures
        r == inner_ray(d, bb),
{
    let mut result: u64 = 0;
    let mut nbb = dir_step(d, bb);
    let mut k: u64 = 0;
    proof {
        lemma_or_assoc(inner_walk(d, nbb, 7), 0, 0);
        reveal_with_fuel(steps, 2);
    }
    while dir_step(d, nbb) != 0u64
        invariant
            k <= 7,
            nbb == steps(d, bb, (k + 1) as nat),
            inner_ray(d, bb) == result | inner_walk(d, nbb, (7 - k) as nat),
        decreases 7 - k,
    {
        proof {
            if k == 7 {
                lemma_eight_steps(d, bb);
                assert(steps(d, bb, 9) == step(d, steps(d, bb, 8)));
                assert(step(d, 0u64) == 0u64) by {
                    lemma_eight_steps_zero();
                }
            }
            lemma_or_assoc(result, nbb, inner_walk(d, step(d, nbb), (6 - k) as nat));
        }
        result = result | nbb;
        nbb = dir_step(d, nbb);
        k = k + 1;
    }
    proof {
        lemma_or_assoc(result, 0, 0);
    }
    result
}

proof fn lemma_eight_steps_zero()
    by (bit_vector)
    ensures
        0u64 << 8u64 == 0u64,
        0u64 >> 8u64 == 0u64,
        (0u64 << 1u64) & 0xfefefefefefefefeu64 == 0u64,
        (0u64 >> 1u64) & 0x7f7f7f7f7f7f7f7fu64 == 0u64,
        (0u64 << 9u64) & 0xfefefefefefefefeu64 == 0u64,
        (0u64 << 7u64) & 0x7f7f7f7f7f7f7f7fu64 == 0u64,
        (0u64 >> 7u64) & 0xfefefefefefefefeu64 == 0u64,
        (0u64 >> 9u64) & 0x7f7f7f7f7f7f7f7fu64 == 0u64,
{
}

/// The squares a blocker can stand on to stop a bishop on square `sq`.
pub open spec fn bishop_mask(sq: int) -> u64 {
    let bb = 1u64 << (sq as u64);
    (((0u64 | inner_ray(Dir::NorthEast, bb)) | inner_ray(Dir::NorthWest, bb)) | inner_ray(
        Dir::SouthEast,
        bb,
    )) | inner_ray(Dir::SouthWest, bb)
}

/// The squares a blocker can stand on to stop a rook on square `sq`.
pub open spec fn rook_mask(sq: int) -> u64 {
    let bb = 1u64 << (sq as u64);
    (((0u64 | inner_ray(Dir::East, bb)) | inner_ray(Dir::West, bb)) | inner_ray(Dir::North, bb))
        | inner_ray(Dir::South, bb)
}

/// For each square, the squares a knight on it jumps to.
pub fn calculate_knight_masks() -> (r: [u64; 64])
    ensures
        forall|i: int| 0 <= i < 64 ==> #[trigger] r[i] == spec_knights(1u64 << (i as u64)),
{
    let mut result = [0u64; 64];
    let mut i: usize = 0;
    while i < 64
        invariant
            i <= 64,
            forall|j: int| 0 <= j < i ==> #[trigger] result[j] == spec_knights(1u64 << (j as u64)),
        decreases 64 - i,
    {
        let bb = 1u64 << (i as u64);
        let mask = north(north(east(bb))) | north(north(west(bb))) | east(east(north(bb))) | east(
            east(south(bb)),
        ) | west(west(north(bb))) | west(west(south(bb))) | south(south(east(bb))) | south(
            south(west(bb)),
        );
        proof {
            lemma_knight_jumps(bb);
        }
        result[i] = mask;
        i = i + 1;
    }
    result
}

/// The knight's jumps, two steps one way and one the other.
proof fn lemma_knight_jumps(x: u64)
    by (bit_vector)
    ensures
        ((((x << 1u64) & 0xfefefefefefefefeu64) << 8u64) << 8u64) | ((((x >> 1u64)
            & 0x7f7f7f7f7f7f7f7fu64) << 8u64) << 8u64) | ((((x << 8u64) << 1u64)
            & 0xfefefefefefefefeu64) << 1u64 & 0xfefefefefefefefeu64) | ((((x >> 8u64) << 1u64)
            & 0xfefefefefefefefeu64) << 1u64 & 0xfefefefefefefefeu64) | ((((x << 8u64) >> 1u64)
            & 0x7f7f7f7f7f7f7f7fu64) >> 1u64 & 0x7f7f7f7f7f7f7f7fu64) | ((((x >> 8u64) >> 1u64)
            & 0x7f7f7f7f7f7f7f7fu64) >> 1u64 & 0x7f7f7f7f7f7f7f7fu64) | ((((x << 1u64)
            & 0xfefefefefefefefeu64) >> 8u64) >> 8u64) | ((((x >> 1u64) & 0x7f7f7f7f7f7f7f7fu64)
            >> 8u64) >> 8u64) == spec_knights(x),
{
}

/// For each square, the squares a blocker can stand on to stop a bishop on it.
pub fn calculate_bishop_masks() -> (r: [u64; 64])
    ensures
        forall|i: int| 0 <= i < 64 ==> #[trigger] r[i] == bishop_mask(i),
{
    let mut result = [0u64; 64];
    let mut i: usize = 0;
    while i < 64
        invariant
            i <= 64,
            forall|j: int| 0 <= j < i ==> #[trigger] result[j] == bishop_mask(j),
        decreases 64 - i,
    {
        let bb = 1u64 << (i as u64);
        let mut mask: u64 = 0;
        mask = mask | walk_inner(Dir::NorthEast, bb);
        mask = mask | walk_inner(Dir::NorthWest, bb);
        mask = mask | walk_inner(Dir::SouthEast, bb);
        mask = mask | walk_inner(Dir::SouthWest, bb);
        result[i] = mask;
        i = i + 1;
    }
    result
}

/// For each square, the squares a blocker can stand on to stop a rook on it.
pub fn calculate_rook_masks() -> (r: [u64; 64])
    ensures
        forall|i: int| 0 <= i < 64 ==> #[trigger] r[i] == rook_mask(i),
{
    let mut result = [0u64; 64];
    let mut i: usize = 0;
    while i < 64
        invariant
            i <= 64,
            forall|j: int| 0 <= j < i ==> #[trigger] result[j] == rook_mask(j),
        decreases 64 - i,
    {
        let bb = 1u64 << (i as u64);
        let mut mask: u64 = 0;
        mask = mask | walk_inner(Dir::East, bb);
        mask = mask | walk_inner(Dir::West, bb);
        mask = mask | walk_inner(Dir::North, bb);
        mask = mask | walk_inner(Dir::South, bb);
        result[i] = mask;
        i = i + 1;
    }
    result
}

/// For each square, the squares next to it, where a king on it moves to.
pub fn calculate_king_masks() -> (r: [u64; 64])
    ensures
        forall|i: int| 0 <= i < 64 ==> #[trigger] r[i] == spec_adjacent(1u64 << (i as u64)),
{
    let mut result = [0u64; 64];
    let mut i: usize = 0;
    while i < 64
        invariant
            i <= 64,
            forall|j: int| 0 <= j < i ==> #[trigger] result[j] == spec_adjacent(1u64 << (j as u64)),
        decreases 64 - i,
    {
        let bb = 1u64 << (i as u64);
        let mask = north(bb) | north(west(bb)) | north(east(bb)) | west(bb) | east(bb) | south(bb)
            | south(west(bb)) | south(east(bb));
        proof {
            lemma_king_steps(bb);
        }
        result[i] = mask;
        i = i + 1;
    }
    result
}

/// The king's steps, one square each way.
proof fn lemma_king_steps(x: u64)
    by (bit_vector)
    ensures
        (x << 8u64) | (((x >> 1u64) & 0x7f7f7f7f7f7f7f7fu64) << 8u64) | (((x << 1u64)
            & 0xfefefefefefefefeu64) << 8u64) | ((x >> 1u64) & 0x7f7f7f7f7f7f7f7fu64) | ((x << 1u64)
            & 0xfefefefefefefefeu64) | (x >> 8u64) | (((x >> 1u64) & 0x7f7f7f7f7f7f7f7fu64) >> 8u64)
            | (((x << 1u64) & 0xfefefefefefefefeu64) >> 8u64) == spec_adjacent(x),
{
}

/// The slot of the shared attack table that holds the attacks of a bishop on `sq` for `blockers`:
/// the offset of the square plus the top nine bits of the masked blockers times the magic.
pub fn bishop_index(sq: i32, blockers: u64) -> (r: usize)
    requires
        0 <= sq < 64,
    ensures
        r == BISHOP_OFFSETS[sq as int] + (wrapping_mul(blockers & BISHOP_MASKS[sq as int], BISHOP_MAGICS[sq as int]) >> 55u64),
{
    let relevant_blockers = blockers & BISHOP_MASKS[sq as usize];
    let bishop_magic = BISHOP_MAGICS[sq as usize];
    let bishop_offset = BISHOP_OFFSETS[sq as usize];
    let hi = (relevant_blockers.wrapping_mul(bishop_magic)) >> 55;
    assert(hi < 512) by (bit_vector)
        requires hi == (relevant_blockers.wrapping_mul(bishop_magic)) >> 55;
    bishop_offset + hi as usize
}

/// The slot of the shared attack table that holds the attacks of a rook on `sq` for `blockers`:
/// the offset of the square plus the top twelve bits of the masked blockers times the magic.
pub fn rook_index(sq: i32, blockers: u64) -> (r: usize)
    requires
        0 <= sq < 64,
    ensures
        r == ROOK_OFFSETS[sq as int] + (wrapping_mul(blockers & ROOK_MASKS[sq as int], ROOK_MAGICS[sq as int]) >> 52u64),
{
    let relevant_blockers = blockers & ROOK_MASKS[sq as usize];
    let rook_magic = ROOK_MAGICS[sq as usize];
    let rook_offset = ROOK_OFFSETS[sq as usize];
    let hi = (relevant_blockers.wrapping_mul(rook_magic)) >> 52;
    assert(hi < 4096) by (bit_vector)
        requires hi == (relevant_blockers.wrapping_mul(rook_magic)) >> 52;
    rook_offset + hi as usize
}

/// The squares a knight on `sq` jumps to.
pub fn knight_moves(sq: Square) -> (r: Bitboard)
    requires
        sq.valid(),
    ensures
        r.0 == spec_knights(1u64 << sq.0),
{
    rays::knights(Bitboard::from_square(sq))
}

/// The squares a bishop on `sq` attacks when `blockers` are occupied.
pub fn bishop_moves(sq: i32, blockers: u64) -> (r: Bitboard)
    requires
        0 <= sq < 64,
    ensures
        r.0 == spec_bishop_attacks(sq as u8, blockers),
{
    let s = Square(sq as u8);
    let b = Bitboard(blockers);
    rays::ray_ne(s, b) | rays::ray_nw(s, b) | rays::ray_se(s, b) | rays::ray_sw(s, b)
}

/// The squares a rook on `sq` attacks when `blockers` are occupied.
pub fn rook_moves(sq: i32, blockers: u64) -> (r: Bitboard)
    requires
        0 <= sq < 64,
    ensures
        r.0 == spec_rook_attacks(sq as u8, blockers),
{
    let s = Square(sq as u8);
    let b = Bitboard(blockers);
    rays::ray_n(s, b) | rays::ray_s(s, b) | rays::ray_e(s, b) | rays::ray_w(s, b)
}

/// The squares a queen on `sq` attacks when `occ` are occupied.
pub fn queen_moves(sq: i32, occ: u64) -> (r: Bitboard)
    requires
        0 <= sq < 64,
    ensures
        r.0 == spec_bishop_attacks(sq as u8, occ) | spec_rook_attacks(sq as u8, occ),
{
    bishop_moves(sq, occ) | rook_moves(sq, occ)
}

/// The squares next to `sq`, where a king on it moves to.
pub fn king_moves(sq: i32) -> (r: Bitboard)
    requires
        0 <= sq < 64,
    ensures
        r.0 == spec_adjacent(1u64 << (sq as u8)),
{
    rays::adjacent(Square(sq as u8))
}

} // verus!

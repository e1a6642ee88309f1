use crate::chess::bitboard::{
    bit, popcount, spec_north_east, spec_north_west, spec_south_east, spec_south_west, Bitboard,
};
use crate::chess::position::Position;
use crate::chess::square::Square;
use crate::search::score::Score;
use vstd::prelude::*;
use vstd::std_specs::bits::u64_trailing_zeros;

verus! {

/// The material value of each kind of piece, pawn to king, as middlegame and endgame values.
pub const PIECE_VALUES: [[i32; 2]; 6] = [[100, 100], [300, 300], [325, 325], [500, 500], [
    900,
    900,
], [0, 0]];

/// The bonus of a passed pawn on each rank of the side to move.
pub const PASSED_PAWNS: [[i32; 2]; 8] = [[0, 0], [10, 10], [20, 20], [30, 30], [40, 40], [
    60,
    60,
], [90, 90], [0, 0]];

/// No evaluation is larger than this, or smaller than its negation.
pub const EVAL_BOUND: i32 = 50_000_000;

/// The bonus of a rook on a file without pawns.
pub const ROOK_OPEN_FILE: [i32; 2] = [25, 25];

/// The bonus of a pawn sheltering the king.
pub const KING_PAWN_SHIELD: [i32; 2] = [20, 0];

/// The piece-square tables, pawn to king: a bonus for each kind of piece on each square, as
/// middlegame and endgame values, for the side to move.
pub const PST: [[[i32; 2]; 64]; 6] = [
    [
        [0, 0], [0, 0], [0, 0], [0, 0], [0, 0], [0, 0], [0, 0], [0, 0],
        [-1, -17], [-7, -17], [-11, -17], [-35, -17], [-13, -17], [5, -17], [3, -17], [-5, -17],
        [1, -11], [1, -11], [-6, -11], [-19, -11], [-6, -11], [-7, -11], [-4, -11], [10, -11],
        [1, -7], [14, -7], [8, -7], [4, -7], [5, -7], [4, -7], [10, -7], [7, -7],
        [9, 16], [30, 16], [23, 16], [31, 16], [31, 16], [23, 16], [17, 16], [11, 16],
        [21, 55], [54, 55], [72, 55], [56, 55], [77, 55], [95, 55], [71, 55], [11, 55],
        [118, 82], [121, 82], [173, 82], [168, 82], [107, 82], [82, 82], [-16, 82], [22, 82],
        [0, 0], [0, 0], [0, 0], [0, 0], [0, 0], [0, 0], [0, 0], [0, 0],
    ],
    [
        [-99, -99], [-30, -99], [-66, -94], [-64, -88], [-29, -88], [-19, -94], [-61, -99], [-81, -99],
        [-56, -81], [-31, -62], [-28, -49], [-1, -43], [-7, -43], [-20, -49], [-42, -62], [-11, -81],
        [-38, -46], [-16, -27], [0, -15], [14, -9], [8, -9], [3, -15], [3, -27], [-42, -46],
        [-14, -22], [0, -3], [2, 10], [3, 16], [19, 16], [12, 10], [33, -3], [-7, -22],
        [-14, -7], [-4, 12], [25, 25], [33, 31], [10, 31], [33, 25], [14, 12], [43, -7],
        [-22, -2], [18, 17], [60, 30], [64, 36], [124, 36], [143, 30], [55, 17], [6, -2],
        [-34, -7], [24, 12], [54, 25], [74, 31], [60, 31], [122, 25], [2, 12], [29, -7],
        [-60, -21], [0, -3], [0, 10], [0, 16], [0, 16], [0, 10], [0, -3], [0, -21],
    ],
    [
        [-7, -27], [12, -21], [-8, -17], [-37, -15], [-31, -15], [-8, -17], [-45, -21], [-67, -27],
        [15, -10], [5, -4], [13, 0], [-10, 2], [1, 2], [2, 0], [0, -4], [15, -10],
        [5, 2], [12, 8], [14, 12], [13, 14], [10, 14], [-1, 12], [3, 8], [4, 2],
        [1, 11], [5, 17], [23, 21], [32, 23], [21, 23], [8, 21], [17, 17], [4, 11],
        [-1, 14], [16, 20], [29, 24], [27, 26], [37, 26], [27, 24], [17, 20], [4, 14],
        [7, 13], [27, 19], [20, 23], [56, 25], [91, 25], [108, 23], [53, 19], [44, 13],
        [-24, 8], [-23, 14], [30, 18], [58, 20], [65, 20], [61, 18], [69, 14], [11, 8],
        [0, -2], [0, 4], [0, 8], [0, 10], [0, 10], [0, 8], [0, 4], [0, -2],
    ],
    [
        [-2, -32], [-1, -31], [3, -30], [1, -29], [2, -29], [1, -30], [4, -31], [-8, -32],
        [-26, -27], [-6, -25], [2, -24], [-2, -24], [2, -24], [-10, -24], [-1, -25], [-29, -27],
        [-16, -15], [0, -13], [3, -12], [-3, -12], [8, -12], [-1, -12], [12, -13], [3, -15],
        [-9, 1], [-5, 2], [8, 3], [14, 4], [18, 4], [-17, 3], [13, 2], [-13, 1],
        [19, 15], [33, 17], [46, 18], [57, 18], [53, 18], [39, 18], [53, 17], [16, 15],
        [24, 25], [83, 27], [54, 28], [75, 28], [134, 28], [144, 28], [85, 27], [75, 25],
        [46, 27], [33, 28], [64, 29], [62, 30], [91, 30], [89, 29], [70, 28], [104, 27],
        [84, 16], [0, 17], [0, 18], [37, 19], [124, 19], [0, 18], [0, 17], [153, 16],
    ],
    [
        [1, -61], [-10, -55], [-11, -52], [3, -50], [-15, -50], [-51, -52], [-83, -55], [-13, -61],
        [-7, -31], [3, -26], [2, -22], [5, -21], [-1, -21], [-10, -22], [-7, -26], [-2, -31],
        [-11, -8], [0, -3], [12, 1], [2, 3], [8, 3], [11, 1], [7, -3], [-6, -8],
        [-9, 9], [5, 14], [7, 17], [9, 19], [18, 19], [17, 17], [26, 14], [4, 9],
        [-6, 19], [0, 24], [15, 28], [25, 30], [32, 30], [9, 28], [26, 24], [12, 19],
        [-16, 23], [10, 28], [13, 32], [25, 34], [37, 34], [30, 32], [15, 28], [26, 23],
        [1, 21], [11, 26], [35, 30], [0, 31], [16, 31], [55, 30], [39, 26], [57, 21],
        [-13, 12], [6, 17], [-42, 21], [0, 23], [29, 23], [0, 21], [0, 17], [102, 12],
    ],
    [
        [0, -34], [0, -30], [0, -28], [-9, -27], [0, -27], [-9, -28], [25, -30], [0, -34],
        [-9, -17], [-9, -13], [-9, -11], [-9, -10], [-9, -10], [-9, -11], [-9, -13], [-9, -17],
        [-9, -2], [-9, 2], [-9, 4], [-9, 5], [-9, 5], [-9, 4], [-9, 2], [-9, -2],
        [-9, 11], [-9, 15], [-9, 17], [-9, 18], [-9, 18], [-9, 17], [-9, 15], [-9, 11],
        [-9, 22], [-9, 26], [-9, 28], [-9, 29], [-9, 29], [-9, 28], [-9, 26], [-9, 22],
        [-9, 31], [-9, 34], [-9, 37], [-9, 38], [-9, 38], [-9, 37], [-9, 34], [-9, 31],
        [-9, 38], [-9, 41], [-9, 44], [-9, 45], [-9, 45], [-9, 44], [-9, 41], [-9, 38],
        [-9, 42], [-9, 46], [-9, 48], [-9, 50], [-9, 50], [-9, 48], [-9, 46], [-9, 42],
    ],
];

/// The sum of the piece-square bonuses of kind `k`, part `part`, over the squares below `n` of
/// the set `bb`.
pub open spec fn pst_total(k: int, part: int, bb: u64, n: nat) -> int
    decreases n,
{
    if n == 0 {
        0
    } else {
        pst_total(k, part, bb, (n - 1) as nat) + if bit(bb, (n - 1) as u64) {
            PST[k][n - 1][part] as int
        } else {
            0
        }
    }
}

/// The sum of the passed pawn bonuses, part `part`, over the squares below `n` of the set `bb`.
pub open spec fn passed_total(part: int, bb: u64, n: nat) -> int
    decreases n,
{
    if n == 0 {
        0
    } else {
        passed_total(part, bb, (n - 1) as nat) + if bit(bb, (n - 1) as u64) {
            PASSED_PAWNS[(n - 1) / 8][part] as int
        } else {
            0
        }
    }
}

/// The squares in front of the pawns of `them` or diagonally in front of them, up to five ranks
/// away (towards the first rank).
pub open spec fn spec_pawn_fronts(them: u64) -> u64 {
    let m0 = (them >> 8u64) | spec_south_east(them) | spec_south_west(them);
    let m1 = m0 | (m0 >> 8u64);
    let m2 = m1 | (m1 >> 8u64);
    let m3 = m2 | (m2 >> 8u64);
    m3 | (m3 >> 8u64)
}

/// The pawns of `us` that no pawn of `them` stands in front of, on the same or an adjacent file.
pub open spec fn spec_passed_pawns(us: u64, them: u64) -> u64 {
    us & !spec_pawn_fronts(them)
}

/// The files without a pawn of `pawns`.
pub open spec fn spec_open_files(p: u64) -> u64 {
    !((p << 56u64) | (p << 48u64) | (p << 40u64) | (p << 32u64) | (p << 24u64) | (p << 16u64) | (p
        << 8u64) | p | (p >> 8u64) | (p >> 16u64) | (p >> 24u64) | (p >> 32u64) | (p >> 40u64) | (p
        >> 48u64) | (p >> 56u64))
}

/// The three squares in front of a king and the three in front of those.
pub open spec fn spec_king_shield(ksq: u64) -> u64 {
    let bb = 1u64 << ksq;
    (bb << 8u64) | spec_north_east(bb) | spec_north_west(bb) | ((bb << 8u64) << 8u64)
        | spec_north_east(bb << 8u64) | spec_north_west(bb << 8u64)
}

/// Sum, over the kinds of piece below `n`, of the material value and the piece-square bonuses
/// of the pieces of the side to move (`part` 0 for the middlegame, 1 for the endgame).
pub open spec fn material_sum(pos: Position, part: int, n: nat) -> int
    decreases n,
{
    if n == 0 {
        0
    } else {
        let i = n - 1;
        material_sum(pos, part, (n - 1) as nat) + PIECE_VALUES[i][part] * popcount(
            pos.pc(i) & pos.us(),
        ) + pst_total(i, part, pos.pc(i) & pos.us(), 64)
    }
}

/// The evaluation of the side to move, part `part` (0 for the middlegame, 1 for the endgame):
/// its passed pawns, the pawns in front of its king, its rooks on open files, its material and
/// the squares its pieces stand on.
pub open spec fn spec_eval_us(pos: Position, part: int) -> int {
    let pawns_us = pos.pc(0) & pos.us();
    let pawns_them = pos.pc(0) & pos.them();
    let ksq = u64_trailing_zeros(pos.pc(5) & pos.us()) as u64;
    passed_total(part, spec_passed_pawns(pawns_us, pawns_them), 64)
        + KING_PAWN_SHIELD[part] * popcount(spec_king_shield(ksq) & pawns_us) + ROOK_OPEN_FILE[part]
        * popcount(spec_open_files(pos.pc(0)) & pos.us() & pos.pc(3)) + material_sum(pos, part, 6)
}

/// The passed pawns of `us` against the pawns of `them`.
pub fn get_passed_pawns(us: Bitboard, them: Bitboard) -> (r: Bitboard)
    ensures
        r.0 == spec_passed_pawns(us.0, them.0),
{
    let mut mask = them.south() | them.south_east() | them.south_west();
    mask = mask | mask.south();
    mask = mask | mask.south();
    mask = mask | mask.south();
    mask = mask | mask.south();
    us & Bitboard(!mask.0)
}

/// The files without a pawn of `pawns`.
pub fn get_open_files(pawns: Bitboard) -> (r: Bitboard)
    ensures
        r.0 == spec_open_files(pawns.0),
{
    Bitboard(
        !(pawns.0 << 56 | pawns.0 << 48 | pawns.0 << 40 | pawns.0 << 32 | pawns.0 << 24 | pawns.0
            << 16 | pawns.0 << 8 | pawns.0 | pawns.0 >> 8 | pawns.0 >> 16 | pawns.0 >> 24 | pawns.0
            >> 32 | pawns.0 >> 40 | pawns.0 >> 48 | pawns.0 >> 56),
    )
}

/// The squares that shelter a king on `ksq`.
pub fn get_king_shield(ksq: Square) -> (r: Bitboard)
    requires
        ksq.valid(),
    ensures
        r.0 == spec_king_shield(ksq.0 as u64),
{
    let bb = Bitboard::from_square(ksq);
    bb.north() | bb.north_east() | bb.north_west() | bb.north().north() | bb.north().north_east()
        | bb.north().north_west()
}

/// `a / b` rounded towards zero, as integer division does.
pub open spec fn trunc_div(a: int, b: int) -> int {
    if a >= 0 {
        a / b
    } else {
        -((-a) / b)
    }
}

/// The game phase from 256 (no pieces but kings and pawns) down: knights and bishops count 1,
/// rooks 2 and queens 4 out of 24.
pub open spec fn spec_phase(pos: Position) -> int {
    trunc_div(
        (24 - popcount(pos.pc(1)) - popcount(pos.pc(2)) - popcount(pos.pc(3)) * 2 - popcount(
            pos.pc(4),
        ) * 4) * 256 + 12,
        24,
    )
}

/// The middlegame and endgame values blended by the phase.
pub open spec fn spec_taper(mg: int, eg: int, phase: int) -> int {
    trunc_div(mg * (256 - phase) + eg * phase, 256)
}

/// The evaluation of the position for the side to move: its evaluation less that of the other
/// side, blended by the game phase.
#[verifier::opaque]
pub open spec fn spec_eval(pos: Position) -> int {
    let f = pos.spec_flip();
    spec_taper(
        spec_eval_us(pos, 0) - spec_eval_us(f, 0),
        spec_eval_us(pos, 1) - spec_eval_us(f, 1),
        spec_phase(pos),
    )
}

proof fn lemma_tables_bounded()
    ensures
        forall|k: int, sq: int, p: int|
            0 <= k < 6 && 0 <= sq < 64 && 0 <= p < 2 ==> -200 <= #[trigger] PST[k][sq][p] <= 200,
        forall|k: int, p: int| 0 <= k < 6 && 0 <= p < 2 ==> 0 <= #[trigger] PIECE_VALUES[k][p] <= 900,
        forall|r: int, p: int| 0 <= r < 8 && 0 <= p < 2 ==> 0 <= #[trigger] PASSED_PAWNS[r][p] <= 90,
{
    assert forall|k: int, sq: int, p: int|
        0 <= k < 6 && 0 <= sq < 64 && 0 <= p < 2 implies -200 <= #[trigger] PST[k][sq][p] <= 200 by {
        assert(PST[0]@.len() == 64);
    }
}

/// The sum of the piece-square bonuses of kind `k`, part `part`, over the squares of `bb`.
fn pst_sum(k: usize, part: usize, bb: Bitboard) -> (r: i32)
    requires
        k < 6,
        part < 2,
    ensures
        r == pst_total(k as int, part as int, bb.0, 64),
        -12800 <= r <= 12800,
{
    proof {
        lemma_tables_bounded();
    }
    let mut acc: i32 = 0;
    let mut sq: u8 = 0;
    while sq < 64
        invariant
            sq <= 64,
            k < 6,
            part < 2,
            acc == pst_total(k as int, part as int, bb.0, sq as nat),
            -200 * sq <= acc <= 200 * sq,
            forall|k: int, s: int, p: int|
                0 <= k < 6 && 0 <= s < 64 && 0 <= p < 2 ==> -200 <= #[trigger] PST[k][s][p] <= 200,
        decreases 64 - sq,
    {
        if bb.is_set(Square(sq)) {
            acc = acc + PST[k][sq as usize][part];
        }
        sq = sq + 1;
    }
    acc
}

/// The sum of the passed pawn bonuses, part `part`, over the squares of `bb`.
fn passed_sum(part: usize, bb: Bitboard) -> (r: i32)
    requires
        part < 2,
    ensures
        r == passed_total(part as int, bb.0, 64),
        0 <= r <= 5760,
{
    proof {
        lemma_tables_bounded();
    }
    let mut acc: i32 = 0;
    let mut sq: u8 = 0;
    while sq < 64
        invariant
            sq <= 64,
            part < 2,
            acc == passed_total(part as int, bb.0, sq as nat),
            0 <= acc <= 90 * sq,
            forall|r: int, p: int| 0 <= r < 8 && 0 <= p < 2 ==> 0 <= #[trigger] PASSED_PAWNS[r][p] <= 90,
        decreases 64 - sq,
    {
        if bb.is_set(Square(sq)) {
            assert(0 <= PASSED_PAWNS[(sq / 8) as int][part as int] <= 90);
            acc = acc + PASSED_PAWNS[(sq / 8) as usize][part];
        }
        sq = sq + 1;
    }
    acc
}

/// Part `part` (0 for the middlegame, 1 for the endgame) of the evaluation of the side to move.
fn eval_part(pos: &Position, part: usize) -> (r: i32)
    requires
        part < 2,
        pos.pc(5) & pos.us() != 0,
    ensures
        r == spec_eval_us(*pos, part as int),
        -500000 <= r <= 500000,
{
    proof {
        lemma_tables_bounded();
    }
    let ksq = (pos.get_kings() & pos.get_us()).lsb();
    let pawns_us = pos.get_pawns() & pos.get_us();
    let pawns_them = pos.get_pawns() & pos.get_them();
    let open_files = get_open_files(pos.get_pawns());
    // Passed pawns
    let mut total: i32 = passed_sum(part, get_passed_pawns(pawns_us, pawns_them));
    // King pawn shield
    let shield = (get_king_shield(ksq) & pawns_us).count();
    assert(0 <= KING_PAWN_SHIELD[part as int] <= 20);
    assert(0 <= KING_PAWN_SHIELD[part as int] * shield <= 1280) by (nonlinear_arith)
        requires
            0 <= KING_PAWN_SHIELD[part as int] <= 20,
            0 <= shield <= 64,
    ;
    total = total + KING_PAWN_SHIELD[part] * shield;
    // Rooks on open files
    let rooks = (open_files & pos.get_us() & pos.get_rooks()).count();
    assert(0 <= ROOK_OPEN_FILE[part as int] * rooks <= 1600) by (nonlinear_arith)
        requires
            0 <= ROOK_OPEN_FILE[part as int] <= 25,
            0 <= rooks <= 64,
    ;
    total = total + ROOK_OPEN_FILE[part] * rooks;
    let ghost base = total as int;
    // Material and piece-square bonuses
    let mut i: usize = 0;
    while i < 6
        invariant
            i <= 6,
            part < 2,
            0 <= base <= 8640,
            total == base + material_sum(*pos, part as int, i as nat),
            -70400 * i <= total - base <= 70400 * i,
            forall|k: int, p: int| 0 <= k < 6 && 0 <= p < 2 ==> 0 <= #[trigger] PIECE_VALUES[k][p] <= 900,
        decreases 6 - i,
    {
        let bb = pos.get_piece(i) & pos.get_us();
        let n = bb.count();
        assert(0 <= PIECE_VALUES[i as int][part as int] <= 900);
        assert(0 <= PIECE_VALUES[i as int][part as int] * n <= 57600) by (nonlinear_arith)
            requires
                0 <= PIECE_VALUES[i as int][part as int] <= 900,
                0 <= n <= 64,
        ;
        total = total + PIECE_VALUES[i][part] * n;
        total = total + pst_sum(i, part, bb);
        i = i + 1;
    }
    total
}

/// The evaluation of the side to move: middlegame and endgame values.
pub fn eval_us(pos: &Position) -> (r: Score)
    requires
        pos.pc(5) & pos.us() != 0,
    ensures
        r.0 == spec_eval_us(*pos, 0),
        r.1 == spec_eval_us(*pos, 1),
        -500000 <= r.0 <= 500000,
        -500000 <= r.1 <= 500000,
{
    Score(eval_part(pos, 0), eval_part(pos, 1))
}

/// The game phase of the position.
pub fn get_phase(pos: &Position) -> (r: i32)
    ensures
        r == spec_phase(*pos),
        -5205 <= r <= 256,
{
    let phase = 24 - pos.get_knights().count() - pos.get_bishops().count() - pos.get_rooks().count()
        * 2 - pos.get_queens().count() * 4;
    let num = phase * 256 + 12;
    if num >= 0 {
        num / 24
    } else {
        -((-num) / 24)
    }
}

/// The two values of `score` blended by `phase`.
pub fn taper(score: &Score, phase: i32) -> (r: i32)
    requires
        -1000000 <= score.0 <= 1000000,
        -1000000 <= score.1 <= 1000000,
        -5205 <= phase <= 256,
    ensures
        r == spec_taper(score.0 as int, score.1 as int, phase as int),
        -EVAL_BOUND <= r <= EVAL_BOUND,
{
    let mg = score.mg() as i64;
    let eg = score.eg() as i64;
    let p = phase as i64;
    assert(-1000000 * 5461 <= mg * (256 - p) <= 1000000 * 5461) by (nonlinear_arith)
        requires
            -1000000 <= mg <= 1000000,
            0 <= 256 - p <= 5461,
    ;
    assert(-1000000 * 5205 <= eg * p <= 1000000 * 5205) by (nonlinear_arith)
        requires
            -1000000 <= eg <= 1000000,
            -5205 <= p <= 256,
    ;
    let num = mg * (256 - p) + eg * p;
    let t = if num >= 0 {
        num / 256
    } else {
        -((-num) / 256)
    };
    assert(-50000000 <= t <= 50000000) by (nonlinear_arith)
        requires
            -10666000000 <= num <= 10666000000,
            num >= 0 ==> t == num / 256,
            num < 0 ==> t == -((-num) / 256),
    ;
    t as i32
}

/// The squares of `x` mirrored top to bottom hold a square when `x` does.
proof fn lemma_flip_nonempty(x: u64, y: u64)
    requires
        x & y != 0,
    ensures
        crate::chess::bitboard::spec_swap_bytes(x) & crate::chess::bitboard::spec_swap_bytes(y) != 0,
{
    crate::chess::bitboard::lemma_empty_iff(x & y);
    assert(exists|s: u64| s < 64 && #[trigger] bit(x & y, s));
    let s = choose|s: u64| s < 64 && #[trigger] bit(x & y, s);
    assert(s ^ 56u64 < 64) by (bit_vector)
        requires
            s < 64,
    ;
    let t = s ^ 56u64;
    assert(t ^ 56u64 == s) by (bit_vector)
        requires
            t == s ^ 56u64,
    ;
    crate::chess::bitboard::lemma_bit_ops(x, y, s);
    crate::chess::bitboard::lemma_bit_shifts(x, t);
    crate::chess::bitboard::lemma_bit_shifts(y, t);
    let fx = crate::chess::bitboard::spec_swap_bytes(x);
    let fy = crate::chess::bitboard::spec_swap_bytes(y);
    crate::chess::bitboard::lemma_bit_ops(fx, fy, t);
    crate::chess::bitboard::lemma_empty_iff(fx & fy);
}

/// The evaluation of the position for the side to move.
pub fn eval(pos: &Position) -> (r: i32)
    requires
        pos.pc(5) & pos.us() != 0,
        pos.pc(5) & pos.them() != 0,
    ensures
        r == spec_eval(*pos),
        -EVAL_BOUND <= r <= EVAL_BOUND,
{
    let flipped = Position::from_flipped(pos);
    proof {
        lemma_flip_nonempty(pos.pc(5), pos.them());
        reveal(spec_eval);
    }
    let ours = eval_us(pos);
    let theirs = eval_us(&flipped);
    let score = ours - theirs;
    let phase = get_phase(pos);
    taper(&score, phase)
}

/// The number of set bits of `x` among the `n` bits from `base` on.
pub open spec fn count_in(x: u64, base: int, n: nat) -> nat
    decreases n,
{
    if n == 0 {
        0
    } else {
        count_in(x, base, (n - 1) as nat) + if bit(x, (base + n - 1) as u64) { 1nat } else { 0nat }
    }
}

/// Counting the bits below `b + n` counts those below `b` and the `n` from `b` on.
proof fn lemma_count_split(x: u64, b: nat, n: nat)
    ensures
        crate::chess::bitboard::count_below(x, b + n) == crate::chess::bitboard::count_below(x, b)
            + count_in(x, b as int, n),
    decreases n,
{
    if n > 0 {
        lemma_count_split(x, b, (n - 1) as nat);
        assert((b + n - 1) as nat == (b + (n - 1)) as nat);
    }
}

/// Square `8k + j` turned round is square `8(7 - k) + j`.
proof fn lemma_turn_byte(k: u64, j: u64)
    by (bit_vector)
    requires
        k < 8,
        j < 8,
    ensures
        ((8 * k + j) as u64) ^ 56u64 == (8 * (7 - k) + j) as u64,
{
}

/// A byte of the board turned round holds as many squares as the mirrored byte of the board.
proof fn lemma_count_byte_swap(x: u64, k: int, n: nat)
    requires
        0 <= k < 8,
        n <= 8,
    ensures
        count_in(crate::chess::bitboard::spec_swap_bytes(x), 8 * k, n) == count_in(x, 8 * (7 - k), n),
    decreases n,
{
    if n > 0 {
        lemma_count_byte_swap(x, k, (n - 1) as nat);
        let j = (n - 1) as u64;
        lemma_turn_byte(k as u64, j);
        crate::chess::bitboard::lemma_bit_shifts(x, (8 * k + j) as u64);
    }
}

/// Turning the board round keeps the number of squares of a set.
pub proof fn lemma_popcount_swap(x: u64)
    ensures
        popcount(crate::chess::bitboard::spec_swap_bytes(x)) == popcount(x),
{
    let y = crate::chess::bitboard::spec_swap_bytes(x);
    lemma_count_byte_swap(x, 0, 8);
    lemma_count_byte_swap(x, 1, 8);
    lemma_count_byte_swap(x, 2, 8);
    lemma_count_byte_swap(x, 3, 8);
    lemma_count_byte_swap(x, 4, 8);
    lemma_count_byte_swap(x, 5, 8);
    lemma_count_byte_swap(x, 6, 8);
    lemma_count_byte_swap(x, 7, 8);
    assert forall|z: u64| #[trigger] crate::chess::bitboard::count_below(z, 64) == count_in(z, 0, 8) + count_in(z, 8, 8)
        + count_in(z, 16, 8) + count_in(z, 24, 8) + count_in(z, 32, 8) + count_in(z, 40, 8) + count_in(z, 48, 8)
        + count_in(z, 56, 8) by {
        lemma_count_split(z, 0, 8);
        lemma_count_split(z, 8, 8);
        lemma_count_split(z, 16, 8);
        lemma_count_split(z, 24, 8);
        lemma_count_split(z, 32, 8);
        lemma_count_split(z, 40, 8);
        lemma_count_split(z, 48, 8);
        lemma_count_split(z, 56, 8);
        assert(crate::chess::bitboard::count_below(z, 0) == 0);
    }
    assert(count_in(y, 0, 8) == count_in(x, 56, 8));
    assert(count_in(y, 8, 8) == count_in(x, 48, 8));
    assert(count_in(y, 16, 8) == count_in(x, 40, 8));
    assert(count_in(y, 24, 8) == count_in(x, 32, 8));
    assert(count_in(y, 32, 8) == count_in(x, 24, 8));
    assert(count_in(y, 40, 8) == count_in(x, 16, 8));
    assert(count_in(y, 48, 8) == count_in(x, 8, 8));
    assert(count_in(y, 56, 8) == count_in(x, 0, 8));
    assert(popcount(y) == crate::chess::bitboard::count_below(y, 64));
    assert(popcount(x) == crate::chess::bitboard::count_below(x, 64));
}

/// The evaluation is the same seen from either side: the position turned round, the other side
/// to move, scores the negation.
pub proof fn lemma_eval_flip(pos: Position)
    ensures
        spec_eval(pos.spec_flip()) == -spec_eval(pos),
{
    reveal(spec_eval);
    let f = pos.spec_flip();
    crate::chess::position::lemma_position_flip_involution(pos);
    lemma_popcount_swap(pos.pc(1));
    lemma_popcount_swap(pos.pc(2));
    lemma_popcount_swap(pos.pc(3));
    lemma_popcount_swap(pos.pc(4));
    assert(spec_phase(f) == spec_phase(pos));
    let mg = spec_eval_us(pos, 0) - spec_eval_us(f, 0);
    let eg = spec_eval_us(pos, 1) - spec_eval_us(f, 1);
    let ph = spec_phase(pos);
    assert((-mg) * (256 - ph) + (-eg) * ph == -(mg * (256 - ph) + eg * ph)) by (nonlinear_arith);
}

} // verus!

verus! {

/// The starting position is the same board seen from either side.
proof fn lemma_startpos_symmetric()
    by (bit_vector)
    ensures
        crate::chess::bitboard::spec_swap_bytes(0xFFFFu64) == 0xFFFF000000000000u64,
        crate::chess::bitboard::spec_swap_bytes(0xFFFF000000000000u64) == 0xFFFFu64,
        crate::chess::bitboard::spec_swap_bytes(0x00FF00000000FF00u64) == 0x00FF00000000FF00u64,
        crate::chess::bitboard::spec_swap_bytes(0x4200000000000042u64) == 0x4200000000000042u64,
        crate::chess::bitboard::spec_swap_bytes(0x2400000000000024u64) == 0x2400000000000024u64,
        crate::chess::bitboard::spec_swap_bytes(0x8100000000000081u64) == 0x8100000000000081u64,
        crate::chess::bitboard::spec_swap_bytes(0x800000000000008u64) == 0x800000000000008u64,
        crate::chess::bitboard::spec_swap_bytes(0x1000000000000010u64) == 0x1000000000000010u64,
{
}

/// The material and placement sum reads only the board.
proof fn lemma_material_board(a: Position, b: Position, part: int, n: nat)
    requires
        a.colours == b.colours,
        a.pieces == b.pieces,
    ensures
        material_sum(a, part, n) == material_sum(b, part, n),
    decreases n,
{
    if n > 0 {
        lemma_material_board(a, b, part, (n - 1) as nat);
    }
}

/// The starting position evaluates to 0.
pub proof fn lemma_eval_startpos()
    ensures
        spec_eval(Position::spec_startpos()) == 0,
{
    let s = Position::spec_startpos();
    let f = s.spec_flip();
    lemma_startpos_symmetric();
    let t = Position { turn: crate::chess::colour::Colour::Black, ..s };
    assert(f.colours =~= t.colours);
    assert(f.pieces =~= t.pieces);
    assert(f == t);
    assert(spec_eval(t) == spec_eval(s)) by {
        reveal(spec_eval);
        lemma_material_board(t, s, 0, 6);
        lemma_material_board(t, s, 1, 6);
        lemma_material_board(t.spec_flip(), s.spec_flip(), 0, 6);
        lemma_material_board(t.spec_flip(), s.spec_flip(), 1, 6);
    }
    lemma_eval_flip(s);
}

} // verus!

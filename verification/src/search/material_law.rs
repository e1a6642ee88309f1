use crate::chess::bitboard::popcount;
use crate::chess::position::Position;
use crate::search::greedy::spec_material;
use vstd::prelude::*;

verus! {

/// The worth of a piece of kind `k` in the material count: pawn 100, knight 300, bishop 320,
/// rook 500, queen 900, king nothing.
pub open spec fn piece_worth(k: int) -> int {
    if k == 0 {
        100
    } else if k == 1 {
        300
    } else if k == 2 {
        320
    } else if k == 3 {
        500
    } else if k == 4 {
        900
    } else {
        0
    }
}

/// Adding a square to a set that lacks it adds one to its count.
proof fn lemma_count_add(x: u64, s: u64, n: nat)
    requires
        s < 64,
        n <= 64,
        !crate::chess::bitboard::bit(x, s),
    ensures
        crate::chess::bitboard::count_below(x | (1u64 << s), n) == crate::chess::bitboard::count_below(x, n)
            + if s < n { 1nat } else { 0nat },
    decreases n,
{
    if n > 0 {
        lemma_count_add(x, s, (n - 1) as nat);
        crate::chess::bitboard::lemma_bit_ops(x, 1u64 << s, (n - 1) as u64);
        crate::chess::bitboard::lemma_bit_single(s, (n - 1) as u64);
    }
}

/// Two sets with the same squares have the same count.
proof fn lemma_same_bits_count(x: u64, y: u64)
    requires
        forall|t: u64| t < 64 ==> #[trigger] crate::chess::bitboard::bit(x, t) == crate::chess::bitboard::bit(y, t),
    ensures
        popcount(x) == popcount(y),
{
    crate::chess::bitboard::lemma_bits_ext(x, y);
}

/// The count of pieces of kind `i` of one side after a piece of kind `k` is put on the empty
/// square `s`, for that side or for the other.
proof fn lemma_count_after_put(pi: u64, c: u64, s: u64, same_kind: bool, same_side: bool)
    requires
        s < 64,
        !crate::chess::bitboard::bit(pi, s),
        !crate::chess::bitboard::bit(c, s),
    ensures
        popcount((if same_kind { pi | (1u64 << s) } else { pi }) & (if same_side { c | (1u64 << s) } else { c }))
            == popcount(pi & c) + if same_kind && same_side { 1nat } else { 0nat },
{
    let a = if same_kind { pi | (1u64 << s) } else { pi };
    let b = if same_side { c | (1u64 << s) } else { c };
    if same_kind && same_side {
        assert forall|t: u64| t < 64 implies #[trigger] crate::chess::bitboard::bit(a & b, t)
            == crate::chess::bitboard::bit((pi & c) | (1u64 << s), t) by {
            crate::chess::bitboard::lemma_bit_ops(a, b, t);
            crate::chess::bitboard::lemma_bit_ops(pi, 1u64 << s, t);
            crate::chess::bitboard::lemma_bit_ops(c, 1u64 << s, t);
            crate::chess::bitboard::lemma_bit_ops(pi & c, 1u64 << s, t);
            crate::chess::bitboard::lemma_bit_ops(pi, c, t);
        }
        lemma_same_bits_count(a & b, (pi & c) | (1u64 << s));
        crate::chess::bitboard::lemma_bit_ops(pi, c, s);
        lemma_count_add(pi & c, s, 64);
    } else {
        assert forall|t: u64| t < 64 implies #[trigger] crate::chess::bitboard::bit(a & b, t)
            == crate::chess::bitboard::bit(pi & c, t) by {
            crate::chess::bitboard::lemma_bit_ops(a, b, t);
            crate::chess::bitboard::lemma_bit_ops(pi, 1u64 << s, t);
            crate::chess::bitboard::lemma_bit_ops(c, 1u64 << s, t);
            crate::chess::bitboard::lemma_bit_ops(pi, c, t);
            crate::chess::bitboard::lemma_bit_single(s, t);
        }
        lemma_same_bits_count(a & b, pi & c);
    }
}

/// Putting a pawn, knight, bishop, rook or queen of the side to move on an empty square raises
/// the material balance by its worth; putting one of the other side there lowers it by its worth.
pub proof fn lemma_material_extra_piece(p: Position, q: Position, k: int, s: u64, ours: bool)
    requires
        0 <= k < 6,
        s < 64,
        forall|i: int| 0 <= i < 6 ==> !crate::chess::bitboard::bit(#[trigger] p.pc(i), s),
        !crate::chess::bitboard::bit(p.us(), s),
        !crate::chess::bitboard::bit(p.them(), s),
        forall|i: int| 0 <= i < 6 ==> #[trigger] q.pc(i) == if i == k { p.pc(i) | (1u64 << s) } else { p.pc(i) },
        q.us() == if ours { p.us() | (1u64 << s) } else { p.us() },
        q.them() == if ours { p.them() } else { p.them() | (1u64 << s) },
    ensures
        spec_material(q) == spec_material(p) + if ours { piece_worth(k) } else { -piece_worth(k) },
{
    assert forall|i: int| 0 <= i < 5 implies #[trigger] popcount(q.pc(i) & q.us()) == popcount(p.pc(i) & p.us())
        + (if i == k && ours { 1nat } else { 0nat }) by {
        lemma_count_after_put(p.pc(i), p.us(), s, i == k, ours);
    }
    assert forall|i: int| 0 <= i < 5 implies #[trigger] popcount(q.pc(i) & q.them()) == popcount(p.pc(i) & p.them())
        + (if i == k && !ours { 1nat } else { 0nat }) by {
        lemma_count_after_put(p.pc(i), p.them(), s, i == k, !ours);
    }
    assert(popcount(q.pc(0) & q.us()) == popcount(p.pc(0) & p.us()) + (if 0 == k && ours { 1nat } else { 0nat }));
    assert(popcount(q.pc(1) & q.us()) == popcount(p.pc(1) & p.us()) + (if 1 == k && ours { 1nat } else { 0nat }));
    assert(popcount(q.pc(2) & q.us()) == popcount(p.pc(2) & p.us()) + (if 2 == k && ours { 1nat } else { 0nat }));
    assert(popcount(q.pc(3) & q.us()) == popcount(p.pc(3) & p.us()) + (if 3 == k && ours { 1nat } else { 0nat }));
    assert(popcount(q.pc(4) & q.us()) == popcount(p.pc(4) & p.us()) + (if 4 == k && ours { 1nat } else { 0nat }));
    assert(popcount(q.pc(0) & q.them()) == popcount(p.pc(0) & p.them()) + (if 0 == k && !ours { 1nat } else { 0nat }));
    assert(popcount(q.pc(1) & q.them()) == popcount(p.pc(1) & p.them()) + (if 1 == k && !ours { 1nat } else { 0nat }));
    assert(popcount(q.pc(2) & q.them()) == popcount(p.pc(2) & p.them()) + (if 2 == k && !ours { 1nat } else { 0nat }));
    assert(popcount(q.pc(3) & q.them()) == popcount(p.pc(3) & p.them()) + (if 3 == k && !ours { 1nat } else { 0nat }));
    assert(popcount(q.pc(4) & q.them()) == popcount(p.pc(4) & p.them()) + (if 4 == k && !ours { 1nat } else { 0nat }));
}

} // verus!

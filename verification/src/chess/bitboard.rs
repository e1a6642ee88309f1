use crate::chess::square::Square;
use vstd::prelude::*;
use vstd::std_specs::bits::{axiom_u64_leading_zeros, axiom_u64_trailing_zeros, u64_leading_zeros, u64_trailing_zeros};
use vstd::std_specs::ops::{BitAndSpecImpl, BitOrSpecImpl, BitXorSpecImpl, NotSpecImpl};

verus! {

/// A set of squares, one bit per square: bit `s` stands for square `s`.
#[derive(Debug, Copy, Clone, PartialEq, Eq, Structural)]
pub struct Bitboard(pub u64);

/// Bit `s` of `x` is set.
pub open spec fn bit(x: u64, s: u64) -> bool {
    (x >> s) & 1u64 == 1u64
}

/// The number of set bits of `x` among the lowest `n`.
pub open spec fn count_below(x: u64, n: nat) -> nat
    decreases n,
{
    if n == 0 {
        0
    } else {
        count_below(x, (n - 1) as nat) + if bit(x, (n - 1) as u64) { 1nat } else { 0nat }
    }
}

/// The number of set bits of `x`.
pub open spec fn popcount(x: u64) -> nat {
    count_below(x, 64)
}

/// `x` with its eight bytes in reverse order: the board mirrored top to bottom.
pub open spec fn spec_swap_bytes(x: u64) -> u64 {
    ((x & 0xffu64) << 56u64) | ((x & 0xff00u64) << 40u64) | ((x & 0xff0000u64) << 24u64) | ((x
        & 0xff000000u64) << 8u64) | ((x >> 8u64) & 0xff000000u64) | ((x >> 24u64) & 0xff0000u64)
        | ((x >> 40u64) & 0xff00u64) | (x >> 56u64)
}

pub open spec fn spec_east(x: u64) -> u64 {
    (x << 1u64) & 0xfefefefefefefefeu64
}

pub open spec fn spec_west(x: u64) -> u64 {
    (x >> 1u64) & 0x7f7f7f7f7f7f7f7fu64
}

pub open spec fn spec_north_east(x: u64) -> u64 {
    (x << 9u64) & 0xfefefefefefefefeu64
}

pub open spec fn spec_north_west(x: u64) -> u64 {
    (x << 7u64) & 0x7f7f7f7f7f7f7f7fu64
}

pub open spec fn spec_south_east(x: u64) -> u64 {
    (x >> 7u64) & 0xfefefefefefefefeu64
}

pub open spec fn spec_south_west(x: u64) -> u64 {
    (x >> 9u64) & 0x7f7f7f7f7f7f7f7fu64
}

pub open spec fn spec_adjacent(x: u64) -> u64 {
    (x << 8u64) | (x >> 8u64) | (((x << 7u64) | (x >> 9u64) | (x >> 1u64)) & 0x7f7f7f7f7f7f7f7fu64)
        | (((x >> 7u64) | (x << 9u64) | (x << 1u64)) & 0xfefefefefefefefeu64)
}

/// The bits of the set operations, square by square.
pub proof fn lemma_bit_ops(x: u64, y: u64, s: u64)
    by (bit_vector)
    requires
        s < 64,
    ensures
        bit(x & y, s) == (bit(x, s) && bit(y, s)),
        bit(x | y, s) == (bit(x, s) || bit(y, s)),
        bit(x ^ y, s) == (bit(x, s) != bit(y, s)),
        bit(!x, s) == !bit(x, s),
        !bit(0u64, s),
        bit(0xffffffffffffffffu64, s),
        (x >> s) & 1u64 == 1u64 || (x >> s) & 1u64 == 0u64,
{
}

/// The bits of a single-square set.
pub proof fn lemma_bit_single(t: u64, s: u64)
    by (bit_vector)
    requires
        s < 64,
        t < 64,
    ensures
        bit(1u64 << t, s) == (s == t),
        1u64 << t != 0u64,
{
}

/// What each shift of the board does to a square: the square it came from.
pub proof fn lemma_bit_shifts(x: u64, s: u64)
    by (bit_vector)
    requires
        s < 64,
    ensures
        bit(x << 8u64, s) == (s >= 8 && bit(x, (s - 8) as u64)),
        bit(x >> 8u64, s) == (s < 56 && bit(x, (s + 8) as u64)),
        bit(x << 16u64, s) == (s >= 16 && bit(x, (s - 16) as u64)),
        bit(spec_east(x), s) == (s % 8 != 0 && bit(x, (s - 1) as u64)),
        bit(spec_west(x), s) == (s % 8 != 7 && bit(x, (s + 1) as u64)),
        bit(spec_north_east(x), s) == (s >= 9 && s % 8 != 0 && bit(x, (s - 9) as u64)),
        bit(spec_north_west(x), s) == (s >= 8 && s % 8 != 7 && bit(x, (s - 7) as u64)),
        bit(spec_south_east(x), s) == (s < 56 && s % 8 != 0 && bit(x, (s + 7) as u64)),
        bit(spec_south_west(x), s) == (s < 55 && s % 8 != 7 && bit(x, (s + 9) as u64)),
        bit(spec_swap_bytes(x), s) == bit(x, s ^ 56u64),
        spec_swap_bytes(spec_swap_bytes(x)) == x,
        bit(0xFF000000u64, s) ==> 24 <= s < 32,
        spec_east(x << 8u64) == spec_north_east(x),
        spec_west(x << 8u64) == spec_north_west(x),
        spec_adjacent(x) == (x << 8u64) | (x >> 8u64) | spec_west(x) | spec_east(x)
            | spec_north_east(x) | spec_north_west(x) | spec_south_east(x) | spec_south_west(x),
{
}

/// The bits of the set operations, square by square, for the solver to use on its own.
pub broadcast proof fn lemma_bit_and(x: u64, y: u64, s: u64)
    requires
        s < 64,
    ensures
        #[trigger] bit(x & y, s) == (bit(x, s) && bit(y, s)),
{
    lemma_bit_ops(x, y, s);
}

pub broadcast proof fn lemma_bit_or(x: u64, y: u64, s: u64)
    requires
        s < 64,
    ensures
        #[trigger] bit(x | y, s) == (bit(x, s) || bit(y, s)),
{
    lemma_bit_ops(x, y, s);
}

pub broadcast proof fn lemma_bit_xor(x: u64, y: u64, s: u64)
    requires
        s < 64,
    ensures
        #[trigger] bit(x ^ y, s) == (bit(x, s) != bit(y, s)),
{
    lemma_bit_ops(x, y, s);
}

pub broadcast proof fn lemma_bit_not(x: u64, s: u64)
    requires
        s < 64,
    ensures
        #[trigger] bit(!x, s) == !bit(x, s),
{
    lemma_bit_ops(x, x, s);
}

pub broadcast proof fn lemma_bit_zero(s: u64)
    requires
        s < 64,
    ensures
        !#[trigger] bit(0u64, s),
{
    lemma_bit_ops(0u64, 0u64, s);
}

pub broadcast proof fn lemma_bit_one(t: u64, s: u64)
    requires
        s < 64,
        t < 64,
    ensures
        #[trigger] bit(1u64 << t, s) == (s == t),
{
    lemma_bit_single(t, s);
}

pub broadcast proof fn lemma_bit_north(x: u64, s: u64)
    requires
        s < 64,
    ensures
        #[trigger] bit(x << 8u64, s) == (s >= 8 && bit(x, (s - 8) as u64)),
{
    lemma_bit_shifts(x, s);
}

pub broadcast proof fn lemma_bit_south(x: u64, s: u64)
    requires
        s < 64,
    ensures
        #[trigger] bit(x >> 8u64, s) == (s < 56 && bit(x, (s + 8) as u64)),
{
    lemma_bit_shifts(x, s);
}

pub broadcast proof fn lemma_bit_north_north(x: u64, s: u64)
    requires
        s < 64,
    ensures
        #[trigger] bit(x << 16u64, s) == (s >= 16 && bit(x, (s - 16) as u64)),
{
    lemma_bit_shifts(x, s);
}

pub broadcast proof fn lemma_bit_east(x: u64, s: u64)
    requires
        s < 64,
    ensures
        #[trigger] bit(spec_east(x), s) == (s % 8 != 0 && bit(x, (s - 1) as u64)),
{
    lemma_bit_shifts(x, s);
}

pub broadcast proof fn lemma_bit_west(x: u64, s: u64)
    requires
        s < 64,
    ensures
        #[trigger] bit(spec_west(x), s) == (s % 8 != 7 && bit(x, (s + 1) as u64)),
{
    lemma_bit_shifts(x, s);
}

pub broadcast proof fn lemma_bit_north_east(x: u64, s: u64)
    requires
        s < 64,
    ensures
        #[trigger] bit(spec_north_east(x), s) == (s >= 9 && s % 8 != 0 && bit(x, (s - 9) as u64)),
{
    lemma_bit_shifts(x, s);
}

pub broadcast proof fn lemma_bit_north_west(x: u64, s: u64)
    requires
        s < 64,
    ensures
        #[trigger] bit(spec_north_west(x), s) == (s >= 8 && s % 8 != 7 && bit(x, (s - 7) as u64)),
{
    lemma_bit_shifts(x, s);
}

pub broadcast proof fn lemma_bit_south_east(x: u64, s: u64)
    requires
        s < 64,
    ensures
        #[trigger] bit(spec_south_east(x), s) == (s < 56 && s % 8 != 0 && bit(x, (s + 7) as u64)),
{
    lemma_bit_shifts(x, s);
}

pub broadcast proof fn lemma_bit_south_west(x: u64, s: u64)
    requires
        s < 64,
    ensures
        #[trigger] bit(spec_south_west(x), s) == (s < 55 && s % 8 != 7 && bit(x, (s + 9) as u64)),
{
    lemma_bit_shifts(x, s);
}

pub broadcast group group_bit_facts {
    lemma_bit_and,
    lemma_bit_or,
    lemma_bit_xor,
    lemma_bit_not,
    lemma_bit_zero,
    lemma_bit_one,
    lemma_bit_north,
    lemma_bit_south,
    lemma_bit_north_north,
    lemma_bit_east,
    lemma_bit_west,
    lemma_bit_north_east,
    lemma_bit_north_west,
    lemma_bit_south_east,
    lemma_bit_south_west,
}

/// A set of squares is empty exactly when no square is in it.
pub proof fn lemma_empty_iff(x: u64)
    ensures
        x == 0 <==> forall|s: u64| s < 64 ==> !#[trigger] bit(x, s),
{
    axiom_u64_trailing_zeros(x);
    if x == 0 {
        assert forall|s: u64| s < 64 implies !#[trigger] bit(x, s) by {
            lemma_bit_ops(x, x, s);
        }
    } else {
        let t = u64_trailing_zeros(x) as u64;
        assert(bit(x, t));
    }
}

/// Two sets with the same squares are the same set.
pub proof fn lemma_bits_ext(x: u64, y: u64)
    requires
        forall|s: u64| s < 64 ==> #[trigger] bit(x, s) == bit(y, s),
    ensures
        x == y,
{
    assert forall|s: u64| s < 64 implies !#[trigger] bit(x ^ y, s) by {
        lemma_bit_ops(x, y, s);
    }
    lemma_empty_iff(x ^ y);
    lemma_xor_zero(x, y);
}

proof fn lemma_xor_zero(x: u64, y: u64)
    by (bit_vector)
    ensures
        (x ^ y == 0u64) == (x == y),
{
}

proof fn lemma_count_below_le(x: u64, n: nat)
    ensures
        count_below(x, n) <= n,
    decreases n,
{
    if n > 0 {
        lemma_count_below_le(x, (n - 1) as nat);
    }
}

/// The number of squares in a set is at most 64.
pub proof fn lemma_popcount_le(x: u64)
    ensures
        popcount(x) <= 64,
{
    lemma_count_below_le(x, 64);
}

/// `u64::count_ones`: the number of one bits of the argument.
#[verifier::external_body]
fn u64_count_ones(x: u64) -> (r: u32)
    ensures
        r as nat == popcount(x),
{
    x.count_ones()
}

impl Bitboard {
    /// Square `s` is in the set.
    pub open spec fn has(self, s: int) -> bool {
        0 <= s < 64 && bit(self.0, s as u64)
    }

    pub fn from_index(sq: u8) -> (r: Self)
        requires
            sq < 64,
        ensures
            r.0 == 1u64 << sq,
            forall|s: int| #[trigger] r.has(s) <==> s == sq,
    {
        proof {
            assert forall|s: int| #[trigger] Bitboard(1u64 << sq).has(s) <==> s == sq by {
                if 0 <= s < 64 {
                    lemma_bit_single(sq as u64, s as u64);
                }
            }
        }
        Self(1u64 << sq)
    }

    pub fn from_square(sq: Square) -> (r: Self)
        requires
            sq.valid(),
        ensures
            r.0 == 1u64 << sq.0,
            forall|s: int| #[trigger] r.has(s) <==> s == sq.0,
    {
        Self::from_index(sq.0)
    }

    /// The whole file of `sq`.
    pub fn from_file(sq: Square) -> (r: Self)
        requires
            sq.valid(),
        ensures
            r.0 == 0x101010101010101u64 << (sq.0 % 8),
    {
        Self(0x101010101010101u64 << (sq.0 % 8))
    }

    /// The files to the left and the right of the file of `sq`.
    pub fn from_adj_files(sq: Square) -> (r: Self)
        requires
            sq.valid(),
        ensures
            r.0 == spec_east(0x101010101010101u64 << (sq.0 % 8)) | spec_west(
                0x101010101010101u64 << (sq.0 % 8),
            ),
    {
        Self::from_file(sq).east() | Self::from_file(sq).west()
    }

    /// The whole rank of `sq`.
    pub fn from_rank(sq: Square) -> (r: Self)
        requires
            sq.valid(),
        ensures
            r.0 == 0xffu64 << (8 * (sq.0 / 8)),
    {
        Self(0xffu64 << (8 * (sq.0 / 8)))
    }

    pub fn full() -> (r: Self)
        ensures
            r.0 == 0xFFFFFFFFFFFFFFFFu64,
    {
        Self(0xFFFFFFFFFFFFFFFF)
    }

    pub fn empty() -> (r: Self)
        ensures
            r.0 == 0,
    {
        Self(0x0)
    }

    pub fn is_empty(&self) -> (r: bool)
        ensures
            r == (self.0 == 0),
    {
        self.0 == 0
    }

    pub fn is_occupied(&self) -> (r: bool)
        ensures
            r == (self.0 != 0),
    {
        self.0 != 0
    }

    pub fn is_full(&self) -> (r: bool)
        ensures
            r == (self.0 == 0xFFFFFFFFFFFFFFFFu64),
    {
        self.0 == 0xFFFFFFFFFFFFFFFF
    }

    pub fn is_set(&self, idx: Square) -> (r: bool)
        requires
            idx.valid(),
        ensures
            r == self.has(idx.0 as int),
    {
        proof {
            lemma_bit_ops(self.0, self.0, idx.0 as u64);
        }
        ((self.0 >> idx.0) & 1) == 1
    }

    pub fn north(&self) -> (r: Self)
        ensures
            r.0 == self.0 << 8u64,
    {
        Self(self.0 << 8)
    }

    pub fn south(&self) -> (r: Self)
        ensures
            r.0 == self.0 >> 8u64,
    {
        Self(self.0 >> 8)
    }

    pub fn east(&self) -> (r: Self)
        ensures
            r.0 == spec_east(self.0),
    {
        Self((self.0 << 1) & 0xfefefefefefefefe)
    }

    pub fn west(&self) -> (r: Self)
        ensures
            r.0 == spec_west(self.0),
    {
        Self((self.0 >> 1) & 0x7f7f7f7f7f7f7f7f)
    }

    pub fn north_east(&self) -> (r: Self)
        ensures
            r.0 == spec_north_east(self.0),
    {
        Self((self.0 << 9) & 0xfefefefefefefefe)
    }

    pub fn north_west(&self) -> (r: Self)
        ensures
            r.0 == spec_north_west(self.0),
    {
        Self((self.0 << 7) & 0x7f7f7f7f7f7f7f7f)
    }

    pub fn south_east(&self) -> (r: Self)
        ensures
            r.0 == spec_south_east(self.0),
    {
        Self((self.0 >> 7) & 0xfefefefefefefefe)
    }

    pub fn south_west(&self) -> (r: Self)
        ensures
            r.0 == spec_south_west(self.0),
    {
        Self((self.0 >> 9) & 0x7f7f7f7f7f7f7f7f)
    }

    pub fn north_north(&self) -> (r: Self)
        ensures
            r.0 == self.0 << 16u64,
    {
        Self(self.0 << 16)
    }

    /// The number of squares in the set.
    pub fn count(&self) -> (r: i32)
        ensures
            r == popcount(self.0),
            0 <= r <= 64,
    {
        proof {
            lemma_popcount_le(self.0);
        }
        u64_count_ones(self.0) as i32
    }

    /// The set mirrored top to bottom: square `s` goes to `s ^ 56`.
    pub fn flip(self) -> (r: Bitboard)
        ensures
            r.0 == spec_swap_bytes(self.0),
            forall|s: int| 0 <= s < 64 ==> #[trigger] r.has(s) == self.has(((s as u64) ^ 56u64) as int),
    {
        let x = self.0;
        let r = Self(((x & 0xff) << 56) | ((x & 0xff00) << 40) | ((x & 0xff0000) << 24) | ((x
            & 0xff000000) << 8) | ((x >> 8) & 0xff000000) | ((x >> 24) & 0xff0000) | ((x >> 40)
            & 0xff00) | (x >> 56));
        proof {
            assert forall|s: int| 0 <= s < 64 implies #[trigger] r.has(s) == self.has(((s as u64) ^ 56u64) as int) by {
                lemma_bit_shifts(x, s as u64);
                lemma_xor_56_u64(s as u64);
            }
        }
        r
    }

    /// The lowest square of the set; 64 for the empty set.
    pub fn lsb(self) -> (r: Square)
        ensures
            r.0 == u64_trailing_zeros(self.0),
            self.0 == 0 <==> r.0 == 64,
            self.0 != 0 ==> r.valid() && self.has(r.0 as int),
            forall|j: int| 0 <= j < r.0 ==> !#[trigger] self.has(j),
    {
        proof {
            axiom_u64_trailing_zeros(self.0);
            assert forall|j: int| 0 <= j < u64_trailing_zeros(self.0) implies !#[trigger] self.has(j) by {
                assert((self.0 >> (j as u64)) & 1u64 == 0u64);
            }
        }
        Square(self.0.trailing_zeros() as u8)
    }

    /// The highest square of a non-empty set.
    pub fn hsb(self) -> (r: Square)
        requires
            self.0 != 0,
        ensures
            r.0 == 63 - u64_leading_zeros(self.0),
            r.valid(),
            self.has(r.0 as int),
            forall|j: int| r.0 < j < 64 ==> !#[trigger] self.has(j),
    {
        proof {
            axiom_u64_leading_zeros(self.0);
            lemma_bit_ops(self.0, self.0, (63 - u64_leading_zeros(self.0)) as u64);
            assert forall|j: int| 63 - u64_leading_zeros(self.0) < j < 64 implies !#[trigger] self.has(j) by {
                assert((self.0 >> (j as u64)) & 1u64 == 0u64);
            }
        }
        let z = self.0.leading_zeros();
        Square((63 - z) as u8)
    }

    /// The squares next to a square of the set, in all eight directions.
    pub fn adjacent(self) -> (r: Self)
        ensures
            r.0 == spec_adjacent(self.0),
    {
        Bitboard(
            (self.0 << 8) | (self.0 >> 8) | (((self.0 << 7) | (self.0 >> 9) | (self.0 >> 1))
                & 0x7f7f7f7f7f7f7f7f) | (((self.0 >> 7) | (self.0 << 9) | (self.0 << 1))
                & 0xfefefefefefefefe),
        )
    }

    /// The squares east of `sq` on its rank, on an empty board.
    pub fn ray_east(sq: Square) -> (r: Bitboard)
        requires
            sq.valid(),
        ensures
            r.0 == ((0xfeu64 << (sq.0 % 8)) & 0xffu64) << (8 * (sq.0 / 8)),
    {
        Bitboard(((0xfeu64 << (sq.0 % 8)) & 0xffu64) << (8 * (sq.0 / 8)))
    }

    /// The squares west of `sq` on its rank, on an empty board.
    pub fn ray_west(sq: Square) -> (r: Bitboard)
        requires
            sq.valid(),
        ensures
            r.0 == (0x7fu64 >> (7 - sq.0 % 8)) << (8 * (sq.0 / 8)),
    {
        Bitboard((0x7fu64 >> (7 - sq.0 % 8)) << (8 * (sq.0 / 8)))
    }
}

proof fn lemma_xor_56_u64(s: u64)
    by (bit_vector)
    requires
        s < 64,
    ensures
        s ^ 56u64 < 64,
{
}

impl core::ops::BitAnd for Bitboard {
    type Output = Self;

    fn bitand(self, rhs: Self) -> (r: Self) {
        Self(self.0 & rhs.0)
    }
}

impl BitAndSpecImpl for Bitboard {
    open spec fn obeys_bitand_spec() -> bool {
        true
    }

    open spec fn bitand_req(self, rhs: Self) -> bool {
        true
    }

    open spec fn bitand_spec(self, rhs: Self) -> Self {
        Bitboard(self.0 & rhs.0)
    }
}

impl core::ops::BitOr for Bitboard {
    type Output = Bitboard;

    fn bitor(self, rhs: Bitboard) -> (r: Bitboard) {
        Bitboard(self.0 | rhs.0)
    }
}

impl BitOrSpecImpl for Bitboard {
    open spec fn obeys_bitor_spec() -> bool {
        true
    }

    open spec fn bitor_req(self, rhs: Self) -> bool {
        true
    }

    open spec fn bitor_spec(self, rhs: Self) -> Self {
        Bitboard(self.0 | rhs.0)
    }
}

impl core::ops::BitXor for Bitboard {
    type Output = Bitboard;

    fn bitxor(self, rhs: Bitboard) -> (r: Bitboard) {
        Bitboard(self.0 ^ rhs.0)
    }
}

impl BitXorSpecImpl for Bitboard {
    open spec fn obeys_bitxor_spec() -> bool {
        true
    }

    open spec fn bitxor_req(self, rhs: Self) -> bool {
        true
    }

    open spec fn bitxor_spec(self, rhs: Self) -> Self {
        Bitboard(self.0 ^ rhs.0)
    }
}

impl core::ops::Not for Bitboard {
    type Output = Self;

    fn not(self) -> (r: Self) {
        Self(!self.0)
    }
}

impl NotSpecImpl for Bitboard {
    open spec fn obeys_not_spec() -> bool {
        true
    }

    open spec fn not_req(self) -> bool {
        true
    }

    open spec fn not_spec(self) -> Self {
        Bitboard(!self.0)
    }
}

impl core::ops::BitAndAssign for Bitboard {
    fn bitand_assign(&mut self, rhs: Bitboard) {
        self.0 = self.0 & rhs.0;
    }
}

impl core::ops::BitOrAssign for Bitboard {
    fn bitor_assign(&mut self, rhs: Bitboard) {
        self.0 = self.0 | rhs.0;
    }
}

impl core::ops::BitXorAssign for Bitboard {
    fn bitxor_assign(&mut self, rhs: Bitboard) {
        self.0 = self.0 ^ rhs.0;
    }
}

/// Mirroring a set twice gives the set back.
pub proof fn lemma_flip_involution(b: Bitboard)
    ensures
        spec_swap_bytes(spec_swap_bytes(b.0)) == b.0,
{
    lemma_bit_shifts(b.0, 0);
}

} // verus!

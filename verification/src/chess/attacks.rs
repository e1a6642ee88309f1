use crate::chess::bitboard::{bit, lemma_bit_ops, popcount, spec_adjacent, Bitboard};
use crate::chess::bitboarditer::subset;
use crate::chess::magic;
use crate::chess::position::Position;
use crate::chess::rays::{self, spec_bishop_attacks, spec_knights, spec_pawns, spec_ray, spec_rook_attacks, Dir};
use crate::chess::side::Side;
use crate::chess::square::Square;
use vstd::prelude::*;
use vstd::std_specs::bits::u64_trailing_zeros;

verus! {

/// No piece among the given ones of the other side attacks `sq` when `blockers` are occupied.
pub open spec fn spec_is_safe(
    sq: u8,
    blockers: u64,
    pawns: u64,
    knights: u64,
    bishops: u64,
    rooks: u64,
    queens: u64,
    kings: u64,
) -> bool {
    &&& !bit(spec_pawns(false, pawns), sq as u64)
    &&& spec_knights(1u64 << sq) & knights == 0
    &&& spec_bishop_attacks(sq, blockers) & (bishops | queens) == 0
    &&& spec_rook_attacks(sq, blockers) & (rooks | queens) == 0
    &&& spec_adjacent(1u64 << sq) & kings == 0
}

pub fn is_safe(
    sq: Square,
    blockers: Bitboard,
    pawns: Bitboard,
    knights: Bitboard,
    bishops: Bitboard,
    rooks: Bitboard,
    queens: Bitboard,
    kings: Bitboard,
) -> (r: bool)
    requires
        sq.valid(),
    ensures
        r == spec_is_safe(sq.0, blockers.0, pawns.0, knights.0, bishops.0, rooks.0, queens.0, kings.0),
{
    let bb = Bitboard::from_square(sq);

    // Pawns
    if rays::pawns::<false>(pawns).is_set(sq) {
        false
    }
    // Knights
    else if (rays::knights(bb) & knights).is_occupied() {
        false
    }
    // Bishops - Queens
    else if (magic::bishop_moves(sq.0 as i32, blockers.0) & (bishops | queens)).is_occupied() {
        false
    }
    // Rooks - Queens
    else if (magic::rook_moves(sq.0 as i32, blockers.0) & (rooks | queens)).is_occupied() {
        false
    }
    // King
    else if (rays::adjacent(sq) & kings).is_occupied() {
        false
    }
    // None
    else {
        true
    }
}

impl Position {
    /// The squares of `side`.
    pub open spec fn side_bb(self, side: Side) -> u64 {
        self.colours[side.spec_index() as int].0
    }

    /// The bishops and queens of `side`.
    pub open spec fn diag_sliders(self, side: Side) -> u64 {
        self.side_bb(side) & (self.pc(2) | self.pc(4))
    }

    /// The rooks and queens of `side`.
    pub open spec fn line_sliders(self, side: Side) -> u64 {
        self.side_bb(side) & (self.pc(3) | self.pc(4))
    }

    /// The squares the pawns of `side` attack: up the board for the side to move.
    pub open spec fn pawn_attacks(self, side: Side) -> u64 {
        spec_pawns(side == Side::Us, self.pc(0) & self.side_bb(side))
    }

    /// A bishop, rook or queen of `side` attacks square `t`.
    pub open spec fn slider_attacks(self, t: u8, side: Side) -> bool {
        spec_bishop_attacks(t, self.occ()) & self.diag_sliders(side) != 0 || spec_rook_attacks(
            t,
            self.occ(),
        ) & self.line_sliders(side) != 0
    }

    /// The lowest king square of `side`.
    pub open spec fn king_sq(self, side: Side) -> u8 {
        u64_trailing_zeros(self.pc(5) & self.side_bb(side)) as u8
    }

    /// `side` attacks square `sq`: with a pawn, a knight, a slider, or its king (the lowest one).
    pub open spec fn spec_sq_attacked(self, sq: u8, side: Side) -> bool {
        ||| bit(self.pawn_attacks(side), sq as u64)
        ||| spec_knights(1u64 << sq) & self.pc(1) & self.side_bb(side) != 0
        ||| self.slider_attacks(sq, side)
        ||| bit(spec_adjacent(1u64 << self.king_sq(side)), sq as u64)
    }

    /// `side` attacks some square of `bb`.
    pub open spec fn spec_bb_attacked(self, bb: u64, side: Side) -> bool {
        ||| self.pawn_attacks(side) & bb != 0
        ||| spec_knights(bb) & self.pc(1) & self.side_bb(side) != 0
        ||| spec_adjacent(bb) & self.pc(5) & self.side_bb(side) != 0
        ||| exists|t: u8| t < 64 && #[trigger] bit(bb, t as u64) && self.slider_attacks(t, side)
    }

    /// The squares of `side` that attack some square of `bb` by a leap or a pawn capture, or
    /// that a pawn or king of `side` attacks.
    pub open spec fn leaper_attacks(self, side: Side) -> u64 {
        self.pawn_attacks(side) | spec_knights(self.pc(1) & self.side_bb(side)) | spec_adjacent(
            self.pc(5) & self.side_bb(side),
        )
    }

    pub fn is_sq_attacked(&self, sq: Square, side: Side) -> (r: bool)
        requires
            sq.valid(),
            self.pc(5) & self.side_bb(side) != 0,
        ensures
            r == self.spec_sq_attacked(sq.0, side),
    {
        let bb = Bitboard::from_square(sq);
        let ksq = (self.get_kings() & self.get_side(side)).lsb();

        let bq = self.get_side(side) & (self.get_bishops() | self.get_queens());
        let rq = self.get_side(side) & (self.get_rooks() | self.get_queens());

        // Pawns
        if side == Side::Us && rays::pawns::<true>(self.get_pawns() & self.get_side(side)).is_set(
            sq,
        ) {
            true
        } else if side == Side::Them && rays::pawns::<false>(
            self.get_pawns() & self.get_side(side),
        ).is_set(sq) {
            true
        }
        // Knights
        else if (rays::knights(bb) & self.get_knights() & self.get_side(side)).is_occupied() {
            true
        }
        // Bishops - Queens
        else if (magic::bishop_moves(sq.0 as i32, self.get_occupied().0) & bq).is_occupied() {
            true
        }
        // Rooks - Queens
        else if (magic::rook_moves(sq.0 as i32, self.get_occupied().0) & rq).is_occupied() {
            true
        }
        // King
        else if rays::adjacent(ksq).is_set(sq) {
            true
        }
        // None
        else {
            false
        }
    }

    pub fn is_bb_attacked(&self, bb: Bitboard, side: Side) -> (r: bool)
        ensures
            r == self.spec_bb_attacked(bb.0, side),
    {
        // Pawns
        if side == Side::Us && (rays::pawns::<true>(self.get_pawns() & self.get_us())
            & bb).is_occupied() {
            return true;
        } else if side == Side::Them && (rays::pawns::<false>(self.get_pawns() & self.get_them())
            & bb).is_occupied() {
            return true;
        }
        // Knights
         else if (rays::knights(bb) & self.get_knights() & self.get_side(side)).is_occupied() {
            return true;
        }
        // King
         else if (rays::adjacent_bb(bb) & self.get_kings() & self.get_side(side)).is_occupied() {
            return true;
        }
        let bq = self.get_side(side) & (self.get_bishops() | self.get_queens());
        let rq = self.get_side(side) & (self.get_rooks() | self.get_queens());

        let mut iter = bb.iter();
        while !iter.is_empty()
            invariant
                bq.0 == self.diag_sliders(side),
                rq.0 == self.line_sliders(side),
                subset(iter.remaining(), bb.0),
                forall|t: u8|
                    t < 64 && #[trigger] bit(bb.0, t as u64) && !bit(iter.remaining(), t as u64)
                        ==> !self.slider_attacks(t, side),
            decreases iter.remaining(),
        {
            let sq = iter.next().unwrap();
            // Queens
            if (magic::bishop_moves(sq.0 as i32, self.get_occupied().0) & bq).is_occupied() || (
            magic::rook_moves(sq.0 as i32, self.get_occupied().0) & rq).is_occupied() {
                return true;
            }
        }
        proof {
            assert forall|t: u8| t < 64 && #[trigger] bit(bb.0, t as u64) implies !self.slider_attacks(t, side) by {
                lemma_bit_ops(0u64, 0u64, t as u64);
            }
        }
        false
    }

    pub fn get_attacked(&self, mask: Bitboard, side: Side) -> (r: Bitboard)
        ensures
            forall|s: u8|
                s < 64 ==> #[trigger] bit(r.0, s as u64) == (bit(mask.0, s as u64) && (bit(
                    self.leaper_attacks(side),
                    s as u64,
                ) || self.slider_attacks(s, side))),
    {
        let mut attacked = Bitboard::empty();

        // Pawns
        if side == Side::Us {
            attacked = attacked | (mask & rays::pawns::<true>(self.get_pawns() & self.get_us()));
        } else {
            attacked = attacked | (mask & rays::pawns::<false>(self.get_pawns() & self.get_them()));
        }

        // Knights
        attacked = attacked | (mask & rays::knights(self.get_knights() & self.get_side(side)));

        // King
        attacked = attacked | (mask & rays::adjacent_bb(self.get_kings() & self.get_side(side)));

        let ghost leapers = attacked.0;
        proof {
            assert forall|s: u8| s < 64 implies #[trigger] bit(leapers, s as u64) == (bit(mask.0, s as u64)
                && bit(self.leaper_attacks(side), s as u64)) by {
                let p = self.pawn_attacks(side);
                let k = spec_knights(self.pc(1) & self.side_bb(side));
                let a = spec_adjacent(self.pc(5) & self.side_bb(side));
                lemma_bit_ops(0u64, mask.0 & p, s as u64);
                lemma_bit_ops(mask.0, p, s as u64);
                lemma_bit_ops(mask.0, k, s as u64);
                lemma_bit_ops(mask.0, a, s as u64);
                lemma_bit_ops(0u64 | (mask.0 & p), mask.0 & k, s as u64);
                lemma_bit_ops(0u64 | (mask.0 & p) | (mask.0 & k), mask.0 & a, s as u64);
                lemma_bit_ops(p | k, a, s as u64);
                lemma_bit_ops(p, k, s as u64);
            }
        }

        let bq = self.get_side(side) & (self.get_bishops() | self.get_queens());
        let rq = self.get_side(side) & (self.get_rooks() | self.get_queens());

        let todo = mask & Bitboard(!attacked.0);
        let mut iter = todo.iter();
        while !iter.is_empty()
            invariant
                bq.0 == self.diag_sliders(side),
                rq.0 == self.line_sliders(side),
                todo.0 == mask.0 & !leapers,
                subset(iter.remaining(), todo.0),
                forall|s: u8|
                    s < 64 ==> #[trigger] bit(attacked.0, s as u64) == (bit(leapers, s as u64) || (
                    bit(todo.0, s as u64) && !bit(iter.remaining(), s as u64) && self.slider_attacks(
                        s,
                        side,
                    ))),
            decreases iter.remaining(),
        {
            let ghost before = attacked.0;
            let ghost rem = iter.remaining();
            let sq = iter.next().unwrap();
            let bb = Bitboard::from_square(sq);

            // Queens
            if (magic::bishop_moves(sq.0 as i32, self.get_occupied().0) & bq).is_occupied() || (
            magic::rook_moves(sq.0 as i32, self.get_occupied().0) & rq).is_occupied() {
                attacked = attacked | bb;
                proof {
                    assert forall|s: u8| s < 64 implies #[trigger] bit(attacked.0, s as u64) == (bit(
                        before,
                        s as u64,
                    ) || s == sq.0) by {
                        lemma_bit_ops(before, bb.0, s as u64);
                        crate::chess::bitboard::lemma_bit_single(sq.0 as u64, s as u64);
                    }
                }
            }
        }
        proof {
            assert forall|s: u8| s < 64 implies #[trigger] bit(attacked.0, s as u64) == (bit(mask.0, s as u64) && (bit(
                self.leaper_attacks(side),
                s as u64,
            ) || self.slider_attacks(s, side))) by {
                lemma_bit_ops(0u64, 0u64, s as u64);
                lemma_bit_ops(mask.0, !leapers, s as u64);
                lemma_bit_ops(leapers, leapers, s as u64);
            }
        }
        attacked
    }

    /// The side to move is in check.
    pub open spec fn spec_in_check(self) -> bool {
        self.spec_sq_attacked(self.king_sq(Side::Us), Side::Them)
    }

    pub fn in_check(&self) -> (r: bool)
        requires
            self.pc(5) & self.us() != 0,
            self.pc(5) & self.them() != 0,
        ensures
            r == self.spec_in_check(),
    {
        let ksq = (self.get_kings() & self.get_us()).lsb();
        self.is_sq_attacked(ksq, Side::Them)
    }

    pub fn in_check_them(&self) -> (r: bool)
        requires
            self.pc(5) & self.us() != 0,
            self.pc(5) & self.them() != 0,
        ensures
            r == self.spec_sq_attacked(self.king_sq(Side::Them), Side::Us),
    {
        let ksq = (self.get_kings() & self.get_them()).lsb();
        self.is_sq_attacked(ksq, Side::Us)
    }

    /// The pieces of the other side that attack `sq`: pawns and knights, and the first piece on
    /// each line from `sq` on which a slider of the other side stands; and the lines from `sq` to
    /// those sliders.
    pub open spec fn spec_attacker_paths(self, sq: u8) -> (u64, u64) {
        let occ = self.occ();
        let bq = self.diag_sliders(Side::Them);
        let rq = self.line_sliders(Side::Them);
        let a0 = 0u64 | (spec_pawns(true, 1u64 << sq) & self.pc(0) & self.them());
        let a1 = a0 | (spec_knights(1u64 << sq) & self.pc(1) & self.them());
        let p1 = 0u64;
        let r_nw = spec_ray(Dir::NorthWest, sq, occ);
        let c_nw = bq != 0 && r_nw & bq != 0;
        let a2 = if c_nw { a1 | (r_nw & occ) } else { a1 };
        let p2 = if c_nw { p1 | r_nw } else { p1 };
        let r_ne = spec_ray(Dir::NorthEast, sq, occ);
        let c_ne = bq != 0 && r_ne & bq != 0;
        let a3 = if c_ne { a2 | (r_ne & occ) } else { a2 };
        let p3 = if c_ne { p2 | r_ne } else { p2 };
        let r_sw = spec_ray(Dir::SouthWest, sq, occ);
        let c_sw = bq != 0 && r_sw & bq != 0;
        let a4 = if c_sw { a3 | (r_sw & occ) } else { a3 };
        let p4 = if c_sw { p3 | r_sw } else { p3 };
        let r_se = spec_ray(Dir::SouthEast, sq, occ);
        let c_se = bq != 0 && r_se & bq != 0;
        let a5 = if c_se { a4 | (r_se & occ) } else { a4 };
        let p5 = if c_se { p4 | r_se } else { p4 };
        let r_n = spec_ray(Dir::North, sq, occ);
        let c_n = rq != 0 && r_n & rq != 0;
        let a6 = if c_n { a5 | (r_n & occ) } else { a5 };
        let p6 = if c_n { p5 | r_n } else { p5 };
        let r_e = spec_ray(Dir::East, sq, occ);
        let c_e = rq != 0 && r_e & rq != 0;
        let a7 = if c_e { a6 | (r_e & occ) } else { a6 };
        let p7 = if c_e { p6 | r_e } else { p6 };
        let r_s = spec_ray(Dir::South, sq, occ);
        let c_s = rq != 0 && r_s & rq != 0;
        let a8 = if c_s { a7 | (r_s & occ) } else { a7 };
        let p8 = if c_s { p7 | r_s } else { p7 };
        let r_w = spec_ray(Dir::West, sq, occ);
        let c_w = rq != 0 && r_w & rq != 0;
        let a9 = if c_w { a8 | (r_w & occ) } else { a8 };
        let p9 = if c_w { p8 | r_w } else { p8 };
        (a9, p9)
    }

    pub fn attacker_paths(&self, sq: Square) -> (r: (Bitboard, Bitboard))
        requires
            sq.valid(),
        ensures
            (r.0.0, r.1.0) == self.spec_attacker_paths(sq.0),
    {
        let mut attackers = Bitboard::empty();
        let mut paths = Bitboard::empty();

        let bb = Bitboard::from_square(sq);
        let bq = self.get_them() & (self.get_bishops() | self.get_queens());
        let rq = self.get_them() & (self.get_rooks() | self.get_queens());

        // Pawns
        attackers = attackers | (rays::pawns::<true>(bb) & self.get_pawns() & self.get_them());

        // Knights
        attackers = attackers | (rays::knights(bb) & self.get_knights() & self.get_them());

        // Bishops, Queens
        if bq.is_occupied() {
            let nw = rays::ray_nw(sq, self.get_occupied());
            let ne = rays::ray_ne(sq, self.get_occupied());
            let sw = rays::ray_sw(sq, self.get_occupied());
            let se = rays::ray_se(sq, self.get_occupied());

            if (nw & bq).is_occupied() {
                attackers = attackers | (nw & self.get_occupied());
                paths = paths | nw;
            }

            if (ne & bq).is_occupied() {
                attackers = attackers | (ne & self.get_occupied());
                paths = paths | ne;
            }

            if (sw & bq).is_occupied() {
                attackers = attackers | (sw & self.get_occupied());
                paths = paths | sw;
            }

            if (se & bq).is_occupied() {
                attackers = attackers | (se & self.get_occupied());
                paths = paths | se;
            }
        }

        // Rooks, Queens
        if rq.is_occupied() {
            let n = rays::ray_n(sq, self.get_occupied());
            let e = rays::ray_e(sq, self.get_occupied());
            let s = rays::ray_s(sq, self.get_occupied());
            let w = rays::ray_w(sq, self.get_occupied());

            if (n & rq).is_occupied() {
                attackers = attackers | (n & self.get_occupied());
                paths = paths | n;
            }

            if (e & rq).is_occupied() {
                attackers = attackers | (e & self.get_occupied());
                paths = paths | e;
            }

            if (s & rq).is_occupied() {
                attackers = attackers | (s & self.get_occupied());
                paths = paths | s;
            }

            if (w & rq).is_occupied() {
                attackers = attackers | (w & self.get_occupied());
                paths = paths | w;
            }
        }

        (attackers, paths)
    }
}

} // verus!

verus! {

/// A knight jumps between two squares either way round: square `s` is a jump from a square of
/// `k` exactly when some square of `k` is a jump from `s`.
proof fn lemma_knight_symmetric(k: u64, s: u64)
    by (bit_vector)
    requires
        s < 64,
    ensures
        ((spec_knights(k) >> s) & 1u64 == 1u64) == (spec_knights(1u64 << s) & k != 0),
{
}

/// Grouping of a three-way intersection.
proof fn lemma_and_assoc(a: u64, b: u64, c: u64)
    by (bit_vector)
    ensures
        a & b & c == a & (b & c),
{
}

/// A set of one square is that square alone.
proof fn lemma_single_set(x: u64, k: u64)
    requires
        popcount(x) == 1,
        k < 64,
        bit(x, k),
    ensures
        x == 1u64 << k,
{
    assert forall|s: u64| s < 64 implies #[trigger] bit(x, s) == bit(1u64 << k, s) by {
        crate::chess::bitboard::lemma_bit_single(k, s);
        if bit(x, s) {
            crate::chess::fen_law::lemma_popcount_single(x, s, k);
        }
    }
    crate::chess::bitboard::lemma_bits_ext(x, 1u64 << k);
}

impl Position {
    /// With one king on the attacking side, a square is attacked, in the sense `is_sq_attacked`
    /// gives, exactly when a leaper or a slider of that side reaches it: the squares
    /// `get_attacked` reports are the squares of the mask that `is_sq_attacked` says are
    /// attacked.
    pub proof fn lemma_attacked_square(self, s: u8, side: Side)
        requires
            s < 64,
            popcount(self.pc(5) & self.side_bb(side)) == 1,
        ensures
            (bit(self.leaper_attacks(side), s as u64) || self.slider_attacks(s, side))
                == self.spec_sq_attacked(s, side),
    {
        let kb = self.pc(5) & self.side_bb(side);
        crate::chess::validate::lemma_popcount_one(kb);
        vstd::std_specs::bits::axiom_u64_trailing_zeros(kb);
        let k = u64_trailing_zeros(kb) as u64;
        lemma_bit_ops(kb, kb, k);
        lemma_single_set(kb, k);
        assert(self.king_sq(side) as u64 == k);
        lemma_knight_symmetric(self.pc(1) & self.side_bb(side), s as u64);
        lemma_and_assoc(spec_knights(1u64 << s), self.pc(1), self.side_bb(side));
        let pa = self.pawn_attacks(side);
        let kn = spec_knights(self.pc(1) & self.side_bb(side));
        let ad = spec_adjacent(kb);
        lemma_bit_ops(pa | kn, ad, s as u64);
        lemma_bit_ops(pa, kn, s as u64);
    }
}

/// Knight jumps and king steps join two sets either way round.
proof fn lemma_jumps_symmetric(a: u64, b: u64)
    by (bit_vector)
    ensures
        (spec_knights(a) & b != 0) == (spec_knights(b) & a != 0),
        (spec_adjacent(a) & b != 0) == (spec_adjacent(b) & a != 0),
{
}

impl Position {
    /// With one king on the attacking side, a set is attacked, in the sense `is_bb_attacked`
    /// gives, exactly when one of its squares is attacked in the sense `is_sq_attacked` gives.
    pub proof fn lemma_attacked_set(self, bb: u64, side: Side)
        requires
            popcount(self.pc(5) & self.side_bb(side)) == 1,
        ensures
            self.spec_bb_attacked(bb, side) == exists|t: u8| t < 64 && #[trigger] bit(bb, t as u64) && self.spec_sq_attacked(t, side),
    {
        let kb = self.pc(5) & self.side_bb(side);
        let kk = self.pc(1) & self.side_bb(side);
        let lp = self.leaper_attacks(side);
        lemma_jumps_symmetric(bb, kk);
        lemma_jumps_symmetric(bb, kb);
        lemma_and_assoc(spec_knights(bb), self.pc(1), self.side_bb(side));
        lemma_and_assoc(spec_adjacent(bb), self.pc(5), self.side_bb(side));
        let pa = self.pawn_attacks(side);
        let kn = spec_knights(kk);
        let ad = spec_adjacent(kb);
        if self.spec_bb_attacked(bb, side) {
            if exists|t: u8| t < 64 && #[trigger] bit(bb, t as u64) && self.slider_attacks(t, side) {
                let t = choose|t: u8| t < 64 && #[trigger] bit(bb, t as u64) && self.slider_attacks(t, side);
                self.lemma_attacked_square(t, side);
            } else {
                assert(lp & bb != 0) by {
                    crate::chess::bitboard::lemma_empty_iff(lp & bb);
                    if pa & bb != 0 {
                        crate::chess::bitboard::lemma_empty_iff(pa & bb);
                        let t = choose|t: u64| t < 64 && #[trigger] bit(pa & bb, t);
                        lemma_bit_ops(pa, bb, t);
                        lemma_bit_ops(pa | kn, ad, t);
                        lemma_bit_ops(pa, kn, t);
                        lemma_bit_ops(lp, bb, t);
                    } else if kn & bb != 0 {
                        crate::chess::bitboard::lemma_empty_iff(kn & bb);
                        let t = choose|t: u64| t < 64 && #[trigger] bit(kn & bb, t);
                        lemma_bit_ops(kn, bb, t);
                        lemma_bit_ops(pa | kn, ad, t);
                        lemma_bit_ops(pa, kn, t);
                        lemma_bit_ops(lp, bb, t);
                    } else {
                        crate::chess::bitboard::lemma_empty_iff(ad & bb);
                        let t = choose|t: u64| t < 64 && #[trigger] bit(ad & bb, t);
                        lemma_bit_ops(ad, bb, t);
                        lemma_bit_ops(pa | kn, ad, t);
                        lemma_bit_ops(lp, bb, t);
                    }
                }
                crate::chess::bitboard::lemma_empty_iff(lp & bb);
                let t = choose|t: u64| t < 64 && #[trigger] bit(lp & bb, t);
                lemma_bit_ops(lp, bb, t);
                self.lemma_attacked_square(t as u8, side);
                assert(bit(bb, (t as u8) as u64));
            }
        } else {
            assert forall|t: u8| t < 64 && #[trigger] bit(bb, t as u64) implies !self.spec_sq_attacked(t, side) by {
                self.lemma_attacked_square(t, side);
                lemma_bit_ops(pa | kn, ad, t as u64);
                lemma_bit_ops(pa, kn, t as u64);
                lemma_bit_ops(pa, bb, t as u64);
                lemma_bit_ops(kn, bb, t as u64);
                lemma_bit_ops(ad, bb, t as u64);
                lemma_bit_ops(0, 0, t as u64);
            }
        }
    }
}

} // verus!

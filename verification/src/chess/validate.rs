use crate::chess::bitboard::{popcount, Bitboard};
use crate::chess::colour::Colour;
use crate::chess::position::Position;
use crate::chess::side::Side;
use crate::chess::square::Square;
use vstd::prelude::*;
use vstd::std_specs::bits::u64_trailing_zeros;

verus! {

/// The first of two sets of squares shares a square with the second.
pub open spec fn overlaps(a: u64, b: u64) -> bool {
    a & b != 0
}

impl Position {
    /// The first piece kind overlap found, looking through the pairs of kinds in order.
    pub open spec fn spec_overlap_error(self) -> Option<&'static str> {
        if overlaps(self.pc(0), self.pc(1)) {
            Some("pawn knight overlap")
        } else if overlaps(self.pc(0), self.pc(2)) {
            Some("pawn bishop overlap")
        } else if overlaps(self.pc(0), self.pc(3)) {
            Some("pawn rook overlap")
        } else if overlaps(self.pc(0), self.pc(4)) {
            Some("pawn queen overlap")
        } else if overlaps(self.pc(0), self.pc(5)) {
            Some("pawn king overlap")
        } else if overlaps(self.pc(1), self.pc(2)) {
            Some("knight bishop overlap")
        } else if overlaps(self.pc(1), self.pc(3)) {
            Some("knight rook overlap")
        } else if overlaps(self.pc(1), self.pc(4)) {
            Some("knight queen overlap")
        } else if overlaps(self.pc(1), self.pc(5)) {
            Some("knight king overlap")
        } else if overlaps(self.pc(2), self.pc(3)) {
            Some("bishop rook overlap")
        } else if overlaps(self.pc(2), self.pc(4)) {
            Some("bishop queen overlap")
        } else if overlaps(self.pc(2), self.pc(5)) {
            Some("bishop king overlap")
        } else if overlaps(self.pc(3), self.pc(4)) {
            Some("rook queen overlap")
        } else if overlaps(self.pc(3), self.pc(5)) {
            Some("rook king overlap")
        } else if overlaps(self.pc(4), self.pc(5)) {
            Some("queen king overlap")
        } else {
            None
        }
    }

    /// What is wrong with the en passant square, if anything: it must be on the sixth rank, in
    /// front of a pawn of the other side, and empty.
    pub open spec fn spec_ep_error(self) -> Option<&'static str> {
        match self.ep {
            Some(e) => {
                let bb = 1u64 << e.0;
                if e.spec_rank() != 5 {
                    Some("EP square not on 6th rank")
                } else if (bb >> 8u64) & self.them() & self.pc(0) == 0 {
                    Some("No pawn to create EP square")
                } else if bb & self.occ() != 0 {
                    Some("EP square must be empty")
                } else {
                    None
                }
            },
            None => None,
        }
    }

    /// The square of the king of the side to move (its lowest king).
    pub open spec fn us_king(self) -> int {
        u64_trailing_zeros(self.us() & self.pc(5)) as int
    }

    /// The square of the king of the other side (its lowest king).
    pub open spec fn them_king(self) -> int {
        u64_trailing_zeros(self.them() & self.pc(5)) as int
    }

    /// A castling right is held while the king of its side is off its home rank.
    pub open spec fn spec_castle_rank_error(self) -> bool {
        ||| (self.us_ksc || self.us_qsc) && self.us_king() / 8 != 0
        ||| (self.them_ksc || self.them_qsc) && self.them_king() / 8 != 7
    }

    /// A castling right is held without a rook of its side on the castling square.
    pub open spec fn spec_castle_rook_error(self) -> bool {
        let us_rooks = Bitboard(self.us() & self.pc(3));
        let them_rooks = Bitboard(self.them() & self.pc(3));
        ||| self.us_ksc && !us_rooks.has(self.castle_files[0] as int)
        ||| self.us_qsc && !us_rooks.has(self.castle_files[1] as int)
        ||| self.them_ksc && !them_rooks.has(56 + self.castle_files[2])
        ||| self.them_qsc && !them_rooks.has(56 + self.castle_files[3])
    }

    /// The white pieces.
    pub open spec fn white(self) -> u64 {
        if self.turn == Colour::White { self.us() } else { self.them() }
    }

    /// The black pieces.
    pub open spec fn black(self) -> u64 {
        if self.turn == Colour::White { self.them() } else { self.us() }
    }

    /// The outcome of the position checks, in the order they are made: pawns off the back ranks,
    /// the two colours apart, the piece kinds apart, a sound en passant square, one king a side,
    /// counters in range, castling rights that fit the kings and rooks, and the king of the side
    /// not to move out of reach.
    pub open spec fn spec_validate(self) -> Result<(), &'static str> {
        if self.pc(0) & 0xFF000000000000FFu64 != 0 {
            Err("Pawns on ranks 1 or 8")
        } else if self.us() & self.them() != 0 {
            Err("Colour bitboard overlap")
        } else if self.spec_overlap_error() is Some {
            Err(self.spec_overlap_error().unwrap())
        } else if self.spec_ep_error() is Some {
            Err(self.spec_ep_error().unwrap())
        } else if popcount(self.white() & self.pc(5)) != 1 {
            Err("Must be one white king")
        } else if popcount(self.black() & self.pc(5)) != 1 {
            Err("Must be one black king")
        } else if self.halfmoves < 0 {
            Err("halfmove counter out of range")
        } else if self.fullmoves < 1 {
            Err("fullmoves counter out of range")
        } else if self.spec_castle_rank_error() {
            Err("Castling permission while not on home rank")
        } else if self.spec_castle_rook_error() {
            Err("Castling rook missing")
        } else if self.spec_sq_attacked(self.them_king() as u8, Side::Us) {
            Err("Opponent king is capturable")
        } else {
            Ok(())
        }
    }

    /// Checks that the position could arise in a game, returning the first fault found.
    pub fn validate(&self) -> (r: Result<(), &'static str>)
        requires
            self.ep matches Some(e) ==> e.valid(),
            self.castle_files[2] <= 199,
            self.castle_files[3] <= 199,
            self.us_ksc ==> self.castle_files[0] < 64,
            self.us_qsc ==> self.castle_files[1] < 64,
            self.them_ksc ==> self.castle_files[2] < 8,
            self.them_qsc ==> self.castle_files[3] < 8,
        ensures
            r == self.spec_validate(),
    {
        // Pawns in the right places
        if (self.get_pawns() & Bitboard(0xFF000000000000FF)).is_occupied() {
            return Err("Pawns on ranks 1 or 8");
        }
        // Colour overlaps
        if (self.get_white() & self.get_black()).is_occupied() {
            proof {
                crate::chess::zobrist::lemma_and_comm(self.us(), self.them());
            }
            return Err("Colour bitboard overlap");
        }
        proof {
            crate::chess::zobrist::lemma_and_comm(self.us(), self.them());
        }
        // Piece overlaps
        if (self.get_pawns() & self.get_knights()).is_occupied() {
            return Err("pawn knight overlap");
        } else if (self.get_pawns() & self.get_bishops()).is_occupied() {
            return Err("pawn bishop overlap");
        } else if (self.get_pawns() & self.get_rooks()).is_occupied() {
            return Err("pawn rook overlap");
        } else if (self.get_pawns() & self.get_queens()).is_occupied() {
            return Err("pawn queen overlap");
        } else if (self.get_pawns() & self.get_kings()).is_occupied() {
            return Err("pawn king overlap");
        } else if (self.get_knights() & self.get_bishops()).is_occupied() {
            return Err("knight bishop overlap");
        } else if (self.get_knights() & self.get_rooks()).is_occupied() {
            return Err("knight rook overlap");
        } else if (self.get_knights() & self.get_queens()).is_occupied() {
            return Err("knight queen overlap");
        } else if (self.get_knights() & self.get_kings()).is_occupied() {
            return Err("knight king overlap");
        } else if (self.get_bishops() & self.get_rooks()).is_occupied() {
            return Err("bishop rook overlap");
        } else if (self.get_bishops() & self.get_queens()).is_occupied() {
            return Err("bishop queen overlap");
        } else if (self.get_bishops() & self.get_kings()).is_occupied() {
            return Err("bishop king overlap");
        } else if (self.get_rooks() & self.get_queens()).is_occupied() {
            return Err("rook queen overlap");
        } else if (self.get_rooks() & self.get_kings()).is_occupied() {
            return Err("rook king overlap");
        } else if (self.get_queens() & self.get_kings()).is_occupied() {
            return Err("queen king overlap");
        }
        // En passant
        if let Some(ep) = self.ep {
            let bb = Bitboard::from_square(ep);
            // Must be on the opponent and on the right rank
            if ep.rank() != 5 {
                return Err("EP square not on 6th rank");
            }
            // Must be a pawn below
            else if (bb.south() & self.get_them() & self.get_pawns()).is_empty() {
                return Err("No pawn to create EP square");
            }
            // EP square must be empty
            else if (bb & self.get_occupied()).is_occupied() {
                return Err("EP square must be empty");
            }
        }
        // Piece counts
        if (self.get_white() & self.get_kings()).count() != 1 {
            return Err("Must be one white king");
        } else if (self.get_black() & self.get_kings()).count() != 1 {
            return Err("Must be one black king");
        }
        // Counters
        if self.halfmoves < 0 {
            return Err("halfmove counter out of range");
        } else if self.fullmoves < 1 {
            return Err("fullmoves counter out of range");
        }
        proof {
            lemma_popcount_one(self.white() & self.pc(5));
            lemma_popcount_one(self.black() & self.pc(5));
            crate::chess::zobrist::lemma_and_comm(self.us(), self.pc(5));
            crate::chess::zobrist::lemma_and_comm(self.them(), self.pc(5));
        }
        let us_ksq = (self.get_us() & self.get_kings()).lsb();
        let them_ksq = (self.get_them() & self.get_kings()).lsb();
        let us_rooks = self.get_us() & self.get_rooks();
        let them_rooks = self.get_them() & self.get_rooks();
        let us_ksc_sq = Square::from_coords(self.castle_files[0], 0);
        let us_qsc_sq = Square::from_coords(self.castle_files[1], 0);
        let them_ksc_sq = Square::from_coords(self.castle_files[2], 7);
        let them_qsc_sq = Square::from_coords(self.castle_files[3], 7);
        // Castling - King must be on its home rank
        if self.us_ksc && us_ksq.rank() != 0 {
            return Err("Castling permission while not on home rank");
        } else if self.us_qsc && us_ksq.rank() != 0 {
            return Err("Castling permission while not on home rank");
        } else if self.them_ksc && them_ksq.rank() != 7 {
            return Err("Castling permission while not on home rank");
        } else if self.them_qsc && them_ksq.rank() != 7 {
            return Err("Castling permission while not on home rank");
        }
        // Castling - Must have a rook where we expect one
        if self.us_ksc && !us_rooks.is_set(us_ksc_sq) {
            return Err("Castling rook missing");
        } else if self.us_qsc && !us_rooks.is_set(us_qsc_sq) {
            return Err("Castling rook missing");
        } else if self.them_ksc && !them_rooks.is_set(them_ksc_sq) {
            return Err("Castling rook missing");
        } else if self.them_qsc && !them_rooks.is_set(them_qsc_sq) {
            return Err("Castling rook missing");
        }
        // Can't capture opponent's king
        if self.is_sq_attacked(them_ksq, Side::Us) {
            return Err("Opponent king is capturable");
        }
        // Valid
        Ok(())
    }
}

/// A set with exactly one square is not empty.
pub proof fn lemma_popcount_one(x: u64)
    ensures
        popcount(x) == 1 ==> x != 0,
{
    if x == 0 {
        lemma_count_below_zero(64);
    }
}

proof fn lemma_count_below_zero(n: nat)
    requires
        n <= 64,
    ensures
        crate::chess::bitboard::count_below(0, n) == 0,
    decreases n,
{
    if n > 0 {
        lemma_count_below_zero((n - 1) as nat);
        crate::chess::bitboard::lemma_bit_zero((n - 1) as u64);
    }
}

} // verus!

use crate::chess::bitboard::{
    spec_adjacent, spec_south_east, spec_south_west, spec_swap_bytes, Bitboard,
};
use crate::chess::magic;
use crate::chess::makemove::{toggle, xor_piece};
use crate::chess::mv::Mv;
use crate::chess::piece::Piece;
use crate::chess::position::Position;
use crate::chess::rays::{self, spec_bishop_attacks, spec_knights, spec_rook_attacks};
use crate::chess::square::Square;
use vstd::prelude::*;
use vstd::std_specs::bits::u64_trailing_zeros;

verus! {

/// The number of captures an exchange is followed for at most; every capture takes a piece off
/// the board, so no exchange on a board of 64 squares is longer.
pub const SEE_DEPTH: u32 = 64;

/// The piece values allowed in exchanges: small enough that no sum or difference of two of them
/// overflows.
pub open spec fn values_ok(values: [i32; 6]) -> bool {
    forall|i: int| 0 <= i < 6 ==> -0x20000000 <= #[trigger] values[i] <= 0x20000000
}

/// The least valuable piece of the side to move (`colours[0]`) attacking square `sq`, looking
/// through pawns, knights, bishops, rooks, queens and the king in that order, and the lowest
/// square holding one.
pub open spec fn spec_smallest_attacker(sq: u8, colours: [Bitboard; 2], pieces: [Bitboard; 6]) -> Option<(Piece, u8)> {
    let bb = 1u64 << sq;
    let blockers = colours[0].0 | colours[1].0;
    let us = colours[0].0;
    let pawns = (spec_south_east(bb) | spec_south_west(bb)) & pieces[0].0 & us;
    let knights = spec_knights(bb) & pieces[1].0 & us;
    let bishops = spec_bishop_attacks(sq, blockers) & pieces[2].0 & us;
    let rooks = spec_rook_attacks(sq, blockers) & pieces[3].0 & us;
    let queens = (spec_bishop_attacks(sq, blockers) | spec_rook_attacks(sq, blockers)) & pieces[4].0
        & us;
    let kings = spec_adjacent(bb) & pieces[5].0 & us;
    if pawns != 0 {
        Some((Piece::Pawn, u64_trailing_zeros(pawns) as u8))
    } else if knights != 0 {
        Some((Piece::Knight, u64_trailing_zeros(knights) as u8))
    } else if bishops != 0 {
        Some((Piece::Bishop, u64_trailing_zeros(bishops) as u8))
    } else if rooks != 0 {
        Some((Piece::Rook, u64_trailing_zeros(rooks) as u8))
    } else if queens != 0 {
        Some((Piece::Queen, u64_trailing_zeros(queens) as u8))
    } else if kings != 0 {
        Some((Piece::King, u64_trailing_zeros(kings) as u8))
    } else {
        None
    }
}

/// The colours seen from the other side.
pub open spec fn flip_colours(c: [Bitboard; 2]) -> [Bitboard; 2] {
    [Bitboard(spec_swap_bytes(c[1].0)), Bitboard(spec_swap_bytes(c[0].0))]
}

/// The piece sets seen from the other side.
pub open spec fn flip_pieces(p: [Bitboard; 6]) -> [Bitboard; 6] {
    [
        Bitboard(spec_swap_bytes(p[0].0)),
        Bitboard(spec_swap_bytes(p[1].0)),
        Bitboard(spec_swap_bytes(p[2].0)),
        Bitboard(spec_swap_bytes(p[3].0)),
        Bitboard(spec_swap_bytes(p[4].0)),
        Bitboard(spec_swap_bytes(p[5].0)),
    ]
}

/// What the side to move gains, at best, by taking on `sq` a piece worth `captured` and going on
/// with the exchange: it takes with its least valuable attacker, the other side answers in the
/// same way, and either side may stop instead of taking (so the gain is never below 0). The
/// exchange is followed for `depth` captures.
pub open spec fn spec_see_impl(
    sq: u8,
    captured: int,
    values: [i32; 6],
    colours: [Bitboard; 2],
    pieces: [Bitboard; 6],
    depth: nat,
) -> int
    decreases depth,
{
    if depth == 0 {
        0
    } else {
        match spec_smallest_attacker(sq, colours, pieces) {
            None => 0,
            Some((attacker, from)) => {
                let m = 1u64 << from;
                let c = [Bitboard(colours[0].0 ^ m), colours[1]];
                let p = xor_piece(pieces, attacker.spec_index() as int, m);
                let score = captured - spec_see_impl(
                    sq ^ 56u8,
                    values[attacker.spec_index() as int] as int,
                    values,
                    flip_colours(c),
                    flip_pieces(p),
                    (depth - 1) as nat,
                );
                if score > 0 {
                    score
                } else {
                    0
                }
            },
        }
    }
}

/// The value of the piece `mv` takes: the piece on its destination, the pawn taken en passant,
/// or nothing; and the board once that piece and the moving piece are lifted off it.
pub open spec fn see_start(pos: Position, mv: Mv, values: [i32; 6]) -> (int, [Bitboard; 2], [Bitboard; 6]) {
    let attacker = pos.piece_on(mv.from.0 as int).unwrap();
    let from = 1u64 << mv.from.0;
    let (value, c, p) = match pos.piece_on(mv.to.0 as int) {
        Some(captured) => (values[captured.spec_index() as int] as int, pos.colours, pos.pieces),
        None => {
            if pos.ep == Some(mv.to) && attacker == Piece::Pawn {
                let bb = (1u64 << mv.to.0) >> 8u64;
                (
                    values[0] as int,
                    [pos.colours[0], Bitboard(pos.colours[1].0 ^ bb)],
                    xor_piece(pos.pieces, 0, bb),
                )
            } else {
                (0, pos.colours, pos.pieces)
            }
        },
    };
    (value, [Bitboard(c[0].0 ^ from), c[1]], xor_piece(p, attacker.spec_index() as int, from))
}

/// The static exchange evaluation of `mv`: the value it takes, less what the other side gains
/// at best by taking back on its destination (0 for a move onto a square of the side to move).
pub open spec fn spec_see(pos: Position, mv: Mv, values: [i32; 6]) -> int {
    if pos.colours[0].has(mv.to.0 as int) {
        0
    } else {
        let (value, c, p) = see_start(pos, mv, values);
        let attacker = pos.piece_on(mv.from.0 as int).unwrap();
        value - spec_see_impl(
            mv.to.0 ^ 56u8,
            values[attacker.spec_index() as int] as int,
            values,
            flip_colours(c),
            flip_pieces(p),
            SEE_DEPTH as nat,
        )
    }
}

/// The least valuable piece of the side to move attacking `sq`, and where it stands.
pub fn get_smallest_attacker(sq: Square, colours: &[Bitboard; 2], pieces: &[Bitboard; 6]) -> (r: Option<(Piece, Square)>)
    requires
        sq.valid(),
    ensures
        match spec_smallest_attacker(sq.0, *colours, *pieces) {
            Some((p, s)) => r == Some((p, Square(s))) && s < 64,
            None => r.is_none(),
        },
{
    let bb = Bitboard::from_square(sq);
    let blockers = colours[0] | colours[1];
    // Pawns
    let attackers_pawn = (bb.south_east() | bb.south_west()) & pieces[0] & colours[0];
    if attackers_pawn.is_occupied() {
        return Some((Piece::Pawn, attackers_pawn.lsb()));
    }
    // Knights
    let attackers_knight = rays::knights(bb) & pieces[1] & colours[0];
    if attackers_knight.is_occupied() {
        return Some((Piece::Knight, attackers_knight.lsb()));
    }
    // Bishops
    let attackers_bishop = magic::bishop_moves(sq.0 as i32, blockers.0) & pieces[2] & colours[0];
    if attackers_bishop.is_occupied() {
        return Some((Piece::Bishop, attackers_bishop.lsb()));
    }
    // Rooks
    let attackers_rook = magic::rook_moves(sq.0 as i32, blockers.0) & pieces[3] & colours[0];
    if attackers_rook.is_occupied() {
        return Some((Piece::Rook, attackers_rook.lsb()));
    }
    // Queens
    let attackers_queen = magic::queen_moves(sq.0 as i32, blockers.0) & pieces[4] & colours[0];
    if attackers_queen.is_occupied() {
        return Some((Piece::Queen, attackers_queen.lsb()));
    }
    // Kings
    let attackers_king = magic::king_moves(sq.0 as i32) & pieces[5] & colours[0];
    if attackers_king.is_occupied() {
        return Some((Piece::King, attackers_king.lsb()));
    }
    // None
    None
}

/// What the side to move gains at best by going on with the exchange on `sq`, the last piece
/// taken being worth `captured`; `depth` captures are followed at most.
fn see_impl(
    sq: Square,
    captured: i32,
    values: &[i32; 6],
    colours: [Bitboard; 2],
    pieces: [Bitboard; 6],
    depth: u32,
) -> (r: i32)
    requires
        sq.valid(),
        values_ok(*values),
        -0x20000000 <= captured <= 0x20000000,
    ensures
        r == spec_see_impl(sq.0, captured as int, *values, colours, pieces, depth as nat),
        0 <= r,
        r <= captured || r == 0,
    decreases depth,
{
    if depth == 0 {
        return 0;
    }
    let (attacker, from) = match get_smallest_attacker(sq, &colours, &pieces) {
        Some(asd) => asd,
        None => {
            return 0;
        },
    };
    // make
    let bb_from = Bitboard::from_square(from);
    let c = [colours[0] ^ bb_from, colours[1]];
    let mut p = pieces;
    toggle(&mut p, attacker.index(), bb_from);
    let next = values[attacker.index()];
    let fc = [c[1].flip(), c[0].flip()];
    let fp = [p[0].flip(), p[1].flip(), p[2].flip(), p[3].flip(), p[4].flip(), p[5].flip()];
    proof {
        crate::chess::square::lemma_flip_square(sq.0);
        assert(fc =~= flip_colours(c));
        assert(fp =~= flip_pieces(p));
    }
    let gain = see_impl(sq.flip(), next, values, fc, fp, depth - 1);
    let score = captured - gain;
    if score > 0 {
        score
    } else {
        0
    }
}

/// The static exchange evaluation of `mv` with the piece values `piece_values`.
pub fn see(pos: &Position, mv: &Mv, piece_values: &[i32; 6]) -> (r: i32)
    requires
        mv.from.valid(),
        mv.to.valid(),
        pos.piece_on(mv.from.0 as int) is Some,
        pos.ep matches Some(e) ==> e.valid(),
        values_ok(*piece_values),
    ensures
        r == spec_see(*pos, *mv, *piece_values),
{
    let mut colours = pos.colours;
    let mut pieces = pos.pieces;
    if pos.get_us().is_set(mv.to) {
        return 0;
    }
    let attacker = match pos.get_piece_on(mv.from) {
        Some(a) => a,
        None => Piece::Pawn,
    };
    let value = match pos.get_piece_on(mv.to) {
        Some(captured) => piece_values[captured.index()],
        None => {
            if pos.ep.is_some() && pos.ep.unwrap() == mv.to && attacker == Piece::Pawn {
                let bb = Bitboard::from_square(mv.to).south();
                colours = [colours[0], colours[1] ^ bb];
                toggle(&mut pieces, 0, bb);
                piece_values[0]
            } else {
                0
            }
        },
    };
    let from = Bitboard::from_square(mv.from);
    colours = [colours[0] ^ from, colours[1]];
    toggle(&mut pieces, attacker.index(), from);
    assert((value as int, colours, pieces) == see_start(*pos, *mv, *piece_values));
    let fc = [colours[1].flip(), colours[0].flip()];
    let fp = [
        pieces[0].flip(),
        pieces[1].flip(),
        pieces[2].flip(),
        pieces[3].flip(),
        pieces[4].flip(),
        pieces[5].flip(),
    ];
    proof {
        crate::chess::square::lemma_flip_square(mv.to.0);
        assert(fc =~= flip_colours(colours));
        assert(fp =~= flip_pieces(pieces));
    }
    let gain = see_impl(mv.to.flip(), piece_values[attacker.index()], piece_values, fc, fp, SEE_DEPTH);
    value - gain
}

} // verus!

use crate::chess::bitboard::{bit, lemma_bit_ops};
use crate::chess::mv::Mv;
use crate::chess::parse_law::{consistent, lemma_flip_bits, lemma_flip_consistent};
use crate::chess::piece::Piece;
use crate::chess::position::Position;
use crate::chess::rehash::{
    after_bit, board_after, lemma_board_after_fields, lemma_play_stage_bits, lemma_square_facts,
};
use vstd::prelude::*;
use vstd::std_specs::bits::{axiom_u64_trailing_zeros, u64_trailing_zeros};

verus! {

/// After a move, each square holds at most one colour and one kind of piece, and holds a colour
/// exactly when it holds a kind.
proof fn lemma_after_consistent_at(p: Position, mv: Mv, q: int)
    requires
        p.sound(),
        p.move_shaped(mv),
        0 <= q < 64,
    ensures
        !(after_bit(p, mv, 0, q) && after_bit(p, mv, 1, q)),
        forall|i: int, j: int|
            0 <= i < j < 6 ==> !(#[trigger] after_bit(p, mv, 2 + i, q) && #[trigger] after_bit(p, mv, 2 + j, q)),
        (after_bit(p, mv, 0, q) || after_bit(p, mv, 1, q)) ==> (after_bit(p, mv, 2, q) || after_bit(
            p,
            mv,
            3,
            q,
        ) || after_bit(p, mv, 4, q) || after_bit(p, mv, 5, q) || after_bit(p, mv, 6, q) || after_bit(
            p,
            mv,
            7,
            q,
        )),
        forall|i: int| 0 <= i < 6 && #[trigger] after_bit(p, mv, 2 + i, q) ==> after_bit(p, mv, 0, q) || after_bit(p, mv, 1, q),
{
    lemma_square_facts(p, mv, q);
}

impl Position {
    /// The position is sound and stays so as play goes on: both sides use the same castling
    /// files, the other side has one king too, and each castling right of either side has its
    /// king on its home rank, on the right side of its rook.
    pub open spec fn playable(self) -> bool {
        &&& self.sound()
        &&& self.castle_files[0] == self.castle_files[2]
        &&& self.castle_files[1] == self.castle_files[3]
        &&& forall|s: int| #[trigger]
            self.colours[1].has(s) && self.pieces[5].has(s) ==> s == self.them_king()
        &&& (self.us_qsc ==> self.us_king() < 8)
        &&& (self.them_ksc ==> 56 <= self.them_king() < 56 + self.castle_files[2])
        &&& (self.them_qsc ==> 56 + self.castle_files[3] < self.them_king())
    }

    /// The move does not take the king of the other side, and a pawn moving two squares starts
    /// on its second rank and passes over an empty square.
    pub open spec fn move_fair(self, mv: Mv) -> bool {
        &&& !(self.colours[1].has(mv.to.0 as int) && self.pieces[5].has(mv.to.0 as int))
        &&& (self.piece_on(mv.from.0 as int) == Some(Piece::Pawn) && mv.to.0 - mv.from.0 == 16
            ==> mv.from.0 < 16 && !self.occ_at(mv.to.0 - 8))
    }
}

/// The board after a move is consistent.
proof fn lemma_after_consistent(p: Position, mv: Mv, s0: Position)
    requires
        p.sound(),
        p.move_shaped(mv),
        s0 == (Position { hash: s0.hash, ..p }),
    ensures
        consistent(board_after(p, mv, s0)),
{
    let b = board_after(p, mv, s0);
    assert forall|s: int| !(#[trigger] b.colours[0].has(s) && b.colours[1].has(s)) by {
        if 0 <= s < 64 {
            lemma_play_stage_bits(p, mv, s0, s);
            lemma_after_consistent_at(p, mv, s);
        }
    }
    assert forall|s: int, i: int, j: int| 0 <= i < j < 6 implies !(#[trigger] b.pieces[i].has(s) && #[trigger] b.pieces[j].has(s)) by {
        if 0 <= s < 64 {
            lemma_play_stage_bits(p, mv, s0, s);
            lemma_after_consistent_at(p, mv, s);
            assert(b.pieces[i].has(s) == after_bit(p, mv, 2 + i, s));
            assert(b.pieces[j].has(s) == after_bit(p, mv, 2 + j, s));
        }
    }
    assert forall|s: int| (b.colours[0].has(s) || b.colours[1].has(s)) implies b.piece_on(s).is_some() by {
        lemma_play_stage_bits(p, mv, s0, s);
        lemma_after_consistent_at(p, mv, s);
        assert(b.pieces[0].has(s) == after_bit(p, mv, 2, s));
        assert(b.pieces[1].has(s) == after_bit(p, mv, 3, s));
        assert(b.pieces[2].has(s) == after_bit(p, mv, 4, s));
        assert(b.pieces[3].has(s) == after_bit(p, mv, 5, s));
        assert(b.pieces[4].has(s) == after_bit(p, mv, 6, s));
        assert(b.pieces[5].has(s) == after_bit(p, mv, 7, s));
    }
    assert forall|s: int, i: int| 0 <= i < 6 && #[trigger] b.pieces[i].has(s) implies b.colours[0].has(s)
        || b.colours[1].has(s) by {
        lemma_play_stage_bits(p, mv, s0, s);
        lemma_after_consistent_at(p, mv, s);
        assert(b.pieces[i].has(s) == after_bit(p, mv, 2 + i, s));
    }
}

/// The kings of a well formed position stand on their squares.
proof fn lemma_king_squares_set(p: Position)
    requires
        p.wf(),
    ensures
        0 <= p.us_king() < 64,
        0 <= p.them_king() < 64,
        p.colours[0].has(p.us_king()) && p.pieces[5].has(p.us_king()),
        p.colours[1].has(p.them_king()) && p.pieces[5].has(p.them_king()),
{
    crate::chess::zobrist::lemma_and_comm(p.pc(5), p.us());
    crate::chess::zobrist::lemma_and_comm(p.pc(5), p.them());
    axiom_u64_trailing_zeros(p.us() & p.pc(5));
    axiom_u64_trailing_zeros(p.them() & p.pc(5));
    lemma_bit_ops(p.us(), p.pc(5), p.us_king() as u64);
    lemma_bit_ops(p.them(), p.pc(5), p.them_king() as u64);
}

/// The square the king of the side to move stands on after a move.
pub open spec fn king_after(p: Position, mv: Mv) -> int {
    if p.piece_on(mv.from.0 as int) == Some(Piece::King) {
        if p.castles_ks(mv) {
            6
        } else if p.castles_qs(mv) {
            2
        } else {
            mv.to.0 as int
        }
    } else {
        p.us_king()
    }
}

/// After a move, the king of the other side is where it was, and the king of the side that moved
/// is on `king_after`; no other square holds a king.
proof fn lemma_after_kings_at(p: Position, mv: Mv, q: int)
    requires
        p.playable(),
        p.move_shaped(mv),
        p.move_fair(mv),
        0 <= q < 64,
    ensures
        (after_bit(p, mv, 1, q) && after_bit(p, mv, 7, q)) == (q == p.them_king()),
        (after_bit(p, mv, 0, q) && after_bit(p, mv, 7, q)) == (q == king_after(p, mv)),
{
    lemma_square_facts(p, mv, q);
    lemma_king_squares_set(p);
    let from = mv.from.0 as int;
    if p.piece_on(from) == Some(Piece::King) {
        assert(p.pieces[5].has(from));
        assert(from == p.us_king());
    } else {
        assert(p.piece_on(from).unwrap().spec_index() != 5);
        assert(from != p.us_king()) by {
            if from == p.us_king() {
                assert(p.pieces[5].has(from));
                assert(p.pieces[p.piece_on(from).unwrap().spec_index() as int].has(from));
            }
        }
    }
    if p.colours[0].has(q) && p.pieces[5].has(q) {
        assert(q == p.us_king());
    }
    if p.colours[1].has(q) && p.pieces[5].has(q) {
        assert(q == p.them_king());
    }
}

/// The squares of the castling rooks and of a pawn that moved two squares, after a move: a rook
/// that keeps its right stays, and the square passed over stays empty.
proof fn lemma_after_rights_at(p: Position, mv: Mv)
    requires
        p.playable(),
        p.move_shaped(mv),
        p.move_fair(mv),
    ensures
        p.them_ksc && mv.to.0 != 56 + p.castle_files[2] ==> after_bit(p, mv, 1, 56 + p.castle_files[2])
            && after_bit(p, mv, 5, 56 + p.castle_files[2]),
        p.them_qsc && mv.to.0 != 56 + p.castle_files[3] ==> after_bit(p, mv, 1, 56 + p.castle_files[3])
            && after_bit(p, mv, 5, 56 + p.castle_files[3]),
        p.us_ksc && p.piece_on(mv.from.0 as int) != Some(Piece::King) && mv.from.0 != p.castle_files[0]
            && mv.to.0 != p.castle_files[0] ==> after_bit(p, mv, 0, p.castle_files[0] as int) && after_bit(
            p,
            mv,
            5,
            p.castle_files[0] as int,
        ),
        p.us_qsc && p.piece_on(mv.from.0 as int) != Some(Piece::King) && mv.from.0 != p.castle_files[1]
            && mv.to.0 != p.castle_files[1] ==> after_bit(p, mv, 0, p.castle_files[1] as int) && after_bit(
            p,
            mv,
            5,
            p.castle_files[1] as int,
        ),
        p.piece_on(mv.from.0 as int) == Some(Piece::Pawn) && mv.to.0 - mv.from.0 == 16 ==> {
            &&& !after_bit(p, mv, 0, mv.to.0 - 8)
            &&& !after_bit(p, mv, 1, mv.to.0 - 8)
            &&& after_bit(p, mv, 0, mv.to.0 as int)
            &&& after_bit(p, mv, 2, mv.to.0 as int)
        },
{
    assert(p.castle_files[0int] < 8 && p.castle_files[1int] < 8);
    assert(p.castle_files[2int] < 8 && p.castle_files[3int] < 8);
    let from = mv.from.0 as int;
    let to = mv.to.0 as int;
    lemma_square_facts(p, mv, 56 + p.castle_files[2]);
    lemma_square_facts(p, mv, 56 + p.castle_files[3]);
    lemma_square_facts(p, mv, p.castle_files[0] as int);
    lemma_square_facts(p, mv, p.castle_files[1] as int);
    lemma_square_facts(p, mv, to);
    if to >= 8 {
        lemma_square_facts(p, mv, to - 8);
    }
    if p.them_ksc {
        assert(p.colours[1].has(56 + p.castle_files[2]));
    }
    if p.them_qsc {
        assert(p.colours[1].has(56 + p.castle_files[3]));
    }
    if p.piece_on(from) == Some(Piece::Pawn) && mv.to.0 - mv.from.0 == 16 {
        assert(!p.occ_at(to - 8));
        assert(mv.promo == Piece::NoPiece) by {
            let piece = p.piece_on(from).unwrap();
            assert(p.gen_ok(piece, mv));
        }
    }
}

/// Mirroring squares across the middle of the board.
proof fn lemma_mirror(x: u64)
    by (bit_vector)
    ensures
        x < 8 ==> ((56u64 + x) as u64) ^ 56u64 == x,
        x < 8 ==> x ^ 56u64 == x + 56u64,
        56 <= x < 64 ==> x ^ 56u64 == x - 56u64,
        16 <= x < 32 ==> 40 <= ((x - 8) as u64) ^ 56u64 < 56,
        16 <= x < 32 ==> (((x - 8) as u64) ^ 56u64) - 8u64 == x ^ 56u64,
        x < 64 ==> x ^ 56u64 < 64,
        (x ^ 56u64) ^ 56u64 == x,
{
}

/// Mirroring a square given as a byte.
proof fn lemma_mirror_u8(x: u8)
    by (bit_vector)
    ensures
        ((x ^ 56u8) as u64) ^ 56u64 == x as u64,
        (x ^ 56u8) as u64 == (x as u64) ^ 56u64,
{
}

/// A set with a single square: its lowest square is that square.
pub proof fn lemma_single_tz(x: u64, k: u64)
    requires
        k < 64,
        bit(x, k),
        forall|s: u64| s < 64 && #[trigger] bit(x, s) ==> s == k,
    ensures
        u64_trailing_zeros(x) == k,
        x != 0,
{
    axiom_u64_trailing_zeros(x);
    lemma_bit_ops(0, 0, k);
    let t = u64_trailing_zeros(x) as u64;
    assert(bit(x, t));
}

/// What square `s` holds, seen from the other side after a move, is what square `s ^ 56` holds
/// after the move before the board is turned round.
proof fn lemma_turned_square(pos: Position, mv: Mv, s0: Position, n: Position, s: int)
    requires
        pos.sound(),
        pos.move_shaped(mv),
        s0 == (Position { hash: s0.hash, ..pos }),
        n.colours == board_after(pos, mv, s0).colours,
        n.pieces == board_after(pos, mv, s0).pieces,
        0 <= s < 64,
    ensures
        0 <= (s as u64 ^ 56u64) < 64,
        n.spec_flip().colours[0].has(s) == after_bit(pos, mv, 1, (s as u64 ^ 56u64) as int),
        n.spec_flip().colours[1].has(s) == after_bit(pos, mv, 0, (s as u64 ^ 56u64) as int),
        forall|i: int| 0 <= i < 6 ==> #[trigger] n.spec_flip().pieces[i].has(s) == after_bit(pos, mv, 2 + i, (s as u64 ^ 56u64) as int),
{
    lemma_flip_bits(n, s);
    lemma_play_stage_bits(pos, mv, s0, (s as u64 ^ 56u64) as int);
    let t = (s as u64 ^ 56u64) as int;
    assert forall|i: int| 0 <= i < 6 implies #[trigger] n.spec_flip().pieces[i].has(s) == after_bit(pos, mv, 2 + i, t) by {
        assert(n.pieces[i].has(t) == after_bit(pos, mv, 2 + i, t));
    }
}

/// A position that plays the part of the position after a move: its board is the board after the
/// move, and its castling rights are those that survive the move.
pub open spec fn rights_after(pos: Position, mv: Mv, n: Position) -> bool {
    let from = mv.from.0;
    let to = mv.to.0;
    let cf = pos.castle_files;
    let ku = pos.king_sq(crate::chess::side::Side::Us);
    let kt = pos.king_sq(crate::chess::side::Side::Them);
    &&& n.us_ksc == (pos.us_ksc && from != ku && from != cf[0] && to != cf[0])
    &&& n.us_qsc == (pos.us_qsc && from != ku && from != cf[1] && to != cf[1])
    &&& n.them_ksc == (pos.them_ksc && from != kt && from != (56 + cf[2]) as u8 && to != (56 + cf[2]) as u8)
    &&& n.them_qsc == (pos.them_qsc && from != kt && from != (56 + cf[3]) as u8 && to != (56 + cf[3]) as u8)
}

/// The position after a move, turned round for the other side, is playable again.
pub proof fn lemma_turned_playable(pos: Position, mv: Mv, s0: Position, n: Position)
    requires
        pos.playable(),
        pos.move_shaped(mv),
        pos.move_fair(mv),
        s0 == (Position { hash: s0.hash, ..pos }),
        n.colours == board_after(pos, mv, s0).colours,
        n.pieces == board_after(pos, mv, s0).pieces,
        n.castle_files == pos.castle_files,
        n.turn == pos.turn,
        n.ep == board_after(pos, mv, s0).ep,
        rights_after(pos, mv, n),
    ensures
        n.spec_flip().playable(),
{
    let b = board_after(pos, mv, s0);
    let m = n.spec_flip();
    let from = mv.from.0 as int;
    let to = mv.to.0 as int;
    let cf = pos.castle_files;
    lemma_board_after_fields(pos, mv, s0);
    lemma_after_consistent(pos, mv, s0);
    assert(consistent(n));
    lemma_flip_consistent(n);
    lemma_king_squares_set(pos);
    lemma_after_rights_at(pos, mv);
    crate::chess::hash_law::lemma_king_squares(pos, mv);
    assert(cf[0int] < 8 && cf[1int] < 8 && cf[2int] < 8 && cf[3int] < 8);
    let k = pos.them_king();
    let u = king_after(pos, mv);
    lemma_after_kings_at(pos, mv, 0);
    assert(0 <= u < 64) by {
        if pos.piece_on(from) == Some(Piece::King) {
            assert(pos.gen_ok(Piece::King, mv));
        }
    }
    lemma_mirror(k as u64);
    lemma_mirror(u as u64);
    let ks = (k as u64 ^ 56u64) as int;
    let us_ = (u as u64 ^ 56u64) as int;
    // The kings of the turned position.
    let xu = m.us() & m.pc(5);
    let xt = m.them() & m.pc(5);
    assert forall|s: u64| s < 64 && #[trigger] bit(xu, s) implies s == ks by {
        lemma_bit_ops(m.us(), m.pc(5), s);
        lemma_turned_square(pos, mv, s0, n, s as int);
        lemma_after_kings_at(pos, mv, (s ^ 56u64) as int);
        lemma_mirror(s);
    }
    assert(bit(xu, ks as u64)) by {
        lemma_bit_ops(m.us(), m.pc(5), ks as u64);
        lemma_turned_square(pos, mv, s0, n, ks);
        lemma_after_kings_at(pos, mv, k);
    }
    lemma_single_tz(xu, ks as u64);
    assert forall|s: u64| s < 64 && #[trigger] bit(xt, s) implies s == us_ by {
        lemma_bit_ops(m.them(), m.pc(5), s);
        lemma_turned_square(pos, mv, s0, n, s as int);
        lemma_after_kings_at(pos, mv, (s ^ 56u64) as int);
        lemma_mirror(s);
    }
    assert(bit(xt, us_ as u64)) by {
        lemma_bit_ops(m.them(), m.pc(5), us_ as u64);
        lemma_turned_square(pos, mv, s0, n, us_);
        lemma_after_kings_at(pos, mv, u);
    }
    lemma_single_tz(xt, us_ as u64);
    assert(m.us_king() == ks);
    assert(m.them_king() == us_);
    crate::chess::zobrist::lemma_and_comm(m.pc(5), m.us());
    crate::chess::zobrist::lemma_and_comm(m.pc(5), m.them());
    assert forall|s: int| #[trigger] m.colours[0].has(s) && m.pieces[5].has(s) implies s == m.us_king() by {
        lemma_bit_ops(m.us(), m.pc(5), s as u64);
    }
    assert forall|s: int| #[trigger] m.colours[1].has(s) && m.pieces[5].has(s) implies s == m.them_king() by {
        lemma_bit_ops(m.them(), m.pc(5), s as u64);
    }
    // The castling rights of the turned position.
    let ku = pos.king_sq(crate::chess::side::Side::Us) as int;
    assert(ku == pos.us_king()) by {
        crate::chess::zobrist::lemma_and_comm(pos.pc(5), pos.us());
    }
    if m.us_ksc {
        let r = 56 + cf[2];
        lemma_mirror(cf[2] as u64);
        lemma_turned_square(pos, mv, s0, n, cf[0] as int);
        assert(m.colours[0].has(cf[0] as int) && m.pieces[3].has(cf[0] as int));
        assert(m.us_king() < cf[0]);
    }
    if m.us_qsc {
        lemma_mirror(cf[3] as u64);
        lemma_turned_square(pos, mv, s0, n, cf[1] as int);
        assert(m.colours[0].has(cf[1] as int) && m.pieces[3].has(cf[1] as int));
        assert(cf[1] < m.us_king() < 8);
    }
    if m.them_ksc {
        lemma_mirror(cf[0] as u64);
        lemma_turned_square(pos, mv, s0, n, 56 + cf[2]);
        assert(pos.piece_on(from) != Some(Piece::King));
        assert(m.colours[1].has(56 + cf[2]) && m.pieces[3].has(56 + cf[2]));
        assert(56 <= m.them_king() < 56 + cf[2]);
    }
    if m.them_qsc {
        lemma_mirror(cf[1] as u64);
        lemma_turned_square(pos, mv, s0, n, 56 + cf[3]);
        assert(pos.piece_on(from) != Some(Piece::King));
        assert(m.colours[1].has(56 + cf[3]) && m.pieces[3].has(56 + cf[3]));
        assert(56 + cf[3] < m.them_king());
    }
    // The en passant square of the turned position.
    if let Some(e) = m.ep {
        assert(pos.piece_on(from) == Some(Piece::Pawn) && mv.to.0 - mv.from.0 == 16);
        lemma_mirror(mv.to.0 as u64);
        assert(e.0 == ((mv.to.0 - 8) as u8 ^ 56u8));
        lemma_mirror_u8((mv.to.0 - 8) as u8);
        assert(e.0 >= 8);
        lemma_turned_square(pos, mv, s0, n, e.0 as int);
        lemma_turned_square(pos, mv, s0, n, e.0 - 8);
        assert(!m.colours[0].has(e.0 as int) && !m.colours[1].has(e.0 as int));
        assert(m.colours[1].has(e.0 - 8) && m.pieces[0].has(e.0 - 8));
    }
    assert(m.wf());
    assert(m.sound());

}

} // verus!

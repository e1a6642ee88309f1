use crate::chess::bitboard::{lemma_bit_ops, lemma_bit_shifts, lemma_bit_single};
use crate::chess::fen::{
    board_from, castle_from, castle_step, fen_blank, fen_piece, fen_square, split_fields, with_piece,
};
use crate::chess::position::Position;
use crate::chess::set_fen::{
    spec_finish_fen, spec_parse_fen, spec_read_fen, spec_read_rest, startpos_word,
};
use crate::chess::bitboard::bit;
use crate::chess::zobrist::lemma_and_comm;
use crate::chess::validate::lemma_popcount_one;
use vstd::prelude::*;

verus! {

/// Each square holds a colour exactly when it holds a kind of piece, and never both colours or
/// two kinds.
pub open spec fn consistent(p: Position) -> bool {
    &&& forall|s: int| !(#[trigger] p.colours[0].has(s) && p.colours[1].has(s))
    &&& forall|s: int, i: int, j: int|
        0 <= i < j < 6 ==> !(#[trigger] p.pieces[i].has(s) && #[trigger] p.pieces[j].has(s))
    &&& forall|s: int|
        #![trigger p.colours[0].has(s)]
        #![trigger p.colours[1].has(s)]
        (p.colours[0].has(s) || p.colours[1].has(s)) ==> p.piece_on(s).is_some()
    &&& forall|s: int, i: int|
        0 <= i < 6 && #[trigger] p.pieces[i].has(s) ==> p.colours[0].has(s) || p.colours[1].has(s)
}

/// The squares a FEN board names from the `idx`-th on are empty.
pub open spec fn empty_from(p: Position, idx: int) -> bool {
    forall|j: int, i: int|
        idx <= j < 64 && 0 <= i < 6 ==> !p.colours[0].has(#[trigger] fen_square(j)) && !p.colours[1].has(
            fen_square(j),
        ) && !#[trigger] p.pieces[i].has(fen_square(j))
}

/// The squares a FEN board names are squares, each named once.
proof fn lemma_fen_square(a: int, b: int)
    requires
        0 <= a < 64,
        0 <= b < 64,
    ensures
        0 <= fen_square(a) < 64,
        fen_square(a) == fen_square(b) ==> a == b,
{
}

/// The squares after a piece of colour `col` and kind `k` is put on square `q`.
proof fn lemma_with_piece_bits(pos: Position, col: int, k: int, q: int, s: int)
    requires
        0 <= col < 2,
        0 <= k < 6,
        0 <= q < 64,
    ensures
        ({
            let p2 = with_piece(pos, col, k, 1u64 << (q as u64));
            &&& p2.colours[0].has(s) == (pos.colours[0].has(s) != (col == 0 && s == q))
            &&& p2.colours[1].has(s) == (pos.colours[1].has(s) != (col == 1 && s == q))
            &&& forall|i: int| 0 <= i < 6 ==> #[trigger] p2.pieces[i].has(s) == (pos.pieces[i].has(s) != (i == k && s == q))
            &&& p2.turn == pos.turn && p2.ep == pos.ep && p2.castle_files == pos.castle_files
            &&& p2.us_ksc == pos.us_ksc && p2.us_qsc == pos.us_qsc && p2.them_ksc == pos.them_ksc
                && p2.them_qsc == pos.them_qsc
        }),
{
    if 0 <= s < 64 {
        lemma_bit_single(q as u64, s as u64);
        lemma_bit_ops(pos.us(), 1u64 << (q as u64), s as u64);
        lemma_bit_ops(pos.them(), 1u64 << (q as u64), s as u64);
        assert forall|i: int| 0 <= i < 6 implies #[trigger] with_piece(pos, col, k, 1u64 << (q as u64)).pieces[i].has(s)
            == (pos.pieces[i].has(s) != (i == k && s == q)) by {
            lemma_bit_ops(pos.pieces[i].0, 1u64 << (q as u64), s as u64);
        }
    }
}

/// Putting a piece on an empty square named later keeps a board consistent.
proof fn lemma_place_piece(pos: Position, col: int, k: int, idx: int)
    requires
        consistent(pos),
        empty_from(pos, idx),
        0 <= idx < 64,
        0 <= col < 2,
        0 <= k < 6,
    ensures
        consistent(with_piece(pos, col, k, 1u64 << (fen_square(idx) as u64))),
        empty_from(with_piece(pos, col, k, 1u64 << (fen_square(idx) as u64)), idx + 1),
{
    let q = fen_square(idx);
    lemma_fen_square(idx, idx);
    let p2 = with_piece(pos, col, k, 1u64 << (q as u64));
    assert(!pos.colours[0].has(q) && !pos.colours[1].has(q));
    assert(forall|i: int| 0 <= i < 6 ==> !#[trigger] pos.pieces[i].has(q)) by {
        assert forall|i: int| 0 <= i < 6 implies !#[trigger] pos.pieces[i].has(q) by {
            assert(!pos.pieces[i].has(fen_square(idx)));
        }
    }
    assert forall|s: int| !(#[trigger] p2.colours[0].has(s) && p2.colours[1].has(s)) by {
        lemma_with_piece_bits(pos, col, k, q, s);
    }
    assert forall|s: int, i: int, j: int| 0 <= i < j < 6 implies !(#[trigger] p2.pieces[i].has(s) && #[trigger] p2.pieces[j].has(s)) by {
        lemma_with_piece_bits(pos, col, k, q, s);
    }
    assert forall|s: int| (p2.colours[0].has(s) || p2.colours[1].has(s)) implies p2.piece_on(s).is_some() by {
        lemma_with_piece_bits(pos, col, k, q, s);
        if s != q {
            assert(pos.piece_on(s).is_some());
        }
    }
    assert forall|s: int, i: int| 0 <= i < 6 && #[trigger] p2.pieces[i].has(s) implies p2.colours[0].has(s)
        || p2.colours[1].has(s) by {
        lemma_with_piece_bits(pos, col, k, q, s);
    }
    assert forall|j: int, i: int| idx + 1 <= j < 64 && 0 <= i < 6 implies !p2.colours[0].has(#[trigger] fen_square(j))
        && !p2.colours[1].has(fen_square(j)) && !#[trigger] p2.pieces[i].has(fen_square(j)) by {
        lemma_fen_square(j, idx);
        lemma_with_piece_bits(pos, col, k, q, fen_square(j));
        assert(!pos.colours[0].has(fen_square(j)) && !pos.colours[1].has(fen_square(j)) && !pos.pieces[i].has(fen_square(j)));
    }
}

/// Reading a FEN board onto a consistent board whose squares still to be named are empty gives
/// a consistent board, and changes nothing but the pieces.
pub proof fn lemma_board_from_consistent(pos: Position, b: Seq<u8>, i: int, idx: int)
    requires
        consistent(pos),
        empty_from(pos, idx),
        0 <= idx,
    ensures
        board_from(pos, b, i, idx) matches Ok(r) ==> {
            &&& consistent(r)
            &&& r.turn == pos.turn && r.ep == pos.ep && r.castle_files == pos.castle_files
            &&& r.us_ksc == pos.us_ksc && r.us_qsc == pos.us_qsc && r.them_ksc == pos.them_ksc
                && r.them_qsc == pos.them_qsc
            &&& r.halfmoves == pos.halfmoves && r.fullmoves == pos.fullmoves
        },
    decreases b.len() - i,
{
    if i < b.len() {
        let c = b[i];
        match fen_piece(c) {
            Some((col, k)) => {
                if idx < 64 {
                    assert(0 <= col < 2 && 0 <= k < 6);
                    lemma_place_piece(pos, col, k, idx);
                    lemma_with_piece_bits(pos, col, k, fen_square(idx), 0);
                    lemma_fen_square(idx, idx);
                    lemma_board_from_consistent(
                        with_piece(pos, col, k, 1u64 << (fen_square(idx) as u64)),
                        b,
                        i + 1,
                        idx + 1,
                    );
                }
            },
            None => {
                if ('1' as u8) <= c <= ('8' as u8) {
                    lemma_board_from_consistent(pos, b, i + 1, idx + (c - ('0' as u8)));
                } else if c == ('/' as u8) {
                    lemma_board_from_consistent(pos, b, i + 1, idx);
                }
            },
        }
    }
}

/// Reading castling rights changes only the rights and the castling files, which stay files.
pub proof fn lemma_castle_from_keeps(pos: Position, cs: Seq<u8>, i: int)
    requires
        forall|k: int| 0 <= k < 4 ==> #[trigger] pos.castle_files[k] < 8,
    ensures
        castle_from(pos, cs, i) matches Ok(r) ==> {
            &&& r.colours == pos.colours && r.pieces == pos.pieces && r.turn == pos.turn
            &&& r.ep == pos.ep && r.halfmoves == pos.halfmoves && r.fullmoves == pos.fullmoves
            &&& forall|k: int| 0 <= k < 4 ==> #[trigger] r.castle_files[k] < 8
        },
    decreases cs.len() - i,
{
    if 0 <= i < cs.len() && !cs.take(i).contains(cs[i]) && cs[i] != ('-' as u8) {
        match castle_step(pos, cs[i]) {
            Ok(p) => {
                assert(forall|k: int| 0 <= k < 4 ==> #[trigger] p.castle_files[k] < 8);
                lemma_castle_from_keeps(p, cs, i + 1);
            },
            Err(_) => {},
        }
    }
}

/// Seen from the other side, a consistent board stays consistent.
pub proof fn lemma_flip_consistent(p: Position)
    requires
        consistent(p),
    ensures
        consistent(p.spec_flip()),
{
    let f = p.spec_flip();
    assert forall|s: int| !(#[trigger] f.colours[0].has(s) && f.colours[1].has(s)) by {
        if 0 <= s < 64 {
            lemma_flip_bits(p, s);
            assert(!(p.colours[0].has((s as u64 ^ 56u64) as int) && p.colours[1].has((s as u64 ^ 56u64) as int)));
        }
    }
    assert forall|s: int, i: int, j: int| 0 <= i < j < 6 implies !(#[trigger] f.pieces[i].has(s) && #[trigger] f.pieces[j].has(s)) by {
        if 0 <= s < 64 {
            lemma_flip_bits(p, s);
            let t = (s as u64 ^ 56u64) as int;
            assert(!(p.pieces[i].has(t) && p.pieces[j].has(t)));
        }
    }
    assert forall|s: int| (f.colours[0].has(s) || f.colours[1].has(s)) implies f.piece_on(s).is_some() by {
        lemma_flip_bits(p, s);
        let t = (s as u64 ^ 56u64) as int;
        assert(p.colours[0].has(t) || p.colours[1].has(t));
        assert(p.piece_on(t).is_some());
    }
    assert forall|s: int, i: int| 0 <= i < 6 && #[trigger] f.pieces[i].has(s) implies f.colours[0].has(s)
        || f.colours[1].has(s) by {
        lemma_flip_bits(p, s);
        let t = (s as u64 ^ 56u64) as int;
        assert(p.pieces[i].has(t));
    }
}

pub proof fn lemma_flip_bits(p: Position, s: int)
    requires
        0 <= s < 64,
    ensures
        p.spec_flip().colours[0].has(s) == p.colours[1].has((s as u64 ^ 56u64) as int),
        p.spec_flip().colours[1].has(s) == p.colours[0].has((s as u64 ^ 56u64) as int),
        forall|i: int| 0 <= i < 6 ==> #[trigger] p.spec_flip().pieces[i].has(s) == p.pieces[i].has((s as u64 ^ 56u64) as int),
        0 <= (s as u64 ^ 56u64) < 64,
{
    lemma_flip_sq(s as u64);
    lemma_bit_shifts(p.colours[0].0, s as u64);
    lemma_bit_shifts(p.colours[1].0, s as u64);
    assert forall|i: int| 0 <= i < 6 implies #[trigger] p.spec_flip().pieces[i].has(s) == p.pieces[i].has((s as u64 ^ 56u64) as int) by {
        lemma_bit_shifts(p.pieces[i].0, s as u64);
    }
}

proof fn lemma_flip_sq(s: u64)
    by (bit_vector)
    requires
        s < 64,
    ensures
        s ^ 56u64 < 64,
{
}

/// The squares of the starting position, square by square.
pub proof fn lemma_startpos_bits(s: u64)
    by (bit_vector)
    requires
        s < 64,
    ensures
        !(bit(0xFFFFu64, s) && bit(0xFFFF000000000000u64, s)),
        !(bit(0x00FF00000000FF00u64, s) && bit(0x4200000000000042u64, s)),
        !(bit(0x00FF00000000FF00u64, s) && bit(0x2400000000000024u64, s)),
        !(bit(0x00FF00000000FF00u64, s) && bit(0x8100000000000081u64, s)),
        !(bit(0x00FF00000000FF00u64, s) && bit(0x800000000000008u64, s)),
        !(bit(0x00FF00000000FF00u64, s) && bit(0x1000000000000010u64, s)),
        !(bit(0x4200000000000042u64, s) && bit(0x2400000000000024u64, s)),
        !(bit(0x4200000000000042u64, s) && bit(0x8100000000000081u64, s)),
        !(bit(0x4200000000000042u64, s) && bit(0x800000000000008u64, s)),
        !(bit(0x4200000000000042u64, s) && bit(0x1000000000000010u64, s)),
        !(bit(0x2400000000000024u64, s) && bit(0x8100000000000081u64, s)),
        !(bit(0x2400000000000024u64, s) && bit(0x800000000000008u64, s)),
        !(bit(0x2400000000000024u64, s) && bit(0x1000000000000010u64, s)),
        !(bit(0x8100000000000081u64, s) && bit(0x800000000000008u64, s)),
        !(bit(0x8100000000000081u64, s) && bit(0x1000000000000010u64, s)),
        !(bit(0x800000000000008u64, s) && bit(0x1000000000000010u64, s)),
        (bit(0xFFFFu64, s) || bit(0xFFFF000000000000u64, s)) ==> (bit(0x00FF00000000FF00u64, s) || bit(
            0x4200000000000042u64,
            s,
        ) || bit(0x2400000000000024u64, s) || bit(0x8100000000000081u64, s) || bit(
            0x800000000000008u64,
            s,
        ) || bit(0x1000000000000010u64, s)),
        0x1000000000000010u64 & 0xFFFFu64 != 0,
        0x1000000000000010u64 & 0xFFFF000000000000u64 != 0,
{
}

/// The starting position is well formed.
pub proof fn lemma_startpos_wf(is_frc: bool)
    ensures
        (Position { is_frc, ..Position::spec_startpos() }).wf(),
{
    let p = Position { is_frc, ..Position::spec_startpos() };
    lemma_startpos_bits(0);
    assert forall|s: int| !(#[trigger] p.colours[0].has(s) && p.colours[1].has(s)) by {
        if 0 <= s < 64 {
            lemma_startpos_bits(s as u64);
        }
    }
    assert forall|s: int, i: int, j: int| 0 <= i < j < 6 implies !(#[trigger] p.pieces[i].has(s) && #[trigger] p.pieces[j].has(s)) by {
        if 0 <= s < 64 {
            lemma_startpos_bits(s as u64);
        }
    }
    assert forall|s: int| (p.colours[0].has(s) || p.colours[1].has(s)) implies p.piece_on(s).is_some() by {
        lemma_startpos_bits(s as u64);
    }
    assert(forall|i: int| 0 <= i < 4 ==> #[trigger] p.castle_files[i] < 8);
}

/// The board a FEN string is read onto is consistent and empty.
pub proof fn lemma_blank_board(is_frc: bool)
    ensures
        consistent(fen_blank(is_frc)),
        empty_from(fen_blank(is_frc), 0),
{
    lemma_bit_ops(0, 0, 0);
    assert forall|q: u64| q < 64 implies !bit(0u64, q) by {
        lemma_bit_ops(0, 0, q);
    }
}

/// Every position `parse_fen` accepts is well formed, and one read from a FEN string, rather than
/// from the word `startpos`, passes the position checks.
pub proof fn lemma_parse_fen_wf(s: Seq<u8>, is_frc: bool)
    ensures
        spec_parse_fen(s, is_frc) matches Ok(p) ==> p.wf(),
        s != startpos_word() && spec_parse_fen(s, is_frc) is Ok ==> spec_parse_fen(s, is_frc)->Ok_0.spec_validate() is Ok,
{
    if s == startpos_word() {
        lemma_startpos_wf(is_frc);
    } else {
        reveal(spec_read_fen);
        let f = split_fields(s);
        let blank = fen_blank(is_frc);
        lemma_blank_board(is_frc);
        lemma_board_from_consistent(blank, f[0], 0, 0);
        match board_from(blank, f[0], 0, 0) {
            Ok(board) => {
                assert(forall|k: int| 0 <= k < 4 ==> #[trigger] board.castle_files[k] < 8);
                if f.len() >= 3 {
                    lemma_castle_from_keeps(board, f[2], 0);
                }
                let castled = if f.len() >= 3 {
                    castle_from(board, f[2], 0)
                } else {
                    Ok(board)
                };
                if let Ok(c) = castled {
                    lemma_read_rest_wf(c, f, f.len() >= 2 && f[1].len() == 1 && (f[1][0] == ('b' as u8) || f[1][0] == ('B' as u8)));
                    lemma_read_rest_wf(c, f, true);
                    lemma_read_rest_wf(c, f, false);
                }
            },
            Err(_) => {},
        }
    }
}

/// Reading the rest of a FEN string onto a consistent board whose castling files are files gives,
/// when accepted, a well formed position that passes the position checks.
pub proof fn lemma_read_rest_wf(c: Position, f: Seq<Seq<u8>>, black: bool)
    requires
        consistent(c),
        forall|k: int| 0 <= k < 4 ==> #[trigger] c.castle_files[k] < 8,
    ensures
        spec_read_rest(c, f, black) matches Ok(p) ==> p.wf() && p.spec_validate() is Ok,
{
    match spec_read_rest(c, f, black) {
        Ok(p) => {
            let ep = crate::chess::fen::spec_parse_ep(f[3])->Ok_0;
            let h = crate::chess::fen::spec_parse_i32(f[4]).unwrap();
            let m = crate::chess::fen::spec_parse_i32(f[5]).unwrap();
            let q = Position { ep, halfmoves: h, fullmoves: m, ..c };
            assert(spec_read_rest(c, f, black) == spec_finish_fen(q, black));
            let q2 = if black { q.spec_flip() } else { q };
            assert(consistent(q)) by {
                assert(q.colours == c.colours && q.pieces == c.pieces);
            }
            if black {
                lemma_flip_consistent(q);
            }
            assert(p == Position { hash: q2.spec_calculate_hash(), ..q2 });
            assert(p.spec_validate() is Ok);
            lemma_popcount_one(p.white() & p.pc(5));
            lemma_popcount_one(p.black() & p.pc(5));
            lemma_and_comm(p.pc(5), p.us());
            lemma_and_comm(p.pc(5), p.them());
            assert(consistent(p)) by {
                assert(p.colours == q2.colours && p.pieces == q2.pieces);
            }
            assert(forall|k: int| 0 <= k < 4 ==> #[trigger] p.castle_files[k] < 8);
        },
        Err(_) => {},
    }
}

} // verus!

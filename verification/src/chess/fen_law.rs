use crate::chess::bitboard::{bit, count_below, lemma_bit_ops, popcount};
use crate::chess::fen::{
    board_from, castle_from, castle_step, east_of, fen_blank, highest, lowest, split_fields, west_of,
};
use crate::chess::parse_law::{
    consistent, lemma_blank_board, lemma_board_from_consistent, lemma_castle_from_keeps, lemma_flip_bits,
    lemma_flip_consistent, lemma_read_rest_wf, lemma_startpos_wf,
};
use crate::chess::rehash::{board_of, lemma_board_hash_of};
use crate::chess::set_fen::{spec_finish_fen, spec_parse_fen, spec_read_fen, spec_read_rest, startpos_word};
use crate::chess::sound_law::lemma_single_tz;
use crate::chess::mv::Mv;
use crate::chess::play_law::{after_line, lemma_line_keeps_hash, line_fair};
use crate::chess::position::Position;
use crate::chess::validate::lemma_popcount_one;
use crate::chess::zobrist::lemma_and_comm;
use vstd::prelude::*;
use vstd::std_specs::bits::{axiom_u64_leading_zeros, axiom_u64_trailing_zeros, u64_leading_zeros};

verus! {

/// Each castling right read so far has its file on the proper side of its king's file: east of
/// it for the king side, not east of it for the queen side.
pub open spec fn files_fit(c: Position) -> bool {
    let w = lowest(c.us() & c.pc(5)) % 8;
    let b = lowest(c.them() & c.pc(5)) % 8;
    &&& (c.us_ksc ==> c.castle_files[0] > w)
    &&& (c.us_qsc ==> c.castle_files[1] <= w)
    &&& (c.them_ksc ==> c.castle_files[2] > b)
    &&& (c.them_qsc ==> c.castle_files[3] <= b)
}

/// The squares east of `w` on its rank lie on files east of it, those west of it on files west
/// of it.
proof fn lemma_side_files(w: u8, t: u64)
    by (bit_vector)
    requires
        w < 64,
        t < 64,
    ensures
        (east_of(w) >> t) & 1u64 == 1u64 ==> t % 8 > (w as u64) % 8,
        (west_of(w) >> t) & 1u64 == 1u64 ==> t % 8 < (w as u64) % 8,
{
}

/// The highest and the lowest square of a non-empty set are in it.
proof fn lemma_ends_in(x: u64)
    requires
        x != 0,
    ensures
        0 <= highest(x) < 64,
        bit(x, highest(x) as u64),
        0 <= lowest(x) < 64,
        bit(x, lowest(x) as u64),
{
    axiom_u64_leading_zeros(x);
    axiom_u64_trailing_zeros(x);
    lemma_bit_ops(x, x, (63 - u64_leading_zeros(x)) as u64);
    lemma_bit_ops(x, x, lowest(x) as u64);
}

/// A square of the set `x & (m & y)` is a square of `x` and of `y`.
proof fn lemma_in_masked(x: u64, m: u64, y: u64, t: u64)
    requires
        t < 64,
        bit(x & (m & y), t),
    ensures
        bit(x, t),
        bit(y, t),
{
    lemma_bit_ops(x, m & y, t);
    lemma_bit_ops(m, y, t);
}

/// Reading one castling right keeps the files on the proper sides of the kings, and changes
/// only the rights and the files.
proof fn lemma_castle_step_fits(pos: Position, c: u8)
    requires
        files_fit(pos),
        pos.us() & pos.pc(5) != 0,
        pos.them() & pos.pc(5) != 0,
    ensures
        castle_step(pos, c) matches Ok(r) ==> files_fit(r) && r.colours == pos.colours && r.pieces
            == pos.pieces,
{
    let white = pos.us();
    let black = pos.them();
    lemma_ends_in(white & pos.pc(5));
    lemma_ends_in(black & pos.pc(5));
    let wk = lowest(white & pos.pc(5)) as u8;
    let bk = lowest(black & pos.pc(5)) as u8;
    lemma_and_comm(pos.pc(5), pos.us());
    lemma_and_comm(pos.pc(5), pos.them());
    if c == ('K' as u8) {
        let r = (white & pos.pc(3)) & (0xFFu64 & east_of(wk));
        if r != 0 {
            lemma_ends_in(r);
            lemma_in_masked(white & pos.pc(3), 0xFFu64, east_of(wk), highest(r) as u64);
            lemma_side_files(wk, highest(r) as u64);
        }
    } else if c == ('Q' as u8) {
        let r = (white & pos.pc(3)) & (0xFFu64 & west_of(wk));
        if r != 0 {
            lemma_ends_in(r);
            lemma_in_masked(white & pos.pc(3), 0xFFu64, west_of(wk), lowest(r) as u64);
            lemma_side_files(wk, lowest(r) as u64);
        }
    } else if c == ('k' as u8) {
        let r = (black & pos.pc(3)) & (0xFF00000000000000u64 & east_of(bk));
        if r != 0 {
            lemma_ends_in(r);
            lemma_in_masked(black & pos.pc(3), 0xFF00000000000000u64, east_of(bk), highest(r) as u64);
            lemma_side_files(bk, highest(r) as u64);
        }
    } else if c == ('q' as u8) {
        let r = (black & pos.pc(3)) & (0xFF00000000000000u64 & west_of(bk));
        if r != 0 {
            lemma_ends_in(r);
            lemma_in_masked(black & pos.pc(3), 0xFF00000000000000u64, west_of(bk), lowest(r) as u64);
            lemma_side_files(bk, lowest(r) as u64);
        }
    }
}

/// Reading the castling part of a FEN string keeps the files on the proper sides of the kings.
proof fn lemma_castle_from_fits(pos: Position, cs: Seq<u8>, i: int)
    requires
        files_fit(pos),
        pos.us() & pos.pc(5) != 0,
        pos.them() & pos.pc(5) != 0,
    ensures
        castle_from(pos, cs, i) matches Ok(r) ==> files_fit(r) && r.colours == pos.colours
            && r.pieces == pos.pieces,
    decreases cs.len() - i,
{
    if 0 <= i < cs.len() && !cs.take(i).contains(cs[i]) && cs[i] != ('-' as u8) {
        lemma_castle_step_fits(pos, cs[i]);
        match castle_step(pos, cs[i]) {
            Ok(p) => {
                lemma_castle_from_fits(p, cs, i + 1);
            },
            Err(_) => {},
        }
    }
}

/// A set with a square `a` below `n` has a square among its lowest `n`.
proof fn lemma_count_one_below(x: u64, a: u64, n: nat)
    requires
        a < n <= 64,
        bit(x, a),
    ensures
        count_below(x, n) >= 1,
    decreases n,
{
    if n - 1 != a {
        lemma_count_one_below(x, a, (n - 1) as nat);
    }
}

/// A set with squares `a` and `b`, both below `n`, has two squares among its lowest `n`.
proof fn lemma_count_two_below(x: u64, a: u64, b: u64, n: nat)
    requires
        a < b < n <= 64,
        bit(x, a),
        bit(x, b),
    ensures
        count_below(x, n) >= 2,
    decreases n,
{
    if n - 1 == b {
        lemma_count_one_below(x, a, b as nat);
    } else {
        lemma_count_two_below(x, a, b, (n - 1) as nat);
    }
}

/// A set of one square has no other square.
pub proof fn lemma_popcount_single(x: u64, a: u64, b: u64)
    requires
        popcount(x) == 1,
        a < 64,
        b < 64,
        bit(x, a),
        bit(x, b),
    ensures
        a == b,
{
    if a < b {
        lemma_count_two_below(x, a, b, 64);
    } else if b < a {
        lemma_count_two_below(x, b, a, 64);
    }
}

/// The en passant squares: the square behind a single square, and a single square meeting a set.
proof fn lemma_ep_square_bits(e: u64, th: u64, pw: u64, oc: u64)
    by (bit_vector)
    requires
        8 <= e < 64,
    ensures
        ((1u64 << e) >> 8u64) & th & pw != 0 ==> (th >> ((e - 8) as u64)) & 1u64 == 1u64 && (pw >> ((
        e - 8) as u64)) & 1u64 == 1u64,
        (1u64 << e) & oc == 0 ==> (oc >> e) & 1u64 != 1u64,
{
}

/// What a consistent board that passes the position checks gives: one king a side, a rook of
/// its side on the castling square of each right, kings on their home ranks while they hold a
/// right, never a rook and a king on one square, and an en passant square that is empty, behind
/// a pawn of the other side.
proof fn lemma_checked_facts(p: Position)
    requires
        consistent(p),
        p.spec_validate() is Ok,
        forall|k: int| 0 <= k < 4 ==> #[trigger] p.castle_files[k] < 8,
        p.ep matches Some(e) ==> e.valid(),
    ensures
        0 <= p.us_king() < 64,
        0 <= p.them_king() < 64,
        p.colours[0].has(p.us_king()) && p.pieces[5].has(p.us_king()),
        p.colours[1].has(p.them_king()) && p.pieces[5].has(p.them_king()),
        forall|s: int| #[trigger] p.colours[0].has(s) && p.pieces[5].has(s) ==> s == p.us_king(),
        forall|s: int| #[trigger] p.colours[1].has(s) && p.pieces[5].has(s) ==> s == p.them_king(),
        p.us_ksc ==> p.colours[0].has(p.castle_files[0] as int) && p.pieces[3].has(p.castle_files[0] as int),
        p.us_qsc ==> p.colours[0].has(p.castle_files[1] as int) && p.pieces[3].has(p.castle_files[1] as int),
        p.them_ksc ==> p.colours[1].has(56 + p.castle_files[2]) && p.pieces[3].has(56 + p.castle_files[2]),
        p.them_qsc ==> p.colours[1].has(56 + p.castle_files[3]) && p.pieces[3].has(56 + p.castle_files[3]),
        (p.us_ksc || p.us_qsc) ==> p.us_king() < 8,
        (p.them_ksc || p.them_qsc) ==> 56 <= p.them_king(),
        forall|s: int| !(#[trigger] p.pieces[3].has(s) && p.pieces[5].has(s)),
        p.ep matches Some(e) ==> {
            &&& e.0 >= 8
            &&& !p.colours[0].has(e.0 as int)
            &&& !p.colours[1].has(e.0 as int)
            &&& p.colours[1].has(e.0 - 8)
            &&& p.pieces[0].has(e.0 - 8)
        },
{
    let uk = p.us() & p.pc(5);
    let tk = p.them() & p.pc(5);
    assert(popcount(uk) == 1 && popcount(tk) == 1);
    lemma_popcount_one(uk);
    lemma_popcount_one(tk);
    lemma_ends_in(uk);
    lemma_ends_in(tk);
    lemma_bit_ops(p.us(), p.pc(5), p.us_king() as u64);
    lemma_bit_ops(p.them(), p.pc(5), p.them_king() as u64);
    assert forall|s: int| #[trigger] p.colours[0].has(s) && p.pieces[5].has(s) implies s == p.us_king() by {
        lemma_bit_ops(p.us(), p.pc(5), s as u64);
        lemma_popcount_single(uk, s as u64, p.us_king() as u64);
    }
    assert forall|s: int| #[trigger] p.colours[1].has(s) && p.pieces[5].has(s) implies s == p.them_king() by {
        lemma_bit_ops(p.them(), p.pc(5), s as u64);
        lemma_popcount_single(tk, s as u64, p.them_king() as u64);
    }
    assert(!p.spec_castle_rook_error());
    lemma_bit_ops(p.us(), p.pc(3), p.castle_files[0] as u64);
    lemma_bit_ops(p.us(), p.pc(3), p.castle_files[1] as u64);
    lemma_bit_ops(p.them(), p.pc(3), (56 + p.castle_files[2]) as u64);
    lemma_bit_ops(p.them(), p.pc(3), (56 + p.castle_files[3]) as u64);
    assert(!p.spec_castle_rank_error());
    assert(p.pc(3) & p.pc(5) == 0);
    assert forall|s: int| !(#[trigger] p.pieces[3].has(s) && p.pieces[5].has(s)) by {
        if 0 <= s < 64 {
            lemma_bit_ops(p.pc(3), p.pc(5), s as u64);
            lemma_bit_ops(0, 0, s as u64);
        }
    }
    if let Some(e) = p.ep {
        assert(p.spec_ep_error() is None);
        lemma_ep_square_bits(e.0 as u64, p.them(), p.pc(0), p.occ());
        lemma_bit_ops(p.us(), p.them(), e.0 as u64);
    }
}

/// Turning the board round keeps a square's file and mirrors its rank.
proof fn lemma_turn_square(x: u64)
    by (bit_vector)
    requires
        x < 64,
    ensures
        (x ^ 56u64) ^ 56u64 == x,
        x ^ 56u64 < 64,
        (x ^ 56u64) % 8 == x % 8,
        (x ^ 56u64) / 8 == 7 - x / 8,
{
}

/// A position that passes the position checks, read with white to move, whose castling files
/// lie on the proper sides of its kings is playable when both sides use the same files.
#[verifier::spinoff_prover]
#[verifier::rlimit(40)]
proof fn lemma_fit_playable(p: Position)
    requires
        p.wf(),
        consistent(p),
        p.spec_validate() is Ok,
        files_fit(p),
    ensures
        p.castle_files[0] == p.castle_files[2] && p.castle_files[1] == p.castle_files[3] ==> p.playable(),
{
    lemma_checked_facts(p);
    assert(lowest(p.us() & p.pc(5)) == p.us_king());
    assert(lowest(p.them() & p.pc(5)) == p.them_king());
    if p.us_qsc {
        assert(p.pieces[3].has(p.castle_files[1] as int));
    }
    if p.them_qsc {
        assert(p.pieces[3].has(56 + p.castle_files[3]));
    }
}

/// The same for a position read with black to move: it is the board turned round, and its
/// kings are the kings of the board mirrored.
#[verifier::spinoff_prover]
#[verifier::rlimit(40)]
proof fn lemma_turned_fit_playable(q: Position, p: Position)
    requires
        consistent(q),
        files_fit(q),
        q.us() & q.pc(5) != 0,
        q.them() & q.pc(5) != 0,
        p == (Position { hash: p.hash, ..q.spec_flip() }),
        p.wf(),
        p.spec_validate() is Ok,
    ensures
        p.castle_files[0] == p.castle_files[2] && p.castle_files[1] == p.castle_files[3] ==> p.playable(),
{
    lemma_flip_consistent(q);
    assert(consistent(p));
    lemma_checked_facts(p);
    let w = lowest(q.us() & q.pc(5)) as u64;
    let b = lowest(q.them() & q.pc(5)) as u64;
    lemma_ends_in(q.us() & q.pc(5));
    lemma_ends_in(q.them() & q.pc(5));
    lemma_bit_ops(q.us(), q.pc(5), w);
    lemma_bit_ops(q.them(), q.pc(5), b);
    lemma_turn_square(w);
    lemma_turn_square(b);
    lemma_flip_bits(q, (w ^ 56u64) as int);
    lemma_flip_bits(q, (b ^ 56u64) as int);
    assert(p.colours[1].has((w ^ 56u64) as int) && p.pieces[5].has((w ^ 56u64) as int));
    assert(p.colours[0].has((b ^ 56u64) as int) && p.pieces[5].has((b ^ 56u64) as int));
    assert((w ^ 56u64) as int == p.them_king());
    assert((b ^ 56u64) as int == p.us_king());
    if p.us_qsc {
        assert(p.pieces[3].has(p.castle_files[1] as int));
    }
    if p.them_qsc {
        assert(p.pieces[3].has(56 + p.castle_files[3]));
    }
}

/// Reading the rest of a FEN string onto a consistent board with both kings, whose castling
/// files lie on the proper sides of its kings, gives, when accepted, a position whose hash is in
/// step with it, playable when both sides use the same castling files.
#[verifier::spinoff_prover]
#[verifier::rlimit(40)]
proof fn lemma_read_rest_playable(c: Position, f: Seq<Seq<u8>>, black: bool)
    requires
        consistent(c),
        files_fit(c),
        c.us() & c.pc(5) != 0,
        c.them() & c.pc(5) != 0,
        forall|k: int| 0 <= k < 4 ==> #[trigger] c.castle_files[k] < 8,
    ensures
        spec_read_rest(c, f, black) matches Ok(p) ==> {
            &&& p.hash == p.spec_calculate_hash()
            &&& (p.castle_files[0] == p.castle_files[2] && p.castle_files[1] == p.castle_files[3]
                ==> p.playable())
        },
{
    lemma_read_rest_wf(c, f, black);
    match spec_read_rest(c, f, black) {
        Ok(p) => {
            let ep = crate::chess::fen::spec_parse_ep(f[3])->Ok_0;
            let h = crate::chess::fen::spec_parse_i32(f[4]).unwrap();
            let m = crate::chess::fen::spec_parse_i32(f[5]).unwrap();
            let q = Position { ep, halfmoves: h, fullmoves: m, ..c };
            assert(spec_read_rest(c, f, black) == spec_finish_fen(q, black));
            let q2 = if black { q.spec_flip() } else { q };
            assert(p == Position { hash: q2.spec_calculate_hash(), ..q2 });
            lemma_board_hash_of(p);
            lemma_board_hash_of(q2);
            assert(board_of(p) =~= board_of(q2));
            assert(consistent(q)) by {
                assert(q.colours == c.colours && q.pieces == c.pieces);
            }
            if black {
                lemma_turned_fit_playable(q, p);
            } else {
                assert(consistent(p)) by {
                    assert(p.colours == c.colours && p.pieces == c.pieces);
                }
                lemma_fit_playable(p);
            }
        },
        Err(_) => {},
    }
}

/// The squares of the starting position: every piece stands on a square of one side, and each
/// side has its king on the e-file and its rooks in the corners.
proof fn lemma_startpos_squares(s: u64)
    by (bit_vector)
    requires
        s < 64,
    ensures
        bit(0x00FF00000000FF00u64, s) ==> bit(0xFFFFu64, s) || bit(0xFFFF000000000000u64, s),
        bit(0x4200000000000042u64, s) ==> bit(0xFFFFu64, s) || bit(0xFFFF000000000000u64, s),
        bit(0x2400000000000024u64, s) ==> bit(0xFFFFu64, s) || bit(0xFFFF000000000000u64, s),
        bit(0x8100000000000081u64, s) ==> bit(0xFFFFu64, s) || bit(0xFFFF000000000000u64, s),
        bit(0x800000000000008u64, s) ==> bit(0xFFFFu64, s) || bit(0xFFFF000000000000u64, s),
        bit(0x1000000000000010u64, s) ==> bit(0xFFFFu64, s) || bit(0xFFFF000000000000u64, s),
        bit(0xFFFFu64, s) && bit(0x1000000000000010u64, s) ==> s == 4,
        bit(0xFFFF000000000000u64, s) && bit(0x1000000000000010u64, s) ==> s == 60,
        bit(0x10u64, s) ==> s == 4,
        bit(0x1000000000000000u64, s) ==> s == 60,
        0xFFFFu64 & 0x1000000000000010u64 == 0x10u64,
        0xFFFF000000000000u64 & 0x1000000000000010u64 == 0x1000000000000000u64,
        bit(0x10u64, 4),
        bit(0x1000000000000000u64, 60),
        bit(0xFFFFu64, 0) && bit(0xFFFFu64, 4) && bit(0xFFFFu64, 7),
        bit(0xFFFF000000000000u64, 56) && bit(0xFFFF000000000000u64, 60) && bit(0xFFFF000000000000u64, 63),
        bit(0x8100000000000081u64, 0) && bit(0x8100000000000081u64, 7),
        bit(0x8100000000000081u64, 56) && bit(0x8100000000000081u64, 63),
        bit(0x1000000000000010u64, 4) && bit(0x1000000000000010u64, 60),
{
}

/// The starting position is playable.
proof fn lemma_startpos_playable(is_frc: bool)
    ensures
        (Position { is_frc, ..Position::spec_startpos() }).playable(),
{
    let p = Position { is_frc, ..Position::spec_startpos() };
    lemma_startpos_wf(is_frc);
    lemma_startpos_squares(0);
    assert forall|q: u64| q < 64 && #[trigger] bit(0x10u64, q) implies q == 4 by {
        lemma_startpos_squares(q);
    }
    assert forall|q: u64| q < 64 && #[trigger] bit(0x1000000000000000u64, q) implies q == 60 by {
        lemma_startpos_squares(q);
    }
    lemma_single_tz(0x10u64, 4);
    lemma_single_tz(0x1000000000000000u64, 60);
    assert(p.us_king() == 4);
    assert(p.them_king() == 60);
    assert forall|s: int, i: int| 0 <= i < 6 && #[trigger] p.pieces[i].has(s) implies p.colours[0].has(s)
        || p.colours[1].has(s) by {
        lemma_startpos_squares(s as u64);
    }
    assert forall|s: int| #[trigger] p.colours[0].has(s) && p.pieces[5].has(s) implies s == p.us_king() by {
        lemma_startpos_squares(s as u64);
    }
    assert forall|s: int| #[trigger] p.colours[1].has(s) && p.pieces[5].has(s) implies s == p.them_king() by {
        lemma_startpos_squares(s as u64);
    }
}

/// Every position `parse_fen` accepts is playable exactly when both sides use the same castling
/// files, and one read from a FEN string, rather than from the word `startpos`, has its hash in
/// step with its contents.
pub proof fn lemma_parse_fen_playable(s: Seq<u8>, is_frc: bool)
    ensures
        spec_parse_fen(s, is_frc) matches Ok(p) ==> (p.playable() <==> (p.castle_files[0]
            == p.castle_files[2] && p.castle_files[1] == p.castle_files[3])),
        s != startpos_word() ==> (spec_parse_fen(s, is_frc) matches Ok(p) ==> p.hash
            == p.spec_calculate_hash()),
{
    if s == startpos_word() {
        lemma_startpos_playable(is_frc);
    } else {
        reveal(spec_read_fen);
        let f = split_fields(s);
        let blank = fen_blank(is_frc);
        lemma_blank_board(is_frc);
        lemma_board_from_consistent(blank, f[0], 0, 0);
        match board_from(blank, f[0], 0, 0) {
            Ok(board) => {
                assert(forall|k: int| 0 <= k < 4 ==> #[trigger] board.castle_files[k] < 8);
                if board.us() & board.pc(5) != 0 && board.them() & board.pc(5) != 0 {
                    if f.len() >= 3 {
                        lemma_castle_from_keeps(board, f[2], 0);
                        lemma_castle_from_fits(board, f[2], 0);
                    }
                    let castled = if f.len() >= 3 {
                        castle_from(board, f[2], 0)
                    } else {
                        Ok(board)
                    };
                    if let Ok(c) = castled {
                        lemma_read_rest_playable(c, f, true);
                        lemma_read_rest_playable(c, f, false);
                    }
                }
            },
            Err(_) => {},
        }
    }
}

/// Along any line of fair moves from a position read from a FEN string in which both sides
/// castle on the same files, the hash stays in step with the position.
pub proof fn lemma_parsed_line_keeps_hash(s: Seq<u8>, is_frc: bool, line: Seq<Mv>)
    requires
        s != startpos_word(),
        spec_parse_fen(s, is_frc) is Ok,
        spec_parse_fen(s, is_frc)->Ok_0.castle_files[0] == spec_parse_fen(s, is_frc)->Ok_0.castle_files[2],
        spec_parse_fen(s, is_frc)->Ok_0.castle_files[1] == spec_parse_fen(s, is_frc)->Ok_0.castle_files[3],
        line_fair(spec_parse_fen(s, is_frc)->Ok_0, line),
    ensures
        after_line(spec_parse_fen(s, is_frc)->Ok_0, line).hash == after_line(
            spec_parse_fen(s, is_frc)->Ok_0,
            line,
        ).spec_calculate_hash(),
{
    lemma_parse_fen_playable(s, is_frc);
    lemma_line_keeps_hash(spec_parse_fen(s, is_frc)->Ok_0, line);
}

} // verus!

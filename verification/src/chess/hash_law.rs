use crate::chess::bitboard::{bit, lemma_bit_xor, lemma_bits_ext};
use crate::chess::colour::Colour;
use crate::chess::mv::Mv;
use crate::chess::piece::Piece;
use crate::chess::position::Position;
use crate::chess::rehash::{
    board_after, board_hash, board_of, ev_key, ev_sum, lemma_board_after_events,
    lemma_board_after_fields, lemma_board_hash_events, lemma_board_hash_of, lemma_board_hash_same,
    lemma_calculate_hash_flip, lemma_move_keys,
};
use crate::chess::side::Side;
use crate::chess::zobrist::{key, lemma_and_comm, KEYS_CASTLING, KEYS_EP, KEYS_TURN};
use vstd::prelude::*;
use vstd::std_specs::bits::{axiom_u64_trailing_zeros, u64_trailing_zeros};

verus! {

/// A square seen from the other side, as a byte and as a wider number.
proof fn lemma_pov_u8(x: u8)
    by (bit_vector)
    ensures
        (x as u64) ^ 56u64 == (x ^ 56u8) as u64,
{
}

/// The key of a change of the board is the key `predict_hash` toggles for it.
proof fn lemma_change_key(turn: Colour, c: int, piece: Piece, q: u8)
    requires
        0 <= c < 2,
        piece != Piece::NoPiece,
    ensures
        ev_key(turn, (true, c, piece.spec_index() as int, q as int)) == key(
            if c == 0 {
                turn
            } else {
                turn.spec_other()
            },
            piece,
            if turn == Colour::Black {
                q ^ 56u8
            } else {
                q
            },
        ),
{
    lemma_pov_u8(q);
}

/// The moving piece is the king of the side to move exactly when it leaves the square of that
/// king, and it never leaves the square of the other king.
pub proof fn lemma_king_squares(pos: Position, mv: Mv)
    requires
        pos.sound(),
        pos.move_shaped(mv),
    ensures
        (mv.from.0 == pos.king_sq(Side::Us)) == (pos.piece_on(mv.from.0 as int) == Some(Piece::King)),
        mv.from.0 != pos.king_sq(Side::Them),
{
    let from = mv.from.0 as int;
    let piece = pos.piece_on(from).unwrap();
    assert(pos.gen_ok(piece, mv));
    lemma_and_comm(pos.pc(5), pos.us());
    lemma_and_comm(pos.pc(5), pos.them());
    axiom_u64_trailing_zeros(pos.pc(5) & pos.us());
    axiom_u64_trailing_zeros(pos.pc(5) & pos.them());
    let ku = u64_trailing_zeros(pos.pc(5) & pos.us()) as u64;
    let kt = u64_trailing_zeros(pos.pc(5) & pos.them()) as u64;
    crate::chess::bitboard::lemma_bit_ops(pos.pc(5), pos.us(), ku);
    crate::chess::bitboard::lemma_bit_ops(pos.pc(5), pos.them(), kt);
    assert(bit(pos.pc(5) & pos.us(), ku));
    assert(bit(pos.pc(5) & pos.them(), kt));
    assert(pos.pieces[5].has(ku as int) && pos.colours[0].has(ku as int));
    assert(pos.colours[1].has(kt as int));
    assert(!(pos.colours[0].has(kt as int) && pos.colours[1].has(kt as int)));
    if piece == Piece::King {
        assert(pos.pieces[5].has(from));
        assert(from == pos.us_king());
    }
    if from == ku as int {
        assert(!(pos.pieces[0].has(from) && pos.pieces[5].has(from)));
        assert(!(pos.pieces[1].has(from) && pos.pieces[5].has(from)));
        assert(!(pos.pieces[2].has(from) && pos.pieces[5].has(from)));
        assert(!(pos.pieces[3].has(from) && pos.pieces[5].has(from)));
        assert(!(pos.pieces[4].has(from) && pos.pieces[5].has(from)));
    }
}

/// Playing a move keeps the hash in step with the position: from a sound position whose hash
/// is the one `calculate_hash` gives, a move of the shape the move generator makes leads, with
/// the hash kept up to date, to a position whose hash is again the one `calculate_hash` gives.
#[verifier::spinoff_prover]
#[verifier::rlimit(40)]
pub proof fn lemma_makemove_keeps_hash(pos: Position, mv: Mv)
    requires
        pos.sound(),
        pos.move_shaped(mv),
        pos.hash == pos.spec_calculate_hash(),
    ensures
        pos.spec_makemove(mv, true).hash == pos.spec_makemove(mv, true).spec_calculate_hash(),
{
    broadcast use lemma_bit_xor;

    reveal(Position::play_rights);
    let turn = pos.turn;
    let from = mv.from.0 as int;
    let to = mv.to.0 as int;
    let piece = pos.piece_on(from).unwrap();
    let captured = pos.piece_on(to);
    let s0 = Position { hash: pos.spec_predict_hash(mv), ..pos };
    let b = board_after(pos, mv, s0);
    let n = pos.spec_play(mv, true);
    assert(n == b.play_rights(mv, pos.king_sq(Side::Us), pos.king_sq(Side::Them)));
    lemma_board_after_fields(pos, mv, s0);
    lemma_board_after_events(pos, mv, s0);
    lemma_board_hash_events(turn, board_of(pos), board_of(b), pos.move_events(mv));
    lemma_board_hash_same(turn, board_of(n), board_of(b));
    lemma_board_hash_of(n);
    lemma_board_hash_of(pos);
    lemma_move_keys(pos, mv);
    lemma_king_squares(pos, mv);
    assert(pos.gen_ok(piece, mv));
    assert(pos.castle_files[0int] < 8 && pos.castle_files[1int] < 8);
    assert(pos.castle_files[2int] < 8 && pos.castle_files[3int] < 8);
    if let Some(e) = n.ep {
        assert(e.valid());
    }
    lemma_calculate_hash_flip(n);
    assert(n.hash == pos.spec_predict_hash(mv));
    assert(pos.spec_makemove(mv, true) == n.spec_flip());
    let cf = pos.castle_files;
    let king = piece == Piece::King;
    assert(n.us_ksc == (pos.us_ksc != (pos.us_ksc && mv.from.0 == cf[0]) != (pos.us_ksc && king))) by {
        if pos.us_ksc && mv.to.0 == cf[0] {
            assert(pos.colours[0].has(to));
        }
        if pos.us_ksc && mv.from.0 == cf[0] {
            assert(pos.pieces[3].has(from));
            assert(!(pos.pieces[3].has(from) && pos.pieces[5].has(from)));
        }
    }
    assert(n.us_qsc == (pos.us_qsc != (pos.us_qsc && mv.from.0 == cf[1]) != (pos.us_qsc && king))) by {
        if pos.us_qsc && mv.to.0 == cf[1] {
            assert(pos.colours[0].has(to));
        }
        if pos.us_qsc && mv.from.0 == cf[1] {
            assert(pos.pieces[3].has(from));
            assert(!(pos.pieces[3].has(from) && pos.pieces[5].has(from)));
        }
    }
    assert(n.them_ksc == (pos.them_ksc != (pos.them_ksc && mv.to.0 == 56 + cf[2]))) by {
        if pos.them_ksc {
            assert(pos.colours[1].has(56 + cf[2]));
            assert(!(pos.colours[0].has(from) && pos.colours[1].has(from)));
        }
    }
    assert(n.them_qsc == (pos.them_qsc != (pos.them_qsc && mv.to.0 == 56 + cf[3]))) by {
        if pos.them_qsc {
            assert(pos.colours[1].has(56 + cf[3]));
            assert(!(pos.colours[0].has(from) && pos.colours[1].has(from)));
        }
    }
    let phn = n.hash_pieces(Colour::Black, 6, n.hash_pieces(Colour::White, 6, 0));
    let php = pos.hash_pieces(Colour::Black, 6, pos.hash_pieces(Colour::White, 6, 0));
    assert(phn == php ^ ev_sum(turn, pos.move_events(mv)));
    lemma_calc_split(n);
    lemma_calc_split(pos);
    lemma_predict_split(pos, mv);
    let l = pos.spec_makemove(mv, true).hash;
    let r = pos.spec_makemove(mv, true).spec_calculate_hash();
    assert(l == pos.spec_predict_hash(mv));
    assert(r == n.spec_calculate_hash() ^ KEYS_TURN);
    if piece == Piece::Pawn && mv.to.0 - mv.from.0 == 16 {
        assert((((mv.to.0 - 8) as u8) % 8) == mv.to.0 % 8);
    }
    let t = turn.spec_index() as int;
    let o = turn.spec_other().spec_index() as int;
    let dbl = piece == Piece::Pawn && mv.to.0 - mv.from.0 == 16;
    let dk = if dbl { KEYS_EP[(mv.to.0 % 8) as int] } else { 0u64 };
    assert(ep_part(n) == dk);
    lemma_hash_algebra(
        php,
        ev_sum(turn, pos.move_events(mv)),
        ep_part(pos),
        dk,
        KEYS_CASTLING[2 * t],
        KEYS_CASTLING[2 * t + 1],
        KEYS_CASTLING[2 * o],
        KEYS_CASTLING[2 * o + 1],
        turn_part(pos),
        pos.us_ksc,
        pos.us_qsc,
        pos.them_ksc,
        pos.them_qsc,
        mv.from.0 == cf[0],
        mv.from.0 == cf[1],
        king,
        mv.to.0 == 56 + cf[2],
        mv.to.0 == 56 + cf[3],
    );
}

/// Passing the turn keeps the hash in step with the position: from a position whose hash is the
/// one `calculate_hash` gives, the position after a null move has the hash `calculate_hash` gives
/// it.
pub proof fn lemma_makenull_keeps_hash(pos: Position)
    requires
        pos.ep matches Some(e) ==> e.valid(),
        pos.hash == pos.spec_calculate_hash(),
    ensures
        pos.spec_makenull().hash == pos.spec_makenull().spec_calculate_hash(),
{
    broadcast use lemma_bit_xor;

    let r = Position { ep: None, halfmoves: 0, ..pos };
    let h2 = pos.spec_makenull().hash;
    assert(pos.spec_makenull() == (Position { hash: h2, ..r }).spec_flip());
    lemma_calculate_hash_flip(Position { hash: h2, ..r });
    lemma_calc_split(pos);
    lemma_calc_split(Position { hash: h2, ..r });
    assert(pieces_part(Position { hash: h2, ..r }) == pieces_part(pos)) by {
        lemma_board_hash_of(pos);
        lemma_board_hash_of(Position { hash: h2, ..r });
        lemma_board_hash_same(pos.turn, board_of(pos), board_of(Position { hash: h2, ..r }));
    }
    let l = pos.spec_makenull().hash;
    let rr = pos.spec_makenull().spec_calculate_hash();
    assert forall|bb: u64| bb < 64 implies #[trigger] bit(l, bb) == bit(rr, bb) by {
        crate::chess::bitboard::lemma_bit_ops(0, 0, bb);
    }
    lemma_bits_ext(l, rr);
}

/// Exclusive or, with keys toggled on conditions, rearranged.
proof fn lemma_hash_algebra(
    php: u64,
    ev: u64,
    epp: u64,
    dk: u64,
    a: u64,
    b: u64,
    c: u64,
    d: u64,
    tp: u64,
    uk: bool,
    uq: bool,
    tk: bool,
    tq: bool,
    fk: bool,
    fq: bool,
    king: bool,
    gk: bool,
    gq: bool,
)
    ensures
        (php ^ epp ^ right_key_v(uk, a) ^ right_key_v(uq, b) ^ right_key_v(tk, c) ^ right_key_v(tq, d) ^ tp)
            ^ ev ^ epp ^ dk ^ right_key_v(uk && fk, a) ^ right_key_v(uq && fq, b) ^ right_key_v(
            uk && king,
            a,
        ) ^ right_key_v(uq && king, b) ^ right_key_v(tk && gk, c) ^ right_key_v(tq && gq, d)
            ^ KEYS_TURN == (php ^ ev) ^ dk ^ right_key_v(uk != (uk && fk) != (uk && king), a)
            ^ right_key_v(uq != (uq && fq) != (uq && king), b) ^ right_key_v(tk != (tk && gk), c)
            ^ right_key_v(tq != (tq && gq), d) ^ tp ^ KEYS_TURN,
{
    broadcast use lemma_bit_xor;

    let l = (php ^ epp ^ right_key_v(uk, a) ^ right_key_v(uq, b) ^ right_key_v(tk, c) ^ right_key_v(tq, d)
        ^ tp) ^ ev ^ epp ^ dk ^ right_key_v(uk && fk, a) ^ right_key_v(uq && fq, b) ^ right_key_v(
        uk && king,
        a,
    ) ^ right_key_v(uq && king, b) ^ right_key_v(tk && gk, c) ^ right_key_v(tq && gq, d) ^ KEYS_TURN;
    let r = (php ^ ev) ^ dk ^ right_key_v(uk != (uk && fk) != (uk && king), a) ^ right_key_v(
        uq != (uq && fq) != (uq && king),
        b,
    ) ^ right_key_v(tk != (tk && gk), c) ^ right_key_v(tq != (tq && gq), d) ^ tp ^ KEYS_TURN;
    assert forall|bb: u64| bb < 64 implies #[trigger] bit(l, bb) == bit(r, bb) by {
        crate::chess::bitboard::lemma_bit_ops(0, 0, bb);
    }
    lemma_bits_ext(l, r);
}

/// The value `k` when `on`, else zero.
pub open spec fn right_key_v(on: bool, k: u64) -> u64 {
    if on {
        k
    } else {
        0u64
    }
}

/// The key of the en passant file, if there is an en passant square.
pub open spec fn ep_part(p: Position) -> u64 {
    match p.ep {
        Some(sq) => KEYS_EP[(sq.0 % 8) as int],
        None => 0u64,
    }
}

/// The castling key at `i` when `on`.
pub open spec fn right_key(on: bool, i: int) -> u64 {
    if on {
        KEYS_CASTLING[i]
    } else {
        0u64
    }
}

/// The turn key when black is to move.
pub open spec fn turn_part(p: Position) -> u64 {
    if p.turn == Colour::Black {
        KEYS_TURN
    } else {
        0u64
    }
}

/// The keys of the pieces of a position.
pub open spec fn pieces_part(p: Position) -> u64 {
    p.hash_pieces(Colour::Black, 6, p.hash_pieces(Colour::White, 6, 0))
}

/// The hash of a position, part by part.
proof fn lemma_calc_split(p: Position)
    ensures
        p.spec_calculate_hash() == pieces_part(p) ^ ep_part(p) ^ right_key(
            p.us_ksc,
            2 * p.turn.spec_index(),
        ) ^ right_key(p.us_qsc, 2 * p.turn.spec_index() + 1) ^ right_key(
            p.them_ksc,
            2 * p.turn.spec_other().spec_index(),
        ) ^ right_key(p.them_qsc, 2 * p.turn.spec_other().spec_index() + 1) ^ turn_part(p),
{
    broadcast use lemma_bit_xor;

    let l = p.spec_calculate_hash();
    let r = pieces_part(p) ^ ep_part(p) ^ right_key(p.us_ksc, 2 * p.turn.spec_index()) ^ right_key(
        p.us_qsc,
        2 * p.turn.spec_index() + 1,
    ) ^ right_key(p.them_ksc, 2 * p.turn.spec_other().spec_index()) ^ right_key(
        p.them_qsc,
        2 * p.turn.spec_other().spec_index() + 1,
    ) ^ turn_part(p);
    assert forall|bb: u64| bb < 64 implies #[trigger] bit(l, bb) == bit(r, bb) by {
        crate::chess::bitboard::lemma_bit_ops(0, 0, bb);
    }
    lemma_bits_ext(l, r);
}

/// The hash `predict_hash` works out, part by part: the keys of the changes of the move to the
/// pieces, the en passant keys, the castling keys of the rights lost, and the turn key.
proof fn lemma_predict_split(pos: Position, mv: Mv)
    requires
        pos.sound(),
        pos.move_shaped(mv),
    ensures
        ({
            let turn = pos.turn;
            let t = turn.spec_index() as int;
            let o = turn.spec_other().spec_index() as int;
            let cf = pos.castle_files;
            let king = pos.piece_on(mv.from.0 as int) == Some(Piece::King);
            let dbl = pos.piece_on(mv.from.0 as int) == Some(Piece::Pawn) && mv.to.0 - mv.from.0 == 16;
            pos.spec_predict_hash(mv) == pos.hash ^ ev_sum(turn, pos.move_events(mv)) ^ ep_part(pos)
                ^ (if dbl {
                KEYS_EP[(mv.to.0 % 8) as int]
            } else {
                0u64
            }) ^ right_key(pos.us_ksc && mv.from.0 == cf[0], 2 * t) ^ right_key(
                pos.us_qsc && mv.from.0 == cf[1],
                2 * t + 1,
            ) ^ right_key(pos.us_ksc && king, 2 * t) ^ right_key(pos.us_qsc && king, 2 * t + 1)
                ^ right_key(pos.them_ksc && mv.to.0 == 56 + cf[2], 2 * o) ^ right_key(
                pos.them_qsc && mv.to.0 == 56 + cf[3],
                2 * o + 1,
            ) ^ KEYS_TURN
        }),
{
    broadcast use lemma_bit_xor;

    let turn = pos.turn;
    let from = mv.from.0 as int;
    let to = mv.to.0 as int;
    let piece = pos.piece_on(from).unwrap();
    let captured = pos.piece_on(to);
    let cf = pos.castle_files;
    lemma_move_keys(pos, mv);
    assert(pos.gen_ok(piece, mv));
    lemma_change_key(turn, 0, piece, mv.from.0);
    lemma_change_key(turn, 0, piece, mv.to.0);
    if pos.colours[1].has(to) {
        assert(pos.piece_on(to).is_some());
        lemma_change_key(turn, 1, captured.unwrap(), mv.to.0);
    }
    if pos.takes_ep(mv) {
        assert(to >= 8);
        lemma_change_key(turn, 1, Piece::Pawn, (mv.to.0 - 8) as u8);
    }
    if pos.castles(mv) {
        lemma_change_key(turn, 0, Piece::King, mv.from.0);
        lemma_change_key(turn, 0, Piece::King, mv.to.0);
        if pos.castles_ks(mv) {
            lemma_change_key(turn, 0, Piece::King, 6);
            lemma_change_key(turn, 0, Piece::Rook, cf[0]);
            lemma_change_key(turn, 0, Piece::Rook, 5);
        } else {
            lemma_change_key(turn, 0, Piece::King, 2);
            lemma_change_key(turn, 0, Piece::Rook, cf[1]);
            lemma_change_key(turn, 0, Piece::Rook, 3);
        }
    }
    if mv.promo != Piece::NoPiece {
        lemma_change_key(turn, 0, Piece::Pawn, mv.to.0);
        lemma_change_key(turn, 0, mv.promo, mv.to.0);
    }
    let t = turn.spec_index() as int;
    let o = turn.spec_other().spec_index() as int;
    let king = piece == Piece::King;
    let dbl = piece == Piece::Pawn && mv.to.0 - mv.from.0 == 16;
    let l = pos.spec_predict_hash(mv);
    let r = pos.hash ^ ev_sum(turn, pos.move_events(mv)) ^ ep_part(pos) ^ (if dbl {
        KEYS_EP[(mv.to.0 % 8) as int]
    } else {
        0u64
    }) ^ right_key(pos.us_ksc && mv.from.0 == cf[0], 2 * t) ^ right_key(
        pos.us_qsc && mv.from.0 == cf[1],
        2 * t + 1,
    ) ^ right_key(pos.us_ksc && king, 2 * t) ^ right_key(pos.us_qsc && king, 2 * t + 1) ^ right_key(
        pos.them_ksc && mv.to.0 == 56 + cf[2],
        2 * o,
    ) ^ right_key(pos.them_qsc && mv.to.0 == 56 + cf[3], 2 * o + 1) ^ KEYS_TURN;
    assert forall|bb: u64| bb < 64 implies #[trigger] bit(l, bb) == bit(r, bb) by {
        crate::chess::bitboard::lemma_bit_ops(0, 0, bb);
    }
    lemma_bits_ext(l, r);
}

} // verus!

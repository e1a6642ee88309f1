use crate::chess::bitboard::{bit, spec_adjacent, Bitboard};
use crate::chess::magic;
use crate::chess::mv::Mv;
use crate::chess::piece::Piece;
use crate::chess::position::Position;
use crate::chess::rays::{self, spec_bishop_attacks, spec_knights, spec_pawns, spec_rook_attacks};
use crate::chess::side::Side;
use crate::chess::square::Square;
use vstd::prelude::*;

verus! {

/// The move from `f` to `t` promoting to `q`.
pub open spec fn mv_at(f: int, t: int, q: Piece) -> Mv {
    Mv { from: Square(f as u8), to: Square(t as u8), promo: q }
}

impl Position {
    /// A pawn of the side to move on `f` goes to `t`: one square up onto an empty square, two
    /// squares up from its second rank over an empty square onto an empty square, or one square
    /// diagonally up onto a piece of the other side or onto the en passant square.
    pub open spec fn pawn_reaches(self, f: int, t: int) -> bool {
        ||| t == f + 8 && !self.occ_at(t)
        ||| 8 <= f < 16 && t == f + 16 && !self.occ_at(f + 8) && !self.occ_at(t)
        ||| bit(spec_pawns(true, 1u64 << (f as u64)), t as u64) && (self.colours[1].has(t) || self.ep
            == Some(Square(t as u8)))
    }

    /// The squares a piece of kind `p` on `f` attacks: a knight's jumps, the lines of a bishop,
    /// rook or queen up to and including the first piece, and the squares around a king.
    pub open spec fn piece_reach(self, p: Piece, f: int) -> u64 {
        match p {
            Piece::Knight => spec_knights(1u64 << (f as u64)),
            Piece::Bishop => spec_bishop_attacks(f as u8, self.occ()),
            Piece::Rook => spec_rook_attacks(f as u8, self.occ()),
            Piece::Queen => spec_bishop_attacks(f as u8, self.occ()) | spec_rook_attacks(f as u8, self.occ()),
            Piece::King => spec_adjacent(1u64 << (f as u64)),
            _ => 0,
        }
    }

    /// The side to move may castle on the king side: it holds the right, is not in check, and
    /// the f- and g-squares of its first rank are empty and not attacked.
    pub open spec fn castle_ks_ok(self) -> bool {
        &&& self.us_ksc
        &&& !self.spec_in_check()
        &&& self.occ() & 0x60u64 == 0
        &&& !self.spec_bb_attacked(0x60u64, Side::Them)
    }

    /// The side to move may castle on the queen side: it holds the right, is not in check, the
    /// b-, c- and d-squares of its first rank are empty and the c- and d-squares not attacked.
    pub open spec fn castle_qs_ok(self) -> bool {
        &&& self.us_qsc
        &&& !self.spec_in_check()
        &&& self.occ() & 0xeu64 == 0
        &&& !self.spec_bb_attacked(0xcu64, Side::Them)
    }

    /// Castling from `f` to `t`: the king moves onto the rook of a side on which it may castle.
    pub open spec fn castle_reaches(self, f: int, t: int) -> bool {
        &&& f == self.king_sq(Side::Us) as int
        &&& (self.castle_ks_ok() && t == self.castle_files[0] as int || self.castle_qs_ok() && t
            == self.castle_files[1] as int)
    }

    /// A piece of the side to move stands on `f` and goes to `t` by the way it moves, not onto a
    /// piece of its own side unless it is the king castling.
    pub open spec fn reaches(self, f: int, t: int) -> bool {
        &&& 0 <= f < 64
        &&& 0 <= t < 64
        &&& self.colours[0].has(f)
        &&& match self.piece_on(f) {
            Some(Piece::Pawn) => self.pawn_reaches(f, t),
            Some(Piece::King) => bit(self.piece_reach(Piece::King, f), t as u64) && !self.colours[0].has(t)
                || self.castle_reaches(f, t),
            Some(p) => bit(self.piece_reach(p, f), t as u64) && !self.colours[0].has(t),
            None => false,
        }
    }

    /// A move from `f` to `t` is a pawn reaching the last rank.
    pub open spec fn promotes(self, f: int, t: int) -> bool {
        self.piece_on(f) == Some(Piece::Pawn) && t >= 56
    }

    /// The promotion of the move is a knight, bishop, rook or queen when a pawn reaches the last
    /// rank, and none otherwise.
    pub open spec fn promo_fits(self, mv: Mv) -> bool {
        if self.promotes(mv.from.0 as int, mv.to.0 as int) {
            mv.promo == Piece::Queen || mv.promo == Piece::Rook || mv.promo == Piece::Bishop || mv.promo
                == Piece::Knight
        } else {
            mv.promo == Piece::NoPiece
        }
    }

    /// The board after `mv`, seen from the other side.
    pub open spec fn after_board(self, mv: Mv) -> Position {
        Position { halfmoves: 0, ..self }.spec_makemove(mv, false)
    }

    /// After `mv` both kings are on the board and the king of the side that moved is not
    /// attacked.
    pub open spec fn king_safe_after(self, mv: Mv) -> bool {
        let n = self.after_board(mv);
        &&& n.pc(5) & n.us() != 0
        &&& n.pc(5) & n.them() != 0
        &&& !n.spec_sq_attacked(n.king_sq(Side::Them), Side::Us)
    }

    /// A legal move: a piece of the side to move goes where it moves, with the promotion that
    /// fits, and its king is safe afterwards.
    #[verifier::opaque]
    pub open spec fn spec_legal(self, mv: Mv) -> bool {
        &&& self.reaches(mv.from.0 as int, mv.to.0 as int)
        &&& self.promo_fits(mv)
        &&& self.king_safe_after(mv)
    }

    /// `mv` alone when it is legal, else nothing.
    pub open spec fn keep(self, mv: Mv) -> Seq<Mv> {
        if self.spec_legal(mv) {
            seq![mv]
        } else {
            seq![]
        }
    }

    /// The legal moves from `f` to `t`: the promotions to queen, rook, bishop and knight, in that
    /// order, when a pawn reaches the last rank, else the move without promotion.
    pub open spec fn legal_at(self, f: int, t: int) -> Seq<Mv> {
        if self.promotes(f, t) {
            self.keep(mv_at(f, t, Piece::Queen)) + self.keep(mv_at(f, t, Piece::Rook)) + self.keep(
                mv_at(f, t, Piece::Bishop),
            ) + self.keep(mv_at(f, t, Piece::Knight))
        } else {
            self.keep(mv_at(f, t, Piece::NoPiece))
        }
    }

    /// The legal moves from `f` to the squares below `t`, by target square.
    pub open spec fn row_upto(self, f: int, t: nat) -> Seq<Mv>
        decreases t,
    {
        if t == 0 {
            seq![]
        } else {
            self.row_upto(f, (t - 1) as nat) + self.legal_at(f, t - 1)
        }
    }

    /// The legal moves from the squares below `f`, by origin square.
    pub open spec fn rows_upto(self, f: nat) -> Seq<Mv>
        decreases f,
    {
        if f == 0 {
            seq![]
        } else {
            self.rows_upto((f - 1) as nat) + self.row_upto(f - 1, 64)
        }
    }

    /// The legal moves, by origin square, then target square, then promotion.
    #[verifier::opaque]
    pub open spec fn spec_legal_moves(self) -> Seq<Mv> {
        self.rows_upto(64)
    }
}

/// The squares a pawn attacks are one rank up and one file aside.
pub(crate) proof fn lemma_pawn_capture_step(f: u64, t: u64)
    by (bit_vector)
    requires
        f < 64,
        t < 64,
        (spec_pawns(true, 1u64 << f) >> t) & 1u64 == 1u64,
    ensures
        t == f + 7 || t == f + 9,
        t >= 8,
        t % 8 != f % 8,
{
}

/// A piece that reaches its target with the promotion that fits makes a move that can be
/// played.
pub proof fn lemma_reaches_move_ok(pos: Position, mv: Mv)
    requires
        pos.wf(),
        pos.reaches(mv.from.0 as int, mv.to.0 as int),
        pos.promo_fits(mv),
    ensures
        pos.move_ok(mv),
{
    let f = mv.from.0 as int;
    let t = mv.to.0 as int;
    if pos.piece_on(f) == Some(Piece::Pawn) {
        if bit(spec_pawns(true, 1u64 << (f as u64)), t as u64) {
            lemma_pawn_capture_step(f as u64, t as u64);
        }
        assert(Square(t as u8) == mv.to);
    }
}

/// No move leaves a square that holds no piece of the side to move.
proof fn lemma_row_empty(pos: Position, f: int, t: nat)
    requires
        0 <= f < 64,
        !pos.colours[0].has(f),
        t <= 64,
    ensures
        pos.row_upto(f, t) == Seq::<Mv>::empty(),
    decreases t,
{
    if t > 0 {
        lemma_row_empty(pos, f, (t - 1) as nat);
        reveal(Position::spec_legal);
        assert(pos.legal_at(f, t - 1) =~= Seq::<Mv>::empty());
    }
}

/// Every move of the legal moves from `f` to the targets below `t` is legal.
proof fn lemma_row_legal(pos: Position, f: int, t: nat)
    ensures
        forall|k: int| 0 <= k < pos.row_upto(f, t).len() ==> pos.spec_legal(#[trigger] pos.row_upto(f, t)[k]),
    decreases t,
{
    if t > 0 {
        lemma_row_legal(pos, f, (t - 1) as nat);
        let a = pos.row_upto(f, (t - 1) as nat);
        let b = pos.legal_at(f, t - 1);
        assert forall|k: int| 0 <= k < b.len() implies pos.spec_legal(#[trigger] b[k]) by {
            if pos.promotes(f, t - 1) {
                let q = pos.keep(mv_at(f, t - 1, Piece::Queen));
                let r = pos.keep(mv_at(f, t - 1, Piece::Rook));
                let bb = pos.keep(mv_at(f, t - 1, Piece::Bishop));
                let n = pos.keep(mv_at(f, t - 1, Piece::Knight));
                assert(b == q + r + bb + n);
            }
        }
        assert forall|k: int| 0 <= k < pos.row_upto(f, t).len() implies pos.spec_legal(#[trigger] pos.row_upto(f, t)[k]) by {
            assert(pos.row_upto(f, t) == a + b);
            if k >= a.len() {
                assert(pos.row_upto(f, t)[k] == b[k - a.len()]);
            } else {
                assert(pos.row_upto(f, t)[k] == a[k]);
            }
        }
    }
}

/// Every move of the legal moves from the squares below `f` is legal.
proof fn lemma_rows_legal(pos: Position, f: nat)
    ensures
        forall|k: int| 0 <= k < pos.rows_upto(f).len() ==> pos.spec_legal(#[trigger] pos.rows_upto(f)[k]),
    decreases f,
{
    if f > 0 {
        lemma_rows_legal(pos, (f - 1) as nat);
        lemma_row_legal(pos, f - 1, 64);
        let a = pos.rows_upto((f - 1) as nat);
        let b = pos.row_upto(f - 1, 64);
        assert forall|k: int| 0 <= k < pos.rows_upto(f).len() implies pos.spec_legal(#[trigger] pos.rows_upto(f)[k]) by {
            assert(pos.rows_upto(f) == a + b);
            if k >= a.len() {
                assert(pos.rows_upto(f)[k] == b[k - a.len()]);
            } else {
                assert(pos.rows_upto(f)[k] == a[k]);
            }
        }
    }
}

/// The legal moves from `f` to the targets below `n` hold those to each such target.
proof fn lemma_row_holds(pos: Position, f: int, n: nat, t: int, mv: Mv)
    requires
        0 <= t < n,
        pos.legal_at(f, t).contains(mv),
    ensures
        pos.row_upto(f, n).contains(mv),
    decreases n,
{
    let a = pos.row_upto(f, (n - 1) as nat);
    let b = pos.legal_at(f, n - 1);
    assert(pos.row_upto(f, n) == a + b);
    if t == n - 1 {
        let j = choose|j: int| 0 <= j < b.len() && b[j] == mv;
        assert((a + b)[a.len() + j] == mv);
    } else {
        lemma_row_holds(pos, f, (n - 1) as nat, t, mv);
        let j = choose|j: int| 0 <= j < a.len() && a[j] == mv;
        assert((a + b)[j] == mv);
    }
}

/// The legal moves from the squares below `n` hold those from each such square.
proof fn lemma_rows_hold(pos: Position, n: nat, f: int, mv: Mv)
    requires
        0 <= f < n,
        pos.row_upto(f, 64).contains(mv),
    ensures
        pos.rows_upto(n).contains(mv),
    decreases n,
{
    let a = pos.rows_upto((n - 1) as nat);
    let b = pos.row_upto(n - 1, 64);
    assert(pos.rows_upto(n) == a + b);
    if f == n - 1 {
        let j = choose|j: int| 0 <= j < b.len() && b[j] == mv;
        assert((a + b)[a.len() + j] == mv);
    } else {
        lemma_rows_hold(pos, (n - 1) as nat, f, mv);
        let j = choose|j: int| 0 <= j < a.len() && a[j] == mv;
        assert((a + b)[j] == mv);
    }
}

/// A move is among the legal moves exactly when it is legal.
pub proof fn lemma_legal_moves_exact(pos: Position, mv: Mv)
    ensures
        pos.spec_legal_moves().contains(mv) <==> pos.spec_legal(mv),
{
    reveal(Position::spec_legal_moves);
    lemma_rows_legal(pos, 64);
    if pos.spec_legal(mv) {
        reveal(Position::spec_legal);
        let f = mv.from.0 as int;
        let t = mv.to.0 as int;
        assert(mv_at(f, t, mv.promo) == mv);
        let b = pos.legal_at(f, t);
        if pos.promotes(f, t) {
            let q = pos.keep(mv_at(f, t, Piece::Queen));
            let r = pos.keep(mv_at(f, t, Piece::Rook));
            let bb = pos.keep(mv_at(f, t, Piece::Bishop));
            let n = pos.keep(mv_at(f, t, Piece::Knight));
            assert(b == q + r + bb + n);
            if mv.promo == Piece::Queen {
                assert(b[0] == mv);
            } else if mv.promo == Piece::Rook {
                assert(b[q.len() as int] == mv);
            } else if mv.promo == Piece::Bishop {
                assert(b[(q.len() + r.len()) as int] == mv);
            } else {
                assert(b[(q.len() + r.len() + bb.len()) as int] == mv);
            }
        } else {
            assert(b[0] == mv);
        }
        lemma_row_holds(pos, f, 64, t, mv);
        lemma_rows_hold(pos, 64, f, mv);
    } else if pos.spec_legal_moves().contains(mv) {
        let k = choose|k: int| 0 <= k < pos.spec_legal_moves().len() && pos.spec_legal_moves()[k] == mv;
        assert(pos.spec_legal(pos.rows_upto(64)[k]));
    }
}

/// The legal moves from `f` to `t` go from `f` to `t`, none twice.
proof fn lemma_at_shape(pos: Position, f: int, t: int)
    requires
        0 <= f < 64,
        0 <= t < 64,
    ensures
        forall|k: int| 0 <= k < pos.legal_at(f, t).len() ==> (#[trigger] pos.legal_at(f, t)[k]).from.0 == f
            && pos.legal_at(f, t)[k].to.0 == t,
        pos.legal_at(f, t).no_duplicates(),
{
    let b = pos.legal_at(f, t);
    if pos.promotes(f, t) {
        let q = pos.keep(mv_at(f, t, Piece::Queen));
        let r = pos.keep(mv_at(f, t, Piece::Rook));
        let bb = pos.keep(mv_at(f, t, Piece::Bishop));
        let n = pos.keep(mv_at(f, t, Piece::Knight));
        assert(b == q + r + bb + n);
        assert forall|i: int, j: int| 0 <= i < b.len() && 0 <= j < b.len() && i != j implies b[i] != b[j] by {
            assert(b[i].promo != b[j].promo);
        }
    }
}

/// The legal moves from `f` to the targets below `t` go from `f` to such targets, none twice.
proof fn lemma_row_shape(pos: Position, f: int, t: nat)
    requires
        0 <= f < 64,
        t <= 64,
    ensures
        forall|k: int| 0 <= k < pos.row_upto(f, t).len() ==> (#[trigger] pos.row_upto(f, t)[k]).from.0 == f
            && pos.row_upto(f, t)[k].to.0 < t,
        pos.row_upto(f, t).no_duplicates(),
    decreases t,
{
    if t > 0 {
        lemma_row_shape(pos, f, (t - 1) as nat);
        lemma_at_shape(pos, f, t - 1);
        let a = pos.row_upto(f, (t - 1) as nat);
        let b = pos.legal_at(f, t - 1);
        let c = pos.row_upto(f, t);
        assert(c == a + b);
        assert forall|k: int| 0 <= k < c.len() implies (#[trigger] c[k]).from.0 == f && c[k].to.0 < t by {
            if k < a.len() {
                assert(c[k] == a[k]);
            } else {
                assert(c[k] == b[k - a.len()]);
            }
        }
        assert forall|i: int, j: int| 0 <= i < c.len() && 0 <= j < c.len() && i != j implies c[i] != c[j] by {
            if i < a.len() && j < a.len() {
                assert(c[i] == a[i] && c[j] == a[j]);
            } else if i >= a.len() && j >= a.len() {
                assert(c[i] == b[i - a.len()] && c[j] == b[j - a.len()]);
            } else if i < a.len() {
                assert(c[i] == a[i] && c[j] == b[j - a.len()]);
            } else {
                assert(c[j] == a[j] && c[i] == b[i - a.len()]);
            }
        }
    }
}

/// The legal moves from the squares below `f` go from such squares, none twice.
proof fn lemma_rows_shape(pos: Position, f: nat)
    requires
        f <= 64,
    ensures
        forall|k: int| 0 <= k < pos.rows_upto(f).len() ==> (#[trigger] pos.rows_upto(f)[k]).from.0 < f,
        pos.rows_upto(f).no_duplicates(),
    decreases f,
{
    if f > 0 {
        lemma_rows_shape(pos, (f - 1) as nat);
        lemma_row_shape(pos, f - 1, 64);
        let a = pos.rows_upto((f - 1) as nat);
        let b = pos.row_upto(f - 1, 64);
        let c = pos.rows_upto(f);
        assert(c == a + b);
        assert forall|k: int| 0 <= k < c.len() implies (#[trigger] c[k]).from.0 < f by {
            if k < a.len() {
                assert(c[k] == a[k]);
            } else {
                assert(c[k] == b[k - a.len()]);
            }
        }
        assert forall|i: int, j: int| 0 <= i < c.len() && 0 <= j < c.len() && i != j implies c[i] != c[j] by {
            if i < a.len() && j < a.len() {
                assert(c[i] == a[i] && c[j] == a[j]);
            } else if i >= a.len() && j >= a.len() {
                assert(c[i] == b[i - a.len()] && c[j] == b[j - a.len()]);
            } else if i < a.len() {
                assert(c[i] == a[i] && c[j] == b[j - a.len()]);
            } else {
                assert(c[j] == a[j] && c[i] == b[i - a.len()]);
            }
        }
    }
}

/// No move occurs twice among the legal moves.
pub proof fn lemma_legal_moves_once(pos: Position)
    ensures
        pos.spec_legal_moves().no_duplicates(),
{
    reveal(Position::spec_legal_moves);
    lemma_rows_shape(pos, 64);
}

impl Position {
    /// Adds `mv` to `moves` when the king of the side to move is safe after it.
    fn push_if_safe(&self, moves: &mut Vec<Mv>, mv: Mv)
        requires
            self.wf(),
            self.reaches(mv.from.0 as int, mv.to.0 as int),
            self.promo_fits(mv),
        ensures
            final(moves)@ == old(moves)@ + self.keep(mv),
    {
        proof {
            lemma_reaches_move_ok(*self, mv);
            reveal(Position::spec_legal);
        }
        let mut probe = *self;
        probe.halfmoves = 0;
        probe.makemove::<false>(&mv);
        let our_king = probe.get_kings() & probe.get_them();
        let safe = (probe.get_kings() & probe.get_us()).is_occupied() && our_king.is_occupied()
            && !probe.is_sq_attacked(our_king.lsb(), Side::Us);
        if safe {
            moves.push(mv);
        }
        proof {
            assert(probe == self.after_board(mv));
            assert(final(moves)@ =~= old(moves)@ + self.keep(mv));
        }
    }

    /// Adds the legal moves from `f` to `t`, which a piece of the side to move reaches.
    fn push_legal_at(&self, moves: &mut Vec<Mv>, f: u8, t: u8, piece: Piece)
        requires
            self.wf(),
            f < 64,
            t < 64,
            self.reaches(f as int, t as int),
            self.piece_on(f as int) == Some(piece),
        ensures
            final(moves)@ == old(moves)@ + self.legal_at(f as int, t as int),
    {
        let sq = Square(f);
        let tq = Square(t);
        if piece == Piece::Pawn && t >= 56 {
            self.push_if_safe(moves, Mv { from: sq, to: tq, promo: Piece::Queen });
            self.push_if_safe(moves, Mv { from: sq, to: tq, promo: Piece::Rook });
            self.push_if_safe(moves, Mv { from: sq, to: tq, promo: Piece::Bishop });
            self.push_if_safe(moves, Mv { from: sq, to: tq, promo: Piece::Knight });
        } else {
            self.push_if_safe(moves, Mv { from: sq, to: tq, promo: Piece::NoPiece });
        }
        proof {
            assert(final(moves)@ =~= old(moves)@ + self.legal_at(f as int, t as int));
        }
    }

    /// Whether the piece `piece` of the side to move on `f` reaches `t`, given the squares it
    /// attacks (for a pawn, the squares it takes on) and the castling permissions.
    fn reaches_exec(&self, f: u8, t: u8, piece: Piece, reach: Bitboard, ksq: Square, ks_ok: bool, qs_ok: bool) -> (r: bool)
        requires
            self.wf(),
            f < 64,
            t < 64,
            self.colours[0].has(f as int),
            self.piece_on(f as int) == Some(piece),
            piece == Piece::Pawn ==> reach.0 == spec_pawns(true, 1u64 << (f as u64)),
            piece != Piece::Pawn ==> reach.0 == self.piece_reach(piece, f as int),
            ksq.0 == self.king_sq(Side::Us),
            ks_ok == self.castle_ks_ok(),
            qs_ok == self.castle_qs_ok(),
        ensures
            r == self.reaches(f as int, t as int),
    {
        let us = self.get_us();
        let them = self.get_them();
        let tq = Square(t);
        if piece == Piece::Pawn {
            let on_ep = match self.ep {
                Some(e) => e.0 == t,
                None => false,
            };
            proof {
                assert(on_ep == (self.ep == Some(Square(t))));
            }
            (t == f + 8 && !us.is_set(tq) && !them.is_set(tq)) || (8 <= f && f < 16 && t == f + 16
                && !us.is_set(Square(f + 8)) && !them.is_set(Square(f + 8)) && !us.is_set(tq)
                && !them.is_set(tq)) || (reach.is_set(tq) && (them.is_set(tq) || on_ep))
        } else if piece == Piece::King {
            (reach.is_set(tq) && !us.is_set(tq)) || (f == ksq.0 && ((ks_ok && t == self.castle_files[0])
                || (qs_ok && t == self.castle_files[1])))
        } else {
            reach.is_set(tq) && !us.is_set(tq)
        }
    }

    /// The legal moves, in order of origin square, then target square, then promotion to
    /// queen, rook, bishop and knight.
    #[verifier::rlimit(60)]
    pub fn legal_moves(&self) -> (moves: Vec<Mv>)
        requires
            self.wf(),
        ensures
            moves@ == self.spec_legal_moves(),
            forall|k: int| 0 <= k < moves.len() ==> self.spec_legal(#[trigger] moves[k]) && self.move_ok(
                moves[k],
            ),
    {
        let mut moves: Vec<Mv> = Vec::new();
        let us = self.get_us();
        let them = self.get_them();
        let occ = self.get_occupied();
        let ksq = (self.get_kings() & self.get_us()).lsb();
        let ks_ok = self.us_ksc && !self.in_check() && (occ & Bitboard(0x60)).is_empty()
            && !self.is_bb_attacked(Bitboard(0x60), Side::Them);
        let qs_ok = self.us_qsc && !self.in_check() && (occ & Bitboard(0xe)).is_empty()
            && !self.is_bb_attacked(Bitboard(0xc), Side::Them);
        let mut f: u8 = 0;
        while f < 64
            invariant
                self.wf(),
                f <= 64,
                us == self.colours[0],
                them == self.colours[1],
                occ.0 == self.occ(),
                ksq.0 == self.king_sq(Side::Us),
                ks_ok == self.castle_ks_ok(),
                qs_ok == self.castle_qs_ok(),
                moves@ == self.rows_upto(f as nat),
                forall|k: int| 0 <= k < moves.len() ==> self.spec_legal(#[trigger] moves[k]),
            decreases 64 - f,
        {
            let sq = Square(f);
            if !us.is_set(sq) {
                proof {
                    lemma_row_empty(*self, f as int, 64);
                    assert(self.rows_upto((f + 1) as nat) =~= self.rows_upto(f as nat));
                }
            } else {
                let piece = self.get_piece_on(sq).unwrap();
                let reach = match piece {
                    Piece::Pawn => rays::pawns::<true>(Bitboard::from_square(sq)),
                    Piece::Knight => magic::knight_moves(sq),
                    Piece::Bishop => magic::bishop_moves(f as i32, occ.0),
                    Piece::Rook => magic::rook_moves(f as i32, occ.0),
                    Piece::Queen => magic::queen_moves(f as i32, occ.0),
                    _ => magic::king_moves(f as i32),
                };
                let ghost row_start = moves@;
                let mut t: u8 = 0;
                while t < 64
                    invariant
                        self.wf(),
                        f < 64,
                        t <= 64,
                        us == self.colours[0],
                        them == self.colours[1],
                        occ.0 == self.occ(),
                        ksq.0 == self.king_sq(Side::Us),
                        ks_ok == self.castle_ks_ok(),
                        qs_ok == self.castle_qs_ok(),
                        self.colours[0].has(f as int),
                        self.piece_on(f as int) == Some(piece),
                        piece == Piece::Pawn ==> reach.0 == spec_pawns(true, 1u64 << (f as u64)),
                        piece != Piece::Pawn ==> reach.0 == self.piece_reach(piece, f as int),
                        row_start == self.rows_upto(f as nat),
                        moves@ == row_start + self.row_upto(f as int, t as nat),
                        forall|k: int| 0 <= k < moves.len() ==> self.spec_legal(#[trigger] moves[k]),
                    decreases 64 - t,
                {
                    let ghost before = moves@;
                    let ok = self.reaches_exec(f, t, piece, reach, ksq, ks_ok, qs_ok);
                    if ok {
                        self.push_legal_at(&mut moves, f, t, piece);
                    } else {
                        proof {
                            reveal(Position::spec_legal);
                            assert(self.legal_at(f as int, t as int) =~= Seq::<Mv>::empty());
                        }
                    }
                    proof {
                        assert(moves@ =~= before + self.legal_at(f as int, t as int));
                        assert(self.row_upto(f as int, (t + 1) as nat) == self.row_upto(f as int, t as nat)
                            + self.legal_at(f as int, t as int));
                        assert(moves@ =~= row_start + self.row_upto(f as int, (t + 1) as nat));
                        assert forall|k: int| 0 <= k < moves.len() implies self.spec_legal(#[trigger] moves[k]) by {
                            if k >= before.len() {
                                let j = k - before.len();
                                assert(self.legal_at(f as int, t as int)[j] == moves@[k]);
                            } else {
                                assert(before[k] == moves@[k]);
                            }
                        }
                    }
                    t = t + 1;
                }
                proof {
                    assert(self.rows_upto((f + 1) as nat) =~= self.rows_upto(f as nat) + self.row_upto(f as int, 64));
                }
            }
            f = f + 1;
        }
        proof {
            reveal(Position::spec_legal_moves);
            reveal(Position::spec_legal);
            assert forall|k: int| 0 <= k < moves.len() implies self.spec_legal(#[trigger] moves[k]) && self.move_ok(
                moves[k],
            ) by {
                lemma_reaches_move_ok(*self, moves[k]);
            }
        }
        moves
    }

    /// The number of legal moves.
    pub fn count_moves(&self) -> (r: usize)
        requires
            self.wf(),
        ensures
            r == self.spec_legal_moves().len(),
    {
        self.legal_moves().len()
    }

    /// The legal moves that take a piece, directly or en passant, in the order of
    /// `legal_moves`.
    pub fn legal_captures(&self) -> (moves: Vec<Mv>)
        requires
            self.wf(),
        ensures
            moves@ == self.spec_legal_moves().filter(|m: Mv| self.spec_is_capture(m)),
            forall|k: int| 0 <= k < moves.len() ==> self.spec_legal(#[trigger] moves[k]) && self.move_ok(
                moves[k],
            ) && self.spec_is_capture(moves[k]),
    {
        let all = self.legal_moves();
        let ghost pred = |m: Mv| self.spec_is_capture(m);
        let mut moves: Vec<Mv> = Vec::new();
        let mut i: usize = 0;
        while i < all.len()
            invariant
                self.wf(),
                i <= all.len(),
                all@ == self.spec_legal_moves(),
                forall|k: int| 0 <= k < all.len() ==> self.spec_legal(#[trigger] all[k]) && self.move_ok(all[k]),
                pred == (|m: Mv| self.spec_is_capture(m)),
                moves@ == all@.take(i as int).filter(pred),
                forall|k: int| 0 <= k < moves.len() ==> self.spec_legal(#[trigger] moves[k]) && self.move_ok(
                    moves[k],
                ) && self.spec_is_capture(moves[k]),
            decreases all.len() - i,
        {
            let mv = all[i];
            let ghost before = moves@;
            proof {
                assert(self.spec_legal(all[i as int]) && self.move_ok(all[i as int]));
            }
            if self.is_capture(&mv) {
                moves.push(mv);
            }
            proof {
                reveal(Seq::filter);
                assert(all@.take(i + 1).drop_last() =~= all@.take(i as int));
                assert(all@.take(i + 1).last() == mv);
                assert(moves@ =~= all@.take(i + 1).filter(pred));
                assert forall|k: int| 0 <= k < moves.len() implies self.spec_legal(#[trigger] moves[k])
                    && self.move_ok(moves[k]) && self.spec_is_capture(moves[k]) by {
                    if k < before.len() {
                        assert(before[k] == moves@[k]);
                    }
                }
            }
            i = i + 1;
        }
        proof {
            assert(all@.take(all.len() as int) =~= all@);
        }
        moves
    }
}

} // verus!

verus! {

/// The two positions differ at most in their halfmove counters.
pub open spec fn same_but_halfmoves(a: Position, b: Position) -> bool {
    a == Position { halfmoves: a.halfmoves, ..b }
}

/// Each stage of playing a move, and turning the board round, treats two positions that differ
/// only in their halfmove counters alike but for those counters.
proof fn lemma_stages_ignore_halfmoves(a: Position, b: Position, mv: Mv, piece: Piece, captured: Option<Piece>, k1: u8, k2: u8)
    requires
        same_but_halfmoves(a, b),
    ensures
        same_but_halfmoves(a.play_relocate(mv, piece, captured), b.play_relocate(mv, piece, captured)),
        same_but_halfmoves(a.play_ep(mv, piece, captured), b.play_ep(mv, piece, captured)),
        same_but_halfmoves(a.play_castle(mv), b.play_castle(mv)),
        same_but_halfmoves(a.play_promo(mv), b.play_promo(mv)),
        same_but_halfmoves(a.play_rights(mv, k1, k2), b.play_rights(mv, k1, k2)),
        same_but_halfmoves(a.spec_flip(), b.spec_flip()),
{
    reveal(Position::play_relocate);
    reveal(Position::play_ep);
    reveal(Position::play_castle);
    reveal(Position::play_promo);
    reveal(Position::play_rights);
}

/// A legal move, played as `after_move` plays it, leaves the king of the side that moved on the
/// board and out of attack: the check `in_check_them` makes on the position after it is false.
#[verifier::spinoff_prover]
#[verifier::rlimit(60)]
pub proof fn lemma_legal_after_move(pos: Position, mv: Mv)
    requires
        pos.spec_legal(mv),
    ensures
        ({
            let n = pos.spec_makemove(mv, false);
            &&& n.pc(5) & n.us() != 0
            &&& n.pc(5) & n.them() != 0
            &&& !n.spec_sq_attacked(n.king_sq(Side::Them), Side::Us)
        }),
{
    let z = Position { halfmoves: 0, ..pos };
    let piece = pos.piece_on(mv.from.0 as int).unwrap();
    let captured = pos.piece_on(mv.to.0 as int);
    let k1 = pos.king_sq(Side::Us);
    let k2 = pos.king_sq(Side::Them);
    assert(z.piece_on(mv.from.0 as int) == pos.piece_on(mv.from.0 as int));
    assert(z.piece_on(mv.to.0 as int) == pos.piece_on(mv.to.0 as int));
    assert(z.king_sq(Side::Us) == k1 && z.king_sq(Side::Them) == k2);
    assert(z.spec_play(mv, false) == z.play_relocate(mv, piece, captured).play_ep(mv, piece, captured).play_castle(mv).play_promo(mv).play_rights(mv, k1, k2));
    assert(pos.spec_play(mv, false) == pos.play_relocate(mv, piece, captured).play_ep(mv, piece, captured).play_castle(mv).play_promo(mv).play_rights(mv, k1, k2));
    lemma_stages_ignore_halfmoves(z, pos, mv, piece, captured, k1, k2);
    let z1 = z.play_relocate(mv, piece, captured);
    let p1 = pos.play_relocate(mv, piece, captured);
    lemma_stages_ignore_halfmoves(z1, p1, mv, piece, captured, k1, k2);
    let z2 = z1.play_ep(mv, piece, captured);
    let p2 = p1.play_ep(mv, piece, captured);
    lemma_stages_ignore_halfmoves(z2, p2, mv, piece, captured, k1, k2);
    let z3 = z2.play_castle(mv);
    let p3 = p2.play_castle(mv);
    lemma_stages_ignore_halfmoves(z3, p3, mv, piece, captured, k1, k2);
    let z4 = z3.play_promo(mv);
    let p4 = p3.play_promo(mv);
    lemma_stages_ignore_halfmoves(z4, p4, mv, piece, captured, k1, k2);
    let z5 = z4.play_rights(mv, k1, k2);
    let p5 = p4.play_rights(mv, k1, k2);
    lemma_stages_ignore_halfmoves(z5, p5, mv, piece, captured, k1, k2);
    let a = pos.after_board(mv);
    let n = pos.spec_makemove(mv, false);
    assert(a.colours == n.colours && a.pieces == n.pieces);
    assert(pos.king_safe_after(mv)) by {
        reveal(Position::spec_legal);
    }
}

} // verus!

use crate::chess::bitboard::{bit, spec_adjacent};
use crate::chess::colour::Colour;
use crate::chess::legal_moves::{lemma_legal_moves_exact, lemma_pawn_capture_step};
use crate::chess::mv::Mv;
use crate::chess::piece::Piece;
use crate::chess::position::Position;
use crate::chess::side::Side;
use crate::chess::square::{file_char, rank_char, Square};
use vstd::prelude::*;

verus! {

/// The name of a square, such as `e4`.
pub open spec fn square_text(sq: Square) -> Seq<char> {
    seq![file_char(sq.spec_file()), rank_char(sq.spec_rank())]
}

/// The letter written after a move that promotes to `p`.
pub open spec fn promo_text(p: Piece) -> Seq<char> {
    match p {
        Piece::Knight => seq!['n'],
        Piece::Bishop => seq!['b'],
        Piece::Rook => seq!['r'],
        Piece::Queen => seq!['q'],
        _ => Seq::empty(),
    }
}

/// The destination a move is written with: in standard chess a king moving onto its own rook
/// castles, and is written as going to the g-file or the c-file.
pub open spec fn uci_destination(mv: Mv, pos: Position) -> Square {
    if !pos.is_frc && pos.colours[0].has(mv.to.0 as int) {
        if mv.to.spec_file() > mv.from.spec_file() {
            Square(6)
        } else {
            Square(2)
        }
    } else {
        mv.to
    }
}

/// A square as white sees it.
pub open spec fn white_square(sq: Square, pos: Position) -> Square {
    if pos.turn == Colour::White {
        sq
    } else {
        sq.spec_flip()
    }
}

/// The UCI text of `mv` in `pos`: origin, destination (as white sees them) and promotion.
pub open spec fn spec_to_uci(mv: Mv, pos: Position) -> Seq<char> {
    square_text(white_square(mv.from, pos)) + square_text(white_square(uci_destination(mv, pos), pos))
        + promo_text(mv.promo)
}

impl Mv {
    /// The move in UCI notation, such as `e2e4` or `e7e8q`, as white sees the board.
    pub fn to_uci(&self, pos: &Position) -> (r: String)
        requires
            self.from.valid(),
            self.to.valid(),
        ensures
            r@ == spec_to_uci(*self, *pos),
    {
        let from = if pos.turn == Colour::White {
            self.from
        } else {
            self.from.flip()
        };
        let to = {
            let sq = if !pos.is_frc && pos.get_us().is_set(self.to) {
                if self.to.file() > self.from.file() {
                    Square(6)
                } else {
                    Square(2)
                }
            } else {
                self.to
            };
            if pos.turn == Colour::White {
                sq
            } else {
                sq.flip()
            }
        };
        let mut movestr = from.name();
        let to_name = to.name();
        movestr.append(to_name.as_str());
        let promo = match self.promo {
            Piece::Knight => {
                proof { reveal_strlit("n"); }
                "n"
            },
            Piece::Bishop => {
                proof { reveal_strlit("b"); }
                "b"
            },
            Piece::Rook => {
                proof { reveal_strlit("r"); }
                "r"
            },
            Piece::Queen => {
                proof { reveal_strlit("q"); }
                "q"
            },
            _ => {
                proof { reveal_strlit(""); }
                ""
            },
        };
        movestr.append(promo);
        movestr
    }
}

} // verus!

verus! {

/// The file letter `a`..`h` of file `f`.
pub open spec fn file_letter(f: int) -> char {
    (97 + f) as char
}

/// The rank digit `1`..`8` of rank `r`.
pub open spec fn rank_digit(r: int) -> char {
    (49 + r) as char
}

/// The UCI text of a move names its origin and its destination as white sees the board: file
/// letter then rank digit, ranks counted from black's side when black moves. A king moving onto a
/// rook of its own side in standard chess castles and is written with the king's castling square:
/// the g-file when the rook stands on a higher file, the c-file when it stands on a lower one,
/// on the mover's first rank (`1` for white, `8` for black). A promotion adds its letter.
pub proof fn lemma_uci_text(mv: Mv, pos: Position)
    requires
        mv.from.valid(),
        mv.to.valid(),
    ensures
        ({
            let t = spec_to_uci(mv, pos);
            let white = pos.turn == Colour::White;
            let home = if white { '1' } else { '8' };
            let castles = !pos.is_frc && pos.colours[0].has(mv.to.0 as int);
            &&& t.len() == if mv.promo == Piece::Knight || mv.promo == Piece::Bishop || mv.promo
                == Piece::Rook || mv.promo == Piece::Queen { 5int } else { 4int }
            &&& t[0] == file_letter((mv.from.0 as int) % 8)
            &&& t[1] == rank_digit(if white { (mv.from.0 as int) / 8 } else { 7 - (mv.from.0 as int) / 8 })
            &&& castles && (mv.to.0 as int) % 8 > (mv.from.0 as int) % 8 ==> t[2] == 'g' && t[3] == home
            &&& castles && (mv.to.0 as int) % 8 <= (mv.from.0 as int) % 8 ==> t[2] == 'c' && t[3] == home
            &&& !castles ==> t[2] == file_letter((mv.to.0 as int) % 8) && t[3] == rank_digit(
                if white { (mv.to.0 as int) / 8 } else { 7 - (mv.to.0 as int) / 8 },
            )
            &&& mv.promo == Piece::Queen ==> t[4] == 'q'
            &&& mv.promo == Piece::Rook ==> t[4] == 'r'
            &&& mv.promo == Piece::Bishop ==> t[4] == 'b'
            &&& mv.promo == Piece::Knight ==> t[4] == 'n'
        }),
{
    let f = mv.from.0;
    let d = uci_destination(mv, pos);
    assert((f ^ 56u8) % 8 == f % 8 && (f ^ 56u8) / 8 == 7 - f / 8) by (bit_vector)
        requires
            f < 64,
    ;
    let g = d.0;
    assert(g < 64);
    assert((g ^ 56u8) % 8 == g % 8 && (g ^ 56u8) / 8 == 7 - g / 8) by (bit_vector)
        requires
            g < 64,
    ;
}

/// Letters and digits name files and ranks one to one.
proof fn lemma_names_one_to_one(a: int, b: int)
    requires
        0 <= a < 8,
        0 <= b < 8,
    ensures
        file_letter(a) == file_letter(b) ==> a == b,
        rank_digit(a) == rank_digit(b) ==> a == b,
{
}

/// The squares around e1 are d1, f1, d2, e2 and f2.
proof fn lemma_around_e1(t: u64)
    by (bit_vector)
    requires
        t < 64,
        (spec_adjacent(1u64 << 4u64) >> t) & 1u64 == 1u64,
    ensures
        t == 3 || t == 5 || t == 11 || t == 12 || t == 13,
{
}

/// A legal move onto a square held by the mover's own side is a pawn taking en passant on that
/// square, or the king castling.
proof fn lemma_onto_own(pos: Position, f: int, t: int)
    requires
        pos.wf(),
        pos.reaches(f, t),
        pos.colours[0].has(t),
    ensures
        pos.piece_on(f) == Some(Piece::Pawn) && pos.ep == Some(Square(t as u8)) || pos.piece_on(f)
            == Some(Piece::King) && pos.castle_reaches(f, t),
{
    assert(!(pos.colours[0].has(t) && pos.colours[1].has(t)));
}

/// A pawn never goes to its own first rank.
proof fn lemma_pawn_up(pos: Position, f: int, t: int)
    requires
        0 <= f < 64,
        0 <= t < 64,
        pos.pawn_reaches(f, t),
    ensures
        t >= 8,
{
    if bit(crate::chess::rays::spec_pawns(true, 1u64 << (f as u64)), t as u64) {
        lemma_pawn_capture_step(f as u64, t as u64);
    }
}

/// Two different legal moves of a position are written differently. In standard chess this
/// rests on the king standing on e1 (as the side to move sees the board) while it keeps a
/// castling right, with the king-side rook east of it and the queen-side rook not east of it:
/// else a king step and a castling move could both read `f1g1`.
pub proof fn lemma_uci_distinct(pos: Position, m1: Mv, m2: Mv)
    requires
        pos.wf(),
        !pos.is_frc && (pos.us_ksc || pos.us_qsc) ==> pos.king_sq(Side::Us) == 4,
        !pos.is_frc && pos.us_ksc ==> pos.castle_files[0] > 4,
        !pos.is_frc && pos.us_qsc ==> pos.castle_files[1] <= 4,
        pos.spec_legal_moves().contains(m1),
        pos.spec_legal_moves().contains(m2),
        m1 != m2,
    ensures
        spec_to_uci(m1, pos) != spec_to_uci(m2, pos),
{
    lemma_legal_moves_exact(pos, m1);
    lemma_legal_moves_exact(pos, m2);
    reveal(Position::spec_legal);
    let f1 = m1.from.0 as int;
    let f2 = m2.from.0 as int;
    let t1 = m1.to.0 as int;
    let t2 = m2.to.0 as int;
    lemma_uci_text(m1, pos);
    lemma_uci_text(m2, pos);
    if spec_to_uci(m1, pos) == spec_to_uci(m2, pos) {
        let s = spec_to_uci(m1, pos);
        let white = pos.turn == Colour::White;
        lemma_names_one_to_one(f1 % 8, f2 % 8);
        lemma_names_one_to_one(f1 / 8, f2 / 8);
        lemma_names_one_to_one(7 - f1 / 8, 7 - f2 / 8);
        assert(f1 == f2);
        assert(m1.promo == m2.promo);
        let c1 = !pos.is_frc && pos.colours[0].has(t1);
        let c2 = !pos.is_frc && pos.colours[0].has(t2);
        if !c1 && !c2 {
            lemma_names_one_to_one(t1 % 8, t2 % 8);
            lemma_names_one_to_one(t1 / 8, t2 / 8);
            lemma_names_one_to_one(7 - t1 / 8, 7 - t2 / 8);
            assert(t1 == t2);
            assert(m1 == m2);
        } else if c1 && c2 {
            lemma_onto_own(pos, f1, t1);
            lemma_onto_own(pos, f2, t2);
            if pos.piece_on(f1) == Some(Piece::King) {
                assert(t1 == t2);
            }
            assert(m1 == m2);
        } else {
            let (a, b) = if c1 { (m1, m2) } else { (m2, m1) };
            let fa = a.from.0 as int;
            let ta = a.to.0 as int;
            let tb = b.to.0 as int;
            lemma_onto_own(pos, fa, ta);
            lemma_names_one_to_one(tb % 8, 6);
            lemma_names_one_to_one(tb % 8, 2);
            lemma_names_one_to_one(tb / 8, 0);
            lemma_names_one_to_one(7 - tb / 8, 7);
            assert(tb == 2 || tb == 6);
            if pos.piece_on(fa) == Some(Piece::Pawn) {
                lemma_pawn_up(pos, fa, tb);
            } else {
                assert(fa == 4);
                if bit(pos.piece_reach(Piece::King, fa), tb as u64) {
                    lemma_around_e1(tb as u64);
                }
            }
        }
    }
}

} // verus!

use crate::chess::colour::Colour;
use crate::chess::display::{diagram_char, diagram_row, diagram_rows};
use crate::chess::position::Position;
use vstd::prelude::*;

verus! {

/// Rank `y` drawn from file `x` on: the characters of its squares, then a line break.
proof fn lemma_row_index(pos: Position, y: int, x: int)
    requires
        0 <= x <= 8,
    ensures
        diagram_row(pos, y, x).len() == 9 - x,
        forall|j: int| 0 <= j < 8 - x ==> #[trigger] diagram_row(pos, y, x)[j] == diagram_char(pos, 8 * y + x + j),
        diagram_row(pos, y, x)[8 - x] == '\n',
    decreases 8 - x,
{
    if x < 8 {
        lemma_row_index(pos, y, x + 1);
        let r = diagram_row(pos, y, x + 1);
        assert forall|j: int| 0 <= j < 8 - x implies #[trigger] diagram_row(pos, y, x)[j] == diagram_char(pos, 8 * y + x + j) by {
            if j > 0 {
                assert(diagram_row(pos, y, x)[j] == r[j - 1]);
            }
        }
        assert(diagram_row(pos, y, x)[8 - x] == r[8 - x - 1]);
    }
}

/// The ranks drawn from rank `y` down: rank `r` takes the nine characters from `9 (y - r)` on.
proof fn lemma_rows_index(pos: Position, y: int)
    requires
        0 <= y,
    ensures
        diagram_rows(pos, y).len() == 9 * (y + 1),
        forall|r: int, j: int| 0 <= r <= y && 0 <= j < 9 ==> #[trigger] diagram_rows(pos, y)[9 * (y - r) + j]
            == diagram_row(pos, r, 0)[j],
    decreases y,
{
    lemma_row_index(pos, y, 0);
    if y > 0 {
        lemma_rows_index(pos, y - 1);
        let a = diagram_row(pos, y, 0);
        let b = diagram_rows(pos, y - 1);
        assert forall|r: int, j: int| 0 <= r <= y && 0 <= j < 9 implies #[trigger] diagram_rows(pos, y)[9 * (y - r) + j]
            == diagram_row(pos, r, 0)[j] by {
            if r == y {
                assert(diagram_rows(pos, y)[9 * (y - r) + j] == a[j]);
            } else {
                assert(diagram_rows(pos, y)[9 * (y - r) + j] == b[9 * (y - 1 - r) + j]);
            }
        }
    }
}

/// The lower-case FEN letter of the piece kind at `i` (pawn, knight, bishop, rook, queen, king).
pub open spec fn kind_letter(i: int) -> char {
    seq!['p', 'n', 'b', 'r', 'q', 'k'][i]
}

/// The diagram has eight lines of eight characters, the eighth rank first, files a to h, as
/// white sees the board whoever is to move: an empty square is `-`, a piece is its lower-case
/// FEN letter for black and the upper-case letter for white.
pub proof fn lemma_diagram_squares(p: Position, x: int, y: int)
    requires
        0 <= x < 8,
        0 <= y < 8,
    ensures
        ({
            let d = p.spec_board_diagram();
            let white = p.turn == Colour::White;
            let t = if white { 8 * y + x } else { 8 * (7 - y) + x };
            let c = d[9 * (7 - y) + x];
            &&& d.len() == 72
            &&& d[9 * (7 - y) + 8] == '\n'
            &&& match p.piece_on(t) {
                None => c == '-',
                Some(k) => {
                    let white_piece = if white { p.colours[0].has(t) } else { p.colours[1].has(t) };
                    c == if white_piece { ((kind_letter(k.spec_index() as int) as int) - 32) as char } else {
                        kind_letter(k.spec_index() as int)
                    }
                },
            }
        }),
{
    let w = p.white_view();
    lemma_rows_index(w, 7);
    lemma_row_index(w, y, 0);
    let s = 8 * y + x;
    assert(p.spec_board_diagram()[9 * (7 - y) + x] == diagram_row(w, y, 0)[x]);
    assert(p.spec_board_diagram()[9 * (7 - y) + 8] == diagram_row(w, y, 0)[8]);
    if p.turn != Colour::White {
        crate::chess::parse_law::lemma_flip_bits(p, s);
        let xu = x as u64;
        let yu = y as u64;
        assert(((8 * yu + xu) as u64) ^ 56u64 == (8 * (7 - yu) + xu) as u64) by (bit_vector)
            requires
                xu < 8,
                yu < 8,
        ;
        assert(s as u64 == (8 * yu + xu) as u64);
    }
}

} // verus!

use crate::chess::bitboard::Bitboard;
use crate::chess::colour::Colour;
use crate::chess::get_fen::{letter_str, piece_letter};
use crate::chess::position::Position;
use crate::chess::square::Square;
use vstd::prelude::*;

verus! {

/// The character drawn for square `sq` of `pos` (seen from white): the FEN letter of its piece,
/// upper case when the square is white's, or `-` when it is empty.
pub open spec fn diagram_char(pos: Position, sq: int) -> char {
    match pos.piece_on(sq) {
        Some(p) => piece_letter(p, pos.colours[0].has(sq)),
        None => '-',
    }
}

/// Rank `y` of `pos` drawn from file `x` on, then a line break.
pub open spec fn diagram_row(pos: Position, y: int, x: int) -> Seq<char>
    decreases 8 - x,
{
    if x >= 8 {
        seq!['\n']
    } else {
        seq![diagram_char(pos, 8 * y + x)] + diagram_row(pos, y, x + 1)
    }
}

/// The ranks of `pos` drawn from rank `y` down to the first.
pub open spec fn diagram_rows(pos: Position, y: int) -> Seq<char>
    decreases y,
{
    if y <= 0 {
        diagram_row(pos, 0, 0)
    } else {
        diagram_row(pos, y, 0) + diagram_rows(pos, y - 1)
    }
}

impl Position {
    /// The position as white sees it.
    pub open spec fn white_view(self) -> Position {
        if self.turn == Colour::White {
            self
        } else {
            self.spec_flip()
        }
    }

    /// The board drawn as white sees it, eighth rank first, one line per rank.
    pub open spec fn spec_board_diagram(self) -> Seq<char> {
        diagram_rows(self.white_view(), 7)
    }
}

fn push_diagram_row(s: &mut String, pos: &Position, y: u8)
    requires
        y < 8,
    ensures
        final(s)@ == old(s)@ + diagram_row(*pos, y as int, 0),
{
    let mut x: u8 = 0;
    while x < 8
        invariant
            x <= 8,
            y < 8,
            s@ + diagram_row(*pos, y as int, x as int) == old(s)@ + diagram_row(*pos, y as int, 0),
        decreases 8 - x,
    {
        let sq = Square::from_coords(x, y);
        let ghost before = s@;
        match pos.get_piece_on(sq) {
            Some(p) => {
                s.append(letter_str(p, pos.get_us().is_set(sq)));
            },
            None => {
                proof { reveal_strlit("-"); }
                s.append("-");
            },
        }
        assert(before + diagram_row(*pos, y as int, x as int) =~= s@ + diagram_row(
            *pos,
            y as int,
            x + 1,
        ));
        x = x + 1;
    }
    proof { reveal_strlit("\n"); }
    s.append("\n");
}

fn push_diagram_rows(s: &mut String, pos: &Position, y: u8)
    requires
        y < 8,
    ensures
        final(s)@ == old(s)@ + diagram_rows(*pos, y as int),
    decreases y,
{
    push_diagram_row(s, pos, y);
    if y > 0 {
        push_diagram_rows(s, pos, y - 1);
        assert(final(s)@ =~= old(s)@ + diagram_rows(*pos, y as int));
    }
}

impl Position {
    /// The board drawn as white sees it: eight lines of eight characters, a FEN letter for each
    /// piece and `-` for each empty square.
    pub fn board_diagram(&self) -> (r: String)
        ensures
            r@ == self.spec_board_diagram(),
    {
        let npos = if self.turn == Colour::White {
            *self
        } else {
            let mut npos = *self;
            npos.flip();
            npos
        };
        let mut s = String::new();
        push_diagram_rows(&mut s, &npos, 7);
        s
    }
}

/// Rank `y` of the set `bb` drawn from file `x` on, `1` for a square in it and `0` for one
/// not, then a line break.
pub open spec fn set_row(bb: Bitboard, y: int, x: int) -> Seq<char>
    decreases 8 - x,
{
    if x >= 8 {
        seq!['\n']
    } else {
        seq![if bb.has(8 * y + x) { '1' } else { '0' }] + set_row(bb, y, x + 1)
    }
}

/// The ranks of the set `bb` drawn from rank `y` down to the first.
pub open spec fn set_rows(bb: Bitboard, y: int) -> Seq<char>
    decreases y,
{
    if y <= 0 {
        set_row(bb, 0, 0)
    } else {
        set_row(bb, y, 0) + set_rows(bb, y - 1)
    }
}

fn push_set_row(s: &mut String, bb: Bitboard, y: u8)
    requires
        y < 8,
    ensures
        final(s)@ == old(s)@ + set_row(bb, y as int, 0),
{
    proof {
        reveal_strlit("1");
        reveal_strlit("0");
        reveal_strlit("\n");
    }
    let mut x: u8 = 0;
    while x < 8
        invariant
            x <= 8,
            y < 8,
            s@ + set_row(bb, y as int, x as int) == old(s)@ + set_row(bb, y as int, 0),
            "1"@ == seq!['1'],
            "0"@ == seq!['0'],
        decreases 8 - x,
    {
        let ghost before = s@;
        if bb.is_set(Square::from_coords(x, y)) {
            s.append("1");
        } else {
            s.append("0");
        }
        assert(before + set_row(bb, y as int, x as int) =~= s@ + set_row(bb, y as int, x + 1));
        x = x + 1;
    }
    s.append("\n");
}

fn push_set_rows(s: &mut String, bb: Bitboard, y: u8)
    requires
        y < 8,
    ensures
        final(s)@ == old(s)@ + set_rows(bb, y as int),
    decreases y,
{
    push_set_row(s, bb, y);
    if y > 0 {
        push_set_rows(s, bb, y - 1);
        assert(final(s)@ =~= old(s)@ + set_rows(bb, y as int));
    }
}

impl Bitboard {
    /// The set drawn as eight lines, the eighth rank first: `1` for each square in it, `0` for
    /// each square not.
    pub fn diagram(&self) -> (r: String)
        ensures
            r@ == set_rows(*self, 7),
    {
        let mut s = String::new();
        push_set_rows(&mut s, *self, 7);
        s
    }
}

/// The letter of file `f`, upper case or lower case.
pub open spec fn file_char(f: int, upper: bool) -> char {
    if upper {
        (65 + f) as char
    } else {
        (97 + f) as char
    }
}

/// The letter of file `f` as a string.
fn file_str(f: u8, upper: bool) -> (r: &'static str)
    requires
        f < 8,
    ensures
        r@ == seq![file_char(f as int, upper)],
{
    proof {
        reveal_strlit("A");
        assert("A"@ =~= seq!['A']);
        reveal_strlit("B");
        assert("B"@ =~= seq!['B']);
        reveal_strlit("C");
        assert("C"@ =~= seq!['C']);
        reveal_strlit("D");
        assert("D"@ =~= seq!['D']);
        reveal_strlit("E");
        assert("E"@ =~= seq!['E']);
        reveal_strlit("F");
        assert("F"@ =~= seq!['F']);
        reveal_strlit("G");
        assert("G"@ =~= seq!['G']);
        reveal_strlit("H");
        assert("H"@ =~= seq!['H']);
        reveal_strlit("a");
        assert("a"@ =~= seq!['a']);
        reveal_strlit("b");
        assert("b"@ =~= seq!['b']);
        reveal_strlit("c");
        assert("c"@ =~= seq!['c']);
        reveal_strlit("d");
        assert("d"@ =~= seq!['d']);
        reveal_strlit("e");
        assert("e"@ =~= seq!['e']);
        reveal_strlit("f");
        assert("f"@ =~= seq!['f']);
        reveal_strlit("g");
        assert("g"@ =~= seq!['g']);
        reveal_strlit("h");
        assert("h"@ =~= seq!['h']);
    }
    if upper {
        match f {
            0 => "A",
            1 => "B",
            2 => "C",
            3 => "D",
            4 => "E",
            5 => "F",
            6 => "G",
            _ => "H",
        }
    } else {
        match f {
            0 => "a",
            1 => "b",
            2 => "c",
            3 => "d",
            4 => "e",
            5 => "f",
            6 => "g",
            _ => "h",
        }
    }
}

impl Position {
    /// The castling rights as the status lines show them: the file letter of each right, upper
    /// case for white and lower case for black, white's king side, white's queen side, black's
    /// king side, black's queen side; `-` for none.
    pub open spec fn spec_castling_status(self) -> Seq<char> {
        let n = self.white_view();
        if !n.us_ksc && !n.us_qsc && !n.them_ksc && !n.them_qsc {
            seq!['-']
        } else {
            (if n.us_ksc { seq![file_char(self.castle_files[0] as int, true)] } else { seq![] })
                + (if n.us_qsc { seq![file_char(self.castle_files[1] as int, true)] } else { seq![] })
                + (if n.them_ksc { seq![file_char(self.castle_files[2] as int, false)] } else { seq![] })
                + (if n.them_qsc { seq![file_char(self.castle_files[3] as int, false)] } else { seq![] })
        }
    }

    /// The castling rights as the status lines show them.
    pub fn castling_status(&self) -> (r: String)
        requires
            forall|i: int| 0 <= i < 4 ==> #[trigger] self.castle_files[i] < 8,
        ensures
            r@ == self.spec_castling_status(),
    {
        let n = if self.turn == Colour::White {
            *self
        } else {
            Position::from_flipped(self)
        };
        let mut s = String::new();
        proof {
            reveal_strlit("-");
        }
        if !n.us_ksc && !n.us_qsc && !n.them_ksc && !n.them_qsc {
            s.append("-");
            return s;
        }
        if n.us_ksc {
            s.append(file_str(self.castle_files[0], true));
        }
        if n.us_qsc {
            s.append(file_str(self.castle_files[1], true));
        }
        if n.them_ksc {
            s.append(file_str(self.castle_files[2], false));
        }
        if n.them_qsc {
            s.append(file_str(self.castle_files[3], false));
        }
        proof {
            assert(s@ =~= self.spec_castling_status());
        }
        s
    }
}

} // verus!

verus! {

/// The diagram does not depend on whose turn it is: the board turned round, with the other
/// side to move, is drawn the same.
pub proof fn lemma_diagram_turn_free(p: Position)
    ensures
        p.spec_flip().spec_board_diagram() == p.spec_board_diagram(),
{
    crate::chess::position::lemma_position_flip_involution(p);
}

} // verus!

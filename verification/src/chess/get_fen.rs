use crate::chess::colour::Colour;
use crate::chess::piece::Piece;
use crate::chess::position::Position;
use crate::chess::square::{file_char, rank_char, Square};
use crate::text::{nat_text, int_text, push_int, push_nat};
use vstd::prelude::*;

verus! {

/// The FEN letter of a piece: upper case for white, lower case for black.
pub open spec fn piece_letter(p: Piece, white: bool) -> char {
    match p {
        Piece::Pawn => if white { 'P' } else { 'p' },
        Piece::Knight => if white { 'N' } else { 'n' },
        Piece::Bishop => if white { 'B' } else { 'b' },
        Piece::Rook => if white { 'R' } else { 'r' },
        Piece::Queen => if white { 'Q' } else { 'q' },
        Piece::King => if white { 'K' } else { 'k' },
        Piece::NoPiece => '-',
    }
}

/// A count of empty squares in a row, written when there is one.
pub open spec fn run_text(run: nat) -> Seq<char> {
    if run > 0 {
        nat_text(run)
    } else {
        Seq::empty()
    }
}

/// The FEN text of rank `y` of `pos` (seen from white) from file `x` on, `run` empty squares
/// having been passed just before: a letter for each piece, and the number of empty squares
/// between them.
pub open spec fn rank_text(pos: Position, y: int, x: int, run: nat) -> Seq<char>
    decreases 8 - x,
{
    if x >= 8 {
        run_text(run)
    } else {
        let sq = 8 * y + x;
        match pos.piece_on(sq) {
            Some(p) => run_text(run) + seq![piece_letter(p, pos.colour_on(sq) == Some(Colour::White))]
                + rank_text(pos, y, x + 1, 0),
            None => rank_text(pos, y, x + 1, run + 1),
        }
    }
}

/// The FEN text of the board of `pos` (seen from white) from rank `y` down to the first rank,
/// the ranks separated by `/`.
pub open spec fn board_text(pos: Position, y: int) -> Seq<char>
    decreases y,
{
    if y <= 0 {
        rank_text(pos, 0, 0, 0)
    } else {
        rank_text(pos, y, 0, 0) + seq!['/'] + board_text(pos, y - 1)
    }
}

/// The castling part of a FEN string, with the space before it.
pub open spec fn castling_text(pos: Position) -> Seq<char> {
    if !pos.us_ksc && !pos.us_qsc && !pos.them_ksc && !pos.them_qsc {
        seq![' ', '-']
    } else {
        seq![' '] + (if pos.us_ksc { seq!['K'] } else { Seq::empty() }) + (if pos.us_qsc {
            seq!['Q']
        } else {
            Seq::empty()
        }) + (if pos.them_ksc { seq!['k'] } else { Seq::empty() }) + (if pos.them_qsc {
            seq!['q']
        } else {
            Seq::empty()
        })
    }
}

/// The en passant part of a FEN string, with the space before it.
pub open spec fn ep_text(pos: Position) -> Seq<char> {
    match pos.ep {
        Some(sq) => seq![' ', file_char(sq.spec_file()), rank_char(sq.spec_rank())],
        None => seq![' ', '-'],
    }
}

impl Position {
    /// Every square that holds a piece has a colour, and the other way round.
    pub open spec fn pieces_coloured(self) -> bool {
        forall|s: int|
            0 <= s < 64 ==> (#[trigger] self.piece_on(s) is Some) == (self.colour_on(s) is Some)
    }

    /// The FEN string of the position: the board, the side to move, the castling rights, the
    /// en passant square and the two counters, all as white sees them.
    pub open spec fn spec_get_fen(self) -> Seq<char> {
        let n = if self.turn == Colour::White {
            self
        } else {
            self.spec_flip()
        };
        board_text(n, 7) + (if self.turn == Colour::White {
            seq![' ', 'w']
        } else {
            seq![' ', 'b']
        }) + castling_text(n) + ep_text(n) + seq![' '] + int_text(n.halfmoves as int) + seq![' ']
            + int_text(n.fullmoves as int)
    }
}

pub fn letter_str(p: Piece, white: bool) -> (r: &'static str)
    ensures
        r@ == seq![piece_letter(p, white)],
{
    match p {
        Piece::Pawn => if white {
            proof { reveal_strlit("P"); }
            "P"
        } else {
            proof { reveal_strlit("p"); }
            "p"
        },
        Piece::Knight => if white {
            proof { reveal_strlit("N"); }
            "N"
        } else {
            proof { reveal_strlit("n"); }
            "n"
        },
        Piece::Bishop => if white {
            proof { reveal_strlit("B"); }
            "B"
        } else {
            proof { reveal_strlit("b"); }
            "b"
        },
        Piece::Rook => if white {
            proof { reveal_strlit("R"); }
            "R"
        } else {
            proof { reveal_strlit("r"); }
            "r"
        },
        Piece::Queen => if white {
            proof { reveal_strlit("Q"); }
            "Q"
        } else {
            proof { reveal_strlit("q"); }
            "q"
        },
        Piece::King => if white {
            proof { reveal_strlit("K"); }
            "K"
        } else {
            proof { reveal_strlit("k"); }
            "k"
        },
        Piece::NoPiece => {
            proof { reveal_strlit("-"); }
            "-"
        },
    }
}

fn push_run(s: &mut String, run: u64)
    ensures
        final(s)@ == old(s)@ + run_text(run as nat),
{
    if run > 0 {
        push_nat(s, run);
    } else {
        assert(old(s)@ + run_text(run as nat) =~= old(s)@);
    }
}

/// Appends the FEN text of rank `y` of `pos`.
fn push_rank(s: &mut String, pos: &Position, y: u8)
    requires
        y < 8,
        pos.pieces_coloured(),
    ensures
        final(s)@ == old(s)@ + rank_text(*pos, y as int, 0, 0),
{
    let mut run: u64 = 0;
    let mut x: u8 = 0;
    while x < 8
        invariant
            x <= 8,
            y < 8,
            run <= x,
            pos.pieces_coloured(),
            s@ + rank_text(*pos, y as int, x as int, run as nat) == old(s)@ + rank_text(
                *pos,
                y as int,
                0,
                0,
            ),
        decreases 8 - x,
    {
        let sq = Square::from_coords(x, y);
        match pos.get_piece_on(sq) {
            Some(p) => {
                let white = match pos.get_colour_on(sq) {
                    Some(c) => c == Colour::White,
                    None => false,
                };
                push_run(s, run);
                s.append(letter_str(p, white));
                run = 0;
            },
            None => {
                run = run + 1;
            },
        }
        x = x + 1;
    }
    push_run(s, run);
}

/// Seeing a position from the other side keeps every piece coloured.
proof fn lemma_flip_keeps_coloured(pos: Position)
    requires
        pos.pieces_coloured(),
    ensures
        pos.spec_flip().pieces_coloured(),
{
    let f = pos.spec_flip();
    assert forall|s: int| 0 <= s < 64 implies (#[trigger] f.piece_on(s) is Some) == (f.colour_on(
        s,
    ) is Some) by {
        let u = s as u64;
        assert(u < 64 ==> u ^ 56u64 < 64) by (bit_vector);
        let t = (u ^ 56u64) as int;
        crate::chess::bitboard::lemma_bit_shifts(pos.pieces[0].0, u);
        crate::chess::bitboard::lemma_bit_shifts(pos.pieces[1].0, u);
        crate::chess::bitboard::lemma_bit_shifts(pos.pieces[2].0, u);
        crate::chess::bitboard::lemma_bit_shifts(pos.pieces[3].0, u);
        crate::chess::bitboard::lemma_bit_shifts(pos.pieces[4].0, u);
        crate::chess::bitboard::lemma_bit_shifts(pos.pieces[5].0, u);
        crate::chess::bitboard::lemma_bit_shifts(pos.colours[0].0, u);
        crate::chess::bitboard::lemma_bit_shifts(pos.colours[1].0, u);
        assert((pos.piece_on(t) is Some) == (pos.colour_on(t) is Some));
    }
}

/// Appends the FEN text of the board of `pos` from rank `y` down.
fn push_rows(s: &mut String, pos: &Position, y: u8)
    requires
        y < 8,
        pos.pieces_coloured(),
    ensures
        final(s)@ == old(s)@ + board_text(*pos, y as int),
    decreases y,
{
    push_rank(s, pos, y);
    if y > 0 {
        proof { reveal_strlit("/"); }
        s.append("/");
        push_rows(s, pos, y - 1);
        assert(final(s)@ =~= old(s)@ + board_text(*pos, y as int)) by {
            assert(board_text(*pos, y as int) == rank_text(*pos, y as int, 0, 0) + seq!['/']
                + board_text(*pos, y - 1));
        }
    }
}

fn push_castling(fen: &mut String, npos: &Position)
    ensures
        final(fen)@ == old(fen)@ + castling_text(*npos),
{
    if !npos.us_ksc && !npos.us_qsc && !npos.them_ksc && !npos.them_qsc {
        proof { reveal_strlit(" -"); }
        fen.append(" -");
    } else {
        proof {
            reveal_strlit(" ");
            reveal_strlit("K");
            reveal_strlit("Q");
            reveal_strlit("k");
            reveal_strlit("q");
        }
        fen.append(" ");
        if npos.us_ksc {
            fen.append("K");
        }
        if npos.us_qsc {
            fen.append("Q");
        }
        if npos.them_ksc {
            fen.append("k");
        }
        if npos.them_qsc {
            fen.append("q");
        }
        assert(fen@ =~= old(fen)@ + castling_text(*npos));
    }
}

fn push_ep(fen: &mut String, npos: &Position)
    requires
        npos.ep matches Some(e) ==> e.valid(),
    ensures
        final(fen)@ == old(fen)@ + ep_text(*npos),
{
    match npos.ep {
        Some(sq) => {
            proof { reveal_strlit(" "); }
            fen.append(" ");
            let name = sq.name();
            fen.append(name.as_str());
            assert(fen@ =~= old(fen)@ + ep_text(*npos));
        },
        None => {
            proof { reveal_strlit(" -"); }
            fen.append(" -");
        },
    }
}

impl Position {
    /// The FEN string of the position.
    pub fn get_fen(&self) -> (r: String)
        requires
            self.pieces_coloured(),
            self.ep matches Some(e) ==> e.valid(),
        ensures
            r@ == self.spec_get_fen(),
    {
        let npos = if self.turn == Colour::White {
            *self
        } else {
            let mut npos = *self;
            npos.flip();
            npos
        };
        proof {
            if self.turn != Colour::White {
                lemma_flip_keeps_coloured(*self);
            }
        }
        let mut fen = String::new();
        // Board
        push_rows(&mut fen, &npos, 7);
        // Side to move
        match self.turn {
            Colour::White => {
                proof { reveal_strlit(" w"); }
                fen.append(" w");
            },
            Colour::Black => {
                proof { reveal_strlit(" b"); }
                fen.append(" b");
            },
        }
        push_castling(&mut fen, &npos);
        proof {
            if self.turn != Colour::White {
                crate::chess::square::lemma_flip_square(self.ep.unwrap().0);
            }
        }
        push_ep(&mut fen, &npos);
        // Halfmove counter
        proof { reveal_strlit(" "); }
        fen.append(" ");
        push_int(&mut fen, npos.halfmoves as i64);
        // Fullmove counter
        fen.append(" ");
        push_int(&mut fen, npos.fullmoves as i64);
        assert(fen@ =~= self.spec_get_fen());
        fen
    }
}

} // verus!

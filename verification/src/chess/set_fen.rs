use crate::chess::fen::{
    board_from, castle_from, fen_blank, field_ranges, ranges_view, read_board, read_castling,
    read_ep, read_side, spec_parse_ep, spec_parse_i32, spec_parse_side, split_fields, parse_i32,
    lemma_split_fields_len,
};
use crate::chess::fen_error::FenError;
use crate::chess::position::Position;
use vstd::prelude::*;
use vstd::string::StringSliceAdditionalSpecFns;

verus! {

/// The position read, seen from the side to move, with its hash, if it passes the position
/// checks.
pub open spec fn spec_finish_fen(pos: Position, black: bool) -> Result<Position, FenError> {
    let p = if black {
        pos.spec_flip()
    } else {
        pos
    };
    let p = Position { hash: p.spec_calculate_hash(), ..p };
    match p.spec_validate() {
        Ok(_) => Ok(p),
        Err(e) => Err(FenError::Invalid(e)),
    }
}

/// Reads the parts of a FEN string from the en passant square on, onto `pos`.
pub open spec fn spec_read_rest(pos: Position, f: Seq<Seq<u8>>, black: bool) -> Result<Position, FenError> {
    if f.len() < 4 {
        Err(FenError::EpMissing)
    } else {
        match spec_parse_ep(f[3]) {
            Err(e) => Err(e),
            Ok(ep) => {
                if f.len() < 5 {
                    Err(FenError::HalfmoveMissing)
                } else {
                    match spec_parse_i32(f[4]) {
                        None => Err(FenError::HalfmoveParse),
                        Some(h) => {
                            if h < 0 {
                                Err(FenError::HalfmoveRange)
                            } else if f.len() < 6 {
                                Err(FenError::FullmoveMissing)
                            } else {
                                match spec_parse_i32(f[5]) {
                                    None => Err(FenError::FullmoveParse),
                                    Some(m) => {
                                        if m < 0 {
                                            Err(FenError::FullmoveRange)
                                        } else if f.len() > 6 {
                                            Err(FenError::ExtraParts)
                                        } else {
                                            spec_finish_fen(
                                                Position { ep, halfmoves: h, fullmoves: m, ..pos },
                                                black,
                                            )
                                        }
                                    },
                                }
                            }
                        },
                    }
                }
            },
        }
    }
}

/// Reads the space separated parts of a FEN string: the board, the side to move, the castling
/// rights, the en passant square, the halfmove and the fullmove counters, in that order.
#[verifier::opaque]
pub open spec fn spec_read_fen(f: Seq<Seq<u8>>, is_frc: bool) -> Result<Position, FenError> {
    match board_from(fen_blank(is_frc), f[0], 0, 0) {
        Err(e) => Err(e),
        Ok(board) => {
            if f.len() < 2 {
                Err(FenError::SideMissing)
            } else {
                match spec_parse_side(f[1]) {
                    None => Err(FenError::SideIllegal),
                    Some(black) => {
                        if board.us() & board.pc(5) == 0 {
                            Err(FenError::WhiteKingMissing)
                        } else if board.them() & board.pc(5) == 0 {
                            Err(FenError::BlackKingMissing)
                        } else {
                            match (if f.len() >= 3 {
                                castle_from(board, f[2], 0)
                            } else {
                                Ok(board)
                            }) {
                                Err(e) => Err(e),
                                Ok(castled) => spec_read_rest(castled, f, black),
                            }
                        }
                    },
                }
            }
        },
    }
}

/// The word `startpos`, which stands for the starting position.
pub open spec fn startpos_word() -> Seq<u8> {
    seq![
        ('s' as u8),
        ('t' as u8),
        ('a' as u8),
        ('r' as u8),
        ('t' as u8),
        ('p' as u8),
        ('o' as u8),
        ('s' as u8),
    ]
}

/// What reading the FEN string with bytes `s` gives: the word `startpos` gives the starting
/// position, anything else is read part by part.
pub open spec fn spec_parse_fen(s: Seq<u8>, is_frc: bool) -> Result<Position, FenError> {
    if s == startpos_word() {
        Ok(Position { is_frc, ..Position::spec_startpos() })
    } else {
        spec_read_fen(split_fields(s), is_frc)
    }
}

/// Checks a position read from a FEN string, after turning it to the side to move and giving
/// it its hash.
fn finish_fen(pos: Position, black: bool) -> (r: Result<Position, FenError>)
    requires
        pos.ep matches Some(e) ==> e.valid(),
        forall|k: int| 0 <= k < 4 ==> #[trigger] pos.castle_files[k] < 8,
    ensures
        r == spec_finish_fen(pos, black),
{
    let mut p = pos;
    if black {
        p.flip();
        proof {
            if let Some(e) = pos.ep {
                crate::chess::square::lemma_flip_square(e.0);
            }
        }
    }
    p.hash = p.calculate_hash();
    match p.validate() {
        Ok(()) => Ok(p),
        Err(e) => Err(FenError::Invalid(e)),
    }
}

/// Reads the parts of a FEN string from the en passant square on, onto `pos`; the parts of `s`
/// are those given by `r`.
fn read_rest(pos: Position, s: &[u8], r: &Vec<(usize, usize)>, black: bool) -> (res: Result<Position, FenError>)
    requires
        forall|k: int| 0 <= k < r.len() ==> (#[trigger] r[k]).0 <= r[k].1 <= s.len(),
        forall|k: int| 0 <= k < 4 ==> #[trigger] pos.castle_files[k] < 8,
    ensures
        res == spec_read_rest(pos, ranges_view(s@, r@), black),
{
    let ghost f = ranges_view(s@, r@);
    if r.len() < 4 {
        return Err(FenError::EpMissing);
    }
    assert(f[3] == s@.subrange(r[3].0 as int, r[3].1 as int));
    let ep = match read_ep(s, r[3].0, r[3].1) {
        Ok(ep) => ep,
        Err(e) => {
            return Err(e);
        },
    };
    if r.len() < 5 {
        return Err(FenError::HalfmoveMissing);
    }
    assert(f[4] == s@.subrange(r[4].0 as int, r[4].1 as int));
    let halfmoves = match parse_i32(s, r[4].0, r[4].1) {
        Some(v) => v,
        None => {
            return Err(FenError::HalfmoveParse);
        },
    };
    if halfmoves < 0 {
        return Err(FenError::HalfmoveRange);
    }
    if r.len() < 6 {
        return Err(FenError::FullmoveMissing);
    }
    assert(f[5] == s@.subrange(r[5].0 as int, r[5].1 as int));
    let fullmoves = match parse_i32(s, r[5].0, r[5].1) {
        Some(v) => v,
        None => {
            return Err(FenError::FullmoveParse);
        },
    };
    if fullmoves < 0 {
        return Err(FenError::FullmoveRange);
    }
    if r.len() > 6 {
        return Err(FenError::ExtraParts);
    }
    finish_fen(Position { ep, halfmoves, fullmoves, ..pos }, black)
}

/// Reads the FEN string whose bytes are `s`, when it is not the word `startpos`.
fn read_fen(s: &[u8], is_frc: bool) -> (res: Result<Position, FenError>)
    ensures
        res == spec_read_fen(split_fields(s@), is_frc),
{
    reveal(spec_read_fen);
    let r = field_ranges(s);
    let ghost f = split_fields(s@);
    proof {
        lemma_split_fields_len(s@);
    }
    assert(f[0] == s@.subrange(r[0].0 as int, r[0].1 as int));
    let board = match read_board(s, r[0].0, r[0].1, is_frc) {
        Ok(b) => b,
        Err(e) => {
            return Err(e);
        },
    };
    if r.len() < 2 {
        return Err(FenError::SideMissing);
    }
    assert(f[1] == s@.subrange(r[1].0 as int, r[1].1 as int));
    let black = match read_side(s, r[1].0, r[1].1) {
        Some(b) => b,
        None => {
            return Err(FenError::SideIllegal);
        },
    };
    if (board.get_us() & board.get_kings()).is_empty() {
        proof {
            crate::chess::zobrist::lemma_and_comm(board.us(), board.pc(5));
        }
        return Err(FenError::WhiteKingMissing);
    }
    if (board.get_them() & board.get_kings()).is_empty() {
        proof {
            crate::chess::zobrist::lemma_and_comm(board.them(), board.pc(5));
        }
        return Err(FenError::BlackKingMissing);
    }
    proof {
        crate::chess::zobrist::lemma_and_comm(board.us(), board.pc(5));
        crate::chess::zobrist::lemma_and_comm(board.them(), board.pc(5));
        assert(board.castle_files@ == seq![7u8, 0, 7, 0]);
    }
    let castled = if r.len() >= 3 {
        assert(f[2] == s@.subrange(r[2].0 as int, r[2].1 as int));
        match read_castling(board, s, r[2].0, r[2].1) {
            Ok(p) => p,
            Err(e) => {
                return Err(e);
            },
        }
    } else {
        board
    };
    read_rest(castled, s, &r, black)
}

impl Position {
    /// Reads a FEN string, or the word `startpos`, onto a board whose variant (standard or
    /// Fischer random chess) is `is_frc`, and says why it was refused if it was.
    pub fn parse_fen(fen: &str, is_frc: bool) -> (r: Result<Position, FenError>)
        ensures
            r == spec_parse_fen(fen.spec_bytes(), is_frc),
    {
        let s = fen.as_bytes();
        if s.len() == 8 && s[0] == ('s' as u8) && s[1] == ('t' as u8) && s[2] == ('a' as u8) && s[3]
            == ('r' as u8) && s[4] == ('t' as u8) && s[5] == ('p' as u8) && s[6] == ('o' as u8)
            && s[7] == ('s' as u8) {
            assert(s@ =~= startpos_word());
            let mut pos = Position::startpos();
            pos.is_frc = is_frc;
            return Ok(pos);
        }
        assert(s@ != startpos_word()) by {
            if s@ == startpos_word() {
                assert(s@[0] == ('s' as u8) && s@[7] == ('s' as u8));
            }
        }
        read_fen(s, is_frc)
    }

    /// Sets the position from a FEN string, or from the word `startpos`, keeping the variant.
    pub fn set_fen(&mut self, fen: &str)
        requires
            spec_parse_fen(fen.spec_bytes(), old(self).is_frc) is Ok,
        ensures
            *final(self) == spec_parse_fen(fen.spec_bytes(), old(self).is_frc)->Ok_0,
    {
        match Position::parse_fen(fen, self.is_frc) {
            Ok(pos) => {
                *self = pos;
            },
            Err(_) => {},
        }
    }

    /// The position of a FEN string, or of the word `startpos`, in standard chess.
    pub fn from_fen(fen: &str) -> (r: Position)
        requires
            spec_parse_fen(fen.spec_bytes(), false) is Ok,
        ensures
            r == spec_parse_fen(fen.spec_bytes(), false)->Ok_0,
    {
        let mut pos = Position::default();
        pos.set_fen(fen);
        pos
    }
}

} // verus!

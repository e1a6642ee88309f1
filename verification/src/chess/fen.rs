use crate::chess::bitboard::Bitboard;
use crate::chess::fen_error::FenError;
use crate::chess::colour::Colour;
use crate::chess::makemove::{toggle, xor_piece};
use crate::chess::position::Position;
use crate::chess::square::Square;
use vstd::prelude::*;
use vstd::std_specs::bits::{u64_leading_zeros, u64_trailing_zeros};

verus! {

/// The parts of `s` between the spaces, as `str::split(' ')` gives them: two spaces in a row
/// give an empty part, and there is always at least one part.
pub open spec fn split_fields(s: Seq<u8>) -> Seq<Seq<u8>>
    decreases s.len(),
{
    if s.len() == 0 {
        seq![Seq::empty()]
    } else {
        let f = split_fields(s.drop_last());
        if s.last() == 32u8 {
            f.push(Seq::empty())
        } else {
            f.update(f.len() - 1, f.last().push(s.last()))
        }
    }
}

pub proof fn lemma_split_fields_len(s: Seq<u8>)
    ensures
        split_fields(s).len() >= 1,
    decreases s.len(),
{
    if s.len() > 0 {
        lemma_split_fields_len(s.drop_last());
    }
}

/// The parts of `s` given by the ranges `r`.
pub open spec fn ranges_view(s: Seq<u8>, r: Seq<(usize, usize)>) -> Seq<Seq<u8>> {
    r.map_values(|p: (usize, usize)| s.subrange(p.0 as int, p.1 as int))
}

/// The start and end of each part of `s` between the spaces.
pub fn field_ranges(s: &[u8]) -> (r: Vec<(usize, usize)>)
    ensures
        ranges_view(s@, r@) == split_fields(s@),
        forall|k: int| 0 <= k < r.len() ==> (#[trigger] r[k]).0 <= r[k].1 <= s.len(),
{
    let mut done: Vec<(usize, usize)> = Vec::new();
    let mut start: usize = 0;
    let mut i: usize = 0;
    assert(s@.take(0) =~= Seq::<u8>::empty());
    assert(s@.subrange(0, 0) =~= Seq::<u8>::empty());
    assert(ranges_view(s@, done@) =~= Seq::<Seq<u8>>::empty());
    while i < s.len()
        invariant
            start <= i <= s.len(),
            forall|k: int| 0 <= k < done.len() ==> (#[trigger] done[k]).0 <= done[k].1 <= s.len(),
            split_fields(s@.take(i as int)) == ranges_view(s@, done@).push(
                s@.subrange(start as int, i as int),
            ),
        decreases s.len() - i,
    {
        let ghost before = ranges_view(s@, done@).push(s@.subrange(start as int, i as int));
        assert(s@.take(i + 1).drop_last() =~= s@.take(i as int));
        assert(s@.take(i + 1).last() == s@[i as int]);
        if s[i] == 32u8 {
            done.push((start, i));
            start = i + 1;
            assert(ranges_view(s@, done@) =~= ranges_view(s@, done@.drop_last()).push(
                s@.subrange(done@.last().0 as int, i as int),
            ));
            assert(s@.subrange(start as int, i + 1) =~= Seq::<u8>::empty());
        } else {
            assert(s@.subrange(start as int, i + 1) =~= s@.subrange(start as int, i as int).push(
                s@[i as int],
            ));
            assert(before.update(before.len() - 1, before.last().push(s@[i as int])) =~= ranges_view(
                s@,
                done@,
            ).push(s@.subrange(start as int, i + 1)));
        }
        i = i + 1;
    }
    let ghost old_done = done@;
    done.push((start, i));
    assert forall|k: int| 0 <= k < done.len() implies (#[trigger] done[k]).0 <= done[k].1 <= s.len() by {
        if k < old_done.len() {
            assert(done[k] == old_done[k]);
        }
    }
    assert(s@.take(i as int) =~= s@);
    assert(ranges_view(s@, done@) =~= ranges_view(s@, done@.drop_last()).push(
        s@.subrange(start as int, i as int),
    ));
    done
}

/// The byte is an ASCII digit.
pub open spec fn is_digit(c: u8) -> bool {
    48 <= c <= 57
}

/// The number written in decimal by the digits of `s`.
pub open spec fn decimal(s: Seq<u8>) -> int
    decreases s.len(),
{
    if s.len() == 0 {
        0
    } else {
        decimal(s.drop_last()) * 10 + (s.last() - 48)
    }
}

/// The digits of `s` after an optional leading `+` or `-`.
pub open spec fn unsigned_part(s: Seq<u8>) -> Seq<u8> {
    if s.len() > 0 && (s[0] == 43u8 || s[0] == 45u8) {
        s.drop_first()
    } else {
        s
    }
}

/// `s` read as an `i32` the way `str::parse::<i32>` reads it: an optional `+` or `-`, then one
/// or more decimal digits, and a value in range.
pub open spec fn spec_parse_i32(s: Seq<u8>) -> Option<i32> {
    let d = unsigned_part(s);
    let v = if s.len() > 0 && s[0] == 45u8 {
        -decimal(d)
    } else {
        decimal(d)
    };
    if d.len() == 0 || !(forall|k: int| 0 <= k < d.len() ==> #[trigger] is_digit(d[k])) {
        None
    } else if i32::MIN <= v <= i32::MAX {
        Some(v as i32)
    } else {
        None
    }
}

proof fn lemma_decimal_nonneg(s: Seq<u8>)
    requires
        forall|k: int| 0 <= k < s.len() ==> #[trigger] is_digit(s[k]),
    ensures
        decimal(s) >= 0,
    decreases s.len(),
{
    if s.len() > 0 {
        assert forall|k: int| 0 <= k < s.drop_last().len() implies #[trigger] is_digit(s.drop_last()[k]) by {
            assert(is_digit(s[k]));
        }
        lemma_decimal_nonneg(s.drop_last());
        assert(is_digit(s[s.len() - 1]));
    }
}

proof fn lemma_decimal_mono(s: Seq<u8>, i: int, j: int)
    requires
        0 <= i <= j <= s.len(),
        forall|k: int| 0 <= k < s.len() ==> #[trigger] is_digit(s[k]),
    ensures
        0 <= decimal(s.take(i)) <= decimal(s.take(j)),
    decreases j - i,
{
    assert forall|n: int, k: int| 0 <= n <= s.len() && 0 <= k < n implies #[trigger] is_digit(s.take(n)[k]) by {
        assert(is_digit(s[k]));
    }
    if i < j {
        lemma_decimal_mono(s, i, j - 1);
        assert(s.take(j).drop_last() =~= s.take(j - 1));
        lemma_decimal_nonneg(s.take(j - 1));
        assert(is_digit(s.take(j).last()));
    } else {
        lemma_decimal_nonneg(s.take(i));
    }
}

/// Reads the bytes `lo..hi` of `s` as an `i32`.
pub fn parse_i32(s: &[u8], lo: usize, hi: usize) -> (r: Option<i32>)
    requires
        lo <= hi <= s.len(),
    ensures
        r == spec_parse_i32(s@.subrange(lo as int, hi as int)),
{
    let ghost t = s@.subrange(lo as int, hi as int);
    let neg = hi > lo && s[lo] == 45u8;
    let start = if hi > lo && (s[lo] == 43u8 || s[lo] == 45u8) {
        lo + 1
    } else {
        lo
    };
    let ghost d = unsigned_part(t);
    assert(d =~= s@.subrange(start as int, hi as int));
    if start == hi {
        return None;
    }
    let mut acc: i64 = 0;
    let mut i: usize = start;
    while i < hi
        invariant
            lo <= start <= i <= hi <= s.len(),
            d == s@.subrange(start as int, hi as int),
            d == unsigned_part(t),
            t == s@.subrange(lo as int, hi as int),
            neg == (hi > lo && s[lo as int] == 45u8),
            forall|k: int| 0 <= k < i - start ==> #[trigger] is_digit(d[k]),
            acc == decimal(d.take(i - start)),
            0 <= acc <= 0x80000000,
        decreases hi - i,
    {
        let c = s[i];
        if c < 48 || c > 57 {
            assert(!is_digit(d[i - start]));
            return None;
        }
        assert(d.take(i - start + 1).drop_last() =~= d.take(i - start));
        acc = acc * 10 + (c - 48) as i64;
        i = i + 1;
        if acc > 0x80000000 {
            proof {
                if forall|k: int| 0 <= k < d.len() ==> #[trigger] is_digit(d[k]) {
                    lemma_decimal_mono(d, i - start, d.len() as int);
                    assert(d.take(d.len() as int) =~= d);
                }
            }
            return None;
        }
    }
    assert(d.take(i - start) =~= d);
    if neg {
        Some((-acc) as i32)
    } else if acc <= 0x7fffffff {
        Some(acc as i32)
    } else {
        None
    }
}

/// The digits of `s` after an optional leading `+`.
pub open spec fn unsigned_digits(s: Seq<u8>) -> Seq<u8> {
    if s.len() > 0 && s[0] == 43u8 {
        s.drop_first()
    } else {
        s
    }
}

/// `s` read as an unsigned number no larger than `max`, the way `str::parse` reads unsigned
/// integers: an optional `+`, then one or more decimal digits.
pub open spec fn spec_parse_uint(s: Seq<u8>, max: int) -> Option<int> {
    let d = unsigned_digits(s);
    if d.len() == 0 || !(forall|k: int| 0 <= k < d.len() ==> #[trigger] is_digit(d[k])) {
        None
    } else if decimal(d) <= max {
        Some(decimal(d))
    } else {
        None
    }
}

/// Reads the bytes of `s` as an unsigned number no larger than `max`.
pub fn parse_uint(s: &[u8], max: u64) -> (r: Option<u64>)
    ensures
        r matches Some(v) ==> spec_parse_uint(s@, max as int) == Some(v as int),
        r is None ==> spec_parse_uint(s@, max as int) is None,
{
    let hi = s.len();
    let start: usize = if hi > 0 && s[0] == 43u8 {
        1
    } else {
        0
    };
    let ghost d = unsigned_digits(s@);
    assert(d =~= s@.subrange(start as int, hi as int));
    if start == hi {
        return None;
    }
    let mut acc: u64 = 0;
    let mut i: usize = start;
    while i < hi
        invariant
            start <= i <= hi == s.len(),
            d == s@.subrange(start as int, hi as int),
            d == unsigned_digits(s@),
            forall|k: int| 0 <= k < i - start ==> #[trigger] is_digit(d[k]),
            acc == decimal(d.take(i - start)),
            acc <= max,
        decreases hi - i,
    {
        let c = s[i];
        if c < 48 || c > 57 {
            assert(!is_digit(d[i - start]));
            return None;
        }
        assert(d.take(i - start + 1).drop_last() =~= d.take(i - start));
        let digit = (c - 48) as u64;
        if digit > max || acc > (max - digit) / 10 {
            proof {
                assert(acc * 10 + digit > max) by (nonlinear_arith)
                    requires
                        digit > max || acc > (max - digit) / 10,
                        digit <= 9,
                ;
                if forall|k: int| 0 <= k < d.len() ==> #[trigger] is_digit(d[k]) {
                    lemma_decimal_mono(d, i - start + 1, d.len() as int);
                    assert(d.take(d.len() as int) =~= d);
                }
            }
            return None;
        }
        assert(acc * 10 + digit <= max) by (nonlinear_arith)
            requires
                digit <= max,
                acc <= (max - digit) / 10,
        ;
        acc = acc * 10 + digit;
        i = i + 1;
    }
    assert(d.take(i - start) =~= d);
    Some(acc)
}

/// The colour (0 for white, 1 for black) and the kind of the piece a FEN board letter stands for.
pub open spec fn fen_piece(c: u8) -> Option<(int, int)> {
    if c == ('P' as u8) {
        Some((0, 0))
    } else if c == ('N' as u8) {
        Some((0, 1))
    } else if c == ('B' as u8) {
        Some((0, 2))
    } else if c == ('R' as u8) {
        Some((0, 3))
    } else if c == ('Q' as u8) {
        Some((0, 4))
    } else if c == ('K' as u8) {
        Some((0, 5))
    } else if c == ('p' as u8) {
        Some((1, 0))
    } else if c == ('n' as u8) {
        Some((1, 1))
    } else if c == ('b' as u8) {
        Some((1, 2))
    } else if c == ('r' as u8) {
        Some((1, 3))
    } else if c == ('q' as u8) {
        Some((1, 4))
    } else if c == ('k' as u8) {
        Some((1, 5))
    } else {
        None
    }
}

/// The square of the `idx`-th square a FEN board names: ranks from the eighth down, each from
/// the a-file to the h-file.
pub open spec fn fen_square(idx: int) -> int {
    8 * (7 - idx / 8) + idx % 8
}

/// The board a FEN string is read onto: empty, white to move, no castling rights, no en passant
/// square, the counters at 0 and 1.
pub open spec fn fen_blank(is_frc: bool) -> Position {
    Position {
        colours: [Bitboard(0), Bitboard(0)],
        pieces: [Bitboard(0), Bitboard(0), Bitboard(0), Bitboard(0), Bitboard(0), Bitboard(0)],
        halfmoves: 0,
        fullmoves: 1,
        turn: Colour::White,
        ep: None,
        us_ksc: false,
        us_qsc: false,
        them_ksc: false,
        them_qsc: false,
        castle_files: [7, 0, 7, 0],
        hash: 0,
        is_frc,
    }
}

/// `pos` with a piece of colour `col` (0 for white) and kind `k` toggled on the squares of `bb`.
pub open spec fn with_piece(pos: Position, col: int, k: int, bb: u64) -> Position {
    Position {
        colours: [
            Bitboard(if col == 0 { pos.us() ^ bb } else { pos.us() }),
            Bitboard(if col == 1 { pos.them() ^ bb } else { pos.them() }),
        ],
        pieces: xor_piece(pos.pieces, k, bb),
        ..pos
    }
}

/// Reads the board part `b` of a FEN string from byte `i` on, `idx` squares having been named so
/// far: a letter puts a piece on the next square, a digit skips that many squares, `/` is passed
/// over, and at the end exactly 64 squares must have been named.
pub open spec fn board_from(pos: Position, b: Seq<u8>, i: int, idx: int) -> Result<Position, FenError>
    decreases b.len() - i,
{
    if i >= b.len() {
        if idx == 64 {
            Ok(pos)
        } else {
            Err(FenError::PieceCount)
        }
    } else {
        let c = b[i];
        match fen_piece(c) {
            Some((col, k)) => {
                if idx >= 64 {
                    Err(FenError::PieceCount)
                } else {
                    board_from(
                        with_piece(pos, col, k, 1u64 << (fen_square(idx) as u64)),
                        b,
                        i + 1,
                        idx + 1,
                    )
                }
            },
            None => {
                if ('1' as u8) <= c <= ('8' as u8) {
                    board_from(pos, b, i + 1, idx + (c - ('0' as u8)))
                } else if c == ('/' as u8) {
                    board_from(pos, b, i + 1, idx)
                } else {
                    Err(FenError::UnrecognisedPiece)
                }
            },
        }
    }
}

/// Past the 64th square the count of squares named no longer matters: the board is refused.
proof fn lemma_board_saturates(pos: Position, b: Seq<u8>, i: int, idx: int)
    requires
        idx >= 65,
    ensures
        board_from(pos, b, i, idx) == board_from(pos, b, i, 65),
    decreases b.len() - i,
{
    if i < b.len() {
        let c = b[i];
        if fen_piece(c).is_none() && ('1' as u8) <= c <= ('8' as u8) {
            lemma_board_saturates(pos, b, i + 1, idx + (c - ('0' as u8)));
            lemma_board_saturates(pos, b, i + 1, 65 + (c - ('0' as u8)));
        } else if fen_piece(c).is_none() && c == ('/' as u8) {
            lemma_board_saturates(pos, b, i + 1, idx);
        }
    }
}

fn fen_piece_of(c: u8) -> (r: Option<(usize, usize)>)
    ensures
        match r {
            Some((col, k)) => col < 2 && k < 6 && fen_piece(c) == Some((col as int, k as int)),
            None => fen_piece(c).is_none(),
        },
{
    if c == ('P' as u8) {
        Some((0, 0))
    } else if c == ('N' as u8) {
        Some((0, 1))
    } else if c == ('B' as u8) {
        Some((0, 2))
    } else if c == ('R' as u8) {
        Some((0, 3))
    } else if c == ('Q' as u8) {
        Some((0, 4))
    } else if c == ('K' as u8) {
        Some((0, 5))
    } else if c == ('p' as u8) {
        Some((1, 0))
    } else if c == ('n' as u8) {
        Some((1, 1))
    } else if c == ('b' as u8) {
        Some((1, 2))
    } else if c == ('r' as u8) {
        Some((1, 3))
    } else if c == ('q' as u8) {
        Some((1, 4))
    } else if c == ('k' as u8) {
        Some((1, 5))
    } else {
        None
    }
}

fn place_piece(pos: &mut Position, col: usize, k: usize, bb: Bitboard)
    requires
        col < 2,
        k < 6,
    ensures
        *final(pos) == with_piece(*old(pos), col as int, k as int, bb.0),
{
    if col == 0 {
        pos.colours = [pos.colours[0] ^ bb, pos.colours[1]];
    } else {
        pos.colours = [pos.colours[0], pos.colours[1] ^ bb];
    }
    toggle(&mut pos.pieces, k, bb);
    assert(pos.colours =~= with_piece(*old(pos), col as int, k as int, bb.0).colours);
}

/// Reads the board part of a FEN string, the bytes `lo..hi` of `s`.
pub fn read_board(s: &[u8], lo: usize, hi: usize, is_frc: bool) -> (r: Result<Position, FenError>)
    requires
        lo <= hi <= s.len(),
    ensures
        r == board_from(fen_blank(is_frc), s@.subrange(lo as int, hi as int), 0, 0),
        r matches Ok(p) ==> p == (Position { colours: p.colours, pieces: p.pieces, ..fen_blank(is_frc) }),
{
    let ghost b = s@.subrange(lo as int, hi as int);
    let mut pos = Position {
        colours: [Bitboard(0x0), Bitboard(0x0)],
        pieces: [
            Bitboard(0x0),
            Bitboard(0x0),
            Bitboard(0x0),
            Bitboard(0x0),
            Bitboard(0x0),
            Bitboard(0x0),
        ],
        halfmoves: 0,
        fullmoves: 1,
        turn: Colour::White,
        ep: None,
        us_ksc: false,
        us_qsc: false,
        them_ksc: false,
        them_qsc: false,
        castle_files: [7, 0, 7, 0],
        hash: 0u64,
        is_frc: is_frc,
    };
    assert(pos == fen_blank(is_frc));
    let mut idx: u8 = 0;
    let mut i: usize = lo;
    while i < hi
        invariant
            lo <= i <= hi <= s.len(),
            b == s@.subrange(lo as int, hi as int),
            idx <= 65,
            board_from(pos, b, i - lo, idx as int) == board_from(fen_blank(is_frc), b, 0, 0),
            pos == (Position { colours: pos.colours, pieces: pos.pieces, ..fen_blank(is_frc) }),
        decreases hi - i,
    {
        let c = s[i];
        assert(b[i - lo] == c);
        match fen_piece_of(c) {
            Some((col, k)) => {
                if idx >= 64 {
                    return Err(FenError::PieceCount);
                }
                let sq: u8 = 8 * (7 - idx / 8) + idx % 8;
                let bb = Bitboard::from_index(sq);
                assert(sq as int == fen_square(idx as int));
                place_piece(&mut pos, col, k, bb);
                idx = idx + 1;
            },
            None => {
                if c >= ('1' as u8) && c <= ('8' as u8) {
                    let n: u8 = idx + (c - ('0' as u8));
                    if n > 65 {
                        proof {
                            lemma_board_saturates(pos, b, i - lo + 1, n as int);
                        }
                        idx = 65;
                    } else {
                        idx = n;
                    }
                } else if c != ('/' as u8) {
                    return Err(FenError::UnrecognisedPiece);
                }
            },
        }
        i = i + 1;
    }
    if idx == 64 {
        Ok(pos)
    } else {
        Err(FenError::PieceCount)
    }
}

/// The squares east of `sq` on its rank.
pub open spec fn east_of(sq: u8) -> u64 {
    ((0xfeu64 << (sq % 8)) & 0xffu64) << (8 * (sq / 8))
}

/// The squares west of `sq` on its rank.
pub open spec fn west_of(sq: u8) -> u64 {
    (0x7fu64 >> ((7 - sq % 8) as u64)) << (8 * (sq / 8))
}

/// The highest square of a non-empty set.
pub open spec fn highest(x: u64) -> int {
    63 - u64_leading_zeros(x)
}

/// The lowest square of a non-empty set.
pub open spec fn lowest(x: u64) -> int {
    u64_trailing_zeros(x) as int
}

/// `cf` with the file at `i` set to `v`.
pub open spec fn set_file(cf: [u8; 4], i: int, v: int) -> [u8; 4] {
    [
        if i == 0 { v as u8 } else { cf[0] },
        if i == 1 { v as u8 } else { cf[1] },
        if i == 2 { v as u8 } else { cf[2] },
        if i == 3 { v as u8 } else { cf[3] },
    ]
}

/// `pos` with the castling right at `i` (0 and 1 for white's king and queen side, 2 and 3 for
/// black's) granted with the rook on file `f`.
pub open spec fn grant(pos: Position, i: int, f: int) -> Position {
    Position {
        us_ksc: pos.us_ksc || i == 0,
        us_qsc: pos.us_qsc || i == 1,
        them_ksc: pos.them_ksc || i == 2,
        them_qsc: pos.them_qsc || i == 3,
        castle_files: set_file(pos.castle_files, i, f),
        ..pos
    }
}

/// Reads one castling right, white to move: `K` and `Q` take the outermost white rook on the
/// first rank east and west of the white king, `k` and `q` the same for black on the eighth
/// rank, and a file letter names the rook's file, upper case for white, lower case for black,
/// the side being that of the king the file lies beyond.
pub open spec fn castle_step(pos: Position, c: u8) -> Result<Position, FenError> {
    let white = pos.us();
    let black = pos.them();
    let wk = u64_trailing_zeros(white & pos.pc(5)) as u8;
    let bk = u64_trailing_zeros(black & pos.pc(5)) as u8;
    if c == ('K' as u8) {
        let r = (white & pos.pc(3)) & (0xFFu64 & east_of(wk));
        if r != 0 {
            Ok(grant(pos, 0, highest(r) % 8))
        } else {
            Err(FenError::WhiteKingSideRookMissing)
        }
    } else if c == ('Q' as u8) {
        let r = (white & pos.pc(3)) & (0xFFu64 & west_of(wk));
        if r != 0 {
            Ok(grant(pos, 1, lowest(r) % 8))
        } else {
            Err(FenError::WhiteQueenSideRookMissing)
        }
    } else if c == ('k' as u8) {
        let r = (black & pos.pc(3)) & (0xFF00000000000000u64 & east_of(bk));
        if r != 0 {
            Ok(grant(pos, 2, highest(r) % 8))
        } else {
            Err(FenError::BlackKingSideRookMissing)
        }
    } else if c == ('q' as u8) {
        let r = (black & pos.pc(3)) & (0xFF00000000000000u64 & west_of(bk));
        if r != 0 {
            Ok(grant(pos, 3, lowest(r) % 8))
        } else {
            Err(FenError::BlackQueenSideRookMissing)
        }
    } else if ('A' as u8) <= c <= ('H' as u8) {
        let f = c - ('A' as u8);
        let ksq = lowest(pos.pc(5) & pos.us());
        Ok(grant(pos, if f > ksq % 8 { 0 } else { 1 }, f))
    } else if ('a' as u8) <= c <= ('h' as u8) {
        let f = c - ('a' as u8);
        let ksq = lowest(pos.pc(5) & pos.them());
        Ok(grant(pos, if f > ksq % 8 { 2 } else { 3 }, f))
    } else {
        Err(FenError::CastlingUnrecognised)
    }
}

/// Reads the castling part `cs` of a FEN string from byte `i` on: a character seen before is
/// refused, and `-` ends the part.
pub open spec fn castle_from(pos: Position, cs: Seq<u8>, i: int) -> Result<Position, FenError>
    decreases cs.len() - i,
{
    if i < 0 || i >= cs.len() {
        Ok(pos)
    } else if cs.take(i).contains(cs[i]) {
        Err(FenError::CastlingDuplicate)
    } else if cs[i] == ('-' as u8) {
        Ok(pos)
    } else {
        match castle_step(pos, cs[i]) {
            Ok(p) => castle_from(p, cs, i + 1),
            Err(e) => Err(e),
        }
    }
}

fn grant_right(pos: &mut Position, i: usize, f: u8)
    requires
        i < 4,
        f < 8,
    ensures
        *final(pos) == grant(*old(pos), i as int, f as int),
{
    if i == 0 {
        pos.us_ksc = true;
        pos.castle_files = [f, pos.castle_files[1], pos.castle_files[2], pos.castle_files[3]];
    } else if i == 1 {
        pos.us_qsc = true;
        pos.castle_files = [pos.castle_files[0], f, pos.castle_files[2], pos.castle_files[3]];
    } else if i == 2 {
        pos.them_ksc = true;
        pos.castle_files = [pos.castle_files[0], pos.castle_files[1], f, pos.castle_files[3]];
    } else {
        pos.them_qsc = true;
        pos.castle_files = [pos.castle_files[0], pos.castle_files[1], pos.castle_files[2], f];
    }
    assert(pos.castle_files =~= grant(*old(pos), i as int, f as int).castle_files);
}

/// The byte `c` occurs among the bytes `lo..hi` of `s`.
fn occurs_in(s: &[u8], lo: usize, hi: usize, c: u8) -> (r: bool)
    requires
        lo <= hi <= s.len(),
    ensures
        r == s@.subrange(lo as int, hi as int).contains(c),
{
    let ghost t = s@.subrange(lo as int, hi as int);
    let mut j: usize = lo;
    while j < hi
        invariant
            lo <= j <= hi <= s.len(),
            t == s@.subrange(lo as int, hi as int),
            forall|k: int| 0 <= k < j - lo ==> #[trigger] t[k] != c,
        decreases hi - j,
    {
        if s[j] == c {
            assert(t[j - lo] == c);
            return true;
        }
        j = j + 1;
    }
    false
}

/// Reads one castling right onto `pos`, white to move.
fn castle_char(pos: &Position, c: u8) -> (r: Result<Position, FenError>)
    requires
        pos.us() & pos.pc(5) != 0,
        pos.them() & pos.pc(5) != 0,
        forall|k: int| 0 <= k < 4 ==> #[trigger] pos.castle_files[k] < 8,
    ensures
        r == castle_step(*pos, c),
        r matches Ok(p) ==> p.colours == pos.colours && p.pieces == pos.pieces && forall|k: int|
            0 <= k < 4 ==> #[trigger] p.castle_files[k] < 8,
{
    let wksq = (pos.get_us() & pos.get_kings()).lsb();
    let bksq = (pos.get_them() & pos.get_kings()).lsb();
    let mut res = *pos;
    if c == ('K' as u8) {
        let rooks = (pos.get_us() & pos.get_rooks()) & (Bitboard(0xFF) & Bitboard::ray_east(wksq));
        if rooks.is_empty() {
            return Err(FenError::WhiteKingSideRookMissing);
        }
        grant_right(&mut res, 0, rooks.hsb().file() as u8);
    } else if c == ('Q' as u8) {
        let rooks = (pos.get_us() & pos.get_rooks()) & (Bitboard(0xFF) & Bitboard::ray_west(wksq));
        if rooks.is_empty() {
            return Err(FenError::WhiteQueenSideRookMissing);
        }
        grant_right(&mut res, 1, rooks.lsb().file() as u8);
    } else if c == ('k' as u8) {
        let rooks = (pos.get_them() & pos.get_rooks()) & (Bitboard(0xFF00000000000000)
            & Bitboard::ray_east(bksq));
        if rooks.is_empty() {
            return Err(FenError::BlackKingSideRookMissing);
        }
        grant_right(&mut res, 2, rooks.hsb().file() as u8);
    } else if c == ('q' as u8) {
        let rooks = (pos.get_them() & pos.get_rooks()) & (Bitboard(0xFF00000000000000)
            & Bitboard::ray_west(bksq));
        if rooks.is_empty() {
            return Err(FenError::BlackQueenSideRookMissing);
        }
        grant_right(&mut res, 3, rooks.lsb().file() as u8);
    } else if c >= ('A' as u8) && c <= ('H' as u8) {
        let ksq = (pos.get_kings() & pos.get_us()).lsb();
        let file = c - ('A' as u8);
        let side = if file as i32 > ksq.file() { 0 } else { 1 };
        grant_right(&mut res, side, file);
    } else if c >= ('a' as u8) && c <= ('h' as u8) {
        let ksq = (pos.get_kings() & pos.get_them()).lsb();
        let file = c - ('a' as u8);
        let side = if file as i32 > ksq.file() { 2 } else { 3 };
        grant_right(&mut res, side, file);
    } else {
        return Err(FenError::CastlingUnrecognised);
    }
    Ok(res)
}

/// Reads the castling part of a FEN string, the bytes `lo..hi` of `s`, onto `board`.
pub fn read_castling(board: Position, s: &[u8], lo: usize, hi: usize) -> (r: Result<Position, FenError>)
    requires
        lo <= hi <= s.len(),
        board.us() & board.pc(5) != 0,
        board.them() & board.pc(5) != 0,
        forall|k: int| 0 <= k < 4 ==> #[trigger] board.castle_files[k] < 8,
    ensures
        r == castle_from(board, s@.subrange(lo as int, hi as int), 0),
        r matches Ok(p) ==> forall|k: int| 0 <= k < 4 ==> #[trigger] p.castle_files[k] < 8,
{
    let ghost cs = s@.subrange(lo as int, hi as int);
    let mut pos = board;
    let mut i: usize = lo;
    while i < hi
        invariant
            lo <= i <= hi <= s.len(),
            cs == s@.subrange(lo as int, hi as int),
            pos.colours == board.colours,
            pos.pieces == board.pieces,
            forall|k: int| 0 <= k < 4 ==> #[trigger] pos.castle_files[k] < 8,
            castle_from(pos, cs, i - lo) == castle_from(board, cs, 0),
            board.us() & board.pc(5) != 0,
            board.them() & board.pc(5) != 0,
        decreases hi - i,
    {
        let c = s[i];
        assert(cs[i - lo] == c);
        assert(s@.subrange(lo as int, i as int) =~= cs.take(i - lo));
        // Look for duplicates
        if occurs_in(s, lo, i, c) {
            return Err(FenError::CastlingDuplicate);
        }
        if c == ('-' as u8) {
            return Ok(pos);
        }
        assert(pos.us() == board.us() && pos.them() == board.them());
        assert(pos.pc(5) == board.pc(5));
        assert(pos.us() & pos.pc(5) != 0 && pos.them() & pos.pc(5) != 0);
        match castle_char(&pos, c) {
            Ok(p) => {
                pos = p;
            },
            Err(e) => {
                return Err(e);
            },
        }
        i = i + 1;
    }
    Ok(pos)
}

/// Reads the en passant part of a FEN string: `-` for none, or a file letter and a rank digit
/// naming a square of the board.
pub open spec fn spec_parse_ep(f: Seq<u8>) -> Result<Option<Square>, FenError> {
    if f.len() == 1 && f[0] == ('-' as u8) {
        Ok(None)
    } else if f.len() == 2 && f[0] >= ('a' as u8) && f[1] >= ('1' as u8) && 8 * (f[1] - ('1' as u8))
        + (f[0] - ('a' as u8)) < 64 {
        Ok(Some(Square((8 * (f[1] - ('1' as u8)) + (f[0] - ('a' as u8))) as u8)))
    } else {
        Err(FenError::EpIllegal)
    }
}

/// Reads the side to move: `Some(true)` when black is to move.
pub open spec fn spec_parse_side(f: Seq<u8>) -> Option<bool> {
    if f.len() == 1 && (f[0] == ('w' as u8) || f[0] == ('W' as u8)) {
        Some(false)
    } else if f.len() == 1 && (f[0] == ('b' as u8) || f[0] == ('B' as u8)) {
        Some(true)
    } else {
        None
    }
}

/// Reads the en passant part of a FEN string, the bytes `lo..hi` of `s`.
pub fn read_ep(s: &[u8], lo: usize, hi: usize) -> (r: Result<Option<Square>, FenError>)
    requires
        lo <= hi <= s.len(),
    ensures
        r == spec_parse_ep(s@.subrange(lo as int, hi as int)),
        r matches Ok(Some(e)) ==> e.valid(),
{
    let ghost f = s@.subrange(lo as int, hi as int);
    assert(f.len() == hi - lo);
    if hi - lo == 1 {
        assert(f[0] == s[lo as int]);
        if s[lo] == ('-' as u8) {
            return Ok(None);
        } else {
            return Err(FenError::EpIllegal);
        }
    }
    if hi - lo != 2 {
        return Err(FenError::EpIllegal);
    }
    let c1 = s[lo];
    let c2 = s[lo + 1];
    assert(f[0] == c1 && f[1] == c2);
    if c1 < ('a' as u8) || c2 < ('1' as u8) {
        return Err(FenError::EpIllegal);
    }
    let file = (c1 - ('a' as u8)) as u32;
    let rank = (c2 - ('1' as u8)) as u32;
    if 8 * rank + file >= 64 {
        return Err(FenError::EpIllegal);
    }
    Ok(Some(Square((8 * rank + file) as u8)))
}

/// Reads the side to move, the bytes `lo..hi` of `s`.
pub fn read_side(s: &[u8], lo: usize, hi: usize) -> (r: Option<bool>)
    requires
        lo <= hi <= s.len(),
    ensures
        r == spec_parse_side(s@.subrange(lo as int, hi as int)),
{
    let ghost f = s@.subrange(lo as int, hi as int);
    assert(f.len() == hi - lo);
    if hi - lo != 1 {
        return None;
    }
    let c = s[lo];
    assert(f[0] == c);
    if c == ('w' as u8) || c == ('W' as u8) {
        Some(false)
    } else if c == ('b' as u8) || c == ('B' as u8) {
        Some(true)
    } else {
        None
    }
}

} // verus!

use vstd::prelude::*;

verus! {

/// The squares of the board by name, from A1 up to H8.
#[derive(Debug, Copy, Clone, PartialEq, Eq, Structural)]
pub enum SquareIdx {
    A1, B1, C1, D1, E1, F1, G1, H1,
    A2, B2, C2, D2, E2, F2, G2, H2,
    A3, B3, C3, D3, E3, F3, G3, H3,
    A4, B4, C4, D4, E4, F4, G4, H4,
    A5, B5, C5, D5, E5, F5, G5, H5,
    A6, B6, C6, D6, E6, F6, G6, H6,
    A7, B7, C7, D7, E7, F7, G7, H7,
    A8, B8, C8, D8, E8, F8, G8, H8,
}

impl SquareIdx {
    /// The index of the named square, counting A1 as 0 and H8 as 63.
    pub open spec fn spec_index(self) -> u8 {
        match self {
            SquareIdx::A1 => 0,
            SquareIdx::B1 => 1,
            SquareIdx::C1 => 2,
            SquareIdx::D1 => 3,
            SquareIdx::E1 => 4,
            SquareIdx::F1 => 5,
            SquareIdx::G1 => 6,
            SquareIdx::H1 => 7,
            SquareIdx::A2 => 8,
            SquareIdx::B2 => 9,
            SquareIdx::C2 => 10,
            SquareIdx::D2 => 11,
            SquareIdx::E2 => 12,
            SquareIdx::F2 => 13,
            SquareIdx::G2 => 14,
            SquareIdx::H2 => 15,
            SquareIdx::A3 => 16,
            SquareIdx::B3 => 17,
            SquareIdx::C3 => 18,
            SquareIdx::D3 => 19,
            SquareIdx::E3 => 20,
            SquareIdx::F3 => 21,
            SquareIdx::G3 => 22,
            SquareIdx::H3 => 23,
            SquareIdx::A4 => 24,
            SquareIdx::B4 => 25,
            SquareIdx::C4 => 26,
            SquareIdx::D4 => 27,
            SquareIdx::E4 => 28,
            SquareIdx::F4 => 29,
            SquareIdx::G4 => 30,
            SquareIdx::H4 => 31,
            SquareIdx::A5 => 32,
            SquareIdx::B5 => 33,
            SquareIdx::C5 => 34,
            SquareIdx::D5 => 35,
            SquareIdx::E5 => 36,
            SquareIdx::F5 => 37,
            SquareIdx::G5 => 38,
            SquareIdx::H5 => 39,
            SquareIdx::A6 => 40,
            SquareIdx::B6 => 41,
            SquareIdx::C6 => 42,
            SquareIdx::D6 => 43,
            SquareIdx::E6 => 44,
            SquareIdx::F6 => 45,
            SquareIdx::G6 => 46,
            SquareIdx::H6 => 47,
            SquareIdx::A7 => 48,
            SquareIdx::B7 => 49,
            SquareIdx::C7 => 50,
            SquareIdx::D7 => 51,
            SquareIdx::E7 => 52,
            SquareIdx::F7 => 53,
            SquareIdx::G7 => 54,
            SquareIdx::H7 => 55,
            SquareIdx::A8 => 56,
            SquareIdx::B8 => 57,
            SquareIdx::C8 => 58,
            SquareIdx::D8 => 59,
            SquareIdx::E8 => 60,
            SquareIdx::F8 => 61,
            SquareIdx::G8 => 62,
            SquareIdx::H8 => 63,
        }
    }

    /// The index of the named square.
    pub fn index(self) -> (r: u8)
        ensures
            r == self.spec_index(),
            r < 64,
    {
        match self {
            SquareIdx::A1 => 0,
            SquareIdx::B1 => 1,
            SquareIdx::C1 => 2,
            SquareIdx::D1 => 3,
            SquareIdx::E1 => 4,
            SquareIdx::F1 => 5,
            SquareIdx::G1 => 6,
            SquareIdx::H1 => 7,
            SquareIdx::A2 => 8,
            SquareIdx::B2 => 9,
            SquareIdx::C2 => 10,
            SquareIdx::D2 => 11,
            SquareIdx::E2 => 12,
            SquareIdx::F2 => 13,
            SquareIdx::G2 => 14,
            SquareIdx::H2 => 15,
            SquareIdx::A3 => 16,
            SquareIdx::B3 => 17,
            SquareIdx::C3 => 18,
            SquareIdx::D3 => 19,
            SquareIdx::E3 => 20,
            SquareIdx::F3 => 21,
            SquareIdx::G3 => 22,
            SquareIdx::H3 => 23,
            SquareIdx::A4 => 24,
            SquareIdx::B4 => 25,
            SquareIdx::C4 => 26,
            SquareIdx::D4 => 27,
            SquareIdx::E4 => 28,
            SquareIdx::F4 => 29,
            SquareIdx::G4 => 30,
            SquareIdx::H4 => 31,
            SquareIdx::A5 => 32,
            SquareIdx::B5 => 33,
            SquareIdx::C5 => 34,
            SquareIdx::D5 => 35,
            SquareIdx::E5 => 36,
            SquareIdx::F5 => 37,
            SquareIdx::G5 => 38,
            SquareIdx::H5 => 39,
            SquareIdx::A6 => 40,
            SquareIdx::B6 => 41,
            SquareIdx::C6 => 42,
            SquareIdx::D6 => 43,
            SquareIdx::E6 => 44,
            SquareIdx::F6 => 45,
            SquareIdx::G6 => 46,
            SquareIdx::H6 => 47,
            SquareIdx::A7 => 48,
            SquareIdx::B7 => 49,
            SquareIdx::C7 => 50,
            SquareIdx::D7 => 51,
            SquareIdx::E7 => 52,
            SquareIdx::F7 => 53,
            SquareIdx::G7 => 54,
            SquareIdx::H7 => 55,
            SquareIdx::A8 => 56,
            SquareIdx::B8 => 57,
            SquareIdx::C8 => 58,
            SquareIdx::D8 => 59,
            SquareIdx::E8 => 60,
            SquareIdx::F8 => 61,
            SquareIdx::G8 => 62,
            SquareIdx::H8 => 63,
        }
    }
}

/// A square of the board: file `index % 8`, rank `index / 8`.
#[derive(Debug, Copy, Clone, PartialEq, Eq, Structural)]
pub struct Square(pub u8);

impl Default for Square {
    fn default() -> (r: Self)
        ensures
            r.0 == 0,
    {
        Square(0)
    }
}

impl Square {
    /// The square is on the board.
    pub open spec fn valid(self) -> bool {
        self.0 < 64
    }

    pub open spec fn spec_rank(self) -> int {
        self.0 as int / 8
    }

    pub open spec fn spec_file(self) -> int {
        self.0 as int % 8
    }

    /// The square seen from the other side of the board: the rank is mirrored.
    pub open spec fn spec_flip(self) -> Square {
        Square(self.0 ^ 56u8)
    }

    pub fn from_coords(x: u8, y: u8) -> (r: Self)
        requires
            8 * y + x <= 255,
        ensures
            r.0 == 8 * y + x,
    {
        Square(8 * y + x)
    }

    pub fn from_index(idx: SquareIdx) -> (r: Self)
        ensures
            r.0 == idx.spec_index(),
            r.valid(),
    {
        Square(idx.index())
    }

    pub fn rank(self) -> (r: i32)
        ensures
            r == self.spec_rank(),
    {
        self.0 as i32 / 8
    }

    pub fn file(self) -> (r: i32)
        ensures
            r == self.spec_file(),
    {
        self.0 as i32 % 8
    }

    pub fn flip(self) -> (r: Square)
        ensures
            r == self.spec_flip(),
            self.valid() ==> r.valid(),
            self.valid() ==> r.spec_file() == self.spec_file(),
            self.valid() ==> r.spec_rank() == 7 - self.spec_rank(),
    {
        proof {
            lemma_flip_square(self.0);
        }
        Square(self.0 ^ 56)
    }

    pub fn maybe_flip(self, flip: bool) -> (r: Square)
        ensures
            r == (if flip { self.spec_flip() } else { self }),
    {
        let m: u8 = if flip { 56 } else { 0 };
        proof {
            lemma_flip_square(self.0);
        }
        Self(self.0 ^ m)
    }

    /// The name of the square in algebraic notation, such as `e4`.
    pub fn name(&self) -> (r: String)
        requires
            self.valid(),
        ensures
            r@ == seq![file_char(self.spec_file()), rank_char(self.spec_rank())],
    {
        let mut s = String::new();
        s.append(file_str(self.0 % 8));
        s.append(rank_str(self.0 / 8));
        s
    }
}

/// The letter of a file, `a` to `h`.
pub open spec fn file_char(f: int) -> char {
    if f == 0 { 'a' } else if f == 1 { 'b' } else if f == 2 { 'c' } else if f == 3 { 'd' }
    else if f == 4 { 'e' } else if f == 5 { 'f' } else if f == 6 { 'g' } else { 'h' }
}

/// The digit of a rank, `1` to `8`.
pub open spec fn rank_char(r: int) -> char {
    if r == 0 { '1' } else if r == 1 { '2' } else if r == 2 { '3' } else if r == 3 { '4' }
    else if r == 4 { '5' } else if r == 5 { '6' } else if r == 6 { '7' } else { '8' }
}

fn file_str(f: u8) -> (r: &'static str)
    requires
        f < 8,
    ensures
        r@ == seq![file_char(f as int)],
{
    if f == 0 {
        proof { reveal_strlit("a"); }
        "a"
    } else if f == 1 {
        proof { reveal_strlit("b"); }
        "b"
    } else if f == 2 {
        proof { reveal_strlit("c"); }
        "c"
    } else if f == 3 {
        proof { reveal_strlit("d"); }
        "d"
    } else if f == 4 {
        proof { reveal_strlit("e"); }
        "e"
    } else if f == 5 {
        proof { reveal_strlit("f"); }
        "f"
    } else if f == 6 {
        proof { reveal_strlit("g"); }
        "g"
    } else {
        proof { reveal_strlit("h"); }
        "h"
    }
}

fn rank_str(r: u8) -> (s: &'static str)
    requires
        r < 8,
    ensures
        s@ == seq![rank_char(r as int)],
{
    if r == 0 {
        proof { reveal_strlit("1"); }
        "1"
    } else if r == 1 {
        proof { reveal_strlit("2"); }
        "2"
    } else if r == 2 {
        proof { reveal_strlit("3"); }
        "3"
    } else if r == 3 {
        proof { reveal_strlit("4"); }
        "4"
    } else if r == 4 {
        proof { reveal_strlit("5"); }
        "5"
    } else if r == 5 {
        proof { reveal_strlit("6"); }
        "6"
    } else if r == 6 {
        proof { reveal_strlit("7"); }
        "7"
    } else {
        proof { reveal_strlit("8"); }
        "8"
    }
}

/// Mirroring the rank of a square twice gives the square back, and the mirror keeps the file.
pub proof fn lemma_flip_square(x: u8)
    by (bit_vector)
    ensures
        (x ^ 56u8) ^ 56u8 == x,
        x ^ 0u8 == x,
        x < 64 ==> (x ^ 56u8) < 64,
        x < 64 ==> (x ^ 56u8) % 8 == x % 8,
        x < 64 ==> (x ^ 56u8) / 8 == 7 - x / 8,
{
}

/// Flipping a square twice gives the same square.
pub proof fn lemma_square_flip_involution(sq: Square)
    ensures
        sq.spec_flip().spec_flip() == sq,
{
    lemma_flip_square(sq.0);
}

} // verus!

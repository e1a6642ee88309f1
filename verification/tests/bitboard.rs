use rawr::chess::bitboard::Bitboard;
use rawr::chess::colour::Colour;
use rawr::chess::side::Side;
use rawr::chess::square::{Square, SquareIdx};

fn sq(idx: SquareIdx) -> Square {
    Square::from_index(idx)
}

#[test]
fn bitboard_count_tests() {
    assert!(Bitboard(0).count() == 0);
    assert!(Bitboard(1).count() == 1);
    assert!(Bitboard(2).count() == 1);
    assert!(Bitboard(3).count() == 2);
    assert!(Bitboard::empty().count() == 0);
    assert!(Bitboard::full().count() == 64);
}

#[test]
fn empty() {
    assert!(Bitboard(0).is_empty());
    assert!(!Bitboard(1).is_empty());
}

#[test]
fn file_rank() {
    assert!(Bitboard::from_file(sq(SquareIdx::E4)) == Bitboard(0x1010101010101010));
    assert!(Bitboard::from_rank(sq(SquareIdx::E4)) == Bitboard(0xff000000));
}

#[test]
fn adj_files() {
    assert!(Bitboard::from_adj_files(sq(SquareIdx::E4)) == Bitboard(0x2828282828282828));
    assert!(Bitboard::from_adj_files(sq(SquareIdx::A1)) == Bitboard(0x202020202020202));
    assert!(Bitboard::from_adj_files(sq(SquareIdx::H1)) == Bitboard(0x4040404040404040));
}

#[test]
fn bitxor() {
    assert!(Bitboard(0) ^ Bitboard(0) == Bitboard(0));
    assert!(Bitboard(1) ^ Bitboard(2) == Bitboard(3));
}

#[test]
fn bitor() {
    assert!(Bitboard(1) | Bitboard(2) == Bitboard(3));
}

#[test]
fn bitand() {
    assert!(Bitboard(1) & Bitboard(2) == Bitboard(0));
}

#[test]
fn bitnot() {
    assert_eq!(!Bitboard(0), Bitboard(0xFFFFFFFFFFFFFFFF));
    assert_eq!(!Bitboard(0xFFFFFFFFFFFFFFFF), Bitboard(0));
}

#[test]
fn north() {
    assert_eq!(Bitboard(0x0).north(), Bitboard(0x0));
    assert_eq!(Bitboard(0x1).north(), Bitboard(0x100));
    assert_eq!(Bitboard(0xff).north(), Bitboard(0xff00));
    assert_eq!(Bitboard(0xff0000000000).north(), Bitboard(0xff000000000000));
    assert_eq!(Bitboard(0xff00000000000000).north(), Bitboard(0x0));
}

#[test]
fn south() {
    assert_eq!(Bitboard(0x0).south(), Bitboard(0x0));
    assert_eq!(Bitboard(0x100).south(), Bitboard(0x1));
    assert_eq!(Bitboard(0xff00).south(), Bitboard(0xff));
    assert_eq!(Bitboard(0xff000000000000).south(), Bitboard(0xff0000000000));
}

#[test]
fn east() {
    assert_eq!(Bitboard(0x0).east(), Bitboard(0x0));
    assert_eq!(Bitboard(0x1).east(), Bitboard(0x2));
}

#[test]
fn west() {
    assert_eq!(Bitboard(0x0).west(), Bitboard(0x0));
    assert_eq!(Bitboard(0x1).west(), Bitboard(0x0));
}

#[test]
fn adjacent() {
    assert_eq!(Bitboard(0x0).adjacent(), Bitboard(0x0));
    assert_eq!(Bitboard(0x1).adjacent(), Bitboard(0x302));
    assert_eq!(Bitboard(0x80).adjacent(), Bitboard(0xc040));
    assert_eq!(Bitboard(0x8000000000000000).adjacent(), Bitboard(0x40c0000000000000));
    assert_eq!(Bitboard(0x100000000000000).adjacent(), Bitboard(0x203000000000000));
    assert_eq!(Bitboard(0x42000000004200).adjacent(), Bitboard(0xe7a5e70000e7a5e7));
    assert_eq!(Bitboard(0x18000000).adjacent(), Bitboard(0x3c3c3c0000));
    assert_eq!(Bitboard(0x14000000).adjacent(), Bitboard(0x3e2a3e0000));
}

#[test]
fn operators() {
    assert!(Colour::White == Colour::White);
    assert!(Colour::Black == Colour::Black);
    assert!(Colour::White != Colour::Black);
    assert!(!Colour::White == Colour::Black);
    assert!(!Colour::Black == Colour::White);
}

#[test]
fn side_count_tests() {
    assert!(Side::Us == Side::Us);
    assert!(Side::Them == Side::Them);
    assert!(Side::Us != Side::Them);
    assert!(!Side::Us == Side::Them);
    assert!(!Side::Them == Side::Us);
}

#[test]
fn bitboard_lsb_hsb_and_flip() {
    assert_eq!(Bitboard(0x10).lsb(), Square(4));
    assert_eq!(Bitboard(0).lsb(), Square(64));
    assert_eq!(Bitboard(0x8000000000000010).hsb(), Square(63));
    assert_eq!(Bitboard(0xff).flip(), Bitboard(0xff00000000000000));
    assert_eq!(Bitboard(0x1234).flip().flip(), Bitboard(0x1234));
}

#[test]
fn bitboard_iteration_lowest_first() {
    let mut it = Bitboard(0x8000000000000011).iter();
    assert_eq!(it.next(), Some(Square(0)));
    assert_eq!(it.next(), Some(Square(4)));
    assert_eq!(it.next(), Some(Square(63)));
    assert_eq!(it.next(), None);
    assert!(it.is_empty());
}

#[test]
fn square_names_and_flip() {
    assert_eq!(sq(SquareIdx::E4).name(), "e4");
    assert_eq!(sq(SquareIdx::A8).name(), "a8");
    assert_eq!(sq(SquareIdx::E2).flip(), sq(SquareIdx::E7));
    assert_eq!(sq(SquareIdx::C3).flip().flip(), sq(SquareIdx::C3));
    assert_eq!(sq(SquareIdx::E4).rank(), 3);
    assert_eq!(sq(SquareIdx::E4).file(), 4);
    assert_eq!(Square::from_coords(4, 3), sq(SquareIdx::E4));
    assert_eq!(sq(SquareIdx::B2).maybe_flip(false), sq(SquareIdx::B2));
    assert_eq!(sq(SquareIdx::B2).maybe_flip(true), sq(SquareIdx::B7));
}

#[test]
fn bitboard_diagram_rows() {
    let text = Bitboard(0x8000000000000001).diagram();
    assert_eq!(text, "00000001\n00000000\n00000000\n00000000\n00000000\n00000000\n00000000\n10000000\n");
}

#[test]
fn rays_along_a_rank() {
    assert_eq!(Bitboard::ray_east(Square(60)), Bitboard(0xE000000000000000));
    assert_eq!(Bitboard::ray_west(Square(60)), Bitboard(0x0F00000000000000));
    assert_eq!(Bitboard::ray_east(Square(4)), Bitboard(0xE0));
    assert_eq!(Bitboard::ray_west(Square(4)), Bitboard(0x0F));
    assert_eq!(Bitboard::ray_east(Square(31)), Bitboard(0));
    assert_eq!(Bitboard::ray_west(Square(24)), Bitboard(0));
}

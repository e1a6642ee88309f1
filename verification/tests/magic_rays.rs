use rawr::chess::bitboard::Bitboard;
use rawr::chess::magic::{
    bishop_index, bishop_moves, east, king_moves, knight_moves, north, queen_moves, rook_index,
    rook_moves, south, west,
};
use rawr::chess::magic::{
    calculate_bishop_masks, calculate_king_masks, calculate_knight_masks, calculate_rook_masks,
    BISHOP_MASKS, ROOK_MASKS,
};
use rawr::chess::rays::{knights, pawns, ray_ne, ray_nw, ray_se, ray_sw};
use rawr::chess::square::{Square, SquareIdx};

#[test]
fn directions() {
    assert!(north(0x1000000) == 0x100000000);
    assert!(east(0x1000000) == 0x2000000);
    assert!(west(0x1000000) == 0x0);
    assert!(south(0x1000000) == 0x10000);
    assert!(north(0x80000000) == 0x8000000000);
    assert!(east(0x80000000) == 0x0);
    assert!(west(0x80000000) == 0x40000000);
    assert!(south(0x80000000) == 0x800000);
}

#[test]
fn test_bishop_index() {
    assert_eq!(bishop_index(0, 0x0), 5378);
    assert_eq!(bishop_index(1, 0x0), 4093);
    assert_eq!(bishop_index(2, 0x0), 4314);
    assert_eq!(bishop_index(3, 0x0), 6587);
    assert_eq!(bishop_index(0, 0x1000000000), 5881);
    assert_eq!(bishop_index(28, 0x440000004400), 55380);
    assert_eq!(bishop_index(28, 0x100044001000), 55365);
}

#[test]
fn test_rook_index() {
    assert_eq!(rook_index(0, 0x0), 26304);
    assert_eq!(rook_index(1, 0x0), 35520);
    assert_eq!(rook_index(2, 0x0), 38592);
    assert_eq!(rook_index(3, 0x0), 8026);
    assert_eq!(rook_index(0, 0x1000000000), 26304);
    assert_eq!(rook_index(28, 0x440000004400), 84966);
    assert_eq!(rook_index(28, 0x100044001000), 85547);
}

#[test]
fn test_magic_bishop() {
    assert_eq!(bishop_moves(0, 0x0).0, 0x8040201008040200);
    assert_eq!(bishop_moves(0, 0x1000000000).0, 0x1008040200);
    assert_eq!(bishop_moves(28, 0x440000004400).0, 0x442800284400);
    assert_eq!(bishop_moves(4, 0x2800).0, 0x2800);
}

#[test]
fn test_magic_rook() {
    assert_eq!(rook_moves(0, 0x0).0, 0x1010101010101fe);
}

#[test]
fn queen_knight_king_moves() {
    assert_eq!(queen_moves(0, 0x0).0, 0x8040201008040200 | 0x1010101010101fe);
    assert_eq!(knight_moves(Square::from_index(SquareIdx::A1)), Bitboard(0x20400));
    assert_eq!(king_moves(0).0, 0x302);
    assert_eq!(rook_moves(27, 0x0800000008000000 | 0x10).0 & 0x08, 0x08);
}

#[test]
fn test_pawns() {
    assert_eq!(pawns::<true>(Bitboard::from_index(SquareIdx::A1 as u8)), Bitboard(0x200));
    assert_eq!(pawns::<true>(Bitboard::from_index(SquareIdx::H1 as u8)), Bitboard(0x4000));
    assert_eq!(pawns::<true>(Bitboard::from_index(SquareIdx::E4 as u8)), Bitboard(0x2800000000));
}

#[test]
fn test_knights() {
    assert_eq!(knights(Bitboard::from_index(SquareIdx::A1 as u8)), Bitboard(0x20400));
    assert_eq!(knights(Bitboard(0x80)), Bitboard(0x402000));
    assert_eq!(knights(Bitboard(0x100000000000000)), Bitboard(0x4020000000000));
    assert_eq!(knights(Bitboard(0x8000000000000000)), Bitboard(0x20400000000000));
}

#[test]
fn test_ray_ne() {
    assert_eq!(ray_ne(Square::from_index(SquareIdx::A1), Bitboard::empty()), Bitboard(0x8040201008040200));
    assert_eq!(ray_ne(Square::from_index(SquareIdx::A8), Bitboard::empty()), Bitboard(0x0));
    assert_eq!(ray_ne(Square::from_index(SquareIdx::H1), Bitboard::empty()), Bitboard(0x0));
    assert_eq!(ray_ne(Square::from_index(SquareIdx::H8), Bitboard::empty()), Bitboard(0x0));
}

#[test]
fn test_ray_nw() {
    assert_eq!(ray_nw(Square::from_index(SquareIdx::A1), Bitboard::empty()), Bitboard(0x0));
    assert_eq!(ray_nw(Square::from_index(SquareIdx::A8), Bitboard::empty()), Bitboard(0x0));
    assert_eq!(ray_nw(Square::from_index(SquareIdx::H1), Bitboard::empty()), Bitboard(0x102040810204000));
    assert_eq!(ray_nw(Square::from_index(SquareIdx::H8), Bitboard::empty()), Bitboard(0x0));
}

#[test]
fn test_ray_se() {
    assert_eq!(ray_se(Square::from_index(SquareIdx::A1), Bitboard::empty()), Bitboard(0x0));
    assert_eq!(ray_se(Square::from_index(SquareIdx::A8), Bitboard::empty()), Bitboard(0x2040810204080));
    assert_eq!(ray_se(Square::from_index(SquareIdx::H1), Bitboard::empty()), Bitboard(0x0));
    assert_eq!(ray_se(Square::from_index(SquareIdx::H8), Bitboard::empty()), Bitboard(0x0));
}

#[test]
fn test_ray_sw() {
    assert_eq!(ray_sw(Square::from_index(SquareIdx::A1), Bitboard::empty()), Bitboard(0x0));
    assert_eq!(ray_sw(Square::from_index(SquareIdx::A8), Bitboard::empty()), Bitboard(0x0));
    assert_eq!(ray_sw(Square::from_index(SquareIdx::H1), Bitboard::empty()), Bitboard(0x0));
    assert_eq!(ray_sw(Square::from_index(SquareIdx::H8), Bitboard::empty()), Bitboard(0x40201008040201));
}

#[test]
fn rays_stop_at_blockers() {
    let blockers = Bitboard(0x0000000800000000);
    assert_eq!(ray_ne(Square::from_index(SquareIdx::A1), Bitboard(0x40000)), Bitboard(0x40200));
    assert_eq!(ray_ne(Square::from_index(SquareIdx::A1), blockers) & blockers, Bitboard(0));
}

#[test]
fn computed_masks_match_the_tables() {
    assert_eq!(calculate_bishop_masks(), BISHOP_MASKS);
    assert_eq!(calculate_rook_masks(), ROOK_MASKS);
    let knights = calculate_knight_masks();
    let kings = calculate_king_masks();
    for sq in 0..64u8 {
        assert_eq!(knights[sq as usize], knight_moves(Square(sq)).0);
        assert_eq!(kings[sq as usize], king_moves(sq as i32).0);
    }
    // A knight in the corner has two jumps, a king three steps.
    assert_eq!(knights[0], 0x20400);
    assert_eq!(kings[0], 0x302);
    // A bishop on a1 can be stopped on b2 to g7, a rook on a1 on b1 to g1 and a2 to a7.
    assert_eq!(calculate_bishop_masks()[0], 0x0040201008040200);
    assert_eq!(calculate_rook_masks()[0], 0x000101010101017E);
}

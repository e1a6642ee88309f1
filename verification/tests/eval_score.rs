use rawr::chess::bitboard::Bitboard;
use rawr::chess::position::Position;
use rawr::chess::square::{Square, SquareIdx};
use rawr::search::eval::{eval, eval_us, get_king_shield, get_open_files, get_passed_pawns, get_phase, taper};
use rawr::search::score::Score;

#[test]
fn test_passers() {
    assert_eq!(get_passed_pawns(Bitboard::empty(), Bitboard::empty()), Bitboard::empty());
    assert_eq!(get_passed_pawns(Bitboard(0xff00), Bitboard::empty()), Bitboard(0xff00));
    assert_eq!(
        get_passed_pawns(Bitboard(0xff000000000000), Bitboard::empty()),
        Bitboard(0xff000000000000)
    );
    assert_eq!(get_passed_pawns(Bitboard(0xff00), Bitboard(0xff0000000000)), Bitboard::empty());
    assert_eq!(
        get_passed_pawns(Bitboard(0xff000000000000), Bitboard(0xff0000000000)),
        Bitboard(0xff000000000000)
    );
    assert_eq!(get_passed_pawns(Bitboard(0x10000000), Bitboard(0xef100000)), Bitboard(0x10000000));
    assert_eq!(get_passed_pawns(Bitboard(0x8100), Bitboard(0x81000000000000)), Bitboard::empty());
    assert_eq!(get_passed_pawns(Bitboard(0x8100), Bitboard(0x42000000000000)), Bitboard::empty());
    assert_eq!(get_passed_pawns(Bitboard(0x8100), Bitboard(0x3c000000000000)), Bitboard(0x8100));
    assert_eq!(
        get_passed_pawns(Bitboard(0xaa000000000000), Bitboard(0x55000000000000)),
        Bitboard(0xaa000000000000)
    );
    assert_eq!(
        get_passed_pawns(Bitboard(0x55000000000000), Bitboard(0xaa000000000000)),
        Bitboard(0x55000000000000)
    );
}

#[test]
fn test_open_files() {
    assert_eq!(get_open_files(Bitboard::empty()), Bitboard::full());
    assert_eq!(get_open_files(Bitboard::full()), Bitboard::empty());
    assert_eq!(get_open_files(Bitboard(0x10000000)), Bitboard(0xefefefefefefefef));
    assert_eq!(get_open_files(Bitboard(0x90000010000201)), Bitboard(0x6c6c6c6c6c6c6c6c));
}

#[test]
fn test_king_shield() {
    assert_eq!(get_king_shield(Square::from_index(SquareIdx::E4)), Bitboard(0x383800000000));
    assert_eq!(get_king_shield(Square::from_index(SquareIdx::A1)), Bitboard(0x30300));
    assert_eq!(get_king_shield(Square::from_index(SquareIdx::H1)), Bitboard(0xc0c000));
}

#[test]
fn default() {
    assert_eq!(Score::default(), Score(0, 0));
}

#[test]
fn mg_eg() {
    assert_eq!(Score::default().mg(), 0);
    assert_eq!(Score::default().eg(), 0);
    assert_eq!(Score(1, 2).mg(), 1);
    assert_eq!(Score(1, 2).eg(), 2);
}

#[test]
fn add() {
    assert_eq!(Score(1, 2) + Score(3, 4), Score(4, 6));
    assert_eq!(Score(-10, -5) + Score(3, 4), Score(-7, -1));
}

#[test]
fn sub() {
    assert_eq!(Score(1, 2) - Score(4, 3), Score(-3, -1));
    assert_eq!(Score(-10, -5) - Score(4, 3), Score(-14, -8));
}

#[test]
fn mul() {
    assert_eq!(Score(1, 2) * 2, Score(2, 4));
    assert_eq!(2 * Score(1, 2), Score(2, 4));
    assert_eq!(Score(-1, -2) * 2, Score(-2, -4));
    assert_eq!(2 * Score(-1, -2), Score(-2, -4));
}

#[test]
fn add_assign() {
    let mut score = Score(1, 2);
    score += Score(3, 4);
    assert_eq!(score, Score(4, 6));
}

#[test]
fn sub_assign() {
    let mut score = Score(1, 2);
    score -= Score(4, 3);
    assert_eq!(score, Score(-3, -1));
}

#[test]
fn eval_of_symmetric_positions_is_zero() {
    assert_eq!(eval(&Position::startpos()), 0);
    assert_eq!(eval(&Position::from_fen("4k3/8/8/8/8/8/8/4K3 w - - 0 1")), 0);
}

#[test]
fn eval_changes_sign_with_the_side_to_move() {
    let fens = [
        ("4k3/8/8/8/8/8/8/Q3K3 w - - 0 1", "4k3/8/8/8/8/8/8/Q3K3 b - - 0 1"),
        (
            "r3k2r/p1ppqpb1/bn2pnp1/3PN3/1p2P3/2N2Q1p/PPPBBPPP/R3K2R w KQkq - 0 1",
            "r3k2r/p1ppqpb1/bn2pnp1/3PN3/1p2P3/2N2Q1p/PPPBBPPP/R3K2R b KQkq - 0 1",
        ),
    ];
    for (w, b) in fens {
        let a = eval(&Position::from_fen(w));
        let c = eval(&Position::from_fen(b));
        assert_eq!(a, -c);
        assert_ne!(a, 0);
    }
}

#[test]
fn eval_parts_and_phase() {
    let pos = Position::from_fen("4k3/8/8/8/8/8/8/Q3K3 w - - 0 1");
    let us = eval_us(&pos);
    // A queen on a1 (900 + its square bonus) and a king on e1.
    assert_eq!(us.mg(), 900 + 1 + 0);
    assert_eq!(get_phase(&pos), (20 * 256 + 12) / 24);
    assert_eq!(get_phase(&Position::startpos()), 0);
    assert_eq!(taper(&Score(100, 200), 0), 100);
    assert_eq!(taper(&Score(100, 200), 256), 200);
    assert_eq!(taper(&Score(-100, 0), 128), -50);
    assert_eq!(taper(&Score(-3, 0), 1), -2);
}

#[test]
fn eval_of_the_turned_board_is_negated() {
    let fens = [
        "startpos",
        "r3k2r/p1ppqpb1/bn2pnp1/3PN3/1p2P3/2N2Q1p/PPPBBPPP/R3K2R w KQkq - 0 1",
        "4k3/8/8/3pP3/8/8/8/4K3 w - d6 0 1",
        "1n2k3/P7/8/8/8/8/p7/1N2K3 b - - 0 1",
    ];
    for fen in fens {
        let pos = Position::from_fen(fen);
        assert_eq!(eval(&Position::from_flipped(&pos)), -eval(&pos));
    }
}

#[test]
fn eval_of_the_start_position_is_zero() {
    assert_eq!(eval(&Position::startpos()), 0);
}

use rawr::chess::bitboard::Bitboard;
use rawr::chess::mv::Mv;
use rawr::chess::piece::Piece;
use rawr::chess::position::Position;
use rawr::chess::side::Side;
use rawr::chess::square::{Square, SquareIdx};

#[test]
fn position_startpos() {
    let pos = Position::startpos();
    let moves = pos.legal_moves();
    for mv in moves {
        assert!(!pos.is_capture(&mv));
    }
}

#[test]
fn captures() {
    let pos = Position::from_fen("r3k2r/6P1/5B2/3pP3/8/2N5/8/R3K2R w KQkq d6 0 2");
    let captures = [
        // En passant
        (SquareIdx::E5, SquareIdx::D6, Piece::NoPiece),
        // Promotion
        (SquareIdx::G7, SquareIdx::H8, Piece::Queen),
        (SquareIdx::G7, SquareIdx::H8, Piece::Rook),
        (SquareIdx::G7, SquareIdx::H8, Piece::Bishop),
        (SquareIdx::G7, SquareIdx::H8, Piece::Knight),
        // Regular
        (SquareIdx::C3, SquareIdx::D5, Piece::NoPiece),
        (SquareIdx::A1, SquareIdx::A8, Piece::NoPiece),
        (SquareIdx::H1, SquareIdx::H8, Piece::NoPiece),
    ];
    for (from, to, promo) in captures {
        let mv = Mv { from: Square::from_index(from), to: Square::from_index(to), promo };
        assert!(pos.is_capture(&mv));
    }
}

#[test]
fn noncaptures() {
    let pos = Position::from_fen("r3k2r/6P1/5B2/3pP3/8/2N5/8/R3K2R w KQkq d6 0 2");
    let noncaptures = [
        // Castling
        (SquareIdx::E1, SquareIdx::H1, Piece::NoPiece),
        (SquareIdx::E1, SquareIdx::A1, Piece::NoPiece),
        // Promotion
        (SquareIdx::G7, SquareIdx::G8, Piece::Queen),
        (SquareIdx::G7, SquareIdx::G8, Piece::Rook),
        (SquareIdx::G7, SquareIdx::G8, Piece::Bishop),
        (SquareIdx::G7, SquareIdx::G8, Piece::Knight),
        // Regular
        (SquareIdx::E5, SquareIdx::E6, Piece::NoPiece),
        (SquareIdx::E1, SquareIdx::F2, Piece::NoPiece),
    ];
    for (from, to, promo) in noncaptures {
        let mv = Mv { from: Square::from_index(from), to: Square::from_index(to), promo };
        assert!(!pos.is_capture(&mv));
    }
}

#[test]
fn capture_movegen() {
    let fens = [
        "r3k2r/6P1/5B2/3pP3/8/2N5/8/R3K2R w KQkq d6 0 2",
        "r3k2r/p1ppqpb1/bn2pnp1/3PN3/1p2P3/2N2Q1p/PPPBBPPP/R3K2R w KQkq - 0 1",
        "4k3/8/8/8/8/8/8/4K2R w K - 0 1",
        "r3k1r1/8/8/8/8/8/8/R3K2R w KQq - 0 1",
        "8/1n4N1/2k5/8/8/5K2/1N4n1/8 b - - 0 1",
    ];
    for fen in fens {
        let pos = Position::from_fen(fen);
        let captures = pos.legal_captures();
        for capture in captures {
            assert!(pos.is_capture(&capture));
        }
    }
}

#[test]
fn makenull() {
    let mut pos = Position::startpos();
    assert_eq!(pos, Position::startpos());
    assert_eq!(pos.hash, Position::startpos().hash);
    pos.makenull();
    assert_ne!(pos, Position::startpos());
    assert_ne!(pos.hash, Position::startpos().hash);
    pos.makenull();
    assert_eq!(pos, Position::startpos());
    assert_eq!(pos.hash, Position::startpos().hash);
}

#[test]
fn ep() {
    let mut pos1 =
        Position::from_fen("rnbqkbnr/pp1ppppp/8/2p5/4P3/5N2/PPPP1PPP/RNBQKB1R b KQkq - 1 2");
    let mut pos2 =
        Position::from_fen("rnbqkbnr/pp1ppppp/8/2p5/4P3/5N2/PPPP1PPP/RNBQKB1R b KQkq e3 0 2");
    assert_ne!(pos1, pos2);
    assert_ne!(pos1.hash, pos2.hash);
    pos1.makenull();
    pos2.makenull();
    assert_eq!(pos1, pos2);
    assert_eq!(pos1.hash, pos2.hash);
}

#[test]
fn same() {
    let pos1 = Position::from_fen("rnbqkbnr/pppppppp/8/8/8/5N2/PPPPPPPP/RNBQKB1R w KQkq - 0 1");
    let mut pos2 =
        Position::from_fen("rnbqkbnr/pppppppp/8/8/8/5N2/PPPPPPPP/RNBQKB1R b KQkq - 1 1");
    pos2.makenull();
    assert_eq!(pos1, pos2);
    assert_eq!(pos1.hash, pos2.hash);
}

#[test]
fn pinned() {
    let tests = [
        ("startpos", Bitboard::empty(), Bitboard::empty()),
        (
            "k7/4r3/8/4N3/1r1NKN1r/4N3/8/4r3 w - - 0 1",
            Bitboard(0x1028100000),
            Bitboard(0x101010ee101010),
        ),
        (
            "k7/4q3/8/4N3/1q1NKN1q/4N3/8/4q3 w - - 0 1",
            Bitboard(0x1028100000),
            Bitboard(0x101010ee101010),
        ),
    ];
    for (fen, pinned, xrayed) in tests {
        let pos = Position::from_fen(&fen);
        let ksq = (pos.get_us() & pos.get_kings()).lsb();
        let (pins, xrays) = pos.pinned_rook(ksq, Side::Them);
        assert_eq!(pins, pinned);
        assert_eq!(xrays, xrayed);
    }
}

#[test]
fn flip_twice_gives_the_position_back() {
    let pos = Position::from_fen("r3k2r/p1ppqpb1/bn2pnp1/3PN3/1p2P3/2N2Q1p/PPPBBPPP/R3K2R w KQkq - 0 1");
    let mut p = pos;
    p.flip();
    assert_ne!(p, pos);
    p.flip();
    assert_eq!(p, pos);
    assert_eq!(Position::from_flipped(&Position::from_flipped(&pos)), pos);
}

#[test]
fn makenull_then_after_null() {
    let pos = Position::startpos();
    let after = pos.after_null();
    let mut p = pos;
    p.makenull();
    assert_eq!(after, p);
    assert_eq!(after.calculate_hash(), after.hash);
}

#[test]
fn attacks_and_check() {
    let pos = Position::from_fen("4k3/8/8/8/8/8/8/4K2r w - - 0 1");
    assert!(pos.in_check());
    assert!(!pos.in_check_them());
    assert!(pos.is_sq_attacked(Square::from_index(SquareIdx::F1), Side::Them));
    assert!(!pos.is_sq_attacked(Square::from_index(SquareIdx::F2), Side::Them));
    assert_eq!(pos.legal_moves().len(), 3);
    assert_eq!(pos.count_moves(), 3);
}

#[test]
fn pieces_and_colours_on_squares() {
    let pos = Position::startpos();
    assert_eq!(pos.get_piece_on(Square::from_index(SquareIdx::D1)), Some(Piece::Queen));
    assert_eq!(pos.get_piece_on(Square::from_index(SquareIdx::E4)), None);
    assert!(pos.is_occupied(Square::from_index(SquareIdx::A2)));
    assert!(pos.is_empty(Square::from_index(SquareIdx::A3)));
    assert_eq!(pos.get_empty().count(), 32);
    assert_eq!(pos.get_occupied().count(), 32);
}

#[test]
fn moves_from_startpos() {
    let pos = Position::startpos();
    let moves = pos.legal_moves();
    assert_eq!(moves.len(), 20);
    let mut called = 0;
    pos.move_generator(|_, _, _, _| called += 1);
    assert_eq!(called, 20);
    let e4 = Mv {
        from: Square::from_index(SquareIdx::E2),
        to: Square::from_index(SquareIdx::E4),
        promo: Piece::NoPiece,
    };
    let npos = pos.after_move::<true>(&e4);
    assert_eq!(npos.hash, npos.calculate_hash());
    assert_eq!(npos.hash, pos.predict_hash(&e4));
    assert_eq!(npos.get_fen(), "rnbqkbnr/pppppppp/8/8/4P3/8/PPPP1PPP/RNBQKBNR b KQkq e3 0 1");
}

#[test]
fn perft_startpos() {
    let pos = Position::startpos();
    assert_eq!(pos.perft(0), 1);
    assert_eq!(pos.perft(1), 20);
    assert_eq!(pos.perft(2), 400);
    assert_eq!(pos.perft(3), 8902);
}

#[test]
fn castling_status_shows_the_rook_files() {
    assert_eq!(Position::startpos().castling_status(), "HAha");
    assert_eq!(Position::from_fen("4k3/8/8/8/8/8/8/4K3 w - - 0 1").castling_status(), "-");
    assert_eq!(Position::from_fen("r3k3/8/8/8/8/8/8/4K2R b Kq - 0 1").castling_status(), "Ha");
}

#[test]
fn attacked_sets_agree_with_attacked_squares() {
    let fens = [
        "r3k2r/p1ppqpb1/bn2pnp1/3PN3/1p2P3/2N2Q1p/PPPBBPPP/R3K2R w KQkq - 0 1",
        "4k3/8/4r3/8/8/8/3p4/4K3 w - - 0 1",
    ];
    for fen in fens {
        let pos = Position::from_fen(fen);
        for side in [Side::Us, Side::Them] {
            let all = pos.get_attacked(Bitboard(!0u64), side);
            let mut any_low = false;
            for s in 0..64u8 {
                let hit = pos.is_sq_attacked(Square(s), side);
                assert_eq!(all.is_set(Square(s)), hit);
                if s < 32 {
                    any_low = any_low || hit;
                }
            }
            assert_eq!(pos.is_bb_attacked(Bitboard(0xFFFF_FFFF), side), any_low);
            assert!(!pos.is_bb_attacked(Bitboard(0), side));
        }
    }
}

#[test]
fn legal_moves_leave_the_king_safe() {
    let pos = Position::from_fen("r3k2r/p1ppqpb1/bn2pnp1/3PN3/1p2P3/2N2Q1p/PPPBBPPP/R3K2R w KQkq - 0 1");
    for mv in pos.legal_moves() {
        let after = pos.after_move::<false>(&mv);
        assert!(!after.in_check_them());
    }
}

#[test]
fn makemove_counters_and_en_passant() {
    let pos = Position::startpos();
    let push = pos.after_move::<true>(&Mv { from: Square(12), to: Square(28), promo: Piece::NoPiece });
    assert_eq!(push.halfmoves, 0);
    assert_eq!(push.ep, Some(Square(44)));
    assert_ne!(push.turn, pos.turn);
    let knight = pos.after_move::<true>(&Mv { from: Square(6), to: Square(21), promo: Piece::NoPiece });
    assert_eq!(knight.halfmoves, 1);
    assert_eq!(knight.ep, None);
}

use rawr::chess::colour::Colour;
use rawr::chess::fen_error::FenError;
use rawr::chess::position::Position;

#[test]
fn fens() {
    assert_eq!(Position::from_fen("startpos"), Position::startpos());
    assert_eq!(
        Position::from_fen("rnbqkbnr/pppppppp/8/8/8/8/PPPPPPPP/RNBQKBNR w KQkq - 0 1"),
        Position::startpos()
    );
}

#[test]
fn set_fen_valid() {
    let fens = [
        "startpos",
        "rnbqkbnr/pppppppp/8/8/8/8/PPPPPPPP/RNBQKBNR w KQkq - 0 1",
        "rnbqkb1r/pp2pp1p/3p1np1/8/3NP3/2N5/PPP2PPP/R1BQKB1R w KQkq - 0 6",
        "2rqr1k1/pp1bppbp/3p1np1/4n3/3NP3/1BN1BP2/PPPQ2PP/1K1R3R w - - 11 13",
        "r3k2r/p1ppqpb1/bn2pnp1/3PN3/1p2P3/2N2Q1p/PPPBBPPP/R3K2R w KQkq - 0 1",
        "rnbqkbnr/pppppppp/8/8/8/8/PPPPPPPP/RNBQKBNR w KQkq - 200 1",
        "rnbqkbnr/pppppppp/8/8/8/8/PPPPPPPP/RNBQKBNR w KQkq - 0 200",
        "rnbqkbnr/pppppppp/8/8/8/8/PPPPPPPP/RNBQKBNR w - - 0 1",
        "rnbqkbnr/pppppppp/8/8/8/8/PPPPPPPP/RNBQKBNR b - - 0 1",
        "4k3/8/8/4p3/8/8/8/4K3 w - e6 0 1",
        "rnbqkbnr/pppppppp/qqqqqqqq/qqqqqqqq/QQQQQQQQ/QQQQQQQQ/PPPPPPPP/RNBQKBNR w KQkq - 0 1",
    ];

    assert!(Position::startpos().validate().is_ok());
    for fen in fens {
        let result = Position::parse_fen(fen, false);
        assert!(result.is_ok(), "{fen}");
    }
}

#[test]
fn set_fen_invalid() {
    let fens = [
        // Empty board
        "8/8/8/8/8/8/8/8 w - - 0 1",
        // Not enough kings
        "8/8/8/8/8/8/8/4K3 w - - 0 1",
        "4k3/8/8/8/8/8/8/8 w - - 0 1",
        // Too many kings
        "4k3/8/8/8/8/8/8/1K2K3 w - - 0 1",
        "1k2k3/8/8/8/8/8/8/4K3 w - - 0 1",
        // Pawns on the 1st and 8th ranks
        "1P2k3/8/8/8/8/8/8/4K3 w - - 0 1",
        "4k3/8/8/8/8/8/8/1p2K3 w - - 0 1",
        "4k3/8/8/8/8/8/8/1P2K3 w - - 0 1",
        "1p2k3/8/8/8/8/8/8/4K3 w - - 0 1",
        // Counters
        "4k3/8/8/8/8/8/8/4K3 w - - -12 1",
        "4k3/8/8/8/8/8/8/4K3 w - - 0 0",
        "4k3/8/8/8/8/8/8/4K3 w - - 0 -12",
        // Incorrect castling
        "4k3/8/8/8/8/8/8/4K3 w K - 0 1",
        "4k3/8/8/8/8/8/8/R3K3 w K - 0 1",
        "4k3/8/8/8/8/8/8/4K3 w Q - 0 1",
        "4k3/8/8/8/8/8/8/4K2R w Q - 0 1",
        "4k3/8/8/8/8/8/8/4K3 w k - 0 1",
        "r3k3/8/8/8/8/8/8/4K3 w k - 0 1",
        "4k3/8/8/8/8/8/8/4K3 w q - 0 1",
        "4k2r/8/8/8/8/8/8/4K3 w q - 0 1",
        "4k3/8/8/8/8/8/4K3/R6R w KQ - 0 1",
        "r6r/4k3/8/8/8/8/8/4K3 w kq - 0 1",
        "8/r3k2r/8/8/8/8/R3K2R/8 w KQkq - 0 1",
        "8/r3k2r/8/8/8/8/R3K2R/8 w K - 0 1",
        "8/r3k2r/8/8/8/8/R3K2R/8 w Q - 0 1",
        "8/r3k2r/8/8/8/8/R3K2R/8 w k - 0 1",
        "8/r3k2r/8/8/8/8/R3K2R/8 w q - 0 1",
        // Capture king
        "4k3/5P2/8/8/8/8/8/4K3 w - - 0 1",
        "4k3/8/5N2/8/8/8/8/4K3 w - - 0 1",
        "4k3/8/6B1/8/8/8/8/4K3 w - - 0 1",
        "4k3/8/8/8/4R3/8/8/4K3 w - - 0 1",
        "4k3/8/8/8/4Q3/8/8/4K3 w - - 0 1",
        "4k3/4K3/8/8/8/8/8/8 w - - 0 1",
        // Illegal EP square
        "4k3/8/8/8/8/8/8/4K3 w - e6 0 1",
        "4k3/8/8/8/8/8/8/4K3 b - e3 0 1",
        "4k3/8/8/4P3/8/8/8/4K3 b - e4 0 1",
        "4k3/8/8/8/8/8/P7/4K3 w - a1 0 1",
        "4k3/8/8/8/8/8/8/4K3 w - a0 0 1",
        "4k3/8/8/8/8/8/8/4K3 w - z0 0 1",
        "4k3/8/8/8/8/8/8/4K3 w - a9 0 1",
        "4k3/8/8/8/8/8/8/4K3 w - z9 0 1",
        "4k3/8/4n3/4p3/8/8/8/4K3 w - e6 0 1",
        // Incomplete
        "rnbqkbnr/pppppppp/8/8/8/8/PPPPPPPP/RNBQKBNR w",
        "rnbqkbnr/pppppppp/8/8/8/8/PPPPPPPP/RNBQKBNR w KQkq",
        "rnbqkbnr/pppppppp/8/8/8/8/PPPPPPPP/RNBQKBNR w KQkq -",
        "rnbqkbnr/pppppppp/8/8/8/8/PPPPPPPP/RNBQKBNR w KQkq - 0",
        // Extra pieces
        "4k3/ppppppppp/8/8/8/8/PPPPPPPP/4K3 w - - 0 1",
        "4k3/8/8/8/8/8/PPPPPPPPP/4K3 w - - 0 1",
        "4k3/ppppppppp/8/8/8/8/8/4K3 w - - 0 1",
        "4k3/8/8/8/PPPPPPPPP/8/8/4K3 w - - 0 1",
        // Extra words
        "rnbqkbnr/pppppppp/8/8/8/8/PPPPPPPP/RNBQKBNR w KQkq - 0 1 extra",
        // Illegal parts
        "test w KQkq - 0 1",
        "rnbqkbnr/pppppppp/8/8/8/8/PPPPPPPP/RNBQKBNR w KQkk - 0 1",
        "rnbqkbnr/pppppppp/8/8/8/8/PPPPPPPP/RNBQKBNR test KQkq - 0 1",
        "rnbqkbnr/pppppppp/8/8/8/8/PPPPPPPP/RNBQKBNR w test - 0 1",
        "rnbqkbnr/pppppppp/8/8/8/8/PPPPPPPP/RNBQKBNR w KQkq test 0 1",
        "rnbqkbnr/pppppppp/8/8/8/8/PPPPPPPP/RNBQKBNR w KQkq - test 1",
        "rnbqkbnr/pppppppp/8/8/8/8/PPPPPPPP/RNBQKBNR w KQkq - 0 test",
        "rnbqkbnr/pppppppp/8/8/8/8/PPPPPPPP/RNBQKBNR wwwww KQkq - 0 1",
        "rnbqkbnr/pppppppp/8/8/8/8/PPPPPPPP/RNBQKBNR w KKKKKKQkq - 0 1",
        "rnbqkbnr/pppppppp/8/8/8/8/PPPPPPPP/RNBQKBNR w KQkq ---- 0 1",
        // Other
        "",
        "test string",
    ];

    for fen in fens {
        println!("{}", fen);
        let result = Position::parse_fen(fen, false);
        assert!(result.is_err(), "{fen}");
    }
}

#[test]
fn validate_valid() {
    let fens = [
        "rnbqkbnr/pppppppp/8/8/8/8/PPPPPPPP/RNBQKBNR w KQkq - 0 1",
        "rnbqkb1r/pp2pp1p/3p1np1/8/3NP3/2N5/PPP2PPP/R1BQKB1R w KQkq - 0 6",
        "2rqr1k1/pp1bppbp/3p1np1/4n3/3NP3/1BN1BP2/PPPQ2PP/1K1R3R w - - 11 13",
        "r3k2r/p1ppqpb1/bn2pnp1/3PN3/1p2P3/2N2Q1p/PPPBBPPP/R3K2R w KQkq - 0 1",
        "rnbqkbnr/pppppppp/8/8/4P3/8/PPPP1PPP/RNBQKBNR b KQkq e3 0 1",
        "bqnb1rkr/pp3ppp/3ppn2/2p5/5P2/P2P4/NPP1P1PP/BQ1BNRKR w HFhf - 2 9",
        "bbqr1krn/pppp1p1p/5n2/4p1p1/3P4/P3QP2/1PP1P1PP/BB1RNKRN w GDgd - 0 9",
        "qrkr2bb/pppppppp/8/1n2n3/1N5P/1P6/P1PPPPP1/QRKR1NBB w DBdb - 1 9",
        "4k3/8/8/8/8/8/8/4K3 w - - 0 1",
        "4k3/8/8/8/8/8/3p4/4K3 w - - 0 1",
    ];

    assert!(Position::startpos().validate().is_ok());
    for fen in fens {
        assert!(Position::from_fen(fen).validate().is_ok());
    }
}

#[test]
fn validate_invalid() {
    let fens = [
        "8/8/8/8/8/8/8/8 w - - 0 1",
        "8/8/8/8/8/8/8/4K3 w - - 0 1",
        "4k3/8/8/8/8/8/8/8 w - - 0 1",
        "4k3/8/8/8/8/8/8/1K2K3 w - - 0 1",
        "1k2k3/8/8/8/8/8/8/4K3 w - - 0 1",
        "1P2k3/8/8/8/8/8/8/4K3 w - - 0 1",
        "4k3/8/8/8/8/8/8/1p2K3 w - - 0 1",
        "4k3/8/8/8/8/8/8/1P2K3 w - - 0 1",
        "1p2k3/8/8/8/8/8/8/4K3 w - - 0 1",
        "4k3/8/8/8/8/8/8/4K3 w - - -12 1",
        "4k3/8/8/8/8/8/8/4K3 w - - 0 0",
        "4k3/8/8/8/8/8/8/4K3 w - - 0 -12",
        "4k3/8/8/8/8/8/8/4K3 w K - 0 1",
        "4k3/8/8/8/8/8/8/R3K3 w K - 0 1",
        "4k3/8/8/8/8/8/8/4K3 w Q - 0 1",
        "4k3/8/8/8/8/8/8/4K2R w Q - 0 1",
        "4k3/8/8/8/8/8/8/4K3 w k - 0 1",
        "r3k3/8/8/8/8/8/8/4K3 w k - 0 1",
        "4k3/8/8/8/8/8/8/4K3 w q - 0 1",
        "4k2r/8/8/8/8/8/8/4K3 w q - 0 1",
        "4k3/8/8/8/8/8/4K3/R6R w KQ - 0 1",
        "r6r/4k3/8/8/8/8/8/4K3 w kq - 0 1",
        "8/r3k2r/8/8/8/8/R3K2R/8 w KQkq - 0 1",
        "8/r3k2r/8/8/8/8/R3K2R/8 w K - 0 1",
        "8/r3k2r/8/8/8/8/R3K2R/8 w Q - 0 1",
        "8/r3k2r/8/8/8/8/R3K2R/8 w k - 0 1",
        "8/r3k2r/8/8/8/8/R3K2R/8 w q - 0 1",
        "4k3/5P2/8/8/8/8/8/4K3 w - - 0 1",
        "4k3/8/5N2/8/8/8/8/4K3 w - - 0 1",
        "4k3/8/6B1/8/8/8/8/4K3 w - - 0 1",
        "4k3/8/8/8/4R3/8/8/4K3 w - - 0 1",
        "4k3/8/8/8/4Q3/8/8/4K3 w - - 0 1",
        "4k3/4K3/8/8/8/8/8/8 w - - 0 1",
        "4k3/8/8/8/8/8/8/4K3 w - e6 0 1",
        "4k3/8/8/8/8/8/8/4K3 b - e3 0 1",
        "4k3/8/8/4P3/8/8/8/4K3 b - e4 0 1",
        "4k3/8/8/8/8/8/P7/4K3 w - a1 0 1",
    ];

    for fen in fens {
        let result = Position::parse_fen(fen, false);
        println!("{}", fen);
        if let Ok(pos) = result {
            assert!(pos.validate().is_err());
        }
    }
}

#[test]
fn fen_errors_say_why() {
    let cases: [(&str, FenError); 18] = [
        ("x3k3/8/8/8/8/8/8/4K3 w - - 0 1", FenError::UnrecognisedPiece),
        ("4k3/8/8/8/8/8/8/4K2 w - - 0 1", FenError::PieceCount),
        ("4k3/8/8/8/8/8/8/4K3 x - - 0 1", FenError::SideIllegal),
        ("4k3/8/8/8/8/8/8/4K3", FenError::SideMissing),
        ("4k3/8/8/8/8/8/8/8 w - - 0 1", FenError::WhiteKingMissing),
        ("8/8/8/8/8/8/8/4K3 w - - 0 1", FenError::BlackKingMissing),
        ("4k3/8/8/8/8/8/8/R3K2R w KK - 0 1", FenError::CastlingDuplicate),
        ("4k3/8/8/8/8/8/8/4K3 w K - 0 1", FenError::WhiteKingSideRookMissing),
        ("4k3/8/8/8/8/8/8/4K3 w Q - 0 1", FenError::WhiteQueenSideRookMissing),
        ("4k3/8/8/8/8/8/8/4K3 w k - 0 1", FenError::BlackKingSideRookMissing),
        ("4k3/8/8/8/8/8/8/4K3 w q - 0 1", FenError::BlackQueenSideRookMissing),
        ("4k3/8/8/8/8/8/8/4K3 w X - 0 1", FenError::CastlingUnrecognised),
        ("4k3/8/8/8/8/8/8/4K3 w - e9 0 1", FenError::EpIllegal),
        ("4k3/8/8/8/8/8/8/4K3 w -", FenError::EpMissing),
        ("4k3/8/8/8/8/8/8/4K3 w - - x 1", FenError::HalfmoveParse),
        ("4k3/8/8/8/8/8/8/4K3 w - - -1 1", FenError::HalfmoveRange),
        ("4k3/8/8/8/8/8/8/4K3 w - - 0 1 2", FenError::ExtraParts),
        ("4k3/8/8/8/8/8/8/4K3 w - - 0 0", FenError::Invalid("fullmoves counter out of range")),
    ];
    for (fen, expected) in cases {
        assert_eq!(Position::parse_fen(fen, false), Err(expected), "{fen}");
    }
    assert_eq!(
        Position::parse_fen("4k3/8/8/8/8/8/8/4K3 w - -", false),
        Err(FenError::HalfmoveMissing)
    );
    assert_eq!(
        Position::parse_fen("4k3/8/8/8/8/8/8/4K3 w - - 0", false),
        Err(FenError::FullmoveMissing)
    );
    assert_eq!(
        Position::parse_fen("4k3/8/8/8/8/8/8/4K3 w - - 0 +", false),
        Err(FenError::FullmoveParse)
    );
    assert_eq!(
        Position::parse_fen("4k3/8/8/8/8/8/8/4K3 w - - 0 -3", false),
        Err(FenError::FullmoveRange)
    );
    assert_eq!(FenError::ExtraParts.message(), "Invalid FEN: extra parts");
}

#[test]
fn fen_reading_details() {
    // Black to move: the board is seen from black's side.
    let pos = Position::from_fen("4k3/8/8/8/8/8/4P3/4K3 b - - 3 7");
    assert_eq!(pos.turn, Colour::Black);
    assert_eq!(pos.halfmoves, 3);
    assert_eq!(pos.fullmoves, 7);
    assert_eq!(pos.get_us().0, 0x10);
    // Fischer random castling files and the variant are kept.
    let frc = Position::parse_fen("4k3/8/8/8/8/8/8/1R2K1R1 w GB - 0 1", true).unwrap();
    assert!(frc.is_frc && frc.us_ksc && frc.us_qsc);
    assert_eq!(frc.castle_files[0], 6);
    assert_eq!(frc.castle_files[1], 1);
    // A leading plus sign is read as a number.
    assert_eq!(Position::from_fen("4k3/8/8/8/8/8/8/4K3 w - - +5 +9").halfmoves, 5);
    // The start position word keeps the variant asked for.
    assert!(Position::parse_fen("startpos", true).unwrap().is_frc);
    let mut p = Position::startpos();
    p.is_frc = true;
    p.set_fen("4k3/8/8/8/8/8/8/4K3 w - - 0 1");
    assert!(p.is_frc);
}

#[test]
fn get_fen_round_trip() {
    let fens = [
        "rnbqkbnr/pppppppp/8/8/8/8/PPPPPPPP/RNBQKBNR w KQkq - 0 1",
        "r3k2r/p1ppqpb1/bn2pnp1/3PN3/1p2P3/2N2Q1p/PPPBBPPP/R3K2R w KQkq - 0 1",
        "rnbqkbnr/pppppppp/8/8/4P3/8/PPPP1PPP/RNBQKBNR b KQkq e3 0 1",
        "2rqr1k1/pp1bppbp/3p1np1/4n3/3NP3/1BN1BP2/PPPQ2PP/1K1R3R w - - 11 13",
        "4k3/8/8/8/8/8/8/4K3 b - - 99 120",
    ];
    for fen in fens {
        let pos = Position::from_fen(fen);
        assert_eq!(pos.get_fen(), fen);
        assert_eq!(Position::from_fen(&pos.get_fen()), pos);
    }
}

#[test]
fn board_diagram_of_startpos() {
    let text = Position::startpos().board_diagram();
    assert_eq!(
        text,
        "rnbqkbnr\npppppppp\n--------\n--------\n--------\n--------\nPPPPPPPP\nRNBQKBNR\n"
    );
}

use rawr::chess::mv::Mv;
use rawr::chess::piece::Piece;
use rawr::chess::position::Position;
use rawr::chess::square::{Square, SquareIdx};
use rawr::search::settings::Type;
use rawr::uci::go::parse_go;
use rawr::uci::moves::{find_move, play_uci_move};
use rawr::uci::position::{position, position_parts};
use rawr::uci::session::{session_start, uci_step, UciAction};
use rawr::uci::setoption::{parse_setoption, setoption};

fn toks(s: &str) -> Vec<&str> {
    s.split_ascii_whitespace().collect()
}

#[test]
fn go_limits() {
    assert!(matches!(parse_go(&toks("wtime 1000 btime 2000")), Ok(Type::Time(1000, 2000, None, None, None))));
    assert!(matches!(
        parse_go(&toks("wtime 1000 btime 2000 winc 10 binc 20 movestogo 5")),
        Ok(Type::Time(1000, 2000, Some(10), Some(20), Some(5)))
    ));
    assert!(matches!(parse_go(&toks("depth 6")), Ok(Type::Depth(6))));
    assert!(matches!(parse_go(&toks("depth -2")), Ok(Type::Depth(-2))));
    assert!(matches!(parse_go(&toks("nodes 123456789012")), Ok(Type::Nodes(123456789012))));
    assert!(matches!(parse_go(&toks("movetime 500")), Ok(Type::Movetime(500))));
    assert!(matches!(parse_go(&toks("infinite")), Ok(Type::Infinite)));
    assert!(matches!(parse_go(&toks("perft 4")), Ok(Type::Perft(4))));
    assert!(matches!(parse_go(&toks("split 3")), Ok(Type::SplitPerft(3))));
    assert!(matches!(parse_go(&toks("depth +7")), Ok(Type::Depth(7))));
}

#[test]
fn go_refusals() {
    assert!(parse_go(&toks("")).is_err());
    assert!(parse_go(&toks("wtime 1000")).is_err());
    assert!(parse_go(&toks("depth 5 nodes 10")).is_err());
    assert!(parse_go(&toks("bogus 5")).is_err());
    assert!(parse_go(&toks("perft 300")).is_err());
    assert!(parse_go(&toks("movetime -1")).is_err());
    assert!(parse_go(&toks("infinite depth 5")).is_err());
}

#[test]
fn setoption_parts() {
    assert_eq!(parse_setoption(&toks("name Hash value 32")), Some(("Hash", "32")));
    assert_eq!(parse_setoption(&toks("name Hash 32")), None);
    assert_eq!(parse_setoption(&toks("value Hash value 32")), None);
    assert_eq!(parse_setoption(&toks("name Hash value")), None);
    let mut got = vec![];
    setoption(&toks("name UCI_Chess960 value true"), |n, v| got.push((n.to_string(), v.to_string())));
    assert_eq!(got, vec![("UCI_Chess960".to_string(), "true".to_string())]);
}

#[test]
fn uci_move_text() {
    let pos = Position::startpos();
    let mv = Mv {
        from: Square::from_index(SquareIdx::E2),
        to: Square::from_index(SquareIdx::E4),
        promo: Piece::NoPiece,
    };
    assert_eq!(mv.to_uci(&pos), "e2e4");
    let promo = Mv {
        from: Square::from_index(SquareIdx::E7),
        to: Square::from_index(SquareIdx::E8),
        promo: Piece::Queen,
    };
    assert_eq!(promo.to_uci(&pos), "e7e8q");
    let black = Position::from_fen("rnbqkbnr/pppppppp/8/8/4P3/8/PPPP1PPP/RNBQKBNR b KQkq e3 0 1");
    assert_eq!(mv.to_uci(&black), "e7e5");
    let castle = Position::from_fen("4k3/8/8/8/8/8/8/4K2R w K - 0 1");
    let ks = Mv {
        from: Square::from_index(SquareIdx::E1),
        to: Square::from_index(SquareIdx::H1),
        promo: Piece::NoPiece,
    };
    assert_eq!(ks.to_uci(&castle), "e1g1");
    let mut frc = castle;
    frc.is_frc = true;
    assert_eq!(ks.to_uci(&frc), "e1h1");
}

#[test]
fn finding_and_playing_moves() {
    let pos = Position::startpos();
    let found = find_move(&pos, "g1f3").unwrap();
    assert_eq!(found.from, Square::from_index(SquareIdx::G1));
    assert_eq!(found.to, Square::from_index(SquareIdx::F3));
    assert_eq!(find_move(&pos, "e2e5"), None);

    let mut p = Position::startpos();
    let mut history = vec![p.hash];
    assert!(play_uci_move(&mut p, &mut history, "e2e4"));
    assert!(!play_uci_move(&mut p, &mut history, "e2e4"));
    assert!(play_uci_move(&mut p, &mut history, "e7e5"));
    assert_eq!(history.len(), 3);
    assert_eq!(history[2], p.hash);
    assert_eq!(p.get_fen(), "rnbqkbnr/pppp1ppp/8/4p3/4P3/8/PPPP1PPP/RNBQKBNR w KQkq e6 0 1");
}

#[test]
fn position_commands() {
    let (fen, start) = position_parts(&toks("startpos moves e2e4"));
    assert_eq!(fen, "startpos");
    assert_eq!(start, 2);
    let (fen, start) = position_parts(&toks("fen 4k3/8/8/8/8/8/8/4K3 w - - 0 1 moves e1e2"));
    assert_eq!(fen, "4k3/8/8/8/8/8/8/4K3 w - - 0 1");
    assert_eq!(start, 8);
    let (fen, _) = position_parts(&toks("bogus"));
    assert_eq!(fen, "");

    let mut pos = Position::startpos();
    let mut history = vec![];
    let unknown = position(&toks("startpos moves e2e4 e7e5 e2e5 g1f3"), &mut pos, &mut history).unwrap();
    assert_eq!(unknown, vec![4]);
    assert_eq!(history.len(), 4);
    assert_eq!(history[0], Position::startpos().hash);
    assert_eq!(pos.get_fen(), "rnbqkbnr/pppp1ppp/8/4p3/4P3/5N2/PPPP1PPP/RNBQKB1R b KQkq - 1 1");

    let before = pos;
    assert!(position(&toks("fen 8/8/8/8/8/8/8/8 w - - 0 1"), &mut pos, &mut history).is_err());
    assert_eq!(pos, before);
}

#[test]
fn session_handshake_and_commands() {
    let mut s = session_start();
    assert!(s.handshake);
    assert_eq!(uci_step(&mut s, "setoption", &toks("name Hash value 99999")), UciAction::Nothing);
    assert_eq!(s.hash, 4096);
    assert_eq!(uci_step(&mut s, "setoption", &toks("name UCI_Chess960 value true")), UciAction::Nothing);
    assert!(s.is_frc);
    assert_eq!(uci_step(&mut s, "isready", &[]), UciAction::EndHandshake(true));
    assert!(!s.handshake);
    assert_eq!(uci_step(&mut s, "setoption", &toks("name hash value 0")), UciAction::SetOption(true));
    assert_eq!(s.hash, 1);
    assert_eq!(uci_step(&mut s, "setoption", &toks("name Hash value lots")), UciAction::SetOption(false));
    assert_eq!(s.hash, 1);
    assert_eq!(uci_step(&mut s, "board", &[]), UciAction::Print);
    assert_eq!(uci_step(&mut s, "go", &toks("depth 3")), UciAction::Go);
    assert_eq!(uci_step(&mut s, "frobnicate", &[]), UciAction::Nothing);
    assert_eq!(uci_step(&mut s, "quit", &[]), UciAction::Quit);
}

#[test]
fn session_handshake_ends_on_other_command() {
    let mut s = session_start();
    assert_eq!(uci_step(&mut s, "position", &toks("startpos")), UciAction::EndHandshake(false));
    assert!(!s.handshake);
    assert_eq!(s.hash, 16);
}

#[test]
fn find_move_takes_the_first_legal_move_with_the_text() {
    let pos = Position::from_fen("4k3/1P6/8/8/8/8/8/4K3 w - - 0 1");
    let mv = find_move(&pos, "b7b8n").unwrap();
    assert_eq!(mv.promo, Piece::Knight);
    assert!(find_move(&pos, "b7b8").is_none());
    assert!(find_move(&pos, "e1e3").is_none());
}

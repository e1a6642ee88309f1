use rawr::chess::mv::Mv;
use rawr::chess::position::Position;
use rawr::search::hashtable::Hashtable;
use rawr::search::ttentry::{Flag, TTEntry};

#[derive(Copy, Clone, Default, PartialEq)]
struct TTEntryPerft {
    hash: u64,
    nodes: u64,
    depth: i32,
}

fn ttperft(pos: &Position, tt: &mut Hashtable<TTEntryPerft>, depth: i32) -> u64 {
    if depth == 0 {
        return 1;
    } else if depth == 1 {
        return pos.count_moves() as u64;
    }

    let mut total = 0;
    let ttentry = tt.poll(pos.hash);
    if ttentry.hash == pos.hash && ttentry.depth == depth {
        return ttentry.nodes;
    }

    let mut moves = vec![];
    pos.move_generator(|_piece, from, to, promo| {
        moves.push(Mv { from, to, promo });
    });
    for mv in moves {
        let npos = pos.after_move::<true>(&mv);
        let nodes = ttperft(&npos, tt, depth - 1);
        total += nodes;
    }

    tt.add(pos.hash, &TTEntryPerft { hash: pos.hash, nodes: total, depth });

    total
}

#[test]
fn test_ttperft() {
    let tests: [(&str, [u64; 4]); 6] = [
        ("rnbqkbnr/pppppppp/8/8/8/8/PPPPPPPP/RNBQKBNR w KQkq - 0 1", [20, 400, 8902, 197281]),
        (
            "r3k2r/p1ppqpb1/bn2pnp1/3PN3/1p2P3/2N2Q1p/PPPBBPPP/R3K2R w KQkq - 0 1",
            [48, 2039, 97862, 4085603],
        ),
        ("4k3/8/8/8/8/8/8/4K2R w K - 0 1", [15, 66, 1197, 7059]),
        ("4k3/8/8/8/8/8/8/R3K3 w Q - 0 1", [16, 71, 1287, 7626]),
        ("4k2r/8/8/8/8/8/8/4K3 w k - 0 1", [5, 75, 459, 8290]),
        ("r3k3/8/8/8/8/8/8/4K3 w q - 0 1", [5, 80, 493, 8897]),
    ];

    let mut tt = Hashtable::<TTEntryPerft>::new(16);

    for (fen, results) in tests {
        println!("FEN: {}", fen);
        let pos = Position::from_fen(fen);

        for (idx, expected) in results.iter().enumerate() {
            let nodes = ttperft(&pos, &mut tt, idx as i32 + 1);
            println!("depth {} nodes {}", idx + 1, nodes);
            assert_eq!(nodes, *expected);
        }
    }
}

#[test]
fn basic() {
    let mut tt = Hashtable::<i32>::new(1);

    for i in 0..tt.len() {
        let key = i as u64;
        assert_eq!(tt.poll(key), 0);
    }

    for i in 0..4 * tt.len() {
        let key = i as u64;

        tt.add(key, &1);
        assert_eq!(tt.poll(key), 1);

        tt.add(key, &2);
        assert_eq!(tt.poll(key), 2);
    }
}

#[test]
fn hashtable_size_fill_and_clear() {
    let mut tt = Hashtable::<u64>::new(1);
    assert_eq!(tt.len(), 1024 * 1024 / 8);
    assert_eq!(tt.hashfull(), Some(0));
    tt.add(3, &7);
    tt.add(5, &9);
    assert_eq!(tt.hashfull(), Some(2));
    // A key picks the slot at the key modulo the length.
    assert_eq!(tt.poll(3 + tt.len() as u64), 7);
    tt.resize(2);
    assert_eq!(tt.len(), 2 * 1024 * 1024 / 8);
    assert_eq!(tt.poll(3), 7);
    tt.clear();
    assert_eq!(tt.poll(3), 0);
    assert_eq!(tt.hashfull(), Some(0));
    let empty = Hashtable::<u64>::new(0);
    assert_eq!(empty.len(), 0);
    assert_eq!(empty.hashfull(), None);
}

#[test]
fn ttentry_default() {
    let e = TTEntry::default();
    assert_eq!(e.hash, 0);
    assert_eq!(e.score, 0);
    assert_eq!(e.depth, 0);
    assert_eq!(e.flag, Flag::Exact);
    assert_eq!(Flag::default(), Flag::Exact);
    let mut tt = Hashtable::<TTEntry>::new(1);
    tt.add(11, &TTEntry { hash: 11, mv: e.mv, score: 5, depth: 2, flag: Flag::Lower });
    assert_eq!(tt.poll(11).score, 5);
    assert_eq!(tt.hashfull(), Some(1));
}

#[test]
fn poll_after_add_gives_the_entry_back() {
    let mut tt = Hashtable::<u32>::new(1);
    tt.add(40, &1);
    tt.add(41, &2);
    assert_eq!(tt.poll(40), 1);
    assert_eq!(tt.poll(41), 2);
    // A key that picks the same slot replaces the entry; others stay.
    let len = tt.len() as u64;
    tt.add(40 + len, &3);
    assert_eq!(tt.poll(40), 3);
    assert_eq!(tt.poll(41), 2);
}

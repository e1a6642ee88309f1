# rawr

A UCI chess engine whose move generation, FEN handling, hashing, evaluation and search are
written in Verus and proved against their contracts.

Layout:

- `src/chess/` — the board: bitboards, squares, pieces, rays and magic tables, attacks and pins,
  the legal moves (`legal_moves.rs`: a move is listed exactly when it is legal, once, in order
  of origin, target and promotion), making moves and null moves, Zobrist hashing, FEN reading and
  writing, position checks, board diagrams and perft.
  - `rehash.rs` and `hash_law.rs` prove that playing a move or a null move keeps the hash in step
    with the position; `sound_law.rs` and `play_law.rs` prove that play keeps a position sound,
    so that the hash stays in step along a whole line of moves; `parse_law.rs` proves that every
    position read from a FEN string is well formed, and `fen_law.rs` that it is playable, with
    its hash in step, whenever both sides castle on the same files.
- `src/search/` — scores, evaluation, static exchange evaluation, the transposition table,
  negamax with quiescence search, the random and greedy players, and the iterative deepening
  driver. The quiescence and alpha-beta scores, the best move left behind and the result of a
  fixed-depth run are stated exactly, whenever the stop test does not fire.
- `src/uci/` — the text of moves, the parsing of the `position`, `go` and `setoption`
  commands, and the session step that decides what each command does (`session.rs`).
- `app/main.rs` — the UCI loop, printing, timing and the benchmark.
- `tests/` — scenario tests, including perft counts and search puzzles.

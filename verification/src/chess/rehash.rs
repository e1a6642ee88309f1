use crate::chess::bitboard::{
    bit, group_bit_facts, lemma_bit_ops, lemma_bit_single, lemma_bit_xor, lemma_bits_ext,
    lemma_empty_iff, spec_swap_bytes,
};
use crate::chess::bitboarditer::lemma_clear_lowest;
use crate::chess::colour::Colour;
use crate::chess::makemove::xor_piece;
use crate::chess::mv::Mv;
use crate::chess::piece::Piece;
use crate::chess::position::Position;
use crate::chess::zobrist::{xor_keys, KEYS, KEYS_CASTLING, KEYS_EP, KEYS_TURN};
use vstd::prelude::*;
use vstd::std_specs::bits::{axiom_u64_trailing_zeros, u64_trailing_zeros};

verus! {

/// The exclusive or of `f(s)` over the squares `s` below `n`.
pub open spec fn fold(f: spec_fn(int) -> u64, n: nat) -> u64
    decreases n,
{
    if n == 0 {
        0
    } else {
        fold(f, (n - 1) as nat) ^ f(n - 1)
    }
}

/// Exclusive or can be regrouped and reordered.
pub proof fn lemma_xor4(a: u64, b: u64, c: u64, d: u64)
    by (bit_vector)
    ensures
        (a ^ b) ^ (c ^ d) == (a ^ c) ^ (b ^ d),
        a ^ 0u64 == a,
        0u64 ^ a == a,
        a ^ b == b ^ a,
        (a ^ b) ^ c == a ^ (b ^ c),
        a ^ a == 0u64,
{
}

/// Folding a pointwise exclusive or is the exclusive or of the folds.
pub proof fn lemma_fold_xor(f: spec_fn(int) -> u64, g: spec_fn(int) -> u64, h: spec_fn(int) -> u64, n: nat)
    requires
        forall|s: int| 0 <= s < n ==> #[trigger] h(s) == f(s) ^ g(s),
    ensures
        fold(h, n) == fold(f, n) ^ fold(g, n),
    decreases n,
{
    if n == 0 {
        lemma_xor4(0, 0, 0, 0);
    } else {
        lemma_fold_xor(f, g, h, (n - 1) as nat);
        lemma_xor4(fold(f, (n - 1) as nat), fold(g, (n - 1) as nat), f(n - 1), g(n - 1));
    }
}

/// A fold of a function that is zero below `n` except at `t` is its value at `t`.
pub proof fn lemma_fold_single(f: spec_fn(int) -> u64, n: nat, t: int)
    requires
        0 <= t < n,
        forall|s: int| 0 <= s < n && s != t ==> #[trigger] f(s) == 0,
    ensures
        fold(f, n) == f(t),
    decreases n,
{
    if n - 1 == t {
        lemma_fold_zero(f, (n - 1) as nat);
        lemma_xor4(f(t), 0, 0, 0);
    } else {
        lemma_fold_single(f, (n - 1) as nat, t);
        assert(f(n - 1) == 0);
        lemma_xor4(f(t), 0, 0, 0);
    }
}

/// A fold of a function that is zero below `n` is zero.
pub proof fn lemma_fold_zero(f: spec_fn(int) -> u64, n: nat)
    requires
        forall|s: int| 0 <= s < n ==> #[trigger] f(s) == 0,
    ensures
        fold(f, n) == 0,
    decreases n,
{
    if n > 0 {
        lemma_fold_zero(f, (n - 1) as nat);
        lemma_xor4(0, 0, 0, 0);
    }
}

/// The key `KEYS[base + s]` on the squares `s` of `x`, zero elsewhere.
pub open spec fn key_fn(x: u64, base: int) -> spec_fn(int) -> u64 {
    |s: int| if bit(x, s as u64) { KEYS[base + s] } else { 0u64 }
}

proof fn lemma_clear_lowest_lt(x: u64)
    by (bit_vector)
    requires
        x != 0,
    ensures
        x & ((x - 1) as u64) < x,
{
}

proof fn lemma_key_fn_clear(x: u64, t: u64, base: int, s: int)
    requires
        x != 0,
        t < 64,
        0 <= s < 64,
        (x >> t) & 1u64 == 1u64,
        x << ((64 - t) as u64) == 0,
    ensures
        key_fn(x, base)(s) == key_fn(x & ((x - 1) as u64), base)(s) ^ (if s == t as int {
            KEYS[base + t]
        } else {
            0u64
        }),
{
    lemma_clear_lowest(x, t, s as u64);
    lemma_xor4(KEYS[base + s], 0, 0, 0);
    lemma_xor4(0, 0, 0, 0);
}

/// The keys of the squares of a set, combined, square by square.
pub proof fn lemma_xor_keys_fold(x: u64, base: int)
    ensures
        xor_keys(x, base) == fold(key_fn(x, base), 64),
    decreases x,
{
    if x == 0 {
        assert forall|s: int| 0 <= s < 64 implies #[trigger] key_fn(x, base)(s) == 0 by {
            lemma_bit_ops(x, x, s as u64);
        }
        lemma_fold_zero(key_fn(x, base), 64);
    } else {
        axiom_u64_trailing_zeros(x);
        let t = u64_trailing_zeros(x) as u64;
        let y = x & ((x - 1) as u64);
        lemma_clear_lowest_lt(x);
        lemma_xor_keys_fold(y, base);
        let single = |s: int| if s == t as int { KEYS[base + t] } else { 0u64 };
        assert forall|s: int| 0 <= s < 64 implies #[trigger] key_fn(x, base)(s) == key_fn(y, base)(s)
            ^ single(s) by {
            lemma_key_fn_clear(x, t, base, s);
        }
        lemma_fold_xor(key_fn(y, base), single, key_fn(x, base), 64);
        lemma_fold_single(single, 64, t as int);
        lemma_xor4(KEYS[base + t], xor_keys(y, base), 0, 0);
    }
}

/// Toggling one square of a set toggles its key in the combined keys of the set.
pub proof fn lemma_xor_keys_toggle(x: u64, q: u64, base: int)
    requires
        q < 64,
    ensures
        xor_keys(x ^ (1u64 << q), base) == xor_keys(x, base) ^ KEYS[base + q],
{
    let y = x ^ (1u64 << q);
    let single = |s: int| if s == q as int { KEYS[base + q] } else { 0u64 };
    assert forall|s: int| 0 <= s < 64 implies #[trigger] key_fn(y, base)(s) == key_fn(x, base)(s)
        ^ single(s) by {
        lemma_bit_ops(x, 1u64 << q, s as u64);
        lemma_bit_single(q, s as u64);
        lemma_xor4(KEYS[base + s], 0, 0, 0);
        lemma_xor4(0, 0, 0, 0);
    }
    lemma_xor_keys_fold(x, base);
    lemma_xor_keys_fold(y, base);
    lemma_fold_xor(key_fn(x, base), single, key_fn(y, base), 64);
    lemma_fold_single(single, 64, q as int);
}

/// Mirroring a set with one square toggled is the mirrored set with the mirrored square
/// toggled.
pub proof fn lemma_swap_toggle(x: u64, q: u64)
    by (bit_vector)
    requires
        q < 64,
    ensures
        spec_swap_bytes(x ^ (1u64 << q)) == spec_swap_bytes(x) ^ (1u64 << (q ^ 56u64)),
        q ^ 56u64 < 64,
{
}

/// Square `q` as white sees it, with `turn` to move.
pub open spec fn pov_sq(q: int, turn: Colour) -> int {
    if turn == Colour::White {
        q
    } else {
        (q as u64 ^ 56u64) as int
    }
}

/// The side kept at `c` of the colours (0 for the side to move, 1 for the other), with `turn`
/// to move.
pub open spec fn col_of(turn: Colour, c: int) -> Colour {
    if c == 0 {
        turn
    } else {
        turn.spec_other()
    }
}

/// Where the pieces of `col` are kept among the colours, with `turn` to move.
pub open spec fn phys(turn: Colour, col: Colour) -> int {
    if col == turn {
        0
    } else {
        1
    }
}

/// The key of a piece of the side at `c` and kind `k` on square `q`, with `turn` to move.
pub open spec fn piece_key(turn: Colour, c: int, k: int, q: int) -> u64 {
    KEYS[col_of(turn, c).spec_index() * 384 + k * 64 + pov_sq(q, turn)]
}

/// The keys of the pieces of `col` of the kinds below `n`, combined onto `acc`, for the board
/// whose pieces of the side at `c` and kind `k` are `a(c, k)`.
pub open spec fn board_pieces(turn: Colour, a: spec_fn(int, int) -> u64, col: Colour, n: nat, acc: u64) -> u64
    decreases n,
{
    if n == 0 {
        acc
    } else {
        board_pieces(turn, a, col, (n - 1) as nat, acc) ^ xor_keys(
            Position::spec_white_pov(a(phys(turn, col), n - 1), turn),
            col.spec_index() * 384 + (n - 1) * 64,
        )
    }
}

/// The keys of all the pieces of the board `a`.
pub open spec fn board_hash(turn: Colour, a: spec_fn(int, int) -> u64) -> u64 {
    board_pieces(turn, a, Colour::Black, 6, board_pieces(turn, a, Colour::White, 6, 0))
}

/// The board of a position: its pieces of the side at `c` and kind `k`.
pub open spec fn board_of(p: Position) -> spec_fn(int, int) -> u64 {
    |c: int, k: int| p.colours[c].0 & p.pieces[k].0
}

proof fn lemma_board_pieces_of(p: Position, col: Colour, n: nat, acc: u64)
    requires
        n <= 6,
    ensures
        p.hash_pieces(col, n, acc) == board_pieces(p.turn, board_of(p), col, n, acc),
    decreases n,
{
    if n > 0 {
        lemma_board_pieces_of(p, col, (n - 1) as nat, acc);
    }
}

/// The keys of the pieces of a position, as the hash combines them.
pub proof fn lemma_board_hash_of(p: Position)
    ensures
        p.hash_pieces(Colour::Black, 6, p.hash_pieces(Colour::White, 6, 0)) == board_hash(
            p.turn,
            board_of(p),
        ),
{
    lemma_board_pieces_of(p, Colour::White, 6, 0);
    lemma_board_pieces_of(p, Colour::Black, 6, p.hash_pieces(Colour::White, 6, 0));
}

proof fn lemma_board_pieces_acc(turn: Colour, a: spec_fn(int, int) -> u64, col: Colour, n: nat, acc: u64, d: u64)
    ensures
        board_pieces(turn, a, col, n, acc ^ d) == board_pieces(turn, a, col, n, acc) ^ d,
    decreases n,
{
    if n > 0 {
        lemma_board_pieces_acc(turn, a, col, (n - 1) as nat, acc, d);
        let x = xor_keys(
            Position::spec_white_pov(a(phys(turn, col), n - 1), turn),
            col.spec_index() * 384 + (n - 1) * 64,
        );
        lemma_xor4(board_pieces(turn, a, col, (n - 1) as nat, acc), d, x, 0);
        lemma_xor4(d, 0, 0, 0);
        lemma_xor4(x, 0, 0, 0);
    }
}

proof fn lemma_board_pieces_same(turn: Colour, a: spec_fn(int, int) -> u64, b: spec_fn(int, int) -> u64, col: Colour, n: nat, acc: u64)
    requires
        n <= 6,
        forall|c: int, k: int| 0 <= c < 2 && 0 <= k < 6 ==> #[trigger] a(c, k) == b(c, k),
    ensures
        board_pieces(turn, a, col, n, acc) == board_pieces(turn, b, col, n, acc),
    decreases n,
{
    if n > 0 {
        lemma_board_pieces_same(turn, a, b, col, (n - 1) as nat, acc);
        assert(a(phys(turn, col), n - 1) == b(phys(turn, col), n - 1));
    }
}

proof fn lemma_board_pieces_toggle(
    turn: Colour,
    a: spec_fn(int, int) -> u64,
    b: spec_fn(int, int) -> u64,
    col: Colour,
    n: nat,
    acc: u64,
    c0: int,
    k0: int,
    q: int,
)
    requires
        n <= 6,
        0 <= c0 < 2,
        0 <= k0 < 6,
        0 <= q < 64,
        forall|c: int, k: int|
            0 <= c < 2 && 0 <= k < 6 ==> #[trigger] b(c, k) == if c == c0 && k == k0 {
                a(c, k) ^ (1u64 << (q as u64))
            } else {
                a(c, k)
            },
    ensures
        board_pieces(turn, b, col, n, acc) == board_pieces(turn, a, col, n, acc) ^ (if phys(
            turn,
            col,
        ) == c0 && k0 < n {
            piece_key(turn, c0, k0, q)
        } else {
            0u64
        }),
    decreases n,
{
    if n == 0 {
        lemma_xor4(acc, 0, 0, 0);
    } else {
        lemma_board_pieces_toggle(turn, a, b, col, (n - 1) as nat, acc, c0, k0, q);
        let pa = board_pieces(turn, a, col, (n - 1) as nat, acc);
        let base = col.spec_index() * 384 + (n - 1) * 64;
        let xa = xor_keys(Position::spec_white_pov(a(phys(turn, col), n - 1), turn), base);
        let xb = xor_keys(Position::spec_white_pov(b(phys(turn, col), n - 1), turn), base);
        let hit = phys(turn, col) == c0 && k0 == n - 1;
        let before = phys(turn, col) == c0 && k0 < n - 1;
        let key = piece_key(turn, c0, k0, q);
        assert(phys(turn, col) == c0 ==> col_of(turn, c0) == col) by {
            if phys(turn, col) == c0 {
                match turn {
                    Colour::White => {},
                    Colour::Black => {},
                }
            }
        }
        if hit {
            let x = a(phys(turn, col), n - 1);
            assert(b(phys(turn, col), n - 1) == x ^ (1u64 << (q as u64)));
            if turn == Colour::White {
                lemma_xor_keys_toggle(x, q as u64, base);
            } else {
                lemma_swap_toggle(x, q as u64);
                lemma_xor_keys_toggle(spec_swap_bytes(x), (q as u64) ^ 56u64, base);
            }
            assert(xb == xa ^ key);
            lemma_xor4(pa, 0, xa, key);
            lemma_xor4(pa, 0, 0, 0);
            lemma_xor4(key, 0, 0, 0);
        } else {
            assert(b(phys(turn, col), n - 1) == a(phys(turn, col), n - 1));
            if before {
                lemma_xor4(pa, key, xa, 0);
                lemma_xor4(key, 0, 0, 0);
                lemma_xor4(xa, 0, 0, 0);
            } else {
                lemma_xor4(pa, 0, 0, 0);
                lemma_xor4(pa ^ xa, 0, 0, 0);
            }
        }
    }
}

pub proof fn lemma_board_hash_same(turn: Colour, a: spec_fn(int, int) -> u64, b: spec_fn(int, int) -> u64)
    requires
        forall|c: int, k: int| 0 <= c < 2 && 0 <= k < 6 ==> #[trigger] a(c, k) == b(c, k),
    ensures
        board_hash(turn, a) == board_hash(turn, b),
{
    lemma_board_pieces_same(turn, a, b, Colour::White, 6, 0);
    lemma_board_pieces_same(turn, a, b, Colour::Black, 6, board_pieces(turn, a, Colour::White, 6, 0));
}

proof fn lemma_board_hash_toggle(
    turn: Colour,
    a: spec_fn(int, int) -> u64,
    b: spec_fn(int, int) -> u64,
    c0: int,
    k0: int,
    q: int,
)
    requires
        0 <= c0 < 2,
        0 <= k0 < 6,
        0 <= q < 64,
        forall|c: int, k: int|
            0 <= c < 2 && 0 <= k < 6 ==> #[trigger] b(c, k) == if c == c0 && k == k0 {
                a(c, k) ^ (1u64 << (q as u64))
            } else {
                a(c, k)
            },
    ensures
        board_hash(turn, b) == board_hash(turn, a) ^ piece_key(turn, c0, k0, q),
{
    let key = piece_key(turn, c0, k0, q);
    let wa = board_pieces(turn, a, Colour::White, 6, 0);
    let dw = if phys(turn, Colour::White) == c0 { key } else { 0u64 };
    let db = if phys(turn, Colour::Black) == c0 { key } else { 0u64 };
    lemma_board_pieces_toggle(turn, a, b, Colour::White, 6, 0, c0, k0, q);
    lemma_board_pieces_acc(turn, b, Colour::Black, 6, wa, dw);
    lemma_board_pieces_toggle(turn, a, b, Colour::Black, 6, wa, c0, k0, q);
    let ba = board_pieces(turn, a, Colour::Black, 6, wa);
    assert(phys(turn, Colour::White) == c0 <==> phys(turn, Colour::Black) != c0) by {
        match turn {
            Colour::White => {},
            Colour::Black => {},
        }
    }
    lemma_xor4(ba, 0, 0, 0);
    lemma_xor4(key, 0, 0, 0);
    lemma_xor4(ba ^ key, 0, 0, 0);
    lemma_xor4(ba, key, 0, 0);
}

/// The changes `ev` all name a side, a kind of piece and a square.
pub open spec fn ev_valid(ev: Seq<(bool, int, int, int)>) -> bool {
    forall|i: int|
        0 <= i < ev.len() ==> 0 <= (#[trigger] ev[i]).1 < 2 && 0 <= ev[i].2 < 6 && 0 <= ev[i].3 < 64
}

/// The squares the changes `ev` toggle for the pieces of the side at `c` and kind `k`: a change
/// `(on, c, k, q)` toggles square `q` when `on`.
pub open spec fn ev_mask(ev: Seq<(bool, int, int, int)>, c: int, k: int) -> u64
    decreases ev.len(),
{
    if ev.len() == 0 {
        0
    } else {
        let e = ev.last();
        ev_mask(ev.drop_last(), c, k) ^ (if e.0 && e.1 == c && e.2 == k {
            1u64 << (e.3 as u64)
        } else {
            0u64
        })
    }
}

/// The key a change toggles, with `turn` to move.
pub open spec fn ev_key(turn: Colour, e: (bool, int, int, int)) -> u64 {
    if e.0 {
        piece_key(turn, e.1, e.2, e.3)
    } else {
        0u64
    }
}

/// The keys the changes `ev` toggle, combined in order.
pub open spec fn ev_sum(turn: Colour, ev: Seq<(bool, int, int, int)>) -> u64
    decreases ev.len(),
{
    if ev.len() == 0 {
        0
    } else {
        ev_sum(turn, ev.drop_last()) ^ ev_key(turn, ev.last())
    }
}

/// Making the changes `ev` to a board changes the keys of its pieces by the keys of the changes.
pub proof fn lemma_board_hash_events(
    turn: Colour,
    a: spec_fn(int, int) -> u64,
    b: spec_fn(int, int) -> u64,
    ev: Seq<(bool, int, int, int)>,
)
    requires
        ev_valid(ev),
        forall|c: int, k: int| 0 <= c < 2 && 0 <= k < 6 ==> #[trigger] b(c, k) == a(c, k) ^ ev_mask(ev, c, k),
    ensures
        board_hash(turn, b) == board_hash(turn, a) ^ ev_sum(turn, ev),
    decreases ev.len(),
{
    if ev.len() == 0 {
        assert forall|c: int, k: int| 0 <= c < 2 && 0 <= k < 6 implies #[trigger] a(c, k) == b(c, k) by {
            lemma_xor4(a(c, k), 0, 0, 0);
        }
        lemma_board_hash_same(turn, a, b);
        lemma_xor4(board_hash(turn, a), 0, 0, 0);
    } else {
        let ev0 = ev.drop_last();
        let e = ev.last();
        assert(ev_valid(ev0)) by {
            assert forall|i: int| 0 <= i < ev0.len() implies 0 <= (#[trigger] ev0[i]).1 < 2 && 0 <= ev0[i].2 < 6
                && 0 <= ev0[i].3 < 64 by {
                assert(ev0[i] == ev[i]);
            }
        }
        assert(0 <= e.1 < 2 && 0 <= e.2 < 6 && 0 <= e.3 < 64) by {
            assert(ev[ev.len() - 1] == e);
        }
        let m = |c: int, k: int| a(c, k) ^ ev_mask(ev0, c, k);
        lemma_board_hash_events(turn, a, m, ev0);
        if e.0 {
            assert forall|c: int, k: int| 0 <= c < 2 && 0 <= k < 6 implies #[trigger] b(c, k) == if c == e.1
                && k == e.2 {
                m(c, k) ^ (1u64 << (e.3 as u64))
            } else {
                m(c, k)
            } by {
                lemma_xor4(a(c, k), ev_mask(ev0, c, k), 1u64 << (e.3 as u64), 0);
                lemma_xor4(ev_mask(ev0, c, k), 0, 0, 0);
            }
            lemma_board_hash_toggle(turn, m, b, e.1, e.2, e.3);
        } else {
            assert forall|c: int, k: int| 0 <= c < 2 && 0 <= k < 6 implies #[trigger] m(c, k) == b(c, k) by {
                lemma_xor4(ev_mask(ev0, c, k), 0, 0, 0);
            }
            lemma_board_hash_same(turn, m, b);
            lemma_xor4(board_hash(turn, b), 0, 0, 0);
            lemma_xor4(ev_sum(turn, ev0), 0, 0, 0);
        }
        lemma_xor4(board_hash(turn, a), ev_sum(turn, ev0), ev_key(turn, e), 0);
    }
}

/// Mirroring keeps the squares both sets share, and mirroring twice gives the set back.
proof fn lemma_swap_and(x: u64, y: u64)
    by (bit_vector)
    ensures
        spec_swap_bytes(x & y) == spec_swap_bytes(x) & spec_swap_bytes(y),
        spec_swap_bytes(spec_swap_bytes(x)) == x,
{
}

/// A square and its mirror are on the same file.
proof fn lemma_flip_file(e: u8)
    by (bit_vector)
    requires
        e < 64,
    ensures
        (e ^ 56u8) % 8 == e % 8,
{
}

proof fn lemma_board_pieces_flip(p: Position, col: Colour, n: nat, acc: u64)
    requires
        n <= 6,
    ensures
        board_pieces(p.spec_flip().turn, board_of(p.spec_flip()), col, n, acc) == board_pieces(
            p.turn,
            board_of(p),
            col,
            n,
            acc,
        ),
    decreases n,
{
    if n > 0 {
        lemma_board_pieces_flip(p, col, (n - 1) as nat, acc);
        let f = p.spec_flip();
        let k = n - 1;
        let c = phys(p.turn, col);
        assert(phys(f.turn, col) == 1 - c);
        let x = p.colours[c].0 & p.pieces[k].0;
        lemma_swap_and(p.colours[c].0, p.pieces[k].0);
        lemma_swap_and(x, x);
        assert(board_of(f)(phys(f.turn, col), k) == spec_swap_bytes(x));
        assert(Position::spec_white_pov(board_of(f)(phys(f.turn, col), k), f.turn)
            == Position::spec_white_pov(board_of(p)(c, k), p.turn));
    }
}

/// The hash of a position as the other side sees it is its hash with the turn key toggled.
pub proof fn lemma_calculate_hash_flip(p: Position)
    requires
        p.ep matches Some(e) ==> e.valid(),
    ensures
        p.spec_flip().spec_calculate_hash() == p.spec_calculate_hash() ^ KEYS_TURN,
{
    broadcast use lemma_bit_xor;

    let f = p.spec_flip();
    lemma_board_hash_of(p);
    lemma_board_hash_of(f);
    lemma_board_pieces_flip(p, Colour::White, 6, 0);
    lemma_board_pieces_flip(p, Colour::Black, 6, board_pieces(p.turn, board_of(p), Colour::White, 6, 0));
    if let Some(e) = p.ep {
        lemma_flip_file(e.0);
    }
    let l = f.spec_calculate_hash();
    let r = p.spec_calculate_hash() ^ KEYS_TURN;
    assert forall|b: u64| b < 64 implies #[trigger] bit(l, b) == bit(r, b) by {
        match p.turn {
            Colour::White => {},
            Colour::Black => {},
        }
    }
    lemma_bits_ext(l, r);
}

impl Position {
    /// The position is sound: well formed, with no kind of piece on an empty square, one king of
    /// the side to move, each castling right backed by a rook of its side on its castling square
    /// (for the side to move, east of its king on the king side and west of it on the queen side),
    /// and an empty en passant square with a pawn of the other side just below it.
    pub open spec fn sound(self) -> bool {
        &&& self.wf()
        &&& forall|s: int, i: int|
            0 <= i < 6 && #[trigger] self.pieces[i].has(s) ==> self.colours[0].has(s)
                || self.colours[1].has(s)
        &&& forall|s: int| #[trigger]
            self.colours[0].has(s) && self.pieces[5].has(s) ==> s == self.us_king()
        &&& (self.us_ksc ==> self.colours[0].has(self.castle_files[0] as int) && self.pieces[3].has(
            self.castle_files[0] as int,
        ) && self.us_king() < self.castle_files[0])
        &&& (self.us_qsc ==> self.colours[0].has(self.castle_files[1] as int) && self.pieces[3].has(
            self.castle_files[1] as int,
        ) && self.castle_files[1] < self.us_king())
        &&& (self.them_ksc ==> self.colours[1].has(56 + self.castle_files[2]) && self.pieces[3].has(
            56 + self.castle_files[2],
        ))
        &&& (self.them_qsc ==> self.colours[1].has(56 + self.castle_files[3]) && self.pieces[3].has(
            56 + self.castle_files[3],
        ))
        &&& (self.ep matches Some(e) ==> {
            &&& e.0 >= 8
            &&& !self.colours[0].has(e.0 as int)
            &&& !self.colours[1].has(e.0 as int)
            &&& self.colours[1].has(e.0 - 8)
            &&& self.pieces[0].has(e.0 - 8)
        })
    }

    /// The move castles on the king side: the king moves onto its own rook on the king side
    /// castling square, east of it, holding the right.
    pub open spec fn castles_ks(self, mv: Mv) -> bool {
        &&& self.piece_on(mv.from.0 as int) == Some(Piece::King)
        &&& self.us_ksc
        &&& mv.to.0 == self.castle_files[0]
    }

    /// The move castles on the queen side.
    pub open spec fn castles_qs(self, mv: Mv) -> bool {
        &&& self.piece_on(mv.from.0 as int) == Some(Piece::King)
        &&& !self.castles_ks(mv)
        &&& self.us_qsc
        &&& mv.to.0 == self.castle_files[1]
    }

    /// The move has the shape of the moves the move generator makes: it passes `move_ok`, leaves
    /// its square, and lands on a square the side to move does not hold, unless it castles, the
    /// king moving east onto the king side rook or west onto the queen side rook; when it castles
    /// the squares the king and the rook end on are empty or are the squares of the move.
    pub open spec fn move_shaped(self, mv: Mv) -> bool {
        &&& self.move_ok(mv)
        &&& mv.from != mv.to
        &&& (self.colours[0].has(mv.to.0 as int) ==> self.castles_ks(mv) || self.castles_qs(mv))
        &&& (self.castles_ks(mv) ==> {
            &&& mv.from.0 < mv.to.0
            &&& (self.occ_at(6) ==> mv.from.0 == 6 || mv.to.0 == 6)
            &&& (self.occ_at(5) ==> mv.from.0 == 5 || mv.to.0 == 5)
        })
        &&& (self.castles_qs(mv) ==> {
            &&& mv.to.0 < mv.from.0
            &&& (self.occ_at(2) ==> mv.from.0 == 2 || mv.to.0 == 2)
            &&& (self.occ_at(3) ==> mv.from.0 == 3 || mv.to.0 == 3)
        })
    }

    /// Square `s` holds a piece.
    pub open spec fn occ_at(self, s: int) -> bool {
        self.colours[0].has(s) || self.colours[1].has(s)
    }

    /// The move takes a pawn en passant.
    pub open spec fn takes_ep(self, mv: Mv) -> bool {
        &&& self.piece_on(mv.from.0 as int) == Some(Piece::Pawn)
        &&& mv.from.0 % 8 != mv.to.0 % 8
        &&& self.piece_on(mv.to.0 as int).is_none()
    }

    /// The changes a move makes to the pieces on the board, in the order `predict_hash` toggles
    /// their keys: the mover leaves its square and lands, a piece taken is removed, a pawn taken
    /// en passant is removed, a castling king and rook are put on their squares, and a promoted
    /// pawn is replaced.
    pub open spec fn move_events(self, mv: Mv) -> Seq<(bool, int, int, int)> {
        let from = mv.from.0 as int;
        let to = mv.to.0 as int;
        let pk = self.piece_on(from).unwrap().spec_index() as int;
        let cap = self.colours[1].has(to);
        let ck = if cap { self.piece_on(to).unwrap().spec_index() as int } else { 0 };
        let epc = self.takes_ep(mv);
        let ks = self.castles_ks(mv);
        let cs = ks || self.castles_qs(mv);
        let (kk, rr, rook) = if ks {
            (6int, 5int, self.castle_files[0] as int)
        } else {
            (2int, 3int, self.castle_files[1] as int)
        };
        let promo = mv.promo != Piece::NoPiece;
        let prk = if promo { mv.promo.spec_index() as int } else { 0 };
        Seq::empty().push((true, 0, pk, from)).push((true, 0, pk, to)).push((cap, 1, ck, to)).push(
            (epc, 1, 0, if epc { to - 8 } else { 0 }),
        ).push((cs, 0, 5, from)).push((cs, 0, 5, to)).push((cs, 0, 5, from)).push((cs, 0, 5, kk)).push(
            (cs, 0, 3, rook),
        ).push((cs, 0, 3, rr)).push((promo, 0, 0, to)).push((promo, 0, prk, to))
    }
}

/// A single square shifted down a rank.
proof fn lemma_one_south(t: u64)
    by (bit_vector)
    requires
        8 <= t < 64,
    ensures
        (1u64 << t) >> 8u64 == 1u64 << ((t - 8) as u64),
{
}

/// What a move changes on the board, square by square: the side to move, the other side and
/// each kind of piece gain or lose square `q` as the changes of the move say.
pub open spec fn changed(ev: Seq<(bool, int, int, int)>, c: int, k: int, q: int) -> bool {
    bit(ev_mask(ev, c, k), q as u64)
}

impl Position {
    /// The king takes its own rook: the move castles.
    pub open spec fn castles(self, mv: Mv) -> bool {
        self.castles_ks(mv) || self.castles_qs(mv)
    }
}

proof fn lemma_castle_detect(p: Position, mv: Mv, s0: Position)
    requires
        p.sound(),
        p.move_shaped(mv),
        s0 == (Position { hash: s0.hash, ..p }),
    ensures
        ({
            let piece = p.piece_on(mv.from.0 as int).unwrap();
            let captured = p.piece_on(mv.to.0 as int);
            let s2 = s0.play_relocate(mv, piece, captured).play_ep(mv, piece, captured);
            (s2.pieces[5].0 & s2.pieces[3].0 != 0) == p.castles(mv)
        }),
{
    broadcast use group_bit_facts;

    reveal(Position::play_relocate);
    reveal(Position::play_ep);
    let piece = p.piece_on(mv.from.0 as int).unwrap();
    let captured = p.piece_on(mv.to.0 as int);
    let s2 = s0.play_relocate(mv, piece, captured).play_ep(mv, piece, captured);
    let kr = s2.pieces[5].0 & s2.pieces[3].0;
    let from = mv.from.0 as int;
    let to = mv.to.0 as int;
    assert(p.pieces[piece.spec_index() as int].has(from));
    if p.castles(mv) {
        assert(p.colours[0].has(to) && p.pieces[3].has(to));
        assert(!p.pieces[5].has(to)) by {
            assert(!(p.pieces[3].has(to) && p.pieces[5].has(to)));
        }
        assert(bit(kr, to as u64));
    } else {
        if p.colours[1].has(to) {
            assert(p.piece_on(to).is_some());
        }
        assert(!(p.pieces[3].has(to) && p.pieces[5].has(to)));
        assert(!(p.pieces[3].has(from) && p.pieces[5].has(from)));
        assert forall|q: u64| q < 64 implies !#[trigger] bit(kr, q) by {
            let qi = q as int;
            assert(!(p.pieces[3].has(qi) && p.pieces[5].has(qi)));
        }
    }
    lemma_empty_iff(kr);
}

proof fn lemma_changed_push(ev: Seq<(bool, int, int, int)>, e: (bool, int, int, int), c: int, k: int, q: int)
    requires
        0 <= e.3 < 64,
        0 <= q < 64,
    ensures
        changed(ev.push(e), c, k, q) == (changed(ev, c, k, q) != (e.0 && e.1 == c && e.2 == k && e.3 == q)),
{
    assert(ev.push(e).drop_last() =~= ev);
    let term = if e.0 && e.1 == c && e.2 == k {
        1u64 << (e.3 as u64)
    } else {
        0u64
    };
    lemma_bit_ops(ev_mask(ev, c, k), term, q as u64);
    lemma_bit_single(e.3 as u64, q as u64);
}

/// The squares a move changes, side by side and kind by kind.
pub open spec fn move_changes(p: Position, mv: Mv, c: int, k: int, q: int) -> bool {
    let from = mv.from.0 as int;
    let to = mv.to.0 as int;
    let pk = p.piece_on(from).unwrap().spec_index() as int;
    let cap = p.colours[1].has(to);
    let ck = if cap { p.piece_on(to).unwrap().spec_index() as int } else { 0 };
    let epc = p.takes_ep(mv);
    let ks = p.castles_ks(mv);
    let cs = p.castles(mv);
    let (kk, rr, rook) = if ks {
        (6int, 5int, p.castle_files[0] as int)
    } else {
        (2int, 3int, p.castle_files[1] as int)
    };
    let promo = mv.promo != Piece::NoPiece;
    let prk = if promo { mv.promo.spec_index() as int } else { 0 };
    (c == 0 && k == pk && q == from) != (c == 0 && k == pk && q == to) != (cap && c == 1 && k == ck
        && q == to) != (epc && c == 1 && k == 0 && q == to - 8) != (cs && c == 0 && k == 5 && q
        == from) != (cs && c == 0 && k == 5 && q == to) != (cs && c == 0 && k == 5 && q == from) != (
    cs && c == 0 && k == 5 && q == kk) != (cs && c == 0 && k == 3 && q == rook) != (cs && c == 0 && k
        == 3 && q == rr) != (promo && c == 0 && k == 0 && q == to) != (promo && c == 0 && k == prk && q
        == to)
}

proof fn lemma_move_changes(p: Position, mv: Mv, c: int, k: int, q: int)
    requires
        p.sound(),
        p.move_shaped(mv),
        0 <= q < 64,
    ensures
        changed(p.move_events(mv), c, k, q) == move_changes(p, mv, c, k, q),
        ev_valid(p.move_events(mv)),
{
    let from = mv.from.0 as int;
    let to = mv.to.0 as int;
    let pk = p.piece_on(from).unwrap().spec_index() as int;
    let cap = p.colours[1].has(to);
    let ck = if cap { p.piece_on(to).unwrap().spec_index() as int } else { 0 };
    let epc = p.takes_ep(mv);
    let ks = p.castles_ks(mv);
    let cs = ks || p.castles_qs(mv);
    let (kk, rr, rook) = if ks {
        (6int, 5int, p.castle_files[0] as int)
    } else {
        (2int, 3int, p.castle_files[1] as int)
    };
    let promo = mv.promo != Piece::NoPiece;
    let prk = if promo { mv.promo.spec_index() as int } else { 0 };
    assert(p.castle_files[0int] < 8 && p.castle_files[1int] < 8);
    if epc {
        assert(p.gen_ok(Piece::Pawn, mv));
        assert(to >= 8);
    }
    let e0 = Seq::<(bool, int, int, int)>::empty();
    let e1 = e0.push((true, 0, pk, from));
    let e2 = e1.push((true, 0, pk, to));
    let e3 = e2.push((cap, 1, ck, to));
    let e4 = e3.push((epc, 1, 0, if epc { to - 8 } else { 0 }));
    let e5 = e4.push((cs, 0, 5, from));
    let e6 = e5.push((cs, 0, 5, to));
    let e7 = e6.push((cs, 0, 5, from));
    let e8 = e7.push((cs, 0, 5, kk));
    let e9 = e8.push((cs, 0, 3, rook));
    let e10 = e9.push((cs, 0, 3, rr));
    let e11 = e10.push((promo, 0, 0, to));
    let e12 = e11.push((promo, 0, prk, to));
    assert(e12 == p.move_events(mv));
    assert(!changed(e0, c, k, q)) by {
        broadcast use group_bit_facts;

    }
    lemma_changed_push(e0, (true, 0, pk, from), c, k, q);
    lemma_changed_push(e1, (true, 0, pk, to), c, k, q);
    lemma_changed_push(e2, (cap, 1, ck, to), c, k, q);
    lemma_changed_push(e3, (epc, 1, 0, if epc { to - 8 } else { 0 }), c, k, q);
    lemma_changed_push(e4, (cs, 0, 5, from), c, k, q);
    lemma_changed_push(e5, (cs, 0, 5, to), c, k, q);
    lemma_changed_push(e6, (cs, 0, 5, from), c, k, q);
    lemma_changed_push(e7, (cs, 0, 5, kk), c, k, q);
    lemma_changed_push(e8, (cs, 0, 3, rook), c, k, q);
    lemma_changed_push(e9, (cs, 0, 3, rr), c, k, q);
    lemma_changed_push(e10, (promo, 0, 0, to), c, k, q);
    lemma_changed_push(e11, (promo, 0, prk, to), c, k, q);
    assert(0 <= pk < 6);
    if cap {
        assert(p.piece_on(to).is_some());
    }
    assert(0 <= prk < 6);
    assert(ev_valid(e12)) by {
        assert forall|i: int| 0 <= i < e12.len() implies 0 <= (#[trigger] e12[i]).1 < 2 && 0 <= e12[i].2 < 6
            && 0 <= e12[i].3 < 64 by {
            assert(e12[0] == (true, 0int, pk, from));
            assert(e12[1] == (true, 0int, pk, to));
            assert(e12[2] == (cap, 1int, ck, to));
            assert(e12[3] == (epc, 1int, 0int, if epc { to - 8 } else { 0 }));
            assert(e12[4] == (cs, 0int, 5int, from));
            assert(e12[5] == (cs, 0int, 5int, to));
            assert(e12[6] == (cs, 0int, 5int, from));
            assert(e12[7] == (cs, 0int, 5int, kk));
            assert(e12[8] == (cs, 0int, 3int, rook));
            assert(e12[9] == (cs, 0int, 3int, rr));
            assert(e12[10] == (promo, 0int, 0int, to));
            assert(e12[11] == (promo, 0int, prk, to));
        }
    }
}

/// The squares of the board after a move, square by square, before it is seen from the other
/// side: `0` and `1` for the two sides, `2 + k` for the pieces of kind `k`.
pub open spec fn after_bit(p: Position, mv: Mv, i: int, q: int) -> bool {
    let from = mv.from.0 as int;
    let to = mv.to.0 as int;
    let pk = p.piece_on(from).unwrap().spec_index() as int;
    let cap = p.colours[1].has(to);
    let ck = if cap { p.piece_on(to).unwrap().spec_index() as int } else { 0 };
    let epc = p.takes_ep(mv);
    let ks = p.castles_ks(mv);
    let cs = p.castles(mv);
    let (kk, rr, rook) = if ks {
        (6int, 5int, p.castle_files[0] as int)
    } else {
        (2int, 3int, p.castle_files[1] as int)
    };
    let promo = mv.promo != Piece::NoPiece;
    let prk = if promo { mv.promo.spec_index() as int } else { 0 };
    let ft = q == from || q == to;
    if i == 0 {
        p.colours[0].has(q) != ft != (cs && (ft != (q == from) != (q == kk) != (q == rook) != (q
            == rr)))
    } else if i == 1 {
        p.colours[1].has(q) != (cap && q == to) != (epc && q == to - 8)
    } else {
        let k = i - 2;
        p.pieces[k].has(q) != (k == pk && ft) != (cap && k == ck && q == to) != (epc && k == 0 && q
            == to - 8) != (cs && k == 5 && (ft != (q == from) != (q == kk))) != (cs && k == 3 && ((q
            == rook) != (q == rr))) != (promo && k == 0 && q == to) != (promo && k == prk && q == to)
    }
}

proof fn lemma_relocate_bits(s: Position, mv: Mv, piece: Piece, captured: Option<Piece>, q: int)
    requires
        mv.from.valid(),
        mv.to.valid(),
        piece != Piece::NoPiece,
        s.colours[1].has(mv.to.0 as int) ==> captured.is_some() && captured != Some(Piece::NoPiece),
        0 <= q < 64,
    ensures
        ({
            let s1 = s.play_relocate(mv, piece, captured);
            let from = mv.from.0 as int;
            let to = mv.to.0 as int;
            let cap = s.colours[1].has(to);
            &&& s1.colours[0].has(q) == (s.colours[0].has(q) != (q == from || q == to))
            &&& s1.colours[1].has(q) == (s.colours[1].has(q) != (cap && q == to))
            &&& forall|k: int|
                0 <= k < 6 ==> #[trigger] s1.pieces[k].has(q) == (s.pieces[k].has(q) != (k
                    == piece.spec_index() && (q == from || q == to)) != (cap && k
                    == captured.unwrap().spec_index() && q == to))
            &&& s1.ep == s.ep && s1.castle_files == s.castle_files && s1.turn == s.turn && s1.hash == s.hash
            &&& s1.us_ksc == s.us_ksc && s1.us_qsc == s.us_qsc && s1.them_ksc == s.them_ksc
                && s1.them_qsc == s.them_qsc
        }),
{
    broadcast use group_bit_facts;

    reveal(Position::play_relocate);
}

proof fn lemma_ep_bits(s: Position, mv: Mv, piece: Piece, captured: Option<Piece>, q: int)
    requires
        mv.to.valid(),
        piece == Piece::Pawn && mv.from.0 % 8 != mv.to.0 % 8 && captured.is_none() ==> s.ep == Some(
            mv.to,
        ) && mv.to.0 >= 8,
        0 <= q < 64,
    ensures
        ({
            let s2 = s.play_ep(mv, piece, captured);
            let to = mv.to.0 as int;
            let epc = piece == Piece::Pawn && mv.from.0 % 8 != mv.to.0 % 8 && captured.is_none();
            &&& s2.colours[0] == s.colours[0]
            &&& s2.colours[1].has(q) == (s.colours[1].has(q) != (epc && q == to - 8))
            &&& forall|k: int|
                0 <= k < 6 ==> #[trigger] s2.pieces[k].has(q) == (s.pieces[k].has(q) != (epc && k == 0
                    && q == to - 8))
            &&& s2.ep == (if piece == Piece::Pawn && mv.to.0 - mv.from.0 == 16 {
                Some(crate::chess::square::Square((mv.to.0 - 8) as u8))
            } else {
                None
            })
            &&& s2.castle_files == s.castle_files && s2.turn == s.turn && s2.hash == s.hash
            &&& s2.us_ksc == s.us_ksc && s2.us_qsc == s.us_qsc && s2.them_ksc == s.them_ksc
                && s2.them_qsc == s.them_qsc
        }),
{
    broadcast use group_bit_facts;

    reveal(Position::play_ep);
    if piece == Piece::Pawn && mv.from.0 % 8 != mv.to.0 % 8 && captured.is_none() {
        lemma_one_south(mv.to.0 as u64);
    }
}

proof fn lemma_castle_bits(s: Position, mv: Mv, q: int)
    requires
        mv.from.valid(),
        mv.to.valid(),
        s.castle_files[0] < 8,
        s.castle_files[1] < 8,
        0 <= q < 64,
    ensures
        ({
            let s3 = s.play_castle(mv);
            let from = mv.from.0 as int;
            let to = mv.to.0 as int;
            let cs = s.pieces[5].0 & s.pieces[3].0 != 0;
            let ks = cs && to > from;
            let (kk, rr, rook) = if ks {
                (6int, 5int, s.castle_files[0] as int)
            } else {
                (2int, 3int, s.castle_files[1] as int)
            };
            let ft = q == from || q == to;
            &&& s3.colours[0].has(q) == (s.colours[0].has(q) != (cs && from != to && (ft != (q == from)
                != (q == kk) != (q == rook) != (q == rr))))
            &&& s3.colours[1] == s.colours[1]
            &&& forall|k: int|
                0 <= k < 6 ==> #[trigger] s3.pieces[k].has(q) == (s.pieces[k].has(q) != (cs && from
                    != to && k == 5 && (ft != (q == from) != (q == kk))) != (cs && from != to && k == 3
                    && ((q == rook) != (q == rr))))
            &&& s3.ep == s.ep && s3.castle_files == s.castle_files && s3.turn == s.turn && s3.hash == s.hash
            &&& s3.us_ksc == s.us_ksc && s3.us_qsc == s.us_qsc && s3.them_ksc == s.them_ksc
                && s3.them_qsc == s.them_qsc
        }),
{
    broadcast use group_bit_facts;

    reveal(Position::play_castle);
}

proof fn lemma_promo_bits(s: Position, mv: Mv, q: int)
    requires
        mv.to.valid(),
        mv.promo == Piece::NoPiece || mv.promo == Piece::Knight || mv.promo == Piece::Bishop
            || mv.promo == Piece::Rook || mv.promo == Piece::Queen,
        0 <= q < 64,
    ensures
        ({
            let s4 = s.play_promo(mv);
            let to = mv.to.0 as int;
            let promo = mv.promo != Piece::NoPiece;
            &&& s4.colours == s.colours
            &&& forall|k: int|
                0 <= k < 6 ==> #[trigger] s4.pieces[k].has(q) == (s.pieces[k].has(q) != (promo && k == 0
                    && q == to) != (promo && k == mv.promo.spec_index() && q == to))
            &&& s4.ep == s.ep && s4.castle_files == s.castle_files && s4.turn == s.turn && s4.hash == s.hash
            &&& s4.us_ksc == s.us_ksc && s4.us_qsc == s.us_qsc && s4.them_ksc == s.them_ksc
                && s4.them_qsc == s.them_qsc
        }),
{
    broadcast use group_bit_facts;

    reveal(Position::play_promo);
}

/// The board after the stages of a move that change it, from `s0`, which is `p` but for its hash.
pub open spec fn board_after(p: Position, mv: Mv, s0: Position) -> Position {
    let piece = p.piece_on(mv.from.0 as int).unwrap();
    let captured = p.piece_on(mv.to.0 as int);
    s0.play_relocate(mv, piece, captured).play_ep(mv, piece, captured).play_castle(mv).play_promo(mv)
}

pub proof fn lemma_play_stage_bits(p: Position, mv: Mv, s0: Position, q: int)
    requires
        p.sound(),
        p.move_shaped(mv),
        s0 == (Position { hash: s0.hash, ..p }),
        0 <= q < 64,
    ensures
        board_after(p, mv, s0).colours[0].has(q) == after_bit(p, mv, 0, q),
        board_after(p, mv, s0).colours[1].has(q) == after_bit(p, mv, 1, q),
        forall|k: int| 0 <= k < 6 ==> #[trigger] board_after(p, mv, s0).pieces[k].has(q) == after_bit(p, mv, 2 + k, q),
{
    lemma_castle_detect(p, mv, s0);
    let from = mv.from.0 as int;
    let to = mv.to.0 as int;
    let piece = p.piece_on(from).unwrap();
    let captured = p.piece_on(to);
    assert(p.gen_ok(piece, mv));
    assert(p.castle_files[0int] < 8 && p.castle_files[1int] < 8);
    if p.takes_ep(mv) {
        assert(!p.colours[1].has(to)) by {
            if p.colours[1].has(to) {
                assert(p.piece_on(to).is_some());
            }
        }
        assert(p.ep == Some(mv.to));
    }
    if p.colours[1].has(to) {
        assert(p.piece_on(to).is_some());
    }
    let s1 = s0.play_relocate(mv, piece, captured);
    let s2 = s1.play_ep(mv, piece, captured);
    let s3 = s2.play_castle(mv);
    let s4 = s3.play_promo(mv);
    lemma_relocate_bits(s0, mv, piece, captured, q);
    lemma_ep_bits(s1, mv, piece, captured, q);
    lemma_castle_bits(s2, mv, q);
    lemma_promo_bits(s3, mv, q);
    let cs = p.castles(mv);
    assert(cs == (s2.pieces[5].0 & s2.pieces[3].0 != 0));
    if cs {
        assert(p.castles_ks(mv) == (to > from));
    }
    let ks = p.castles_ks(mv);
    let kk: int = if ks { 6 } else { 2 };
    let rr: int = if ks { 5 } else { 3 };
    let rook: int = if ks { p.castle_files[0] as int } else { p.castle_files[1] as int };
    let promo = mv.promo != Piece::NoPiece;
    let prk = mv.promo.spec_index() as int;
    assert forall|k: int| 0 <= k < 6 implies #[trigger] s4.pieces[k].has(q) == after_bit(p, mv, 2 + k, q) by {
        let ft = q == from || q == to;
        assert(s4.pieces[k].has(q) == (s3.pieces[k].has(q) != (promo && k == 0 && q == to) != (promo
            && k == prk && q == to)));
        assert(s3.pieces[k].has(q) == (s2.pieces[k].has(q) != (cs && from != to && k == 5 && (ft != (q
            == from) != (q == kk))) != (cs && from != to && k == 3 && ((q == rook) != (q == rr)))));
    }
}

/// What square `q` holds before a move, as far as the change of the move there depends on it.
pub proof fn lemma_square_facts(p: Position, mv: Mv, q: int)
    requires
        p.sound(),
        p.move_shaped(mv),
        0 <= q < 64,
    ensures
        !(p.colours[0].has(q) && p.colours[1].has(q)),
        forall|i: int| 0 <= i < 6 && #[trigger] p.pieces[i].has(q) ==> p.colours[0].has(q) || p.colours[1].has(q),
        p.colours[0].has(q) || p.colours[1].has(q) ==> p.piece_on(q).unwrap().spec_index() < 6
            && p.pieces[p.piece_on(q).unwrap().spec_index() as int].has(q),
        forall|i: int, j: int| 0 <= i < 6 && 0 <= j < 6 && i != j ==> !(#[trigger] p.pieces[i].has(q) && #[trigger] p.pieces[j].has(q)),
        q == mv.from.0 ==> p.colours[0].has(q) && p.pieces[p.piece_on(q).unwrap().spec_index() as int].has(q),
        q == mv.to.0 && p.colours[1].has(q) ==> p.pieces[p.piece_on(q).unwrap().spec_index() as int].has(q),
        q == mv.to.0 && !p.colours[1].has(q) && !p.castles(mv) ==> !p.colours[0].has(q),
        q == mv.to.0 && p.castles(mv) ==> p.colours[0].has(q) && p.pieces[3].has(q),
        p.takes_ep(mv) ==> !p.colours[1].has(mv.to.0 as int) && mv.to.0 >= 8,
        p.takes_ep(mv) && q == mv.to.0 - 8 ==> p.colours[1].has(q) && p.pieces[0].has(q),
        p.castles_ks(mv) && (q == 6 || q == 5) && q != mv.from.0 && q != mv.to.0 ==> !p.colours[0].has(q) && !p.colours[1].has(q),
        p.castles_qs(mv) && (q == 2 || q == 3) && q != mv.from.0 && q != mv.to.0 ==> !p.colours[0].has(q) && !p.colours[1].has(q),
        mv.promo != Piece::NoPiece ==> p.piece_on(mv.from.0 as int) == Some(Piece::Pawn) && 1 <= mv.promo.spec_index() <= 4,
        p.piece_on(mv.from.0 as int).unwrap().spec_index() < 6,
        p.colours[1].has(mv.to.0 as int) ==> p.piece_on(mv.to.0 as int).unwrap().spec_index() < 6,
{
    let from = mv.from.0 as int;
    let to = mv.to.0 as int;
    let piece = p.piece_on(from).unwrap();
    assert(p.gen_ok(piece, mv));
    assert(p.castle_files[0int] < 8 && p.castle_files[1int] < 8);
    if p.colours[0].has(q) || p.colours[1].has(q) {
        let pc = p.piece_on(q).unwrap();
        assert(p.pieces[pc.spec_index() as int].has(q));
    }
    assert forall|i: int, j: int| 0 <= i < 6 && 0 <= j < 6 && i != j implies !(#[trigger] p.pieces[i].has(q) && #[trigger] p.pieces[j].has(q)) by {
        if i < j {
            assert(!(p.pieces[i].has(q) && p.pieces[j].has(q)));
        } else {
            assert(!(p.pieces[j].has(q) && p.pieces[i].has(q)));
        }
    }
    if p.colours[1].has(to) {
        assert(p.piece_on(to).is_some());
    }
    if p.takes_ep(mv) {
        assert(!p.colours[1].has(to)) by {
            if p.colours[1].has(to) {
                assert(p.piece_on(to).is_some());
            }
        }
        assert(p.ep == Some(mv.to));
    }
}

proof fn lemma_board_bit(p: Position, mv: Mv, c: int, k: int, q: int)
    requires
        p.sound(),
        p.move_shaped(mv),
        0 <= c < 2,
        0 <= k < 6,
        0 <= q < 64,
    ensures
        (after_bit(p, mv, c, q) && after_bit(p, mv, 2 + k, q)) == ((p.colours[c].has(q) && p.pieces[k].has(
            q,
        )) != move_changes(p, mv, c, k, q)),
{
    lemma_square_facts(p, mv, q);
}

/// The board after the stages of a move that change it is the board before with the changes of
/// the move made.
pub proof fn lemma_board_after_events(p: Position, mv: Mv, s0: Position)
    requires
        p.sound(),
        p.move_shaped(mv),
        s0 == (Position { hash: s0.hash, ..p }),
    ensures
        ev_valid(p.move_events(mv)),
        forall|c: int, k: int|
            0 <= c < 2 && 0 <= k < 6 ==> #[trigger] board_of(board_after(p, mv, s0))(c, k) == board_of(p)(
                c,
                k,
            ) ^ ev_mask(p.move_events(mv), c, k),
{
    lemma_move_changes(p, mv, 0, 0, 0);
    assert forall|c: int, k: int| 0 <= c < 2 && 0 <= k < 6 implies #[trigger] board_of(board_after(p, mv, s0))(c, k)
        == board_of(p)(c, k) ^ ev_mask(p.move_events(mv), c, k) by {
        let b = board_after(p, mv, s0);
        let l = b.colours[c].0 & b.pieces[k].0;
        let r = (p.colours[c].0 & p.pieces[k].0) ^ ev_mask(p.move_events(mv), c, k);
        assert forall|q: u64| q < 64 implies #[trigger] bit(l, q) == bit(r, q) by {
            lemma_play_stage_bits(p, mv, s0, q as int);
            lemma_board_bit(p, mv, c, k, q as int);
            lemma_move_changes(p, mv, c, k, q as int);
            lemma_bit_ops(b.colours[c].0, b.pieces[k].0, q);
            lemma_bit_ops(p.colours[c].0, p.pieces[k].0, q);
            lemma_bit_ops(p.colours[c].0 & p.pieces[k].0, ev_mask(p.move_events(mv), c, k), q);
            if c == 0 {
                assert(b.colours[c].has(q as int) == after_bit(p, mv, 0, q as int));
            } else {
                assert(b.colours[c].has(q as int) == after_bit(p, mv, 1, q as int));
            }
            assert(b.pieces[k].has(q as int) == after_bit(p, mv, 2 + k, q as int));
        }
        lemma_bits_ext(l, r);
    }
}

proof fn lemma_ev_sum_push(turn: Colour, ev: Seq<(bool, int, int, int)>, e: (bool, int, int, int))
    ensures
        ev_sum(turn, ev.push(e)) == ev_sum(turn, ev) ^ ev_key(turn, e),
{
    assert(ev.push(e).drop_last() =~= ev);
}

/// The keys of the changes of a move, combined in order.
pub proof fn lemma_move_keys(p: Position, mv: Mv)
    ensures
        ({
            let turn = p.turn;
            let from = mv.from.0 as int;
            let to = mv.to.0 as int;
            let pk = p.piece_on(from).unwrap().spec_index() as int;
            let cap = p.colours[1].has(to);
            let ck = if cap { p.piece_on(to).unwrap().spec_index() as int } else { 0 };
            let epc = p.takes_ep(mv);
            let ks = p.castles_ks(mv);
            let cs = ks || p.castles_qs(mv);
            let (kk, rr, rook) = if ks {
                (6int, 5int, p.castle_files[0] as int)
            } else {
                (2int, 3int, p.castle_files[1] as int)
            };
            let promo = mv.promo != Piece::NoPiece;
            let prk = if promo { mv.promo.spec_index() as int } else { 0 };
            ev_sum(turn, p.move_events(mv)) == 0u64 ^ ev_key(turn, (true, 0, pk, from)) ^ ev_key(
                turn,
                (true, 0, pk, to),
            ) ^ ev_key(turn, (cap, 1, ck, to)) ^ ev_key(
                turn,
                (epc, 1, 0, if epc { to - 8 } else { 0 }),
            ) ^ ev_key(turn, (cs, 0, 5, from)) ^ ev_key(turn, (cs, 0, 5, to)) ^ ev_key(
                turn,
                (cs, 0, 5, from),
            ) ^ ev_key(turn, (cs, 0, 5, kk)) ^ ev_key(turn, (cs, 0, 3, rook)) ^ ev_key(
                turn,
                (cs, 0, 3, rr),
            ) ^ ev_key(turn, (promo, 0, 0, to)) ^ ev_key(turn, (promo, 0, prk, to))
        }),
{
    let turn = p.turn;
    let from = mv.from.0 as int;
    let to = mv.to.0 as int;
    let pk = p.piece_on(from).unwrap().spec_index() as int;
    let cap = p.colours[1].has(to);
    let ck = if cap { p.piece_on(to).unwrap().spec_index() as int } else { 0 };
    let epc = p.takes_ep(mv);
    let ks = p.castles_ks(mv);
    let cs = ks || p.castles_qs(mv);
    let (kk, rr, rook) = if ks {
        (6int, 5int, p.castle_files[0] as int)
    } else {
        (2int, 3int, p.castle_files[1] as int)
    };
    let promo = mv.promo != Piece::NoPiece;
    let prk = if promo { mv.promo.spec_index() as int } else { 0 };
    let e0 = Seq::<(bool, int, int, int)>::empty();
    let e1 = e0.push((true, 0, pk, from));
    let e2 = e1.push((true, 0, pk, to));
    let e3 = e2.push((cap, 1, ck, to));
    let e4 = e3.push((epc, 1, 0, if epc { to - 8 } else { 0 }));
    let e5 = e4.push((cs, 0, 5, from));
    let e6 = e5.push((cs, 0, 5, to));
    let e7 = e6.push((cs, 0, 5, from));
    let e8 = e7.push((cs, 0, 5, kk));
    let e9 = e8.push((cs, 0, 3, rook));
    let e10 = e9.push((cs, 0, 3, rr));
    let e11 = e10.push((promo, 0, 0, to));
    let e12 = e11.push((promo, 0, prk, to));
    assert(e12 == p.move_events(mv));
    lemma_ev_sum_push(turn, e0, (true, 0, pk, from));
    lemma_ev_sum_push(turn, e1, (true, 0, pk, to));
    lemma_ev_sum_push(turn, e2, (cap, 1, ck, to));
    lemma_ev_sum_push(turn, e3, (epc, 1, 0, if epc { to - 8 } else { 0 }));
    lemma_ev_sum_push(turn, e4, (cs, 0, 5, from));
    lemma_ev_sum_push(turn, e5, (cs, 0, 5, to));
    lemma_ev_sum_push(turn, e6, (cs, 0, 5, from));
    lemma_ev_sum_push(turn, e7, (cs, 0, 5, kk));
    lemma_ev_sum_push(turn, e8, (cs, 0, 3, rook));
    lemma_ev_sum_push(turn, e9, (cs, 0, 3, rr));
    lemma_ev_sum_push(turn, e10, (promo, 0, 0, to));
    lemma_ev_sum_push(turn, e11, (promo, 0, prk, to));
}

/// The stages of a move that change the board keep the turn, the castling files and rights, and
/// set the en passant square behind a pawn that moved two squares, clearing it otherwise.
pub proof fn lemma_board_after_fields(p: Position, mv: Mv, s0: Position)
    requires
        p.sound(),
        p.move_shaped(mv),
        s0 == (Position { hash: s0.hash, ..p }),
    ensures
        ({
            let b = board_after(p, mv, s0);
            &&& b.turn == p.turn
            &&& b.hash == s0.hash
            &&& b.castle_files == p.castle_files
            &&& b.us_ksc == p.us_ksc && b.us_qsc == p.us_qsc
            &&& b.them_ksc == p.them_ksc && b.them_qsc == p.them_qsc
            &&& b.ep == (if p.piece_on(mv.from.0 as int) == Some(Piece::Pawn) && mv.to.0 - mv.from.0
                == 16 {
                Some(crate::chess::square::Square((mv.to.0 - 8) as u8))
            } else {
                None
            })
        }),
{
    let from = mv.from.0 as int;
    let to = mv.to.0 as int;
    let piece = p.piece_on(from).unwrap();
    let captured = p.piece_on(to);
    lemma_square_facts(p, mv, 0);
    assert(p.gen_ok(piece, mv));
    assert(p.castle_files[0int] < 8 && p.castle_files[1int] < 8);
    if p.takes_ep(mv) {
        assert(p.ep == Some(mv.to));
    }
    let s1 = s0.play_relocate(mv, piece, captured);
    let s2 = s1.play_ep(mv, piece, captured);
    let s3 = s2.play_castle(mv);
    lemma_relocate_bits(s0, mv, piece, captured, 0);
    lemma_ep_bits(s1, mv, piece, captured, 0);
    lemma_castle_bits(s2, mv, 0);
    lemma_promo_bits(s3, mv, 0);
}

} // verus!

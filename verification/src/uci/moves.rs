use crate::chess::mv::Mv;
use crate::chess::piece::Piece;
use crate::chess::position::Position;
use crate::chess::square::Square;
use crate::uci::mv::spec_to_uci;
use vstd::prelude::*;
use vstd::string::StringExecFns;

verus! {

/// The two strings hold the same text.
pub fn same_text(a: &str, b: &str) -> (r: bool)
    ensures
        r == (a@ == b@),
{
    let x = String::from_str(a);
    let y = String::from_str(b);
    x == y
}

/// The castling moves written with the king's usual squares, for when the move is not found
/// among the legal moves: `e1g1` and `e1c1` move from e1 onto the castling file of the king and
/// queen side, `e8g8` and `e8c8` from e8 onto the other side's castling file, all on the first
/// rank.
pub open spec fn castle_fallback(pos: Position, text: Seq<char>) -> Option<Mv> {
    if text == seq!['e', '1', 'g', '1'] {
        Some(Mv { from: Square(4), to: Square(pos.castle_files[0]), promo: Piece::NoPiece })
    } else if text == seq!['e', '1', 'c', '1'] {
        Some(Mv { from: Square(4), to: Square(pos.castle_files[1]), promo: Piece::NoPiece })
    } else if text == seq!['e', '8', 'g', '8'] {
        Some(Mv { from: Square(60), to: Square(pos.castle_files[2]), promo: Piece::NoPiece })
    } else if text == seq!['e', '8', 'c', '8'] {
        Some(Mv { from: Square(60), to: Square(pos.castle_files[3]), promo: Piece::NoPiece })
    } else {
        None
    }
}

/// Checks that `mv` moves a piece of the side to move the way the move generator moves pieces.
pub fn is_move_ok(pos: &Position, mv: &Mv) -> (r: bool)
    ensures
        r == pos.move_ok(*mv),
{
    if mv.from.0 >= 64 || mv.to.0 >= 64 {
        return false;
    }
    let p = match pos.get_piece_on(mv.from) {
        Some(p) => p,
        None => {
            return false;
        },
    };
    let promo_ok = mv.promo == Piece::NoPiece || mv.promo == Piece::Knight || mv.promo
        == Piece::Bishop || mv.promo == Piece::Rook || mv.promo == Piece::Queen;
    let promo_fits = mv.promo == Piece::NoPiece || (p == Piece::Pawn && mv.to.0 >= 56);
    let pawn_ok = p != Piece::Pawn || (mv.from.0 < mv.to.0 && mv.to.0 >= 8 && (mv.from.0 % 8
        == mv.to.0 % 8 || pos.get_them().is_set(mv.to) || (pos.ep.is_some() && pos.ep.unwrap()
        == mv.to)));
    pos.get_us().is_set(mv.from) && pos.get_piece(p.index()).is_set(mv.from) && promo_ok
        && promo_fits && pawn_ok
}

/// The first move of `ms` written `text` in UCI notation, if any.
pub open spec fn first_with_text(ms: Seq<Mv>, pos: Position, text: Seq<char>) -> Option<Mv>
    decreases ms.len(),
{
    if ms.len() == 0 {
        None
    } else if spec_to_uci(ms[0], pos) == text {
        Some(ms[0])
    } else {
        first_with_text(ms.drop_first(), pos, text)
    }
}

/// The move `position` plays for the text `text`: the first legal move written so, else the
/// castling move written with the king's usual squares when it can be played.
pub open spec fn uci_choice(pos: Position, text: Seq<char>) -> Option<Mv> {
    match first_with_text(pos.spec_legal_moves(), pos, text) {
        Some(m) => Some(m),
        None => match castle_fallback(pos, text) {
            Some(m) => if pos.move_ok(m) {
                Some(m)
            } else {
                None
            },
            None => None,
        },
    }
}

/// The first legal move of `pos` written `movestr` in UCI notation, if any.
pub fn find_move(pos: &Position, movestr: &str) -> (r: Option<Mv>)
    requires
        pos.wf(),
    ensures
        r == first_with_text(pos.spec_legal_moves(), *pos, movestr@),
        r matches Some(mv) ==> pos.move_ok(mv),
{
    let moves = pos.legal_moves();
    let target = String::from_str(movestr);
    let mut i: usize = 0;
    assert(moves@.subrange(0, moves@.len() as int) =~= moves@);
    while i < moves.len()
        invariant
            i <= moves.len(),
            moves@ == pos.spec_legal_moves(),
            forall|k: int| 0 <= k < moves@.len() ==> pos.move_ok(#[trigger] moves@[k]),
            target@ == movestr@,
            first_with_text(moves@, *pos, movestr@) == first_with_text(
                moves@.subrange(i as int, moves@.len() as int),
                *pos,
                movestr@,
            ),
        decreases moves.len() - i,
    {
        let mv = moves[i];
        assert(pos.move_ok(moves@[i as int]));
        let ghost rest = moves@.subrange(i as int, moves@.len() as int);
        assert(rest[0] == mv);
        assert(rest.drop_first() =~= moves@.subrange(i + 1, moves@.len() as int));
        let text = mv.to_uci(pos);
        if text == target {
            return Some(mv);
        }
        i = i + 1;
    }
    proof {
        assert(moves@.subrange(i as int, moves@.len() as int) =~= Seq::<Mv>::empty());
    }
    None
}

/// Plays the move written `movestr` in UCI notation, if it is legal or a castling move written
/// with the king's usual squares, and records the new position's hash in `history`. Says
/// whether a move was played; when none was, nothing changes.
#[verifier::spinoff_prover]
#[verifier::rlimit(50)]
pub fn play_uci_move(pos: &mut Position, history: &mut Vec<u64>, movestr: &str) -> (r: bool)
    requires
        old(pos).wf(),
        old(pos).halfmoves < i32::MAX,
    ensures
        r == uci_choice(*old(pos), movestr@) is Some,
        !r ==> *final(pos) == *old(pos) && final(history)@ == old(history)@,
        r ==> old(pos).move_ok(uci_choice(*old(pos), movestr@)->Some_0),
        r ==> *final(pos) == old(pos).spec_makemove(uci_choice(*old(pos), movestr@)->Some_0, true),
        r ==> final(history)@ == old(history)@.push(final(pos).hash),
{
    let found = match find_move(pos, movestr) {
        Some(mv) => Some(mv),
        None => {
            proof {
                reveal_strlit("e1g1");
                reveal_strlit("e1c1");
                reveal_strlit("e8g8");
                reveal_strlit("e8c8");
                assert("e1g1"@ =~= seq!['e', '1', 'g', '1']);
                assert("e1c1"@ =~= seq!['e', '1', 'c', '1']);
                assert("e8g8"@ =~= seq!['e', '8', 'g', '8']);
                assert("e8c8"@ =~= seq!['e', '8', 'c', '8']);
            }
            let fallback = if same_text(movestr, "e1g1") {
                Some(Mv { from: Square(4), to: Square(pos.castle_files[0]), promo: Piece::NoPiece })
            } else if same_text(movestr, "e1c1") {
                Some(Mv { from: Square(4), to: Square(pos.castle_files[1]), promo: Piece::NoPiece })
            } else if same_text(movestr, "e8g8") {
                Some(Mv { from: Square(60), to: Square(pos.castle_files[2]), promo: Piece::NoPiece })
            } else if same_text(movestr, "e8c8") {
                Some(Mv { from: Square(60), to: Square(pos.castle_files[3]), promo: Piece::NoPiece })
            } else {
                None
            };
            assert(fallback == castle_fallback(*pos, movestr@));
            match fallback {
                Some(mv) => if is_move_ok(pos, &mv) {
                    Some(mv)
                } else {
                    None
                },
                None => None,
            }
        },
    };
    match found {
        Some(mv) => {
            pos.makemove::<true>(&mv);
            history.push(pos.hash);
            true
        },
        None => false,
    }
}

} // verus!

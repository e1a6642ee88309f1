use crate::chess::mv::Mv;
use crate::chess::position::Position;
use crate::chess::rehash::board_after;
use crate::chess::side::Side;
use crate::chess::sound_law::{lemma_turned_playable, rights_after};
use vstd::prelude::*;

verus! {

/// Playing a move keeps a playable position playable: from a playable position, a move of the
/// shape the move generator makes that does not take the king, and whose pawn, when it moves two
/// squares, starts on its second rank over an empty square, leads to a playable position, with
/// or without the hash kept up to date.
pub proof fn lemma_makemove_keeps_playable(pos: Position, mv: Mv, h: bool)
    requires
        pos.playable(),
        pos.move_shaped(mv),
        pos.move_fair(mv),
    ensures
        pos.spec_makemove(mv, h).playable(),
{
    reveal(Position::play_rights);
    let s0 = Position { hash: if h { pos.spec_predict_hash(mv) } else { pos.hash }, ..pos };
    let b = board_after(pos, mv, s0);
    let n = pos.spec_play(mv, h);
    assert(n == b.play_rights(mv, pos.king_sq(Side::Us), pos.king_sq(Side::Them)));
    crate::chess::rehash::lemma_board_after_fields(pos, mv, s0);
    assert(rights_after(pos, mv, n));
    lemma_turned_playable(pos, mv, s0, n);
}

/// The position after playing the moves of `line` in turn from `pos`, keeping the hash up to
/// date.
pub open spec fn after_line(pos: Position, line: Seq<Mv>) -> Position
    decreases line.len(),
{
    if line.len() == 0 {
        pos
    } else {
        after_line(pos, line.drop_last()).spec_makemove(line.last(), true)
    }
}

/// Each move of `line` is, in the position it is played from, of the shape the move generator
/// makes and fair.
pub open spec fn line_fair(pos: Position, line: Seq<Mv>) -> bool {
    forall|i: int|
        0 <= i < line.len() ==> after_line(pos, #[trigger] line.take(i)).move_shaped(line[i])
            && after_line(pos, line.take(i)).move_fair(line[i])
}

/// Along any line of fair moves from a playable position whose hash is in step, the hash stays
/// in step with the position and the position stays playable.
pub proof fn lemma_line_keeps_hash(pos: Position, line: Seq<Mv>)
    requires
        pos.playable(),
        pos.hash == pos.spec_calculate_hash(),
        line_fair(pos, line),
    ensures
        after_line(pos, line).playable(),
        after_line(pos, line).hash == after_line(pos, line).spec_calculate_hash(),
    decreases line.len(),
{
    if line.len() > 0 {
        let l0 = line.drop_last();
        assert(line_fair(pos, l0)) by {
            assert forall|i: int| 0 <= i < l0.len() implies after_line(pos, #[trigger] l0.take(i)).move_shaped(
                l0[i],
            ) && after_line(pos, l0.take(i)).move_fair(l0[i]) by {
                assert(l0.take(i) =~= line.take(i));
                assert(l0[i] == line[i]);
            }
        }
        lemma_line_keeps_hash(pos, l0);
        let q = after_line(pos, l0);
        let mv = line.last();
        assert(line.take(line.len() - 1) =~= l0);
        assert(q.move_shaped(mv) && q.move_fair(mv)) by {
            assert(after_line(pos, line.take(line.len() - 1)).move_shaped(line[line.len() - 1]));
        }
        crate::chess::hash_law::lemma_makemove_keeps_hash(q, mv);
        lemma_makemove_keeps_playable(q, mv, true);
    }
}

} // verus!

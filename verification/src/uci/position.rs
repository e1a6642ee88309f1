use crate::chess::fen_error::FenError;
use crate::chess::position::Position;
use crate::chess::set_fen::spec_parse_fen;
use crate::uci::moves::{play_uci_move, same_text, uci_choice};
use vstd::prelude::*;
use vstd::string::{StringExecFns, StringSliceAdditionalSpecFns};
use vstd::utf8::encode_utf8;

verus! {

/// The tokens `i..j` joined with single spaces.
pub open spec fn join_words(toks: Seq<&str>, i: int, j: int) -> Seq<char>
    decreases j - i,
{
    if j <= i {
        Seq::empty()
    } else if j == i + 1 {
        toks[i]@
    } else {
        join_words(toks, i, j - 1) + seq![' '] + toks[j - 1]@
    }
}

/// The first token from `i` on that reads `moves`, or the number of tokens when there is none.
pub open spec fn moves_marker(toks: Seq<&str>, i: int) -> int
    decreases toks.len() - i,
{
    if i >= toks.len() {
        toks.len() as int
    } else if toks[i]@ == seq!['m', 'o', 'v', 'e', 's'] {
        i
    } else {
        moves_marker(toks, i + 1)
    }
}

/// The position text a `position` command gives and the token its moves start at: `startpos`
/// (whose next token, `moves`, is skipped), or `fen` followed by the words of a FEN string up to
/// `moves`; anything else gives no text.
pub open spec fn spec_position_parts(toks: Seq<&str>) -> (Seq<char>, int) {
    if toks.len() >= 1 && toks[0]@ == seq!['s', 't', 'a', 'r', 't', 'p', 'o', 's'] {
        (seq!['s', 't', 'a', 'r', 't', 'p', 'o', 's'], 2)
    } else if toks.len() >= 1 && toks[0]@ == seq!['f', 'e', 'n'] {
        let m = moves_marker(toks, 1);
        (join_words(toks, 1, m), if m < toks.len() { m + 1 } else { m })
    } else {
        (Seq::empty(), 1)
    }
}

/// The first token from `i` on that reads `moves`, or the number of tokens.
fn find_moves_marker(tokens: &[&str], i: usize) -> (r: usize)
    requires
        i <= tokens.len(),
    ensures
        r == moves_marker(tokens@, i as int),
        i <= r <= tokens.len(),
{
    proof {
        reveal_strlit("moves");
        assert("moves"@ =~= seq!['m', 'o', 'v', 'e', 's']);
    }
    let mut k = i;
    while k < tokens.len()
        invariant
            i <= k <= tokens.len(),
            moves_marker(tokens@, k as int) == moves_marker(tokens@, i as int),
            "moves"@ == seq!['m', 'o', 'v', 'e', 's'],
        decreases tokens.len() - k,
    {
        if same_text(tokens[k], "moves") {
            return k;
        }
        k = k + 1;
    }
    k
}

/// The tokens `i..j` joined with single spaces.
fn join(tokens: &[&str], i: usize, j: usize) -> (r: String)
    requires
        i <= j <= tokens.len(),
    ensures
        r@ == join_words(tokens@, i as int, j as int),
{
    let mut s = String::new();
    if i == j {
        return s;
    }
    s.append(tokens[i]);
    let mut k = i + 1;
    proof {
        reveal_strlit(" ");
    }
    while k < j
        invariant
            i < k <= j <= tokens.len(),
            s@ == join_words(tokens@, i as int, k as int),
            " "@ == seq![' '],
        decreases j - k,
    {
        s.append(" ");
        s.append(tokens[k]);
        k = k + 1;
    }
    s
}

/// The position text of a `position` command and the token its moves start at.
pub fn position_parts(tokens: &[&str]) -> (r: (String, usize))
    ensures
        r.0@ == spec_position_parts(tokens@).0,
        r.1 == spec_position_parts(tokens@).1,
{
    proof {
        reveal_strlit("startpos");
        reveal_strlit("fen");
        reveal_strlit("");
        assert("startpos"@ =~= seq!['s', 't', 'a', 'r', 't', 'p', 'o', 's']);
        assert("fen"@ =~= seq!['f', 'e', 'n']);
    }
    if tokens.len() >= 1 && same_text(tokens[0], "startpos") {
        (String::from_str("startpos"), 2)
    } else if tokens.len() >= 1 && same_text(tokens[0], "fen") {
        let m = find_moves_marker(tokens, 1);
        (join(tokens, 1, m), if m < tokens.len() { m + 1 } else { m })
    } else {
        (String::new(), 1)
    }
}

/// The position after the move written `text`, when one is played: the position must be well
/// formed, its halfmove counter below its limit, and the text name a move `position` plays.
pub open spec fn token_step(pos: Position, text: Seq<char>) -> Option<Position> {
    if pos.wf() && pos.halfmoves < i32::MAX && uci_choice(pos, text) is Some {
        Some(pos.spec_makemove(uci_choice(pos, text)->Some_0, true))
    } else {
        None
    }
}

/// The position after playing the tokens `i..j` in turn from `p`, skipping those that name no
/// move.
pub open spec fn after_tokens(p: Position, toks: Seq<&str>, i: int, j: int) -> Position
    decreases j - i,
{
    if j <= i {
        p
    } else {
        let q = after_tokens(p, toks, i, j - 1);
        match token_step(q, toks[j - 1]@) {
            Some(n) => n,
            None => q,
        }
    }
}

/// The hashes of `p` and of each position reached playing the tokens `i..j`.
pub open spec fn hashes_after(p: Position, toks: Seq<&str>, i: int, j: int) -> Seq<u64>
    decreases j - i,
{
    if j <= i {
        seq![p.hash]
    } else {
        let h = hashes_after(p, toks, i, j - 1);
        match token_step(after_tokens(p, toks, i, j - 1), toks[j - 1]@) {
            Some(n) => h.push(n.hash),
            None => h,
        }
    }
}

/// The indices among `i..j` of the tokens that name no move when their turn comes.
pub open spec fn skipped_tokens(p: Position, toks: Seq<&str>, i: int, j: int) -> Seq<usize>
    decreases j - i,
{
    if j <= i {
        seq![]
    } else {
        let u = skipped_tokens(p, toks, i, j - 1);
        match token_step(after_tokens(p, toks, i, j - 1), toks[j - 1]@) {
            Some(_) => u,
            None => u.push((j - 1) as usize),
        }
    }
}

/// Plays the move the token `text`, at index `k`, names, recording the new hash, or notes `k`
/// among the tokens that name no move.
fn play_token(pos: &mut Position, history: &mut Vec<u64>, unknown: &mut Vec<usize>, text: &str, k: usize)
    ensures
        match token_step(*old(pos), text@) {
            Some(n) => *final(pos) == n && final(history)@ == old(history)@.push(n.hash)
                && final(unknown)@ == old(unknown)@,
            None => *final(pos) == *old(pos) && final(history)@ == old(history)@ && final(unknown)@
                == old(unknown)@.push(k),
        },
{
    if pos.is_wf() && pos.halfmoves < i32::MAX {
        if !play_uci_move(pos, history, text) {
            unknown.push(k);
        }
    } else {
        unknown.push(k);
    }
}

/// Sets up the position a `position` command gives and plays its moves, keeping the variant:
/// the history then holds the hash of each position reached, the first one included. Gives the
/// positions (among the tokens) of the moves that could not be played, or why the position was
/// refused, in which case nothing changes.
pub fn position(tokens: &[&str], pos: &mut Position, history: &mut Vec<u64>) -> (r: Result<Vec<usize>, FenError>)
    ensures
        ({
            let parsed = spec_parse_fen(
                encode_utf8(spec_position_parts(tokens@).0),
                old(pos).is_frc,
            );
            &&& r is Err <==> parsed is Err
            &&& r matches Err(e) ==> parsed == Err::<Position, FenError>(e) && *final(pos)
                == *old(pos) && final(history)@ == old(history)@
            &&& r matches Ok(u) ==> {
                let start = spec_position_parts(tokens@).1;
                &&& *final(pos) == after_tokens(parsed->Ok_0, tokens@, start, tokens@.len() as int)
                &&& final(history)@ == hashes_after(parsed->Ok_0, tokens@, start, tokens@.len() as int)
                &&& u@ == skipped_tokens(parsed->Ok_0, tokens@, start, tokens@.len() as int)
            }
        }),
{
    let (fen, start) = position_parts(tokens);
    let parsed = Position::parse_fen(fen.as_str(), pos.is_frc);
    match parsed {
        Err(e) => Err(e),
        Ok(p) => {
            *pos = p;
            history.clear();
            history.push(pos.hash);
            let mut unknown: Vec<usize> = Vec::new();
            let mut k = start;
            proof {
                assert(history@ =~= seq![p.hash]);
            }
            while k < tokens.len()
                invariant
                    start <= k,
                    k <= tokens.len() || k == start,
                    *pos == after_tokens(p, tokens@, start as int, k as int),
                    history@ == hashes_after(p, tokens@, start as int, k as int),
                    unknown@ == skipped_tokens(p, tokens@, start as int, k as int),
                decreases tokens.len() - k,
            {
                play_token(pos, history, &mut unknown, tokens[k], k);
                k = k + 1;
            }
            Ok(unknown)
        },
    }
}

} // verus!

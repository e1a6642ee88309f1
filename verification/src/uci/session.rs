use crate::chess::fen::{parse_uint, spec_parse_uint};
use crate::uci::moves::same_text;
use crate::uci::setoption::{parse_setoption, spec_setoption};
use vstd::prelude::*;
use vstd::string::StringSliceAdditionalSpecFns;

verus! {

/// The state of a UCI session that commands change: whether the opening exchange is still on,
/// the size of the transposition table in megabytes, and whether the game is Chess960.
#[derive(Debug, Clone, Copy, PartialEq, Eq, Structural)]
pub struct UciSession {
    pub handshake: bool,
    pub hash: usize,
    pub is_frc: bool,
}

/// What the engine does after a command.
#[derive(Debug, Clone, Copy, PartialEq, Eq, Structural)]
pub enum UciAction {
    /// The opening exchange ends; answer `readyok` when it ended on `isready`.
    EndHandshake(bool),
    /// Stop the session.
    Quit,
    /// Start a new game from the starting position, with an empty table.
    NewGame,
    /// Answer `readyok`.
    ReadyOk,
    /// Draw the position.
    Print,
    /// Search the position.
    Go,
    /// Set up a position.
    Position,
    /// Play moves.
    Moves,
    /// An option was set; resize the table when the flag says so.
    SetOption(bool),
    /// List the hashes of the positions played.
    History,
    /// Print the evaluation.
    Eval,
    /// Nothing to do.
    Nothing,
}

/// The session a new connection starts with.
pub open spec fn spec_session_start() -> UciSession {
    UciSession { handshake: true, hash: 16, is_frc: false }
}

/// The session a new connection starts with: in the opening exchange, a 16 megabyte table,
/// standard chess.
pub fn session_start() -> (r: UciSession)
    ensures
        r == spec_session_start(),
{
    UciSession { handshake: true, hash: 16, is_frc: false }
}

/// `v` kept within `1..=4096`.
pub open spec fn clamp_hash(v: int) -> int {
    if v < 1 {
        1
    } else if v > 4096 {
        4096
    } else {
        v
    }
}

/// The session after a `setoption` command with the tokens `rest`, and whether the table size
/// was set: `Hash` (or `hash`) with a number sets the size, kept within 1 to 4096 megabytes;
/// `UCI_Chess960` sets the variant to Chess960 when the value is `true` and to standard chess
/// otherwise; anything else changes nothing.
pub open spec fn spec_apply_option(s: UciSession, rest: Seq<&str>) -> (UciSession, bool) {
    match spec_setoption(rest) {
        Some((name, value)) => {
            if name@ == seq!['H', 'a', 's', 'h'] || name@ == seq!['h', 'a', 's', 'h'] {
                match spec_parse_uint(value.spec_bytes(), usize::MAX as int) {
                    Some(v) => (UciSession { hash: clamp_hash(v) as usize, ..s }, true),
                    None => (s, false),
                }
            } else if name@ == seq!['U', 'C', 'I', '_', 'C', 'h', 'e', 's', 's', '9', '6', '0'] {
                (UciSession { is_frc: value@ == seq!['t', 'r', 'u', 'e'], ..s }, false)
            } else {
                (s, false)
            }
        },
        None => (s, false),
    }
}

/// The session after the command whose first word is `cmd` and whose other words are `rest`,
/// and what to do. During the opening exchange only `setoption` and `quit` are taken; any other
/// command ends the exchange. After it, each command names its action, and an unknown command
/// does nothing.
pub open spec fn spec_uci_step(s: UciSession, cmd: Seq<char>, rest: Seq<&str>) -> (UciSession, UciAction) {
    if s.handshake {
        if cmd == seq!['i', 's', 'r', 'e', 'a', 'd', 'y'] {
            (UciSession { handshake: false, ..s }, UciAction::EndHandshake(true))
        } else if cmd == seq!['s', 'e', 't', 'o', 'p', 't', 'i', 'o', 'n'] {
            (spec_apply_option(s, rest).0, UciAction::Nothing)
        } else if cmd == seq!['q', 'u', 'i', 't'] {
            (s, UciAction::Quit)
        } else {
            (UciSession { handshake: false, ..s }, UciAction::EndHandshake(false))
        }
    } else if cmd == seq!['u', 'c', 'i', 'n', 'e', 'w', 'g', 'a', 'm', 'e'] {
        (s, UciAction::NewGame)
    } else if cmd == seq!['i', 's', 'r', 'e', 'a', 'd', 'y'] {
        (s, UciAction::ReadyOk)
    } else if cmd == seq!['p', 'r', 'i', 'n', 't'] || cmd == seq!['d', 'i', 's', 'p', 'l', 'a', 'y']
        || cmd == seq!['b', 'o', 'a', 'r', 'd'] {
        (s, UciAction::Print)
    } else if cmd == seq!['g', 'o'] {
        (s, UciAction::Go)
    } else if cmd == seq!['p', 'o', 's', 'i', 't', 'i', 'o', 'n'] {
        (s, UciAction::Position)
    } else if cmd == seq!['m', 'o', 'v', 'e', 's'] {
        (s, UciAction::Moves)
    } else if cmd == seq!['s', 'e', 't', 'o', 'p', 't', 'i', 'o', 'n'] {
        (spec_apply_option(s, rest).0, UciAction::SetOption(spec_apply_option(s, rest).1))
    } else if cmd == seq!['h', 'i', 's', 't', 'o', 'r', 'y'] {
        (s, UciAction::History)
    } else if cmd == seq!['e', 'v', 'a', 'l'] {
        (s, UciAction::Eval)
    } else if cmd == seq!['q', 'u', 'i', 't'] {
        (s, UciAction::Quit)
    } else {
        (s, UciAction::Nothing)
    }
}

/// Applies the arguments of a `setoption` command to the session; says whether the table size
/// was set.
pub fn apply_option(s: &mut UciSession, rest: &[&str]) -> (r: bool)
    ensures
        (*final(s), r) == spec_apply_option(*old(s), rest@),
{
    proof {
        reveal_strlit("Hash");
        reveal_strlit("hash");
        reveal_strlit("UCI_Chess960");
        reveal_strlit("true");
        assert("Hash"@ =~= seq!['H', 'a', 's', 'h']);
        assert("hash"@ =~= seq!['h', 'a', 's', 'h']);
        assert("UCI_Chess960"@ =~= seq!['U', 'C', 'I', '_', 'C', 'h', 'e', 's', 's', '9', '6', '0']);
        assert("true"@ =~= seq!['t', 'r', 'u', 'e']);
    }
    match parse_setoption(rest) {
        Some((name, value)) => {
            if same_text(name, "Hash") || same_text(name, "hash") {
                match parse_uint(value.as_bytes(), usize::MAX as u64) {
                    Some(v) => {
                        let size = if v < 1 {
                            1
                        } else if v > 4096 {
                            4096
                        } else {
                            v as usize
                        };
                        s.hash = size;
                        true
                    },
                    None => false,
                }
            } else if same_text(name, "UCI_Chess960") {
                s.is_frc = same_text(value, "true");
                false
            } else {
                false
            }
        },
        None => false,
    }
}

/// Takes one command, its first word `cmd` and its other words `rest`: updates the session and
/// says what to do.
pub fn uci_step(s: &mut UciSession, cmd: &str, rest: &[&str]) -> (a: UciAction)
    ensures
        (*final(s), a) == spec_uci_step(*old(s), cmd@, rest@),
{
    proof {
        reveal_strlit("isready");
        reveal_strlit("setoption");
        reveal_strlit("quit");
        reveal_strlit("ucinewgame");
        reveal_strlit("print");
        reveal_strlit("display");
        reveal_strlit("board");
        reveal_strlit("go");
        reveal_strlit("position");
        reveal_strlit("moves");
        reveal_strlit("history");
        reveal_strlit("eval");
        assert("isready"@ =~= seq!['i', 's', 'r', 'e', 'a', 'd', 'y']);
        assert("setoption"@ =~= seq!['s', 'e', 't', 'o', 'p', 't', 'i', 'o', 'n']);
        assert("quit"@ =~= seq!['q', 'u', 'i', 't']);
        assert("ucinewgame"@ =~= seq!['u', 'c', 'i', 'n', 'e', 'w', 'g', 'a', 'm', 'e']);
        assert("print"@ =~= seq!['p', 'r', 'i', 'n', 't']);
        assert("display"@ =~= seq!['d', 'i', 's', 'p', 'l', 'a', 'y']);
        assert("board"@ =~= seq!['b', 'o', 'a', 'r', 'd']);
        assert("go"@ =~= seq!['g', 'o']);
        assert("position"@ =~= seq!['p', 'o', 's', 'i', 't', 'i', 'o', 'n']);
        assert("moves"@ =~= seq!['m', 'o', 'v', 'e', 's']);
        assert("history"@ =~= seq!['h', 'i', 's', 't', 'o', 'r', 'y']);
        assert("eval"@ =~= seq!['e', 'v', 'a', 'l']);
    }
    if s.handshake {
        if same_text(cmd, "isready") {
            s.handshake = false;
            UciAction::EndHandshake(true)
        } else if same_text(cmd, "setoption") {
            apply_option(s, rest);
            UciAction::Nothing
        } else if same_text(cmd, "quit") {
            UciAction::Quit
        } else {
            s.handshake = false;
            UciAction::EndHandshake(false)
        }
    } else if same_text(cmd, "ucinewgame") {
        UciAction::NewGame
    } else if same_text(cmd, "isready") {
        UciAction::ReadyOk
    } else if same_text(cmd, "print") || same_text(cmd, "display") || same_text(cmd, "board") {
        UciAction::Print
    } else if same_text(cmd, "go") {
        UciAction::Go
    } else if same_text(cmd, "position") {
        UciAction::Position
    } else if same_text(cmd, "moves") {
        UciAction::Moves
    } else if same_text(cmd, "setoption") {
        let resize = apply_option(s, rest);
        UciAction::SetOption(resize)
    } else if same_text(cmd, "history") {
        UciAction::History
    } else if same_text(cmd, "eval") {
        UciAction::Eval
    } else if same_text(cmd, "quit") {
        UciAction::Quit
    } else {
        UciAction::Nothing
    }
}

} // verus!

use crate::chess::fen::{parse_i32, parse_uint, spec_parse_i32, spec_parse_uint};
use crate::search::settings::Type;
use crate::uci::moves::same_text;
use vstd::prelude::*;
use vstd::string::StringSliceAdditionalSpecFns;

verus! {

/// The limits a `go` command sets, each as last given.
#[derive(Clone, Copy)]
pub struct GoFields {
    pub wtime: Option<u32>,
    pub btime: Option<u32>,
    pub winc: Option<u32>,
    pub binc: Option<u32>,
    pub movestogo: Option<u32>,
    pub depth: Option<i32>,
    pub nodes: Option<u64>,
    pub movetime: Option<u32>,
    pub infinite: Option<bool>,
    pub perft: Option<u8>,
    pub split: Option<u8>,
}

/// No limit given yet.
pub open spec fn no_fields() -> GoFields {
    GoFields {
        wtime: None,
        btime: None,
        winc: None,
        binc: None,
        movestogo: None,
        depth: None,
        nodes: None,
        movetime: None,
        infinite: None,
        perft: None,
        split: None,
    }
}

/// `s` read as a `u32`, or `None`.
pub open spec fn as_u32(s: Seq<u8>) -> Option<u32> {
    match spec_parse_uint(s, u32::MAX as int) {
        Some(v) => Some(v as u32),
        None => None,
    }
}

/// `s` read as a `u64`, or `None`.
pub open spec fn as_u64(s: Seq<u8>) -> Option<u64> {
    match spec_parse_uint(s, u64::MAX as int) {
        Some(v) => Some(v as u64),
        None => None,
    }
}

/// `s` read as a `u8`, or `None`.
pub open spec fn as_u8(s: Seq<u8>) -> Option<u8> {
    match spec_parse_uint(s, u8::MAX as int) {
        Some(v) => Some(v as u8),
        None => None,
    }
}

/// One `go` argument, name `key` and value `val`, applied to the limits; `None` for an unknown
/// name. A value that does not read as a number clears its limit; `infinite` ignores its value.
pub open spec fn go_step(f: GoFields, key: Seq<char>, val: Seq<u8>) -> Option<GoFields> {
    if key == seq!['w', 't', 'i', 'm', 'e'] {
        Some(GoFields { wtime: as_u32(val), ..f })
    } else if key == seq!['b', 't', 'i', 'm', 'e'] {
        Some(GoFields { btime: as_u32(val), ..f })
    } else if key == seq!['w', 'i', 'n', 'c'] {
        Some(GoFields { winc: as_u32(val), ..f })
    } else if key == seq!['b', 'i', 'n', 'c'] {
        Some(GoFields { binc: as_u32(val), ..f })
    } else if key == seq!['m', 'o', 'v', 'e', 's', 't', 'o', 'g', 'o'] {
        Some(GoFields { movestogo: as_u32(val), ..f })
    } else if key == seq!['d', 'e', 'p', 't', 'h'] {
        Some(GoFields { depth: spec_parse_i32(val), ..f })
    } else if key == seq!['n', 'o', 'd', 'e', 's'] {
        Some(GoFields { nodes: as_u64(val), ..f })
    } else if key == seq!['m', 'o', 'v', 'e', 't', 'i', 'm', 'e'] {
        Some(GoFields { movetime: as_u32(val), ..f })
    } else if key == seq!['i', 'n', 'f', 'i', 'n', 'i', 't', 'e'] {
        Some(GoFields { infinite: Some(true), ..f })
    } else if key == seq!['p', 'e', 'r', 'f', 't'] {
        Some(GoFields { perft: as_u8(val), ..f })
    } else if key == seq!['s', 'p', 'l', 'i', 't'] {
        Some(GoFields { split: as_u8(val), ..f })
    } else {
        None
    }
}

/// Reads the `go` arguments in pairs of a name and a value from token `i` on (a missing value
/// reads as empty); an unknown name refuses the command, and the end of the tokens (or an empty
/// token) ends it.
pub open spec fn go_from(f: GoFields, toks: Seq<&str>, i: int) -> Option<GoFields>
    decreases toks.len() + 1 - i,
{
    if i < 0 || i >= toks.len() || toks[i]@.len() == 0 {
        Some(f)
    } else {
        let val = if i + 1 < toks.len() {
            toks[i + 1].spec_bytes()
        } else {
            Seq::empty()
        };
        match go_step(f, toks[i]@, val) {
            Some(g) => go_from(g, toks, i + 2),
            None => None,
        }
    }
}

/// The search a set of limits asks for: the clock (both times given), a depth, a node count, a
/// fixed time, an endless search, or a move path count in total or split by move; exactly one
/// kind must be given.
pub open spec fn go_settings(f: GoFields) -> Option<Type> {
    match (f.wtime, f.btime, f.depth, f.nodes, f.movetime, f.infinite, f.perft, f.split) {
        (Some(wt), Some(bt), None, None, None, None, None, None) => Some(
            Type::Time(wt, bt, f.winc, f.binc, f.movestogo),
        ),
        (None, None, Some(d), None, None, None, None, None) => Some(Type::Depth(d)),
        (None, None, None, Some(n), None, None, None, None) => Some(Type::Nodes(n)),
        (None, None, None, None, Some(m), None, None, None) => Some(Type::Movetime(m)),
        (None, None, None, None, None, Some(_), None, None) => Some(Type::Infinite),
        (None, None, None, None, None, None, Some(d), None) => Some(Type::Perft(d)),
        (None, None, None, None, None, None, None, Some(d)) => Some(Type::SplitPerft(d)),
        _ => None,
    }
}

/// What the arguments of a `go` command ask for.
pub open spec fn spec_parse_go(toks: Seq<&str>) -> Option<Type> {
    match go_from(no_fields(), toks, 0) {
        Some(f) => go_settings(f),
        None => None,
    }
}

fn read_u32(tok: &str) -> (r: Option<u32>)
    ensures
        r == as_u32(tok.spec_bytes()),
{
    match parse_uint(tok.as_bytes(), 0xFFFF_FFFF) {
        Some(v) => Some(v as u32),
        None => None,
    }
}

fn read_u64(tok: &str) -> (r: Option<u64>)
    ensures
        r == as_u64(tok.spec_bytes()),
{
    parse_uint(tok.as_bytes(), 0xFFFF_FFFF_FFFF_FFFF)
}

fn read_u8(tok: &str) -> (r: Option<u8>)
    ensures
        r == as_u8(tok.spec_bytes()),
{
    match parse_uint(tok.as_bytes(), 0xFF) {
        Some(v) => Some(v as u8),
        None => None,
    }
}

fn read_i32(tok: &str) -> (r: Option<i32>)
    ensures
        r == spec_parse_i32(tok.spec_bytes()),
{
    let b = tok.as_bytes();
    assert(b@.subrange(0, b@.len() as int) =~= b@);
    parse_i32(b, 0, b.len())
}

fn apply_go_arg(f: &mut GoFields, key: &str, val: &str) -> (ok: bool)
    ensures
        match go_step(*old(f), key@, val.spec_bytes()) {
            Some(g) => ok && *final(f) == g,
            None => !ok,
        },
{
    proof {
        reveal_strlit("wtime");
        reveal_strlit("btime");
        reveal_strlit("winc");
        reveal_strlit("binc");
        reveal_strlit("movestogo");
        reveal_strlit("depth");
        reveal_strlit("nodes");
        reveal_strlit("movetime");
        reveal_strlit("infinite");
        reveal_strlit("perft");
        reveal_strlit("split");
        assert("wtime"@ =~= seq!['w', 't', 'i', 'm', 'e']);
        assert("btime"@ =~= seq!['b', 't', 'i', 'm', 'e']);
        assert("winc"@ =~= seq!['w', 'i', 'n', 'c']);
        assert("binc"@ =~= seq!['b', 'i', 'n', 'c']);
        assert("movestogo"@ =~= seq!['m', 'o', 'v', 'e', 's', 't', 'o', 'g', 'o']);
        assert("depth"@ =~= seq!['d', 'e', 'p', 't', 'h']);
        assert("nodes"@ =~= seq!['n', 'o', 'd', 'e', 's']);
        assert("movetime"@ =~= seq!['m', 'o', 'v', 'e', 't', 'i', 'm', 'e']);
        assert("infinite"@ =~= seq!['i', 'n', 'f', 'i', 'n', 'i', 't', 'e']);
        assert("perft"@ =~= seq!['p', 'e', 'r', 'f', 't']);
        assert("split"@ =~= seq!['s', 'p', 'l', 'i', 't']);
    }
    if same_text(key, "wtime") {
        f.wtime = read_u32(val);
    } else if same_text(key, "btime") {
        f.btime = read_u32(val);
    } else if same_text(key, "winc") {
        f.winc = read_u32(val);
    } else if same_text(key, "binc") {
        f.binc = read_u32(val);
    } else if same_text(key, "movestogo") {
        f.movestogo = read_u32(val);
    } else if same_text(key, "depth") {
        f.depth = read_i32(val);
    } else if same_text(key, "nodes") {
        f.nodes = read_u64(val);
    } else if same_text(key, "movetime") {
        f.movetime = read_u32(val);
    } else if same_text(key, "infinite") {
        f.infinite = Some(true);
    } else if same_text(key, "perft") {
        f.perft = read_u8(val);
    } else if same_text(key, "split") {
        f.split = read_u8(val);
    } else {
        return false;
    }
    true
}

/// Reads the arguments of a `go` command: the kind of search they ask for, or an error.
pub fn parse_go(tokens: &[&str]) -> (r: Result<Type, &'static str>)
    ensures
        match spec_parse_go(tokens@) {
            Some(t) => r == Ok::<Type, &'static str>(t),
            None => r == Err::<Type, &'static str>("Uh oh"),
        },
{
    let mut f = GoFields {
        wtime: None,
        btime: None,
        winc: None,
        binc: None,
        movestogo: None,
        depth: None,
        nodes: None,
        movetime: None,
        infinite: None,
        perft: None,
        split: None,
    };
    let mut i: usize = 0;
    while i < tokens.len()
        invariant
            go_from(f, tokens@, i as int) == go_from(no_fields(), tokens@, 0),
        decreases tokens.len() - i,
    {
        let key = tokens[i];
        if key.is_empty() {
            return match go_settings_of(&f) {
                Some(t) => Ok(t),
                None => Err("Uh oh"),
            };
        }
        let val = if i + 1 < tokens.len() {
            tokens[i + 1]
        } else {
            proof {
                reveal_strlit("");
                vstd::string::is_ascii_spec_bytes("");
            }
            ""
        };
        assert(val.spec_bytes() == (if i + 1 < tokens@.len() {
            tokens@[i + 1].spec_bytes()
        } else {
            Seq::empty()
        }));
        if !apply_go_arg(&mut f, key, val) {
            return Err("Uh oh");
        }
        i = if i + 1 < tokens.len() {
            i + 2
        } else {
            tokens.len()
        };
    }
    match go_settings_of(&f) {
        Some(t) => Ok(t),
        None => Err("Uh oh"),
    }
}

fn go_settings_of(f: &GoFields) -> (r: Option<Type>)
    ensures
        r == go_settings(*f),
{
    match (f.wtime, f.btime, f.depth, f.nodes, f.movetime, f.infinite, f.perft, f.split) {
        (Some(wt), Some(bt), None, None, None, None, None, None) => Some(
            Type::Time(wt, bt, f.winc, f.binc, f.movestogo),
        ),
        (None, None, Some(d), None, None, None, None, None) => Some(Type::Depth(d)),
        (None, None, None, Some(n), None, None, None, None) => Some(Type::Nodes(n)),
        (None, None, None, None, Some(m), None, None, None) => Some(Type::Movetime(m)),
        (None, None, None, None, None, Some(_), None, None) => Some(Type::Infinite),
        (None, None, None, None, None, None, Some(d), None) => Some(Type::Perft(d)),
        (None, None, None, None, None, None, None, Some(d)) => Some(Type::SplitPerft(d)),
        _ => None,
    }
}

} // verus!

use crate::uci::moves::same_text;
use vstd::prelude::*;

verus! {

/// The name and value a `setoption` command sets: the tokens `name`, the name, `value`, the
/// value; `None` when they are not there.
pub open spec fn spec_setoption<'a>(toks: Seq<&'a str>) -> Option<(&'a str, &'a str)> {
    if toks.len() >= 4 && toks[0]@ == seq!['n', 'a', 'm', 'e'] && toks[2]@ == seq![
        'v',
        'a',
        'l',
        'u',
        'e',
    ] {
        Some((toks[1], toks[3]))
    } else {
        None
    }
}

/// Reads the arguments of a `setoption` command.
pub fn parse_setoption<'a>(tokens: &[&'a str]) -> (r: Option<(&'a str, &'a str)>)
    ensures
        r == spec_setoption(tokens@),
{
    proof {
        reveal_strlit("name");
        reveal_strlit("value");
        assert("name"@ =~= seq!['n', 'a', 'm', 'e']);
        assert("value"@ =~= seq!['v', 'a', 'l', 'u', 'e']);
    }
    if tokens.len() < 4 {
        return None;
    }
    if !same_text(tokens[0], "name") {
        return None;
    }
    let name = tokens[1];
    if !same_text(tokens[2], "value") {
        return None;
    }
    Some((name, tokens[3]))
}

/// Hands the name and value of a `setoption` command to `func`, when both are there.
pub fn setoption<'a, F: FnMut(&'a str, &'a str)>(tokens: &[&'a str], mut func: F)
    requires
        forall|a: &'a str, b: &'a str| #[trigger] func.requires((a, b)),
{
    match parse_setoption(tokens) {
        Some((name, value)) => {
            func(name, value);
        },
        None => {},
    }
}

} // verus!

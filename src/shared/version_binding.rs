//! The comparison operator of a versioned package relationship.

use vstd::prelude::*;

use crate::shared::text::{before_first, chars_of, find_char};

verus! {

/// How a relationship constrains the version of the package it names.
///
/// The known operators are `<=`, `>=` and `=`. The single characters `<` and
/// `>` are deprecated and ambiguous, so they are not interpreted and read as
/// `Unknown`, as does any other token; no token gives `LessThan` or
/// `GreaterThan`.
#[derive(Debug, Clone, Copy, PartialEq, Eq, Structural)]
pub enum VersionBinding {
    LessThan,
    GreaterThan,
    LessThanOrEqual,
    GreaterThanOrEqual,
    Equal,
    /// No parenthesised version clause was given.
    Any,
    /// A version clause was given with an operator outside the known set.
    Unknown,
}

/// The binding that the operator token `op` denotes (matched case-sensitively).
pub open spec fn binding_of(op: Seq<char>) -> VersionBinding {
    if op == seq!['<', '='] {
        VersionBinding::LessThanOrEqual
    } else if op == seq!['>', '='] {
        VersionBinding::GreaterThanOrEqual
    } else if op == seq!['='] {
        VersionBinding::Equal
    } else {
        VersionBinding::Unknown
    }
}

/// The binding denoted by the token `cs[from..to]`.
pub fn binding_of_range(cs: &Vec<char>, from: usize, to: usize) -> (r: VersionBinding)
    requires
        from <= to <= cs.len(),
    ensures
        r == binding_of(cs@.subrange(from as int, to as int)),
{
    let ghost op = cs@.subrange(from as int, to as int);
    let n = to - from;
    if n == 1 {
        if cs[from] == '=' {
            assert(op =~= seq!['=']);
            VersionBinding::Equal
        } else {
            assert(op.len() == 1 && op[0] != '=');
            assert(seq!['='][0] == '=');
            assert(op != seq!['=']);
            VersionBinding::Unknown
        }
    } else if n == 2 {
        let (x, y) = (cs[from], cs[from + 1]);
        assert(op[0] == x && op[1] == y);
        if x == '<' && y == '=' {
            assert(op =~= seq!['<', '=']);
            VersionBinding::LessThanOrEqual
        } else if x == '>' && y == '=' {
            assert(op =~= seq!['>', '=']);
            VersionBinding::GreaterThanOrEqual
        } else {
            assert(op != seq!['<', '='] && op != seq!['>', '=']);
            VersionBinding::Unknown
        }
    } else {
        proof {
            let len = op.len();
            assert(len != 1 && len != 2);
        }
        VersionBinding::Unknown
    }
}

impl VersionBinding {
    /// Reads the operator token at the start of `s`, up to its first space.
    pub fn from_str(s: &str) -> (r: VersionBinding)
        ensures
            r == binding_of(before_first(s@, ' ')),
    {
        let cs = chars_of(s);
        let end = find_char(&cs, 0, cs.len(), ' ');
        assert(cs@.subrange(0, cs@.len() as int) =~= s@);
        binding_of_range(&cs, 0, end)
    }
}

} // verus!

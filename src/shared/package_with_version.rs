//! One package relationship atom, `name (OP VERSION)`, and the
//! comma-separated lists of them that relationship fields hold.

use vstd::prelude::*;

use crate::shared::text::{
    before_first, chars_of, find_char, index_of, is_space, lemma_index_of,
    lemma_trim_end_prefix, lemma_trim_start_suffix, skip_space, string_of, trim, trim_end,
    trim_range, trim_start,
};
use crate::shared::version_binding::{binding_of, binding_of_range, VersionBinding};

verus! {

/// A reference to another package, with an optional version constraint.
///
/// Architecture qualifiers (`name:arch`) are kept verbatim in `name`; text
/// after the closing parenthesis of the version clause (such as a
/// `[arch]` restriction) is not kept.
#[derive(Debug, Clone, PartialEq, Eq)]
pub struct PackageWithVersion {
    pub name: String,
    /// Empty when `binding` is `Any`.
    pub version: String,
    pub binding: VersionBinding,
}

/// The value of a [`PackageWithVersion`].
pub struct PackageReference {
    pub name: Seq<char>,
    pub version: Seq<char>,
    pub binding: VersionBinding,
}

impl View for PackageWithVersion {
    type V = PackageReference;

    open spec fn view(&self) -> PackageReference {
        PackageReference { name: self.name@, version: self.version@, binding: self.binding }
    }
}

/// Characters that make up a comparison operator.
pub open spec fn is_op_char(c: char) -> bool {
    c == '<' || c == '=' || c == '>'
}

/// Length of the run of operator characters at the start of `s`.
pub open spec fn op_len(s: Seq<char>) -> nat
    decreases s.len(),
{
    if s.len() > 0 && is_op_char(s[0]) {
        1 + op_len(s.drop_first())
    } else {
        0
    }
}

/// The reference that one atom denotes.
///
/// The atom is trimmed. Without a `(` it is a bare package name. Otherwise
/// the name is the trimmed text before the first `(`, and the clause after it
/// runs to the first `)` (or to the end): after leading whitespace, its run of
/// `<`, `=`, `>` characters is the operator and the trimmed rest the version.
pub open spec fn atom_of(atom: Seq<char>) -> PackageReference {
    let a = trim(atom);
    let p = index_of(a, '(');
    if p < 0 {
        PackageReference { name: a, version: Seq::empty(), binding: VersionBinding::Any }
    } else {
        let clause = trim_start(before_first(a.subrange(p + 1, a.len() as int), ')'));
        let k = op_len(clause) as int;
        PackageReference {
            name: trim(a.subrange(0, p)),
            version: trim(clause.subrange(k, clause.len() as int)),
            binding: binding_of(clause.subrange(0, k)),
        }
    }
}

proof fn lemma_op_len(s: Seq<char>, i: int)
    requires
        0 <= i <= s.len(),
        forall|j: int| 0 <= j < i ==> is_op_char(s[j]),
        i == s.len() || !is_op_char(s[i]),
    ensures
        op_len(s) == i,
    decreases s.len(),
{
    if s.len() > 0 && i > 0 {
        lemma_op_len(s.drop_first(), i - 1);
    }
}

/// End of the run of operator characters that starts at `from`.
fn op_end(cs: &Vec<char>, from: usize, to: usize) -> (k: usize)
    requires
        from <= to <= cs.len(),
    ensures
        from <= k <= to,
        op_len(cs@.subrange(from as int, to as int)) == k - from,
{
    let mut k = from;
    while k < to && (cs[k] == '<' || cs[k] == '=' || cs[k] == '>')
        invariant
            from <= k <= to <= cs.len(),
            forall|j: int| from <= j < k ==> is_op_char(cs@[j]),
        decreases to - k,
    {
        k = k + 1;
    }
    proof {
        lemma_op_len(cs@.subrange(from as int, to as int), k - from);
    }
    k
}

/// Parses the atom `cs[from..to]`.
pub fn parse_atom(cs: &Vec<char>, from: usize, to: usize) -> (r: PackageWithVersion)
    requires
        from <= to <= cs.len(),
    ensures
        r@ == atom_of(cs@.subrange(from as int, to as int)),
{
    let ghost atom = cs@.subrange(from as int, to as int);
    let (a, b) = trim_range(cs, from, to);
    let ghost t = cs@.subrange(a as int, b as int);
    let p = find_char(cs, a, b, '(');
    if p == b {
        let name = string_of(cs, a, b);
        PackageWithVersion { name, version: String::new(), binding: VersionBinding::Any }
    } else {
        let q = find_char(cs, p + 1, b, ')');
        let c = skip_space(cs, p + 1, q);
        let k = op_end(cs, c, q);
        let (na, nb) = trim_range(cs, a, p);
        let (va, vb) = trim_range(cs, k, q);
        let binding = binding_of_range(cs, c, k);
        proof {
            let pp = p - a;
            assert(t.subrange(pp + 1, t.len() as int) =~= cs@.subrange(p + 1, b as int));
            assert(before_first(cs@.subrange(p + 1, b as int), ')') =~= cs@.subrange(
                p + 1,
                q as int,
            ));
            let clause = cs@.subrange(c as int, q as int);
            assert(clause.subrange(k - c, clause.len() as int) =~= cs@.subrange(
                k as int,
                q as int,
            ));
            assert(clause.subrange(0, k - c) =~= cs@.subrange(c as int, k as int));
            assert(t.subrange(0, pp) =~= cs@.subrange(a as int, p as int));
        }
        PackageWithVersion {
            name: string_of(cs, na, nb),
            version: string_of(cs, va, vb),
            binding,
        }
    }
}

impl PackageWithVersion {
    /// Parses one relationship atom such as `libc6 (>= 2.28)` or `adduser`.
    pub fn from_str(contents: &str) -> (r: PackageWithVersion)
        ensures
            r@ == atom_of(contents@),
    {
        let cs = chars_of(contents);
        assert(cs@.subrange(0, cs@.len() as int) =~= contents@);
        parse_atom(&cs, 0, cs.len())
    }
}

/// An atom without `(` names a package bare: its name is the atom with
/// surrounding whitespace trimmed, and no version is constrained.
pub proof fn lemma_bare_atom(atom: Seq<char>)
    requires
        forall|j: int| 0 <= j < atom.len() ==> atom[j] != '(',
    ensures
        atom_of(atom) == (PackageReference {
            name: trim(atom),
            version: Seq::empty(),
            binding: VersionBinding::Any,
        }),
{
    let k1 = lemma_trim_start_suffix(atom);
    let ts = trim_start(atom);
    let k2 = lemma_trim_end_prefix(ts);
    let t = trim(atom);
    assert forall|j: int| 0 <= j < t.len() implies t[j] != '(' by {
        assert(t[j] == atom[k1 + j]);
    }
    lemma_index_of(t, '(', t.len() as int);
}

/// `name (>= version)` constrains `name` to at least `version`, and `name`
/// alone constrains nothing; for a name and a version without surrounding
/// whitespace, a name without `(` and a version without `)` that does not
/// start with an operator character.
pub proof fn lemma_versioned_atom(name: Seq<char>, version: Seq<char>)
    requires
        name.len() > 0,
        !is_space(name[0]),
        !is_space(name.last()),
        forall|j: int| 0 <= j < name.len() ==> name[j] != '(',
        version.len() > 0,
        !is_space(version[0]),
        !is_space(version.last()),
        !is_op_char(version[0]),
        forall|j: int| 0 <= j < version.len() ==> version[j] != ')',
    ensures
        atom_of(name + seq![' ', '(', '>', '=', ' '] + version + seq![')']) == (
        PackageReference { name, version, binding: VersionBinding::GreaterThanOrEqual }),
        atom_of(name) == (PackageReference {
            name,
            version: Seq::empty(),
            binding: VersionBinding::Any,
        }),
{
    let n = name.len() as int;
    let v = version.len() as int;
    let atom = name + seq![' ', '(', '>', '=', ' '] + version + seq![')'];
    assert(atom.len() == n + 6 + v);
    assert(atom[0] == name[0]);
    assert(atom.last() == ')');
    assert(trim_start(atom) == atom);
    assert(trim(atom) == atom);
    assert forall|j: int| 0 <= j < n + 1 implies atom[j] != '(' by {
        if j < n {
            assert(atom[j] == name[j]);
        }
    }
    lemma_index_of(atom, '(', n + 1);
    let rest = atom.subrange(n + 2, atom.len() as int);
    assert(rest =~= seq!['>', '=', ' '] + version + seq![')']);
    assert forall|j: int| 0 <= j < 3 + v implies rest[j] != ')' by {
        if j >= 3 {
            assert(rest[j] == version[j - 3]);
        }
    }
    lemma_index_of(rest, ')', 3 + v);
    let inner = rest.subrange(0, 3 + v);
    assert(inner =~= seq!['>', '=', ' '] + version);
    assert(trim_start(inner) == inner);
    lemma_op_len(inner, 2);
    assert(inner.subrange(0, 2) =~= seq!['>', '=']);
    let tail = inner.subrange(2, inner.len() as int);
    assert(tail.drop_first() =~= version);
    assert(trim_start(version) == version);
    assert(trim_start(tail) == version);
    assert(trim_end(version) == version);
    let head = atom.subrange(0, n + 1);
    assert(head.drop_last() =~= name);
    assert(trim_start(head) == head);
    assert(trim_end(name) == name);
    assert(trim_end(head) == name);
    lemma_bare_atom(name);
    assert(trim_start(name) == name);
}

/// The pieces of `s` between occurrences of `sep`, as `str::split` yields
/// them: `k` separators give `k + 1` pieces, some of them possibly empty.
pub open spec fn split_on(s: Seq<char>, sep: char) -> Seq<Seq<char>>
    decreases s.len(),
{
    if s.len() == 0 {
        seq![Seq::empty()]
    } else {
        let pieces = split_on(s.drop_last(), sep);
        if s.last() == sep {
            pieces.push(Seq::empty())
        } else {
            pieces.update(pieces.len() - 1, pieces.last().push(s.last()))
        }
    }
}

/// The references that a list of comma-delimited pieces denotes: one for
/// each piece that is not blank, in order.
pub open spec fn atoms_of(pieces: Seq<Seq<char>>) -> Seq<PackageReference>
    decreases pieces.len(),
{
    if pieces.len() == 0 {
        Seq::empty()
    } else {
        let rest = atoms_of(pieces.drop_last());
        if trim(pieces.last()).len() == 0 {
            rest
        } else {
            rest.push(atom_of(pieces.last()))
        }
    }
}

/// The references that a relationship field's value denotes.
pub open spec fn relations_of(value: Seq<char>) -> Seq<PackageReference> {
    atoms_of(split_on(value, ','))
}

/// The values of a list of references.
pub open spec fn references(v: Seq<PackageWithVersion>) -> Seq<PackageReference> {
    v.map_values(|p: PackageWithVersion| p@)
}

proof fn lemma_split_on_nonempty(s: Seq<char>, sep: char)
    ensures
        split_on(s, sep).len() >= 1,
    decreases s.len(),
{
    if s.len() > 0 {
        lemma_split_on_nonempty(s.drop_last(), sep);
    }
}

/// Appends the reference that `cs[from..to]` denotes, unless it is blank.
fn push_atom(cs: &Vec<char>, from: usize, to: usize, out: &mut Vec<PackageWithVersion>)
    requires
        from <= to <= cs.len(),
    ensures
        references(final(out)@) == if trim(cs@.subrange(from as int, to as int)).len() == 0 {
            references(old(out)@)
        } else {
            references(old(out)@).push(atom_of(cs@.subrange(from as int, to as int)))
        },
{
    let (a, b) = trim_range(cs, from, to);
    if a < b {
        let atom = parse_atom(cs, from, to);
        out.push(atom);
        assert(references(out@) =~= references(old(out)@).push(atom@));
    }
}

/// Parses a relationship field's value (`Depends`, `Conflicts`, ...) into
/// its references, in the order they appear; blank pieces are skipped.
pub fn parse_relations(value: &str) -> (r: Vec<PackageWithVersion>)
    ensures
        references(r@) == relations_of(value@),
{
    let cs = chars_of(value);
    let n = cs.len();
    let mut out: Vec<PackageWithVersion> = Vec::new();
    let mut start: usize = 0;
    let mut i: usize = 0;
    proof {
        assert(cs@.subrange(0, 0).len() == 0);
        assert(references(out@) =~= Seq::empty());
    }
    while i < n
        invariant
            0 <= start <= i <= n == cs.len(),
            split_on(cs@.subrange(0, i as int), ',').len() >= 1,
            split_on(cs@.subrange(0, i as int), ',').last() == cs@.subrange(
                start as int,
                i as int,
            ),
            references(out@) == atoms_of(split_on(cs@.subrange(0, i as int), ',').drop_last()),
        decreases n - i,
    {
        let ghost before = cs@.subrange(0, i as int);
        let ghost after = cs@.subrange(0, i + 1);
        let ghost pieces = split_on(before, ',');
        assert(after.drop_last() =~= before);
        assert(after.last() == cs@[i as int]);
        if cs[i] == ',' {
            push_atom(&cs, start, i, &mut out);
            start = i + 1;
            assert(split_on(after, ',').drop_last() =~= pieces);
            assert(split_on(after, ',').last() =~= cs@.subrange(start as int, i + 1));
        } else {
            assert(split_on(after, ',').drop_last() =~= pieces.drop_last());
            assert(split_on(after, ',').last() =~= cs@.subrange(start as int, i + 1));
        }
        i = i + 1;
    }
    push_atom(&cs, start, n, &mut out);
    assert(cs@.subrange(0, n as int) =~= value@);
    out
}

} // verus!

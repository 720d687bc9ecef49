//! The install tree: which staged files a package installs, and where.

use vstd::prelude::*;

use crate::file::data_types::{PathItem, PathItemView};
use crate::shared::text::{chars_of, string_of};

verus! {

/// An entry found beneath the data root of a staged package.
#[derive(Debug, Clone, PartialEq, Eq)]
pub struct DataEntry {
    /// The entry's full path.
    pub path: String,
    /// The entry is a regular file (not a directory, nor a symbolic link).
    pub is_file: bool,
}

/// The value of a [`DataEntry`].
pub struct DataEntryView {
    pub path: Seq<char>,
    pub is_file: bool,
}

impl View for DataEntry {
    type V = DataEntryView;

    open spec fn view(&self) -> DataEntryView {
        DataEntryView { path: self.path@, is_file: self.is_file }
    }
}

/// Lexicographic order on character sequences, by code point: the order of
/// `str`'s comparison.
pub open spec fn lex_le(a: Seq<char>, b: Seq<char>) -> bool
    decreases a.len(),
{
    if a.len() == 0 {
        true
    } else if b.len() == 0 {
        false
    } else if a[0] as u32 != b[0] as u32 {
        (a[0] as u32) < (b[0] as u32)
    } else {
        lex_le(a.drop_first(), b.drop_first())
    }
}

/// The install entry for `e`: present when `e` is a regular file under
/// `root`, with target `/` followed by its path relative to `root`.
pub open spec fn entry_item(root: Seq<char>, e: DataEntryView) -> Option<PathItemView> {
    if e.is_file && root.is_prefix_of(e.path) {
        Some(
            PathItemView {
                real: e.path,
                move_to: seq!['/'] + e.path.subrange(root.len() as int, e.path.len() as int),
            },
        )
    } else {
        None
    }
}

/// The install entries of `entries`, in the order the entries come.
pub open spec fn installed(root: Seq<char>, entries: Seq<DataEntryView>) -> Seq<PathItemView>
    decreases entries.len(),
{
    if entries.len() == 0 {
        Seq::empty()
    } else {
        let rest = installed(root, entries.drop_last());
        match entry_item(root, entries.last()) {
            Some(item) => rest.push(item),
            None => rest,
        }
    }
}

pub open spec fn entry_views(v: Seq<DataEntry>) -> Seq<DataEntryView> {
    v.map_values(|e: DataEntry| e@)
}

pub open spec fn path_items(v: Seq<PathItem>) -> Seq<PathItemView> {
    v.map_values(|p: PathItem| p@)
}

/// The targets of `items` ascend.
pub open spec fn targets_sorted(items: Seq<PathItemView>) -> bool {
    forall|i: int, j: int|
        #![trigger items[i], items[j]]
        0 <= i < j < items.len() ==> lex_le(items[i].move_to, items[j].move_to)
}

/// `items` is the install tree of `entries` under `root`: the same entries,
/// ordered by target.
pub open spec fn is_install_tree(
    root: Seq<char>,
    entries: Seq<DataEntryView>,
    items: Seq<PathItemView>,
) -> bool {
    &&& items.to_multiset() == installed(root, entries).to_multiset()
    &&& targets_sorted(items)
}

/// Entries none of which is a regular file (an empty data root, or one with
/// only directories) give an empty install tree.
pub proof fn lemma_no_files_no_items(
    root: Seq<char>,
    entries: Seq<DataEntryView>,
    items: Seq<PathItemView>,
)
    requires
        forall|i: int| 0 <= i < entries.len() ==> !(#[trigger] entries[i]).is_file,
        is_install_tree(root, entries, items),
    ensures
        items.len() == 0,
{
    broadcast use vstd::seq_lib::group_to_multiset_ensures;

    lemma_installed_without_files(root, entries);
    assert(installed(root, entries).to_multiset().len() == 0);
}

proof fn lemma_installed_without_files(root: Seq<char>, entries: Seq<DataEntryView>)
    requires
        forall|i: int| 0 <= i < entries.len() ==> !(#[trigger] entries[i]).is_file,
    ensures
        installed(root, entries).len() == 0,
    decreases entries.len(),
{
    if entries.len() > 0 {
        assert(!entries[entries.len() - 1].is_file);
        lemma_installed_without_files(root, entries.drop_last());
    }
}

proof fn lemma_lex_total(a: Seq<char>, b: Seq<char>)
    ensures
        lex_le(a, b) || lex_le(b, a),
    decreases a.len(),
{
    if a.len() > 0 && b.len() > 0 && a[0] as u32 == b[0] as u32 {
        lemma_lex_total(a.drop_first(), b.drop_first());
    }
}

proof fn lemma_lex_trans(a: Seq<char>, b: Seq<char>, c: Seq<char>)
    requires
        lex_le(a, b),
        lex_le(b, c),
    ensures
        lex_le(a, c),
    decreases a.len(),
{
    if a.len() > 0 && b.len() > 0 && c.len() > 0 && a[0] as u32 == b[0] as u32 && b[0] as u32
        == c[0] as u32 {
        lemma_lex_trans(a.drop_first(), b.drop_first(), c.drop_first());
    }
}

/// Whether `a` comes before `b`, or equals it.
fn lex_le_exec(a: &Vec<char>, b: &Vec<char>) -> (r: bool)
    ensures
        r == lex_le(a@, b@),
{
    let mut i: usize = 0;
    assert(a@.subrange(0, a@.len() as int) =~= a@);
    assert(b@.subrange(0, b@.len() as int) =~= b@);
    while i < a.len() && i < b.len() && a[i] as u32 == b[i] as u32
        invariant
            i <= a.len(),
            i <= b.len(),
            lex_le(a@, b@) == lex_le(
                a@.subrange(i as int, a@.len() as int),
                b@.subrange(i as int, b@.len() as int),
            ),
        decreases a.len() - i,
    {
        assert(a@.subrange(i as int, a@.len() as int).drop_first() =~= a@.subrange(
            i + 1,
            a@.len() as int,
        ));
        assert(b@.subrange(i as int, b@.len() as int).drop_first() =~= b@.subrange(
            i + 1,
            b@.len() as int,
        ));
        i = i + 1;
    }
    if i == a.len() {
        true
    } else if i == b.len() {
        false
    } else {
        (a[i] as u32) < (b[i] as u32)
    }
}

/// Whether `root` is a prefix of `p`.
fn has_prefix(p: &Vec<char>, root: &Vec<char>) -> (r: bool)
    ensures
        r == root@.is_prefix_of(p@),
{
    if root.len() > p.len() {
        return false;
    }
    let mut i: usize = 0;
    while i < root.len()
        invariant
            i <= root.len() <= p.len(),
            forall|k: int| 0 <= k < i ==> root@[k] == p@[k],
        decreases root.len() - i,
    {
        if root[i] != p[i] {
            assert(p@.subrange(0, root@.len() as int)[i as int] != root@[i as int]);
            return false;
        }
        i = i + 1;
    }
    assert(p@.subrange(0, root@.len() as int) =~= root@);
    true
}

/// `/` followed by `p[from..]`.
fn target_of(p: &Vec<char>, from: usize) -> (r: Vec<char>)
    requires
        from <= p.len(),
    ensures
        r@ == seq!['/'] + p@.subrange(from as int, p@.len() as int),
{
    let mut r: Vec<char> = Vec::new();
    r.push('/');
    let mut i = from;
    while i < p.len()
        invariant
            from <= i <= p.len(),
            r@ == seq!['/'] + p@.subrange(from as int, i as int),
        decreases p.len() - i,
    {
        r.push(p[i]);
        i = i + 1;
        assert(r@ =~= seq!['/'] + p@.subrange(from as int, i as int));
    }
    r
}

/// The first position in ascending `keys` whose key comes after `key`.
fn insertion_point(keys: &Vec<Vec<char>>, key: &Vec<char>) -> (pos: usize)
    ensures
        pos <= keys.len(),
        forall|k: int| 0 <= k < pos ==> lex_le(#[trigger] keys@[k]@, key@),
        pos < keys.len() ==> !lex_le(keys@[pos as int]@, key@),
{
    let mut pos: usize = 0;
    while pos < keys.len() && lex_le_exec(&keys[pos], key)
        invariant
            pos <= keys.len(),
            forall|k: int| 0 <= k < pos ==> lex_le(#[trigger] keys@[k]@, key@),
        decreases keys.len() - pos,
    {
        pos = pos + 1;
    }
    pos
}

proof fn lemma_insert_to_multiset<A>(s: Seq<A>, pos: int, x: A)
    requires
        0 <= pos <= s.len(),
    ensures
        s.insert(pos, x).to_multiset() == s.to_multiset().insert(x),
{
    broadcast use vstd::seq_lib::group_to_multiset_ensures;

    let a = s.subrange(0, pos);
    let b = s.subrange(pos, s.len() as int);
    assert(s =~= a + b);
    assert(s.insert(pos, x) =~= a.push(x) + b);
    vstd::seq_lib::lemma_multiset_commutative(a, b);
    vstd::seq_lib::lemma_multiset_commutative(a.push(x), b);
    assert(s.insert(pos, x).to_multiset() =~= s.to_multiset().insert(x));
}

/// The install tree of the entries found beneath `data_root`: one item for
/// each regular file under it, ordered by target path.
pub fn build_install_tree(data_root: &str, entries: &Vec<DataEntry>) -> (r: Vec<PathItem>)
    ensures
        is_install_tree(data_root@, entry_views(entries@), path_items(r@)),
{
    let root = chars_of(data_root);
    let ghost es = entry_views(entries@);
    let mut items: Vec<PathItem> = Vec::new();
    let mut keys: Vec<Vec<char>> = Vec::new();
    let mut i: usize = 0;
    assert(path_items(items@) =~= Seq::empty());
    assert(installed(root@, es.subrange(0, 0)) =~= Seq::empty());
    while i < entries.len()
        invariant
            i <= entries.len(),
            root@ == data_root@,
            es == entry_views(entries@),
            keys.len() == items.len(),
            forall|k: int| 0 <= k < keys.len() ==> (#[trigger] keys@[k])@ == items@[k].move_to@,
            path_items(items@).to_multiset() == installed(
                root@,
                es.subrange(0, i as int),
            ).to_multiset(),
            targets_sorted(path_items(items@)),
        decreases entries.len() - i,
    {
        let ghost done = es.subrange(0, i as int);
        assert(es.subrange(0, i + 1).drop_last() =~= done);
        assert(es.subrange(0, i + 1).last() == entries@[i as int]@);
        let p = chars_of(entries[i].path.as_str());
        let inside = entries[i].is_file && has_prefix(&p, &root);
        assert(inside == entry_item(root@, entries@[i as int]@) is Some);
        if inside {
            let key = target_of(&p, root.len());
            let pos = insertion_point(&keys, &key);
            let item = PathItem { real: entries[i].path.clone(), move_to: string_of(&key, 0, key.len()) };
            assert(key@.subrange(0, key@.len() as int) =~= key@);
            let ghost old_items = path_items(items@);
            assert(entry_item(root@, entries@[i as int]@) == Some(item@));
            items.insert(pos, item);
            keys.insert(pos, key);
            proof {
                let new_items = path_items(items@);
                assert(new_items =~= old_items.insert(pos as int, item@));
                lemma_insert_to_multiset(old_items, pos as int, item@);
                broadcast use vstd::seq_lib::group_to_multiset_ensures;

                assert forall|a: int, b: int| 0 <= a < b < new_items.len() implies lex_le(
                    new_items[a].move_to,
                    new_items[b].move_to,
                ) by {
                    if b < pos {
                        assert(lex_le(old_items[a].move_to, old_items[b].move_to));
                    } else if b == pos {
                        assert(lex_le(keys@[a]@, key@));
                    } else if a < pos {
                        assert(lex_le(old_items[a].move_to, old_items[b - 1].move_to));
                    } else if a == pos {
                        lemma_lex_total(old_items[pos as int].move_to, key@);
                        if b - 1 > pos {
                            assert(lex_le(old_items[pos as int].move_to, old_items[b - 1].move_to));
                            lemma_lex_trans(
                                key@,
                                old_items[pos as int].move_to,
                                old_items[b - 1].move_to,
                            );
                        }
                    } else {
                        assert(lex_le(old_items[a - 1].move_to, old_items[b - 1].move_to));
                    }
                }
            }
        }
        i = i + 1;
    }
    assert(es.subrange(0, entries.len() as int) =~= es);
    items
}

} // verus!

//! Fields of a control paragraph and lookup by field name.

use vstd::prelude::*;

verus! {

/// One field of a control paragraph: its name and its value, continuation
/// lines joined by `'\n'`.
#[derive(Debug, Clone, PartialEq, Eq)]
pub struct ControlField {
    pub name: String,
    pub value: String,
}

impl View for ControlField {
    type V = (Seq<char>, Seq<char>);

    open spec fn view(&self) -> (Seq<char>, Seq<char>) {
        (self.name@, self.value@)
    }
}

/// The `(name, value)` pairs of a paragraph.
pub open spec fn field_views(fields: Seq<ControlField>) -> Seq<(Seq<char>, Seq<char>)> {
    fields.map_values(|f: ControlField| f@)
}

/// The value of the first field called `name`, if any.
pub open spec fn field_value(fields: Seq<(Seq<char>, Seq<char>)>, name: Seq<char>) -> Option<
    Seq<char>,
>
    decreases fields.len(),
{
    if fields.len() == 0 {
        None
    } else if fields[0].0 == name {
        Some(fields[0].1)
    } else {
        field_value(fields.drop_first(), name)
    }
}

/// Index of the first field called `query`, or the paragraph's length.
pub fn field_index(paragraph: &Vec<ControlField>, query: &str) -> (i: usize)
    ensures
        i <= paragraph.len(),
        i < paragraph.len() ==> paragraph@[i as int].name@ == query@,
        field_value(field_views(paragraph@), query@) == if i < paragraph.len() {
            Some(paragraph@[i as int].value@)
        } else {
            None::<Seq<char>>
        },
{
    let q: String = query.to_owned();
    let ghost fs = field_views(paragraph@);
    let mut i: usize = 0;
    assert(fs.subrange(0, fs.len() as int) =~= fs);
    while i < paragraph.len()
        invariant
            i <= paragraph.len(),
            q@ == query@,
            fs == field_views(paragraph@),
            field_value(fs, query@) == field_value(fs.subrange(i as int, fs.len() as int), query@),
        decreases paragraph.len() - i,
    {
        let ghost rest = fs.subrange(i as int, fs.len() as int);
        if paragraph[i].name == q {
            return i;
        }
        assert(rest.drop_first() =~= fs.subrange(i + 1, fs.len() as int));
        i = i + 1;
    }
    i
}

/// The first field of `paragraph` called `query`, if any.
pub fn paragraph_contains(paragraph: &Vec<ControlField>, query: &str) -> (r: Option<ControlField>)
    ensures
        match r {
            Some(f) => f@.0 == query@ && field_value(field_views(paragraph@), query@) == Some(
                f@.1,
            ),
            None => field_value(field_views(paragraph@), query@) is None,
        },
{
    let i = field_index(paragraph, query);
    if i < paragraph.len() {
        Some(ControlField { name: paragraph[i].name.clone(), value: paragraph[i].value.clone() })
    } else {
        None
    }
}

} // verus!

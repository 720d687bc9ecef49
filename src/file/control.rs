//! The control record: from the fields of a control paragraph to a
//! [`Control`], and from control text to its paragraphs.

use vstd::prelude::*;

use crate::file::data_types::{opt_view, Control, ControlView};
use crate::file::error::{DebError, DebErrorView};
use crate::shared::package_with_version::{
    parse_relations, references, relations_of, PackageReference, PackageWithVersion,
};
use crate::shared::search_paragraph::{
    field_value, field_views, paragraph_contains, ControlField,
};
use crate::shared::text::{chars_of, trim, trim_range};

verus! {

/// `s` with each line break replaced by a space, so that a folded value
/// reads as one line.
pub open spec fn fold_lines(s: Seq<char>) -> Seq<char> {
    s.map_values(|c: char| if c == '\n' { ' ' } else { c })
}

/// Some field name occurs twice.
pub open spec fn has_duplicate_names(fields: Seq<(Seq<char>, Seq<char>)>) -> bool {
    exists|i: int, j: int| 0 <= i < j < fields.len() && fields[i].0 == fields[j].0
}

pub open spec fn is_digit(c: char) -> bool {
    '0' <= c && c <= '9'
}

/// A non-empty run of decimal digits.
pub open spec fn is_decimal(s: Seq<char>) -> bool {
    s.len() > 0 && forall|i: int| 0 <= i < s.len() ==> is_digit(#[trigger] s[i])
}

/// The number that the digits `s` spell.
pub open spec fn decimal_value(s: Seq<char>) -> nat
    decreases s.len(),
{
    if s.len() == 0 {
        0
    } else {
        10 * decimal_value(s.drop_last()) + ((s.last() as u32) - ('0' as u32)) as nat
    }
}

/// The installed size that an `Installed-Size` value gives: absent when the
/// field is, `Err` when the trimmed value is not a decimal number that fits
/// in a `u64`.
pub open spec fn size_of(value: Option<Seq<char>>) -> Result<Option<u64>, ()> {
    match value {
        None => Ok(None),
        Some(v) => if is_decimal(trim(v)) && decimal_value(trim(v)) <= u64::MAX {
            Ok(Some(decimal_value(trim(v)) as u64))
        } else {
            Err(())
        },
    }
}

/// The folded value of a mandatory field that is present.
pub open spec fn mandatory(fields: Seq<(Seq<char>, Seq<char>)>, name: Seq<char>) -> Seq<char> {
    fold_lines(field_value(fields, name)->Some_0)
}

/// The folded value of an optional field.
pub open spec fn optional(fields: Seq<(Seq<char>, Seq<char>)>, name: Seq<char>) -> Option<
    Seq<char>,
> {
    match field_value(fields, name) {
        Some(v) => Some(fold_lines(v)),
        None => None,
    }
}

/// The references of a relationship field; none when it is absent.
pub open spec fn relation_field(fields: Seq<(Seq<char>, Seq<char>)>, name: Seq<char>) -> Seq<
    PackageReference,
> {
    match field_value(fields, name) {
        Some(v) => relations_of(fold_lines(v)),
        None => Seq::empty(),
    }
}

/// The control record that a paragraph's fields give, or the first error
/// among: a repeated field name; a missing `Package`, `Version`,
/// `Architecture`, `Maintainer` or `Description` field, in that order; an
/// `Installed-Size` that is not a number.
pub open spec fn control_model(fields: Seq<(Seq<char>, Seq<char>)>) -> Result<
    ControlView,
    DebErrorView,
> {
    if has_duplicate_names(fields) {
        Err(DebErrorView::MalformedControlFile)
    } else if field_value(fields, "Package"@) is None {
        Err(DebErrorView::MissingMandatoryField("Package"@))
    } else if field_value(fields, "Version"@) is None {
        Err(DebErrorView::MissingMandatoryField("Version"@))
    } else if field_value(fields, "Architecture"@) is None {
        Err(DebErrorView::MissingMandatoryField("Architecture"@))
    } else if field_value(fields, "Maintainer"@) is None {
        Err(DebErrorView::MissingMandatoryField("Maintainer"@))
    } else if field_value(fields, "Description"@) is None {
        Err(DebErrorView::MissingMandatoryField("Description"@))
    } else if size_of(field_value(fields, "Installed-Size"@)) is Err {
        Err(DebErrorView::InvalidFieldValue("Installed-Size"@))
    } else {
        Ok(
            ControlView {
                package: mandatory(fields, "Package"@),
                source: optional(fields, "Source"@),
                version: mandatory(fields, "Version"@),
                section: optional(fields, "Section"@),
                priority: optional(fields, "Priority"@),
                architecture: mandatory(fields, "Architecture"@),
                essential: optional(fields, "Essential"@),
                install_size: size_of(field_value(fields, "Installed-Size"@))->Ok_0,
                maintainer: mandatory(fields, "Maintainer"@),
                description: mandatory(fields, "Description"@),
                homepage: optional(fields, "Homepage"@),
                built_using: optional(fields, "Built-Using"@),
                depends: relation_field(fields, "Depends"@),
                pre_depends: relation_field(fields, "Pre-Depends"@),
                recommends: relation_field(fields, "Recommends"@),
                suggests: relation_field(fields, "Suggests"@),
                enhances: relation_field(fields, "Enhances"@),
                breaks: relation_field(fields, "Breaks"@),
                conflicts: relation_field(fields, "Conflicts"@),
            },
        )
    }
}

/// A paragraph without any of the seven relationship fields, that is
/// otherwise valid, gives a control record whose relationship lists are all
/// empty.
pub proof fn lemma_absent_relations_are_empty(fields: Seq<(Seq<char>, Seq<char>)>)
    requires
        !has_duplicate_names(fields),
        field_value(fields, "Package"@) is Some,
        field_value(fields, "Version"@) is Some,
        field_value(fields, "Architecture"@) is Some,
        field_value(fields, "Maintainer"@) is Some,
        field_value(fields, "Description"@) is Some,
        size_of(field_value(fields, "Installed-Size"@)) is Ok,
        field_value(fields, "Depends"@) is None,
        field_value(fields, "Pre-Depends"@) is None,
        field_value(fields, "Recommends"@) is None,
        field_value(fields, "Suggests"@) is None,
        field_value(fields, "Enhances"@) is None,
        field_value(fields, "Breaks"@) is None,
        field_value(fields, "Conflicts"@) is None,
    ensures
        control_model(fields) is Ok,
        control_model(fields)->Ok_0.depends == Seq::<PackageReference>::empty(),
        control_model(fields)->Ok_0.pre_depends == Seq::<PackageReference>::empty(),
        control_model(fields)->Ok_0.recommends == Seq::<PackageReference>::empty(),
        control_model(fields)->Ok_0.suggests == Seq::<PackageReference>::empty(),
        control_model(fields)->Ok_0.enhances == Seq::<PackageReference>::empty(),
        control_model(fields)->Ok_0.breaks == Seq::<PackageReference>::empty(),
        control_model(fields)->Ok_0.conflicts == Seq::<PackageReference>::empty(),
{
}

/// A paragraph without a `Package` field and without repeated field names is
/// rejected as missing `Package`.
pub proof fn lemma_missing_package(fields: Seq<(Seq<char>, Seq<char>)>)
    requires
        !has_duplicate_names(fields),
        field_value(fields, "Package"@) is None,
    ensures
        control_model(fields) == Err::<ControlView, DebErrorView>(
            DebErrorView::MissingMandatoryField("Package"@),
        ),
{
}

/// The value of a control result.
pub open spec fn control_result(r: Result<Control, DebError>) -> Result<ControlView, DebErrorView> {
    match r {
        Ok(c) => Ok(c@),
        Err(e) => Err(e@),
    }
}

/// `s` with line breaks replaced by spaces.
pub fn fold_string(s: &String) -> (r: String)
    ensures
        r@ == fold_lines(s@),
{
    let cs = chars_of(s.as_str());
    let mut r = String::new();
    let mut i: usize = 0;
    while i < cs.len()
        invariant
            i <= cs.len(),
            cs@ == s@,
            r@ == fold_lines(cs@.subrange(0, i as int)),
        decreases cs.len() - i,
    {
        if cs[i] == '\n' {
            r.push(' ');
        } else {
            r.push(cs[i]);
        }
        i = i + 1;
        assert(r@ =~= fold_lines(cs@.subrange(0, i as int)));
    }
    assert(cs@.subrange(0, cs.len() as int) =~= cs@);
    r
}

/// Whether some field name of `fields` occurs twice.
pub fn has_duplicate_field(fields: &Vec<ControlField>) -> (r: bool)
    ensures
        r == has_duplicate_names(field_views(fields@)),
{
    let ghost fs = field_views(fields@);
    let mut j: usize = 0;
    while j < fields.len()
        invariant
            j <= fields.len(),
            fs == field_views(fields@),
            forall|a: int, b: int| 0 <= a < b < j ==> fs[a].0 != fs[b].0,
        decreases fields.len() - j,
    {
        let mut i: usize = 0;
        while i < j
            invariant
                i <= j < fields.len(),
                fs == field_views(fields@),
                forall|a: int, b: int| 0 <= a < b < j ==> fs[a].0 != fs[b].0,
                forall|a: int| 0 <= a < i ==> fs[a].0 != fs[j as int].0,
            decreases j - i,
        {
            if fields[i].name == fields[j].name {
                assert(fs[i as int].0 == fs[j as int].0);
                return true;
            }
            i = i + 1;
        }
        j = j + 1;
    }
    false
}

proof fn lemma_decimal_grows(s: Seq<char>, i: int)
    requires
        0 <= i <= s.len(),
        forall|k: int| 0 <= k < s.len() ==> is_digit(#[trigger] s[k]),
    ensures
        decimal_value(s.subrange(0, i)) <= decimal_value(s),
    decreases s.len() - i,
{
    if i < s.len() {
        lemma_decimal_grows(s, i + 1);
        assert(s.subrange(0, i + 1).drop_last() =~= s.subrange(0, i));
    } else {
        assert(s.subrange(0, i) =~= s);
    }
}

/// The number that the trimmed text `cs[from..to]` spells, if it is a
/// decimal number that fits in a `u64`.
pub fn parse_decimal(cs: &Vec<char>, from: usize, to: usize) -> (r: Option<u64>)
    requires
        from <= to <= cs.len(),
    ensures
        ({
            let s = cs@.subrange(from as int, to as int);
            r == if is_decimal(s) && decimal_value(s) <= u64::MAX {
                Some(decimal_value(s) as u64)
            } else {
                None::<u64>
            }
        }),
{
    let ghost s = cs@.subrange(from as int, to as int);
    if from == to {
        return None;
    }
    let mut acc: u64 = 0;
    let mut i = from;
    while i < to
        invariant
            from <= i <= to <= cs.len(),
            s == cs@.subrange(from as int, to as int),
            forall|k: int| 0 <= k < i - from ==> is_digit(#[trigger] s[k]),
            acc as nat == decimal_value(s.subrange(0, i - from)),
        decreases to - i,
    {
        let c = cs[i];
        if !('0' <= c && c <= '9') {
            assert(!is_digit(s[i - from]));
            return None;
        }
        let d = (c as u32 - '0' as u32) as u64;
        assert(s.subrange(0, i - from + 1).drop_last() =~= s.subrange(0, i - from));
        match acc.checked_mul(10) {
            Some(m) => match m.checked_add(d) {
                Some(v) => {
                    acc = v;
                },
                None => {
                    proof {
                        if is_decimal(s) {
                            lemma_decimal_grows(s, i - from + 1);
                        }
                    }
                    return None;
                },
            },
            None => {
                proof {
                    if is_decimal(s) {
                        lemma_decimal_grows(s, i - from + 1);
                    }
                }
                return None;
            },
        }
        i = i + 1;
    }
    assert(s.subrange(0, s.len() as int) =~= s);
    Some(acc)
}

/// The number that an `Installed-Size` value gives; `Err` when it is not a
/// decimal number that fits in a `u64`.
pub fn str_option_to_number(option: Option<String>) -> (r: Result<Option<u64>, ()>)
    ensures
        r == size_of(opt_view(option)),
{
    match option {
        None => Ok(None),
        Some(v) => {
            let cs = chars_of(v.as_str());
            let (a, b) = trim_range(&cs, 0, cs.len());
            assert(cs@.subrange(0, cs.len() as int) =~= v@);
            match parse_decimal(&cs, a, b) {
                Some(n) => Ok(Some(n)),
                None => Err(()),
            }
        },
    }
}

/// The folded value of the mandatory field `query`, or the error that names
/// it as missing.
pub fn get_control_string(fields: &Vec<ControlField>, query: &str) -> (r: Result<String, DebError>)
    ensures
        match field_value(field_views(fields@), query@) {
            Some(v) => r is Ok && r->Ok_0@ == fold_lines(v),
            None => r is Err && r->Err_0@ == DebErrorView::MissingMandatoryField(query@),
        },
{
    match paragraph_contains(fields, query) {
        Some(f) => Ok(fold_string(&f.value)),
        None => Err(DebError::MissingMandatoryField(query.to_owned())),
    }
}

/// The folded value of the optional field `query`.
pub fn get_control_option_str(fields: &Vec<ControlField>, query: &str) -> (r: Option<String>)
    ensures
        opt_view(r) == optional(field_views(fields@), query@),
{
    match paragraph_contains(fields, query) {
        Some(f) => Some(fold_string(&f.value)),
        None => None,
    }
}

/// The unfolded value of the field `query`.
fn get_control_raw(fields: &Vec<ControlField>, query: &str) -> (r: Option<String>)
    ensures
        opt_view(r) == field_value(field_views(fields@), query@),
{
    match paragraph_contains(fields, query) {
        Some(f) => Some(f.value),
        None => None,
    }
}

/// The references of the relationship field `query`; none when it is absent.
pub fn get_package_name(fields: &Vec<ControlField>, query: &str) -> (r: Vec<PackageWithVersion>)
    ensures
        references(r@) == relation_field(field_views(fields@), query@),
{
    match paragraph_contains(fields, query) {
        Some(f) => parse_relations(fold_string(&f.value).as_str()),
        None => {
            let r: Vec<PackageWithVersion> = Vec::new();
            assert(references(r@) =~= Seq::empty());
            r
        },
    }
}

/// Builds the control record from a paragraph's fields.
pub fn control_from_fields(fields: &Vec<ControlField>) -> (r: Result<Control, DebError>)
    ensures
        control_result(r) == control_model(field_views(fields@)),
{
    if has_duplicate_field(fields) {
        return Err(DebError::MalformedControlFile);
    }
    let package = match get_control_string(fields, "Package") {
        Ok(s) => s,
        Err(e) => return Err(e),
    };
    let version = match get_control_string(fields, "Version") {
        Ok(s) => s,
        Err(e) => return Err(e),
    };
    let architecture = match get_control_string(fields, "Architecture") {
        Ok(s) => s,
        Err(e) => return Err(e),
    };
    let maintainer = match get_control_string(fields, "Maintainer") {
        Ok(s) => s,
        Err(e) => return Err(e),
    };
    let description = match get_control_string(fields, "Description") {
        Ok(s) => s,
        Err(e) => return Err(e),
    };
    let install_size = match str_option_to_number(get_control_raw(fields, "Installed-Size")) {
        Ok(n) => n,
        Err(()) => return Err(DebError::InvalidFieldValue("Installed-Size".to_owned())),
    };
    Ok(
        Control {
            package,
            source: get_control_option_str(fields, "Source"),
            version,
            section: get_control_option_str(fields, "Section"),
            priority: get_control_option_str(fields, "Priority"),
            architecture,
            essential: get_control_option_str(fields, "Essential"),
            install_size,
            maintainer,
            description,
            homepage: get_control_option_str(fields, "Homepage"),
            built_using: get_control_option_str(fields, "Built-Using"),
            depends: get_package_name(fields, "Depends"),
            pre_depends: get_package_name(fields, "Pre-Depends"),
            recommends: get_package_name(fields, "Recommends"),
            suggests: get_package_name(fields, "Suggests"),
            enhances: get_package_name(fields, "Enhances"),
            breaks: get_package_name(fields, "Breaks"),
            conflicts: get_package_name(fields, "Conflicts"),
        },
    )
}

/// The paragraphs that the control text `text` holds, each a sequence of
/// `(name, value)` fields; `None` when the text is not well-formed.
pub uninterp spec fn control_paragraphs(text: Seq<char>) -> Option<Seq<Seq<(Seq<char>, Seq<char>)>>>;

/// The `(name, value)` pairs of each paragraph.
pub open spec fn paragraph_views(ps: Seq<Vec<ControlField>>) -> Seq<Seq<(Seq<char>, Seq<char>)>> {
    ps.map_values(|p: Vec<ControlField>| field_views(p@))
}

/// The control record of the first paragraph, if the text parsed and holds one.
pub open spec fn control_of_paragraphs(ps: Option<Seq<Seq<(Seq<char>, Seq<char>)>>>) -> Result<
    ControlView,
    DebErrorView,
> {
    match ps {
        None => Err(DebErrorView::MalformedControlFile),
        Some(ps) => if ps.len() == 0 {
            Err(DebErrorView::MalformedControlFile)
        } else {
            control_model(ps[0])
        },
    }
}

#[verifier::external_type_specification]
#[verifier::external_body]
pub struct ExSyntaxError<'a>(debcontrol::SyntaxError<'a>);

/// Relies on `debcontrol::parse_str`, which splits control text into
/// paragraphs of fields (comments dropped, continuation lines joined by
/// `'\n'`) and depends on the text alone.
#[verifier::external_body]
fn parse_paragraphs<'a>(text: &'a str) -> (r: Result<
    Vec<Vec<ControlField>>,
    debcontrol::SyntaxError<'a>,
>)
    ensures
        match r {
            Ok(ps) => control_paragraphs(text@) == Some(paragraph_views(ps@)),
            Err(_) => control_paragraphs(text@) is None,
        },
{
    debcontrol::parse_str(text).map(
        |ps| {
            ps.into_iter().map(
                |p| {
                    p.fields.into_iter().map(
                        |f| ControlField { name: f.name.to_string(), value: f.value },
                    ).collect()
                },
            ).collect()
        },
    )
}

/// Builds the control record from the first of a control file's paragraphs.
pub fn control_from_paragraphs(paragraphs: &Vec<Vec<ControlField>>) -> (r: Result<
    Control,
    DebError,
>)
    ensures
        control_result(r) == control_of_paragraphs(Some(paragraph_views(paragraphs@))),
{
    if paragraphs.len() == 0 {
        Err(DebError::MalformedControlFile)
    } else {
        control_from_fields(&paragraphs[0])
    }
}

/// Parses control text into the control record of its first paragraph.
pub fn parse_control(text: &str) -> (r: Result<Control, DebError>)
    ensures
        control_result(r) == control_of_paragraphs(control_paragraphs(text@)),
{
    match parse_paragraphs(text) {
        Ok(ps) => control_from_paragraphs(&ps),
        Err(_) => Err(DebError::MalformedControlFile),
    }
}

} // verus!

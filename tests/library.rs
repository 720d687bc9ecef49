use deb_rs::file::control::{
    control_from_fields, control_from_paragraphs, get_package_name, parse_control,
};
use deb_rs::file::deb::format_version;
use deb_rs::file::{
    build_install_tree, DataEntry, Deb, DebError, PathItem, Query, StagingError, StagingPaths,
    Version,
};
use deb_rs::shared::package_with_version::parse_relations;
use deb_rs::shared::{paragraph_contains, ControlField, PackageWithVersion, VersionBinding};

const MINIMAL: &str = "Package: hello
Version: 2.10-2
Architecture: amd64
Maintainer: Santiago Vila <sanvila@debian.org>
Description: example package based on GNU hello
";

fn pkg(name: &str, binding: VersionBinding, version: &str) -> PackageWithVersion {
    PackageWithVersion { name: name.to_string(), version: version.to_string(), binding }
}

fn field(name: &str, value: &str) -> ControlField {
    ControlField { name: name.to_string(), value: value.to_string() }
}

fn staged_deb() -> Deb {
    let mut deb = Deb::new("./hello.deb");
    deb.extract(Ok("/tmp/libdeb/stage/".to_string())).unwrap();
    deb
}

fn file(path: &str) -> DataEntry {
    DataEntry { path: path.to_string(), is_file: true }
}

fn dir(path: &str) -> DataEntry {
    DataEntry { path: path.to_string(), is_file: false }
}

#[test]
fn versioned_atom() {
    assert_eq!(
        PackageWithVersion::from_str("name (>= 1.2.3)"),
        pkg("name", VersionBinding::GreaterThanOrEqual, "1.2.3")
    );
}

#[test]
fn bare_atom() {
    assert_eq!(PackageWithVersion::from_str("name"), pkg("name", VersionBinding::Any, ""));
}

#[test]
fn bare_atom_name_is_trimmed() {
    assert_eq!(
        PackageWithVersion::from_str(" \tlibfoo-dev  "),
        pkg("libfoo-dev", VersionBinding::Any, "")
    );
    assert_eq!(
        PackageWithVersion::from_str("python3:any"),
        pkg("python3:any", VersionBinding::Any, "")
    );
}

#[test]
fn names_are_trimmed_of_all_unicode_whitespace() {
    assert_eq!(PackageWithVersion::from_str("\x0Cfoo"), pkg("foo", VersionBinding::Any, ""));
    assert_eq!(
        PackageWithVersion::from_str("\u{a0}foo\u{3000}\x0B"),
        pkg("foo", VersionBinding::Any, "")
    );
    assert_eq!(
        PackageWithVersion::from_str("\u{2003}foo\u{85} (>=\u{202f}1.0\u{2028})"),
        pkg("foo", VersionBinding::GreaterThanOrEqual, "1.0")
    );
    for atom in ["\x0Cfoo", " bar\u{1680}", "\u{2009}baz\u{205f}", "qux\u{2029}"] {
        let r = PackageWithVersion::from_str(atom);
        assert_eq!(r.name, atom.trim());
        assert_eq!(r.name, r.name.trim());
    }
}

#[test]
fn whitespace_only_pieces_are_skipped() {
    assert_eq!(parse_relations("\x0C"), vec![]);
    assert_eq!(parse_relations("a,\u{a0},\u{3000}b\x0B"), vec![
        pkg("a", VersionBinding::Any, ""),
        pkg("b", VersionBinding::Any, ""),
    ]);
    let fields = vec![field("Depends", "\x0C")];
    assert_eq!(get_package_name(&fields, "Depends"), vec![]);
}

#[test]
fn every_operator() {
    let cases = [
        ("a (<< 1)", VersionBinding::Unknown),
        ("a (>> 1)", VersionBinding::Unknown),
        ("a (<= 1)", VersionBinding::LessThanOrEqual),
        ("a (>= 1)", VersionBinding::GreaterThanOrEqual),
        ("a (= 1)", VersionBinding::Equal),
        ("a (< 1)", VersionBinding::Unknown),
        ("a (> 1)", VersionBinding::Unknown),
        ("a (=> 1)", VersionBinding::Unknown),
        ("a (1)", VersionBinding::Unknown),
    ];
    for (atom, binding) in cases {
        assert_eq!(PackageWithVersion::from_str(atom), pkg("a", binding, "1"), "{}", atom);
    }
}

#[test]
fn atom_without_space_or_closing_parenthesis() {
    assert_eq!(
        PackageWithVersion::from_str("libc6(>=2.28"),
        pkg("libc6", VersionBinding::GreaterThanOrEqual, "2.28")
    );
    assert_eq!(
        PackageWithVersion::from_str("libc6 (= 2.28) [amd64]"),
        pkg("libc6", VersionBinding::Equal, "2.28")
    );
    assert_eq!(
        PackageWithVersion::from_str("libgcc1 (>= 1:4.2)"),
        pkg("libgcc1", VersionBinding::GreaterThanOrEqual, "1:4.2")
    );
}

#[test]
fn binding_from_operator_token() {
    assert_eq!(VersionBinding::from_str(">="), VersionBinding::GreaterThanOrEqual);
    assert_eq!(VersionBinding::from_str("<= 2.0"), VersionBinding::LessThanOrEqual);
    assert_eq!(VersionBinding::from_str("="), VersionBinding::Equal);
    assert_eq!(VersionBinding::from_str("<<"), VersionBinding::Unknown);
    assert_eq!(VersionBinding::from_str(">>"), VersionBinding::Unknown);
    assert_eq!(VersionBinding::from_str("<"), VersionBinding::Unknown);
    assert_eq!(VersionBinding::from_str(">"), VersionBinding::Unknown);
    assert_eq!(VersionBinding::from_str(""), VersionBinding::Unknown);
    assert_eq!(VersionBinding::from_str(" >="), VersionBinding::Unknown);
}

#[test]
fn relations_keep_order_and_duplicates() {
    assert_eq!(
        parse_relations("foo (>= 1.0), bar, foo (>= 1.0)"),
        vec![
            pkg("foo", VersionBinding::GreaterThanOrEqual, "1.0"),
            pkg("bar", VersionBinding::Any, ""),
            pkg("foo", VersionBinding::GreaterThanOrEqual, "1.0"),
        ]
    );
}

#[test]
fn relations_skip_blank_atoms() {
    assert_eq!(
        parse_relations("a,, b ,"),
        vec![pkg("a", VersionBinding::Any, ""), pkg("b", VersionBinding::Any, "")]
    );
    assert_eq!(parse_relations(""), vec![]);
    assert_eq!(parse_relations(" , "), vec![]);
}

#[test]
fn relations_keep_alternatives_as_one_atom() {
    assert_eq!(
        parse_relations("default-mta | mail-transport-agent"),
        vec![pkg("default-mta | mail-transport-agent", VersionBinding::Any, "")]
    );
}

#[test]
fn field_lookup_takes_first_match() {
    let fields = vec![field("Package", "a"), field("Version", "1"), field("Package", "b")];
    assert_eq!(paragraph_contains(&fields, "Package"), Some(field("Package", "a")));
    assert_eq!(paragraph_contains(&fields, "Version"), Some(field("Version", "1")));
    assert_eq!(paragraph_contains(&fields, "version"), None);
    assert_eq!(paragraph_contains(&vec![], "Package"), None);
}

#[test]
fn format_versions() {
    assert_eq!(format_version("2.0\n"), Version::V2_0);
    assert_eq!(format_version("1.0\n"), Version::V1_0);
    assert_eq!(format_version("2.0"), Version::VUnknown);
    assert_eq!(format_version("2.0\n\n"), Version::VUnknown);
    assert_eq!(format_version("3.0\n"), Version::VUnknown);
    assert_eq!(format_version(""), Version::VUnknown);
}

#[test]
fn staged_version_query() {
    assert_eq!(staged_deb().version("1.0\n"), Ok(Version::V1_0));
    assert_eq!(staged_deb().version("garbage"), Ok(Version::VUnknown));
}

#[test]
fn unstaged_queries_fail() {
    let deb = Deb::new("./hello.deb");
    assert_eq!(deb.version("2.0\n"), Err(DebError::NotStaged(Query::Version)));
    assert_eq!(
        deb.retrieve_control(MINIMAL),
        Err(DebError::NotStaged(Query::RetrieveControl))
    );
    assert_eq!(
        deb.install_tree(&vec![file("/x/data/a")]),
        Err(DebError::NotStaged(Query::InstallTree))
    );
    assert_eq!(deb.staged_path(Query::Version), Err(DebError::NotStaged(Query::Version)));
    assert_eq!(deb.extract_check(Query::InstallTree), Err(DebError::NotStaged(Query::InstallTree)));
}

#[test]
fn staged_paths_of_members() {
    let deb = staged_deb();
    assert_eq!(deb.extract_check(Query::Version), Ok(()));
    assert_eq!(deb.staged_path(Query::Version), Ok("/tmp/libdeb/stage/debian-binary".to_string()));
    assert_eq!(
        deb.staged_path(Query::RetrieveControl),
        Ok("/tmp/libdeb/stage/control/control".to_string())
    );
    assert_eq!(deb.staged_path(Query::InstallTree), Ok("/tmp/libdeb/stage/data/".to_string()));
}

#[test]
fn failed_staging_names_the_archive() {
    let mut deb = Deb::new("./missing.deb");
    assert_eq!(
        deb.extract(Err(StagingError::ArchiveNotFound)),
        Err(DebError::ExtractionFailure {
            archive: "./missing.deb".to_string(),
            cause: StagingError::ArchiveNotFound,
        })
    );
    assert_eq!(deb.extracted_path, None);
    assert_eq!(
        deb.extract(Err(StagingError::UnsupportedPlatform)),
        Err(DebError::UnsupportedPlatform { archive: "./missing.deb".to_string() })
    );
    assert_eq!(
        deb.extract(Err(StagingError::StagingDirectory)),
        Err(DebError::ExtractionFailure {
            archive: "./missing.deb".to_string(),
            cause: StagingError::StagingDirectory,
        })
    );
    assert_eq!(
        deb.extract(Err(StagingError::CorruptMember)),
        Err(DebError::ExtractionFailure {
            archive: "./missing.deb".to_string(),
            cause: StagingError::CorruptMember,
        })
    );
}

#[test]
fn restaging_replaces_directory() {
    let mut deb = staged_deb();
    deb.extract(Ok("/tmp/libdeb/other/".to_string())).unwrap();
    assert_eq!(deb.extracted_path, Some("/tmp/libdeb/other/".to_string()));
    deb.extract(Err(StagingError::InvalidArchive)).unwrap_err();
    assert_eq!(deb.extracted_path, Some("/tmp/libdeb/other/".to_string()));
}

#[test]
fn end_to_end_depends() {
    let text = format!("{}Depends: foo (>= 1.0), bar\n", MINIMAL);
    let control = staged_deb().retrieve_control(&text).unwrap();
    assert_eq!(control.depends.len(), 2);
    assert_eq!(control.depends[0], pkg("foo", VersionBinding::GreaterThanOrEqual, "1.0"));
    assert_eq!(control.depends[1], pkg("bar", VersionBinding::Any, ""));
    assert!(control.pre_depends.is_empty());
    assert!(control.recommends.is_empty());
    assert!(control.suggests.is_empty());
    assert!(control.enhances.is_empty());
    assert!(control.breaks.is_empty());
    assert!(control.conflicts.is_empty());
}

#[test]
fn absent_relations_are_empty() {
    let control = parse_control(MINIMAL).unwrap();
    assert_eq!(control.package, "hello");
    assert_eq!(control.version, "2.10-2");
    assert_eq!(control.architecture, "amd64");
    assert_eq!(control.maintainer, "Santiago Vila <sanvila@debian.org>");
    assert_eq!(control.description, "example package based on GNU hello");
    assert_eq!(control.install_size, None);
    assert_eq!(control.source, None);
    assert!(control.depends.is_empty());
    assert!(control.pre_depends.is_empty());
    assert!(control.recommends.is_empty());
    assert!(control.suggests.is_empty());
    assert!(control.enhances.is_empty());
    assert!(control.breaks.is_empty());
    assert!(control.conflicts.is_empty());
}

#[test]
fn every_relationship_field_is_read() {
    let text = format!(
        "{}Pre-Depends: a\nRecommends: b\nSuggests: c\nEnhances: d\nBreaks: e (<< 2)\nConflicts: f\n",
        MINIMAL
    );
    let control = parse_control(&text).unwrap();
    assert!(control.depends.is_empty());
    assert_eq!(control.pre_depends, vec![pkg("a", VersionBinding::Any, "")]);
    assert_eq!(control.recommends, vec![pkg("b", VersionBinding::Any, "")]);
    assert_eq!(control.suggests, vec![pkg("c", VersionBinding::Any, "")]);
    assert_eq!(control.enhances, vec![pkg("d", VersionBinding::Any, "")]);
    assert_eq!(control.breaks, vec![pkg("e", VersionBinding::Unknown, "2")]);
    assert_eq!(control.conflicts, vec![pkg("f", VersionBinding::Any, "")]);
}

#[test]
fn optional_fields_and_folding() {
    let text = "Package: p
Source: psrc
Version: 1
Section: utils
Priority: optional
Architecture: all
Essential: yes
Installed-Size: 42
Maintainer: M <m@example.org>
Built-Using: gcc (= 8)
Homepage: https://example.org/
Description: short
 long line one
 .
 long line two
Depends: a,
 b (>= 2)
";
    let control = parse_control(text).unwrap();
    assert_eq!(control.source, Some("psrc".to_string()));
    assert_eq!(control.section, Some("utils".to_string()));
    assert_eq!(control.priority, Some("optional".to_string()));
    assert_eq!(control.essential, Some("yes".to_string()));
    assert_eq!(control.install_size, Some(42));
    assert_eq!(control.built_using, Some("gcc (= 8)".to_string()));
    assert_eq!(control.homepage, Some("https://example.org/".to_string()));
    assert_eq!(control.description, "short long line one . long line two");
    assert_eq!(
        control.depends,
        vec![pkg("a", VersionBinding::Any, ""), pkg("b", VersionBinding::GreaterThanOrEqual, "2")]
    );
}

#[test]
fn missing_package() {
    let text = "Version: 1\nArchitecture: all\nMaintainer: M\nDescription: d\n";
    assert_eq!(
        parse_control(text),
        Err(DebError::MissingMandatoryField("Package".to_string()))
    );
}

#[test]
fn missing_other_mandatory_fields() {
    let all = [
        ("Package", "p"),
        ("Version", "1"),
        ("Architecture", "all"),
        ("Maintainer", "M"),
        ("Description", "d"),
    ];
    for skip in 0..all.len() {
        let fields: Vec<ControlField> = all
            .iter()
            .enumerate()
            .filter(|(i, _)| *i != skip)
            .map(|(_, (n, v))| field(n, v))
            .collect();
        assert_eq!(
            control_from_fields(&fields),
            Err(DebError::MissingMandatoryField(all[skip].0.to_string()))
        );
    }
}

#[test]
fn installed_size_must_be_a_number() {
    let bad = format!("{}Installed-Size: 12kB\n", MINIMAL);
    assert_eq!(
        parse_control(&bad),
        Err(DebError::InvalidFieldValue("Installed-Size".to_string()))
    );
    let too_big = format!("{}Installed-Size: 18446744073709551616\n", MINIMAL);
    assert_eq!(
        parse_control(&too_big),
        Err(DebError::InvalidFieldValue("Installed-Size".to_string()))
    );
    let largest = format!("{}Installed-Size: 18446744073709551615\n", MINIMAL);
    assert_eq!(parse_control(&largest).unwrap().install_size, Some(u64::MAX));
    let negative = format!("{}Installed-Size: -1\n", MINIMAL);
    assert_eq!(
        parse_control(&negative),
        Err(DebError::InvalidFieldValue("Installed-Size".to_string()))
    );
}

#[test]
fn repeated_field_is_malformed() {
    let text = format!("{}Package: again\n", MINIMAL);
    assert_eq!(parse_control(&text), Err(DebError::MalformedControlFile));
}

#[test]
fn unparseable_or_empty_text_is_malformed() {
    assert_eq!(parse_control(""), Err(DebError::MalformedControlFile));
    assert_eq!(parse_control(" value before any field\n"), Err(DebError::MalformedControlFile));
    assert_eq!(control_from_paragraphs(&vec![]), Err(DebError::MalformedControlFile));
}

#[test]
fn only_first_paragraph_is_read() {
    let text = format!("{}\nPackage: second\n", MINIMAL);
    assert_eq!(parse_control(&text).unwrap().package, "hello");
    let paragraphs = vec![
        vec![
            field("Package", "first"),
            field("Version", "1"),
            field("Architecture", "all"),
            field("Maintainer", "M"),
            field("Description", "d"),
        ],
        vec![field("Package", "second")],
    ];
    assert_eq!(control_from_paragraphs(&paragraphs).unwrap().package, "first");
}

#[test]
fn comments_are_skipped() {
    let text = "# leading comment\nPackage: c\nVersion: 1\n# inside\nArchitecture: all\nMaintainer: M\nDescription: d\n";
    let control = parse_control(text).unwrap();
    assert_eq!(control.package, "c");
    assert_eq!(control.architecture, "all");
}

#[test]
fn empty_data_root_installs_nothing() {
    assert_eq!(build_install_tree("/s/data/", &vec![]), vec![]);
    let dirs = vec![dir("/s/data/usr"), dir("/s/data/usr/share"), dir("/s/data/etc")];
    assert_eq!(build_install_tree("/s/data/", &dirs), vec![]);
    assert_eq!(staged_deb().install_tree(&vec![]), Ok(vec![]));
}

#[test]
fn install_tree_maps_and_sorts_files() {
    let entries = vec![
        dir("/s/data/usr"),
        file("/s/data/usr/share/doc/b"),
        file("/s/data/etc/a.conf"),
        dir("/s/data/usr/share"),
        file("/s/data/usr/bin/tool"),
        file("/elsewhere/x"),
    ];
    let expected = vec![
        PathItem { real: "/s/data/etc/a.conf".to_string(), move_to: "/etc/a.conf".to_string() },
        PathItem { real: "/s/data/usr/bin/tool".to_string(), move_to: "/usr/bin/tool".to_string() },
        PathItem {
            real: "/s/data/usr/share/doc/b".to_string(),
            move_to: "/usr/share/doc/b".to_string(),
        },
    ];
    assert_eq!(build_install_tree("/s/data/", &entries), expected);
}

#[test]
fn install_tree_sorts_by_code_point() {
    let entries = vec![file("/s/data/a/b"), file("/s/data/a-b"), file("/s/data/B"), file("/s/data/a")];
    let targets: Vec<String> =
        build_install_tree("/s/data/", &entries).into_iter().map(|p| p.move_to).collect();
    assert_eq!(targets, vec!["/B", "/a", "/a-b", "/a/b"]);
}

#[test]
fn staged_install_tree_uses_data_root() {
    let entries = vec![file("/tmp/libdeb/stage/data/usr/bin/hello"), file("/tmp/libdeb/stage/control/control")];
    assert_eq!(
        staged_deb().install_tree(&entries),
        Ok(vec![PathItem {
            real: "/tmp/libdeb/stage/data/usr/bin/hello".to_string(),
            move_to: "/usr/bin/hello".to_string(),
        }])
    );
}

#[test]
fn staging_layout() {
    let p = StagingPaths::under("/tmp/libdeb/", "abc");
    assert_eq!(p.output, "/tmp/libdeb/abc/");
    assert_eq!(p.data_archive, "/tmp/libdeb/abc/data.tar.xz");
    assert_eq!(p.data_extract, "/tmp/libdeb/abc/data/");
    assert_eq!(p.control_archive, "/tmp/libdeb/abc/control.tar.xz");
    assert_eq!(p.control_extract, "/tmp/libdeb/abc/control/");
}

#[test]
fn fresh_staging_directories_differ() {
    let a = StagingPaths::fresh("/tmp/libdeb/");
    let b = StagingPaths::fresh("/tmp/libdeb/");
    assert_ne!(a.output, b.output);
    let id = &a.output["/tmp/libdeb/".len()..a.output.len() - 1];
    assert_eq!(id.len(), 36);
    assert!(id.chars().all(|c| c == '-' || c.is_ascii_digit() || ('a'..='f').contains(&c)));
    assert_eq!(a.data_extract, format!("{}data/", a.output));
}

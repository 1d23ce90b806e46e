use stack_analyzer::debug_str::debug_str_get;
use stack_analyzer::dwarf_model::{
    namespace_subprograms, AttrForm, AttrRead, ChildList, ChildRecord, DieRecord, ScanError,
    DW_AT_EXTERNAL, DW_AT_NAME, DW_TAG_NAMESPACE, DW_TAG_SUBPROGRAM,
};
use stack_analyzer::elf_parser::entry_points_from_units;
use stack_analyzer::entry_filter::remove_known_main_entry_points;
use stack_analyzer::namespace::crate_namespace;

/// `.debug_str` with "app\0main\0run\0\xff\0helper\0" at offsets 0, 4, 9, 13, 15.
fn strings() -> Vec<u8> {
    let mut s = Vec::new();
    for part in [&b"app"[..], b"main", b"run", b"\xff", b"helper"] {
        s.extend_from_slice(part);
        s.push(0);
    }
    s
}

fn die(tag: u16, name: AttrRead) -> DieRecord {
    DieRecord { tag, name, children: ChildList::NotRead }
}

fn namespace(name: AttrRead, children: Vec<ChildRecord>) -> DieRecord {
    DieRecord { tag: DW_TAG_NAMESPACE, name, children: ChildList::Entries(children) }
}

fn child(tag: u16, name: AttrRead, external: AttrRead) -> ChildRecord {
    ChildRecord { tag, name, external }
}

fn named(off: usize) -> AttrRead {
    AttrRead::Present(AttrForm::StrRef(off))
}

fn exported() -> AttrRead {
    AttrRead::Present(AttrForm::Flag(true))
}

fn unit() -> Vec<DieRecord> {
    vec![
        die(0x11, AttrRead::Absent),
        namespace(
            named(0),
            vec![
                child(DW_TAG_SUBPROGRAM, named(4), exported()),
                child(0x34, named(15), exported()),
                child(DW_TAG_SUBPROGRAM, named(9), exported()),
                child(DW_TAG_SUBPROGRAM, named(15), AttrRead::Present(AttrForm::Flag(false))),
                child(DW_TAG_SUBPROGRAM, named(15), AttrRead::Absent),
            ],
        ),
        die(DW_TAG_SUBPROGRAM, named(15)),
    ]
}

#[test]
fn dwarf_constants_agree_with_gimli() {
    assert_eq!(DW_TAG_NAMESPACE, gimli::DW_TAG_namespace.0);
    assert_eq!(DW_TAG_SUBPROGRAM, gimli::DW_TAG_subprogram.0);
    assert_eq!(DW_AT_NAME, gimli::DW_AT_name.0);
    assert_eq!(DW_AT_EXTERNAL, gimli::DW_AT_external.0);
}

#[test]
fn crate_namespace_is_file_name_before_first_dot() {
    assert_eq!(crate_namespace("tests/assets/program1"), "program1");
    assert_eq!(crate_namespace("/a/b/ex4.elf"), "ex4");
    assert_eq!(crate_namespace("a.b/c.d.e"), "c");
    assert_eq!(crate_namespace("plain"), "plain");
    assert_eq!(crate_namespace("dir/"), "");
    assert_eq!(crate_namespace(""), "");
    assert_eq!(crate_namespace(".hidden"), "");
}

#[test]
fn strings_are_read_up_to_their_terminator() {
    let s = strings();
    assert_eq!(debug_str_get(&s, true, 0).unwrap(), b"app");
    assert_eq!(debug_str_get(&s, false, 4).unwrap(), b"main");
    assert_eq!(debug_str_get(&s, true, 5).unwrap(), b"ain");
    assert_eq!(debug_str_get(&s, true, 3).unwrap(), b"");
    assert!(debug_str_get(&s, true, s.len()).is_err());
    assert!(debug_str_get(&s, true, s.len() + 7).is_err());
    assert!(debug_str_get(b"abc", true, 0).is_err());
}

#[test]
fn direct_exported_children_of_the_namespace_are_selected() {
    let names = namespace_subprograms(&[unit()], &strings(), true, "app").unwrap();
    assert_eq!(names, vec!["main", "run"]);
}

#[test]
fn other_namespaces_give_nothing() {
    let names = namespace_subprograms(&[unit()], &strings(), true, "other").unwrap();
    assert!(names.is_empty());
}

#[test]
fn units_are_concatenated_in_order() {
    let names = namespace_subprograms(&[unit(), unit()], &strings(), true, "app").unwrap();
    assert_eq!(names, vec!["main", "run", "main", "run"]);
}

#[test]
fn unreadable_namespace_name_is_an_error() {
    let dies = vec![namespace(AttrRead::Unreadable, vec![])];
    assert_eq!(namespace_subprograms(&[dies], &strings(), true, "app"), Err(ScanError::NameUnreadable));
}

#[test]
fn bad_string_offset_is_an_error() {
    let dies = vec![namespace(named(500), vec![])];
    assert_eq!(namespace_subprograms(&[dies], &strings(), true, "app"), Err(ScanError::StringLookupFailed));
}

#[test]
fn namespace_name_must_be_utf8() {
    let dies = vec![namespace(named(13), vec![])];
    assert_eq!(namespace_subprograms(&[dies], &strings(), true, "app"), Err(ScanError::NamespaceNotUtf8));
}

#[test]
fn function_names_are_decoded_lossily() {
    let dies = vec![namespace(named(0), vec![child(DW_TAG_SUBPROGRAM, named(13), exported())])];
    let names = namespace_subprograms(&[dies], &strings(), true, "app").unwrap();
    assert_eq!(names, vec!["\u{FFFD}"]);
}

#[test]
fn unreadable_function_name_is_an_error_only_when_needed() {
    let dies = vec![namespace(
        named(0),
        vec![
            child(DW_TAG_SUBPROGRAM, AttrRead::Unreadable, AttrRead::Absent),
            child(DW_TAG_SUBPROGRAM, AttrRead::Unreadable, exported()),
        ],
    )];
    assert_eq!(namespace_subprograms(&[dies.clone()], &strings(), true, "app"), Err(ScanError::NameUnreadable));
    // outside the namespace the same entries are not read
    assert_eq!(namespace_subprograms(&[dies], &strings(), true, "lib"), Ok(vec![]));
}

#[test]
fn names_in_other_forms_are_skipped() {
    let dies = vec![
        namespace(AttrRead::Present(AttrForm::Other), vec![child(DW_TAG_SUBPROGRAM, named(4), exported())]),
        namespace(
            named(0),
            vec![
                child(DW_TAG_SUBPROGRAM, AttrRead::Present(AttrForm::Other), exported()),
                child(DW_TAG_SUBPROGRAM, AttrRead::Absent, exported()),
                child(DW_TAG_SUBPROGRAM, named(9), exported()),
            ],
        ),
    ];
    assert_eq!(namespace_subprograms(&[dies], &strings(), true, "app").unwrap(), vec!["run"]);
}

#[test]
fn unreadable_children_are_an_error_only_when_needed() {
    let dies = vec![
        namespace(named(0), vec![child(DW_TAG_SUBPROGRAM, named(9), exported())]),
        DieRecord { tag: DW_TAG_NAMESPACE, name: named(0), children: ChildList::Unreadable },
    ];
    assert_eq!(namespace_subprograms(&[dies.clone()], &strings(), true, "app"), Err(ScanError::ChildrenUnreadable));
    assert_eq!(namespace_subprograms(&[dies], &strings(), true, "lib"), Ok(vec![]));
    assert_eq!(ScanError::ChildrenUnreadable.message(), "Unreadable children of a namespace");
}

#[test]
fn a_namespace_without_listed_children_gives_nothing() {
    let dies = vec![die(DW_TAG_NAMESPACE, named(0))];
    assert_eq!(namespace_subprograms(&[dies], &strings(), true, "app"), Ok(vec![]));
}

#[test]
fn known_main_entry_points_are_removed() {
    let names: Vec<String> = ["main", "a", "__cortex_m_rt_main", "b", "__cortex_m_rt_main_trampoline", "main_loop", "xmain"]
        .iter()
        .map(|s| s.to_string())
        .collect();
    assert_eq!(remove_known_main_entry_points(names), vec!["a", "b", "main_loop", "xmain"]);
    assert!(remove_known_main_entry_points(vec![]).is_empty());
}

#[test]
fn entry_points_from_units_drop_main() {
    let entries = entry_points_from_units("build/app.elf", &[unit()], &strings(), true).unwrap();
    assert_eq!(entries, vec!["run"]);
}

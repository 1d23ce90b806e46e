use gimli::write::{AttributeValue, Dwarf, EndianVec, LineProgram, Sections, Unit, UnitEntryId};
use gimli::{Encoding, Format, LittleEndian};
use object::write::Object;
use object::{Architecture, BinaryFormat, Endianness, SectionKind};
use stack_analyzer::dwarf_model::{AttrForm, AttrRead, ChildList};
use stack_analyzer::dwarf_reader::{load_debug_sections, read_debug_units, ReadError};
use stack_analyzer::{get_entry_points, get_subprograms_in_namespace, ParseElf, ParsedElf};

/// A namespace of a compilation unit: its name, its functions (name and
/// whether they are exported) and the namespaces nested in it.
struct Namespace {
    name: &'static str,
    functions: Vec<(&'static str, bool)>,
    nested: Vec<Namespace>,
}

fn ns(name: &'static str, functions: Vec<(&'static str, bool)>, nested: Vec<Namespace>) -> Namespace {
    Namespace { name, functions, nested }
}

fn add_namespace(dwarf: &mut Dwarf, unit: &mut Unit, parent: UnitEntryId, space: &Namespace) {
    let id = unit.add(parent, gimli::DW_TAG_namespace);
    let name = dwarf.strings.add(space.name);
    unit.get_mut(id).set(gimli::DW_AT_name, AttributeValue::StringRef(name));
    for (function, exported) in &space.functions {
        let f = unit.add(id, gimli::DW_TAG_subprogram);
        let fname = dwarf.strings.add(*function);
        unit.get_mut(f).set(gimli::DW_AT_name, AttributeValue::StringRef(fname));
        if *exported {
            unit.get_mut(f).set(gimli::DW_AT_external, AttributeValue::Flag(true));
        }
        // a local variable inside the function, one level deeper
        let v = unit.add(f, gimli::DW_TAG_variable);
        let vname = dwarf.strings.add("local");
        unit.get_mut(v).set(gimli::DW_AT_name, AttributeValue::StringRef(vname));
    }
    for inner in &space.nested {
        add_namespace(dwarf, unit, id, inner);
    }
}

/// An ELF image whose debugging information holds one unit per element of
/// `units`, each with the given top-level namespaces.
fn build_elf(units: Vec<Vec<Namespace>>) -> Vec<u8> {
    let encoding = Encoding { format: Format::Dwarf32, version: 4, address_size: 4 };
    let mut dwarf = Dwarf::new();
    for spaces in &units {
        let mut unit = Unit::new(encoding, LineProgram::none());
        let root = unit.root();
        for space in spaces {
            add_namespace(&mut dwarf, &mut unit, root, space);
        }
        dwarf.units.add(unit);
    }
    let mut sections = Sections::new(EndianVec::new(LittleEndian));
    dwarf.write(&mut sections).unwrap();
    let mut obj = Object::new(BinaryFormat::Elf, Architecture::Arm, Endianness::Little);
    for (name, data) in [
        (".debug_info", sections.debug_info.slice().to_vec()),
        (".debug_abbrev", sections.debug_abbrev.slice().to_vec()),
        (".debug_str", sections.debug_str.slice().to_vec()),
    ] {
        let id = obj.add_section(Vec::new(), name.as_bytes().to_vec(), SectionKind::Debug);
        obj.append_section_data(id, &data, 1);
    }
    obj.write().unwrap()
}

/// The `program1` image: four exported functions, the runtime's `main`
/// functions, and the namespaces of other crates.
fn program1_elf() -> Vec<u8> {
    build_elf(vec![
        vec![
            ns("core", vec![("panic", true), ("fmt", true)], vec![]),
        ],
        vec![ns(
            "program1",
            vec![
                ("function1", true),
                ("function2", true),
                ("function3", true),
                ("function4", true),
                ("__cortex_m_rt_main", true),
                ("__cortex_m_rt_main_trampoline", true),
            ],
            vec![],
        )],
    ])
}

/// The `ex4` image: five exported functions, three private helpers and the
/// runtime's `main` functions.
fn ex4_elf() -> Vec<u8> {
    build_elf(vec![vec![
        ns("cortex_m_rt", vec![("main", true), ("DefaultHandler_", true)], vec![]),
        ns(
            "ex4",
            vec![
                ("sum_recursive", false),
                ("sum_iterative", false),
                ("sum_formula", false),
                ("equal_formula_rec", true),
                ("equal_iter_rec", true),
                ("complexity_sum_recursive", true),
                ("complexity_sum_iterative", true),
                ("complexity_sum_formula", true),
                ("__cortex_m_rt_main_trampoline", true),
                ("main", true),
            ],
            vec![],
        ),
    ]])
}

struct ElfTestData {
    path: String,
    data: Vec<u8>,
    entries: Vec<&'static str>,
}

fn get_test_data() -> Vec<ElfTestData> {
    vec![
        ElfTestData {
            path: "tests/assets/program1".to_string(),
            data: program1_elf(),
            entries: vec!["function1", "function2", "function3", "function4"],
        },
        ElfTestData {
            path: "tests/assets/ex4".to_string(),
            data: ex4_elf(),
            entries: vec![
                "equal_formula_rec",
                "equal_iter_rec",
                "complexity_sum_recursive",
                "complexity_sum_iterative",
                "complexity_sum_formula",
            ],
        },
    ]
}

#[test]
fn test_get_entry_points() {
    let test_elf = get_test_data();
    for elf in test_elf {
        let entries = get_entry_points(&elf.path, &elf.data);
        assert!(entries.is_ok());
        let entries = entries.unwrap();
        assert_eq!(entries.len(), elf.entries.len());
        for entry in elf.entries {
            assert!(entries.contains(&entry.to_string()), "Entry {} not found", entry);
        }
    }
}

#[test]
fn entry_points_keep_declaration_order() {
    let entries = get_entry_points("tests/assets/ex4", &ex4_elf()).unwrap();
    assert_eq!(
        entries,
        vec![
            "equal_formula_rec",
            "equal_iter_rec",
            "complexity_sum_recursive",
            "complexity_sum_iterative",
            "complexity_sum_formula",
        ]
    );
}

#[test]
fn parsed_elf_gives_the_same_entry_points() {
    let data = program1_elf();
    let direct = get_entry_points("program1", &data).unwrap();
    let through_trait = ParsedElf.get_entry_points("program1", &data).unwrap();
    assert_eq!(direct, through_trait);
    assert_eq!(direct, vec!["function1", "function2", "function3", "function4"]);
}

#[test]
fn namespace_comes_from_the_file_name_without_extension() {
    let data = program1_elf();
    let entries = get_entry_points("/some/dir/program1.elf", &data).unwrap();
    assert_eq!(entries.len(), 4);
    let none = get_entry_points("/some/dir/program2", &data).unwrap();
    assert!(none.is_empty());
}

#[test]
fn subprograms_include_main_functions_before_filtering() {
    let names = get_subprograms_in_namespace(&program1_elf(), "program1").unwrap();
    assert_eq!(
        names,
        vec![
            "function1",
            "function2",
            "function3",
            "function4",
            "__cortex_m_rt_main",
            "__cortex_m_rt_main_trampoline",
        ]
    );
}

#[test]
fn only_direct_children_of_matching_namespaces_count() {
    let data = build_elf(vec![vec![ns(
        "app",
        vec![("outer", true)],
        vec![
            ns("inner", vec![("hidden", true)], vec![]),
            ns("app", vec![("again", true)], vec![]),
        ],
    )]]);
    let names = get_subprograms_in_namespace(&data, "app").unwrap();
    assert_eq!(names, vec!["outer", "again"]);
    let inner = get_subprograms_in_namespace(&data, "inner").unwrap();
    assert_eq!(inner, vec!["hidden"]);
}

#[test]
fn functions_without_external_flag_are_skipped() {
    let data = build_elf(vec![vec![ns("lib", vec![("private", false), ("public", true)], vec![])]]);
    assert_eq!(get_subprograms_in_namespace(&data, "lib").unwrap(), vec!["public"]);
}

#[test]
fn not_an_object_file_is_reported() {
    let err = get_entry_points("x", &[1, 2, 3, 4]).unwrap_err();
    assert!(err.starts_with("Failed to parse ELF file: "));
    match load_debug_sections(&[0u8; 8]) {
        Err(ReadError::ObjectParse(_)) => {},
        _ => panic!("expected a parse error"),
    }
}

#[test]
fn missing_debug_section_is_reported() {
    let mut obj = Object::new(BinaryFormat::Elf, Architecture::Arm, Endianness::Little);
    let id = obj.add_section(Vec::new(), b".text".to_vec(), SectionKind::Text);
    obj.append_section_data(id, &[0, 0, 0, 0], 4);
    let data = obj.write().unwrap();
    match load_debug_sections(&data) {
        Err(ReadError::MissingSection(name)) => assert_eq!(name, ".debug_info"),
        _ => panic!("expected a missing section"),
    }
    assert_eq!(get_entry_points("x", &data).unwrap_err(), "Missing section .debug_info");
}

#[test]
fn units_are_read_with_namespace_children() {
    let data = build_elf(vec![vec![ns("lib", vec![("f", true), ("g", false)], vec![])]]);
    let sections = load_debug_sections(&data).unwrap();
    assert!(sections.little_endian);
    let units = read_debug_units(&sections).unwrap();
    assert_eq!(units.len(), 1);
    let tags: Vec<u16> = units[0].iter().map(|d| d.tag).collect();
    assert_eq!(
        tags,
        vec![
            gimli::DW_TAG_compile_unit.0,
            gimli::DW_TAG_namespace.0,
            gimli::DW_TAG_subprogram.0,
            gimli::DW_TAG_variable.0,
            gimli::DW_TAG_subprogram.0,
            gimli::DW_TAG_variable.0,
        ]
    );
    assert_eq!(units[0][0].children, ChildList::NotRead);
    assert_eq!(units[0][2].children, ChildList::NotRead);
    match &units[0][1].children {
        ChildList::Entries(children) => {
            assert_eq!(children.len(), 2);
            assert!(children.iter().all(|c| c.tag == gimli::DW_TAG_subprogram.0));
            assert_eq!(children[0].external, AttrRead::Present(AttrForm::Flag(true)));
            assert_eq!(children[1].external, AttrRead::Absent);
        }
        other => panic!("expected the namespace's children, got {:?}", other),
    }
}

/// An ELF image with one hand-assembled unit: a namespace `app` whose
/// children are the functions `f`, `g` and `h`. `f` has an empty list of
/// children and a `DW_AT_sibling` link that leads to `h`, past `g`.
fn sibling_link_elf() -> Vec<u8> {
    let abbrev: Vec<u8> = vec![
        1, 0x11, 1, 0, 0, // compile unit, with children
        2, 0x39, 1, 0x03, 0x0e, 0, 0, // namespace: name (strp)
        3, 0x2e, 1, 0x03, 0x0e, 0x3f, 0x19, 0x01, 0x13, 0, 0, // subprogram: name, external, sibling (ref4)
        4, 0x2e, 0, 0x03, 0x0e, 0x3f, 0x19, 0, 0, // subprogram: name, external
        0,
    ];
    let strs: Vec<u8> = b"app\0f\0g\0h\0".to_vec();
    let mut entries: Vec<u8> = vec![1]; // unit offset 11
    entries.extend_from_slice(&[2, 0, 0, 0, 0]); // 12: namespace "app"
    entries.extend_from_slice(&[3, 4, 0, 0, 0, 32, 0, 0, 0]); // 17: "f", sibling at 32
    entries.push(0); // 26: end of the children of "f"
    entries.extend_from_slice(&[4, 6, 0, 0, 0]); // 27: "g"
    entries.extend_from_slice(&[4, 8, 0, 0, 0]); // 32: "h"
    entries.extend_from_slice(&[0, 0]); // ends of the namespace and the unit
    let mut info: Vec<u8> = Vec::new();
    let length = (2 + 4 + 1 + entries.len()) as u32;
    info.extend_from_slice(&length.to_le_bytes());
    info.extend_from_slice(&[4, 0, 0, 0, 0, 0, 4]); // version 4, abbreviations at 0, address size 4
    info.extend_from_slice(&entries);
    let mut obj = Object::new(BinaryFormat::Elf, Architecture::Arm, Endianness::Little);
    for (name, data) in [(".debug_info", info), (".debug_abbrev", abbrev), (".debug_str", strs)] {
        let id = obj.add_section(Vec::new(), name.as_bytes().to_vec(), SectionKind::Debug);
        obj.append_section_data(id, &data, 1);
    }
    obj.write().unwrap()
}

#[test]
fn namespace_children_follow_sibling_links() {
    let data = sibling_link_elf();
    assert_eq!(get_subprograms_in_namespace(&data, "app").unwrap(), vec!["f", "h"]);
    assert_eq!(get_entry_points("/bin/app.elf", &data).unwrap(), vec!["f", "h"]);
    let sections = load_debug_sections(&data).unwrap();
    let units = read_debug_units(&sections).unwrap();
    // the depth-first walk still sees all three functions
    assert_eq!(units[0].len(), 5);
}

#[test]
fn same_bytes_and_file_stem_give_same_entry_points() {
    let data = ex4_elf();
    let a = get_entry_points("tests/assets/ex4", &data);
    let b = get_entry_points("/tmp/dir.v2/ex4.elf", &data);
    assert_eq!(a, b);
}

#[test]
fn parse_failure_carries_object_text() {
    let bytes = b"not an elf file!";
    let err = get_subprograms_in_namespace(bytes, "program1").unwrap_err();
    let object_text = object::File::parse(&bytes[..]).err().unwrap().to_string();
    assert_eq!(err, format!("Failed to parse ELF file: {}", object_text));
    assert_eq!(get_entry_points("program1", bytes).unwrap_err(), err);
}

#[test]
fn entry_points_are_filtered_subprograms() {
    let data = program1_elf();
    let all = get_subprograms_in_namespace(&data, "program1").unwrap();
    let kept: Vec<String> = all
        .into_iter()
        .filter(|x| x != "main" && x != "__cortex_m_rt_main" && x != "__cortex_m_rt_main_trampoline")
        .collect();
    assert_eq!(get_entry_points("program1", &data).unwrap(), kept);
}

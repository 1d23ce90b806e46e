use gimli::write::{AttributeValue, Dwarf, EndianVec, LineProgram, Sections, Unit};
use gimli::{Encoding, Format, LittleEndian};
use object::write::Object;
use object::{Architecture, BinaryFormat, Endianness, SectionKind};
use stack_analyzer::dwarf_reader::{load_debug_sections, read_debug_units, DebugSections, ReadError};
use stack_analyzer::get_entry_points;

/// The `.debug_info`, `.debug_abbrev` and `.debug_str` of one unit with a
/// namespace `lib` holding an exported function `f`.
fn dwarf_sections() -> (Vec<u8>, Vec<u8>, Vec<u8>) {
    let encoding = Encoding { format: Format::Dwarf32, version: 4, address_size: 4 };
    let mut dwarf = Dwarf::new();
    let mut unit = Unit::new(encoding, LineProgram::none());
    let root = unit.root();
    let ns = unit.add(root, gimli::DW_TAG_namespace);
    let name = dwarf.strings.add("lib");
    unit.get_mut(ns).set(gimli::DW_AT_name, AttributeValue::StringRef(name));
    let f = unit.add(ns, gimli::DW_TAG_subprogram);
    let fname = dwarf.strings.add("f");
    unit.get_mut(f).set(gimli::DW_AT_name, AttributeValue::StringRef(fname));
    unit.get_mut(f).set(gimli::DW_AT_external, AttributeValue::Flag(true));
    dwarf.units.add(unit);
    let mut sections = Sections::new(EndianVec::new(LittleEndian));
    dwarf.write(&mut sections).unwrap();
    (
        sections.debug_info.slice().to_vec(),
        sections.debug_abbrev.slice().to_vec(),
        sections.debug_str.slice().to_vec(),
    )
}

fn elf_with(info: &[u8], abbrev: &[u8], strs: &[u8]) -> Vec<u8> {
    let mut obj = Object::new(BinaryFormat::Elf, Architecture::Arm, Endianness::Little);
    for (name, data) in [(".debug_info", info), (".debug_abbrev", abbrev), (".debug_str", strs)] {
        let id = obj.add_section(Vec::new(), name.as_bytes().to_vec(), SectionKind::Debug);
        obj.append_section_data(id, data, 1);
    }
    obj.write().unwrap()
}

#[test]
fn well_formed_sections_give_the_function() {
    let (info, abbrev, strs) = dwarf_sections();
    let data = elf_with(&info, &abbrev, &strs);
    assert_eq!(get_entry_points("lib.elf", &data).unwrap(), vec!["f"]);
}

#[test]
fn broken_unit_header_is_reported() {
    let (_, abbrev, strs) = dwarf_sections();
    let sections = DebugSections { info: &[0xff, 0xff, 0xff, 0xff], abbrev: &abbrev, strs: &strs, little_endian: true };
    assert_eq!(read_debug_units(&sections), Err(ReadError::UnitHeader));
}

#[test]
fn missing_abbreviations_are_reported() {
    let (info, _, strs) = dwarf_sections();
    let sections = DebugSections { info: &info, abbrev: &[], strs: &strs, little_endian: true };
    assert_eq!(read_debug_units(&sections), Err(ReadError::Abbreviations));
}

#[test]
fn unknown_abbreviation_code_is_reported() {
    let (mut info, abbrev, strs) = dwarf_sections();
    // unit length (4), version (2), abbreviation offset (4), address size (1)
    info[11] = 0x7f;
    let sections = DebugSections { info: &info, abbrev: &abbrev, strs: &strs, little_endian: true };
    assert_eq!(read_debug_units(&sections), Err(ReadError::Entries));
    let data = elf_with(&info, &abbrev, &strs);
    assert_eq!(get_entry_points("lib", &data).unwrap_err(), "Unreadable entry in .debug_info");
}

#[test]
fn section_outside_the_file_is_reported() {
    let (info, abbrev, strs) = dwarf_sections();
    let mut data = elf_with(&info, &abbrev, &strs);
    // ELF32: section header table offset at 0x20, entries of 40 bytes;
    // within an entry the name offset is at 0 and the data offset at 16.
    let shoff = u32::from_le_bytes([data[0x20], data[0x21], data[0x22], data[0x23]]) as usize;
    let shnum = u16::from_le_bytes([data[0x30], data[0x31]]) as usize;
    let shstrndx = u16::from_le_bytes([data[0x32], data[0x33]]) as usize;
    let header = |i: usize| shoff + 40 * i;
    let field = |d: &Vec<u8>, at: usize| u32::from_le_bytes([d[at], d[at + 1], d[at + 2], d[at + 3]]) as usize;
    let names_at = field(&data, header(shstrndx) + 16);
    let mut patched = false;
    for i in 0..shnum {
        let name_start = names_at + field(&data, header(i));
        if data[name_start..].starts_with(b".debug_abbrev\0") {
            let at = header(i) + 16;
            data[at..at + 4].copy_from_slice(&0xffff_fff0u32.to_le_bytes());
            patched = true;
        }
    }
    assert!(patched);
    match load_debug_sections(&data) {
        Err(ReadError::SectionData(name)) => assert_eq!(name, ".debug_abbrev"),
        _ => panic!("expected an unreadable section"),
    }
}

#[test]
fn read_errors_have_texts() {
    assert_eq!(ReadError::ObjectParse("bad".to_string()).message(), "Failed to parse ELF file: bad");
    assert_eq!(ReadError::MissingSection(".debug_str".to_string()).message(), "Missing section .debug_str");
    assert_eq!(ReadError::SectionData(".debug_str".to_string()).message(), "Unreadable section .debug_str");
    assert_eq!(ReadError::UnitHeader.message(), "Unreadable unit header in .debug_info");
    assert_eq!(ReadError::Abbreviations.message(), "Unreadable abbreviations of a unit");
    assert_eq!(ReadError::Entries.message(), "Unreadable entry in .debug_info");
    assert_eq!(ReadError::TooManyItems.message(), "More entries than bytes in .debug_info");
}

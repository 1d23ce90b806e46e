//! The entry points of an ELF file: the exported functions of its crate's
//! namespace, less the runtime's `main` functions.
use vstd::prelude::*;
use crate::dwarf_model::{DieRecord, DieView, Names, ScanError, chain, units_upto, names_view, units_view, result_view, namespace_subprograms, namespace_subprograms_spec, scan_error_text};
use crate::dwarf_reader::{law_sections_follow_the_file, object_little_endian, object_section_contents, load_debug_sections, read_debug_units, read_failure_text, debug_sections_spec, dwarf_units_spec, object_parses, object_parse_error_text};
use crate::entry_filter::{remove_known_main_entry_points, without_known_mains, non_mains, is_known_main, law_known_mains_removed};
use crate::namespace::{crate_namespace, crate_namespace_spec};

verus! {

/// Something that finds the entry points of an ELF file.
pub trait ParseElf {
    /// The entry points of the ELF file at `elf_path`, whose bytes are
    /// `elf_data`.
    fn get_entry_points(&self, elf_path: &str, elf_data: &[u8]) -> Result<Vec<String>, String>;
}

/// Finds entry points from the file's DWARF debugging information.
pub struct ParsedElf;

/// The entry points that a path and the units of its file give: the
/// exported functions of the namespace the path names, less the known
/// `main` entry points.
pub open spec fn entry_points_spec(path: Seq<char>, units: Seq<Seq<DieView>>, strs: Seq<u8>) -> Result<Names, ScanError> {
    match namespace_subprograms_spec(units, strs, crate_namespace_spec(path)) {
        Ok(all) => Ok(without_known_mains(all)),
        Err(e) => Err(e),
    }
}

/// The exported functions of the namespace `ns` in the ELF file `data`, or
/// the text of the failure: the debugging sections that object finds, the
/// units that gimli reads from them, and the selection rule over those.
pub open spec fn subprograms_of_file(data: Seq<u8>, ns: Seq<char>) -> Result<Names, Seq<char>> {
    match debug_sections_spec(data) {
        Err(f) => Err(read_failure_text(f)),
        Ok(sections) => match dwarf_units_spec(sections.info, sections.abbrev, sections.little_endian) {
            Err(f) => Err(read_failure_text(f)),
            Ok(units) => match namespace_subprograms_spec(units, sections.strs, ns) {
                Ok(names) => Ok(names),
                Err(e) => Err(scan_error_text(e)),
            },
        },
    }
}

/// The entry points of the ELF file `data` at `path`: the exported
/// functions of the namespace the path names, less the known `main` entry
/// points.
pub open spec fn entry_points_of_file(data: Seq<u8>, path: Seq<char>) -> Result<Names, Seq<char>> {
    match subprograms_of_file(data, crate_namespace_spec(path)) {
        Ok(names) => Ok(without_known_mains(names)),
        Err(m) => Err(m),
    }
}

/// A string result read as text.
pub open spec fn text_result_view(r: Result<Vec<String>, String>) -> Result<Names, Seq<char>> {
    match r {
        Ok(v) => Ok(names_view(v@)),
        Err(m) => Err(m@),
    }
}

/// The entry points of `elf_path` from the units read out of its file.
pub fn entry_points_from_units(elf_path: &str, units: &[Vec<DieRecord>], strs: &[u8], little_endian: bool) -> (r: Result<Vec<String>, ScanError>)
    ensures
        result_view(r) == entry_points_spec(elf_path@, units_view(units@), strs@),
{
    let namespace = crate_namespace(elf_path);
    let all = namespace_subprograms(units, strs, little_endian, namespace)?;
    Ok(remove_known_main_entry_points(all))
}

/// The exported functions that gimli's entry tree lists as children of the
/// namespaces named `crate_namespace` in the ELF file `elf_data`.
pub fn get_subprograms_in_namespace(elf_data: &[u8], crate_namespace: &str) -> (r: Result<Vec<String>, String>)
    ensures
        text_result_view(r) == subprograms_of_file(elf_data@, crate_namespace@),
{
    let sections = match load_debug_sections(elf_data) {
        Ok(s) => s,
        Err(e) => { return Err(e.message()); },
    };
    let units = match read_debug_units(&sections) {
        Ok(u) => u,
        Err(e) => { return Err(e.message()); },
    };
    match namespace_subprograms(units.as_slice(), sections.strs, sections.little_endian, crate_namespace) {
        Ok(v) => Ok(v),
        Err(e) => Err(e.message()),
    }
}

/// The entry points of the ELF file at `elf_path`, whose bytes are
/// `elf_data`: the exported functions of the namespace that the file's name
/// names, less `main`, `__cortex_m_rt_main` and
/// `__cortex_m_rt_main_trampoline`.
pub fn get_entry_points(elf_path: &str, elf_data: &[u8]) -> (r: Result<Vec<String>, String>)
    ensures
        text_result_view(r) == entry_points_of_file(elf_data@, elf_path@),
{
    let namespace = crate_namespace(elf_path);
    let subprograms = get_subprograms_in_namespace(elf_data, namespace)?;
    Ok(remove_known_main_entry_points(subprograms))
}

impl ParseElf for ParsedElf {
    fn get_entry_points(&self, elf_path: &str, elf_data: &[u8]) -> (r: Result<Vec<String>, String>)
        ensures
            text_result_view(r) == entry_points_of_file(elf_data@, elf_path@),
    {
        get_entry_points(elf_path, elf_data)
    }
}

proof fn lemma_chain_assoc(a: Result<Names, ScanError>, b: Result<Names, ScanError>, c: Result<Names, ScanError>)
    ensures
        chain(chain(a, b), c) == chain(a, chain(b, c)),
{
    match (a, b, c) {
        (Ok(x), Ok(y), Ok(z)) => { assert((x + y) + z =~= x + (y + z)); },
        _ => {},
    }
}

proof fn lemma_units_prefix(u1: Seq<Seq<DieView>>, u2: Seq<Seq<DieView>>, strs: Seq<u8>, ns: Seq<char>, n: int)
    requires
        0 <= n <= u1.len(),
    ensures
        units_upto(u1 + u2, strs, ns, n) == units_upto(u1, strs, ns, n),
    decreases n,
{
    if n > 0 {
        lemma_units_prefix(u1, u2, strs, ns, n - 1);
        assert((u1 + u2)[n - 1] == u1[n - 1]);
    }
}

proof fn lemma_units_concat(u1: Seq<Seq<DieView>>, u2: Seq<Seq<DieView>>, strs: Seq<u8>, ns: Seq<char>, m: int)
    requires
        0 <= m <= u2.len(),
    ensures
        units_upto(u1 + u2, strs, ns, u1.len() + m) == chain(units_upto(u1, strs, ns, u1.len() as int), units_upto(u2, strs, ns, m)),
    decreases m,
{
    let a = units_upto(u1, strs, ns, u1.len() as int);
    if m == 0 {
        lemma_units_prefix(u1, u2, strs, ns, u1.len() as int);
        match a {
            Ok(x) => { assert(x + Seq::<Seq<char>>::empty() =~= x); },
            Err(_) => {},
        }
    } else {
        lemma_units_concat(u1, u2, strs, ns, m - 1);
        assert((u1 + u2)[u1.len() + m - 1] == u2[m - 1]);
        let last = unit_result(u2[m - 1], strs, ns);
        lemma_chain_assoc(a, units_upto(u2, strs, ns, m - 1), last);
    }
}

/// What one unit contributes to the selection.
spec fn unit_result(u: Seq<DieView>, strs: Seq<u8>, ns: Seq<char>) -> Result<Names, ScanError> {
    crate::dwarf_model::unit_upto(u, strs, ns, u.len() as int)
}

proof fn lemma_non_mains_concat(a: Names, b: Names)
    ensures
        non_mains(a + b) == non_mains(a) + non_mains(b),
    decreases b.len(),
{
    if b.len() == 0 {
        assert(a + b =~= a);
        assert(non_mains(a) + non_mains(b) =~= non_mains(a));
    } else {
        lemma_non_mains_concat(a, b.drop_last());
        assert((a + b).drop_last() =~= a + b.drop_last());
        assert((a + b).last() == b.last());
        if !is_known_main(b.last()) {
            assert((non_mains(a) + non_mains(b.drop_last())).push(b.last()) =~= non_mains(a) + non_mains(b.drop_last()).push(b.last()));
        }
    }
}

/// Every unit is scanned, in turn: the selection over two runs of units,
/// one after the other, is the selection over the first run followed by
/// the one over the second, and the first error wins.
pub proof fn law_units_are_scanned_in_turn(u1: Seq<Seq<DieView>>, u2: Seq<Seq<DieView>>, strs: Seq<u8>, ns: Seq<char>)
    ensures
        namespace_subprograms_spec(u1 + u2, strs, ns)
            == chain(namespace_subprograms_spec(u1, strs, ns), namespace_subprograms_spec(u2, strs, ns)),
{
    lemma_units_concat(u1, u2, strs, ns, u2.len() as int);
    assert((u1 + u2).len() == u1.len() + u2.len());
}

/// The entry points of two runs of units, one after the other, are the
/// entry points of the first run followed by those of the second: a later
/// unit's functions count as much as the first unit's.
pub proof fn law_entry_points_of_all_units(path: Seq<char>, u1: Seq<Seq<DieView>>, u2: Seq<Seq<DieView>>, strs: Seq<u8>)
    ensures
        entry_points_spec(path, u1 + u2, strs) == chain(entry_points_spec(path, u1, strs), entry_points_spec(path, u2, strs)),
{
    let ns = crate_namespace_spec(path);
    law_units_are_scanned_in_turn(u1, u2, strs, ns);
    match (namespace_subprograms_spec(u1, strs, ns), namespace_subprograms_spec(u2, strs, ns)) {
        (Ok(x), Ok(y)) => {
            law_known_mains_removed(x);
            law_known_mains_removed(y);
            law_known_mains_removed(x + y);
            lemma_non_mains_concat(x, y);
        },
        _ => {},
    }
}

/// Once object has given the three sections, the units are those gimli
/// reads from the `.debug_info` and `.debug_abbrev` contents in the byte
/// order object reports for the file, and the names are looked up in the
/// `.debug_str` contents.
pub proof fn law_units_read_in_file_byte_order(data: Seq<u8>, ns: Seq<char>, info: Seq<u8>, abbrev: Seq<u8>, strs: Seq<u8>)
    requires
        debug_sections_spec(data) is Ok,
        object_section_contents(data, ".debug_info"@) == Some(info),
        object_section_contents(data, ".debug_abbrev"@) == Some(abbrev),
        object_section_contents(data, ".debug_str"@) == Some(strs),
    ensures
        match dwarf_units_spec(info, abbrev, object_little_endian(data)) {
            Err(f) => subprograms_of_file(data, ns) == Err::<Names, Seq<char>>(read_failure_text(f)),
            Ok(units) => match namespace_subprograms_spec(units, strs, ns) {
                Ok(names) => subprograms_of_file(data, ns) == Ok::<Names, Seq<char>>(names),
                Err(e) => subprograms_of_file(data, ns) == Err::<Names, Seq<char>>(scan_error_text(e)),
            },
        },
{
    law_sections_follow_the_file(data);
}

/// Bytes that object cannot parse give "Failed to parse ELF file: "
/// followed by object's error text, whatever the path.
pub proof fn law_parse_failure_text(data: Seq<u8>, path: Seq<char>)
    requires
        !object_parses(data),
    ensures
        subprograms_of_file(data, crate_namespace_spec(path)) == Err::<Names, Seq<char>>("Failed to parse ELF file: "@ + object_parse_error_text(data)),
        entry_points_of_file(data, path) == Err::<Names, Seq<char>>("Failed to parse ELF file: "@ + object_parse_error_text(data)),
{
}

/// Finding the functions fails exactly when one of its stages fails:
/// object's parse or section lookup, gimli's reading of the units, or the
/// selection rule.
pub proof fn law_failure_stages(data: Seq<u8>, ns: Seq<char>)
    ensures
        subprograms_of_file(data, ns) is Err <==> {
            ||| debug_sections_spec(data) is Err
            ||| dwarf_units_spec(debug_sections_spec(data)->Ok_0.info, debug_sections_spec(data)->Ok_0.abbrev, debug_sections_spec(data)->Ok_0.little_endian) is Err
            ||| namespace_subprograms_spec(
                dwarf_units_spec(debug_sections_spec(data)->Ok_0.info, debug_sections_spec(data)->Ok_0.abbrev, debug_sections_spec(data)->Ok_0.little_endian)->Ok_0,
                debug_sections_spec(data)->Ok_0.strs, ns) is Err
        },
        !object_parses(data) ==> subprograms_of_file(data, ns) is Err,
{
}

/// The entry points are the subprograms of the namespace the path names,
/// with the known `main` entry points filtered out in their order: none of
/// them is left, and every other name stays.
pub proof fn law_entry_points_filter_subprograms(data: Seq<u8>, path: Seq<char>)
    ensures
        match subprograms_of_file(data, crate_namespace_spec(path)) {
            Ok(s) => {
                &&& entry_points_of_file(data, path) == Ok::<Names, Seq<char>>(non_mains(s))
                &&& forall|n: Seq<char>| non_mains(s).contains(n) <==> (s.contains(n) && !is_known_main(n))
            },
            Err(m) => entry_points_of_file(data, path) == Err::<Names, Seq<char>>(m),
        },
{
    match subprograms_of_file(data, crate_namespace_spec(path)) {
        Ok(s) => { law_known_mains_removed(s); },
        Err(_) => {},
    }
}

/// The entry points depend on the file's bytes and on the namespace its
/// path names, and on nothing else of the path.
pub proof fn law_same_bytes_same_namespace(data: Seq<u8>, p1: Seq<char>, p2: Seq<char>)
    requires
        crate_namespace_spec(p1) == crate_namespace_spec(p2),
    ensures
        entry_points_of_file(data, p1) == entry_points_of_file(data, p2),
{
}

} // verus!

//! Reading the sections of an object file and the entries of its DWARF
//! units into plain records, through `object` and `gimli`.
//!
//! What these crates read is a function of the bytes alone, and each call
//! is named below: what `object` finds in the file's bytes, and what gimli
//! reports for the `k`-th unit header, for the `j`-th entry of a unit, and
//! for the `c`-th child in the entry tree below an entry, read from the
//! `.debug_info` and `.debug_abbrev` bytes with a byte order. Each value of
//! these crates is held in a private field of a struct of this module,
//! together with a ghost record of where it stands among those bytes, which
//! only the calls below set.
use vstd::prelude::*;
use gimli::{EndianSlice, RunTimeEndian};
use object::{Object, ObjectSection};
use crate::dwarf_model::{AttrForm, AttrRead, ChildList, ChildRecord, ChildrenView, DieRecord, DieView, DW_AT_EXTERNAL, DW_AT_NAME, DW_TAG_NAMESPACE, unit_view, units_view};

verus! {

#[verifier::external_type_specification]
#[verifier::external_body]
pub struct ExObjectError(object::Error);

/* What object and gimli find in bytes */

/// Whether `object::File::parse` accepts the bytes.
pub uninterp spec fn object_parses(data: Seq<u8>) -> bool;

/// The text (`Display`) of the error that `object::File::parse` gives on
/// the bytes.
pub uninterp spec fn object_parse_error_text(data: Seq<u8>) -> Seq<char>;

/// What `Object::is_little_endian` answers for the file parsed from the bytes.
pub uninterp spec fn object_little_endian(data: Seq<u8>) -> bool;

/// Whether `Object::section_by_name` finds the section in the file parsed
/// from the bytes.
pub uninterp spec fn object_has_section(data: Seq<u8>, name: Seq<char>) -> bool;

/// What `ObjectSection::data` gives for that section: its contents, or
/// `None` when it fails.
pub uninterp spec fn object_section_contents(data: Seq<u8>, name: Seq<char>) -> Option<Seq<u8>>;

/// The outcome of asking gimli's unit-header iterator for one more header.
pub enum UnitOutcome {
    Header,
    End,
    Failed,
}

/// The outcome of asking gimli's entry cursor for the next entry in
/// depth-first order: an entry with its depth relative to the previous one.
pub enum EntryOutcome {
    Entry(isize),
    End,
    Failed,
}

/// What the `k`-th call of `DebugInfoUnitHeadersIter::next` gives, on the
/// iterator over `.debug_info` bytes `info` read with the given byte order.
pub uninterp spec fn dwarf_unit_outcome(info: Seq<u8>, little_endian: bool, k: nat) -> UnitOutcome;

/// Whether `UnitHeader::abbreviations` succeeds for the `k`-th unit header
/// and the `.debug_abbrev` bytes `abbrev`.
pub uninterp spec fn dwarf_abbreviations_ok(info: Seq<u8>, little_endian: bool, k: nat, abbrev: Seq<u8>) -> bool;

/// The outcome of asking an entry tree's child iterator for one more child.
pub enum ChildOutcome {
    Child,
    End,
    Failed,
}

/// Where an entry of a unit was reached: by the `j`-th call of the
/// depth-first cursor, or as the `c`-th child of the entry tree rooted at
/// the entry at unit offset `root`.
pub enum EntryAt {
    Dfs(nat),
    Child(usize, nat),
}

/// What the `j`-th call of `EntriesCursor::next_dfs` gives on the cursor
/// over the entries of the `k`-th unit.
pub uninterp spec fn dwarf_entry_outcome(info: Seq<u8>, little_endian: bool, k: nat, abbrev: Seq<u8>, j: nat) -> EntryOutcome;

/// The tag number (`DebuggingInformationEntry::tag`) of the entry reached at `at`.
pub uninterp spec fn dwarf_entry_tag(info: Seq<u8>, little_endian: bool, k: nat, abbrev: Seq<u8>, at: EntryAt) -> u16;

/// What `DebuggingInformationEntry::attr_value` gives for the attribute
/// numbered `attr` of the entry reached at `at`.
pub uninterp spec fn dwarf_entry_attr(info: Seq<u8>, little_endian: bool, k: nat, abbrev: Seq<u8>, at: EntryAt, attr: u16) -> AttrRead;

/// The unit offset (`DebuggingInformationEntry::offset`) of the entry
/// reached at `at`.
pub uninterp spec fn dwarf_entry_offset(info: Seq<u8>, little_endian: bool, k: nat, abbrev: Seq<u8>, at: EntryAt) -> usize;

/// Whether `UnitHeader::entries_tree` succeeds for the tree rooted at the
/// entry at unit offset `root` of the `k`-th unit.
pub uninterp spec fn dwarf_tree_opens(info: Seq<u8>, little_endian: bool, k: nat, abbrev: Seq<u8>, root: usize) -> bool;

/// Whether `EntriesTree::root` succeeds on that tree.
pub uninterp spec fn dwarf_tree_root_ok(info: Seq<u8>, little_endian: bool, k: nat, abbrev: Seq<u8>, root: usize) -> bool;

/// What the `c`-th call of `EntriesTreeIter::next` gives on the iterator
/// over the children of that tree's root.
pub uninterp spec fn dwarf_child_outcome(info: Seq<u8>, little_endian: bool, k: nat, abbrev: Seq<u8>, root: usize, c: nat) -> ChildOutcome;

/* The values of object and gimli, with where they stand */

#[verifier::external_body]
struct ObjectFileInner<'d> {
    file: object::File<'d>,
}

/// A parsed object file (`object::File`) and the bytes it was parsed from.
pub struct ObjectFile<'d> {
    inner: ObjectFileInner<'d>,
    data: Ghost<Seq<u8>>,
}

/// The error of a failed parse (`object::Error`) and the bytes it came from.
pub struct ObjectParseError {
    error: object::Error,
    data: Ghost<Seq<u8>>,
}

#[verifier::external_body]
struct ObjectSectionInner<'d, 'f> {
    section: object::Section<'d, 'f>,
}

/// A section of a parsed object file (`object::Section`), with the file's
/// bytes and the section's name.
pub struct ObjectSectionRef<'d, 'f> {
    inner: ObjectSectionInner<'d, 'f>,
    data: Ghost<Seq<u8>>,
    name: Ghost<Seq<char>>,
}

#[verifier::external_body]
struct DebugInfoInner<'d> {
    section: gimli::DebugInfo<EndianSlice<'d, RunTimeEndian>>,
}

/// A `.debug_info` section as gimli reads it.
pub struct DebugInfoSection<'d> {
    inner: DebugInfoInner<'d>,
    bytes: Ghost<Seq<u8>>,
    little_endian: Ghost<bool>,
}

#[verifier::external_body]
struct DebugAbbrevInner<'d> {
    section: gimli::DebugAbbrev<EndianSlice<'d, RunTimeEndian>>,
}

/// A `.debug_abbrev` section as gimli reads it.
pub struct DebugAbbrevSection<'d> {
    inner: DebugAbbrevInner<'d>,
    bytes: Ghost<Seq<u8>>,
    little_endian: Ghost<bool>,
}

#[verifier::external_body]
struct UnitHeadersInner<'d> {
    iter: gimli::DebugInfoUnitHeadersIter<EndianSlice<'d, RunTimeEndian>>,
}

/// gimli's iterator over the unit headers of `.debug_info`, and how many
/// headers it has been asked for.
pub struct UnitHeaders<'d> {
    inner: UnitHeadersInner<'d>,
    info: Ghost<Seq<u8>>,
    little_endian: Ghost<bool>,
    next: Ghost<nat>,
}

#[verifier::external_body]
struct UnitHeaderInner<'d> {
    header: gimli::UnitHeader<EndianSlice<'d, RunTimeEndian>>,
}

/// The `unit`-th unit header of `.debug_info`.
pub struct UnitHeaderRef<'d> {
    inner: UnitHeaderInner<'d>,
    info: Ghost<Seq<u8>>,
    little_endian: Ghost<bool>,
    unit: Ghost<nat>,
}

#[verifier::external_body]
struct AbbrevTableInner {
    abbreviations: gimli::Abbreviations,
}

/// The abbreviations of the `unit`-th unit, read from `.debug_abbrev`.
pub struct AbbrevTable {
    inner: AbbrevTableInner,
    info: Ghost<Seq<u8>>,
    little_endian: Ghost<bool>,
    unit: Ghost<nat>,
    abbrev: Ghost<Seq<u8>>,
}

#[verifier::external_body]
struct EntryCursorInner<'a, 'u, 'd> {
    cursor: gimli::EntriesCursor<'a, 'u, EndianSlice<'d, RunTimeEndian>>,
}

/// gimli's cursor over the entries of the `unit`-th unit, and how many
/// entries it has been asked for.
pub struct EntryCursor<'a, 'u, 'd> {
    inner: EntryCursorInner<'a, 'u, 'd>,
    info: Ghost<Seq<u8>>,
    little_endian: Ghost<bool>,
    unit: Ghost<nat>,
    abbrev: Ghost<Seq<u8>>,
    next: Ghost<nat>,
}

#[verifier::external_body]
struct EntryRefInner<'c, 'a, 'u, 'd> {
    entry: &'c gimli::DebuggingInformationEntry<'a, 'u, EndianSlice<'d, RunTimeEndian>>,
}

/// An entry of the `unit`-th unit, reached at `at`.
pub struct EntryRef<'c, 'a, 'u, 'd> {
    inner: EntryRefInner<'c, 'a, 'u, 'd>,
    info: Ghost<Seq<u8>>,
    little_endian: Ghost<bool>,
    unit: Ghost<nat>,
    abbrev: Ghost<Seq<u8>>,
    at: Ghost<EntryAt>,
}

#[verifier::external_body]
struct EntryTreeInner<'a, 'u, 'd> {
    tree: gimli::EntriesTree<'a, 'u, EndianSlice<'d, RunTimeEndian>>,
}

/// gimli's entry tree of the `unit`-th unit rooted at the entry at unit
/// offset `root`.
pub struct EntryTree<'a, 'u, 'd> {
    inner: EntryTreeInner<'a, 'u, 'd>,
    info: Ghost<Seq<u8>>,
    little_endian: Ghost<bool>,
    unit: Ghost<nat>,
    abbrev: Ghost<Seq<u8>>,
    root: Ghost<usize>,
}

#[verifier::external_body]
struct TreeNodeInner<'a, 'u, 'd, 't> {
    node: gimli::EntriesTreeNode<'a, 'u, 't, EndianSlice<'d, RunTimeEndian>>,
}

/// A node of such a tree: its root (`child` is `None`) or the `c`-th child
/// of its root.
pub struct TreeNode<'a, 'u, 'd, 't> {
    inner: TreeNodeInner<'a, 'u, 'd, 't>,
    info: Ghost<Seq<u8>>,
    little_endian: Ghost<bool>,
    unit: Ghost<nat>,
    abbrev: Ghost<Seq<u8>>,
    root: Ghost<usize>,
    child: Ghost<Option<nat>>,
}

#[verifier::external_body]
struct TreeChildrenInner<'a, 'u, 'd, 't> {
    iter: gimli::EntriesTreeIter<'a, 'u, 't, EndianSlice<'d, RunTimeEndian>>,
}

/// gimli's iterator over the children of a tree's root, and how many
/// children it has been asked for.
pub struct TreeChildren<'a, 'u, 'd, 't> {
    inner: TreeChildrenInner<'a, 'u, 'd, 't>,
    info: Ghost<Seq<u8>>,
    little_endian: Ghost<bool>,
    unit: Ghost<nat>,
    abbrev: Ghost<Seq<u8>>,
    root: Ghost<usize>,
    next: Ghost<nat>,
}

/* The calls */

/// Calls `object::File::parse`: it succeeds as `object_parses` says, on
/// success the file stands for the bytes, on failure the error does.
#[verifier::external_body]
fn parse_object_file<'d>(data: &'d [u8]) -> (r: Result<ObjectFile<'d>, ObjectParseError>)
    ensures
        r is Ok <==> object_parses(data@),
        r matches Ok(f) ==> f.data@ == data@,
        r matches Err(e) ==> e.data@ == data@,
{
    match object::File::parse(data) {
        Ok(file) => Ok(ObjectFile { inner: ObjectFileInner { file }, data: Ghost(data@) }),
        Err(error) => Err(ObjectParseError { error, data: Ghost(data@) }),
    }
}

/// Calls `ToString::to_string` on the parse error (object's `Display`):
/// the text `object_parse_error_text` of the bytes.
#[verifier::external_body]
fn object_error_text(e: &ObjectParseError) -> (s: String)
    ensures
        s@ == object_parse_error_text(e.data@),
{
    e.error.to_string()
}

/// Calls `Object::is_little_endian`.
#[verifier::external_body]
fn object_is_little_endian(file: &ObjectFile<'_>) -> (b: bool)
    ensures
        b == object_little_endian(file.data@),
{
    file.inner.file.is_little_endian()
}

/// Calls `Object::section_by_name`.
#[verifier::external_body]
fn object_section_by_name<'d, 'f>(file: &'f ObjectFile<'d>, name: &str) -> (r: Option<ObjectSectionRef<'d, 'f>>)
    ensures
        r is Some <==> object_has_section(file.data@, name@),
        r matches Some(s) ==> s.data@ == file.data@ && s.name@ == name@,
{
    match file.inner.file.section_by_name(name) {
        Some(section) => Some(ObjectSectionRef { inner: ObjectSectionInner { section }, data: Ghost(file.data@), name: Ghost(name@) }),
        None => None,
    }
}

/// Calls `ObjectSection::data`.
#[verifier::external_body]
fn object_section_data<'d>(section: &ObjectSectionRef<'d, '_>) -> (r: Result<&'d [u8], object::Error>)
    ensures
        r is Ok <==> object_section_contents(section.data@, section.name@) is Some,
        r matches Ok(d) ==> object_section_contents(section.data@, section.name@) == Some(d@),
{
    section.inner.section.data()
}

/// Calls `gimli::DebugInfo::new` with the byte order that `little_endian`
/// names.
#[verifier::external_body]
fn debug_info_new<'d>(data: &'d [u8], little_endian: bool) -> (s: DebugInfoSection<'d>)
    ensures
        s.bytes@ == data@,
        s.little_endian@ == little_endian,
{
    let endian = if little_endian { RunTimeEndian::Little } else { RunTimeEndian::Big };
    DebugInfoSection { inner: DebugInfoInner { section: gimli::DebugInfo::new(data, endian) }, bytes: Ghost(data@), little_endian: Ghost(little_endian) }
}

/// Calls `gimli::DebugAbbrev::new` with the byte order that `little_endian`
/// names.
#[verifier::external_body]
fn debug_abbrev_new<'d>(data: &'d [u8], little_endian: bool) -> (s: DebugAbbrevSection<'d>)
    ensures
        s.bytes@ == data@,
        s.little_endian@ == little_endian,
{
    let endian = if little_endian { RunTimeEndian::Little } else { RunTimeEndian::Big };
    DebugAbbrevSection { inner: DebugAbbrevInner { section: gimli::DebugAbbrev::new(data, endian) }, bytes: Ghost(data@), little_endian: Ghost(little_endian) }
}

/// Calls `gimli::DebugInfo::units`: an iterator not yet asked for a header.
#[verifier::external_body]
fn debug_info_units<'d>(info: &DebugInfoSection<'d>) -> (h: UnitHeaders<'d>)
    ensures
        h.info@ == info.bytes@,
        h.little_endian@ == info.little_endian@,
        h.next@ == 0,
{
    UnitHeaders { inner: UnitHeadersInner { iter: info.inner.section.units() }, info: Ghost(info.bytes@), little_endian: Ghost(info.little_endian@), next: Ghost(0) }
}

/// Calls `DebugInfoUnitHeadersIter::next`: its outcome is
/// `dwarf_unit_outcome` for the number of headers asked for so far.
#[verifier::external_body]
fn unit_headers_next<'d>(headers: &mut UnitHeaders<'d>) -> (r: Result<Option<UnitHeaderRef<'d>>, gimli::Error>)
    ensures
        r is Err <==> dwarf_unit_outcome(old(headers).info@, old(headers).little_endian@, old(headers).next@) is Failed,
        r matches Ok(None) <==> dwarf_unit_outcome(old(headers).info@, old(headers).little_endian@, old(headers).next@) is End,
        r matches Ok(Some(u)) ==> u.info@ == old(headers).info@ && u.little_endian@ == old(headers).little_endian@ && u.unit@ == old(headers).next@,
        final(headers).info@ == old(headers).info@,
        final(headers).little_endian@ == old(headers).little_endian@,
        final(headers).next@ == old(headers).next@ + 1,
{
    match headers.inner.iter.next() {
        Ok(Some(header)) => Ok(Some(UnitHeaderRef { inner: UnitHeaderInner { header }, info: Ghost(headers.info@), little_endian: Ghost(headers.little_endian@), unit: Ghost(headers.next@) })),
        Ok(None) => Ok(None),
        Err(e) => Err(e),
    }
}

/// Calls `UnitHeader::abbreviations`.
#[verifier::external_body]
fn unit_abbreviations<'d>(unit: &UnitHeaderRef<'d>, abbrev: &DebugAbbrevSection<'d>) -> (r: Result<AbbrevTable, gimli::Error>)
    requires
        abbrev.little_endian@ == unit.little_endian@,
    ensures
        r is Ok <==> dwarf_abbreviations_ok(unit.info@, unit.little_endian@, unit.unit@, abbrev.bytes@),
        r matches Ok(t) ==> t.info@ == unit.info@ && t.little_endian@ == unit.little_endian@ && t.unit@ == unit.unit@ && t.abbrev@ == abbrev.bytes@,
{
    match unit.inner.header.abbreviations(&abbrev.inner.section) {
        Ok(abbreviations) => Ok(AbbrevTable { inner: AbbrevTableInner { abbreviations }, info: Ghost(unit.info@), little_endian: Ghost(unit.little_endian@), unit: Ghost(unit.unit@), abbrev: Ghost(abbrev.bytes@) }),
        Err(e) => Err(e),
    }
}

/// Calls `UnitHeader::entries` with the unit's own abbreviations: a cursor
/// not yet asked for an entry.
#[verifier::external_body]
fn unit_entries<'a, 'u, 'd>(unit: &'u UnitHeaderRef<'d>, table: &'a AbbrevTable) -> (c: EntryCursor<'a, 'u, 'd>)
    requires
        table.info@ == unit.info@,
        table.little_endian@ == unit.little_endian@,
        table.unit@ == unit.unit@,
    ensures
        c.info@ == unit.info@,
        c.little_endian@ == unit.little_endian@,
        c.unit@ == unit.unit@,
        c.abbrev@ == table.abbrev@,
        c.next@ == 0,
{
    EntryCursor {
        inner: EntryCursorInner { cursor: unit.inner.header.entries(&table.inner.abbreviations) },
        info: Ghost(unit.info@),
        little_endian: Ghost(unit.little_endian@),
        unit: Ghost(unit.unit@),
        abbrev: Ghost(table.abbrev@),
        next: Ghost(0),
    }
}

/// Calls `EntriesCursor::next_dfs`: its outcome is `dwarf_entry_outcome`
/// for the number of entries asked for so far.
#[verifier::external_body]
fn cursor_next_dfs<'c, 'a, 'u, 'd>(cursor: &'c mut EntryCursor<'a, 'u, 'd>) -> (r: Result<Option<(isize, EntryRef<'c, 'a, 'u, 'd>)>, gimli::Error>)
    ensures
        r is Err <==> dwarf_entry_outcome(old(cursor).info@, old(cursor).little_endian@, old(cursor).unit@, old(cursor).abbrev@, old(cursor).next@) is Failed,
        r matches Ok(None) <==> dwarf_entry_outcome(old(cursor).info@, old(cursor).little_endian@, old(cursor).unit@, old(cursor).abbrev@, old(cursor).next@) is End,
        r matches Ok(Some((delta, e))) ==> {
            &&& dwarf_entry_outcome(old(cursor).info@, old(cursor).little_endian@, old(cursor).unit@, old(cursor).abbrev@, old(cursor).next@) == EntryOutcome::Entry(delta)
            &&& e.info@ == old(cursor).info@
            &&& e.little_endian@ == old(cursor).little_endian@
            &&& e.unit@ == old(cursor).unit@
            &&& e.abbrev@ == old(cursor).abbrev@
            &&& e.at@ == EntryAt::Dfs(old(cursor).next@)
        },
        final(cursor).info@ == old(cursor).info@,
        final(cursor).little_endian@ == old(cursor).little_endian@,
        final(cursor).unit@ == old(cursor).unit@,
        final(cursor).abbrev@ == old(cursor).abbrev@,
        final(cursor).next@ == old(cursor).next@ + 1,
{
    match cursor.inner.cursor.next_dfs() {
        Ok(Some((delta, entry))) => Ok(Some((delta, EntryRef {
            inner: EntryRefInner { entry },
            info: Ghost(cursor.info@),
            little_endian: Ghost(cursor.little_endian@),
            unit: Ghost(cursor.unit@),
            abbrev: Ghost(cursor.abbrev@),
            at: Ghost(EntryAt::Dfs(cursor.next@)),
        }))),
        Ok(None) => Ok(None),
        Err(e) => Err(e),
    }
}

/// Calls `DebuggingInformationEntry::tag` and gives the tag's number.
#[verifier::external_body]
fn entry_tag(entry: &EntryRef<'_, '_, '_, '_>) -> (t: u16)
    ensures
        t == dwarf_entry_tag(entry.info@, entry.little_endian@, entry.unit@, entry.abbrev@, entry.at@),
{
    entry.inner.entry.tag().0
}

/// Calls `DebuggingInformationEntry::attr_value` for the attribute numbered
/// `attr`, telling its outcomes apart: an error, no such attribute, a
/// `.debug_str` reference, a flag, or another form.
#[verifier::external_body]
fn entry_attr_value(entry: &EntryRef<'_, '_, '_, '_>, attr: u16) -> (a: AttrRead)
    ensures
        a == dwarf_entry_attr(entry.info@, entry.little_endian@, entry.unit@, entry.abbrev@, entry.at@, attr),
{
    match entry.inner.entry.attr_value(gimli::DwAt(attr)) {
        Err(_) => AttrRead::Unreadable,
        Ok(None) => AttrRead::Absent,
        Ok(Some(gimli::AttributeValue::DebugStrRef(offset))) => AttrRead::Present(AttrForm::StrRef(offset.0)),
        Ok(Some(gimli::AttributeValue::Flag(flag))) => AttrRead::Present(AttrForm::Flag(flag)),
        Ok(Some(_)) => AttrRead::Present(AttrForm::Other),
    }
}

/// Calls `DebuggingInformationEntry::offset` and gives the unit offset.
#[verifier::external_body]
fn entry_offset(entry: &EntryRef<'_, '_, '_, '_>) -> (o: usize)
    ensures
        o == dwarf_entry_offset(entry.info@, entry.little_endian@, entry.unit@, entry.abbrev@, entry.at@),
{
    entry.inner.entry.offset().0
}

/// Calls `UnitHeader::entries_tree` with the unit's own abbreviations for
/// the tree rooted at the entry at unit offset `root`.
#[verifier::external_body]
fn unit_entries_tree<'a, 'u, 'd>(unit: &'u UnitHeaderRef<'d>, table: &'a AbbrevTable, root: usize) -> (r: Result<EntryTree<'a, 'u, 'd>, gimli::Error>)
    requires
        table.info@ == unit.info@,
        table.little_endian@ == unit.little_endian@,
        table.unit@ == unit.unit@,
    ensures
        r is Ok <==> dwarf_tree_opens(unit.info@, unit.little_endian@, unit.unit@, table.abbrev@, root),
        r matches Ok(t) ==> t.info@ == unit.info@ && t.little_endian@ == unit.little_endian@ && t.unit@ == unit.unit@ && t.abbrev@ == table.abbrev@ && t.root@ == root,
{
    match unit.inner.header.entries_tree(&table.inner.abbreviations, Some(gimli::UnitOffset(root))) {
        Ok(tree) => Ok(EntryTree { inner: EntryTreeInner { tree }, info: Ghost(unit.info@), little_endian: Ghost(unit.little_endian@), unit: Ghost(unit.unit@), abbrev: Ghost(table.abbrev@), root: Ghost(root) }),
        Err(e) => Err(e),
    }
}

/// Calls `EntriesTree::root`.
#[verifier::external_body]
fn tree_root<'t, 'a, 'u, 'd>(tree: &'t mut EntryTree<'a, 'u, 'd>) -> (r: Result<TreeNode<'a, 'u, 'd, 't>, gimli::Error>)
    ensures
        r is Ok <==> dwarf_tree_root_ok(old(tree).info@, old(tree).little_endian@, old(tree).unit@, old(tree).abbrev@, old(tree).root@),
        r matches Ok(n) ==> n.info@ == old(tree).info@ && n.little_endian@ == old(tree).little_endian@ && n.unit@ == old(tree).unit@
            && n.abbrev@ == old(tree).abbrev@ && n.root@ == old(tree).root@ && n.child@ is None,
{
    match tree.inner.tree.root() {
        Ok(node) => Ok(TreeNode { inner: TreeNodeInner { node }, info: Ghost(tree.info@), little_endian: Ghost(tree.little_endian@), unit: Ghost(tree.unit@), abbrev: Ghost(tree.abbrev@), root: Ghost(tree.root@), child: Ghost(None) }),
        Err(e) => Err(e),
    }
}

/// Calls `EntriesTreeNode::children` on a tree's root: an iterator not yet
/// asked for a child.
#[verifier::external_body]
fn node_children<'a, 'u, 'd, 't>(node: TreeNode<'a, 'u, 'd, 't>) -> (c: TreeChildren<'a, 'u, 'd, 't>)
    requires
        node.child@ is None,
    ensures
        c.info@ == node.info@,
        c.little_endian@ == node.little_endian@,
        c.unit@ == node.unit@,
        c.abbrev@ == node.abbrev@,
        c.root@ == node.root@,
        c.next@ == 0,
{
    TreeChildren { inner: TreeChildrenInner { iter: node.inner.node.children() }, info: Ghost(node.info@), little_endian: Ghost(node.little_endian@), unit: Ghost(node.unit@), abbrev: Ghost(node.abbrev@), root: Ghost(node.root@), next: Ghost(0) }
}

/// Calls `EntriesTreeIter::next`: its outcome is `dwarf_child_outcome` for
/// the number of children asked for so far.
#[verifier::external_body]
fn children_next<'n, 'a, 'u, 'd, 't>(iter: &'n mut TreeChildren<'a, 'u, 'd, 't>) -> (r: Result<Option<TreeNode<'a, 'u, 'd, 'n>>, gimli::Error>)
    ensures
        r is Err <==> dwarf_child_outcome(old(iter).info@, old(iter).little_endian@, old(iter).unit@, old(iter).abbrev@, old(iter).root@, old(iter).next@) is Failed,
        r matches Ok(None) <==> dwarf_child_outcome(old(iter).info@, old(iter).little_endian@, old(iter).unit@, old(iter).abbrev@, old(iter).root@, old(iter).next@) is End,
        r matches Ok(Some(n)) ==> n.info@ == old(iter).info@ && n.little_endian@ == old(iter).little_endian@ && n.unit@ == old(iter).unit@
            && n.abbrev@ == old(iter).abbrev@ && n.root@ == old(iter).root@ && n.child@ == Some(old(iter).next@),
        final(iter).info@ == old(iter).info@,
        final(iter).little_endian@ == old(iter).little_endian@,
        final(iter).unit@ == old(iter).unit@,
        final(iter).abbrev@ == old(iter).abbrev@,
        final(iter).root@ == old(iter).root@,
        final(iter).next@ == old(iter).next@ + 1,
{
    match iter.inner.iter.next() {
        Ok(Some(node)) => Ok(Some(TreeNode { inner: TreeNodeInner { node }, info: Ghost(iter.info@), little_endian: Ghost(iter.little_endian@), unit: Ghost(iter.unit@), abbrev: Ghost(iter.abbrev@), root: Ghost(iter.root@), child: Ghost(Some(iter.next@)) })),
        Ok(None) => Ok(None),
        Err(e) => Err(e),
    }
}

/// Calls `EntriesTreeNode::entry` on a child node.
#[verifier::external_body]
fn node_entry<'x, 'a, 'u, 'd, 't>(node: &'x TreeNode<'a, 'u, 'd, 't>) -> (e: EntryRef<'x, 'a, 'u, 'd>)
    requires
        node.child@ is Some,
    ensures
        e.info@ == node.info@,
        e.little_endian@ == node.little_endian@,
        e.unit@ == node.unit@,
        e.abbrev@ == node.abbrev@,
        e.at@ == EntryAt::Child(node.root@, node.child@->0),
{
    EntryRef { inner: EntryRefInner { entry: node.inner.node.entry() }, info: Ghost(node.info@), little_endian: Ghost(node.little_endian@), unit: Ghost(node.unit@), abbrev: Ghost(node.abbrev@), at: Ghost(EntryAt::Child(node.root@, node.child@->0)) }
}

/* Read errors */

/// Why the sections or the units of an object file could not be read.
#[derive(Clone, Debug, PartialEq, Eq)]
pub enum ReadError {
    /// The data is no object file `object` can parse; the text is its error.
    ObjectParse(String),
    /// The object file has no section of this name.
    MissingSection(String),
    /// The contents of the named section could not be read.
    SectionData(String),
    /// A unit header of `.debug_info` could not be parsed.
    UnitHeader,
    /// The abbreviations of a unit could not be parsed.
    Abbreviations,
    /// An entry of a unit could not be parsed.
    Entries,
    /// More units, entries or children of an entry than `.debug_info` has
    /// bytes: each of them takes at least one byte, so this does not happen
    /// with gimli.
    TooManyItems,
}

/// A read error with its texts as character sequences.
pub enum ReadFailure {
    ObjectParse(Seq<char>),
    MissingSection(Seq<char>),
    SectionData(Seq<char>),
    UnitHeader,
    Abbreviations,
    Entries,
    TooManyItems,
}

impl View for ReadError {
    type V = ReadFailure;

    open spec fn view(&self) -> ReadFailure {
        match self {
            ReadError::ObjectParse(t) => ReadFailure::ObjectParse(t@),
            ReadError::MissingSection(n) => ReadFailure::MissingSection(n@),
            ReadError::SectionData(n) => ReadFailure::SectionData(n@),
            ReadError::UnitHeader => ReadFailure::UnitHeader,
            ReadError::Abbreviations => ReadFailure::Abbreviations,
            ReadError::Entries => ReadFailure::Entries,
            ReadError::TooManyItems => ReadFailure::TooManyItems,
        }
    }
}

/// The text that reports a read error.
pub open spec fn read_failure_text(e: ReadFailure) -> Seq<char> {
    match e {
        ReadFailure::ObjectParse(t) => "Failed to parse ELF file: "@ + t,
        ReadFailure::MissingSection(n) => "Missing section "@ + n,
        ReadFailure::SectionData(n) => "Unreadable section "@ + n,
        ReadFailure::UnitHeader => "Unreadable unit header in .debug_info"@,
        ReadFailure::Abbreviations => "Unreadable abbreviations of a unit"@,
        ReadFailure::Entries => "Unreadable entry in .debug_info"@,
        ReadFailure::TooManyItems => "More entries than bytes in .debug_info"@,
    }
}

impl ReadError {
    /// Describes the error.
    pub fn message(&self) -> (m: String)
        ensures
            m@ == read_failure_text(self@),
    {
        match self {
            ReadError::ObjectParse(t) => "Failed to parse ELF file: ".to_owned().concat(t.as_str()),
            ReadError::MissingSection(n) => "Missing section ".to_owned().concat(n.as_str()),
            ReadError::SectionData(n) => "Unreadable section ".to_owned().concat(n.as_str()),
            ReadError::UnitHeader => "Unreadable unit header in .debug_info".to_owned(),
            ReadError::Abbreviations => "Unreadable abbreviations of a unit".to_owned(),
            ReadError::Entries => "Unreadable entry in .debug_info".to_owned(),
            ReadError::TooManyItems => "More entries than bytes in .debug_info".to_owned(),
        }
    }
}

/* Sections */

/// The sections that the selection of entry points reads, and the byte
/// order of the object file.
pub struct DebugSections<'d> {
    pub info: &'d [u8],
    pub abbrev: &'d [u8],
    pub strs: &'d [u8],
    pub little_endian: bool,
}

/// The `.debug_info`, `.debug_abbrev` and `.debug_str` bytes and the byte
/// order of a file.
pub struct SectionsView {
    pub info: Seq<u8>,
    pub abbrev: Seq<u8>,
    pub strs: Seq<u8>,
    pub little_endian: bool,
}

impl<'d> View for DebugSections<'d> {
    type V = SectionsView;

    open spec fn view(&self) -> SectionsView {
        SectionsView { info: self.info@, abbrev: self.abbrev@, strs: self.strs@, little_endian: self.little_endian }
    }
}

/// The contents of the section named `name` of the file in `data`.
pub open spec fn section_spec(data: Seq<u8>, name: Seq<char>) -> Result<Seq<u8>, ReadFailure> {
    if !object_has_section(data, name) {
        Err(ReadFailure::MissingSection(name))
    } else {
        match object_section_contents(data, name) {
            Some(b) => Ok(b),
            None => Err(ReadFailure::SectionData(name)),
        }
    }
}

/// The debugging sections of the file in `data`: a parse failure gives
/// object's error text; then `.debug_info`, `.debug_abbrev` and
/// `.debug_str` are taken in that order.
pub open spec fn debug_sections_spec(data: Seq<u8>) -> Result<SectionsView, ReadFailure> {
    if !object_parses(data) {
        Err(ReadFailure::ObjectParse(object_parse_error_text(data)))
    } else {
        match section_spec(data, ".debug_info"@) {
            Err(e) => Err(e),
            Ok(info) => match section_spec(data, ".debug_abbrev"@) {
                Err(e) => Err(e),
                Ok(abbrev) => match section_spec(data, ".debug_str"@) {
                    Err(e) => Err(e),
                    Ok(strs) => Ok(SectionsView { info, abbrev, strs, little_endian: object_little_endian(data) }),
                },
            },
        }
    }
}

/// Loading succeeds exactly when object parses the bytes and finds the
/// three debugging sections with readable contents; the sections are then
/// those contents, and the byte order is the one object reports for the
/// file, which is the order gimli reads the units in.
pub proof fn law_sections_follow_the_file(data: Seq<u8>)
    ensures
        debug_sections_spec(data) is Ok <==> {
            &&& object_parses(data)
            &&& object_has_section(data, ".debug_info"@) && object_section_contents(data, ".debug_info"@) is Some
            &&& object_has_section(data, ".debug_abbrev"@) && object_section_contents(data, ".debug_abbrev"@) is Some
            &&& object_has_section(data, ".debug_str"@) && object_section_contents(data, ".debug_str"@) is Some
        },
        debug_sections_spec(data) matches Ok(s) ==> {
            &&& s.little_endian == object_little_endian(data)
            &&& Some(s.info) == object_section_contents(data, ".debug_info"@)
            &&& Some(s.abbrev) == object_section_contents(data, ".debug_abbrev"@)
            &&& Some(s.strs) == object_section_contents(data, ".debug_str"@)
        },
{
}

/// The contents of the section named `name`; a failure names that section.
fn section_named<'d>(file: &ObjectFile<'d>, name: &str) -> (r: Result<&'d [u8], ReadError>)
    ensures
        match r {
            Ok(d) => section_spec(file.data@, name@) == Ok::<Seq<u8>, ReadFailure>(d@),
            Err(e) => section_spec(file.data@, name@) == Err::<Seq<u8>, ReadFailure>(e@),
        },
{
    match object_section_by_name(file, name) {
        None => Err(ReadError::MissingSection(name.to_owned())),
        Some(section) => match object_section_data(&section) {
            Ok(data) => Ok(data),
            Err(_) => Err(ReadError::SectionData(name.to_owned())),
        },
    }
}

/// Parses `data` as an object file and takes its `.debug_info`,
/// `.debug_abbrev` and `.debug_str` sections and its byte order.
pub fn load_debug_sections<'d>(data: &'d [u8]) -> (r: Result<DebugSections<'d>, ReadError>)
    ensures
        match r {
            Ok(s) => debug_sections_spec(data@) == Ok::<SectionsView, ReadFailure>(s@),
            Err(e) => debug_sections_spec(data@) == Err::<SectionsView, ReadFailure>(e@),
        },
{
    let file = match parse_object_file(data) {
        Ok(file) => file,
        Err(e) => { return Err(ReadError::ObjectParse(object_error_text(&e))); },
    };
    let little_endian = object_is_little_endian(&file);
    let info = section_named(&file, ".debug_info")?;
    let abbrev = section_named(&file, ".debug_abbrev")?;
    let strs = section_named(&file, ".debug_str")?;
    Ok(DebugSections { info, abbrev, strs, little_endian })
}

/* Units */

/// `done` followed by what `rest` gives.
pub open spec fn after<T>(done: Seq<T>, rest: Result<Seq<T>, ReadFailure>) -> Result<Seq<T>, ReadFailure> {
    match rest {
        Ok(r) => Ok(done + r),
        Err(e) => Err(e),
    }
}

/// `done` followed by what `rest` gives, when it gives anything.
pub open spec fn after_some<T>(done: Seq<T>, rest: Option<Seq<T>>) -> Option<Seq<T>> {
    match rest {
        Some(r) => Some(done + r),
        None => None,
    }
}

/// The children of the tree rooted at unit offset `root` of the `k`-th unit,
/// from the `c`-th call of the child iterator on, of which at most `fuel`
/// are read. `None` when they cannot be read.
pub open spec fn children_from(info: Seq<u8>, abbrev: Seq<u8>, little_endian: bool, k: nat, root: usize, c: nat, fuel: nat) -> Option<Seq<ChildRecord>>
    decreases fuel,
{
    match dwarf_child_outcome(info, little_endian, k, abbrev, root, c) {
        ChildOutcome::Failed => None,
        ChildOutcome::End => Some(Seq::empty()),
        ChildOutcome::Child => if fuel == 0 {
            None
        } else {
            let at = EntryAt::Child(root, c);
            let record = ChildRecord {
                tag: dwarf_entry_tag(info, little_endian, k, abbrev, at),
                name: dwarf_entry_attr(info, little_endian, k, abbrev, at, DW_AT_NAME),
                external: dwarf_entry_attr(info, little_endian, k, abbrev, at, DW_AT_EXTERNAL),
            };
            after_some(seq![record], children_from(info, abbrev, little_endian, k, root, c + 1, (fuel - 1) as nat))
        },
    }
}

/// The children of the entry at unit offset `root`, as gimli's entry tree
/// rooted there lists them.
pub open spec fn tree_children(info: Seq<u8>, abbrev: Seq<u8>, little_endian: bool, k: nat, root: usize, limit: nat) -> ChildrenView {
    if !dwarf_tree_opens(info, little_endian, k, abbrev, root) || !dwarf_tree_root_ok(info, little_endian, k, abbrev, root) {
        ChildrenView::Unreadable
    } else {
        match children_from(info, abbrev, little_endian, k, root, 0, limit) {
            Some(cs) => ChildrenView::Entries(cs),
            None => ChildrenView::Unreadable,
        }
    }
}

/// The records of the entries of the `k`-th unit, from the `j`-th call of
/// its cursor on, of which at most `fuel` are read; a namespace has at most
/// `limit` children.
pub open spec fn entries_from(info: Seq<u8>, abbrev: Seq<u8>, little_endian: bool, k: nat, j: nat, fuel: nat, limit: nat) -> Result<Seq<DieView>, ReadFailure>
    decreases fuel,
{
    match dwarf_entry_outcome(info, little_endian, k, abbrev, j) {
        EntryOutcome::Failed => Err(ReadFailure::Entries),
        EntryOutcome::End => Ok(Seq::empty()),
        EntryOutcome::Entry(_) => if fuel == 0 {
            Err(ReadFailure::TooManyItems)
        } else {
            let at = EntryAt::Dfs(j);
            let tag = dwarf_entry_tag(info, little_endian, k, abbrev, at);
            let record = DieView {
                tag,
                name: dwarf_entry_attr(info, little_endian, k, abbrev, at, DW_AT_NAME),
                children: if tag == DW_TAG_NAMESPACE {
                    tree_children(info, abbrev, little_endian, k, dwarf_entry_offset(info, little_endian, k, abbrev, at), limit)
                } else {
                    ChildrenView::NotRead
                },
            };
            after(seq![record], entries_from(info, abbrev, little_endian, k, j + 1, (fuel - 1) as nat, limit))
        },
    }
}

/// The records of the units of `.debug_info` from the `k`-th header on, of
/// which at most `fuel` are read; each unit holds at most `limit` entries.
pub open spec fn units_from(info: Seq<u8>, abbrev: Seq<u8>, little_endian: bool, k: nat, fuel: nat, limit: nat) -> Result<Seq<Seq<DieView>>, ReadFailure>
    decreases fuel,
{
    match dwarf_unit_outcome(info, little_endian, k) {
        UnitOutcome::Failed => Err(ReadFailure::UnitHeader),
        UnitOutcome::End => Ok(Seq::empty()),
        UnitOutcome::Header => if !dwarf_abbreviations_ok(info, little_endian, k, abbrev) {
            Err(ReadFailure::Abbreviations)
        } else {
            match entries_from(info, abbrev, little_endian, k, 0, limit, limit) {
                Err(e) => Err(e),
                Ok(records) => if fuel == 0 {
                    Err(ReadFailure::TooManyItems)
                } else {
                    after(seq![records], units_from(info, abbrev, little_endian, k + 1, (fuel - 1) as nat, limit))
                },
            }
        },
    }
}

/// The records of all units of `.debug_info`, as gimli reads them.
pub open spec fn dwarf_units_spec(info: Seq<u8>, abbrev: Seq<u8>, little_endian: bool) -> Result<Seq<Seq<DieView>>, ReadFailure> {
    units_from(info, abbrev, little_endian, 0, info.len(), info.len())
}

/// The record of the `c`-th child that the entry tree rooted at unit offset
/// `root` of the `k`-th unit yields: its tag and its name and external
/// attributes.
pub open spec fn tree_child_at(info: Seq<u8>, abbrev: Seq<u8>, little_endian: bool, k: nat, root: usize, c: nat) -> ChildRecord {
    ChildRecord {
        tag: dwarf_entry_tag(info, little_endian, k, abbrev, EntryAt::Child(root, c)),
        name: dwarf_entry_attr(info, little_endian, k, abbrev, EntryAt::Child(root, c), DW_AT_NAME),
        external: dwarf_entry_attr(info, little_endian, k, abbrev, EntryAt::Child(root, c), DW_AT_EXTERNAL),
    }
}

/// Whether the child iterator of that tree yields a child on each of the
/// calls `c` to `c + n - 1` and then reports the end.
pub open spec fn yields_children(info: Seq<u8>, abbrev: Seq<u8>, little_endian: bool, k: nat, root: usize, c: nat, n: nat) -> bool {
    &&& forall|j: nat| c <= j < c + n ==> #[trigger] dwarf_child_outcome(info, little_endian, k, abbrev, root, j) is Child
    &&& dwarf_child_outcome(info, little_endian, k, abbrev, root, c + n) is End
}

/// Every child that the iterator yields before its end is listed, in the
/// order it came, whatever its tag: `n` children give `n` records, the
/// `i`-th being the `(c + i)`-th child.
pub proof fn law_children_are_all_listed(info: Seq<u8>, abbrev: Seq<u8>, little_endian: bool, k: nat, root: usize, c: nat, n: nat, fuel: nat)
    requires
        yields_children(info, abbrev, little_endian, k, root, c, n),
        n <= fuel,
    ensures
        children_from(info, abbrev, little_endian, k, root, c, fuel)
            == Some(Seq::new(n, |i: int| tree_child_at(info, abbrev, little_endian, k, root, (c + i) as nat))),
    decreases n,
{
    if n == 0 {
        assert(Seq::new(0, |i: int| tree_child_at(info, abbrev, little_endian, k, root, (c + i) as nat)) =~= Seq::<ChildRecord>::empty());
    } else {
        assert(dwarf_child_outcome(info, little_endian, k, abbrev, root, c) is Child);
        assert forall|j: nat| c + 1 <= j < (c + 1) + (n - 1) implies #[trigger] dwarf_child_outcome(info, little_endian, k, abbrev, root, j) is Child by {}
        assert((c + 1) + (n - 1) as nat == c + n);
        law_children_are_all_listed(info, abbrev, little_endian, k, root, c + 1, (n - 1) as nat, (fuel - 1) as nat);
        let rest = Seq::new((n - 1) as nat, |i: int| tree_child_at(info, abbrev, little_endian, k, root, (c + 1 + i) as nat));
        let all = Seq::new(n, |i: int| tree_child_at(info, abbrev, little_endian, k, root, (c + i) as nat));
        assert(seq![tree_child_at(info, abbrev, little_endian, k, root, c)] + rest =~= all);
    }
}

/// A namespace whose entry tree opens and yields `n` children, no more than
/// the limit, has exactly those `n` children, in their order and whatever
/// their tags.
pub proof fn law_namespace_children_are_the_tree_children(info: Seq<u8>, abbrev: Seq<u8>, little_endian: bool, k: nat, root: usize, n: nat, limit: nat)
    requires
        dwarf_tree_opens(info, little_endian, k, abbrev, root),
        dwarf_tree_root_ok(info, little_endian, k, abbrev, root),
        yields_children(info, abbrev, little_endian, k, root, 0, n),
        n <= limit,
    ensures
        tree_children(info, abbrev, little_endian, k, root, limit)
            == ChildrenView::Entries(Seq::new(n, |i: int| tree_child_at(info, abbrev, little_endian, k, root, i as nat))),
{
    law_children_are_all_listed(info, abbrev, little_endian, k, root, 0, n, limit);
    assert(Seq::new(n, |i: int| tree_child_at(info, abbrev, little_endian, k, root, (0 + i) as nat))
        =~= Seq::new(n, |i: int| tree_child_at(info, abbrev, little_endian, k, root, i as nat)));
}

/// The record of the `j`-th entry that the depth-first cursor over the
/// `k`-th unit yields: its tag, its name attribute, and for a namespace the
/// children its entry tree lists.
pub open spec fn dfs_entry_at(info: Seq<u8>, abbrev: Seq<u8>, little_endian: bool, k: nat, j: nat, limit: nat) -> DieView {
    let at = EntryAt::Dfs(j);
    DieView {
        tag: dwarf_entry_tag(info, little_endian, k, abbrev, at),
        name: dwarf_entry_attr(info, little_endian, k, abbrev, at, DW_AT_NAME),
        children: if dwarf_entry_tag(info, little_endian, k, abbrev, at) == DW_TAG_NAMESPACE {
            tree_children(info, abbrev, little_endian, k, dwarf_entry_offset(info, little_endian, k, abbrev, at), limit)
        } else {
            ChildrenView::NotRead
        },
    }
}

/// Whether the depth-first cursor over the `k`-th unit yields an entry on
/// each of the calls `j` to `j + n - 1` and then reports the end.
pub open spec fn yields_entries(info: Seq<u8>, abbrev: Seq<u8>, little_endian: bool, k: nat, j: nat, n: nat) -> bool {
    &&& forall|i: nat| j <= i < j + n ==> #[trigger] dwarf_entry_outcome(info, little_endian, k, abbrev, i) is Entry
    &&& dwarf_entry_outcome(info, little_endian, k, abbrev, j + n) is End
}

/// Every entry that the cursor yields before its end is recorded, in order,
/// whatever its tag: `n` entries give `n` records.
pub proof fn law_entries_are_all_recorded(info: Seq<u8>, abbrev: Seq<u8>, little_endian: bool, k: nat, j: nat, n: nat, fuel: nat, limit: nat)
    requires
        yields_entries(info, abbrev, little_endian, k, j, n),
        n <= fuel,
    ensures
        entries_from(info, abbrev, little_endian, k, j, fuel, limit)
            == Ok::<Seq<DieView>, ReadFailure>(Seq::new(n, |i: int| dfs_entry_at(info, abbrev, little_endian, k, (j + i) as nat, limit))),
    decreases n,
{
    if n == 0 {
        assert(Seq::new(0, |i: int| dfs_entry_at(info, abbrev, little_endian, k, (j + i) as nat, limit)) =~= Seq::<DieView>::empty());
    } else {
        assert(dwarf_entry_outcome(info, little_endian, k, abbrev, j) is Entry);
        assert forall|i: nat| j + 1 <= i < (j + 1) + (n - 1) implies #[trigger] dwarf_entry_outcome(info, little_endian, k, abbrev, i) is Entry by {}
        assert((j + 1) + (n - 1) as nat == j + n);
        law_entries_are_all_recorded(info, abbrev, little_endian, k, j + 1, (n - 1) as nat, (fuel - 1) as nat, limit);
        let rest = Seq::new((n - 1) as nat, |i: int| dfs_entry_at(info, abbrev, little_endian, k, (j + 1 + i) as nat, limit));
        let all = Seq::new(n, |i: int| dfs_entry_at(info, abbrev, little_endian, k, (j + i) as nat, limit));
        assert(seq![dfs_entry_at(info, abbrev, little_endian, k, j, limit)] + rest =~= all);
    }
}

/// Whether gimli yields a readable unit on each of the header calls `k` to
/// `k + n - 1` (its header, its abbreviations and its entries all read) and
/// then reports the end of `.debug_info`.
pub open spec fn yields_units(info: Seq<u8>, abbrev: Seq<u8>, little_endian: bool, k: nat, n: nat, limit: nat) -> bool {
    &&& forall|u: nat| k <= u < k + n ==> {
        &&& #[trigger] dwarf_unit_outcome(info, little_endian, u) is Header
        &&& dwarf_abbreviations_ok(info, little_endian, u, abbrev)
        &&& entries_from(info, abbrev, little_endian, u, 0, limit, limit) is Ok
    }
    &&& dwarf_unit_outcome(info, little_endian, k + n) is End
}

/// Every unit that gimli yields before the end of `.debug_info` is read, in
/// order: `n` units give `n` entry lists, the `i`-th being that of the
/// `(k + i)`-th unit.
pub proof fn law_units_are_all_read(info: Seq<u8>, abbrev: Seq<u8>, little_endian: bool, k: nat, n: nat, fuel: nat, limit: nat)
    requires
        yields_units(info, abbrev, little_endian, k, n, limit),
        n <= fuel,
    ensures
        units_from(info, abbrev, little_endian, k, fuel, limit)
            == Ok::<Seq<Seq<DieView>>, ReadFailure>(Seq::new(n, |i: int| entries_from(info, abbrev, little_endian, (k + i) as nat, 0, limit, limit)->Ok_0)),
    decreases n,
{
    if n == 0 {
        assert(Seq::new(0, |i: int| entries_from(info, abbrev, little_endian, (k + i) as nat, 0, limit, limit)->Ok_0) =~= Seq::<Seq<DieView>>::empty());
    } else {
        assert(dwarf_unit_outcome(info, little_endian, k) is Header);
        assert forall|u: nat| k + 1 <= u < (k + 1) + (n - 1) implies {
            &&& #[trigger] dwarf_unit_outcome(info, little_endian, u) is Header
            &&& dwarf_abbreviations_ok(info, little_endian, u, abbrev)
            &&& entries_from(info, abbrev, little_endian, u, 0, limit, limit) is Ok
        } by {
            assert(dwarf_unit_outcome(info, little_endian, u) is Header);
        }
        assert((k + 1) + (n - 1) as nat == k + n);
        law_units_are_all_read(info, abbrev, little_endian, k + 1, (n - 1) as nat, (fuel - 1) as nat, limit);
        let rest = Seq::new((n - 1) as nat, |i: int| entries_from(info, abbrev, little_endian, (k + 1 + i) as nat, 0, limit, limit)->Ok_0);
        let all = Seq::new(n, |i: int| entries_from(info, abbrev, little_endian, (k + i) as nat, 0, limit, limit)->Ok_0);
        assert(seq![entries_from(info, abbrev, little_endian, k, 0, limit, limit)->Ok_0] + rest =~= all);
    }
}

/// Reads the children of the entry at unit offset `root` through gimli's
/// entry tree rooted there.
fn read_tree_children(unit: &UnitHeaderRef<'_>, table: &AbbrevTable, root: usize, limit: usize) -> (r: ChildList)
    requires
        table.info@ == unit.info@,
        table.little_endian@ == unit.little_endian@,
        table.unit@ == unit.unit@,
    ensures
        r@ == tree_children(unit.info@, table.abbrev@, unit.little_endian@, unit.unit@, root, limit as nat),
{
    let ghost info = unit.info@;
    let ghost abbrev = table.abbrev@;
    let ghost le = unit.little_endian@;
    let ghost k = unit.unit@;
    let mut tree = match unit_entries_tree(unit, table, root) {
        Ok(t) => t,
        Err(_) => { return ChildList::Unreadable; },
    };
    let node = match tree_root(&mut tree) {
        Ok(n) => n,
        Err(_) => { return ChildList::Unreadable; },
    };
    let mut iter = node_children(node);
    let ghost whole = children_from(info, abbrev, le, k, root, 0, limit as nat);
    let mut records: Vec<ChildRecord> = Vec::new();
    let mut fuel: usize = limit;
    assert(records@ + Seq::<ChildRecord>::empty() =~= records@);
    loop
        invariant
            iter.info@ == info,
            iter.abbrev@ == abbrev,
            iter.little_endian@ == le,
            iter.unit@ == k,
            iter.root@ == root,
            dwarf_tree_opens(info, le, k, abbrev, root),
            dwarf_tree_root_ok(info, le, k, abbrev, root),
            info == unit.info@,
            abbrev == table.abbrev@,
            le == unit.little_endian@,
            k == unit.unit@,
            whole == children_from(info, abbrev, le, k, root, 0, limit as nat),
            whole == after_some(records@, children_from(info, abbrev, le, k, root, iter.next@, fuel as nat)),
        decreases fuel,
    {
        let ghost c = iter.next@;
        let ghost done = records@;
        match children_next(&mut iter) {
            Err(_) => { return ChildList::Unreadable; },
            Ok(None) => {
                assert(done + Seq::<ChildRecord>::empty() =~= done);
                return ChildList::Entries(records);
            },
            Ok(Some(node)) => {
                if fuel == 0 {
                    return ChildList::Unreadable;
                }
                let entry = node_entry(&node);
                let tag = entry_tag(&entry);
                let name = entry_attr_value(&entry, DW_AT_NAME);
                let external = entry_attr_value(&entry, DW_AT_EXTERNAL);
                let record = ChildRecord { tag, name, external };
                records.push(record);
                proof {
                    let rest = children_from(info, abbrev, le, k, root, c + 1, (fuel - 1) as nat);
                    match rest {
                        Some(r) => { assert(done + (seq![record] + r) =~= records@ + r); },
                        None => {},
                    }
                }
            },
        }
        fuel = fuel - 1;
    }
}

/// Reads the entries of one unit in depth-first order, with the children
/// of each namespace entry as its entry tree lists them.
fn read_unit_entries(unit: &UnitHeaderRef<'_>, table: &AbbrevTable, limit: usize) -> (r: Result<Vec<DieRecord>, ReadError>)
    requires
        table.info@ == unit.info@,
        table.little_endian@ == unit.little_endian@,
        table.unit@ == unit.unit@,
    ensures
        match r {
            Ok(records) => entries_from(unit.info@, table.abbrev@, unit.little_endian@, unit.unit@, 0, limit as nat, limit as nat) == Ok::<Seq<DieView>, ReadFailure>(unit_view(records@)),
            Err(e) => entries_from(unit.info@, table.abbrev@, unit.little_endian@, unit.unit@, 0, limit as nat, limit as nat) == Err::<Seq<DieView>, ReadFailure>(e@),
        },
{
    let ghost info = unit.info@;
    let ghost abbrev = table.abbrev@;
    let ghost le = unit.little_endian@;
    let ghost k = unit.unit@;
    let ghost whole = entries_from(info, abbrev, le, k, 0, limit as nat, limit as nat);
    let mut cursor = unit_entries(unit, table);
    let mut records: Vec<DieRecord> = Vec::new();
    let mut fuel: usize = limit;
    assert(unit_view(records@) + Seq::<DieView>::empty() =~= unit_view(records@));
    loop
        invariant
            cursor.info@ == info,
            cursor.abbrev@ == abbrev,
            cursor.little_endian@ == le,
            cursor.unit@ == k,
            info == unit.info@,
            abbrev == table.abbrev@,
            le == unit.little_endian@,
            k == unit.unit@,
            table.info@ == unit.info@,
            table.little_endian@ == unit.little_endian@,
            table.unit@ == unit.unit@,
            whole == entries_from(info, abbrev, le, k, 0, limit as nat, limit as nat),
            whole == after(unit_view(records@), entries_from(info, abbrev, le, k, cursor.next@, fuel as nat, limit as nat)),
        decreases fuel,
    {
        let ghost j = cursor.next@;
        let ghost done = unit_view(records@);
        match cursor_next_dfs(&mut cursor) {
            Err(_) => { return Err(ReadError::Entries); },
            Ok(None) => {
                assert(done + Seq::<DieView>::empty() =~= done);
                return Ok(records);
            },
            Ok(Some((_, entry))) => {
                if fuel == 0 {
                    return Err(ReadError::TooManyItems);
                }
                let tag = entry_tag(&entry);
                let name = entry_attr_value(&entry, DW_AT_NAME);
                let children = if tag == DW_TAG_NAMESPACE {
                    let root = entry_offset(&entry);
                    read_tree_children(unit, table, root, limit)
                } else {
                    ChildList::NotRead
                };
                let record = DieRecord { tag, name, children };
                let ghost rv = record@;
                records.push(record);
                proof {
                    assert(unit_view(records@) =~= done.push(rv));
                    let rest = entries_from(info, abbrev, le, k, j + 1, (fuel - 1) as nat, limit as nat);
                    match rest {
                        Ok(r) => { assert(done + (seq![rv] + r) =~= unit_view(records@) + r); },
                        Err(_) => {},
                    }
                }
            },
        }
        fuel = fuel - 1;
    }
}

/// Reads every unit of `.debug_info` into records of its entries, in the
/// order of the section.
pub fn read_debug_units(sections: &DebugSections<'_>) -> (r: Result<Vec<Vec<DieRecord>>, ReadError>)
    ensures
        match r {
            Ok(units) => dwarf_units_spec(sections.info@, sections.abbrev@, sections.little_endian) == Ok::<Seq<Seq<DieView>>, ReadFailure>(units_view(units@)),
            Err(e) => dwarf_units_spec(sections.info@, sections.abbrev@, sections.little_endian) == Err::<Seq<Seq<DieView>>, ReadFailure>(e@),
        },
{
    let ghost info = sections.info@;
    let ghost abbrev_bytes = sections.abbrev@;
    let ghost le = sections.little_endian;
    let info_section = debug_info_new(sections.info, sections.little_endian);
    let abbrev = debug_abbrev_new(sections.abbrev, sections.little_endian);
    let mut headers = debug_info_units(&info_section);
    let limit = sections.info.len();
    let ghost whole = dwarf_units_spec(info, abbrev_bytes, le);
    let mut units: Vec<Vec<DieRecord>> = Vec::new();
    let mut fuel: usize = limit;
    assert(units_view(units@) + Seq::<Seq<DieView>>::empty() =~= units_view(units@));
    loop
        invariant
            headers.info@ == info,
            headers.little_endian@ == le,
            abbrev.bytes@ == abbrev_bytes,
            abbrev.little_endian@ == le,
            limit == info.len(),
            info == sections.info@,
            abbrev_bytes == sections.abbrev@,
            le == sections.little_endian,
            whole == dwarf_units_spec(info, abbrev_bytes, le),
            whole == after(units_view(units@), units_from(info, abbrev_bytes, le, headers.next@, fuel as nat, limit as nat)),
        decreases fuel,
    {
        let ghost k = headers.next@;
        let ghost done = units_view(units@);
        match unit_headers_next(&mut headers) {
            Err(_) => { return Err(ReadError::UnitHeader); },
            Ok(None) => {
                assert(done + Seq::<Seq<DieView>>::empty() =~= done);
                return Ok(units);
            },
            Ok(Some(unit)) => {
                let table = match unit_abbreviations(&unit, &abbrev) {
                    Ok(t) => t,
                    Err(_) => { return Err(ReadError::Abbreviations); },
                };
                let records = read_unit_entries(&unit, &table, limit)?;
                if fuel == 0 {
                    return Err(ReadError::TooManyItems);
                }
                let ghost rv = unit_view(records@);
                units.push(records);
                proof {
                    assert(units_view(units@) =~= done.push(rv));
                    let rest = units_from(info, abbrev_bytes, le, k + 1, (fuel - 1) as nat, limit as nat);
                    match rest {
                        Ok(r) => { assert(done + (seq![rv] + r) =~= units_view(units@) + r); },
                        Err(_) => {},
                    }
                }
            },
        }
        fuel = fuel - 1;
    }
}

} // verus!

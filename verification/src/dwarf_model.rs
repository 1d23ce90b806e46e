//! The debugging-information entries of a compilation unit, held as plain
//! values, and the rule that picks the exported functions of a namespace
//! out of them.
use vstd::prelude::*;
use vstd::utf8::{decode_utf8, valid_utf8};
use crate::debug_str::{str_at, debug_str_get};
use crate::text::{utf8_lossy, lossy_string};

verus! {

/// DWARF tag of a namespace entry.
pub const DW_TAG_NAMESPACE: u16 = 0x39;
/// DWARF tag of a subprogram (function) entry.
pub const DW_TAG_SUBPROGRAM: u16 = 0x2e;
/// DWARF attribute holding an entry's name.
pub const DW_AT_NAME: u16 = 0x03;
/// DWARF attribute that marks an entry as visible outside its unit.
pub const DW_AT_EXTERNAL: u16 = 0x3f;

/// What an attribute of an entry holds, as far as the selection reads it.
#[derive(Clone, Copy, Debug, PartialEq, Eq)]
pub enum AttrForm {
    /// An offset into `.debug_str`.
    StrRef(usize),
    /// A flag.
    Flag(bool),
    /// Any other form.
    Other,
}

/// The outcome of reading one attribute of an entry.
#[derive(Clone, Copy, Debug, PartialEq, Eq)]
pub enum AttrRead {
    Absent,
    Present(AttrForm),
    /// The attribute list of the entry could not be parsed.
    Unreadable,
}

/// A child of a namespace entry, as the entry tree lists it: its tag and
/// its name and external attributes.
#[derive(Clone, Copy, Debug, PartialEq, Eq)]
pub struct ChildRecord {
    pub tag: u16,
    pub name: AttrRead,
    pub external: AttrRead,
}

/// The children of an entry.
#[derive(Clone, Debug, PartialEq, Eq)]
pub enum ChildList {
    /// Not read: the entry is no namespace.
    NotRead,
    /// The entry tree below the entry could not be read.
    Unreadable,
    /// The children in their order.
    Entries(Vec<ChildRecord>),
}

/// One entry of a unit, in depth-first order: its tag, its name attribute,
/// and, for a namespace, its children.
#[derive(Clone, Debug, PartialEq, Eq)]
pub struct DieRecord {
    pub tag: u16,
    pub name: AttrRead,
    pub children: ChildList,
}

pub enum ChildrenView {
    NotRead,
    Unreadable,
    Entries(Seq<ChildRecord>),
}

pub struct DieView {
    pub tag: u16,
    pub name: AttrRead,
    pub children: ChildrenView,
}

impl View for ChildList {
    type V = ChildrenView;

    open spec fn view(&self) -> ChildrenView {
        match self {
            ChildList::NotRead => ChildrenView::NotRead,
            ChildList::Unreadable => ChildrenView::Unreadable,
            ChildList::Entries(v) => ChildrenView::Entries(v@),
        }
    }
}

impl View for DieRecord {
    type V = DieView;

    open spec fn view(&self) -> DieView {
        DieView { tag: self.tag, name: self.name, children: self.children@ }
    }
}

/// Why the selection could not be completed.
#[derive(Clone, Copy, Debug, PartialEq, Eq)]
pub enum ScanError {
    /// The name attribute of an entry that had to be read could not be parsed.
    NameUnreadable,
    /// A name's offset does not lead to a terminated string of `.debug_str`.
    StringLookupFailed,
    /// A namespace's name is not UTF-8.
    NamespaceNotUtf8,
    /// The children of a namespace that had to be read could not be read.
    ChildrenUnreadable,
}

pub type Names = Seq<Seq<char>>;

/// Sequencing of two partial results: the first error wins.
pub open spec fn chain(a: Result<Names, ScanError>, b: Result<Names, ScanError>) -> Result<Names, ScanError> {
    match a {
        Err(e) => Err(e),
        Ok(x) => match b {
            Err(e) => Err(e),
            Ok(y) => Ok(x + y),
        },
    }
}

/// Whether entry `d` is a namespace named `ns`.
pub open spec fn namespace_step(d: DieView, strs: Seq<u8>, ns: Seq<char>) -> Result<bool, ScanError> {
    if d.tag != DW_TAG_NAMESPACE {
        Ok(false)
    } else {
        match d.name {
            AttrRead::Unreadable => Err(ScanError::NameUnreadable),
            AttrRead::Present(AttrForm::StrRef(off)) => match str_at(strs, off as int) {
                None => Err(ScanError::StringLookupFailed),
                Some(b) => if valid_utf8(b) {
                    Ok(decode_utf8(b) == ns)
                } else {
                    Err(ScanError::NamespaceNotUtf8)
                },
            },
            _ => Ok(false),
        }
    }
}

/// A subprogram entry whose external flag is set.
pub open spec fn is_exported_subprogram(c: ChildRecord) -> bool {
    c.tag == DW_TAG_SUBPROGRAM && c.external == AttrRead::Present(AttrForm::Flag(true))
}

/// The name that child `c` contributes: the text of its `.debug_str` name
/// when it is an exported subprogram named through `.debug_str`.
pub open spec fn child_step(c: ChildRecord, strs: Seq<u8>) -> Result<Names, ScanError> {
    if is_exported_subprogram(c) {
        match c.name {
            AttrRead::Unreadable => Err(ScanError::NameUnreadable),
            AttrRead::Present(AttrForm::StrRef(off)) => match str_at(strs, off as int) {
                None => Err(ScanError::StringLookupFailed),
                Some(b) => Ok(seq![utf8_lossy(b)]),
            },
            _ => Ok(Seq::empty()),
        }
    } else {
        Ok(Seq::empty())
    }
}

/// The names contributed by the first `n` children.
pub open spec fn children_upto(cs: Seq<ChildRecord>, strs: Seq<u8>, n: int) -> Result<Names, ScanError>
    decreases n,
{
    if n <= 0 {
        Ok(Seq::empty())
    } else {
        chain(children_upto(cs, strs, n - 1), child_step(cs[n - 1], strs))
    }
}

/// The exported functions among the children of entry `d`.
pub open spec fn children_of(d: DieView, strs: Seq<u8>) -> Result<Names, ScanError> {
    match d.children {
        ChildrenView::NotRead => Ok(Seq::empty()),
        ChildrenView::Unreadable => Err(ScanError::ChildrenUnreadable),
        ChildrenView::Entries(cs) => children_upto(cs, strs, cs.len() as int),
    }
}

/// What entry `d` contributes: the children of a namespace named `ns`, and
/// nothing for any other entry.
pub open spec fn entry_step(d: DieView, strs: Seq<u8>, ns: Seq<char>) -> Result<Names, ScanError> {
    match namespace_step(d, strs, ns) {
        Err(e) => Err(e),
        Ok(false) => Ok(Seq::empty()),
        Ok(true) => children_of(d, strs),
    }
}

/// What the first `n` entries of a unit contribute.
pub open spec fn unit_upto(dies: Seq<DieView>, strs: Seq<u8>, ns: Seq<char>, n: int) -> Result<Names, ScanError>
    decreases n,
{
    if n <= 0 {
        Ok(Seq::empty())
    } else {
        chain(unit_upto(dies, strs, ns, n - 1), entry_step(dies[n - 1], strs, ns))
    }
}

/// What the first `n` units contribute.
pub open spec fn units_upto(units: Seq<Seq<DieView>>, strs: Seq<u8>, ns: Seq<char>, n: int) -> Result<Names, ScanError>
    decreases n,
{
    if n <= 0 {
        Ok(Seq::empty())
    } else {
        chain(units_upto(units, strs, ns, n - 1), unit_upto(units[n - 1], strs, ns, units[n - 1].len() as int))
    }
}

/// The exported functions that are children of the namespaces named `ns`,
/// over all units, in the order of the entries.
pub open spec fn namespace_subprograms_spec(units: Seq<Seq<DieView>>, strs: Seq<u8>, ns: Seq<char>) -> Result<Names, ScanError> {
    units_upto(units, strs, ns, units.len() as int)
}

pub open spec fn names_view(v: Seq<String>) -> Names {
    v.map_values(|s: String| s@)
}

pub open spec fn unit_view(u: Seq<DieRecord>) -> Seq<DieView> {
    u.map_values(|d: DieRecord| d@)
}

pub open spec fn units_view(units: Seq<Vec<DieRecord>>) -> Seq<Seq<DieView>> {
    units.map_values(|u: Vec<DieRecord>| unit_view(u@))
}

/// The result of a selection, read as names.
pub open spec fn result_view(r: Result<Vec<String>, ScanError>) -> Result<Names, ScanError> {
    match r {
        Ok(v) => Ok(names_view(v@)),
        Err(e) => Err(e),
    }
}

proof fn lemma_names_push(v: Seq<String>, s: String)
    ensures
        names_view(v.push(s)) == names_view(v).push(s@),
{
    assert(names_view(v.push(s)) =~= names_view(v).push(s@));
}

proof fn lemma_chain_ok_assoc(a: Names, b: Names, r: Result<Names, ScanError>)
    ensures
        chain(Ok(a), chain(Ok(b), r)) == chain(Ok(a + b), r),
{
    match r {
        Ok(c) => {
            assert((a + b) + c =~= a + (b + c));
        },
        Err(_) => {},
    }
}

/// Returns whether two byte strings are equal.
pub fn bytes_equal(a: &[u8], b: &[u8]) -> (r: bool)
    ensures
        r == (a@ == b@),
{
    if a.len() != b.len() {
        return false;
    }
    let mut i: usize = 0;
    while i < a.len()
        invariant
            a@.len() == b@.len(),
            0 <= i <= a@.len(),
            forall|k: int| 0 <= k < i ==> a@[k] == b@[k],
        decreases a@.len() - i,
    {
        if a[i] != b[i] {
            return false;
        }
        i = i + 1;
    }
    assert(a@ =~= b@);
    true
}

/// Decides whether entry `d` is a namespace named `namespace`.
pub fn namespace_matches(d: &DieRecord, strs: &[u8], little_endian: bool, namespace: &str) -> (r: Result<bool, ScanError>)
    ensures
        r == namespace_step(d@, strs@, namespace@),
{
    if d.tag != DW_TAG_NAMESPACE {
        return Ok(false);
    }
    match d.name {
        AttrRead::Unreadable => Err(ScanError::NameUnreadable),
        AttrRead::Present(AttrForm::StrRef(off)) => match debug_str_get(strs, little_endian, off) {
            Err(_) => Err(ScanError::StringLookupFailed),
            Ok(b) => match core::str::from_utf8(b) {
                Err(_) => Err(ScanError::NamespaceNotUtf8),
                Ok(_) => {
                    let ns_bytes = namespace.as_bytes();
                    let same = bytes_equal(b, ns_bytes);
                    proof {
                        vstd::utf8::encode_utf8_decode_utf8(namespace@);
                        vstd::utf8::decode_utf8_encode_utf8(b@);
                    }
                    Ok(same)
                },
            },
        },
        _ => Ok(false),
    }
}

/// The name child `c` contributes.
pub fn child_name(c: &ChildRecord, strs: &[u8], little_endian: bool) -> (r: Result<Option<String>, ScanError>)
    ensures
        match r {
            Ok(Some(s)) => child_step(*c, strs@) == Ok::<Names, ScanError>(seq![s@]),
            Ok(None) => child_step(*c, strs@) == Ok::<Names, ScanError>(Seq::<Seq<char>>::empty()),
            Err(e) => child_step(*c, strs@) == Err::<Names, ScanError>(e),
        },
{
    if c.tag != DW_TAG_SUBPROGRAM {
        return Ok(None);
    }
    match c.external {
        AttrRead::Present(AttrForm::Flag(true)) => {},
        _ => { return Ok(None); },
    }
    match c.name {
        AttrRead::Unreadable => Err(ScanError::NameUnreadable),
        AttrRead::Present(AttrForm::StrRef(off)) => match debug_str_get(strs, little_endian, off) {
            Err(_) => Err(ScanError::StringLookupFailed),
            Ok(b) => Ok(Some(lossy_string(b))),
        },
        _ => Ok(None),
    }
}

proof fn lemma_children_err_persists(cs: Seq<ChildRecord>, strs: Seq<u8>, j: int, k: int)
    requires
        0 <= j <= k,
        children_upto(cs, strs, j) is Err,
    ensures
        children_upto(cs, strs, k) == children_upto(cs, strs, j),
    decreases k - j,
{
    if k > j {
        lemma_children_err_persists(cs, strs, j, k - 1);
    }
}

proof fn lemma_unit_err_persists(dies: Seq<DieView>, strs: Seq<u8>, ns: Seq<char>, j: int, k: int)
    requires
        0 <= j <= k,
        unit_upto(dies, strs, ns, j) is Err,
    ensures
        unit_upto(dies, strs, ns, k) == unit_upto(dies, strs, ns, j),
    decreases k - j,
{
    if k > j {
        lemma_unit_err_persists(dies, strs, ns, j, k - 1);
    }
}

proof fn lemma_units_err_persists(units: Seq<Seq<DieView>>, strs: Seq<u8>, ns: Seq<char>, j: int, k: int)
    requires
        0 <= j <= k,
        units_upto(units, strs, ns, j) is Err,
    ensures
        units_upto(units, strs, ns, k) == units_upto(units, strs, ns, j),
    decreases k - j,
{
    if k > j {
        lemma_units_err_persists(units, strs, ns, j, k - 1);
    }
}

/// Appends to `out` the exported functions among the children of `d`.
fn collect_children(d: &DieRecord, strs: &[u8], little_endian: bool, out: &mut Vec<String>) -> (r: Result<(), ScanError>)
    ensures
        match chain(Ok(names_view(old(out)@)), children_of(d@, strs@)) {
            Ok(all) => r is Ok && names_view(final(out)@) == all,
            Err(e) => r == Err::<(), ScanError>(e),
        },
{
    let ghost start = out@;
    proof {
        assert(names_view(start) + Seq::<Seq<char>>::empty() =~= names_view(start));
    }
    let children = match &d.children {
        ChildList::NotRead => { return Ok(()); },
        ChildList::Unreadable => { return Err(ScanError::ChildrenUnreadable); },
        ChildList::Entries(v) => v,
    };
    let ghost cs = children@;
    let mut j: usize = 0;
    while j < children.len()
        invariant
            0 <= j <= cs.len(),
            cs == children@,
            d@.children == ChildrenView::Entries(cs),
            chain(Ok(names_view(start)), children_upto(cs, strs@, j as int)) == Ok::<Names, ScanError>(names_view(out@)),
        decreases cs.len() - j,
    {
        let ghost before = out@;
        let ghost c = children_upto(cs, strs@, j as int)->Ok_0;
        match child_name(&children[j], strs, little_endian) {
            Err(e) => {
                proof {
                    lemma_children_err_persists(cs, strs@, j + 1, cs.len() as int);
                }
                return Err(e);
            },
            Ok(Some(s)) => {
                out.push(s);
                proof {
                    lemma_names_push(before, s);
                    lemma_chain_ok_assoc(names_view(start), c, Ok(seq![s@]));
                    assert(names_view(before).push(s@) =~= (names_view(start) + c) + seq![s@]);
                }
            },
            Ok(None) => {
                proof {
                    assert(c + Seq::<Seq<char>>::empty() =~= c);
                }
            },
        }
        j = j + 1;
    }
    Ok(())
}

/// Appends to `out` what the entries of one unit contribute.
fn unit_subprograms(dies: &[DieRecord], strs: &[u8], little_endian: bool, namespace: &str, out: &mut Vec<String>) -> (r: Result<(), ScanError>)
    ensures
        match chain(Ok(names_view(old(out)@)), unit_upto(unit_view(dies@), strs@, namespace@, dies@.len() as int)) {
            Ok(all) => r is Ok && names_view(final(out)@) == all,
            Err(e) => r == Err::<(), ScanError>(e),
        },
{
    let ghost start = out@;
    let ghost dv = unit_view(dies@);
    let mut i: usize = 0;
    proof {
        assert(names_view(start) + Seq::<Seq<char>>::empty() =~= names_view(start));
    }
    while i < dies.len()
        invariant
            0 <= i <= dies@.len(),
            dv == unit_view(dies@),
            dv.len() == dies@.len(),
            chain(Ok(names_view(start)), unit_upto(dv, strs@, namespace@, i as int)) == Ok::<Names, ScanError>(names_view(out@)),
        decreases dies@.len() - i,
    {
        let ghost u = unit_upto(dv, strs@, namespace@, i as int)->Ok_0;
        assert(dv[i as int] == dies@[i as int]@);
        match namespace_matches(&dies[i], strs, little_endian, namespace) {
            Err(e) => {
                proof {
                    lemma_unit_err_persists(dv, strs@, namespace@, i + 1, dies@.len() as int);
                }
                return Err(e);
            },
            Ok(false) => {
                proof {
                    assert(u + Seq::<Seq<char>>::empty() =~= u);
                }
            },
            Ok(true) => {
                match collect_children(&dies[i], strs, little_endian, out) {
                    Err(e) => {
                        proof {
                            lemma_unit_err_persists(dv, strs@, namespace@, i + 1, dies@.len() as int);
                        }
                        return Err(e);
                    },
                    Ok(()) => {
                        proof {
                            lemma_chain_ok_assoc(names_view(start), u, children_of(dv[i as int], strs@));
                        }
                    },
                }
            },
        }
        i = i + 1;
    }
    Ok(())
}

/// Collects, over all units in order, the exported functions that are
/// children of the namespaces named `namespace`; the strings are looked up
/// in `strs`, the `.debug_str` section.
pub fn namespace_subprograms(units: &[Vec<DieRecord>], strs: &[u8], little_endian: bool, namespace: &str) -> (r: Result<Vec<String>, ScanError>)
    ensures
        result_view(r) == namespace_subprograms_spec(units_view(units@), strs@, namespace@),
{
    let ghost uv = units_view(units@);
    let mut out: Vec<String> = Vec::new();
    let mut k: usize = 0;
    proof {
        assert(names_view(out@) =~= Seq::<Seq<char>>::empty());
    }
    while k < units.len()
        invariant
            0 <= k <= units@.len(),
            uv == units_view(units@),
            uv.len() == units@.len(),
            units_upto(uv, strs@, namespace@, k as int) == Ok::<Names, ScanError>(names_view(out@)),
        decreases units@.len() - k,
    {
        assert(uv[k as int] == unit_view(units@[k as int]@));
        match unit_subprograms(units[k].as_slice(), strs, little_endian, namespace, &mut out) {
            Err(e) => {
                proof {
                    lemma_units_err_persists(uv, strs@, namespace@, k + 1, units@.len() as int);
                }
                return Err(e);
            },
            Ok(()) => {},
        }
        k = k + 1;
    }
    Ok(out)
}

/// A namespace entry is taken exactly when its name, looked up in
/// `.debug_str` and decoded as UTF-8, is the requested namespace: equal,
/// not merely sharing a beginning with it.
pub proof fn law_namespace_match_is_exact(d: DieView, strs: Seq<u8>, ns: Seq<char>)
    ensures
        namespace_step(d, strs, ns) == Ok::<bool, ScanError>(true) ==> {
            &&& d.tag == DW_TAG_NAMESPACE
            &&& d.name matches AttrRead::Present(AttrForm::StrRef(off))
                && str_at(strs, off as int) matches Some(b)
                && valid_utf8(b) && decode_utf8(b) == ns
        },
{
}

/// A namespace named through `.debug_str` with the UTF-8 text `decode_utf8(b)`
/// is taken exactly when that text equals `ns`: it then contributes its
/// exported children, and a namespace of any other name contributes
/// nothing, whatever its children.
pub proof fn law_namespace_taken_by_name(d: DieView, strs: Seq<u8>, ns: Seq<char>, off: usize, b: Seq<u8>)
    requires
        d.tag == DW_TAG_NAMESPACE,
        d.name == AttrRead::Present(AttrForm::StrRef(off)),
        str_at(strs, off as int) == Some(b),
        valid_utf8(b),
    ensures
        namespace_step(d, strs, ns) == Ok::<bool, ScanError>(decode_utf8(b) == ns),
        decode_utf8(b) == ns ==> entry_step(d, strs, ns) == children_of(d, strs),
        decode_utf8(b) != ns ==> entry_step(d, strs, ns) == Ok::<Names, ScanError>(Seq::empty()),
{
}

/// Entry `d` is no namespace, or a namespace whose name reads as text other
/// than `ns` (or names it in no `.debug_str` form).
pub open spec fn not_named(d: DieView, strs: Seq<u8>, ns: Seq<char>) -> bool {
    d.tag != DW_TAG_NAMESPACE || match d.name {
        AttrRead::Present(AttrForm::StrRef(off)) => match str_at(strs, off as int) {
            Some(b) => valid_utf8(b) && decode_utf8(b) != ns,
            None => false,
        },
        AttrRead::Unreadable => false,
        _ => true,
    }
}

proof fn lemma_unit_without_namespace(dies: Seq<DieView>, strs: Seq<u8>, ns: Seq<char>, n: int)
    requires
        0 <= n <= dies.len(),
        forall|j: int| 0 <= j < dies.len() ==> not_named(#[trigger] dies[j], strs, ns),
    ensures
        unit_upto(dies, strs, ns, n) == Ok::<Names, ScanError>(Seq::empty()),
    decreases n,
{
    if n > 0 {
        lemma_unit_without_namespace(dies, strs, ns, n - 1);
        assert(not_named(dies[n - 1], strs, ns));
        assert(Seq::<Seq<char>>::empty() + Seq::<Seq<char>>::empty() =~= Seq::<Seq<char>>::empty());
    }
}

proof fn lemma_units_without_namespace(units: Seq<Seq<DieView>>, strs: Seq<u8>, ns: Seq<char>, n: int)
    requires
        0 <= n <= units.len(),
        forall|i: int, j: int| 0 <= i < units.len() && 0 <= j < units[i].len() ==> not_named(#[trigger] units[i][j], strs, ns),
    ensures
        units_upto(units, strs, ns, n) == Ok::<Names, ScanError>(Seq::empty()),
    decreases n,
{
    if n > 0 {
        lemma_units_without_namespace(units, strs, ns, n - 1);
        let u = units[n - 1];
        assert forall|j: int| 0 <= j < u.len() implies not_named(#[trigger] u[j], strs, ns) by {
            assert(units[n - 1][j] == u[j]);
        }
        lemma_unit_without_namespace(u, strs, ns, u.len() as int);
        assert(Seq::<Seq<char>>::empty() + Seq::<Seq<char>>::empty() =~= Seq::<Seq<char>>::empty());
    }
}

/// When no entry of any unit is a namespace named exactly `ns` (each
/// namespace's name reads as other text), the selection gives no function.
pub proof fn law_no_namespace_named_gives_nothing(units: Seq<Seq<DieView>>, strs: Seq<u8>, ns: Seq<char>)
    requires
        forall|i: int, j: int| 0 <= i < units.len() && 0 <= j < units[i].len() ==> not_named(#[trigger] units[i][j], strs, ns),
    ensures
        namespace_subprograms_spec(units, strs, ns) == Ok::<Names, ScanError>(Seq::empty()),
{
    lemma_units_without_namespace(units, strs, ns, units.len() as int);
}

/// The text that reports a selection error.
pub open spec fn scan_error_text(e: ScanError) -> Seq<char> {
    match e {
        ScanError::NameUnreadable => "Unreadable name attribute"@,
        ScanError::StringLookupFailed => "Name offset outside .debug_str"@,
        ScanError::NamespaceNotUtf8 => "Namespace name is not UTF-8"@,
        ScanError::ChildrenUnreadable => "Unreadable children of a namespace"@,
    }
}

impl ScanError {
    /// Describes the error.
    pub fn message(&self) -> (m: String)
        ensures
            m@ == scan_error_text(*self),
    {
        match self {
            ScanError::NameUnreadable => "Unreadable name attribute".to_owned(),
            ScanError::StringLookupFailed => "Name offset outside .debug_str".to_owned(),
            ScanError::NamespaceNotUtf8 => "Namespace name is not UTF-8".to_owned(),
            ScanError::ChildrenUnreadable => "Unreadable children of a namespace".to_owned(),
        }
    }
}

} // verus!

//! Looking up the null-terminated strings of a `.debug_str` section.
use vstd::prelude::*;

verus! {

#[verifier::external_type_specification]
#[verifier::external_body]
pub struct ExGimliError(gimli::Error);

/// The bytes before the first zero byte of `s`, or `None` when `s` holds no
/// zero byte.
pub open spec fn nul_terminated(s: Seq<u8>) -> Option<Seq<u8>>
    decreases s.len(),
{
    if s.len() == 0 {
        None
    } else if s[0] == 0 {
        Some(Seq::<u8>::empty())
    } else {
        match nul_terminated(s.drop_first()) {
            Some(t) => Some(seq![s[0]] + t),
            None => None,
        }
    }
}

/// The string that starts at `offset` in a `.debug_str` section: present
/// when the offset lies within the section and a terminating zero byte
/// follows it.
pub open spec fn str_at(section: Seq<u8>, offset: int) -> Option<Seq<u8>> {
    if 0 <= offset <= section.len() {
        nul_terminated(section.subrange(offset, section.len() as int))
    } else {
        None
    }
}

/// Calls `gimli::DebugStr::get_str` on the section read with the given byte
/// order (`DebugStr::new` only wraps the slice). Claimed, from gimli's
/// source (`skip(offset)` then `read_null_terminated_slice`): it succeeds
/// exactly when `str_at` is present and then returns those bytes; the byte
/// order plays no part in it.
#[verifier::external_body]
pub fn debug_str_get<'a>(section: &'a [u8], little_endian: bool, offset: usize) -> (r: Result<&'a [u8], gimli::Error>)
    ensures
        r is Ok <==> str_at(section@, offset as int) is Some,
        r matches Ok(s) ==> str_at(section@, offset as int) == Some(s@),
{
    let endian = if little_endian { gimli::RunTimeEndian::Little } else { gimli::RunTimeEndian::Big };
    match gimli::DebugStr::new(section, endian).get_str(gimli::DebugStrOffset(offset)) {
        Ok(s) => Ok(s.slice()),
        Err(e) => Err(e),
    }
}

} // verus!

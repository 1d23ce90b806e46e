//! UTF-8 decoding of the byte strings that debug information holds.
use vstd::prelude::*;
use vstd::utf8::{decode_utf8, valid_utf8};

verus! {

#[verifier::external_type_specification]
#[verifier::external_body]
pub struct ExUtf8Error(core::str::Utf8Error);

/// `core::str::from_utf8` succeeds exactly on well-formed UTF-8 and then
/// yields the decoded characters (std documents it as the checked
/// conversion of a byte slice to a string slice).
pub assume_specification[ core::str::from_utf8 ](v: &[u8]) -> (r: Result<&str, core::str::Utf8Error>)
    ensures
        r is Ok <==> valid_utf8(v@),
        r matches Ok(s) ==> s@ == decode_utf8(v@),
;

/// What `String::from_utf8_lossy` makes of a byte string: the decoded text,
/// with U+FFFD standing for each ill-formed sequence.
pub uninterp spec fn utf8_lossy(bytes: Seq<u8>) -> Seq<char>;

/// Calls `String::from_utf8_lossy` and takes ownership of its result.
/// Claimed: the result is `utf8_lossy` of the bytes, and on well-formed
/// UTF-8 it is the plain decoding (std: no replacement happens then).
#[verifier::external_body]
pub fn lossy_string(bytes: &[u8]) -> (s: String)
    ensures
        s@ == utf8_lossy(bytes@),
        valid_utf8(bytes@) ==> s@ == decode_utf8(bytes@),
{
    String::from_utf8_lossy(bytes).into_owned()
}

/// The lower-case digit character for a digit value below 16.
pub open spec fn digit_char(d: int) -> char {
    if d < 10 {
        (48 + d) as char
    } else {
        (87 + d) as char
    }
}

/// The lower-case hexadecimal digits of `v`, without leading zeros.
pub open spec fn hex_digits(v: nat) -> Seq<char>
    decreases v,
{
    if v < 16 {
        seq![digit_char(v as int)]
    } else {
        hex_digits(v / 16).push(digit_char((v % 16) as int))
    }
}

/// The decimal digits of `v`, without leading zeros.
pub open spec fn decimal_digits(v: nat) -> Seq<char>
    decreases v,
{
    if v < 10 {
        seq![digit_char(v as int)]
    } else {
        decimal_digits(v / 10).push(digit_char((v % 10) as int))
    }
}

/// The one-character text of a digit value below 16.
fn digit_str(d: u64) -> (s: &'static str)
    requires
        d < 16,
    ensures
        s@ == seq![digit_char(d as int)],
{
    match d {
        0 => {
            proof { reveal_strlit("0"); }
            "0"
        },
        1 => {
            proof { reveal_strlit("1"); }
            "1"
        },
        2 => {
            proof { reveal_strlit("2"); }
            "2"
        },
        3 => {
            proof { reveal_strlit("3"); }
            "3"
        },
        4 => {
            proof { reveal_strlit("4"); }
            "4"
        },
        5 => {
            proof { reveal_strlit("5"); }
            "5"
        },
        6 => {
            proof { reveal_strlit("6"); }
            "6"
        },
        7 => {
            proof { reveal_strlit("7"); }
            "7"
        },
        8 => {
            proof { reveal_strlit("8"); }
            "8"
        },
        9 => {
            proof { reveal_strlit("9"); }
            "9"
        },
        10 => {
            proof { reveal_strlit("a"); }
            "a"
        },
        11 => {
            proof { reveal_strlit("b"); }
            "b"
        },
        12 => {
            proof { reveal_strlit("c"); }
            "c"
        },
        13 => {
            proof { reveal_strlit("d"); }
            "d"
        },
        14 => {
            proof { reveal_strlit("e"); }
            "e"
        },
        _ => {
            proof { reveal_strlit("f"); }
            "f"
        },
    }
}

/// The lower-case hexadecimal digits of `v`, most significant first.
fn hex_text(v: u64) -> (s: String)
    ensures
        s@ == hex_digits(v as nat),
    decreases v,
{
    if v < 16 {
        digit_str(v).to_owned()
    } else {
        let mut s = hex_text(v / 16);
        s.append(digit_str(v % 16));
        assert(s@ =~= hex_digits(v as nat));
        s
    }
}

/// The decimal digits of `v`, most significant first.
fn decimal_text(v: u64) -> (s: String)
    ensures
        s@ == decimal_digits(v as nat),
    decreases v,
{
    if v < 10 {
        digit_str(v).to_owned()
    } else {
        let mut s = decimal_text(v / 10);
        s.append(digit_str(v % 10));
        assert(s@ =~= decimal_digits(v as nat));
        s
    }
}

/// Formats `v` as `format!("{:#x}")` does: `0x` followed by the
/// lower-case hexadecimal digits, without padding.
pub fn format_hex(v: u64) -> (s: String)
    ensures
        s@ == "0x"@ + hex_digits(v as nat),
{
    let mut s = "0x".to_owned();
    let digits = hex_text(v);
    s.append(digits.as_str());
    s
}

/// Formats `v` as `format!("{}")` does: its decimal digits, without
/// padding.
pub fn format_decimal(v: u64) -> (s: String)
    ensures
        s@ == decimal_digits(v as nat),
{
    decimal_text(v)
}

} // verus!

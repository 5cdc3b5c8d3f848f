//! The few outside calls the library relies on, each behind a stated
//! contract.

use vstd::prelude::*;
use crate::jstring::json_string_lit;

verus! {

/// Relies on String::push: appends the given character to the end of the
/// string.
pub assume_specification[ String::push ](s: &mut String, c: char)
    ensures
        final(s)@ == old(s)@.push(c),
;

/// Relies on char::from_u32: returns `Some` exactly on Unicode scalar
/// values (code points at most 0x10FFFF and outside the surrogate range
/// 0xD800..=0xDFFF), and the character returned is that code point.
pub assume_specification[ char::from_u32 ](v: u32) -> (r: Option<char>)
    ensures
        r matches Some(c) ==> c == v as char,
        r is Some <==> (v < 0xD800 || (0xDFFF < v && v <= 0x10FFFF)),
;

/// Relies on serde_json::to_string: a string value serializes to a JSON
/// string literal, escaping quote and backslash, the named control
/// characters as `\b \t \n \f \r`, and every other control character as a
/// lower-case `\u00xx` escape; serializing a string writes into a byte
/// buffer and cannot fail.
#[verifier::external_body]
pub(crate) fn json_encode_str(s: &str) -> (r: String)
    ensures
        r@ == json_string_lit(s@),
{
    serde_json::to_string(s).unwrap()
}

} // verus!

//! Verified building blocks of a set of small command-line tools: a DNS
//! client's wire format, records and session; converters between bytes and
//! their binary, decimal, hex and base64 literals; timestamps; an ASCII
//! table; and a fuzzy matcher for file names.
//!
//! Every function states in its contract what it returns, and Verus proves
//! that it does. Calls into other crates stand in small private functions of
//! their own, whose contracts are taken on trust and say what they claim.

use vstd::prelude::*;

pub mod ascii;
pub mod base64;
pub mod binary;
pub mod convert;
pub mod decimal;
pub mod dns;
pub mod fuzzy;
pub mod hex;
pub mod text;
pub mod timestamp;
pub mod trace;

verus! {

/// The separator characters that the numeric converters skip over.
pub open spec fn spec_is_char_ignorable(c: u8) -> bool {
    c == 0x20 || c == 0x2d || c == 0x5f || c == 0x2c
}

/// Tells whether `c` is one of the separators ` `, `-`, `_` and `,`.
pub fn is_char_ignorable(c: u8) -> (r: bool)
    ensures
        r == spec_is_char_ignorable(c),
{
    c == 0x20 || c == 0x2d || c == 0x5f || c == 0x2c
}

} // verus!

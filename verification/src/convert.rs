//! Literals of one base as literals of another, by way of the bytes that
//! they stand for.

use vstd::prelude::*;
use vstd::string::StringSliceAdditionalSpecFns;
use vstd::utf8::encode_utf8;
use crate::text::{ascii_chars, spec_decimal_text, spec_utf8_text, utf8_text};

verus! {

/// Why a literal could not be converted from one base to another.
#[derive(Clone, Copy, Debug, PartialEq, Eq, Structural)]
pub enum ConvertError {
    /// Literals of this base cannot be read.
    UnsupportedInputBase(u8),
    /// The text is no literal of the base it was said to be in.
    BadInput,
    /// Literals of this base cannot be written.
    UnsupportedOutputBase(u8),
}

/// The bases that literals are read and written in.
pub open spec fn is_supported_base(base: u8) -> bool {
    base == 2 || base == 10 || base == 16 || base == 64
}

/// The bytes that a literal of the given base stands for.
pub open spec fn spec_bytes_of(input: Seq<u8>, base: u8) -> Result<Seq<u8>, ConvertError> {
    if !is_supported_base(base) {
        Err(ConvertError::UnsupportedInputBase(base))
    } else {
        let bytes = if base == 2 {
            crate::binary::spec_to_bytes(input)
        } else if base == 10 {
            crate::decimal::spec_to_bytes(input)
        } else if base == 16 {
            crate::hex::spec_to_bytes(input)
        } else {
            crate::base64::spec_to_bytes(input)
        };
        match bytes {
            Some(b) => Ok(b),
            None => Err(ConvertError::BadInput),
        }
    }
}

/// The literal of the given base that stands for the bytes. A binary literal
/// is written without leading zeros.
pub open spec fn spec_text_of(bytes: Seq<u8>, base: u8) -> Result<Seq<char>, ConvertError> {
    if base == 2 {
        Ok(ascii_chars(crate::binary::spec_from_bytes(bytes, true)))
    } else if base == 10 {
        Ok(spec_decimal_text(crate::decimal::spec_be_value(bytes)))
    } else if base == 16 {
        Ok(ascii_chars(crate::hex::spec_from_bytes(bytes)))
    } else if base == 64 {
        Ok(ascii_chars(crate::base64::spec_from_bytes(bytes)))
    } else {
        Err(ConvertError::UnsupportedOutputBase(base))
    }
}

/// What a base-64 literal has to be made of, as far as reading it asks for
/// it: text whose length is a multiple of four holds only digits of the
/// alphabet and padding.
pub open spec fn readable(input: Seq<u8>, base: u8) -> bool {
    base == 64 && input.len() % 4 == 0 ==> crate::base64::spec_is_base64(input)
}

/// What writing in base 10 asks of the bytes: there are no more than eight.
pub open spec fn writable(bytes: Seq<u8>, base: u8) -> bool {
    base == 10 ==> bytes.len() <= 8
}

/// Reads a literal of the given base.
pub fn bytes_of(input: &str, input_base: u8) -> (r: Result<Vec<u8>, ConvertError>)
    requires
        readable(encode_utf8(input@), input_base),
    ensures
        match r {
            Ok(bytes) => spec_bytes_of(encode_utf8(input@), input_base) == Ok::<
                Seq<u8>,
                ConvertError,
            >(bytes@),
            Err(e) => spec_bytes_of(encode_utf8(input@), input_base) == Err::<
                Seq<u8>,
                ConvertError,
            >(e),
        },
{
    let bytes = match input_base {
        2 => crate::binary::to_bytes(input),
        10 => crate::decimal::to_bytes(input),
        16 => crate::hex::to_bytes(input),
        64 => crate::base64::to_bytes(input),
        _ => {
            return Err(ConvertError::UnsupportedInputBase(input_base));
        },
    };
    match bytes {
        Some(b) => Ok(b),
        None => Err(ConvertError::BadInput),
    }
}

/// Writes bytes as a literal of the given base.
pub fn text_of(bytes: &[u8], output_base: u8) -> (r: Result<String, ConvertError>)
    requires
        writable(bytes@, output_base),
    ensures
        match r {
            Ok(text) => spec_text_of(bytes@, output_base) == Ok::<Seq<char>, ConvertError>(text@),
            Err(e) => spec_text_of(bytes@, output_base) == Err::<Seq<char>, ConvertError>(e),
        },
{
    match output_base {
        2 => Ok(crate::binary::from_bytes(bytes, true)),
        10 => Ok(crate::decimal::from_bytes(bytes)),
        16 => Ok(crate::hex::from_bytes(bytes)),
        64 => Ok(crate::base64::from_bytes(bytes)),
        _ => Err(ConvertError::UnsupportedOutputBase(output_base)),
    }
}

/// A literal of one base as the literal of another base that stands for the
/// same bytes. The input base is looked at first, then the text, and the
/// output base last.
pub open spec fn spec_convert(input: Seq<u8>, input_base: u8, output_base: u8) -> Result<
    Seq<char>,
    ConvertError,
> {
    match spec_bytes_of(input, input_base) {
        Err(e) => Err(e),
        Ok(bytes) => spec_text_of(bytes, output_base),
    }
}

/// Converts a literal from one base to another.
pub fn convert(input: &str, input_base: u8, output_base: u8) -> (r: Result<String, ConvertError>)
    requires
        readable(encode_utf8(input@), input_base),
        spec_bytes_of(encode_utf8(input@), input_base) matches Ok(bytes) ==> writable(
            bytes,
            output_base,
        ),
    ensures
        match r {
            Ok(text) => spec_convert(encode_utf8(input@), input_base, output_base) == Ok::<
                Seq<char>,
                ConvertError,
            >(text@),
            Err(e) => spec_convert(encode_utf8(input@), input_base, output_base) == Err::<
                Seq<char>,
                ConvertError,
            >(e),
        },
{
    match bytes_of(input, input_base) {
        Ok(bytes) => text_of(bytes.as_slice(), output_base),
        Err(e) => Err(e),
    }
}

/// Why a hex literal could not be shown as text.
#[derive(Clone, Copy, Debug, PartialEq, Eq, Structural)]
pub enum HexTextError {
    /// The text is no hex literal.
    NotHex,
    /// The bytes of the literal are not valid UTF-8.
    NotUtf8,
}

/// The text whose UTF-8 encoding a hex literal states.
pub open spec fn spec_hex_to_utf8(input: Seq<u8>) -> Result<Seq<char>, HexTextError> {
    match crate::hex::spec_to_bytes(input) {
        None => Err(HexTextError::NotHex),
        Some(bytes) => match spec_utf8_text(bytes) {
            None => Err(HexTextError::NotUtf8),
            Some(text) => Ok(text),
        },
    }
}

/// Decodes a hex literal and reads its bytes as UTF-8 text.
pub fn hex_to_utf8(input: &str) -> (r: Result<String, HexTextError>)
    ensures
        match r {
            Ok(text) => spec_hex_to_utf8(encode_utf8(input@)) == Ok::<Seq<char>, HexTextError>(
                text@,
            ),
            Err(e) => spec_hex_to_utf8(encode_utf8(input@)) == Err::<Seq<char>, HexTextError>(e),
        },
{
    match crate::hex::to_bytes(input) {
        Some(bytes) => match utf8_text(bytes) {
            Some(text) => Ok(text),
            None => Err(HexTextError::NotUtf8),
        },
        None => Err(HexTextError::NotHex),
    }
}

/// Writes the UTF-8 encoding of a text as a hex literal.
pub fn utf8_to_hex(input: &str) -> (r: String)
    ensures
        r@ == ascii_chars(crate::hex::spec_from_bytes(encode_utf8(input@))),
{
    crate::hex::from_bytes(input.as_bytes())
}

/// Writes the bytes of a base-64 literal as a hex literal, or returns
/// nothing where the text is no base-64 literal.
pub fn base64_to_hex(input: &str) -> (r: Option<String>)
    requires
        readable(encode_utf8(input@), 64),
    ensures
        match r {
            Some(text) => crate::base64::spec_to_bytes(encode_utf8(input@)) is Some && text@
                == ascii_chars(
                crate::hex::spec_from_bytes(
                    crate::base64::spec_to_bytes(encode_utf8(input@))->Some_0,
                ),
            ),
            None => crate::base64::spec_to_bytes(encode_utf8(input@)).is_none(),
        },
{
    match crate::base64::to_bytes(input) {
        Some(bytes) => Some(crate::hex::from_bytes(bytes.as_slice())),
        None => None,
    }
}

/// Writes the bytes of a hex literal as a base-64 literal, or returns
/// nothing where the text is no hex literal.
pub fn hex_to_base64(input: &str) -> (r: Option<String>)
    ensures
        match r {
            Some(text) => crate::hex::spec_to_bytes(encode_utf8(input@)) is Some && text@
                == ascii_chars(
                crate::base64::spec_from_bytes(
                    crate::hex::spec_to_bytes(encode_utf8(input@))->Some_0,
                ),
            ),
            None => crate::hex::spec_to_bytes(encode_utf8(input@)).is_none(),
        },
{
    match crate::hex::to_bytes(input) {
        Some(bytes) => Some(crate::base64::from_bytes(bytes.as_slice())),
        None => None,
    }
}

} // verus!

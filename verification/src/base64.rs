//! Bytes as base64 text, and back.

use vstd::prelude::*;
use vstd::string::StringSliceAdditionalSpecFns;
use vstd::utf8::encode_utf8;
use crate::text::{all_ascii, ascii_chars, ascii_string};

verus! {

/// What one character of base64 text is.
#[derive(Clone, Copy, Debug, PartialEq, Eq, Structural)]
pub enum Base64CharParseResult {
    /// A digit, with its value below 64.
    Value(u8),
    /// The padding character `=`.
    Padding,
    /// No character of the alphabet.
    Unknown,
}

/// What the character `c` is: `A`-`Z` are 0 to 25, `a`-`z` 26 to 51, `0`-`9`
/// 52 to 61, `+` is 62 and `/` is 63; `=` is padding.
pub open spec fn spec_parse_base64_char(c: u8) -> Base64CharParseResult {
    if 0x41 <= c <= 0x5a {
        Base64CharParseResult::Value((c - 0x41) as u8)
    } else if 0x61 <= c <= 0x7a {
        Base64CharParseResult::Value((c - 0x61 + 26) as u8)
    } else if 0x30 <= c <= 0x39 {
        Base64CharParseResult::Value((c - 0x30 + 52) as u8)
    } else if c == 0x2b {
        Base64CharParseResult::Value(62)
    } else if c == 0x2f {
        Base64CharParseResult::Value(63)
    } else if c == 0x3d {
        Base64CharParseResult::Padding
    } else {
        Base64CharParseResult::Unknown
    }
}

/// Classifies one character of base64 text.
pub fn parse_base64_char(c: u8) -> (r: Base64CharParseResult)
    ensures
        r == spec_parse_base64_char(c),
        r matches Base64CharParseResult::Value(v) ==> v < 64,
{
    if c >= 0x41 && c <= 0x5a {
        Base64CharParseResult::Value(c - 0x41)
    } else if c >= 0x61 && c <= 0x7a {
        Base64CharParseResult::Value(c - 0x61 + 26)
    } else if c >= 0x30 && c <= 0x39 {
        Base64CharParseResult::Value(c - 0x30 + 52)
    } else if c == 0x2b {
        Base64CharParseResult::Value(62)
    } else if c == 0x2f {
        Base64CharParseResult::Value(63)
    } else if c == 0x3d {
        Base64CharParseResult::Padding
    } else {
        Base64CharParseResult::Unknown
    }
}

/// Every character is a digit of the alphabet or the padding character.
pub open spec fn spec_is_base64(s: Seq<u8>) -> bool {
    forall|i: int|
        0 <= i < s.len() ==> #[trigger] spec_parse_base64_char(s[i])
            != Base64CharParseResult::Unknown
}

/// Tells whether the text holds only digits of the alphabet and padding.
pub fn is_base64(input: &str) -> (r: bool)
    ensures
        r == spec_is_base64(encode_utf8(input@)),
{
    let bytes = input.as_bytes();
    let mut i: usize = 0;
    while i < bytes.len()
        invariant
            i <= bytes@.len(),
            bytes@ == encode_utf8(input@),
            forall|k: int|
                0 <= k < i ==> #[trigger] spec_parse_base64_char(bytes@[k])
                    != Base64CharParseResult::Unknown,
        decreases bytes@.len() - i,
    {
        match parse_base64_char(bytes[i]) {
            Base64CharParseResult::Unknown => {
                return false;
            },
            _ => {},
        }
        i += 1;
    }
    true
}

/// The values of the digits of `s`, in order; padding is left out wherever
/// it stands.
pub open spec fn spec_sextets(s: Seq<u8>) -> Seq<u8>
    decreases s.len(),
{
    if s.len() == 0 {
        Seq::empty()
    } else {
        match spec_parse_base64_char(s.last()) {
            Base64CharParseResult::Value(v) => spec_sextets(s.drop_last()).push(v),
            _ => spec_sextets(s.drop_last()),
        }
    }
}

/// The bytes that values of six bits each make, written one after the other:
/// four of them make three bytes, and of what is left at the end, three make
/// two bytes, two make one, and a single one makes none.
pub open spec fn spec_decode(x: Seq<u8>) -> Seq<u8>
    decreases x.len(),
{
    if x.len() < 2 {
        Seq::empty()
    } else if x.len() == 2 {
        seq![(x[0] * 4 + x[1] / 16) as u8]
    } else if x.len() == 3 {
        seq![(x[0] * 4 + x[1] / 16) as u8, (x[1] % 16 * 16 + x[2] / 4) as u8]
    } else {
        seq![
            (x[0] * 4 + x[1] / 16) as u8,
            (x[1] % 16 * 16 + x[2] / 4) as u8,
            (x[2] % 4 * 64 + x[3]) as u8,
        ] + spec_decode(x.skip(4))
    }
}

/// The bytes that base64 text stands for; nothing where its length is no
/// multiple of four.
pub open spec fn spec_to_bytes(input: Seq<u8>) -> Option<Seq<u8>> {
    if input.len() % 4 != 0 {
        None
    } else {
        Some(spec_decode(spec_sextets(input)))
    }
}

/// What one more value adds to the decoded bytes.
proof fn lemma_decode_push(x: Seq<u8>, v: u8)
    ensures
        x.len() % 4 == 0 ==> spec_decode(x.push(v)) == spec_decode(x),
        x.len() % 4 == 1 ==> spec_decode(x.push(v)) == spec_decode(x).push(
            (x.last() * 4 + v / 16) as u8,
        ),
        x.len() % 4 == 2 ==> spec_decode(x.push(v)) == spec_decode(x).push(
            (x.last() % 16 * 16 + v / 4) as u8,
        ),
        x.len() % 4 == 3 ==> spec_decode(x.push(v)) == spec_decode(x).push(
            (x.last() % 4 * 64 + v) as u8,
        ),
    decreases x.len(),
{
    let full = x.push(v);
    if x.len() < 4 {
        if x.len() == 3 {
            assert(full.skip(4) =~= Seq::<u8>::empty());
            assert(spec_decode(full.skip(4)) =~= Seq::<u8>::empty());
            assert(full[0] == x[0] && full[1] == x[1] && full[2] == x[2] && full[3] == v);
            assert(x.last() == x[2]);
            assert(spec_decode(full) =~= spec_decode(x).push((x.last() % 4 * 64 + v) as u8));
        } else if x.len() == 2 {
            assert(spec_decode(full) =~= spec_decode(x).push((x.last() % 16 * 16 + v / 4) as u8));
        } else if x.len() == 1 {
            assert(spec_decode(full) =~= spec_decode(x).push((x.last() * 4 + v / 16) as u8));
        } else {
            assert(spec_decode(full) =~= spec_decode(x));
        }
    } else {
        let tail = x.skip(4);
        assert(full.skip(4) =~= tail.push(v));
        lemma_decode_push(tail, v);
        let head = seq![
            (x[0] * 4 + x[1] / 16) as u8,
            (x[1] % 16 * 16 + x[2] / 4) as u8,
            (x[2] % 4 * 64 + x[3]) as u8,
        ];
        assert(full[0] == x[0] && full[1] == x[1] && full[2] == x[2] && full[3] == x[3]);
        if tail.len() > 0 {
            assert(tail.last() == x.last());
        }
        if x.len() % 4 == 0 {
            assert(spec_decode(full) =~= spec_decode(x));
        } else if x.len() % 4 == 1 {
            assert(head + spec_decode(tail).push((x.last() * 4 + v / 16) as u8) =~= (head
                + spec_decode(tail)).push((x.last() * 4 + v / 16) as u8));
        } else if x.len() % 4 == 2 {
            assert(head + spec_decode(tail).push((x.last() % 16 * 16 + v / 4) as u8) =~= (head
                + spec_decode(tail)).push((x.last() % 16 * 16 + v / 4) as u8));
        } else {
            assert(head + spec_decode(tail).push((x.last() % 4 * 64 + v) as u8) =~= (head
                + spec_decode(tail)).push((x.last() % 4 * 64 + v) as u8));
        }
    }
}

/// Decodes base64 text into bytes, or returns nothing where its length is no
/// multiple of four. Padding is skipped wherever it stands, and bits left
/// over at the end that do not fill a byte are dropped.
///
/// Text of a length that is a multiple of four must hold only digits of the
/// alphabet and padding.
pub fn to_bytes(input: &str) -> (r: Option<Vec<u8>>)
    requires
        encode_utf8(input@).len() % 4 == 0 ==> spec_is_base64(encode_utf8(input@)),
    ensures
        match r {
            Some(bytes) => spec_to_bytes(encode_utf8(input@)) == Some(bytes@),
            None => spec_to_bytes(encode_utf8(input@)).is_none(),
        },
{
    let bytes = input.as_bytes();
    if bytes.len() % 4 != 0 {
        return None;
    }
    let mut result: Vec<u8> = Vec::new();
    let mut accumulated_bits: u32 = 0;
    let mut accumulated: u32 = 0;
    let mut i: usize = 0;
    let ghost mut x: Seq<u8> = Seq::empty();
    proof {
        assert(bytes@.take(0) =~= Seq::<u8>::empty());
    }
    while i < bytes.len()
        invariant
            i <= bytes@.len(),
            bytes@ == encode_utf8(input@),
            spec_is_base64(bytes@),
            x == spec_sextets(bytes@.take(i as int)),
            result@ == spec_decode(x),
            x.len() % 4 == 0 ==> accumulated_bits == 0 && accumulated == 0,
            x.len() % 4 == 1 ==> accumulated_bits == 6 && accumulated == x.last() && x.last() < 64,
            x.len() % 4 == 2 ==> accumulated_bits == 4 && accumulated == x.last() % 16,
            x.len() % 4 == 3 ==> accumulated_bits == 2 && accumulated == x.last() % 4,
        decreases bytes@.len() - i,
    {
        proof {
            assert(bytes@.take(i + 1).drop_last() =~= bytes@.take(i as int));
            assert(bytes@.take(i + 1).last() == bytes@[i as int]);
        }
        match parse_base64_char(bytes[i]) {
            Base64CharParseResult::Value(val) => {
                let wide: u32 = val as u32;
                let old_acc: u32 = accumulated;
                proof {
                    lemma_decode_push(x, val);
                    assert(old_acc < 64 && wide < 64 ==> (((old_acc << 6) | wide) >> 4) & 0xFF
                        == old_acc * 4 + wide / 16 && ((old_acc << 6) | wide) & !((0xFF as u32)
                        << 4) == wide % 16) by (bit_vector);
                    assert(old_acc < 16 && wide < 64 ==> (((old_acc << 6) | wide) >> 2) & 0xFF
                        == old_acc * 16 + wide / 4 && ((old_acc << 6) | wide) & !((0xFF as u32)
                        << 2) == wide % 4) by (bit_vector);
                    assert(old_acc < 4 && wide < 64 ==> (((old_acc << 6) | wide) >> 0) & 0xFF
                        == old_acc * 64 + wide && ((old_acc << 6) | wide) & !((0xFF as u32) << 0)
                        == 0) by (bit_vector);
                    assert(old_acc == 0 ==> ((old_acc << 6) | wide) == wide) by (bit_vector);
                    x = x.push(val);
                }
                accumulated = (accumulated << 6) | wide;
                accumulated_bits += 6;
                if accumulated_bits >= 8 {
                    let out: u8 = ((accumulated >> (accumulated_bits - 8)) & 0xFF) as u8;
                    result.push(out);
                    accumulated_bits -= 8;
                    accumulated &= !((0xFF as u32) << accumulated_bits);
                }
            },
            Base64CharParseResult::Padding => {},
            Base64CharParseResult::Unknown => {
                assert(false);
            },
        }
        i += 1;
    }
    proof {
        assert(bytes@.take(i as int) =~= bytes@);
    }
    Some(result)
}

/// The digit of the alphabet for a value below 64.
pub open spec fn spec_base64_char(v: int) -> u8 {
    if v < 26 {
        (0x41 + v) as u8
    } else if v < 52 {
        (0x61 + v - 26) as u8
    } else if v < 62 {
        (0x30 + v - 52) as u8
    } else if v == 62 {
        0x2bu8
    } else {
        0x2fu8
    }
}

/// Base64 text, as ASCII: four digits for every three bytes; two bytes left
/// at the end give three digits and one `=`, a single byte two digits and
/// `==`.
pub open spec fn spec_from_bytes(b: Seq<u8>) -> Seq<u8>
    decreases b.len(),
{
    if b.len() == 0 {
        Seq::empty()
    } else if b.len() == 1 {
        seq![spec_base64_char((b[0] / 4) as int), spec_base64_char((b[0] % 4 * 16) as int), 0x3du8, 0x3du8]
    } else if b.len() == 2 {
        seq![
            spec_base64_char((b[0] / 4) as int),
            spec_base64_char((b[0] % 4 * 16 + b[1] / 16) as int),
            spec_base64_char((b[1] % 16 * 4) as int),
            0x3du8,
        ]
    } else {
        seq![
            spec_base64_char((b[0] / 4) as int),
            spec_base64_char((b[0] % 4 * 16 + b[1] / 16) as int),
            spec_base64_char((b[1] % 16 * 4 + b[2] / 64) as int),
            spec_base64_char((b[2] % 64) as int),
        ] + spec_from_bytes(b.skip(3))
    }
}

fn base64_char(v: u8) -> (c: u8)
    requires
        v < 64,
    ensures
        c == spec_base64_char(v as int),
        c < 128,
{
    if v < 26 {
        0x41 + v
    } else if v < 52 {
        0x61 + v - 26
    } else if v < 62 {
        0x30 + v - 52
    } else if v == 62 {
        0x2b
    } else {
        0x2f
    }
}

/// Encodes bytes as base64 text with padding.
pub fn from_bytes(input: &[u8]) -> (r: String)
    ensures
        r@ == ascii_chars(spec_from_bytes(input@)),
{
    let mut output: Vec<u8> = Vec::new();
    let mut i: usize = 0;
    proof {
        assert(input@.skip(0) =~= input@);
        assert(output@ + spec_from_bytes(input@) =~= spec_from_bytes(input@));
    }
    while input.len() - i >= 3
        invariant
            i <= input@.len(),
            all_ascii(output@),
            spec_from_bytes(input@) == output@ + spec_from_bytes(input@.skip(i as int)),
        decreases input@.len() - i,
    {
        let b0 = input[i];
        let b1 = input[i + 1];
        let b2 = input[i + 2];
        let ghost before = output@;
        let ghost rest = input@.skip(i as int);
        output.push(base64_char(b0 / 4));
        output.push(base64_char(b0 % 4 * 16 + b1 / 16));
        output.push(base64_char(b1 % 16 * 4 + b2 / 64));
        output.push(base64_char(b2 % 64));
        proof {
            assert(rest.skip(3) =~= input@.skip(i + 3));
            assert(before + (seq![
                spec_base64_char((rest[0] / 4) as int),
                spec_base64_char((rest[0] % 4 * 16 + rest[1] / 16) as int),
                spec_base64_char((rest[1] % 16 * 4 + rest[2] / 64) as int),
                spec_base64_char((rest[2] % 64) as int),
            ] + spec_from_bytes(rest.skip(3))) =~= output@ + spec_from_bytes(rest.skip(3)));
        }
        i += 3;
    }
    let ghost before = output@;
    let ghost rest = input@.skip(i as int);
    if input.len() - i == 2 {
        let b0 = input[i];
        let b1 = input[i + 1];
        output.push(base64_char(b0 / 4));
        output.push(base64_char(b0 % 4 * 16 + b1 / 16));
        output.push(base64_char(b1 % 16 * 4));
        output.push(0x3d);
        proof {
            assert(output@ =~= before + spec_from_bytes(rest));
        }
    } else if input.len() - i == 1 {
        let b0 = input[i];
        output.push(base64_char(b0 / 4));
        output.push(base64_char(b0 % 4 * 16));
        output.push(0x3d);
        output.push(0x3d);
        proof {
            assert(output@ =~= before + spec_from_bytes(rest));
        }
    } else {
        proof {
            assert(output@ =~= before + spec_from_bytes(rest));
        }
    }
    ascii_string(output)
}

proof fn lemma_sextets_concat(a: Seq<u8>, b: Seq<u8>)
    ensures
        spec_sextets(a + b) == spec_sextets(a) + spec_sextets(b),
    decreases b.len(),
{
    if b.len() == 0 {
        assert(a + b =~= a);
        assert(spec_sextets(a) + spec_sextets(b) =~= spec_sextets(a));
    } else {
        assert((a + b).drop_last() =~= a + b.drop_last());
        assert((a + b).last() == b.last());
        lemma_sextets_concat(a, b.drop_last());
        match spec_parse_base64_char(b.last()) {
            Base64CharParseResult::Value(v) => {
                assert((spec_sextets(a) + spec_sextets(b.drop_last())).push(v) =~= spec_sextets(a)
                    + spec_sextets(b.drop_last()).push(v));
            },
            _ => {},
        }
    }
}

proof fn lemma_char_value(v: int)
    requires
        0 <= v < 64,
    ensures
        spec_parse_base64_char(spec_base64_char(v)) == Base64CharParseResult::Value(v as u8),
{
}

proof fn lemma_sextets_of_digits(a: u8, b: u8, c: u8, d: u8, count: int)
    requires
        a < 64,
        b < 64,
        c < 64,
        d < 64,
        2 <= count <= 4,
    ensures
        count == 4 ==> spec_sextets(
            seq![
                spec_base64_char(a as int),
                spec_base64_char(b as int),
                spec_base64_char(c as int),
                spec_base64_char(d as int),
            ],
        ) == seq![a, b, c, d],
        count == 3 ==> spec_sextets(
            seq![
                spec_base64_char(a as int),
                spec_base64_char(b as int),
                spec_base64_char(c as int),
                0x3du8,
            ],
        ) == seq![a, b, c],
        count == 2 ==> spec_sextets(
            seq![spec_base64_char(a as int), spec_base64_char(b as int), 0x3du8, 0x3du8],
        ) == seq![a, b],
{
    lemma_char_value(a as int);
    lemma_char_value(b as int);
    lemma_char_value(c as int);
    lemma_char_value(d as int);
    let ca = spec_base64_char(a as int);
    let cb = spec_base64_char(b as int);
    let cc = spec_base64_char(c as int);
    let cd = spec_base64_char(d as int);
    let none = Seq::<u8>::empty();
    assert(spec_sextets(none) =~= none);
    assert(seq![ca].drop_last() =~= none);
    assert(spec_sextets(seq![ca]) =~= seq![a]);
    assert(seq![ca, cb].drop_last() =~= seq![ca]);
    assert(spec_sextets(seq![ca, cb]) =~= seq![a, b]);
    if count == 4 {
        assert(seq![ca, cb, cc].drop_last() =~= seq![ca, cb]);
        assert(spec_sextets(seq![ca, cb, cc]) =~= seq![a, b, c]);
        assert(seq![ca, cb, cc, cd].drop_last() =~= seq![ca, cb, cc]);
        assert(spec_sextets(seq![ca, cb, cc, cd]) =~= seq![a, b, c, d]);
    } else if count == 3 {
        assert(seq![ca, cb, cc].drop_last() =~= seq![ca, cb]);
        assert(spec_sextets(seq![ca, cb, cc]) =~= seq![a, b, c]);
        assert(seq![ca, cb, cc, 0x3du8].drop_last() =~= seq![ca, cb, cc]);
        assert(spec_sextets(seq![ca, cb, cc, 0x3du8]) =~= seq![a, b, c]);
    } else {
        assert(seq![ca, cb, 0x3du8].drop_last() =~= seq![ca, cb]);
        assert(spec_sextets(seq![ca, cb, 0x3du8]) =~= seq![a, b]);
        assert(seq![ca, cb, 0x3du8, 0x3du8].drop_last() =~= seq![ca, cb, 0x3du8]);
        assert(spec_sextets(seq![ca, cb, 0x3du8, 0x3du8]) =~= seq![a, b]);
    }
}

/// Reading what was written gives the bytes back: the base64 text of any
/// bytes has a length that is a multiple of four, holds only digits of the
/// alphabet and padding, and stands for these bytes.
pub proof fn lemma_base64_round_trip(bytes: Seq<u8>)
    ensures
        spec_from_bytes(bytes).len() % 4 == 0,
        spec_is_base64(spec_from_bytes(bytes)),
        spec_to_bytes(spec_from_bytes(bytes)) == Some(bytes),
    decreases bytes.len(),
{
    let text = spec_from_bytes(bytes);
    if bytes.len() == 0 {
        assert(spec_sextets(text) =~= Seq::<u8>::empty());
        assert(spec_decode(spec_sextets(text)) =~= bytes);
    } else if bytes.len() == 1 {
        let a = (bytes[0] / 4) as u8;
        let b = (bytes[0] % 4 * 16) as u8;
        lemma_sextets_of_digits(a, b, 0, 0, 2);
        lemma_char_value(a as int);
        lemma_char_value(b as int);
        assert(spec_decode(seq![a, b]) =~= bytes);
    } else if bytes.len() == 2 {
        let a = (bytes[0] / 4) as u8;
        let b = (bytes[0] % 4 * 16 + bytes[1] / 16) as u8;
        let c = (bytes[1] % 16 * 4) as u8;
        lemma_sextets_of_digits(a, b, c, 0, 3);
        lemma_char_value(a as int);
        lemma_char_value(b as int);
        lemma_char_value(c as int);
        assert(spec_decode(seq![a, b, c]) =~= bytes);
    } else {
        let a = (bytes[0] / 4) as u8;
        let b = (bytes[0] % 4 * 16 + bytes[1] / 16) as u8;
        let c = (bytes[1] % 16 * 4 + bytes[2] / 64) as u8;
        let d = (bytes[2] % 64) as u8;
        let rest = bytes.skip(3);
        lemma_base64_round_trip(rest);
        lemma_sextets_of_digits(a, b, c, d, 4);
        lemma_char_value(a as int);
        lemma_char_value(b as int);
        lemma_char_value(c as int);
        lemma_char_value(d as int);
        let group = seq![
            spec_base64_char(a as int),
            spec_base64_char(b as int),
            spec_base64_char(c as int),
            spec_base64_char(d as int),
        ];
        let tail = spec_from_bytes(rest);
        assert(text == group + tail);
        lemma_sextets_concat(group, tail);
        let values = seq![a, b, c, d] + spec_sextets(tail);
        assert(values.skip(4) =~= spec_sextets(tail));
        assert(values[0] == a && values[1] == b && values[2] == c && values[3] == d);
        assert(spec_decode(values) =~= seq![bytes[0], bytes[1], bytes[2]] + rest);
        assert(seq![bytes[0], bytes[1], bytes[2]] + rest =~= bytes);
        assert forall|i: int| 0 <= i < text.len() implies #[trigger] spec_parse_base64_char(
            text[i],
        ) != Base64CharParseResult::Unknown by {
            if i >= 4 {
                assert(text[i] == tail[i - 4]);
            }
        }
    }
}

} // verus!

//! Bytes as hex literals, and back.

use vstd::prelude::*;
use vstd::string::StringSliceAdditionalSpecFns;
use vstd::utf8::encode_utf8;
use crate::text::{all_ascii, ascii_chars, ascii_string};

verus! {

/// The character `-`, which may stand between hex digits.
pub const DASH: u8 = 0x2d;

/// The value of a hex digit, upper or lower case.
pub open spec fn spec_hex_char_value(u: u8) -> Option<u8> {
    if 0x30 <= u <= 0x39 {
        Some((u - 0x30) as u8)
    } else if 0x41 <= u <= 0x46 {
        Some((u - 0x41 + 10) as u8)
    } else if 0x61 <= u <= 0x66 {
        Some((u - 0x61 + 10) as u8)
    } else {
        None
    }
}

/// The value of the hex digit `u`, or nothing where `u` is no hex digit.
pub fn hex_char_value(u: u8) -> (r: Option<u8>)
    ensures
        r == spec_hex_char_value(u),
        r matches Some(v) ==> v < 16,
{
    if (u >= 0x30) && (u <= 0x39) {
        return Some(u - 0x30);
    }
    if (u >= 0x41) && (u <= 0x46) {
        return Some(u - 0x41 + 10);
    }
    if (u >= 0x61) && (u <= 0x66) {
        return Some(u - 0x61 + 10);
    }
    None
}

/// The values of the hex digits of `s`, dashes left out; nothing where `s`
/// holds anything but hex digits and dashes.
pub open spec fn spec_digits(s: Seq<u8>) -> Option<Seq<u8>>
    decreases s.len(),
{
    if s.len() == 0 {
        Some(Seq::empty())
    } else {
        match spec_digits(s.drop_last()) {
            None => None,
            Some(digits) => if s.last() == DASH {
                Some(digits)
            } else {
                match spec_hex_char_value(s.last()) {
                    None => None,
                    Some(v) => Some(digits.push(v)),
                }
            },
        }
    }
}

/// Digit values packed two to a byte, the first of a pair being the high
/// half. A digit left over at the end is a byte of its own.
pub open spec fn spec_pack(digits: Seq<u8>) -> Seq<u8>
    decreases digits.len(),
{
    if digits.len() == 0 {
        Seq::empty()
    } else if digits.len() == 1 {
        seq![digits[0]]
    } else {
        seq![(digits[0] * 16 + digits[1]) as u8] + spec_pack(digits.skip(2))
    }
}

/// Whether the text starts with `0x`.
pub open spec fn has_prefix(input: Seq<u8>) -> bool {
    input.len() > 1 && input[0] == 0x30 && input[1] == 0x78
}

/// The text behind a leading `0x`, or the whole text where it has none.
pub open spec fn spec_body(input: Seq<u8>) -> Seq<u8> {
    if has_prefix(input) {
        input.skip(2)
    } else {
        input
    }
}

/// The bytes that a hex literal stands for.
///
/// A leading `0x` is skipped. Where what follows has an odd number of
/// characters, dashes counted, the first must be a hex digit and is a byte of
/// its own. After that, dashes are skipped and the digits are packed two to a
/// byte. Any other character makes the literal invalid.
pub open spec fn spec_to_bytes(input: Seq<u8>) -> Option<Seq<u8>> {
    let body = spec_body(input);
    if body.len() % 2 == 1 {
        match spec_hex_char_value(body[0]) {
            None => None,
            Some(first) => match spec_digits(body.skip(1)) {
                None => None,
                Some(digits) => Some(seq![first] + spec_pack(digits)),
            },
        }
    } else {
        match spec_digits(body) {
            None => None,
            Some(digits) => Some(spec_pack(digits)),
        }
    }
}

proof fn lemma_pack_pair(digits: Seq<u8>, hi: u8, lo: u8)
    requires
        digits.len() % 2 == 0,
    ensures
        spec_pack(digits.push(hi).push(lo)) == spec_pack(digits).push((hi * 16 + lo) as u8),
    decreases digits.len(),
{
    let full = digits.push(hi).push(lo);
    if digits.len() == 0 {
        assert(full.skip(2) =~= Seq::<u8>::empty());
        assert(spec_pack(full.skip(2)) =~= Seq::<u8>::empty());
        assert(spec_pack(full) =~= seq![(hi * 16 + lo) as u8]);
        assert(spec_pack(digits).push((hi * 16 + lo) as u8) =~= seq![(hi * 16 + lo) as u8]);
    } else {
        assert(full.skip(2) =~= digits.skip(2).push(hi).push(lo));
        lemma_pack_pair(digits.skip(2), hi, lo);
        assert(spec_pack(full) =~= spec_pack(digits).push((hi * 16 + lo) as u8));
    }
}

proof fn lemma_pack_single(digits: Seq<u8>, last: u8)
    requires
        digits.len() % 2 == 0,
    ensures
        spec_pack(digits.push(last)) == spec_pack(digits).push(last),
    decreases digits.len(),
{
    let full = digits.push(last);
    if digits.len() == 0 {
        assert(spec_pack(full) =~= spec_pack(digits).push(last));
    } else {
        assert(full.skip(2) =~= digits.skip(2).push(last));
        lemma_pack_single(digits.skip(2), last);
        assert(spec_pack(full) =~= spec_pack(digits).push(last));
    }
}

/// Decodes a hex literal into bytes, or returns nothing where the text is not
/// a valid one.
pub fn to_bytes(input: &str) -> (r: Option<Vec<u8>>)
    ensures
        match r {
            Some(bytes) => spec_to_bytes(encode_utf8(input@)) == Some(bytes@),
            None => spec_to_bytes(encode_utf8(input@)).is_none(),
        },
{
    let bytes = input.as_bytes();
    if bytes.len() == 0 {
        proof {
            assert(spec_digits(bytes@) == Some(Seq::<u8>::empty()));
        }
        return Some(Vec::new());
    }
    let mut start_index: usize = 0;
    if (bytes.len() > 1) && (bytes[0] == 0x30) && (bytes[1] == 0x78) {
        start_index = 2;
    }
    let ghost body = bytes@.skip(start_index as int);
    proof {
        assert(body =~= spec_body(bytes@));
    }
    let mut result: Vec<u8> = Vec::new();
    if (bytes.len() - start_index) % 2 == 1 {
        let hexval = match hex_char_value(bytes[start_index]) {
            Some(x) => x,
            None => {
                return None;
            },
        };
        result.push(hexval);
        start_index += 1;
    }
    let ghost first = result@;
    let ghost rest = bytes@.skip(start_index as int);
    let mut current_byte: u8 = 0;
    let mut nibble_count: usize = 0;
    let mut i: usize = start_index;
    let ghost mut digits: Seq<u8> = Seq::empty();
    proof {
        assert(rest.take(0) =~= Seq::<u8>::empty());
        if body.len() % 2 == 1 {
            assert(rest =~= body.skip(1));
            assert(first =~= seq![spec_hex_char_value(body[0])->Some_0]);
        } else {
            assert(rest =~= body);
            match spec_digits(rest) {
                Some(d) => {
                    assert(first + spec_pack(d) =~= spec_pack(d));
                },
                None => {},
            }
        }
    }
    while i < bytes.len()
        invariant
            start_index <= i <= bytes@.len(),
            bytes@ == encode_utf8(input@),
            rest == bytes@.skip(start_index as int),
            spec_to_bytes(bytes@) == (match spec_digits(rest) {
                None => None::<Seq<u8>>,
                Some(d) => Some(first + spec_pack(d)),
            }),
            spec_digits(rest.take(i - start_index)) == Some(digits),
            nibble_count == digits.len() % 2,
            nibble_count == 0 ==> current_byte == 0 && result@ == first + spec_pack(digits),
            nibble_count == 1 ==> current_byte == digits.last() && current_byte < 16 && result@
                == first + spec_pack(digits.drop_last()),
        decreases bytes@.len() - i,
    {
        let ghost seen = rest.take(i - start_index);
        let ghost next = rest.take(i + 1 - start_index);
        proof {
            assert(next.drop_last() =~= seen);
            assert(next.last() == bytes@[i as int]);
        }
        if bytes[i] == DASH {
            i += 1;
            continue ;
        }
        let hexval = match hex_char_value(bytes[i]) {
            Some(x) => x,
            None => {
                proof {
                    assert(spec_digits(next).is_none());
                    lemma_digits_prefix(rest, i + 1 - start_index);
                }
                return None;
            },
        };
        assert((current_byte << 4) | hexval == current_byte * 16 + hexval) by (bit_vector)
            requires
                current_byte < 16,
                hexval < 16,
        ;
        current_byte = (current_byte << 4) | hexval;
        nibble_count += 1;
        proof {
            if nibble_count == 2 {
                let even = digits.drop_last();
                assert(digits.push(hexval) =~= even.push(digits.last()).push(hexval));
                lemma_pack_pair(even, digits.last(), hexval);
                assert(first + spec_pack(even).push(current_byte) =~= (first + spec_pack(
                    even,
                )).push(current_byte));
            } else {
                assert(digits.push(hexval).drop_last() =~= digits);
            }
            digits = digits.push(hexval);
        }
        if nibble_count == 2 {
            result.push(current_byte);
            nibble_count = 0;
            current_byte = 0;
        }
        i += 1;
    }
    proof {
        assert(rest.take(i - start_index) =~= rest);
    }
    if nibble_count != 0 {
        result.push(current_byte);
        proof {
            let even = digits.drop_last();
            assert(digits =~= even.push(digits.last()));
            lemma_pack_single(even, digits.last());
            assert(first + spec_pack(even).push(current_byte) =~= (first + spec_pack(even)).push(
                current_byte,
            ));
        }
    }
    Some(result)
}

/// Where a prefix of `s` holds an invalid character, so does `s`.
proof fn lemma_digits_prefix(s: Seq<u8>, n: int)
    requires
        0 <= n <= s.len(),
        spec_digits(s.take(n)).is_none(),
    ensures
        spec_digits(s).is_none(),
    decreases s.len() - n,
{
    if n < s.len() {
        assert(s.take(n + 1).drop_last() =~= s.take(n));
        lemma_digits_prefix(s, n + 1);
    } else {
        assert(s.take(n) =~= s);
    }
}

/// The upper-case hex digit for a value below 16.
pub open spec fn spec_hex_digit(value: u8) -> u8 {
    if value < 10 {
        (0x30 + value) as u8
    } else {
        (0x41 + value - 10) as u8
    }
}

/// The text of a hex literal, as ASCII: `0x`, then for each byte its two
/// upper-case hex digits, high half first.
pub open spec fn spec_from_bytes(input: Seq<u8>) -> Seq<u8> {
    Seq::new(
        2 + 2 * input.len(),
        |i: int|
            if i == 0 {
                0x30u8
            } else if i == 1 {
                0x78u8
            } else if i % 2 == 0 {
                spec_hex_digit(input[(i - 2) / 2] / 16)
            } else {
                spec_hex_digit(input[(i - 2) / 2] % 16)
            },
    )
}

fn hex_digit(value: u8) -> (c: u8)
    requires
        value < 16,
    ensures
        c == spec_hex_digit(value),
        c < 128,
{
    if value < 10 {
        0x30 + value
    } else {
        0x41 + value - 10
    }
}

/// Writes bytes as a hex literal with a leading `0x` and upper-case digits.
pub fn from_bytes(input: &[u8]) -> (r: String)
    ensures
        r@ == ascii_chars(spec_from_bytes(input@)),
{
    let mut output: Vec<u8> = Vec::new();
    output.push(0x30);
    output.push(0x78);
    let mut i: usize = 0;
    while i < input.len()
        invariant
            i <= input@.len(),
            output@.len() == 2 + 2 * i,
            forall|k: int| 0 <= k < output@.len() ==> output@[k] == spec_from_bytes(input@)[k],
            all_ascii(output@),
        decreases input@.len() - i,
    {
        let b = input[i];
        output.push(hex_digit(b / 16));
        output.push(hex_digit(b % 16));
        i += 1;
    }
    proof {
        assert(output@ =~= spec_from_bytes(input@));
    }
    ascii_string(output)
}

/// The two hex digits of each byte as values, high half first.
pub open spec fn spec_nibbles(bytes: Seq<u8>) -> Seq<u8> {
    Seq::new(
        2 * bytes.len(),
        |i: int|
            if i % 2 == 0 {
                bytes[i / 2] / 16
            } else {
                bytes[i / 2] % 16
            },
    )
}

proof fn lemma_digits_of_text(bytes: Seq<u8>)
    ensures
        spec_digits(spec_from_bytes(bytes).skip(2)) == Some(spec_nibbles(bytes)),
        spec_pack(spec_nibbles(bytes)) == bytes,
    decreases bytes.len(),
{
    let text = spec_from_bytes(bytes).skip(2);
    if bytes.len() == 0 {
        assert(text =~= Seq::<u8>::empty());
        assert(spec_nibbles(bytes) =~= Seq::<u8>::empty());
        assert(spec_pack(spec_nibbles(bytes)) =~= bytes);
    } else {
        let shorter = bytes.drop_last();
        let x = bytes.last();
        lemma_digits_of_text(shorter);
        let before = spec_from_bytes(shorter).skip(2);
        let hi = spec_hex_digit(x / 16);
        let lo = spec_hex_digit(x % 16);
        assert(text =~= before.push(hi).push(lo)) by {
            assert(text.len() == before.len() + 2);
            assert forall|i: int| 0 <= i < before.len() implies text[i] == before[i] by {
                assert(shorter[i / 2] == bytes[i / 2]);
            }
        }
        assert(text.drop_last() =~= before.push(hi));
        assert(text.drop_last().drop_last() =~= before);
        assert(spec_hex_char_value(hi) == Some((x / 16) as u8));
        assert(spec_hex_char_value(lo) == Some((x % 16) as u8));
        assert(spec_digits(before.push(hi)) == Some(spec_nibbles(shorter).push((x / 16) as u8)));
        let nibbles = spec_nibbles(shorter).push((x / 16) as u8).push((x % 16) as u8);
        assert(nibbles =~= spec_nibbles(bytes)) by {
            assert forall|i: int| 0 <= i < spec_nibbles(shorter).len() implies nibbles[i]
                == spec_nibbles(bytes)[i] by {
                assert(shorter[i / 2] == bytes[i / 2]);
            }
        }
        lemma_pack_pair(spec_nibbles(shorter), (x / 16) as u8, (x % 16) as u8);
        assert(shorter.push(x) =~= bytes);
    }
}

/// Reading what was written gives the bytes back: the hex literal of any
/// bytes is a valid one and stands for these bytes.
pub proof fn lemma_hex_round_trip(bytes: Seq<u8>)
    ensures
        spec_to_bytes(spec_from_bytes(bytes)) == Some(bytes),
{
    let text = spec_from_bytes(bytes);
    lemma_digits_of_text(bytes);
    assert(has_prefix(text));
    assert(spec_body(text).len() % 2 == 0);
}

} // verus!

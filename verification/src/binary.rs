//! Bytes as binary literals, and back.

use vstd::prelude::*;
use vstd::string::StringSliceAdditionalSpecFns;
use vstd::utf8::encode_utf8;
use crate::text::{all_ascii, ascii_chars, ascii_string, reversed};
use crate::{is_char_ignorable, spec_is_char_ignorable};

verus! {

/// The value of a binary digit.
pub open spec fn spec_bit_value(c: u8) -> Option<u8> {
    if c == 0x30 {
        Some(0u8)
    } else if c == 0x31 {
        Some(1u8)
    } else {
        None
    }
}

/// The binary digits of `s` as values, separators left out; nothing where
/// `s` holds anything but binary digits and separators.
pub open spec fn spec_bits(s: Seq<u8>) -> Option<Seq<u8>>
    decreases s.len(),
{
    if s.len() == 0 {
        Some(Seq::empty())
    } else {
        match spec_bits(s.drop_first()) {
            None => None,
            Some(bits) => if spec_is_char_ignorable(s[0]) {
                Some(bits)
            } else {
                match spec_bit_value(s[0]) {
                    None => None,
                    Some(v) => Some(seq![v] + bits),
                }
            },
        }
    }
}

/// The number that the bits, most significant first, are the binary digits of.
pub open spec fn spec_value(bits: Seq<u8>) -> nat
    decreases bits.len(),
{
    if bits.len() == 0 {
        0
    } else {
        2 * spec_value(bits.drop_last()) + bits.last() as nat
    }
}

/// Bits packed eight to a byte from the right: where their number is no
/// multiple of eight, it is the first byte that holds fewer.
pub open spec fn spec_pack_bits(bits: Seq<u8>) -> Seq<u8> {
    let r = (bits.len() % 8) as int;
    let whole = Seq::new(
        bits.len() / 8,
        |j: int| spec_value(bits.subrange(r + 8 * j, r + 8 * j + 8)) as u8,
    );
    if r == 0 {
        whole
    } else {
        seq![spec_value(bits.take(r)) as u8] + whole
    }
}

/// Whether the text starts with `0b`.
pub open spec fn has_prefix(input: Seq<u8>) -> bool {
    input.len() > 1 && input[0] == 0x30 && input[1] == 0x62
}

/// The text behind a leading `0b`, or the whole text where it has none.
pub open spec fn spec_body(input: Seq<u8>) -> Seq<u8> {
    if has_prefix(input) {
        input.skip(2)
    } else {
        input
    }
}

/// The bytes that a binary literal stands for: a leading `0b` is skipped,
/// the separators ` `, `-`, `_` and `,` are skipped, and the digits are packed
/// eight to a byte from the right. Any other character makes the literal
/// invalid.
pub open spec fn spec_to_bytes(input: Seq<u8>) -> Option<Seq<u8>> {
    match spec_bits(spec_body(input)) {
        None => None,
        Some(bits) => Some(spec_pack_bits(bits)),
    }
}

/// Two to the power `k`.
pub open spec fn weight(k: nat) -> nat
    decreases k,
{
    if k == 0 {
        1
    } else {
        2 * weight((k - 1) as nat)
    }
}

proof fn lemma_shift_weight(k: u8)
    requires
        k < 8,
    ensures
        (1u8 << k) == weight(k as nat),
    decreases k,
{
    if k == 0 {
        assert(1u8 << 0u8 == 1) by (bit_vector);
    } else {
        let j = (k - 1) as u8;
        lemma_shift_weight(j);
        assert(1u8 << k == 2 * (1u8 << j)) by (bit_vector)
            requires
                0 < k < 8,
                j == k - 1,
        ;
    }
}

/// All the values are 0 or 1.
pub open spec fn all_bits(bits: Seq<u8>) -> bool {
    forall|k: int| 0 <= k < bits.len() ==> bits[k] <= 1
}

proof fn lemma_value_bound(bits: Seq<u8>)
    requires
        all_bits(bits),
    ensures
        spec_value(bits) < weight(bits.len()),
    decreases bits.len(),
{
    if bits.len() > 0 {
        lemma_value_bound(bits.drop_last());
    }
}

proof fn lemma_value_prepend(x: u8, bits: Seq<u8>)
    ensures
        spec_value(seq![x] + bits) == x as nat * weight(bits.len()) + spec_value(bits),
    decreases bits.len(),
{
    let full = seq![x] + bits;
    if bits.len() == 0 {
        let none = full.drop_last();
        assert(none.len() == 0);
        assert(spec_value(none) == 0);
        assert(full.last() == x);
        assert(spec_value(full) == 2 * spec_value(none) + x as nat);
        assert(weight(0) == 1);
        assert(spec_value(bits) == 0);
        assert(x as nat * 1 == x as nat);
    } else {
        let shorter = bits.drop_last();
        assert(full.drop_last() =~= seq![x] + shorter);
        assert(full.last() == bits.last());
        lemma_value_prepend(x, shorter);
        let w = weight(shorter.len());
        let head = x as nat * w;
        assert(weight(bits.len()) == 2 * w);
        assert(x as nat * (2 * w) == 2 * head) by (nonlinear_arith)
            requires
                head == x as nat * w,
        ;
        assert(spec_value(full) == 2 * spec_value(seq![x] + shorter) + bits.last() as nat);
        assert(spec_value(seq![x] + shorter) == head + spec_value(shorter));
        assert(spec_value(bits) == 2 * spec_value(shorter) + bits.last() as nat);
    }
}

proof fn lemma_bits_are_bits(s: Seq<u8>)
    requires
        spec_bits(s) is Some,
    ensures
        all_bits(spec_bits(s)->Some_0),
    decreases s.len(),
{
    if s.len() > 0 {
        lemma_bits_are_bits(s.drop_first());
    }
}

/// Where a suffix of `s` holds an invalid character, so does `s`.
proof fn lemma_bits_suffix(s: Seq<u8>, k: int)
    requires
        0 <= k <= s.len(),
        spec_bits(s.skip(k)).is_none(),
    ensures
        spec_bits(s).is_none(),
    decreases k,
{
    if k > 0 {
        assert(s.skip(k - 1).drop_first() =~= s.skip(k));
        lemma_bits_suffix(s, k - 1);
    } else {
        assert(s.skip(0) =~= s);
    }
}

/// Decodes a binary literal into bytes, or returns nothing where the text is
/// not a valid one.
pub fn to_bytes(input: &str) -> (r: Option<Vec<u8>>)
    ensures
        match r {
            Some(bytes) => spec_to_bytes(encode_utf8(input@)) == Some(bytes@),
            None => spec_to_bytes(encode_utf8(input@)).is_none(),
        },
{
    let bytes = input.as_bytes();
    let mut start_index: usize = 0;
    if (bytes.len() > 1) && (bytes[0] == 0x30) && (bytes[1] == 0x62) {
        start_index = 2;
    }
    let ghost body = bytes@.skip(start_index as int);
    let mut result: Vec<u8> = Vec::new();
    let mut current_byte: u8 = 0;
    let mut bit_count: u8 = 0;
    let mut i: usize = bytes.len();
    let ghost mut bits: Seq<u8> = Seq::empty();
    proof {
        assert(body =~= spec_body(bytes@));
        assert(body.skip(body.len() as int) =~= Seq::<u8>::empty());
        assert(bits.take(0) =~= Seq::<u8>::empty());
    }
    while i > start_index
        invariant
            start_index <= i <= bytes@.len(),
            bytes@ == encode_utf8(input@),
            body == bytes@.skip(start_index as int),
            body == spec_body(bytes@),
            spec_bits(body.skip(i - start_index)) == Some(bits),
            all_bits(bits),
            bit_count == bits.len() % 8,
            current_byte == spec_value(bits.take(bit_count as int)),
            result@.len() == bits.len() / 8,
            forall|j: int|
                0 <= j < result@.len() ==> result@[j] == spec_value(
                    bits.subrange(bits.len() - 8 * (j + 1), bits.len() - 8 * j),
                ),
        decreases i,
    {
        i -= 1;
        let ghost suffix = body.skip(i - start_index);
        proof {
            assert(suffix.drop_first() =~= body.skip(i + 1 - start_index));
            assert(suffix[0] == bytes@[i as int]);
        }
        if is_char_ignorable(bytes[i]) {
            continue ;
        }
        let c = bytes[i];
        let bitval: u8 = if c == 0x30 {
            0
        } else if c == 0x31 {
            1
        } else {
            proof {
                assert(spec_bits(suffix).is_none());
                lemma_bits_suffix(body, i - start_index);
            }
            return None;
        };
        let ghost group = bits.take(bit_count as int);
        let ghost grown = seq![bitval] + bits;
        proof {
            lemma_value_bound(group);
            lemma_value_prepend(bitval, group);
            lemma_shift_weight(bit_count);
            assert(current_byte | (bitval << bit_count) == current_byte + bitval * (1u8
                << bit_count)) by (bit_vector)
                requires
                    bit_count < 8,
                    current_byte < (1u8 << bit_count),
                    bitval <= 1,
            ;
            assert(grown.take(bit_count as int + 1) =~= seq![bitval] + group);
            assert forall|j: int| 0 <= j < result@.len() implies result@[j] == spec_value(
                grown.subrange(grown.len() - 8 * (j + 1), grown.len() - 8 * j),
            ) by {
                assert(grown.subrange(grown.len() - 8 * (j + 1), grown.len() - 8 * j)
                    =~= bits.subrange(bits.len() - 8 * (j + 1), bits.len() - 8 * j));
            }
            if bit_count == 7 {
                assert(grown.take(8) =~= grown.subrange(
                    grown.len() - 8 * (result@.len() + 1),
                    grown.len() - 8 * result@.len(),
                ));
                lemma_value_bound(grown.take(8));
                assert(weight(8) == 256) by {
                    reveal_with_fuel(weight, 9);
                }
            }
            assert(grown.take(0) =~= Seq::<u8>::empty());
            bits = grown;
        }
        current_byte |= bitval << bit_count;
        bit_count += 1;
        if bit_count == 8 {
            result.push(current_byte);
            bit_count = 0;
            current_byte = 0;
        }
    }
    proof {
        assert(body.skip(0) =~= body);
    }
    if bit_count != 0 {
        result.push(current_byte);
    }
    let out = reversed(result);
    proof {
        let n = bits.len() as int;
        let r = bit_count as int;
        let expected = spec_pack_bits(bits);
        assert(out@.len() == expected.len());
        assert forall|j: int| 0 <= j < out@.len() implies out@[j] == expected[j] by {
            if r == 0 {
                assert(bits.subrange(n - 8 * (n / 8 - 1 - j + 1), n - 8 * (n / 8 - 1 - j))
                    =~= bits.subrange(r + 8 * j, r + 8 * j + 8));
            } else if j > 0 {
                assert(bits.subrange(n - 8 * (n / 8 - j + 1), n - 8 * (n / 8 - j))
                    =~= bits.subrange(r + 8 * (j - 1), r + 8 * (j - 1) + 8));
            }
        }
        assert(out@ =~= expected);
    }
    Some(out)
}

/// The character of bit `k` of `byte`, bit 0 being the least significant.
pub open spec fn spec_bit_char(byte: u8, k: u8) -> u8 {
    (0x30 + ((byte >> k) & 1u8)) as u8
}

/// The binary digits of all the bytes, eight for each, most significant
/// first.
pub open spec fn spec_digits(input: Seq<u8>) -> Seq<u8> {
    Seq::new(8 * input.len(), |i: int| spec_bit_char(input[i / 8], (7 - i % 8) as u8))
}

/// The digits without the zeros they start with.
pub open spec fn spec_trim(digits: Seq<u8>) -> Seq<u8>
    decreases digits.len(),
{
    if digits.len() == 0 || digits[0] != 0x30 {
        digits
    } else {
        spec_trim(digits.drop_first())
    }
}

/// The text of a binary literal, as ASCII: `0b`, then the digits of the
/// bytes, with or without the zeros they start with.
pub open spec fn spec_from_bytes(input: Seq<u8>, trim_leading_zeros: bool) -> Seq<u8> {
    seq![0x30u8, 0x62u8] + (if trim_leading_zeros {
        spec_trim(spec_digits(input))
    } else {
        spec_digits(input)
    })
}

proof fn lemma_trim_push(digits: Seq<u8>, c: u8)
    ensures
        spec_trim(digits.push(c)) == (if spec_trim(digits).len() == 0 && c == 0x30 {
            Seq::<u8>::empty()
        } else {
            spec_trim(digits).push(c)
        }),
    decreases digits.len(),
{
    let full = digits.push(c);
    if digits.len() == 0 {
        assert(full.drop_first() =~= Seq::<u8>::empty());
        if c == 0x30 {
            assert(spec_trim(full.drop_first()) =~= Seq::<u8>::empty());
        }
    } else if digits[0] != 0x30 {
    } else {
        assert(full.drop_first() =~= digits.drop_first().push(c));
        lemma_trim_push(digits.drop_first(), c);
    }
}

/// Writes bytes as a binary literal with a leading `0b`; with
/// `trim_leading_zeros`, the zeros in front of the first one are left out, and
/// bytes that are all zero give `0b` alone.
pub fn from_bytes(input: &[u8], trim_leading_zeros: bool) -> (r: String)
    ensures
        r@ == ascii_chars(spec_from_bytes(input@, trim_leading_zeros)),
{
    let mut output: Vec<u8> = Vec::new();
    output.push(0x30);
    output.push(0x62);
    let mut nonzero_seen = false;
    let ghost digits = spec_digits(input@);
    let mut i: usize = 0;
    proof {
        assert(digits.take(0) =~= Seq::<u8>::empty());
        assert(output@ =~= seq![0x30u8, 0x62u8] + Seq::<u8>::empty());
    }
    while i < input.len()
        invariant
            i <= input@.len(),
            digits == spec_digits(input@),
            all_ascii(output@),
            trim_leading_zeros ==> output@ == seq![0x30u8, 0x62u8] + spec_trim(
                digits.take(8 * i),
            ),
            trim_leading_zeros ==> (nonzero_seen <==> spec_trim(digits.take(8 * i)).len() > 0),
            !trim_leading_zeros ==> output@ == seq![0x30u8, 0x62u8] + digits.take(8 * i),
        decreases input@.len() - i,
    {
        let byte = input[i];
        let mut done: u8 = 0;
        while done < 8
            invariant
                i < input@.len(),
                    byte == input@[i as int],
                done <= 8,
                digits == spec_digits(input@),
                all_ascii(output@),
                trim_leading_zeros ==> output@ == seq![0x30u8, 0x62u8] + spec_trim(
                    digits.take(8 * i + done),
                ),
                trim_leading_zeros ==> (nonzero_seen <==> spec_trim(
                    digits.take(8 * i + done),
                ).len() > 0),
                !trim_leading_zeros ==> output@ == seq![0x30u8, 0x62u8] + digits.take(
                    8 * i + done,
                ),
            decreases 8 - done,
        {
            let bit: u8 = 7 - done;
            assert(((byte >> bit) & 1u8) <= 1) by (bit_vector);
            let bit_char: u8 = 0x30 + ((byte >> bit) & 1u8);
            let ghost seen = digits.take(8 * i + done);
            proof {
                assert(digits[8 * i + done] == bit_char);
                assert(digits.take(8 * i + done + 1) =~= seen.push(bit_char));
                lemma_trim_push(seen, bit_char);
            }
            done += 1;
            if trim_leading_zeros && !nonzero_seen {
                if bit_char == 0x30 {
                    continue ;
                }
                nonzero_seen = true;
            }
            let ghost before = output@;
            output.push(bit_char);
            proof {
                if trim_leading_zeros {
                    assert(before.push(bit_char) =~= seq![0x30u8, 0x62u8] + spec_trim(seen).push(
                        bit_char,
                    ));
                } else {
                    assert(before.push(bit_char) =~= seq![0x30u8, 0x62u8] + seen.push(bit_char));
                }
            }
        }
        i += 1;
    }
    proof {
        assert(digits.take(8 * i) =~= digits);
    }
    ascii_string(output)
}

proof fn lemma_bits_of_digits(s: Seq<u8>)
    requires
        forall|i: int| 0 <= i < s.len() ==> #[trigger] s[i] == 0x30 || s[i] == 0x31,
    ensures
        spec_bits(s) == Some(Seq::new(s.len(), |i: int| (s[i] - 0x30) as u8)),
    decreases s.len(),
{
    let values = Seq::new(s.len(), |i: int| (s[i] - 0x30) as u8);
    if s.len() == 0 {
        assert(values =~= Seq::<u8>::empty());
    } else {
        let tail = s.drop_first();
        assert forall|i: int| 0 <= i < tail.len() implies #[trigger] tail[i] == 0x30 || tail[i]
            == 0x31 by {
            assert(tail[i] == s[i + 1]);
        }
        lemma_bits_of_digits(tail);
        let rest = Seq::new(tail.len(), |i: int| (tail[i] - 0x30) as u8);
        assert(s[0] == 0x30 || s[0] == 0x31);
        assert(seq![(s[0] - 0x30) as u8] + rest =~= values);
    }
}

proof fn lemma_value_of_eight(s: Seq<u8>)
    requires
        s.len() == 8,
    ensures
        spec_value(s) == 128 * s[0] + 64 * s[1] + 32 * s[2] + 16 * s[3] + 8 * s[4] + 4 * s[5] + 2
            * s[6] + s[7],
{
    let s7 = s.drop_last();
    let s6 = s7.drop_last();
    let s5 = s6.drop_last();
    let s4 = s5.drop_last();
    let s3 = s4.drop_last();
    let s2 = s3.drop_last();
    let s1 = s2.drop_last();
    let s0 = s1.drop_last();
    assert(spec_value(s0) == 0);
    assert(spec_value(s1) == 2 * spec_value(s0) + s1.last());
    assert(spec_value(s2) == 2 * spec_value(s1) + s2.last());
    assert(spec_value(s3) == 2 * spec_value(s2) + s3.last());
    assert(spec_value(s4) == 2 * spec_value(s3) + s4.last());
    assert(spec_value(s5) == 2 * spec_value(s4) + s5.last());
    assert(spec_value(s6) == 2 * spec_value(s5) + s6.last());
    assert(spec_value(s7) == 2 * spec_value(s6) + s7.last());
    assert(spec_value(s) == 2 * spec_value(s7) + s.last());
    assert(s1.last() == s[0] && s2.last() == s[1] && s3.last() == s[2] && s4.last() == s[3]);
    assert(s5.last() == s[4] && s6.last() == s[5] && s7.last() == s[6] && s.last() == s[7]);
}

proof fn lemma_bits_of_byte(b: u8)
    ensures
        128 * ((b >> 7u8) & 1u8) + 64 * ((b >> 6u8) & 1u8) + 32 * ((b >> 5u8) & 1u8) + 16 * ((b
            >> 4u8) & 1u8) + 8 * ((b >> 3u8) & 1u8) + 4 * ((b >> 2u8) & 1u8) + 2 * ((b >> 1u8)
            & 1u8) + ((b >> 0u8) & 1u8) == b,
        forall|k: u8| k < 8 ==> #[trigger] ((b >> k) & 1u8) <= 1,
{
    assert(128 * ((b >> 7u8) & 1u8) + 64 * ((b >> 6u8) & 1u8) + 32 * ((b >> 5u8) & 1u8) + 16 * ((b
        >> 4u8) & 1u8) + 8 * ((b >> 3u8) & 1u8) + 4 * ((b >> 2u8) & 1u8) + 2 * ((b >> 1u8) & 1u8)
        + ((b >> 0u8) & 1u8) == b) by (bit_vector);
    assert(forall|k: u8| k < 8 ==> #[trigger] ((b >> k) & 1u8) <= 1) by (bit_vector);
}

/// Reading what was written in full gives the bytes back: the binary
/// literal of any bytes, leading zeros kept, is a valid one and stands for
/// these bytes.
pub proof fn lemma_binary_round_trip(bytes: Seq<u8>)
    ensures
        spec_to_bytes(spec_from_bytes(bytes, false)) == Some(bytes),
{
    let digits = spec_digits(bytes);
    let text = spec_from_bytes(bytes, false);
    assert(has_prefix(text));
    assert(spec_body(text) =~= digits);
    assert forall|i: int| 0 <= i < digits.len() implies #[trigger] digits[i] == 0x30 || digits[i]
        == 0x31 by {
        lemma_bits_of_byte(bytes[i / 8]);
        let k = (7 - i % 8) as u8;
        assert(((bytes[i / 8] >> k) & 1u8) <= 1);
    }
    lemma_bits_of_digits(digits);
    let bits = Seq::new(digits.len(), |i: int| (digits[i] - 0x30) as u8);
    let packed = spec_pack_bits(bits);
    assert(packed.len() == bytes.len());
    assert forall|j: int| 0 <= j < bytes.len() implies packed[j] == bytes[j] by {
        let group = bits.subrange(8 * j, 8 * j + 8);
        let b = bytes[j];
        lemma_value_of_eight(group);
        lemma_bits_of_byte(b);
        assert forall|m: int| 0 <= m < 8 implies group[m] == ((b >> ((7 - m) as u8)) & 1u8) by {
            let i = 8 * j + m;
            assert(group[m] == bits[i]);
            assert(i / 8 == j && i % 8 == m);
            assert(((b >> ((7 - m) as u8)) & 1u8) <= 1);
        }
        assert(group[0] == ((b >> 7u8) & 1u8));
        assert(group[1] == ((b >> 6u8) & 1u8));
        assert(group[2] == ((b >> 5u8) & 1u8));
        assert(group[3] == ((b >> 4u8) & 1u8));
        assert(group[4] == ((b >> 3u8) & 1u8));
        assert(group[5] == ((b >> 2u8) & 1u8));
        assert(group[6] == ((b >> 1u8) & 1u8));
        assert(group[7] == ((b >> 0u8) & 1u8));
    }
    assert(packed =~= bytes);
}

} // verus!

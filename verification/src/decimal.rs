//! Bytes as the decimal number that they are the big-endian form of, and
//! back.

use vstd::prelude::*;
use vstd::string::StringSliceAdditionalSpecFns;
use vstd::utf8::encode_utf8;
use crate::text::{backwards, decimal_string, reversed, spec_decimal, spec_decimal_text};

verus! {

/// The number that a run of decimal digits states; nothing where a character
/// is no digit. The empty run states 0.
pub open spec fn spec_digits_value(s: Seq<u8>) -> Option<nat>
    decreases s.len(),
{
    if s.len() == 0 {
        Some(0nat)
    } else {
        match spec_digits_value(s.drop_last()) {
            None => None,
            Some(v) => if 0x30 <= s.last() <= 0x39 {
                Some(10 * v + (s.last() - 0x30) as nat)
            } else {
                None
            },
        }
    }
}

/// The digits of a decimal literal: the text behind a leading `+`, or the
/// whole text where it has none.
pub open spec fn spec_unsigned(s: Seq<u8>) -> Seq<u8> {
    if s.len() > 0 && s[0] == 0x2b {
        s.skip(1)
    } else {
        s
    }
}

/// The value of a decimal literal: an optional `+`, then at least one digit
/// and nothing but digits, stating a number that fits in 64 bits.
pub open spec fn spec_parse_u64(s: Seq<u8>) -> Option<u64> {
    let digits = spec_unsigned(s);
    if digits.len() == 0 {
        None
    } else {
        spec_digits_u64(digits)
    }
}

/// Where a prefix of `s` holds a character that is no digit, so does `s`.
proof fn lemma_digits_prefix(s: Seq<u8>, n: int)
    requires
        0 <= n <= s.len(),
        spec_digits_value(s.take(n)).is_none(),
    ensures
        spec_digits_value(s).is_none(),
    decreases s.len() - n,
{
    if n < s.len() {
        assert(s.take(n + 1).drop_last() =~= s.take(n));
        lemma_digits_prefix(s, n + 1);
    } else {
        assert(s.take(n) =~= s);
    }
}

/// A run of digits states no less than any of its prefixes.
proof fn lemma_digits_grow(s: Seq<u8>, n: int)
    requires
        0 <= n <= s.len(),
        spec_digits_value(s.take(n)) is Some,
    ensures
        spec_digits_value(s) matches Some(v) ==> v >= spec_digits_value(s.take(n))->Some_0,
    decreases s.len() - n,
{
    if n < s.len() {
        assert(s.take(n + 1).drop_last() =~= s.take(n));
        if spec_digits_value(s.take(n + 1)) is Some {
            lemma_digits_grow(s, n + 1);
        } else {
            lemma_digits_prefix(s, n + 1);
        }
    } else {
        assert(s.take(n) =~= s);
    }
}

/// The number that a run of decimal digits states, where it fits in 64 bits.
pub open spec fn spec_digits_u64(digits: Seq<u8>) -> Option<u64> {
    match spec_digits_value(digits) {
        None => None,
        Some(v) => if v <= u64::MAX {
            Some(v as u64)
        } else {
            None
        },
    }
}

/// Reads the run of decimal digits that `s` ends with from `start` on.
pub fn digits_u64(s: &[u8], start: usize) -> (r: Option<u64>)
    requires
        start <= s@.len(),
    ensures
        r == spec_digits_u64(s@.skip(start as int)),
{
    let ghost digits = s@.skip(start as int);
    let mut value: u64 = 0;
    let mut i: usize = start;
    proof {
        assert(digits.take(0) =~= Seq::<u8>::empty());
    }
    while i < s.len()
        invariant
            start <= i <= s@.len(),
            digits == s@.skip(start as int),
            spec_digits_value(digits.take(i - start)) == Some(value as nat),
        decreases s@.len() - i,
    {
        let c = s[i];
        proof {
            assert(digits.take(i + 1 - start).drop_last() =~= digits.take(i - start));
            assert(digits.take(i + 1 - start).last() == c);
        }
        if c < 0x30 || c > 0x39 {
            proof {
                assert(spec_digits_value(digits.take(i + 1 - start)).is_none());
                lemma_digits_prefix(digits, i + 1 - start);
            }
            return None;
        }
        let d: u64 = (c - 0x30) as u64;
        if value > (u64::MAX - d) / 10 {
            proof {
                assert(spec_digits_value(digits.take(i + 1 - start)) == Some(
                    10 * (value as nat) + d as nat,
                ));
                lemma_digits_grow(digits, i + 1 - start);
            }
            return None;
        }
        value = value * 10 + d;
        i += 1;
    }
    proof {
        assert(digits.take(i - start) =~= digits);
    }
    Some(value)
}

/// Reads a decimal literal as a 64-bit number.
pub fn parse_u64(s: &[u8]) -> (r: Option<u64>)
    ensures
        r == spec_parse_u64(s@),
{
    let mut start: usize = 0;
    if s.len() > 0 && s[0] == 0x2b {
        start = 1;
    }
    proof {
        assert(s@.skip(start as int) =~= spec_unsigned(s@));
    }
    if start == s.len() {
        return None;
    }
    digits_u64(s, start)
}

/// The bytes of `v`, most significant first, without leading zero bytes:
/// none at all for 0.
pub open spec fn spec_be_bytes(v: nat) -> Seq<u8>
    decreases v,
{
    if v == 0 {
        Seq::empty()
    } else {
        spec_be_bytes(v / 256).push((v % 256) as u8)
    }
}

/// The bytes that a decimal literal stands for: those of its value, most
/// significant first. The empty text stands for no bytes.
pub open spec fn spec_to_bytes(input: Seq<u8>) -> Option<Seq<u8>> {
    if input.len() == 0 {
        Some(Seq::empty())
    } else {
        match spec_parse_u64(input) {
            None => None,
            Some(v) => Some(spec_be_bytes(v as nat)),
        }
    }
}

/// Decodes a decimal literal into the bytes of its value, or returns nothing
/// where the text is no decimal number of at most 64 bits.
pub fn to_bytes(input: &str) -> (r: Option<Vec<u8>>)
    ensures
        match r {
            Some(bytes) => spec_to_bytes(encode_utf8(input@)) == Some(bytes@),
            None => spec_to_bytes(encode_utf8(input@)).is_none(),
        },
{
    let text = input.as_bytes();
    if text.len() == 0 {
        return Some(Vec::new());
    }
    let value = match parse_u64(text) {
        Some(v) => v,
        None => {
            return None;
        },
    };
    let mut low: Vec<u8> = Vec::new();
    let mut current: u64 = value;
    proof {
        assert(spec_be_bytes(current as nat) + backwards(low@) =~= spec_be_bytes(current as nat));
    }
    while current != 0
        invariant
            spec_be_bytes(value as nat) == spec_be_bytes(current as nat) + backwards(low@),
        decreases current,
    {
        let temp: u8 = (current % 256) as u8;
        proof {
            assert(spec_be_bytes((current / 256) as nat).push(temp) + backwards(low@)
                =~= spec_be_bytes((current / 256) as nat) + backwards(low@.push(temp)));
        }
        current = current / 256;
        low.push(temp);
    }
    let out = reversed(low);
    proof {
        assert(out@ =~= spec_be_bytes(current as nat) + backwards(low@));
    }
    Some(out)
}

/// The number whose bytes, most significant first, are `bytes`.
pub open spec fn spec_be_value(bytes: Seq<u8>) -> nat
    decreases bytes.len(),
{
    if bytes.len() == 0 {
        0
    } else {
        256 * spec_be_value(bytes.drop_last()) + bytes.last() as nat
    }
}

/// 256 to the power `k`.
pub open spec fn pow256(k: nat) -> nat
    decreases k,
{
    if k == 0 {
        1
    } else {
        256 * pow256((k - 1) as nat)
    }
}

proof fn lemma_pow256_grows(a: nat, b: nat)
    requires
        a <= b,
    ensures
        pow256(a) <= pow256(b),
    decreases b,
{
    if a < b {
        lemma_pow256_grows(a, (b - 1) as nat);
    }
}

/// Writes the number whose bytes, most significant first, are `input` in
/// decimal.
pub fn from_bytes(input: &[u8]) -> (r: String)
    requires
        input@.len() <= 8,
    ensures
        r@ == spec_decimal_text(spec_be_value(input@)),
{
    let mut value: u64 = 0;
    let mut i: usize = 0;
    proof {
        assert(input@.take(0) =~= Seq::<u8>::empty());
        assert(pow256(8) == 0x1_0000_0000_0000_0000) by {
            reveal_with_fuel(pow256, 9);
        }
    }
    while i < input.len()
        invariant
            i <= input@.len() <= 8,
            value == spec_be_value(input@.take(i as int)),
            value < pow256(i as nat),
            pow256(8) == 0x1_0000_0000_0000_0000,
        decreases input@.len() - i,
    {
        proof {
            assert(input@.take(i + 1).drop_last() =~= input@.take(i as int));
            lemma_pow256_grows((i + 1) as nat, 8);
        }
        value = value * 256 + input[i] as u64;
        i += 1;
    }
    proof {
        assert(input@.take(i as int) =~= input@);
    }
    decimal_string(value)
}

proof fn lemma_decimal_text_parses(n: nat)
    ensures
        spec_decimal(n).len() > 0,
        spec_decimal(n)[0] != 0x2b,
        spec_digits_value(spec_decimal(n)) == Some(n),
    decreases n,
{
    let text = spec_decimal(n);
    if n < 10 {
        assert(text.drop_last() =~= Seq::<u8>::empty());
        assert(spec_digits_value(text.drop_last()) == Some(0nat));
    } else {
        lemma_decimal_text_parses(n / 10);
        assert(text.drop_last() =~= spec_decimal(n / 10));
        assert(text[0] == spec_decimal(n / 10)[0]);
    }
}

proof fn lemma_be_round_trip(v: nat, k: nat)
    requires
        v < pow256(k),
    ensures
        spec_be_value(spec_be_bytes(v)) == v,
        spec_be_bytes(v).len() <= k,
    decreases v,
{
    if v != 0 {
        let bytes = spec_be_bytes(v);
        assert(k > 0);
        lemma_be_round_trip(v / 256, (k - 1) as nat);
        assert(bytes.drop_last() =~= spec_be_bytes(v / 256));
    }
}

/// A number written in decimal and read back as bytes gives the bytes of the
/// number: at most eight, most significant first, that state the number
/// again.
pub proof fn lemma_decimal_round_trip(v: u64)
    ensures
        spec_to_bytes(spec_decimal(v as nat)) == Some(spec_be_bytes(v as nat)),
        spec_be_bytes(v as nat).len() <= 8,
        spec_be_value(spec_be_bytes(v as nat)) == v,
{
    lemma_decimal_text_parses(v as nat);
    assert(spec_unsigned(spec_decimal(v as nat)) == spec_decimal(v as nat));
    assert(pow256(8) == 0x1_0000_0000_0000_0000) by {
        reveal_with_fuel(pow256, 9);
    }
    lemma_be_round_trip(v as nat, 8);
}

} // verus!

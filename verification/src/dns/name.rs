//! Names on the wire: labels behind their lengths, ended by a zero byte or by
//! a pointer to the rest of the name elsewhere in the message.

use vstd::prelude::*;
use vstd::string::StringSliceAdditionalSpecFns;
use vstd::utf8::encode_utf8;
use crate::dns::error::{DecodeError, EncodeError};
use crate::dns::wire::{push_range, read_u8_at, spec_read_u8, Cursor};

verus! {

/// How many compression pointers a decoder follows in one name before it
/// gives up.
pub const MAX_POINTER_HOPS: usize = 32;

/// The byte `.` that separates the labels of a textual name.
pub const DOT: u8 = 0x2e;

/// A length byte with its two top bits set announces a compression pointer.
pub open spec fn is_pointer(len: u8) -> bool {
    len >= 0xc0
}

/// The offset that a pointer's two bytes state: the low six bits of the
/// first, then the second.
pub open spec fn pointer_offset(hi: u8, lo: u8) -> int {
    (hi as int - 0xc0) * 256 + lo as int
}

/// A label in front of the rest of a name, with a dot between the two where
/// there is a rest.
pub open spec fn join_name(label: Seq<u8>, rest: Seq<u8>) -> Seq<u8> {
    if rest.len() == 0 {
        label
    } else if label.len() == 0 {
        rest
    } else {
        label + seq![DOT] + rest
    }
}

/// The name that starts at `pos` in `data`, as dot-joined labels, and the
/// position after it.
///
/// Pointers are offsets into `all`, the whole message, and at most `hops` of
/// them are followed. After a pointer the name ends: the position returned is
/// the one after the pointer's two bytes.
pub open spec fn spec_name(data: Seq<u8>, pos: int, all: Seq<u8>, hops: nat) -> Result<
    (Seq<u8>, int),
    DecodeError,
>
    decreases hops, data.len() - pos,
{
    if !(0 <= pos < data.len()) {
        Err(DecodeError::UnexpectedEof)
    } else if data[pos] == 0 {
        Ok((Seq::empty(), pos + 1))
    } else if is_pointer(data[pos]) {
        if pos + 1 >= data.len() {
            Err(DecodeError::UnexpectedEof)
        } else if hops == 0 {
            Err(DecodeError::TooManyPointers)
        } else {
            match spec_name(all, pointer_offset(data[pos], data[pos + 1]), all, (hops - 1) as nat) {
                Ok((name, _)) => Ok((name, pos + 2)),
                Err(e) => Err(e),
            }
        }
    } else {
        let next = pos + 1 + data[pos] as int;
        if next > data.len() {
            Err(DecodeError::UnexpectedEof)
        } else {
            match spec_name(data, next, all, hops) {
                Ok((rest, end)) => Ok((join_name(data.subrange(pos + 1, next), rest), end)),
                Err(e) => Err(e),
            }
        }
    }
}

/// What a decoder that holds `acc` makes of the outcome of decoding the rest.
pub open spec fn after_prefix(acc: Seq<u8>, rest: Result<(Seq<u8>, int), DecodeError>) -> Result<
    (Seq<u8>, int),
    DecodeError,
> {
    match rest {
        Ok((name, end)) => Ok((join_name(acc, name), end)),
        Err(e) => Err(e),
    }
}

proof fn lemma_join_assoc(acc: Seq<u8>, label: Seq<u8>, rest: Seq<u8>)
    requires
        label.len() > 0,
    ensures
        join_name(join_name(acc, label), rest) == join_name(acc, join_name(label, rest)),
{
    if rest.len() == 0 {
    } else if acc.len() == 0 {
    } else {
        assert((acc + seq![DOT] + label) + seq![DOT] + rest =~= acc + seq![DOT] + (label + seq![DOT]
            + rest));
    }
}

/// Decodes the name at `pos` in `data`, following at most `hops` pointers
/// into `all`.
pub fn decode_name_at(data: &[u8], pos: usize, all: &[u8], hops: usize) -> (r: Result<
    (Vec<u8>, usize),
    DecodeError,
>)
    ensures
        match r {
            Ok((name, end)) => spec_name(data@, pos as int, all@, hops as nat) == Ok::<
                (Seq<u8>, int),
                DecodeError,
            >((name@, end as int)),
            Err(e) => spec_name(data@, pos as int, all@, hops as nat) == Err::<
                (Seq<u8>, int),
                DecodeError,
            >(e),
        },
    decreases hops,
{
    let mut result: Vec<u8> = Vec::new();
    let mut cur: usize = pos;
    proof {
        match spec_name(data@, pos as int, all@, hops as nat) {
            Ok((name, _)) => {
                assert(join_name(result@, name) =~= name);
            },
            Err(_) => {},
        }
    }
    loop
        invariant
            spec_name(data@, pos as int, all@, hops as nat) == after_prefix(
                result@,
                spec_name(data@, cur as int, all@, hops as nat),
            ),
        decreases data@.len() - cur,
    {
        if cur >= data.len() {
            return Err(DecodeError::UnexpectedEof);
        }
        let len = data[cur];
        if len == 0 {
            return Ok((result, cur + 1));
        }
        if len >= 0xc0 {
            if data.len() - cur < 2 {
                return Err(DecodeError::UnexpectedEof);
            }
            if hops == 0 {
                return Err(DecodeError::TooManyPointers);
            }
            let offset: usize = ((len - 0xc0) as usize) * 256 + data[cur + 1] as usize;
            match decode_name_at(all, offset, all, hops - 1) {
                Ok((pointed, _)) => {
                    let ghost before = result@;
                    if result.len() != 0 && pointed.len() != 0 {
                        result.push(DOT);
                    }
                    push_range(&mut result, pointed.as_slice(), 0, pointed.len());
                    proof {
                        assert(pointed@.subrange(0, pointed@.len() as int) =~= pointed@);
                        assert(result@ =~= join_name(before, pointed@));
                    }
                    return Ok((result, cur + 2));
                },
                Err(e) => {
                    return Err(e);
                },
            }
        }
        if data.len() - cur - 1 < len as usize {
            return Err(DecodeError::UnexpectedEof);
        }
        let next: usize = cur + 1 + len as usize;
        let ghost before = result@;
        if result.len() != 0 {
            result.push(DOT);
        }
        push_range(&mut result, data, cur + 1, next);
        proof {
            let label = data@.subrange(cur as int + 1, next as int);
            assert(result@ == join_name(before, label));
            match spec_name(data@, next as int, all@, hops as nat) {
                Ok((rest, _)) => {
                    lemma_join_assoc(before, label, rest);
                },
                Err(_) => {},
            }
        }
        cur = next;
    }
}

/// Reads the name at the cursor, resolving compression pointers against
/// `all_data`, the whole message, which may be another buffer than the
/// cursor's.
///
/// The labels come back joined by dots. At most `MAX_POINTER_HOPS` pointers
/// are followed; a longer chain fails with `TooManyPointers`.
pub fn deserialize_name(cursor: &mut Cursor, all_data: &[u8]) -> (r: Result<Vec<u8>, DecodeError>)
    ensures
        final(cursor).data@ == old(cursor).data@,
        match r {
            Ok(name) => spec_name(
                old(cursor).data@,
                old(cursor).position as int,
                all_data@,
                MAX_POINTER_HOPS as nat,
            ) == Ok::<(Seq<u8>, int), DecodeError>((name@, final(cursor).position as int)),
            Err(e) => spec_name(
                old(cursor).data@,
                old(cursor).position as int,
                all_data@,
                MAX_POINTER_HOPS as nat,
            ) == Err::<(Seq<u8>, int), DecodeError>(e) && final(cursor).position == old(
                cursor,
            ).position,
        },
{
    match decode_name_at(cursor.data, cursor.position, all_data, MAX_POINTER_HOPS) {
        Ok((name, end)) => {
            cursor.position = end;
            Ok(name)
        },
        Err(e) => Err(e),
    }
}

/// A string of bytes behind one length byte, at `pos`.
pub open spec fn spec_char_string(data: Seq<u8>, pos: int) -> Result<(Seq<u8>, int), DecodeError> {
    match spec_read_u8(data, pos) {
        Ok((len, start)) => if start + len as int <= data.len() {
            Ok((data.subrange(start, start + len as int), start + len as int))
        } else {
            Err(DecodeError::UnexpectedEof)
        },
        Err(e) => Err(e),
    }
}

/// Reads one character-string: a length byte, then that many bytes.
pub fn deserialize_bytes(cursor: &mut Cursor) -> (r: Result<Vec<u8>, DecodeError>)
    ensures
        final(cursor).data@ == old(cursor).data@,
        match r {
            Ok(bytes) => spec_char_string(old(cursor).data@, old(cursor).position as int) == Ok::<
                (Seq<u8>, int),
                DecodeError,
            >((bytes@, final(cursor).position as int)),
            Err(e) => spec_char_string(old(cursor).data@, old(cursor).position as int) == Err::<
                (Seq<u8>, int),
                DecodeError,
            >(e) && final(cursor).position == old(cursor).position,
        },
{
    let (len, start) = match read_u8_at(cursor.data, cursor.position) {
        Ok(v) => v,
        Err(e) => {
            return Err(e);
        },
    };
    if cursor.data.len() - start < len as usize {
        return Err(DecodeError::UnexpectedEof);
    }
    let mut result: Vec<u8> = Vec::new();
    push_range(&mut result, cursor.data, start, start + len as usize);
    cursor.position = start + len as usize;
    Ok(result)
}

/// The index of the first dot in `name`, or its length where it has none.
pub open spec fn first_dot(name: Seq<u8>) -> int
    decreases name.len(),
{
    if name.len() == 0 || name[0] == DOT {
        0
    } else {
        1 + first_dot(name.drop_first())
    }
}

/// `first_dot` is in range, no dot stands before it, and a dot stands at it
/// unless it is the length.
pub proof fn lemma_first_dot(name: Seq<u8>)
    ensures
        0 <= first_dot(name) <= name.len(),
        forall|k: int| 0 <= k < first_dot(name) ==> name[k] != DOT,
        first_dot(name) < name.len() ==> name[first_dot(name)] == DOT,
    decreases name.len(),
{
    if name.len() == 0 || name[0] == DOT {
    } else {
        let tail = name.drop_first();
        lemma_first_dot(tail);
        assert forall|k: int| 0 <= k < first_dot(name) implies name[k] != DOT by {
            if k > 0 {
                assert(name[k] == tail[k - 1]);
            }
        }
        assert(first_dot(name) < name.len() ==> name[first_dot(name)] == tail[first_dot(tail)]);
    }
}

/// The position `i` is `first_dot(name)` where no dot stands before it and
/// the name ends, or has a dot, there.
pub proof fn lemma_first_dot_at(name: Seq<u8>, i: int)
    requires
        0 <= i <= name.len(),
        forall|k: int| 0 <= k < i ==> name[k] != DOT,
        i < name.len() ==> name[i] == DOT,
    ensures
        first_dot(name) == i,
    decreases name.len(),
{
    if i == 0 {
    } else {
        let tail = name.drop_first();
        assert forall|k: int| 0 <= k < i - 1 implies tail[k] != DOT by {
            assert(tail[k] == name[k + 1]);
        }
        lemma_first_dot_at(tail, i - 1);
    }
}

/// The wire form of a textual name: for each dot-separated label its length
/// in one byte and its bytes, then a zero byte. A label of more than 255
/// bytes has no wire form.
pub open spec fn spec_encode_name(name: Seq<u8>) -> Result<Seq<u8>, EncodeError>
    decreases name.len(),
{
    let i = first_dot(name);
    if i > 255 {
        Err(EncodeError::LabelTooLong)
    } else if !(0 <= i < name.len()) {
        Ok(seq![i as u8] + name + seq![0u8])
    } else {
        match spec_encode_name(name.subrange(i + 1, name.len() as int)) {
            Ok(rest) => Ok(seq![i as u8] + name.subrange(0, i) + rest),
            Err(e) => Err(e),
        }
    }
}

/// What an encoder that has written `prefix` makes of the outcome of encoding
/// the rest.
pub open spec fn encoded_after(prefix: Seq<u8>, rest: Result<Seq<u8>, EncodeError>) -> Result<
    Seq<u8>,
    EncodeError,
> {
    match rest {
        Ok(bytes) => Ok(prefix + bytes),
        Err(e) => Err(e),
    }
}

/// Encodes the UTF-8 bytes of a textual name, without compression.
pub fn encode_name_bytes(name: &[u8]) -> (r: Result<Vec<u8>, EncodeError>)
    ensures
        match r {
            Ok(bytes) => spec_encode_name(name@) == Ok::<Seq<u8>, EncodeError>(bytes@),
            Err(e) => spec_encode_name(name@) == Err::<Seq<u8>, EncodeError>(e),
        },
{
    let mut out: Vec<u8> = Vec::new();
    let mut start: usize = 0;
    proof {
        assert(name@.subrange(0, name@.len() as int) =~= name@);
        match spec_encode_name(name@) {
            Ok(bytes) => {
                assert(out@ + bytes =~= bytes);
            },
            Err(_) => {},
        }
    }
    loop
        invariant
            start <= name@.len(),
            spec_encode_name(name@) == encoded_after(
                out@,
                spec_encode_name(name@.subrange(start as int, name@.len() as int)),
            ),
        decreases name@.len() - start,
    {
        let mut end: usize = start;
        while end < name.len() && name[end] != DOT
            invariant
                start <= end <= name@.len(),
                forall|k: int| start <= k < end ==> name@[k] != DOT,
            decreases name@.len() - end,
        {
            end = end + 1;
        }
        let ghost tail = name@.subrange(start as int, name@.len() as int);
        proof {
            lemma_first_dot_at(tail, end - start);
        }
        if end - start > 255 {
            return Err(EncodeError::LabelTooLong);
        }
        let ghost before = out@;
        out.push((end - start) as u8);
        push_range(&mut out, name, start, end);
        if end == name.len() {
            out.push(0);
            proof {
                assert(out@ =~= before + (seq![(end - start) as u8] + tail + seq![0u8]));
            }
            return Ok(out);
        }
        proof {
            assert(tail.subrange(0, end - start) =~= name@.subrange(start as int, end as int));
            assert(tail.subrange(end - start + 1, tail.len() as int) =~= name@.subrange(
                end as int + 1,
                name@.len() as int,
            ));
            match spec_encode_name(name@.subrange(end as int + 1, name@.len() as int)) {
                Ok(rest) => {
                    assert(out@ + rest =~= before + (seq![(end - start) as u8] + tail.subrange(
                        0,
                        end - start,
                    ) + rest));
                },
                Err(_) => {},
            }
        }
        start = end + 1;
    }
}

/// Encodes a textual name: splits it at the dots and writes each label behind
/// its length, then the terminating zero. Nothing is compressed.
///
/// Fails with `LabelTooLong` exactly where a label has more than 255 bytes.
pub fn encode_name(name: &str) -> (r: Result<Vec<u8>, EncodeError>)
    ensures
        match r {
            Ok(bytes) => spec_encode_name(encode_utf8(name@)) == Ok::<Seq<u8>, EncodeError>(bytes@),
            Err(e) => spec_encode_name(encode_utf8(name@)) == Err::<Seq<u8>, EncodeError>(e),
        },
{
    encode_name_bytes(name.as_bytes())
}

/// Every label of `name` has at least 1 and at most 63 bytes.
pub open spec fn labels_fit(name: Seq<u8>) -> bool
    decreases name.len(),
{
    let i = first_dot(name);
    1 <= i <= 63 && (i >= name.len() || labels_fit(name.subrange(i + 1, name.len() as int)))
}

/// A name whose labels have 1 to 63 bytes each has a wire form, and decoding
/// that wire form, wherever it stands in a buffer, gives the name back and
/// ends right behind it. No pointer is followed on the way.
pub proof fn lemma_name_round_trip(
    name: Seq<u8>,
    before: Seq<u8>,
    after: Seq<u8>,
    all: Seq<u8>,
    hops: nat,
)
    requires
        labels_fit(name),
    ensures
        spec_encode_name(name) is Ok,
        spec_name(
            before + spec_encode_name(name)->Ok_0 + after,
            before.len() as int,
            all,
            hops,
        ) == Ok::<(Seq<u8>, int), DecodeError>(
            (name, (before.len() + spec_encode_name(name)->Ok_0.len()) as int),
        ),
    decreases name.len(),
{
    lemma_first_dot(name);
    let i = first_dot(name);
    let label = name.subrange(0, i);
    let pos = before.len() as int;
    if i >= name.len() {
        let data = before + (seq![i as u8] + name + seq![0u8]) + after;
        let next = pos + 1 + i;
        assert(data[pos] == i as u8);
        assert(data[next] == 0u8);
        assert(data.subrange(pos + 1, next) =~= name);
        assert(spec_name(data, next, all, hops) == Ok::<(Seq<u8>, int), DecodeError>(
            (Seq::empty(), next + 1),
        ));
    } else {
        let tail = name.subrange(i + 1, name.len() as int);
        let before2 = before + seq![i as u8] + label;
        lemma_name_round_trip(tail, before2, after, all, hops);
        lemma_first_dot(tail);
        let rest = spec_encode_name(tail)->Ok_0;
        let data = before + (seq![i as u8] + label + rest) + after;
        assert(data =~= before2 + rest + after);
        assert(data[pos] == i as u8);
        assert(data.subrange(pos + 1, pos + 1 + i) =~= label);
        assert(label + seq![DOT] + tail =~= name);
    }
}

/// More hops never change a name that decodes: what decodes with `hops`
/// pointers allowed decodes to the same with `more`.
pub proof fn lemma_more_hops(data: Seq<u8>, pos: int, all: Seq<u8>, hops: nat, more: nat)
    requires
        hops <= more,
        spec_name(data, pos, all, hops) is Ok,
    ensures
        spec_name(data, pos, all, more) == spec_name(data, pos, all, hops),
    decreases hops, data.len() - pos,
{
    if data[pos] == 0 {
    } else if is_pointer(data[pos]) {
        lemma_more_hops(
            all,
            pointer_offset(data[pos], data[pos + 1]),
            all,
            (hops - 1) as nat,
            (more - 1) as nat,
        );
    } else {
        lemma_more_hops(data, pos + 1 + data[pos] as int, all, hops, more);
    }
}

/// A name that is nothing but a pointer decodes as the name at the pointer's
/// target in the whole message does with one hop less, and ends behind the
/// pointer's two bytes. A target at or past the end of the message fails with
/// `UnexpectedEof`.
pub proof fn lemma_pointer_resolves(data: Seq<u8>, pos: int, all: Seq<u8>, hops: nat)
    requires
        0 <= pos,
        pos + 1 < data.len(),
        is_pointer(data[pos]),
    ensures
        spec_name(data, pos, all, hops + 1) == (match spec_name(
            all,
            pointer_offset(data[pos], data[pos + 1]),
            all,
            hops,
        ) {
            Ok((name, _)) => Ok::<(Seq<u8>, int), DecodeError>((name, pos + 2)),
            Err(e) => Err(e),
        }),
        pointer_offset(data[pos], data[pos + 1]) >= all.len() ==> spec_name(
            data,
            pos,
            all,
            hops + 1,
        ) == Err::<(Seq<u8>, int), DecodeError>(DecodeError::UnexpectedEof),
{
}

/// Two names of one message, the second nothing but a pointer to the first:
/// where the first decodes with one hop to spare, both decode to the same
/// text.
pub proof fn lemma_pointer_shares_name(all: Seq<u8>, first: int, second: int)
    requires
        0 <= second,
        second + 1 < all.len(),
        is_pointer(all[second]),
        pointer_offset(all[second], all[second + 1]) == first,
        spec_name(all, first, all, (MAX_POINTER_HOPS - 1) as nat) is Ok,
    ensures
        spec_name(all, first, all, MAX_POINTER_HOPS as nat) is Ok,
        spec_name(all, second, all, MAX_POINTER_HOPS as nat) == Ok::<(Seq<u8>, int), DecodeError>(
            (spec_name(all, first, all, MAX_POINTER_HOPS as nat)->Ok_0.0, second + 2),
        ),
{
    lemma_more_hops(all, first, all, (MAX_POINTER_HOPS - 1) as nat, MAX_POINTER_HOPS as nat);
}

/// A pointer to a pointer resolves to what the second one points at.
pub proof fn lemma_pointer_chain(data: Seq<u8>, pos: int, all: Seq<u8>, hops: nat)
    requires
        0 <= pos,
        pos + 1 < data.len(),
        is_pointer(data[pos]),
        pointer_offset(data[pos], data[pos + 1]) + 1 < all.len(),
        is_pointer(all[pointer_offset(data[pos], data[pos + 1])]),
    ensures
        ({
            let mid = pointer_offset(data[pos], data[pos + 1]);
            let target = pointer_offset(all[mid], all[mid + 1]);
            spec_name(data, pos, all, hops + 2) == (match spec_name(all, target, all, hops) {
                Ok((name, _)) => Ok::<(Seq<u8>, int), DecodeError>((name, pos + 2)),
                Err(e) => Err(e),
            })
        }),
{
    let mid = pointer_offset(data[pos], data[pos + 1]);
    lemma_pointer_resolves(data, pos, all, hops + 1);
    lemma_pointer_resolves(all, mid, all, hops);
}

/// A name that decodes ends past where it starts, and within its buffer.
pub proof fn lemma_name_advances(data: Seq<u8>, pos: int, all: Seq<u8>, hops: nat)
    requires
        spec_name(data, pos, all, hops) is Ok,
    ensures
        pos < spec_name(data, pos, all, hops)->Ok_0.1 <= data.len(),
    decreases data.len() - pos,
{
    if data[pos] == 0 {
    } else if is_pointer(data[pos]) {
    } else {
        lemma_name_advances(data, pos + 1 + data[pos] as int, all, hops);
    }
}

} // verus!

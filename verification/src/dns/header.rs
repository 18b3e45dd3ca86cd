//! The header of a message: twelve bytes, with the flags and the two codes
//! packed into one 16-bit word.

use vstd::prelude::*;
use crate::dns::codes::{OpCode, ResponseCode};
use crate::dns::error::DecodeError;
use crate::dns::wire::{
    read_u16_at, spec_read_u16, spec_u16, spec_u16_bytes, write_u16, Cursor,
};

verus! {

/// The number of bytes a header takes on the wire.
pub const HEADER_LEN: usize = 12;

/// The fixed part that every message starts with.
#[derive(Clone, Copy, Debug, PartialEq, Eq, Structural)]
pub struct DnsHeader {
    pub request_id: u16,
    pub is_response: bool,
    pub opcode: OpCode,
    pub authoritative_answer: bool,
    pub message_truncated: bool,
    pub recursion_desired: bool,
    pub recursion_available: bool,
    pub rcode: ResponseCode,
    pub query_count: u16,
    pub answer_count: u16,
    pub nameserver_count: u16,
    pub additional_count: u16,
}

/// A flag as the value of its bit.
pub open spec fn bit(flag: bool) -> int {
    if flag {
        1
    } else {
        0
    }
}

/// The flags word: response in bit 15, the operation code in bits 11 to 14,
/// authoritative in bit 10, truncated in bit 9, recursion desired in bit 8,
/// recursion available in bit 7, four zero bits, the response code in bits 0
/// to 3.
pub open spec fn spec_pack_flags(
    is_response: bool,
    opcode: OpCode,
    authoritative_answer: bool,
    message_truncated: bool,
    recursion_desired: bool,
    recursion_available: bool,
    rcode: ResponseCode,
) -> u16 {
    (bit(is_response) * 32768 + opcode.spec_code() * 2048 + bit(authoritative_answer) * 1024 + bit(
        message_truncated,
    ) * 512 + bit(recursion_desired) * 256 + bit(recursion_available) * 128
        + rcode.spec_code()) as u16
}

/// The four bits of the flags word that hold the operation code.
pub open spec fn flags_opcode(flags: u16) -> u16 {
    (flags / 2048 % 16) as u16
}

/// The four bits of the flags word that hold the response code.
pub open spec fn flags_rcode(flags: u16) -> u16 {
    (flags % 16) as u16
}

/// Whether the bit of value `weight`, a power of two, is set in `flags`.
pub open spec fn flags_bit(flags: u16, weight: int) -> bool {
    flags as int / weight % 2 == 1
}

impl DnsHeader {
    /// A standard query with id 0, no flag set and no section.
    pub open spec fn spec_default() -> DnsHeader {
        DnsHeader {
            request_id: 0,
            is_response: false,
            opcode: OpCode::Standard,
            authoritative_answer: false,
            message_truncated: false,
            recursion_desired: false,
            recursion_available: false,
            rcode: ResponseCode::NoError,
            query_count: 0,
            answer_count: 0,
            nameserver_count: 0,
            additional_count: 0,
        }
    }

    /// The flags word of this header.
    pub open spec fn spec_flags(self) -> u16 {
        spec_pack_flags(
            self.is_response,
            self.opcode,
            self.authoritative_answer,
            self.message_truncated,
            self.recursion_desired,
            self.recursion_available,
            self.rcode,
        )
    }

    /// The twelve bytes of this header: id, flags and the four counts, each
    /// big-endian.
    pub open spec fn spec_serialize(self) -> Seq<u8> {
        spec_u16_bytes(self.request_id) + spec_u16_bytes(self.spec_flags()) + spec_u16_bytes(
            self.query_count,
        ) + spec_u16_bytes(self.answer_count) + spec_u16_bytes(self.nameserver_count)
            + spec_u16_bytes(self.additional_count)
    }

    /// The header that starts at `pos`, and the position after it.
    ///
    /// The id and the flags are read first, and a bad operation code or
    /// response code, in this order, is reported before the counts are looked
    /// at.
    pub open spec fn spec_deserialize(data: Seq<u8>, pos: int) -> Result<
        (DnsHeader, int),
        DecodeError,
    > {
        match spec_read_u16(data, pos) {
            Err(e) => Err(e),
            Ok((request_id, _)) => match spec_read_u16(data, pos + 2) {
                Err(e) => Err(e),
                Ok((flags, _)) => match OpCode::spec_from_int(flags_opcode(flags)) {
                    None => Err(DecodeError::InvalidOpcode),
                    Some(opcode) => match ResponseCode::spec_from_int(flags_rcode(flags)) {
                        None => Err(DecodeError::InvalidResponseCode),
                        Some(rcode) => if pos + 12 > data.len() {
                            Err(DecodeError::UnexpectedEof)
                        } else {
                            Ok(
                                (
                                    DnsHeader {
                                        request_id,
                                        is_response: flags_bit(flags, 32768),
                                        opcode,
                                        authoritative_answer: flags_bit(flags, 1024),
                                        message_truncated: flags_bit(flags, 512),
                                        recursion_desired: flags_bit(flags, 256),
                                        recursion_available: flags_bit(flags, 128),
                                        rcode,
                                        query_count: spec_u16(data[pos + 4], data[pos + 5]),
                                        answer_count: spec_u16(data[pos + 6], data[pos + 7]),
                                        nameserver_count: spec_u16(data[pos + 8], data[pos + 9]),
                                        additional_count: spec_u16(
                                            data[pos + 10],
                                            data[pos + 11],
                                        ),
                                    },
                                    pos + 12,
                                ),
                            )
                        },
                    },
                },
            },
        }
    }

    /// Computes the flags word.
    pub fn flags(&self) -> (f: u16)
        ensures
            f == self.spec_flags(),
    {
        let qr: u16 = if self.is_response { 1 } else { 0 };
        let op: u16 = self.opcode.code();
        let aa: u16 = if self.authoritative_answer { 1 } else { 0 };
        let tc: u16 = if self.message_truncated { 1 } else { 0 };
        let rd: u16 = if self.recursion_desired { 1 } else { 0 };
        let ra: u16 = if self.recursion_available { 1 } else { 0 };
        let rc: u16 = self.rcode.code();
        assert((qr << 15) | (op << 11) | (aa << 10) | (tc << 9) | (rd << 8) | (ra << 7) | rc == qr
            * 32768 + op * 2048 + aa * 1024 + tc * 512 + rd * 256 + ra * 128 + rc) by (bit_vector)
            requires
                qr <= 1,
                op <= 15,
                aa <= 1,
                tc <= 1,
                rd <= 1,
                ra <= 1,
                rc <= 15,
        ;
        (qr << 15) | (op << 11) | (aa << 10) | (tc << 9) | (rd << 8) | (ra << 7) | rc
    }

    /// Appends the twelve bytes of this header to `buffer` and returns their
    /// number.
    pub fn serialize(&self, buffer: &mut Vec<u8>) -> (written: usize)
        ensures
            final(buffer)@ == old(buffer)@ + self.spec_serialize(),
            written == HEADER_LEN,
    {
        write_u16(buffer, self.request_id);
        write_u16(buffer, self.flags());
        write_u16(buffer, self.query_count);
        write_u16(buffer, self.answer_count);
        write_u16(buffer, self.nameserver_count);
        write_u16(buffer, self.additional_count);
        assert(buffer@ =~= old(buffer)@ + self.spec_serialize());
        HEADER_LEN
    }

    /// Decodes the header that starts at `pos` in `data`.
    pub fn deserialize_at(data: &[u8], pos: usize) -> (r: Result<(DnsHeader, usize), DecodeError>)
        ensures
            match r {
                Ok((header, end)) => DnsHeader::spec_deserialize(data@, pos as int) == Ok::<
                    (DnsHeader, int),
                    DecodeError,
                >((header, end as int)),
                Err(e) => DnsHeader::spec_deserialize(data@, pos as int) == Err::<
                    (DnsHeader, int),
                    DecodeError,
                >(e),
            },
    {
        let (request_id, at_flags) = match read_u16_at(data, pos) {
            Ok(v) => v,
            Err(e) => {
                return Err(e);
            },
        };
        let (bitflags, at_counts) = match read_u16_at(data, at_flags) {
            Ok(v) => v,
            Err(e) => {
                return Err(e);
            },
        };
        assert((bitflags >> 11) & 0b1111 == bitflags / 2048 % 16) by (bit_vector);
        assert(bitflags & 0b1111 == bitflags % 16) by (bit_vector);
        assert(((bitflags >> 15) & 0b1) == bitflags / 32768 % 2) by (bit_vector);
        assert(((bitflags >> 10) & 0b1) == bitflags / 1024 % 2) by (bit_vector);
        assert(((bitflags >> 9) & 0b1) == bitflags / 512 % 2) by (bit_vector);
        assert(((bitflags >> 8) & 0b1) == bitflags / 256 % 2) by (bit_vector);
        assert(((bitflags >> 7) & 0b1) == bitflags / 128 % 2) by (bit_vector);
        let opcode = match OpCode::from_int((bitflags >> 11) & 0b1111) {
            Some(oc) => oc,
            None => {
                return Err(DecodeError::InvalidOpcode);
            },
        };
        let rcode = match ResponseCode::from_int(bitflags & 0b1111) {
            Some(rc) => rc,
            None => {
                return Err(DecodeError::InvalidResponseCode);
            },
        };
        let (query_count, at_answers) = match read_u16_at(data, at_counts) {
            Ok(v) => v,
            Err(e) => {
                return Err(e);
            },
        };
        let (answer_count, at_nameservers) = match read_u16_at(data, at_answers) {
            Ok(v) => v,
            Err(e) => {
                return Err(e);
            },
        };
        let (nameserver_count, at_additionals) = match read_u16_at(data, at_nameservers) {
            Ok(v) => v,
            Err(e) => {
                return Err(e);
            },
        };
        let (additional_count, end) = match read_u16_at(data, at_additionals) {
            Ok(v) => v,
            Err(e) => {
                return Err(e);
            },
        };
        Ok(
            (
                DnsHeader {
                    request_id,
                    is_response: ((bitflags >> 15) & 0b1) == 1,
                    opcode,
                    authoritative_answer: ((bitflags >> 10) & 0b1) == 1,
                    message_truncated: ((bitflags >> 9) & 0b1) == 1,
                    recursion_desired: ((bitflags >> 8) & 0b1) == 1,
                    recursion_available: ((bitflags >> 7) & 0b1) == 1,
                    rcode,
                    query_count,
                    answer_count,
                    nameserver_count,
                    additional_count,
                },
                end,
            ),
        )
    }

    /// Reads a header at the cursor into `self`. Where that fails, neither
    /// `self` nor the cursor changes.
    pub fn deserialize(&mut self, cursor: &mut Cursor) -> (r: Result<(), DecodeError>)
        ensures
            final(cursor).data@ == old(cursor).data@,
            match r {
                Ok(()) => DnsHeader::spec_deserialize(
                    old(cursor).data@,
                    old(cursor).position as int,
                ) == Ok::<(DnsHeader, int), DecodeError>(
                    (*final(self), final(cursor).position as int),
                ),
                Err(e) => DnsHeader::spec_deserialize(
                    old(cursor).data@,
                    old(cursor).position as int,
                ) == Err::<(DnsHeader, int), DecodeError>(e) && *final(self) == *old(self)
                    && final(cursor).position == old(cursor).position,
            },
    {
        match DnsHeader::deserialize_at(cursor.data, cursor.position) {
            Ok((header, end)) => {
                *self = header;
                cursor.position = end;
                Ok(())
            },
            Err(e) => Err(e),
        }
    }

    /// Reads a header at the cursor. Where that fails, the cursor stays.
    pub fn deserialize_from(cursor: &mut Cursor) -> (r: Result<DnsHeader, DecodeError>)
        ensures
            final(cursor).data@ == old(cursor).data@,
            match r {
                Ok(header) => DnsHeader::spec_deserialize(
                    old(cursor).data@,
                    old(cursor).position as int,
                ) == Ok::<(DnsHeader, int), DecodeError>((header, final(cursor).position as int)),
                Err(e) => DnsHeader::spec_deserialize(
                    old(cursor).data@,
                    old(cursor).position as int,
                ) == Err::<(DnsHeader, int), DecodeError>(e) && final(cursor).position == old(
                    cursor,
                ).position,
            },
    {
        let mut result = DnsHeader::default();
        match result.deserialize(cursor) {
            Ok(()) => Ok(result),
            Err(e) => Err(e),
        }
    }
}

impl Default for DnsHeader {
    /// A standard query with id 0, no flag set and no section.
    fn default() -> (h: DnsHeader)
        ensures
            h == DnsHeader::spec_default(),
    {
        DnsHeader {
            request_id: 0,
            is_response: false,
            opcode: OpCode::Standard,
            authoritative_answer: false,
            message_truncated: false,
            recursion_desired: false,
            recursion_available: false,
            rcode: ResponseCode::NoError,
            query_count: 0,
            answer_count: 0,
            nameserver_count: 0,
            additional_count: 0,
        }
    }
}

/// The two big-endian bytes of a value read back give the value.
pub proof fn lemma_u16_round_trip(n: u16)
    ensures
        spec_u16_bytes(n).len() == 2,
        spec_u16(spec_u16_bytes(n)[0], spec_u16_bytes(n)[1]) == n,
{
}

/// Unpacking a packed flags word gives every flag and both codes back.
pub proof fn lemma_flags_round_trip(h: DnsHeader)
    ensures
        flags_opcode(h.spec_flags()) == h.opcode.spec_code(),
        flags_rcode(h.spec_flags()) == h.rcode.spec_code(),
        flags_bit(h.spec_flags(), 32768) == h.is_response,
        flags_bit(h.spec_flags(), 1024) == h.authoritative_answer,
        flags_bit(h.spec_flags(), 512) == h.message_truncated,
        flags_bit(h.spec_flags(), 256) == h.recursion_desired,
        flags_bit(h.spec_flags(), 128) == h.recursion_available,
{
}

/// For every header, whatever its flags and codes: its bytes, wherever they
/// stand in a buffer, decode to that header, and the decoder ends right
/// behind them.
pub proof fn lemma_header_round_trip(h: DnsHeader, before: Seq<u8>, after: Seq<u8>)
    ensures
        h.spec_serialize().len() == 12,
        DnsHeader::spec_deserialize(
            before + h.spec_serialize() + after,
            before.len() as int,
        ) == Ok::<(DnsHeader, int), DecodeError>((h, before.len() as int + 12)),
{
    let data = before + h.spec_serialize() + after;
    let pos = before.len() as int;
    lemma_flags_round_trip(h);
    lemma_u16_round_trip(h.request_id);
    lemma_u16_round_trip(h.spec_flags());
    lemma_u16_round_trip(h.query_count);
    lemma_u16_round_trip(h.answer_count);
    lemma_u16_round_trip(h.nameserver_count);
    lemma_u16_round_trip(h.additional_count);
    assert(data[pos] == spec_u16_bytes(h.request_id)[0]);
    assert(data[pos + 1] == spec_u16_bytes(h.request_id)[1]);
    assert(data[pos + 2] == spec_u16_bytes(h.spec_flags())[0]);
    assert(data[pos + 3] == spec_u16_bytes(h.spec_flags())[1]);
    assert(data[pos + 4] == spec_u16_bytes(h.query_count)[0]);
    assert(data[pos + 5] == spec_u16_bytes(h.query_count)[1]);
    assert(data[pos + 6] == spec_u16_bytes(h.answer_count)[0]);
    assert(data[pos + 7] == spec_u16_bytes(h.answer_count)[1]);
    assert(data[pos + 8] == spec_u16_bytes(h.nameserver_count)[0]);
    assert(data[pos + 9] == spec_u16_bytes(h.nameserver_count)[1]);
    assert(data[pos + 10] == spec_u16_bytes(h.additional_count)[0]);
    assert(data[pos + 11] == spec_u16_bytes(h.additional_count)[1]);
    OpCode::lemma_from_code(h.opcode);
    ResponseCode::lemma_from_code(h.rcode);
}

/// A header whose operation code is none of the assigned ones does not
/// decode, whatever else it holds: it is refused with `InvalidOpcode`, never
/// read as some other operation.
pub proof fn lemma_unassigned_opcode_rejected(data: Seq<u8>, pos: int)
    requires
        0 <= pos,
        pos + 4 <= data.len(),
        flags_opcode(spec_u16(data[pos + 2], data[pos + 3])) > 2,
    ensures
        DnsHeader::spec_deserialize(data, pos) == Err::<(DnsHeader, int), DecodeError>(
            DecodeError::InvalidOpcode,
        ),
{
}

/// A header with an assigned operation code whose response code is none of
/// the assigned ones is refused with `InvalidResponseCode`.
pub proof fn lemma_unassigned_rcode_rejected(data: Seq<u8>, pos: int)
    requires
        0 <= pos,
        pos + 4 <= data.len(),
        flags_opcode(spec_u16(data[pos + 2], data[pos + 3])) <= 2,
        flags_rcode(spec_u16(data[pos + 2], data[pos + 3])) > 5,
    ensures
        DnsHeader::spec_deserialize(data, pos) == Err::<(DnsHeader, int), DecodeError>(
            DecodeError::InvalidResponseCode,
        ),
{
}

} // verus!

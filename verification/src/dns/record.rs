//! Resource records, decoded up to their payload, which stays bytes.

use vstd::prelude::*;
use crate::dns::codes::{DomainClass, QueryType};
use crate::dns::error::DecodeError;
use crate::dns::question::{
    domain_class_at, query_type_at, spec_domain_class, spec_query_type, spec_text_name,
    text_name_at,
};
use crate::dns::wire::{push_range, read_u16_at, read_u32_at, spec_read_u16, spec_read_u32, Cursor};

verus! {

/// One entry of the answer, authority or additional section.
///
/// The payload is kept as the bytes that came: what they mean depends on the
/// type and is worked out when the record is rendered.
#[derive(Clone, Debug, PartialEq, Eq)]
pub struct DnsResourceRecord {
    /// The labels of the name, joined by dots.
    pub domain_name: String,
    pub data_type: QueryType,
    pub data_class: DomainClass,
    /// Seconds for which the record may be kept.
    pub ttl: u32,
    pub data_length: u16,
    pub data: Vec<u8>,
}

/// A record as a mathematical value.
pub struct RecordView {
    pub domain_name: Seq<char>,
    pub data_type: QueryType,
    pub data_class: DomainClass,
    pub ttl: u32,
    pub data_length: u16,
    pub data: Seq<u8>,
}

impl View for DnsResourceRecord {
    type V = RecordView;

    open spec fn view(&self) -> RecordView {
        RecordView {
            domain_name: self.domain_name@,
            data_type: self.data_type,
            data_class: self.data_class,
            ttl: self.ttl,
            data_length: self.data_length,
            data: self.data@,
        }
    }
}

impl RecordView {
    /// The stated length is the payload's length.
    pub open spec fn well_formed(self) -> bool {
        self.data.len() == self.data_length
    }

    /// The record that starts at `pos` in `data`, and the position after it:
    /// name, type, class, time to live, payload length, and as many payload
    /// bytes as that length says. Pointers in the name are offsets into
    /// `all`.
    pub open spec fn spec_deserialize(data: Seq<u8>, pos: int, all: Seq<u8>) -> Result<
        (RecordView, int),
        DecodeError,
    > {
        match spec_text_name(data, pos, all) {
            Err(e) => Err(e),
            Ok((domain_name, at_type)) => match spec_query_type(data, at_type) {
                Err(e) => Err(e),
                Ok((data_type, at_class)) => match spec_domain_class(data, at_class) {
                    Err(e) => Err(e),
                    Ok((data_class, at_ttl)) => match spec_read_u32(data, at_ttl) {
                        Err(e) => Err(e),
                        Ok((ttl, at_length)) => match spec_read_u16(data, at_length) {
                            Err(e) => Err(e),
                            Ok((data_length, at_data)) => if at_data + data_length as int
                                > data.len() {
                                Err(DecodeError::UnexpectedEof)
                            } else {
                                Ok(
                                    (
                                        RecordView {
                                            domain_name,
                                            data_type,
                                            data_class,
                                            ttl,
                                            data_length,
                                            data: data.subrange(
                                                at_data,
                                                at_data + data_length as int,
                                            ),
                                        },
                                        at_data + data_length as int,
                                    ),
                                )
                            },
                        },
                    },
                },
            },
        }
    }
}

/// A record that decodes is well formed.
pub proof fn lemma_decoded_record_well_formed(data: Seq<u8>, pos: int, all: Seq<u8>)
    requires
        RecordView::spec_deserialize(data, pos, all) is Ok,
    ensures
        RecordView::spec_deserialize(data, pos, all)->Ok_0.0.well_formed(),
        pos < RecordView::spec_deserialize(data, pos, all)->Ok_0.1 <= data.len(),
{
    crate::dns::question::lemma_text_name_advances(data, pos, all);
}

impl DnsResourceRecord {
    /// Decodes the record that starts at `pos` in `data`.
    pub fn deserialize_at(data: &[u8], pos: usize, all: &[u8]) -> (r: Result<
        (DnsResourceRecord, usize),
        DecodeError,
    >)
        ensures
            match r {
                Ok((record, end)) => RecordView::spec_deserialize(data@, pos as int, all@) == Ok::<
                    (RecordView, int),
                    DecodeError,
                >((record@, end as int)),
                Err(e) => RecordView::spec_deserialize(data@, pos as int, all@) == Err::<
                    (RecordView, int),
                    DecodeError,
                >(e),
            },
    {
        let (domain_name, at_type) = match text_name_at(data, pos, all) {
            Ok(v) => v,
            Err(e) => {
                return Err(e);
            },
        };
        let (data_type, at_class) = match query_type_at(data, at_type) {
            Ok(v) => v,
            Err(e) => {
                return Err(e);
            },
        };
        let (data_class, at_ttl) = match domain_class_at(data, at_class) {
            Ok(v) => v,
            Err(e) => {
                return Err(e);
            },
        };
        let (ttl, at_length) = match read_u32_at(data, at_ttl) {
            Ok(v) => v,
            Err(e) => {
                return Err(e);
            },
        };
        let (data_length, at_data) = match read_u16_at(data, at_length) {
            Ok(v) => v,
            Err(e) => {
                return Err(e);
            },
        };
        if data.len() - at_data < data_length as usize {
            return Err(DecodeError::UnexpectedEof);
        }
        let end: usize = at_data + data_length as usize;
        let mut payload: Vec<u8> = Vec::new();
        push_range(&mut payload, data, at_data, end);
        Ok(
            (
                DnsResourceRecord {
                    domain_name,
                    data_type,
                    data_class,
                    ttl,
                    data_length,
                    data: payload,
                },
                end,
            ),
        )
    }

    /// Reads a record at the cursor into `self`, resolving the pointers of
    /// its name against `all_data`, the whole message. Where that fails,
    /// neither `self` nor the cursor changes.
    pub fn deserialize(&mut self, cursor: &mut Cursor, all_data: &[u8]) -> (r: Result<
        (),
        DecodeError,
    >)
        ensures
            final(cursor).data@ == old(cursor).data@,
            match r {
                Ok(()) => RecordView::spec_deserialize(
                    old(cursor).data@,
                    old(cursor).position as int,
                    all_data@,
                ) == Ok::<(RecordView, int), DecodeError>(
                    (final(self)@, final(cursor).position as int),
                ),
                Err(e) => RecordView::spec_deserialize(
                    old(cursor).data@,
                    old(cursor).position as int,
                    all_data@,
                ) == Err::<(RecordView, int), DecodeError>(e) && *final(self) == *old(self)
                    && final(cursor).position == old(cursor).position,
            },
    {
        match DnsResourceRecord::deserialize_at(cursor.data, cursor.position, all_data) {
            Ok((record, end)) => {
                *self = record;
                cursor.position = end;
                Ok(())
            },
            Err(e) => Err(e),
        }
    }

    /// Reads a record at the cursor. Where that fails, the cursor stays.
    pub fn deserialize_from(cursor: &mut Cursor, all_data: &[u8]) -> (r: Result<
        DnsResourceRecord,
        DecodeError,
    >)
        ensures
            final(cursor).data@ == old(cursor).data@,
            match r {
                Ok(record) => RecordView::spec_deserialize(
                    old(cursor).data@,
                    old(cursor).position as int,
                    all_data@,
                ) == Ok::<(RecordView, int), DecodeError>(
                    (record@, final(cursor).position as int),
                ),
                Err(e) => RecordView::spec_deserialize(
                    old(cursor).data@,
                    old(cursor).position as int,
                    all_data@,
                ) == Err::<(RecordView, int), DecodeError>(e) && final(cursor).position == old(
                    cursor,
                ).position,
            },
    {
        match DnsResourceRecord::deserialize_at(cursor.data, cursor.position, all_data) {
            Ok((record, end)) => {
                cursor.position = end;
                Ok(record)
            },
            Err(e) => Err(e),
        }
    }
}

impl Default for DnsResourceRecord {
    /// The record with an empty name, type `Unknown`, class `Reserved`, no
    /// time to live and no payload.
    fn default() -> (record: DnsResourceRecord)
        ensures
            record@ == (RecordView {
                domain_name: Seq::empty(),
                data_type: QueryType::Unknown,
                data_class: DomainClass::Reserved,
                ttl: 0,
                data_length: 0,
                data: Seq::empty(),
            }),
    {
        DnsResourceRecord {
            domain_name: String::new(),
            data_type: QueryType::Unknown,
            data_class: DomainClass::Reserved,
            ttl: 0,
            data_length: 0,
            data: Vec::new(),
        }
    }
}

} // verus!

//! The entries of the question section.

use vstd::prelude::*;
use vstd::string::StringSliceAdditionalSpecFns;
use vstd::utf8::{decode_utf8, encode_utf8, encode_utf8_decode_utf8, encode_utf8_valid_utf8};
use crate::dns::codes::{DomainClass, QueryType};
use crate::dns::error::{DecodeError, EncodeError};
use crate::dns::name::{
    decode_name_at, encode_name, labels_fit, lemma_name_advances, lemma_name_round_trip, spec_encode_name,
    spec_name, MAX_POINTER_HOPS,
};
use crate::dns::wire::{push_range, read_u16_at, spec_read_u16, spec_u16_bytes, write_u16, Cursor};
use crate::dns::header::lemma_u16_round_trip;
use crate::text::{spec_utf8_text, utf8_text};

verus! {

/// One entry of a message's question section.
#[derive(Clone, Debug, PartialEq, Eq)]
pub struct DnsQuestion {
    /// The labels of the name, joined by dots.
    pub domain_name: String,
    pub query_type: QueryType,
    pub query_class: DomainClass,
}

/// A question as a mathematical value.
pub struct QuestionView {
    pub domain_name: Seq<char>,
    pub query_type: QueryType,
    pub query_class: DomainClass,
}

impl View for DnsQuestion {
    type V = QuestionView;

    open spec fn view(&self) -> QuestionView {
        QuestionView {
            domain_name: self.domain_name@,
            query_type: self.query_type,
            query_class: self.query_class,
        }
    }
}

/// The textual name at `pos`: the decoded name, read as UTF-8.
pub open spec fn spec_text_name(data: Seq<u8>, pos: int, all: Seq<u8>) -> Result<
    (Seq<char>, int),
    DecodeError,
> {
    match spec_name(data, pos, all, MAX_POINTER_HOPS as nat) {
        Err(e) => Err(e),
        Ok((bytes, end)) => match spec_utf8_text(bytes) {
            None => Err(DecodeError::InvalidUtf8),
            Some(text) => Ok((text, end)),
        },
    }
}

/// The type code at `pos`, as a type.
pub open spec fn spec_query_type(data: Seq<u8>, pos: int) -> Result<(QueryType, int), DecodeError> {
    match spec_read_u16(data, pos) {
        Err(e) => Err(e),
        Ok((code, end)) => match QueryType::spec_from_int(code) {
            None => Err(DecodeError::InvalidQueryType(code)),
            Some(t) => Ok((t, end)),
        },
    }
}

/// The class code at `pos`, as a class.
pub open spec fn spec_domain_class(data: Seq<u8>, pos: int) -> Result<
    (DomainClass, int),
    DecodeError,
> {
    match spec_read_u16(data, pos) {
        Err(e) => Err(e),
        Ok((code, end)) => match DomainClass::spec_from_int(code) {
            None => Err(DecodeError::InvalidDomainClass),
            Some(c) => Ok((c, end)),
        },
    }
}

/// Reads the textual name at `pos`.
pub fn text_name_at(data: &[u8], pos: usize, all: &[u8]) -> (r: Result<(String, usize), DecodeError>)
    ensures
        match r {
            Ok((name, end)) => spec_text_name(data@, pos as int, all@) == Ok::<
                (Seq<char>, int),
                DecodeError,
            >((name@, end as int)),
            Err(e) => spec_text_name(data@, pos as int, all@) == Err::<
                (Seq<char>, int),
                DecodeError,
            >(e),
        },
{
    let (bytes, end) = match decode_name_at(data, pos, all, MAX_POINTER_HOPS) {
        Ok(v) => v,
        Err(e) => {
            return Err(e);
        },
    };
    match utf8_text(bytes) {
        Some(name) => Ok((name, end)),
        None => Err(DecodeError::InvalidUtf8),
    }
}

/// Reads the type code at `pos`.
pub fn query_type_at(data: &[u8], pos: usize) -> (r: Result<(QueryType, usize), DecodeError>)
    ensures
        match r {
            Ok((t, end)) => spec_query_type(data@, pos as int) == Ok::<
                (QueryType, int),
                DecodeError,
            >((t, end as int)),
            Err(e) => spec_query_type(data@, pos as int) == Err::<(QueryType, int), DecodeError>(
                e,
            ),
        },
{
    let (code, end) = match read_u16_at(data, pos) {
        Ok(v) => v,
        Err(e) => {
            return Err(e);
        },
    };
    match QueryType::from_int(code) {
        Some(t) => Ok((t, end)),
        None => Err(DecodeError::InvalidQueryType(code)),
    }
}

/// Reads the class code at `pos`.
pub fn domain_class_at(data: &[u8], pos: usize) -> (r: Result<(DomainClass, usize), DecodeError>)
    ensures
        match r {
            Ok((c, end)) => spec_domain_class(data@, pos as int) == Ok::<
                (DomainClass, int),
                DecodeError,
            >((c, end as int)),
            Err(e) => spec_domain_class(data@, pos as int) == Err::<
                (DomainClass, int),
                DecodeError,
            >(e),
        },
{
    let (code, end) = match read_u16_at(data, pos) {
        Ok(v) => v,
        Err(e) => {
            return Err(e);
        },
    };
    match DomainClass::from_int(code) {
        Some(c) => Ok((c, end)),
        None => Err(DecodeError::InvalidDomainClass),
    }
}

impl QuestionView {
    /// The wire form: the encoded name, then type and class, 16 bits each.
    pub open spec fn spec_serialize(self) -> Result<Seq<u8>, EncodeError> {
        match spec_encode_name(encode_utf8(self.domain_name)) {
            Err(e) => Err(e),
            Ok(name) => Ok(
                name + spec_u16_bytes(self.query_type.spec_code()) + spec_u16_bytes(
                    self.query_class.spec_code(),
                ),
            ),
        }
    }

    /// The question that starts at `pos` in `data`, and the position after
    /// it. Pointers in its name are offsets into `all`.
    pub open spec fn spec_deserialize(data: Seq<u8>, pos: int, all: Seq<u8>) -> Result<
        (QuestionView, int),
        DecodeError,
    > {
        match spec_text_name(data, pos, all) {
            Err(e) => Err(e),
            Ok((domain_name, at_type)) => match spec_query_type(data, at_type) {
                Err(e) => Err(e),
                Ok((query_type, at_class)) => match spec_domain_class(data, at_class) {
                    Err(e) => Err(e),
                    Ok((query_class, end)) => Ok(
                        (QuestionView { domain_name, query_type, query_class }, end),
                    ),
                },
            },
        }
    }
}

impl DnsQuestion {
    /// Appends the wire form of this question to `buffer`.
    ///
    /// Fails with `LabelTooLong`, and leaves `buffer` as it was, exactly where
    /// a label of the name has more than 255 bytes.
    pub fn serialize(&self, buffer: &mut Vec<u8>) -> (r: Result<(), EncodeError>)
        ensures
            match r {
                Ok(()) => self@.spec_serialize() is Ok && final(buffer)@ == old(buffer)@
                    + self@.spec_serialize()->Ok_0,
                Err(e) => self@.spec_serialize() == Err::<Seq<u8>, EncodeError>(e)
                    && final(buffer)@ == old(buffer)@,
            },
    {
        let name = match encode_name(self.domain_name.as_str()) {
            Ok(name) => name,
            Err(e) => {
                return Err(e);
            },
        };
        push_range(buffer, name.as_slice(), 0, name.len());
        write_u16(buffer, self.query_type.code());
        write_u16(buffer, self.query_class.code());
        proof {
            assert(name@.subrange(0, name@.len() as int) =~= name@);
            assert(buffer@ =~= old(buffer)@ + self@.spec_serialize()->Ok_0);
        }
        Ok(())
    }

    /// Decodes the question that starts at `pos` in `data`.
    pub fn deserialize_at(data: &[u8], pos: usize, all: &[u8]) -> (r: Result<
        (DnsQuestion, usize),
        DecodeError,
    >)
        ensures
            match r {
                Ok((q, end)) => QuestionView::spec_deserialize(data@, pos as int, all@) == Ok::<
                    (QuestionView, int),
                    DecodeError,
                >((q@, end as int)),
                Err(e) => QuestionView::spec_deserialize(data@, pos as int, all@) == Err::<
                    (QuestionView, int),
                    DecodeError,
                >(e),
            },
    {
        let (domain_name, at_type) = match text_name_at(data, pos, all) {
            Ok(v) => v,
            Err(e) => {
                return Err(e);
            },
        };
        let (query_type, at_class) = match query_type_at(data, at_type) {
            Ok(v) => v,
            Err(e) => {
                return Err(e);
            },
        };
        let (query_class, end) = match domain_class_at(data, at_class) {
            Ok(v) => v,
            Err(e) => {
                return Err(e);
            },
        };
        Ok((DnsQuestion { domain_name, query_type, query_class }, end))
    }

    /// Reads a question at the cursor into `self`, resolving the pointers of
    /// its name against `all_data`. Where that fails, neither `self` nor the
    /// cursor changes.
    pub fn deserialize(&mut self, cursor: &mut Cursor, all_data: &[u8]) -> (r: Result<
        (),
        DecodeError,
    >)
        ensures
            final(cursor).data@ == old(cursor).data@,
            match r {
                Ok(()) => QuestionView::spec_deserialize(
                    old(cursor).data@,
                    old(cursor).position as int,
                    all_data@,
                ) == Ok::<(QuestionView, int), DecodeError>(
                    (final(self)@, final(cursor).position as int),
                ),
                Err(e) => QuestionView::spec_deserialize(
                    old(cursor).data@,
                    old(cursor).position as int,
                    all_data@,
                ) == Err::<(QuestionView, int), DecodeError>(e) && *final(self) == *old(self)
                    && final(cursor).position == old(cursor).position,
            },
    {
        match DnsQuestion::deserialize_at(cursor.data, cursor.position, all_data) {
            Ok((question, end)) => {
                *self = question;
                cursor.position = end;
                Ok(())
            },
            Err(e) => Err(e),
        }
    }

    /// Reads a question at the cursor. Where that fails, the cursor stays.
    pub fn deserialize_from(cursor: &mut Cursor, all_data: &[u8]) -> (r: Result<
        DnsQuestion,
        DecodeError,
    >)
        ensures
            final(cursor).data@ == old(cursor).data@,
            match r {
                Ok(q) => QuestionView::spec_deserialize(
                    old(cursor).data@,
                    old(cursor).position as int,
                    all_data@,
                ) == Ok::<(QuestionView, int), DecodeError>((q@, final(cursor).position as int)),
                Err(e) => QuestionView::spec_deserialize(
                    old(cursor).data@,
                    old(cursor).position as int,
                    all_data@,
                ) == Err::<(QuestionView, int), DecodeError>(e) && final(cursor).position == old(
                    cursor,
                ).position,
            },
    {
        match DnsQuestion::deserialize_at(cursor.data, cursor.position, all_data) {
            Ok((question, end)) => {
                cursor.position = end;
                Ok(question)
            },
            Err(e) => Err(e),
        }
    }
}

impl Default for DnsQuestion {
    /// The question with an empty name, type `Unknown` and class `Reserved`.
    fn default() -> (q: DnsQuestion)
        ensures
            q@ == (QuestionView {
                domain_name: Seq::empty(),
                query_type: QueryType::Unknown,
                query_class: DomainClass::Reserved,
            }),
    {
        DnsQuestion {
            domain_name: String::new(),
            query_type: QueryType::Unknown,
            query_class: DomainClass::Reserved,
        }
    }
}

/// For any question whose name is made of labels of 1 to 63 bytes each:
/// it has a wire form, and that wire form, wherever it stands in a buffer,
/// decodes to the question and ends right behind it.
pub proof fn lemma_question_round_trip(
    q: QuestionView,
    before: Seq<u8>,
    after: Seq<u8>,
    all: Seq<u8>,
)
    requires
        labels_fit(encode_utf8(q.domain_name)),
    ensures
        q.spec_serialize() is Ok,
        QuestionView::spec_deserialize(
            before + q.spec_serialize()->Ok_0 + after,
            before.len() as int,
            all,
        ) == Ok::<(QuestionView, int), DecodeError>(
            (q, before.len() as int + q.spec_serialize()->Ok_0.len()),
        ),
{
    let bytes = encode_utf8(q.domain_name);
    let type_bytes = spec_u16_bytes(q.query_type.spec_code());
    let class_bytes = spec_u16_bytes(q.query_class.spec_code());
    lemma_name_round_trip(bytes, before, type_bytes + class_bytes + after, all, MAX_POINTER_HOPS as nat);
    let name = spec_encode_name(bytes)->Ok_0;
    let data = before + q.spec_serialize()->Ok_0 + after;
    assert(data =~= before + name + (type_bytes + class_bytes + after));
    encode_utf8_valid_utf8(q.domain_name);
    encode_utf8_decode_utf8(q.domain_name);
    let at_type = before.len() as int + name.len();
    assert(spec_text_name(data, before.len() as int, all) == Ok::<(Seq<char>, int), DecodeError>(
        (q.domain_name, at_type),
    ));
    lemma_u16_round_trip(q.query_type.spec_code());
    lemma_u16_round_trip(q.query_class.spec_code());
    assert(data[at_type] == type_bytes[0]);
    assert(data[at_type + 1] == type_bytes[1]);
    assert(data[at_type + 2] == class_bytes[0]);
    assert(data[at_type + 3] == class_bytes[1]);
    QueryType::lemma_from_code(q.query_type);
    DomainClass::lemma_from_code(q.query_class);
}

/// A textual name that decodes ends past where it starts, and within its
/// buffer.
pub proof fn lemma_text_name_advances(data: Seq<u8>, pos: int, all: Seq<u8>)
    requires
        spec_text_name(data, pos, all) is Ok,
    ensures
        pos < spec_text_name(data, pos, all)->Ok_0.1 <= data.len(),
{
    lemma_name_advances(data, pos, all, MAX_POINTER_HOPS as nat);
}

} // verus!

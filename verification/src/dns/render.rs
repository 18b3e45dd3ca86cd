//! What the payload of a record says, by the record's type. A payload that
//! cannot be read fails its own record and no other.

use vstd::prelude::*;
use crate::dns::codes::QueryType;
use crate::dns::error::DecodeError;
use crate::dns::name::{
    decode_name_at, deserialize_bytes, spec_char_string, spec_name, MAX_POINTER_HOPS,
};
use crate::dns::record::{DnsResourceRecord, RecordView};
use crate::dns::wire::{read_u16_at, read_u32_at, spec_read_u32, spec_u16, Cursor};
use crate::text::{spec_utf8_text, utf8_text};

verus! {

/// The number of bytes of an IPv4 address.
pub const ADDRESS_LEN: usize = 4;

/// The least number of bytes that a mail exchange or a start of authority
/// is looked at with.
pub const MIN_COMPOUND_LEN: usize = 3;

/// What a record's payload says, read according to the record's type.
#[derive(Clone, Debug, PartialEq, Eq)]
pub enum RecordData {
    /// Type A: the four bytes of an IPv4 address.
    Address(u8, u8, u8, u8),
    /// Type CNAME: the name that the record's name is an alias of.
    CanonicalName(String),
    /// Type NS: the name of a name server.
    NameServer(String),
    /// Type MX: a mail host and its preference, lower meaning preferred.
    MailExchange { preference: u16, exchange: String },
    /// Type SOA: the zone's origin, the mailbox of who is responsible for
    /// it, and its five timing values.
    StartOfAuthority {
        origin: String,
        mailbox: String,
        serial: u32,
        refresh: u32,
        retry: u32,
        expire: u32,
        minimum: u32,
    },
    /// Type TXT: the first character-string of the payload.
    Text(String),
}

/// A payload's meaning as a mathematical value.
pub enum RecordDataView {
    Address(u8, u8, u8, u8),
    CanonicalName(Seq<char>),
    NameServer(Seq<char>),
    MailExchange { preference: u16, exchange: Seq<char> },
    StartOfAuthority {
        origin: Seq<char>,
        mailbox: Seq<char>,
        serial: u32,
        refresh: u32,
        retry: u32,
        expire: u32,
        minimum: u32,
    },
    Text(Seq<char>),
}

impl View for RecordData {
    type V = RecordDataView;

    open spec fn view(&self) -> RecordDataView {
        match self {
            RecordData::Address(a, b, c, d) => RecordDataView::Address(*a, *b, *c, *d),
            RecordData::CanonicalName(name) => RecordDataView::CanonicalName(name@),
            RecordData::NameServer(name) => RecordDataView::NameServer(name@),
            RecordData::MailExchange { preference, exchange } => RecordDataView::MailExchange {
                preference: *preference,
                exchange: exchange@,
            },
            RecordData::StartOfAuthority {
                origin,
                mailbox,
                serial,
                refresh,
                retry,
                expire,
                minimum,
            } => RecordDataView::StartOfAuthority {
                origin: origin@,
                mailbox: mailbox@,
                serial: *serial,
                refresh: *refresh,
                retry: *retry,
                expire: *expire,
                minimum: *minimum,
            },
            RecordData::Text(text) => RecordDataView::Text(text@),
        }
    }
}

/// Why one record could not be rendered. It says nothing of the records
/// beside it.
#[derive(Clone, Copy, Debug, PartialEq, Eq, Structural)]
pub enum RenderError {
    /// The payload has not the one length that its type has.
    WrongLength { expected: usize, actual: usize },
    /// The payload is shorter than its type can be.
    TooShort { minimum: usize, actual: usize },
    /// A name, a string or a number in the payload could not be read.
    MalformedData(DecodeError),
    /// A name or a string in the payload is not valid UTF-8.
    InvalidUtf8,
    /// Payloads of this type are not rendered.
    Unsupported(QueryType),
}

/// The bytes of the name at `pos` of a payload, and the position after it.
pub open spec fn spec_payload_name(payload: Seq<u8>, pos: int, all: Seq<u8>) -> Result<
    (Seq<u8>, int),
    RenderError,
> {
    match spec_name(payload, pos, all, MAX_POINTER_HOPS as nat) {
        Err(e) => Err(RenderError::MalformedData(e)),
        Ok(found) => Ok(found),
    }
}

/// Bytes read as UTF-8 text.
pub open spec fn spec_payload_text(bytes: Seq<u8>) -> Result<Seq<char>, RenderError> {
    match spec_utf8_text(bytes) {
        None => Err(RenderError::InvalidUtf8),
        Some(text) => Ok(text),
    }
}

/// The name that a payload consists of, as text.
pub open spec fn spec_render_name(payload: Seq<u8>, all: Seq<u8>) -> Result<Seq<char>, RenderError> {
    match spec_payload_name(payload, 0, all) {
        Err(e) => Err(e),
        Ok((bytes, _)) => spec_payload_text(bytes),
    }
}

/// A mail exchange: a 16-bit preference, then the host's name.
pub open spec fn spec_render_mx(payload: Seq<u8>, all: Seq<u8>) -> Result<
    RecordDataView,
    RenderError,
> {
    if payload.len() < MIN_COMPOUND_LEN {
        Err(RenderError::TooShort { minimum: MIN_COMPOUND_LEN, actual: payload.len() as usize })
    } else {
        match spec_payload_name(payload, 2, all) {
            Err(e) => Err(e),
            Ok((bytes, _)) => match spec_payload_text(bytes) {
                Err(e) => Err(e),
                Ok(exchange) => Ok(
                    RecordDataView::MailExchange {
                        preference: spec_u16(payload[0], payload[1]),
                        exchange,
                    },
                ),
            },
        }
    }
}

/// Five 32-bit values in a row at `pos`.
pub open spec fn spec_five_u32(payload: Seq<u8>, pos: int) -> Result<
    (u32, u32, u32, u32, u32),
    RenderError,
> {
    match spec_read_u32(payload, pos) {
        Err(e) => Err(RenderError::MalformedData(e)),
        Ok((a, _)) => match spec_read_u32(payload, pos + 4) {
            Err(e) => Err(RenderError::MalformedData(e)),
            Ok((b, _)) => match spec_read_u32(payload, pos + 8) {
                Err(e) => Err(RenderError::MalformedData(e)),
                Ok((c, _)) => match spec_read_u32(payload, pos + 12) {
                    Err(e) => Err(RenderError::MalformedData(e)),
                    Ok((d, _)) => match spec_read_u32(payload, pos + 16) {
                        Err(e) => Err(RenderError::MalformedData(e)),
                        Ok((e, _)) => Ok((a, b, c, d, e)),
                    },
                },
            },
        }
    }
}

/// A start of authority: two names, then serial, refresh, retry, expire and
/// minimum, 32 bits each. The names are read as text once all of it has been
/// found to be there.
pub open spec fn spec_render_soa(payload: Seq<u8>, all: Seq<u8>) -> Result<
    RecordDataView,
    RenderError,
> {
    if payload.len() < MIN_COMPOUND_LEN {
        Err(RenderError::TooShort { minimum: MIN_COMPOUND_LEN, actual: payload.len() as usize })
    } else {
        match spec_payload_name(payload, 0, all) {
            Err(e) => Err(e),
            Ok((origin_bytes, at_mailbox)) => match spec_payload_name(payload, at_mailbox, all) {
                Err(e) => Err(e),
                Ok((mailbox_bytes, at_numbers)) => match spec_five_u32(payload, at_numbers) {
                    Err(e) => Err(e),
                    Ok((serial, refresh, retry, expire, minimum)) => match spec_payload_text(
                        origin_bytes,
                    ) {
                        Err(e) => Err(e),
                        Ok(origin) => match spec_payload_text(mailbox_bytes) {
                            Err(e) => Err(e),
                            Ok(mailbox) => Ok(
                                RecordDataView::StartOfAuthority {
                                    origin,
                                    mailbox,
                                    serial,
                                    refresh,
                                    retry,
                                    expire,
                                    minimum,
                                },
                            ),
                        },
                    },
                },
            },
        }
    }
}

/// A text record: its first character-string, as text. Further strings in
/// the payload are not looked at.
pub open spec fn spec_render_txt(payload: Seq<u8>) -> Result<RecordDataView, RenderError> {
    match spec_char_string(payload, 0) {
        Err(e) => Err(RenderError::MalformedData(e)),
        Ok((bytes, _)) => match spec_payload_text(bytes) {
            Err(e) => Err(e),
            Ok(text) => Ok(RecordDataView::Text(text)),
        },
    }
}

/// What a record's payload says: the payload is read according to the
/// record's type, names in it being resolved against `all`, the whole
/// message.
pub open spec fn spec_render(record: RecordView, all: Seq<u8>) -> Result<
    RecordDataView,
    RenderError,
> {
    match record.data_type {
        QueryType::A => if record.data.len() != ADDRESS_LEN {
            Err(
                RenderError::WrongLength {
                    expected: ADDRESS_LEN,
                    actual: record.data.len() as usize,
                },
            )
        } else {
            Ok(
                RecordDataView::Address(
                    record.data[0],
                    record.data[1],
                    record.data[2],
                    record.data[3],
                ),
            )
        },
        QueryType::CNAME => match spec_render_name(record.data, all) {
            Err(e) => Err(e),
            Ok(name) => Ok(RecordDataView::CanonicalName(name)),
        },
        QueryType::NS => match spec_render_name(record.data, all) {
            Err(e) => Err(e),
            Ok(name) => Ok(RecordDataView::NameServer(name)),
        },
        QueryType::MX => spec_render_mx(record.data, all),
        QueryType::SOA => spec_render_soa(record.data, all),
        QueryType::TXT => spec_render_txt(record.data),
        other => Err(RenderError::Unsupported(other)),
    }
}

/// Reads the bytes of the name at `pos` of a payload.
fn payload_name(payload: &[u8], pos: usize, all: &[u8]) -> (r: Result<(Vec<u8>, usize), RenderError>)
    ensures
        match r {
            Ok((bytes, end)) => spec_payload_name(payload@, pos as int, all@) == Ok::<
                (Seq<u8>, int),
                RenderError,
            >((bytes@, end as int)),
            Err(e) => spec_payload_name(payload@, pos as int, all@) == Err::<
                (Seq<u8>, int),
                RenderError,
            >(e),
        },
{
    match decode_name_at(payload, pos, all, MAX_POINTER_HOPS) {
        Ok(found) => Ok(found),
        Err(e) => Err(RenderError::MalformedData(e)),
    }
}

/// Reads bytes as UTF-8 text.
fn payload_text(bytes: Vec<u8>) -> (r: Result<String, RenderError>)
    ensures
        match r {
            Ok(text) => spec_payload_text(bytes@) == Ok::<Seq<char>, RenderError>(text@),
            Err(e) => spec_payload_text(bytes@) == Err::<Seq<char>, RenderError>(e),
        },
{
    match utf8_text(bytes) {
        Some(text) => Ok(text),
        None => Err(RenderError::InvalidUtf8),
    }
}

/// Reads a payload that consists of one name.
fn render_name(payload: &[u8], all: &[u8]) -> (r: Result<String, RenderError>)
    ensures
        match r {
            Ok(name) => spec_render_name(payload@, all@) == Ok::<Seq<char>, RenderError>(name@),
            Err(e) => spec_render_name(payload@, all@) == Err::<Seq<char>, RenderError>(e),
        },
{
    match payload_name(payload, 0, all) {
        Ok((bytes, _)) => payload_text(bytes),
        Err(e) => Err(e),
    }
}

/// Reads the payload of a mail exchange record.
fn render_mx(payload: &[u8], all: &[u8]) -> (r: Result<RecordData, RenderError>)
    ensures
        match r {
            Ok(data) => spec_render_mx(payload@, all@) == Ok::<RecordDataView, RenderError>(data@),
            Err(e) => spec_render_mx(payload@, all@) == Err::<RecordDataView, RenderError>(e),
        },
{
    if payload.len() < MIN_COMPOUND_LEN {
        return Err(RenderError::TooShort { minimum: MIN_COMPOUND_LEN, actual: payload.len() });
    }
    let (preference, at_name) = match read_u16_at(payload, 0) {
        Ok(v) => v,
        Err(e) => {
            return Err(RenderError::MalformedData(e));
        },
    };
    let (bytes, _) = match payload_name(payload, at_name, all) {
        Ok(v) => v,
        Err(e) => {
            return Err(e);
        },
    };
    match payload_text(bytes) {
        Ok(exchange) => Ok(RecordData::MailExchange { preference, exchange }),
        Err(e) => Err(e),
    }
}

/// Reads five 32-bit values in a row at `pos`.
fn five_u32(payload: &[u8], pos: usize) -> (r: Result<(u32, u32, u32, u32, u32), RenderError>)
    ensures
        r == spec_five_u32(payload@, pos as int),
{
    let (a, at_second) = match read_u32_at(payload, pos) {
        Ok(v) => v,
        Err(e) => {
            return Err(RenderError::MalformedData(e));
        },
    };
    let (b, at_third) = match read_u32_at(payload, at_second) {
        Ok(v) => v,
        Err(e) => {
            return Err(RenderError::MalformedData(e));
        },
    };
    let (c, at_fourth) = match read_u32_at(payload, at_third) {
        Ok(v) => v,
        Err(e) => {
            return Err(RenderError::MalformedData(e));
        },
    };
    let (d, at_fifth) = match read_u32_at(payload, at_fourth) {
        Ok(v) => v,
        Err(e) => {
            return Err(RenderError::MalformedData(e));
        },
    };
    let (e, _) = match read_u32_at(payload, at_fifth) {
        Ok(v) => v,
        Err(e) => {
            return Err(RenderError::MalformedData(e));
        },
    };
    Ok((a, b, c, d, e))
}

/// Reads the payload of a start of authority record.
fn render_soa(payload: &[u8], all: &[u8]) -> (r: Result<RecordData, RenderError>)
    ensures
        match r {
            Ok(data) => spec_render_soa(payload@, all@) == Ok::<RecordDataView, RenderError>(
                data@,
            ),
            Err(e) => spec_render_soa(payload@, all@) == Err::<RecordDataView, RenderError>(e),
        },
{
    if payload.len() < MIN_COMPOUND_LEN {
        return Err(RenderError::TooShort { minimum: MIN_COMPOUND_LEN, actual: payload.len() });
    }
    let (origin_bytes, at_mailbox) = match payload_name(payload, 0, all) {
        Ok(v) => v,
        Err(e) => {
            return Err(e);
        },
    };
    let (mailbox_bytes, at_numbers) = match payload_name(payload, at_mailbox, all) {
        Ok(v) => v,
        Err(e) => {
            return Err(e);
        },
    };
    let (serial, refresh, retry, expire, minimum) = match five_u32(payload, at_numbers) {
        Ok(v) => v,
        Err(e) => {
            return Err(e);
        },
    };
    let origin = match payload_text(origin_bytes) {
        Ok(v) => v,
        Err(e) => {
            return Err(e);
        },
    };
    let mailbox = match payload_text(mailbox_bytes) {
        Ok(v) => v,
        Err(e) => {
            return Err(e);
        },
    };
    Ok(RecordData::StartOfAuthority { origin, mailbox, serial, refresh, retry, expire, minimum })
}

/// Reads the payload of a text record.
fn render_txt(payload: &[u8]) -> (r: Result<RecordData, RenderError>)
    ensures
        match r {
            Ok(data) => spec_render_txt(payload@) == Ok::<RecordDataView, RenderError>(data@),
            Err(e) => spec_render_txt(payload@) == Err::<RecordDataView, RenderError>(e),
        },
{
    let mut cursor = Cursor::new(payload);
    let bytes = match deserialize_bytes(&mut cursor) {
        Ok(v) => v,
        Err(e) => {
            return Err(RenderError::MalformedData(e));
        },
    };
    match payload_text(bytes) {
        Ok(text) => Ok(RecordData::Text(text)),
        Err(e) => Err(e),
    }
}

/// Reads a record's payload according to the record's type.
///
/// `all_data` is the whole message that the record came in: the pointers of
/// the names in the payload are offsets into it, not into the payload. A
/// failure concerns this record alone.
pub fn render_record(record: &DnsResourceRecord, all_data: &[u8]) -> (r: Result<
    RecordData,
    RenderError,
>)
    ensures
        match r {
            Ok(data) => spec_render(record@, all_data@) == Ok::<RecordDataView, RenderError>(
                data@,
            ),
            Err(e) => spec_render(record@, all_data@) == Err::<RecordDataView, RenderError>(e),
        },
{
    let payload = record.data.as_slice();
    match record.data_type {
        QueryType::A => {
            if payload.len() != ADDRESS_LEN {
                Err(RenderError::WrongLength { expected: ADDRESS_LEN, actual: payload.len() })
            } else {
                Ok(RecordData::Address(payload[0], payload[1], payload[2], payload[3]))
            }
        },
        QueryType::CNAME => match render_name(payload, all_data) {
            Ok(name) => Ok(RecordData::CanonicalName(name)),
            Err(e) => Err(e),
        },
        QueryType::NS => match render_name(payload, all_data) {
            Ok(name) => Ok(RecordData::NameServer(name)),
            Err(e) => Err(e),
        },
        QueryType::MX => render_mx(payload, all_data),
        QueryType::SOA => render_soa(payload, all_data),
        QueryType::TXT => render_txt(payload),
        other => Err(RenderError::Unsupported(other)),
    }
}

} // verus!

//! A reply as text: the pieces of output that show its header and its
//! records, each with the stream that it goes to.

use vstd::prelude::*;
use vstd::string::StringExecFns;
use crate::dns::codes::ResponseCode;
use crate::dns::duration::{format_time, spec_format_time};
use crate::dns::error::DecodeError;
use crate::dns::header::{lemma_header_round_trip, DnsHeader};
use crate::dns::packet::{
    lemma_questions_round_trip, names_fit, record_item, records_view, spec_section,
    spec_serialize_questions, DnsPacket, PacketView,
};
use crate::dns::record::{DnsResourceRecord, RecordView};
use crate::dns::render::{render_record, spec_render, RecordData, RecordDataView, RenderError};
use crate::text::{decimal_string, spec_decimal_text};

verus! {

/// A piece of output and the stream it goes to.
#[derive(Clone, Debug, PartialEq, Eq)]
pub struct Chunk {
    /// Whether the text goes to the error stream, not to the output stream.
    pub to_stderr: bool,
    pub text: String,
}

/// A piece of output as a mathematical value.
pub struct ChunkView {
    pub to_stderr: bool,
    pub text: Seq<char>,
}

impl View for Chunk {
    type V = ChunkView;

    open spec fn view(&self) -> ChunkView {
        ChunkView { to_stderr: self.to_stderr, text: self.text@ }
    }
}

/// The pieces of a sequence as mathematical values.
pub open spec fn chunks_view(chunks: Seq<Chunk>) -> Seq<ChunkView> {
    chunks.map_values(|c: Chunk| c@)
}

/// A piece for the output stream.
pub open spec fn out(text: Seq<char>) -> ChunkView {
    ChunkView { to_stderr: false, text }
}

/// A piece for the error stream.
pub open spec fn err(text: Seq<char>) -> ChunkView {
    ChunkView { to_stderr: true, text }
}

/// Why a reply could not be decoded.
#[derive(Clone, Copy, Debug, PartialEq, Eq, Structural)]
pub enum ResponseError {
    /// The header could not be decoded.
    Header(DecodeError),
    /// A section behind the header could not be decoded.
    Sections(DecodeError),
}

/// The message that a datagram holds: the header at its start, then the
/// sections that the header counts.
pub open spec fn spec_decode_response(response: Seq<u8>) -> Result<PacketView, ResponseError> {
    match DnsHeader::spec_deserialize(response, 0) {
        Err(e) => Err(ResponseError::Header(e)),
        Ok((header, at_sections)) => match PacketView::spec_deserialize(
            header,
            response,
            at_sections,
            response,
        ) {
            Err(e) => Err(ResponseError::Sections(e)),
            Ok((packet, _)) => Ok(packet),
        },
    }
}

/// Decodes a datagram into a message. The whole datagram is what the
/// pointers of its names refer to.
pub fn decode_response(response: &[u8]) -> (r: Result<DnsPacket, ResponseError>)
    ensures
        match r {
            Ok(packet) => spec_decode_response(response@) == Ok::<PacketView, ResponseError>(
                packet@,
            ),
            Err(e) => spec_decode_response(response@) == Err::<PacketView, ResponseError>(e),
        },
{
    let (header, at_sections) = match DnsHeader::deserialize_at(response, 0) {
        Ok(v) => v,
        Err(e) => {
            return Err(ResponseError::Header(e));
        },
    };
    match DnsPacket::deserialize_at(header, response, at_sections, response) {
        Ok((packet, _)) => Ok(packet),
        Err(e) => Err(ResponseError::Sections(e)),
    }
}

impl ResponseError {
    /// What went wrong, in words.
    pub open spec fn spec_message(self) -> Seq<char> {
        match self {
            ResponseError::Header(e) => "Failed to deserialise header from network: "@
                + e.spec_message(),
            ResponseError::Sections(e) => "Failed to deserialise packet from network: "@
                + e.spec_message(),
        }
    }

    /// Says in words what went wrong.
    pub fn message(&self) -> (text: String)
        ensures
            text@ == self.spec_message(),
    {
        match self {
            ResponseError::Header(e) => {
                let mut text = "Failed to deserialise header from network: ".to_owned();
                text.append(e.message().as_str());
                text
            },
            ResponseError::Sections(e) => {
                let mut text = "Failed to deserialise packet from network: ".to_owned();
                text.append(e.message().as_str());
                text
            },
        }
    }
}

/// What stands in front of a record's payload: its name, class and type.
pub open spec fn spec_heading(record: RecordView) -> Seq<char> {
    record.domain_name + " ("@ + record.data_class.spec_label() + ", "@
        + record.data_type.spec_label() + "): "@
}

/// The time to live in brackets.
pub open spec fn spec_ttl(ttl: u32) -> Seq<char> {
    "  (TTL: "@ + spec_format_time(ttl) + ")"@
}

/// The line that shows a payload, with the record's time to live.
pub open spec fn spec_data_line(data: RecordDataView, ttl: u32) -> Seq<char> {
    match data {
        RecordDataView::Address(a, b, c, d) => "  "@ + spec_decimal_text(a as nat) + "."@
            + spec_decimal_text(b as nat) + "."@ + spec_decimal_text(c as nat) + "."@
            + spec_decimal_text(d as nat) + spec_ttl(ttl) + "\n"@,
        RecordDataView::CanonicalName(name) => "  "@ + name + spec_ttl(ttl) + "\n"@,
        RecordDataView::NameServer(name) => "  "@ + name + spec_ttl(ttl) + "\n"@,
        RecordDataView::Text(text) => "  "@ + text + spec_ttl(ttl) + "\n"@,
        RecordDataView::MailExchange { preference, exchange } => "  "@ + exchange
            + "  (Priority: "@ + spec_decimal_text(preference as nat) + ", TTL: "@
            + spec_format_time(ttl) + ")"@ + "\n"@,
        RecordDataView::StartOfAuthority {
            origin,
            mailbox,
            serial,
            refresh,
            retry,
            expire,
            minimum,
        } => "  "@ + origin + " - "@ + mailbox + " (Serial: "@ + spec_decimal_text(serial as nat)
            + ", Refresh: "@ + spec_format_time(refresh) + ", Retry: "@ + spec_format_time(retry)
            + ", Expire: "@ + spec_format_time(expire) + ", Minimum: "@ + spec_format_time(
            minimum,
        ) + ", TTL: "@ + spec_format_time(ttl) + ")"@ + "\n"@,
    }
}

/// The line that says why a record of the given type was not rendered.
pub open spec fn spec_error_line(record: RecordView, e: RenderError) -> Seq<char> {
    match e {
        RenderError::WrongLength { expected, actual } => "Response for data type "@
            + record.data_type.spec_label() + " is expected to contain exactly "@
            + spec_decimal_text(expected as nat) + " bytes and instead contained "@
            + spec_decimal_text(actual as nat) + " bytes. Ignoring...\n"@,
        RenderError::TooShort { minimum, actual } => "Response for data type "@
            + record.data_type.spec_label() + " is expected to contain at least "@
            + spec_decimal_text(minimum as nat) + " bytes and instead contained "@
            + spec_decimal_text(actual as nat) + " bytes. Ignoring...\n"@,
        RenderError::MalformedData(cause) => "ERROR: Failed to parse data from "@
            + record.data_type.spec_label() + " record: "@ + cause.spec_message() + "\n"@,
        RenderError::InvalidUtf8 => "ERROR: Failed to parse data from "@
            + record.data_type.spec_label() + " record as UTF8\n"@,
        RenderError::Unsupported(t) => " Unsupported data type: "@ + t.spec_label() + "\n\n"@,
    }
}

/// The two pieces that show one record: the heading on the output stream,
/// then the payload on the output stream or, where it could not be rendered,
/// the reason on the error stream.
pub open spec fn spec_record_chunks(record: RecordView, all: Seq<u8>) -> Seq<ChunkView> {
    seq![
        out(spec_heading(record)),
        match spec_render(record, all) {
            Ok(data) => out(spec_data_line(data, record.ttl)),
            Err(e) => err(spec_error_line(record, e)),
        },
    ]
}

/// The pieces that show the records of a section, in order. A record that
/// cannot be rendered takes nothing from those beside it.
pub open spec fn spec_section_chunks(records: Seq<RecordView>, all: Seq<u8>) -> Seq<ChunkView>
    decreases records.len(),
{
    if records.len() == 0 {
        Seq::empty()
    } else {
        spec_section_chunks(records.drop_last(), all) + spec_record_chunks(records.last(), all)
    }
}

/// The line that counts a section, shown where `shown` holds.
pub open spec fn spec_count_chunks(shown: bool, count: nat, what: Seq<char>) -> Seq<ChunkView> {
    if shown {
        seq![out("Received "@ + spec_decimal_text(count) + what)]
    } else {
        Seq::empty()
    }
}

/// A piece that is there only where `shown` holds.
pub open spec fn spec_optional(shown: bool, chunk: ChunkView) -> Seq<ChunkView> {
    if shown {
        seq![chunk]
    } else {
        Seq::empty()
    }
}

/// The first pieces of a reply's header: a warning where the reply's id is
/// not the request's, and in verbose mode the operation and the two
/// recursion facts.
pub open spec fn spec_header_facts(request_id: u16, header: DnsHeader, verbose: bool) -> Seq<
    ChunkView,
> {
    spec_optional(
        header.request_id != request_id,
        out(
            "WARNING: Received packet header contains a request ID that does not match our request!\n"@,
        ),
    ) + spec_optional(
        verbose,
        out("  Request operation type: "@ + header.opcode.spec_label() + "\n"@),
    ) + spec_optional(
        verbose,
        out(
            if header.authoritative_answer {
                "  Response is authoritative\n"@
            } else {
                "  Response is non-authoritative\n"@
            },
        ),
    ) + spec_optional(
        verbose,
        out(
            if header.recursion_available {
                "  Recursive query resolution is available\n"@
            } else {
                "  Recursive query resolution is not available\n"@
            },
        ),
    )
}

/// The last pieces of a reply's header: the response code, on the error
/// stream unless it is `NoError`, and then only in verbose mode; a warning
/// where the reply was truncated; an empty line.
pub open spec fn spec_header_status(header: DnsHeader, verbose: bool) -> Seq<ChunkView> {
    (if header.rcode == ResponseCode::NoError {
        spec_optional(verbose, out("  Response code: "@ + header.rcode.spec_label() + "\n"@))
    } else {
        seq![err("  Response code: ERROR: "@ + header.rcode.spec_label() + "\n"@)]
    }) + spec_optional(
        header.message_truncated,
        out("WARNING: Packet header indicates that the data received has been truncated!\n"@),
    ) + seq![out("\n"@)]
}

/// The pieces that show a reply's header.
pub open spec fn spec_header_chunks(request_id: u16, header: DnsHeader, verbose: bool) -> Seq<
    ChunkView,
> {
    spec_header_facts(request_id, header, verbose) + spec_header_status(header, verbose)
}

/// All that is shown of a reply: the header's pieces, then for each of the
/// three record sections its count and its records. The count of the answers
/// is shown where there are none, those of the other two where there are
/// some, and all three in verbose mode.
pub open spec fn spec_report(request_id: u16, packet: PacketView, all: Seq<u8>, verbose: bool) -> Seq<
    ChunkView,
> {
    spec_header_chunks(request_id, packet.header, verbose) + spec_count_chunks(
        verbose || packet.answers.len() == 0,
        packet.answers.len(),
        " answers\n"@,
    ) + spec_section_chunks(packet.answers, all) + spec_count_chunks(
        verbose || packet.authorities.len() != 0,
        packet.authorities.len(),
        " authority server records\n"@,
    ) + spec_section_chunks(packet.authorities, all) + spec_count_chunks(
        verbose || packet.additionals.len() != 0,
        packet.additionals.len(),
        " additional records\n"@,
    ) + spec_section_chunks(packet.additionals, all)
}

/// Writes what stands in front of a record's payload.
pub fn heading(record: &DnsResourceRecord) -> (text: String)
    ensures
        text@ == spec_heading(record@),
{
    let mut text = record.domain_name.clone();
    text.append(" (");
    text.append(record.data_class.label());
    text.append(", ");
    text.append(record.data_type.label());
    text.append("): ");
    text
}

/// Writes the line that shows a payload.
pub fn data_line(data: &RecordData, ttl: u32) -> (text: String)
    ensures
        text@ == spec_data_line(data@, ttl),
{
    let mut text = "  ".to_owned();
    match data {
        RecordData::Address(a, b, c, d) => {
            text.append(decimal_string(*a as u64).as_str());
            text.append(".");
            text.append(decimal_string(*b as u64).as_str());
            text.append(".");
            text.append(decimal_string(*c as u64).as_str());
            text.append(".");
            text.append(decimal_string(*d as u64).as_str());
            text.append("  (TTL: ");
            text.append(format_time(ttl).as_str());
            text.append(")");
            text.append("\n");
            assert(text@ =~= spec_data_line(data@, ttl));
        },
        RecordData::CanonicalName(name) => {
            text.append(name.as_str());
            text.append("  (TTL: ");
            text.append(format_time(ttl).as_str());
            text.append(")");
            text.append("\n");
            assert(text@ =~= spec_data_line(data@, ttl));
        },
        RecordData::NameServer(name) => {
            text.append(name.as_str());
            text.append("  (TTL: ");
            text.append(format_time(ttl).as_str());
            text.append(")");
            text.append("\n");
            assert(text@ =~= spec_data_line(data@, ttl));
        },
        RecordData::Text(content) => {
            text.append(content.as_str());
            text.append("  (TTL: ");
            text.append(format_time(ttl).as_str());
            text.append(")");
            text.append("\n");
            assert(text@ =~= spec_data_line(data@, ttl));
        },
        RecordData::MailExchange { preference, exchange } => {
            text.append(exchange.as_str());
            text.append("  (Priority: ");
            text.append(decimal_string(*preference as u64).as_str());
            text.append(", TTL: ");
            text.append(format_time(ttl).as_str());
            text.append(")");
            text.append("\n");
        },
        RecordData::StartOfAuthority {
            origin,
            mailbox,
            serial,
            refresh,
            retry,
            expire,
            minimum,
        } => {
            text.append(origin.as_str());
            text.append(" - ");
            text.append(mailbox.as_str());
            text.append(" (Serial: ");
            text.append(decimal_string(*serial as u64).as_str());
            text.append(", Refresh: ");
            text.append(format_time(*refresh).as_str());
            text.append(", Retry: ");
            text.append(format_time(*retry).as_str());
            text.append(", Expire: ");
            text.append(format_time(*expire).as_str());
            text.append(", Minimum: ");
            text.append(format_time(*minimum).as_str());
            text.append(", TTL: ");
            text.append(format_time(ttl).as_str());
            text.append(")");
            text.append("\n");
        },
    }
    text
}

/// Writes the line that says why a record was not rendered.
pub fn error_line(record: &DnsResourceRecord, e: RenderError) -> (text: String)
    ensures
        text@ == spec_error_line(record@, e),
{
    match e {
        RenderError::WrongLength { expected, actual } => {
            let mut text = "Response for data type ".to_owned();
            text.append(record.data_type.label());
            text.append(" is expected to contain exactly ");
            text.append(decimal_string(expected as u64).as_str());
            text.append(" bytes and instead contained ");
            text.append(decimal_string(actual as u64).as_str());
            text.append(" bytes. Ignoring...\n");
            text
        },
        RenderError::TooShort { minimum, actual } => {
            let mut text = "Response for data type ".to_owned();
            text.append(record.data_type.label());
            text.append(" is expected to contain at least ");
            text.append(decimal_string(minimum as u64).as_str());
            text.append(" bytes and instead contained ");
            text.append(decimal_string(actual as u64).as_str());
            text.append(" bytes. Ignoring...\n");
            text
        },
        RenderError::MalformedData(cause) => {
            let mut text = "ERROR: Failed to parse data from ".to_owned();
            text.append(record.data_type.label());
            text.append(" record: ");
            text.append(cause.message().as_str());
            text.append("\n");
            text
        },
        RenderError::InvalidUtf8 => {
            let mut text = "ERROR: Failed to parse data from ".to_owned();
            text.append(record.data_type.label());
            text.append(" record as UTF8\n");
            text
        },
        RenderError::Unsupported(t) => {
            let mut text = " Unsupported data type: ".to_owned();
            text.append(t.label());
            text.append("\n\n");
            text
        },
    }
}

/// Appends the pieces that show the records of one section.
pub fn push_section(chunks: &mut Vec<Chunk>, records: &Vec<DnsResourceRecord>, all_data: &[u8])
    ensures
        chunks_view(final(chunks)@) == chunks_view(old(chunks)@) + spec_section_chunks(
            records_view(records@),
            all_data@,
        ),
{
    let ghost views = records_view(records@);
    let mut i: usize = 0;
    proof {
        assert(views.take(0) =~= Seq::<RecordView>::empty());
        assert(chunks_view(chunks@) + spec_section_chunks(views.take(0), all_data@)
            =~= chunks_view(chunks@));
    }
    while i < records.len()
        invariant
            i <= records@.len(),
            views == records_view(records@),
            chunks_view(chunks@) == chunks_view(old(chunks)@) + spec_section_chunks(
                views.take(i as int),
                all_data@,
            ),
        decreases records@.len() - i,
    {
        let record = &records[i];
        let ghost before = chunks_view(chunks@);
        let head = Chunk { to_stderr: false, text: heading(record) };
        let body = match render_record(record, all_data) {
            Ok(data) => Chunk { to_stderr: false, text: data_line(&data, record.ttl) },
            Err(e) => Chunk { to_stderr: true, text: error_line(record, e) },
        };
        proof {
            assert(views.take(i + 1).drop_last() =~= views.take(i as int));
            assert(views.take(i + 1).last() == record@);
            assert(chunks_view(chunks@.push(head).push(body)) =~= before + spec_record_chunks(
                record@,
                all_data@,
            ));
            assert(chunks_view(old(chunks)@) + (spec_section_chunks(
                views.take(i as int),
                all_data@,
            ) + spec_record_chunks(record@, all_data@)) =~= before + spec_record_chunks(
                record@,
                all_data@,
            ));
        }
        chunks.push(head);
        chunks.push(body);
        i += 1;
    }
    proof {
        assert(views.take(i as int) =~= views);
    }
}

/// Appends a piece where `shown` holds.
fn push_optional(chunks: &mut Vec<Chunk>, shown: bool, to_stderr: bool, text: String)
    ensures
        chunks_view(final(chunks)@) == chunks_view(old(chunks)@) + spec_optional(
            shown,
            ChunkView { to_stderr, text: text@ },
        ),
{
    if shown {
        let chunk = Chunk { to_stderr, text };
        proof {
            assert(chunks_view(chunks@.push(chunk)) =~= chunks_view(chunks@) + seq![chunk@]);
        }
        chunks.push(chunk);
    } else {
        proof {
            assert(chunks_view(chunks@) + Seq::<ChunkView>::empty() =~= chunks_view(chunks@));
        }
    }
}

/// Appends the line that counts a section where `shown` holds.
fn push_count(chunks: &mut Vec<Chunk>, shown: bool, count: usize, what: &str)
    ensures
        chunks_view(final(chunks)@) == chunks_view(old(chunks)@) + spec_count_chunks(
            shown,
            count as nat,
            what@,
        ),
{
    let mut text = "Received ".to_owned();
    text.append(decimal_string(count as u64).as_str());
    text.append(what);
    push_optional(chunks, shown, false, text);
}

/// Appends the first pieces of a reply's header.
fn push_header_facts(chunks: &mut Vec<Chunk>, request_id: u16, header: &DnsHeader, verbose: bool)
    ensures
        chunks_view(final(chunks)@) == chunks_view(old(chunks)@) + spec_header_facts(
            request_id,
            *header,
            verbose,
        ),
{
    let ghost start = chunks_view(chunks@);
    let warning =
        "WARNING: Received packet header contains a request ID that does not match our request!\n".to_owned();
    let ghost id_part = spec_optional(header.request_id != request_id, out(warning@));
    push_optional(chunks, header.request_id != request_id, false, warning);
    let mut operation = "  Request operation type: ".to_owned();
    operation.append(header.opcode.label());
    operation.append("\n");
    let ghost operation_part = spec_optional(verbose, out(operation@));
    push_optional(chunks, verbose, false, operation);
    let authority = if header.authoritative_answer {
        "  Response is authoritative\n".to_owned()
    } else {
        "  Response is non-authoritative\n".to_owned()
    };
    let ghost authority_part = spec_optional(verbose, out(authority@));
    push_optional(chunks, verbose, false, authority);
    let recursion = if header.recursion_available {
        "  Recursive query resolution is available\n".to_owned()
    } else {
        "  Recursive query resolution is not available\n".to_owned()
    };
    let ghost recursion_part = spec_optional(verbose, out(recursion@));
    push_optional(chunks, verbose, false, recursion);
    assert(start + id_part + operation_part + authority_part + recursion_part == start + (id_part + operation_part + authority_part + recursion_part)) by {
        assert(start + id_part + operation_part + authority_part + recursion_part =~= start + (id_part + operation_part + authority_part + recursion_part));
    }
}

/// Appends the last pieces of a reply's header.
fn push_header_status(chunks: &mut Vec<Chunk>, header: &DnsHeader, verbose: bool)
    ensures
        chunks_view(final(chunks)@) == chunks_view(old(chunks)@) + spec_header_status(
            *header,
            verbose,
        ),
{
    let ghost start = chunks_view(chunks@);
    let ghost code_part;
    match header.rcode {
        ResponseCode::NoError => {
            let mut code = "  Response code: ".to_owned();
            code.append(header.rcode.label());
            code.append("\n");
            proof {
                code_part = spec_optional(verbose, out(code@));
            }
            push_optional(chunks, verbose, false, code);
        },
        _ => {
            let mut code = "  Response code: ERROR: ".to_owned();
            code.append(header.rcode.label());
            code.append("\n");
            proof {
                code_part = seq![err(code@)];
            }
            push_optional(chunks, true, true, code);
        },
    }
    let truncated =
        "WARNING: Packet header indicates that the data received has been truncated!\n".to_owned();
    let ghost truncation_part = spec_optional(header.message_truncated, out(truncated@));
    push_optional(chunks, header.message_truncated, false, truncated);
    let ghost blank_part = seq![out("\n"@)];
    push_optional(chunks, true, false, "\n".to_owned());
    assert(start + code_part + truncation_part + blank_part == start + (code_part + truncation_part + blank_part)) by {
        assert(start + code_part + truncation_part + blank_part =~= start + (code_part + truncation_part + blank_part));
    }
}

/// Appends the pieces that show a reply's header.
pub fn push_header(chunks: &mut Vec<Chunk>, request_id: u16, header: &DnsHeader, verbose: bool)
    ensures
        chunks_view(final(chunks)@) == chunks_view(old(chunks)@) + spec_header_chunks(
            request_id,
            *header,
            verbose,
        ),
{
    let ghost start = chunks_view(chunks@);
    push_header_facts(chunks, request_id, header, verbose);
    push_header_status(chunks, header, verbose);
    let ghost facts = spec_header_facts(request_id, *header, verbose);
    let ghost status = spec_header_status(*header, verbose);
    assert(start + facts + status == start + (facts + status)) by {
        assert(start + facts + status =~= start + (facts + status));
    }
}

/// Writes all that is shown of a reply to the request with id `request_id`.
///
/// `all_data` is the datagram that `packet` was decoded from. A reply with
/// another id than the request's is shown all the same, behind a warning.
pub fn report(request_id: u16, packet: &DnsPacket, all_data: &[u8], verbose: bool) -> (chunks: Vec<
    Chunk,
>)
    ensures
        chunks_view(chunks@) == spec_report(request_id, packet@, all_data@, verbose),
{
    let mut chunks: Vec<Chunk> = Vec::new();
    proof {
        assert(chunks_view(chunks@) =~= Seq::<ChunkView>::empty());
    }
    push_header(&mut chunks, request_id, &packet.header, verbose);
    proof {
        assert(chunks_view(chunks@) =~= spec_header_chunks(request_id, packet.header, verbose));
    }
    push_count(
        &mut chunks,
        verbose || packet.answers.len() == 0,
        packet.answers.len(),
        " answers\n",
    );
    push_section(&mut chunks, &packet.answers, all_data);
    push_count(
        &mut chunks,
        verbose || packet.authorities.len() != 0,
        packet.authorities.len(),
        " authority server records\n",
    );
    push_section(&mut chunks, &packet.authorities, all_data);
    push_count(
        &mut chunks,
        verbose || packet.additionals.len() != 0,
        packet.additionals.len(),
        " additional records\n",
    );
    push_section(&mut chunks, &packet.additionals, all_data);
    chunks
}

/// A message as it is sent: its counts are its sections' lengths and it has
/// questions only.
pub open spec fn is_query(packet: PacketView) -> bool {
    &&& packet.counts_match()
    &&& packet.answers.len() == 0
    &&& packet.authorities.len() == 0
    &&& packet.additionals.len() == 0
}

/// What is sent can be read back: a message with questions only, whose names
/// are made of labels of 1 to 63 bytes each, has a wire form, and that wire
/// form decodes to the message.
pub proof fn lemma_query_round_trip(packet: PacketView)
    requires
        is_query(packet),
        names_fit(packet.questions),
    ensures
        packet.spec_serialize() is Ok,
        spec_decode_response(packet.spec_serialize()->Ok_0) == Ok::<PacketView, ResponseError>(
            packet,
        ),
{
    let head = packet.header.spec_serialize();
    let body = spec_serialize_questions(packet.questions)->Ok_0;
    let data = head + body;
    lemma_questions_round_trip(packet.questions, head, Seq::empty(), data);
    assert(data =~= head + body + Seq::<u8>::empty());
    lemma_header_round_trip(packet.header, Seq::empty(), body);
    assert(data =~= Seq::<u8>::empty() + head + body);
    let decoded = PacketView::spec_deserialize(packet.header, data, 12, data);
    let end = 12 + body.len();
    assert(spec_section(record_item(data, data), end as int, 0) == Ok::<
        (Seq<RecordView>, int),
        DecodeError,
    >((Seq::empty(), end as int)));
    assert(packet.answers =~= Seq::<RecordView>::empty());
    assert(packet.authorities =~= Seq::<RecordView>::empty());
    assert(packet.additionals =~= Seq::<RecordView>::empty());
}

/// What is shown of a record does not depend on the records beside it: the
/// pieces of two runs of records, one behind the other, are the pieces of the
/// first and then those of the second, whether or not any of them can be
/// rendered.
pub proof fn lemma_section_chunks_concat(
    first: Seq<RecordView>,
    second: Seq<RecordView>,
    all: Seq<u8>,
)
    ensures
        spec_section_chunks(first + second, all) == spec_section_chunks(first, all)
            + spec_section_chunks(second, all),
    decreases second.len(),
{
    if second.len() == 0 {
        assert(first + second =~= first);
        assert(spec_section_chunks(first, all) + spec_section_chunks(second, all)
            =~= spec_section_chunks(first, all));
    } else {
        assert((first + second).drop_last() =~= first + second.drop_last());
        assert((first + second).last() == second.last());
        lemma_section_chunks_concat(first, second.drop_last(), all);
        assert(spec_section_chunks(first, all) + spec_section_chunks(second.drop_last(), all)
            + spec_record_chunks(second.last(), all) =~= spec_section_chunks(first, all) + (
            spec_section_chunks(second.drop_last(), all) + spec_record_chunks(second.last(), all)));
    }
}

} // verus!

use alltools::dns::codes::{DomainClass, OpCode, QueryType, ResponseCode};
use alltools::dns::duration::format_time;
use alltools::dns::error::{DecodeError, EncodeError};
use alltools::dns::header::DnsHeader;
use alltools::dns::name::encode_name;
use alltools::dns::packet::DnsPacket;
use alltools::dns::record::DnsResourceRecord;
use alltools::dns::render::{render_record, RecordData, RenderError};
use alltools::dns::report::{
    data_line, decode_response, error_line, heading, report, Chunk, ResponseError,
};
use alltools::fuzzy::same_ignoring_case;
use alltools::dns::session::{
    advance, build_query, is_from_server, new_query, requested_type, step, Endpoint, SessionAction, SessionEvent, SessionFailure, SessionState,
    MAX_PORT_SELECT_ATTEMPTS,
};

fn record(data_type: QueryType, data: &[u8]) -> DnsResourceRecord {
    DnsResourceRecord {
        domain_name: "example.com".to_string(),
        data_type,
        data_class: DomainClass::Internet,
        ttl: 3661,
        data_length: data.len() as u16,
        data: data.to_vec(),
    }
}

fn message_with_name(name: &str) -> Vec<u8> {
    let mut message = vec![0u8; 12];
    message.extend(encode_name(name).unwrap());
    message
}

#[test]
fn format_time_values() {
    assert_eq!("0 seconds", format_time(0));
    assert_eq!("1 second", format_time(1));
    assert_eq!("2 seconds", format_time(2));
    assert_eq!("59 seconds", format_time(59));
    assert_eq!("1 minute", format_time(60));
    assert_eq!("1 minute, 1 second", format_time(61));
    assert_eq!("2 minutes", format_time(120));
    assert_eq!("1 hour", format_time(3600));
    assert_eq!("1 hour, 1 minute, 1 second", format_time(3661));
    assert_eq!("1 hour, 5 seconds", format_time(3605));
    assert_eq!("1 day", format_time(86400));
    assert_eq!("1 day, 1 second", format_time(86401));
    assert_eq!("2 days, 3 hours, 4 minutes, 5 seconds", format_time(2 * 86400 + 3 * 3600 + 4 * 60 + 5));
    assert_eq!("7 days", format_time(604800));
    assert_eq!("49710 days, 6 hours, 28 minutes, 15 seconds", format_time(u32::MAX));
}

#[test]
fn a_record_renders_dotted_quad() {
    let r = record(QueryType::A, &[192, 0, 2, 1]);
    let data = render_record(&r, &[]).unwrap();
    assert_eq!(RecordData::Address(192, 0, 2, 1), data);
    assert_eq!("  192.0.2.1  (TTL: 1 hour, 1 minute, 1 second)\n", data_line(&data, r.ttl));
    assert!(data_line(&data, r.ttl).contains("192.0.2.1"));
}

#[test]
fn a_record_of_wrong_length_is_malformed() {
    let r = record(QueryType::A, &[192, 0, 2]);
    let e = render_record(&r, &[]).unwrap_err();
    assert_eq!(RenderError::WrongLength { expected: 4, actual: 3 }, e);
    assert_eq!(
        "Response for data type A is expected to contain exactly 4 bytes and instead contained 3 bytes. Ignoring...\n",
        error_line(&r, e)
    );
    assert_eq!(
        Err(RenderError::WrongLength { expected: 4, actual: 5 }),
        render_record(&record(QueryType::A, &[1, 2, 3, 4, 5]), &[])
    );
    assert_eq!(
        Err(RenderError::WrongLength { expected: 4, actual: 0 }),
        render_record(&record(QueryType::A, &[]), &[])
    );
}

#[test]
fn mx_record_renders_preference_and_name() {
    let message = message_with_name("mail.example.com");
    let r = record(QueryType::MX, &[0x00, 0x0a, 0xc0, 12]);
    let data = render_record(&r, &message).unwrap();
    assert_eq!(
        RecordData::MailExchange { preference: 10, exchange: "mail.example.com".to_string() },
        data
    );
    assert_eq!(
        "  mail.example.com  (Priority: 10, TTL: 1 hour, 1 minute, 1 second)\n",
        data_line(&data, r.ttl)
    );
}

#[test]
fn mx_record_errors() {
    let message = message_with_name("mail.example.com");
    assert_eq!(
        Err(RenderError::TooShort { minimum: 3, actual: 2 }),
        render_record(&record(QueryType::MX, &[0, 10]), &message)
    );
    assert_eq!(
        Err(RenderError::MalformedData(DecodeError::UnexpectedEof)),
        render_record(&record(QueryType::MX, &[0, 10, 0xc0]), &message)
    );
    assert_eq!(
        Err(RenderError::MalformedData(DecodeError::UnexpectedEof)),
        render_record(&record(QueryType::MX, &[0, 10, 0xc0, 200]), &message)
    );
    assert_eq!(
        Err(RenderError::InvalidUtf8),
        render_record(&record(QueryType::MX, &[0, 10, 1, 0xff, 0]), &message)
    );
    let e = RenderError::TooShort { minimum: 3, actual: 2 };
    assert_eq!(
        "Response for data type MX is expected to contain at least 3 bytes and instead contained 2 bytes. Ignoring...\n",
        error_line(&record(QueryType::MX, &[0, 10]), e)
    );
}

#[test]
fn cname_and_ns_use_the_whole_message() {
    let message = message_with_name("example.com");
    let payload = [3u8, b'w', b'w', b'w', 0xc0, 12];
    assert_eq!(
        Ok(RecordData::CanonicalName("www.example.com".to_string())),
        render_record(&record(QueryType::CNAME, &payload), &message)
    );
    assert_eq!(
        Ok(RecordData::NameServer("www.example.com".to_string())),
        render_record(&record(QueryType::NS, &payload), &message)
    );
    // the same pointer read against the payload alone would not resolve
    assert_eq!(
        Err(RenderError::MalformedData(DecodeError::UnexpectedEof)),
        render_record(&record(QueryType::CNAME, &payload), &payload)
    );
    assert_eq!(
        Err(RenderError::MalformedData(DecodeError::UnexpectedEof)),
        render_record(&record(QueryType::NS, &[]), &message)
    );
    let data = RecordData::CanonicalName("www.example.com".to_string());
    assert_eq!("  www.example.com  (TTL: 5 seconds)\n", data_line(&data, 5));
}

#[test]
fn txt_reads_first_string_only() {
    let payload = b"\x05hello\x05world";
    assert_eq!(
        Ok(RecordData::Text("hello".to_string())),
        render_record(&record(QueryType::TXT, payload), &[])
    );
    assert_eq!(
        Ok(RecordData::Text("".to_string())),
        render_record(&record(QueryType::TXT, &[0]), &[])
    );
    assert_eq!(
        Err(RenderError::MalformedData(DecodeError::UnexpectedEof)),
        render_record(&record(QueryType::TXT, &[]), &[])
    );
    assert_eq!(
        Err(RenderError::MalformedData(DecodeError::UnexpectedEof)),
        render_record(&record(QueryType::TXT, b"\x05hell"), &[])
    );
    assert_eq!(
        Err(RenderError::InvalidUtf8),
        render_record(&record(QueryType::TXT, &[2, 0xc3, 0x28]), &[])
    );
    assert_eq!(
        "ERROR: Failed to parse data from TXT record as UTF8\n",
        error_line(&record(QueryType::TXT, &[2, 0xc3, 0x28]), RenderError::InvalidUtf8)
    );
}

fn soa_payload() -> Vec<u8> {
    let mut payload = vec![2u8, b'n', b's', 0xc0, 12];
    payload.extend([5, b'a', b'd', b'm', b'i', b'n', 0xc0, 12]);
    for v in [2024010101u32, 7200, 3600, 1209600, 300] {
        payload.extend(v.to_be_bytes());
    }
    payload
}

#[test]
fn soa_record_renders() {
    let message = message_with_name("example.com");
    let r = record(QueryType::SOA, &soa_payload());
    let data = render_record(&r, &message).unwrap();
    assert_eq!(
        RecordData::StartOfAuthority {
            origin: "ns.example.com".to_string(),
            mailbox: "admin.example.com".to_string(),
            serial: 2024010101,
            refresh: 7200,
            retry: 3600,
            expire: 1209600,
            minimum: 300,
        },
        data
    );
    assert_eq!(
        "  ns.example.com - admin.example.com (Serial: 2024010101, Refresh: 2 hours, Retry: 1 hour, Expire: 14 days, Minimum: 5 minutes, TTL: 1 day)\n",
        data_line(&data, 86400)
    );
}

#[test]
fn soa_record_errors_do_not_panic() {
    let message = message_with_name("example.com");
    let full = soa_payload();
    assert_eq!(
        Err(RenderError::TooShort { minimum: 3, actual: 2 }),
        render_record(&record(QueryType::SOA, &full[..2]), &message)
    );
    for len in 3..full.len() {
        assert_eq!(
            Err(RenderError::MalformedData(DecodeError::UnexpectedEof)),
            render_record(&record(QueryType::SOA, &full[..len]), &message),
            "length {}",
            len
        );
    }
    let mut bad_text = vec![1u8, 0xff, 0, 0];
    bad_text.extend([0u8; 20]);
    assert_eq!(
        Err(RenderError::InvalidUtf8),
        render_record(&record(QueryType::SOA, &bad_text), &message)
    );
    // a missing number is seen before bad text is
    assert_eq!(
        Err(RenderError::MalformedData(DecodeError::UnexpectedEof)),
        render_record(&record(QueryType::SOA, &bad_text[..23]), &message)
    );
}

#[test]
fn other_types_are_unsupported() {
    for t in [QueryType::AAAA, QueryType::PTR, QueryType::Unknown, QueryType::HINFO] {
        let r = record(t, &[1, 2, 3, 4]);
        assert_eq!(Err(RenderError::Unsupported(t)), render_record(&r, &[]));
    }
    assert_eq!(
        " Unsupported data type: AAAA\n\n",
        error_line(&record(QueryType::AAAA, &[]), RenderError::Unsupported(QueryType::AAAA))
    );
}

#[test]
fn pointer_loop_in_payload_is_a_render_error() {
    let message = [0xc0u8, 0x00];
    let r = record(QueryType::CNAME, &[0xc0, 0x00]);
    let e = render_record(&r, &message).unwrap_err();
    assert_eq!(RenderError::MalformedData(DecodeError::TooManyPointers), e);
    assert_eq!(
        "ERROR: Failed to parse data from CNAME record: Too many compression pointers in a name\n",
        error_line(&r, e)
    );
}

#[test]
fn error_messages() {
    assert_eq!("failed to fill whole buffer", DecodeError::UnexpectedEof.message());
    assert_eq!("Invalid query operation code", DecodeError::InvalidOpcode.message());
    assert_eq!("Invalid response code", DecodeError::InvalidResponseCode.message());
    assert_eq!("Invalid query type: 1234", DecodeError::InvalidQueryType(1234).message());
    assert_eq!("Invalid domain class", DecodeError::InvalidDomainClass.message());
    assert_eq!("Invalid UTF-8 in a name", DecodeError::InvalidUtf8.message());
    assert_eq!("label length greater than 255", EncodeError::LabelTooLong.message());
    assert_eq!(
        "Failed to deserialise header from network: Invalid query operation code",
        ResponseError::Header(DecodeError::InvalidOpcode).message()
    );
    assert_eq!(
        "Failed to deserialise packet from network: failed to fill whole buffer",
        ResponseError::Sections(DecodeError::UnexpectedEof).message()
    );
}

#[test]
fn heading_names_class_and_type() {
    assert_eq!("example.com (Internet, A): ", heading(&record(QueryType::A, &[])));
    let mut r = record(QueryType::NSAPPTR, &[]);
    r.data_class = DomainClass::Hesiod;
    r.domain_name = String::new();
    assert_eq!(" (Hesiod, NSAPPTR): ", heading(&r));
}

#[test]
fn query_is_built_as_asked() {
    let q = build_query(0x1234, "example.com", QueryType::A, false);
    assert_eq!(0x1234, q.header.request_id);
    assert!(q.header.recursion_desired);
    assert!(!q.header.is_response);
    assert_eq!(OpCode::Standard, q.header.opcode);
    assert_eq!(1, q.header.query_count);
    assert_eq!(0, q.header.answer_count);
    assert_eq!(1, q.questions.len());
    assert_eq!("example.com", q.questions[0].domain_name);
    assert_eq!(QueryType::A, q.questions[0].query_type);
    assert_eq!(DomainClass::Internet, q.questions[0].query_class);
    assert!(q.answers.is_empty() && q.authorities.is_empty() && q.additionals.is_empty());
    let r = build_query(1, "4.3.2.1.in-addr.arpa", QueryType::PTR, true);
    assert_eq!(OpCode::Inverse, r.header.opcode);
    let mut bytes = Vec::new();
    q.serialize(&mut bytes).unwrap();
    let mut expected = vec![0x12, 0x34, 0x01, 0x00, 0, 1, 0, 0, 0, 0, 0, 0];
    expected.extend(encode_name("example.com").unwrap());
    expected.extend([0, 1, 0, 1]);
    assert_eq!(expected, bytes);
}

#[test]
fn new_query_encodes_what_it_returns() {
    let (packet, bytes) = new_query("example.com", QueryType::MX, false).unwrap();
    let mut expected = Vec::new();
    packet.serialize(&mut expected).unwrap();
    assert_eq!(expected, bytes);
    assert_eq!(29, bytes.len());
    assert_eq!(&packet.header.request_id.to_be_bytes()[..], &bytes[..2]);
    assert_eq!(build_query(packet.header.request_id, "example.com", QueryType::MX, false), packet);
    let long = "a".repeat(256);
    assert_eq!(Err(EncodeError::LabelTooLong), new_query(&long, QueryType::A, false));
}

fn answer_to(query: &[u8], request_id: u16, address: [u8; 4]) -> Vec<u8> {
    let header = DnsHeader {
        request_id,
        is_response: true,
        opcode: OpCode::Standard,
        authoritative_answer: false,
        message_truncated: false,
        recursion_desired: true,
        recursion_available: true,
        rcode: ResponseCode::NoError,
        query_count: 1,
        answer_count: 1,
        nameserver_count: 0,
        additional_count: 0,
    };
    let mut reply = Vec::new();
    header.serialize(&mut reply);
    reply.extend(&query[12..]);
    reply.extend([0xc0, 12, 0, 1, 0, 1, 0, 0, 0x0e, 0x10, 0, 4]);
    reply.extend(address);
    reply
}

fn text_of(chunks: &[Chunk]) -> String {
    chunks.iter().map(|c| c.text.as_str()).collect::<Vec<_>>().concat()
}

#[test]
fn end_to_end_answer_is_shown_once() {
    let (query, sent) = new_query("example.com", QueryType::A, false).unwrap();
    let reply = answer_to(&sent, query.header.request_id, [93, 184, 216, 34]);
    let packet = decode_response(&reply).unwrap();
    assert_eq!(query.questions, packet.questions);
    for verbose in [false, true] {
        let chunks = report(query.header.request_id, &packet, &reply, verbose);
        let text = text_of(&chunks);
        assert_eq!(1, text.matches("93.184.216.34").count(), "{}", text);
        assert!(!text.contains("WARNING"));
        assert!(chunks.iter().all(|c| !c.to_stderr));
    }
    let chunks = report(query.header.request_id, &packet, &reply, false);
    assert_eq!(
        vec![
            Chunk { to_stderr: false, text: "\n".to_string() },
            Chunk { to_stderr: false, text: "example.com (Internet, A): ".to_string() },
            Chunk { to_stderr: false, text: "  93.184.216.34  (TTL: 1 hour)\n".to_string() },
        ],
        chunks
    );
}

#[test]
fn report_verbose_and_warnings() {
    let (query, sent) = new_query("example.com", QueryType::A, false).unwrap();
    let id = query.header.request_id;
    let mut reply = answer_to(&sent, id.wrapping_add(1), [93, 184, 216, 34]);
    reply[2] |= 0x02 | 0x04; // truncated, authoritative
    reply[3] = 0x03; // name error, recursion not available
    let packet = decode_response(&reply).unwrap();
    let chunks = report(id, &packet, &reply, true);
    let texts: Vec<(bool, &str)> = chunks.iter().map(|c| (c.to_stderr, c.text.as_str())).collect();
    assert_eq!(
        vec![
            (false, "WARNING: Received packet header contains a request ID that does not match our request!\n"),
            (false, "  Request operation type: Standard\n"),
            (false, "  Response is authoritative\n"),
            (false, "  Recursive query resolution is not available\n"),
            (true, "  Response code: ERROR: NameError\n"),
            (false, "WARNING: Packet header indicates that the data received has been truncated!\n"),
            (false, "\n"),
            (false, "Received 1 answers\n"),
            (false, "example.com (Internet, A): "),
            (false, "  93.184.216.34  (TTL: 1 hour)\n"),
            (false, "Received 0 authority server records\n"),
            (false, "Received 0 additional records\n"),
        ],
        texts
    );
    let quiet = report(id, &packet, &reply, false);
    assert_eq!(6, quiet.len());
    assert!(quiet[1].to_stderr);
}

#[test]
fn report_without_answers_and_with_bad_record() {
    let mut reply = vec![0u8, 7, 0x81, 0x80, 0, 0, 0, 0, 0, 0, 0, 0];
    let packet = decode_response(&reply).unwrap();
    let chunks = report(7, &packet, &reply, false);
    assert_eq!("\nReceived 0 answers\n", text_of(&chunks));
    // two answers, the first malformed: the second is shown all the same
    reply[7] = 2;
    reply.extend([1, b'a', 0, 0, 1, 0, 1, 0, 0, 0, 60, 0, 3, 1, 2, 3]);
    reply.extend([1, b'b', 0, 0, 1, 0, 1, 0, 0, 0, 60, 0, 4, 10, 0, 0, 1]);
    reply[9] = 1;
    reply.extend([0xc0, 12, 0, 28, 0, 1, 0, 0, 0, 60, 0, 0]);
    let packet = decode_response(&reply).unwrap();
    let chunks = report(7, &packet, &reply, false);
    let texts: Vec<(bool, &str)> = chunks.iter().map(|c| (c.to_stderr, c.text.as_str())).collect();
    assert_eq!(
        vec![
            (false, "\n"),
            (false, "a (Internet, A): "),
            (true, "Response for data type A is expected to contain exactly 4 bytes and instead contained 3 bytes. Ignoring...\n"),
            (false, "b (Internet, A): "),
            (false, "  10.0.0.1  (TTL: 1 minute)\n"),
            (false, "Received 1 authority server records\n"),
            (false, "a (Internet, AAAA): "),
            (true, " Unsupported data type: AAAA\n\n"),
        ],
        texts
    );
}

#[test]
fn decode_response_errors() {
    assert_eq!(Err(ResponseError::Header(DecodeError::UnexpectedEof)), decode_response(&[]));
    assert_eq!(
        Err(ResponseError::Header(DecodeError::InvalidOpcode)),
        decode_response(&[0, 1, 0x38, 0, 0, 0, 0, 0, 0, 0, 0, 0])
    );
    assert_eq!(
        Err(ResponseError::Sections(DecodeError::UnexpectedEof)),
        decode_response(&[0, 1, 0x80, 0, 0, 1, 0, 0, 0, 0, 0, 0])
    );
    assert_eq!(
        Err(ResponseError::Sections(DecodeError::InvalidQueryType(255))),
        decode_response(&[0, 1, 0x80, 0, 0, 1, 0, 0, 0, 0, 0, 0, 0, 0, 255, 0, 1])
    );
    let ok = decode_response(&[0, 1, 0x80, 0, 0, 0, 0, 0, 0, 0, 0, 0, 9, 9]).unwrap();
    assert_eq!(DnsPacket { header: ok.header, ..DnsPacket::default() }, ok);
}

#[test]
fn session_happy_path() {
    let mut state = SessionState::Idle;
    let action = advance(&mut state, SessionEvent::Start);
    match action {
        SessionAction::Bind { port } => assert!((49152..65535).contains(&port)),
        other => panic!("{:?}", other),
    }
    assert_eq!(SessionState::Binding { retries: 0 }, state);
    assert_eq!(
        SessionAction::Send { timeout_secs: 5, port: 53 },
        advance(&mut state, SessionEvent::Bound)
    );
    assert_eq!(SessionState::PortBound, state);
    assert_eq!(SessionAction::Receive { capacity: 512 }, advance(&mut state, SessionEvent::Sent));
    assert_eq!(SessionState::Sent, state);
    assert_eq!(SessionAction::CheckSource, advance(&mut state, SessionEvent::Received));
    assert_eq!(SessionState::AwaitingReply, state);
    assert_eq!(
        SessionAction::Process,
        advance(&mut state, SessionEvent::SourceChecked { from_server: true })
    );
    assert_eq!(SessionState::Validated, state);
    assert_eq!(SessionAction::Finish, advance(&mut state, SessionEvent::RenderDone));
    assert_eq!(SessionState::Rendered, state);
    assert_eq!(SessionAction::Finish, advance(&mut state, SessionEvent::Start));
    assert_eq!(SessionState::Rendered, state);
}

#[test]
fn session_bind_retries_up_to_cap() {
    let mut state = SessionState::Idle;
    advance(&mut state, SessionEvent::Start);
    for retry in 1..=MAX_PORT_SELECT_ATTEMPTS {
        match advance(&mut state, SessionEvent::BindFailed) {
            SessionAction::Bind { port } => assert!((49152..65535).contains(&port)),
            other => panic!("{:?}", other),
        }
        assert_eq!(SessionState::Binding { retries: retry }, state);
    }
    assert_eq!(
        SessionAction::Fail(SessionFailure::BindExhausted),
        advance(&mut state, SessionEvent::BindFailed)
    );
    assert_eq!(SessionState::Failed, state);
    assert_eq!(
        (SessionState::Binding { retries: 4 }, SessionAction::Bind { port: 50000 }),
        step(SessionState::Binding { retries: 3 }, SessionEvent::BindFailed, 50000)
    );
}

#[test]
fn session_failures_are_fatal() {
    assert_eq!(
        (SessionState::Failed, SessionAction::Fail(SessionFailure::SendFailed)),
        step(SessionState::PortBound, SessionEvent::SendFailed, 1)
    );
    assert_eq!(
        (SessionState::Failed, SessionAction::Fail(SessionFailure::ReceiveFailed)),
        step(SessionState::Sent, SessionEvent::ReceiveFailed, 1)
    );
    assert_eq!(
        (SessionState::Failed, SessionAction::Fail(SessionFailure::UnexpectedSource)),
        step(SessionState::AwaitingReply, SessionEvent::SourceChecked { from_server: false }, 1)
    );
    assert_eq!(
        (SessionState::Failed, SessionAction::Fail(SessionFailure::UnexpectedEvent)),
        step(SessionState::Sent, SessionEvent::SourceChecked { from_server: true }, 1)
    );
    assert_eq!(
        (SessionState::Failed, SessionAction::Fail(SessionFailure::UnexpectedEvent)),
        step(SessionState::PortBound, SessionEvent::Received, 1)
    );
    assert_eq!(
        (SessionState::Failed, SessionAction::Fail(SessionFailure::DecodeFailed)),
        step(SessionState::Validated, SessionEvent::DecodeFailed, 1)
    );
    assert_eq!(
        (SessionState::Failed, SessionAction::Fail(SessionFailure::UnexpectedEvent)),
        step(SessionState::Idle, SessionEvent::Sent, 1)
    );
    for event in [SessionEvent::Start, SessionEvent::Bound, SessionEvent::RenderDone] {
        assert_eq!(
            (SessionState::Failed, SessionAction::Fail(SessionFailure::UnexpectedEvent)),
            step(SessionState::Failed, event, 1)
        );
    }
}

#[test]
fn random_ports_stay_in_range() {
    for _ in 0..2000 {
        let mut state = SessionState::Idle;
        match advance(&mut state, SessionEvent::Start) {
            SessionAction::Bind { port } => assert!(port >= 49152 && port < 65535),
            other => panic!("{:?}", other),
        }
    }
}

#[test]
fn request_ids_vary() {
    let mut seen = std::collections::HashSet::new();
    for _ in 0..64 {
        seen.insert(new_query("example.com", QueryType::A, false).unwrap().0.header.request_id);
    }
    assert!(seen.len() > 1);
}

#[test]
fn types_that_can_be_asked_for() {
    assert_eq!(Some(QueryType::A), requested_type("A"));
    assert_eq!(Some(QueryType::A), requested_type("a"));
    assert_eq!(Some(QueryType::CNAME), requested_type("cname"));
    assert_eq!(Some(QueryType::CNAME), requested_type("CName"));
    assert_eq!(Some(QueryType::MX), requested_type("mx"));
    assert_eq!(Some(QueryType::NS), requested_type("Ns"));
    assert_eq!(Some(QueryType::TXT), requested_type("TXT"));
    assert_eq!(None, requested_type("SOA"));
    assert_eq!(None, requested_type("AAAA"));
    assert_eq!(None, requested_type(""));
    assert_eq!(None, requested_type(" A"));
    assert_eq!(None, requested_type("TXTT"));
    assert!(same_ignoring_case("Hello.H", "hELLO.h"));
    assert!(same_ignoring_case("", ""));
    assert!(!same_ignoring_case("a", "ab"));
    assert!(!same_ignoring_case("é", "É"));
}

#[test]
fn reply_source_must_be_the_server_exactly() {
    let server = Endpoint::V4 { a: 8, b: 8, c: 8, d: 8, port: 53 };
    assert!(is_from_server(server, server));
    assert!(!is_from_server(Endpoint::V4 { a: 8, b: 8, c: 8, d: 8, port: 54 }, server));
    assert!(!is_from_server(Endpoint::V4 { a: 8, b: 8, c: 4, d: 4, port: 53 }, server));
    let v6 = Endpoint::V6 { ip: 1, port: 53, flowinfo: 0, scope_id: 0 };
    assert!(is_from_server(v6, v6));
    assert!(!is_from_server(Endpoint::V6 { ip: 1, port: 53, flowinfo: 0, scope_id: 2 }, v6));
    assert!(!is_from_server(Endpoint::V6 { ip: 1, port: 53, flowinfo: 7, scope_id: 0 }, v6));
    assert!(!is_from_server(Endpoint::V6 { ip: 2, port: 53, flowinfo: 0, scope_id: 0 }, v6));
    assert!(!is_from_server(v6, server));
}

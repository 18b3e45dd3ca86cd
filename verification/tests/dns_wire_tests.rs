use alltools::dns::codes::{DomainClass, OpCode, QueryType, ResponseCode};
use alltools::dns::error::{DecodeError, EncodeError, ErrorKind};
use alltools::dns::header::DnsHeader;
use alltools::dns::name::{deserialize_bytes, deserialize_name, encode_name, MAX_POINTER_HOPS};
use alltools::dns::packet::DnsPacket;
use alltools::dns::question::DnsQuestion;
use alltools::dns::record::DnsResourceRecord;
use alltools::dns::wire::{write_u16, write_u32, Cursor};

fn name_at(data: &[u8], pos: usize) -> Result<(String, usize), DecodeError> {
    let mut cursor = Cursor::new(data);
    cursor.set_position(pos);
    let bytes = deserialize_name(&mut cursor, data)?;
    Ok((String::from_utf8(bytes).unwrap(), cursor.position()))
}

#[test]
fn cursor_reads_big_endian() {
    let data = [0x12u8, 0x34, 0x56, 0x78, 0x9a, 0xbc, 0xde];
    let mut cursor = Cursor::new(&data);
    assert_eq!(Ok(0x12), cursor.read_u8());
    assert_eq!(Ok(0x3456), cursor.read_u16());
    assert_eq!(Ok(0x789abcde), cursor.read_u32());
    assert_eq!(7, cursor.position());
    assert_eq!(Err(DecodeError::UnexpectedEof), cursor.read_u8());
}

#[test]
fn cursor_read_past_end_fails_and_stays() {
    let data = [1u8, 2, 3];
    let mut cursor = Cursor::new(&data);
    assert_eq!(Err(DecodeError::UnexpectedEof), cursor.read_u32());
    assert_eq!(0, cursor.position());
    cursor.set_position(2);
    assert_eq!(Err(DecodeError::UnexpectedEof), cursor.read_u16());
    assert_eq!(2, cursor.position());
    assert_eq!(Ok(3), cursor.read_u8());
    cursor.set_position(100);
    assert_eq!(Err(DecodeError::UnexpectedEof), cursor.read_u8());
    assert_eq!(Err(DecodeError::UnexpectedEof), cursor.read_u16());
    assert_eq!(100, cursor.position());
}

#[test]
fn writes_are_big_endian() {
    let mut buffer = vec![0xaau8];
    write_u16(&mut buffer, 517);
    write_u32(&mut buffer, 0x0102_0304);
    write_u16(&mut buffer, 0xffff);
    assert_eq!(vec![0xaa, 2, 5, 1, 2, 3, 4, 0xff, 0xff], buffer);
}

#[test]
fn error_kinds() {
    assert_eq!(ErrorKind::UnexpectedEof, DecodeError::UnexpectedEof.kind());
    assert_eq!(ErrorKind::InvalidData, DecodeError::InvalidOpcode.kind());
    assert_eq!(ErrorKind::InvalidData, DecodeError::InvalidResponseCode.kind());
    assert_eq!(ErrorKind::InvalidData, DecodeError::InvalidQueryType(99).kind());
    assert_eq!(ErrorKind::InvalidData, DecodeError::InvalidDomainClass.kind());
    assert_eq!(ErrorKind::InvalidData, DecodeError::InvalidUtf8.kind());
    assert_eq!(ErrorKind::InvalidData, DecodeError::TooManyPointers.kind());
}

#[test]
fn encode_name_splits_on_dots() {
    assert_eq!(
        Ok(vec![7, b'e', b'x', b'a', b'm', b'p', b'l', b'e', 3, b'c', b'o', b'm', 0]),
        encode_name("example.com")
    );
    assert_eq!(Ok(vec![1, b'a', 0]), encode_name("a"));
    assert_eq!(Ok(vec![0, 0]), encode_name(""));
    assert_eq!(Ok(vec![1, b'a', 0, 0]), encode_name("a."));
    assert_eq!(Ok(vec![1, b'a', 0, 1, b'b', 0]), encode_name("a..b"));
    assert_eq!(Ok(vec![2, 0xc3, 0xa9, 0]), encode_name("é"));
}

#[test]
fn encode_name_label_limit() {
    let longest = "x".repeat(255);
    let encoded = encode_name(&longest).unwrap();
    assert_eq!(257, encoded.len());
    assert_eq!(255, encoded[0]);
    assert_eq!(0, encoded[256]);
    let too_long = "x".repeat(256);
    assert_eq!(Err(EncodeError::LabelTooLong), encode_name(&too_long));
    let second_too_long = format!("ok.{}", too_long);
    assert_eq!(Err(EncodeError::LabelTooLong), encode_name(&second_too_long));
    let two_fitting = format!("{}.{}", longest, longest);
    assert_eq!(513, encode_name(&two_fitting).unwrap().len());
}

#[test]
fn decode_name_reads_labels() {
    let data = [3u8, b'w', b'w', b'w', 7, b'e', b'x', b'a', b'm', b'p', b'l', b'e', 3, b'c', b'o', b'm', 0, 9];
    assert_eq!(Ok(("www.example.com".to_string(), 17)), name_at(&data, 0));
    assert_eq!(Ok(("example.com".to_string(), 17)), name_at(&data, 4));
    assert_eq!(Ok(("".to_string(), 17)), name_at(&data, 16));
}

#[test]
fn decode_name_truncated() {
    assert_eq!(Err(DecodeError::UnexpectedEof), name_at(&[], 0));
    assert_eq!(Err(DecodeError::UnexpectedEof), name_at(&[3, b'w', b'w'], 0));
    assert_eq!(Err(DecodeError::UnexpectedEof), name_at(&[3, b'w', b'w', b'w'], 0));
    assert_eq!(Err(DecodeError::UnexpectedEof), name_at(&[0xc0], 0));
    assert_eq!(Err(DecodeError::UnexpectedEof), name_at(&[0], 5));
}

#[test]
fn name_round_trip() {
    for name in ["example.com", "a", "a.b.c.d.e", "xn--bcher-kva.example", "münchen.de"] {
        let mut data = vec![0xeeu8; 5];
        data.extend(encode_name(name).unwrap());
        let end = data.len();
        data.extend([1, 2, 3]);
        assert_eq!(Ok((name.to_string(), end)), name_at(&data, 5));
    }
    let label = "a".repeat(63);
    let name = format!("{0}.{0}.{0}", label);
    let data = encode_name(&name).unwrap();
    assert_eq!(Ok((name, data.len())), name_at(&data, 0));
}

#[test]
fn name_compression_shares_suffix() {
    // name at 0: example.com; name at 13: pointer to 0; name at 15: www + pointer to 0
    let mut data = encode_name("example.com").unwrap();
    data.extend([0xc0, 0x00]);
    data.extend([3, b'w', b'w', b'w', 0xc0, 0x00]);
    data.push(0x55);
    assert_eq!(Ok(("example.com".to_string(), 13)), name_at(&data, 0));
    assert_eq!(Ok(("example.com".to_string(), 15)), name_at(&data, 13));
    assert_eq!(Ok(("www.example.com".to_string(), 21)), name_at(&data, 15));
}

#[test]
fn pointer_chain_resolves_transitively() {
    let mut data = encode_name("mail.example.com").unwrap(); // 0..18
    assert_eq!(18, data.len());
    data.extend([0xc0, 0x00]); // 18: -> 0
    data.extend([0xc0, 18]); // 20: -> 18 -> 0
    data.extend([0xc0, 20]); // 22: -> 20 -> 18 -> 0
    assert_eq!(Ok(("mail.example.com".to_string(), 20)), name_at(&data, 18));
    assert_eq!(Ok(("mail.example.com".to_string(), 22)), name_at(&data, 20));
    assert_eq!(Ok(("mail.example.com".to_string(), 24)), name_at(&data, 22));
}

#[test]
fn pointer_past_the_end_fails() {
    let data = [0xc0u8, 2];
    assert_eq!(Err(DecodeError::UnexpectedEof), name_at(&data, 0));
    let data = [0xc0u8, 200, 0];
    assert_eq!(Err(DecodeError::UnexpectedEof), name_at(&data, 0));
    let data = [0xffu8, 0xff, 0];
    assert_eq!(Err(DecodeError::UnexpectedEof), name_at(&data, 0));
}

#[test]
fn pointer_uses_fourteen_bits() {
    let mut data = vec![0u8; 0x1234];
    data.extend([2, b'h', b'i', 0]);
    data.extend([0xd2, 0x34]);
    assert_eq!(Ok(("hi".to_string(), 0x123a)), name_at(&data, 0x1238));
}

#[test]
fn pointer_loop_is_cut_off() {
    let data = [0xc0u8, 0x00];
    assert_eq!(Err(DecodeError::TooManyPointers), name_at(&data, 0));
    let data = [0xc0u8, 0x02, 0xc0, 0x00];
    assert_eq!(Err(DecodeError::TooManyPointers), name_at(&data, 0));
    let data = [1u8, b'a', 0xc0, 0x00];
    assert_eq!(Err(DecodeError::TooManyPointers), name_at(&data, 0));
}

#[test]
fn pointer_budget_is_exact() {
    // a chain of exactly MAX_POINTER_HOPS pointers resolves; one more does not
    let mut data = vec![1u8, b'z', 0];
    let mut target = 0u8;
    for _ in 0..MAX_POINTER_HOPS {
        let at = data.len() as u8;
        data.extend([0xc0, target]);
        target = at;
    }
    assert_eq!(Ok(("z".to_string(), target as usize + 2)), name_at(&data, target as usize));
    let at = data.len();
    data.extend([0xc0, target]);
    assert_eq!(Err(DecodeError::TooManyPointers), name_at(&data, at));
}

#[test]
fn pointer_into_other_buffer() {
    // the cursor walks a payload, the pointer refers to the whole message
    let mut message = vec![0xaau8; 12];
    message.extend(encode_name("mail.example.com").unwrap());
    let payload = [2u8, b'm', b'x', 0xc0, 12];
    let mut cursor = Cursor::new(&payload);
    let name = deserialize_name(&mut cursor, &message).unwrap();
    assert_eq!(b"mx.mail.example.com".to_vec(), name);
    assert_eq!(5, cursor.position());
}

#[test]
fn label_then_pointer_to_root_has_no_trailing_dot() {
    let data = [0u8, 1, b'a', 0xc0, 0x00];
    assert_eq!(Ok(("a".to_string(), 5)), name_at(&data, 1));
}

#[test]
fn character_string() {
    let data = [5u8, b'h', b'e', b'l', b'l', b'o', 2, b'h', b'i', 0, 4, b'x'];
    let mut cursor = Cursor::new(&data);
    assert_eq!(Ok(b"hello".to_vec()), deserialize_bytes(&mut cursor));
    assert_eq!(6, cursor.position());
    assert_eq!(Ok(b"hi".to_vec()), deserialize_bytes(&mut cursor));
    assert_eq!(Ok(vec![]), deserialize_bytes(&mut cursor));
    assert_eq!(10, cursor.position());
    assert_eq!(Err(DecodeError::UnexpectedEof), deserialize_bytes(&mut cursor));
    assert_eq!(10, cursor.position());
    cursor.set_position(12);
    assert_eq!(Err(DecodeError::UnexpectedEof), deserialize_bytes(&mut cursor));
}

#[test]
fn codes_round_trip() {
    for i in 0..=40u16 {
        match QueryType::from_int(i) {
            Some(t) => {
                assert!(i <= 32);
                assert_eq!(i, t.code());
            }
            None => assert!(i > 32),
        }
        match DomainClass::from_int(i) {
            Some(c) => {
                assert!([0, 1, 3, 4].contains(&i));
                assert_eq!(i, c.code());
            }
            None => assert!(![0, 1, 3, 4].contains(&i)),
        }
        match OpCode::from_int(i) {
            Some(c) => assert_eq!(i, c.code()),
            None => assert!(i > 2),
        }
        match ResponseCode::from_int(i) {
            Some(c) => assert_eq!(i, c.code()),
            None => assert!(i > 5),
        }
    }
    assert_eq!(Some(QueryType::Unknown), QueryType::from_int(0));
    assert_eq!(Some(QueryType::A), QueryType::from_int(1));
    assert_eq!(Some(QueryType::CNAME), QueryType::from_int(5));
    assert_eq!(Some(QueryType::SOA), QueryType::from_int(6));
    assert_eq!(Some(QueryType::MX), QueryType::from_int(15));
    assert_eq!(Some(QueryType::TXT), QueryType::from_int(16));
    assert_eq!(Some(QueryType::AAAA), QueryType::from_int(28));
    assert_eq!(Some(QueryType::NIMLOC), QueryType::from_int(32));
    assert_eq!(None, QueryType::from_int(33));
    assert_eq!(None, QueryType::from_int(255));
    assert_eq!(Some(DomainClass::Chaos), DomainClass::from_int(3));
    assert_eq!(None, DomainClass::from_int(2));
    assert_eq!(Some(OpCode::Status), OpCode::from_int(2));
    assert_eq!(Some(ResponseCode::Refused), ResponseCode::from_int(5));
}

#[test]
fn code_labels() {
    assert_eq!("A", QueryType::A.label());
    assert_eq!("NSAPPTR", QueryType::NSAPPTR.label());
    assert_eq!("Unknown", QueryType::Unknown.label());
    assert_eq!("Internet", DomainClass::Internet.label());
    assert_eq!("Inverse", OpCode::Inverse.label());
    assert_eq!("NameError", ResponseCode::NameError.label());
    assert_eq!(format!("{:?}", QueryType::HINFO), QueryType::HINFO.label());
    assert_eq!(format!("{:?}", ResponseCode::NotImplemented), ResponseCode::NotImplemented.label());
}

fn sample_header() -> DnsHeader {
    DnsHeader {
        request_id: 0xbeef,
        is_response: true,
        opcode: OpCode::Status,
        authoritative_answer: false,
        message_truncated: true,
        recursion_desired: true,
        recursion_available: false,
        rcode: ResponseCode::NameError,
        query_count: 1,
        answer_count: 2,
        nameserver_count: 3,
        additional_count: 0x0405,
    }
}

#[test]
fn header_bytes() {
    let mut buffer = Vec::new();
    let written = sample_header().serialize(&mut buffer);
    assert_eq!(12, written);
    // 1 0010 0 1 1 0 000 0011 = 0x9303
    assert_eq!(vec![0xbe, 0xef, 0x93, 0x03, 0, 1, 0, 2, 0, 3, 4, 5], buffer);
    assert_eq!(0x9303, sample_header().flags());
    let mut query = DnsHeader::default();
    query.recursion_desired = true;
    query.query_count = 1;
    query.request_id = 0x1234;
    let mut buffer = vec![9u8];
    query.serialize(&mut buffer);
    assert_eq!(vec![9, 0x12, 0x34, 0x01, 0x00, 0, 1, 0, 0, 0, 0, 0, 0], buffer);
}

#[test]
fn header_flag_combinations_round_trip() {
    let opcodes = [OpCode::Standard, OpCode::Inverse, OpCode::Status];
    let rcodes = [
        ResponseCode::NoError,
        ResponseCode::FormatError,
        ResponseCode::ServerFailure,
        ResponseCode::NameError,
        ResponseCode::NotImplemented,
        ResponseCode::Refused,
    ];
    for bits in 0..32u8 {
        for opcode in opcodes {
            for rcode in rcodes {
                let header = DnsHeader {
                    request_id: 7,
                    is_response: bits & 1 != 0,
                    opcode,
                    authoritative_answer: bits & 2 != 0,
                    message_truncated: bits & 4 != 0,
                    recursion_desired: bits & 8 != 0,
                    recursion_available: bits & 16 != 0,
                    rcode,
                    query_count: 1,
                    answer_count: 0xffff,
                    nameserver_count: 0,
                    additional_count: 256,
                };
                let mut buffer = Vec::new();
                header.serialize(&mut buffer);
                let mut cursor = Cursor::new(&buffer);
                assert_eq!(Ok(header), DnsHeader::deserialize_from(&mut cursor));
                assert_eq!(12, cursor.position());
            }
        }
    }
}

#[test]
fn header_with_unassigned_opcode_is_rejected() {
    // opcode 7 in bits 11..14
    let data = [0u8, 1, 0x38, 0x00, 0, 1, 0, 0, 0, 0, 0, 0];
    let mut cursor = Cursor::new(&data);
    assert_eq!(Err(DecodeError::InvalidOpcode), DnsHeader::deserialize_from(&mut cursor));
    assert_eq!(0, cursor.position());
    for opcode in 3..16u8 {
        let data = [0u8, 1, opcode << 3, 0x00, 0, 1, 0, 0, 0, 0, 0, 0];
        let mut cursor = Cursor::new(&data);
        assert_eq!(Err(DecodeError::InvalidOpcode), DnsHeader::deserialize_from(&mut cursor));
    }
}

#[test]
fn header_with_unassigned_rcode_is_rejected() {
    for rcode in 6..16u8 {
        let data = [0u8, 1, 0x80, rcode, 0, 1, 0, 0, 0, 0, 0, 0];
        let mut cursor = Cursor::new(&data);
        assert_eq!(
            Err(DecodeError::InvalidResponseCode),
            DnsHeader::deserialize_from(&mut cursor)
        );
    }
    // both bad: the operation code is reported
    let data = [0u8, 1, 0x78, 0x0f, 0, 1, 0, 0, 0, 0, 0, 0];
    let mut cursor = Cursor::new(&data);
    assert_eq!(Err(DecodeError::InvalidOpcode), DnsHeader::deserialize_from(&mut cursor));
}

#[test]
fn header_reserved_bits_are_ignored() {
    let data = [0u8, 1, 0x01, 0x70, 0, 1, 0, 0, 0, 0, 0, 0];
    let mut cursor = Cursor::new(&data);
    let header = DnsHeader::deserialize_from(&mut cursor).unwrap();
    assert!(header.recursion_desired);
    assert_eq!(ResponseCode::NoError, header.rcode);
    assert!(!header.recursion_available);
}

#[test]
fn header_truncated() {
    let full = [0u8, 1, 0x01, 0x00, 0, 1, 0, 0, 0, 0, 0, 0];
    for len in 0..12 {
        let mut cursor = Cursor::new(&full[..len]);
        assert_eq!(Err(DecodeError::UnexpectedEof), DnsHeader::deserialize_from(&mut cursor));
        assert_eq!(0, cursor.position());
    }
    // a bad code is seen before the missing counts are
    let mut cursor = Cursor::new(&[0u8, 1, 0x38, 0x00]);
    assert_eq!(Err(DecodeError::InvalidOpcode), DnsHeader::deserialize_from(&mut cursor));
}

#[test]
fn header_deserialize_in_place() {
    let data = [0xbeu8, 0xef, 0x93, 0x03, 0, 1, 0, 2, 0, 3, 4, 5];
    let mut header = DnsHeader::default();
    let mut cursor = Cursor::new(&data);
    assert_eq!(Ok(()), header.deserialize(&mut cursor));
    assert_eq!(sample_header(), header);
    let mut cursor = Cursor::new(&data[..5]);
    assert_eq!(Err(DecodeError::UnexpectedEof), header.deserialize(&mut cursor));
    assert_eq!(sample_header(), header);
}

fn question(name: &str, query_type: QueryType) -> DnsQuestion {
    DnsQuestion { domain_name: name.to_string(), query_type, query_class: DomainClass::Internet }
}

#[test]
fn question_bytes() {
    let mut buffer = vec![1u8];
    assert_eq!(Ok(()), question("a.bc", QueryType::MX).serialize(&mut buffer));
    assert_eq!(vec![1, 1, b'a', 2, b'b', b'c', 0, 0, 15, 0, 1], buffer);
}

#[test]
fn question_round_trip() {
    for name in ["example.com", "a", "www.example.co.uk", "bücher.example"] {
        for query_type in [QueryType::A, QueryType::TXT, QueryType::NIMLOC, QueryType::Unknown] {
            for query_class in [DomainClass::Reserved, DomainClass::Internet, DomainClass::Chaos, DomainClass::Hesiod] {
                let q = DnsQuestion { domain_name: name.to_string(), query_type, query_class };
                let mut buffer = vec![0u8; 12];
                q.serialize(&mut buffer).unwrap();
                let end = buffer.len();
                buffer.push(0xff);
                let mut cursor = Cursor::new(&buffer);
                cursor.set_position(12);
                assert_eq!(Ok(q), DnsQuestion::deserialize_from(&mut cursor, &buffer));
                assert_eq!(end, cursor.position());
            }
        }
    }
}

#[test]
fn question_with_too_long_label_leaves_buffer() {
    let mut buffer = vec![1u8, 2, 3];
    let q = question(&"y".repeat(300), QueryType::A);
    assert_eq!(Err(EncodeError::LabelTooLong), q.serialize(&mut buffer));
    assert_eq!(vec![1, 2, 3], buffer);
}

#[test]
fn question_decode_errors() {
    let good = [1u8, b'a', 0, 0, 1, 0, 1];
    let mut cursor = Cursor::new(&good);
    assert_eq!(Ok(question("a", QueryType::A)), DnsQuestion::deserialize_from(&mut cursor, &good));
    for len in 0..good.len() {
        let mut cursor = Cursor::new(&good[..len]);
        assert_eq!(
            Err(DecodeError::UnexpectedEof),
            DnsQuestion::deserialize_from(&mut cursor, &good[..len])
        );
        assert_eq!(0, cursor.position());
    }
    let bad_type = [1u8, b'a', 0, 0, 33, 0, 1];
    let mut cursor = Cursor::new(&bad_type);
    assert_eq!(
        Err(DecodeError::InvalidQueryType(33)),
        DnsQuestion::deserialize_from(&mut cursor, &bad_type)
    );
    let bad_class = [1u8, b'a', 0, 0, 1, 0, 2];
    let mut cursor = Cursor::new(&bad_class);
    assert_eq!(
        Err(DecodeError::InvalidDomainClass),
        DnsQuestion::deserialize_from(&mut cursor, &bad_class)
    );
    let bad_text = [2u8, 0xff, 0xfe, 0, 0, 1, 0, 1];
    let mut cursor = Cursor::new(&bad_text);
    assert_eq!(
        Err(DecodeError::InvalidUtf8),
        DnsQuestion::deserialize_from(&mut cursor, &bad_text)
    );
    let mut q = question("keep", QueryType::NS);
    let mut cursor = Cursor::new(&bad_class);
    assert_eq!(Err(DecodeError::InvalidDomainClass), q.deserialize(&mut cursor, &bad_class));
    assert_eq!(question("keep", QueryType::NS), q);
    let mut cursor = Cursor::new(&good);
    assert_eq!(Ok(()), q.deserialize(&mut cursor, &good));
    assert_eq!(question("a", QueryType::A), q);
}

#[test]
fn defaults() {
    let q = DnsQuestion::default();
    assert_eq!("", q.domain_name);
    assert_eq!(QueryType::Unknown, q.query_type);
    assert_eq!(DomainClass::Reserved, q.query_class);
    let r = DnsResourceRecord::default();
    assert_eq!("", r.domain_name);
    assert_eq!(QueryType::Unknown, r.data_type);
    assert_eq!(DomainClass::Reserved, r.data_class);
    assert_eq!(0, r.ttl);
    assert_eq!(0, r.data_length);
    assert!(r.data.is_empty());
    let h = DnsHeader::default();
    assert_eq!(0, h.request_id);
    assert_eq!(OpCode::Standard, h.opcode);
    assert_eq!(ResponseCode::NoError, h.rcode);
    assert!(!h.is_response && !h.recursion_desired);
    let p = DnsPacket::default();
    assert_eq!(h, p.header);
    assert!(p.questions.is_empty() && p.answers.is_empty());
    assert!(p.authorities.is_empty() && p.additionals.is_empty());
}

fn record_bytes(name: &[u8], rtype: u16, class: u16, ttl: u32, data: &[u8]) -> Vec<u8> {
    let mut out = name.to_vec();
    out.extend(rtype.to_be_bytes());
    out.extend(class.to_be_bytes());
    out.extend(ttl.to_be_bytes());
    out.extend((data.len() as u16).to_be_bytes());
    out.extend(data);
    out
}

#[test]
fn record_decodes() {
    let mut message = encode_name("example.com").unwrap();
    let at = message.len();
    message.extend(record_bytes(&[0xc0, 0x00], 1, 1, 3600, &[192, 0, 2, 1]));
    message.push(0x77);
    let mut cursor = Cursor::new(&message);
    cursor.set_position(at);
    let record = DnsResourceRecord::deserialize_from(&mut cursor, &message).unwrap();
    assert_eq!(
        DnsResourceRecord {
            domain_name: "example.com".to_string(),
            data_type: QueryType::A,
            data_class: DomainClass::Internet,
            ttl: 3600,
            data_length: 4,
            data: vec![192, 0, 2, 1],
        },
        record
    );
    assert_eq!(message.len() - 1, cursor.position());
}

#[test]
fn record_decode_errors() {
    let good = record_bytes(&[1, b'a', 0], 16, 1, 0x01020304, b"\x02hi");
    for len in 0..good.len() {
        let mut cursor = Cursor::new(&good[..len]);
        assert_eq!(
            Err(DecodeError::UnexpectedEof),
            DnsResourceRecord::deserialize_from(&mut cursor, &good[..len])
        );
        assert_eq!(0, cursor.position());
    }
    let mut cursor = Cursor::new(&good);
    let mut record = DnsResourceRecord::default();
    assert_eq!(Ok(()), record.deserialize(&mut cursor, &good));
    assert_eq!(0x01020304, record.ttl);
    assert_eq!(3, record.data_length);
    assert_eq!(b"\x02hi".to_vec(), record.data);
    let bad_type = record_bytes(&[1, b'a', 0], 600, 1, 0, &[]);
    let mut cursor = Cursor::new(&bad_type);
    assert_eq!(
        Err(DecodeError::InvalidQueryType(600)),
        record.deserialize(&mut cursor, &bad_type)
    );
    assert_eq!(b"\x02hi".to_vec(), record.data);
    let bad_class = record_bytes(&[1, b'a', 0], 1, 9, 0, &[]);
    let mut cursor = Cursor::new(&bad_class);
    assert_eq!(
        Err(DecodeError::InvalidDomainClass),
        DnsResourceRecord::deserialize_from(&mut cursor, &bad_class)
    );
    let bad_name = record_bytes(&[1, 0x80, 0], 1, 1, 0, &[]);
    let mut cursor = Cursor::new(&bad_name);
    assert_eq!(
        Err(DecodeError::InvalidUtf8),
        DnsResourceRecord::deserialize_from(&mut cursor, &bad_name)
    );
}

fn response_message() -> Vec<u8> {
    let header = DnsHeader {
        request_id: 0x1234,
        is_response: true,
        opcode: OpCode::Standard,
        authoritative_answer: false,
        message_truncated: false,
        recursion_desired: true,
        recursion_available: true,
        rcode: ResponseCode::NoError,
        query_count: 1,
        answer_count: 2,
        nameserver_count: 1,
        additional_count: 1,
    };
    let mut message = Vec::new();
    header.serialize(&mut message);
    question("example.com", QueryType::A).serialize(&mut message).unwrap();
    message.extend(record_bytes(&[0xc0, 12], 1, 1, 60, &[93, 184, 216, 34]));
    message.extend(record_bytes(&[3, b'w', b'w', b'w', 0xc0, 12], 5, 1, 61, &[0xc0, 12]));
    message.extend(record_bytes(&[0xc0, 12], 2, 1, 62, &[2, b'n', b's', 0xc0, 12]));
    message.extend(record_bytes(&[0], 16, 3, 63, b"\x01x"));
    message
}

#[test]
fn message_decodes_sections_in_order() {
    let message = response_message();
    let mut cursor = Cursor::new(&message);
    let header = DnsHeader::deserialize_from(&mut cursor).unwrap();
    assert_eq!(12, cursor.position());
    let packet = DnsPacket::deserialize_from(header, &mut cursor, &message).unwrap();
    assert_eq!(message.len(), cursor.position());
    assert_eq!(header, packet.header);
    assert_eq!(vec![question("example.com", QueryType::A)], packet.questions);
    assert_eq!(2, packet.answers.len());
    assert_eq!("example.com", packet.answers[0].domain_name);
    assert_eq!(vec![93, 184, 216, 34], packet.answers[0].data);
    assert_eq!(60, packet.answers[0].ttl);
    assert_eq!("www.example.com", packet.answers[1].domain_name);
    assert_eq!(QueryType::CNAME, packet.answers[1].data_type);
    assert_eq!(1, packet.authorities.len());
    assert_eq!(QueryType::NS, packet.authorities[0].data_type);
    assert_eq!(62, packet.authorities[0].ttl);
    assert_eq!(1, packet.additionals.len());
    assert_eq!("", packet.additionals[0].domain_name);
    assert_eq!(DomainClass::Chaos, packet.additionals[0].data_class);
    assert_eq!(b"\x01x".to_vec(), packet.additionals[0].data);
}

#[test]
fn message_shorter_than_its_counts_fails_whole() {
    let message = response_message();
    for len in 12..message.len() {
        let short = &message[..len];
        let mut cursor = Cursor::new(short);
        let header = DnsHeader::deserialize_from(&mut cursor).unwrap();
        let mut packet = DnsPacket::default();
        assert_eq!(
            Err(DecodeError::UnexpectedEof),
            packet.deserialize(header, &mut cursor, short)
        );
        assert_eq!(DnsPacket::default(), packet);
        assert_eq!(12, cursor.position());
    }
    // a count that promises more than there is
    let mut more = message.clone();
    more[7] = 3;
    let mut cursor = Cursor::new(&more);
    let header = DnsHeader::deserialize_from(&mut cursor).unwrap();
    assert!(DnsPacket::deserialize_from(header, &mut cursor, &more).is_err());
}

#[test]
fn message_serializes_header_and_questions_only() {
    let message = response_message();
    let mut cursor = Cursor::new(&message);
    let header = DnsHeader::deserialize_from(&mut cursor).unwrap();
    let packet = DnsPacket::deserialize_from(header, &mut cursor, &message).unwrap();
    let mut out = vec![0xabu8];
    assert_eq!(Ok(()), packet.serialize(&mut out));
    assert_eq!(0xab, out[0]);
    assert_eq!(&message[..12 + 17], &out[1..]);
}

#[test]
fn query_round_trip() {
    let mut packet = DnsPacket::default();
    packet.header.request_id = 0xabcd;
    packet.header.recursion_desired = true;
    packet.header.query_count = 2;
    packet.questions.push(question("example.com", QueryType::A));
    packet.questions.push(question("example.org", QueryType::MX));
    let mut out = Vec::new();
    packet.serialize(&mut out).unwrap();
    let mut cursor = Cursor::new(&out);
    let header = DnsHeader::deserialize_from(&mut cursor).unwrap();
    assert_eq!(Ok(packet), DnsPacket::deserialize_from(header, &mut cursor, &out));
    assert_eq!(out.len(), cursor.position());
}

#[test]
fn message_with_too_long_label_is_not_written() {
    let mut packet = DnsPacket::default();
    packet.header.query_count = 2;
    packet.questions.push(question("fine.example", QueryType::A));
    packet.questions.push(question(&"z".repeat(256), QueryType::A));
    let mut out = vec![5u8];
    assert_eq!(Err(EncodeError::LabelTooLong), packet.serialize(&mut out));
    assert_eq!(vec![5u8], out);
}

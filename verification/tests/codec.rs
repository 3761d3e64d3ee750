//! Wire-codec tests: header layout, whole-message round trips, and
//! rejection of malformed datagrams.

use rustdns::defs::{Type, OpCode, ResponseCode, QuestionType, QuestionClass};
use rustdns::dns::{Construct, DNS, parse_datagram, datagram_bytes};
use rustdns::transport::TransportProto;
use rustdns::fqdn::FQDN;
use rustdns::header::DNSHeader;
use rustdns::question::DNSQuestion;
use rustdns::resource::DNSResourceFormat;

fn example_fqdn() -> FQDN {
    FQDN {
        subdomain: None,
        domain_name: String::from("example"),
        tld: String::from("com"),
    }
}

fn query_with_one_question() -> DNS {
    DNS {
        header: DNSHeader {
            id: 0x1234,
            qr: Type::Query,
            op_code: OpCode::Query,
            authoritative: false,
            truncated: false,
            recursion_desired: true,
            recursion_available: false,
            error_code: ResponseCode::NoError,
            question_count: 1,
            answer_count: 0,
            nameserver_count: 0,
            resource_count: 0,
        },
        questions: Some(vec![DNSQuestion {
            name: example_fqdn(),
            qtype: QuestionType::A,
            class: QuestionClass::IN,
        }]),
        answer: None,
        authority: None,
        additional: None,
    }
}

#[test]
fn encode_query_exact_bytes() {
    let bytes = datagram_bytes(query_with_one_question()).unwrap();
    let expected: Vec<u8> = vec![
        0x12, 0x34, // id
        0x01, 0x00, // flags: query, opcode 0, recursion desired
        0x00, 0x01, // one question
        0x00, 0x00, // no answers
        0x00, 0x00, // no authority records
        0x00, 0x00, // no additional records
        7, b'e', b'x', b'a', b'm', b'p', b'l', b'e', 3, b'c', b'o', b'm', 0, // name
        0x00, 0x01, // type A
        0x00, 0x01, // class IN
    ];
    assert_eq!(bytes, expected);
}

#[test]
fn end_to_end_query_roundtrip() {
    let bytes = datagram_bytes(query_with_one_question()).unwrap();
    let decoded = parse_datagram(&bytes).unwrap();
    assert_eq!(decoded.header.id, 0x1234);
    assert_eq!(decoded.header.qr, Type::Query);
    assert!(decoded.header.recursion_desired);
    let questions = decoded.questions.unwrap();
    assert_eq!(questions.len(), 1);
    assert_eq!(questions[0].name.subdomain, None);
    assert_eq!(questions[0].name.domain_name, "example");
    assert_eq!(questions[0].name.tld, "com");
    assert_eq!(questions[0].qtype, QuestionType::A);
    assert_eq!(questions[0].class, QuestionClass::IN);
}

#[test]
fn roundtrip_with_subdomain_and_records() {
    let message = DNS {
        header: DNSHeader {
            id: 0xBEEF,
            qr: Type::Response,
            op_code: OpCode::Status,
            authoritative: true,
            truncated: false,
            recursion_desired: false,
            recursion_available: true,
            error_code: ResponseCode::NoError,
            question_count: 1,
            answer_count: 1,
            nameserver_count: 0,
            resource_count: 1,
        },
        questions: Some(vec![DNSQuestion {
            name: FQDN {
                subdomain: Some(String::from("www")),
                domain_name: String::from("example"),
                tld: String::from("org"),
            },
            qtype: QuestionType::AAAA,
            class: QuestionClass::IN,
        }]),
        answer: Some(vec![DNSResourceFormat {
            name: String::from("www.example.org"),
            rr_type: QuestionType::AAAA,
            rr_class: QuestionClass::IN,
            ttl: 3600,
            length: 4,
            data: vec![10, 20, 30, 40],
        }]),
        authority: None,
        additional: Some(vec![DNSResourceFormat {
            name: String::from("ns.example.org"),
            rr_type: QuestionType::NS,
            rr_class: QuestionClass::IN,
            ttl: 86400,
            length: 2,
            data: vec![1, 2],
        }]),
    };
    let bytes = datagram_bytes(message).unwrap();
    let decoded = parse_datagram(&bytes).unwrap();
    assert_eq!(decoded.header.id, 0xBEEF);
    assert_eq!(decoded.header.qr, Type::Response);
    assert!(decoded.header.authoritative);
    assert!(decoded.header.recursion_available);
    assert_eq!(decoded.header.answer_count, 1);
    let questions = decoded.questions.unwrap();
    assert_eq!(questions[0].name.subdomain, Some(String::from("www")));
    let answers = decoded.answer.unwrap();
    assert_eq!(answers.len(), 1);
    assert_eq!(answers[0].name, "www.example.org");
    assert_eq!(answers[0].rr_type, QuestionType::AAAA);
    assert_eq!(answers[0].ttl, 3600);
    assert_eq!(answers[0].length, 4);
    assert_eq!(answers[0].data, vec![10, 20, 30, 40]);
    let additional = decoded.additional.unwrap();
    assert_eq!(additional[0].name, "ns.example.org");
    assert_eq!(additional[0].rr_type, QuestionType::NS);
}

#[test]
fn truncated_reply_decodes_to_header_only() {
    let mut message = query_with_one_question();
    message.header.truncated = true;
    message.questions = None;
    let bytes = datagram_bytes(message).unwrap();
    assert_eq!(bytes.len(), 12);
    let decoded = parse_datagram(&bytes).unwrap();
    assert!(decoded.header.truncated);
    assert!(decoded.questions.is_none());
    assert!(decoded.answer.is_none());
}

#[test]
fn decode_empty_buffer_is_format_error() {
    assert_eq!(parse_datagram(&[]), Err(ResponseCode::FormatError));
}

#[test]
fn decode_mid_header_is_format_error() {
    let buf = [0x12, 0x34, 0x01, 0x00, 0x00];
    assert_eq!(parse_datagram(&buf), Err(ResponseCode::FormatError));
}

#[test]
fn decode_mid_question_is_format_error() {
    // A header that declares one question, but the buffer ends in the
    // middle of the question's name.
    let buf = [
        0x12, 0x34, 0x01, 0x00, 0x00, 0x01, 0x00, 0x00, 0x00, 0x00, 0x00, 0x00, //
        7, b'e', b'x', b'a',
    ];
    assert_eq!(parse_datagram(&buf), Err(ResponseCode::FormatError));
}

#[test]
fn decode_unknown_opcode_is_format_error() {
    let mut bytes = datagram_bytes(query_with_one_question()).unwrap();
    bytes[2] = 0x78; // opcode bits 15: reserved for future use
    assert_eq!(parse_datagram(&bytes), Err(ResponseCode::FormatError));
}

#[test]
fn decode_unknown_question_type_is_format_error() {
    let mut bytes = datagram_bytes(query_with_one_question()).unwrap();
    let n = bytes.len();
    bytes[n - 4] = 0xFF;
    bytes[n - 3] = 0xFF;
    assert_eq!(parse_datagram(&bytes), Err(ResponseCode::FormatError));
}

#[test]
fn encode_rejects_count_mismatch() {
    let mut message = query_with_one_question();
    message.header.question_count = 2;
    assert_eq!(datagram_bytes(message), Err(ResponseCode::FormatError));
}

#[test]
fn encode_rejects_oversized_label() {
    let mut message = query_with_one_question();
    if let Some(qs) = message.questions.as_mut() {
        qs[0].name.domain_name = "a".repeat(64);
    }
    assert_eq!(datagram_bytes(message), Err(ResponseCode::FormatError));
}

#[test]
fn wire_value_tables_match_the_rfc() {
    assert_eq!(QuestionType::from_u16(1), Some(QuestionType::A));
    assert_eq!(QuestionType::from_u16(2), Some(QuestionType::NS));
    assert_eq!(QuestionType::from_u16(28), Some(QuestionType::AAAA));
    assert_eq!(QuestionType::A.code(), 1);
    assert_eq!(QuestionType::NS.code(), 2);
    assert_eq!(QuestionType::AAAA.code(), 28);
    assert_eq!(QuestionType::from_u16(38), None);
    assert_eq!(QuestionType::from_u16(0), None);
    assert_eq!(QuestionClass::from_u16(1), Some(QuestionClass::IN));
    assert_eq!(QuestionClass::from_u16(4), Some(QuestionClass::HS));
    assert_eq!(QuestionClass::from_u16(5), None);
    assert_eq!(OpCode::from_u8(0), Some(OpCode::Query));
    assert_eq!(OpCode::from_u8(2), Some(OpCode::Status));
    assert_eq!(OpCode::from_u8(3), None);
    assert_eq!(ResponseCode::from_u8(3), Some(ResponseCode::NameError));
    assert_eq!(ResponseCode::from_u8(5), Some(ResponseCode::Refused));
    assert_eq!(ResponseCode::from_u8(6), None);
}

#[test]
fn header_new_defaults() {
    let h = DNSHeader::new();
    assert_eq!(h.id, 1);
    assert_eq!(h.qr, Type::Response);
    assert!(h.recursion_desired);
    assert_eq!(h.error_code, ResponseCode::NoError);
}

#[test]
fn dns_new_is_empty_query() {
    let m = DNS::new();
    assert_eq!(m.header.id, 0);
    assert_eq!(m.header.qr, Type::Query);
    assert_eq!(m.header.question_count, 0);
    assert!(m.questions.is_none());
}

#[test]
fn construct_trait_mirrors_the_inherent_codec() {
    let bytes = datagram_bytes(query_with_one_question()).unwrap();
    let via_trait = <DNS as Construct>::from(&bytes).unwrap();
    assert_eq!(via_trait.header.id, 0x1234);
    let reencoded = Construct::bytes(via_trait).unwrap();
    assert_eq!(reencoded, bytes);
    let fresh = <DNS as Construct>::new();
    assert_eq!(fresh.header.id, 0);
}

#[test]
fn from_strips_the_tcp_length_prefix() {
    let bytes = datagram_bytes(query_with_one_question()).unwrap();
    let mut framed = vec![0u8, bytes.len() as u8];
    framed.extend_from_slice(&bytes);
    let decoded = DNS::from(&framed, TransportProto::TCP).unwrap();
    assert_eq!(decoded.header.id, 0x1234);
    let direct = DNS::from(&bytes, TransportProto::UDP).unwrap();
    assert_eq!(direct.header.id, 0x1234);
    assert_eq!(
        DNS::from(&[7u8], TransportProto::TCP),
        Err(ResponseCode::FormatError)
    );
}

//! Resolution-engine and request-handler tests: the per-question
//! pipeline, the referral walk, and the end-to-end handling of
//! well-formed and malformed datagrams.

use rustdns::defs::{Type, OpCode, ResponseCode, QuestionType, QuestionClass};
use rustdns::dns::{DNS, datagram_bytes, parse_datagram};
use rustdns::fqdn::FQDN;
use rustdns::handler::{Handler, HandlerT};
use rustdns::header::DNSHeader;
use rustdns::question::DNSQuestion;
use rustdns::resource::DNSResourceFormat;
use rustdns::resolver::{
    QuestionHandler, QuestionHandlerT, ReferralStep, root_server_endpoint, MAX_REFERRAL_HOPS,
    ROOT_QUERY_ID,
};

fn example_question() -> DNSQuestion {
    DNSQuestion {
        name: FQDN {
            subdomain: None,
            domain_name: String::from("example"),
            tld: String::from("com"),
        },
        qtype: QuestionType::A,
        class: QuestionClass::IN,
    }
}

fn request_bytes(id: u16) -> Vec<u8> {
    let request = DNS {
        header: DNSHeader {
            id,
            qr: Type::Query,
            op_code: OpCode::Query,
            authoritative: false,
            truncated: false,
            recursion_desired: true,
            recursion_available: false,
            error_code: ResponseCode::NoError,
            question_count: 1,
            answer_count: 0,
            nameserver_count: 0,
            resource_count: 0,
        },
        questions: Some(vec![example_question()]),
        answer: None,
        authority: None,
        additional: None,
    };
    datagram_bytes(request).unwrap()
}

#[test]
fn invalid_name_is_a_name_error() {
    let mut engine = QuestionHandler::new();
    let mut bad = example_question();
    bad.name.domain_name = String::from("-bad");
    let r = engine.handle(bad, true, Some(String::from("198.41.0.4:53")));
    assert_eq!(r.unwrap_err(), ResponseCode::NameError);
}

#[test]
fn absent_tld_is_a_name_error() {
    let mut engine = QuestionHandler::new();
    let r = engine.handle(example_question(), false, Some(String::from("198.41.0.4:53")));
    assert_eq!(r.unwrap_err(), ResponseCode::NameError);
}

#[test]
fn missing_root_server_is_a_server_failure() {
    let mut engine = QuestionHandler::new();
    let r = engine.handle(example_question(), true, None);
    assert_eq!(r.unwrap_err(), ResponseCode::ServerFailure);
}

#[test]
fn valid_question_builds_an_ns_query() {
    let mut engine = QuestionHandler::new();
    let query = engine
        .handle(example_question(), true, Some(String::from("198.41.0.4:53")))
        .unwrap();
    assert_eq!(query.header.id, ROOT_QUERY_ID);
    assert_eq!(query.header.qr, Type::Query);
    assert_eq!(query.header.op_code, OpCode::Query);
    assert!(query.header.recursion_desired);
    assert_eq!(query.header.question_count, 1);
    let questions = query.questions.unwrap();
    assert_eq!(questions[0].qtype, QuestionType::NS);
    assert_eq!(questions[0].class, QuestionClass::IN);
    assert_eq!(questions[0].name.domain_name, "example");
    assert_eq!(engine.root_server, Some(String::from("198.41.0.4:53")));
}

fn reply_with_delegation() -> DNS {
    DNS {
        header: DNSHeader {
            id: ROOT_QUERY_ID,
            qr: Type::Response,
            op_code: OpCode::Query,
            authoritative: false,
            truncated: false,
            recursion_desired: false,
            recursion_available: false,
            error_code: ResponseCode::NoError,
            question_count: 0,
            answer_count: 0,
            nameserver_count: 1,
            resource_count: 0,
        },
        questions: None,
        answer: None,
        authority: Some(vec![DNSResourceFormat {
            name: String::from("com"),
            rr_type: QuestionType::NS,
            rr_class: QuestionClass::IN,
            ttl: 3600,
            length: 10,
            data: b"192.5.6.30".to_vec(),
        }]),
        additional: None,
    }
}

#[test]
fn transport_failure_is_a_server_failure() {
    let mut engine = QuestionHandler::new();
    engine
        .handle(example_question(), true, Some(String::from("198.41.0.4:53")))
        .unwrap();
    match engine.on_referral(None) {
        ReferralStep::Fail(code) => assert_eq!(code, ResponseCode::ServerFailure),
        other => panic!("expected a failure, got {:?}", other),
    }
}

#[test]
fn delegation_continues_the_walk() {
    let mut engine = QuestionHandler::new();
    engine
        .handle(example_question(), true, Some(String::from("198.41.0.4:53")))
        .unwrap();
    match engine.on_referral(Some(reply_with_delegation())) {
        ReferralStep::Query(host, query) => {
            assert_eq!(host, "192.5.6.30:53");
            assert_eq!(query.header.id, ROOT_QUERY_ID);
            assert_eq!(query.questions.unwrap()[0].qtype, QuestionType::NS);
        },
        other => panic!("expected a follow-up query, got {:?}", other),
    }
    assert_eq!(engine.hops_left, MAX_REFERRAL_HOPS - 1);
    assert_eq!(engine.tld_ns, Some(String::from("192.5.6.30:53")));
}

#[test]
fn answer_ends_the_walk() {
    let mut engine = QuestionHandler::new();
    engine
        .handle(example_question(), true, Some(String::from("198.41.0.4:53")))
        .unwrap();
    let mut reply = reply_with_delegation();
    reply.header.answer_count = 1;
    reply.answer = Some(vec![DNSResourceFormat {
        name: String::from("example.com"),
        rr_type: QuestionType::A,
        rr_class: QuestionClass::IN,
        ttl: 60,
        length: 4,
        data: vec![93, 184, 216, 34],
    }]);
    match engine.on_referral(Some(reply)) {
        ReferralStep::Answer(rec) => {
            assert_eq!(rec.name, "example.com");
            assert_eq!(rec.data, vec![93, 184, 216, 34]);
        },
        other => panic!("expected an answer, got {:?}", other),
    }
}

#[test]
fn reply_without_delegation_fails() {
    let mut engine = QuestionHandler::new();
    engine
        .handle(example_question(), true, Some(String::from("198.41.0.4:53")))
        .unwrap();
    let mut reply = reply_with_delegation();
    reply.authority = None;
    reply.header.nameserver_count = 0;
    match engine.on_referral(Some(reply)) {
        ReferralStep::Fail(code) => assert_eq!(code, ResponseCode::ServerFailure),
        other => panic!("expected a failure, got {:?}", other),
    }
}

#[test]
fn hop_bound_ends_the_walk() {
    let mut engine = QuestionHandler::new();
    engine
        .handle(example_question(), true, Some(String::from("198.41.0.4:53")))
        .unwrap();
    for _ in 0..MAX_REFERRAL_HOPS {
        match engine.on_referral(Some(reply_with_delegation())) {
            ReferralStep::Query(_, _) => {},
            other => panic!("expected a follow-up query, got {:?}", other),
        }
    }
    match engine.on_referral(Some(reply_with_delegation())) {
        ReferralStep::Fail(code) => assert_eq!(code, ResponseCode::ServerFailure),
        other => panic!("expected the hop bound to end the walk, got {:?}", other),
    }
}

#[test]
fn root_server_entries_yield_endpoints() {
    let entry = String::from("3600000_A_198.41.0.4 3600000_A_199.9.14.201");
    assert_eq!(
        root_server_endpoint(&entry),
        Some(String::from("198.41.0.4:53"))
    );
    assert_eq!(root_server_endpoint(&String::from("onefield")), None);
    assert_eq!(root_server_endpoint(&String::from("3600000_A")), None);
}

#[test]
fn absent_tld_yields_a_name_error_response() {
    // End to end: decode a request whose TLD the Directory Service
    // reports absent, fail the question, and check the response.
    let mut handler = Handler::new();
    let incoming = request_bytes(0x7777);
    assert!(handler
        .handle(&incoming, String::from("127.0.0.1:9999"))
        .is_none());

    let mut engine = QuestionHandler::new();
    let question = handler.datagram.questions.as_ref().unwrap()[0].clone();
    let outcome = engine.handle(question, false, Some(String::from("198.41.0.4:53")));
    assert_eq!(outcome, Err(ResponseCode::NameError));

    let response_bytes = handler.resolve_questions(&vec![Err(ResponseCode::NameError)]);
    let response = parse_datagram(&response_bytes).unwrap();
    assert_eq!(response.header.id, 0x7777);
    assert_eq!(response.header.qr, Type::Response);
    assert_eq!(response.header.error_code, ResponseCode::NameError);
}

#[test]
fn malformed_datagram_yields_a_format_error_response() {
    // A header that declares one question, but the buffer ends before
    // the question data.
    let mut malformed = request_bytes(0x4242);
    malformed.truncate(14);
    let mut handler = Handler::new();
    let response_bytes = handler
        .handle(&malformed, String::from("127.0.0.1:9999"))
        .expect("a malformed datagram must produce a response");
    let response = parse_datagram(&response_bytes).unwrap();
    assert_eq!(response.header.id, 0x4242);
    assert_eq!(response.header.qr, Type::Response);
    assert_eq!(response.header.error_code, ResponseCode::FormatError);
}

#[test]
fn resolved_questions_build_a_success_response() {
    let mut handler = Handler::new();
    let incoming = request_bytes(0x0101);
    assert!(handler
        .handle(&incoming, String::from("127.0.0.1:9999"))
        .is_none());
    let record = DNSResourceFormat {
        name: String::from("example.com"),
        rr_type: QuestionType::A,
        rr_class: QuestionClass::IN,
        ttl: 60,
        length: 4,
        data: vec![93, 184, 216, 34],
    };
    let response_bytes = handler.resolve_questions(&vec![Ok(record)]);
    let response = parse_datagram(&response_bytes).unwrap();
    assert_eq!(response.header.id, 0x0101);
    assert_eq!(response.header.qr, Type::Response);
    assert_eq!(response.header.error_code, ResponseCode::NoError);
    assert_eq!(response.header.answer_count, 1);
    let answers = response.answer.unwrap();
    assert_eq!(answers[0].name, "example.com");
    assert_eq!(answers[0].data, vec![93, 184, 216, 34]);
    let questions = response.questions.unwrap();
    assert_eq!(questions[0].name.domain_name, "example");
}

#[test]
fn first_failed_question_stops_processing() {
    let mut handler = Handler::new();
    let incoming = request_bytes(0x0202);
    assert!(handler
        .handle(&incoming, String::from("127.0.0.1:9999"))
        .is_none());
    let record = DNSResourceFormat {
        name: String::from("example.com"),
        rr_type: QuestionType::A,
        rr_class: QuestionClass::IN,
        ttl: 60,
        length: 4,
        data: vec![1, 2, 3, 4],
    };
    let response_bytes = handler.resolve_questions(&vec![
        Ok(record),
        Err(ResponseCode::ServerFailure),
        Err(ResponseCode::Refused),
    ]);
    let response = parse_datagram(&response_bytes).unwrap();
    assert_eq!(response.header.id, 0x0202);
    assert_eq!(response.header.error_code, ResponseCode::ServerFailure);
    assert_eq!(response.header.answer_count, 0);
}

#[test]
fn tiny_garbage_still_gets_a_response() {
    let mut handler = Handler::new();
    let response_bytes = handler
        .handle(&[0xAB], String::from("127.0.0.1:9999"))
        .expect("garbage must produce a response");
    let response = parse_datagram(&response_bytes).unwrap();
    assert_eq!(response.header.id, 0);
    assert_eq!(response.header.qr, Type::Response);
    assert_eq!(response.header.error_code, ResponseCode::FormatError);
}

#[test]
fn request_without_questions_succeeds_with_no_answers() {
    let empty_request = DNS {
        header: DNSHeader {
            id: 0x0303,
            qr: Type::Query,
            op_code: OpCode::Query,
            authoritative: false,
            truncated: false,
            recursion_desired: false,
            recursion_available: false,
            error_code: ResponseCode::NoError,
            question_count: 0,
            answer_count: 0,
            nameserver_count: 0,
            resource_count: 0,
        },
        questions: Some(vec![]),
        answer: None,
        authority: None,
        additional: None,
    };
    let bytes = datagram_bytes(empty_request).unwrap();
    let mut handler = Handler::new();
    assert!(handler.handle(&bytes, String::from("127.0.0.1:9999")).is_none());
    let response_bytes = handler.resolve_questions(&vec![]);
    let response = parse_datagram(&response_bytes).unwrap();
    assert_eq!(response.header.id, 0x0303);
    assert_eq!(response.header.error_code, ResponseCode::NoError);
    assert_eq!(response.header.answer_count, 0);
}

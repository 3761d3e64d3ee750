//! Transport tests: the UDP-to-TCP fallback decision and the TCP
//! length-prefix framing.

use rustdns::defs::{Type, OpCode, ResponseCode, QuestionType, QuestionClass};
use rustdns::dns::{DNS, datagram_bytes};
use rustdns::fqdn::FQDN;
use rustdns::header::DNSHeader;
use rustdns::question::DNSQuestion;
use rustdns::transport::{
    TcpOutcome, TransportDecision, TransportError, UdpOutcome, frame_tcp_payload,
    handle_tcp_outcome, handle_udp_outcome, validate_tcp_frame,
};

fn reply(truncated: bool) -> Vec<u8> {
    let message = DNS {
        header: DNSHeader {
            id: 7,
            qr: Type::Response,
            op_code: OpCode::Query,
            authoritative: false,
            truncated,
            recursion_desired: false,
            recursion_available: false,
            error_code: ResponseCode::NoError,
            question_count: if truncated { 1 } else { 0 },
            answer_count: 0,
            nameserver_count: 0,
            resource_count: 0,
        },
        questions: None,
        answer: None,
        authority: None,
        additional: None,
    };
    let mut m = message;
    if !truncated {
        m.header.question_count = 1;
        m.questions = Some(vec![DNSQuestion {
            name: FQDN {
                subdomain: None,
                domain_name: String::from("example"),
                tld: String::from("com"),
            },
            qtype: QuestionType::A,
            class: QuestionClass::IN,
        }]);
    }
    datagram_bytes(m).unwrap()
}

#[test]
fn truncated_udp_reply_falls_through_to_tcp() {
    let decision = handle_udp_outcome(UdpOutcome::Reply(reply(true)));
    assert_eq!(decision, TransportDecision::TryTcp);
}

#[test]
fn udp_bind_or_send_failure_falls_through_to_tcp() {
    assert_eq!(handle_udp_outcome(UdpOutcome::BindFailed), TransportDecision::TryTcp);
    assert_eq!(handle_udp_outcome(UdpOutcome::SendFailed), TransportDecision::TryTcp);
}

#[test]
fn clean_udp_reply_finishes() {
    match handle_udp_outcome(UdpOutcome::Reply(reply(false))) {
        TransportDecision::Finish(Ok(m)) => {
            assert_eq!(m.header.id, 7);
            assert!(!m.header.truncated);
        },
        other => panic!("expected a finished result, got {:?}", other),
    }
}

#[test]
fn garbage_udp_reply_is_a_read_error() {
    let decision = handle_udp_outcome(UdpOutcome::Reply(vec![1, 2, 3]));
    assert_eq!(decision, TransportDecision::Finish(Err(TransportError::ReadError)));
}

#[test]
fn frame_prefixes_the_length() {
    let framed = frame_tcp_payload(&[9, 8, 7]).unwrap();
    assert_eq!(framed, vec![0, 3, 9, 8, 7]);
}

#[test]
fn frame_roundtrips_through_validation() {
    let framed = frame_tcp_payload(&reply(false)).unwrap();
    assert!(validate_tcp_frame(&framed).is_ok());
}

#[test]
fn wrong_length_prefix_is_a_length_error() {
    // Declared length 5, but only 3 bytes follow the prefix.
    let framed = [0u8, 5, 1, 2, 3];
    assert_eq!(
        validate_tcp_frame(&framed),
        Err(TransportError::DatagramLengthError)
    );
    assert_eq!(
        handle_tcp_outcome(TcpOutcome::Reply(framed.to_vec())),
        Err(TransportError::DatagramLengthError)
    );
}

#[test]
fn reply_shorter_than_a_prefix_is_a_length_error() {
    assert_eq!(
        validate_tcp_frame(&[7]),
        Err(TransportError::DatagramLengthError)
    );
}

#[test]
fn tcp_socket_failures_map_to_their_errors() {
    assert_eq!(
        handle_tcp_outcome(TcpOutcome::ConnectFailed),
        Err(TransportError::ClientInstantiateError)
    );
    assert_eq!(
        handle_tcp_outcome(TcpOutcome::WriteFailed),
        Err(TransportError::WriteError)
    );
    assert_eq!(
        handle_tcp_outcome(TcpOutcome::ReadFailed),
        Err(TransportError::ReadError)
    );
}

#[test]
fn well_framed_tcp_reply_decodes() {
    let framed = frame_tcp_payload(&reply(false)).unwrap();
    let decoded = handle_tcp_outcome(TcpOutcome::Reply(framed)).unwrap();
    assert_eq!(decoded.header.id, 7);
    assert_eq!(decoded.questions.unwrap().len(), 1);
}

#[test]
fn framed_garbage_is_a_read_error() {
    let framed = frame_tcp_payload(&[1, 2, 3]).unwrap();
    assert_eq!(
        handle_tcp_outcome(TcpOutcome::Reply(framed)),
        Err(TransportError::ReadError)
    );
}

//! The per-datagram request handler: decode the incoming bytes,
//! dispatch each question to the resolution engine, and build the
//! response — or synthesize an error response that reuses the original
//! transaction id and opcode when anything fails. The client always
//! receives a well-formed response with a response code; the handler
//! itself is never silent.

use vstd::prelude::*;
use crate::defs::{Type, OpCode, ResponseCode};
use crate::dns::{
    DNS,
    DnsModel,
    datagram_bytes,
    msg_encodable,
    parse_datagram,
    spec_message_bytes,
    spec_parse_message,
};
use crate::header::DNSHeader;
use crate::question::{DNSQuestion, question_models};
use crate::resource::{DNSResourceFormat, ResourceModel, resource_models};

verus! {

/// This struct takes ownership of a datagram and processes it.
pub struct Handler {
    pub datagram: DNS,
    /// The peer the datagram came from, as `host:port` text.
    pub sent_from: Option<String>,
}

/// The response synthesized for a failure: the original id and opcode,
/// the response bit set, the given code, and no sections.
pub open spec fn spec_fail_response(id: u16, op: OpCode, code: ResponseCode) -> DnsModel {
    DnsModel {
        header: DNSHeader {
            id,
            qr: Type::Response,
            op_code: op,
            authoritative: false,
            truncated: false,
            recursion_desired: false,
            recursion_available: false,
            error_code: code,
            question_count: 0,
            answer_count: 0,
            nameserver_count: 0,
            resource_count: 0,
        },
        questions: None,
        answer: None,
        authority: None,
        additional: None,
    }
}

/// The transaction id salvaged from an undecodable datagram: its first
/// two bytes when it has them, zero otherwise.
pub open spec fn salvaged_id(buf: Seq<u8>) -> u16 {
    if buf.len() >= 2 {
        crate::wire::be16(buf[0], buf[1])
    } else {
        0
    }
}

/// The opcode salvaged from an undecodable datagram: the opcode bits
/// of its third byte when it has one and they are mapped, a plain
/// query otherwise.
pub open spec fn salvaged_op(buf: Seq<u8>) -> OpCode {
    if buf.len() >= 3 {
        match OpCode::spec_from_u8(((buf[2] / 8) % 16) as u8) {
            Some(op) => op,
            None => OpCode::Query,
        }
    } else {
        OpCode::Query
    }
}

/// The first failure among the per-question outcomes, in order.
pub open spec fn first_err(rs: Seq<Result<DNSResourceFormat, ResponseCode>>) -> Option<
    ResponseCode,
>
    decreases rs.len(),
{
    if rs.len() == 0 {
        None
    } else {
        match rs[0] {
            Err(code) => Some(code),
            Ok(_) => first_err(rs.drop_first()),
        }
    }
}

/// The answer records among the per-question outcomes, in order.
pub open spec fn ok_answers(rs: Seq<Result<DNSResourceFormat, ResponseCode>>) -> Seq<
    ResourceModel,
>
    decreases rs.len(),
{
    if rs.len() == 0 {
        Seq::empty()
    } else {
        (match rs[0] {
            Ok(rec) => seq![rec.model()],
            Err(_) => Seq::empty(),
        }) + ok_answers(rs.drop_first())
    }
}

/// The response assembled on full success: the request's id, opcode,
/// recursion bit and questions, the response bit set, no error, and
/// the answer section populated with the collected records.
pub open spec fn spec_success_response(m: DnsModel, answers: Seq<ResourceModel>) -> DnsModel {
    DnsModel {
        header: DNSHeader {
            id: m.header.id,
            qr: Type::Response,
            op_code: m.header.op_code,
            authoritative: false,
            truncated: false,
            recursion_desired: m.header.recursion_desired,
            recursion_available: false,
            error_code: ResponseCode::NoError,
            question_count: m.header.question_count,
            answer_count: answers.len() as u16,
            nameserver_count: 0,
            resource_count: 0,
        },
        questions: m.questions,
        answer: if answers.len() == 0 {
            None
        } else {
            Some(answers)
        },
        authority: None,
        additional: None,
    }
}

pub trait HandlerT: Sized {
    /// Create a new datagram handler.
    fn new() -> Handler;

    /// Decode a datagram and remember where it came from. On success
    /// the handler holds the message and the questions are resolved
    /// next; on a decode failure the returned bytes carry a
    /// format-error response, and processing of the datagram ends.
    fn handle(&mut self, buf: &[u8], from: String) -> Option<Vec<u8>>;

    /// Build the response once every question has been taken through
    /// the resolution engine, whose per-question outcomes are handed
    /// in: on the first failed question the response carries its code
    /// and the remaining questions are not considered; on full success
    /// it carries the collected answers.
    fn resolve_questions(&mut self, results: &Vec<Result<DNSResourceFormat, ResponseCode>>) -> Vec<
        u8,
    >;

    /// The bytes of an error response for the datagram being handled.
    fn send_fail_response(&mut self, code: ResponseCode) -> Vec<u8>;
}

impl HandlerT for Handler {
    fn new() -> (r: Handler)
        ensures
            r.datagram.model() == (DnsModel {
                header: DNSHeader {
                    id: 0,
                    qr: Type::Query,
                    op_code: OpCode::Status,
                    authoritative: false,
                    truncated: false,
                    recursion_desired: false,
                    recursion_available: false,
                    error_code: ResponseCode::NoError,
                    question_count: 0,
                    answer_count: 0,
                    nameserver_count: 0,
                    resource_count: 0,
                },
                questions: None,
                answer: None,
                authority: None,
                additional: None,
            }),
            r.sent_from is None,
    {
        Handler { datagram: DNS::new(), sent_from: None }
    }

    fn handle(&mut self, buf: &[u8], from: String) -> (r: Option<Vec<u8>>)
        ensures
            final(self).sent_from == Some(from),
            match spec_parse_message(buf@) {
                Some(m) => r is None && final(self).datagram.model() == m,
                None => r is Some && r->Some_0@ == spec_message_bytes(
                    spec_fail_response(
                        salvaged_id(buf@),
                        salvaged_op(buf@),
                        ResponseCode::FormatError,
                    ),
                ),
            },
    {
        self.sent_from = Some(from);
        match parse_datagram(buf) {
            Ok(result) => {
                self.datagram = result;
                None
            },
            Err(_) => {
                let id: u16 = if buf.len() >= 2 {
                    crate::wire::convert_two_u8s_to_u16(buf[0], buf[1])
                } else {
                    0
                };
                let op: OpCode = if buf.len() >= 3 {
                    match OpCode::from_u8((buf[2] / 8) % 16) {
                        Some(op) => op,
                        None => OpCode::Query,
                    }
                } else {
                    OpCode::Query
                };
                self.datagram.header.id = id;
                self.datagram.header.op_code = op;
                Some(self.send_fail_response(ResponseCode::FormatError))
            },
        }
    }

    fn resolve_questions(&mut self, results: &Vec<Result<DNSResourceFormat, ResponseCode>>) -> (r:
        Vec<u8>)
        ensures
            match first_err(results@) {
                Some(code) => r@ == spec_message_bytes(
                    spec_fail_response(
                        old(self).datagram.header.id,
                        old(self).datagram.header.op_code,
                        code,
                    ),
                ),
                None => {
                    let resp = spec_success_response(
                        old(self).datagram.model(),
                        ok_answers(results@),
                    );
                    &&& (ok_answers(results@).len() <= 0xFFFF && msg_encodable(resp)) ==> r@
                        == spec_message_bytes(resp)
                    &&& !(ok_answers(results@).len() <= 0xFFFF && msg_encodable(resp)) ==> r@
                        == spec_message_bytes(
                        spec_fail_response(
                            old(self).datagram.header.id,
                            old(self).datagram.header.op_code,
                            ResponseCode::ServerFailure,
                        ),
                    )
                },
            },
    {
        let ghost outcomes = results@;
        let mut answers: Vec<DNSResourceFormat> = Vec::new();
        let mut i: usize = 0;
        proof {
            assert(outcomes.skip(0) =~= outcomes);
            assert(resource_models(answers@) + ok_answers(outcomes) =~= ok_answers(outcomes));
        }
        while i < results.len()
            invariant
                i <= results@.len(),
                outcomes == results@,
                first_err(outcomes) == first_err(outcomes.skip(i as int)),
                ok_answers(outcomes) == resource_models(answers@) + ok_answers(
                    outcomes.skip(i as int),
                ),
                self == old(self),
            decreases results@.len() - i,
        {
            proof {
                assert(outcomes.skip(i as int)[0] == outcomes[i as int]);
                assert(outcomes.skip(i as int).drop_first() =~= outcomes.skip(i + 1));
            }
            match &results[i] {
                Err(code) => {
                    return self.send_fail_response(*code);
                },
                Ok(rec) => {
                    let cloned = rec.clone();
                    proof {
                        assert(resource_models(answers@.push(cloned)) =~= resource_models(
                            answers@,
                        ).push(cloned.model()));
                        assert(resource_models(answers@) + (seq![outcomes[i as int]->Ok_0.model()]
                            + ok_answers(outcomes.skip(i + 1))) =~= (resource_models(
                            answers@,
                        ).push(cloned.model()) + ok_answers(outcomes.skip(i + 1))));
                    }
                    answers.push(cloned);
                },
            }
            i += 1;
        }
        proof {
            assert(outcomes.skip(outcomes.len() as int) =~= Seq::<
                Result<DNSResourceFormat, ResponseCode>,
            >::empty());
            assert(resource_models(answers@) + Seq::<ResourceModel>::empty() =~= resource_models(
                answers@,
            ));
        }
        if answers.len() > 0xFFFF {
            return self.send_fail_response(ResponseCode::ServerFailure);
        }
        let n = answers.len() as u16;
        let questions = match &self.datagram.questions {
            Some(v) => Some(clone_questions(v)),
            None => None,
        };
        let response = DNS {
            header: DNSHeader {
                id: self.datagram.header.id,
                qr: Type::Response,
                op_code: self.datagram.header.op_code,
                authoritative: false,
                truncated: false,
                recursion_desired: self.datagram.header.recursion_desired,
                recursion_available: false,
                error_code: ResponseCode::NoError,
                question_count: self.datagram.header.question_count,
                answer_count: n,
                nameserver_count: 0,
                resource_count: 0,
            },
            questions,
            answer: if answers.len() == 0 {
                None
            } else {
                Some(answers)
            },
            authority: None,
            additional: None,
        };
        proof {
            assert(response.model() =~= spec_success_response(
                old(self).datagram.model(),
                ok_answers(outcomes),
            ));
        }
        match datagram_bytes(response) {
            Ok(bytes) => bytes,
            Err(_) => self.send_fail_response(ResponseCode::ServerFailure),
        }
    }

    fn send_fail_response(&mut self, code: ResponseCode) -> (r: Vec<u8>)
        ensures
            *final(self) == *old(self),
            r@ == spec_message_bytes(
                spec_fail_response(
                    old(self).datagram.header.id,
                    old(self).datagram.header.op_code,
                    code,
                ),
            ),
    {
        let response_datagram = DNS {
            header: DNSHeader {
                id: self.datagram.header.id,
                qr: Type::Response,
                op_code: self.datagram.header.op_code,
                authoritative: false,
                truncated: false,
                recursion_desired: false,
                recursion_available: false,
                error_code: code,
                question_count: 0,
                answer_count: 0,
                nameserver_count: 0,
                resource_count: 0,
            },
            questions: None,
            answer: None,
            authority: None,
            additional: None,
        };
        let ghost target = spec_fail_response(
            self.datagram.header.id,
            self.datagram.header.op_code,
            code,
        );
        proof {
            assert(response_datagram.model() =~= target);
            assert(msg_encodable(target));
        }
        match datagram_bytes(response_datagram) {
            Ok(bytes) => bytes,
            Err(_) => Vec::new(),
        }
    }
}

/// A copy of a question vector, question for question.
fn clone_questions(v: &Vec<DNSQuestion>) -> (r: Vec<DNSQuestion>)
    ensures
        question_models(r@) == question_models(v@),
{
    let mut r: Vec<DNSQuestion> = Vec::new();
    let mut i: usize = 0;
    proof {
        assert(question_models(r@) =~= question_models(v@).subrange(0, 0));
    }
    while i < v.len()
        invariant
            i <= v@.len(),
            question_models(r@) == question_models(v@).subrange(0, i as int),
        decreases v@.len() - i,
    {
        let q = v[i].clone();
        proof {
            assert(question_models(r@.push(q)) =~= question_models(r@).push(q.model()));
            assert(question_models(v@).subrange(0, i + 1) =~= question_models(v@).subrange(
                0,
                i as int,
            ).push(question_models(v@)[i as int]));
        }
        r.push(q);
        i += 1;
    }
    proof {
        assert(question_models(v@).subrange(0, v@.len() as int) =~= question_models(v@));
    }
    r
}

} // verus!

//! The DNS message: a header followed by the question, answer,
//! authority and additional sections. The whole message is decoded
//! from and encoded to raw bytes here.

use vstd::prelude::*;
use crate::defs::{Type, OpCode, ResponseCode};
use crate::header::{DNSHeader, spec_header_bytes, spec_parse_header, lemma_header_roundtrip};
use crate::question::{
    DNSQuestion,
    QuestionModel,
    question_models,
    questions_wf,
    spec_questions_bytes,
    spec_parse_questions,
    lemma_questions_roundtrip,
};
use crate::resource::{
    DNSResourceFormat,
    ResourceModel,
    resource_models,
    resources_wf,
    spec_resources_bytes,
    spec_parse_resources,
    lemma_resources_roundtrip,
};
use crate::transport::TransportProto;

verus! {

/// A whole DNS message. Sections that are absent are `None`; a
/// truncated message carries no sections at all.
#[derive(Debug, PartialEq)]
pub struct DNS {
    pub header: DNSHeader,
    pub questions: Option<Vec<DNSQuestion>>,
    pub answer: Option<Vec<DNSResourceFormat>>,
    pub authority: Option<Vec<DNSResourceFormat>>,
    pub additional: Option<Vec<DNSResourceFormat>>,
}

/// The mathematical shape of a message.
#[verifier::ext_equal]
pub struct DnsModel {
    pub header: DNSHeader,
    pub questions: Option<Seq<QuestionModel>>,
    pub answer: Option<Seq<ResourceModel>>,
    pub authority: Option<Seq<ResourceModel>>,
    pub additional: Option<Seq<ResourceModel>>,
}

impl DNS {
    /// The message as its mathematical shape.
    pub open spec fn model(&self) -> DnsModel {
        DnsModel {
            header: self.header,
            questions: match self.questions {
                Some(v) => Some(question_models(v@)),
                None => None,
            },
            answer: match self.answer {
                Some(v) => Some(resource_models(v@)),
                None => None,
            },
            authority: match self.authority {
                Some(v) => Some(resource_models(v@)),
                None => None,
            },
            additional: match self.additional {
                Some(v) => Some(resource_models(v@)),
                None => None,
            },
        }
    }
}


/// A record section matches its header count the way decoding leaves
/// it: absent when the count is zero, and holding exactly that many
/// carryable records otherwise.
pub open spec fn section_matches(s: Option<Seq<ResourceModel>>, count: u16) -> bool {
    match s {
        None => count == 0,
        Some(rs) => count > 0 && rs.len() == count && resources_wf(rs),
    }
}

/// A record section that can be encoded under its header count: a
/// present section must hold exactly that many carryable records, an
/// absent one stands for a count of zero.
pub open spec fn section_encodable(s: Option<Seq<ResourceModel>>, count: u16) -> bool {
    match s {
        None => count == 0,
        Some(rs) => rs.len() == count && resources_wf(rs),
    }
}

/// A message whose counts and sections can be written to the wire:
/// when it is truncated only the header is written, and otherwise each
/// count must equal the length of its section, every question and
/// record being carryable.
pub open spec fn msg_encodable(m: DnsModel) -> bool {
    if m.header.truncated {
        true
    } else {
        &&& match m.questions {
            None => m.header.question_count == 0,
            Some(qs) => qs.len() == m.header.question_count && questions_wf(qs),
        }
        &&& section_encodable(m.answer, m.header.answer_count)
        &&& section_encodable(m.authority, m.header.nameserver_count)
        &&& section_encodable(m.additional, m.header.resource_count)
    }
}

/// A structurally valid message: encodable, and shaped exactly as
/// decoding shapes one — a truncated message carries no sections, and
/// otherwise the question section is present (possibly empty) while a
/// record section is present exactly when its count is positive.
pub open spec fn msg_wf(m: DnsModel) -> bool {
    if m.header.truncated {
        &&& m.questions is None
        &&& m.answer is None
        &&& m.authority is None
        &&& m.additional is None
    } else {
        &&& m.questions is Some
        &&& m.questions->Some_0.len() == m.header.question_count
        &&& questions_wf(m.questions->Some_0)
        &&& section_matches(m.answer, m.header.answer_count)
        &&& section_matches(m.authority, m.header.nameserver_count)
        &&& section_matches(m.additional, m.header.resource_count)
    }
}

/// The bytes of a question section, an absent one writing nothing.
pub open spec fn opt_questions_bytes(o: Option<Seq<QuestionModel>>) -> Seq<u8> {
    match o {
        Some(qs) => spec_questions_bytes(qs),
        None => Seq::empty(),
    }
}

/// The bytes of a record section, an absent one writing nothing.
pub open spec fn opt_resources_bytes(o: Option<Seq<ResourceModel>>) -> Seq<u8> {
    match o {
        Some(rs) => spec_resources_bytes(rs),
        None => Seq::empty(),
    }
}

/// The encoding of a whole message: the header, then — unless the
/// message is truncated — the question, answer, authority and
/// additional sections in order.
pub open spec fn spec_message_bytes(m: DnsModel) -> Seq<u8> {
    spec_header_bytes(m.header) + if m.header.truncated {
        Seq::empty()
    } else {
        opt_questions_bytes(m.questions) + opt_resources_bytes(m.answer) + opt_resources_bytes(
            m.authority,
        ) + opt_resources_bytes(m.additional)
    }
}

/// What decoding a whole message yields: the header, then — unless the
/// truncated flag is set, in which case no section is read — as many
/// questions as the question count says, and each record section read
/// exactly when its count is positive. Bytes past the last section are
/// ignored.
pub open spec fn spec_parse_message(buf: Seq<u8>) -> Option<DnsModel> {
    match spec_parse_header(buf) {
        None => None,
        Some(h) => if h.truncated {
            Some(DnsModel { header: h, questions: None, answer: None, authority: None, additional: None })
        } else {
            match spec_parse_questions(buf, 12, h.question_count as int) {
                None => None,
                Some((qs, p1)) => match spec_parse_section(buf, p1, h.answer_count) {
                    None => None,
                    Some((ans, p2)) => match spec_parse_section(buf, p2, h.nameserver_count) {
                        None => None,
                        Some((auth, p3)) => match spec_parse_section(buf, p3, h.resource_count) {
                            None => None,
                            Some((add, _)) => Some(
                                DnsModel {
                                    header: h,
                                    questions: Some(qs),
                                    answer: ans,
                                    authority: auth,
                                    additional: add,
                                },
                            ),
                        },
                    },
                },
            }
        },
    }
}

/// What decoding one record section yields: nothing is read when the
/// count is zero and the section stays absent.
pub open spec fn spec_parse_section(buf: Seq<u8>, pos: int, count: u16) -> Option<
    (Option<Seq<ResourceModel>>, int),
> {
    if count == 0 {
        Some((None, pos))
    } else {
        match spec_parse_resources(buf, pos, count as int) {
            None => None,
            Some((rs, end)) => Some((Some(rs), end)),
        }
    }
}

/// Create a DNS message from raw bytes. Any malformed input — a
/// buffer cut short mid-header, mid-question or mid-record, a bad
/// name, or an unmapped wire code — is rejected as a format error;
/// no input, however adversarial, panics or loops.
pub fn parse_datagram(bytes: &[u8]) -> (r: Result<DNS, ResponseCode>)
    ensures
        match spec_parse_message(bytes@) {
            Some(m) => r is Ok && r->Ok_0.model() == m,
            None => r == Err::<DNS, ResponseCode>(ResponseCode::FormatError),
        },
{
    let header = match DNSHeader::try_from(bytes) {
        Ok(h) => h,
        Err(code) => {
            return Err(code);
        },
    };
    if header.truncated {
        let r = DNS { header, questions: None, answer: None, authority: None, additional: None };
        proof {
            assert(r.model() =~= spec_parse_message(bytes@)->Some_0);
        }
        return Ok(r);
    }
    let (questions, p1) = match DNSQuestion::try_from(bytes, 12, header.question_count) {
        Ok(v) => v,
        Err(code) => {
            return Err(code);
        },
    };
    let (answer, p2) = match parse_section(bytes, p1, header.answer_count) {
        Ok(v) => v,
        Err(code) => {
            return Err(code);
        },
    };
    let (authority, p3) = match parse_section(bytes, p2, header.nameserver_count) {
        Ok(v) => v,
        Err(code) => {
            return Err(code);
        },
    };
    let (additional, _) = match parse_section(bytes, p3, header.resource_count) {
        Ok(v) => v,
        Err(code) => {
            return Err(code);
        },
    };
    let r = DNS { header, questions: Some(questions), answer, authority, additional };
    proof {
        assert(r.model() =~= spec_parse_message(bytes@)->Some_0);
    }
    Ok(r)
}

/// Decode one record section at `pos` under its header count; a count
/// of zero reads nothing and leaves the section absent.
fn parse_section(bytes: &[u8], pos: usize, count: u16) -> (r: Result<
    (Option<Vec<DNSResourceFormat>>, usize),
    ResponseCode,
>)
    ensures
        match spec_parse_section(bytes@, pos as int, count) {
            Some((s, end)) => {
                &&& r is Ok
                &&& (match (r->Ok_0.0, s) {
                    (Some(v), Some(rs)) => resource_models(v@) == rs,
                    (None, None) => true,
                    _ => false,
                })
                &&& r->Ok_0.1 == end
            },
            None => r == Err::<(Option<Vec<DNSResourceFormat>>, usize), ResponseCode>(
                ResponseCode::FormatError,
            ),
        },
{
    if count == 0 {
        return Ok((None, pos));
    }
    match crate::resource::section_from(bytes, pos, count) {
        Ok((records, end)) => Ok((Some(records), end)),
        Err(code) => Err(code),
    }
}

/// Convert a DNS message into raw bytes. A message whose counts do not
/// match its sections, or that holds a question or record the wire
/// format cannot carry, is rejected.
pub fn datagram_bytes(datagram: DNS) -> (r: Result<Vec<u8>, ResponseCode>)
    ensures
        msg_encodable(datagram.model()) ==> r is Ok && r->Ok_0@ == spec_message_bytes(
            datagram.model(),
        ),
        !msg_encodable(datagram.model()) ==> r == Err::<Vec<u8>, ResponseCode>(
            ResponseCode::FormatError,
        ),
{
    let mut bytes: Vec<u8> = Vec::new();
    DNSHeader::bytes(&mut bytes, &datagram);
    if datagram.header.truncated {
        proof {
            assert(bytes@ =~= spec_message_bytes(datagram.model()));
        }
        return Ok(bytes);
    }
    match &datagram.questions {
        None => if datagram.header.question_count != 0 {
            return Err(ResponseCode::FormatError);
        },
        Some(qs) => if qs.len() != datagram.header.question_count as usize {
            return Err(ResponseCode::FormatError);
        },
    }
    match DNSQuestion::bytes(&mut bytes, &datagram) {
        Ok(()) => {},
        Err(code) => {
            return Err(code);
        },
    }
    match write_section(&mut bytes, &datagram.answer, datagram.header.answer_count) {
        Ok(()) => {},
        Err(code) => {
            return Err(code);
        },
    }
    match write_section(&mut bytes, &datagram.authority, datagram.header.nameserver_count) {
        Ok(()) => {},
        Err(code) => {
            return Err(code);
        },
    }
    match write_section(&mut bytes, &datagram.additional, datagram.header.resource_count) {
        Ok(()) => {},
        Err(code) => {
            return Err(code);
        },
    }
    proof {
        assert(bytes@ =~= spec_message_bytes(datagram.model()));
    }
    Ok(bytes)
}

/// Append one record section under its header count; the count must
/// equal the number of records, an absent section standing for zero.
fn write_section(bytes: &mut Vec<u8>, section: &Option<Vec<DNSResourceFormat>>, count: u16) -> (r:
    Result<(), ResponseCode>)
    ensures
        ({
            let s = match *section {
                Some(v) => Some(resource_models(v@)),
                None => None::<Seq<ResourceModel>>,
            };
            &&& section_encodable(s, count) ==> r is Ok && final(bytes)@ == old(bytes)@
                + opt_resources_bytes(s)
            &&& !section_encodable(s, count) ==> r == Err::<(), ResponseCode>(
                ResponseCode::FormatError,
            )
        }),
{
    match section {
        None => {
            if count != 0 {
                return Err(ResponseCode::FormatError);
            }
            proof {
                assert(old(bytes)@ + Seq::<u8>::empty() =~= old(bytes)@);
            }
            Ok(())
        },
        Some(records) => {
            if records.len() != count as usize {
                return Err(ResponseCode::FormatError);
            }
            crate::resource::section_bytes(bytes, records)
        },
    }
}

impl DNS {
    /// A fresh, empty message: a query with no sections.
    pub fn new() -> (r: DNS)
        ensures
            r.model() == (DnsModel {
                header: DNSHeader {
                    id: 0,
                    qr: Type::Query,
                    op_code: OpCode::Status,
                    authoritative: false,
                    truncated: false,
                    recursion_desired: false,
                    recursion_available: false,
                    error_code: ResponseCode::NoError,
                    question_count: 0,
                    answer_count: 0,
                    nameserver_count: 0,
                    resource_count: 0,
                },
                questions: None,
                answer: None,
                authority: None,
                additional: None,
            }),
    {
        let r = DNS {
            header: DNSHeader {
                id: 0,
                qr: Type::Query,
                op_code: OpCode::Status,
                authoritative: false,
                truncated: false,
                recursion_desired: false,
                recursion_available: false,
                error_code: ResponseCode::NoError,
                question_count: 0,
                answer_count: 0,
                nameserver_count: 0,
                resource_count: 0,
            },
            questions: None,
            answer: None,
            authority: None,
            additional: None,
        };
        proof {
            assert(r.model() =~= DnsModel {
                header: r.header,
                questions: None,
                answer: None,
                authority: None,
                additional: None,
            });
        }
        r
    }

    /// Parse raw bytes into a DNS message. Bytes received over TCP
    /// carry a two-byte length prefix first; the message follows it.
    pub fn from(bytes: &[u8], proto: TransportProto) -> (r: Result<DNS, ResponseCode>)
        ensures
            proto == TransportProto::UDP ==> match spec_parse_message(bytes@) {
                Some(m) => r is Ok && r->Ok_0.model() == m,
                None => r == Err::<DNS, ResponseCode>(ResponseCode::FormatError),
            },
            proto == TransportProto::TCP && bytes@.len() < 2 ==> r == Err::<DNS, ResponseCode>(
                ResponseCode::FormatError,
            ),
            proto == TransportProto::TCP && bytes@.len() >= 2 ==> match spec_parse_message(
                bytes@.skip(2),
            ) {
                Some(m) => r is Ok && r->Ok_0.model() == m,
                None => r == Err::<DNS, ResponseCode>(ResponseCode::FormatError),
            },
    {
        match proto {
            TransportProto::UDP => parse_datagram(bytes),
            TransportProto::TCP => {
                if bytes.len() < 2 {
                    return Err(ResponseCode::FormatError);
                }
                let rest: &[u8] = &bytes[2..bytes.len()];
                proof {
                    assert(rest@ =~= bytes@.skip(2));
                }
                parse_datagram(rest)
            },
        }
    }

    /// Convert the message into bytes.
    pub fn bytes(self) -> (r: Result<Vec<u8>, ResponseCode>)
        ensures
            msg_encodable(self.model()) ==> r is Ok && r->Ok_0@ == spec_message_bytes(
                self.model(),
            ),
            !msg_encodable(self.model()) ==> r == Err::<Vec<u8>, ResponseCode>(
                ResponseCode::FormatError,
            ),
    {
        datagram_bytes(self)
    }
}

pub trait Construct {
    /// Create a new DNS message with default values.
    fn new() -> (r: DNS)
        ensures
            r.model() == (DnsModel {
                header: DNSHeader {
                    id: 0,
                    qr: Type::Query,
                    op_code: OpCode::Status,
                    authoritative: false,
                    truncated: false,
                    recursion_desired: false,
                    recursion_available: false,
                    error_code: ResponseCode::NoError,
                    question_count: 0,
                    answer_count: 0,
                    nameserver_count: 0,
                    resource_count: 0,
                },
                questions: None,
                answer: None,
                authority: None,
                additional: None,
            }),
    ;

    /// Parse raw bytes into a DNS message, as received unframed over
    /// UDP. Returns the message, or the error code an invalid response
    /// will carry.
    fn from(bytes: &[u8]) -> (r: Result<DNS, ResponseCode>)
        ensures
            match spec_parse_message(bytes@) {
                Some(m) => r is Ok && r->Ok_0.model() == m,
                None => r == Err::<DNS, ResponseCode>(ResponseCode::FormatError),
            },
    ;

    /// Convert the message into bytes.
    fn bytes(self) -> Result<Vec<u8>, ResponseCode>;
}

impl Construct for DNS {
    fn new() -> DNS {
        DNS::new()
    }

    fn from(bytes: &[u8]) -> Result<DNS, ResponseCode> {
        parse_datagram(bytes)
    }

    fn bytes(self) -> Result<Vec<u8>, ResponseCode> {
        datagram_bytes(self)
    }
}

/// Decoding the encoding of any structurally valid message gives back
/// exactly that message: every header field, every question and every
/// record of every section.
/// The sections of an encoded untruncated message lie at their
/// offsets.
#[verifier::rlimit(100)]
proof fn lemma_msg_bytes_slices(m: DnsModel)
    requires
        !m.header.truncated,
        m.questions is Some,
    ensures
        ({
            let buf = spec_message_bytes(m);
            let qb = spec_questions_bytes(m.questions->Some_0);
            let ab = opt_resources_bytes(m.answer);
            let ub = opt_resources_bytes(m.authority);
            let db = opt_resources_bytes(m.additional);
            let p1 = 12 + qb.len() as int;
            let p2 = p1 + ab.len() as int;
            let p3 = p2 + ub.len() as int;
            &&& buf.len() == p3 + db.len()
            &&& buf.subrange(0, 12) == spec_header_bytes(m.header)
            &&& buf.subrange(12, p1) == qb
            &&& buf.subrange(p1, p2) == ab
            &&& buf.subrange(p2, p3) == ub
            &&& buf.subrange(p3, p3 + db.len() as int) == db
        }),
{
    let buf = spec_message_bytes(m);
    let hb = spec_header_bytes(m.header);
    let qb = spec_questions_bytes(m.questions->Some_0);
    let ab = opt_resources_bytes(m.answer);
    let ub = opt_resources_bytes(m.authority);
    let db = opt_resources_bytes(m.additional);
    let p1 = 12 + qb.len() as int;
    let p2 = p1 + ab.len() as int;
    let p3 = p2 + ub.len() as int;
    let tail = qb + ab + ub + db;
    assert(buf == hb + tail);
    assert(hb.len() == 12);
    assert(buf.subrange(0, 12) =~= hb) by {
        assert forall|j: int| 0 <= j < 12 implies buf.subrange(0, 12)[j] == hb[j] by {
            assert(buf[j] == (hb + tail)[j]);
        }
    }
    assert(buf.subrange(12, p1) =~= qb) by {
        assert forall|j: int| 0 <= j < qb.len() implies buf.subrange(12, p1)[j] == qb[j] by {
            assert(buf.subrange(12, p1)[j] == buf[12 + j]);
            assert(buf[12 + j] == tail[j]);
            assert(tail[j] == qb[j]);
        }
    }
    assert(buf.subrange(p1, p2) =~= ab) by {
        assert forall|j: int| 0 <= j < ab.len() implies buf.subrange(p1, p2)[j] == ab[j] by {
            assert(buf.subrange(p1, p2)[j] == buf[p1 + j]);
            assert(buf[p1 + j] == tail[qb.len() + j]);
            assert(tail[qb.len() + j] == ab[j]);
        }
    }
    assert(buf.subrange(p2, p3) =~= ub) by {
        assert forall|j: int| 0 <= j < ub.len() implies buf.subrange(p2, p3)[j] == ub[j] by {
            assert(buf.subrange(p2, p3)[j] == buf[p2 + j]);
            assert(buf[p2 + j] == tail[qb.len() + ab.len() + j]);
            assert(tail[qb.len() + ab.len() + j] == ub[j]);
        }
    }
    assert(buf.subrange(p3, p3 + db.len() as int) =~= db) by {
        assert forall|j: int| 0 <= j < db.len() implies buf.subrange(
            p3,
            p3 + db.len() as int,
        )[j] == db[j] by {
            assert(buf.subrange(p3, p3 + db.len() as int)[j] == buf[p3 + j]);
            assert(buf[p3 + j] == tail[qb.len() + ab.len() + ub.len() + j]);
            assert(tail[qb.len() + ab.len() + ub.len() + j] == db[j]);
        }
    }
}

/// Decoding the encoding of any structurally valid message gives back
/// exactly that message: every header field, every question and every
/// record of every section.
#[verifier::rlimit(100)]
pub proof fn lemma_message_roundtrip(m: DnsModel)
    requires
        msg_wf(m),
    ensures
        spec_parse_message(spec_message_bytes(m)) == Some(m),
{
    let buf = spec_message_bytes(m);
    let hb = spec_header_bytes(m.header);
    if m.header.truncated {
        assert(buf.subrange(0, 12) =~= hb);
        lemma_header_roundtrip(m.header, buf);
        assert(spec_parse_message(buf)->Some_0 =~= m);
    } else {
        let qs = m.questions->Some_0;
        let qb = spec_questions_bytes(qs);
        let ab = opt_resources_bytes(m.answer);
        let ub = opt_resources_bytes(m.authority);
        let db = opt_resources_bytes(m.additional);
        let p1 = 12 + qb.len() as int;
        let p2 = p1 + ab.len() as int;
        let p3 = p2 + ub.len() as int;
        lemma_msg_bytes_slices(m);
        lemma_header_roundtrip(m.header, buf);
        lemma_questions_roundtrip(qs, buf, 12);
        assert(spec_parse_questions(buf, 12, m.header.question_count as int) == Some((qs, p1)));
        lemma_section_roundtrip(m.answer, m.header.answer_count, buf, p1);
        lemma_section_roundtrip(m.authority, m.header.nameserver_count, buf, p2);
        lemma_section_roundtrip(m.additional, m.header.resource_count, buf, p3);
        assert(spec_parse_message(buf)->Some_0 =~= m);
    }
}

/// Decoding an encoded record section under its matching count yields
/// it back.
proof fn lemma_section_roundtrip(s: Option<Seq<ResourceModel>>, count: u16, buf: Seq<u8>, pos: int)
    requires
        section_matches(s, count),
        0 <= pos,
        pos + opt_resources_bytes(s).len() <= buf.len(),
        buf.subrange(pos, pos + opt_resources_bytes(s).len()) == opt_resources_bytes(s),
    ensures
        spec_parse_section(buf, pos, count) == Some((s, pos + opt_resources_bytes(s).len())),
{
    match s {
        None => {},
        Some(rs) => {
            lemma_resources_roundtrip(rs, buf, pos);
        },
    }
}

} // verus!

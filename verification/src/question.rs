//! The question section: each entry is a name in label form followed
//! by a 16-bit record type and a 16-bit class.

use vstd::prelude::*;
use crate::defs::{QuestionType, QuestionClass, ResponseCode};
use crate::dns::DNS;
use crate::fqdn::{FQDN, FqdnModel, fqdn_from_labels};
use crate::name::{
    MAX_POINTER_HOPS,
    name_wf,
    resolve,
    spec_name_bytes,
    spec_parse_name,
    write_name,
};
use crate::strutil::views_of;
use crate::wire::{u16_hi, u16_lo, be16};

verus! {

/// One entry of the question section.
#[derive(Debug, PartialEq)]
pub struct DNSQuestion {
    pub name: FQDN,
    pub qtype: QuestionType,
    pub class: QuestionClass,
}

impl Clone for DNSQuestion {
    fn clone(&self) -> (r: DNSQuestion)
        ensures
            r.model() == self.model(),
    {
        let r = DNSQuestion { name: self.name.clone(), qtype: self.qtype, class: self.class };
        proof {
            assert(r.model() =~= self.model());
        }
        r
    }
}

/// The mathematical shape of a question.
#[verifier::ext_equal]
pub struct QuestionModel {
    pub name: FqdnModel,
    pub qtype: QuestionType,
    pub class: QuestionClass,
}

impl DNSQuestion {
    /// The question as its mathematical shape.
    pub open spec fn model(&self) -> QuestionModel {
        QuestionModel { name: self.name.model(), qtype: self.qtype, class: self.class }
    }
}

/// The shape of each question in a sequence, in order.
pub open spec fn question_models(qs: Seq<DNSQuestion>) -> Seq<QuestionModel> {
    qs.map(|i: int, q: DNSQuestion| q.model())
}

/// A question the wire format can carry: labels of valid width whose
/// whole encoding stays within 255 octets.
pub open spec fn question_wf(q: QuestionModel) -> bool {
    name_wf(q.name.labels())
}

/// Every question of a section can be carried.
pub open spec fn questions_wf(qs: Seq<QuestionModel>) -> bool {
    forall|i: int| 0 <= i < qs.len() ==> question_wf(#[trigger] qs[i])
}

/// The encoding of one question: the name in label form, then the type
/// and class codes big-endian.
pub open spec fn spec_question_bytes(q: QuestionModel) -> Seq<u8> {
    spec_name_bytes(q.name.labels()) + seq![
        u16_hi(q.qtype.spec_code()),
        u16_lo(q.qtype.spec_code()),
        u16_hi(q.class.spec_code()),
        u16_lo(q.class.spec_code()),
    ]
}

/// The encoding of a question section, in order.
pub open spec fn spec_questions_bytes(qs: Seq<QuestionModel>) -> Seq<u8>
    decreases qs.len(),
{
    if qs.len() == 0 {
        Seq::empty()
    } else {
        spec_question_bytes(qs[0]) + spec_questions_bytes(qs.drop_first())
    }
}

/// What decoding one question at `pos` yields: a name of two or three
/// labels, then a known record type and class. Any other shape is
/// rejected.
pub open spec fn spec_parse_question(buf: Seq<u8>, pos: int) -> Option<(QuestionModel, int)> {
    match spec_parse_name(buf, pos, MAX_POINTER_HOPS as int) {
        None => None,
        Some((ls, p)) => if ls.len() != 2 && ls.len() != 3 {
            None
        } else if p + 4 > buf.len() {
            None
        } else {
            match QuestionType::spec_from_u16(be16(buf[p], buf[p + 1])) {
                None => None,
                Some(qt) => match QuestionClass::spec_from_u16(be16(buf[p + 2], buf[p + 3])) {
                    None => None,
                    Some(qc) => Some(
                        (QuestionModel { name: fqdn_from_labels(ls), qtype: qt, class: qc }, p
                            + 4),
                    ),
                },
            }
        },
    }
}

/// What decoding `n` questions in a row yields, with the position just
/// past the last.
pub open spec fn spec_parse_questions(buf: Seq<u8>, pos: int, n: int) -> Option<
    (Seq<QuestionModel>, int),
>
    decreases n,
{
    if n <= 0 {
        Some((Seq::empty(), pos))
    } else {
        match spec_parse_question(buf, pos) {
            None => None,
            Some((q, p)) => match spec_parse_questions(buf, p, n - 1) {
                None => None,
                Some((qs, end)) => Some((seq![q] + qs, end)),
            },
        }
    }
}

/// Decode one question at `pos`.
pub fn parse_question(bytes: &[u8], pos: usize) -> (r: Result<(DNSQuestion, usize), ResponseCode>)
    ensures
        match spec_parse_question(bytes@, pos as int) {
            Some((q, end)) => {
                &&& r is Ok
                &&& r->Ok_0.0.model() == q
                &&& r->Ok_0.1 == end
            },
            None => r == Err::<(DNSQuestion, usize), ResponseCode>(ResponseCode::FormatError),
        },
{
    let (labels, p) = match resolve(bytes, pos) {
        Ok(v) => v,
        Err(code) => {
            return Err(code);
        },
    };
    if labels.len() != 2 && labels.len() != 3 {
        return Err(ResponseCode::FormatError);
    }
    if p >= bytes.len() || bytes.len() - p < 4 {
        return Err(ResponseCode::FormatError);
    }
    let qt = match QuestionType::from_u16(
        crate::wire::convert_two_u8s_to_u16(bytes[p], bytes[p + 1]),
    ) {
        Some(qt) => qt,
        None => {
            return Err(ResponseCode::FormatError);
        },
    };
    let qc = match QuestionClass::from_u16(
        crate::wire::convert_two_u8s_to_u16(bytes[p + 2], bytes[p + 3]),
    ) {
        Some(qc) => qc,
        None => {
            return Err(ResponseCode::FormatError);
        },
    };
    let name = if labels.len() == 2 {
        FQDN { subdomain: None, domain_name: labels[0].clone(), tld: labels[1].clone() }
    } else {
        FQDN {
            subdomain: Some(labels[0].clone()),
            domain_name: labels[1].clone(),
            tld: labels[2].clone(),
        }
    };
    let q = DNSQuestion { name, qtype: qt, class: qc };
    proof {
        let ls = spec_parse_name(bytes@, pos as int, MAX_POINTER_HOPS as int)->Some_0.0;
        assert(views_of(labels@) == ls);
        assert(views_of(labels@)[0] == labels@[0]@);
        assert(q.name.model() =~= fqdn_from_labels(ls));
        assert(q.model() =~= spec_parse_question(bytes@, pos as int)->Some_0.0);
    }
    Ok((q, p + 4))
}

impl DNSQuestion {
    /// Decode `count` questions starting at `pos`; returns them with
    /// the position just past the last. Any malformed entry rejects the
    /// whole section.
    pub fn try_from(bytes: &[u8], pos: usize, count: u16) -> (r: Result<
        (Vec<DNSQuestion>, usize),
        ResponseCode,
    >)
        ensures
            match spec_parse_questions(bytes@, pos as int, count as int) {
                Some((qs, end)) => {
                    &&& r is Ok
                    &&& question_models(r->Ok_0.0@) == qs
                    &&& r->Ok_0.1 == end
                },
                None => r == Err::<(Vec<DNSQuestion>, usize), ResponseCode>(
                    ResponseCode::FormatError,
                ),
            },
    {
        let ghost full = spec_parse_questions(bytes@, pos as int, count as int);
        let mut questions: Vec<DNSQuestion> = Vec::new();
        let mut cur: usize = pos;
        let mut i: u16 = 0;
        proof {
            assert(question_models(questions@) =~= Seq::<QuestionModel>::empty());
        }
        while i < count
            invariant
                i <= count,
                full == spec_parse_questions(bytes@, pos as int, count as int),
                full == match spec_parse_questions(bytes@, cur as int, count - i) {
                    Some((qs, end)) => Some((question_models(questions@) + qs, end)),
                    None => None::<(Seq<QuestionModel>, int)>,
                },
            decreases count - i,
        {
            match parse_question(bytes, cur) {
                Ok((q, p)) => {
                    proof {
                        let step = spec_parse_question(bytes@, cur as int)->Some_0;
                        let tail = spec_parse_questions(bytes@, step.1, count - i - 1);
                        if tail is Some {
                            let (qs, end) = tail->Some_0;
                            assert(question_models(questions@.push(q)) =~= question_models(
                                questions@,
                            ).push(q.model()));
                            assert(question_models(questions@) + (seq![step.0] + qs)
                                =~= question_models(questions@).push(q.model()) + qs);
                        }
                    }
                    questions.push(q);
                    cur = p;
                    i += 1;
                },
                Err(code) => {
                    return Err(code);
                },
            }
        }
        proof {
            assert(question_models(questions@) + Seq::<QuestionModel>::empty()
                =~= question_models(questions@));
        }
        Ok((questions, cur))
    }

    /// Append the encoding of every question of a message to a byte
    /// buffer, in order. A question whose name the wire format cannot
    /// carry is rejected.
    #[verifier::rlimit(50)]
    pub fn bytes(bytes: &mut Vec<u8>, datagram: &DNS) -> (r: Result<(), ResponseCode>)
        ensures
            ({
                let qs = match datagram.questions {
                    Some(v) => question_models(v@),
                    None => Seq::empty(),
                };
                &&& questions_wf(qs) ==> r is Ok && final(bytes)@ == old(bytes)@
                    + spec_questions_bytes(qs)
                &&& !questions_wf(qs) ==> r == Err::<(), ResponseCode>(ResponseCode::FormatError)
            }),
    {
        let qs = match &datagram.questions {
            Some(v) => v,
            None => {
                proof {
                    assert(old(bytes)@ + Seq::<u8>::empty() =~= old(bytes)@);
                }
                return Ok(());
            },
        };
        let ghost models = question_models(qs@);
        let mut i: usize = 0;
        proof {
            assert(models.skip(0) =~= models);
        }
        while i < qs.len()
            invariant
                i <= qs@.len(),
                models == question_models(qs@),
                models == (match datagram.questions {
                    Some(v) => question_models(v@),
                    None => Seq::<QuestionModel>::empty(),
                }),
                forall|t: int| 0 <= t < i ==> question_wf(#[trigger] models[t]),
                old(bytes)@ + spec_questions_bytes(models) == bytes@ + spec_questions_bytes(
                    models.skip(i as int),
                ),
            decreases qs@.len() - i,
        {
            let q = &qs[i];
            let labels = q.name.split();
            let ghost before = bytes@;
            match write_name(bytes, &labels) {
                Ok(()) => {},
                Err(code) => {
                    proof {
                        assert(models[i as int] == q.model());
                        assert(q.model().name.labels() == views_of(labels@));
                        assert(!question_wf(models[i as int]));
                        assert(!questions_wf(models));
                    }
                    return Err(code);
                },
            }
            let qt = q.qtype.code();
            bytes.push((qt / 256) as u8);
            bytes.push((qt % 256) as u8);
            let qc = q.class.code();
            bytes.push((qc / 256) as u8);
            bytes.push((qc % 256) as u8);
            proof {
                assert(models[i as int] == q.model());
                assert(q.model().name.labels() == views_of(labels@));
                assert(bytes@ =~= before + spec_question_bytes(models[i as int]));
                assert(models.skip(i as int).drop_first() =~= models.skip(i + 1));
                assert(spec_questions_bytes(models.skip(i as int)) == spec_question_bytes(
                    models.skip(i as int)[0],
                ) + spec_questions_bytes(models.skip(i + 1)));
                assert(models.skip(i as int)[0] == models[i as int]);
                assert((bytes@ + spec_questions_bytes(models.skip(i + 1))) =~= (before
                    + (spec_question_bytes(models[i as int]) + spec_questions_bytes(
                    models.skip(i + 1),
                ))));
                assert((before + spec_questions_bytes(models.skip(i as int))) =~= (before
                    + (spec_question_bytes(models[i as int]) + spec_questions_bytes(
                    models.skip(i + 1),
                ))));
            }
            i += 1;
        }
        proof {
            assert(models.skip(models.len() as int) =~= Seq::<QuestionModel>::empty());
            assert(bytes@ + Seq::<u8>::empty() =~= bytes@);
        }
        Ok(())
    }
}

/// Decoding an encoded question from any position of any buffer that
/// carries it yields exactly that question.
pub proof fn lemma_question_roundtrip(q: QuestionModel, buf: Seq<u8>, pos: int)
    requires
        question_wf(q),
        0 <= pos,
        pos + spec_question_bytes(q).len() <= buf.len(),
        buf.subrange(pos, pos + spec_question_bytes(q).len()) == spec_question_bytes(q),
    ensures
        spec_parse_question(buf, pos) == Some((q, pos + spec_question_bytes(q).len())),
{
    let enc = spec_question_bytes(q);
    let labels = q.name.labels();
    let nb = spec_name_bytes(labels);
    assert forall|j: int| 0 <= j < enc.len() implies buf[pos + j] == enc[j] by {
        assert(buf.subrange(pos, pos + enc.len())[j] == buf[pos + j]);
    }
    assert(buf.subrange(pos, pos + nb.len()) =~= nb) by {
        assert forall|j: int| 0 <= j < nb.len() implies buf.subrange(pos, pos + nb.len())[j]
            == nb[j] by {
            assert(buf[pos + j] == enc[j]);
            assert(enc[j] == nb[j]);
        }
    }
    crate::name::lemma_name_roundtrip(labels, buf, pos, MAX_POINTER_HOPS as int);
    let p = pos + nb.len();
    assert(buf[p] == enc[nb.len() as int]);
    assert(buf[p + 1] == enc[nb.len() as int + 1]);
    assert(buf[p + 2] == enc[nb.len() as int + 2]);
    assert(buf[p + 3] == enc[nb.len() as int + 3]);
    crate::wire::lemma_be16_of_split(q.qtype.spec_code());
    crate::wire::lemma_be16_of_split(q.class.spec_code());
    crate::defs::lemma_qtype_code_injective(q.qtype);
    crate::defs::lemma_qclass_code_injective(q.class);
    crate::fqdn::lemma_fqdn_own_labels(q.name);
    assert(labels.len() == 2 || labels.len() == 3);
    let parsed = spec_parse_question(buf, pos)->Some_0;
    assert(parsed.0 =~= q);
}

/// Decoding an encoded question section from any position of any
/// buffer that carries it yields exactly the questions that were
/// encoded, in order.
pub proof fn lemma_questions_roundtrip(qs: Seq<QuestionModel>, buf: Seq<u8>, pos: int)
    requires
        questions_wf(qs),
        0 <= pos,
        pos + spec_questions_bytes(qs).len() <= buf.len(),
        buf.subrange(pos, pos + spec_questions_bytes(qs).len()) == spec_questions_bytes(qs),
    ensures
        spec_parse_questions(buf, pos, qs.len() as int) == Some(
            (qs, pos + spec_questions_bytes(qs).len()),
        ),
    decreases qs.len(),
{
    if qs.len() == 0 {
        assert(spec_parse_questions(buf, pos, 0) == Some((Seq::<QuestionModel>::empty(), pos)));
        assert(qs =~= Seq::<QuestionModel>::empty());
    } else {
        let enc = spec_questions_bytes(qs);
        let e0 = spec_question_bytes(qs[0]);
        let rest = qs.drop_first();
        let rest_enc = spec_questions_bytes(rest);
        assert(enc == e0 + rest_enc);
        assert forall|j: int| 0 <= j < enc.len() implies buf[pos + j] == enc[j] by {
            assert(buf.subrange(pos, pos + enc.len())[j] == buf[pos + j]);
        }
        assert(buf.subrange(pos, pos + e0.len()) =~= e0) by {
            assert forall|j: int| 0 <= j < e0.len() implies buf.subrange(pos, pos + e0.len())[j]
                == e0[j] by {
                assert(buf[pos + j] == enc[j]);
                assert(enc[j] == e0[j]);
            }
        }
        lemma_question_roundtrip(qs[0], buf, pos);
        let p = pos + e0.len();
        assert(buf.subrange(p, p + rest_enc.len()) =~= rest_enc) by {
            assert forall|j: int| 0 <= j < rest_enc.len() implies buf.subrange(
                p,
                p + rest_enc.len(),
            )[j] == rest_enc[j] by {
                assert(buf.subrange(p, p + rest_enc.len())[j] == buf[p + j]);
                assert(buf[p + j] == enc[e0.len() + j]);
                assert(enc[e0.len() + j] == rest_enc[j]);
            }
        }
        lemma_questions_roundtrip(rest, buf, p);
        assert(seq![qs[0]] + rest =~= qs);
    }
}

} // verus!

//! The resolution engine: per-question syntax validation, the
//! existence check against the Directory Service, and the bounded
//! referral walk from a root server towards an authoritative answer.
//! The engine is a state machine over plain values; the Directory
//! Service lookup and the sockets are driven by the caller, who hands
//! each outcome back in.

use vstd::prelude::*;
use crate::defs::{QuestionType, QuestionClass, Type, OpCode, ResponseCode};
use crate::dns::{DNS, DnsModel};
use crate::fqdn::{is_valid_fqdn, is_valid_label, is_valid_tld, is_label_char, is_alpha_char};
use crate::header::DNSHeader;
use crate::question::{DNSQuestion, QuestionModel};
use crate::resource::{DNSResourceFormat, ResourceModel, resource_models};
use crate::strutil::{spec_split, split_char, push_char, views_of};

verus! {

/// The transaction id the engine stamps on the queries of its referral
/// walk.
pub const ROOT_QUERY_ID: u16 = 10039;

/// How many referrals the walk follows before giving up.
pub const MAX_REFERRAL_HOPS: u8 = 8;

/// The next move of the referral walk.
#[derive(Debug)]
pub enum ReferralStep {
    /// Send this query to this nameserver endpoint and hand the
    /// outcome back.
    Query(String, DNS),
    /// The walk reached an answer record.
    Answer(DNSResourceFormat),
    /// The walk failed with this response code.
    Fail(ResponseCode),
}

/// The per-question state of the engine.
pub struct QuestionHandler {
    /// The question being resolved.
    pub question: Option<DNSQuestion>,
    /// The root-server endpoint assigned for this question.
    pub root_server: Option<String>,
    /// The TLD nameserver discovered for this question.
    pub tld_ns: Option<String>,
    /// The authoritative nameservers discovered for this question.
    pub authoritative_ns: Option<Vec<String>>,
    /// How many more referrals the walk may follow.
    pub hops_left: u8,
}

/// The query the engine sends while walking referrals: an NS question
/// for the name, recursion desired, with the engine's fixed id.
pub open spec fn spec_root_query(q: QuestionModel) -> DnsModel {
    DnsModel {
        header: DNSHeader {
            id: ROOT_QUERY_ID,
            qr: Type::Query,
            op_code: OpCode::Query,
            authoritative: false,
            truncated: false,
            recursion_desired: true,
            recursion_available: false,
            error_code: ResponseCode::NoError,
            question_count: 1,
            answer_count: 0,
            nameserver_count: 0,
            resource_count: 0,
        },
        questions: Some(
            seq![QuestionModel { name: q.name, qtype: QuestionType::NS, class: QuestionClass::IN }],
        ),
        answer: None,
        authority: None,
        additional: None,
    }
}

/// The first record of NS type in a section, if any.
pub open spec fn find_ns(rs: Seq<ResourceModel>) -> Option<ResourceModel>
    decreases rs.len(),
{
    if rs.len() == 0 {
        None
    } else if rs[0].rr_type == QuestionType::NS {
        Some(rs[0])
    } else {
        find_ns(rs.drop_first())
    }
}

/// The delegation a reply carries: the first NS record of its
/// authority section, or failing that of its additional section.
pub open spec fn spec_delegation(m: DnsModel) -> Option<ResourceModel> {
    let in_authority = match m.authority {
        Some(rs) => find_ns(rs),
        None => None,
    };
    match in_authority {
        Some(rec) => Some(rec),
        None => match m.additional {
            Some(rs) => find_ns(rs),
            None => None,
        },
    }
}

/// The nameserver endpoint a delegation record names: its data bytes
/// read as text, with the DNS port appended.
pub open spec fn spec_ns_endpoint(rec: ResourceModel) -> Seq<char> {
    crate::name::chars_of_bytes(rec.data) + seq![':', '5', '3']
}

/// Build the referral query for a question.
fn build_root_query(question: &DNSQuestion) -> (r: DNS)
    ensures
        r.model() == spec_root_query(question.model()),
{
    let r = DNS {
        header: DNSHeader {
            id: ROOT_QUERY_ID,
            qr: Type::Query,
            op_code: OpCode::Query,
            authoritative: false,
            truncated: false,
            recursion_desired: true,
            recursion_available: false,
            error_code: ResponseCode::NoError,
            question_count: 1,
            answer_count: 0,
            nameserver_count: 0,
            resource_count: 0,
        },
        questions: Some(
            vec![
                DNSQuestion {
                    name: question.name.clone(),
                    qtype: QuestionType::NS,
                    class: QuestionClass::IN,
                },
            ],
        ),
        answer: None,
        authority: None,
        additional: None,
    };
    proof {
        assert(r.model().questions->Some_0 =~= spec_root_query(question.model()).questions->Some_0);
        assert(r.model() =~= spec_root_query(question.model()));
    }
    r
}

/// The first NS record of a section held as a vector, if any.
fn find_ns_record(records: &Vec<DNSResourceFormat>) -> (r: Option<DNSResourceFormat>)
    ensures
        match find_ns(resource_models(records@)) {
            Some(m) => r is Some && r->Some_0.model() == m,
            None => r is None,
        },
{
    let ghost models = resource_models(records@);
    let mut i: usize = 0;
    proof {
        assert(models.skip(0) =~= models);
    }
    while i < records.len()
        invariant
            i <= records@.len(),
            models == resource_models(records@),
            find_ns(models) == find_ns(models.skip(i as int)),
        decreases records@.len() - i,
    {
        proof {
            assert(models.skip(i as int)[0] == models[i as int]);
            assert(models.skip(i as int).drop_first() =~= models.skip(i + 1));
        }
        if records[i].rr_type.code() == QuestionType::NS.code() {
            let rec = records[i].clone();
            proof {
                assert(records@[i as int].rr_type == QuestionType::NS) by {
                    crate::defs::lemma_qtype_code_injective(records@[i as int].rr_type);
                }
                assert(rec.model() =~= models[i as int]);
            }
            return Some(rec);
        }
        proof {
            assert(records@[i as int].rr_type != QuestionType::NS) by {
                crate::defs::lemma_qtype_code_injective(records@[i as int].rr_type);
                crate::defs::lemma_qtype_code_injective(QuestionType::NS);
            }
        }
        i += 1;
    }
    proof {
        assert(models.skip(models.len() as int) =~= Seq::<ResourceModel>::empty());
    }
    None
}

/// The endpoint a delegation record names, built from its data bytes.
fn ns_endpoint(rec: &DNSResourceFormat) -> (r: String)
    ensures
        r@ == spec_ns_endpoint(rec.model()),
{
    let mut host = String::new();
    let mut k: usize = 0;
    while k < rec.data.len()
        invariant
            k <= rec.data@.len(),
            host@ == crate::name::chars_of_bytes(rec.data@.subrange(0, k as int)),
        decreases rec.data@.len() - k,
    {
        push_char(&mut host, rec.data[k] as char);
        k += 1;
        proof {
            assert(host@ =~= crate::name::chars_of_bytes(rec.data@.subrange(0, k as int)));
        }
    }
    push_char(&mut host, ':');
    push_char(&mut host, '5');
    push_char(&mut host, '3');
    proof {
        assert(rec.data@.subrange(0, rec.data@.len() as int) =~= rec.data@);
        assert(host@ =~= spec_ns_endpoint(rec.model()));
    }
    host
}

/// Pick the nameserver host out of one cached root-server entry. An
/// entry is a space-separated list whose first item has the shape
/// `ttl_type_host`; the endpoint is that host with the DNS port
/// appended. An entry whose first item has fewer than three such
/// fields names no host.
pub fn root_server_endpoint(entry: &String) -> (r: Option<String>)
    ensures
        ({
            let fields = spec_split(spec_split(entry@, ' ')[0], '_');
            &&& fields.len() >= 3 ==> r is Some && r->Some_0@ == fields[2] + seq![':', '5', '3']
            &&& fields.len() < 3 ==> r is None
        }),
{
    let items = split_char(entry, ' ');
    proof {
        crate::strutil::lemma_split_min_len(entry@, ' ');
        assert(items@.len() == views_of(items@).len());
    }
    let first = &items[0];
    let fields = split_char(first, '_');
    if fields.len() < 3 {
        return None;
    }
    let mut host = fields[2].clone();
    push_char(&mut host, ':');
    push_char(&mut host, '5');
    push_char(&mut host, '3');
    proof {
        let parts = spec_split(entry@, ' ');
        assert(views_of(items@)[0] == parts[0]);
        assert(views_of(fields@)[2] == spec_split(parts[0], '_')[2]);
        assert(host@ =~= spec_split(parts[0], '_')[2] + seq![':', '5', '3']);
    }
    Some(host)
}

pub trait QuestionHandlerT: Sized {
    /// Create a new instance of the question handler.
    fn new() -> QuestionHandler;

    /// Whether a string is a fully-qualified domain name. This does
    /// not check that the TLD exists, only the syntactic pattern.
    fn check_fqdn_validity(fqdn: &String) -> bool;

    /// Take a question through syntax validation and the existence
    /// check, and build the first query of the referral walk.
    fn handle(&mut self, inp: DNSQuestion, tld_exists: bool, root_server: Option<String>) -> Result<DNS, ResponseCode>;

    /// Continue the walk with the outcome of the last query.
    fn on_referral(&mut self, reply: Option<DNS>) -> ReferralStep;
}

impl QuestionHandlerT for QuestionHandler {
    fn new() -> (r: QuestionHandler)
        ensures
            r.question is None,
            r.root_server is None,
            r.tld_ns is None,
            r.authoritative_ns is None,
            r.hops_left == MAX_REFERRAL_HOPS,
    {
        QuestionHandler {
            question: None,
            root_server: None,
            tld_ns: None,
            authoritative_ns: None,
            hops_left: MAX_REFERRAL_HOPS,
        }
    }

    fn check_fqdn_validity(fqdn: &String) -> (r: bool)
        ensures
            r == is_valid_fqdn(fqdn@),
    {
        let n = fqdn.as_str().unicode_len();
        if n < 4 || n > 253 {
            return false;
        }
        let parts = split_char(fqdn, '.');
        if parts.len() < 2 {
            proof {
                assert(views_of(parts@).len() == parts@.len());
            }
            return false;
        }
        let mut i: usize = 0;
        while i < parts.len() - 1
            invariant
                parts@.len() >= 2,
                i <= parts@.len() - 1,
                views_of(parts@) == spec_split(fqdn@, '.'),
                forall|t: int| 0 <= t < i ==> is_valid_label(#[trigger] views_of(parts@)[t]),
            decreases parts@.len() - i,
        {
            if !check_label(&parts[i]) {
                proof {
                    assert(views_of(parts@)[i as int] == parts@[i as int]@);
                }
                return false;
            }
            proof {
                assert(views_of(parts@)[i as int] == parts@[i as int]@);
            }
            i += 1;
        }
        let last = &parts[parts.len() - 1];
        let r = check_tld(last);
        proof {
            assert(views_of(parts@)[parts@.len() - 1] == last@);
        }
        r
    }

    fn handle(&mut self, inp: DNSQuestion, tld_exists: bool, root_server: Option<String>) -> (r:
        Result<DNS, ResponseCode>)
        ensures
            final(self).question == Some(inp),
            !is_valid_fqdn(inp.model().name.text()) ==> r == Err::<DNS, ResponseCode>(
                ResponseCode::NameError,
            ),
            is_valid_fqdn(inp.model().name.text()) && !tld_exists ==> r == Err::<
                DNS,
                ResponseCode,
            >(ResponseCode::NameError),
            is_valid_fqdn(inp.model().name.text()) && tld_exists && root_server is None ==> r
                == Err::<DNS, ResponseCode>(ResponseCode::ServerFailure),
            is_valid_fqdn(inp.model().name.text()) && tld_exists && root_server is Some ==> {
                &&& r is Ok
                &&& r->Ok_0.model() == spec_root_query(inp.model())
                &&& final(self).root_server == root_server
            },
    {
        let text = inp.name.to_string();
        let valid = Self::check_fqdn_validity(&text);
        self.question = Some(inp);
        if !valid {
            return Err(ResponseCode::NameError);
        }
        if !tld_exists {
            return Err(ResponseCode::NameError);
        }
        let rs = match root_server {
            Some(rs) => rs,
            None => {
                return Err(ResponseCode::ServerFailure);
            },
        };
        self.root_server = Some(rs);
        let question = match &self.question {
            Some(q) => q,
            None => {
                return Err(ResponseCode::ServerFailure);
            },
        };
        Ok(build_root_query(question))
    }

    fn on_referral(&mut self, reply: Option<DNS>) -> (r: ReferralStep)
        ensures
            reply is None ==> r matches ReferralStep::Fail(ResponseCode::ServerFailure),
            old(self).question is None ==> r matches ReferralStep::Fail(
                ResponseCode::ServerFailure,
            ),
            reply matches Some(m) ==> old(self).question is Some ==> {
                let mm = m.model();
                &&& (mm.answer matches Some(ans) && ans.len() > 0) ==> (r matches
                    ReferralStep::Answer(rec) && rec.model() == mm.answer->Some_0[0])
                &&& !(mm.answer matches Some(ans) && ans.len() > 0) ==> match spec_delegation(
                    mm,
                ) {
                    None => r matches ReferralStep::Fail(ResponseCode::ServerFailure),
                    Some(rec) => if old(self).hops_left == 0 {
                        r matches ReferralStep::Fail(ResponseCode::ServerFailure)
                    } else {
                        &&& (r matches ReferralStep::Query(host, q) && host@ == spec_ns_endpoint(
                            rec,
                        ) && q.model() == spec_root_query(old(self).question->Some_0.model()))
                        &&& final(self).hops_left == old(self).hops_left - 1
                    },
                }
            },
    {
        let m = match reply {
            Some(m) => m,
            None => {
                return ReferralStep::Fail(ResponseCode::ServerFailure);
            },
        };
        let question = match &self.question {
            Some(q) => q.clone(),
            None => {
                return ReferralStep::Fail(ResponseCode::ServerFailure);
            },
        };
        match &m.answer {
            Some(ans) => if ans.len() > 0 {
                let rec = ans[0].clone();
                proof {
                    assert(rec.model() =~= resource_models(m.answer->Some_0@)[0]);
                }
                return ReferralStep::Answer(rec);
            },
            None => {},
        }
        let delegated = match &m.authority {
            Some(rs) => find_ns_record(rs),
            None => None,
        };
        let delegated = match delegated {
            Some(rec) => Some(rec),
            None => match &m.additional {
                Some(rs) => find_ns_record(rs),
                None => None,
            },
        };
        let rec = match delegated {
            Some(rec) => rec,
            None => {
                return ReferralStep::Fail(ResponseCode::ServerFailure);
            },
        };
        if self.hops_left == 0 {
            return ReferralStep::Fail(ResponseCode::ServerFailure);
        }
        self.hops_left = self.hops_left - 1;
        let host = ns_endpoint(&rec);
        if self.tld_ns.is_none() {
            self.tld_ns = Some(host.clone());
        } else if self.authoritative_ns.is_none() {
            self.authoritative_ns = Some(vec![host.clone()]);
        }
        ReferralStep::Query(host, build_root_query(&question))
    }
}

/// Whether a string is a valid inner label.
fn check_label(l: &String) -> (r: bool)
    ensures
        r == is_valid_label(l@),
{
    let n = l.as_str().unicode_len();
    if n < 1 || n > 63 {
        return false;
    }
    let mut j: usize = 0;
    while j < n
        invariant
            n == l@.len(),
            1 <= n <= 63,
            j <= n,
            forall|t: int| 0 <= t < j ==> is_label_char(#[trigger] l@[t]),
        decreases n - j,
    {
        let c = l.as_str().get_char(j);
        if !(('a' <= c && c <= 'z') || ('A' <= c && c <= 'Z') || ('0' <= c && c <= '9') || c
            == '-') {
            return false;
        }
        j += 1;
    }
    let first = l.as_str().get_char(0);
    if first == '-' {
        return false;
    }
    let last = l.as_str().get_char(n - 1);
    if last == '-' {
        return false;
    }
    true
}

/// Whether a string is a valid top-level label.
fn check_tld(l: &String) -> (r: bool)
    ensures
        r == is_valid_tld(l@),
{
    let n = l.as_str().unicode_len();
    if n < 2 || n > 63 {
        return false;
    }
    let mut j: usize = 0;
    while j < n
        invariant
            n == l@.len(),
            2 <= n <= 63,
            j <= n,
            forall|t: int| 0 <= t < j ==> is_alpha_char(#[trigger] l@[t]),
        decreases n - j,
    {
        let c = l.as_str().get_char(j);
        if !(('a' <= c && c <= 'z') || ('A' <= c && c <= 'Z')) {
            return false;
        }
        j += 1;
    }
    true
}

} // verus!

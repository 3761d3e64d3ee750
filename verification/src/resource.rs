//! The resource-record sections: each record is a name, a type, a
//! class, a time to live, and a length-prefixed run of raw data bytes.
//! Only this minimal shape is decoded; the meaning of the data depends
//! on the type and class and is outside this codec.

use vstd::prelude::*;
use crate::defs::{QuestionType, QuestionClass, ResponseCode};
use crate::name::{
    MAX_POINTER_HOPS,
    name_wf,
    resolve_name,
    spec_name_bytes,
    spec_parse_name,
    write_name,
};
use crate::strutil::{spec_split, spec_join, split_char, views_of, lemma_join_split};
use crate::wire::{u16_hi, u16_lo, be16};

verus! {

/// One resource record, of the answer, authority or additional
/// section.
#[derive(Debug, PartialEq)]
pub struct DNSResourceFormat {
    /// The domain name the record pertains to, in dotted text form.
    pub name: String,
    /// The record type code.
    pub rr_type: QuestionType,
    /// The class of the data.
    pub rr_class: QuestionClass,
    /// How many seconds the record may be cached; zero means it is
    /// only for the transaction in progress.
    pub ttl: u32,
    /// The length in octets of the data.
    pub length: u16,
    /// The raw data of the record; its format depends on the type and
    /// class.
    pub data: Vec<u8>,
}

/// The mathematical shape of a resource record.
#[verifier::ext_equal]
pub struct ResourceModel {
    pub name: Seq<char>,
    pub rr_type: QuestionType,
    pub rr_class: QuestionClass,
    pub ttl: u32,
    pub length: u16,
    pub data: Seq<u8>,
}

impl DNSResourceFormat {
    /// The record as its mathematical shape.
    pub open spec fn model(&self) -> ResourceModel {
        ResourceModel {
            name: self.name@,
            rr_type: self.rr_type,
            rr_class: self.rr_class,
            ttl: self.ttl,
            length: self.length,
            data: self.data@,
        }
    }
}

impl Clone for DNSResourceFormat {
    fn clone(&self) -> (r: DNSResourceFormat)
        ensures
            r.model() == self.model(),
    {
        let r = DNSResourceFormat {
            name: self.name.clone(),
            rr_type: self.rr_type,
            rr_class: self.rr_class,
            ttl: self.ttl,
            length: self.length,
            data: clone_bytes(&self.data),
        };
        proof {
            assert(r.model() =~= self.model());
        }
        r
    }
}

/// A copy of a byte vector.
fn clone_bytes(v: &Vec<u8>) -> (r: Vec<u8>)
    ensures
        r@ == v@,
{
    let mut r: Vec<u8> = Vec::new();
    let mut i: usize = 0;
    while i < v.len()
        invariant
            i <= v@.len(),
            r@ == v@.subrange(0, i as int),
        decreases v@.len() - i,
    {
        r.push(v[i]);
        i += 1;
        proof {
            assert(r@ =~= v@.subrange(0, i as int));
        }
    }
    proof {
        assert(v@.subrange(0, v@.len() as int) =~= v@);
    }
    r
}

/// The shape of each record in a sequence, in order.
pub open spec fn resource_models(rs: Seq<DNSResourceFormat>) -> Seq<ResourceModel> {
    rs.map(|i: int, r: DNSResourceFormat| r.model())
}

/// The four big-endian bytes of a 32-bit integer, high byte first.
pub open spec fn u32_byte(v: u32, k: int) -> u8
    recommends
        0 <= k < 4,
{
    if k == 0 {
        (v / 0x1000000) as u8
    } else if k == 1 {
        ((v / 0x10000) % 256) as u8
    } else if k == 2 {
        ((v / 256) % 256) as u8
    } else {
        (v % 256) as u8
    }
}

/// The 32-bit integer read big-endian from four bytes.
pub open spec fn be32(b0: u8, b1: u8, b2: u8, b3: u8) -> u32 {
    (b0 * 0x1000000 + b1 * 0x10000 + b2 * 256 + b3) as u32
}

/// Splitting a 32-bit integer into bytes and reading them back is the
/// identity.
pub proof fn lemma_be32_of_split(v: u32)
    ensures
        be32(u32_byte(v, 0), u32_byte(v, 1), u32_byte(v, 2), u32_byte(v, 3)) == v,
{
    assert((v / 0x1000000) as u8 as u32 * 0x1000000 + ((v / 0x10000) % 256) as u8 as u32
        * 0x10000 + ((v / 256) % 256) as u8 as u32 * 256 + (v % 256) as u8 as u32 == v)
        by (bit_vector);
}

/// A record the wire format can carry: a dotted name whose labels are
/// of valid width and within the 255-octet bound, and a declared data
/// length that equals the actual number of data bytes.
pub open spec fn resource_wf(r: ResourceModel) -> bool {
    &&& name_wf(spec_split(r.name, '.'))
    &&& r.length == r.data.len()
}

/// The encoding of one record: the name in label form, the type and
/// class codes, the time to live, then the data behind its length.
pub open spec fn spec_resource_bytes(r: ResourceModel) -> Seq<u8> {
    spec_name_bytes(spec_split(r.name, '.')) + seq![
        u16_hi(r.rr_type.spec_code()),
        u16_lo(r.rr_type.spec_code()),
        u16_hi(r.rr_class.spec_code()),
        u16_lo(r.rr_class.spec_code()),
        u32_byte(r.ttl, 0),
        u32_byte(r.ttl, 1),
        u32_byte(r.ttl, 2),
        u32_byte(r.ttl, 3),
        u16_hi(r.length),
        u16_lo(r.length),
    ] + r.data
}

/// The encoding of a record section, in order.
pub open spec fn spec_resources_bytes(rs: Seq<ResourceModel>) -> Seq<u8>
    decreases rs.len(),
{
    if rs.len() == 0 {
        Seq::empty()
    } else {
        spec_resource_bytes(rs[0]) + spec_resources_bytes(rs.drop_first())
    }
}

/// What decoding one record at `pos` yields: a name, a known type and
/// class, the time to live, and as many data bytes as the declared
/// length — or nothing if any of that is missing or unmapped.
pub open spec fn spec_parse_resource(buf: Seq<u8>, pos: int) -> Option<(ResourceModel, int)> {
    match spec_parse_name(buf, pos, MAX_POINTER_HOPS as int) {
        None => None,
        Some((ls, p)) => if p + 10 > buf.len() {
            None
        } else {
            match QuestionType::spec_from_u16(be16(buf[p], buf[p + 1])) {
                None => None,
                Some(rt) => match QuestionClass::spec_from_u16(be16(buf[p + 2], buf[p + 3])) {
                    None => None,
                    Some(rc) => {
                        let length = be16(buf[p + 8], buf[p + 9]);
                        if p + 10 + length > buf.len() {
                            None
                        } else {
                            Some(
                                (
                                    ResourceModel {
                                        name: spec_join(ls, '.'),
                                        rr_type: rt,
                                        rr_class: rc,
                                        ttl: be32(buf[p + 4], buf[p + 5], buf[p + 6], buf[p + 7]),
                                        length,
                                        data: buf.subrange(p + 10, p + 10 + length),
                                    },
                                    p + 10 + length,
                                ),
                            )
                        }
                    },
                },
            }
        },
    }
}

/// What decoding `n` records in a row yields, with the position just
/// past the last.
pub open spec fn spec_parse_resources(buf: Seq<u8>, pos: int, n: int) -> Option<
    (Seq<ResourceModel>, int),
>
    decreases n,
{
    if n <= 0 {
        Some((Seq::empty(), pos))
    } else {
        match spec_parse_resource(buf, pos) {
            None => None,
            Some((r, p)) => match spec_parse_resources(buf, p, n - 1) {
                None => None,
                Some((rs, end)) => Some((seq![r] + rs, end)),
            },
        }
    }
}

impl DNSResourceFormat {
    /// Decode one record at `pos`; returns it with the position just
    /// past its data.
    pub fn from(bytes: &[u8], pos: usize) -> (r: Result<
        (DNSResourceFormat, usize),
        ResponseCode,
    >)
        ensures
            match spec_parse_resource(bytes@, pos as int) {
                Some((m, end)) => {
                    &&& r is Ok
                    &&& r->Ok_0.0.model() == m
                    &&& r->Ok_0.1 == end
                },
                None => r == Err::<(DNSResourceFormat, usize), ResponseCode>(
                    ResponseCode::FormatError,
                ),
            },
    {
        let (name, p) = match resolve_name(bytes, pos) {
            Ok(v) => v,
            Err(code) => {
                return Err(code);
            },
        };
        if p >= bytes.len() || bytes.len() - p < 10 {
            return Err(ResponseCode::FormatError);
        }
        let rt = match QuestionType::from_u16(
            crate::wire::convert_two_u8s_to_u16(bytes[p], bytes[p + 1]),
        ) {
            Some(rt) => rt,
            None => {
                return Err(ResponseCode::FormatError);
            },
        };
        let rc = match QuestionClass::from_u16(
            crate::wire::convert_two_u8s_to_u16(bytes[p + 2], bytes[p + 3]),
        ) {
            Some(rc) => rc,
            None => {
                return Err(ResponseCode::FormatError);
            },
        };
        let ttl: u32 = bytes[p + 4] as u32 * 0x1000000 + bytes[p + 5] as u32 * 0x10000 + bytes[p
            + 6] as u32 * 256 + bytes[p + 7] as u32;
        let length = crate::wire::convert_two_u8s_to_u16(bytes[p + 8], bytes[p + 9]);
        if (length as usize) > bytes.len() - p - 10 {
            return Err(ResponseCode::FormatError);
        }
        let mut data: Vec<u8> = Vec::new();
        let mut k: usize = 0;
        while k < length as usize
            invariant
                bytes@.len() <= usize::MAX,
                p + 10 + length <= bytes@.len(),
                k <= length,
                data@ == bytes@.subrange(p + 10, p + 10 + k),
            decreases length - k,
        {
            data.push(bytes[p + 10 + k]);
            k += 1;
            proof {
                assert(data@ =~= bytes@.subrange(p + 10, p + 10 + k));
            }
        }
        let record = DNSResourceFormat { name, rr_type: rt, rr_class: rc, ttl, length, data };
        proof {
            assert(record.model() =~= spec_parse_resource(bytes@, pos as int)->Some_0.0);
        }
        Ok((record, p + 10 + length as usize))
    }

    /// Append the encoding of one record to a byte buffer. A record
    /// whose name the wire format cannot carry, or whose declared
    /// length does not equal its data, is rejected.
    pub fn bytes(bytes: &mut Vec<u8>, record: &DNSResourceFormat) -> (r: Result<
        (),
        ResponseCode,
    >)
        ensures
            resource_wf(record.model()) ==> r is Ok && final(bytes)@ == old(bytes)@
                + spec_resource_bytes(record.model()),
            !resource_wf(record.model()) ==> r == Err::<(), ResponseCode>(
                ResponseCode::FormatError,
            ),
    {
        let labels = split_char(&record.name, '.');
        let ghost before = bytes@;
        match write_name(bytes, &labels) {
            Ok(()) => {},
            Err(code) => {
                return Err(code);
            },
        }
        if record.data.len() != record.length as usize {
            return Err(ResponseCode::FormatError);
        }
        let rt = record.rr_type.code();
        bytes.push((rt / 256) as u8);
        bytes.push((rt % 256) as u8);
        let rc = record.rr_class.code();
        bytes.push((rc / 256) as u8);
        bytes.push((rc % 256) as u8);
        bytes.push((record.ttl / 0x1000000) as u8);
        bytes.push(((record.ttl / 0x10000) % 256) as u8);
        bytes.push(((record.ttl / 256) % 256) as u8);
        bytes.push((record.ttl % 256) as u8);
        bytes.push((record.length / 256) as u8);
        bytes.push((record.length % 256) as u8);
        let mut k: usize = 0;
        while k < record.data.len()
            invariant
                k <= record.data@.len(),
                bytes@ == before + spec_name_bytes(views_of(labels@)) + seq![
                    u16_hi(record.rr_type.spec_code()),
                    u16_lo(record.rr_type.spec_code()),
                    u16_hi(record.rr_class.spec_code()),
                    u16_lo(record.rr_class.spec_code()),
                    u32_byte(record.ttl, 0),
                    u32_byte(record.ttl, 1),
                    u32_byte(record.ttl, 2),
                    u32_byte(record.ttl, 3),
                    u16_hi(record.length),
                    u16_lo(record.length),
                ] + record.data@.take(k as int),
            decreases record.data@.len() - k,
        {
            bytes.push(record.data[k]);
            k += 1;
            proof {
                assert(record.data@.take(k as int) =~= record.data@.take(k - 1).push(
                    record.data@[k - 1],
                ));
                assert(bytes@ =~= before + spec_name_bytes(views_of(labels@)) + seq![
                    u16_hi(record.rr_type.spec_code()),
                    u16_lo(record.rr_type.spec_code()),
                    u16_hi(record.rr_class.spec_code()),
                    u16_lo(record.rr_class.spec_code()),
                    u32_byte(record.ttl, 0),
                    u32_byte(record.ttl, 1),
                    u32_byte(record.ttl, 2),
                    u32_byte(record.ttl, 3),
                    u16_hi(record.length),
                    u16_lo(record.length),
                ] + record.data@.take(k as int));
            }
        }
        proof {
            assert(record.data@.take(record.data@.len() as int) =~= record.data@);
            assert(bytes@ =~= before + spec_resource_bytes(record.model()));
        }
        Ok(())
    }
}

/// Decoding an encoded record from any position of any buffer that
/// carries it yields exactly that record, and ends just past its data.
pub proof fn lemma_resource_roundtrip(m: ResourceModel, buf: Seq<u8>, pos: int)
    requires
        resource_wf(m),
        0 <= pos,
        pos + spec_resource_bytes(m).len() <= buf.len(),
        buf.subrange(pos, pos + spec_resource_bytes(m).len()) == spec_resource_bytes(m),
    ensures
        spec_parse_resource(buf, pos) == Some((m, pos + spec_resource_bytes(m).len())),
{
    let enc = spec_resource_bytes(m);
    let labels = spec_split(m.name, '.');
    let nb = spec_name_bytes(labels);
    assert forall|j: int| 0 <= j < enc.len() implies buf[pos + j] == enc[j] by {
        assert(buf.subrange(pos, pos + enc.len())[j] == buf[pos + j]);
    }
    assert(buf.subrange(pos, pos + nb.len()) =~= nb) by {
        assert forall|j: int| 0 <= j < nb.len() implies buf.subrange(pos, pos + nb.len())[j]
            == nb[j] by {
            assert(buf[pos + j] == enc[j]);
            assert(enc[j] == nb[j]);
        }
    }
    crate::name::lemma_name_roundtrip(labels, buf, pos, MAX_POINTER_HOPS as int);
    let p = pos + nb.len();
    lemma_join_split(m.name, '.');
    assert(buf[p] == enc[nb.len() as int]);
    assert(buf[p + 1] == enc[nb.len() as int + 1]);
    assert(buf[p + 2] == enc[nb.len() as int + 2]);
    assert(buf[p + 3] == enc[nb.len() as int + 3]);
    assert(buf[p + 4] == enc[nb.len() as int + 4]);
    assert(buf[p + 5] == enc[nb.len() as int + 5]);
    assert(buf[p + 6] == enc[nb.len() as int + 6]);
    assert(buf[p + 7] == enc[nb.len() as int + 7]);
    assert(buf[p + 8] == enc[nb.len() as int + 8]);
    assert(buf[p + 9] == enc[nb.len() as int + 9]);
    crate::wire::lemma_be16_of_split(m.rr_type.spec_code());
    crate::wire::lemma_be16_of_split(m.rr_class.spec_code());
    crate::wire::lemma_be16_of_split(m.length);
    crate::defs::lemma_qtype_code_injective(m.rr_type);
    crate::defs::lemma_qclass_code_injective(m.rr_class);
    lemma_be32_of_split(m.ttl);
    assert(buf.subrange(p + 10, p + 10 + m.length) =~= m.data) by {
        assert forall|j: int| 0 <= j < m.data.len() implies buf.subrange(
            p + 10,
            p + 10 + m.length,
        )[j] == m.data[j] by {
            assert(buf[p + 10 + j] == enc[nb.len() + 10 + j]);
            assert(enc[nb.len() + 10 + j] == m.data[j]);
        }
    }
    let parsed = spec_parse_resource(buf, pos)->Some_0;
    assert(parsed.0 =~= m);
}


/// Every record of a section can be carried.
pub open spec fn resources_wf(rs: Seq<ResourceModel>) -> bool {
    forall|i: int| 0 <= i < rs.len() ==> resource_wf(#[trigger] rs[i])
}

/// Decode `count` records starting at `pos`; returns them with the
/// position just past the last. Any malformed entry rejects the whole
/// section.
pub fn section_from(bytes: &[u8], pos: usize, count: u16) -> (r: Result<
    (Vec<DNSResourceFormat>, usize),
    ResponseCode,
>)
    ensures
        match spec_parse_resources(bytes@, pos as int, count as int) {
            Some((rs, end)) => {
                &&& r is Ok
                &&& resource_models(r->Ok_0.0@) == rs
                &&& r->Ok_0.1 == end
            },
            None => r == Err::<(Vec<DNSResourceFormat>, usize), ResponseCode>(
                ResponseCode::FormatError,
            ),
        },
{
    let ghost full = spec_parse_resources(bytes@, pos as int, count as int);
    let mut records: Vec<DNSResourceFormat> = Vec::new();
    let mut cur: usize = pos;
    let mut i: u16 = 0;
    proof {
        assert(resource_models(records@) =~= Seq::<ResourceModel>::empty());
    }
    while i < count
        invariant
            i <= count,
            full == spec_parse_resources(bytes@, pos as int, count as int),
            full == match spec_parse_resources(bytes@, cur as int, count - i) {
                Some((rs, end)) => Some((resource_models(records@) + rs, end)),
                None => None::<(Seq<ResourceModel>, int)>,
            },
        decreases count - i,
    {
        match DNSResourceFormat::from(bytes, cur) {
            Ok((record, p)) => {
                proof {
                    let step = spec_parse_resource(bytes@, cur as int)->Some_0;
                    let tail = spec_parse_resources(bytes@, step.1, count - i - 1);
                    if tail is Some {
                        let (rs, end) = tail->Some_0;
                        assert(resource_models(records@.push(record)) =~= resource_models(
                            records@,
                        ).push(record.model()));
                        assert(resource_models(records@) + (seq![step.0] + rs)
                            =~= resource_models(records@).push(record.model()) + rs);
                    }
                }
                records.push(record);
                cur = p;
                i += 1;
            },
            Err(code) => {
                return Err(code);
            },
        }
    }
    proof {
        assert(resource_models(records@) + Seq::<ResourceModel>::empty() =~= resource_models(
            records@,
        ));
    }
    Ok((records, cur))
}

/// Append the encoding of every record of a section to a byte buffer,
/// in order. A record that cannot be carried rejects the whole
/// section.
pub fn section_bytes(bytes: &mut Vec<u8>, records: &Vec<DNSResourceFormat>) -> (r: Result<
    (),
    ResponseCode,
>)
    ensures
        resources_wf(resource_models(records@)) ==> r is Ok && final(bytes)@ == old(bytes)@
            + spec_resources_bytes(resource_models(records@)),
        !resources_wf(resource_models(records@)) ==> r == Err::<(), ResponseCode>(
            ResponseCode::FormatError,
        ),
{
    let ghost models = resource_models(records@);
    let mut i: usize = 0;
    proof {
        assert(models.skip(0) =~= models);
    }
    while i < records.len()
        invariant
            i <= records@.len(),
            models == resource_models(records@),
            forall|t: int| 0 <= t < i ==> resource_wf(#[trigger] models[t]),
            old(bytes)@ + spec_resources_bytes(models) == bytes@ + spec_resources_bytes(
                models.skip(i as int),
            ),
        decreases records@.len() - i,
    {
        let record = &records[i];
        let ghost before = bytes@;
        match DNSResourceFormat::bytes(bytes, record) {
            Ok(()) => {},
            Err(code) => {
                proof {
                    assert(models[i as int] == record.model());
                    assert(!resources_wf(models));
                }
                return Err(code);
            },
        }
        proof {
            assert(models[i as int] == record.model());
            assert(models.skip(i as int).drop_first() =~= models.skip(i + 1));
            assert(spec_resources_bytes(models.skip(i as int)) == spec_resource_bytes(
                models.skip(i as int)[0],
            ) + spec_resources_bytes(models.skip(i + 1)));
            assert(models.skip(i as int)[0] == models[i as int]);
            assert((bytes@ + spec_resources_bytes(models.skip(i + 1))) =~= (before
                + (spec_resource_bytes(models[i as int]) + spec_resources_bytes(
                models.skip(i + 1),
            ))));
            assert((before + spec_resources_bytes(models.skip(i as int))) =~= (before
                + (spec_resource_bytes(models[i as int]) + spec_resources_bytes(
                models.skip(i + 1),
            ))));
        }
        i += 1;
    }
    proof {
        assert(models.skip(models.len() as int) =~= Seq::<ResourceModel>::empty());
        assert(bytes@ + Seq::<u8>::empty() =~= bytes@);
    }
    Ok(())
}

/// Decoding an encoded record section from any position of any buffer
/// that carries it yields exactly the records that were encoded, in
/// order.
pub proof fn lemma_resources_roundtrip(rs: Seq<ResourceModel>, buf: Seq<u8>, pos: int)
    requires
        resources_wf(rs),
        0 <= pos,
        pos + spec_resources_bytes(rs).len() <= buf.len(),
        buf.subrange(pos, pos + spec_resources_bytes(rs).len()) == spec_resources_bytes(rs),
    ensures
        spec_parse_resources(buf, pos, rs.len() as int) == Some(
            (rs, pos + spec_resources_bytes(rs).len()),
        ),
    decreases rs.len(),
{
    if rs.len() == 0 {
        assert(spec_parse_resources(buf, pos, 0) == Some((Seq::<ResourceModel>::empty(), pos)));
        assert(rs =~= Seq::<ResourceModel>::empty());
    } else {
        let enc = spec_resources_bytes(rs);
        let e0 = spec_resource_bytes(rs[0]);
        let rest = rs.drop_first();
        let rest_enc = spec_resources_bytes(rest);
        assert(enc == e0 + rest_enc);
        assert forall|j: int| 0 <= j < enc.len() implies buf[pos + j] == enc[j] by {
            assert(buf.subrange(pos, pos + enc.len())[j] == buf[pos + j]);
        }
        assert(buf.subrange(pos, pos + e0.len()) =~= e0) by {
            assert forall|j: int| 0 <= j < e0.len() implies buf.subrange(pos, pos + e0.len())[j]
                == e0[j] by {
                assert(buf[pos + j] == enc[j]);
                assert(enc[j] == e0[j]);
            }
        }
        lemma_resource_roundtrip(rs[0], buf, pos);
        let p = pos + e0.len();
        assert(buf.subrange(p, p + rest_enc.len()) =~= rest_enc) by {
            assert forall|j: int| 0 <= j < rest_enc.len() implies buf.subrange(
                p,
                p + rest_enc.len(),
            )[j] == rest_enc[j] by {
                assert(buf.subrange(p, p + rest_enc.len())[j] == buf[p + j]);
                assert(buf[p + j] == enc[e0.len() + j]);
                assert(enc[e0.len() + j] == rest_enc[j]);
            }
        }
        lemma_resources_roundtrip(rest, buf, p);
        assert(seq![rs[0]] + rest =~= rs);
    }
}

} // verus!

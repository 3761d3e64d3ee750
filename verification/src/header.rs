//! The 12-byte DNS header: a 16-bit id, one byte of QR/OPCODE/AA/TC/RD
//! flags, one byte of RA and RCODE, and four 16-bit section counts, all
//! big-endian.

use vstd::prelude::*;
use crate::defs::{Type, OpCode, ResponseCode};
use crate::dns::DNS;
use crate::wire::{u16_hi, u16_lo, be16, convert_two_u8s_to_u16, push_byte_vec};

verus! {

/// The header of a DNS message.
#[derive(Debug, Clone, Copy, PartialEq, Eq, Structural)]
pub struct DNSHeader {
    /// A 16-bit identifier assigned by the program that generates the
    /// query; it is copied into the corresponding reply so the
    /// requester can match replies to outstanding queries.
    pub id: u16,
    /// Whether this message is a query or a response.
    pub qr: Type,
    /// The kind of query; set by the originator and copied into the
    /// response.
    pub op_code: OpCode,
    /// Whether the responding name server is an authority for the
    /// domain name in question.
    pub authoritative: bool,
    /// Whether the message was cut short; a truncated reply over UDP
    /// tells the client to retry over TCP.
    pub truncated: bool,
    /// Set in a query to direct the name server to pursue the query
    /// recursively.
    pub recursion_desired: bool,
    /// Set in a response to report whether recursive query support is
    /// available.
    pub recursion_available: bool,
    /// The response status of the message.
    pub error_code: ResponseCode,
    /// The number of entries in the question section.
    pub question_count: u16,
    /// The number of records in the answer section.
    pub answer_count: u16,
    /// The number of name-server records in the authority section.
    pub nameserver_count: u16,
    /// The number of records in the additional section.
    pub resource_count: u16,
}

/// One where a flag is set, zero where it is not.
pub open spec fn bool_bit(b: bool) -> u8 {
    if b {
        1
    } else {
        0
    }
}

/// The byte carrying the QR bit, the opcode and the AA, TC and RD
/// flags.
pub open spec fn spec_flags1(h: DNSHeader) -> u8 {
    (h.qr.spec_code() * 128 + h.op_code.spec_code() * 8 + bool_bit(h.authoritative) * 4
        + bool_bit(h.truncated) * 2 + bool_bit(h.recursion_desired)) as u8
}

/// The byte carrying the RA flag, three reserved zero bits and the
/// response code.
pub open spec fn spec_flags2(h: DNSHeader) -> u8 {
    (bool_bit(h.recursion_available) * 128 + h.error_code.spec_code()) as u8
}

/// The twelve bytes of an encoded header.
pub open spec fn spec_header_bytes(h: DNSHeader) -> Seq<u8> {
    seq![
        u16_hi(h.id),
        u16_lo(h.id),
        spec_flags1(h),
        spec_flags2(h),
        u16_hi(h.question_count),
        u16_lo(h.question_count),
        u16_hi(h.answer_count),
        u16_lo(h.answer_count),
        u16_hi(h.nameserver_count),
        u16_lo(h.nameserver_count),
        u16_hi(h.resource_count),
        u16_lo(h.resource_count),
    ]
}

/// The header read from the front of a buffer: twelve bytes at least,
/// with a known opcode and response code; the three reserved bits are
/// ignored. A shorter buffer or an unmapped code yields nothing.
pub open spec fn spec_parse_header(buf: Seq<u8>) -> Option<DNSHeader> {
    if buf.len() < 12 {
        None
    } else {
        match OpCode::spec_from_u8(((buf[2] / 8) % 16) as u8) {
            None => None,
            Some(op) => match ResponseCode::spec_from_u8((buf[3] % 16) as u8) {
                None => None,
                Some(rc) => Some(
                    DNSHeader {
                        id: be16(buf[0], buf[1]),
                        qr: Type::spec_from_bit(buf[2] / 128 == 1),
                        op_code: op,
                        authoritative: (buf[2] / 4) % 2 == 1,
                        truncated: (buf[2] / 2) % 2 == 1,
                        recursion_desired: buf[2] % 2 == 1,
                        recursion_available: buf[3] / 128 == 1,
                        error_code: rc,
                        question_count: be16(buf[4], buf[5]),
                        answer_count: be16(buf[6], buf[7]),
                        nameserver_count: be16(buf[8], buf[9]),
                        resource_count: be16(buf[10], buf[11]),
                    },
                ),
            },
        }
    }
}

impl DNSHeader {
    /// A fresh header for an outgoing response: recursion desired, no
    /// error, empty sections.
    pub fn new() -> (r: DNSHeader)
        ensures
            r == (DNSHeader {
                id: 1,
                qr: Type::Response,
                op_code: OpCode::Query,
                authoritative: false,
                truncated: false,
                recursion_desired: true,
                recursion_available: false,
                error_code: ResponseCode::NoError,
                question_count: 0,
                answer_count: 0,
                nameserver_count: 0,
                resource_count: 0,
            }),
    {
        DNSHeader {
            id: 1,
            qr: Type::Response,
            op_code: OpCode::Query,
            authoritative: false,
            truncated: false,
            recursion_desired: true,
            recursion_available: false,
            error_code: ResponseCode::NoError,
            question_count: 0,
            answer_count: 0,
            nameserver_count: 0,
            resource_count: 0,
        }
    }

    /// Read a header from the front of a buffer. A buffer shorter than
    /// twelve bytes, an unmapped opcode or an unmapped response code is
    /// a format error.
    pub fn try_from(bytes: &[u8]) -> (r: Result<DNSHeader, ResponseCode>)
        ensures
            r == match spec_parse_header(bytes@) {
                Some(h) => Ok::<DNSHeader, ResponseCode>(h),
                None => Err::<DNSHeader, ResponseCode>(ResponseCode::FormatError),
            },
    {
        if bytes.len() < 12 {
            return Err(ResponseCode::FormatError);
        }
        let b2 = bytes[2];
        let b3 = bytes[3];
        let op = match OpCode::from_u8((b2 / 8) % 16) {
            Some(op) => op,
            None => {
                return Err(ResponseCode::FormatError);
            },
        };
        let rc = match ResponseCode::from_u8(b3 % 16) {
            Some(rc) => rc,
            None => {
                return Err(ResponseCode::FormatError);
            },
        };
        Ok(
            DNSHeader {
                id: convert_two_u8s_to_u16(bytes[0], bytes[1]),
                qr: Type::from_bit(b2 / 128 == 1),
                op_code: op,
                authoritative: (b2 / 4) % 2 == 1,
                truncated: (b2 / 2) % 2 == 1,
                recursion_desired: b2 % 2 == 1,
                recursion_available: b3 / 128 == 1,
                error_code: rc,
                question_count: convert_two_u8s_to_u16(bytes[4], bytes[5]),
                answer_count: convert_two_u8s_to_u16(bytes[6], bytes[7]),
                nameserver_count: convert_two_u8s_to_u16(bytes[8], bytes[9]),
                resource_count: convert_two_u8s_to_u16(bytes[10], bytes[11]),
            },
        )
    }

    /// Append the twelve header bytes of a message to a byte buffer.
    pub fn bytes(bytes: &mut Vec<u8>, datagram: &DNS)
        ensures
            final(bytes)@ == old(bytes)@ + spec_header_bytes(datagram.header),
    {
        let h = &datagram.header;
        let flags1 = h.qr.code() * 128 + h.op_code.code() * 8 + (
        if h.authoritative {
            4
        } else {
            0
        }) + (
        if h.truncated {
            2
        } else {
            0
        }) + (
        if h.recursion_desired {
            1
        } else {
            0
        });
        let flags2 = (
        if h.recursion_available {
            128
        } else {
            0
        }) + h.error_code.code();
        push_byte_vec(bytes, 2, 0);
        let idx0 = bytes.len() - 2;
        bytes[idx0] = (h.id / 256) as u8;
        bytes[idx0 + 1] = (h.id % 256) as u8;
        bytes.push(flags1);
        bytes.push(flags2);
        bytes.push((h.question_count / 256) as u8);
        bytes.push((h.question_count % 256) as u8);
        bytes.push((h.answer_count / 256) as u8);
        bytes.push((h.answer_count % 256) as u8);
        bytes.push((h.nameserver_count / 256) as u8);
        bytes.push((h.nameserver_count % 256) as u8);
        bytes.push((h.resource_count / 256) as u8);
        bytes.push((h.resource_count % 256) as u8);
        proof {
            assert(bytes@ =~= old(bytes)@ + spec_header_bytes(datagram.header));
        }
    }
}

/// Parsing the bytes of an encoded header from the front of any buffer
/// that carries them gives back that header, field for field.
pub proof fn lemma_header_roundtrip(h: DNSHeader, buf: Seq<u8>)
    requires
        buf.len() >= 12,
        buf.subrange(0, 12) == spec_header_bytes(h),
    ensures
        spec_parse_header(buf) == Some(h),
{
    let enc = spec_header_bytes(h);
    assert forall|j: int| 0 <= j < 12 implies buf[j] == enc[j] by {
        assert(buf.subrange(0, 12)[j] == buf[j]);
    }
    let q = h.qr.spec_code();
    let o = h.op_code.spec_code();
    let a = bool_bit(h.authoritative);
    let t = bool_bit(h.truncated);
    let rd = bool_bit(h.recursion_desired);
    let ra = bool_bit(h.recursion_available);
    let rc = h.error_code.spec_code();
    let f1 = spec_flags1(h);
    let f2 = spec_flags2(h);
    assert(q <= 1 && o <= 2 && a <= 1 && t <= 1 && rd <= 1 && ra <= 1 && rc <= 5);
    assert(q <= 1 && o <= 2 && a <= 1 && t <= 1 && rd <= 1 && f1 == (q * 128 + o * 8 + a * 4 + t
        * 2 + rd) as u8 ==> f1 / 128 == q && (f1 / 8) % 16 == o && (f1 / 4) % 2 == a && (f1 / 2)
        % 2 == t && f1 % 2 == rd) by (bit_vector);
    assert(ra <= 1 && rc <= 5 && f2 == (ra * 128 + rc) as u8 ==> f2 / 128 == ra && f2 % 16 == rc)
        by (bit_vector);
    assert(Type::spec_from_bit(f1 / 128 == 1) == h.qr);
    crate::defs::lemma_opcode_code_injective(h.op_code);
    crate::defs::lemma_rcode_code_injective(h.error_code);
    assert(OpCode::spec_from_u8(((f1 / 8) % 16) as u8) == Some(h.op_code));
    assert(ResponseCode::spec_from_u8((f2 % 16) as u8) == Some(h.error_code));
    let parsed = spec_parse_header(buf)->Some_0;
    assert(be16(u16_hi(h.id), u16_lo(h.id)) == h.id);
    assert(be16(u16_hi(h.question_count), u16_lo(h.question_count)) == h.question_count);
    assert(be16(u16_hi(h.answer_count), u16_lo(h.answer_count)) == h.answer_count);
    assert(be16(u16_hi(h.nameserver_count), u16_lo(h.nameserver_count)) == h.nameserver_count);
    assert(be16(u16_hi(h.resource_count), u16_lo(h.resource_count)) == h.resource_count);
    assert(parsed == h);
}

} // verus!

//! Enumerated wire values of the DNS header and question sections, with
//! explicit bidirectional mappings between numeric wire codes and variants.
//! Unknown codes are rejected, never cast unchecked.

use vstd::prelude::*;

verus! {

/// Whether a message is a query or a response (the header's QR bit).
#[derive(Debug, Clone, Copy, PartialEq, Eq, Structural)]
pub enum Type {
    Response,
    Query,
}

/// The kind of query carried by a message (the header's 4-bit OPCODE).
#[derive(Debug, Clone, Copy, PartialEq, Eq, Structural)]
pub enum OpCode {
    /// a standard query (QUERY)
    Query,
    /// an inverse query (IQUERY)
    IQuery,
    /// a server status request (STATUS)
    Status,
}

/// The status of a response (the header's 4-bit RCODE).
#[derive(Debug, Clone, Copy, PartialEq, Eq, Structural)]
pub enum ResponseCode {
    /// No error condition.
    NoError,
    /// The name server was unable to interpret the query.
    FormatError,
    /// The name server was unable to process this query due to a
    /// problem with the name server.
    ServerFailure,
    /// The domain name referenced in the query does not exist.
    NameError,
    /// The name server does not support the requested kind of query.
    NotImplemented,
    /// The name server refuses to perform the specified operation.
    Refused,
}

impl Type {
    /// The wire value of the QR bit: 0 for a query, 1 for a response.
    pub open spec fn spec_code(self) -> u8 {
        match self {
            Type::Query => 0,
            Type::Response => 1,
        }
    }

    /// Map the QR bit to a variant.
    pub open spec fn spec_from_bit(bit: bool) -> Type {
        if bit {
            Type::Response
        } else {
            Type::Query
        }
    }

    pub fn code(self) -> (r: u8)
        ensures
            r == self.spec_code(),
    {
        match self {
            Type::Query => 0,
            Type::Response => 1,
        }
    }

    pub fn from_bit(bit: bool) -> (r: Type)
        ensures
            r == Type::spec_from_bit(bit),
    {
        if bit {
            Type::Response
        } else {
            Type::Query
        }
    }
}

impl OpCode {
    /// The 4-bit wire value of each opcode.
    pub open spec fn spec_code(self) -> u8 {
        match self {
            OpCode::Query => 0,
            OpCode::IQuery => 1,
            OpCode::Status => 2,
        }
    }

    /// The variant a 4-bit wire value maps to; values above 2 are reserved
    /// for future use and rejected.
    pub open spec fn spec_from_u8(v: u8) -> Option<OpCode> {
        if v == 0 {
            Some(OpCode::Query)
        } else if v == 1 {
            Some(OpCode::IQuery)
        } else if v == 2 {
            Some(OpCode::Status)
        } else {
            None
        }
    }

    pub fn code(self) -> (r: u8)
        ensures
            r == self.spec_code(),
    {
        match self {
            OpCode::Query => 0,
            OpCode::IQuery => 1,
            OpCode::Status => 2,
        }
    }

    pub fn from_u8(v: u8) -> (r: Option<OpCode>)
        ensures
            r == OpCode::spec_from_u8(v),
    {
        if v == 0 {
            Some(OpCode::Query)
        } else if v == 1 {
            Some(OpCode::IQuery)
        } else if v == 2 {
            Some(OpCode::Status)
        } else {
            None
        }
    }
}

impl ResponseCode {
    /// The 4-bit wire value of each response code.
    pub open spec fn spec_code(self) -> u8 {
        match self {
            ResponseCode::NoError => 0,
            ResponseCode::FormatError => 1,
            ResponseCode::ServerFailure => 2,
            ResponseCode::NameError => 3,
            ResponseCode::NotImplemented => 4,
            ResponseCode::Refused => 5,
        }
    }

    /// The variant a 4-bit wire value maps to; values above 5 are rejected.
    pub open spec fn spec_from_u8(v: u8) -> Option<ResponseCode> {
        if v == 0 {
            Some(ResponseCode::NoError)
        } else if v == 1 {
            Some(ResponseCode::FormatError)
        } else if v == 2 {
            Some(ResponseCode::ServerFailure)
        } else if v == 3 {
            Some(ResponseCode::NameError)
        } else if v == 4 {
            Some(ResponseCode::NotImplemented)
        } else if v == 5 {
            Some(ResponseCode::Refused)
        } else {
            None
        }
    }

    pub fn code(self) -> (r: u8)
        ensures
            r == self.spec_code(),
    {
        match self {
            ResponseCode::NoError => 0,
            ResponseCode::FormatError => 1,
            ResponseCode::ServerFailure => 2,
            ResponseCode::NameError => 3,
            ResponseCode::NotImplemented => 4,
            ResponseCode::Refused => 5,
        }
    }

    pub fn from_u8(v: u8) -> (r: Option<ResponseCode>)
        ensures
            r == ResponseCode::spec_from_u8(v),
    {
        if v == 0 {
            Some(ResponseCode::NoError)
        } else if v == 1 {
            Some(ResponseCode::FormatError)
        } else if v == 2 {
            Some(ResponseCode::ServerFailure)
        } else if v == 3 {
            Some(ResponseCode::NameError)
        } else if v == 4 {
            Some(ResponseCode::NotImplemented)
        } else if v == 5 {
            Some(ResponseCode::Refused)
        } else {
            None
        }
    }
}


/// The resource-record type asked for by a question (16-bit wire code).
/// The list covers the record types permissible in DNS zone files,
/// including pseudo-record types; unknown codes are rejected.
#[derive(Debug, Clone, Copy, PartialEq, Eq, Structural)]
pub enum QuestionType {
    A,
    NS,
    MD,
    MF,
    CNAME,
    SOA,
    MB,
    MG,
    MR,
    NULL,
    WKS,
    PTR,
    HINFO,
    MINFO,
    MX,
    TXT,
    RP,
    AFSDB,
    X25,
    ISDN,
    RT,
    NSAP,
    SIG,
    KEY,
    PX,
    GPOS,
    AAAA,
    LOC,
    NXT,
    EID,
    NB,
    NBSTAT,
    ATMA,
    NAPTR,
    KX,
    CERT,
    DNAME,
    OPTION,
    APL,
    DS,
    SSHFP,
    IPSECKEY,
    RRSIG,
    NSEC,
    DNSKEY,
    DHCID,
    NSEC3,
    NSEC3PARAM,
    TLSA,
    SMIMEA,
    HIP,
    NINFO,
    RKEY,
    TALINK,
    CDS,
    CDNSKEY,
    OPENPGPKEY,
    CSYNC,
    ZONEMD,
    SVCB,
    HTTPS,
    SPF,
    UINFO,
    UID,
    GID,
    UNSPEC,
    NID,
    L32,
    L64,
    LP,
    EUI48,
    EUI64,
    TKEY,
    TSIG,
    IXFR,
    AXFR,
    MAILB,
    MAILA,
}

/// The class a question asks about (16-bit wire code).
#[derive(Debug, Clone, Copy, PartialEq, Eq, Structural)]
pub enum QuestionClass {
    /// the Internet
    IN,
    /// the CSNET class (obsolete)
    CS,
    /// the CHAOS class
    CH,
    /// Hesiod
    HS,
}

impl QuestionType {
    /// The 16-bit wire code of each record type.
    pub open spec fn spec_code(self) -> u16 {
        match self {
            QuestionType::A => 1,
            QuestionType::NS => 2,
            QuestionType::MD => 3,
            QuestionType::MF => 4,
            QuestionType::CNAME => 5,
            QuestionType::SOA => 6,
            QuestionType::MB => 7,
            QuestionType::MG => 8,
            QuestionType::MR => 9,
            QuestionType::NULL => 10,
            QuestionType::WKS => 11,
            QuestionType::PTR => 12,
            QuestionType::HINFO => 13,
            QuestionType::MINFO => 14,
            QuestionType::MX => 15,
            QuestionType::TXT => 16,
            QuestionType::RP => 17,
            QuestionType::AFSDB => 18,
            QuestionType::X25 => 19,
            QuestionType::ISDN => 20,
            QuestionType::RT => 21,
            QuestionType::NSAP => 22,
            QuestionType::SIG => 24,
            QuestionType::KEY => 25,
            QuestionType::PX => 26,
            QuestionType::GPOS => 27,
            QuestionType::AAAA => 28,
            QuestionType::LOC => 29,
            QuestionType::NXT => 30,
            QuestionType::EID => 31,
            QuestionType::NB => 32,
            QuestionType::NBSTAT => 33,
            QuestionType::ATMA => 34,
            QuestionType::NAPTR => 35,
            QuestionType::KX => 36,
            QuestionType::CERT => 37,
            QuestionType::DNAME => 39,
            QuestionType::OPTION => 41,
            QuestionType::APL => 42,
            QuestionType::DS => 43,
            QuestionType::SSHFP => 44,
            QuestionType::IPSECKEY => 45,
            QuestionType::RRSIG => 46,
            QuestionType::NSEC => 47,
            QuestionType::DNSKEY => 48,
            QuestionType::DHCID => 49,
            QuestionType::NSEC3 => 50,
            QuestionType::NSEC3PARAM => 51,
            QuestionType::TLSA => 52,
            QuestionType::SMIMEA => 53,
            QuestionType::HIP => 55,
            QuestionType::NINFO => 56,
            QuestionType::RKEY => 57,
            QuestionType::TALINK => 58,
            QuestionType::CDS => 59,
            QuestionType::CDNSKEY => 60,
            QuestionType::OPENPGPKEY => 61,
            QuestionType::CSYNC => 62,
            QuestionType::ZONEMD => 63,
            QuestionType::SVCB => 64,
            QuestionType::HTTPS => 65,
            QuestionType::SPF => 99,
            QuestionType::UINFO => 100,
            QuestionType::UID => 101,
            QuestionType::GID => 102,
            QuestionType::UNSPEC => 103,
            QuestionType::NID => 104,
            QuestionType::L32 => 105,
            QuestionType::L64 => 106,
            QuestionType::LP => 107,
            QuestionType::EUI48 => 108,
            QuestionType::EUI64 => 109,
            QuestionType::TKEY => 249,
            QuestionType::TSIG => 250,
            QuestionType::IXFR => 251,
            QuestionType::AXFR => 252,
            QuestionType::MAILB => 253,
            QuestionType::MAILA => 254,
        }
    }

    /// The record type a 16-bit wire code maps to, if any.
    pub open spec fn spec_from_u16(v: u16) -> Option<QuestionType> {
        if v == 1 {
            Some(QuestionType::A)
        } else if v == 2 {
            Some(QuestionType::NS)
        } else if v == 3 {
            Some(QuestionType::MD)
        } else if v == 4 {
            Some(QuestionType::MF)
        } else if v == 5 {
            Some(QuestionType::CNAME)
        } else if v == 6 {
            Some(QuestionType::SOA)
        } else if v == 7 {
            Some(QuestionType::MB)
        } else if v == 8 {
            Some(QuestionType::MG)
        } else if v == 9 {
            Some(QuestionType::MR)
        } else if v == 10 {
            Some(QuestionType::NULL)
        } else if v == 11 {
            Some(QuestionType::WKS)
        } else if v == 12 {
            Some(QuestionType::PTR)
        } else if v == 13 {
            Some(QuestionType::HINFO)
        } else if v == 14 {
            Some(QuestionType::MINFO)
        } else if v == 15 {
            Some(QuestionType::MX)
        } else if v == 16 {
            Some(QuestionType::TXT)
        } else if v == 17 {
            Some(QuestionType::RP)
        } else if v == 18 {
            Some(QuestionType::AFSDB)
        } else if v == 19 {
            Some(QuestionType::X25)
        } else if v == 20 {
            Some(QuestionType::ISDN)
        } else if v == 21 {
            Some(QuestionType::RT)
        } else if v == 22 {
            Some(QuestionType::NSAP)
        } else if v == 24 {
            Some(QuestionType::SIG)
        } else if v == 25 {
            Some(QuestionType::KEY)
        } else if v == 26 {
            Some(QuestionType::PX)
        } else if v == 27 {
            Some(QuestionType::GPOS)
        } else if v == 28 {
            Some(QuestionType::AAAA)
        } else if v == 29 {
            Some(QuestionType::LOC)
        } else if v == 30 {
            Some(QuestionType::NXT)
        } else if v == 31 {
            Some(QuestionType::EID)
        } else if v == 32 {
            Some(QuestionType::NB)
        } else if v == 33 {
            Some(QuestionType::NBSTAT)
        } else if v == 34 {
            Some(QuestionType::ATMA)
        } else if v == 35 {
            Some(QuestionType::NAPTR)
        } else if v == 36 {
            Some(QuestionType::KX)
        } else if v == 37 {
            Some(QuestionType::CERT)
        } else if v == 39 {
            Some(QuestionType::DNAME)
        } else if v == 41 {
            Some(QuestionType::OPTION)
        } else if v == 42 {
            Some(QuestionType::APL)
        } else if v == 43 {
            Some(QuestionType::DS)
        } else if v == 44 {
            Some(QuestionType::SSHFP)
        } else if v == 45 {
            Some(QuestionType::IPSECKEY)
        } else if v == 46 {
            Some(QuestionType::RRSIG)
        } else if v == 47 {
            Some(QuestionType::NSEC)
        } else if v == 48 {
            Some(QuestionType::DNSKEY)
        } else if v == 49 {
            Some(QuestionType::DHCID)
        } else if v == 50 {
            Some(QuestionType::NSEC3)
        } else if v == 51 {
            Some(QuestionType::NSEC3PARAM)
        } else if v == 52 {
            Some(QuestionType::TLSA)
        } else if v == 53 {
            Some(QuestionType::SMIMEA)
        } else if v == 55 {
            Some(QuestionType::HIP)
        } else if v == 56 {
            Some(QuestionType::NINFO)
        } else if v == 57 {
            Some(QuestionType::RKEY)
        } else if v == 58 {
            Some(QuestionType::TALINK)
        } else if v == 59 {
            Some(QuestionType::CDS)
        } else if v == 60 {
            Some(QuestionType::CDNSKEY)
        } else if v == 61 {
            Some(QuestionType::OPENPGPKEY)
        } else if v == 62 {
            Some(QuestionType::CSYNC)
        } else if v == 63 {
            Some(QuestionType::ZONEMD)
        } else if v == 64 {
            Some(QuestionType::SVCB)
        } else if v == 65 {
            Some(QuestionType::HTTPS)
        } else if v == 99 {
            Some(QuestionType::SPF)
        } else if v == 100 {
            Some(QuestionType::UINFO)
        } else if v == 101 {
            Some(QuestionType::UID)
        } else if v == 102 {
            Some(QuestionType::GID)
        } else if v == 103 {
            Some(QuestionType::UNSPEC)
        } else if v == 104 {
            Some(QuestionType::NID)
        } else if v == 105 {
            Some(QuestionType::L32)
        } else if v == 106 {
            Some(QuestionType::L64)
        } else if v == 107 {
            Some(QuestionType::LP)
        } else if v == 108 {
            Some(QuestionType::EUI48)
        } else if v == 109 {
            Some(QuestionType::EUI64)
        } else if v == 249 {
            Some(QuestionType::TKEY)
        } else if v == 250 {
            Some(QuestionType::TSIG)
        } else if v == 251 {
            Some(QuestionType::IXFR)
        } else if v == 252 {
            Some(QuestionType::AXFR)
        } else if v == 253 {
            Some(QuestionType::MAILB)
        } else if v == 254 {
            Some(QuestionType::MAILA)
        } else {
            None
        }
    }

    pub fn code(self) -> (r: u16)
        ensures
            r == self.spec_code(),
    {
        match self {
            QuestionType::A => 1,
            QuestionType::NS => 2,
            QuestionType::MD => 3,
            QuestionType::MF => 4,
            QuestionType::CNAME => 5,
            QuestionType::SOA => 6,
            QuestionType::MB => 7,
            QuestionType::MG => 8,
            QuestionType::MR => 9,
            QuestionType::NULL => 10,
            QuestionType::WKS => 11,
            QuestionType::PTR => 12,
            QuestionType::HINFO => 13,
            QuestionType::MINFO => 14,
            QuestionType::MX => 15,
            QuestionType::TXT => 16,
            QuestionType::RP => 17,
            QuestionType::AFSDB => 18,
            QuestionType::X25 => 19,
            QuestionType::ISDN => 20,
            QuestionType::RT => 21,
            QuestionType::NSAP => 22,
            QuestionType::SIG => 24,
            QuestionType::KEY => 25,
            QuestionType::PX => 26,
            QuestionType::GPOS => 27,
            QuestionType::AAAA => 28,
            QuestionType::LOC => 29,
            QuestionType::NXT => 30,
            QuestionType::EID => 31,
            QuestionType::NB => 32,
            QuestionType::NBSTAT => 33,
            QuestionType::ATMA => 34,
            QuestionType::NAPTR => 35,
            QuestionType::KX => 36,
            QuestionType::CERT => 37,
            QuestionType::DNAME => 39,
            QuestionType::OPTION => 41,
            QuestionType::APL => 42,
            QuestionType::DS => 43,
            QuestionType::SSHFP => 44,
            QuestionType::IPSECKEY => 45,
            QuestionType::RRSIG => 46,
            QuestionType::NSEC => 47,
            QuestionType::DNSKEY => 48,
            QuestionType::DHCID => 49,
            QuestionType::NSEC3 => 50,
            QuestionType::NSEC3PARAM => 51,
            QuestionType::TLSA => 52,
            QuestionType::SMIMEA => 53,
            QuestionType::HIP => 55,
            QuestionType::NINFO => 56,
            QuestionType::RKEY => 57,
            QuestionType::TALINK => 58,
            QuestionType::CDS => 59,
            QuestionType::CDNSKEY => 60,
            QuestionType::OPENPGPKEY => 61,
            QuestionType::CSYNC => 62,
            QuestionType::ZONEMD => 63,
            QuestionType::SVCB => 64,
            QuestionType::HTTPS => 65,
            QuestionType::SPF => 99,
            QuestionType::UINFO => 100,
            QuestionType::UID => 101,
            QuestionType::GID => 102,
            QuestionType::UNSPEC => 103,
            QuestionType::NID => 104,
            QuestionType::L32 => 105,
            QuestionType::L64 => 106,
            QuestionType::LP => 107,
            QuestionType::EUI48 => 108,
            QuestionType::EUI64 => 109,
            QuestionType::TKEY => 249,
            QuestionType::TSIG => 250,
            QuestionType::IXFR => 251,
            QuestionType::AXFR => 252,
            QuestionType::MAILB => 253,
            QuestionType::MAILA => 254,
        }
    }

    pub fn from_u16(v: u16) -> (r: Option<QuestionType>)
        ensures
            r == QuestionType::spec_from_u16(v),
    {
        if v == 1 {
            Some(QuestionType::A)
        } else if v == 2 {
            Some(QuestionType::NS)
        } else if v == 3 {
            Some(QuestionType::MD)
        } else if v == 4 {
            Some(QuestionType::MF)
        } else if v == 5 {
            Some(QuestionType::CNAME)
        } else if v == 6 {
            Some(QuestionType::SOA)
        } else if v == 7 {
            Some(QuestionType::MB)
        } else if v == 8 {
            Some(QuestionType::MG)
        } else if v == 9 {
            Some(QuestionType::MR)
        } else if v == 10 {
            Some(QuestionType::NULL)
        } else if v == 11 {
            Some(QuestionType::WKS)
        } else if v == 12 {
            Some(QuestionType::PTR)
        } else if v == 13 {
            Some(QuestionType::HINFO)
        } else if v == 14 {
            Some(QuestionType::MINFO)
        } else if v == 15 {
            Some(QuestionType::MX)
        } else if v == 16 {
            Some(QuestionType::TXT)
        } else if v == 17 {
            Some(QuestionType::RP)
        } else if v == 18 {
            Some(QuestionType::AFSDB)
        } else if v == 19 {
            Some(QuestionType::X25)
        } else if v == 20 {
            Some(QuestionType::ISDN)
        } else if v == 21 {
            Some(QuestionType::RT)
        } else if v == 22 {
            Some(QuestionType::NSAP)
        } else if v == 24 {
            Some(QuestionType::SIG)
        } else if v == 25 {
            Some(QuestionType::KEY)
        } else if v == 26 {
            Some(QuestionType::PX)
        } else if v == 27 {
            Some(QuestionType::GPOS)
        } else if v == 28 {
            Some(QuestionType::AAAA)
        } else if v == 29 {
            Some(QuestionType::LOC)
        } else if v == 30 {
            Some(QuestionType::NXT)
        } else if v == 31 {
            Some(QuestionType::EID)
        } else if v == 32 {
            Some(QuestionType::NB)
        } else if v == 33 {
            Some(QuestionType::NBSTAT)
        } else if v == 34 {
            Some(QuestionType::ATMA)
        } else if v == 35 {
            Some(QuestionType::NAPTR)
        } else if v == 36 {
            Some(QuestionType::KX)
        } else if v == 37 {
            Some(QuestionType::CERT)
        } else if v == 39 {
            Some(QuestionType::DNAME)
        } else if v == 41 {
            Some(QuestionType::OPTION)
        } else if v == 42 {
            Some(QuestionType::APL)
        } else if v == 43 {
            Some(QuestionType::DS)
        } else if v == 44 {
            Some(QuestionType::SSHFP)
        } else if v == 45 {
            Some(QuestionType::IPSECKEY)
        } else if v == 46 {
            Some(QuestionType::RRSIG)
        } else if v == 47 {
            Some(QuestionType::NSEC)
        } else if v == 48 {
            Some(QuestionType::DNSKEY)
        } else if v == 49 {
            Some(QuestionType::DHCID)
        } else if v == 50 {
            Some(QuestionType::NSEC3)
        } else if v == 51 {
            Some(QuestionType::NSEC3PARAM)
        } else if v == 52 {
            Some(QuestionType::TLSA)
        } else if v == 53 {
            Some(QuestionType::SMIMEA)
        } else if v == 55 {
            Some(QuestionType::HIP)
        } else if v == 56 {
            Some(QuestionType::NINFO)
        } else if v == 57 {
            Some(QuestionType::RKEY)
        } else if v == 58 {
            Some(QuestionType::TALINK)
        } else if v == 59 {
            Some(QuestionType::CDS)
        } else if v == 60 {
            Some(QuestionType::CDNSKEY)
        } else if v == 61 {
            Some(QuestionType::OPENPGPKEY)
        } else if v == 62 {
            Some(QuestionType::CSYNC)
        } else if v == 63 {
            Some(QuestionType::ZONEMD)
        } else if v == 64 {
            Some(QuestionType::SVCB)
        } else if v == 65 {
            Some(QuestionType::HTTPS)
        } else if v == 99 {
            Some(QuestionType::SPF)
        } else if v == 100 {
            Some(QuestionType::UINFO)
        } else if v == 101 {
            Some(QuestionType::UID)
        } else if v == 102 {
            Some(QuestionType::GID)
        } else if v == 103 {
            Some(QuestionType::UNSPEC)
        } else if v == 104 {
            Some(QuestionType::NID)
        } else if v == 105 {
            Some(QuestionType::L32)
        } else if v == 106 {
            Some(QuestionType::L64)
        } else if v == 107 {
            Some(QuestionType::LP)
        } else if v == 108 {
            Some(QuestionType::EUI48)
        } else if v == 109 {
            Some(QuestionType::EUI64)
        } else if v == 249 {
            Some(QuestionType::TKEY)
        } else if v == 250 {
            Some(QuestionType::TSIG)
        } else if v == 251 {
            Some(QuestionType::IXFR)
        } else if v == 252 {
            Some(QuestionType::AXFR)
        } else if v == 253 {
            Some(QuestionType::MAILB)
        } else if v == 254 {
            Some(QuestionType::MAILA)
        } else {
            None
        }
    }
}

impl QuestionClass {
    /// The 16-bit wire code of each class.
    pub open spec fn spec_code(self) -> u16 {
        match self {
            QuestionClass::IN => 1,
            QuestionClass::CS => 2,
            QuestionClass::CH => 3,
            QuestionClass::HS => 4,
        }
    }

    /// The class a 16-bit wire code maps to, if any.
    pub open spec fn spec_from_u16(v: u16) -> Option<QuestionClass> {
        if v == 1 {
            Some(QuestionClass::IN)
        } else if v == 2 {
            Some(QuestionClass::CS)
        } else if v == 3 {
            Some(QuestionClass::CH)
        } else if v == 4 {
            Some(QuestionClass::HS)
        } else {
            None
        }
    }

    pub fn code(self) -> (r: u16)
        ensures
            r == self.spec_code(),
    {
        match self {
            QuestionClass::IN => 1,
            QuestionClass::CS => 2,
            QuestionClass::CH => 3,
            QuestionClass::HS => 4,
        }
    }

    pub fn from_u16(v: u16) -> (r: Option<QuestionClass>)
        ensures
            r == QuestionClass::spec_from_u16(v),
    {
        if v == 1 {
            Some(QuestionClass::IN)
        } else if v == 2 {
            Some(QuestionClass::CS)
        } else if v == 3 {
            Some(QuestionClass::CH)
        } else if v == 4 {
            Some(QuestionClass::HS)
        } else {
            None
        }
    }
}

/// The code of a record type always maps back to that record type.
pub proof fn lemma_qtype_code_injective(t: QuestionType)
    ensures
        QuestionType::spec_from_u16(t.spec_code()) == Some(t),
{
}

/// The code of a class always maps back to that class.
pub proof fn lemma_qclass_code_injective(c: QuestionClass)
    ensures
        QuestionClass::spec_from_u16(c.spec_code()) == Some(c),
{
}

/// The code of an opcode always maps back to that opcode.
pub proof fn lemma_opcode_code_injective(op: OpCode)
    ensures
        OpCode::spec_from_u8(op.spec_code()) == Some(op),
{
}

/// The code of a response code always maps back to that response code.
pub proof fn lemma_rcode_code_injective(rc: ResponseCode)
    ensures
        ResponseCode::spec_from_u8(rc.spec_code()) == Some(rc),
{
}

} // verus!

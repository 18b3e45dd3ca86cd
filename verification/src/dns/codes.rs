//! The codes of the wire format that stand for one of a fixed set: classes,
//! types, operations and response codes. A code outside the set is no member
//! of it: decoding it gives nothing, never a stand-in.

use vstd::prelude::*;

verus! {

/// The class of a name: the network it belongs to.
#[derive(Clone, Copy, Debug, PartialEq, Eq, Structural)]
pub enum DomainClass {
    Reserved,
    Internet,
    Chaos,
    Hesiod,
}

impl DomainClass {
    /// The class code on the wire.
    pub open spec fn spec_code(self) -> u16 {
        match self {
            DomainClass::Reserved => 0,
            DomainClass::Internet => 1,
            DomainClass::Chaos => 3,
            DomainClass::Hesiod => 4,
        }
    }

    /// The class code on the wire.
    pub fn code(self) -> (c: u16)
        ensures
            c == self.spec_code(),
    {
        match self {
            DomainClass::Reserved => 0,
            DomainClass::Internet => 1,
            DomainClass::Chaos => 3,
            DomainClass::Hesiod => 4,
        }
    }

    /// The variant whose code is `i`, where there is one.
    pub open spec fn spec_from_int(i: u16) -> Option<DomainClass> {
        match i {
            0 => Some(DomainClass::Reserved),
            1 => Some(DomainClass::Internet),
            3 => Some(DomainClass::Chaos),
            4 => Some(DomainClass::Hesiod),
            _ => None,
        }
    }

    /// The variant whose code is `i`; nothing where no variant has that code.
    pub fn from_int(i: u16) -> (r: Option<DomainClass>)
        ensures
            r == DomainClass::spec_from_int(i),
            match r {
                Some(t) => t.spec_code() == i,
                None => forall|t: DomainClass| t.spec_code() != i,
            },
    {
        match i {
            0 => Some(DomainClass::Reserved),
            1 => Some(DomainClass::Internet),
            3 => Some(DomainClass::Chaos),
            4 => Some(DomainClass::Hesiod),
            _ => None,
        }
    }

    /// No two variants share a code.
    pub proof fn lemma_code_injective(a: DomainClass, b: DomainClass)
        requires
            a.spec_code() == b.spec_code(),
        ensures
            a == b,
    {
    }

    /// Decoding a variant's code gives the variant back.
    pub proof fn lemma_from_code(t: DomainClass)
        ensures
            DomainClass::spec_from_int(t.spec_code()) == Some(t),
    {
    }

    /// The variant's name as text.
    pub open spec fn spec_label(self) -> Seq<char> {
        match self {
            DomainClass::Reserved => "Reserved"@,
            DomainClass::Internet => "Internet"@,
            DomainClass::Chaos => "Chaos"@,
            DomainClass::Hesiod => "Hesiod"@,
        }
    }

    /// The variant's name as text.
    pub fn label(self) -> (s: &'static str)
        ensures
            s@ == self.spec_label(),
    {
        match self {
            DomainClass::Reserved => "Reserved",
            DomainClass::Internet => "Internet",
            DomainClass::Chaos => "Chaos",
            DomainClass::Hesiod => "Hesiod",
        }
    }
}

/// The type of a question or of a record's data. Code 0 is not assigned to any
/// type on the wire and has a variant of its own.
#[allow(non_camel_case_types)]
#[derive(Clone, Copy, Debug, PartialEq, Eq, Structural)]
pub enum QueryType {
    Unknown,
    A,
    NS,
    MD,
    MF,
    CNAME,
    SOA,
    MB,
    MG,
    MR,
    NULL,
    WKS,
    PTR,
    HINFO,
    MINFO,
    MX,
    TXT,
    RP,
    AFSDB,
    X25,
    ISDN,
    RT,
    NSAP,
    NSAPPTR,
    SIG,
    KEY,
    PX,
    GPOS,
    AAAA,
    LOC,
    NXT,
    EID,
    NIMLOC,
}

impl QueryType {
    /// The type code on the wire.
    pub open spec fn spec_code(self) -> u16 {
        match self {
            QueryType::Unknown => 0,
            QueryType::A => 1,
            QueryType::NS => 2,
            QueryType::MD => 3,
            QueryType::MF => 4,
            QueryType::CNAME => 5,
            QueryType::SOA => 6,
            QueryType::MB => 7,
            QueryType::MG => 8,
            QueryType::MR => 9,
            QueryType::NULL => 10,
            QueryType::WKS => 11,
            QueryType::PTR => 12,
            QueryType::HINFO => 13,
            QueryType::MINFO => 14,
            QueryType::MX => 15,
            QueryType::TXT => 16,
            QueryType::RP => 17,
            QueryType::AFSDB => 18,
            QueryType::X25 => 19,
            QueryType::ISDN => 20,
            QueryType::RT => 21,
            QueryType::NSAP => 22,
            QueryType::NSAPPTR => 23,
            QueryType::SIG => 24,
            QueryType::KEY => 25,
            QueryType::PX => 26,
            QueryType::GPOS => 27,
            QueryType::AAAA => 28,
            QueryType::LOC => 29,
            QueryType::NXT => 30,
            QueryType::EID => 31,
            QueryType::NIMLOC => 32,
        }
    }

    /// The type code on the wire.
    pub fn code(self) -> (c: u16)
        ensures
            c == self.spec_code(),
    {
        match self {
            QueryType::Unknown => 0,
            QueryType::A => 1,
            QueryType::NS => 2,
            QueryType::MD => 3,
            QueryType::MF => 4,
            QueryType::CNAME => 5,
            QueryType::SOA => 6,
            QueryType::MB => 7,
            QueryType::MG => 8,
            QueryType::MR => 9,
            QueryType::NULL => 10,
            QueryType::WKS => 11,
            QueryType::PTR => 12,
            QueryType::HINFO => 13,
            QueryType::MINFO => 14,
            QueryType::MX => 15,
            QueryType::TXT => 16,
            QueryType::RP => 17,
            QueryType::AFSDB => 18,
            QueryType::X25 => 19,
            QueryType::ISDN => 20,
            QueryType::RT => 21,
            QueryType::NSAP => 22,
            QueryType::NSAPPTR => 23,
            QueryType::SIG => 24,
            QueryType::KEY => 25,
            QueryType::PX => 26,
            QueryType::GPOS => 27,
            QueryType::AAAA => 28,
            QueryType::LOC => 29,
            QueryType::NXT => 30,
            QueryType::EID => 31,
            QueryType::NIMLOC => 32,
        }
    }

    /// The variant whose code is `i`, where there is one.
    pub open spec fn spec_from_int(i: u16) -> Option<QueryType> {
        match i {
            0 => Some(QueryType::Unknown),
            1 => Some(QueryType::A),
            2 => Some(QueryType::NS),
            3 => Some(QueryType::MD),
            4 => Some(QueryType::MF),
            5 => Some(QueryType::CNAME),
            6 => Some(QueryType::SOA),
            7 => Some(QueryType::MB),
            8 => Some(QueryType::MG),
            9 => Some(QueryType::MR),
            10 => Some(QueryType::NULL),
            11 => Some(QueryType::WKS),
            12 => Some(QueryType::PTR),
            13 => Some(QueryType::HINFO),
            14 => Some(QueryType::MINFO),
            15 => Some(QueryType::MX),
            16 => Some(QueryType::TXT),
            17 => Some(QueryType::RP),
            18 => Some(QueryType::AFSDB),
            19 => Some(QueryType::X25),
            20 => Some(QueryType::ISDN),
            21 => Some(QueryType::RT),
            22 => Some(QueryType::NSAP),
            23 => Some(QueryType::NSAPPTR),
            24 => Some(QueryType::SIG),
            25 => Some(QueryType::KEY),
            26 => Some(QueryType::PX),
            27 => Some(QueryType::GPOS),
            28 => Some(QueryType::AAAA),
            29 => Some(QueryType::LOC),
            30 => Some(QueryType::NXT),
            31 => Some(QueryType::EID),
            32 => Some(QueryType::NIMLOC),
            _ => None,
        }
    }

    /// The variant whose code is `i`; nothing where no variant has that code.
    pub fn from_int(i: u16) -> (r: Option<QueryType>)
        ensures
            r == QueryType::spec_from_int(i),
            match r {
                Some(t) => t.spec_code() == i,
                None => forall|t: QueryType| t.spec_code() != i,
            },
    {
        match i {
            0 => Some(QueryType::Unknown),
            1 => Some(QueryType::A),
            2 => Some(QueryType::NS),
            3 => Some(QueryType::MD),
            4 => Some(QueryType::MF),
            5 => Some(QueryType::CNAME),
            6 => Some(QueryType::SOA),
            7 => Some(QueryType::MB),
            8 => Some(QueryType::MG),
            9 => Some(QueryType::MR),
            10 => Some(QueryType::NULL),
            11 => Some(QueryType::WKS),
            12 => Some(QueryType::PTR),
            13 => Some(QueryType::HINFO),
            14 => Some(QueryType::MINFO),
            15 => Some(QueryType::MX),
            16 => Some(QueryType::TXT),
            17 => Some(QueryType::RP),
            18 => Some(QueryType::AFSDB),
            19 => Some(QueryType::X25),
            20 => Some(QueryType::ISDN),
            21 => Some(QueryType::RT),
            22 => Some(QueryType::NSAP),
            23 => Some(QueryType::NSAPPTR),
            24 => Some(QueryType::SIG),
            25 => Some(QueryType::KEY),
            26 => Some(QueryType::PX),
            27 => Some(QueryType::GPOS),
            28 => Some(QueryType::AAAA),
            29 => Some(QueryType::LOC),
            30 => Some(QueryType::NXT),
            31 => Some(QueryType::EID),
            32 => Some(QueryType::NIMLOC),
            _ => None,
        }
    }

    /// No two variants share a code.
    pub proof fn lemma_code_injective(a: QueryType, b: QueryType)
        requires
            a.spec_code() == b.spec_code(),
        ensures
            a == b,
    {
    }

    /// Decoding a variant's code gives the variant back.
    pub proof fn lemma_from_code(t: QueryType)
        ensures
            QueryType::spec_from_int(t.spec_code()) == Some(t),
    {
    }

    /// The variant's name as text.
    pub open spec fn spec_label(self) -> Seq<char> {
        match self {
            QueryType::Unknown => "Unknown"@,
            QueryType::A => "A"@,
            QueryType::NS => "NS"@,
            QueryType::MD => "MD"@,
            QueryType::MF => "MF"@,
            QueryType::CNAME => "CNAME"@,
            QueryType::SOA => "SOA"@,
            QueryType::MB => "MB"@,
            QueryType::MG => "MG"@,
            QueryType::MR => "MR"@,
            QueryType::NULL => "NULL"@,
            QueryType::WKS => "WKS"@,
            QueryType::PTR => "PTR"@,
            QueryType::HINFO => "HINFO"@,
            QueryType::MINFO => "MINFO"@,
            QueryType::MX => "MX"@,
            QueryType::TXT => "TXT"@,
            QueryType::RP => "RP"@,
            QueryType::AFSDB => "AFSDB"@,
            QueryType::X25 => "X25"@,
            QueryType::ISDN => "ISDN"@,
            QueryType::RT => "RT"@,
            QueryType::NSAP => "NSAP"@,
            QueryType::NSAPPTR => "NSAPPTR"@,
            QueryType::SIG => "SIG"@,
            QueryType::KEY => "KEY"@,
            QueryType::PX => "PX"@,
            QueryType::GPOS => "GPOS"@,
            QueryType::AAAA => "AAAA"@,
            QueryType::LOC => "LOC"@,
            QueryType::NXT => "NXT"@,
            QueryType::EID => "EID"@,
            QueryType::NIMLOC => "NIMLOC"@,
        }
    }

    /// The variant's name as text.
    pub fn label(self) -> (s: &'static str)
        ensures
            s@ == self.spec_label(),
    {
        match self {
            QueryType::Unknown => "Unknown",
            QueryType::A => "A",
            QueryType::NS => "NS",
            QueryType::MD => "MD",
            QueryType::MF => "MF",
            QueryType::CNAME => "CNAME",
            QueryType::SOA => "SOA",
            QueryType::MB => "MB",
            QueryType::MG => "MG",
            QueryType::MR => "MR",
            QueryType::NULL => "NULL",
            QueryType::WKS => "WKS",
            QueryType::PTR => "PTR",
            QueryType::HINFO => "HINFO",
            QueryType::MINFO => "MINFO",
            QueryType::MX => "MX",
            QueryType::TXT => "TXT",
            QueryType::RP => "RP",
            QueryType::AFSDB => "AFSDB",
            QueryType::X25 => "X25",
            QueryType::ISDN => "ISDN",
            QueryType::RT => "RT",
            QueryType::NSAP => "NSAP",
            QueryType::NSAPPTR => "NSAPPTR",
            QueryType::SIG => "SIG",
            QueryType::KEY => "KEY",
            QueryType::PX => "PX",
            QueryType::GPOS => "GPOS",
            QueryType::AAAA => "AAAA",
            QueryType::LOC => "LOC",
            QueryType::NXT => "NXT",
            QueryType::EID => "EID",
            QueryType::NIMLOC => "NIMLOC",
        }
    }
}

/// The kind of query that a message carries.
#[derive(Clone, Copy, Debug, PartialEq, Eq, Structural)]
pub enum OpCode {
    Standard,
    Inverse,
    Status,
}

impl OpCode {
    /// The operation code on the wire.
    pub open spec fn spec_code(self) -> u16 {
        match self {
            OpCode::Standard => 0,
            OpCode::Inverse => 1,
            OpCode::Status => 2,
        }
    }

    /// The operation code on the wire.
    pub fn code(self) -> (c: u16)
        ensures
            c == self.spec_code(),
    {
        match self {
            OpCode::Standard => 0,
            OpCode::Inverse => 1,
            OpCode::Status => 2,
        }
    }

    /// The variant whose code is `i`, where there is one.
    pub open spec fn spec_from_int(i: u16) -> Option<OpCode> {
        match i {
            0 => Some(OpCode::Standard),
            1 => Some(OpCode::Inverse),
            2 => Some(OpCode::Status),
            _ => None,
        }
    }

    /// The variant whose code is `i`; nothing where no variant has that code.
    pub fn from_int(i: u16) -> (r: Option<OpCode>)
        ensures
            r == OpCode::spec_from_int(i),
            match r {
                Some(t) => t.spec_code() == i,
                None => forall|t: OpCode| t.spec_code() != i,
            },
    {
        match i {
            0 => Some(OpCode::Standard),
            1 => Some(OpCode::Inverse),
            2 => Some(OpCode::Status),
            _ => None,
        }
    }

    /// No two variants share a code.
    pub proof fn lemma_code_injective(a: OpCode, b: OpCode)
        requires
            a.spec_code() == b.spec_code(),
        ensures
            a == b,
    {
    }

    /// Decoding a variant's code gives the variant back.
    pub proof fn lemma_from_code(t: OpCode)
        ensures
            OpCode::spec_from_int(t.spec_code()) == Some(t),
    {
    }

    /// The variant's name as text.
    pub open spec fn spec_label(self) -> Seq<char> {
        match self {
            OpCode::Standard => "Standard"@,
            OpCode::Inverse => "Inverse"@,
            OpCode::Status => "Status"@,
        }
    }

    /// The variant's name as text.
    pub fn label(self) -> (s: &'static str)
        ensures
            s@ == self.spec_label(),
    {
        match self {
            OpCode::Standard => "Standard",
            OpCode::Inverse => "Inverse",
            OpCode::Status => "Status",
        }
    }
}

/// How the server fared with the query.
#[derive(Clone, Copy, Debug, PartialEq, Eq, Structural)]
pub enum ResponseCode {
    NoError,
    FormatError,
    ServerFailure,
    NameError,
    NotImplemented,
    Refused,
}

impl ResponseCode {
    /// The response code on the wire.
    pub open spec fn spec_code(self) -> u16 {
        match self {
            ResponseCode::NoError => 0,
            ResponseCode::FormatError => 1,
            ResponseCode::ServerFailure => 2,
            ResponseCode::NameError => 3,
            ResponseCode::NotImplemented => 4,
            ResponseCode::Refused => 5,
        }
    }

    /// The response code on the wire.
    pub fn code(self) -> (c: u16)
        ensures
            c == self.spec_code(),
    {
        match self {
            ResponseCode::NoError => 0,
            ResponseCode::FormatError => 1,
            ResponseCode::ServerFailure => 2,
            ResponseCode::NameError => 3,
            ResponseCode::NotImplemented => 4,
            ResponseCode::Refused => 5,
        }
    }

    /// The variant whose code is `i`, where there is one.
    pub open spec fn spec_from_int(i: u16) -> Option<ResponseCode> {
        match i {
            0 => Some(ResponseCode::NoError),
            1 => Some(ResponseCode::FormatError),
            2 => Some(ResponseCode::ServerFailure),
            3 => Some(ResponseCode::NameError),
            4 => Some(ResponseCode::NotImplemented),
            5 => Some(ResponseCode::Refused),
            _ => None,
        }
    }

    /// The variant whose code is `i`; nothing where no variant has that code.
    pub fn from_int(i: u16) -> (r: Option<ResponseCode>)
        ensures
            r == ResponseCode::spec_from_int(i),
            match r {
                Some(t) => t.spec_code() == i,
                None => forall|t: ResponseCode| t.spec_code() != i,
            },
    {
        match i {
            0 => Some(ResponseCode::NoError),
            1 => Some(ResponseCode::FormatError),
            2 => Some(ResponseCode::ServerFailure),
            3 => Some(ResponseCode::NameError),
            4 => Some(ResponseCode::NotImplemented),
            5 => Some(ResponseCode::Refused),
            _ => None,
        }
    }

    /// No two variants share a code.
    pub proof fn lemma_code_injective(a: ResponseCode, b: ResponseCode)
        requires
            a.spec_code() == b.spec_code(),
        ensures
            a == b,
    {
    }

    /// Decoding a variant's code gives the variant back.
    pub proof fn lemma_from_code(t: ResponseCode)
        ensures
            ResponseCode::spec_from_int(t.spec_code()) == Some(t),
    {
    }

    /// The variant's name as text.
    pub open spec fn spec_label(self) -> Seq<char> {
        match self {
            ResponseCode::NoError => "NoError"@,
            ResponseCode::FormatError => "FormatError"@,
            ResponseCode::ServerFailure => "ServerFailure"@,
            ResponseCode::NameError => "NameError"@,
            ResponseCode::NotImplemented => "NotImplemented"@,
            ResponseCode::Refused => "Refused"@,
        }
    }

    /// The variant's name as text.
    pub fn label(self) -> (s: &'static str)
        ensures
            s@ == self.spec_label(),
    {
        match self {
            ResponseCode::NoError => "NoError",
            ResponseCode::FormatError => "FormatError",
            ResponseCode::ServerFailure => "ServerFailure",
            ResponseCode::NameError => "NameError",
            ResponseCode::NotImplemented => "NotImplemented",
            ResponseCode::Refused => "Refused",
        }
    }
}

} // verus!

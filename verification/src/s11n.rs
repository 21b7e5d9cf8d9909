//! s11n == serialization. Structs that match the bytes that make up FastCGI messages.

use crate::endian::{NetworkU16, NetworkU32};
use crate::rawstruct::RawStruct;
use vstd::prelude::*;

verus! {

pub const FASTCGI_VERSION: u8 = 1;

// Variables for the RecordType::GetValues and GetValuesResult records.
pub const FCGI_MAX_CONNS: &'static str = "FCGI_MAX_CONNS";

pub const FCGI_MAX_REQS: &'static str = "FCGI_MAX_REQS";

pub const FCGI_MPXS_CONNS: &'static str = "FCGI_MPXS_CONNS";

/// The type byte of a record header. `Mystery` stands for every byte that names no type.
#[derive(Clone, Copy, Debug, PartialEq, Eq, Structural)]
pub enum RecordType {
    BeginRequest,
    AbortRequest,
    EndRequest,
    Params,
    Stdin,
    Stdout,
    Stderr,
    Data,
    GetValues,
    GetValuesResult,
    UnknownType,
    Mystery,
}

impl RecordType {
    /// The record type that a type byte names, if it names one.
    pub open spec fn spec_from_u8(n: u8) -> Option<RecordType> {
        if n == 1 {
            Some(RecordType::BeginRequest)
        } else if n == 2 {
            Some(RecordType::AbortRequest)
        } else if n == 3 {
            Some(RecordType::EndRequest)
        } else if n == 4 {
            Some(RecordType::Params)
        } else if n == 5 {
            Some(RecordType::Stdin)
        } else if n == 6 {
            Some(RecordType::Stdout)
        } else if n == 7 {
            Some(RecordType::Stderr)
        } else if n == 8 {
            Some(RecordType::Data)
        } else if n == 9 {
            Some(RecordType::GetValues)
        } else if n == 10 {
            Some(RecordType::GetValuesResult)
        } else if n == 11 {
            Some(RecordType::UnknownType)
        } else if n == 12 {
            Some(RecordType::Mystery)
        } else {
            None
        }
    }

    /// The type byte of a record type.
    pub open spec fn spec_to_u8(self) -> u8 {
        match self {
            RecordType::BeginRequest => 1,
            RecordType::AbortRequest => 2,
            RecordType::EndRequest => 3,
            RecordType::Params => 4,
            RecordType::Stdin => 5,
            RecordType::Stdout => 6,
            RecordType::Stderr => 7,
            RecordType::Data => 8,
            RecordType::GetValues => 9,
            RecordType::GetValuesResult => 10,
            RecordType::UnknownType => 11,
            RecordType::Mystery => 12,
        }
    }

    /// The type that a header's type byte stands for: `Mystery` where the byte names none.
    pub open spec fn of_byte(n: u8) -> RecordType {
        match RecordType::spec_from_u8(n) {
            Some(t) => t,
            None => RecordType::Mystery,
        }
    }

    #[verifier::when_used_as_spec(spec_from_u8)]
    pub fn from_u8(n: u8) -> (r: Option<RecordType>)
        ensures
            r == RecordType::spec_from_u8(n),
    {
        match n {
            1 => Some(RecordType::BeginRequest),
            2 => Some(RecordType::AbortRequest),
            3 => Some(RecordType::EndRequest),
            4 => Some(RecordType::Params),
            5 => Some(RecordType::Stdin),
            6 => Some(RecordType::Stdout),
            7 => Some(RecordType::Stderr),
            8 => Some(RecordType::Data),
            9 => Some(RecordType::GetValues),
            10 => Some(RecordType::GetValuesResult),
            11 => Some(RecordType::UnknownType),
            12 => Some(RecordType::Mystery),
            _ => None,
        }
    }

    #[verifier::when_used_as_spec(spec_to_u8)]
    pub fn to_u8(self) -> (n: u8)
        ensures
            n == self.spec_to_u8(),
    {
        match self {
            RecordType::BeginRequest => 1,
            RecordType::AbortRequest => 2,
            RecordType::EndRequest => 3,
            RecordType::Params => 4,
            RecordType::Stdin => 5,
            RecordType::Stdout => 6,
            RecordType::Stderr => 7,
            RecordType::Data => 8,
            RecordType::GetValues => 9,
            RecordType::GetValuesResult => 10,
            RecordType::UnknownType => 11,
            RecordType::Mystery => 12,
        }
    }
}

/// The role that the web server asks the application to play for one request.
#[derive(Clone, Copy, Debug, PartialEq, Eq, Structural)]
pub enum Role {
    Responder,
    Authorizer,
    Filter,
}

impl Role {
    /// The role that a number names, if it names one.
    pub open spec fn spec_from_u16(n: u16) -> Option<Role> {
        if n == 1 {
            Some(Role::Responder)
        } else if n == 2 {
            Some(Role::Authorizer)
        } else if n == 3 {
            Some(Role::Filter)
        } else {
            None
        }
    }

    /// The number of a role.
    pub open spec fn spec_to_u16(self) -> u16 {
        match self {
            Role::Responder => 1,
            Role::Authorizer => 2,
            Role::Filter => 3,
        }
    }

    #[verifier::when_used_as_spec(spec_from_u16)]
    pub fn from_u16(n: u16) -> (r: Option<Role>)
        ensures
            r == Role::spec_from_u16(n),
    {
        match n {
            1 => Some(Role::Responder),
            2 => Some(Role::Authorizer),
            3 => Some(Role::Filter),
            _ => None,
        }
    }

    #[verifier::when_used_as_spec(spec_to_u16)]
    pub fn to_u16(self) -> (n: u16)
        ensures
            n == self.spec_to_u16(),
    {
        match self {
            Role::Responder => 1,
            Role::Authorizer => 2,
            Role::Filter => 3,
        }
    }
}

/// How a request ended, as told to the web server in `EndRequest`.
#[derive(Clone, Copy, Debug, PartialEq, Eq, Structural)]
pub enum ProtocolStatus {
    RequestComplete,
    CantMultiplexConnections,
    Overloaded,
    UnknownRole,
}

impl ProtocolStatus {
    /// The status that a status byte names, if it names one.
    pub open spec fn spec_from_u8(n: u8) -> Option<ProtocolStatus> {
        if n == 0 {
            Some(ProtocolStatus::RequestComplete)
        } else if n == 1 {
            Some(ProtocolStatus::CantMultiplexConnections)
        } else if n == 2 {
            Some(ProtocolStatus::Overloaded)
        } else if n == 3 {
            Some(ProtocolStatus::UnknownRole)
        } else {
            None
        }
    }

    /// The status byte of a status.
    pub open spec fn spec_to_u8(self) -> u8 {
        match self {
            ProtocolStatus::RequestComplete => 0,
            ProtocolStatus::CantMultiplexConnections => 1,
            ProtocolStatus::Overloaded => 2,
            ProtocolStatus::UnknownRole => 3,
        }
    }

    #[verifier::when_used_as_spec(spec_from_u8)]
    pub fn from_u8(n: u8) -> (r: Option<ProtocolStatus>)
        ensures
            r == ProtocolStatus::spec_from_u8(n),
    {
        match n {
            0 => Some(ProtocolStatus::RequestComplete),
            1 => Some(ProtocolStatus::CantMultiplexConnections),
            2 => Some(ProtocolStatus::Overloaded),
            3 => Some(ProtocolStatus::UnknownRole),
            _ => None,
        }
    }

    #[verifier::when_used_as_spec(spec_to_u8)]
    pub fn to_u8(self) -> (n: u8)
        ensures
            n == self.spec_to_u8(),
    {
        match self {
            ProtocolStatus::RequestComplete => 0,
            ProtocolStatus::CantMultiplexConnections => 1,
            ProtocolStatus::Overloaded => 2,
            ProtocolStatus::UnknownRole => 3,
        }
    }
}

/// Each numbered enum goes to its number and back unchanged, and each number that names a
/// variant comes back from it.
pub proof fn lemma_numbering(t: RecordType, role: Role, status: ProtocolStatus, n: u8, m: u16)
    ensures
        RecordType::spec_from_u8(t.spec_to_u8()) == Some(t),
        Role::spec_from_u16(role.spec_to_u16()) == Some(role),
        ProtocolStatus::spec_from_u8(status.spec_to_u8()) == Some(status),
        RecordType::spec_from_u8(n) matches Some(t2) ==> t2.spec_to_u8() == n,
        Role::spec_from_u16(m) matches Some(r2) ==> r2.spec_to_u16() == m,
        ProtocolStatus::spec_from_u8(n) matches Some(s2) ==> s2.spec_to_u8() == n,
{
}

/// The eight bytes that start every record.
#[derive(Clone, Copy, Debug)]
pub struct FastcgiRecordHeader {
    pub version: u8,
    pub record_type: u8,
    pub request_id: NetworkU16,
    pub content_length: NetworkU16,
    pub padding_length: u8,
    pub reserved: u8,
}

/// The content of a `BeginRequest` record.
#[derive(Clone, Copy, Debug)]
pub struct BeginRequestBody {
    pub role: NetworkU16,
    pub flags: u8,
    pub reserved: [u8; 5],
}

/// The content of an `EndRequest` record.
#[derive(Clone, Copy, Debug)]
pub struct EndRequestBody {
    pub app_status: NetworkU32,
    pub protocol_status: u8,
    pub reserved: [u8; 3],
}

impl RawStruct for FastcgiRecordHeader {
    open spec fn size() -> nat {
        8
    }

    open spec fn layout(&self) -> Seq<u8> {
        seq![self.version, self.record_type] + self.request_id.wire()
            + self.content_length.wire() + seq![self.padding_length, self.reserved]
    }

    proof fn lemma_layout_len(&self) {
        self.request_id.lemma_wire();
        self.content_length.lemma_wire();
    }

    fn as_bytes(&self) -> (bytes: Vec<u8>) {
        let id = self.request_id.to_wire();
        let length = self.content_length.to_wire();
        let bytes = vec![
            self.version,
            self.record_type,
            id[0],
            id[1],
            length[0],
            length[1],
            self.padding_length,
            self.reserved,
        ];
        proof {
            self.request_id.lemma_wire();
            self.content_length.lemma_wire();
            assert(bytes@ =~= self.layout());
        }
        bytes
    }

    fn from_bytes(bytes: &[u8]) -> (value: Self) {
        let value = FastcgiRecordHeader {
            version: bytes[0],
            record_type: bytes[1],
            request_id: NetworkU16::from_wire(bytes[2], bytes[3]),
            content_length: NetworkU16::from_wire(bytes[4], bytes[5]),
            padding_length: bytes[6],
            reserved: bytes[7],
        };
        assert(value.layout() =~= bytes@.subrange(0, 8));
        value
    }
}

impl RawStruct for BeginRequestBody {
    open spec fn size() -> nat {
        8
    }

    open spec fn layout(&self) -> Seq<u8> {
        self.role.wire() + seq![self.flags] + self.reserved@
    }

    proof fn lemma_layout_len(&self) {
        self.role.lemma_wire();
    }

    fn as_bytes(&self) -> (bytes: Vec<u8>) {
        let role = self.role.to_wire();
        let bytes = vec![
            role[0],
            role[1],
            self.flags,
            self.reserved[0],
            self.reserved[1],
            self.reserved[2],
            self.reserved[3],
            self.reserved[4],
        ];
        proof {
            self.role.lemma_wire();
            assert(bytes@ =~= self.layout());
        }
        bytes
    }

    fn from_bytes(bytes: &[u8]) -> (value: Self) {
        let value = BeginRequestBody {
            role: NetworkU16::from_wire(bytes[0], bytes[1]),
            flags: bytes[2],
            reserved: [bytes[3], bytes[4], bytes[5], bytes[6], bytes[7]],
        };
        assert(value.layout() =~= bytes@.subrange(0, 8));
        value
    }
}

impl RawStruct for EndRequestBody {
    open spec fn size() -> nat {
        8
    }

    open spec fn layout(&self) -> Seq<u8> {
        self.app_status.wire() + seq![self.protocol_status] + self.reserved@
    }

    proof fn lemma_layout_len(&self) {
        self.app_status.lemma_wire();
    }

    fn as_bytes(&self) -> (bytes: Vec<u8>) {
        let status = self.app_status.to_wire();
        let bytes = vec![
            status[0],
            status[1],
            status[2],
            status[3],
            self.protocol_status,
            self.reserved[0],
            self.reserved[1],
            self.reserved[2],
        ];
        proof {
            self.app_status.lemma_wire();
            assert(bytes@ =~= self.layout());
        }
        bytes
    }

    fn from_bytes(bytes: &[u8]) -> (value: Self) {
        let value = EndRequestBody {
            app_status: NetworkU32::from_wire(bytes[0], bytes[1], bytes[2], bytes[3]),
            protocol_status: bytes[4],
            reserved: [bytes[5], bytes[6], bytes[7]],
        };
        assert(value.layout() =~= bytes@.subrange(0, 8));
        value
    }
}

} // verus!

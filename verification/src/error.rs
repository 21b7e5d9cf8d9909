//! The ways in which decoding, encoding and request assembly fail.

use vstd::prelude::*;

verus! {

/// The family a failure belongs to, under the names of the I/O error kinds it surfaces as.
#[derive(Clone, Copy, Debug, PartialEq, Eq, Structural)]
pub enum ErrorKind {
    /// What the peer sent is not acceptable.
    InvalidData,
    /// What the application asked to send is not acceptable.
    InvalidInput,
}

/// A failure of the protocol core.
#[derive(Clone, Copy, Debug, PartialEq, Eq, Structural)]
pub enum Error {
    /// A record header carries a protocol version other than 1.
    UnexpectedVersion { version: u8 },
    /// A `BeginRequest` names a role that is none of Responder, Authorizer, Filter.
    UnknownRole { request_id: u16, role: u16 },
    /// The peer sent a record of a type that only the application side may send.
    IllegalRecordType { request_id: u16, record_type: u8 },
    /// The content of a record does not have the layout its type prescribes.
    MalformedRecord { request_id: u16, record_type: u8 },
    /// The application tried to send a record of a type that only the peer may send.
    IllegalRecord { request_id: u16 },
    /// The content of an outbound record is longer than one record can carry.
    RecordTooLong { request_id: u16 },
    /// The first record seen for a request id is not `BeginRequest`.
    MissingBeginRequest { request_id: u16 },
    /// A second `BeginRequest` arrived for a request id that is in progress.
    DuplicateBeginRequest { request_id: u16 },
    /// A record arrived at a point of the request where its type is not expected.
    UnexpectedRecord { request_id: u16 },
    /// A message arrived without the body stream that every request has.
    MissingBody { request_id: u16 },
    /// A body frame that carries no record was handed to a codec that cannot express it.
    MissingChunk { request_id: u16 },
}

impl Error {
    /// The family of this failure.
    pub open spec fn spec_kind(self) -> ErrorKind {
        match self {
            Error::IllegalRecord { .. } | Error::RecordTooLong { .. } => ErrorKind::InvalidInput,
            _ => ErrorKind::InvalidData,
        }
    }

    /// The request that the failure belongs to, where one is known.
    pub open spec fn spec_request_id(self) -> Option<u16> {
        match self {
            Error::UnexpectedVersion { .. } => None,
            Error::UnknownRole { request_id, .. } => Some(request_id),
            Error::IllegalRecordType { request_id, .. } => Some(request_id),
            Error::MalformedRecord { request_id, .. } => Some(request_id),
            Error::IllegalRecord { request_id } => Some(request_id),
            Error::RecordTooLong { request_id } => Some(request_id),
            Error::MissingBeginRequest { request_id } => Some(request_id),
            Error::DuplicateBeginRequest { request_id } => Some(request_id),
            Error::UnexpectedRecord { request_id } => Some(request_id),
            Error::MissingBody { request_id } => Some(request_id),
            Error::MissingChunk { request_id } => Some(request_id),
        }
    }

    #[verifier::when_used_as_spec(spec_kind)]
    pub fn kind(self) -> (k: ErrorKind)
        ensures
            k == self.spec_kind(),
    {
        match self {
            Error::IllegalRecord { .. } | Error::RecordTooLong { .. } => ErrorKind::InvalidInput,
            _ => ErrorKind::InvalidData,
        }
    }

    #[verifier::when_used_as_spec(spec_request_id)]
    pub fn request_id(self) -> (id: Option<u16>)
        ensures
            id == self.spec_request_id(),
    {
        match self {
            Error::UnexpectedVersion { .. } => None,
            Error::UnknownRole { request_id, .. } => Some(request_id),
            Error::IllegalRecordType { request_id, .. } => Some(request_id),
            Error::MalformedRecord { request_id, .. } => Some(request_id),
            Error::IllegalRecord { request_id } => Some(request_id),
            Error::RecordTooLong { request_id } => Some(request_id),
            Error::MissingBeginRequest { request_id } => Some(request_id),
            Error::DuplicateBeginRequest { request_id } => Some(request_id),
            Error::UnexpectedRecord { request_id } => Some(request_id),
            Error::MissingBody { request_id } => Some(request_id),
            Error::MissingChunk { request_id } => Some(request_id),
        }
    }
}

} // verus!

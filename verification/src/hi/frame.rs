//! Frames: records sorted into the messages and body streams of multiplexed requests.

use crate::error::Error;
use crate::lowlevel::{Body, FastcgiRecord, Record};
use vstd::prelude::*;

verus! {

pub type RequestId = u64;

#[derive(Debug, PartialEq, Eq)]
pub enum Frame {
    /// The record that begins a request or a response.
    Message { id: RequestId, message: FastcgiRecord, body: bool, solo: bool },
    /// One record of a body stream, or with `None` the end of that stream.
    Body { id: RequestId, chunk: Option<FastcgiRecord> },
    /// A failure that belongs to one request, or to request 0 where none is known.
    Error { id: RequestId, error: Error },
}

/// What a frame says, with every record taken by its view.
pub enum FrameView {
    Message { id: RequestId, message: Record, body: bool, solo: bool },
    Body { id: RequestId, chunk: Option<Record> },
    Error { id: RequestId, error: Error },
}

impl View for Frame {
    type V = FrameView;

    open spec fn view(&self) -> FrameView {
        match *self {
            Frame::Message { id, message, body, solo } => FrameView::Message {
                id,
                message: message@,
                body,
                solo,
            },
            Frame::Body { id, chunk } => FrameView::Body {
                id,
                chunk: match chunk {
                    Some(record) => Some(record@),
                    None => None,
                },
            },
            Frame::Error { id, error } => FrameView::Error { id, error },
        }
    }
}

impl FrameView {
    /// The request that the frame belongs to.
    pub open spec fn id(self) -> RequestId {
        match self {
            FrameView::Message { id, .. } => id,
            FrameView::Body { id, .. } => id,
            FrameView::Error { id, .. } => id,
        }
    }
}

impl Frame {
    /// The request that the frame belongs to.
    pub fn id(&self) -> (id: RequestId)
        ensures
            id == self@.id(),
    {
        match self {
            Frame::Message { id, .. } => *id,
            Frame::Body { id, .. } => *id,
            Frame::Error { id, .. } => *id,
        }
    }
}

/// The frame that an incoming record becomes: `BeginRequest` begins a message that has a
/// body, an empty `Stdin` and `AbortRequest` end the body, any other record is a chunk of
/// the body.
pub open spec fn frame_of_record(record: Record) -> FrameView {
    let id = record.request_id as RequestId;
    match record.body {
        Body::BeginRequest { .. } => FrameView::Message {
            id,
            message: record,
            body: true,
            solo: false,
        },
        Body::Stdin(bytes) => if bytes.len() == 0 {
            FrameView::Body { id, chunk: None }
        } else {
            FrameView::Body { id, chunk: Some(record) }
        },
        Body::AbortRequest => FrameView::Body { id, chunk: None },
        _ => FrameView::Body { id, chunk: Some(record) },
    }
}

/// The frame that a failure of the record codec becomes: it belongs to the request that the
/// failure names, or to request 0.
pub open spec fn frame_of_error(error: Error) -> FrameView {
    FrameView::Error {
        id: match error.spec_request_id() {
            Some(id) => id as RequestId,
            None => 0,
        },
        error,
    }
}

} // verus!

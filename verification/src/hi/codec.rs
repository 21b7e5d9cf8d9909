//! The frame codec: the record codec, with each record sorted into the message or the body
//! stream of its request.

use crate::buffer::contents;
use crate::error::Error;
use crate::hi::frame::{frame_of_error, frame_of_record, Frame, FrameView, RequestId};
use crate::lowlevel::{
    decode_record, encode_outcome, record_span, FastcgiLowlevelCodec, FastcgiRecordBody,
    HEADER_LENGTH, MAX_CONTENT_LENGTH,
};
use bytes::BytesMut;
use vstd::prelude::*;

verus! {

#[derive(Debug, Default)]
pub struct FastcgiMultiplexedPipelinedCodec {
    inner: FastcgiLowlevelCodec,
}

/// The frame that the bytes of one whole record from the peer become.
pub open spec fn decode_frame(frame: Seq<u8>) -> FrameView {
    match decode_record(frame) {
        Ok(record) => frame_of_record(record),
        Err(error) => frame_of_error(error),
    }
}

/// What comes of laying a frame out for the peer: the bytes to append, or the failure.
pub open spec fn encode_frame(frame: FrameView) -> Result<Seq<u8>, Error> {
    match frame {
        FrameView::Message { message, .. } => encode_outcome(message),
        FrameView::Body { chunk: Some(record), .. } => encode_outcome(record),
        FrameView::Body { chunk: None, .. } => Ok(Seq::empty()),
        FrameView::Error { error, .. } => Err(error),
    }
}

impl FastcgiMultiplexedPipelinedCodec {
    /// Takes the next frame off the front of the buffer.
    ///
    /// While the buffer does not hold a whole record nothing is taken and the answer is
    /// `Ok(None)`. Once it does, exactly that record leaves the buffer and the answer is
    /// its frame; a record that the record codec refuses becomes an error frame. This
    /// function itself never fails.
    pub fn decode(&mut self, buf: &mut BytesMut) -> (r: Result<Option<Frame>, Error>)
        ensures
            match record_span(contents(*old(buf))) {
                None => r matches Ok(None) && contents(*final(buf)) == contents(*old(buf)),
                Some(total) => {
                    &&& contents(*final(buf)) == contents(*old(buf)).skip(total as int)
                    &&& r matches Ok(Some(frame))
                    &&& frame@ == decode_frame(contents(*old(buf)).take(total as int))
                },
            },
    {
        match self.inner.decode(buf) {
            Ok(Some(record)) => {
                let id: RequestId = record.request_id as RequestId;
                let ends_body = match &record.body {
                    FastcgiRecordBody::Stdin(buf) => buf.is_empty(),
                    FastcgiRecordBody::AbortRequest => true,
                    _ => false,
                };
                let begins = match &record.body {
                    FastcgiRecordBody::BeginRequest(_) => true,
                    _ => false,
                };
                if begins {
                    Ok(Some(Frame::Message { id, message: record, body: true, solo: false }))
                } else if ends_body {
                    Ok(Some(Frame::Body { id, chunk: None }))
                } else {
                    Ok(Some(Frame::Body { id, chunk: Some(record) }))
                }
            },
            Ok(None) => Ok(None),
            Err(error) => {
                let id: RequestId = match error.request_id() {
                    Some(id) => id as RequestId,
                    None => 0,
                };
                Ok(Some(Frame::Error { id, error }))
            },
        }
    }

    /// Appends the record that a frame carries to the buffer. The end of a body carries no
    /// record and appends nothing; an error frame fails with its error.
    pub fn encode(&mut self, msg: Frame, buf: &mut BytesMut) -> (r: Result<(), Error>)
        requires
            contents(*old(buf)).len() + HEADER_LENGTH + MAX_CONTENT_LENGTH <= usize::MAX,
        ensures
            match encode_frame(msg@) {
                Ok(bytes) => r is Ok && contents(*final(buf)) == contents(*old(buf)) + bytes,
                Err(e) => r == Err::<(), Error>(e) && contents(*final(buf)) == contents(
                    *old(buf),
                ),
            },
    {
        match msg {
            Frame::Message { id, message, body, solo } => self.inner.encode(message, buf),
            Frame::Body { id, chunk } => {
                if let Some(rec) = chunk {
                    self.inner.encode(rec, buf)
                } else {
                    assert(contents(*buf) + Seq::<u8>::empty() =~= contents(*buf));
                    Ok(())
                }
            },
            Frame::Error { id, error } => Err(error),
        }
    }
}

} // verus!

//! The raw record codec: records with their content left as the bytes it came in, sorted
//! into frames as they are read.

use crate::byteorder_ext::{htons, ntohs};
use crate::easy_buf::{easy_contents, EasyBuffer};
use crate::endian::{be16, be16_bytes, lemma_be16_of_bytes};
use crate::error::Error;
use crate::hi::frame::RequestId;
use crate::lowlevel::{
    header_encoding, lemma_header_fields, record_span, HEADER_LENGTH, MAX_CONTENT_LENGTH,
};
use crate::rawstruct::{as_bytes, from_bytes, RawStruct};
use crate::s11n::{FastcgiRecordHeader, RecordType, FASTCGI_VERSION};
use vstd::prelude::*;
use vstd::slice::slice_to_vec;

verus! {

/// Whether records of this type carry a stream, which an empty record ends.
pub fn is_stream(record_type: RecordType) -> (b: bool)
    ensures
        b == (record_type is Params || record_type is Stdin || record_type is Stdout
            || record_type is Stderr || record_type is Data),
{
    match record_type {
        RecordType::Params
        | RecordType::Stdin
        | RecordType::Stdout
        | RecordType::Stderr
        | RecordType::Data => true,
        _ => false,
    }
}

#[derive(Debug, PartialEq, Eq)]
pub struct FastcgiRecord {
    pub record_type: RecordType,
    pub request_id: u16,
    pub content: Vec<u8>,
}

/// What a raw record says.
pub struct RawRecord {
    pub record_type: RecordType,
    pub request_id: u16,
    pub content: Seq<u8>,
}

impl View for FastcgiRecord {
    type V = RawRecord;

    open spec fn view(&self) -> RawRecord {
        RawRecord {
            record_type: self.record_type,
            request_id: self.request_id,
            content: self.content@,
        }
    }
}

/// A raw record in its place among the messages and body streams of multiplexed requests.
#[derive(Debug, PartialEq, Eq)]
pub enum Frame {
    Message { id: RequestId, message: FastcgiRecord, body: bool, solo: bool },
    Body { id: RequestId, chunk: Option<FastcgiRecord> },
    Error { id: RequestId, error: Error },
}

/// What a frame of raw records says.
pub enum RawFrame {
    Message { id: RequestId, message: RawRecord, body: bool, solo: bool },
    Body { id: RequestId, chunk: Option<RawRecord> },
    Error { id: RequestId, error: Error },
}

impl View for Frame {
    type V = RawFrame;

    open spec fn view(&self) -> RawFrame {
        match *self {
            Frame::Message { id, message, body, solo } => RawFrame::Message {
                id,
                message: message@,
                body,
                solo,
            },
            Frame::Body { id, chunk } => RawFrame::Body {
                id,
                chunk: match chunk {
                    Some(record) => Some(record@),
                    None => None,
                },
            },
            Frame::Error { id, error } => RawFrame::Error { id, error },
        }
    }
}

/// Whether records of this type are for the application side alone to send.
pub open spec fn outbound(record_type: RecordType) -> bool {
    record_type is EndRequest || record_type is Stdout || record_type is Stderr
        || record_type is GetValuesResult || record_type is UnknownType
}

impl RawRecord {
    /// The bytes of the record on the wire: header, then content, no padding.
    pub open spec fn encoding(self) -> Seq<u8> {
        header_encoding(
            self.record_type.spec_to_u8(),
            self.request_id,
            self.content.len() as u16,
        ) + self.content
    }

    /// The frame that the record becomes when it arrives: `BeginRequest` begins a message
    /// that has a body; an empty `Stdin` and an empty `AbortRequest` end the body; a record
    /// that only the application side may send is an error; any other is a chunk of the
    /// body.
    pub open spec fn arriving(self) -> RawFrame {
        let id = self.request_id as RequestId;
        if self.record_type is BeginRequest {
            RawFrame::Message { id, message: self, body: true, solo: false }
        } else if (self.record_type is AbortRequest || self.record_type is Stdin)
            && self.content.len() == 0 {
            RawFrame::Body { id, chunk: None }
        } else if outbound(self.record_type) {
            RawFrame::Error {
                id,
                error: Error::IllegalRecordType {
                    request_id: self.request_id,
                    record_type: self.record_type.spec_to_u8(),
                },
            }
        } else {
            RawFrame::Body { id, chunk: Some(self) }
        }
    }

    /// What comes of laying the record out for the peer: its bytes, or the reason why it
    /// cannot be sent.
    pub open spec fn leaving(self) -> Result<Seq<u8>, Error> {
        if !outbound(self.record_type) {
            Err(Error::IllegalRecord { request_id: self.request_id })
        } else if self.content.len() > MAX_CONTENT_LENGTH {
            Err(Error::RecordTooLong { request_id: self.request_id })
        } else {
            Ok(self.encoding())
        }
    }
}

/// The raw record that the bytes of one whole record spell.
pub open spec fn raw_record(frame: Seq<u8>) -> RawRecord {
    RawRecord {
        record_type: RecordType::of_byte(frame[1]),
        request_id: be16(frame[2], frame[3]) as u16,
        content: frame.subrange(HEADER_LENGTH as int, HEADER_LENGTH + be16(frame[4], frame[5])),
    }
}

/// What comes of laying a frame out for the peer: the bytes to append, or the failure.
pub open spec fn frame_leaving(frame: RawFrame) -> Result<Seq<u8>, Error> {
    match frame {
        RawFrame::Message { message, .. } => message.leaving(),
        RawFrame::Body { chunk: Some(record), .. } => record.leaving(),
        RawFrame::Body { id, chunk: None } => Err(
            Error::MissingChunk { request_id: (id % 0x1_0000) as u16 },
        ),
        RawFrame::Error { error, .. } => Err(error),
    }
}

#[derive(Clone, Copy, Debug, Default)]
pub struct FastcgiCodec;

impl FastcgiCodec {
    /// Takes the next record off the front of the buffer, as a frame.
    ///
    /// While the buffer does not hold a whole record (header, content and padding) nothing
    /// is taken and the answer is `Ok(None)`. Once it does, exactly the bytes of that record
    /// leave the buffer. A record of another protocol version than 1 is a failure; any
    /// other record is answered with its frame.
    pub fn decode(&mut self, buf: &mut EasyBuffer) -> (r: Result<Option<Frame>, Error>)
        ensures
            match record_span(easy_contents(*old(buf))) {
                None => r matches Ok(None) && easy_contents(*final(buf)) == easy_contents(
                    *old(buf),
                ),
                Some(total) => {
                    let frame = easy_contents(*old(buf)).take(total as int);
                    &&& easy_contents(*final(buf)) == easy_contents(*old(buf)).skip(total as int)
                    &&& if frame[0] != FASTCGI_VERSION {
                        r matches Err(e) && e == (Error::UnexpectedVersion { version: frame[0] })
                    } else {
                        r matches Ok(Some(f)) && f@ == raw_record(frame).arriving()
                    }
                },
            },
    {
        let ghost input = easy_contents(*buf);
        if buf.len() < HEADER_LENGTH {
            return Ok(None);
        }
        let header: FastcgiRecordHeader = from_bytes(buf.as_slice());
        proof {
            lemma_header_fields(header, input);
        }
        let content_len = ntohs(header.content_length) as usize;
        let padding_len = header.padding_length as usize;
        if buf.len() - HEADER_LENGTH < content_len + padding_len {
            return Ok(None);
        }
        let ghost total = (HEADER_LENGTH + content_len + padding_len) as int;
        let ghost frame = input.take(total);
        let _ = buf.drain_to(HEADER_LENGTH);
        let content_buf = buf.drain_to(content_len);
        let content = slice_to_vec(content_buf.as_slice());
        let _ = buf.drain_to(padding_len);
        proof {
            assert(easy_contents(*buf) =~= input.skip(total));
            assert(content@ =~= raw_record(frame).content);
        }

        if header.version != FASTCGI_VERSION {
            return Err(Error::UnexpectedVersion { version: header.version });
        }
        let record_type = match RecordType::from_u8(header.record_type) {
            Some(record_type) => record_type,
            None => RecordType::Mystery,
        };
        let request_id = ntohs(header.request_id);
        let id = request_id as RequestId;
        let is_empty = content.len() == 0;
        let message = FastcgiRecord { record_type, request_id, content };

        let frame = match record_type {
            RecordType::BeginRequest => Frame::Message { id, message, body: true, solo: false },
            RecordType::AbortRequest if is_empty => Frame::Body { id, chunk: None },
            RecordType::Stdin if is_empty => Frame::Body { id, chunk: None },
            RecordType::GetValuesResult
            | RecordType::EndRequest
            | RecordType::Stdout
            | RecordType::Stderr
            | RecordType::UnknownType => Frame::Error {
                id,
                error: Error::IllegalRecordType { request_id, record_type: record_type.to_u8() },
            },
            _ => Frame::Body { id, chunk: Some(message) },
        };
        Ok(Some(frame))
    }

    /// Appends the record that a frame carries to the bytes to send: header, content, no
    /// padding.
    ///
    /// A frame without a record cannot be sent, and an error frame fails with its error. A
    /// record of a type that only the peer may send is refused, and so is one whose content
    /// is longer than 65,535 bytes. On every failure the bytes stay as they are.
    pub fn encode(&mut self, msg: Frame, buf: &mut Vec<u8>) -> (r: Result<(), Error>)
        ensures
            match frame_leaving(msg@) {
                Ok(bytes) => r is Ok && final(buf)@ == old(buf)@ + bytes,
                Err(e) => r == Err::<(), Error>(e) && final(buf)@ == old(buf)@,
            },
    {
        let mut record = match msg {
            Frame::Message { id: _, message, body: _, solo: _ } => message,
            Frame::Body { id, chunk: message } => match message {
                Some(message) => message,
                None => {
                    return Err(Error::MissingChunk { request_id: (id % 0x1_0000) as u16 });
                },
            },
            Frame::Error { id: _, error } => {
                return Err(error);
            },
        };
        let ghost raw = record@;
        match record.record_type {
            RecordType::EndRequest
            | RecordType::Stdout
            | RecordType::Stderr
            | RecordType::GetValuesResult
            | RecordType::UnknownType => {},
            _ => {
                return Err(Error::IllegalRecord { request_id: record.request_id });
            },
        }
        if record.content.len() > MAX_CONTENT_LENGTH {
            return Err(Error::RecordTooLong { request_id: record.request_id });
        }
        let header = FastcgiRecordHeader {
            version: FASTCGI_VERSION,
            record_type: record.record_type.to_u8(),
            request_id: htons(record.request_id),
            content_length: htons(record.content.len() as u16),
            padding_length: 0,
            reserved: 0,
        };
        let mut header_bytes = as_bytes(&header);
        assert(header_bytes@ =~= header_encoding(
            raw.record_type.spec_to_u8(),
            raw.request_id,
            raw.content.len() as u16,
        ));
        buf.append(&mut header_bytes);
        buf.append(&mut record.content);
        assert(buf@ =~= old(buf)@ + raw.encoding());
        Ok(())
    }
}

/// A raw record that is laid out and read back is the same record: the bytes of a record
/// whose content one record can carry, followed by anything, begin with one whole record of
/// exactly their length, and those bytes spell the record.
pub proof fn lemma_raw_round_trip(record: RawRecord, rest: Seq<u8>)
    requires
        record.content.len() <= MAX_CONTENT_LENGTH,
    ensures
        record_span(record.encoding() + rest) == Some(record.encoding().len()),
        (record.encoding() + rest).take(record.encoding().len() as int) == record.encoding(),
        raw_record(record.encoding()) == record,
{
    let length = record.content.len() as u16;
    let header = header_encoding(record.record_type.spec_to_u8(), record.request_id, length);
    let frame = record.encoding();
    let all = frame + rest;
    lemma_be16_of_bytes(record.request_id);
    lemma_be16_of_bytes(length);
    assert(header.len() == 8);
    assert(header[1] == record.record_type.spec_to_u8());
    assert(header[2] == be16_bytes(record.request_id)[0] && header[3] == be16_bytes(
        record.request_id,
    )[1]);
    assert(header[4] == be16_bytes(length)[0] && header[5] == be16_bytes(length)[1]);
    assert(header[6] == 0);
    assert(frame[1] == header[1] && frame[2] == header[2] && frame[3] == header[3] && frame[4]
        == header[4] && frame[5] == header[5] && frame[6] == header[6]);
    assert(all[4] == frame[4] && all[5] == frame[5] && all[6] == frame[6]);
    assert(all.take(frame.len() as int) =~= frame);
    assert(raw_record(frame).content =~= record.content);
}

} // verus!

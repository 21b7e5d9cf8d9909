use bytes::BytesMut;
use tokio_fastcgi::error::Error;
use tokio_fastcgi::hi::codec::FastcgiMultiplexedPipelinedCodec;
use tokio_fastcgi::hi::frame::Frame;
use tokio_fastcgi::lowlevel::{BeginRequest, EndRequest, FastcgiRecord, FastcgiRecordBody};
use tokio_fastcgi::s11n::{ProtocolStatus, Role};

fn bytes(content: &[u8]) -> BytesMut {
    BytesMut::from(content.to_vec())
}

fn decode_frame(content: &[u8]) -> (Result<Option<Frame>, Error>, Vec<u8>) {
    let mut buffer = bytes(content);
    let result = FastcgiMultiplexedPipelinedCodec::default().decode(&mut buffer);
    (result, buffer.to_vec())
}

fn encode_frame(frame: Frame) -> (Result<(), Error>, Vec<u8>) {
    let mut buffer = bytes(&[0xAA]);
    let result = FastcgiMultiplexedPipelinedCodec::default().encode(frame, &mut buffer);
    (result, buffer.to_vec())
}

#[test]
fn begin_request_becomes_a_message_with_body() {
    let (result, rest) = decode_frame(&[1, 1, 0, 1, 0, 8, 0, 0, 0, 1, 0, 0, 0, 0, 0, 0]);
    assert_eq!(
        result,
        Ok(Some(Frame::Message {
            id: 1,
            message: FastcgiRecord {
                request_id: 1,
                body: FastcgiRecordBody::BeginRequest(BeginRequest {
                    role: Role::Responder,
                    keep_connection: false
                }),
            },
            body: true,
            solo: false,
        }))
    );
    assert!(rest.is_empty());
}

#[test]
fn empty_stdin_becomes_end_of_body() {
    let (result, rest) = decode_frame(&[1, 5, 0, 3, 0, 0, 0, 0, 0x11]);
    assert_eq!(result, Ok(Some(Frame::Body { id: 3, chunk: None })));
    assert_eq!(rest, vec![0x11]);
}

#[test]
fn abort_request_becomes_end_of_body() {
    let (result, _) = decode_frame(&[1, 2, 0, 3, 0, 0, 0, 0]);
    assert_eq!(result, Ok(Some(Frame::Body { id: 3, chunk: None })));
}

#[test]
fn other_records_become_body_chunks() {
    let (result, _) = decode_frame(&[1, 5, 0, 3, 0, 1, 0, 0, b'x']);
    assert_eq!(
        result,
        Ok(Some(Frame::Body {
            id: 3,
            chunk: Some(FastcgiRecord { request_id: 3, body: FastcgiRecordBody::Stdin(bytes(b"x")) }),
        }))
    );
    let (result, _) = decode_frame(&[1, 4, 0, 3, 0, 0, 0, 0]);
    assert_eq!(
        result,
        Ok(Some(Frame::Body {
            id: 3,
            chunk: Some(FastcgiRecord { request_id: 3, body: FastcgiRecordBody::Params(Vec::new()) }),
        }))
    );
    let (result, _) = decode_frame(&[1, 8, 0, 3, 0, 0, 0, 0]);
    assert_eq!(
        result,
        Ok(Some(Frame::Body {
            id: 3,
            chunk: Some(FastcgiRecord { request_id: 3, body: FastcgiRecordBody::Data(bytes(b"")) }),
        }))
    );
}

#[test]
fn incomplete_record_becomes_no_frame() {
    let (result, rest) = decode_frame(&[1, 5, 0, 3, 0, 1, 0]);
    assert_eq!(result, Ok(None));
    assert_eq!(rest, vec![1, 5, 0, 3, 0, 1, 0]);
}

#[test]
fn codec_failures_become_error_frames() {
    let (result, rest) = decode_frame(&[1, 6, 0, 3, 0, 0, 0, 0, 0x11]);
    assert_eq!(
        result,
        Ok(Some(Frame::Error {
            id: 3,
            error: Error::IllegalRecordType { request_id: 3, record_type: 6 },
        }))
    );
    assert_eq!(rest, vec![0x11]);

    let (result, _) = decode_frame(&[1, 1, 0, 3, 0, 8, 0, 0, 0, 9, 0, 0, 0, 0, 0, 0]);
    assert_eq!(
        result,
        Ok(Some(Frame::Error { id: 3, error: Error::UnknownRole { request_id: 3, role: 9 } }))
    );
}

#[test]
fn failure_without_request_goes_to_request_zero() {
    let (result, _) = decode_frame(&[7, 5, 0, 3, 0, 0, 0, 0]);
    assert_eq!(
        result,
        Ok(Some(Frame::Error { id: 0, error: Error::UnexpectedVersion { version: 7 } }))
    );
}

#[test]
fn frame_ids() {
    assert_eq!(Frame::Body { id: 9, chunk: None }.id(), 9);
    assert_eq!(Frame::Error { id: 8, error: Error::MissingBody { request_id: 8 } }.id(), 8);
    assert_eq!(
        Frame::Message {
            id: 7,
            message: FastcgiRecord { request_id: 7, body: FastcgiRecordBody::AbortRequest },
            body: true,
            solo: false
        }
        .id(),
        7
    );
}

#[test]
fn message_and_chunk_are_encoded_as_records() {
    let stdout = || FastcgiRecord { request_id: 1, body: FastcgiRecordBody::Stdout(bytes(b"hi")) };
    let (result, out) =
        encode_frame(Frame::Message { id: 1, message: stdout(), body: true, solo: false });
    assert_eq!(result, Ok(()));
    assert_eq!(out, vec![0xAA, 1, 6, 0, 1, 0, 2, 0, 0, b'h', b'i']);
    let (result, out) = encode_frame(Frame::Body { id: 1, chunk: Some(stdout()) });
    assert_eq!(result, Ok(()));
    assert_eq!(out, vec![0xAA, 1, 6, 0, 1, 0, 2, 0, 0, b'h', b'i']);
}

#[test]
fn end_of_body_encodes_nothing() {
    let (result, out) = encode_frame(Frame::Body { id: 1, chunk: None });
    assert_eq!(result, Ok(()));
    assert_eq!(out, vec![0xAA]);
}

#[test]
fn error_frame_aborts_encoding() {
    let error = Error::UnexpectedRecord { request_id: 1 };
    let (result, out) = encode_frame(Frame::Error { id: 1, error });
    assert_eq!(result, Err(error));
    assert_eq!(out, vec![0xAA]);
}

#[test]
fn encoding_failures_pass_through() {
    let (result, out) = encode_frame(Frame::Body {
        id: 1,
        chunk: Some(FastcgiRecord { request_id: 1, body: FastcgiRecordBody::Stdin(bytes(b"")) }),
    });
    assert_eq!(result, Err(Error::IllegalRecord { request_id: 1 }));
    assert_eq!(out, vec![0xAA]);
    let (result, out) = encode_frame(Frame::Message {
        id: 1,
        message: FastcgiRecord {
            request_id: 1,
            body: FastcgiRecordBody::Stderr(bytes(&vec![0; 70000])),
        },
        body: true,
        solo: false,
    });
    assert_eq!(result, Err(Error::RecordTooLong { request_id: 1 }));
    assert_eq!(out, vec![0xAA]);
}

#[test]
fn end_request_frame_bytes() {
    let (result, out) = encode_frame(Frame::Body {
        id: 1,
        chunk: Some(FastcgiRecord {
            request_id: 1,
            body: FastcgiRecordBody::EndRequest(EndRequest {
                app_status: 0,
                protocol_status: ProtocolStatus::RequestComplete,
            }),
        }),
    });
    assert_eq!(result, Ok(()));
    assert_eq!(out, vec![0xAA, 1, 3, 0, 1, 0, 8, 0, 0, 0, 0, 0, 0, 0, 0, 0, 0]);
}

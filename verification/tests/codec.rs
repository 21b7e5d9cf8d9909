use tokio_fastcgi::codec::{is_stream, FastcgiCodec, FastcgiRecord, Frame};
use tokio_fastcgi::easy_buf::EasyBuffer;
use tokio_fastcgi::error::Error;
use tokio_fastcgi::s11n::RecordType;

fn raw(record_type: RecordType, request_id: u16, content: &[u8]) -> FastcgiRecord {
    FastcgiRecord { record_type, request_id, content: content.to_vec() }
}

fn decode_raw(input: &[u8]) -> (Result<Option<Frame>, Error>, Vec<u8>) {
    let mut buffer = EasyBuffer::from_vec(input.to_vec());
    let result = FastcgiCodec.decode(&mut buffer);
    (result, buffer.as_slice().to_vec())
}

fn encode_raw(frame: Frame) -> (Result<(), Error>, Vec<u8>) {
    let mut out = vec![0xAA];
    let result = FastcgiCodec.encode(frame, &mut out);
    (result, out)
}

#[test]
fn stream_record_types() {
    for record_type in [
        RecordType::Params,
        RecordType::Stdin,
        RecordType::Stdout,
        RecordType::Stderr,
        RecordType::Data,
    ] {
        assert!(is_stream(record_type));
    }
    for record_type in [
        RecordType::BeginRequest,
        RecordType::AbortRequest,
        RecordType::EndRequest,
        RecordType::GetValues,
        RecordType::GetValuesResult,
        RecordType::UnknownType,
        RecordType::Mystery,
    ] {
        assert!(!is_stream(record_type));
    }
}

#[test]
fn easy_buffer_holds_and_drains() {
    let mut buffer = EasyBuffer::from_vec(vec![1, 2, 3, 4, 5]);
    assert_eq!(buffer.len(), 5);
    let head = buffer.drain_to(2);
    assert_eq!(head.as_slice(), &[1, 2]);
    assert_eq!(buffer.as_slice(), &[3, 4, 5]);
    assert_eq!(buffer.len(), 3);
    assert_eq!(buffer.drain_to(0).len(), 0);
    assert_eq!(buffer.drain_to(3).as_slice(), &[3, 4, 5]);
    assert_eq!(buffer.len(), 0);
}

#[test]
fn raw_decode_waits_for_the_whole_record() {
    let whole = [1u8, 5, 0, 1, 0, 2, 1, 0, b'h', b'i', 0];
    for cut in 0..whole.len() {
        let (result, rest) = decode_raw(&whole[..cut]);
        assert_eq!(result, Ok(None));
        assert_eq!(rest, whole[..cut].to_vec());
    }
}

#[test]
fn raw_decode_begin_request() {
    let (result, rest) = decode_raw(&[1, 1, 0x01, 0x02, 0, 8, 0, 0, 0, 1, 0, 0, 0, 0, 0, 0, 0x55]);
    assert_eq!(
        result,
        Ok(Some(Frame::Message {
            id: 0x0102,
            message: raw(RecordType::BeginRequest, 0x0102, &[0, 1, 0, 0, 0, 0, 0, 0]),
            body: true,
            solo: false,
        }))
    );
    assert_eq!(rest, vec![0x55]);
}

#[test]
fn raw_decode_body_chunks() {
    let (result, rest) = decode_raw(&[1, 5, 0, 1, 0, 2, 2, 0, b'h', b'i', 0, 0, 0x55]);
    assert_eq!(
        result,
        Ok(Some(Frame::Body { id: 1, chunk: Some(raw(RecordType::Stdin, 1, b"hi")) }))
    );
    assert_eq!(rest, vec![0x55]);
    let (result, _) = decode_raw(&[1, 4, 0, 1, 0, 0, 0, 0]);
    assert_eq!(
        result,
        Ok(Some(Frame::Body { id: 1, chunk: Some(raw(RecordType::Params, 1, b"")) }))
    );
    let (result, _) = decode_raw(&[1, 99, 0, 1, 0, 1, 0, 0, 7]);
    assert_eq!(
        result,
        Ok(Some(Frame::Body { id: 1, chunk: Some(raw(RecordType::Mystery, 1, &[7])) }))
    );
}

#[test]
fn raw_decode_end_of_body() {
    let (result, _) = decode_raw(&[1, 5, 0, 1, 0, 0, 0, 0]);
    assert_eq!(result, Ok(Some(Frame::Body { id: 1, chunk: None })));
    let (result, _) = decode_raw(&[1, 2, 0, 1, 0, 0, 0, 0]);
    assert_eq!(result, Ok(Some(Frame::Body { id: 1, chunk: None })));
    let (result, _) = decode_raw(&[1, 2, 0, 1, 0, 1, 0, 0, 9]);
    assert_eq!(
        result,
        Ok(Some(Frame::Body { id: 1, chunk: Some(raw(RecordType::AbortRequest, 1, &[9])) }))
    );
}

#[test]
fn raw_decode_records_of_the_application_side_are_errors() {
    for record_type in [3u8, 6, 7, 10, 11] {
        let (result, rest) = decode_raw(&[1, record_type, 0, 4, 0, 1, 0, 0, 9, 0x55]);
        assert_eq!(
            result,
            Ok(Some(Frame::Error {
                id: 4,
                error: Error::IllegalRecordType { request_id: 4, record_type },
            }))
        );
        assert_eq!(rest, vec![0x55]);
    }
}

#[test]
fn raw_decode_refuses_other_versions() {
    let (result, rest) = decode_raw(&[3, 5, 0, 1, 0, 1, 0, 0, 9, 0x55]);
    assert_eq!(result, Err(Error::UnexpectedVersion { version: 3 }));
    assert_eq!(rest, vec![0x55]);
}

#[test]
fn raw_encode_message_and_chunk() {
    let (result, out) = encode_raw(Frame::Message {
        id: 0x0102,
        message: raw(RecordType::Stdout, 0x0102, b"hi"),
        body: true,
        solo: false,
    });
    assert_eq!(result, Ok(()));
    assert_eq!(out, vec![0xAA, 1, 6, 1, 2, 0, 2, 0, 0, b'h', b'i']);
    let (result, out) =
        encode_raw(Frame::Body { id: 1, chunk: Some(raw(RecordType::EndRequest, 1, &[0; 8])) });
    assert_eq!(result, Ok(()));
    assert_eq!(out, vec![0xAA, 1, 3, 0, 1, 0, 8, 0, 0, 0, 0, 0, 0, 0, 0, 0, 0]);
}

#[test]
fn raw_encode_content_length_is_big_endian() {
    let (result, out) = encode_raw(Frame::Body {
        id: 1,
        chunk: Some(raw(RecordType::Stderr, 1, &vec![7; 0x0123])),
    });
    assert_eq!(result, Ok(()));
    assert_eq!(&out[..9], &[0xAA, 1, 7, 0, 1, 0x01, 0x23, 0, 0]);
    assert_eq!(out.len(), 1 + 8 + 0x0123);
}

#[test]
fn raw_encode_needs_a_record() {
    let (result, out) = encode_raw(Frame::Body { id: 0x1_0005, chunk: None });
    assert_eq!(result, Err(Error::MissingChunk { request_id: 5 }));
    assert_eq!(out, vec![0xAA]);
}

#[test]
fn raw_encode_error_frame_fails_with_its_error() {
    let error = Error::UnexpectedVersion { version: 9 };
    let (result, out) = encode_raw(Frame::Error { id: 1, error });
    assert_eq!(result, Err(error));
    assert_eq!(out, vec![0xAA]);
}

#[test]
fn raw_encode_refuses_records_of_the_peer() {
    for record_type in [
        RecordType::BeginRequest,
        RecordType::AbortRequest,
        RecordType::Params,
        RecordType::Stdin,
        RecordType::Data,
        RecordType::GetValues,
        RecordType::Mystery,
    ] {
        let (result, out) = encode_raw(Frame::Body { id: 2, chunk: Some(raw(record_type, 2, b"")) });
        assert_eq!(result, Err(Error::IllegalRecord { request_id: 2 }));
        assert_eq!(out, vec![0xAA]);
    }
}

#[test]
fn raw_encode_refuses_long_content() {
    let (result, out) = encode_raw(Frame::Body {
        id: 2,
        chunk: Some(raw(RecordType::Stdout, 2, &vec![0; 65536])),
    });
    assert_eq!(result, Err(Error::RecordTooLong { request_id: 2 }));
    assert_eq!(out, vec![0xAA]);
    let (result, out) = encode_raw(Frame::Body {
        id: 2,
        chunk: Some(raw(RecordType::Stdout, 2, &vec![0; 65535])),
    });
    assert_eq!(result, Ok(()));
    assert_eq!(out.len(), 1 + 8 + 65535);
    assert_eq!(&out[5..7], &[0xFF, 0xFF]);
}

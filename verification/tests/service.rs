use bytes::BytesMut;
use tokio_fastcgi::error::Error;
use tokio_fastcgi::hi::codec::FastcgiMultiplexedPipelinedCodec;
use tokio_fastcgi::hi::frame::Frame;
use tokio_fastcgi::hi::response::FastcgiRequest;
use tokio_fastcgi::hi::service::{end_records, FastcgiService, Lifecycle, ServiceCall};
use tokio_fastcgi::hi::transport::FastcgiTransport;
use tokio_fastcgi::lowlevel::{BeginRequest, EndRequest, FastcgiRecord, FastcgiRecordBody};
use tokio_fastcgi::params::Params;
use tokio_fastcgi::s11n::{ProtocolStatus, Role, FCGI_MAX_CONNS, FCGI_MAX_REQS, FCGI_MPXS_CONNS};

fn bytes(content: &[u8]) -> BytesMut {
    BytesMut::from(content.to_vec())
}

fn record(request_id: u16, body: FastcgiRecordBody) -> FastcgiRecord {
    FastcgiRecord { request_id, body }
}

fn begin_request(request_id: u16, keep_connection: bool) -> FastcgiRecord {
    record(
        request_id,
        FastcgiRecordBody::BeginRequest(BeginRequest { role: Role::Responder, keep_connection }),
    )
}

fn params(request_id: u16, pairs: &[(&[u8], &[u8])]) -> FastcgiRecord {
    record(
        request_id,
        FastcgiRecordBody::Params(pairs.iter().map(|(n, v)| (bytes(n), bytes(v))).collect()),
    )
}

fn stdout(request_id: u16, content: &[u8]) -> FastcgiRecord {
    record(request_id, FastcgiRecordBody::Stdout(bytes(content)))
}

fn end_request(request_id: u16) -> FastcgiRecord {
    record(
        request_id,
        FastcgiRecordBody::EndRequest(EndRequest {
            app_status: 0,
            protocol_status: ProtocolStatus::RequestComplete,
        }),
    )
}

fn triple(request_id: u16) -> Vec<Frame> {
    let id = request_id as u64;
    vec![
        Frame::Body { id, chunk: Some(stdout(request_id, b"")) },
        Frame::Body { id, chunk: Some(record(request_id, FastcgiRecordBody::Stderr(bytes(b"")))) },
        Frame::Body { id, chunk: Some(end_request(request_id)) },
        Frame::Body { id, chunk: None },
    ]
}

fn started(request_id: u16) -> ServiceCall {
    FastcgiService::new().call(begin_request(request_id, false), true).unwrap()
}

fn entries(params: &Params) -> Vec<(Vec<u8>, Vec<u8>)> {
    (0..params.len())
        .map(|i| {
            let (name, value) = params.entry(i);
            (name.clone(), value.clone())
        })
        .collect()
}

/// Serves the peer's bytes with a handler that gets the request and answers with records,
/// and gives back the bytes written and whether the connection is still open at the end.
fn serve(
    input: &[u8],
    handler: &dyn Fn(&FastcgiRequest) -> Vec<FastcgiRecord>,
) -> (Vec<u8>, bool) {
    let mut codec = FastcgiMultiplexedPipelinedCodec::default();
    let mut transport = FastcgiTransport::new();
    let service = FastcgiService::new();
    let mut incoming = bytes(input);
    let mut outgoing = BytesMut::new();
    let mut calls: Vec<ServiceCall> = Vec::new();
    while transport.is_open() {
        let frame = match codec.decode(&mut incoming).unwrap() {
            Some(frame) => frame,
            None => break,
        };
        transport.poll(&frame);
        let mut send: Vec<Frame> = Vec::new();
        match frame {
            Frame::Message { message, body, .. } => {
                calls.push(service.call(message, body).unwrap());
            }
            Frame::Body { id, chunk: Some(chunk) } => {
                let call = calls.iter_mut().find(|c| c.request_id() as u64 == id).unwrap();
                if call.stage() == Lifecycle::AwaitingParams {
                    if call.params_record(&chunk).unwrap() {
                        let request = call.request().unwrap();
                        for answer in handler(&request) {
                            send.push(call.response_record(answer).unwrap());
                        }
                    }
                }
            }
            Frame::Body { id, chunk: None } => {
                let call = calls.iter_mut().find(|c| c.request_id() as u64 == id).unwrap();
                send.extend(call.finish());
            }
            Frame::Error { error, .. } => panic!("unexpected {:?}", error),
        }
        for frame in send {
            if transport.start_send(&frame) {
                codec.encode(frame, &mut outgoing).unwrap();
            }
        }
        transport.poll_complete();
    }
    (outgoing.to_vec(), transport.is_open())
}

#[test]
fn call_begins_with_begin_request() {
    let call = started(7);
    assert_eq!(call.request_id(), 7);
    assert_eq!(call.stage(), Lifecycle::AwaitingParams);
}

#[test]
fn call_refuses_other_first_records() {
    let service = FastcgiService::new();
    assert_eq!(
        service.call(params(7, &[]), true).unwrap_err(),
        Error::MissingBeginRequest { request_id: 7 }
    );
    assert_eq!(
        service.call(stdout(7, b""), true).unwrap_err(),
        Error::MissingBeginRequest { request_id: 7 }
    );
}

#[test]
fn call_refuses_message_without_body() {
    let service = FastcgiService::new();
    assert_eq!(
        service.call(begin_request(7, false), false).unwrap_err(),
        Error::MissingBody { request_id: 7 }
    );
    assert_eq!(
        service.call(params(7, &[]), false).unwrap_err(),
        Error::MissingBody { request_id: 7 }
    );
}

#[test]
fn params_are_assembled_across_records() {
    let mut call = started(1);
    assert_eq!(call.params_record(&params(1, &[(b"A", b"1")])), Ok(false));
    assert_eq!(call.params_record(&params(1, &[(b"B", b"2")])), Ok(false));
    assert_eq!(call.stage(), Lifecycle::AwaitingParams);
    assert_eq!(call.params_record(&params(1, &[])), Ok(true));
    let request = call.request().unwrap();
    assert_eq!(call.stage(), Lifecycle::AwaitingHandler);
    assert_eq!(request.role, Role::Responder);
    assert_eq!(request.request_id, 1);
    assert_eq!(
        entries(&request.params),
        vec![(b"A".to_vec(), b"1".to_vec()), (b"B".to_vec(), b"2".to_vec())]
    );
}

#[test]
fn later_param_overwrites_earlier() {
    let mut call = started(1);
    assert_eq!(call.params_record(&params(1, &[(b"A", b"1"), (b"B", b"2")])), Ok(false));
    assert_eq!(call.params_record(&params(1, &[(b"A", b"3")])), Ok(false));
    let request = call.request().unwrap();
    assert_eq!(
        entries(&request.params),
        vec![(b"A".to_vec(), b"3".to_vec()), (b"B".to_vec(), b"2".to_vec())]
    );
}

#[test]
fn records_other_than_params_are_refused_while_params_are_awaited() {
    let mut call = started(1);
    for body in [
        FastcgiRecordBody::Stdin(bytes(b"x")),
        FastcgiRecordBody::Stdin(bytes(b"")),
        FastcgiRecordBody::Data(bytes(b"x")),
        FastcgiRecordBody::AbortRequest,
        FastcgiRecordBody::GetValues(Vec::new()),
    ] {
        assert_eq!(
            call.params_record(&record(1, body)),
            Err(Error::UnexpectedRecord { request_id: 1 })
        );
    }
    assert_eq!(call.stage(), Lifecycle::AwaitingParams);
}

#[test]
fn params_are_refused_after_the_request_was_issued() {
    let mut call = started(1);
    assert_eq!(call.params_record(&params(1, &[])), Ok(true));
    assert!(call.request().is_some());
    assert_eq!(
        call.params_record(&params(1, &[(b"A", b"1")])),
        Err(Error::UnexpectedRecord { request_id: 1 })
    );
    assert!(call.request().is_none());
}

#[test]
fn first_response_record_begins_the_message() {
    let mut call = started(4);
    call.request().unwrap();
    assert_eq!(
        call.response_record(stdout(4, b"a")),
        Ok(Frame::Message { id: 4, message: stdout(4, b"a"), body: true, solo: false })
    );
    assert_eq!(call.stage(), Lifecycle::StreamingResponse);
    assert_eq!(
        call.response_record(stdout(4, b"b")),
        Ok(Frame::Body { id: 4, chunk: Some(stdout(4, b"b")) })
    );
    assert_eq!(call.stage(), Lifecycle::StreamingResponse);
}

#[test]
fn response_records_go_out_under_the_id_of_the_request() {
    let mut call = started(4);
    call.request().unwrap();
    assert_eq!(
        call.response_record(stdout(99, b"a")),
        Ok(Frame::Message { id: 4, message: stdout(4, b"a"), body: true, solo: false })
    );
}

#[test]
fn response_record_is_refused_before_the_handler_and_after_the_end() {
    let mut call = started(4);
    assert_eq!(
        call.response_record(stdout(4, b"a")),
        Err(Error::UnexpectedRecord { request_id: 4 })
    );
    call.request().unwrap();
    call.finish();
    assert_eq!(
        call.response_record(stdout(4, b"a")),
        Err(Error::UnexpectedRecord { request_id: 4 })
    );
    assert_eq!(call.stage(), Lifecycle::Terminated);
}

#[test]
fn end_records_are_the_termination_triple() {
    assert_eq!(
        end_records(3),
        vec![stdout(3, b""), record(3, FastcgiRecordBody::Stderr(bytes(b""))), end_request(3)]
    );
}

#[test]
fn finish_after_a_response_appends_the_termination_triple() {
    let mut call = started(4);
    call.request().unwrap();
    call.response_record(stdout(4, b"a")).unwrap();
    assert_eq!(call.finish(), triple(4));
    assert_eq!(call.stage(), Lifecycle::Terminated);
}

#[test]
fn finish_without_response_sends_the_empty_line_first() {
    let mut call = started(4);
    call.request().unwrap();
    let mut expected =
        vec![Frame::Message { id: 4, message: stdout(4, b"\r\n"), body: true, solo: false }];
    expected.extend(triple(4));
    assert_eq!(call.finish(), expected);
}

#[test]
fn finish_before_the_request_was_issued() {
    let mut call = started(4);
    let mut expected =
        vec![Frame::Message { id: 4, message: stdout(4, b"\r\n"), body: true, solo: false }];
    expected.extend(triple(4));
    assert_eq!(call.finish(), expected);
    assert_eq!(call.stage(), Lifecycle::Terminated);
    assert!(call.request().is_none());
}

#[test]
fn response_is_ended_once() {
    let mut call = started(4);
    call.request().unwrap();
    call.response_record(stdout(4, b"a")).unwrap();
    assert_eq!(call.finish().len(), 4);
    assert!(call.finish().is_empty());
    assert!(call.finish().is_empty());
}

#[test]
fn stages_only_move_forward() {
    let rank = |stage: Lifecycle| match stage {
        Lifecycle::AwaitingParams => 0,
        Lifecycle::AwaitingHandler => 1,
        Lifecycle::StreamingResponse => 2,
        Lifecycle::Terminated => 3,
    };
    let mut call = started(1);
    let mut seen = vec![rank(call.stage())];
    let _ = call.params_record(&params(1, &[(b"A", b"1")]));
    seen.push(rank(call.stage()));
    let _ = call.response_record(stdout(1, b"early"));
    seen.push(rank(call.stage()));
    let _ = call.request();
    seen.push(rank(call.stage()));
    let _ = call.params_record(&params(1, &[]));
    seen.push(rank(call.stage()));
    let _ = call.response_record(stdout(1, b"a"));
    seen.push(rank(call.stage()));
    let _ = call.request();
    seen.push(rank(call.stage()));
    let _ = call.finish();
    seen.push(rank(call.stage()));
    let _ = call.response_record(stdout(1, b"late"));
    seen.push(rank(call.stage()));
    assert_eq!(seen, vec![0, 0, 0, 1, 1, 2, 2, 3, 3]);
}

#[test]
fn minimal_responder_round_trip() {
    let input = [
        0x01, 0x01, 0x00, 0x01, 0x00, 0x08, 0x00, 0x00, // BeginRequest(id=1)
        0x00, 0x01, 0x00, 0x00, 0x00, 0x00, 0x00, 0x00, // role=1, flags=0
        0x01, 0x04, 0x00, 0x01, 0x00, 0x00, 0x00, 0x00, // Params(id=1, empty)
        0x01, 0x05, 0x00, 0x01, 0x00, 0x00, 0x00, 0x00, // Stdin(id=1, empty)
    ];
    let handler = |request: &FastcgiRequest| {
        assert_eq!(request.role, Role::Responder);
        assert_eq!(request.params.len(), 0);
        vec![stdout(request.request_id, b"Content-Type: text/plain\r\n\r\nhi")]
    };
    let (output, open) = serve(&input, &handler);
    let mut expected = vec![0x01, 0x06, 0x00, 0x01, 0x00, 0x1E, 0x00, 0x00];
    expected.extend_from_slice(b"Content-Type: text/plain\r\n\r\nhi");
    expected.extend_from_slice(&[0x01, 0x06, 0x00, 0x01, 0x00, 0x00, 0x00, 0x00]);
    expected.extend_from_slice(&[0x01, 0x07, 0x00, 0x01, 0x00, 0x00, 0x00, 0x00]);
    expected.extend_from_slice(&[0x01, 0x03, 0x00, 0x01, 0x00, 0x08, 0x00, 0x00]);
    expected.extend_from_slice(&[0x00, 0x00, 0x00, 0x00, 0x00, 0x00, 0x00, 0x00]);
    assert_eq!(output, expected);
    assert!(!open);
}

#[test]
fn responder_round_trip_through_the_response_writer() {
    let input = [
        0x01, 0x01, 0x00, 0x01, 0x00, 0x08, 0x00, 0x00, 0x00, 0x01, 0x00, 0x00, 0x00, 0x00, 0x00,
        0x00, 0x01, 0x04, 0x00, 0x01, 0x00, 0x00, 0x00, 0x00, 0x01, 0x05, 0x00, 0x01, 0x00, 0x00,
        0x00, 0x00,
    ];
    let handler = |request: &FastcgiRequest| {
        let mut response = request.response();
        response.clear_header("X-Powered-By");
        response.set_header("Content-Type", "text/plain");
        let (headers, mut body) = response.send_headers();
        body.buffer.extend_from_slice(b"hi");
        let mut records = vec![headers];
        records.extend(body.finish());
        records
    };
    let (output, open) = serve(&input, &handler);
    let mut expected = vec![0x01, 0x06, 0x00, 0x01, 0x00, 0x1C, 0x00, 0x00];
    expected.extend_from_slice(b"Content-Type: text/plain\r\n\r\n");
    expected.extend_from_slice(&[0x01, 0x06, 0x00, 0x01, 0x00, 0x02, 0x00, 0x00, b'h', b'i']);
    expected.extend_from_slice(&[0x01, 0x06, 0x00, 0x01, 0x00, 0x00, 0x00, 0x00]);
    expected.extend_from_slice(&[0x01, 0x07, 0x00, 0x01, 0x00, 0x00, 0x00, 0x00]);
    expected.extend_from_slice(&[0x01, 0x03, 0x00, 0x01, 0x00, 0x08, 0x00, 0x00]);
    expected.extend_from_slice(&[0x00, 0x00, 0x00, 0x00, 0x00, 0x00, 0x00, 0x00]);
    assert_eq!(output, expected);
    assert!(!open);
}

#[test]
fn keep_connection_serves_a_second_request() {
    let one = |id: u8, flags: u8| {
        vec![
            0x01, 0x01, 0x00, id, 0x00, 0x08, 0x00, 0x00, 0x00, 0x01, flags, 0x00, 0x00, 0x00,
            0x00, 0x00, 0x01, 0x04, 0x00, id, 0x00, 0x00, 0x00, 0x00, 0x01, 0x05, 0x00, id, 0x00,
            0x00, 0x00, 0x00,
        ]
    };
    let mut input = one(1, 1);
    input.extend(one(2, 0));
    let handler = |request: &FastcgiRequest| vec![stdout(request.request_id, b"\r\nok")];
    let (output, open) = serve(&input, &handler);
    let answer = |id: u8| {
        let mut bytes = vec![0x01, 0x06, 0x00, id, 0x00, 0x04, 0x00, 0x00, b'\r', b'\n', b'o', b'k'];
        bytes.extend_from_slice(&[0x01, 0x06, 0x00, id, 0x00, 0x00, 0x00, 0x00]);
        bytes.extend_from_slice(&[0x01, 0x07, 0x00, id, 0x00, 0x00, 0x00, 0x00]);
        bytes.extend_from_slice(&[0x01, 0x03, 0x00, id, 0x00, 0x08, 0x00, 0x00]);
        bytes.extend_from_slice(&[0x00, 0x00, 0x00, 0x00, 0x00, 0x00, 0x00, 0x00]);
        bytes
    };
    let mut expected = answer(1);
    expected.extend(answer(2));
    assert_eq!(output, expected);
    assert!(open);
}

#[test]
fn without_keep_connection_the_second_request_is_not_read() {
    let one = |id: u8| {
        vec![
            0x01, 0x01, 0x00, id, 0x00, 0x08, 0x00, 0x00, 0x00, 0x01, 0x00, 0x00, 0x00, 0x00,
            0x00, 0x00, 0x01, 0x04, 0x00, id, 0x00, 0x00, 0x00, 0x00, 0x01, 0x05, 0x00, id, 0x00,
            0x00, 0x00, 0x00,
        ]
    };
    let mut input = one(1);
    input.extend(one(2));
    let handler = |request: &FastcgiRequest| vec![stdout(request.request_id, b"\r\nok")];
    let (output, open) = serve(&input, &handler);
    assert!(!open);
    assert_eq!(output.len(), 12 + 8 + 8 + 16);
    assert_eq!(output[3], 1);
}

#[test]
fn abort_ends_the_request_with_one_termination_triple() {
    let input = [
        0x01, 0x01, 0x00, 0x01, 0x00, 0x08, 0x00, 0x00, 0x00, 0x01, 0x00, 0x00, 0x00, 0x00, 0x00,
        0x00, // BeginRequest
        0x01, 0x04, 0x00, 0x01, 0x00, 0x00, 0x00, 0x00, // Params, empty
        0x01, 0x05, 0x00, 0x01, 0x00, 0x03, 0x00, 0x00, b'a', b'b', b'c', // Stdin, partial
        0x01, 0x02, 0x00, 0x01, 0x00, 0x00, 0x00, 0x00, // AbortRequest
    ];
    let handler = |_: &FastcgiRequest| Vec::new();
    let (output, open) = serve(&input, &handler);
    let mut expected = vec![0x01, 0x06, 0x00, 0x01, 0x00, 0x02, 0x00, 0x00, b'\r', b'\n'];
    expected.extend_from_slice(&[0x01, 0x06, 0x00, 0x01, 0x00, 0x00, 0x00, 0x00]);
    expected.extend_from_slice(&[0x01, 0x07, 0x00, 0x01, 0x00, 0x00, 0x00, 0x00]);
    expected.extend_from_slice(&[0x01, 0x03, 0x00, 0x01, 0x00, 0x08, 0x00, 0x00]);
    expected.extend_from_slice(&[0x00, 0x00, 0x00, 0x00, 0x00, 0x00, 0x00, 0x00]);
    assert_eq!(output, expected);
    assert!(!open);
}

#[test]
fn interleaved_requests_keep_their_own_order() {
    let input = [
        0x01, 0x01, 0x00, 0x01, 0x00, 0x08, 0x00, 0x00, 0x00, 0x01, 0x01, 0x00, 0x00, 0x00, 0x00,
        0x00, // BeginRequest 1
        0x01, 0x01, 0x00, 0x02, 0x00, 0x08, 0x00, 0x00, 0x00, 0x01, 0x01, 0x00, 0x00, 0x00, 0x00,
        0x00, // BeginRequest 2
        0x01, 0x04, 0x00, 0x02, 0x00, 0x04, 0x00, 0x00, 0x01, 0x01, b'N', b'2', // Params 2
        0x01, 0x04, 0x00, 0x01, 0x00, 0x04, 0x00, 0x00, 0x01, 0x01, b'N', b'1', // Params 1
        0x01, 0x04, 0x00, 0x02, 0x00, 0x00, 0x00, 0x00, // Params 2, empty
        0x01, 0x04, 0x00, 0x01, 0x00, 0x00, 0x00, 0x00, // Params 1, empty
        0x01, 0x05, 0x00, 0x01, 0x00, 0x00, 0x00, 0x00, // Stdin 1, empty
        0x01, 0x05, 0x00, 0x02, 0x00, 0x00, 0x00, 0x00, // Stdin 2, empty
    ];
    let handler = |request: &FastcgiRequest| {
        let mut content = b"\r\n".to_vec();
        content.extend_from_slice(request.params.get(b"N").unwrap());
        vec![stdout(request.request_id, &content)]
    };
    let (output, open) = serve(&input, &handler);
    let answer = |id: u8| vec![0x01, 0x06, 0x00, id, 0x00, 0x03, 0x00, 0x00, b'\r', b'\n', b'0' + id];
    let ending = |id: u8| {
        let mut bytes = vec![0x01, 0x06, 0x00, id, 0x00, 0x00, 0x00, 0x00];
        bytes.extend_from_slice(&[0x01, 0x07, 0x00, id, 0x00, 0x00, 0x00, 0x00]);
        bytes.extend_from_slice(&[0x01, 0x03, 0x00, id, 0x00, 0x08, 0x00, 0x00]);
        bytes.extend_from_slice(&[0x00, 0x00, 0x00, 0x00, 0x00, 0x00, 0x00, 0x00]);
        bytes
    };
    let mut expected = answer(2);
    expected.extend(answer(1));
    expected.extend(ending(1));
    expected.extend(ending(2));
    assert_eq!(output, expected);
    assert!(open);
}

#[test]
fn get_values_is_answered_with_what_is_known() {
    let mut values = Params::new();
    values.insert(FCGI_MAX_CONNS.as_bytes().to_vec(), b"10".to_vec());
    values.insert(FCGI_MAX_REQS.as_bytes().to_vec(), b"50".to_vec());
    values.insert(FCGI_MPXS_CONNS.as_bytes().to_vec(), b"1".to_vec());
    let query = record(
        0,
        FastcgiRecordBody::GetValues(vec![
            bytes(b"FCGI_MPXS_CONNS"),
            bytes(b"FCGI_UNHEARD_OF"),
            bytes(b"FCGI_MAX_CONNS"),
        ]),
    );
    assert_eq!(
        FastcgiService::new().management(&query, &values),
        Some(record(
            0,
            FastcgiRecordBody::GetValuesResult(vec![
                (b"FCGI_MPXS_CONNS".to_vec(), b"1".to_vec()),
                (b"FCGI_MAX_CONNS".to_vec(), b"10".to_vec()),
            ])
        ))
    );
}

#[test]
fn unknown_type_is_answered_with_unknown_type_response() {
    let query = record(0, FastcgiRecordBody::UnknownType(99, bytes(b"whatever")));
    assert_eq!(
        FastcgiService::new().management(&query, &Params::new()),
        Some(record(0, FastcgiRecordBody::UnknownTypeResponse(99)))
    );
}

#[test]
fn other_records_are_owed_no_management_answer() {
    let service = FastcgiService::new();
    assert_eq!(service.management(&begin_request(1, false), &Params::new()), None);
    assert_eq!(service.management(&params(1, &[]), &Params::new()), None);
    assert_eq!(service.management(&stdout(1, b""), &Params::new()), None);
}

#[test]
fn rejection_names_an_unknown_role() {
    assert_eq!(
        FastcgiService::new().rejection(Error::UnknownRole { request_id: 3, role: 9 }),
        Some(record(
            3,
            FastcgiRecordBody::EndRequest(EndRequest {
                app_status: 0,
                protocol_status: ProtocolStatus::UnknownRole
            })
        ))
    );
}

#[test]
fn rejection_of_other_failures_has_an_application_status() {
    for error in [
        Error::IllegalRecordType { request_id: 3, record_type: 6 },
        Error::MalformedRecord { request_id: 3, record_type: 4 },
        Error::MissingBeginRequest { request_id: 3 },
        Error::DuplicateBeginRequest { request_id: 3 },
        Error::UnexpectedRecord { request_id: 3 },
    ] {
        assert_eq!(
            FastcgiService::new().rejection(error),
            Some(record(
                3,
                FastcgiRecordBody::EndRequest(EndRequest {
                    app_status: 1,
                    protocol_status: ProtocolStatus::RequestComplete
                })
            ))
        );
    }
}

#[test]
fn no_rejection_without_a_request_or_for_the_application_s_own_failures() {
    let service = FastcgiService::new();
    assert_eq!(service.rejection(Error::UnexpectedVersion { version: 2 }), None);
    assert_eq!(service.rejection(Error::RecordTooLong { request_id: 3 }), None);
    assert_eq!(service.rejection(Error::IllegalRecord { request_id: 3 }), None);
}

use bytes::BytesMut;
use tokio_fastcgi::error::Error;
use tokio_fastcgi::hi::frame::Frame;
use tokio_fastcgi::hi::transport::{FastcgiTransport, Requests};
use tokio_fastcgi::lowlevel::{BeginRequest, FastcgiRecord, FastcgiRecordBody};
use tokio_fastcgi::s11n::Role;

fn begin(id: u16, keep_connection: bool) -> Frame {
    Frame::Message {
        id: id as u64,
        message: FastcgiRecord {
            request_id: id,
            body: FastcgiRecordBody::BeginRequest(BeginRequest {
                role: Role::Responder,
                keep_connection,
            }),
        },
        body: true,
        solo: false,
    }
}

fn chunk(id: u16) -> Frame {
    Frame::Body {
        id: id as u64,
        chunk: Some(FastcgiRecord {
            request_id: id,
            body: FastcgiRecordBody::Stdin(BytesMut::from(b"x".to_vec())),
        }),
    }
}

fn end(id: u16) -> Frame {
    Frame::Body { id: id as u64, chunk: None }
}

#[test]
fn requests_start_out_not_empty() {
    // Nothing has been seen yet, so there is nothing that could have finished.
    assert!(!Requests::new().is_empty());
}

#[test]
fn requests_are_empty_when_all_seen_have_finished() {
    let mut requests = Requests::new();
    requests.request(1);
    assert!(!requests.is_empty());
    requests.request(2);
    requests.remove(1);
    assert!(!requests.is_empty());
    requests.remove(2);
    assert!(requests.is_empty());
    requests.request(1);
    assert!(!requests.is_empty());
}

#[test]
fn requests_keep_the_low_sixteen_bits() {
    let mut requests = Requests::new();
    requests.request(0x1_0005);
    requests.remove(5);
    assert!(requests.is_empty());
}

#[test]
fn removing_an_unknown_request_changes_nothing() {
    let mut requests = Requests::new();
    requests.remove(1);
    assert!(!requests.is_empty());
    requests.request(1);
    requests.remove(2);
    assert!(!requests.is_empty());
}

#[test]
fn flush_before_any_request_keeps_the_connection() {
    let mut transport = FastcgiTransport::new();
    assert!(transport.is_open());
    assert!(!transport.poll_complete());
    assert!(transport.is_open());
}

#[test]
fn connection_is_dropped_when_the_last_request_has_finished() {
    let mut transport = FastcgiTransport::new();
    transport.poll(&begin(1, false));
    assert!(!transport.poll_complete());
    transport.poll(&chunk(1));
    transport.poll(&end(1));
    assert!(!transport.poll_complete());
    assert!(transport.start_send(&chunk(1)));
    assert!(!transport.poll_complete());
    assert!(transport.start_send(&end(1)));
    assert!(transport.is_open());
    assert!(transport.poll_complete());
    assert!(!transport.is_open());
}

#[test]
fn dropped_connection_stays_dropped() {
    let mut transport = FastcgiTransport::new();
    transport.poll(&begin(1, false));
    assert!(transport.start_send(&end(1)));
    assert!(transport.poll_complete());
    assert!(!transport.poll_complete());
    assert!(!transport.start_send(&chunk(1)));
    transport.poll(&begin(2, true));
    assert!(!transport.poll_complete());
    assert!(!transport.is_open());
}

#[test]
fn keep_connection_keeps_the_connection() {
    let mut transport = FastcgiTransport::new();
    transport.poll(&begin(1, true));
    assert!(transport.start_send(&end(1)));
    assert!(!transport.poll_complete());
    assert!(transport.is_open());
    // The connection accepts another request, and one that does not ask to keep the
    // connection does not take the first one's wish back.
    transport.poll(&begin(2, false));
    assert!(transport.start_send(&end(2)));
    assert!(!transport.poll_complete());
    assert!(transport.is_open());
}

#[test]
fn connection_waits_for_every_request() {
    let mut transport = FastcgiTransport::new();
    transport.poll(&begin(1, false));
    transport.poll(&begin(2, false));
    transport.poll(&chunk(1));
    transport.poll(&chunk(2));
    assert!(transport.start_send(&end(1)));
    assert!(!transport.poll_complete());
    assert!(transport.start_send(&end(2)));
    assert!(transport.poll_complete());
}

#[test]
fn body_chunk_alone_puts_a_request_in_flight() {
    let mut transport = FastcgiTransport::new();
    transport.poll(&chunk(4));
    assert!(!transport.poll_complete());
    assert!(transport.start_send(&end(4)));
    assert!(transport.poll_complete());
}

#[test]
fn errors_and_ends_that_arrive_put_nothing_in_flight() {
    let mut transport = FastcgiTransport::new();
    transport.poll(&end(1));
    transport.poll(&Frame::Error { id: 1, error: Error::UnexpectedVersion { version: 2 } });
    assert!(!transport.poll_complete());
    assert!(transport.is_open());
}

#[test]
fn only_the_end_of_a_body_ends_a_request() {
    let mut transport = FastcgiTransport::new();
    transport.poll(&begin(1, false));
    assert!(transport.start_send(&chunk(1)));
    assert!(transport.start_send(&begin(1, false)));
    assert!(transport.start_send(&Frame::Error {
        id: 1,
        error: Error::UnexpectedVersion { version: 2 }
    }));
    assert!(!transport.poll_complete());
    assert!(transport.start_send(&end(2)));
    assert!(!transport.poll_complete());
    assert!(transport.start_send(&end(1)));
    assert!(transport.poll_complete());
}

#[test]
fn request_seen_again_after_its_end_is_in_flight_again() {
    let mut transport = FastcgiTransport::new();
    transport.poll(&begin(1, false));
    assert!(transport.start_send(&end(1)));
    transport.poll(&begin(1, false));
    assert!(!transport.poll_complete());
    assert!(transport.is_open());
}

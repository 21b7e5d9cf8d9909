//! The service glue: what is done for one request between its `BeginRequest` and its
//! `EndRequest`. The handler itself runs with the caller; the glue is told of every record
//! that arrives for the request and of everything that the handler does, and answers with
//! the request to hand to the handler and with the frames to send.

use crate::buffer::{contents, from_vec, slice_of};
use crate::error::{Error, ErrorKind};
use crate::hi::frame::{Frame, FrameView, RequestId};
use crate::hi::response::{records_view, FastcgiRequest};
use crate::lowlevel::{
    buffer_pairs_view, buffers_view, vec_pairs_view, BeginRequest, Body, EndRequest,
    FastcgiRecord, FastcgiRecordBody, Record,
};
use crate::params::{lookup, put_all, Params};
use crate::s11n::{ProtocolStatus, Role};
use crate::wire::Pair;
use vstd::prelude::*;
use vstd::slice::slice_to_vec;

verus! {

/// How far a request has come. A request only ever moves forward through these stages.
#[derive(Clone, Copy, Debug, PartialEq, Eq, Structural)]
pub enum Lifecycle {
    /// `BeginRequest` was seen; parameters are being collected.
    AwaitingParams,
    /// The request was handed to the handler, which has not produced a record yet.
    AwaitingHandler,
    /// The first record of the response was sent.
    StreamingResponse,
    /// The records that end the response were sent.
    Terminated,
}

impl Lifecycle {
    /// The place of a stage in the order of stages.
    pub open spec fn rank(self) -> nat {
        match self {
            Lifecycle::AwaitingParams => 0,
            Lifecycle::AwaitingHandler => 1,
            Lifecycle::StreamingResponse => 2,
            Lifecycle::Terminated => 3,
        }
    }
}

/// The three records that end every response: an empty `Stdout`, an empty `Stderr`, and
/// `EndRequest` with application status 0 and protocol status `RequestComplete`.
pub open spec fn end_records_view(request_id: u16) -> Seq<Record> {
    seq![
        Record { request_id, body: Body::Stdout(Seq::empty()) },
        Record { request_id, body: Body::Stderr(Seq::empty()) },
        Record {
            request_id,
            body: Body::EndRequest {
                app_status: 0,
                protocol_status: ProtocolStatus::RequestComplete,
            },
        },
    ]
}

/// The record that stands for the headers of a response without headers: a `Stdout` that
/// carries the empty line alone.
pub open spec fn empty_response_view(request_id: u16) -> Record {
    Record { request_id, body: Body::Stdout(seq![0x0Du8, 0x0Au8]) }
}

/// The frame that begins a response.
pub open spec fn message_frame(record: Record) -> FrameView {
    FrameView::Message {
        id: record.request_id as RequestId,
        message: record,
        body: true,
        solo: false,
    }
}

/// The frame that carries one more record of a response.
pub open spec fn chunk_frame(record: Record) -> FrameView {
    FrameView::Body { id: record.request_id as RequestId, chunk: Some(record) }
}

/// The frames that end a response: the three ending records as chunks, then the end of the
/// body.
pub open spec fn end_frames(request_id: u16) -> Seq<FrameView> {
    end_records_view(request_id).map_values(|r: Record| chunk_frame(r)).push(
        FrameView::Body { id: request_id as RequestId, chunk: None },
    )
}

/// The frames that end a response, given how far the request has come: nothing where the
/// response has ended already; else, where no record of the response was sent yet, first
/// the message that carries the empty line; then the ending frames.
pub open spec fn closing_frames(stage: Lifecycle, request_id: u16) -> Seq<FrameView> {
    match stage {
        Lifecycle::Terminated => Seq::empty(),
        Lifecycle::StreamingResponse => end_frames(request_id),
        _ => seq![message_frame(empty_response_view(request_id))] + end_frames(request_id),
    }
}

/// What each frame of a list says.
pub open spec fn frames_view(frames: Seq<Frame>) -> Seq<FrameView> {
    frames.map_values(|f: Frame| f@)
}

/// The three records that end every response.
pub fn end_records(request_id: u16) -> (records: Vec<FastcgiRecord>)
    ensures
        records_view(records@) == end_records_view(request_id),
{
    let records = vec![
        FastcgiRecord { request_id, body: FastcgiRecordBody::Stdout(from_vec(Vec::new())) },
        FastcgiRecord { request_id, body: FastcgiRecordBody::Stderr(from_vec(Vec::new())) },
        FastcgiRecord {
            request_id,
            body: FastcgiRecordBody::EndRequest(
                EndRequest { app_status: 0, protocol_status: ProtocolStatus::RequestComplete },
            ),
        },
    ];
    assert(records_view(records@) =~= end_records_view(request_id));
    records
}

/// What the glue knows of one request.
pub struct CallView {
    pub request_id: u16,
    pub role: Role,
    pub keep_connection: bool,
    pub params: Seq<Pair>,
    pub stage: Lifecycle,
}

impl CallView {
    /// The same request at another stage.
    pub open spec fn at_stage(self, stage: Lifecycle) -> CallView {
        CallView { stage, ..self }
    }

    /// The same request with other parameters.
    pub open spec fn with_params(self, params: Seq<Pair>) -> CallView {
        CallView { params, ..self }
    }
}

/// The glue for one request.
#[derive(Debug)]
pub struct ServiceCall {
    request_id: u16,
    begin_request: BeginRequest,
    params: Params,
    stage: Lifecycle,
}

impl View for ServiceCall {
    type V = CallView;

    closed spec fn view(&self) -> CallView {
        CallView {
            request_id: self.request_id,
            role: self.begin_request.role,
            keep_connection: self.begin_request.keep_connection,
            params: self.params@,
            stage: self.stage,
        }
    }
}

/// Binds requests to the glue that serves them.
#[derive(Clone, Copy, Debug, Default)]
pub struct FastcgiService;

impl FastcgiService {
    pub fn new() -> (service: FastcgiService) {
        FastcgiService
    }

    /// Begins to serve a request, given the record that its message carries and whether a
    /// body stream comes with it.
    ///
    /// The message must carry `BeginRequest` and come with a body stream; then the glue for
    /// the request is returned, awaiting parameters. Anything else is refused.
    pub fn call(&self, message: FastcgiRecord, has_body: bool) -> (r: Result<ServiceCall, Error>)
        ensures
            match message@.body {
                Body::BeginRequest { role, keep_connection } if has_body => r matches Ok(call)
                    && call@ == (CallView {
                    request_id: message.request_id,
                    role,
                    keep_connection,
                    params: Seq::empty(),
                    stage: Lifecycle::AwaitingParams,
                }),
                _ => r matches Err(e) && e == if has_body {
                    Error::MissingBeginRequest { request_id: message.request_id }
                } else {
                    Error::MissingBody { request_id: message.request_id }
                },
            },
    {
        let request_id = message.request_id;
        if !has_body {
            return Err(Error::MissingBody { request_id });
        }
        match message.body {
            FastcgiRecordBody::BeginRequest(begin_request) => Ok(
                ServiceCall {
                    request_id,
                    begin_request,
                    params: Params::new(),
                    stage: Lifecycle::AwaitingParams,
                },
            ),
            _ => Err(Error::MissingBeginRequest { request_id }),
        }
    }
}

/// The values that are known among the variables asked for, each with its name, in the
/// order of asking.
pub open spec fn known_values(names: Seq<Seq<u8>>, values: Seq<Pair>) -> Seq<Pair>
    decreases names.len(),
{
    if names.len() == 0 {
        Seq::empty()
    } else {
        let before = known_values(names.drop_last(), values);
        match lookup(values, names.last()) {
            Some(value) => before.push((names.last(), value)),
            None => before,
        }
    }
}

/// The answer that a record from the peer is owed outside of any request: a query for
/// variables is answered with those that are known, and a record of a type that names no
/// type is answered by naming that type as unknown. No other record is owed an answer.
pub open spec fn management_answer(record: Record, values: Seq<Pair>) -> Option<Record> {
    match record.body {
        Body::GetValues(names) => Some(
            Record {
                request_id: record.request_id,
                body: Body::GetValuesResult(known_values(names, values)),
            },
        ),
        Body::UnknownType(record_type, _) => Some(
            Record { request_id: record.request_id, body: Body::UnknownTypeResponse(record_type) },
        ),
        _ => None,
    }
}

/// The `EndRequest` that tells the peer of a request that failed on what the peer sent: an
/// unknown role is named as such, anything else counts as a request that completed with
/// application status 1. A failure that belongs to no request is owed none.
pub open spec fn rejection_view(error: Error) -> Option<Record> {
    match error.spec_request_id() {
        Some(request_id) if error.spec_kind() is InvalidData => Some(
            Record {
                request_id,
                body: if error is UnknownRole {
                    Body::EndRequest { app_status: 0, protocol_status: ProtocolStatus::UnknownRole }
                } else {
                    Body::EndRequest {
                        app_status: 1,
                        protocol_status: ProtocolStatus::RequestComplete,
                    }
                },
            },
        ),
        _ => None,
    }
}

impl FastcgiService {
    /// Answers a record that is owed an answer outside of any request, given the values of
    /// the variables that the application makes known.
    pub fn management(&self, record: &FastcgiRecord, values: &Params) -> (answer: Option<
        FastcgiRecord,
    >)
        ensures
            match management_answer(record@, values@) {
                Some(owed) => answer matches Some(a) && a@ == owed,
                None => answer is None,
            },
    {
        let request_id = record.request_id;
        match &record.body {
            FastcgiRecordBody::GetValues(names) => {
                let ghost asked = buffers_view(names@);
                let mut known: Vec<(Vec<u8>, Vec<u8>)> = Vec::new();
                assert(asked.take(0) =~= Seq::<Seq<u8>>::empty());
                assert(vec_pairs_view(known@) =~= Seq::<Pair>::empty());
                let mut i: usize = 0;
                while i < names.len()
                    invariant
                        i <= names@.len(),
                        asked == buffers_view(names@),
                        vec_pairs_view(known@) == known_values(asked.take(i as int), values@),
                    decreases names@.len() - i,
                {
                    let name = slice_of(&names[i]);
                    let ghost so_far = vec_pairs_view(known@);
                    proof {
                        assert(asked.take(i + 1).drop_last() =~= asked.take(i as int));
                        assert(asked.take(i + 1).last() == name@);
                    }
                    if let Some(value) = values.get(name) {
                        let pair = (slice_to_vec(name), slice_to_vec(value.as_slice()));
                        known.push(pair);
                        assert(vec_pairs_view(known@) =~= so_far.push((name@, value@)));
                    }
                    i += 1;
                }
                assert(asked.take(i as int) =~= asked);
                Some(FastcgiRecord { request_id, body: FastcgiRecordBody::GetValuesResult(known) })
            },
            FastcgiRecordBody::UnknownType(record_type, _) => Some(
                FastcgiRecord {
                    request_id,
                    body: FastcgiRecordBody::UnknownTypeResponse(*record_type),
                },
            ),
            _ => None,
        }
    }

    /// The `EndRequest` to send for a request that failed on what the peer sent.
    pub fn rejection(&self, error: Error) -> (answer: Option<FastcgiRecord>)
        ensures
            match rejection_view(error) {
                Some(owed) => answer matches Some(a) && a@ == owed,
                None => answer is None,
            },
    {
        let request_id = match error.request_id() {
            Some(request_id) => request_id,
            None => {
                return None;
            },
        };
        match error.kind() {
            ErrorKind::InvalidData => {},
            ErrorKind::InvalidInput => {
                return None;
            },
        }
        let end = match error {
            Error::UnknownRole { .. } => EndRequest {
                app_status: 0,
                protocol_status: ProtocolStatus::UnknownRole,
            },
            _ => EndRequest { app_status: 1, protocol_status: ProtocolStatus::RequestComplete },
        };
        Some(FastcgiRecord { request_id, body: FastcgiRecordBody::EndRequest(end) })
    }
}

impl ServiceCall {
    /// How far the request has come.
    pub fn stage(&self) -> (stage: Lifecycle)
        ensures
            stage == self@.stage,
    {
        self.stage
    }

    /// The id of the request on its connection.
    pub fn request_id(&self) -> (id: u16)
        ensures
            id == self@.request_id,
    {
        self.request_id
    }

    /// Takes in one record of the request's body stream while parameters are awaited, and
    /// tells whether the parameters are complete.
    ///
    /// A `Params` record with pairs adds them to the parameters, a later value for a name
    /// replacing an earlier one; an empty `Params` record completes them. Any other record,
    /// or any record at a later stage, is refused and changes nothing.
    pub fn params_record(&mut self, record: &FastcgiRecord) -> (r: Result<bool, Error>)
        ensures
            old(self)@.stage.rank() <= final(self)@.stage.rank(),
            match record@.body {
                Body::Params(pairs) if old(self)@.stage is AwaitingParams => {
                    &&& r == Ok::<bool, Error>(pairs.len() == 0)
                    &&& final(self)@ == old(self)@.with_params(put_all(old(self)@.params, pairs))
                },
                _ => {
                    &&& r == Err::<bool, Error>(
                        Error::UnexpectedRecord { request_id: record.request_id },
                    )
                    &&& final(self)@ == old(self)@
                },
            },
    {
        let refused = Err(Error::UnexpectedRecord { request_id: record.request_id });
        match self.stage {
            Lifecycle::AwaitingParams => {},
            _ => {
                return refused;
            },
        }
        match &record.body {
            FastcgiRecordBody::Params(params) => {
                if params.is_empty() {
                    assert(buffer_pairs_view(params@) =~= Seq::<Pair>::empty());
                    Ok(true)
                } else {
                    self.params.extend(params);
                    Ok(false)
                }
            },
            _ => refused,
        }
    }

    /// Hands out the request for the handler, with the parameters collected so far, and
    /// moves on to await the handler. This is due when the parameters are complete, and
    /// also when the body stream ends before they are. At any later stage there is no
    /// request to hand out.
    pub fn request(&mut self) -> (r: Option<FastcgiRequest>)
        ensures
            old(self)@.stage.rank() <= final(self)@.stage.rank(),
            match old(self)@.stage {
                Lifecycle::AwaitingParams => {
                    &&& r matches Some(request)
                    &&& request.role == old(self)@.role
                    &&& request.params@ == old(self)@.params
                    &&& request.request_id == old(self)@.request_id
                    &&& final(self)@ == old(self)@.with_params(Seq::empty()).at_stage(
                        Lifecycle::AwaitingHandler,
                    )
                },
                _ => r is None && final(self)@ == old(self)@,
            },
    {
        match self.stage {
            Lifecycle::AwaitingParams => {
                let mut params = Params::new();
                std::mem::swap(&mut params, &mut self.params);
                self.stage = Lifecycle::AwaitingHandler;
                Some(FastcgiRequest::new(self.begin_request.role, params, self.request_id))
            },
            _ => None,
        }
    }

    /// Takes in one record that the handler produced for the peer and answers with the
    /// frame to send: the first record of a response goes as the message that begins it,
    /// every later one as a chunk of its body. The record is sent under the id of the
    /// request. Before the handler has the request, and after the response has ended, the
    /// record is refused.
    pub fn response_record(&mut self, record: FastcgiRecord) -> (r: Result<Frame, Error>)
        ensures
            old(self)@.stage.rank() <= final(self)@.stage.rank(),
            match old(self)@.stage {
                Lifecycle::AwaitingHandler => {
                    &&& r matches Ok(frame)
                    &&& frame@ == message_frame(
                        Record { request_id: old(self)@.request_id, body: record@.body },
                    )
                    &&& final(self)@ == old(self)@.at_stage(Lifecycle::StreamingResponse)
                },
                Lifecycle::StreamingResponse => {
                    &&& r matches Ok(frame)
                    &&& frame@ == chunk_frame(
                        Record { request_id: old(self)@.request_id, body: record@.body },
                    )
                    &&& final(self)@ == old(self)@
                },
                _ => {
                    &&& r matches Err(e)
                    &&& e == Error::UnexpectedRecord { request_id: old(self)@.request_id }
                    &&& final(self)@ == old(self)@
                },
            },
    {
        let id = self.request_id as RequestId;
        let record = FastcgiRecord { request_id: self.request_id, body: record.body };
        match self.stage {
            Lifecycle::AwaitingHandler => {
                self.stage = Lifecycle::StreamingResponse;
                Ok(Frame::Message { id, message: record, body: true, solo: false })
            },
            Lifecycle::StreamingResponse => Ok(Frame::Body { id, chunk: Some(record) }),
            _ => Err(Error::UnexpectedRecord { request_id: self.request_id }),
        }
    }

    /// Ends the response, once the handler has finished or the request is given up, and
    /// answers with the frames to send.
    ///
    /// Where no record of the response was sent yet, a `Stdout` record with the empty line
    /// goes first, as the message that begins the response. Then come the three records
    /// that end every response, as chunks, and the end of the body. A response that has
    /// ended is not ended again: there is nothing more to send.
    pub fn finish(&mut self) -> (frames: Vec<Frame>)
        ensures
            old(self)@.stage.rank() <= final(self)@.stage.rank(),
            final(self)@ == old(self)@.at_stage(Lifecycle::Terminated),
            frames_view(frames@) == closing_frames(old(self)@.stage, old(self)@.request_id),
    {
        let request_id = self.request_id;
        let id = request_id as RequestId;
        let mut frames: Vec<Frame> = Vec::new();
        match self.stage {
            Lifecycle::Terminated => {
                assert(frames_view(frames@) =~= Seq::<FrameView>::empty());
                return frames;
            },
            Lifecycle::StreamingResponse => {},
            _ => {
                // Send a header-body separator (i.e. send zero headers).
                let separator: Vec<u8> = vec![0x0D, 0x0A];
                assert(separator@ =~= seq![0x0Du8, 0x0Au8]);
                frames.push(
                    Frame::Message {
                        id,
                        message: FastcgiRecord {
                            request_id,
                            body: FastcgiRecordBody::Stdout(from_vec(separator)),
                        },
                        body: true,
                        solo: false,
                    },
                );
            },
        }
        let ghost start = frames_view(frames@);
        let ghost wanted = end_records_view(request_id);
        let records = end_records(request_id);
        assert(wanted.len() == 3 && wanted[0].request_id == request_id && wanted[1].request_id
            == request_id && wanted[2].request_id == request_id);
        for record in it: records
            invariant
                it.seq() == records@,
                records_view(records@) == wanted,
                id == request_id as RequestId,
                forall|k: int| 0 <= k < wanted.len() ==> (#[trigger] wanted[k]).request_id == request_id,
                frames_view(frames@) == start + wanted.take(it.index() as int).map_values(
                    |r: Record| chunk_frame(r),
                ),
        {
            let ghost i = it.index() as int;
            let ghost so_far = frames_view(frames@);
            proof {
                assert(record@ == records_view(records@)[i]);
                assert(record@ == wanted[i]);
                assert(wanted.take(i + 1) =~= wanted.take(i).push(wanted[i]));
            }
            frames.push(Frame::Body { id, chunk: Some(record) });
            proof {
                assert(frames_view(frames@) =~= so_far.push(chunk_frame(wanted[i])));
                assert(wanted.take(i + 1).map_values(|r: Record| chunk_frame(r)) =~= wanted.take(
                    i,
                ).map_values(|r: Record| chunk_frame(r)).push(chunk_frame(wanted[i])));
                assert(frames_view(frames@) =~= start + wanted.take(i + 1).map_values(
                    |r: Record| chunk_frame(r),
                ));
            }
        }
        assert(wanted.take(wanted.len() as int) =~= wanted);
        let ghost chunks = frames_view(frames@);
        frames.push(Frame::Body { id, chunk: None });
        self.stage = Lifecycle::Terminated;
        assert(frames_view(frames@) =~= chunks.push(FrameView::Body { id, chunk: None }));
        assert(frames_view(frames@) =~= start + end_frames(request_id));
        assert(Seq::<FrameView>::empty() + end_frames(request_id) =~= end_frames(request_id));
        frames
    }
}

} // verus!

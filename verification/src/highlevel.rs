//! The request assembler: sorts the records of one connection by request id, collects the
//! parameters of each request, and says what is due for every record that arrives.

use crate::buffer::{contents, slice_of};
use crate::error::Error;
pub use crate::hi::response::FastcgiRequest;
use crate::lowlevel::{
    buffer_pairs_view, BeginRequest, Body, FastcgiRecord, FastcgiRecordBody, Record,
};
use crate::params::{put, put_all, Params};
use crate::s11n::Role;
use crate::wire::Pair;
use bytes::BytesMut;
use std::collections::BTreeMap;
use vstd::prelude::*;
use vstd::slice::slice_to_vec;

verus! {

broadcast use {vstd::laws_cmp::group_laws_cmp, vstd::std_specs::btree::group_btree_axioms};

#[derive(Debug)]
pub struct RequestHeader {
    pub role: Role,
    pub params: Params,
}

/// What the assembler keeps of one request: its header, until the parameters are complete
/// and the request is issued.
#[derive(Debug)]
pub struct RequestState {
    pending_header: Option<RequestHeader>,
}

impl View for RequestState {
    type V = Option<(Role, Seq<Pair>)>;

    closed spec fn view(&self) -> Option<(Role, Seq<Pair>)> {
        match self.pending_header {
            Some(header) => Some((header.role, header.params@)),
            None => None,
        }
    }
}

impl RequestState {
    pub fn new(details: BeginRequest) -> (state: RequestState)
        ensures
            state@ == Some((details.role, Seq::<Pair>::empty())),
    {
        RequestState {
            pending_header: Some(RequestHeader { role: details.role, params: Params::new() }),
        }
    }

    /// Whether the parameters are still being collected.
    pub fn is_pending(&self) -> (pending: bool)
        ensures
            pending == self@ is Some,
    {
        self.pending_header.is_some()
    }

    /// Sets one parameter of a request whose parameters are still being collected.
    pub fn set_param(&mut self, key: BytesMut, value: BytesMut)
        requires
            old(self)@ is Some,
        ensures
            final(self)@ == Some(
                (old(self)@.unwrap().0, put(old(self)@.unwrap().1, contents(key), contents(value))),
            ),
    {
        let mut taken = None;
        std::mem::swap(&mut taken, &mut self.pending_header);
        let mut header = taken.unwrap();
        header.params.insert(slice_to_vec(slice_of(&key)), slice_to_vec(slice_of(&value)));
        self.pending_header = Some(header);
    }

    /// Sets each parameter of a `Params` record, in order.
    fn set_params(&mut self, params: &Vec<(BytesMut, BytesMut)>)
        requires
            old(self)@ is Some,
        ensures
            final(self)@ == Some(
                (old(self)@.unwrap().0, put_all(old(self)@.unwrap().1, buffer_pairs_view(params@))),
            ),
    {
        let mut taken = None;
        std::mem::swap(&mut taken, &mut self.pending_header);
        let mut header = taken.unwrap();
        header.params.extend(params);
        self.pending_header = Some(header);
    }

    /// Takes the header out: the parameters are complete.
    fn take_header(&mut self) -> (header: RequestHeader)
        requires
            old(self)@ is Some,
        ensures
            final(self)@ is None,
            old(self)@ == Some((header.role, header.params@)),
    {
        let mut taken = None;
        std::mem::swap(&mut taken, &mut self.pending_header);
        taken.unwrap()
    }
}

/// What is due for a record that arrived.
#[derive(Debug)]
pub enum Assembled {
    /// The record was taken in; nothing is due.
    Nothing,
    /// The parameters of a request are complete: the request is to be handed to a handler.
    Request(FastcgiRequest),
    /// These bytes are to go to the body stream of the request.
    Body { request_id: u16, chunk: BytesMut },
    /// The body stream of the request is to be closed: it has ended.
    EndOfBody { request_id: u16 },
    /// The body stream of the request is to be closed: the peer gave the request up.
    Aborted { request_id: u16 },
}

/// What is due for a record that arrived, with every buffer taken as the bytes it holds.
pub enum AssembledView {
    Nothing,
    Request { request_id: u16, role: Role, params: Seq<Pair> },
    Body { request_id: u16, chunk: Seq<u8> },
    EndOfBody { request_id: u16 },
    Aborted { request_id: u16 },
}

impl View for Assembled {
    type V = AssembledView;

    open spec fn view(&self) -> AssembledView {
        match *self {
            Assembled::Nothing => AssembledView::Nothing,
            Assembled::Request(request) => AssembledView::Request {
                request_id: request.request_id,
                role: request.role,
                params: request.params@,
            },
            Assembled::Body { request_id, chunk } => AssembledView::Body {
                request_id,
                chunk: contents(chunk),
            },
            Assembled::EndOfBody { request_id } => AssembledView::EndOfBody { request_id },
            Assembled::Aborted { request_id } => AssembledView::Aborted { request_id },
        }
    }
}

/// The requests that an assembler knows, each with its header while that is pending.
pub type Requests = Map<u16, Option<(Role, Seq<Pair>)>>;

/// What a record does to the requests that the assembler knows.
pub open spec fn requests_after(requests: Requests, record: Record) -> Requests {
    let id = record.request_id;
    if !requests.contains_key(id) {
        match record.body {
            Body::BeginRequest { role, .. } => requests.insert(
                id,
                Some((role, Seq::<Pair>::empty())),
            ),
            _ => requests,
        }
    } else {
        match (requests[id], record.body) {
            (Some((role, params)), Body::Params(pairs)) => if pairs.len() == 0 {
                requests.insert(id, None)
            } else {
                requests.insert(id, Some((role, put_all(params, pairs))))
            },
            _ => requests,
        }
    }
}

/// What is due for a record, given the requests that the assembler knows.
///
/// The first record of a request must be `BeginRequest`, and there must be no second one.
/// Until an empty `Params` record completes the parameters, only `Params` records may
/// follow; the empty one issues the request. After that, `Stdin` records carry the body, an
/// empty one ends it, `AbortRequest` gives the request up, and `Data` records are passed
/// over. Everything else is refused.
pub open spec fn assembled(requests: Requests, record: Record) -> Result<AssembledView, Error> {
    let request_id = record.request_id;
    if !requests.contains_key(request_id) {
        match record.body {
            Body::BeginRequest { .. } => Ok(AssembledView::Nothing),
            _ => Err(Error::MissingBeginRequest { request_id }),
        }
    } else {
        match (requests[request_id], record.body) {
            (_, Body::BeginRequest { .. }) => Err(Error::DuplicateBeginRequest { request_id }),
            (Some((role, params)), Body::Params(pairs)) => if pairs.len() == 0 {
                Ok(AssembledView::Request { request_id, role, params })
            } else {
                Ok(AssembledView::Nothing)
            },
            (None, Body::Stdin(bytes)) => if bytes.len() == 0 {
                Ok(AssembledView::EndOfBody { request_id })
            } else {
                Ok(AssembledView::Body { request_id, chunk: bytes })
            },
            (None, Body::Data(_)) => Ok(AssembledView::Nothing),
            (None, Body::AbortRequest) => Ok(AssembledView::Aborted { request_id }),
            _ => Err(Error::UnexpectedRecord { request_id }),
        }
    }
}

pub struct FastcgiServer {
    requests: BTreeMap<u16, RequestState>,
}

impl View for FastcgiServer {
    type V = Requests;

    closed spec fn view(&self) -> Requests {
        self.requests@.map_values(|state: RequestState| state@)
    }
}

impl FastcgiServer {
    pub fn new() -> (server: FastcgiServer)
        ensures
            server@ == Map::<u16, Option<(Role, Seq<Pair>)>>::empty(),
    {
        let server = FastcgiServer { requests: BTreeMap::new() };
        assert(server@ =~= Map::<u16, Option<(Role, Seq<Pair>)>>::empty());
        server
    }

    /// Takes in one record from the peer and says what is due for it.
    pub fn process_record(&mut self, rec: FastcgiRecord) -> (r: Result<Assembled, Error>)
        ensures
            final(self)@ == requests_after(old(self)@, rec@),
            match assembled(old(self)@, rec@) {
                Ok(due) => r matches Ok(a) && a@ == due,
                Err(e) => r matches Err(e2) && e2 == e,
            },
    {
        let request_id = rec.request_id;
        let ghost before = self.requests@;
        let mut state = match self.requests.remove(&request_id) {
            None => {
                assert(self.requests@ =~= before);
                match rec.body {
                    FastcgiRecordBody::BeginRequest(details) => {
                        self.requests.insert(request_id, RequestState::new(details));
                        assert(self@ =~= requests_after(old(self)@, rec@));
                        return Ok(Assembled::Nothing);
                    },
                    _ => {
                        return Err(Error::MissingBeginRequest { request_id });
                    },
                }
            },
            Some(state) => state,
        };
        let ghost header = state@;
        let result = match rec.body {
            FastcgiRecordBody::Params(params) => {
                if !state.is_pending() {
                    Err(Error::UnexpectedRecord { request_id })
                } else if params.len() == 0 {
                    assert(buffer_pairs_view(params@) =~= Seq::<Pair>::empty());
                    let header = state.take_header();
                    Ok(Assembled::Request(FastcgiRequest::new(header.role, header.params, request_id)))
                } else {
                    state.set_params(&params);
                    Ok(Assembled::Nothing)
                }
            },
            FastcgiRecordBody::BeginRequest(_) => Err(
                Error::DuplicateBeginRequest { request_id },
            ),
            FastcgiRecordBody::Stdin(buf) => {
                if state.is_pending() {
                    Err(Error::UnexpectedRecord { request_id })
                } else if buf.is_empty() {
                    Ok(Assembled::EndOfBody { request_id })
                } else {
                    Ok(Assembled::Body { request_id, chunk: buf })
                }
            },
            FastcgiRecordBody::Data(_) => {
                if state.is_pending() {
                    Err(Error::UnexpectedRecord { request_id })
                } else {
                    Ok(Assembled::Nothing)
                }
            },
            FastcgiRecordBody::AbortRequest => {
                if state.is_pending() {
                    Err(Error::UnexpectedRecord { request_id })
                } else {
                    Ok(Assembled::Aborted { request_id })
                }
            },
            _ => Err(Error::UnexpectedRecord { request_id }),
        };
        let ghost kept = state@;
        self.requests.insert(request_id, state);
        proof {
            assert(self.requests@ =~= before.insert(request_id, state));
            assert(self@ =~= old(self)@.insert(request_id, kept));
            assert(old(self)@[request_id] == header);
            assert(self@ =~= requests_after(old(self)@, rec@));
        }
        result
    }

    /// Forgets a request: its `EndRequest` was written.
    pub fn end_request(&mut self, request_id: u16)
        ensures
            final(self)@ == old(self)@.remove(request_id),
    {
        let _ = self.requests.remove(&request_id);
        assert(self@ =~= old(self)@.remove(request_id));
    }

    /// The number of requests that are known and not forgotten yet.
    pub fn len(&self) -> (n: usize)
        ensures
            n == self@.len(),
    {
        assert(self@.dom() =~= self.requests@.dom());
        self.requests.len()
    }
}

} // verus!

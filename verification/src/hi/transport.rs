//! The bookkeeping of one connection: which requests are in flight, whether the peer asked
//! to keep the connection, and when the connection is to be dropped.
//!
//! The transport itself (the socket and its buffers) lives with the caller. It tells this
//! bookkeeping of every frame that it reads, of every frame that it is about to write and
//! of every flush, and is told in turn whether it still has a connection to use.

use crate::hi::frame::{Frame, FrameView, RequestId};
use crate::lowlevel::{Body, FastcgiRecordBody};
use std::collections::BTreeSet;
use vstd::prelude::*;

verus! {

broadcast use {vstd::laws_cmp::group_laws_cmp, vstd::std_specs::btree::group_btree_axioms};

/// The request id of a frame as the bookkeeping keeps it: the low 16 bits.
pub open spec fn short_id(id: RequestId) -> u16 {
    (id % 0x1_0000) as u16
}

/// The request id of a frame as the bookkeeping keeps it.
fn to_short_id(id: RequestId) -> (short: u16)
    ensures
        short == short_id(id),
{
    (id % 0x1_0000) as u16
}

// We want to drop connections only if no requests are in flight and we've seen at least one
// request before. This is to guard against the case where the underlying transport is not
// ready before a full frame has been read, and a flush happens with no requests seen yet.
pub struct Requests {
    in_flight: BTreeSet<u16>,
    any_yet: bool,
}

impl Requests {
    /// The ids of the requests in flight.
    pub closed spec fn ids(&self) -> Set<u16> {
        self.in_flight@
    }

    /// Whether any request has been seen yet.
    pub closed spec fn any_yet(&self) -> bool {
        self.any_yet
    }

    pub fn new() -> (r: Requests)
        ensures
            r.ids() == Set::<u16>::empty(),
            !r.any_yet(),
    {
        Requests { in_flight: BTreeSet::new(), any_yet: false }
    }

    pub fn request(&mut self, id: RequestId)
        ensures
            final(self).ids() == old(self).ids().insert(short_id(id)),
            final(self).any_yet(),
    {
        self.in_flight.insert(to_short_id(id));
        self.any_yet = true;
    }

    pub fn remove(&mut self, id: RequestId)
        ensures
            final(self).ids() == old(self).ids().remove(short_id(id)),
            final(self).any_yet() == old(self).any_yet(),
    {
        let short = to_short_id(id);
        self.in_flight.remove(&short);
    }

    /// Whether every request seen so far has finished, and there was at least one.
    pub fn is_empty(&self) -> (b: bool)
        ensures
            b == (self.any_yet() && self.ids() == Set::<u16>::empty()),
    {
        let none = self.in_flight.is_empty();
        assert(none == (self.in_flight@ =~= Set::<u16>::empty()));
        self.any_yet && none
    }
}

/// What the bookkeeping of one connection amounts to.
pub struct Connection {
    /// Whether the transport is still held; once dropped it stays dropped.
    pub open: bool,
    /// The ids of the requests in flight.
    pub in_flight: Set<u16>,
    /// Whether any request has been seen on this connection.
    pub any_seen: bool,
    /// Whether any `BeginRequest` seen on this connection asked to keep it.
    pub keep_connection: bool,
}

/// What happens on a connection, as far as the bookkeeping is concerned.
pub enum Event {
    /// The transport read this frame from the peer.
    Received(FrameView),
    /// This frame was handed to the transport for writing.
    Sent(FrameView),
    /// The transport flushed what it had buffered for writing.
    Flushed,
}

impl Event {
    /// Whether this is the arrival of a frame that puts request `id` in flight: a message,
    /// or a chunk of a body.
    pub open spec fn arrives(self, id: u16) -> bool {
        match self {
            Event::Received(FrameView::Message { id: frame_id, .. }) => short_id(frame_id) == id,
            Event::Received(FrameView::Body { id: frame_id, chunk: Some(_) }) => short_id(
                frame_id,
            ) == id,
            _ => false,
        }
    }

    /// Whether this is the writing of the end of the body of request `id`.
    pub open spec fn ends(self, id: u16) -> bool {
        match self {
            Event::Sent(FrameView::Body { id: frame_id, chunk: None }) => short_id(frame_id)
                == id,
            _ => false,
        }
    }

    /// Whether this is the arrival of a `BeginRequest` that asks to keep the connection.
    pub open spec fn asks_to_keep(self) -> bool {
        match self {
            Event::Received(FrameView::Message { message, .. }) => match message.body {
                Body::BeginRequest { keep_connection, .. } => keep_connection,
                _ => false,
            },
            _ => false,
        }
    }
}

impl Connection {
    /// A connection on which nothing has happened yet.
    pub open spec fn start() -> Connection {
        Connection {
            open: true,
            in_flight: Set::empty(),
            any_seen: false,
            keep_connection: false,
        }
    }

    /// Whether the connection is to be dropped at the next flush: a request has been seen,
    /// none is in flight, and none asked to keep the connection.
    pub open spec fn eligible(self) -> bool {
        self.any_seen && self.in_flight == Set::<u16>::empty() && !self.keep_connection
    }

    /// The bookkeeping after one more frame was read.
    pub open spec fn received(self, frame: FrameView) -> Connection {
        match frame {
            FrameView::Message { id, message, .. } => Connection {
                in_flight: self.in_flight.insert(short_id(id)),
                any_seen: true,
                keep_connection: self.keep_connection || Event::Received(frame).asks_to_keep(),
                ..self
            },
            FrameView::Body { id, chunk: Some(_) } => Connection {
                in_flight: self.in_flight.insert(short_id(id)),
                any_seen: true,
                ..self
            },
            _ => self,
        }
    }

    /// The bookkeeping after one more frame was handed over for writing.
    pub open spec fn sent(self, frame: FrameView) -> Connection {
        match frame {
            FrameView::Body { id, chunk: None } => Connection {
                in_flight: self.in_flight.remove(short_id(id)),
                ..self
            },
            _ => self,
        }
    }

    /// The bookkeeping after a flush.
    pub open spec fn flushed(self) -> Connection {
        Connection { open: self.open && !self.eligible(), ..self }
    }

    /// The bookkeeping after one more event.
    pub open spec fn step(self, event: Event) -> Connection {
        match event {
            Event::Received(frame) => self.received(frame),
            Event::Sent(frame) => self.sent(frame),
            Event::Flushed => self.flushed(),
        }
    }

    /// The bookkeeping after everything that happened on a connection, first to last.
    pub open spec fn after(trace: Seq<Event>) -> Connection
        decreases trace.len(),
    {
        if trace.len() == 0 {
            Connection::start()
        } else {
            Connection::after(trace.drop_last()).step(trace.last())
        }
    }
}

/// Manages a FastCGI connection: keeps track of the requests in flight and drops the
/// connection when none is active (unless one of them specified the `FCGI_KEEP_CONN` bit in
/// its `BeginRequest` record).
pub struct FastcgiTransport {
    open: bool,
    in_flight: Requests,
    keep_connection: bool,
}

impl View for FastcgiTransport {
    type V = Connection;

    closed spec fn view(&self) -> Connection {
        Connection {
            open: self.open,
            in_flight: self.in_flight.ids(),
            any_seen: self.in_flight.any_yet(),
            keep_connection: self.keep_connection,
        }
    }
}

impl FastcgiTransport {
    pub fn new() -> (transport: FastcgiTransport)
        ensures
            transport@ == Connection::start(),
    {
        FastcgiTransport { open: true, in_flight: Requests::new(), keep_connection: false }
    }

    /// Whether the connection is still held. Once it is not, reads are to answer end of
    /// stream and writes are to do nothing.
    pub fn is_open(&self) -> (open: bool)
        ensures
            open == self@.open,
    {
        self.open
    }

    /// Takes note of a frame that the transport has just read.
    pub fn poll(&mut self, frame: &Frame)
        ensures
            final(self)@ == old(self)@.step(Event::Received(frame@)),
    {
        let id = match frame {
            Frame::Message { id, message, .. } => {
                if let FastcgiRecordBody::BeginRequest(begin_request) = &message.body {
                    if begin_request.keep_connection {
                        self.keep_connection = true;
                    }
                }
                Some(*id)
            },
            Frame::Body { id, chunk: Some(_) } => Some(*id),
            _ => None,
        };
        if let Some(id) = id {
            self.in_flight.request(id);
        }
    }

    /// Takes note of a frame that is about to be written, and tells whether there still is
    /// a connection to write it to.
    pub fn start_send(&mut self, item: &Frame) -> (forward: bool)
        ensures
            final(self)@ == old(self)@.step(Event::Sent(item@)),
            forward == old(self)@.open,
    {
        if let Frame::Body { id, chunk: None } = item {
            self.in_flight.remove(*id);
        }
        self.open
    }

    /// Takes note of a flush, and tells whether the connection is to be dropped now.
    pub fn poll_complete(&mut self) -> (dropped: bool)
        ensures
            final(self)@ == old(self)@.step(Event::Flushed),
            dropped == (old(self)@.open && !final(self)@.open),
    {
        if !self.keep_connection && self.in_flight.is_empty() {
            let dropped = self.open;
            self.open = false;
            dropped
        } else {
            false
        }
    }
}

/// The ids that a trace saw arrive, in a message or in a chunk of a body.
pub open spec fn seen(trace: Seq<Event>) -> Set<u16> {
    Set::new(|id: u16| exists|i: int| 0 <= i < trace.len() && (#[trigger] trace[i]).arrives(id))
}

/// The ids for which a trace wrote the end of the body.
pub open spec fn ended(trace: Seq<Event>) -> Set<u16> {
    Set::new(|id: u16| exists|i: int| 0 <= i < trace.len() && (#[trigger] trace[i]).ends(id))
}

/// Whether request `id` arrived at position `i` of the trace and its body was not ended
/// after that.
pub open spec fn pending_since(trace: Seq<Event>, id: u16, i: int) -> bool {
    &&& 0 <= i < trace.len()
    &&& trace[i].arrives(id)
    &&& forall|j: int| i < j < trace.len() ==> !(#[trigger] trace[j]).ends(id)
}

/// Whether every request whose end was written at all had it written after its last
/// arrival: no request id is in use again since the end of a body was last written for it.
pub open spec fn ids_settled(trace: Seq<Event>) -> bool {
    forall|i: int, id: u16|
        0 <= i < trace.len() && (#[trigger] trace[i].arrives(id)) && ended(trace).contains(id)
            ==> exists|j: int| i < j < trace.len() && (#[trigger] trace[j]).ends(id)
}

/// A request is in flight exactly when it arrived and the end of its body was not written
/// since.
pub proof fn lemma_in_flight(trace: Seq<Event>, id: u16)
    ensures
        Connection::after(trace).in_flight.contains(id) <==> exists|i: int|
            pending_since(trace, id, i),
    decreases trace.len(),
{
    if trace.len() > 0 {
        let before = trace.drop_last();
        let last = trace.last();
        let n = trace.len() - 1;
        lemma_in_flight(before, id);
        if Connection::after(trace).in_flight.contains(id) {
            if last.arrives(id) {
                assert(pending_since(trace, id, n));
            } else {
                assert(Connection::after(before).in_flight.contains(id));
                let i = choose|i: int| pending_since(before, id, i);
                assert(trace[i] == before[i]);
                assert forall|j: int| i < j < trace.len() implies !(#[trigger] trace[j]).ends(
                    id,
                ) by {
                    if j < n {
                        assert(trace[j] == before[j]);
                    }
                }
                assert(pending_since(trace, id, i));
            }
        }
        if exists|i: int| pending_since(trace, id, i) {
            let i = choose|i: int| pending_since(trace, id, i);
            if i < n {
                assert(trace[n].ends(id) == false);
                assert(before[i] == trace[i]);
                assert forall|j: int| i < j < before.len() implies !(#[trigger] before[j]).ends(
                    id,
                ) by {
                    assert(before[j] == trace[j]);
                }
                assert(pending_since(before, id, i));
            }
        }
    }
}

/// The set of requests in flight is the set of ids that arrived less the set of ids whose
/// body was ended, on every connection where no id is in use again since its end was last
/// written; on any other connection the two sets differ.
pub proof fn lemma_in_flight_is_seen_less_ended(trace: Seq<Event>)
    ensures
        ids_settled(trace) <==> Connection::after(trace).in_flight == seen(trace).difference(
            ended(trace),
        ),
{
    let in_flight = Connection::after(trace).in_flight;
    let expected = seen(trace).difference(ended(trace));
    if ids_settled(trace) {
        assert forall|id: u16| in_flight.contains(id) <==> expected.contains(id) by {
            lemma_in_flight(trace, id);
            if in_flight.contains(id) {
                let i = choose|i: int| pending_since(trace, id, i);
                assert(trace[i].arrives(id));
                if ended(trace).contains(id) {
                    let j = choose|j: int| i < j < trace.len() && (#[trigger] trace[j]).ends(id);
                    assert(!trace[j].ends(id));
                }
            }
            if expected.contains(id) {
                let i = choose|i: int| 0 <= i < trace.len() && (#[trigger] trace[i]).arrives(id);
                assert forall|j: int| i < j < trace.len() implies !(#[trigger] trace[j]).ends(
                    id,
                ) by {
                    if trace[j].ends(id) {
                        assert(ended(trace).contains(id));
                    }
                }
                assert(pending_since(trace, id, i));
            }
        }
        assert(in_flight =~= expected);
    } else {
        let (i, id) = choose|i: int, id: u16|
            0 <= i < trace.len() && (#[trigger] trace[i].arrives(id)) && ended(trace).contains(id)
                && !(exists|j: int| i < j < trace.len() && (#[trigger] trace[j]).ends(id));
        assert(pending_since(trace, id, i));
        lemma_in_flight(trace, id);
        assert(in_flight.contains(id) && !expected.contains(id));
    }
}

/// A request has been seen exactly when some frame of a request arrived, and the
/// connection is to be kept exactly when some `BeginRequest` that arrived asked for it.
pub proof fn lemma_flags(trace: Seq<Event>)
    ensures
        Connection::after(trace).any_seen <==> exists|i: int, id: u16|
            0 <= i < trace.len() && (#[trigger] trace[i].arrives(id)),
        Connection::after(trace).keep_connection <==> exists|i: int|
            0 <= i < trace.len() && (#[trigger] trace[i]).asks_to_keep(),
    decreases trace.len(),
{
    if trace.len() > 0 {
        let before = trace.drop_last();
        let last = trace.last();
        let n = trace.len() - 1;
        lemma_flags(before);
        if Connection::after(trace).any_seen {
            if Connection::after(before).any_seen {
                let (i, id) = choose|i: int, id: u16|
                    0 <= i < before.len() && (#[trigger] before[i].arrives(id));
                assert(trace[i].arrives(id));
            } else {
                match last {
                    Event::Received(FrameView::Message { id, .. }) => {
                        assert(trace[n].arrives(short_id(id)));
                    },
                    Event::Received(FrameView::Body { id, chunk: Some(_) }) => {
                        assert(trace[n].arrives(short_id(id)));
                    },
                    _ => {},
                }
            }
        }
        if exists|i: int, id: u16| 0 <= i < trace.len() && (#[trigger] trace[i].arrives(id)) {
            let (i, id) = choose|i: int, id: u16|
                0 <= i < trace.len() && (#[trigger] trace[i].arrives(id));
            if i < n {
                assert(before[i].arrives(id));
            }
        }
        if Connection::after(trace).keep_connection {
            if Connection::after(before).keep_connection {
                let i = choose|i: int| 0 <= i < before.len() && (#[trigger] before[i]).asks_to_keep();
                assert(trace[i].asks_to_keep());
            } else {
                assert(trace[n].asks_to_keep());
            }
        }
        if exists|i: int| 0 <= i < trace.len() && (#[trigger] trace[i]).asks_to_keep() {
            let i = choose|i: int| 0 <= i < trace.len() && (#[trigger] trace[i]).asks_to_keep();
            if i < n {
                assert(before[i].asks_to_keep());
            }
        }
    }
}

/// A connection is dropped by a flush and by nothing else, and a flush drops it exactly
/// when a request has been seen, none is in flight, and no `BeginRequest` that asked to keep
/// the connection has arrived.
pub proof fn lemma_dropped_on_flush(trace: Seq<Event>, event: Event)
    requires
        Connection::after(trace).open,
    ensures
        !Connection::after(trace.push(event)).open <==> {
            &&& event is Flushed
            &&& exists|i: int, id: u16| 0 <= i < trace.len() && (#[trigger] trace[i].arrives(id))
            &&& Connection::after(trace).in_flight == Set::<u16>::empty()
            &&& forall|i: int| 0 <= i < trace.len() ==> !(#[trigger] trace[i]).asks_to_keep()
        },
{
    lemma_flags(trace);
    assert(trace.push(event).drop_last() =~= trace);
}

/// A connection that was dropped stays dropped.
pub proof fn lemma_dropped_for_good(trace: Seq<Event>, event: Event)
    requires
        !Connection::after(trace).open,
    ensures
        !Connection::after(trace.push(event)).open,
{
    assert(trace.push(event).drop_last() =~= trace);
}

} // verus!

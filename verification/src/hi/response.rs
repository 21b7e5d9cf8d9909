//! The request as the handler sees it, and the two stages of its response: first the
//! headers, then the body.

use crate::buffer::{contents, from_vec};
use crate::error::Error;
use crate::lowlevel::{Body, FastcgiRecord, FastcgiRecordBody, Record, MAX_CONTENT_LENGTH};
use crate::params::{put, without, Params};
use crate::s11n::Role;
use crate::wire::Pair;
use bytes::BytesMut;
use vstd::prelude::*;
use vstd::slice::{slice_subrange, slice_to_vec};
use vstd::string::StringSliceAdditionalSpecFns;

verus! {

/// The name of the header that every response starts out with.
pub const POWERED_BY_HEADER: &'static str = "X-Powered-By";

/// The value of the header that every response starts out with.
pub const POWERED_BY: &'static str = "tokio-fastcgi/0.1.0";

/// What each record of a list says.
pub open spec fn records_view(records: Seq<FastcgiRecord>) -> Seq<Record> {
    records.map_values(|r: FastcgiRecord| r@)
}

/// The header lines, each as `Name: Value` and a line end, in order.
pub open spec fn header_lines(headers: Seq<Pair>) -> Seq<u8>
    decreases headers.len(),
{
    if headers.len() == 0 {
        Seq::empty()
    } else {
        header_lines(headers.drop_last()) + headers.last().0 + seq![0x3Au8, 0x20u8]
            + headers.last().1 + seq![0x0Du8, 0x0Au8]
    }
}

/// The bytes that open a response: the header lines, then an empty line.
pub open spec fn headers_encoding(headers: Seq<Pair>) -> Seq<u8> {
    header_lines(headers) + seq![0x0Du8, 0x0Au8]
}

/// The number of records that it takes to carry a body of the given length.
pub open spec fn chunk_count(len: nat) -> nat {
    ((len + MAX_CONTENT_LENGTH - 1) / (MAX_CONTENT_LENGTH as int)) as nat
}

/// The part of a body that its record number `i` carries.
pub open spec fn chunk(bytes: Seq<u8>, i: int) -> Seq<u8> {
    let start = i * MAX_CONTENT_LENGTH;
    let end = if start + MAX_CONTENT_LENGTH < bytes.len() {
        start + MAX_CONTENT_LENGTH
    } else {
        bytes.len() as int
    };
    bytes.subrange(start, end)
}

/// The `Stdout` records that carry a body for a request: the body cut into pieces of
/// 65,535 bytes, the last one holding what is left.
pub open spec fn stdout_records(request_id: u16, bytes: Seq<u8>) -> Seq<Record> {
    Seq::new(
        chunk_count(bytes.len()),
        |i: int| Record { request_id, body: Body::Stdout(chunk(bytes, i)) },
    )
}

/// The bytes that a run of `Stdout` records carries, put together.
pub open spec fn stdout_payload(records: Seq<Record>) -> Seq<u8>
    decreases records.len(),
{
    if records.len() == 0 {
        Seq::empty()
    } else {
        stdout_payload(records.drop_last()) + records.last().body.content()
    }
}

/// A request as it is handed to the handler.
#[derive(Debug)]
pub struct FastcgiRequest {
    pub role: Role,
    pub params: Params,
    pub request_id: u16,
}

/// The first stage of a response: the headers can still be changed.
#[derive(Debug)]
pub struct FastcgiHeadersResponse {
    request_id: u16,
    headers: Params,
}

/// The second stage of a response: the headers are sent, the body is being written.
#[derive(Debug)]
pub struct FastcgiBodyResponse {
    pub request_id: u16,
    pub buffer: Vec<u8>,
}

/// Appends bytes to a vector.
fn append(out: &mut Vec<u8>, bytes: &[u8])
    ensures
        final(out)@ == old(out)@ + bytes@,
{
    let mut i: usize = 0;
    while i < bytes.len()
        invariant
            i <= bytes@.len(),
            out@ == old(out)@ + bytes@.take(i as int),
        decreases bytes@.len() - i,
    {
        out.push(bytes[i]);
        assert(bytes@.take(i + 1) =~= bytes@.take(i as int).push(bytes@[i as int]));
        i += 1;
    }
    assert(bytes@.take(i as int) =~= bytes@);
}

impl FastcgiRequest {
    pub fn new(role: Role, params: Params, request_id: u16) -> (request: FastcgiRequest)
        ensures
            request.role == role,
            request.params == params,
            request.request_id == request_id,
    {
        FastcgiRequest { role, params, request_id }
    }

    pub fn response(&self) -> (response: FastcgiHeadersResponse)
        ensures
            response.id() == self.request_id,
            response.headers_view() == seq![
                (POWERED_BY_HEADER.spec_bytes(), POWERED_BY.spec_bytes()),
            ],
    {
        FastcgiHeadersResponse::new(self.request_id)
    }

    /// Sorts one record of the request's body stream. The stream is expected to consist
    /// only of `Stdin` records: a `Stdin` record yields its bytes, an empty one ends the
    /// body, anything else is an error.
    pub fn body_chunk(record: FastcgiRecord) -> (r: Result<Option<BytesMut>, Error>)
        ensures
            match record@.body {
                Body::Stdin(bytes) => if bytes.len() == 0 {
                    r matches Ok(None)
                } else {
                    r matches Ok(Some(buf)) && contents(buf) == bytes
                },
                _ => r matches Err(e) && e == (Error::UnexpectedRecord {
                    request_id: record.request_id,
                }),
            },
    {
        match record.body {
            FastcgiRecordBody::Stdin(buf) => {
                if buf.is_empty() {
                    Ok(None)
                } else {
                    Ok(Some(buf))
                }
            },
            _ => Err(Error::UnexpectedRecord { request_id: record.request_id }),
        }
    }
}

impl FastcgiHeadersResponse {
    /// The id of the request that this responds to.
    pub closed spec fn id(&self) -> u16 {
        self.request_id
    }

    /// The headers, in the order in which their names were first set.
    pub closed spec fn headers_view(&self) -> Seq<Pair> {
        self.headers@
    }

    fn new(request_id: u16) -> (response: FastcgiHeadersResponse)
        ensures
            response.id() == request_id,
            response.headers_view() == seq![
                (POWERED_BY_HEADER.spec_bytes(), POWERED_BY.spec_bytes()),
            ],
    {
        let mut headers = Params::new();
        headers.insert(
            slice_to_vec(POWERED_BY_HEADER.as_bytes()),
            slice_to_vec(POWERED_BY.as_bytes()),
        );
        assert(headers@ =~= seq![(POWERED_BY_HEADER.spec_bytes(), POWERED_BY.spec_bytes())]);
        FastcgiHeadersResponse { request_id, headers }
    }

    pub fn headers(&self) -> (headers: &Params)
        ensures
            headers@ == self.headers_view(),
    {
        &self.headers
    }

    pub fn headers_mut(&mut self) -> (headers: &mut Params)
        ensures
            headers@ == old(self).headers_view(),
            final(self).id() == old(self).id(),
            final(self).headers_view() == final(headers)@,
    {
        &mut self.headers
    }

    /// Sets a header, in place of an earlier value of the same name if there is one.
    pub fn set_header(&mut self, name: &str, value: &str)
        ensures
            final(self).id() == old(self).id(),
            final(self).headers_view() == put(
                old(self).headers_view(),
                name.spec_bytes(),
                value.spec_bytes(),
            ),
    {
        self.headers.insert(slice_to_vec(name.as_bytes()), slice_to_vec(value.as_bytes()));
    }

    /// Takes a header out.
    pub fn clear_header(&mut self, name: &str)
        ensures
            final(self).id() == old(self).id(),
            final(self).headers_view() == without(old(self).headers_view(), name.spec_bytes()),
    {
        self.headers.remove(name.as_bytes());
    }

    /// Ends the first stage: yields the one `Stdout` record that carries the headers, to be
    /// sent first, and the writer of the body.
    pub fn send_headers(self) -> (r: (FastcgiRecord, FastcgiBodyResponse))
        ensures
            r.0@ == (Record {
                request_id: self.id(),
                body: Body::Stdout(headers_encoding(self.headers_view())),
            }),
            r.1.request_id == self.id(),
            r.1.buffer@ == Seq::<u8>::empty(),
    {
        let mut out: Vec<u8> = Vec::new();
        let line_end: [u8; 2] = [0x0D, 0x0A];
        let separator: [u8; 2] = [0x3A, 0x20];
        let n = self.headers.len();
        let mut i: usize = 0;
        while i < n
            invariant
                i <= n,
                n == self.headers@.len(),
                line_end@ == seq![0x0Du8, 0x0Au8],
                separator@ == seq![0x3Au8, 0x20u8],
                out@ == header_lines(self.headers@.take(i as int)),
            decreases n - i,
        {
            let (key, value) = self.headers.entry(i);
            proof {
                let upto = self.headers@.take(i + 1);
                assert(upto.drop_last() =~= self.headers@.take(i as int));
                assert(upto.last() == (key@, value@));
            }
            append(&mut out, key.as_slice());
            append(&mut out, separator.as_slice());
            append(&mut out, value.as_slice());
            append(&mut out, line_end.as_slice());
            i += 1;
        }
        assert(self.headers@.take(i as int) =~= self.headers@);
        append(&mut out, line_end.as_slice());

        let record = FastcgiRecord {
            request_id: self.request_id,
            body: FastcgiRecordBody::Stdout(from_vec(out)),
        };
        (record, FastcgiBodyResponse::new(self.request_id))
    }
}

impl FastcgiBodyResponse {
    fn new(request_id: u16) -> (response: FastcgiBodyResponse)
        ensures
            response.request_id == request_id,
            response.buffer@ == Seq::<u8>::empty(),
    {
        FastcgiBodyResponse { request_id, buffer: Vec::new() }
    }

    /// Empties the buffer into `Stdout` records of at most 65,535 bytes each, to be sent in
    /// order, and yields the writer with its buffer empty.
    pub fn flush(self) -> (r: (Vec<FastcgiRecord>, FastcgiBodyResponse))
        ensures
            records_view(r.0@) == stdout_records(self.request_id, self.buffer@),
            r.0@.len() == chunk_count(self.buffer@.len()),
            r.1.request_id == self.request_id,
            r.1.buffer@ == Seq::<u8>::empty(),
    {
        let request_id = self.request_id;
        let buffer = self.buffer.as_slice();
        let len = buffer.len();
        let mut records: Vec<FastcgiRecord> = Vec::new();
        let mut start: usize = 0;
        while start < len
            invariant
                start <= len,
                len == buffer@.len(),
                start < len ==> start == records@.len() * MAX_CONTENT_LENGTH,
                start == len ==> records@.len() == chunk_count(len as nat),
                records@.len() <= chunk_count(len as nat),
                forall|k: int|
                    0 <= k < records@.len() ==> (#[trigger] records@[k])@ == (Record {
                        request_id,
                        body: Body::Stdout(chunk(buffer@, k)),
                    }),
            decreases len - start,
        {
            let end = if len - start > MAX_CONTENT_LENGTH {
                start + MAX_CONTENT_LENGTH
            } else {
                len
            };
            let piece = slice_to_vec(slice_subrange(buffer, start, end));
            let ghost k = records@.len() as int;
            assert(piece@ == chunk(buffer@, k));
            assert(k < chunk_count(len as nat) && (end == len ==> k + 1 == chunk_count(
                len as nat,
            ))) by (nonlinear_arith)
                requires
                    start == k * MAX_CONTENT_LENGTH,
                    start < len,
                    end == if len - start > MAX_CONTENT_LENGTH {
                        start + MAX_CONTENT_LENGTH
                    } else {
                        len as int
                    },
                    chunk_count(len as nat) == ((len + MAX_CONTENT_LENGTH - 1) / (
                    MAX_CONTENT_LENGTH as int)) as nat,
                    MAX_CONTENT_LENGTH == 0xFFFF,
            ;
            records.push(
                FastcgiRecord {
                    request_id,
                    body: FastcgiRecordBody::Stdout(from_vec(piece)),
                },
            );
            start = end;
        }
        assert(records_view(records@) =~= stdout_records(request_id, buffer@));
        (records, FastcgiBodyResponse::new(request_id))
    }

    /// Ends the response: yields the records that carry what is left in the buffer.
    pub fn finish(self) -> (records: Vec<FastcgiRecord>)
        ensures
            records_view(records@) == stdout_records(self.request_id, self.buffer@),
            records@.len() == chunk_count(self.buffer@.len()),
    {
        if self.buffer.is_empty() {
            let records: Vec<FastcgiRecord> = Vec::new();
            assert(records_view(records@) =~= stdout_records(self.request_id, self.buffer@));
            records
        } else {
            let (records, _) = self.flush();
            records
        }
    }
}

/// The first `k` of the records that carry a body carry its first `k` times 65,535 bytes,
/// or all of it.
proof fn lemma_stdout_payload_prefix(request_id: u16, bytes: Seq<u8>, k: int)
    requires
        0 <= k <= chunk_count(bytes.len()),
    ensures
        stdout_payload(stdout_records(request_id, bytes).take(k)) == bytes.take(
            if k * MAX_CONTENT_LENGTH < bytes.len() {
                k * MAX_CONTENT_LENGTH
            } else {
                bytes.len() as int
            },
        ),
    decreases k,
{
    let records = stdout_records(request_id, bytes);
    if k == 0 {
        assert(bytes.take(0) =~= Seq::<u8>::empty());
    } else {
        lemma_stdout_payload_prefix(request_id, bytes, k - 1);
        assert(records.take(k).drop_last() =~= records.take(k - 1));
        assert(records.take(k).last() == records[k - 1]);
        assert(records[k - 1].body.content() == chunk(bytes, k - 1));
        let end = if k * MAX_CONTENT_LENGTH < bytes.len() {
            k * MAX_CONTENT_LENGTH
        } else {
            bytes.len() as int
        };
        assert(bytes.take((k - 1) * MAX_CONTENT_LENGTH) + chunk(bytes, k - 1) =~= bytes.take(end));
    }
}

/// The records that carry a body carry exactly the body, in order, in pieces that are not
/// empty and not longer than 65,535 bytes, and only the last piece may be shorter.
pub proof fn lemma_stdout_records(request_id: u16, bytes: Seq<u8>)
    ensures
        stdout_payload(stdout_records(request_id, bytes)) == bytes,
        forall|i: int|
            0 <= i < stdout_records(request_id, bytes).len() ==> {
                let record = #[trigger] stdout_records(request_id, bytes)[i];
                &&& record.request_id == request_id
                &&& record.body is Stdout
                &&& 0 < record.body.content().len() <= MAX_CONTENT_LENGTH
                &&& i + 1 < stdout_records(request_id, bytes).len() ==> record.body.content().len()
                    == MAX_CONTENT_LENGTH
            },
        bytes.len() <= stdout_records(request_id, bytes).len() * MAX_CONTENT_LENGTH,
{
    let records = stdout_records(request_id, bytes);
    lemma_stdout_payload_prefix(request_id, bytes, records.len() as int);
    assert(records.take(records.len() as int) =~= records);
    assert(bytes.take(bytes.len() as int) =~= bytes);
}

} // verus!

//! The record codec: one FastCGI record at a time, between a byte buffer and a typed record.

use crate::buffer::{contents, from_vec, slice_of};
use crate::byteorder_ext::{read_u32, write_u32};
use crate::endian::{
    be16, be16_bytes, be32, be32_bytes, lemma_be16_of_bytes, lemma_be32_of_bytes, NetworkU16,
    NetworkU32,
};
use crate::error::Error;
use crate::rawstruct::{as_bytes, from_bytes, RawStruct};
use crate::s11n::{
    BeginRequestBody, EndRequestBody, FastcgiRecordHeader, ProtocolStatus, RecordType, Role,
    FASTCGI_VERSION,
};
use crate::wire::{
    lemma_len_encoding_len, lemma_pairs_encoding_concat, lemma_pairs_encoding_push,
    lemma_pairs_round_trip, lemma_parse_len_bounds, len_encoding, pair_encoding, pairs_encodable,
    pairs_encoding, parse_len, parse_pair, parse_pairs, Pair, LENGTH_LIMIT,
};
use bytes::BytesMut;
use vstd::prelude::*;
use vstd::slice::slice_subrange;

verus! {

/// The longest content that one record can carry.
pub const MAX_CONTENT_LENGTH: usize = 0xFFFF;

/// The length of a record header.
pub const HEADER_LENGTH: usize = 8;

#[derive(Debug, PartialEq, Eq)]
pub struct FastcgiRecord {
    pub request_id: u16,
    pub body: FastcgiRecordBody,
}

#[derive(Debug, PartialEq, Eq)]
pub enum FastcgiRecordBody {
    BeginRequest(BeginRequest),
    AbortRequest,
    EndRequest(EndRequest),
    Params(Vec<(BytesMut, BytesMut)>),
    Stdin(BytesMut),
    Stdout(BytesMut),
    Stderr(BytesMut),
    Data(BytesMut),
    GetValues(Vec<BytesMut>),
    GetValuesResult(Vec<(Vec<u8>, Vec<u8>)>),
    UnknownTypeResponse(u8),
    UnknownType(u8, BytesMut),  // this one is the incoming record
}

#[derive(Clone, Copy, Debug, PartialEq, Eq, Structural)]
pub struct BeginRequest {
    pub role: Role,
    pub keep_connection: bool,
}

#[derive(Clone, Copy, Debug, PartialEq, Eq, Structural)]
pub struct EndRequest {
    pub app_status: u32,
    pub protocol_status: ProtocolStatus,
}

#[derive(Clone, Copy, Debug, Default)]
pub struct FastcgiLowlevelCodec;

/// What a record body says, with every buffer taken as the bytes it holds.
pub enum Body {
    BeginRequest { role: Role, keep_connection: bool },
    AbortRequest,
    EndRequest { app_status: u32, protocol_status: ProtocolStatus },
    Params(Seq<Pair>),
    Stdin(Seq<u8>),
    Stdout(Seq<u8>),
    Stderr(Seq<u8>),
    Data(Seq<u8>),
    GetValues(Seq<Seq<u8>>),
    GetValuesResult(Seq<Pair>),
    UnknownTypeResponse(u8),
    UnknownType(u8, Seq<u8>),
}

/// What a record says: the request it belongs to and its body.
pub struct Record {
    pub request_id: u16,
    pub body: Body,
}

/// The bytes held by each buffer of a list.
pub open spec fn buffers_view(buffers: Seq<BytesMut>) -> Seq<Seq<u8>> {
    buffers.map_values(|b: BytesMut| contents(b))
}

/// The bytes held by each pair of buffers of a list.
pub open spec fn buffer_pairs_view(pairs: Seq<(BytesMut, BytesMut)>) -> Seq<Pair> {
    pairs.map_values(|p: (BytesMut, BytesMut)| (contents(p.0), contents(p.1)))
}

/// The bytes held by each pair of vectors of a list.
pub open spec fn vec_pairs_view(pairs: Seq<(Vec<u8>, Vec<u8>)>) -> Seq<Pair> {
    pairs.map_values(|p: (Vec<u8>, Vec<u8>)| (p.0@, p.1@))
}

/// The pairs that ask for the given names: each name with an empty value.
pub open spec fn names_as_pairs(names: Seq<Seq<u8>>) -> Seq<Pair> {
    names.map_values(|name: Seq<u8>| (name, Seq::<u8>::empty()))
}

impl View for FastcgiRecordBody {
    type V = Body;

    open spec fn view(&self) -> Body {
        match *self {
            FastcgiRecordBody::BeginRequest(b) => Body::BeginRequest {
                role: b.role,
                keep_connection: b.keep_connection,
            },
            FastcgiRecordBody::AbortRequest => Body::AbortRequest,
            FastcgiRecordBody::EndRequest(e) => Body::EndRequest {
                app_status: e.app_status,
                protocol_status: e.protocol_status,
            },
            FastcgiRecordBody::Params(pairs) => Body::Params(buffer_pairs_view(pairs@)),
            FastcgiRecordBody::Stdin(buf) => Body::Stdin(contents(buf)),
            FastcgiRecordBody::Stdout(buf) => Body::Stdout(contents(buf)),
            FastcgiRecordBody::Stderr(buf) => Body::Stderr(contents(buf)),
            FastcgiRecordBody::Data(buf) => Body::Data(contents(buf)),
            FastcgiRecordBody::GetValues(names) => Body::GetValues(buffers_view(names@)),
            FastcgiRecordBody::GetValuesResult(pairs) => Body::GetValuesResult(
                vec_pairs_view(pairs@),
            ),
            FastcgiRecordBody::UnknownTypeResponse(t) => Body::UnknownTypeResponse(t),
            FastcgiRecordBody::UnknownType(t, buf) => Body::UnknownType(t, contents(buf)),
        }
    }
}

impl View for FastcgiRecord {
    type V = Record;

    open spec fn view(&self) -> Record {
        Record { request_id: self.request_id, body: self.body@ }
    }
}

/// Whether a type byte names a record type that only the application side may send.
pub open spec fn outbound_type(record_type: u8) -> bool {
    match RecordType::of_byte(record_type) {
        RecordType::EndRequest
        | RecordType::Stdout
        | RecordType::Stderr
        | RecordType::GetValuesResult
        | RecordType::UnknownType => true,
        _ => false,
    }
}

impl Body {
    /// The type byte under which this body travels.
    pub open spec fn type_byte(self) -> u8 {
        match self {
            Body::BeginRequest { .. } => 1,
            Body::AbortRequest => 2,
            Body::EndRequest { .. } => 3,
            Body::Params(_) => 4,
            Body::Stdin(_) => 5,
            Body::Stdout(_) => 6,
            Body::Stderr(_) => 7,
            Body::Data(_) => 8,
            Body::GetValues(_) => 9,
            Body::GetValuesResult(_) => 10,
            Body::UnknownTypeResponse(_) => 11,
            Body::UnknownType(t, _) => t,
        }
    }

    /// The content bytes of a record with this body.
    pub open spec fn content(self) -> Seq<u8> {
        match self {
            Body::BeginRequest { role, keep_connection } => be16_bytes(role.spec_to_u16())
                + seq![if keep_connection { 1u8 } else { 0u8 }, 0u8, 0u8, 0u8, 0u8, 0u8],
            Body::AbortRequest => Seq::empty(),
            Body::EndRequest { app_status, protocol_status } => be32_bytes(app_status)
                + seq![protocol_status.spec_to_u8(), 0u8, 0u8, 0u8],
            Body::Params(pairs) => pairs_encoding(pairs),
            Body::Stdin(bytes) => bytes,
            Body::Stdout(bytes) => bytes,
            Body::Stderr(bytes) => bytes,
            Body::Data(bytes) => bytes,
            Body::GetValues(names) => pairs_encoding(names_as_pairs(names)),
            Body::GetValuesResult(pairs) => pairs_encoding(pairs),
            Body::UnknownTypeResponse(t) => seq![t, 0u8, 0u8, 0u8, 0u8, 0u8, 0u8, 0u8],
            Body::UnknownType(_, bytes) => bytes,
        }
    }

    /// Whether this is a body that the application side sends.
    pub open spec fn outbound(self) -> bool {
        match self {
            Body::EndRequest { .. }
            | Body::Stdout(_)
            | Body::Stderr(_)
            | Body::GetValuesResult(_)
            | Body::UnknownTypeResponse(_) => true,
            _ => false,
        }
    }

    /// Whether the body can be laid out in one record: its content is at most 65,535 bytes
    /// long, every name and value is short enough for its length to be spelled, and an
    /// unknown type is one that names no type.
    pub open spec fn well_formed(self) -> bool {
        &&& self.content().len() <= MAX_CONTENT_LENGTH
        &&& match self {
            Body::Params(pairs) => pairs_encodable(pairs),
            Body::GetValuesResult(pairs) => pairs_encodable(pairs),
            Body::GetValues(names) => pairs_encodable(names_as_pairs(names)),
            Body::UnknownType(t, _) => RecordType::spec_from_u8(t) is None || t == 12,
            _ => true,
        }
    }
}

/// The eight header bytes of a record without padding.
pub open spec fn header_encoding(record_type: u8, request_id: u16, content_length: u16) -> Seq<
    u8,
> {
    seq![FASTCGI_VERSION, record_type] + be16_bytes(request_id) + be16_bytes(content_length)
        + seq![0u8, 0u8]
}

impl Record {
    /// The bytes of the record on the wire: header, then content, no padding.
    pub open spec fn encoding(self) -> Seq<u8> {
        header_encoding(
            self.body.type_byte(),
            self.request_id,
            self.body.content().len() as u16,
        ) + self.body.content()
    }
}

/// What comes of laying a record out for the peer: its bytes, or the reason why it cannot
/// be sent. A record of a type that only the peer may send is refused, and so is one whose
/// content is longer than 65,535 bytes.
pub open spec fn encode_outcome(record: Record) -> Result<Seq<u8>, Error> {
    if !record.body.outbound() {
        Err(Error::IllegalRecord { request_id: record.request_id })
    } else if record.body.content().len() > MAX_CONTENT_LENGTH {
        Err(Error::RecordTooLong { request_id: record.request_id })
    } else {
        Ok(record.encoding())
    }
}

/// The number of bytes that the record at the front of `s` takes, header, content and
/// padding together; `None` while `s` does not yet hold all of them.
pub open spec fn record_span(s: Seq<u8>) -> Option<nat> {
    if s.len() < HEADER_LENGTH {
        None
    } else {
        let total = HEADER_LENGTH + be16(s[4], s[5]) + s[6];
        if s.len() < total {
            None
        } else {
            Some(total as nat)
        }
    }
}

/// The body that the content of a record of the given type spells, whoever sent it.
pub open spec fn parse_body(record_type: u8, request_id: u16, content: Seq<u8>) -> Result<
    Body,
    Error,
> {
    let malformed = Err(Error::MalformedRecord { request_id, record_type });
    match RecordType::of_byte(record_type) {
        RecordType::BeginRequest => if content.len() < 8 {
            malformed
        } else {
            let role = be16(content[0], content[1]) as u16;
            match Role::spec_from_u16(role) {
                Some(role) => Ok(
                    Body::BeginRequest { role, keep_connection: content[2] & 1 == 1 },
                ),
                None => Err(Error::UnknownRole { request_id, role }),
            }
        },
        RecordType::AbortRequest => if content.len() == 0 {
            Ok(Body::AbortRequest)
        } else {
            malformed
        },
        RecordType::EndRequest => if content.len() != 8 {
            malformed
        } else {
            match ProtocolStatus::spec_from_u8(content[4]) {
                Some(protocol_status) => Ok(
                    Body::EndRequest {
                        app_status: be32(content[0], content[1], content[2], content[3]) as u32,
                        protocol_status,
                    },
                ),
                None => malformed,
            }
        },
        RecordType::Params => match parse_pairs(content) {
            Some(pairs) => Ok(Body::Params(pairs)),
            None => malformed,
        },
        RecordType::Stdin => Ok(Body::Stdin(content)),
        RecordType::Stdout => Ok(Body::Stdout(content)),
        RecordType::Stderr => Ok(Body::Stderr(content)),
        RecordType::Data => Ok(Body::Data(content)),
        RecordType::GetValues => match parse_pairs(content) {
            Some(pairs) => Ok(Body::GetValues(pairs.map_values(|p: Pair| p.0))),
            None => malformed,
        },
        RecordType::GetValuesResult => match parse_pairs(content) {
            Some(pairs) => Ok(Body::GetValuesResult(pairs)),
            None => malformed,
        },
        RecordType::UnknownType => if content.len() != 8 {
            malformed
        } else {
            Ok(Body::UnknownTypeResponse(content[0]))
        },
        RecordType::Mystery => Ok(Body::UnknownType(record_type, content)),
    }
}

/// The request id in the header at the front of `frame`.
pub open spec fn frame_request_id(frame: Seq<u8>) -> u16 {
    be16(frame[2], frame[3]) as u16
}

/// The content bytes of the record at the front of `frame`.
pub open spec fn frame_content(frame: Seq<u8>) -> Seq<u8> {
    frame.subrange(HEADER_LENGTH as int, HEADER_LENGTH + be16(frame[4], frame[5]))
}

/// The record that the bytes of one whole record spell, whoever sent it.
pub open spec fn parse_record(frame: Seq<u8>) -> Result<Record, Error> {
    if frame[0] != FASTCGI_VERSION {
        Err(Error::UnexpectedVersion { version: frame[0] })
    } else {
        match parse_body(frame[1], frame_request_id(frame), frame_content(frame)) {
            Ok(body) => Ok(Record { request_id: frame_request_id(frame), body }),
            Err(e) => Err(e),
        }
    }
}

/// What the application side makes of the bytes of one whole record that the peer sent: as
/// `parse_record`, but a record of a type that only the application side may send is refused.
pub open spec fn decode_record(frame: Seq<u8>) -> Result<Record, Error> {
    if frame[0] == FASTCGI_VERSION && outbound_type(frame[1]) {
        Err(
            Error::IllegalRecordType {
                request_id: frame_request_id(frame),
                record_type: frame[1],
            },
        )
    } else {
        parse_record(frame)
    }
}

/// Reads the header of the next record off the buffer, once the buffer holds the whole
/// record; until then the buffer stays as it is.
pub fn read_header(buf: &mut BytesMut) -> (header: Option<FastcgiRecordHeader>)
    ensures
        match record_span(contents(*old(buf))) {
            None => header is None && contents(*final(buf)) == contents(*old(buf)),
            Some(total) => {
                &&& header matches Some(h)
                &&& h.layout() == contents(*old(buf)).subrange(0, HEADER_LENGTH as int)
                &&& contents(*final(buf)) == contents(*old(buf)).skip(HEADER_LENGTH as int)
                &&& total == HEADER_LENGTH + h.content_length@ + h.padding_length
            },
        },
{
    if buf.len() < HEADER_LENGTH {
        None
    } else {
        // Only borrow from the buffer until we can check the length.
        let header: FastcgiRecordHeader = from_bytes(slice_of(buf));
        proof {
            header.content_length.lemma_wire();
            let s = contents(*buf);
            assert(header.layout() == s.subrange(0, 8));
            assert(header.layout()[4] == s[4] && header.layout()[5] == s[5]
                && header.layout()[6] == s[6]);
        }
        let content_length = header.content_length.get() as usize;
        if buf.len() - HEADER_LENGTH < content_length + header.padding_length as usize {
            None
        } else {
            // Consume from the buffer now.
            let _ = buf.split_to(HEADER_LENGTH);
            Some(header)
        }
    }
}

/// Reads one length off the front of the buffer, which must begin with a whole length.
pub fn read_len(buf: &mut BytesMut) -> (len: usize)
    requires
        parse_len(contents(*old(buf))) is Some,
    ensures
        len == parse_len(contents(*old(buf))).unwrap().0,
        contents(*final(buf)) == contents(*old(buf)).skip(
            parse_len(contents(*old(buf))).unwrap().1 as int,
        ),
{
    proof {
        reveal(parse_len);
    }
    let first_byte = slice_of(buf)[0];
    if first_byte < 0x80 {
        let _ = buf.split_to(1);
        first_byte as usize
    } else {
        let head = buf.split_to(4);
        let raw = read_u32(slice_of(&head));
        assert(raw >= 0x8000_0000u32 ==> raw & 0x7FFF_FFFFu32 == (raw - 0x8000_0000u32) as u32)
            by (bit_vector);
        (raw & 0x7FFF_FFFF) as usize
    }
}

/// Appends one length to the buffer. The length must be below 2^31.
pub fn write_len(buf: &mut BytesMut, len: usize)
    requires
        len < LENGTH_LIMIT,
        contents(*old(buf)).len() + len_encoding(len as nat).len() <= usize::MAX,
    ensures
        contents(*final(buf)) == contents(*old(buf)) + len_encoding(len as nat),
{
    proof {
        reveal(len_encoding);
    }
    if len < 0x80 {
        let bytes: [u8; 1] = [len as u8];
        assert(bytes@ =~= len_encoding(len as nat));
        buf.extend_from_slice(bytes.as_slice());
    } else {
        let low = len as u32;
        assert(low < 0x8000_0000u32 ==> low | 0x8000_0000u32 == (low + 0x8000_0000u32) as u32)
            by (bit_vector);
        let bytes = write_u32(low | 0x8000_0000);
        buf.extend_from_slice(bytes.as_slice());
    }
}

/// The length spelled at position `at` of `s`, with the count of bytes that spell it.
fn peek_len(s: &[u8], at: usize) -> (r: Option<(usize, usize)>)
    requires
        at <= s@.len(),
    ensures
        match parse_len(s@.skip(at as int)) {
            None => r is None,
            Some((len, count)) => r == Some((len as usize, count as usize)) && len < LENGTH_LIMIT
                && 1 <= count && at + count <= s@.len(),
        },
{
    proof {
        reveal(parse_len);
    }
    let ghost rest = s@.skip(at as int);
    let remaining = s.len() - at;
    if remaining == 0 {
        return None;
    }
    assert(rest[0] == s@[at as int]);
    let first_byte = s[at];
    if first_byte < 0x80 {
        Some((first_byte as usize, 1))
    } else if remaining < 4 {
        None
    } else {
        let raw = read_u32(slice_subrange(s, at, at + 4));
        assert(raw >= 0x8000_0000u32 ==> raw & 0x7FFF_FFFFu32 == (raw - 0x8000_0000u32) as u32)
            by (bit_vector);
        assert(raw & 0x7FFF_FFFFu32 < 0x8000_0000u32) by (bit_vector);
        Some(((raw & 0x7FFF_FFFF) as usize, 4))
    }
}

/// Tells whether the bytes are a whole number of name-value pairs.
pub fn is_pair_run(s: &[u8]) -> (ok: bool)
    ensures
        ok == parse_pairs(s@) is Some,
{
    let mut at: usize = 0;
    assert(s@.skip(0) =~= s@);
    while at < s.len()
        invariant
            at <= s@.len(),
            parse_pairs(s@) is Some <==> parse_pairs(s@.skip(at as int)) is Some,
        decreases s@.len() - at,
    {
        let ghost rest = s@.skip(at as int);
        let (name_len, a) = match peek_len(s, at) {
            Some(found) => found,
            None => {
                return false;
            },
        };
        assert(rest.skip(a as int) =~= s@.skip(at + a));
        let (value_len, b) = match peek_len(s, at + a) {
            Some(found) => found,
            None => {
                return false;
            },
        };
        let start = at + a + b;
        if s.len() - start < name_len || s.len() - start - name_len < value_len {
            return false;
        }
        assert(rest.skip(a + b + name_len + value_len) =~= s@.skip(
            start + name_len + value_len,
        ));
        at = start + name_len + value_len;
    }
    assert(s@.skip(at as int).len() == 0);
    true
}

/// Reads the name-value pairs that the buffer consists of, leaving it empty. The buffer
/// must hold a whole number of pairs.
pub fn read_params(buf: &mut BytesMut) -> (params: Vec<(BytesMut, BytesMut)>)
    requires
        parse_pairs(contents(*old(buf))) is Some,
    ensures
        buffer_pairs_view(params@) == parse_pairs(contents(*old(buf))).unwrap(),
        contents(*final(buf)).len() == 0,
{
    let mut params: Vec<(BytesMut, BytesMut)> = vec![];
    assert(buffer_pairs_view(params@) =~= Seq::<Pair>::empty());
    loop
        invariant
            parse_pairs(contents(*buf)) is Some,
            buffer_pairs_view(params@) + parse_pairs(contents(*buf)).unwrap() == parse_pairs(
                contents(*old(buf)),
            ).unwrap(),
        ensures
            buffer_pairs_view(params@) == parse_pairs(contents(*old(buf))).unwrap(),
            contents(*buf).len() == 0,
        decreases contents(*buf).len(),
    {
        if buf.is_empty() {
            assert(parse_pairs(contents(*buf)).unwrap() =~= Seq::<Pair>::empty());
            assert(buffer_pairs_view(params@) + Seq::<Pair>::empty() =~= buffer_pairs_view(
                params@,
            ));
            break ;
        }
        let ghost before = contents(*buf);
        let ghost done = buffer_pairs_view(params@);
        proof {
            lemma_parse_len_bounds(before);
            lemma_parse_len_bounds(
                before.skip(parse_len(before).unwrap().1 as int),
            );
        }
        let name_len = read_len(buf);
        let value_len = read_len(buf);
        let name = buf.split_to(name_len);
        let value = buf.split_to(value_len);
        proof {
            let (pair, n) = parse_pair(before).unwrap();
            assert(contents(name) =~= pair.0);
            assert(contents(value) =~= pair.1);
            assert(contents(*buf) =~= before.skip(n as int));
        }
        params.push((name, value));
        proof {
            let (pair, n) = parse_pair(before).unwrap();
            let rest = parse_pairs(before.skip(n as int)).unwrap();
            assert(buffer_pairs_view(params@) =~= done.push(pair));
            assert(done.push(pair) + rest =~= done + (seq![pair] + rest));
        }
    }
    params
}

/// Lays the given name-value pairs out in a fresh buffer. Every name and value must be
/// shorter than 2^31 bytes.
pub fn write_params(params: Vec<(Vec<u8>, Vec<u8>)>) -> (out: BytesMut)
    requires
        pairs_encodable(vec_pairs_view(params@)),
        pairs_encoding(vec_pairs_view(params@)).len() <= usize::MAX,
    ensures
        contents(out) == pairs_encoding(vec_pairs_view(params@)),
{
    let mut out = BytesMut::new();
    let ghost pairs = vec_pairs_view(params@);
    let mut i: usize = 0;
    while i < params.len()
        invariant
            i <= params.len(),
            pairs == vec_pairs_view(params@),
            pairs_encodable(pairs),
            pairs_encoding(pairs).len() <= usize::MAX,
            contents(out) == pairs_encoding(pairs.take(i as int)),
        decreases params.len() - i,
    {
        let name = &params[i].0;
        let value = &params[i].1;
        proof {
            let pair = pairs[i as int];
            assert(pair == (name@, value@));
            assert(pairs.take(i + 1) =~= pairs.take(i as int).push(pair));
            lemma_pairs_encoding_push(pairs.take(i as int), pair);
            assert(pairs =~= pairs.take(i + 1) + pairs.skip(i + 1));
            lemma_pairs_encoding_concat(pairs.take(i + 1), pairs.skip(i + 1));
            lemma_len_encoding_len(name@.len());
            lemma_len_encoding_len(value@.len());
            assert(pairs_encoding(pairs).len() == pairs_encoding(pairs.take(i + 1)).len()
                + pairs_encoding(pairs.skip(i + 1)).len());
            assert(pairs_encoding(pairs.take(i + 1)).len() == pairs_encoding(
                pairs.take(i as int),
            ).len() + pair_encoding(pair).len());
            assert(pair_encoding(pair).len() == len_encoding(name@.len()).len()
                + len_encoding(value@.len()).len() + name@.len() + value@.len());
        }
        write_len(&mut out, name.len());
        write_len(&mut out, value.len());
        out.extend_from_slice(name.as_slice());
        out.extend_from_slice(value.as_slice());
        assert(contents(out) =~= pairs_encoding(pairs.take(i as int)) + pair_encoding(
            pairs[i as int],
        ));
        i += 1;
    }
    assert(pairs.take(i as int) =~= pairs);
    out
}

/// Reads the content of a `BeginRequest` record off the front of the buffer, which must hold
/// at least the eight bytes of one.
pub fn read_begin_request_body(buf: &mut BytesMut, request_id: u16) -> (r: Result<
    BeginRequest,
    Error,
>)
    requires
        contents(*old(buf)).len() >= 8,
    ensures
        contents(*final(buf)) == contents(*old(buf)).skip(8),
        match parse_body(1, request_id, contents(*old(buf))) {
            Ok(body) => r matches Ok(b) && body == (Body::BeginRequest {
                role: b.role,
                keep_connection: b.keep_connection,
            }),
            Err(e) => r == Err::<BeginRequest, Error>(e),
        },
{
    let head = buf.split_to(8);
    let raw: BeginRequestBody = from_bytes(slice_of(&head));
    proof {
        raw.role.lemma_wire();
        let s = contents(*old(buf));
        assert(raw.layout() == contents(head).subrange(0, 8));
        assert(raw.layout()[0] == s[0] && raw.layout()[1] == s[1] && raw.layout()[2] == s[2]);
    }
    let role = match Role::from_u16(raw.role.get()) {
        Some(role) => role,
        None => {
            return Err(Error::UnknownRole { request_id, role: raw.role.get() });
        },
    };
    Ok(BeginRequest { role, keep_connection: (raw.flags & 1) == 1 })
}

/// The names of the given pairs, in order.
fn names_of(params: Vec<(BytesMut, BytesMut)>) -> (names: Vec<BytesMut>)
    ensures
        buffers_view(names@) == buffer_pairs_view(params@).map_values(|p: Pair| p.0),
{
    let mut names: Vec<BytesMut> = Vec::new();
    let ghost all = params@;
    for pair in it: params
        invariant
            names@.len() == it.index(),
            it.seq() == all,
            forall|i: int| 0 <= i < names@.len() ==> names@[i] == all[i].0,
    {
        names.push(pair.0);
    }
    assert(buffers_view(names@) =~= buffer_pairs_view(all).map_values(|p: Pair| p.0));
    names
}

/// The fields of a header are what the bytes of its layout spell.
pub proof fn lemma_header_fields(h: FastcgiRecordHeader, frame: Seq<u8>)
    requires
        frame.len() >= HEADER_LENGTH,
        h.layout() == frame.subrange(0, HEADER_LENGTH as int),
    ensures
        h.version == frame[0],
        h.record_type == frame[1],
        h.request_id@ == frame_request_id(frame),
        h.content_length@ == be16(frame[4], frame[5]),
        h.padding_length == frame[6],
{
    h.request_id.lemma_wire();
    h.content_length.lemma_wire();
    let l = h.layout();
    let f = frame.subrange(0, HEADER_LENGTH as int);
    assert(l[0] == f[0] && l[1] == f[1] && l[2] == f[2] && l[3] == f[3] && l[4] == f[4] && l[5]
        == f[5] && l[6] == f[6]);
    let start = seq![h.version, h.record_type];
    assert(l[0] == start[0] && l[1] == start[1]);
    assert(l[2] == h.request_id.wire()[0] && l[3] == h.request_id.wire()[1]);
    assert(l[4] == h.content_length.wire()[0] && l[5] == h.content_length.wire()[1]);
    let end = seq![h.padding_length, h.reserved];
    assert(l[6] == end[0]);
}

impl FastcgiLowlevelCodec {
    /// Takes the next record off the front of the buffer.
    ///
    /// While the buffer does not hold a whole record (header, content and padding) nothing
    /// is taken and the answer is `Ok(None)`. Once it does, exactly the bytes of that record
    /// leave the buffer, and the answer is the record they spell, or the reason why the
    /// application side cannot accept them.
    pub fn decode(&mut self, buf: &mut BytesMut) -> (r: Result<Option<FastcgiRecord>, Error>)
        ensures
            match record_span(contents(*old(buf))) {
                None => r matches Ok(None) && contents(*final(buf)) == contents(*old(buf)),
                Some(total) => {
                    &&& contents(*final(buf)) == contents(*old(buf)).skip(total as int)
                    &&& match decode_record(contents(*old(buf)).take(total as int)) {
                        Ok(record) => r matches Ok(Some(rec)) && rec@ == record,
                        Err(e) => r matches Err(e2) && e2 == e,
                    }
                },
            },
    {
        let ghost input = contents(*buf);
        let header = match read_header(buf) {
            Some(header) => header,
            None => {
                return Ok(None);
            },
        };
        let ghost total = record_span(input).unwrap() as int;
        let ghost frame = input.take(total);
        proof {
            lemma_header_fields(header, input);
            assert(frame[0] == input[0] && frame[1] == input[1] && frame[2] == input[2]
                && frame[3] == input[3] && frame[4] == input[4] && frame[5] == input[5]);
        }
        let content_len = header.content_length.get() as usize;
        let mut content_buf = buf.split_to(content_len);
        let _ = buf.split_to(header.padding_length as usize);
        let ghost content = contents(content_buf);
        proof {
            assert(content =~= frame_content(frame));
            assert(contents(*buf) =~= input.skip(total));
        }

        if header.version != FASTCGI_VERSION {
            return Err(Error::UnexpectedVersion { version: header.version });
        }
        let record_type = match RecordType::from_u8(header.record_type) {
            Some(record_type) => record_type,
            None => RecordType::Mystery,
        };
        let request_id = header.request_id.get();
        let malformed = Error::MalformedRecord { request_id, record_type: header.record_type };

        let body = match record_type {
            RecordType::BeginRequest => {
                if content_len < 8 {
                    return Err(malformed);
                }
                match read_begin_request_body(&mut content_buf, request_id) {
                    Ok(begin_request) => FastcgiRecordBody::BeginRequest(begin_request),
                    Err(e) => {
                        return Err(e);
                    },
                }
            },
            RecordType::AbortRequest => {
                if content_len != 0 {
                    return Err(malformed);
                }
                FastcgiRecordBody::AbortRequest
            },
            RecordType::Params => {
                if !is_pair_run(slice_of(&content_buf)) {
                    return Err(malformed);
                }
                FastcgiRecordBody::Params(read_params(&mut content_buf))
            },
            RecordType::Stdin => FastcgiRecordBody::Stdin(content_buf),
            RecordType::Data => FastcgiRecordBody::Data(content_buf),
            RecordType::GetValues => {
                if !is_pair_run(slice_of(&content_buf)) {
                    return Err(malformed);
                }
                let params = read_params(&mut content_buf);
                FastcgiRecordBody::GetValues(names_of(params))
            },
            RecordType::Mystery => FastcgiRecordBody::UnknownType(
                header.record_type,
                content_buf,
            ),
            RecordType::EndRequest
            | RecordType::Stdout
            | RecordType::Stderr
            | RecordType::GetValuesResult
            | RecordType::UnknownType => {
                return Err(
                    Error::IllegalRecordType { request_id, record_type: header.record_type },
                );
            },
        };
        Ok(Some(FastcgiRecord { request_id, body }))
    }
}

/// The spelling of a run of pairs is at least as long as the spelling of any of its prefixes.
pub proof fn lemma_pairs_encoding_prefix(pairs: Seq<Pair>, i: int)
    requires
        0 <= i <= pairs.len(),
    ensures
        pairs_encoding(pairs.take(i)).len() <= pairs_encoding(pairs).len(),
{
    lemma_pairs_encoding_concat(pairs.take(i), pairs.skip(i));
    assert(pairs.take(i) + pairs.skip(i) =~= pairs);
}

/// The length of the content that the given pairs make, where one record can carry it.
pub fn pairs_content_length(params: &Vec<(Vec<u8>, Vec<u8>)>) -> (r: Option<usize>)
    ensures
        match r {
            Some(n) => n == pairs_encoding(vec_pairs_view(params@)).len() && n
                <= MAX_CONTENT_LENGTH && pairs_encodable(vec_pairs_view(params@)),
            None => pairs_encoding(vec_pairs_view(params@)).len() > MAX_CONTENT_LENGTH,
        },
{
    let ghost pairs = vec_pairs_view(params@);
    let mut total: usize = 0;
    let mut i: usize = 0;
    while i < params.len()
        invariant
            i <= params.len(),
            pairs == vec_pairs_view(params@),
            total == pairs_encoding(pairs.take(i as int)).len(),
            total <= MAX_CONTENT_LENGTH,
            pairs_encodable(pairs.take(i as int)),
        decreases params.len() - i,
    {
        let name_len = params[i].0.len();
        let value_len = params[i].1.len();
        proof {
            let pair = pairs[i as int];
            assert(pair == (params@[i as int].0@, params@[i as int].1@));
            assert(pairs.take(i + 1) =~= pairs.take(i as int).push(pair));
            lemma_pairs_encoding_push(pairs.take(i as int), pair);
            lemma_len_encoding_len(pair.0.len());
            lemma_len_encoding_len(pair.1.len());
            lemma_pairs_encoding_prefix(pairs, i + 1);
            assert(pair_encoding(pair).len() == len_encoding(pair.0.len()).len()
                + len_encoding(pair.1.len()).len() + pair.0.len() + pair.1.len());
        }
        if name_len > MAX_CONTENT_LENGTH || value_len > MAX_CONTENT_LENGTH {
            return None;
        }
        let name_width: usize = if name_len < 0x80 { 1 } else { 4 };
        let value_width: usize = if value_len < 0x80 { 1 } else { 4 };
        let needed = name_width + value_width + name_len + value_len;
        if needed > MAX_CONTENT_LENGTH - total {
            return None;
        }
        total += needed;
        i += 1;
    }
    assert(pairs.take(i as int) =~= pairs);
    Some(total)
}

impl FastcgiLowlevelCodec {
    /// Appends one record to the buffer: header, content, no padding.
    ///
    /// A record of a type that only the peer may send is refused, and so is one whose
    /// content is longer than 65,535 bytes; the buffer then stays as it is.
    pub fn encode(&mut self, msg: FastcgiRecord, buf: &mut BytesMut) -> (r: Result<(), Error>)
        requires
            contents(*old(buf)).len() + HEADER_LENGTH + MAX_CONTENT_LENGTH <= usize::MAX,
        ensures
            match encode_outcome(msg@) {
                Ok(bytes) => r is Ok && contents(*final(buf)) == contents(*old(buf)) + bytes,
                Err(e) => r == Err::<(), Error>(e) && contents(*final(buf)) == contents(
                    *old(buf),
                ),
            },
    {
        let request_id = msg.request_id;
        let ghost body = msg@.body;
        let too_long = Error::RecordTooLong { request_id };
        let (record_type, data): (RecordType, BytesMut) = match msg.body {
            FastcgiRecordBody::Stdout(buf) => (RecordType::Stdout, buf),
            FastcgiRecordBody::Stderr(buf) => (RecordType::Stderr, buf),
            FastcgiRecordBody::EndRequest(end_body) => {
                let s11n_body = EndRequestBody {
                    app_status: NetworkU32::new(end_body.app_status),
                    protocol_status: end_body.protocol_status.to_u8(),
                    reserved: [0u8;3],
                };
                let bytes = as_bytes(&s11n_body);
                assert(bytes@ =~= body.content());
                (RecordType::EndRequest, from_vec(bytes))
            },
            FastcgiRecordBody::GetValuesResult(values) => {
                if pairs_content_length(&values).is_none() {
                    return Err(too_long);
                }
                (RecordType::GetValuesResult, write_params(values))
            },
            FastcgiRecordBody::UnknownTypeResponse(typ) => {
                let out: Vec<u8> = vec![typ, 0, 0, 0, 0, 0, 0, 0];
                assert(out@ =~= body.content());
                (RecordType::UnknownType, from_vec(out))
            },
            _ => {
                return Err(Error::IllegalRecord { request_id });
            },
        };
        assert(contents(data) == body.content());
        assert(record_type.spec_to_u8() == body.type_byte());

        if data.len() > MAX_CONTENT_LENGTH {
            return Err(too_long);
        }
        let header = FastcgiRecordHeader {
            version: FASTCGI_VERSION,
            record_type: record_type.to_u8(),
            request_id: NetworkU16::new(request_id),
            content_length: NetworkU16::new(data.len() as u16),
            padding_length: 0,
            reserved: 0,
        };
        let header_bytes = as_bytes(&header);
        assert(header_bytes@ =~= header_encoding(
            body.type_byte(),
            request_id,
            body.content().len() as u16,
        ));
        buf.extend_from_slice(header_bytes.as_slice());
        buf.extend_from_slice(slice_of(&data));
        assert(contents(*buf) =~= contents(*old(buf)) + msg@.encoding());
        Ok(())
    }
}

/// The content of a well-formed body, read back under the body's own type byte, is the
/// body again.
pub proof fn lemma_body_round_trip(body: Body, request_id: u16)
    requires
        body.well_formed(),
    ensures
        parse_body(body.type_byte(), request_id, body.content()) == Ok::<Body, Error>(body),
{
    let content = body.content();
    match body {
        Body::BeginRequest { role, keep_connection } => {
            let n = role.spec_to_u16();
            lemma_be16_of_bytes(n);
            assert(content[0] == be16_bytes(n)[0] && content[1] == be16_bytes(n)[1]);
            assert(1u8 & 1 == 1 && 0u8 & 1 == 0) by (bit_vector);
        },
        Body::EndRequest { app_status, protocol_status } => {
            lemma_be32_of_bytes(app_status);
            let b = be32_bytes(app_status);
            assert(content[0] == b[0] && content[1] == b[1] && content[2] == b[2] && content[3]
                == b[3]);
            assert(content[4] == protocol_status.spec_to_u8());
        },
        Body::Params(pairs) => {
            lemma_pairs_round_trip(pairs);
        },
        Body::GetValues(names) => {
            let pairs = names_as_pairs(names);
            lemma_pairs_round_trip(pairs);
            assert(pairs.map_values(|p: Pair| p.0) =~= names);
        },
        Body::GetValuesResult(pairs) => {
            lemma_pairs_round_trip(pairs);
        },
        Body::UnknownTypeResponse(t) => {
            assert(content[0] == t);
        },
        _ => {},
    }
}

/// A record that is laid out and read back is the same record.
///
/// The bytes of a well-formed record, followed by anything, begin with one whole record of
/// exactly their length, and those bytes spell the record. The application side accepts them
/// as that record when the record is one that a peer sends; a record that the application
/// side itself sends is refused by its own decoder, for its type.
pub proof fn lemma_record_round_trip(record: Record, rest: Seq<u8>)
    requires
        record.body.well_formed(),
    ensures
        record.encoding().len() == HEADER_LENGTH + record.body.content().len(),
        record_span(record.encoding() + rest) == Some(record.encoding().len()),
        (record.encoding() + rest).take(record.encoding().len() as int) == record.encoding(),
        parse_record(record.encoding()) == Ok::<Record, Error>(record),
        !record.body.outbound() ==> decode_record(record.encoding()) == Ok::<Record, Error>(
            record,
        ),
        record.body.outbound() ==> decode_record(record.encoding()) == Err::<Record, Error>(
            Error::IllegalRecordType {
                request_id: record.request_id,
                record_type: record.body.type_byte(),
            },
        ),
{
    let content = record.body.content();
    let length = content.len() as u16;
    let header = header_encoding(record.body.type_byte(), record.request_id, length);
    let frame = record.encoding();
    let all = frame + rest;
    lemma_be16_of_bytes(record.request_id);
    lemma_be16_of_bytes(length);
    assert(header.len() == 8);
    assert(header[0] == FASTCGI_VERSION && header[1] == record.body.type_byte());
    assert(header[2] == be16_bytes(record.request_id)[0] && header[3] == be16_bytes(
        record.request_id,
    )[1]);
    assert(header[4] == be16_bytes(length)[0] && header[5] == be16_bytes(length)[1]);
    assert(header[6] == 0);
    assert(frame[0] == header[0] && frame[1] == header[1] && frame[2] == header[2] && frame[3]
        == header[3] && frame[4] == header[4] && frame[5] == header[5] && frame[6] == header[6]);
    assert(all[4] == frame[4] && all[5] == frame[5] && all[6] == frame[6]);
    assert(all.take(frame.len() as int) =~= frame);
    assert(frame_content(frame) =~= content);
    lemma_body_round_trip(record.body, record.request_id);
}

} // verus!

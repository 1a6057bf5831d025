//! Whole envelopes to and from bytes, and the length-prefixed frames that
//! carry them over a byte stream.
//!
//! A frame is the length of its payload as four bytes, most significant
//! first, then the payload. A payload holds one envelope; bytes behind the
//! envelope are ignored.

use vstd::prelude::*;
use vstd::pervasive::unreached;
use vstd::slice::{slice_subrange, slice_to_vec};
use crate::codec::{
    content_at, content_bytes, content_fits, db_error_at, db_error_bytes,
    lemma_content_canonical, lemma_content_round_trip, lemma_db_error_round_trip,
    lemma_server_error_round_trip, lemma_server_response_canonical,
    lemma_server_response_round_trip, lemma_stream_request_canonical,
    lemma_stream_request_round_trip, read_content, read_db_error, read_server_error,
    read_server_response, read_stream_request, server_error_at, server_error_bytes,
    server_response_at, server_response_bytes, server_response_fits, stream_request_at,
    stream_request_bytes, stream_request_fits, write_content, write_db_error,
    write_server_error, write_server_response, write_stream_request,
};
use crate::errors::{
    DBError, IoError, IoErrorKind, IoErrorView, ServerError, StreamError, StreamErrorView,
};
use crate::structs::{
    MessageContent, MessageContentView, ServerResponse, ServerResponseView, StreamRequest,
    StreamRequestView,
};
use crate::wire::{extend_bytes, DecodeError};

verus! {

/// The value that a payload holds, whatever follows it.
pub open spec fn decoded<V>(at: Result<(V, int), DecodeError>) -> Result<V, DecodeError> {
    match at {
        Ok((v, _)) => Ok(v),
        Err(e) => Err(e),
    }
}

/// What a decoder returned is the value that the format assigns to the bytes.
pub open spec fn decodes<T: View>(
    r: Result<T, DecodeError>,
    expected: Result<T::V, DecodeError>,
) -> bool {
    match r {
        Ok(x) => expected == Ok::<T::V, DecodeError>(x@),
        Err(e) => expected == Err::<T::V, DecodeError>(e),
    }
}

/// The message content that `b` holds.
pub open spec fn decoded_data(b: Seq<u8>) -> Result<MessageContentView, DecodeError> {
    decoded(content_at(b, 0))
}

/// The server response that `b` holds.
pub open spec fn decoded_server_response(b: Seq<u8>) -> Result<ServerResponseView, DecodeError> {
    decoded(server_response_at(b, 0))
}

/// The request that `b` holds.
pub open spec fn decoded_stream(b: Seq<u8>) -> Result<StreamRequestView, DecodeError> {
    decoded(stream_request_at(b, 0))
}

/// Encodes a message content. Encoding never fails.
pub fn serialize_data(data: MessageContent) -> (r: Result<Vec<u8>, ServerError>)
    ensures
        r matches Ok(bytes) && bytes@ == content_bytes(data@) && decoded_data(bytes@) == Ok::<
            MessageContentView,
            DecodeError,
        >(data@),
{
    let mut out: Vec<u8> = Vec::new();
    write_content(&mut out, &data);
    proof {
        lemma_data_round_trip(data@, Seq::empty());
        assert(out@ =~= content_bytes(data@) + Seq::<u8>::empty());
    }
    Ok(out)
}

/// Decodes a message content from the start of `data`.
pub fn deserialize_data(data: Vec<u8>) -> (r: Result<MessageContent, DecodeError>)
    ensures
        decodes(r, decoded_data(data@)),
{
    match read_content(data.as_slice(), 0) {
        Ok((x, _)) => Ok(x),
        Err(e) => Err(e),
    }
}

/// Encodes a server response. Encoding never fails.
pub fn serialize_server_response(data: ServerResponse) -> (r: Result<Vec<u8>, ServerError>)
    ensures
        r matches Ok(bytes) && bytes@ == server_response_bytes(data@) && decoded_server_response(
            bytes@,
        ) == Ok::<ServerResponseView, DecodeError>(data@),
{
    let mut out: Vec<u8> = Vec::new();
    write_server_response(&mut out, &data);
    proof {
        lemma_server_response_envelope_round_trip(data@, Seq::empty());
        assert(out@ =~= server_response_bytes(data@) + Seq::<u8>::empty());
    }
    Ok(out)
}

/// Decodes a server response from the start of `data`.
pub fn deserialize_server_response(data: Vec<u8>) -> (r: Result<ServerResponse, DecodeError>)
    ensures
        decodes(r, decoded_server_response(data@)),
{
    match read_server_response(data.as_slice(), 0) {
        Ok((x, _)) => Ok(x),
        Err(e) => Err(e),
    }
}

/// Encodes a request. Encoding never fails.
pub fn serialize_stream(request: StreamRequest) -> (r: Result<Vec<u8>, ServerError>)
    ensures
        r matches Ok(bytes) && bytes@ == stream_request_bytes(request@) && decoded_stream(bytes@)
            == Ok::<StreamRequestView, DecodeError>(request@),
{
    let mut out: Vec<u8> = Vec::new();
    write_stream_request(&mut out, &request);
    proof {
        lemma_stream_round_trip(request@, Seq::empty());
        assert(out@ =~= stream_request_bytes(request@) + Seq::<u8>::empty());
    }
    Ok(out)
}

/// Decodes a request from the start of `string`.
pub fn deserialize_stream(string: Vec<u8>) -> (r: Result<StreamRequest, DecodeError>)
    ensures
        decodes(r, decoded_stream(string@)),
{
    match read_stream_request(string.as_slice(), 0) {
        Ok((x, _)) => Ok(x),
        Err(e) => Err(e),
    }
}

impl ServerResponse {
    /// The bytes that go on the wire for this response.
    pub fn serialize(self) -> (bytes: Vec<u8>)
        ensures
            bytes@ == server_response_bytes(self@),
            decoded_server_response(bytes@) == Ok::<ServerResponseView, DecodeError>(self@),
    {
        let mut out: Vec<u8> = Vec::new();
        write_server_response(&mut out, &self);
        proof {
            lemma_server_response_envelope_round_trip(self@, Seq::empty());
            assert(out@ =~= server_response_bytes(self@) + Seq::<u8>::empty());
        }
        out
    }
}

/// Decoding undoes encoding: what was encoded is what is decoded, whatever
/// bytes follow the encoding.
pub proof fn lemma_data_round_trip(v: MessageContentView, trailing: Seq<u8>)
    requires
        content_fits(v),
    ensures
        decoded_data(content_bytes(v) + trailing) == Ok::<MessageContentView, DecodeError>(v),
{
    let b = content_bytes(v) + trailing;
    assert(b.subrange(0, content_bytes(v).len() as int) =~= content_bytes(v));
    lemma_content_round_trip(b, 0, v);
}

/// Decoding undoes encoding: what was encoded is what is decoded, whatever
/// bytes follow the encoding.
pub proof fn lemma_server_response_envelope_round_trip(v: ServerResponseView, trailing: Seq<u8>)
    requires
        server_response_fits(v),
    ensures
        decoded_server_response(server_response_bytes(v) + trailing) == Ok::<
            ServerResponseView,
            DecodeError,
        >(v),
{
    let b = server_response_bytes(v) + trailing;
    assert(b.subrange(0, server_response_bytes(v).len() as int) =~= server_response_bytes(v));
    lemma_server_response_round_trip(b, 0, v);
}

/// Decoding undoes encoding: what was encoded is what is decoded, whatever
/// bytes follow the encoding.
pub proof fn lemma_stream_round_trip(v: StreamRequestView, trailing: Seq<u8>)
    requires
        stream_request_fits(v),
    ensures
        decoded_stream(stream_request_bytes(v) + trailing) == Ok::<StreamRequestView, DecodeError>(
            v,
        ),
{
    let b = stream_request_bytes(v) + trailing;
    assert(b.subrange(0, stream_request_bytes(v).len() as int) =~= stream_request_bytes(v));
    lemma_stream_request_round_trip(b, 0, v);
}

/// A payload holds a message content exactly if it starts with the encoding
/// of that content.
pub proof fn lemma_data_decoding_characterized(b: Seq<u8>, v: MessageContentView)
    ensures
        decoded_data(b) == Ok::<MessageContentView, DecodeError>(v) <==> (content_fits(v)
            && content_bytes(v).is_prefix_of(b)),
{
    if content_fits(v) && content_bytes(v).is_prefix_of(b) {
        let n = content_bytes(v).len() as int;
        assert(b =~= content_bytes(v) + b.subrange(n, b.len() as int));
        lemma_data_round_trip(v, b.subrange(n, b.len() as int));
    }
    if decoded_data(b) == Ok::<MessageContentView, DecodeError>(v) {
        lemma_content_canonical(b, 0);
    }
}

/// A payload holds a server response exactly if it starts with the encoding
/// of that response.
pub proof fn lemma_server_response_decoding_characterized(b: Seq<u8>, v: ServerResponseView)
    ensures
        decoded_server_response(b) == Ok::<ServerResponseView, DecodeError>(v) <==> (
        server_response_fits(v) && server_response_bytes(v).is_prefix_of(b)),
{
    if server_response_fits(v) && server_response_bytes(v).is_prefix_of(b) {
        let n = server_response_bytes(v).len() as int;
        assert(b =~= server_response_bytes(v) + b.subrange(n, b.len() as int));
        lemma_server_response_envelope_round_trip(v, b.subrange(n, b.len() as int));
    }
    if decoded_server_response(b) == Ok::<ServerResponseView, DecodeError>(v) {
        lemma_server_response_canonical(b, 0);
    }
}

/// A payload holds a request exactly if it starts with the encoding of that
/// request.
pub proof fn lemma_stream_decoding_characterized(b: Seq<u8>, v: StreamRequestView)
    ensures
        decoded_stream(b) == Ok::<StreamRequestView, DecodeError>(v) <==> (stream_request_fits(v)
            && stream_request_bytes(v).is_prefix_of(b)),
{
    if stream_request_fits(v) && stream_request_bytes(v).is_prefix_of(b) {
        let n = stream_request_bytes(v).len() as int;
        assert(b =~= stream_request_bytes(v) + b.subrange(n, b.len() as int));
        lemma_stream_round_trip(v, b.subrange(n, b.len() as int));
    }
    if decoded_stream(b) == Ok::<StreamRequestView, DecodeError>(v) {
        lemma_stream_request_canonical(b, 0);
    }
}

/// No two requests share an encoding.
pub proof fn lemma_stream_encoding_injective(v1: StreamRequestView, v2: StreamRequestView)
    requires
        stream_request_fits(v1),
        stream_request_fits(v2),
        stream_request_bytes(v1) == stream_request_bytes(v2),
    ensures
        v1 == v2,
{
    lemma_stream_round_trip(v1, Seq::empty());
    lemma_stream_round_trip(v2, Seq::empty());
}

/// No two responses share an encoding.
pub proof fn lemma_server_response_encoding_injective(
    v1: ServerResponseView,
    v2: ServerResponseView,
)
    requires
        server_response_fits(v1),
        server_response_fits(v2),
        server_response_bytes(v1) == server_response_bytes(v2),
    ensures
        v1 == v2,
{
    lemma_server_response_envelope_round_trip(v1, Seq::empty());
    lemma_server_response_envelope_round_trip(v2, Seq::empty());
}

impl DBError {
    /// The four bytes that stand for this error on the wire.
    pub fn serialize(&self) -> (bytes: Vec<u8>)
        ensures
            bytes@ == db_error_bytes(*self),
            decoded(db_error_at(bytes@, 0)) == Ok::<DBError, DecodeError>(*self),
    {
        let mut out: Vec<u8> = Vec::new();
        write_db_error(&mut out, *self);
        proof {
            assert(out@ =~= db_error_bytes(*self));
            assert(out@.subrange(0, db_error_bytes(*self).len() as int) =~= out@);
            lemma_db_error_round_trip(out@, 0, *self);
        }
        out
    }

    /// The error that `data` starts with, where it starts with one.
    pub fn try_from_bytes(data: &[u8]) -> (r: Result<Self, DecodeError>)
        ensures
            r == decoded(db_error_at(data@, 0)),
    {
        match read_db_error(data, 0) {
            Ok((x, _)) => Ok(x),
            Err(e) => Err(e),
        }
    }

    /// The error that `data` starts with.
    pub fn from_bytes(data: &[u8]) -> (e: Self)
        requires
            db_error_at(data@, 0) is Ok,
        ensures
            decoded(db_error_at(data@, 0)) == Ok::<DBError, DecodeError>(e),
    {
        match read_db_error(data, 0) {
            Ok((x, _)) => x,
            Err(_) => unreached(),
        }
    }
}

impl ServerError {
    /// The four bytes that stand for this error on the wire.
    pub fn serialize(&self) -> (bytes: Vec<u8>)
        ensures
            bytes@ == server_error_bytes(*self),
            decoded(server_error_at(bytes@, 0)) == Ok::<ServerError, DecodeError>(*self),
    {
        let mut out: Vec<u8> = Vec::new();
        write_server_error(&mut out, *self);
        proof {
            assert(out@ =~= server_error_bytes(*self));
            assert(out@.subrange(0, server_error_bytes(*self).len() as int) =~= out@);
            lemma_server_error_round_trip(out@, 0, *self);
        }
        out
    }

    /// The error that `data` starts with, where it starts with one.
    pub fn try_from_bytes(data: &[u8]) -> (r: Result<Self, DecodeError>)
        ensures
            r == decoded(server_error_at(data@, 0)),
    {
        match read_server_error(data, 0) {
            Ok((x, _)) => Ok(x),
            Err(e) => Err(e),
        }
    }

    /// The error that `data` starts with.
    pub fn from_bytes(data: &[u8]) -> (e: Self)
        requires
            server_error_at(data@, 0) is Ok,
        ensures
            decoded(server_error_at(data@, 0)) == Ok::<ServerError, DecodeError>(e),
    {
        match read_server_error(data, 0) {
            Ok((x, _)) => x,
            Err(_) => unreached(),
        }
    }
}

// ---------------------------------------------------------------------------
// Frames

/// The four bytes of `n`, most significant first.
pub open spec fn length_prefix(n: u32) -> Seq<u8> {
    seq![
        (n / 16777216) as u8,
        ((n / 65536) % 256) as u8,
        ((n / 256) % 256) as u8,
        (n % 256) as u8,
    ]
}

/// The number that four bytes stand for, most significant first.
pub open spec fn prefix_value(header: Seq<u8>) -> u32
    recommends
        header.len() == 4,
{
    (16777216 * (header[0] as int) + 65536 * (header[1] as int) + 256 * (header[2] as int)
        + header[3] as int) as u32
}

/// A payload short enough for its length to be written in four bytes.
pub open spec fn frame_fits(payload: Seq<u8>) -> bool {
    payload.len() <= u32::MAX
}

/// The frame that carries `payload`.
pub open spec fn frame_bytes(payload: Seq<u8>) -> Seq<u8> {
    length_prefix(payload.len() as u32) + payload
}

/// The payload of the frame that `b` starts with, if it starts with a whole
/// frame.
pub open spec fn first_frame(b: Seq<u8>) -> Option<Seq<u8>> {
    if b.len() >= 4 && 4 + prefix_value(b.subrange(0, 4)) <= b.len() {
        Some(b.subrange(4, 4 + prefix_value(b.subrange(0, 4))))
    } else {
        None
    }
}

/// A prefix names the length it was made from.
pub proof fn lemma_length_prefix_round_trip(n: u32)
    ensures
        length_prefix(n).len() == 4,
        prefix_value(length_prefix(n)) == n,
{
}

/// A frame followed by anything starts with that frame's payload.
pub proof fn lemma_frame_round_trip(payload: Seq<u8>, trailing: Seq<u8>)
    requires
        frame_fits(payload),
    ensures
        first_frame(frame_bytes(payload) + trailing) == Some(payload),
{
    let n = payload.len() as u32;
    let b = frame_bytes(payload) + trailing;
    lemma_length_prefix_round_trip(n);
    assert(b.subrange(0, 4) =~= length_prefix(n));
    assert(b.subrange(4, 4 + n) =~= payload);
}

/// The length that a frame's first four bytes announce.
pub fn frame_length(header: &[u8; 4]) -> (n: u32)
    ensures
        n == prefix_value(header@),
{
    let b0: u32 = header[0] as u32;
    let b1: u32 = header[1] as u32;
    let b2: u32 = header[2] as u32;
    let b3: u32 = header[3] as u32;
    16777216 * b0 + 65536 * b1 + 256 * b2 + b3
}

/// Puts `content` into a frame. A payload too long for a four-byte length
/// has no frame.
pub fn frame(content: &[u8]) -> (r: Option<Vec<u8>>)
    ensures
        frame_fits(content@) ==> (r matches Some(f) && f@ == frame_bytes(content@)),
        !frame_fits(content@) ==> r is None,
{
    if content.len() > 4294967295 {
        return None;
    }
    let n: u32 = content.len() as u32;
    let mut out: Vec<u8> = Vec::new();
    out.push((n / 16777216) as u8);
    out.push(((n / 65536) % 256) as u8);
    out.push(((n / 256) % 256) as u8);
    out.push((n % 256) as u8);
    assert(out@ =~= length_prefix(n));
    extend_bytes(&mut out, content);
    Some(out)
}

/// Takes the payload out of the frame that `buf` starts with. Where `buf`
/// does not hold a whole frame yet, there is no payload.
pub fn unframe(buf: &[u8]) -> (r: Option<Vec<u8>>)
    ensures
        match r {
            Some(payload) => first_frame(buf@) == Some(payload@),
            None => first_frame(buf@) is None,
        },
{
    if buf.len() < 4 {
        return None;
    }
    let b0: u32 = buf[0] as u32;
    let b1: u32 = buf[1] as u32;
    let b2: u32 = buf[2] as u32;
    let b3: u32 = buf[3] as u32;
    let n: u32 = 16777216 * b0 + 65536 * b1 + 256 * b2 + b3;
    assert(n == prefix_value(buf@.subrange(0, 4)));
    if n as u64 > (buf.len() - 4) as u64 {
        return None;
    }
    let end: usize = 4 + n as usize;
    Some(slice_to_vec(slice_subrange(buf, 4, end)))
}

/// What the read side of a connection observed while waiting for one frame.
#[derive(Debug, Clone, PartialEq, Eq)]
pub enum Arrival {
    /// The length prefix could not be read: the peer is gone.
    NoHeader,
    /// The prefix came, the payload it announced did not: the read failed
    /// with this error.
    NoPayload(IoError),
    /// A whole payload.
    Payload(Vec<u8>),
}

/// The mathematical value of an [`Arrival`].
pub enum ArrivalView {
    NoHeader,
    NoPayload(IoErrorView),
    Payload(Seq<u8>),
}

impl View for Arrival {
    type V = ArrivalView;

    open spec fn view(&self) -> ArrivalView {
        match self {
            Arrival::NoHeader => ArrivalView::NoHeader,
            Arrival::NoPayload(e) => ArrivalView::NoPayload(e@),
            Arrival::Payload(bytes) => ArrivalView::Payload(bytes@),
        }
    }
}

/// The read error for a payload that holds no request.
pub open spec fn undecodable() -> StreamErrorView {
    StreamErrorView::ReadMessageError(
        IoErrorView { kind: IoErrorKind::InvalidData, message: "Failed to deserialize"@ },
    )
}

/// What an arrival amounts to. The stream is closed where not even the
/// length prefix came, and where the payload did not come because the peer
/// is gone: a frame that the connection did not live to deliver is no
/// malformed frame. It is a read error where the payload failed to come for
/// another reason, or came and holds no request. Else it is the request
/// that the payload holds.
pub open spec fn arrival_outcome(arrival: ArrivalView) -> Result<
    StreamRequestView,
    StreamErrorView,
> {
    match arrival {
        ArrivalView::NoHeader => Err(StreamErrorView::StreamClosed),
        ArrivalView::NoPayload(e) => if e.kind.peer_gone() {
            Err(StreamErrorView::StreamClosed)
        } else {
            Err(StreamErrorView::ReadMessageError(e))
        },
        ArrivalView::Payload(bytes) => match decoded_stream(bytes) {
            Ok(request) => Ok(request),
            Err(_) => Err(undecodable()),
        },
    }
}

/// Turns what the read side observed into the request that arrived, or into
/// the error that tells the connection's task how to go on.
pub fn handle_stream(arrival: Arrival) -> (r: Result<StreamRequest, StreamError>)
    ensures
        match r {
            Ok(request) => arrival_outcome(arrival@) == Ok::<StreamRequestView, StreamErrorView>(
                request@,
            ),
            Err(e) => arrival_outcome(arrival@) == Err::<StreamRequestView, StreamErrorView>(e@),
        },
{
    match arrival {
        Arrival::NoHeader => Err(StreamError::StreamClosed),
        Arrival::NoPayload(e) => {
            if e.kind.tells_peer_gone() {
                Err(StreamError::StreamClosed)
            } else {
                Err(StreamError::ReadMessageError(e))
            }
        },
        Arrival::Payload(bytes) => match deserialize_stream(bytes) {
            Ok(request) => Ok(request),
            Err(_) => Err(
                StreamError::ReadMessageError(
                    IoError::new(IoErrorKind::InvalidData, "Failed to deserialize"),
                ),
            ),
        },
    }
}

} // verus!

//! The wire codec: the byte layout of frames and of the handshake.
//!
//! Every number on the wire is big-endian. A frame is the payload's schema id
//! in eight bytes, the body's length in two, and the body. Nothing here reads
//! or writes a stream: the functions turn values into bytes and bytes into
//! values.

use vstd::prelude::*;

use crate::error::TolliverError;
use crate::{API_KEY_LENGTH, HANDSHAKE_CODE_LENGTH, VERSION_LENGTH};

verus! {

/// The number of bytes the schema id is encoded in.
pub const PROTO_ID_LENGTH: usize = 8;

/// The number of bytes the body length is encoded in.
pub const BODY_LENGTH_LENGTH: usize = 2;

/// The number of bytes that precede the body of a frame.
pub const FRAME_HEADER_LENGTH: usize = 10;

/// The longest body a frame can carry.
pub const MAX_BODY_LENGTH: usize = 65535;

/// The number of bytes of a handshake request.
pub const HANDSHAKE_REQUEST_LENGTH: usize = 34;

/// The number of bytes of a handshake response.
pub const HANDSHAKE_RESPONSE_LENGTH: usize = 3;

/// The lengths of the layouts add up, and the longest body has the largest
/// length that the length field can hold.
pub proof fn lemma_layout_lengths()
    ensures
        FRAME_HEADER_LENGTH == PROTO_ID_LENGTH + BODY_LENGTH_LENGTH,
        HANDSHAKE_REQUEST_LENGTH == VERSION_LENGTH + API_KEY_LENGTH,
        HANDSHAKE_RESPONSE_LENGTH == HANDSHAKE_CODE_LENGTH + VERSION_LENGTH,
        fits_in(MAX_BODY_LENGTH as nat, BODY_LENGTH_LENGTH as nat),
        !fits_in((MAX_BODY_LENGTH + 1) as nat, BODY_LENGTH_LENGTH as nat),
{
    reveal_with_fuel(fits_in, 3);
}

/// The number a byte string denotes when its first byte is the most
/// significant.
pub open spec fn be_value(bytes: Seq<u8>) -> nat
    decreases bytes.len(),
{
    if bytes.len() == 0 {
        0
    } else {
        be_value(bytes.drop_last()) * 256 + bytes.last() as nat
    }
}

/// The `width` least significant base-256 digits of `value`, the most
/// significant of them first.
pub open spec fn be_bytes(value: nat, width: nat) -> Seq<u8>
    decreases width,
{
    if width == 0 {
        Seq::empty()
    } else {
        be_bytes(value / 256, (width - 1) as nat).push((value % 256) as u8)
    }
}

/// Whether `value` can be written in `width` base-256 digits.
pub open spec fn fits_in(value: nat, width: nat) -> bool
    decreases width,
{
    if width == 0 {
        value == 0
    } else {
        fits_in(value / 256, (width - 1) as nat)
    }
}

/// `be_bytes` gives as many bytes as it is asked for.
pub proof fn lemma_be_bytes_len(value: nat, width: nat)
    ensures
        be_bytes(value, width).len() == width,
    decreases width,
{
    if width > 0 {
        lemma_be_bytes_len(value / 256, (width - 1) as nat);
    }
}

/// Reading back the digits of a number that fits gives the number.
pub proof fn lemma_be_value_of_be_bytes(value: nat, width: nat)
    requires
        fits_in(value, width),
    ensures
        be_value(be_bytes(value, width)) == value,
    decreases width,
{
    if width > 0 {
        let high = be_bytes(value / 256, (width - 1) as nat);
        lemma_be_value_of_be_bytes(value / 256, (width - 1) as nat);
        assert(high.push((value % 256) as u8).drop_last() =~= high);
    }
}

/// Writing the number a byte string denotes, in as many digits, gives the
/// byte string.
pub proof fn lemma_be_bytes_of_be_value(bytes: Seq<u8>)
    ensures
        be_bytes(be_value(bytes), bytes.len()) == bytes,
        fits_in(be_value(bytes), bytes.len()),
    decreases bytes.len(),
{
    if bytes.len() > 0 {
        lemma_be_bytes_of_be_value(bytes.drop_last());
    }
}

/// Every `u16` fits in two bytes and every `u64` in eight.
pub proof fn lemma_machine_integers_fit(short: u16, long: u64)
    ensures
        fits_in(short as nat, 2),
        fits_in(long as nat, 8),
{
    reveal_with_fuel(fits_in, 9);
}

/// Two bytes denote a number below 65536, eight bytes one below 2^64.
pub proof fn lemma_be_value_bound(bytes: Seq<u8>)
    ensures
        bytes.len() == 2 ==> be_value(bytes) <= u16::MAX,
        bytes.len() == 8 ==> be_value(bytes) <= u64::MAX,
{
    lemma_be_bytes_of_be_value(bytes);
    reveal_with_fuel(fits_in, 9);
}

/// Appends the two bytes of `value` to `buf`.
pub fn push_u16(buf: &mut Vec<u8>, value: u16)
    ensures
        final(buf)@ == old(buf)@ + be_bytes(value as nat, 2),
{
    let high: u8 = (value / 256) as u8;
    let low: u8 = (value % 256) as u8;
    buf.push(high);
    buf.push(low);
    proof {
        reveal_with_fuel(be_bytes, 3);
    }
}

/// Appends the eight bytes of `value` to `buf`.
pub fn push_u64(buf: &mut Vec<u8>, value: u64)
    ensures
        final(buf)@ == old(buf)@ + be_bytes(value as nat, 8),
{
    let v1: u64 = value / 256;
    let v2: u64 = v1 / 256;
    let v3: u64 = v2 / 256;
    let v4: u64 = v3 / 256;
    let v5: u64 = v4 / 256;
    let v6: u64 = v5 / 256;
    let v7: u64 = v6 / 256;
    buf.push((v7 % 256) as u8);
    buf.push((v6 % 256) as u8);
    buf.push((v5 % 256) as u8);
    buf.push((v4 % 256) as u8);
    buf.push((v3 % 256) as u8);
    buf.push((v2 % 256) as u8);
    buf.push((v1 % 256) as u8);
    buf.push((value % 256) as u8);
    proof {
        reveal_with_fuel(be_bytes, 9);
    }
}

/// The number that the bytes of `bytes` from `start` up to `end` denote.
pub fn read_be(bytes: &[u8], start: usize, end: usize) -> (value: u64)
    requires
        start <= end <= bytes@.len(),
        end - start <= 8,
    ensures
        value == be_value(bytes@.subrange(start as int, end as int)),
{
    let mut value: u64 = 0;
    let mut at: usize = start;
    let ghost digits = bytes@.subrange(start as int, end as int);
    while at < end
        invariant
            start <= at <= end <= bytes@.len(),
            end - start <= 8,
            digits == bytes@.subrange(start as int, end as int),
            value == be_value(digits.take(at - start)),
        decreases end - at,
    {
        let ghost seen = digits.take(at - start + 1);
        proof {
            assert(seen.drop_last() =~= digits.take(at - start));
            lemma_be_bytes_of_be_value(seen);
            lemma_fits_in_bound(be_value(seen), seen.len());
        }
        value = value * 256 + bytes[at] as u64;
        at = at + 1;
    }
    proof {
        assert(digits.take(end - start) =~= digits);
    }
    value
}

/// A number that fits in at most eight digits is below 2^64.
proof fn lemma_fits_in_bound(value: nat, width: nat)
    requires
        fits_in(value, width),
        width <= 8,
    ensures
        value <= u64::MAX,
{
    reveal_with_fuel(fits_in, 9);
}

/// One message as it came off the wire: the schema id that tells how the body
/// is encoded, and the body, which the library does not look into.
#[derive(Debug)]
pub struct ReadMessage {
    pub proto_id: u64,
    pub body: Vec<u8>,
}

/// The frame that carries `body` under the schema id `proto_id`.
pub open spec fn frame_bytes(proto_id: u64, body: Seq<u8>) -> Seq<u8> {
    be_bytes(proto_id as nat, 8) + be_bytes(body.len(), 2) + body
}

/// The schema id that the header in front of `bytes` announces.
pub open spec fn frame_proto_id(bytes: Seq<u8>) -> nat {
    be_value(bytes.subrange(0, 8))
}

/// The body length that the header in front of `bytes` announces.
pub open spec fn frame_body_length(bytes: Seq<u8>) -> nat {
    be_value(bytes.subrange(8, 10))
}

/// How many bytes must follow `bytes` before they hold one whole frame: the
/// rest of the header while it is short, then the rest of the body.
pub open spec fn frame_missing(bytes: Seq<u8>) -> nat {
    if bytes.len() < 10 {
        (10 - bytes.len()) as nat
    } else if bytes.len() < 10 + frame_body_length(bytes) {
        (10 + frame_body_length(bytes) - bytes.len()) as nat
    } else {
        0
    }
}

/// Whether `bytes` begin with one whole frame.
pub open spec fn frame_complete(bytes: Seq<u8>) -> bool {
    frame_missing(bytes) == 0
}

/// The body of the frame that `bytes` begin with.
pub open spec fn frame_body(bytes: Seq<u8>) -> Seq<u8> {
    bytes.subrange(10, 10 + frame_body_length(bytes) as int)
}

/// Given the encoded body of a message, adds what turns it into a frame ready
/// to be sent over a stream or written to the outbox. Fails, with
/// `BodyTooLarge`, exactly when the body is longer than 65535 bytes.
pub fn body_to_tolliver_message(proto_id: u64, body: Vec<u8>) -> (result: Result<
    Vec<u8>,
    TolliverError,
>)
    ensures
        result is Err <==> body@.len() > MAX_BODY_LENGTH,
        result matches Err(error) ==> error is BodyTooLarge,
        result matches Ok(message) ==> message@ == frame_bytes(proto_id, body@),
{
    let length = body.len();
    if length > MAX_BODY_LENGTH {
        return Err(TolliverError::BodyTooLarge);
    }
    let body_length: u16 = length as u16;
    let mut buf: Vec<u8> = Vec::with_capacity(FRAME_HEADER_LENGTH + length);
    push_u64(&mut buf, proto_id);
    push_u16(&mut buf, body_length);
    buf.extend_from_slice(body.as_slice());
    Ok(buf)
}

/// How many more bytes the caller has to read, having read `bytes` so far,
/// before `decode_frame` will find a whole frame in them.
pub fn frame_bytes_missing(bytes: &[u8]) -> (missing: usize)
    ensures
        missing == frame_missing(bytes@),
{
    let length = bytes.len();
    if length < FRAME_HEADER_LENGTH {
        return FRAME_HEADER_LENGTH - length;
    }
    proof {
        lemma_be_value_bound(bytes@.subrange(8, 10));
    }
    let body_length: usize = read_be(bytes, PROTO_ID_LENGTH, FRAME_HEADER_LENGTH) as usize;
    if length - FRAME_HEADER_LENGTH < body_length {
        body_length - (length - FRAME_HEADER_LENGTH)
    } else {
        0
    }
}

/// The message that `bytes` begin with: `None` while the frame is not whole,
/// else its schema id and its body. Bytes after the frame are not looked at.
pub fn decode_frame(bytes: &[u8]) -> (message: Option<ReadMessage>)
    ensures
        message is Some <==> frame_complete(bytes@),
        message matches Some(m) ==> m.proto_id == frame_proto_id(bytes@) && m.body@ == frame_body(
            bytes@,
        ),
{
    if frame_bytes_missing(bytes) != 0 {
        return None;
    }
    proof {
        lemma_be_value_bound(bytes@.subrange(0, 8));
        lemma_be_value_bound(bytes@.subrange(8, 10));
    }
    let proto_id = read_be(bytes, 0, PROTO_ID_LENGTH);
    let body_length: usize = read_be(bytes, PROTO_ID_LENGTH, FRAME_HEADER_LENGTH) as usize;
    let length = bytes.len();
    let mut body: Vec<u8> = Vec::with_capacity(body_length);
    let mut at: usize = 0;
    while at < body_length
        invariant
            at <= body_length,
            FRAME_HEADER_LENGTH + body_length <= length == bytes@.len(),
            body@ == bytes@.subrange(10, 10 + at),
        decreases body_length - at,
    {
        body.push(bytes[FRAME_HEADER_LENGTH + at]);
        at = at + 1;
    }
    Some(ReadMessage { proto_id, body })
}

/// A frame holds what it was made from: it is whole, nothing is missing or
/// left over, and decoding gives back the schema id and the body.
pub proof fn lemma_frame_round_trip(proto_id: u64, body: Seq<u8>)
    requires
        body.len() <= MAX_BODY_LENGTH,
    ensures
        frame_bytes(proto_id, body).len() == FRAME_HEADER_LENGTH + body.len(),
        frame_complete(frame_bytes(proto_id, body)),
        frame_proto_id(frame_bytes(proto_id, body)) == proto_id,
        frame_body_length(frame_bytes(proto_id, body)) == body.len(),
        frame_body(frame_bytes(proto_id, body)) == body,
{
    let frame = frame_bytes(proto_id, body);
    let id_bytes = be_bytes(proto_id as nat, 8);
    let length_bytes = be_bytes(body.len(), 2);
    lemma_be_bytes_len(proto_id as nat, 8);
    lemma_be_bytes_len(body.len(), 2);
    lemma_machine_integers_fit(body.len() as u16, proto_id);
    lemma_be_value_of_be_bytes(proto_id as nat, 8);
    lemma_be_value_of_be_bytes(body.len(), 2);
    assert(frame.subrange(0, 8) =~= id_bytes);
    assert(frame.subrange(8, 10) =~= length_bytes);
}

/// A frame followed by anything decodes as the frame alone.
pub proof fn lemma_frame_then_more(proto_id: u64, body: Seq<u8>, more: Seq<u8>)
    requires
        body.len() <= MAX_BODY_LENGTH,
    ensures
        frame_complete(frame_bytes(proto_id, body) + more),
        frame_proto_id(frame_bytes(proto_id, body) + more) == proto_id,
        frame_body(frame_bytes(proto_id, body) + more) == body,
{
    let frame = frame_bytes(proto_id, body);
    lemma_frame_round_trip(proto_id, body);
    assert((frame + more).subrange(0, 8) =~= frame.subrange(0, 8));
    assert((frame + more).subrange(8, 10) =~= frame.subrange(8, 10));
}

/// The request that opens a connection: the version, then the API key.
pub open spec fn handshake_request_bytes(version: u16, api_key: Seq<u8>) -> Seq<u8> {
    be_bytes(version as nat, 2) + api_key
}

/// The version that a handshake request announces.
pub open spec fn request_version(bytes: Seq<u8>) -> nat {
    be_value(bytes.subrange(0, 2))
}

/// The API key that a handshake request presents.
pub open spec fn request_api_key(bytes: Seq<u8>) -> Seq<u8> {
    bytes.subrange(2, 34)
}

/// The answer to a handshake request: the code, then the answering side's
/// version.
pub open spec fn handshake_response_bytes(code: u8, version: u16) -> Seq<u8> {
    seq![code] + be_bytes(version as nat, 2)
}

/// The version that a handshake response reports.
pub open spec fn response_version(bytes: Seq<u8>) -> nat {
    be_value(bytes.subrange(1, 3))
}

/// The 34 bytes of a handshake request.
pub fn encode_handshake_request(version: u16, api_key: &[u8; 32]) -> (request: Vec<u8>)
    ensures
        request@ == handshake_request_bytes(version, api_key@),
        request@.len() == HANDSHAKE_REQUEST_LENGTH,
{
    let mut buf: Vec<u8> = Vec::with_capacity(HANDSHAKE_REQUEST_LENGTH);
    push_u16(&mut buf, version);
    buf.extend_from_slice(api_key.as_slice());
    proof {
        lemma_be_bytes_len(version as nat, 2);
    }
    buf
}

/// The version and the API key of a handshake request; `None` unless `bytes`
/// has the length of one.
pub fn decode_handshake_request(bytes: &[u8]) -> (request: Option<(u16, [u8; 32])>)
    ensures
        request is Some <==> bytes@.len() == HANDSHAKE_REQUEST_LENGTH,
        request matches Some((version, api_key)) ==> version == request_version(bytes@)
            && api_key@ == request_api_key(bytes@),
{
    if bytes.len() != HANDSHAKE_REQUEST_LENGTH {
        return None;
    }
    proof {
        lemma_be_value_bound(bytes@.subrange(0, 2));
    }
    let version: u16 = read_be(bytes, 0, 2) as u16;
    let mut api_key: [u8; 32] = [0u8; 32];
    let mut at: usize = 0;
    while at < 32
        invariant
            at <= 32,
            bytes@.len() == 34,
            forall|i: int| 0 <= i < at ==> api_key@[i] == bytes@[2 + i],
        decreases 32 - at,
    {
        api_key[at] = bytes[2 + at];
        at = at + 1;
    }
    Some((version, api_key))
}

/// The 3 bytes of a handshake response.
pub fn encode_handshake_response(code: u8, version: u16) -> (response: Vec<u8>)
    ensures
        response@ == handshake_response_bytes(code, version),
        response@.len() == HANDSHAKE_RESPONSE_LENGTH,
{
    let mut buf: Vec<u8> = Vec::with_capacity(HANDSHAKE_RESPONSE_LENGTH);
    buf.push(code);
    push_u16(&mut buf, version);
    proof {
        lemma_be_bytes_len(version as nat, 2);
    }
    buf
}

/// The code and the version of a handshake response; `None` unless `bytes`
/// has the length of one.
pub fn decode_handshake_response(bytes: &[u8]) -> (response: Option<(u8, u16)>)
    ensures
        response is Some <==> bytes@.len() == HANDSHAKE_RESPONSE_LENGTH,
        response matches Some((code, version)) ==> code == bytes@[0] && version
            == response_version(bytes@),
{
    if bytes.len() != HANDSHAKE_RESPONSE_LENGTH {
        return None;
    }
    proof {
        lemma_be_value_bound(bytes@.subrange(1, 3));
    }
    let version: u16 = read_be(bytes, 1, 3) as u16;
    Some((bytes[0], version))
}

/// A handshake request holds what it was made from: decoding it gives back
/// the version and the key.
pub proof fn lemma_handshake_request_round_trip(version: u16, api_key: Seq<u8>)
    requires
        api_key.len() == 32,
    ensures
        handshake_request_bytes(version, api_key).len() == HANDSHAKE_REQUEST_LENGTH,
        request_version(handshake_request_bytes(version, api_key)) == version,
        request_api_key(handshake_request_bytes(version, api_key)) == api_key,
{
    let request = handshake_request_bytes(version, api_key);
    lemma_be_bytes_len(version as nat, 2);
    lemma_machine_integers_fit(version, 0);
    lemma_be_value_of_be_bytes(version as nat, 2);
    assert(request.subrange(0, 2) =~= be_bytes(version as nat, 2));
}

/// A handshake response holds what it was made from: decoding it gives back
/// the code and the version.
pub proof fn lemma_handshake_response_round_trip(code: u8, version: u16)
    ensures
        handshake_response_bytes(code, version).len() == HANDSHAKE_RESPONSE_LENGTH,
        handshake_response_bytes(code, version)[0] == code,
        response_version(handshake_response_bytes(code, version)) == version,
{
    let response = handshake_response_bytes(code, version);
    lemma_be_bytes_len(version as nat, 2);
    lemma_machine_integers_fit(version, 0);
    lemma_be_value_of_be_bytes(version as nat, 2);
    assert(response.subrange(1, 3) =~= be_bytes(version as nat, 2));
}

} // verus!

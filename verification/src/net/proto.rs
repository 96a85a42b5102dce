//! Packets of the peer protocol and their wire format.
use vstd::prelude::*;

verus! {

/// Packet kind of a [`TimeRequest`].
pub const MSG_REQ: u8 = 1;

/// Packet kind of a [`TimeResponse`].
pub const MSG_RESP: u8 = 2;

/// Protocol version spoken by this node.
pub const WIRE_VERSION: u8 = 1;

pub const SIGNATURE_BYTES: usize = 32;

pub const RESERVED_BYTES: usize = 16;

/// Bytes of an encoded [`TimeRequest`].
pub const REQUEST_LEN: usize = 66;

/// Bytes of an encoded [`TimeResponse`].
pub const RESPONSE_LEN: usize = 86;

pub type Signature = [u8; SIGNATURE_BYTES];

pub type Reserved = [u8; RESERVED_BYTES];

/// Packet header shared between request/response.
#[derive(Debug, Clone, Copy, PartialEq, Eq)]
pub struct Header {
    pub ver: u8,
    pub kind: u8,
    pub seq: u32,
}

/// A client's question for the time.
#[derive(Debug, Clone, Copy, PartialEq, Eq)]
pub struct TimeRequest {
    pub header: Header,
    pub sender_id: u32,
    pub t1_send_ns: u64,
    pub reserved: Reserved,
    pub signature: Signature,
}

/// A server's answer to a [`TimeRequest`].
#[derive(Debug, Clone, Copy, PartialEq, Eq)]
pub struct TimeResponse {
    pub header: Header,
    pub server_id: u32,
    /// Echoed from the request.
    pub t1_echo_ns: u64,
    /// When the server received the request.
    pub t2_recv_ns: u64,
    /// When the server sent this response.
    pub t3_send_ns: u64,
    pub server_quality: u32,
    pub reserved: Reserved,
    pub signature: Signature,
}

/// Why a packet could not be encoded or decoded.
#[derive(Debug, Clone, Copy, PartialEq, Eq, Structural)]
pub enum WireError {
    /// The datagram is shorter than the packet.
    Truncated,
    /// The packet could not be encoded.
    Unencodable,
}

impl Header {
    /// A header of the current protocol version.
    pub fn new(kind: u8, seq: u32) -> (header: Self)
        ensures
            header == (Header { ver: WIRE_VERSION, kind, seq }),
    {
        Header { ver: WIRE_VERSION, kind, seq }
    }
}

/// The `n` low bytes of `x`, least significant first.
pub open spec fn le_bytes(x: nat, n: nat) -> Seq<u8>
    decreases n,
{
    if n == 0 {
        Seq::empty()
    } else {
        seq![(x % 256) as u8] + le_bytes(x / 256, (n - 1) as nat)
    }
}

/// A header on the wire: version, kind, sequence number.
pub open spec fn header_bytes(h: Header) -> Seq<u8> {
    seq![h.ver, h.kind] + le_bytes(h.seq as nat, 4)
}

/// A request on the wire: its fields in order, integers little-endian at their full width.
pub open spec fn request_bytes(r: TimeRequest) -> Seq<u8> {
    header_bytes(r.header) + le_bytes(r.sender_id as nat, 4) + le_bytes(r.t1_send_ns as nat, 8)
        + r.reserved@ + r.signature@
}

/// A response on the wire: its fields in order, integers little-endian at their full width.
pub open spec fn response_bytes(r: TimeResponse) -> Seq<u8> {
    header_bytes(r.header) + le_bytes(r.server_id as nat, 4) + le_bytes(r.t1_echo_ns as nat, 8)
        + le_bytes(r.t2_recv_ns as nat, 8) + le_bytes(r.t3_send_ns as nat, 8) + le_bytes(
        r.server_quality as nat,
        4,
    ) + r.reserved@ + r.signature@
}

/// `datagram` starts with the encoding of `r`; what follows it is ignored.
pub open spec fn decodes_to_request(datagram: Seq<u8>, r: TimeRequest) -> bool {
    &&& datagram.len() >= REQUEST_LEN
    &&& datagram.subrange(0, REQUEST_LEN as int) == request_bytes(r)
}

/// `datagram` starts with the encoding of `r`; what follows it is ignored.
pub open spec fn decodes_to_response(datagram: Seq<u8>, r: TimeResponse) -> bool {
    &&& datagram.len() >= RESPONSE_LEN
    &&& datagram.subrange(0, RESPONSE_LEN as int) == response_bytes(r)
}

/// The error of the `bincode` crate, opaque to the proofs.
#[verifier::external_type_specification]
#[verifier::external_body]
pub struct ExBincodeErrorKind(bincode::ErrorKind);

/// `bincode::serialize` on the request's fields as a tuple. Its default configuration writes
/// integers little-endian at full width, and tuples and byte arrays without any framing; nothing
/// in these fields can make it fail.
#[verifier::external_body]
fn bincode_serialize_request(r: &TimeRequest) -> (bytes: Result<Vec<u8>, Box<bincode::ErrorKind>>)
    ensures
        bytes is Ok,
        bytes->Ok_0@ == request_bytes(*r),
{
    let header = (r.header.ver, r.header.kind, r.header.seq);
    bincode::serialize(&(header, r.sender_id, r.t1_send_ns, r.reserved, r.signature))
}

/// `bincode::serialize` on the response's fields as a tuple, laid out as for a request.
#[verifier::external_body]
fn bincode_serialize_response(r: &TimeResponse) -> (bytes: Result<
    Vec<u8>,
    Box<bincode::ErrorKind>,
>)
    ensures
        bytes is Ok,
        bytes->Ok_0@ == response_bytes(*r),
{
    let header = (r.header.ver, r.header.kind, r.header.seq);
    let times = (r.t1_echo_ns, r.t2_recv_ns, r.t3_send_ns);
    bincode::serialize(
        &(header, r.server_id, times, r.server_quality, r.reserved, r.signature),
    )
}

/// `bincode::deserialize` into the request's fields as a tuple. Its default configuration reads
/// what `bincode::serialize` writes, ignores trailing bytes, and fails exactly when the input
/// ends too early: every byte pattern is a value of these fields.
#[verifier::external_body]
fn bincode_deserialize_request(datagram: &[u8]) -> (r: Result<
    TimeRequest,
    Box<bincode::ErrorKind>,
>)
    ensures
        r is Ok <==> datagram@.len() >= REQUEST_LEN,
        r is Ok ==> decodes_to_request(datagram@, r->Ok_0),
{
    let fields = bincode::deserialize(datagram)?;
    let ((ver, kind, seq), sender_id, t1_send_ns, reserved, signature) = fields;
    let header = Header { ver, kind, seq };
    Ok(TimeRequest { header, sender_id, t1_send_ns, reserved, signature })
}

/// `bincode::deserialize` into the response's fields as a tuple, with the same behaviour as for a
/// request.
#[verifier::external_body]
fn bincode_deserialize_response(datagram: &[u8]) -> (r: Result<
    TimeResponse,
    Box<bincode::ErrorKind>,
>)
    ensures
        r is Ok <==> datagram@.len() >= RESPONSE_LEN,
        r is Ok ==> decodes_to_response(datagram@, r->Ok_0),
{
    let fields = bincode::deserialize(datagram)?;
    let ((ver, kind, seq), server_id, times, server_quality, reserved, signature) = fields;
    let (t1_echo_ns, t2_recv_ns, t3_send_ns) = times;
    let header = Header { ver, kind, seq };
    Ok(
        TimeResponse { header, server_id, t1_echo_ns, t2_recv_ns, t3_send_ns, server_quality,
            reserved, signature },
    )
}

/// Encodes a request.
pub fn encode_request(r: &TimeRequest) -> (bytes: Result<Vec<u8>, WireError>)
    ensures
        bytes is Ok,
        bytes->Ok_0@ == request_bytes(*r),
{
    match bincode_serialize_request(r) {
        Ok(bytes) => Ok(bytes),
        Err(_) => Err(WireError::Unencodable),
    }
}

/// Encodes a response.
pub fn encode_response(r: &TimeResponse) -> (bytes: Result<Vec<u8>, WireError>)
    ensures
        bytes is Ok,
        bytes->Ok_0@ == response_bytes(*r),
{
    match bincode_serialize_response(r) {
        Ok(bytes) => Ok(bytes),
        Err(_) => Err(WireError::Unencodable),
    }
}

/// Decodes the request at the start of a datagram.
pub fn decode_request(datagram: &[u8]) -> (r: Result<TimeRequest, WireError>)
    ensures
        match r {
            Ok(req) => decodes_to_request(datagram@, req),
            Err(e) => e == WireError::Truncated && datagram@.len() < REQUEST_LEN,
        },
{
    match bincode_deserialize_request(datagram) {
        Ok(req) => Ok(req),
        Err(_) => Err(WireError::Truncated),
    }
}

/// Decodes the response at the start of a datagram.
pub fn decode_response(datagram: &[u8]) -> (r: Result<TimeResponse, WireError>)
    ensures
        match r {
            Ok(resp) => decodes_to_response(datagram@, resp),
            Err(e) => e == WireError::Truncated && datagram@.len() < RESPONSE_LEN,
        },
{
    match bincode_deserialize_response(datagram) {
        Ok(resp) => Ok(resp),
        Err(_) => Err(WireError::Truncated),
    }
}

/// `256` to the power `n`.
spec fn pow256(n: nat) -> nat
    decreases n,
{
    if n == 0 {
        1
    } else {
        256 * pow256((n - 1) as nat)
    }
}

proof fn lemma_le_bytes_len(x: nat, n: nat)
    ensures
        le_bytes(x, n).len() == n,
    decreases n,
{
    if n > 0 {
        lemma_le_bytes_len(x / 256, (n - 1) as nat);
    }
}

proof fn lemma_le_bytes_injective(x: nat, y: nat, n: nat)
    requires
        x < pow256(n),
        y < pow256(n),
        le_bytes(x, n) == le_bytes(y, n),
    ensures
        x == y,
    decreases n,
{
    if n > 0 {
        let m = (n - 1) as nat;
        let (bx, by) = (le_bytes(x, n), le_bytes(y, n));
        lemma_le_bytes_len(x / 256, m);
        lemma_le_bytes_len(y / 256, m);
        assert(bx[0] == (x % 256) as u8 && by[0] == (y % 256) as u8);
        assert(le_bytes(x / 256, m) =~= bx.subrange(1, n as int));
        assert(le_bytes(y / 256, m) =~= by.subrange(1, n as int));
        lemma_le_bytes_injective(x / 256, y / 256, m);
    }
}

proof fn lemma_pow256_values()
    ensures
        pow256(4) == 0x1_0000_0000,
        pow256(8) == 0x1_0000_0000_0000_0000,
{
    reveal_with_fuel(pow256, 9);
}

proof fn lemma_header_layout(h: Header)
    ensures
        header_bytes(h).len() == 6,
        header_bytes(h)[0] == h.ver,
        header_bytes(h)[1] == h.kind,
        header_bytes(h).subrange(2, 6) == le_bytes(h.seq as nat, 4),
{
    lemma_le_bytes_len(h.seq as nat, 4);
    assert(header_bytes(h).subrange(2, 6) =~= le_bytes(h.seq as nat, 4));
}

proof fn lemma_request_layout(r: TimeRequest)
    ensures
        request_bytes(r).len() == REQUEST_LEN,
        request_bytes(r).subrange(0, 6) == header_bytes(r.header),
        request_bytes(r).subrange(6, 10) == le_bytes(r.sender_id as nat, 4),
        request_bytes(r).subrange(10, 18) == le_bytes(r.t1_send_ns as nat, 8),
        request_bytes(r).subrange(18, 34) == r.reserved@,
        request_bytes(r).subrange(34, 66) == r.signature@,
{
    lemma_header_layout(r.header);
    lemma_le_bytes_len(r.sender_id as nat, 4);
    lemma_le_bytes_len(r.t1_send_ns as nat, 8);
    let b = request_bytes(r);
    assert(b.subrange(0, 6) =~= header_bytes(r.header));
    assert(b.subrange(6, 10) =~= le_bytes(r.sender_id as nat, 4));
    assert(b.subrange(10, 18) =~= le_bytes(r.t1_send_ns as nat, 8));
    assert(b.subrange(18, 34) =~= r.reserved@);
    assert(b.subrange(34, 66) =~= r.signature@);
}

proof fn lemma_response_layout(r: TimeResponse)
    ensures
        response_bytes(r).len() == RESPONSE_LEN,
        response_bytes(r).subrange(0, 6) == header_bytes(r.header),
        response_bytes(r).subrange(6, 10) == le_bytes(r.server_id as nat, 4),
        response_bytes(r).subrange(10, 18) == le_bytes(r.t1_echo_ns as nat, 8),
        response_bytes(r).subrange(18, 26) == le_bytes(r.t2_recv_ns as nat, 8),
        response_bytes(r).subrange(26, 34) == le_bytes(r.t3_send_ns as nat, 8),
        response_bytes(r).subrange(34, 38) == le_bytes(r.server_quality as nat, 4),
        response_bytes(r).subrange(38, 54) == r.reserved@,
        response_bytes(r).subrange(54, 86) == r.signature@,
{
    lemma_header_layout(r.header);
    lemma_le_bytes_len(r.server_id as nat, 4);
    lemma_le_bytes_len(r.t1_echo_ns as nat, 8);
    lemma_le_bytes_len(r.t2_recv_ns as nat, 8);
    lemma_le_bytes_len(r.t3_send_ns as nat, 8);
    lemma_le_bytes_len(r.server_quality as nat, 4);
    let b = response_bytes(r);
    assert(b.subrange(0, 6) =~= header_bytes(r.header));
    assert(b.subrange(6, 10) =~= le_bytes(r.server_id as nat, 4));
    assert(b.subrange(10, 18) =~= le_bytes(r.t1_echo_ns as nat, 8));
    assert(b.subrange(18, 26) =~= le_bytes(r.t2_recv_ns as nat, 8));
    assert(b.subrange(26, 34) =~= le_bytes(r.t3_send_ns as nat, 8));
    assert(b.subrange(34, 38) =~= le_bytes(r.server_quality as nat, 4));
    assert(b.subrange(38, 54) =~= r.reserved@);
    assert(b.subrange(54, 86) =~= r.signature@);
}

proof fn lemma_header_injective(a: Header, b: Header)
    requires
        header_bytes(a) == header_bytes(b),
    ensures
        a == b,
{
    lemma_header_layout(a);
    lemma_header_layout(b);
    lemma_pow256_values();
    lemma_le_bytes_injective(a.seq as nat, b.seq as nat, 4);
}

/// Two requests with the same encoding are the same request.
pub proof fn law_request_encoding_is_injective(a: TimeRequest, b: TimeRequest)
    requires
        request_bytes(a) == request_bytes(b),
    ensures
        a == b,
{
    lemma_request_layout(a);
    lemma_request_layout(b);
    lemma_pow256_values();
    lemma_header_injective(a.header, b.header);
    lemma_le_bytes_injective(a.sender_id as nat, b.sender_id as nat, 4);
    lemma_le_bytes_injective(a.t1_send_ns as nat, b.t1_send_ns as nat, 8);
    assert forall|i: int| 0 <= i < 16 implies a.reserved[i] == b.reserved[i] by {}
    assert forall|i: int| 0 <= i < 32 implies a.signature[i] == b.signature[i] by {}
    assert(a.reserved =~= b.reserved);
    assert(a.signature =~= b.signature);
}

/// Two responses with the same encoding are the same response.
pub proof fn law_response_encoding_is_injective(a: TimeResponse, b: TimeResponse)
    requires
        response_bytes(a) == response_bytes(b),
    ensures
        a == b,
{
    lemma_response_layout(a);
    lemma_response_layout(b);
    lemma_pow256_values();
    lemma_header_injective(a.header, b.header);
    lemma_le_bytes_injective(a.server_id as nat, b.server_id as nat, 4);
    lemma_le_bytes_injective(a.t1_echo_ns as nat, b.t1_echo_ns as nat, 8);
    lemma_le_bytes_injective(a.t2_recv_ns as nat, b.t2_recv_ns as nat, 8);
    lemma_le_bytes_injective(a.t3_send_ns as nat, b.t3_send_ns as nat, 8);
    lemma_le_bytes_injective(a.server_quality as nat, b.server_quality as nat, 4);
    assert forall|i: int| 0 <= i < 16 implies a.reserved[i] == b.reserved[i] by {}
    assert forall|i: int| 0 <= i < 32 implies a.signature[i] == b.signature[i] by {}
    assert(a.reserved =~= b.reserved);
    assert(a.signature =~= b.signature);
}

/// A request survives the wire: a datagram that starts with its encoding decodes to it and to no
/// other request, whatever bytes follow.
pub proof fn law_request_round_trip(sent: TimeRequest, trailing: Seq<u8>, received: TimeRequest)
    ensures
        decodes_to_request(request_bytes(sent) + trailing, received) <==> received == sent,
{
    lemma_request_layout(sent);
    let datagram = request_bytes(sent) + trailing;
    assert(datagram.subrange(0, REQUEST_LEN as int) =~= request_bytes(sent));
    if decodes_to_request(datagram, received) {
        law_request_encoding_is_injective(sent, received);
    }
}

/// A response survives the wire: a datagram that starts with its encoding decodes to it and to no
/// other response, whatever bytes follow.
pub proof fn law_response_round_trip(sent: TimeResponse, trailing: Seq<u8>, received: TimeResponse)
    ensures
        decodes_to_response(response_bytes(sent) + trailing, received) <==> received == sent,
{
    lemma_response_layout(sent);
    let datagram = response_bytes(sent) + trailing;
    assert(datagram.subrange(0, RESPONSE_LEN as int) =~= response_bytes(sent));
    if decodes_to_response(datagram, received) {
        law_response_encoding_is_injective(sent, received);
    }
}

/// An encoded request has its fixed length and carries version and kind in its first two bytes,
/// where a receiver looks before it decodes.
pub proof fn law_request_starts_with_version_and_kind(req: TimeRequest)
    ensures
        request_bytes(req).len() == REQUEST_LEN,
        request_bytes(req)[0] == req.header.ver,
        request_bytes(req)[1] == req.header.kind,
{
    lemma_request_layout(req);
    lemma_header_layout(req.header);
    assert(request_bytes(req)[0] == request_bytes(req).subrange(0, 6)[0]);
    assert(request_bytes(req)[1] == request_bytes(req).subrange(0, 6)[1]);
}

/// An encoded response has its fixed length and carries version and kind in its first two bytes,
/// where a receiver looks before it decodes.
pub proof fn law_response_starts_with_version_and_kind(resp: TimeResponse)
    ensures
        response_bytes(resp).len() == RESPONSE_LEN,
        response_bytes(resp)[0] == resp.header.ver,
        response_bytes(resp)[1] == resp.header.kind,
{
    lemma_response_layout(resp);
    lemma_header_layout(resp.header);
    assert(response_bytes(resp)[0] == response_bytes(resp).subrange(0, 6)[0]);
    assert(response_bytes(resp)[1] == response_bytes(resp).subrange(0, 6)[1]);
}

/// The number that these bytes stand for, least significant first.
pub open spec fn le_value(bytes: Seq<u8>) -> int
    decreases bytes.len(),
{
    if bytes.len() == 0 {
        0
    } else {
        bytes[0] + 256 * le_value(bytes.skip(1))
    }
}

proof fn lemma_le_value(x: nat, n: nat)
    requires
        x < pow256(n),
    ensures
        le_value(le_bytes(x, n)) == x,
    decreases n,
{
    if n > 0 {
        let m = (n - 1) as nat;
        lemma_le_value(x / 256, m);
        lemma_le_bytes_len(x / 256, m);
        assert(le_bytes(x, n).skip(1) =~= le_bytes(x / 256, m));
        assert(le_bytes(x, n)[0] == x % 256);
    }
}

/// A request lays out version, kind, number, sender, sending time, reserved bytes and signature in
/// this order, the numbers with their least significant byte first.
pub proof fn law_requests_lay_out_their_fields(r: TimeRequest)
    ensures
        ({
            let bytes = request_bytes(r);
            &&& bytes.len() == 66
            &&& bytes[0] == r.header.ver
            &&& bytes[1] == r.header.kind
            &&& le_value(bytes.subrange(2, 6)) == r.header.seq
            &&& le_value(bytes.subrange(6, 10)) == r.sender_id
            &&& le_value(bytes.subrange(10, 18)) == r.t1_send_ns
            &&& bytes.subrange(18, 34) == r.reserved@
            &&& bytes.subrange(34, 66) == r.signature@
        }),
{
    lemma_request_layout(r);
    lemma_header_layout(r.header);
    lemma_pow256_values();
    lemma_le_value(r.header.seq as nat, 4);
    lemma_le_value(r.sender_id as nat, 4);
    lemma_le_value(r.t1_send_ns as nat, 8);
    let bytes = request_bytes(r);
    assert(bytes.subrange(2, 6) =~= bytes.subrange(0, 6).subrange(2, 6));
    law_request_starts_with_version_and_kind(r);
}

/// A response lays out version, kind, number, server, the three times, quality, reserved bytes and
/// signature in this order, the numbers with their least significant byte first.
pub proof fn law_responses_lay_out_their_fields(r: TimeResponse)
    ensures
        ({
            let bytes = response_bytes(r);
            &&& bytes.len() == 86
            &&& bytes[0] == r.header.ver
            &&& bytes[1] == r.header.kind
            &&& le_value(bytes.subrange(2, 6)) == r.header.seq
            &&& le_value(bytes.subrange(6, 10)) == r.server_id
            &&& le_value(bytes.subrange(10, 18)) == r.t1_echo_ns
            &&& le_value(bytes.subrange(18, 26)) == r.t2_recv_ns
            &&& le_value(bytes.subrange(26, 34)) == r.t3_send_ns
            &&& le_value(bytes.subrange(34, 38)) == r.server_quality
            &&& bytes.subrange(38, 54) == r.reserved@
            &&& bytes.subrange(54, 86) == r.signature@
        }),
{
    lemma_response_layout(r);
    lemma_header_layout(r.header);
    lemma_pow256_values();
    lemma_le_value(r.header.seq as nat, 4);
    lemma_le_value(r.server_id as nat, 4);
    lemma_le_value(r.t1_echo_ns as nat, 8);
    lemma_le_value(r.t2_recv_ns as nat, 8);
    lemma_le_value(r.t3_send_ns as nat, 8);
    lemma_le_value(r.server_quality as nat, 4);
    let bytes = response_bytes(r);
    assert(bytes.subrange(2, 6) =~= bytes.subrange(0, 6).subrange(2, 6));
    law_response_starts_with_version_and_kind(r);
}

} // verus!

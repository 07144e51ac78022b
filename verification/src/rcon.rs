//! Minecraft RCON (the Source RCON protocol): packet framing, request ids
//! and what the client makes of each reply.
//!
//! A packet is a little-endian `i32` length (not counting itself), a
//! little-endian request id, a little-endian type (3 login, 2 command,
//! 0 response), the payload and two NUL bytes.  The socket itself is driven
//! by the caller; everything it decides is here.
use crate::text::{concat, i64_to_string, int_decimal};
use vstd::prelude::*;
use vstd::utf8::{decode_utf8, valid_utf8};

verus! {

pub const PACKET_TYPE_LOGIN: i32 = 3;

pub const PACKET_TYPE_EXEC: i32 = 2;

pub const PACKET_TYPE_RESPONSE: i32 = 0;

/// Largest command payload, in bytes, that `exec` sends.
pub const MAX_PAYLOAD: usize = 1400;

/// Smallest and largest length field a reply may carry.
pub const MIN_PACKET_LEN: i32 = 10;

pub const MAX_PACKET_LEN: i32 = 4096;

#[derive(Debug)]
pub enum RconError {
    Io(std::io::Error),
    AuthFailed,
    PacketTooLarge(usize),
    UnexpectedResponse(String),
    Timeout,
}

// ---------------------------------------------------------------------------
// Little-endian integers
// ---------------------------------------------------------------------------

pub open spec fn le_bytes_u32(v: u32) -> Seq<u8> {
    seq![
        (v % 256) as u8,
        ((v / 256) % 256) as u8,
        ((v / 65536) % 256) as u8,
        ((v / 16777216) % 256) as u8,
    ]
}

/// The four bytes of `x` in little-endian two's complement.
pub open spec fn le_i32(x: i32) -> Seq<u8> {
    le_bytes_u32(x as u32)
}

/// The `i32` whose little-endian bytes are the first four of `b`.
pub open spec fn from_le_i32(b: Seq<u8>) -> i32 {
    ((b[0] as int) + 256 * (b[1] as int) + 65536 * (b[2] as int) + 16777216 * (
    b[3] as int)) as u32 as i32
}

pub proof fn lemma_le_i32_roundtrip(x: i32)
    ensures
        from_le_i32(le_i32(x)) == x,
        le_i32(x).len() == 4,
{
    let v = x as u32;
    assert(v == (v % 256) + 256 * ((v / 256) % 256) + 65536 * ((v / 65536) % 256) + 16777216 * ((v
        / 16777216) % 256)) by (bit_vector);
    assert((x as u32) as i32 == x) by (bit_vector);
}

fn push_le_i32(buf: &mut Vec<u8>, x: i32)
    ensures
        final(buf)@ == old(buf)@ + le_i32(x),
{
    let v = x as u32;
    buf.push((v % 256) as u8);
    buf.push(((v / 256) % 256) as u8);
    buf.push(((v / 65536) % 256) as u8);
    buf.push(((v / 16777216) % 256) as u8);
    assert(final(buf)@ =~= old(buf)@ + le_i32(x));
}

fn read_le_i32(b: &[u8], at: usize) -> (r: i32)
    requires
        at + 4 <= b@.len(),
    ensures
        r == from_le_i32(b@.subrange(at as int, at + 4)),
{
    let v: u32 = b[at] as u32 + 256 * (b[at + 1] as u32) + 65536 * (b[at + 2] as u32) + 16777216 * (
    b[at + 3] as u32);
    v as i32
}

// ---------------------------------------------------------------------------
// Framing
// ---------------------------------------------------------------------------

/// The length field of a packet whose payload has `n` bytes:
/// id, type, payload and the two terminating NULs.
pub open spec fn packet_length(n: int) -> int {
    4 + 4 + n + 2
}

/// The bytes `write_packet` puts on the wire.
pub open spec fn packet_bytes(id: i32, ptype: i32, payload: Seq<u8>) -> Seq<u8> {
    le_i32(packet_length(payload.len() as int) as i32) + le_i32(id) + le_i32(ptype) + payload
        + seq![0u8, 0u8]
}

/// What `read_packet` makes of bytes on the wire: the length field must be
/// between 10 and 4096 and that many bytes must follow; the payload is what
/// lies between the type and the two trailing bytes.
pub open spec fn read_frame(bytes: Seq<u8>) -> Option<(i32, i32, Seq<u8>)> {
    if bytes.len() < 4 {
        None
    } else {
        let l = from_le_i32(bytes) as int;
        if !(MIN_PACKET_LEN <= l <= MAX_PACKET_LEN) || bytes.len() < 4 + l {
            None
        } else {
            let rest = bytes.subrange(4, 4 + l);
            Some(
                (
                    from_le_i32(rest),
                    from_le_i32(rest.subrange(4, 8)),
                    rest.subrange(8, l - 2),
                ),
            )
        }
    }
}

/// The length field for a payload of `payload_len` bytes.
pub fn packet_len_field(payload_len: usize) -> (r: i32)
    requires
        payload_len + 10 <= i32::MAX,
    ensures
        r == packet_length(payload_len as int),
{
    4 + 4 + payload_len as i32 + 2
}

/// Frames one packet.
pub fn encode_packet(id: i32, ptype: i32, payload: &[u8]) -> (r: Vec<u8>)
    requires
        payload@.len() + 10 <= i32::MAX,
    ensures
        r@ == packet_bytes(id, ptype, payload@),
{
    let length = packet_len_field(payload.len());
    let mut buf: Vec<u8> = Vec::new();
    push_le_i32(&mut buf, length);
    push_le_i32(&mut buf, id);
    push_le_i32(&mut buf, ptype);
    let mut i: usize = 0;
    let ghost head = buf@;
    while i < payload.len()
        invariant
            i <= payload@.len(),
            buf@ == head + payload@.subrange(0, i as int),
        decreases payload@.len() - i,
    {
        buf.push(payload[i]);
        i += 1;
        assert(buf@ =~= head + payload@.subrange(0, i as int));
    }
    buf.push(0);
    buf.push(0);
    assert(buf@ =~= packet_bytes(id, ptype, payload@));
    buf
}

pub open spec fn bad_length_text(l: i32) -> Seq<char> {
    "bad length "@ + int_decimal(l as int)
}

/// Checks the four length bytes that start a reply; `Ok` carries the number
/// of bytes that follow.
pub fn decode_length(header: &[u8]) -> (r: Result<usize, RconError>)
    requires
        header@.len() == 4,
    ensures
        ({
            let l = from_le_i32(header@);
            &&& MIN_PACKET_LEN <= l <= MAX_PACKET_LEN ==> r == Ok::<usize, RconError>(l as usize)
            &&& !(MIN_PACKET_LEN <= l <= MAX_PACKET_LEN) ==> (r matches Err(
                RconError::UnexpectedResponse(m),
            ) && m@ == bad_length_text(l))
        }),
{
    let l = read_le_i32(header, 0);
    proof {
        assert(header@.subrange(0, 4) =~= header@);
    }
    if !(MIN_PACKET_LEN <= l && l <= MAX_PACKET_LEN) {
        let n = i64_to_string(l as i64);
        return Err(RconError::UnexpectedResponse(concat("bad length ", n.as_str())));
    }
    Ok(l as usize)
}

/// Splits the bytes after the length field into request id, type and payload.
pub fn decode_body(rest: &[u8]) -> (r: (i32, i32, Vec<u8>))
    requires
        MIN_PACKET_LEN <= rest@.len() <= MAX_PACKET_LEN,
    ensures
        r.0 == from_le_i32(rest@),
        r.1 == from_le_i32(rest@.subrange(4, 8)),
        r.2@ == rest@.subrange(8, rest@.len() - 2),
{
    let id = read_le_i32(rest, 0);
    let ptype = read_le_i32(rest, 4);
    proof {
        assert(rest@.subrange(0, 4) =~= rest@.take(4));
    }
    let end = rest.len() - 2;
    let mut payload: Vec<u8> = Vec::new();
    let mut i: usize = 8;
    while i < end
        invariant
            8 <= i <= end,
            end == rest@.len() - 2,
            payload@ == rest@.subrange(8, i as int),
        decreases end - i,
    {
        payload.push(rest[i]);
        i += 1;
        assert(payload@ =~= rest@.subrange(8, i as int));
    }
    (id, ptype, payload)
}

/// Reading back what was written gives the id, type and payload that were
/// framed, for every payload whose length field stays within the 4096 bytes
/// a reader accepts.
pub proof fn lemma_frame_roundtrip(id: i32, ptype: i32, payload: Seq<u8>)
    requires
        payload.len() + 10 <= MAX_PACKET_LEN,
    ensures
        read_frame(packet_bytes(id, ptype, payload)) == Some((id, ptype, payload)),
{
    let l = packet_length(payload.len() as int);
    let p = packet_bytes(id, ptype, payload);
    lemma_le_i32_roundtrip(l as i32);
    lemma_le_i32_roundtrip(id);
    lemma_le_i32_roundtrip(ptype);
    assert(p.len() == 4 + l);
    assert(p.subrange(0, 4) =~= le_i32(l as i32));
    assert(from_le_i32(p) == from_le_i32(p.subrange(0, 4)));
    let rest = p.subrange(4, 4 + l);
    assert(rest.subrange(0, 4) =~= le_i32(id));
    assert(from_le_i32(rest) == from_le_i32(rest.subrange(0, 4)));
    assert(rest.subrange(4, 8) =~= le_i32(ptype));
    assert(rest.subrange(8, l - 2) =~= payload);
}

// ---------------------------------------------------------------------------
// Request ids
// ---------------------------------------------------------------------------

/// The ids a client hands out: they start at 1 and are never zero or
/// negative, since the server answers a refused login with id -1.
pub struct RequestIds {
    next_id: i32,
}

impl RequestIds {
    #[verifier::type_invariant]
    spec fn inv(&self) -> bool {
        self.next_id >= 1
    }

    pub closed spec fn next(&self) -> i32 {
        self.next_id
    }

    pub fn new() -> (r: RequestIds)
        ensures
            r.next() == 1,
    {
        RequestIds { next_id: 1 }
    }

    /// Hands out the next id; after `i32::MAX` the count starts again at 1.
    pub fn alloc_id(&mut self) -> (r: i32)
        ensures
            r == old(self).next(),
            r >= 1,
            final(self).next() == if old(self).next() == i32::MAX {
                1
            } else {
                old(self).next() + 1
            },
    {
        proof {
            use_type_invariant(&*self);
        }
        let id = self.next_id;
        if self.next_id == i32::MAX {
            self.next_id = 1;
        } else {
            self.next_id = self.next_id + 1;
        }
        id
    }
}

// ---------------------------------------------------------------------------
// Replies
// ---------------------------------------------------------------------------

/// What the client does with a packet read while it waits for its login
/// to be answered.
pub enum LoginStep {
    /// An empty response to something else: read the next packet.
    KeepReading,
    Done(Result<(), RconError>),
}

pub open spec fn login_mismatch_text(id: i32, rid: i32, ptype: i32) -> Seq<char> {
    "login: expected id "@ + int_decimal(id as int) + ", got "@ + int_decimal(rid as int)
        + " (type "@ + int_decimal(ptype as int) + ")"@
}

pub open spec fn exec_type_text(ptype: i32) -> Seq<char> {
    "exec: expected type RESPONSE, got "@ + int_decimal(ptype as int)
}

pub open spec fn exec_id_text(id: i32, rid: i32) -> Seq<char> {
    "exec: expected id "@ + int_decimal(id as int) + ", got "@ + int_decimal(rid as int)
}

fn cat(a: String, b: &str) -> (r: String)
    ensures
        r@ == a@ + b@,
{
    concat(a.as_str(), b)
}

/// The answer to a login sent with request id `id`, given one reply
/// `(rid, ptype)`: responses to other ids are skipped, id -1 means the
/// password was refused, our own id means success.
pub fn login_reply(id: i32, rid: i32, ptype: i32) -> (r: LoginStep)
    ensures
        ptype == PACKET_TYPE_RESPONSE && rid != id ==> r is KeepReading,
        !(ptype == PACKET_TYPE_RESPONSE && rid != id) ==> r is Done,
        !(ptype == PACKET_TYPE_RESPONSE && rid != id) && rid == -1 ==> (r matches LoginStep::Done(
            res,
        ) && res matches Err(RconError::AuthFailed)),
        !(ptype == PACKET_TYPE_RESPONSE && rid != id) && rid != -1 && rid == id ==> (r matches LoginStep::Done(res) && res is Ok),
        rid != -1 && rid != id ==> (ptype == PACKET_TYPE_RESPONSE || (r matches LoginStep::Done(res)
            && res matches Err(RconError::UnexpectedResponse(m)) && m@ == login_mismatch_text(
            id,
            rid,
            ptype,
        ))),
{
    if ptype == PACKET_TYPE_RESPONSE && rid != id {
        return LoginStep::KeepReading;
    }
    if rid == -1 {
        return LoginStep::Done(Err(RconError::AuthFailed));
    }
    if rid == id {
        return LoginStep::Done(Ok(()));
    }
    let a = concat("login: expected id ", i64_to_string(id as i64).as_str());
    let b = cat(a, ", got ");
    let c = cat(b, i64_to_string(rid as i64).as_str());
    let d = cat(c, " (type ");
    let e = cat(d, i64_to_string(ptype as i64).as_str());
    let m = cat(e, ")");
    LoginStep::Done(Err(RconError::UnexpectedResponse(m)))
}

/// `exec` refuses a command longer than `MAX_PAYLOAD` bytes.
pub fn check_command(cmd: &str) -> (r: Result<(), RconError>)
    ensures
        cmd.len() <= MAX_PAYLOAD ==> r is Ok,
        cmd.len() > MAX_PAYLOAD ==> (r matches Err(RconError::PacketTooLarge(n)) && n == cmd.len()),
{
    let n = cmd.len();
    if n > MAX_PAYLOAD {
        return Err(RconError::PacketTooLarge(n));
    }
    Ok(())
}

/// `String::from_utf8_lossy(bytes)`: invalid sequences become U+FFFD.
pub uninterp spec fn utf8_lossy(bytes: Seq<u8>) -> Seq<char>;

/// Decodes bytes with `String::from_utf8_lossy`.  Its result is named by
/// `utf8_lossy`; std documents that valid UTF-8 comes back unchanged.
#[verifier::external_body]
fn lossy_text(bytes: &[u8]) -> (r: String)
    ensures
        r@ == utf8_lossy(bytes@),
        valid_utf8(bytes@) ==> r@ == decode_utf8(bytes@),
{
    String::from_utf8_lossy(bytes).to_string()
}

/// The answer to a command sent with request id `id`, given the one reply
/// read for it.
pub fn exec_reply(id: i32, rid: i32, ptype: i32, payload: &[u8]) -> (r: Result<String, RconError>)
    ensures
        ptype != PACKET_TYPE_RESPONSE ==> (r matches Err(RconError::UnexpectedResponse(m)) && m@
            == exec_type_text(ptype)),
        ptype == PACKET_TYPE_RESPONSE && rid != id ==> (r matches Err(
            RconError::UnexpectedResponse(m),
        ) && m@ == exec_id_text(id, rid)),
        ptype == PACKET_TYPE_RESPONSE && rid == id ==> (r matches Ok(s) && s@ == utf8_lossy(
            payload@,
        ) && (valid_utf8(payload@) ==> s@ == decode_utf8(payload@))),
{
    if ptype != PACKET_TYPE_RESPONSE {
        let m = concat("exec: expected type RESPONSE, got ", i64_to_string(ptype as i64).as_str());
        return Err(RconError::UnexpectedResponse(m));
    }
    if rid != id {
        let a = concat("exec: expected id ", i64_to_string(id as i64).as_str());
        let b = cat(a, ", got ");
        let m = cat(b, i64_to_string(rid as i64).as_str());
        return Err(RconError::UnexpectedResponse(m));
    }
    Ok(lossy_text(payload))
}

} // verus!

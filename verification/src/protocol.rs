//! RCON packets and their wire format.
//!
//! A frame on the wire is a little-endian `i32` body length (which does not
//! count itself) followed by the body: the request id, the packet type, the
//! payload bytes and two zero bytes.

use vstd::prelude::*;
use vstd::utf8::{decode_utf8, encode_utf8, valid_utf8};

use crate::codec::{
    from_le, le_bytes, lemma_from_le_of_le_bytes, lemma_from_le_value, lemma_le_bytes_value,
    push_i32_le, read_i32_le,
};
use crate::error::{RconError, Result};
use crate::text::{decimal, push_decimal, push_signed_decimal, signed_decimal};

verus! {

/// Packet type of an authentication request.
pub const PACKET_TYPE_AUTH: i32 = 3;

/// Packet type of a command request.
pub const PACKET_TYPE_COMMAND: i32 = 2;

/// Maximum packet body size (4MB)
pub const MAX_PACKET_SIZE: i32 = 4_194_304;

/// Minimum packet body size (ID + type + null terminator = 10 bytes)
pub const MIN_PACKET_SIZE: i32 = 10;

/// The largest payload, in bytes, whose body length still fits an `i32`.
pub const MAX_PAYLOAD_LEN: usize = 2_147_483_637;

/// RCON packet structure
#[derive(Debug)]
pub struct Packet {
    pub id: i32,
    pub packet_type: i32,
    pub payload: String,
}

impl Clone for Packet {
    fn clone(&self) -> (p: Self)
        ensures
            p.id == self.id,
            p.packet_type == self.packet_type,
            p.payload@ == self.payload@,
    {
        Packet { id: self.id, packet_type: self.packet_type, payload: self.payload.clone() }
    }
}

/// The body of a packet: id, type, payload and the two-byte terminator.
pub open spec fn body_bytes(id: i32, packet_type: i32, payload: Seq<u8>) -> Seq<u8> {
    le_bytes(id) + le_bytes(packet_type) + payload + seq![0u8, 0u8]
}

/// A whole frame: the body length, then the body.
pub open spec fn frame_bytes(id: i32, packet_type: i32, payload: Seq<u8>) -> Seq<u8> {
    le_bytes((payload.len() + 10) as i32) + body_bytes(id, packet_type, payload)
}

/// The frame of a packet, its payload encoded as UTF-8.
pub open spec fn packet_frame(p: Packet) -> Seq<u8> {
    frame_bytes(p.id, p.packet_type, encode_utf8(p.payload@))
}

/// The id, type and raw payload bytes that a packet body holds, or `None`
/// when the body is shorter than the fixed part.
pub open spec fn parse_body(b: Seq<u8>) -> Option<(i32, i32, Seq<u8>)> {
    if b.len() < 10 {
        None
    } else {
        Some((from_le(b.subrange(0, 4)), from_le(b.subrange(4, 8)), b.subrange(8, b.len() - 2)))
    }
}

/// Whether a reader accepts a frame announcing a body of `n` bytes.
pub open spec fn body_length_accepted(n: i32) -> bool {
    MIN_PACKET_SIZE <= n <= MAX_PACKET_SIZE
}

/// The text that `String::from_utf8_lossy` makes of `bytes`.
pub uninterp spec fn utf8_lossy(bytes: Seq<u8>) -> Seq<char>;

/// Calls `String::from_utf8_lossy` and takes the text it gives.
/// Its contract claims that the result is a function of the bytes alone and
/// that, as std documents, valid UTF-8 comes back decoded unchanged; what
/// replaces invalid sequences is left unsaid.
#[verifier::external_body]
fn decode_lossy(bytes: &[u8]) -> (s: String)
    ensures
        s@ == utf8_lossy(bytes@),
        valid_utf8(bytes@) ==> s@ == decode_utf8(bytes@),
{
    String::from_utf8_lossy(bytes).into_owned()
}

impl Packet {
    /// Create an authentication packet
    pub fn auth(id: i32, password: &str) -> (p: Self)
        ensures
            p.id == id,
            p.packet_type == PACKET_TYPE_AUTH,
            p.packet_type == 3,
            p.payload@ == password@,
    {
        Packet { id, packet_type: PACKET_TYPE_AUTH, payload: password.to_owned() }
    }

    /// Create a command packet
    pub fn command(id: i32, command: &str) -> (p: Self)
        ensures
            p.id == id,
            p.packet_type == PACKET_TYPE_COMMAND,
            p.packet_type == 2,
            p.payload@ == command@,
    {
        Packet { id, packet_type: PACKET_TYPE_COMMAND, payload: command.to_owned() }
    }

    /// Encode packet to wire format (little-endian binary)
    pub fn encode(&self) -> (r: Result<Vec<u8>>)
        ensures
            r is Ok <==> encode_utf8(self.payload@).len() <= MAX_PAYLOAD_LEN,
            r is Ok <==> encode_utf8(self.payload@).len() + 10 <= i32::MAX,
            r matches Ok(v) ==> v@ == packet_frame(*self),
            r matches Ok(v) ==> {
                &&& v@.len() == encode_utf8(self.payload@).len() + 14
                &&& from_le(v@.subrange(0, 4)) == v@.len() - 4
                &&& from_le(v@.subrange(4, 8)) == self.id
                &&& from_le(v@.subrange(8, 12)) == self.packet_type
                &&& v@.subrange(12, v@.len() - 2) == encode_utf8(self.payload@)
                &&& v@[v@.len() - 2] == 0
                &&& v@[v@.len() - 1] == 0
            },
            r matches Err(e) ==> e matches RconError::InvalidPacket(m) && m@ == "Payload too large: "@
                + decimal(encode_utf8(self.payload@).len()) + " bytes"@,
    {
        let payload_bytes = self.payload.as_str().as_bytes();
        let len = payload_bytes.len();
        if len > MAX_PAYLOAD_LEN {
            let mut m = String::new();
            m.append("Payload too large: ");
            push_decimal(&mut m, len as u64);
            m.append(" bytes");
            return Err(RconError::InvalidPacket(m));
        }
        let body_length: i32 = (len + 10) as i32;
        let mut buffer: Vec<u8> = Vec::with_capacity(4 + body_length as usize);
        // Length field (excludes itself)
        push_i32_le(&mut buffer, body_length);
        // Request ID
        push_i32_le(&mut buffer, self.id);
        // Packet type
        push_i32_le(&mut buffer, self.packet_type);
        // Payload
        buffer.extend_from_slice(payload_bytes);
        // Null terminator (2 bytes)
        buffer.push(0);
        buffer.push(0);
        assert(buffer@ =~= packet_frame(*self));
        proof {
            let pb = encode_utf8(self.payload@);
            lemma_from_le_of_le_bytes(body_length);
            lemma_from_le_of_le_bytes(self.id);
            lemma_from_le_of_le_bytes(self.packet_type);
            assert(buffer@.subrange(0, 4) =~= le_bytes(body_length));
            assert(buffer@.subrange(4, 8) =~= le_bytes(self.id));
            assert(buffer@.subrange(8, 12) =~= le_bytes(self.packet_type));
            assert(buffer@.subrange(12, buffer@.len() - 2) =~= pb);
        }
        Ok(buffer)
    }
}

/// Parse a packet from raw bytes (after length header has been consumed)
pub fn parse_packet_buffer(buffer: &[u8]) -> (r: Result<Packet>)
    ensures
        r is Ok <==> buffer@.len() >= MIN_PACKET_SIZE,
        r is Ok <==> buffer@.len() >= 10,
        r matches Ok(p) ==> parse_body(buffer@) matches Some((id, packet_type, payload)) && p.id
            == id && p.packet_type == packet_type && p.payload@ == utf8_lossy(payload) && (
        valid_utf8(payload) ==> p.payload@ == decode_utf8(payload)),
        r matches Ok(p) ==> {
            &&& p.id == from_le(buffer@.subrange(0, 4))
            &&& p.packet_type == from_le(buffer@.subrange(4, 8))
            &&& p.payload@ == utf8_lossy(buffer@.subrange(8, buffer@.len() - 2))
        },
        r matches Err(e) ==> e matches RconError::InvalidPacket(m) && m@ == "Buffer too small: "@
            + decimal(buffer@.len()) + " bytes"@,
{
    if buffer.len() < 10 {
        let mut m = String::new();
        m.append("Buffer too small: ");
        push_decimal(&mut m, buffer.len() as u64);
        m.append(" bytes");
        return Err(RconError::InvalidPacket(m));
    }
    let id = read_i32_le(buffer, 0);
    let packet_type = read_i32_le(buffer, 4);
    // Payload is everything between header (8 bytes) and null terminator (2 bytes)
    let payload_end = buffer.len() - 2;
    let payload_bytes = &buffer[8..payload_end];
    let payload = decode_lossy(payload_bytes);
    Ok(Packet { id, packet_type, payload })
}

/// Validate the 4-byte length header of an incoming frame and give the
/// number of body bytes to read next.
pub fn body_length(header: [u8; 4]) -> (r: Result<usize>)
    ensures
        r is Ok <==> body_length_accepted(from_le(header@)),
        r is Ok <==> 10 <= from_le(header@) <= 4_194_304,
        r matches Ok(n) ==> n == from_le(header@),
        r matches Err(e) ==> e matches RconError::InvalidPacket(m) && (if from_le(header@)
            < MIN_PACKET_SIZE {
            m@ == "Packet body too small: "@ + signed_decimal(from_le(header@) as int)
                + " bytes (minimum 10)"@
        } else {
            m@ == "Packet body too large: "@ + signed_decimal(from_le(header@) as int)
                + " bytes (maximum 4194304)"@
        }),
{
    let length = read_i32_le(header.as_slice(), 0);
    assert(header@.subrange(0, 4) =~= header@);
    if length < MIN_PACKET_SIZE {
        let mut m = String::new();
        m.append("Packet body too small: ");
        push_signed_decimal(&mut m, length as i64);
        m.append(" bytes (minimum 10)");
        return Err(RconError::InvalidPacket(m));
    }
    if length > MAX_PACKET_SIZE {
        let mut m = String::new();
        m.append("Packet body too large: ");
        push_signed_decimal(&mut m, length as i64);
        m.append(" bytes (maximum 4194304)");
        return Err(RconError::InvalidPacket(m));
    }
    Ok(length as usize)
}

/// A reader accepts exactly the announced body lengths from 10 bytes (id,
/// type and terminator) to 4 MiB.
pub proof fn lemma_body_length_accepted(n: i32)
    ensures
        body_length_accepted(n) <==> 10 <= n <= 4_194_304,
        MIN_PACKET_SIZE == 10,
        MAX_PACKET_SIZE == 4_194_304,
        MAX_PAYLOAD_LEN + 10 == i32::MAX,
{
}

/// The layout of every frame, stated on its bytes: 14 bytes plus the
/// payload; the first four hold the body length (the frame less those four
/// bytes), the next four the id and the next four the type, each as a
/// little-endian two's complement value; then come the payload bytes
/// unchanged and two zero bytes, whatever the id, type or payload.
pub proof fn lemma_frame_layout(id: i32, packet_type: i32, payload: Seq<u8>)
    requires
        payload.len() <= MAX_PAYLOAD_LEN,
    ensures
        ({
            let f = frame_bytes(id, packet_type, payload);
            let n = payload.len() as int;
            &&& f.len() == n + 14
            &&& f[0] as int + 256 * (f[1] as int) + 65536 * (f[2] as int) + 16777216 * (f[3] as int)
                == n + 10
            &&& f[4] as int + 256 * (f[5] as int) + 65536 * (f[6] as int) + 16777216 * (f[7] as int)
                == (if id < 0 {
                id + 0x1_0000_0000
            } else {
                id as int
            })
            &&& f[8] as int + 256 * (f[9] as int) + 65536 * (f[10] as int) + 16777216 * (
            f[11] as int) == (if packet_type < 0 {
                packet_type + 0x1_0000_0000
            } else {
                packet_type as int
            })
            &&& f.subrange(12, n + 12) == payload
            &&& f[n + 12] == 0
            &&& f[n + 13] == 0
        }),
{
    let n = (payload.len() + 10) as i32;
    let f = frame_bytes(id, packet_type, payload);
    lemma_le_bytes_value(n);
    lemma_le_bytes_value(id);
    lemma_le_bytes_value(packet_type);
    assert(f.subrange(0, 4) =~= le_bytes(n));
    assert(f.subrange(4, 8) =~= le_bytes(id));
    assert(f.subrange(8, 12) =~= le_bytes(packet_type));
    assert(f.subrange(12, payload.len() + 12int) =~= payload);
}

/// What any received body holds, stated on its bytes: bodies under 10 bytes
/// hold nothing; otherwise the id is the little-endian two's complement value
/// of bytes 0..4, the type that of bytes 4..8, and the payload is exactly
/// bytes 8..len-2, whatever the last two bytes, the type or the length.
pub proof fn lemma_parse_body_fields(b: Seq<u8>)
    ensures
        b.len() < 10 <==> parse_body(b) is None,
        b.len() >= 10 ==> (parse_body(b) matches Some((id, packet_type, payload)) && ({
            let i = b[0] as int + 256 * (b[1] as int) + 65536 * (b[2] as int) + 16777216 * (
            b[3] as int);
            let t = b[4] as int + 256 * (b[5] as int) + 65536 * (b[6] as int) + 16777216 * (
            b[7] as int);
            &&& id as int == (if i >= 0x8000_0000 {
                i - 0x1_0000_0000
            } else {
                i
            })
            &&& packet_type as int == (if t >= 0x8000_0000 {
                t - 0x1_0000_0000
            } else {
                t
            })
            &&& payload == b.subrange(8, b.len() - 2)
            &&& payload.len() == b.len() - 10
        })),
{
    if b.len() >= 10 {
        let h = b.subrange(0, 4);
        let k = b.subrange(4, 8);
        lemma_from_le_value(h);
        lemma_from_le_value(k);
        assert(h[0] == b[0] && h[1] == b[1] && h[2] == b[2] && h[3] == b[3]);
        assert(k[0] == b[4] && k[1] == b[5] && k[2] == b[6] && k[3] == b[7]);
    }
}

/// Parsing the body of an encoded frame gives back the id, the type and the
/// payload bytes; the frame is four bytes longer than its body and its length
/// field announces exactly that body.
pub proof fn lemma_frame_roundtrip(id: i32, packet_type: i32, payload: Seq<u8>)
    requires
        payload.len() <= MAX_PAYLOAD_LEN,
    ensures
        frame_bytes(id, packet_type, payload).len() == payload.len() + 14,
        from_le(frame_bytes(id, packet_type, payload).subrange(0, 4)) == payload.len() + 10,
        parse_body(frame_bytes(id, packet_type, payload).subrange(
            4,
            payload.len() + 14int,
        )) == Some((id, packet_type, payload)),
{
    let n = (payload.len() + 10) as i32;
    let f = frame_bytes(id, packet_type, payload);
    let b = body_bytes(id, packet_type, payload);
    lemma_from_le_of_le_bytes(n);
    lemma_from_le_of_le_bytes(id);
    lemma_from_le_of_le_bytes(packet_type);
    assert(f.subrange(0, 4) =~= le_bytes(n));
    assert(f.subrange(4, payload.len() + 14int) =~= b);
    assert(b.subrange(0, 4) =~= le_bytes(id));
    assert(b.subrange(4, 8) =~= le_bytes(packet_type));
    assert(b.subrange(8, b.len() - 2) =~= payload);
}

/// A packet survives the trip through the wire: the body of its frame parses
/// back to its id, its type and the UTF-8 bytes of its payload, which decode
/// to the payload; and a reader accepts the frame's length field whenever the
/// body is within the size limit.
pub proof fn lemma_packet_roundtrip(p: Packet)
    requires
        encode_utf8(p.payload@).len() <= MAX_PAYLOAD_LEN,
    ensures
        ({
            let f = packet_frame(p);
            &&& parse_body(f.subrange(4, f.len() as int)) matches Some((id, packet_type, payload))
            &&& id == p.id
            &&& packet_type == p.packet_type
            &&& valid_utf8(payload)
            &&& decode_utf8(payload) == p.payload@
            &&& from_le(f.subrange(0, 4)) == f.len() - 4
            &&& body_length_accepted(from_le(f.subrange(0, 4))) <==> f.len() - 4 <= MAX_PACKET_SIZE
        }),
{
    let bytes = encode_utf8(p.payload@);
    lemma_frame_roundtrip(p.id, p.packet_type, bytes);
    vstd::utf8::encode_utf8_valid_utf8(p.payload@);
    vstd::utf8::encode_utf8_decode_utf8(p.payload@);
}

} // verus!

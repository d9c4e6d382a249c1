//! The RCON wire format: packet types, packets, their byte encoding and
//! decoding, and the client-side protocol decisions (packet ids, the
//! authentication handshake).
use vstd::prelude::*;
use vstd::utf8::*;

verus! {

broadcast use {encode_utf8_valid_utf8, encode_utf8_decode_utf8, decode_utf8_encode_utf8};

/// Id of the first packet a connection sends.
pub const INITIAL_PACKET_ID: i32 = 1;

/// Kind of an RCON packet.
#[derive(Clone, Copy, Debug, PartialEq, Eq, Structural)]
pub enum PacketType {
    Auth,
    AuthResponse,
    ExecCommand,
    ResponseValue,
    Unknown(i32),
}

impl PacketType {
    /// The number that stands for this type on the wire.
    pub open spec fn spec_to_i32(self) -> i32 {
        match self {
            PacketType::Auth => 3,
            PacketType::AuthResponse => 2,
            PacketType::ExecCommand => 2,
            PacketType::ResponseValue => 0,
            PacketType::Unknown(n) => n,
        }
    }

    /// The type a wire number stands for; 2 is `AuthResponse` in a response and
    /// `ExecCommand` otherwise.
    pub open spec fn spec_from_i32(n: i32, is_response: bool) -> PacketType {
        if n == 3 {
            PacketType::Auth
        } else if n == 2 && is_response {
            PacketType::AuthResponse
        } else if n == 2 {
            PacketType::ExecCommand
        } else if n == 0 {
            PacketType::ResponseValue
        } else {
            PacketType::Unknown(n)
        }
    }

    pub fn to_i32(self) -> (n: i32)
        ensures
            n == self.spec_to_i32(),
    {
        match self {
            PacketType::Auth => 3,
            PacketType::AuthResponse => 2,
            PacketType::ExecCommand => 2,
            PacketType::ResponseValue => 0,
            PacketType::Unknown(n) => n,
        }
    }

    pub fn from_i32(n: i32, is_response: bool) -> (t: PacketType)
        ensures
            t == Self::spec_from_i32(n, is_response),
    {
        if n == 3 {
            PacketType::Auth
        } else if n == 2 && is_response {
            PacketType::AuthResponse
        } else if n == 2 {
            PacketType::ExecCommand
        } else if n == 0 {
            PacketType::ResponseValue
        } else {
            PacketType::Unknown(n)
        }
    }
}

/// What a packet holds, as plain values.
pub struct PacketView {
    /// The length field: the bytes that follow it on the wire.
    pub length: i32,
    pub id: i32,
    pub ptype: PacketType,
    pub body: Seq<char>,
}

/// The length field that a packet with this body carries: id, type, body
/// bytes and the two terminating nul bytes.
pub open spec fn length_for_body(body: Seq<char>) -> int {
    10 + encode_utf8(body).len() as int
}

/// A packet is well formed when its length field counts its body.
pub open spec fn packet_wf(p: PacketView) -> bool {
    p.length as int == length_for_body(p.body)
}

/// One RCON packet.
pub struct Packet {
    length: i32,
    id: i32,
    ptype: PacketType,
    body: String,
}

impl View for Packet {
    type V = PacketView;

    closed spec fn view(&self) -> PacketView {
        PacketView { length: self.length, id: self.id, ptype: self.ptype, body: self.body@ }
    }
}

/// The four little-endian bytes of `x`.
pub open spec fn le_bytes(x: i32) -> Seq<u8> {
    let u = x as u32;
    seq![(u & 0xff) as u8, ((u >> 8) & 0xff) as u8, ((u >> 16) & 0xff) as u8, ((u >> 24) & 0xff) as u8]
}

/// The `i32` whose little-endian bytes are `b[0..4]`.
pub open spec fn i32_from_le(b: Seq<u8>) -> i32 {
    ((b[0] as u32) | ((b[1] as u32) << 8) | ((b[2] as u32) << 16) | ((b[3] as u32) << 24)) as i32
}

/// The bytes a packet is sent as.
pub open spec fn encode_packet(p: PacketView) -> Seq<u8> {
    le_bytes(p.length) + le_bytes(p.id) + le_bytes(p.ptype.spec_to_i32()) + encode_utf8(p.body)
        + seq![0u8, 0u8]
}

/// Why reading a packet failed.
#[derive(Clone, Copy, Debug, PartialEq, Eq, Structural)]
pub enum ReadError {
    /// The input ended before the packet did.
    UnexpectedEof,
    /// The body is not valid UTF-8.
    InvalidData,
}

/// The length field of the buffer is one that reading accepts: at least 10
/// whenever the header is there.
pub open spec fn length_field_ok(buf: Seq<u8>) -> bool {
    buf.len() >= 12 ==> i32_from_le(buf) >= 10
}

/// What reading a packet from the front of `buf` gives: the packet and the
/// number of bytes it took, or the error.
pub open spec fn decode_packet(buf: Seq<u8>) -> Result<(PacketView, int), ReadError> {
    if buf.len() < 12 {
        Err(ReadError::UnexpectedEof)
    } else {
        let length = i32_from_le(buf);
        let id = i32_from_le(buf.subrange(4, 8));
        let ptype = i32_from_le(buf.subrange(8, 12));
        let body_length = length - 10;
        let available = if body_length <= buf.len() - 12 { body_length } else { buf.len() - 12 };
        let body_bytes = buf.subrange(12, 12 + available);
        if !valid_utf8(body_bytes) {
            Err(ReadError::InvalidData)
        } else if buf.len() < 14 + body_length {
            Err(ReadError::UnexpectedEof)
        } else {
            Ok(
                (
                    PacketView {
                        length,
                        id,
                        ptype: PacketType::spec_from_i32(ptype, true),
                        body: decode_utf8(body_bytes),
                    },
                    14 + body_length,
                ),
            )
        }
    }
}

proof fn lemma_le_roundtrip(x: i32)
    ensures
        i32_from_le(le_bytes(x)) == x,
{
    let u = x as u32;
    assert(((((u & 0xff) as u8) as u32) | ((((u >> 8) & 0xff) as u8) as u32) << 8 | ((((u >> 16)
        & 0xff) as u8) as u32) << 16 | ((((u >> 24) & 0xff) as u8) as u32) << 24) == u)
        by (bit_vector);
    assert((x as u32) as i32 == x) by (bit_vector);
}

/// Encodes `x` as four little-endian bytes appended to `buf`.
fn push_le_bytes(buf: &mut Vec<u8>, x: i32)
    ensures
        final(buf)@ == old(buf)@ + le_bytes(x),
{
    let u = x as u32;
    buf.push((u & 0xff) as u8);
    buf.push(((u >> 8) & 0xff) as u8);
    buf.push(((u >> 16) & 0xff) as u8);
    buf.push(((u >> 24) & 0xff) as u8);
    assert(buf@ =~= old(buf)@ + le_bytes(x));
}

/// Reads the little-endian `i32` at `buf[at..at + 4]`.
fn read_le_i32(buf: &[u8], at: usize) -> (x: i32)
    requires
        at + 4 <= buf@.len(),
    ensures
        x == i32_from_le(buf@.subrange(at as int, at + 4)),
{
    let u = (buf[at] as u32) | ((buf[at + 1] as u32) << 8) | ((buf[at + 2] as u32) << 16) | ((
    buf[at + 3] as u32) << 24);
    u as i32
}

/// Turns bytes into a `String` (std's `String::from_utf8`): `None` exactly
/// when they are not valid UTF-8.
#[verifier::external_body]
fn string_from_utf8(bytes: Vec<u8>) -> (r: Option<String>)
    ensures
        r is Some <==> valid_utf8(bytes@),
        r matches Some(s) ==> s@ == decode_utf8(bytes@),
{
    String::from_utf8(bytes).ok()
}

impl Packet {
    /// A packet with the given id, type and body; its length field counts the
    /// body's UTF-8 bytes.
    pub fn new(id: i32, ptype: PacketType, body: String) -> (p: Packet)
        requires
            length_for_body(body@) <= i32::MAX,
        ensures
            p@ == (PacketView { length: length_for_body(body@) as i32, id, ptype, body: body@ }),
            packet_wf(p@),
    {
        let n = body.as_str().len();
        Packet { length: 10 + n as i32, id, ptype, body }
    }

    /// The server signals a refused authentication with a negative id.
    pub fn is_error(&self) -> (r: bool)
        ensures
            r == (self@.id < 0),
    {
        self.id < 0
    }

    pub fn get_body(&self) -> (r: &str)
        ensures
            r@ == self@.body,
    {
        self.body.as_str()
    }

    pub fn get_type(&self) -> (r: PacketType)
        ensures
            r == self@.ptype,
    {
        self.ptype
    }

    pub fn get_id(&self) -> (r: i32)
        ensures
            r == self@.id,
    {
        self.id
    }

    /// The length field.
    pub fn get_length(&self) -> (r: i32)
        ensures
            r == self@.length,
    {
        self.length
    }

    /// The bytes this packet is sent as, in one buffer: length, id and type as
    /// little-endian `i32`, the body's UTF-8 bytes, then two nul bytes.
    pub fn serialize(&self) -> (buf: Vec<u8>)
        ensures
            buf@ == encode_packet(self@),
    {
        let mut buf: Vec<u8> = Vec::new();
        push_le_bytes(&mut buf, self.length);
        push_le_bytes(&mut buf, self.id);
        push_le_bytes(&mut buf, self.ptype.to_i32());
        let ghost head = buf@;
        let bytes = self.body.as_str().as_bytes();
        let mut i: usize = 0;
        while i < bytes.len()
            invariant
                i <= bytes@.len(),
                bytes@ == encode_utf8(self.body@),
                buf@ == head + bytes@.take(i as int),
            decreases bytes@.len() - i,
        {
            buf.push(bytes[i]);
            i = i + 1;
            assert(buf@ =~= head + bytes@.take(i as int));
        }
        assert(bytes@.take(bytes@.len() as int) =~= bytes@);
        buf.push(0u8);
        buf.push(0u8);
        assert(buf@ =~= encode_packet(self@));
        buf
    }

    /// Reads one packet from the front of `buf`, returning it with the number
    /// of bytes it took. The two terminating bytes are taken but not checked.
    pub fn deserialize(buf: &[u8]) -> (r: Result<(Packet, usize), ReadError>)
        requires
            length_field_ok(buf@),
        ensures
            match r {
                Ok((p, n)) => decode_packet(buf@) == Ok::<(PacketView, int), ReadError>((p@, n as int)) && packet_wf(p@),
                Err(e) => decode_packet(buf@) == Err::<(PacketView, int), ReadError>(e),
            },
    {
        if buf.len() < 12 {
            return Err(ReadError::UnexpectedEof);
        }
        let length = read_le_i32(buf, 0);
        let id = read_le_i32(buf, 4);
        let ptype = read_le_i32(buf, 8);
        assert(buf@.subrange(0, 4) =~= buf@.subrange(0, 4));
        assert(length == i32_from_le(buf@));
        let body_length = (length - 10) as usize;
        let available = if body_length <= buf.len() - 12 { body_length } else { buf.len() - 12 };
        let mut body_bytes: Vec<u8> = Vec::new();
        let mut i: usize = 0;
        while i < available
            invariant
                i <= available,
                12 + available <= buf.len(),
                body_bytes@ == buf@.subrange(12, 12 + i),
            decreases available - i,
        {
            body_bytes.push(buf[12 + i]);
            i = i + 1;
            assert(body_bytes@ =~= buf@.subrange(12, 12 + i));
        }
        let ghost bytes = body_bytes@;
        match string_from_utf8(body_bytes) {
            None => Err(ReadError::InvalidData),
            Some(body) => {
                if buf.len() - 12 - available < 2 || available < body_length {
                    Err(ReadError::UnexpectedEof)
                } else {
                    proof {
                        decode_utf8_encode_utf8(bytes);
                    }
                    let p = Packet {
                        length,
                        id,
                        ptype: PacketType::from_i32(ptype, true),
                        body,
                    };
                    Ok((p, 14 + body_length))
                }
            },
        }
    }
}

/// Errors of the RCON client.
#[derive(Clone, Copy, Debug, PartialEq, Eq, Structural)]
pub enum Error {
    /// The server refused the password.
    Auth,
    /// The command does not fit in a packet.
    CommandTooLong,
    /// Reading or writing the stream failed.
    Io(ReadError),
}

/// The client side of an RCON connection, apart from the stream itself: the
/// id that the next packet gets.
pub struct Connection {
    next_packet_id: i32,
}

/// What the authentication handshake does with a packet it receives.
#[derive(Clone, Copy, Debug, PartialEq, Eq, Structural)]
pub enum AuthStep {
    /// Not the answer to the authentication: read the next packet.
    KeepWaiting,
    /// The server accepted the password.
    Authenticated,
    /// The server refused the password (`Error::Auth`).
    Refused,
}

/// The id that follows `id`: ids count up from 1 and start over at 1 after
/// `i32::MAX`, so that they are always positive (the server answers a refused
/// authentication with a negative id).
pub open spec fn next_id_after(id: i32) -> i32 {
    if id == i32::MAX {
        INITIAL_PACKET_ID
    } else {
        (id + 1) as i32
    }
}

impl Connection {
    #[verifier::type_invariant]
    spec fn inv(self) -> bool {
        self.next_packet_id >= 1
    }

    /// The id the next packet will get.
    pub closed spec fn next_id(&self) -> i32 {
        self.next_packet_id
    }

    /// A fresh connection; its first packet gets id 1.
    pub fn new() -> (c: Connection)
        ensures
            c.next_id() == INITIAL_PACKET_ID,
    {
        Connection { next_packet_id: INITIAL_PACKET_ID }
    }

    /// Hands out the next packet id.
    pub fn generate_packet_id(&mut self) -> (id: i32)
        ensures
            id == old(self).next_id(),
            id >= 1,
            final(self).next_id() == next_id_after(id),
    {
        proof {
            use_type_invariant(&*self);
        }
        let id = self.next_packet_id;
        self.next_packet_id = match self.next_packet_id.checked_add(1) {
            Some(n) => n,
            None => INITIAL_PACKET_ID,
        };
        id
    }

    /// The packet that sends `body` with type `ptype`, under a fresh id; returns
    /// the id and the bytes to write.
    pub fn send(&mut self, ptype: PacketType, body: &str) -> (r: (i32, Vec<u8>))
        requires
            length_for_body(body@) <= i32::MAX,
        ensures
            r.0 == old(self).next_id(),
            r.0 >= 1,
            final(self).next_id() == next_id_after(r.0),
            r.1@ == encode_packet(
                PacketView { length: length_for_body(body@) as i32, id: r.0, ptype, body: body@ },
            ),
    {
        let id = self.generate_packet_id();
        let packet = Packet::new(id, ptype, body.to_owned());
        (id, packet.serialize())
    }

    /// The authentication request that starts the handshake.
    pub fn auth_request(&mut self, password: &str) -> (r: (i32, Vec<u8>))
        requires
            length_for_body(password@) <= i32::MAX,
        ensures
            r.0 == old(self).next_id(),
            final(self).next_id() == next_id_after(r.0),
            r.1@ == encode_packet(
                PacketView {
                    length: length_for_body(password@) as i32,
                    id: r.0,
                    ptype: PacketType::Auth,
                    body: password@,
                },
            ),
    {
        self.send(PacketType::Auth, password)
    }

    /// What the handshake does with a received packet: it waits for the
    /// `AuthResponse`, and fails when that answer carries a negative id.
    pub fn auth_step(received: &Packet) -> (step: AuthStep)
        ensures
            step == (if received@.ptype == PacketType::AuthResponse {
                if received@.id < 0 {
                    AuthStep::Refused
                } else {
                    AuthStep::Authenticated
                }
            } else {
                AuthStep::KeepWaiting
            }),
    {
        if received.get_type() == PacketType::AuthResponse {
            if received.is_error() {
                AuthStep::Refused
            } else {
                AuthStep::Authenticated
            }
        } else {
            AuthStep::KeepWaiting
        }
    }

    /// The answer to a command: the id it was sent under and the body of the
    /// packet that came back.
    pub fn command_response(packet_id: i32, received: &Packet) -> (r: (i32, String))
        ensures
            r.0 == packet_id,
            r.1@ == received@.body,
    {
        (packet_id, received.get_body().to_owned())
    }
}

/// Reading back what a packet is sent as gives the packet again, with its
/// type read as a response type (the wire number 2 reads as
/// `AuthResponse`), and takes all of its bytes.
pub proof fn lemma_encode_decode_roundtrip(p: PacketView)
    requires
        packet_wf(p),
    ensures
        decode_packet(encode_packet(p)) == Ok::<(PacketView, int), ReadError>(
            (
                PacketView {
                    length: p.length,
                    id: p.id,
                    ptype: PacketType::spec_from_i32(p.ptype.spec_to_i32(), true),
                    body: p.body,
                },
                encode_packet(p).len() as int,
            ),
        ),
{
    let buf = encode_packet(p);
    let body = encode_utf8(p.body);
    lemma_le_roundtrip(p.length);
    lemma_le_roundtrip(p.id);
    lemma_le_roundtrip(p.ptype.spec_to_i32());
    assert(buf.subrange(0, 4) =~= le_bytes(p.length));
    assert(buf.subrange(4, 8) =~= le_bytes(p.id));
    assert(buf.subrange(8, 12) =~= le_bytes(p.ptype.spec_to_i32()));
    assert(i32_from_le(buf) == i32_from_le(buf.subrange(0, 4)));
    assert(buf.subrange(12, 12 + body.len() as int) =~= body);
}

/// Packet types other than `ExecCommand` survive the trip over the wire.
pub proof fn lemma_encode_decode_same_packet(p: PacketView)
    requires
        packet_wf(p),
        p.ptype != PacketType::ExecCommand,
        !(p.ptype matches PacketType::Unknown(n) && (n == 0 || n == 2 || n == 3)),
    ensures
        decode_packet(encode_packet(p)) == Ok::<(PacketView, int), ReadError>((p, encode_packet(p).len() as int)),
{
    lemma_encode_decode_roundtrip(p);
}

} // verus!

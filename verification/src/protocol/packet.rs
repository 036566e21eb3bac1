//! The packets of the Server List Ping and how they are framed.

use crate::protocol::error::{Error, Field};
use crate::protocol::fixed::{self, write_u16, write_u64};
use crate::protocol::incremental;
use crate::protocol::reader::{Input, Reader};
use crate::protocol::state::State;
use crate::protocol::varint::{self, write_varint};
use vstd::prelude::*;
use vstd::slice::slice_to_vec;
use vstd::utf8::*;

verus! {

/// Packets are network packets that are part of the protocol definition and identified by a context and ID.
pub trait Packet {
    /// The defined ID of this network packet.
    spec fn packet_id() -> usize;

    /// Returns the defined ID of this network packet.
    fn get_packet_id() -> (id: usize)
        ensures
            id == Self::packet_id(),
    ;
}

/// `OutboundPacket`s are packets that are written and therefore have a fixed, specific packet ID.
pub trait OutboundPacket: Packet {
    /// The bytes that carry the data of this packet.
    spec fn body(&self) -> Seq<u8>;

    /// Writes the data from this packet into the supplied buffer.
    fn write_to_buffer(&self, buffer: &mut Vec<u8>)
        ensures
            final(buffer)@ == old(buffer)@ + self.body(),
    ;
}

/// `InboundPacket`s are packets that are read and therefore are expected to be of a specific packet ID.
pub trait InboundPacket: Packet + View + Sized {
    /// Reading the data of this packet: what it holds, and what is left behind it.
    spec fn parse(input: Input) -> (Result<Self::V, Error>, Input);

    /// Reading the data works with the bytes as they arrive.
    proof fn law_parse_is_incremental(input: Input, more: Seq<u8>)
        ensures
            incremental::incremental(input, Self::parse(input), more, Self::parse(input.extend(more))),
    ;

    /// Creates a new instance of this packet with the data from the buffer.
    fn new_from_buffer(buffer: &mut Reader) -> (packet: Result<Self, Error>)
        ensures
            final(buffer)@ == Self::parse(old(buffer)@).1,
            match packet {
                Ok(packet) => Self::parse(old(buffer)@).0 == Ok::<Self::V, Error>(packet@),
                Err(error) => Self::parse(old(buffer)@).0 == Err::<Self::V, Error>(error),
            },
    ;
}

/// The bytes of a text: the number of its UTF-8 bytes as a `VarInt`, then these bytes.
pub open spec fn text_bytes(text: Seq<char>) -> Seq<u8> {
    varint::varint_bytes(varint::low32(encode_utf8(text).len() as int)) + encode_utf8(text)
}

/// The bytes of a packet: the number of the bytes that follow, the ID, and the data.
pub open spec fn frame(id: usize, body: Seq<u8>) -> Seq<u8> {
    let inner = varint::varint_bytes(varint::low32(id as int)) + body;
    varint::varint_bytes(varint::low32(inner.len() as int)) + inner
}

/// Appends the bytes of a text to the buffer.
pub fn write_string(buffer: &mut Vec<u8>, string: &str)
    ensures
        final(buffer)@ == old(buffer)@ + text_bytes(string@),
{
    let mut bytes = slice_to_vec(string.as_bytes());
    write_varint(buffer, bytes.len());
    buffer.append(&mut bytes);
}

/// Appends the bytes of a packet to the buffer.
pub fn write_packet<T: OutboundPacket>(buffer: &mut Vec<u8>, packet: T)
    ensures
        final(buffer)@ == old(buffer)@ + frame(T::packet_id(), packet.body()),
{
    // write the packet onto a new buffer (to get the size)
    let mut inner: Vec<u8> = Vec::new();
    write_varint(&mut inner, T::get_packet_id());
    packet.write_to_buffer(&mut inner);

    // write the length of the content (length frame encoder) and then the packet
    write_varint(buffer, inner.len());
    buffer.append(&mut inner);
}

/// Reinterpreting a signed number as an unsigned one keeps its low 32 bits.
proof fn lemma_low32_of_isize(n: isize)
    ensures
        varint::low32((n as usize) as int) == varint::low32(n as int),
{
    let wide = n as i64;
    assert((n as usize) as u64 % 0x1_0000_0000 == (wide as u64) % 0x1_0000_0000) by (bit_vector)
        requires
            wide == n,
    ;
    assert(wide >= 0 ==> wide as u64 == wide) by (bit_vector);
    assert(wide < 0 ==> wide as u64 == wide + 0x1_0000_0000_0000_0000) by (bit_vector);
}

/// This packet initiates the status request attempt and tells the server the details of the client.
///
/// The data in this packet can differ from the actual data that was used but will be considered by the server when
/// assembling the response. Therefore, this data should mirror what a normal client would send.
#[derive(Debug)]
pub struct HandshakePacket {
    /// The pretended protocol version.
    pub protocol_version: isize,
    /// The pretended server address.
    pub server_address: String,
    /// The pretended server port.
    pub server_port: u16,
    /// The protocol state to initiate.
    pub next_state: State,
}

impl HandshakePacket {
    /// Creates a new [`HandshakePacket`] with the supplied client information.
    pub fn new(protocol_version: isize, server_address: String, server_port: u16) -> (packet: Self)
        ensures
            packet == (HandshakePacket {
                protocol_version,
                server_address,
                server_port,
                next_state: State::Status,
            }),
    {
        HandshakePacket { protocol_version, server_address, server_port, next_state: State::Status }
    }
}

impl Packet for HandshakePacket {
    open spec fn packet_id() -> usize {
        0x00
    }

    fn get_packet_id() -> usize {
        0x00
    }
}

impl OutboundPacket for HandshakePacket {
    open spec fn body(&self) -> Seq<u8> {
        varint::varint_bytes(varint::low32(self.protocol_version as int)) + text_bytes(
            self.server_address@,
        ) + fixed::be_bytes(self.server_port as nat, 2) + varint::varint_bytes(
            varint::low32(self.next_state.number() as int),
        )
    }

    fn write_to_buffer(&self, buffer: &mut Vec<u8>) {
        proof {
            lemma_low32_of_isize(self.protocol_version);
        }
        write_varint(buffer, self.protocol_version as usize);
        write_string(buffer, self.server_address.as_str());
        write_u16(buffer, self.server_port);
        write_varint(buffer, usize::from(self.next_state));
    }
}

/// This packet will be sent after the [`HandshakePacket`] and requests the server metadata.
///
/// The packet can only be sent after the [`HandshakePacket`] and must be written before any status information can be
/// read, as this is the differentiator between the status and the ping sequence.
#[derive(Debug)]
pub struct StatusRequestPacket;

impl StatusRequestPacket {
    /// Creates a new [`StatusRequestPacket`].
    pub fn new() -> (packet: Self)
        ensures
            packet == StatusRequestPacket,
    {
        StatusRequestPacket
    }
}

impl Packet for StatusRequestPacket {
    open spec fn packet_id() -> usize {
        0x00
    }

    fn get_packet_id() -> usize {
        0x00
    }
}

impl OutboundPacket for StatusRequestPacket {
    open spec fn body(&self) -> Seq<u8> {
        Seq::empty()
    }

    fn write_to_buffer(&self, buffer: &mut Vec<u8>) {
        proof {
            assert(buffer@ + Seq::<u8>::empty() == buffer@);
        }
    }
}

/// This is the response for a specific [`StatusRequestPacket`] that contains all self-reported metadata.
///
/// This packet can be received only after a [`StatusRequestPacket`] and will not close the connection, allowing for a
/// ping sequence to be exchanged afterward.
#[derive(Debug)]
pub struct StatusResponsePacket {
    /// The JSON response body that contains all self-reported server metadata.
    pub body: String,
}

impl View for StatusResponsePacket {
    type V = Seq<char>;

    open spec fn view(&self) -> Seq<char> {
        self.body@
    }
}

impl Packet for StatusResponsePacket {
    open spec fn packet_id() -> usize {
        0x00
    }

    fn get_packet_id() -> usize {
        0x00
    }
}

impl InboundPacket for StatusResponsePacket {
    open spec fn parse(input: Input) -> (Result<Seq<char>, Error>, Input) {
        input.text()
    }

    proof fn law_parse_is_incremental(input: Input, more: Seq<u8>) {
        incremental::lemma_text_is_incremental(input, more);
    }

    fn new_from_buffer(buffer: &mut Reader) -> (packet: Result<Self, Error>) {
        match buffer.read_string() {
            Ok(body) => Ok(StatusResponsePacket { body }),
            Err(error) => Err(error),
        }
    }
}

/// This is the request for a specific [`PongPacket`] that can be used to measure the server ping.
///
/// This packet can be sent after a connection was established or the [`StatusResponsePacket`] was received. Initiating
/// the ping sequence will consume the connection after the [`PongPacket`] was received.
#[derive(Debug)]
pub struct PingPacket {
    /// The arbitrary payload that will be returned from the server (to identify the corresponding request).
    pub payload: u64,
}

impl PingPacket {
    /// Creates a new [`PingPacket`] with the supplied payload.
    pub fn new(payload: u64) -> (packet: Self)
        ensures
            packet == (PingPacket { payload }),
    {
        PingPacket { payload }
    }
}

impl Packet for PingPacket {
    open spec fn packet_id() -> usize {
        0x01
    }

    fn get_packet_id() -> usize {
        0x01
    }
}

impl OutboundPacket for PingPacket {
    open spec fn body(&self) -> Seq<u8> {
        fixed::be_bytes(self.payload as nat, 8)
    }

    fn write_to_buffer(&self, buffer: &mut Vec<u8>) {
        write_u64(buffer, self.payload);
    }
}

/// This is the response to a specific [`PingPacket`] that can be used to measure the server ping.
///
/// This packet can be received after a corresponding [`PingPacket`] and will have the same payload as the request. This
/// also consumes the connection, ending the Server List Ping sequence.
#[derive(Debug)]
pub struct PongPacket {
    /// The arbitrary payload that was sent from the client (to identify the corresponding response).
    pub payload: u64,
}

impl View for PongPacket {
    type V = u64;

    open spec fn view(&self) -> u64 {
        self.payload
    }
}

impl Packet for PongPacket {
    open spec fn packet_id() -> usize {
        0x01
    }

    fn get_packet_id() -> usize {
        0x01
    }
}

impl InboundPacket for PongPacket {
    open spec fn parse(input: Input) -> (Result<u64, Error>, Input) {
        input.number()
    }

    proof fn law_parse_is_incremental(input: Input, more: Seq<u8>) {
        incremental::lemma_exactly_is_incremental(input, Field::Number, 8, more);
    }

    fn new_from_buffer(buffer: &mut Reader) -> (packet: Result<Self, Error>) {
        match buffer.read_u64() {
            Ok(payload) => Ok(PongPacket { payload }),
            Err(error) => Err(error),
        }
    }
}

} // verus!

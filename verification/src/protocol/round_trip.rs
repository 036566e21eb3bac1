//! What is written is read back, and nothing beyond it is touched.

use crate::protocol::error::{Error, Field};
use crate::protocol::fixed;
use crate::protocol::packet::{
    self, HandshakePacket, OutboundPacket, Packet, PingPacket, PongPacket, StatusResponsePacket,
};
use crate::protocol::reader::Input;
use crate::protocol::varint;
use vstd::prelude::*;
use vstd::utf8::*;

verus! {

/// Whether the input starts with the given bytes and all of them can be read.
pub open spec fn starts_with(input: Input, bytes: Seq<u8>) -> bool {
    &&& bytes.len() <= input.available()
    &&& input.bytes.take(bytes.len() as int) == bytes
}

/// An input that starts with two runs of bytes starts with the second one once the first one has been read.
pub proof fn lemma_starts_with(input: Input, first: Seq<u8>, second: Seq<u8>)
    requires
        starts_with(input, first + second),
    ensures
        starts_with(input, first),
        starts_with(input.advance(first.len()), second),
        input.advance((first + second).len()) == input.advance(first.len()).advance(second.len()),
{
    let whole = first + second;
    let (m, n) = (first.len() as int, second.len() as int);
    assert(input.bytes.take(m) == whole.take(m));
    assert(whole.take(m) == first);
    assert(input.bytes.skip(m).take(n) == whole.skip(m));
    assert(whole.skip(m) == second);
    assert(input.bytes.skip(m + n) == input.bytes.skip(m).skip(n));
}

/// How the encoding of a number looks: every byte but the last announces another one.
pub proof fn lemma_varint_bytes(n: nat, tail: Seq<u8>)
    ensures
        varint::varint_bytes(n).len() > 0,
        varint::continued(varint::varint_bytes(n) + tail) == varint::varint_bytes(n).len() - 1,
        varint::base128(varint::varint_bytes(n)) == n,
    decreases n,
{
    let bytes = varint::varint_bytes(n);
    if n < 128 {
        assert((bytes + tail)[0] == n as u8);
        assert(bytes.drop_first() == Seq::<u8>::empty());
        assert(varint::base128(bytes.drop_first()) == 0);
    } else {
        lemma_varint_bytes(n / 128, tail);
        assert((bytes + tail)[0] == bytes[0]);
        assert((bytes + tail).drop_first() == varint::varint_bytes(n / 128) + tail);
        assert(bytes.drop_first() == varint::varint_bytes(n / 128));
    }
}

/// How many bytes the encoding of a number has at most.
pub proof fn lemma_varint_bytes_len(n: nat, width: nat)
    requires
        width > 0,
        n < varint::weight(width),
    ensures
        varint::varint_bytes(n).len() <= width,
    decreases width,
{
    reveal_with_fuel(varint::weight, 2);
    if n >= 128 {
        lemma_varint_bytes_len(n / 128, (width - 1) as nat);
    }
}

/// A `VarInt` takes one to five bytes, and reading it gives back the low 32 bits of the number that was written.
pub proof fn law_varint_round_trip(n: int, input: Input)
    requires
        starts_with(input, varint::varint_bytes(varint::low32(n))),
    ensures
        1 <= varint::varint_bytes(varint::low32(n)).len() <= 5,
        input.varint() == (
            Ok::<usize, Error>(varint::low32(n) as usize),
            input.advance(varint::varint_bytes(varint::low32(n)).len()),
        ),
{
    let bytes = varint::varint_bytes(varint::low32(n));
    let window = input.bytes.take(input.available() as int);
    reveal_with_fuel(varint::weight, 6);
    lemma_varint_bytes_len(varint::low32(n), 5);
    lemma_varint_bytes(varint::low32(n), window.skip(bytes.len() as int));
    assert(window.take(bytes.len() as int) == bytes);
    assert(window == bytes + window.skip(bytes.len() as int));
}

/// Reading a text gives back the text that was written.
pub proof fn law_text_round_trip(text: Seq<char>, input: Input)
    requires
        encode_utf8(text).len() < 0x1_0000_0000,
        starts_with(input, packet::text_bytes(text)),
    ensures
        input.text() == (Ok::<Seq<char>, Error>(text), input.advance(packet::text_bytes(text).len())),
{
    let length = encode_utf8(text).len() as int;
    lemma_starts_with(input, varint::varint_bytes(varint::low32(length)), encode_utf8(text));
    law_varint_round_trip(length, input);
    encode_utf8_valid_utf8(text);
    encode_utf8_decode_utf8(text);
}

/// The length in front of a packet is the number of bytes that follow.
pub proof fn law_frame_length(id: usize, body: Seq<u8>)
    requires
        (varint::varint_bytes(varint::low32(id as int)) + body).len() < 0x1_0000_0000,
    ensures
        ({
            let (length, rest) = (Input { bytes: packet::frame(id, body), limit: None }).varint();
            length == Ok::<usize, Error>(rest.bytes.len() as usize)
        }),
{
    let input = Input { bytes: packet::frame(id, body), limit: None };
    let inner = varint::varint_bytes(varint::low32(id as int)) + body;
    assert(input.bytes.take(packet::frame(id, body).len() as int) == packet::frame(id, body));
    lemma_starts_with(input, varint::varint_bytes(varint::low32(inner.len() as int)), inner);
    law_varint_round_trip(inner.len() as int, input);
}

/// What is read of a packet up to its data, and what is left behind it.
proof fn lemma_frame(id: usize, body: Seq<u8>, input: Input)
    requires
        id < 0x1_0000_0000,
        (varint::varint_bytes(varint::low32(id as int)) + body).len() < 0x1_0000_0000,
        starts_with(input, packet::frame(id, body)),
    ensures
        ({
            let inner = varint::varint_bytes(varint::low32(id as int)) + body;
            let behind_length = input.varint().1;
            let (read_id, behind_id) = behind_length.within(inner.len()).varint();
            let behind_body = behind_id.advance(body.len());
            &&& input.varint().0 == Ok::<usize, Error>(inner.len() as usize)
            &&& inner.len() > 0
            &&& read_id == Ok::<usize, Error>(id)
            &&& starts_with(behind_id, body)
            &&& input.advance(packet::frame(id, body).len()) == behind_length.advance(
                behind_length.used(behind_body),
            )
        }),
{
    let head = varint::varint_bytes(varint::low32(id as int));
    let inner = head + body;
    let length = varint::varint_bytes(varint::low32(inner.len() as int));
    lemma_starts_with(input, length, inner);
    law_varint_round_trip(inner.len() as int, input);
    let content = input.advance(length.len()).within(inner.len());
    lemma_starts_with(content, head, body);
    law_varint_round_trip(id as int, content);
}

/// A ping that comes back unchanged except for its direction is a pong with the same payload.
pub proof fn law_ping_reads_back_as_pong(ping: PingPacket, input: Input)
    requires
        starts_with(input, packet::frame(PingPacket::packet_id(), ping.body())),
    ensures
        input.packet::<PongPacket>() == (
            Ok::<u64, Error>(ping.payload),
            input.advance(packet::frame(PingPacket::packet_id(), ping.body()).len()),
        ),
{
    reveal_with_fuel(fixed::byte_range, 9);
    fixed::law_fixed_width_round_trip(ping.payload as nat, 8);
    reveal_with_fuel(varint::varint_bytes, 2);
    lemma_frame(PingPacket::packet_id(), ping.body(), input);
}

/// A status response is read back as the text that it was made of.
pub proof fn law_status_response_round_trip(body: Seq<char>, input: Input)
    requires
        packet::text_bytes(body).len() < 0xFFFF_FFFF,
        starts_with(input, packet::frame(StatusResponsePacket::packet_id(), packet::text_bytes(body))),
    ensures
        input.packet::<StatusResponsePacket>() == (
            Ok::<Seq<char>, Error>(body),
            input.advance(
                packet::frame(StatusResponsePacket::packet_id(), packet::text_bytes(body)).len(),
            ),
        ),
{
    reveal_with_fuel(varint::varint_bytes, 2);
    lemma_frame(StatusResponsePacket::packet_id(), packet::text_bytes(body), input);
    let inner = varint::varint_bytes(varint::low32(0)) + packet::text_bytes(body);
    law_text_round_trip(body, input.varint().1.within(inner.len()).varint().1);
}

/// Reading the two bytes of a port gives back the port.
pub proof fn lemma_port_round_trip(port: u16, input: Input)
    requires
        starts_with(input, fixed::be_bytes(port as nat, 2)),
    ensures
        input.exactly(Field::Number, 2) == (
            Ok::<Seq<u8>, Error>(fixed::be_bytes(port as nat, 2)),
            input.advance(fixed::be_bytes(port as nat, 2).len()),
        ),
        fixed::be_value(fixed::be_bytes(port as nat, 2)) == port,
{
    reveal_with_fuel(fixed::byte_range, 3);
    fixed::law_fixed_width_round_trip(port as nat, 2);
}

/// Four fields in a row can be read one after the other, and then there is nothing left.
proof fn lemma_four_fields(first: Seq<u8>, second: Seq<u8>, third: Seq<u8>, fourth: Seq<u8>)
    ensures
        ({
            let input = Input { bytes: first + second + third + fourth, limit: None };
            let behind_first = input.advance(first.len());
            let behind_second = behind_first.advance(second.len());
            let behind_third = behind_second.advance(third.len());
            &&& starts_with(input, first)
            &&& starts_with(behind_first, second)
            &&& starts_with(behind_second, third)
            &&& starts_with(behind_third, fourth)
            &&& behind_third.advance(fourth.len()).bytes.len() == 0
        }),
{
    let input = Input { bytes: first + second + third + fourth, limit: None };
    assert(input.bytes == first + (second + (third + fourth)));
    assert(input.bytes.take(input.bytes.len() as int) == input.bytes);
    lemma_starts_with(input, first, second + (third + fourth));
    lemma_starts_with(input.advance(first.len()), second, third + fourth);
    lemma_starts_with(input.advance(first.len()).advance(second.len()), third, fourth);
}

/// A server reads from a handshake the low 32 bits of the protocol version, the address, the port and the state, and
/// then there is nothing left.
pub proof fn law_handshake_round_trip(handshake: HandshakePacket)
    requires
        encode_utf8(handshake.server_address@).len() < 0x1_0000_0000,
    ensures
        ({
            let input = Input { bytes: handshake.body(), limit: None };
            let (version, rest) = input.varint();
            let (address, rest) = rest.text();
            let (port, rest) = rest.exactly(Field::Number, 2);
            let (state, rest) = rest.varint();
            &&& version == Ok::<usize, Error>(varint::low32(handshake.protocol_version as int) as usize)
            &&& address == Ok::<Seq<char>, Error>(handshake.server_address@)
            &&& port is Ok
            &&& fixed::be_value(port->Ok_0) == handshake.server_port
            &&& state == Ok::<usize, Error>(handshake.next_state.number())
            &&& rest.bytes.len() == 0
        }),
{
    let version = varint::varint_bytes(varint::low32(handshake.protocol_version as int));
    let address = packet::text_bytes(handshake.server_address@);
    let port = fixed::be_bytes(handshake.server_port as nat, 2);
    let state = varint::varint_bytes(varint::low32(handshake.next_state.number() as int));
    let input = Input { bytes: handshake.body(), limit: None };
    let behind_version = input.advance(version.len());
    let behind_address = behind_version.advance(address.len());
    let behind_port = behind_address.advance(port.len());
    lemma_four_fields(version, address, port, state);
    law_varint_round_trip(handshake.protocol_version as int, input);
    law_text_round_trip(handshake.server_address@, behind_version);
    lemma_port_round_trip(handshake.server_port, behind_address);
    law_varint_round_trip(handshake.next_state.number() as int, behind_port);
}

} // verus!

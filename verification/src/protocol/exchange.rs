//! The two exchanges of the Server List Ping, as decisions on what to do with the byte stream next.
//!
//! An exchange is driven by whoever owns the stream. They report how far it has come, are told what to do next, do it
//! and report again, until the exchange is done.

use crate::protocol::error::{Error, Field, IoError};
use crate::protocol::fixed;
use crate::protocol::incremental;
use crate::protocol::packet::{
    self, write_packet, HandshakePacket, InboundPacket, OutboundPacket, Packet, PingPacket, PongPacket,
    StatusRequestPacket, StatusResponsePacket,
};
use crate::protocol::reader::{Input, Reader};
use crate::protocol::reading;
use crate::protocol::round_trip;
use crate::protocol::state::State;
use crate::protocol::varint;
use vstd::prelude::*;
use vstd::utf8::*;

verus! {

/// The necessary information that will be reported to the server on a handshake of the Server List Ping protocol.
#[derive(Debug)]
pub struct HandshakeInfo {
    /// The intended protocol version.
    pub protocol_version: isize,
    /// The hostname to connect.
    pub hostname: String,
    /// The server port to connect.
    pub server_port: u16,
}

impl HandshakeInfo {
    /// Creates a new [`HandshakeInfo`] with the supplied values for the server handshake.
    pub fn new(protocol_version: isize, server_address: String, server_port: u16) -> (info: Self)
        ensures
            info == (HandshakeInfo { protocol_version, hostname: server_address, server_port }),
    {
        HandshakeInfo { protocol_version, hostname: server_address, server_port }
    }

    /// The handshake that reports this information.
    pub open spec fn handshake(self) -> HandshakePacket {
        HandshakePacket {
            protocol_version: self.protocol_version,
            server_address: self.hostname,
            server_port: self.server_port,
            next_state: State::Status,
        }
    }

    /// The bytes that ask a server for its status: the handshake, then the status request.
    pub open spec fn request(self) -> Seq<u8> {
        packet::frame(HandshakePacket::packet_id(), self.handshake().body()) + packet::frame(
            StatusRequestPacket::packet_id(),
            StatusRequestPacket.body(),
        )
    }
}

/// How far an exchange has come since its request was sent.
#[derive(Debug)]
pub enum Response {
    /// These bytes have been received, and more may follow.
    Received(Vec<u8>),
    /// These bytes have been received, and none will follow.
    Closed(Vec<u8>),
    /// Writing the request or reading the response failed for this reason.
    Broken(String),
}

/// What is to be done next in an exchange.
#[derive(Debug)]
pub enum Step<B, V> {
    /// Write these bytes.
    Write(B),
    /// Read at most this many further bytes.
    Read(usize),
    /// Nothing: this is the outcome.
    Done(Result<V, Error>),
}

impl<B: View, V: View> View for Step<B, V> {
    type V = Step<B::V, V::V>;

    open spec fn view(&self) -> Step<B::V, V::V> {
        match self {
            Step::Write(bytes) => Step::Write(bytes@),
            Step::Read(missing) => Step::Read(*missing),
            Step::Done(Ok(value)) => Step::Done(Ok(value@)),
            Step::Done(Err(error)) => Step::Done(Err(*error)),
        }
    }
}

/// What is to be done next to read the expected packet: wait for the bytes that are missing, as long as any can follow.
pub open spec fn awaiting<T: InboundPacket>(response: Response) -> Step<Seq<u8>, T::V> {
    match response {
        Response::Received(bytes) => match (Input { bytes: bytes@, limit: None }).packet::<T>().0 {
            Ok(packet) => Step::Done(Ok(packet)),
            Err(Error::Io(IoError::UnexpectedEof { missing, .. })) => Step::Read(missing),
            Err(error) => Step::Done(Err(error)),
        },
        Response::Closed(bytes) => Step::Done((Input { bytes: bytes@, limit: None }).packet::<T>().0),
        Response::Broken(cause) => Step::Done(Err(Error::Io(IoError::Stream(cause)))),
    }
}

/// Decides what is to be done next to read the expected packet.
fn await_packet<T: InboundPacket>(response: &Response) -> (step: Step<Vec<u8>, T>)
    ensures
        step@ == awaiting::<T>(*response),
{
    match response {
        Response::Received(bytes) => match Reader::new(bytes.as_slice()).read_packet() {
            Ok(packet) => Step::Done(Ok(packet)),
            Err(Error::Io(IoError::UnexpectedEof { missing, .. })) => Step::Read(missing),
            Err(error) => Step::Done(Err(error)),
        },
        Response::Closed(bytes) => Step::Done(Reader::new(bytes.as_slice()).read_packet()),
        Response::Broken(cause) => Step::Done(Err(Error::Io(IoError::Stream(cause.clone())))),
    }
}

/// How far the status exchange has come.
#[derive(Debug)]
pub enum StatusProgress {
    /// Nothing has been sent yet.
    Start,
    /// The request has been sent.
    Sent(Response),
}

/// What is to be done next in the status exchange.
pub open spec fn status_step(info: HandshakeInfo, progress: StatusProgress) -> Step<Seq<u8>, Seq<char>> {
    match progress {
        StatusProgress::Start => Step::Write(info.request()),
        StatusProgress::Sent(response) => awaiting::<StatusResponsePacket>(response),
    }
}

/// Decides what is to be done next in the status exchange, which ends in the self-reported server status.
///
/// This sends the [`HandshakePacket`] and the [`StatusRequestPacket`] and awaits the [`StatusResponsePacket`] from the
/// server. This response is in JSON and will not be interpreted by this function. The connection is not consumed by
/// this operation, and the protocol allows for pings to be exchanged after the status has been returned.
pub fn retrieve_status(info: &HandshakeInfo, progress: &StatusProgress) -> (step: Step<Vec<u8>, String>)
    ensures
        step@ == status_step(*info, *progress),
{
    match progress {
        StatusProgress::Start => {
            let mut request: Vec<u8> = Vec::new();

            // create a new handshake packet and send it
            let handshake = HandshakePacket::new(info.protocol_version, info.hostname.clone(), info.server_port);
            write_packet(&mut request, handshake);

            // create a new status request packet and send it
            write_packet(&mut request, StatusRequestPacket::new());

            Step::Write(request)
        },
        // await the response for the status request and read it
        StatusProgress::Sent(response) => match await_packet::<StatusResponsePacket>(response) {
            Step::Write(bytes) => Step::Write(bytes),
            Step::Read(missing) => Step::Read(missing),
            Step::Done(Ok(response)) => Step::Done(Ok(response.body)),
            Step::Done(Err(error)) => Step::Done(Err(error)),
        },
    }
}

/// How far the ping exchange has come.
#[derive(Debug)]
pub enum PingProgress {
    /// Nothing has been sent yet. These are the seconds since the unix epoch, or why they cannot be told.
    Start(Result<u64, String>),
    /// The ping has been sent.
    Sent {
        /// The payload of the ping: the seconds since the unix epoch at the start.
        payload: u64,
        /// What came of it.
        response: Response,
    },
}

/// What is to be done next in the ping exchange.
pub open spec fn ping_step(progress: PingProgress) -> Step<Seq<u8>, bool> {
    match progress {
        PingProgress::Start(Ok(payload)) => Step::Write(
            packet::frame(PingPacket::packet_id(), (PingPacket { payload }).body()),
        ),
        PingProgress::Start(Err(cause)) => Step::Done(Err(Error::TimeUnavailable(cause))),
        PingProgress::Sent { payload, response } => match awaiting::<PongPacket>(response) {
            Step::Write(bytes) => Step::Write(bytes),
            Step::Read(missing) => Step::Read(missing),
            Step::Done(Ok(returned)) => Step::Done(Ok(returned == payload)),
            Step::Done(Err(error)) => Step::Done(Err(error)),
        },
    }
}

/// Decides what is to be done next in the ping exchange, which ends in whether the payload came back unchanged.
///
/// This sends the [`PingPacket`] and awaits the response of the [`PongPacket`]. The time that passes between the write
/// and the end of the exchange is the Round-Trip-Time.
pub fn execute_ping(progress: &PingProgress) -> (step: Step<Vec<u8>, bool>)
    ensures
        step@ == ping_step(*progress),
{
    match progress {
        PingProgress::Start(Ok(payload)) => {
            // create and send a new ping packet
            let mut request: Vec<u8> = Vec::new();
            write_packet(&mut request, PingPacket::new(*payload));
            Step::Write(request)
        },
        PingProgress::Start(Err(cause)) => Step::Done(Err(Error::TimeUnavailable(cause.clone()))),
        // await the retrieval of the corresponding pong packet
        PingProgress::Sent { payload, response } => match await_packet::<PongPacket>(response) {
            Step::Write(bytes) => Step::Write(bytes),
            Step::Read(missing) => Step::Read(missing),
            // if the pong packet did not match, something unexpected happened with the server
            Step::Done(Ok(pong)) => Step::Done(Ok(pong.payload == *payload)),
            Step::Done(Err(error)) => Step::Done(Err(error)),
        },
    }
}

/// An exchange never asks for a byte behind the packet that it awaits: of the bytes that follow, at least those that it
/// asked for belong to the packet. And every byte counts: as long as fewer bytes followed than it asked for, it asks for
/// exactly the others. Once it is done, no later byte changes the outcome.
pub proof fn law_awaiting_is_incremental<T: InboundPacket>(received: Vec<u8>, later: Vec<u8>, more: Seq<u8>)
    requires
        later@ == received@ + more,
    ensures
        match awaiting::<T>(Response::Received(received)) {
            Step::Write(_) => false,
            Step::Read(missing) => {
                &&& missing > 0
                &&& more.len() < missing ==> awaiting::<T>(Response::Received(later)) == Step::<Seq<u8>, T::V>::Read(
                    (missing - more.len()) as usize,
                )
                &&& more.len() >= missing ==> (Input { bytes: later@, limit: None }).packet::<T>().1.bytes.len()
                    <= more.len() - missing
            },
            Step::Done(outcome) => awaiting::<T>(Response::Received(later)) == Step::<Seq<u8>, T::V>::Done(outcome),
        },
{
    let input = Input { bytes: received@, limit: None };
    assert(input.extend(more) == (Input { bytes: later@, limit: None }));
    incremental::law_packet_is_incremental::<T>(input, more);
}

/// The status exchange ends in the text that the server sent as its status, whatever the server sends afterward.
pub proof fn law_status_is_what_the_server_sent(
    info: HandshakeInfo,
    body: Seq<char>,
    received: Vec<u8>,
    tail: Seq<u8>,
)
    requires
        packet::text_bytes(body).len() < 0xFFFF_FFFF,
        received@ == packet::frame(StatusResponsePacket::packet_id(), packet::text_bytes(body)) + tail,
    ensures
        status_step(info, StatusProgress::Sent(Response::Received(received))) == Step::<Seq<u8>, Seq<char>>::Done(
            Ok(body),
        ),
{
    let input = Input { bytes: received@, limit: None };
    let frame = packet::frame(StatusResponsePacket::packet_id(), packet::text_bytes(body));
    assert(input.bytes.take(frame.len() as int) == frame);
    round_trip::law_status_response_round_trip(body, input);
}

/// A server that returns a ping with some payload makes the ping exchange end, and the ping is valid if and only if the
/// payload is the one that was sent.
pub proof fn law_ping_is_valid_iff_payload_returned(payload: u64, returned: u64, received: Vec<u8>, tail: Seq<u8>)
    requires
        received@ == packet::frame(PingPacket::packet_id(), (PingPacket { payload: returned }).body()) + tail,
    ensures
        ping_step(PingProgress::Sent { payload, response: Response::Received(received) }) == Step::<
            Seq<u8>,
            bool,
        >::Done(Ok(returned == payload)),
{
    let input = Input { bytes: received@, limit: None };
    let ping = PingPacket { payload: returned };
    let frame = packet::frame(PingPacket::packet_id(), ping.body());
    assert(input.bytes.take(frame.len() as int) == frame);
    round_trip::law_ping_reads_back_as_pong(ping, input);
}

/// The bytes that were received, unless the stream broke.
pub open spec fn received(response: Response) -> Option<Seq<u8>> {
    match response {
        Response::Received(bytes) => Some(bytes@),
        Response::Closed(bytes) => Some(bytes@),
        Response::Broken(_) => None,
    }
}

/// What a server reads of the request of a status exchange, field by field.
pub struct RequestRead {
    /// The length of the first packet.
    pub length: Result<usize, Error>,
    /// The ID of the first packet.
    pub id: Result<usize, Error>,
    /// The protocol version.
    pub version: Result<usize, Error>,
    /// The hostname.
    pub hostname: Result<Seq<char>, Error>,
    /// The two bytes of the port.
    pub port: Result<Seq<u8>, Error>,
    /// The state.
    pub state: Result<usize, Error>,
    /// The number of bytes from the ID to the state.
    pub handshake_size: nat,
    /// The length of the second packet.
    pub request_length: Result<usize, Error>,
    /// The ID of the second packet.
    pub request_id: Result<usize, Error>,
    /// The number of bytes behind that.
    pub left: nat,
}

/// What a server reads of these bytes if it takes them for the request of a status exchange.
#[verifier::opaque]
pub open spec fn read_request(bytes: Seq<u8>) -> RequestRead {
    let (length, behind_length) = (Input { bytes, limit: None }).varint();
    let (id, rest) = behind_length.varint();
    let (version, rest) = rest.varint();
    let (hostname, rest) = rest.text();
    let (port, rest) = rest.exactly(Field::Number, 2);
    let (state, behind_handshake) = rest.varint();
    let (request_length, rest) = behind_handshake.varint();
    let (request_id, rest) = rest.varint();
    RequestRead {
        length,
        id,
        version,
        hostname,
        port,
        state,
        handshake_size: behind_length.used(behind_handshake),
        request_length,
        request_id,
        left: rest.bytes.len(),
    }
}

/// The fields that the request of a status exchange is made of, and how long they are.
proof fn lemma_request_is_fields(info: HandshakeInfo)
    requires
        encode_utf8(info.hostname@).len() < 0xFFFF_FF00,
    ensures
        ({
            let zero = varint::varint_bytes(varint::low32(0));
            let one = varint::varint_bytes(varint::low32(1));
            let version = varint::varint_bytes(varint::low32(info.protocol_version as int));
            let hostname = packet::text_bytes(info.hostname@);
            let port = fixed::be_bytes(info.server_port as nat, 2);
            let inner = zero + info.handshake().body();
            let length = varint::varint_bytes(varint::low32(inner.len() as int));
            &&& info.request() == length + zero + version + hostname + port + one + one + zero
            &&& inner.len() == zero.len() + version.len() + hostname.len() + port.len() + one.len()
            &&& inner.len() < 0x1_0000_0000
            &&& port.len() == 2
            &&& port[0] * 256 + port[1] == info.server_port
        }),
{
    let zero = varint::varint_bytes(varint::low32(0));
    let one = varint::varint_bytes(varint::low32(1));
    let version = varint::varint_bytes(varint::low32(info.protocol_version as int));
    let hostname = packet::text_bytes(info.hostname@);
    let port = fixed::be_bytes(info.server_port as nat, 2);
    let inner = zero + info.handshake().body();
    let length = varint::varint_bytes(varint::low32(inner.len() as int));
    assert(zero.len() == 1 && one.len() == 1) by {
        reveal_with_fuel(varint::varint_bytes, 2);
    }
    assert(port.len() == 2 && port[0] * 256 + port[1] == info.server_port) by {
        reveal_with_fuel(fixed::be_bytes, 3);
    }
    assert(version.len() <= 5 && hostname.len() <= 5 + encode_utf8(info.hostname@).len()) by {
        reveal_with_fuel(varint::weight, 6);
        round_trip::lemma_varint_bytes_len(varint::low32(info.protocol_version as int), 5);
        round_trip::lemma_varint_bytes_len(varint::low32(encode_utf8(info.hostname@).len() as int), 5);
    }
    assert(zero + Seq::<u8>::empty() == zero);
    assert(info.request() == (length + (zero + (version + hostname + port + one))) + (one + zero));
}

/// Eight fields in a row can be read one after the other, and then there is nothing left.
proof fn lemma_eight_fields(
    a: Seq<u8>,
    b: Seq<u8>,
    c: Seq<u8>,
    d: Seq<u8>,
    e: Seq<u8>,
    f: Seq<u8>,
    g: Seq<u8>,
    h: Seq<u8>,
)
    ensures
        ({
            let input = Input { bytes: a + b + c + d + e + f + g + h, limit: None };
            let r1 = input.advance(a.len());
            let r2 = r1.advance(b.len());
            let r3 = r2.advance(c.len());
            let r4 = r3.advance(d.len());
            let r5 = r4.advance(e.len());
            let r6 = r5.advance(f.len());
            let r7 = r6.advance(g.len());
            &&& round_trip::starts_with(input, a)
            &&& round_trip::starts_with(r1, b)
            &&& round_trip::starts_with(r2, c)
            &&& round_trip::starts_with(r3, d)
            &&& round_trip::starts_with(r4, e)
            &&& round_trip::starts_with(r5, f)
            &&& round_trip::starts_with(r6, g)
            &&& round_trip::starts_with(r7, h)
            &&& r7.advance(h.len()).bytes.len() == 0
            &&& r1.bytes.len() == b.len() + c.len() + d.len() + e.len() + f.len() + r6.bytes.len()
        }),
{
    let input = Input { bytes: a + b + c + d + e + f + g + h, limit: None };
    let first = a + b + c + d;
    let second = e + f + g + h;
    assert(input.bytes == first + second);
    assert(input.bytes.take(input.bytes.len() as int) == input.bytes);
    round_trip::lemma_starts_with(input, first, second);
    lemma_split_four(a, b, c, d, input);
    lemma_split_four(e, f, g, h, input.advance(first.len()));
}

/// An input that starts with four fields starts with each of them once those before it have been read.
proof fn lemma_split_four(a: Seq<u8>, b: Seq<u8>, c: Seq<u8>, d: Seq<u8>, input: Input)
    requires
        round_trip::starts_with(input, a + b + c + d),
    ensures
        ({
            let r1 = input.advance(a.len());
            let r2 = r1.advance(b.len());
            let r3 = r2.advance(c.len());
            &&& round_trip::starts_with(input, a)
            &&& round_trip::starts_with(r1, b)
            &&& round_trip::starts_with(r2, c)
            &&& round_trip::starts_with(r3, d)
            &&& r3.advance(d.len()) == input.advance((a + b + c + d).len())
        }),
{
    round_trip::lemma_starts_with(input, a + b + c, d);
    round_trip::lemma_starts_with(input, a + b, c);
    round_trip::lemma_starts_with(input, a, b);
}

/// What reading the fields of a handshake up to the hostname gives.
proof fn lemma_first_fields_read(info: HandshakeInfo, length: nat, r0: Input, r1: Input, r2: Input, r3: Input)
    requires
        encode_utf8(info.hostname@).len() < 0x1_0000_0000,
        length < 0x1_0000_0000,
        round_trip::starts_with(r0, varint::varint_bytes(varint::low32(length as int))),
        round_trip::starts_with(r1, varint::varint_bytes(varint::low32(0))),
        round_trip::starts_with(r2, varint::varint_bytes(varint::low32(info.protocol_version as int))),
        round_trip::starts_with(r3, packet::text_bytes(info.hostname@)),
    ensures
        r0.varint() == (
            Ok::<usize, Error>(length as usize),
            r0.advance(varint::varint_bytes(varint::low32(length as int)).len()),
        ),
        r1.varint() == (Ok::<usize, Error>(0), r1.advance(varint::varint_bytes(varint::low32(0)).len())),
        r2.varint() == (
            Ok::<usize, Error>(varint::low32(info.protocol_version as int) as usize),
            r2.advance(varint::varint_bytes(varint::low32(info.protocol_version as int)).len()),
        ),
        r3.text() == (
            Ok::<Seq<char>, Error>(info.hostname@),
            r3.advance(packet::text_bytes(info.hostname@).len()),
        ),
{
    round_trip::law_varint_round_trip(length as int, r0);
    round_trip::law_varint_round_trip(0, r1);
    round_trip::law_varint_round_trip(info.protocol_version as int, r2);
    round_trip::law_text_round_trip(info.hostname@, r3);
}

/// What reading the fields from the port on gives.
proof fn lemma_last_fields_read(info: HandshakeInfo, r4: Input, r5: Input, r6: Input, r7: Input)
    requires
        round_trip::starts_with(r4, fixed::be_bytes(info.server_port as nat, 2)),
        round_trip::starts_with(r5, varint::varint_bytes(varint::low32(1))),
        round_trip::starts_with(r6, varint::varint_bytes(varint::low32(1))),
        round_trip::starts_with(r7, varint::varint_bytes(varint::low32(0))),
    ensures
        r4.exactly(Field::Number, 2) == (
            Ok::<Seq<u8>, Error>(fixed::be_bytes(info.server_port as nat, 2)),
            r4.advance(fixed::be_bytes(info.server_port as nat, 2).len()),
        ),
        r5.varint() == (Ok::<usize, Error>(1), r5.advance(varint::varint_bytes(varint::low32(1)).len())),
        r6.varint() == (Ok::<usize, Error>(1), r6.advance(varint::varint_bytes(varint::low32(1)).len())),
        r7.varint() == (Ok::<usize, Error>(0), r7.advance(varint::varint_bytes(varint::low32(0)).len())),
{
    round_trip::lemma_port_round_trip(info.server_port, r4);
    round_trip::law_varint_round_trip(1, r5);
    round_trip::law_varint_round_trip(1, r6);
    round_trip::law_varint_round_trip(0, r7);
}

/// What a server reads follows from what it reads of each field.
proof fn lemma_request_is_read(
    read: RequestRead,
    r0: Input,
    r1: Input,
    r2: Input,
    r3: Input,
    r4: Input,
    r5: Input,
    r6: Input,
    r7: Input,
    r8: Input,
)
    requires
        r0.limit is None,
        r0.varint() == (read.length, r1),
        r1.varint() == (read.id, r2),
        r2.varint() == (read.version, r3),
        r3.text() == (read.hostname, r4),
        r4.exactly(Field::Number, 2) == (read.port, r5),
        r5.varint() == (read.state, r6),
        r6.varint() == (read.request_length, r7),
        r7.varint() == (read.request_id, r8),
        read.handshake_size == r1.used(r6),
        read.left == r8.bytes.len(),
    ensures
        read_request(r0.bytes) == read,
{
    reveal(read_request);
    assert(r0 == (Input { bytes: r0.bytes, limit: None }));
}

/// What a server reads of the fields that the request of a status exchange is made of.
proof fn lemma_fields_read(info: HandshakeInfo, length: nat)
    requires
        encode_utf8(info.hostname@).len() < 0x1_0000_0000,
        length < 0x1_0000_0000,
    ensures
        ({
            let zero = varint::varint_bytes(varint::low32(0));
            let one = varint::varint_bytes(varint::low32(1));
            let size = varint::varint_bytes(varint::low32(length as int));
            let version = varint::varint_bytes(varint::low32(info.protocol_version as int));
            let hostname = packet::text_bytes(info.hostname@);
            let port = fixed::be_bytes(info.server_port as nat, 2);
            read_request(size + zero + version + hostname + port + one + one + zero) == (RequestRead {
                length: Ok(length as usize),
                id: Ok(0),
                version: Ok(varint::low32(info.protocol_version as int) as usize),
                hostname: Ok(info.hostname@),
                port: Ok(port),
                state: Ok(1),
                handshake_size: zero.len() + version.len() + hostname.len() + port.len() + one.len(),
                request_length: Ok(1),
                request_id: Ok(0),
                left: 0,
            })
        }),
{
    let zero = varint::varint_bytes(varint::low32(0));
    let one = varint::varint_bytes(varint::low32(1));
    let size = varint::varint_bytes(varint::low32(length as int));
    let version = varint::varint_bytes(varint::low32(info.protocol_version as int));
    let hostname = packet::text_bytes(info.hostname@);
    let port = fixed::be_bytes(info.server_port as nat, 2);
    lemma_eight_fields(size, zero, version, hostname, port, one, one, zero);
    let r0 = Input { bytes: size + zero + version + hostname + port + one + one + zero, limit: None };
    let r1 = r0.advance(size.len());
    let r2 = r1.advance(zero.len());
    let r3 = r2.advance(version.len());
    let r4 = r3.advance(hostname.len());
    let r5 = r4.advance(port.len());
    let r6 = r5.advance(one.len());
    let r7 = r6.advance(one.len());
    let r8 = r7.advance(zero.len());
    lemma_first_fields_read(info, length, r0, r1, r2, r3);
    lemma_last_fields_read(info, r4, r5, r6, r7);
    let read = RequestRead {
        length: Ok(length as usize),
        id: Ok(0),
        version: Ok(varint::low32(info.protocol_version as int) as usize),
        hostname: Ok(info.hostname@),
        port: Ok(port),
        state: Ok(1),
        handshake_size: zero.len() + version.len() + hostname.len() + port.len() + one.len(),
        request_length: Ok(1),
        request_id: Ok(0),
        left: 0,
    };
    lemma_request_is_read(read, r0, r1, r2, r3, r4, r5, r6, r7, r8);
}

/// What a server reads first of what the status exchange writes is a packet with the ID zero that holds the low 32 bits
/// of the protocol version, the hostname, the port and the state one, and nothing else. What it reads then is a packet
/// with the ID zero that holds nothing, and after that there is nothing left.
pub proof fn law_status_request_carries_handshake_info(info: HandshakeInfo)
    requires
        encode_utf8(info.hostname@).len() < 0xFFFF_FF00,
    ensures
        ({
            let step = status_step(info, StatusProgress::Start);
            let read = read_request(step->Write_0);
            &&& step is Write
            &&& read.length == Ok::<usize, Error>(read.handshake_size as usize)
            &&& read.id == Ok::<usize, Error>(0)
            &&& read.version is Ok
            &&& 0 <= read.version->Ok_0 < 0x1_0000_0000
            &&& (read.version->Ok_0 - info.protocol_version) % 0x1_0000_0000 == 0
            &&& read.hostname == Ok::<Seq<char>, Error>(info.hostname@)
            &&& read.port is Ok
            &&& read.port->Ok_0.len() == 2
            &&& read.port->Ok_0[0] * 256 + read.port->Ok_0[1] == info.server_port
            &&& read.state == Ok::<usize, Error>(1)
            &&& read.request_length == Ok::<usize, Error>(1)
            &&& read.request_id == Ok::<usize, Error>(0)
            &&& read.left == 0
        }),
{
    let inner = varint::varint_bytes(varint::low32(0)) + info.handshake().body();
    lemma_request_is_fields(info);
    lemma_fields_read(info, inner.len());
}

/// What the ping exchange writes is a packet of nine bytes: the ID one and the payload, the most significant byte first.
/// Without a clock nothing is written, and the reason is given back.
pub proof fn law_ping_request_carries_payload(clock: Result<u64, String>)
    ensures
        match clock {
            Ok(payload) => {
                let step = ping_step(PingProgress::Start(clock));
                &&& step is Write
                &&& step->Write_0.len() == 10
                &&& step->Write_0[0] == 9
                &&& step->Write_0[1] == 1
                &&& reading::eight_bytes(step->Write_0.skip(2)) == payload
            },
            Err(cause) => ping_step(PingProgress::Start(clock)) == Step::<Seq<u8>, bool>::Done(
                Err(Error::TimeUnavailable(cause)),
            ),
        },
{
    if let Ok(payload) = clock {
        let body = fixed::be_bytes(payload as nat, 8);
        assert(body.len() == 8 && reading::eight_bytes(body) == payload) by {
            reveal_with_fuel(fixed::be_bytes, 9);
        }
        reveal_with_fuel(varint::varint_bytes, 2);
        let step = ping_step(PingProgress::Start(clock));
        assert(step->Write_0.skip(2) == body);
    }
}

/// The ping exchange ends in success exactly if a whole pong was received, and the ping is valid exactly if the payload
/// of that pong is the one that was sent. If the stream was closed or broke before that, or if something else than a
/// pong was received, it ends in an error. It only waits as long as more bytes can follow, and writes nothing further.
pub proof fn law_ping_succeeds_iff_pong_received(payload: u64, response: Response)
    ensures
        match ping_step(PingProgress::Sent { payload, response }) {
            Step::Write(_) => false,
            Step::Read(_) => {
                &&& response is Received
                &&& !reading::announces(received(response)->0, 1, 8)
            },
            Step::Done(Ok(valid)) => {
                &&& received(response) is Some
                &&& reading::announces(received(response)->0, 1, 8)
                &&& valid <==> reading::eight_bytes(reading::data(received(response)->0)) == payload
            },
            Step::Done(Err(error)) => match response {
                Response::Broken(cause) => error == Error::Io(IoError::Stream(cause)),
                Response::Closed(_) => {
                    &&& !reading::announces(received(response)->0, 1, 8)
                    &&& reading::explains(received(response)->0, 1, error)
                },
                Response::Received(_) => {
                    &&& !reading::announces(received(response)->0, 1, 8)
                    &&& reading::explains(received(response)->0, 1, error)
                    &&& !(error matches Error::Io(IoError::UnexpectedEof { .. }))
                },
            },
        },
{
    if let Some(bytes) = received(response) {
        reading::law_pong_is_read_iff_received(bytes);
    }
}

/// The status exchange ends in success exactly if a whole status response was received, and then in its text. If the
/// stream was closed or broke before that, or if something else than a status response was received, it ends in an error.
/// It only waits as long as more bytes can follow, and writes nothing further.
pub proof fn law_status_succeeds_iff_response_received(info: HandshakeInfo, response: Response)
    ensures
        match status_step(info, StatusProgress::Sent(response)) {
            Step::Write(_) => false,
            Step::Read(_) => {
                &&& response is Received
                &&& forall|text: Seq<char>| !reading::holds_status(received(response)->0, text)
            },
            Step::Done(Ok(text)) => {
                &&& received(response) is Some
                &&& reading::holds_status(received(response)->0, text)
            },
            Step::Done(Err(error)) => match response {
                Response::Broken(cause) => error == Error::Io(IoError::Stream(cause)),
                Response::Closed(_) => {
                    &&& forall|text: Seq<char>| !reading::holds_status(received(response)->0, text)
                    &&& reading::explains(received(response)->0, 0, error)
                },
                Response::Received(_) => {
                    &&& forall|text: Seq<char>| !reading::holds_status(received(response)->0, text)
                    &&& reading::explains(received(response)->0, 0, error)
                    &&& !(error matches Error::Io(IoError::UnexpectedEof { .. }))
                },
            },
        },
{
    if let Some(bytes) = received(response) {
        reading::law_status_is_read_iff_received(bytes);
    }
}

} // verus!

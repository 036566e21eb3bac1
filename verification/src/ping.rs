//! This module defines and handles the network communication and data layer of Minecraft communication.
//!
//! While the protocol module handles the details of the communication protocol, the ping module handles the network
//! communication in terms of establishing a connection to the server. It decides in which order the connection is
//! established, the status is retrieved and interpreted, and the ping is executed, and wraps the result of the protocol
//! communication into easily usable data structs.

use crate::number;
use crate::probe::{ProbingInfo, SocketAddress};
use crate::protocol::exchange::{PingProgress, Response, StatusProgress, Step};
use crate::protocol::packet::{OutboundPacket, Packet, PingPacket, PongPacket, StatusResponsePacket};
use crate::protocol::reader::Input;
use crate::protocol::{self, exchange, packet, round_trip, varint, HandshakeInfo};
use vstd::prelude::*;
use vstd::string::*;
use vstd::utf8::*;

verus! {

/// The internal error type for all errors related to the network communication.
///
/// This includes errors with the IO involved in establishing a TCP connection or transferring bytes from mcexport to
/// a target server. Additionally, this also covers the errors that occur while parsing and interpreting the results
/// returned by the corresponding server, that don't have to do with the protocol itself.
#[derive(Debug)]
pub enum Error {
    /// No connection could be initiated to the target server (it is not reachable).
    CannotReach,
    /// The supplied JSON responses of the server could not be parsed into valid JSON. This is the cause, followed by
    /// the response.
    InvalidJson(String, String),
    /// An error occurred while trying to perform the server handshake or ping.
    ProtocolMismatch(protocol::Error),
    /// An error occurred while parsing the protocol version (module).
    IllegalProtocol(String),
}

impl Error {
    /// The text that describes this error.
    pub open spec fn text(&self) -> Seq<char> {
        match self {
            Error::CannotReach => "failed to connect to the server"@,
            Error::InvalidJson(cause, response) => "failed to parse illegal JSON response: "@ + cause@ + ": \""@
                + response@ + "\""@,
            Error::ProtocolMismatch(cause) => "mismatch in communication protocol: "@ + cause.text(),
            Error::IllegalProtocol(version) => "illegal protocol version: "@ + version@,
        }
    }

    /// Returns the text that describes this error.
    pub fn message(&self) -> (text: String)
        ensures
            text@ == self.text(),
    {
        match self {
            Error::CannotReach => "failed to connect to the server".to_owned(),
            Error::InvalidJson(cause, response) => {
                let mut text = "failed to parse illegal JSON response: ".to_owned();
                text.append(cause.as_str());
                text.append(": \"");
                text.append(response.as_str());
                text.append("\"");
                text
            },
            Error::ProtocolMismatch(cause) => {
                let mut text = "mismatch in communication protocol: ".to_owned();
                text.append(cause.message().as_str());
                text
            },
            Error::IllegalProtocol(version) => {
                let mut text = "illegal protocol version: ".to_owned();
                text.append(version.as_str());
                text
            },
        }
    }
}

/// The information on the protocol version of a server.
#[derive(Debug)]
pub struct ServerVersion {
    /// The textual protocol version to display this version visually.
    pub name: String,
    /// The numeric protocol version (for compatibility checking).
    pub protocol: i64,
}

/// The information on a single, sampled player entry.
#[derive(Debug, PartialEq, Eq)]
pub struct ServerPlayer {
    /// The visual name to display this player.
    pub name: String,
    /// The unique identifier to reference this player.
    pub id: String,
}

/// The information on the current, maximum and sampled players.
#[derive(Debug)]
pub struct ServerPlayers {
    /// The current number of players that are online at this moment.
    pub online: u32,
    /// The maximum number of players that can join (slots).
    pub max: u32,
    /// An optional list of player information samples (version hover).
    pub sample: Option<Vec<ServerPlayer>>,
}

/// The self-reported status of a pinged server with all public metadata.
#[derive(Debug)]
pub struct ServerStatus {
    /// The version and protocol information of the server.
    pub version: ServerVersion,
    /// The current, maximum and sampled players of the server.
    pub players: ServerPlayers,
    /// The optional favicon of the server.
    pub favicon: Option<String>,
}

/// A span of time: whole seconds and the nanoseconds that are left, which make up less than a second.
#[derive(Clone, Copy, Debug)]
pub struct Latency {
    secs: u64,
    nanos: u32,
}

impl View for Latency {
    type V = (u64, u32);

    closed spec fn view(&self) -> (u64, u32) {
        (self.secs, self.nanos)
    }
}

impl Latency {
    #[verifier::type_invariant]
    spec fn below_a_second(self) -> bool {
        self.nanos < 1_000_000_000
    }

    /// Creates a span of time, unless the nanoseconds make up a second or more.
    pub fn new(secs: u64, nanos: u32) -> (latency: Option<Latency>)
        ensures
            match latency {
                Some(latency) => nanos < 1_000_000_000 && latency@ == (secs, nanos),
                None => nanos >= 1_000_000_000,
            },
    {
        if nanos < 1_000_000_000 {
            Some(Latency { secs, nanos })
        } else {
            None
        }
    }

    /// Returns the whole seconds.
    pub fn as_secs(&self) -> (secs: u64)
        ensures
            secs == self@.0,
    {
        self.secs
    }

    /// Returns the nanoseconds that are left.
    pub fn subsec_nanos(&self) -> (nanos: u32)
        ensures
            nanos == self@.1,
            nanos < 1_000_000_000,
    {
        proof {
            use_type_invariant(self);
        }
        self.nanos
    }
}

/// The full status of the ping operation along with the resolution information and ping duration.
#[derive(Debug)]
pub struct ProbeStatus {
    /// Whether an SRV record was used to resolve the real address of the server.
    pub srv: bool,
    /// The latency to get information from one side to the other (RTT/2).
    pub ping: Latency,
    /// Whether the ping response was valid (contained the right payload).
    pub valid: bool,
    /// The self-reported status of the server.
    pub status: ServerStatus,
}

/// How far requesting the status of a server has come.
#[derive(Debug)]
pub enum ServerProgress {
    /// Nothing has been done yet.
    Start,
    /// It was tried to connect to the server, and this says whether there is a connection now.
    Connected(bool),
    /// The status exchange ended in the status as JSON or in an error.
    StatusRetrieved(Result<String, protocol::Error>),
    /// The JSON was interpreted.
    StatusParsed {
        /// The status as JSON.
        response: String,
        /// The interpreted status, or why the JSON could not be interpreted.
        parsed: Result<ServerStatus, String>,
    },
    /// The ping exchange ended.
    PingExecuted {
        /// The interpreted status.
        status: ServerStatus,
        /// The latency and whether the payload came back unchanged, or the error that the exchange ended in.
        ping: Result<(Latency, bool), protocol::Error>,
    },
}

/// What is to be done next to request the status of a server.
#[derive(Debug)]
pub enum ServerStep {
    /// Connect to the server at this address.
    Connect(SocketAddress),
    /// Perform the status exchange with this information.
    RetrieveStatus(HandshakeInfo),
    /// Interpret this JSON.
    ParseStatus(String),
    /// Perform the ping exchange. The status is handed back afterward.
    ExecutePing(ServerStatus),
    /// Nothing: this is the outcome.
    Done(Result<ProbeStatus, Error>),
}

/// The protocol version that a module asks for, if it is a number. Without a module it is the fallback.
pub open spec fn requested_version(module: Option<String>, fallback: isize) -> Option<isize> {
    match module {
        Some(module) => match number::parse_signed(module@, isize::MIN as int, isize::MAX as int) {
            Some(version) => Some(version as isize),
            None => None,
        },
        None => Some(fallback),
    }
}

/// What is to be done next to request the status of a server.
pub open spec fn server_step(
    info: ProbingInfo,
    addr: SocketAddress,
    srv: bool,
    fallback_protocol_version: isize,
    progress: ServerProgress,
) -> ServerStep {
    match progress {
        ServerProgress::Start => ServerStep::Connect(addr),
        ServerProgress::Connected(false) => ServerStep::Done(Err(Error::CannotReach)),
        ServerProgress::Connected(true) => match requested_version(info.module, fallback_protocol_version) {
            Some(protocol_version) => ServerStep::RetrieveStatus(
                HandshakeInfo {
                    protocol_version,
                    hostname: info.target.hostname,
                    server_port: info.target.port,
                },
            ),
            None => ServerStep::Done(Err(Error::IllegalProtocol(info.module->0))),
        },
        ServerProgress::StatusRetrieved(Ok(response)) => ServerStep::ParseStatus(response),
        ServerProgress::StatusRetrieved(Err(error)) => ServerStep::Done(Err(Error::ProtocolMismatch(error))),
        ServerProgress::StatusParsed { parsed: Ok(status), .. } => ServerStep::ExecutePing(status),
        ServerProgress::StatusParsed { response, parsed: Err(cause) } => ServerStep::Done(
            Err(Error::InvalidJson(cause, response)),
        ),
        ServerProgress::PingExecuted { status, ping: Ok((ping, valid)) } => ServerStep::Done(
            Ok(ProbeStatus { srv, ping, valid, status }),
        ),
        ServerProgress::PingExecuted { ping: Err(error), .. } => ServerStep::Done(
            Err(Error::ProtocolMismatch(error)),
        ),
    }
}

/// Decides what is to be done next to request the status of the supplied server and record the ping duration.
///
/// This opens a connection and performs a Server List Ping exchange, including the general handshake, status request,
/// and ping protocol. If any error with the underlying connection or the communication protocol is encountered, the
/// request is interrupted immediately.
pub fn get_server_status(
    info: &ProbingInfo,
    addr: &SocketAddress,
    srv: bool,
    fallback_protocol_version: isize,
    progress: ServerProgress,
) -> (step: ServerStep)
    ensures
        step == server_step(*info, *addr, srv, fallback_protocol_version, progress),
{
    match progress {
        // create a new connection to the target
        ServerProgress::Start => ServerStep::Connect(*addr),
        ServerProgress::Connected(false) => ServerStep::Done(Err(Error::CannotReach)),
        ServerProgress::Connected(true) => {
            // try to use specific, requested version and fall back to "recent"
            let protocol_version = match &info.module {
                Some(version) => match number::read_isize(version.as_str()) {
                    Some(number) => number,
                    None => return ServerStep::Done(Err(Error::IllegalProtocol(version.clone()))),
                },
                None => fallback_protocol_version,
            };

            // retrieve the server status (general information)
            ServerStep::RetrieveStatus(
                HandshakeInfo::new(protocol_version, info.target.hostname.clone(), info.target.port),
            )
        },
        ServerProgress::StatusRetrieved(Ok(response)) => ServerStep::ParseStatus(response),
        ServerProgress::StatusRetrieved(Err(error)) => ServerStep::Done(Err(Error::ProtocolMismatch(error))),
        // perform the server ping to measure duration
        ServerProgress::StatusParsed { parsed: Ok(status), .. } => ServerStep::ExecutePing(status),
        ServerProgress::StatusParsed { response, parsed: Err(cause) } => ServerStep::Done(
            Err(Error::InvalidJson(cause, response)),
        ),
        // wrap everything into a ping response
        ServerProgress::PingExecuted { status, ping: Ok((ping, valid)) } => ServerStep::Done(
            Ok(ProbeStatus { srv, ping, valid, status }),
        ),
        ServerProgress::PingExecuted { ping: Err(error), .. } => ServerStep::Done(
            Err(Error::ProtocolMismatch(error)),
        ),
    }
}

/// The signed number that 32 bits stand for in two's complement.
pub open spec fn signed32(bits: int) -> int {
    if bits < 0x8000_0000 {
        bits
    } else {
        bits - 0x1_0000_0000
    }
}

/// Any number of 32 bits, negative and positive, that is given as the module is what the server reads as the desired
/// protocol version from the handshake.
pub proof fn law_module_is_sent_as_version(
    info: ProbingInfo,
    addr: SocketAddress,
    srv: bool,
    fallback: isize,
    version: int,
)
    requires
        i32::MIN <= version <= i32::MAX,
        info.module is Some,
        info.module->0@ == number::signed_decimal(version),
    ensures
        ({
            let step = server_step(info, addr, srv, fallback, ServerProgress::Connected(true));
            let body = step->RetrieveStatus_0.handshake().body();
            let received = (Input { bytes: body, limit: None }).varint().0;
            &&& step is RetrieveStatus
            &&& received is Ok
            &&& signed32(received->Ok_0 as int) == version
        }),
{
    number::law_signed_decimal_round_trip(version, isize::MIN as int, isize::MAX as int);
    let step = server_step(info, addr, srv, fallback, ServerProgress::Connected(true));
    let body = step->RetrieveStatus_0.handshake().body();
    let input = Input { bytes: body, limit: None };
    let bytes = varint::varint_bytes(varint::low32(version));
    assert(input.bytes.take(bytes.len() as int) == bytes);
    round_trip::law_varint_round_trip(version, input);
}

/// Without a module, any number of 32 bits that is configured as the fallback is what the server reads as the desired
/// protocol version from the handshake.
pub proof fn law_fallback_is_sent_as_version(info: ProbingInfo, addr: SocketAddress, srv: bool, fallback: isize)
    requires
        i32::MIN <= fallback <= i32::MAX,
        info.module is None,
    ensures
        ({
            let step = server_step(info, addr, srv, fallback, ServerProgress::Connected(true));
            let body = step->RetrieveStatus_0.handshake().body();
            let received = (Input { bytes: body, limit: None }).varint().0;
            &&& step is RetrieveStatus
            &&& received is Ok
            &&& signed32(received->Ok_0 as int) == fallback
        }),
{
    let step = server_step(info, addr, srv, fallback, ServerProgress::Connected(true));
    let body = step->RetrieveStatus_0.handshake().body();
    let input = Input { bytes: body, limit: None };
    let bytes = varint::varint_bytes(varint::low32(fallback as int));
    assert(input.bytes.take(bytes.len() as int) == bytes);
    round_trip::law_varint_round_trip(fallback as int, input);
}

/// What the server reads from the first bytes of a probe are the requested hostname, the requested port and the
/// protocol version: the number that the module writes with or without a sign, or without a module the fallback.
pub proof fn law_server_reads_requested_target(
    info: ProbingInfo,
    addr: SocketAddress,
    srv: bool,
    fallback: isize,
    version: int,
)
    requires
        encode_utf8(info.target.hostname@).len() < 0xFFFF_FF00,
        i32::MIN <= version <= i32::MAX,
        match info.module {
            None => fallback == version,
            Some(module) => {
                ||| module@ == number::signed_decimal(version)
                ||| version >= 0 && module@ == seq!['+'] + number::decimal(version as nat)
            },
        },
    ensures
        ({
            let step = server_step(info, addr, srv, fallback, ServerProgress::Connected(true));
            let written = exchange::status_step(step->RetrieveStatus_0, StatusProgress::Start);
            let read = exchange::read_request(written->Write_0);
            &&& step is RetrieveStatus
            &&& written is Write
            &&& read.version is Ok
            &&& signed32(read.version->Ok_0 as int) == version
            &&& read.hostname == Ok::<Seq<char>, protocol::Error>(info.target.hostname@)
            &&& read.port is Ok
            &&& read.port->Ok_0.len() == 2
            &&& read.port->Ok_0[0] * 256 + read.port->Ok_0[1] == info.target.port
        }),
{
    if let Some(module) = info.module {
        number::law_signed_decimal_round_trip(version, isize::MIN as int, isize::MAX as int);
        if version >= 0 && module@ == seq!['+'] + number::decimal(version as nat) {
            number::lemma_decimal(version as nat);
            assert(module@.skip(1) == number::decimal(version as nat));
        }
    }
    let step = server_step(info, addr, srv, fallback, ServerProgress::Connected(true));
    exchange::law_status_request_carries_handshake_info(step->RetrieveStatus_0);
}

/// Once there is a connection, a probe with a module goes on exactly if the module is an optional sign and the digits of
/// a number that fits the machine's word. Otherwise it fails, and the error holds the module.
pub proof fn law_module_is_refused_iff_no_number(info: ProbingInfo, addr: SocketAddress, srv: bool, fallback: isize)
    requires
        info.module is Some,
    ensures
        ({
            let module = info.module->0@;
            match server_step(info, addr, srv, fallback, ServerProgress::Connected(true)) {
                ServerStep::RetrieveStatus(handshake) => {
                    let n = handshake.protocol_version;
                    ||| n >= 0 && number::writes(module, n as nat)
                    ||| n >= 0 && module.len() > 0 && module[0] == '+' && number::writes(module.skip(1), n as nat)
                    ||| n <= 0 && module.len() > 0 && module[0] == '-' && number::writes(module.skip(1), (-n) as nat)
                },
                ServerStep::Done(Err(Error::IllegalProtocol(refused))) => {
                    &&& refused == info.module->0
                    &&& forall|n: nat| n <= isize::MAX ==> !number::writes(module, n)
                    &&& module.len() > 0 && module[0] == '+' ==> forall|n: nat|
                        n <= isize::MAX ==> !number::writes(module.skip(1), n)
                    &&& module.len() > 0 && module[0] == '-' ==> forall|n: nat|
                        n <= -isize::MIN ==> !number::writes(module.skip(1), n)
                },
                _ => false,
            }
        }),
{
    number::law_signed_is_read_iff_written(info.module->0@, isize::MIN as int, isize::MAX as int);
}

/// Whatever goes wrong while the status of a server is requested ends the request with an error that holds the cause,
/// and what the server sent if that could not be interpreted.
pub proof fn law_failure_of_server_is_reported(
    info: ProbingInfo,
    addr: SocketAddress,
    srv: bool,
    fallback: isize,
    progress: ServerProgress,
)
    requires
        match progress {
            ServerProgress::Start => false,
            ServerProgress::Connected(connected) => !connected,
            ServerProgress::StatusRetrieved(outcome) => outcome is Err,
            ServerProgress::StatusParsed { parsed, .. } => parsed is Err,
            ServerProgress::PingExecuted { ping, .. } => ping is Err,
        },
    ensures
        ({
            let step = server_step(info, addr, srv, fallback, progress);
            &&& step matches ServerStep::Done(Err(_))
            &&& match step->Done_0->Err_0 {
                Error::CannotReach => progress is Connected,
                Error::ProtocolMismatch(cause) => {
                    ||| progress == ServerProgress::StatusRetrieved(Err::<String, protocol::Error>(cause))
                    ||| progress is PingExecuted && progress->ping == Err::<(Latency, bool), protocol::Error>(cause)
                },
                Error::InvalidJson(cause, response) => {
                    progress == (ServerProgress::StatusParsed {
                        response,
                        parsed: Err::<ServerStatus, String>(cause),
                    })
                },
                Error::IllegalProtocol(_) => false,
            }
        }),
{
}

/// The stages follow one another, and each is given what the one before it found: the connection goes to the address,
/// the handshake is sent once there is a connection, the text that was retrieved is interpreted, and the ping is executed
/// for the status that was interpreted.
pub proof fn law_stage_is_given_what_was_found(
    info: ProbingInfo,
    addr: SocketAddress,
    srv: bool,
    fallback: isize,
    progress: ServerProgress,
)
    ensures
        match server_step(info, addr, srv, fallback, progress) {
            ServerStep::Connect(target) => progress is Start && target == addr,
            ServerStep::RetrieveStatus(_) => progress == ServerProgress::Connected(true),
            ServerStep::ParseStatus(response) => progress == ServerProgress::StatusRetrieved(
                Ok::<String, protocol::Error>(response),
            ),
            ServerStep::ExecutePing(status) => progress is StatusParsed && progress->parsed == Ok::<
                ServerStatus,
                String,
            >(status),
            ServerStep::Done(Ok(_)) => progress is PingExecuted && progress->ping is Ok,
            ServerStep::Done(Err(Error::IllegalProtocol(_))) => progress == ServerProgress::Connected(true),
            ServerStep::Done(Err(_)) => match progress {
                ServerProgress::Start => false,
                ServerProgress::Connected(connected) => !connected,
                ServerProgress::StatusRetrieved(outcome) => outcome is Err,
                ServerProgress::StatusParsed { parsed, .. } => parsed is Err,
                ServerProgress::PingExecuted { ping, .. } => ping is Err,
            },
        },
{
}

/// Requesting the status of a server succeeds exactly if the ping was executed, and the outcome holds the status that
/// was interpreted, the latency and the validity of that ping, and how the address was found.
pub proof fn law_success_holds_what_was_found(
    info: ProbingInfo,
    addr: SocketAddress,
    srv: bool,
    fallback: isize,
    progress: ServerProgress,
)
    ensures
        match server_step(info, addr, srv, fallback, progress) {
            ServerStep::Done(Ok(found)) => {
                &&& progress is PingExecuted
                &&& found.srv == srv
                &&& found.status == progress->status
                &&& progress->ping == Ok::<(Latency, bool), protocol::Error>((found.ping, found.valid))
            },
            _ => !(progress is PingExecuted && progress->ping is Ok),
        },
{
}

/// A server that sends a status and returns the ping unchanged is reported with this status and as a valid ping.
pub proof fn law_conforming_server_is_reported(
    info: ProbingInfo,
    addr: SocketAddress,
    srv: bool,
    fallback: isize,
    protocol_version: isize,
    response: String,
    status: ServerStatus,
    payload: u64,
    latency: Latency,
    status_bytes: Vec<u8>,
    pong_bytes: Vec<u8>,
)
    requires
        requested_version(info.module, fallback) == Some(protocol_version),
        packet::text_bytes(response@).len() < 0xFFFF_FFFF,
        status_bytes@ == packet::frame(StatusResponsePacket::packet_id(), packet::text_bytes(response@)),
        pong_bytes@ == packet::frame(PongPacket::packet_id(), (PingPacket { payload }).body()),
    ensures
        ({
            let next = |progress: ServerProgress| server_step(info, addr, srv, fallback, progress);
            let handshake = HandshakeInfo {
                protocol_version,
                hostname: info.target.hostname,
                server_port: info.target.port,
            };
            let status_received = StatusProgress::Sent(Response::Received(status_bytes));
            let pong_received = PingProgress::Sent { payload, response: Response::Received(pong_bytes) };
            &&& next(ServerProgress::Start) == ServerStep::Connect(addr)
            &&& next(ServerProgress::Connected(true)) == ServerStep::RetrieveStatus(handshake)
            &&& exchange::status_step(handshake, status_received) == Step::<Seq<u8>, Seq<char>>::Done(Ok(response@))
            &&& next(ServerProgress::StatusRetrieved(Ok(response))) == ServerStep::ParseStatus(response)
            &&& next(ServerProgress::StatusParsed { response, parsed: Ok(status) }) == ServerStep::ExecutePing(status)
            &&& exchange::ping_step(pong_received) == Step::<Seq<u8>, bool>::Done(Ok(true))
            &&& next(ServerProgress::PingExecuted { status, ping: Ok((latency, true)) }) == ServerStep::Done(
                Ok::<ProbeStatus, Error>(ProbeStatus { srv, ping: latency, valid: true, status }),
            )
        }),
{
    let handshake = HandshakeInfo {
        protocol_version,
        hostname: info.target.hostname,
        server_port: info.target.port,
    };
    assert(status_bytes@ + Seq::<u8>::empty() == status_bytes@);
    exchange::law_status_is_what_the_server_sent(handshake, response@, status_bytes, Seq::empty());
    assert(pong_bytes@ + Seq::<u8>::empty() == pong_bytes@);
    exchange::law_ping_is_valid_iff_payload_returned(payload, payload, pong_bytes, Seq::empty());
}

/// Whatever the server is asked, it is told the hostname and the port of the target as they were requested, not as
/// they were resolved.
pub proof fn law_handshake_names_requested_target(
    info: ProbingInfo,
    addr: SocketAddress,
    srv: bool,
    fallback: isize,
    progress: ServerProgress,
)
    ensures
        server_step(info, addr, srv, fallback, progress) matches ServerStep::RetrieveStatus(handshake)
            ==> handshake.hostname == info.target.hostname && handshake.server_port == info.target.port,
{
}

} // verus!

use mcexport::config::{DEFAULT_ADDRESS, LATEST_PROTOCOL_VERSION};
use mcexport::ping::{
    get_server_status, Error, Latency, ProbeStatus, ServerPlayer, ServerPlayers, ServerProgress, ServerStatus,
    ServerStep, ServerVersion,
};
use mcexport::probe::{IpAddress, ProbingInfo, SocketAddress, TargetAddress};
use mcexport::protocol::packet::{self, PingPacket};
use mcexport::protocol::reader::Reader;
use mcexport::protocol::{
    self, execute_ping, retrieve_status, HandshakeInfo, PingProgress, Response, StatusProgress, Step,
};
use std::time::{Duration, Instant, SystemTime, UNIX_EPOCH};

#[test]
fn error_display_cannot_reach() {
    let error = Error::CannotReach;
    assert_eq!(error.message(), "failed to connect to the server");
}

#[test]
fn error_display_invalid_json() {
    let json_err = serde_json::from_str::<serde_json::Value>("invalid").unwrap_err();
    let error = Error::InvalidJson(json_err.to_string(), "invalid".to_string());
    assert!(error.message().contains("failed to parse illegal JSON response"));
    assert!(error.message().contains("invalid"));
}

#[test]
fn error_display_illegal_protocol() {
    let error = Error::IllegalProtocol("abc".to_string());
    assert_eq!(error.message(), "illegal protocol version: abc");
}

#[test]
fn error_display_protocol_mismatch() {
    let error = Error::ProtocolMismatch(protocol::Error::InvalidVarInt);
    assert_eq!(error.message(), "mismatch in communication protocol: invalid VarInt data");
    let error = Error::InvalidJson("expected value".to_string(), "{".to_string());
    assert_eq!(error.message(), "failed to parse illegal JSON response: expected value: \"{\"");
}

/// A server in memory: it answers what it has been sent, and hands the answer out in small pieces.
struct Server {
    inbox: Vec<u8>,
    outbox: Vec<u8>,
    json: &'static str,
}

impl Server {
    fn write(&mut self, bytes: &[u8]) {
        self.inbox.extend_from_slice(bytes);
        loop {
            let mut reader = Reader::new(&self.inbox);
            let frame = match reader.read_varint() {
                Ok(length) => match reader.read_exact(length) {
                    Ok(frame) => frame,
                    Err(_) => return,
                },
                Err(_) => return,
            };
            let rest = self.inbox.split_off(self.inbox.len() - reader.remaining());
            self.inbox = rest;
            let mut answer: Vec<u8> = Vec::new();
            if frame == vec![0x00] {
                // status request
                let mut inner = vec![0x00u8];
                packet::write_string(&mut inner, self.json);
                mcexport::protocol::varint::write_varint(&mut answer, inner.len());
                answer.extend_from_slice(&inner);
            } else if frame[0] == 0x01 {
                // ping: extract payload (skip packet ID byte, read u64) and send pong response
                let payload = Reader::new(&frame[1..]).read_u64().unwrap();
                packet::write_packet(&mut answer, PingPacket::new(payload));
            }
            self.outbox.extend_from_slice(&answer);
        }
    }

    fn read(&mut self, at_most: usize) -> Vec<u8> {
        let count = at_most.min(7).min(self.outbox.len());
        let rest = self.outbox.split_off(count);
        std::mem::replace(&mut self.outbox, rest)
    }
}

fn run_status(server: &mut Server, info: &HandshakeInfo) -> Result<String, protocol::Error> {
    let mut progress = StatusProgress::Start;
    let mut received: Vec<u8> = Vec::new();
    loop {
        match retrieve_status(info, &progress) {
            Step::Write(bytes) => server.write(&bytes),
            Step::Read(missing) => {
                let bytes = server.read(missing);
                assert!(!bytes.is_empty() && bytes.len() <= missing);
                received.extend_from_slice(&bytes);
            }
            Step::Done(outcome) => return outcome,
        }
        progress = StatusProgress::Sent(Response::Received(received.clone()));
    }
}

fn run_ping(server: &mut Server) -> Result<(Duration, bool), protocol::Error> {
    let payload = SystemTime::now().duration_since(UNIX_EPOCH).unwrap().as_secs();
    let start = Instant::now();
    let mut progress = PingProgress::Start(Ok(payload));
    let mut received: Vec<u8> = Vec::new();
    loop {
        match execute_ping(&progress) {
            Step::Write(bytes) => server.write(&bytes),
            Step::Read(missing) => {
                let bytes = server.read(missing);
                assert!(!bytes.is_empty() && bytes.len() <= missing);
                received.extend_from_slice(&bytes);
            }
            Step::Done(outcome) => return outcome.map(|valid| (start.elapsed() / 2, valid)),
        }
        progress = PingProgress::Sent { payload, response: Response::Received(received.clone()) };
    }
}

#[test]
fn test_get_server_status_with_mock_connection() {
    let mut server = Server {
        inbox: Vec::new(),
        outbox: Vec::new(),
        json: "{\"version\":{\"protocol\":764,\"name\":\"1.20.1\"},\"players\":{\"online\":5,\"max\":20},\"description\":\"Test Server\"}",
    };

    // Execute the ping protocol
    let handshake_info = HandshakeInfo::new(764, "test.server".to_string(), 25565);
    let status_result = run_status(&mut server, &handshake_info);
    assert!(status_result.is_ok());

    let status_json = status_result.unwrap();
    let status: serde_json::Value = serde_json::from_str(&status_json).expect("could not deserialize");

    assert_eq!("1.20.1", status["version"]["name"]);
    assert_eq!(764, status["version"]["protocol"]);
    assert_eq!(5, status["players"]["online"]);
    assert_eq!(20, status["players"]["max"]);

    let (ping, valid) = run_ping(&mut server).unwrap();
    assert!(valid);
    assert!(ping.as_millis() < 1000); // Should be very fast for in-memory connection
}

fn info(module: Option<&str>) -> ProbingInfo {
    ProbingInfo {
        target: TargetAddress { hostname: "mc.justchunks.net".to_string(), port: 25566 },
        module: module.map(str::to_owned),
    }
}

fn status() -> ServerStatus {
    ServerStatus {
        version: ServerVersion { name: "1.20.1".to_string(), protocol: 764 },
        players: ServerPlayers {
            online: 5,
            max: 20,
            sample: Some(vec![ServerPlayer { name: "cool".to_string(), id: "test".to_string() }]),
        },
        favicon: None,
    }
}

const ADDRESS: SocketAddress = SocketAddress { ip: IpAddress::V4([142, 132, 245, 251]), port: 25565 };

fn step(module: Option<&str>, progress: ServerProgress) -> ServerStep {
    get_server_status(&info(module), &ADDRESS, true, LATEST_PROTOCOL_VERSION, progress)
}

fn handshake(module: Option<&str>) -> HandshakeInfo {
    match step(module, ServerProgress::Connected(true)) {
        ServerStep::RetrieveStatus(handshake) => handshake,
        other => panic!("unexpected step: {:?}", other),
    }
}

fn failure(module: Option<&str>, progress: ServerProgress) -> String {
    match step(module, progress) {
        ServerStep::Done(Err(error)) => error.message(),
        other => panic!("unexpected step: {:?}", other),
    }
}

#[test]
fn server_status_steps() {
    assert!(matches!(step(None, ServerProgress::Start), ServerStep::Connect(address) if address == ADDRESS));
    assert!(matches!(
        step(None, ServerProgress::StatusRetrieved(Ok("{}".to_string()))),
        ServerStep::ParseStatus(response) if response == "{}"
    ));
    let progress = ServerProgress::StatusParsed { response: "{}".to_string(), parsed: Ok(status()) };
    assert!(matches!(step(None, progress), ServerStep::ExecutePing(status) if status.players.max == 20));
    let ping = Latency::new(1, 5).unwrap();
    let progress = ServerProgress::PingExecuted { status: status(), ping: Ok((ping, false)) };
    match step(None, progress) {
        ServerStep::Done(Ok(ProbeStatus { srv, ping, valid, status })) => {
            assert!(srv);
            assert!(!valid);
            assert_eq!((ping.as_secs(), ping.subsec_nanos()), (1, 5));
            assert_eq!(status.version.protocol, 764);
            assert_eq!(status.players.sample.unwrap()[0].name, "cool");
        }
        other => panic!("unexpected step: {:?}", other),
    }
}

#[test]
fn server_status_failures() {
    assert_eq!(failure(None, ServerProgress::Connected(false)), "failed to connect to the server");
    // whether the server can be reached comes first
    assert_eq!(failure(Some("abc"), ServerProgress::Connected(false)), "failed to connect to the server");
    assert_eq!(failure(Some("abc"), ServerProgress::Connected(true)), "illegal protocol version: abc");
    assert_eq!(
        failure(None, ServerProgress::StatusRetrieved(Err(protocol::Error::IllegalPacketLength))),
        "mismatch in communication protocol: illegal packet length"
    );
    let progress = ServerProgress::StatusParsed { response: "no".to_string(), parsed: Err("bad".to_string()) };
    assert_eq!(failure(None, progress), "failed to parse illegal JSON response: bad: \"no\"");
    let progress = ServerProgress::PingExecuted { status: status(), ping: Err(protocol::Error::InvalidVarInt) };
    assert_eq!(failure(None, progress), "mismatch in communication protocol: invalid VarInt data");
}

#[test]
fn module_selects_the_protocol_version() {
    assert_eq!(handshake(None).protocol_version, 769);
    assert_eq!(handshake(Some("-1")).protocol_version, -1);
    assert_eq!(handshake(Some("+47")).protocol_version, 47);
    let handshake = handshake(Some("47"));
    assert_eq!(handshake.protocol_version, 47);
    // the target is named as it was requested
    assert_eq!(handshake.hostname, "mc.justchunks.net");
    assert_eq!(handshake.server_port, 25566);
}

#[test]
fn module_is_sent_as_version() {
    for version in [i32::MIN, -1, 0, 47, 769, i32::MAX] {
        let handshake = handshake(Some(&version.to_string()));
        let bytes = match retrieve_status(&handshake, &StatusProgress::Start) {
            Step::Write(bytes) => bytes,
            other => panic!("unexpected step: {:?}", other),
        };
        let mut reader = Reader::new(&bytes);
        reader.read_varint().unwrap();
        assert_eq!(reader.read_varint().unwrap(), 0);
        assert_eq!(reader.read_varint().unwrap() as u32 as i32, version);
    }
}

#[test]
fn latency_is_normalized() {
    assert!(Latency::new(0, 999_999_999).is_some());
    assert!(Latency::new(0, 1_000_000_000).is_none());
}

#[test]
fn defaults() {
    assert_eq!(LATEST_PROTOCOL_VERSION, 769);
    assert_eq!(DEFAULT_ADDRESS, ([0, 0, 0, 0], 10026));
}

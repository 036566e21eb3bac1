use mcexport::probe::{
    AddressError, DnsRecord, Endpoint, Error, IpAddress, ProbeAddressVisitor, ProbingInfo, ResolutionProgress,
    ResolutionResult, ResolutionStep, SocketAddress, TargetAddress,
};

fn assert_address(value: &str, address: &TargetAddress) {
    assert_eq!(&ProbeAddressVisitor.visit_str(value).unwrap(), address);
}

fn assert_error(value: &str, message: &str) {
    assert_eq!(ProbeAddressVisitor.visit_str(value).unwrap_err().message(), message);
}

fn target(hostname: &str, port: u16) -> TargetAddress {
    TargetAddress { hostname: hostname.to_string(), port }
}

#[test]
fn deserialize_without_port() {
    let address = TargetAddress {
        hostname: "mc.justchunks.net".to_string(),
        port: 25565,
    };

    assert_address("mc.justchunks.net", &address)
}

#[test]
fn deserialize_without_port_ip() {
    let address = TargetAddress {
        hostname: "123.123.123.123".to_string(),
        port: 25565,
    };

    assert_address("123.123.123.123", &address)
}

#[test]
fn deserialize_with_port() {
    let address = TargetAddress {
        hostname: "mc.justchunks.net".to_string(),
        port: 25566,
    };

    assert_address("mc.justchunks.net:25566", &address)
}

#[test]
fn deserialize_with_port_ip() {
    let address = TargetAddress {
        hostname: "123.123.123.123".to_string(),
        port: 25566,
    };

    assert_address("123.123.123.123:25566", &address)
}

#[test]
fn fail_deserialize_with_extra_colons() {
    assert_error(
        "mc.justchunks.net:test:25566",
        "invalid value: string \"test:25566\", expected a valid port number",
    )
}

#[test]
fn fail_deserialize_with_port_negative() {
    assert_error(
        "mc.justchunks.net:-5",
        "invalid value: string \"-5\", expected a valid port number",
    )
}

#[test]
fn fail_deserialize_with_port_too_low() {
    assert_error(
        "mc.justchunks.net:0",
        "invalid value: integer `0`, expected a positive port number",
    )
}

#[test]
fn fail_deserialize_with_port_too_high() {
    assert_error(
        "mc.justchunks.net:100000",
        "invalid value: string \"100000\", expected a valid port number",
    )
}

#[test]
fn fail_deserialize_with_port_non_numeric() {
    assert_error(
        "mc.justchunks.net:text",
        "invalid value: string \"text\", expected a valid port number",
    )
}

#[test]
fn fail_deserialize_with_empty() {
    assert_error("", "invalid value: string \"\", expected a non-empty hostname")
}

#[test]
fn fail_deserialize_with_empty_hostname() {
    assert_error(":25566", "invalid value: string \"\", expected a non-empty hostname")
}

#[test]
fn address_edge_cases() {
    assert_address("host:+80", &target("host", 80));
    assert_address("host:00080", &target("host", 80));
    assert_address("host:65535", &target("host", 65535));
    assert_address("grün.example:1", &target("grün.example", 1));
    assert!(matches!(ProbeAddressVisitor.visit_str("host:65536"), Err(AddressError::InvalidPort(port)) if port == "65536"));
    assert!(matches!(ProbeAddressVisitor.visit_str("host:"), Err(AddressError::InvalidPort(port)) if port.is_empty()));
    assert!(matches!(ProbeAddressVisitor.visit_str("host:+"), Err(AddressError::InvalidPort(_))));
    assert!(matches!(ProbeAddressVisitor.visit_str("host: 80"), Err(AddressError::InvalidPort(_))));
    // an illegal port is reported before an empty hostname, and that before the port zero
    assert!(matches!(ProbeAddressVisitor.visit_str(":x"), Err(AddressError::InvalidPort(_))));
    assert!(matches!(ProbeAddressVisitor.visit_str(":0"), Err(AddressError::EmptyHostname)));
    assert!(matches!(ProbeAddressVisitor.visit_str("host:0"), Err(AddressError::ZeroPort)));
}

#[test]
fn unexpected_text_is_escaped() {
    assert_error("host:a\"b\n", "invalid value: string \"a\\\"b\\n\", expected a valid port number");
}

#[test]
fn expected_form() {
    assert_eq!(ProbeAddressVisitor.expecting(), "a string in the form 'hostname' or 'hostname:port'");
}

#[test]
fn address_round_trip() {
    for address in [target("mc.justchunks.net", 25565), target("a", 1), target("10.0.0.1", 65535)] {
        assert_address(&address.display(), &address);
    }
    assert_eq!(target("mc.justchunks.net", 25566).display(), "mc.justchunks.net:25566");
}

#[test]
fn probing_info_display() {
    let mut info = ProbingInfo { target: target("host", 25565), module: Some("769".to_string()) };
    assert_eq!(info.display(), "host:25565 (769)");
    assert_eq!(info.clone().display(), "host:25565 (769)");
    info.module = None;
    assert_eq!(info.display(), "host:25565");
}

fn lookup(address: &TargetAddress, records: Option<Vec<DnsRecord>>) -> Endpoint {
    match address.to_socket_addrs(ResolutionProgress::SrvLookedUp(records)) {
        ResolutionStep::LookupIp(endpoint) => endpoint,
        other => panic!("unexpected step: {:?}", other),
    }
}

fn srv(target: &str, port: u16) -> DnsRecord {
    DnsRecord::Srv { target: target.to_string(), port }
}

#[test]
fn srv_records_are_looked_up_first() {
    match target("justchunks.net", 1337).to_socket_addrs(ResolutionProgress::Start) {
        ResolutionStep::LookupSrv(name) => assert_eq!(name, "_minecraft._tcp.justchunks.net"),
        other => panic!("unexpected step: {:?}", other),
    }
}

#[test]
fn first_srv_record_is_preferred() {
    let address = target("justchunks.net", 1337);
    let records = vec![DnsRecord::Other, srv("mc.justchunks.net.", 25565), srv("other.", 1)];
    let endpoint = lookup(&address, Some(records));
    assert_eq!(endpoint.hostname, "mc.justchunks.net.");
    assert_eq!(endpoint.port, 25565);
    assert!(endpoint.srv);
}

#[test]
fn address_is_used_without_srv_record() {
    let address = target("mc.justchunks.net", 25566);
    for records in [None, Some(vec![]), Some(vec![DnsRecord::Other, DnsRecord::Other])] {
        let endpoint = lookup(&address, records);
        assert_eq!(endpoint.hostname, "mc.justchunks.net");
        assert_eq!(endpoint.port, 25566);
        assert!(!endpoint.srv);
    }
}

fn resolve(srv: bool, addresses: Result<Vec<IpAddress>, String>) -> Result<ResolutionResult, Error> {
    let endpoint = Endpoint { hostname: "mc.justchunks.net".to_string(), port: 25565, srv };
    let progress = ResolutionProgress::IpLookedUp { endpoint, addresses };
    match target("justchunks.net", 1337).to_socket_addrs(progress) {
        ResolutionStep::Done(result) => result,
        other => panic!("unexpected step: {:?}", other),
    }
}

#[test]
fn first_ipv4_address_is_used() {
    let addresses = vec![
        IpAddress::V6([0; 16]),
        IpAddress::V4([142, 132, 245, 251]),
        IpAddress::V4([127, 0, 0, 1]),
    ];
    let expected = SocketAddress { ip: IpAddress::V4([142, 132, 245, 251]), port: 25565 };
    assert_eq!(resolve(true, Ok(addresses.clone())).unwrap(), ResolutionResult::Srv(expected));
    assert_eq!(resolve(false, Ok(addresses)).unwrap(), ResolutionResult::Plain(expected));
}

#[test]
fn resolution_errors() {
    assert_eq!(
        resolve(false, Ok(vec![IpAddress::V6([1; 16])])).unwrap_err().message(),
        "could not resolve any \"A\" DNS entries for hostname \"mc.justchunks.net\""
    );
    assert!(matches!(resolve(true, Ok(vec![])), Err(Error::CouldNotResolveIp(_))));
    assert_eq!(
        resolve(false, Err("no connections available".to_string())).unwrap_err().message(),
        "failed to resolve a DNS record: no connections available"
    );
}

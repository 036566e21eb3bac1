use mcexport::exporter::{handle_probe, handle_root, respond, Error, ProbeProgress, ProbeStep};
use mcexport::metrics::{generate_metrics_response, Metric, MetricValue};
use mcexport::ping::{self, Latency, ProbeStatus, ServerPlayer, ServerPlayers, ServerStatus, ServerVersion};
use mcexport::probe::{self, IpAddress, ProbingInfo, ResolutionResult, SocketAddress, TargetAddress};
use mcexport::timeout;
use std::collections::hash_map::DefaultHasher;
use std::hash::{Hash, Hasher};

fn info() -> ProbingInfo {
    ProbingInfo {
        target: TargetAddress { hostname: "mc.justchunks.net".to_string(), port: 25565 },
        module: None,
    }
}

fn status() -> ProbeStatus {
    let player = |name: &str| ServerPlayer { name: name.to_string(), id: "uuid".to_string() };
    ProbeStatus {
        srv: true,
        ping: Latency::new(0, 250_000_000).unwrap(),
        valid: false,
        status: ServerStatus {
            version: ServerVersion { name: "1.20.4".to_string(), protocol: -765 },
            players: ServerPlayers {
                online: 4_000_000_000,
                max: 6,
                sample: Some(vec![player("a"), player("b"), player("c")]),
            },
            favicon: Some("grün".to_string()),
        },
    }
}

const FAILED: &str = "# HELP mcexport_success Whether the probe operation was successful.\n\
    # TYPE mcexport_success gauge\n\
    mcexport_success{} 0\n\
    # EOF\n";

#[test]
fn successful_probe_reports_all_metrics() {
    let mut hasher = DefaultHasher::new();
    "1.20.4".to_string().hash(&mut hasher);
    let hash = hasher.finish() as i64;
    let gauge = |name: &str, help: &str, value: &str| {
        format!(
            "# HELP mcexport_{name} {help}.\n# TYPE mcexport_{name} gauge\nmcexport_{name}{{}} {value}\n",
            name = name,
            help = help,
            value = value
        )
    };
    let expected = gauge("success", "Whether the probe operation was successful", "1")
        + &gauge("ping_duration_seconds", "The duration that's elapsed since the probe request", "0.25")
        + &gauge("address_srv_info", "Whether there was an SRV record for the hostname", "1")
        + &gauge("address_ping_valid_info", "Whether the ping response contained the correct payload", "0")
        + &gauge("players_online_total", "The number of players that are currently online", "4000000000")
        + &gauge("players_max_total", "The number of players that can join at maximum", "6")
        + &gauge("players_samples_total", "The number of sample entries that have been sent", "3")
        + &gauge("protocol_version_info", "The numeric network protocol version", "-765")
        + &gauge("protocol_version_hash", "The numeric hash of the visual network protocol", &hash.to_string())
        + &gauge("favicon_bytes", "The size of the favicon in bytes", "5")
        + "# EOF\n";

    let response = respond(Ok(status()));
    assert_eq!(response.status, 200);
    assert_eq!(response.content_type, "application/openmetrics-text; version=1.0.0; charset=utf-8");
    assert_eq!(response.body, expected);
}

#[test]
fn optional_parts_of_the_status_count_as_zero() {
    let mut status = status();
    status.status.players.sample = None;
    status.status.favicon = None;
    let body = status.into_response().body;
    assert!(body.contains("\nmcexport_players_samples_total{} 0\n"));
    assert!(body.contains("\nmcexport_favicon_bytes{} 0\n"));
}

#[test]
fn metric_names_are_distinct() {
    let body = respond(Ok(status())).body;
    let mut names: Vec<&str> = body.lines().filter(|line| line.starts_with("# TYPE ")).collect();
    assert_eq!(names.len(), 10);
    names.sort();
    names.dedup();
    assert_eq!(names.len(), 10);
}

#[test]
fn failed_probe_reports_only_its_failure() {
    let errors = vec![
        Error::ProbeFail(probe::Error::CouldNotResolveIp("host".to_string()), info()),
        Error::PingFail(ping::Error::CannotReach, info()),
        Error::TimeoutInvalid(timeout::Error::InvalidChars("cause".to_string()), info()),
        Error::TimeoutExpired(info()),
    ];
    for error in errors {
        let response = respond(Err(error));
        assert_eq!(response.status, 200);
        assert_eq!(response.content_type, "application/openmetrics-text; version=1.0.0; charset=utf-8");
        assert_eq!(response.body, FAILED);
    }
    assert!(respond(Ok(status())).body != FAILED);
}

#[test]
fn further_metrics_follow_the_success_state() {
    let metrics = vec![
        Metric { name: "a", help: "First", value: MetricValue::Integer(i64::MIN) },
        Metric { name: "b", help: "Second", value: MetricValue::Seconds(Latency::new(2, 0).unwrap()) },
    ];
    let body = generate_metrics_response(7, &metrics).body;
    assert_eq!(
        body,
        "# HELP mcexport_success Whether the probe operation was successful.\n\
        # TYPE mcexport_success gauge\n\
        mcexport_success{} 7\n\
        # HELP mcexport_a First.\n\
        # TYPE mcexport_a gauge\n\
        mcexport_a{} -9223372036854775808\n\
        # HELP mcexport_b Second.\n\
        # TYPE mcexport_b gauge\n\
        mcexport_b{} 2.0\n\
        # EOF\n"
    );
}

#[test]
fn probe_steps() {
    let address = SocketAddress { ip: IpAddress::V4([142, 132, 245, 251]), port: 25565 };
    assert!(matches!(handle_probe(&info(), ProbeProgress::Start(Ok(()))), ProbeStep::Resolve));
    for (result, expected) in [(ResolutionResult::Srv(address), true), (ResolutionResult::Plain(address), false)] {
        match handle_probe(&info(), ProbeProgress::Resolved(Ok(result))) {
            ProbeStep::RequestStatus { addr, srv } => {
                assert_eq!(addr, address);
                assert_eq!(srv, expected);
            }
            other => panic!("unexpected step: {:?}", other),
        }
    }
    match handle_probe(&info(), ProbeProgress::Answered(Ok(status()))) {
        ProbeStep::Done(Ok(status)) => assert_eq!(status.status.players.max, 6),
        other => panic!("unexpected step: {:?}", other),
    }
}

#[test]
fn probe_failures() {
    let failure = |progress: ProbeProgress| match handle_probe(&info(), progress) {
        ProbeStep::Done(Err(error)) => {
            // the error belongs to the probe that failed
            assert_eq!(error.info().display(), "mc.justchunks.net:25565");
            error.message()
        }
        other => panic!("unexpected step: {:?}", other),
    };
    assert_eq!(
        failure(ProbeProgress::Start(Err(timeout::Error::InvalidNumber(
            "invalid float literal".to_string(),
            "x".to_string()
        )))),
        "failed to parse timeout header: the value \"x\" could not be parsed into a float: invalid float literal"
    );
    assert_eq!(
        failure(ProbeProgress::Resolved(Err(probe::Error::ResolutionFail("timed out".to_string())))),
        "failed to resolve the intended target address: failed to resolve a DNS record: timed out"
    );
    assert_eq!(
        failure(ProbeProgress::Answered(Err(ping::Error::CannotReach))),
        "failed to communicate with the target server: failed to connect to the server"
    );
    assert_eq!(failure(ProbeProgress::Expired), "scrape timeout expired while waiting for a response");
}

#[test]
fn root_page() {
    assert_eq!(handle_root(), "mcexport");
}

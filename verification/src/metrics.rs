//! This module turns the outcome of a probe into the metrics that are reported to Prometheus.

use crate::number;
use crate::ping::{Latency, ProbeStatus};
use prometheus_client::metrics::family::Family;
use prometheus_client::metrics::gauge::Gauge;
use prometheus_client::registry::Registry;
use std::collections::hash_map::DefaultHasher;
use std::hash::{Hash, Hasher};
use std::sync::atomic::AtomicU64;
use std::time::Duration;
use vstd::prelude::*;
use vstd::std_specs::hash::*;
use vstd::utf8::*;

verus! {

/// The registry of [`prometheus_client`], which holds metrics in the order in which they were registered.
#[verifier::external_type_specification]
#[verifier::external_body]
pub struct ExRegistry(Registry);

/// The prefix of the names of all metrics in a registry.
pub uninterp spec fn registry_prefix(registry: Registry) -> Seq<char>;

/// The gauges without labels in a registry, in the order in which they were registered: of each its name, its help text
/// and the text of its value.
pub uninterp spec fn registry_gauges(registry: Registry) -> Seq<(Seq<char>, Seq<char>, Seq<char>)>;

/// Whether a registry has a prefix and holds nothing but gauges without labels: no other metrics, no labels of its own,
/// no collectors and no further registries.
pub uninterp spec fn registry_is_plain(registry: Registry) -> bool;

/// The text of a number of seconds as a decimal fraction, as [`Duration::as_secs_f64`] rounds it and
/// [`prometheus_client`] writes it.
pub uninterp spec fn seconds_text(secs: u64, nanos: u32) -> Seq<char>;

/// The lines that report a gauge.
pub open spec fn gauge_lines(prefix: Seq<char>, gauge: (Seq<char>, Seq<char>, Seq<char>)) -> Seq<char> {
    let (name, help, value) = gauge;
    let full_name = prefix + "_"@ + name;
    "# HELP "@ + full_name + " "@ + help + ".\n"@ + "# TYPE "@ + full_name + " gauge\n"@ + full_name + "{} "@ + value
        + "\n"@
}

/// The lines that report the gauges of a registry, in the order in which they were registered.
pub open spec fn exposition(prefix: Seq<char>, gauges: Seq<(Seq<char>, Seq<char>, Seq<char>)>) -> Seq<char>
    decreases gauges.len(),
{
    if gauges.len() == 0 {
        Seq::empty()
    } else {
        exposition(prefix, gauges.drop_last()) + gauge_lines(prefix, gauges.last())
    }
}

/// Calls [`Registry::with_prefix`], which creates a registry that has the prefix and is empty otherwise.
#[verifier::external_body]
fn registry_with_prefix(prefix: &str) -> (registry: Registry)
    ensures
        registry_is_plain(registry),
        registry_prefix(registry) == prefix@,
        registry_gauges(registry) == Seq::<(Seq<char>, Seq<char>, Seq<char>)>::empty(),
{
    Registry::with_prefix(prefix)
}

/// Calls [`Registry::register`] with a gauge that has no labels and is set to the value.
///
/// The gauge is added behind the ones that are there. Its value is written in decimal.
#[verifier::external_body]
fn register_integer(registry: &mut Registry, name: &str, help: &str, value: i64)
    requires
        registry_is_plain(*old(registry)),
    ensures
        registry_is_plain(*final(registry)),
        registry_prefix(*final(registry)) == registry_prefix(*old(registry)),
        registry_gauges(*final(registry)) == registry_gauges(*old(registry)).push(
            (name@, help@, number::signed_decimal(value as int)),
        ),
{
    let gauge = Family::<Vec<(String, String)>, Gauge>::default();
    registry.register(name, help, gauge.clone());
    gauge.get_or_create(&Vec::new()).set(value);
}

/// Calls [`Registry::register`] with a gauge that has no labels and is set to a number of seconds.
///
/// The gauge is added behind the ones that are there. Its value is the number that [`Duration::as_secs_f64`] gives, of
/// whose digits nothing is said here.
#[verifier::external_body]
fn register_seconds(registry: &mut Registry, name: &str, help: &str, secs: u64, nanos: u32)
    requires
        registry_is_plain(*old(registry)),
        nanos < 1_000_000_000,
    ensures
        registry_is_plain(*final(registry)),
        registry_prefix(*final(registry)) == registry_prefix(*old(registry)),
        registry_gauges(*final(registry)) == registry_gauges(*old(registry)).push(
            (name@, help@, seconds_text(secs, nanos)),
        ),
{
    let gauge = Family::<Vec<(String, String)>, Gauge<_, AtomicU64>>::default();
    registry.register(name, help, gauge.clone());
    gauge.get_or_create(&Vec::new()).set(Duration::new(secs, nanos).as_secs_f64());
}

/// Calls [`prometheus_client::encoding::text::encode`] on a new buffer.
///
/// Every gauge is written with its help text, to which a full stop is added, its type and its value, and a line that
/// marks the end follows. Writing into a buffer does not fail.
#[verifier::external_body]
fn encode(registry: &Registry) -> (text: String)
    requires
        registry_is_plain(*registry),
    ensures
        text@ == exposition(registry_prefix(*registry), registry_gauges(*registry)) + "# EOF\n"@,
{
    let mut buffer = String::new();
    prometheus_client::encoding::text::encode(&mut buffer, registry)
        .expect("failed to encode metrics into the buffer");
    buffer
}

/// What a text adds to a hasher.
pub uninterp spec fn hashed_text(text: Seq<char>) -> Seq<Seq<u8>>;

/// Calls [`str::hash`], which adds to the hasher what the text alone determines.
#[verifier::external_body]
fn hash_text(text: &str, hasher: &mut DefaultHasher)
    ensures
        final(hasher)@ == old(hasher)@ + hashed_text(text@),
{
    text.hash(hasher);
}

/// The value of a metric.
#[derive(Clone, Copy, Debug)]
pub enum MetricValue {
    /// An integer.
    Integer(i64),
    /// A span of time, which is reported in seconds.
    Seconds(Latency),
}

/// A single value that is reported to Prometheus.
#[derive(Clone, Copy, Debug)]
pub struct Metric {
    /// The name, without the common prefix.
    pub name: &'static str,
    /// The help text, without a full stop.
    pub help: &'static str,
    /// The value.
    pub value: MetricValue,
}

impl View for Metric {
    type V = (Seq<char>, Seq<char>, Seq<char>);

    open spec fn view(&self) -> (Seq<char>, Seq<char>, Seq<char>) {
        (
            self.name@,
            self.help@,
            match self.value {
                MetricValue::Integer(value) => number::signed_decimal(value as int),
                MetricValue::Seconds(value) => seconds_text(value@.0, value@.1),
            },
        )
    }
}

impl Metric {
    /// Adds this metric to the registry.
    fn register(&self, registry: &mut Registry)
        requires
            registry_is_plain(*old(registry)),
        ensures
            registry_is_plain(*final(registry)),
            registry_prefix(*final(registry)) == registry_prefix(*old(registry)),
            registry_gauges(*final(registry)) == registry_gauges(*old(registry)).push(self@),
    {
        match self.value {
            MetricValue::Integer(value) => register_integer(registry, self.name, self.help, value),
            MetricValue::Seconds(value) => register_seconds(
                registry,
                self.name,
                self.help,
                value.as_secs(),
                value.subsec_nanos(),
            ),
        }
    }
}

/// The answer to a request: what an HTTP response is made of.
#[derive(Debug)]
pub struct MetricsResponse {
    /// The status code.
    pub status: u16,
    /// The type of the content.
    pub content_type: &'static str,
    /// The content.
    pub body: String,
}

/// The content of the response for a success state and further metrics.
pub open spec fn metrics_text(success_state: int, metrics: Seq<(Seq<char>, Seq<char>, Seq<char>)>) -> Seq<char> {
    let success = (
        "success"@,
        "Whether the probe operation was successful"@,
        number::signed_decimal(success_state),
    );
    exposition("mcexport"@, seq![success] + metrics) + "# EOF\n"@
}

/// Generates a response for the supplied success state and further metrics.
///
/// This initializes the [`Registry`] for this request and registers the success metric with the supplied state within
/// it. Then the further metrics are added. Finally, the metrics are encoded into a buffer and the response is created
/// with the appropriate content type and status code.
pub fn generate_metrics_response(success_state: i64, metrics: &Vec<Metric>) -> (response: MetricsResponse)
    ensures
        response.status == 200,
        response.content_type@ == "application/openmetrics-text; version=1.0.0; charset=utf-8"@,
        response.body@ == metrics_text(success_state as int, metrics@.map_values(|metric: Metric| metric@)),
{
    // create a new registry with the appropriate prefix
    let mut registry = registry_with_prefix("mcexport");

    // create and register the success metric
    let success = Metric {
        name: "success",
        help: "Whether the probe operation was successful",
        value: MetricValue::Integer(success_state),
    };
    success.register(&mut registry);

    // add dynamic, desired metrics
    let ghost gauges = metrics@.map_values(|metric: Metric| metric@);
    let mut i: usize = 0;
    while i < metrics.len()
        invariant
            i <= metrics.len(),
            gauges == metrics@.map_values(|metric: Metric| metric@),
            registry_is_plain(registry),
            registry_prefix(registry) == "mcexport"@,
            registry_gauges(registry) == seq![success@] + gauges.take(i as int),
        decreases metrics.len() - i,
    {
        metrics[i].register(&mut registry);
        proof {
            assert(gauges.take(i as int).push(gauges[i as int]) == gauges.take(i + 1));
        }
        i = i + 1;
    }
    proof {
        assert(gauges.take(i as int) == gauges);
    }

    // encode the metrics content into the buffer and wrap it into a response
    MetricsResponse {
        status: 200,
        content_type: "application/openmetrics-text; version=1.0.0; charset=utf-8",
        body: encode(&registry),
    }
}

/// The lines that report two runs of gauges are those of the first run followed by those of the second.
pub proof fn lemma_exposition_of_both(
    prefix: Seq<char>,
    first: Seq<(Seq<char>, Seq<char>, Seq<char>)>,
    second: Seq<(Seq<char>, Seq<char>, Seq<char>)>,
)
    ensures
        exposition(prefix, first + second) == exposition(prefix, first) + exposition(prefix, second),
    decreases second.len(),
{
    let all = first + second;
    if second.len() == 0 {
        assert(all == first);
        assert(exposition(prefix, first) + Seq::<char>::empty() == exposition(prefix, first));
    } else {
        lemma_exposition_of_both(prefix, first, second.drop_last());
        assert(all.drop_last() == first + second.drop_last());
        let (x, y) = (exposition(prefix, first), exposition(prefix, second.drop_last()));
        let z = gauge_lines(prefix, second.last());
        assert((x + y) + z == x + (y + z));
    }
}

/// The lines that report a single gauge.
pub proof fn lemma_exposition_of_one(prefix: Seq<char>, gauge: (Seq<char>, Seq<char>, Seq<char>))
    ensures
        exposition(prefix, seq![gauge]) == gauge_lines(prefix, gauge),
{
    assert(seq![gauge].drop_last() == Seq::<(Seq<char>, Seq<char>, Seq<char>)>::empty());
    assert(exposition(prefix, seq![gauge].drop_last()) == Seq::<char>::empty());
}

/// A response reports the success state first, then every metric that it was given, in this order and with nothing in
/// between, and ends with the mark of its end.
pub proof fn law_response_reports_every_metric(
    success_state: int,
    metrics: Seq<(Seq<char>, Seq<char>, Seq<char>)>,
    i: int,
)
    requires
        0 <= i < metrics.len(),
    ensures
        metrics_text(success_state, metrics) == gauge_lines(
            "mcexport"@,
            (
                "success"@,
                "Whether the probe operation was successful"@,
                number::signed_decimal(success_state),
            ),
        ) + exposition("mcexport"@, metrics.take(i)) + gauge_lines("mcexport"@, metrics[i]) + exposition(
            "mcexport"@,
            metrics.skip(i + 1),
        ) + "# EOF\n"@,
{
    let prefix = "mcexport"@;
    let success = ("success"@, "Whether the probe operation was successful"@, number::signed_decimal(success_state));
    lemma_exposition_of_both(prefix, seq![success], metrics);
    lemma_exposition_of_one(prefix, success);
    assert(metrics == metrics.take(i) + (seq![metrics[i]] + metrics.skip(i + 1)));
    lemma_exposition_of_both(prefix, metrics.take(i), seq![metrics[i]] + metrics.skip(i + 1));
    lemma_exposition_of_both(prefix, seq![metrics[i]], metrics.skip(i + 1));
    lemma_exposition_of_one(prefix, metrics[i]);
    let (x, y) = (gauge_lines(prefix, success), exposition(prefix, metrics.take(i)));
    let (z, w) = (gauge_lines(prefix, metrics[i]), exposition(prefix, metrics.skip(i + 1)));
    assert(x + (y + (z + w)) == x + y + z + w);
}

/// The lines that report several gauges start with those of the first one.
pub proof fn lemma_exposition_starts_with(
    prefix: Seq<char>,
    first: (Seq<char>, Seq<char>, Seq<char>),
    others: Seq<(Seq<char>, Seq<char>, Seq<char>)>,
)
    ensures
        exposition(prefix, seq![first] + others).len() >= gauge_lines(prefix, first).len(),
        exposition(prefix, seq![first] + others).take(gauge_lines(prefix, first).len() as int) == gauge_lines(
            prefix,
            first,
        ),
    decreases others.len(),
{
    let all = seq![first] + others;
    if others.len() == 0 {
        assert(all.drop_last() == Seq::<(Seq<char>, Seq<char>, Seq<char>)>::empty());
        assert(exposition(prefix, all.drop_last()) == Seq::<char>::empty());
    } else {
        lemma_exposition_starts_with(prefix, first, others.drop_last());
        assert(all.drop_last() == seq![first] + others.drop_last());
    }
}

/// Where the success state stands in a response.
pub proof fn lemma_success_state(success_state: int, metrics: Seq<(Seq<char>, Seq<char>, Seq<char>)>)
    ensures
        ({
            let k = gauge_head("mcexport"@, "success"@, "Whether the probe operation was successful"@).len();
            metrics_text(success_state, metrics)[k as int] == number::signed_decimal(success_state)[0]
        }),
{
    let prefix = "mcexport"@;
    let (name, help) = ("success"@, "Whether the probe operation was successful"@);
    let value = number::signed_decimal(success_state);
    let success = (name, help, value);
    lemma_exposition_starts_with(prefix, success, metrics);
    number::lemma_decimal(if success_state < 0 { (-success_state) as nat } else { success_state as nat });
    let head = gauge_head(prefix, name, help);
    let lines = gauge_lines(prefix, success);
    let all = exposition(prefix, seq![success] + metrics);
    assert(lines == head + value + "\n"@);
    assert(lines[head.len() as int] == value[0]);
    assert(all.take(lines.len() as int)[head.len() as int] == lines[head.len() as int]);
    assert(metrics_text(success_state, metrics)[head.len() as int] == all[head.len() as int]);
}

/// The number that stands for a state that either holds or does not.
pub open spec fn flag(state: bool) -> int {
    if state {
        1
    } else {
        0
    }
}

impl ProbeStatus {
    /// What is reported of the status of a server, in this order.
    pub open spec fn gauges(&self) -> Seq<(Seq<char>, Seq<char>, Seq<char>)> {
        let samples = match self.status.players.sample {
            Some(samples) => samples@.len(),
            None => 0,
        };
        let favicon_bytes = match self.status.favicon {
            Some(icon) => encode_utf8(icon@).len(),
            None => 0,
        };
        let version_hash = DefaultHasher::spec_finish(hashed_text(self.status.version.name@));
        seq![
            (
                "ping_duration_seconds"@,
                "The duration that's elapsed since the probe request"@,
                seconds_text(self.ping@.0, self.ping@.1),
            ),
            (
                "address_srv_info"@,
                "Whether there was an SRV record for the hostname"@,
                number::signed_decimal(flag(self.srv)),
            ),
            (
                "address_ping_valid_info"@,
                "Whether the ping response contained the correct payload"@,
                number::signed_decimal(flag(self.valid)),
            ),
            (
                "players_online_total"@,
                "The number of players that are currently online"@,
                number::signed_decimal(self.status.players.online as int),
            ),
            (
                "players_max_total"@,
                "The number of players that can join at maximum"@,
                number::signed_decimal(self.status.players.max as int),
            ),
            (
                "players_samples_total"@,
                "The number of sample entries that have been sent"@,
                number::signed_decimal(samples as u32 as int),
            ),
            (
                "protocol_version_info"@,
                "The numeric network protocol version"@,
                number::signed_decimal(self.status.version.protocol as int),
            ),
            (
                "protocol_version_hash"@,
                "The numeric hash of the visual network protocol"@,
                number::signed_decimal(version_hash as i64 as int),
            ),
            (
                "favicon_bytes"@,
                "The size of the favicon in bytes"@,
                number::signed_decimal(favicon_bytes as u32 as int),
            ),
        ]
    }

    /// Returns the metrics that report this status.
    pub fn metrics(&self) -> (metrics: Vec<Metric>)
        ensures
            metrics@.map_values(|metric: Metric| metric@) == self.gauges(),
    {
        let mut hasher = DefaultHasher::new();
        hash_text(self.status.version.name.as_str(), &mut hasher);
        proof {
            assert(Seq::<Seq<u8>>::empty() + hashed_text(self.status.version.name@) == hashed_text(
                self.status.version.name@,
            ));
        }
        let samples: usize = match &self.status.players.sample {
            Some(samples) => samples.len(),
            None => 0,
        };
        let size: usize = match &self.status.favicon {
            Some(icon) => icon.as_str().as_bytes().len(),
            None => 0,
        };
        vec![
            Metric {
                name: "ping_duration_seconds",
                help: "The duration that's elapsed since the probe request",
                value: MetricValue::Seconds(self.ping),
            },
            Metric {
                name: "address_srv_info",
                help: "Whether there was an SRV record for the hostname",
                value: MetricValue::Integer(if self.srv { 1 } else { 0 }),
            },
            Metric {
                name: "address_ping_valid_info",
                help: "Whether the ping response contained the correct payload",
                value: MetricValue::Integer(if self.valid { 1 } else { 0 }),
            },
            Metric {
                name: "players_online_total",
                help: "The number of players that are currently online",
                value: MetricValue::Integer(self.status.players.online as i64),
            },
            Metric {
                name: "players_max_total",
                help: "The number of players that can join at maximum",
                value: MetricValue::Integer(self.status.players.max as i64),
            },
            Metric {
                name: "players_samples_total",
                help: "The number of sample entries that have been sent",
                value: MetricValue::Integer(samples as u32 as i64),
            },
            Metric {
                name: "protocol_version_info",
                help: "The numeric network protocol version",
                value: MetricValue::Integer(self.status.version.protocol),
            },
            Metric {
                name: "protocol_version_hash",
                help: "The numeric hash of the visual network protocol",
                value: MetricValue::Integer(hasher.finish() as i64),
            },
            Metric {
                name: "favicon_bytes",
                help: "The size of the favicon in bytes",
                value: MetricValue::Integer(size as u32 as i64),
            },
        ]
    }

    /// Returns the response to a probe that was successful: the success state one along with the metrics of the server.
    pub fn into_response(self) -> (response: MetricsResponse)
        ensures
            response.status == 200,
            response.content_type@ == "application/openmetrics-text; version=1.0.0; charset=utf-8"@,
            response.body@ == metrics_text(1, self.gauges()),
    {
        // return the generated metrics
        generate_metrics_response(1, &self.metrics())
    }
}

/// The names of all metrics that a response reports.
pub open spec fn metric_names(gauges: Seq<(Seq<char>, Seq<char>, Seq<char>)>) -> Seq<Seq<char>> {
    seq!["success"@] + gauges.map_values(|gauge: (Seq<char>, Seq<char>, Seq<char>)| gauge.0)
}

/// No response reports two metrics under the same name.
pub proof fn law_metric_names_are_distinct(status: ProbeStatus)
    ensures
        metric_names(status.gauges()).no_duplicates(),
{
    reveal_strlit("success");
    reveal_strlit("ping_duration_seconds");
    reveal_strlit("address_srv_info");
    reveal_strlit("address_ping_valid_info");
    reveal_strlit("players_online_total");
    reveal_strlit("players_max_total");
    reveal_strlit("players_samples_total");
    reveal_strlit("protocol_version_info");
    reveal_strlit("protocol_version_hash");
    reveal_strlit("favicon_bytes");
    let names = seq![
        "success"@,
        "ping_duration_seconds"@,
        "address_srv_info"@,
        "address_ping_valid_info"@,
        "players_online_total"@,
        "players_max_total"@,
        "players_samples_total"@,
        "protocol_version_info"@,
        "protocol_version_hash"@,
        "favicon_bytes"@,
    ];
    assert(metric_names(status.gauges()) =~= names);
    // names of the same length differ in one of these characters
    assert("ping_duration_seconds"@[1] == 'i');
    assert("players_samples_total"@[1] == 'l');
    assert("protocol_version_info"@[1] == 'r');
    assert("protocol_version_hash"@[1] == 'r');
    assert("protocol_version_info"@[17] == 'i');
    assert("protocol_version_hash"@[17] == 'h');
    assert forall|i: int, j: int| 0 <= i < j < names.len() implies names[i] != names[j] by {
        assert(names[i].len() != names[j].len() || names[i][1] != names[j][1] || names[i][17] != names[j][17]);
    }
}

/// Whether the gauge with this name is among the gauges, exactly once, and its value is this number.
pub open spec fn reports(gauges: Seq<(Seq<char>, Seq<char>, Seq<char>)>, name: Seq<char>, value: int) -> bool {
    &&& exists|i: int| 0 <= i < gauges.len() && (#[trigger] gauges[i]).0 == name
    &&& forall|i: int|
        0 <= i < gauges.len() && (#[trigger] gauges[i]).0 == name ==> number::parse_signed(
            gauges[i].2,
            i64::MIN as int,
            i64::MAX as int,
        ) == Some(value)
}

/// The gauge of each name reports its own part of the status: one or zero for what holds or does not, the numbers that
/// the server sent, the low 32 bits of how many sampled players there are and how many bytes the favicon has, and the
/// hash of the version name as a signed number.
pub proof fn law_gauges_report_the_status(status: ProbeStatus)
    ensures
        status.gauges().len() == 9,
        reports(status.gauges(), "address_srv_info"@, if status.srv { 1 } else { 0 }),
        reports(status.gauges(), "address_ping_valid_info"@, if status.valid { 1 } else { 0 }),
        reports(status.gauges(), "players_online_total"@, status.status.players.online as int),
        reports(status.gauges(), "players_max_total"@, status.status.players.max as int),
        reports(
            status.gauges(),
            "players_samples_total"@,
            match status.status.players.sample {
                Some(sample) => sample@.len() as u32 as int,
                None => 0,
            },
        ),
        reports(status.gauges(), "protocol_version_info"@, status.status.version.protocol as int),
        reports(
            status.gauges(),
            "protocol_version_hash"@,
            DefaultHasher::spec_finish(hashed_text(status.status.version.name@)) as i64 as int,
        ),
        reports(
            status.gauges(),
            "favicon_bytes"@,
            match status.status.favicon {
                Some(icon) => encode_utf8(icon@).len() as u32 as int,
                None => 0,
            },
        ),
        forall|i: int|
            0 <= i < 9 && (#[trigger] status.gauges()[i]).0 == "ping_duration_seconds"@ ==> status.gauges()[i].2
                == seconds_text(status.ping@.0, status.ping@.1),
        status.gauges()[0].0 == "ping_duration_seconds"@,
{
    let gauges = status.gauges();
    law_metric_names_are_distinct(status);
    let names = metric_names(gauges);
    assert forall|i: int, j: int| 0 <= i < 9 && 0 <= j < 9 && gauges[i].0 == gauges[j].0 implies i == j by {
        assert(names[i + 1] == gauges[i].0 && names[j + 1] == gauges[j].0);
    }
    let (min, max) = (i64::MIN as int, i64::MAX as int);
    number::law_signed_decimal_round_trip(0, min, max);
    number::law_signed_decimal_round_trip(1, min, max);
    number::law_signed_decimal_round_trip(status.status.players.online as int, min, max);
    number::law_signed_decimal_round_trip(status.status.players.max as int, min, max);
    number::law_signed_decimal_round_trip(status.status.version.protocol as int, min, max);
    let samples = match status.status.players.sample {
        Some(sample) => sample@.len(),
        None => 0,
    };
    number::law_signed_decimal_round_trip(samples as u32 as int, min, max);
    let size = match status.status.favicon {
        Some(icon) => encode_utf8(icon@).len(),
        None => 0,
    };
    number::law_signed_decimal_round_trip(size as u32 as int, min, max);
    let hash = DefaultHasher::spec_finish(hashed_text(status.status.version.name@));
    number::law_signed_decimal_round_trip(hash as i64 as int, min, max);
    assert(gauges[1].0 == "address_srv_info"@);
    assert(gauges[2].0 == "address_ping_valid_info"@);
    assert(gauges[3].0 == "players_online_total"@);
    assert(gauges[4].0 == "players_max_total"@);
    assert(gauges[5].0 == "players_samples_total"@);
    assert(gauges[6].0 == "protocol_version_info"@);
    assert(gauges[7].0 == "protocol_version_hash"@);
    assert(gauges[8].0 == "favicon_bytes"@);
}

/// The lines that report a gauge up to its value.
pub open spec fn gauge_head(prefix: Seq<char>, name: Seq<char>, help: Seq<char>) -> Seq<char> {
    let full_name = prefix + "_"@ + name;
    "# HELP "@ + full_name + " "@ + help + ".\n"@ + "# TYPE "@ + full_name + " gauge\n"@ + full_name + "{} "@
}

/// Texts that agree up to and behind values without spaces agree in these values.
proof fn lemma_value_is_determined(
    front1: Seq<char>,
    front2: Seq<char>,
    head: Seq<char>,
    value1: Seq<char>,
    value2: Seq<char>,
    tail: Seq<char>,
)
    requires
        front1 + head + value1 + tail == front2 + head + value2 + tail,
        head.len() > 0,
        head.last() == ' ',
        !value1.contains(' '),
        !value2.contains(' '),
    ensures
        value1 == value2,
        front1 == front2,
{
    let text1 = front1 + head + value1 + tail;
    let text2 = front2 + head + value2 + tail;
    let (n, m) = (value1.len() as int, value2.len() as int);
    let end = text1.len() - tail.len();
    if n > m {
        // where the second head ends, the first value goes on
        assert(text2[end - m - 1] == head.last());
        assert(text1[end - m - 1] == value1[n - m - 1]);
        assert(value1.contains(value1[n - m - 1]));
    }
    if m > n {
        assert(text1[end - n - 1] == head.last());
        assert(text2[end - n - 1] == value2[m - n - 1]);
        assert(value2.contains(value2[m - n - 1]));
    }
    assert forall|i: int| 0 <= i < n implies value1[i] == value2[i] by {
        assert(text1[end - n + i] == value1[i]);
        assert(text2[end - n + i] == value2[i]);
    }
    assert forall|i: int| 0 <= i < front1.len() implies front1[i] == front2[i] by {
        assert(text1[i] == front1[i]);
        assert(text2[i] == front2[i]);
    }
    assert(value1 == value2);
    assert(front1 == front2);
}

/// How the lines of gauges end: with the value of the last gauge, behind a space.
proof fn lemma_last_value(prefix: Seq<char>, gauges: Seq<(Seq<char>, Seq<char>, Seq<char>)>)
    requires
        gauges.len() > 0,
    ensures
        ({
            let last = gauges.last();
            let head = gauge_head(prefix, last.0, last.1);
            &&& head.len() > 0
            &&& head.last() == ' '
            &&& exposition(prefix, gauges) == exposition(prefix, gauges.drop_last()) + head + last.2 + "\n"@
        }),
{
    let last = gauges.last();
    let head = gauge_head(prefix, last.0, last.1);
    let front = exposition(prefix, gauges.drop_last());
    reveal_strlit("{} ");
    assert(head.last() == "{} "@[2]);
    assert(gauge_lines(prefix, last) == head + last.2 + "\n"@);
    assert(front + (head + last.2 + "\n"@) == front + head + last.2 + "\n"@);
}

/// Gauges that differ only in values without spaces are told apart by their lines.
proof fn lemma_exposition_determines_values(
    prefix: Seq<char>,
    a: Seq<(Seq<char>, Seq<char>, Seq<char>)>,
    b: Seq<(Seq<char>, Seq<char>, Seq<char>)>,
    kept: nat,
)
    requires
        exposition(prefix, a) == exposition(prefix, b),
        a.len() == b.len(),
        kept <= a.len(),
        forall|i: int| 0 <= i < a.len() ==> (#[trigger] a[i]).0 == b[i].0 && a[i].1 == b[i].1,
        forall|i: int| kept <= i < a.len() ==> !(#[trigger] a[i]).2.contains(' '),
        forall|i: int| kept <= i < b.len() ==> !(#[trigger] b[i]).2.contains(' '),
    ensures
        exposition(prefix, a.take(kept as int)) == exposition(prefix, b.take(kept as int)),
        forall|i: int| kept <= i < a.len() ==> #[trigger] a[i] == b[i],
    decreases a.len(),
{
    if kept < a.len() {
        let (x, y) = (a.last(), b.last());
        assert(a[a.len() - 1].0 == b[a.len() - 1].0);
        let head = gauge_head(prefix, x.0, x.1);
        let (front1, front2) = (exposition(prefix, a.drop_last()), exposition(prefix, b.drop_last()));
        lemma_last_value(prefix, a);
        lemma_last_value(prefix, b);
        lemma_value_is_determined(front1, front2, head, x.2, y.2, "\n"@);
        assert forall|i: int| 0 <= i < a.len() - 1 implies (#[trigger] a.drop_last()[i]).0 == b.drop_last()[i].0
            && a.drop_last()[i].1 == b.drop_last()[i].1 by {
            assert(a[i].0 == b[i].0);
        }
        lemma_exposition_determines_values(prefix, a.drop_last(), b.drop_last(), kept);
        assert(a.drop_last().take(kept as int) == a.take(kept as int));
        assert(b.drop_last().take(kept as int) == b.take(kept as int));
        assert forall|i: int| kept <= i < a.len() implies #[trigger] a[i] == b[i] by {
            if i < a.len() - 1 {
                assert(a.drop_last()[i] == b.drop_last()[i]);
            } else {
                assert(a[i] == x && b[i] == y);
            }
        }
    } else {
        assert(a.take(kept as int) == a);
        assert(b.take(kept as int) == b);
    }
}

/// The text of a number has no spaces.
proof fn lemma_number_has_no_space(n: int)
    ensures
        !number::signed_decimal(n).contains(' '),
{
    let text = number::signed_decimal(n);
    number::lemma_decimal(if n < 0 { (-n) as nat } else { n as nat });
    assert forall|i: int| 0 <= i < text.len() implies text[i] != ' ' by {
        if n < 0 {
            if i > 0 {
                assert(text[i] == number::decimal((-n) as nat)[i - 1]);
                assert(number::is_digit(number::decimal((-n) as nat)[i - 1]));
            }
        } else {
            assert(number::is_digit(number::decimal(n as nat)[i]));
        }
    }
}

/// Two responses are the same only if the servers are the same in everything that is reported: a response tells whether
/// the ping was valid and an SRV record was used, the players, the version and its hash, the number of samples, the size
/// of the favicon, and the text of the ping duration.
pub proof fn law_response_determines_what_is_reported(one: ProbeStatus, other: ProbeStatus)
    requires
        metrics_text(1, one.gauges()) == metrics_text(1, other.gauges()),
    ensures
        one.gauges() == other.gauges(),
        one.srv == other.srv,
        one.valid == other.valid,
        one.status.players.online == other.status.players.online,
        one.status.players.max == other.status.players.max,
        one.status.version.protocol == other.status.version.protocol,
        seconds_text(one.ping@.0, one.ping@.1) == seconds_text(other.ping@.0, other.ping@.1),
{
    let prefix = "mcexport"@;
    let success = ("success"@, "Whether the probe operation was successful"@, number::signed_decimal(1));
    let (a, b) = (seq![success] + one.gauges(), seq![success] + other.gauges());
    let end = "# EOF\n"@;
    assert(exposition(prefix, a) == exposition(prefix, b)) by {
        let (x, y) = (exposition(prefix, a), exposition(prefix, b));
        assert(metrics_text(1, one.gauges()) == x + end);
        assert(metrics_text(1, other.gauges()) == y + end);
        assert((x + end).len() == (y + end).len());
        assert(x == (x + end).take(x.len() as int));
        assert(y == (y + end).take(y.len() as int));
    }
    lemma_gauges_have_no_space(one);
    lemma_gauges_have_no_space(other);
    assert forall|i: int| 2 <= i < a.len() implies !(#[trigger] a[i]).2.contains(' ') by {
        assert(a[i] == one.gauges()[i - 1]);
    }
    assert forall|i: int| 2 <= i < b.len() implies !(#[trigger] b[i]).2.contains(' ') by {
        assert(b[i] == other.gauges()[i - 1]);
    }
    lemma_exposition_determines_values(prefix, a, b, 2);
    lemma_second_value(prefix, a, b);
    assert(a[1] == b[1]);
    assert forall|i: int| 0 <= i < one.gauges().len() implies one.gauges()[i] == other.gauges()[i] by {
        assert(a[i + 1] == one.gauges()[i]);
        assert(b[i + 1] == other.gauges()[i]);
    }
    assert(one.gauges() == other.gauges());
    law_gauges_report_the_status(one);
    law_gauges_report_the_status(other);
    lemma_reports_once(one.gauges(), "address_srv_info"@);
    lemma_reports_once(one.gauges(), "address_ping_valid_info"@);
    lemma_reports_once(one.gauges(), "players_online_total"@);
    lemma_reports_once(one.gauges(), "players_max_total"@);
    lemma_reports_once(one.gauges(), "protocol_version_info"@);
}

/// A gauge reports one value only.
proof fn lemma_reports_once(gauges: Seq<(Seq<char>, Seq<char>, Seq<char>)>, name: Seq<char>)
    ensures
        forall|v: int, w: int| #[trigger] reports(gauges, name, v) && #[trigger] reports(gauges, name, w) ==> v == w,
{
}

/// All gauges of a status but the first have values without spaces.
proof fn lemma_gauges_have_no_space(status: ProbeStatus)
    ensures
        status.gauges().len() == 9,
        forall|i: int| 1 <= i < 9 ==> !(#[trigger] status.gauges()[i]).2.contains(' '),
        forall|i: int, other: ProbeStatus|
            0 <= i < 9 ==> (#[trigger] status.gauges()[i]).0 == (#[trigger] other.gauges()[i]).0
                && status.gauges()[i].1 == other.gauges()[i].1,
{
    assert forall|n: int| !(#[trigger] number::signed_decimal(n)).contains(' ') by {
        lemma_number_has_no_space(n);
    }
}

/// If two gauges are reported and the first ones are the same, so are the second ones.
proof fn lemma_second_value(
    prefix: Seq<char>,
    a: Seq<(Seq<char>, Seq<char>, Seq<char>)>,
    b: Seq<(Seq<char>, Seq<char>, Seq<char>)>,
)
    requires
        a.len() >= 2,
        b.len() >= 2,
        a[0] == b[0],
        a[1].0 == b[1].0,
        a[1].1 == b[1].1,
        exposition(prefix, a.take(2)) == exposition(prefix, b.take(2)),
    ensures
        a[1] == b[1],
{
    let (x, y) = (a.take(2), b.take(2));
    assert(x.drop_last() == seq![a[0]]);
    assert(y.drop_last() == seq![a[0]]);
    let front = exposition(prefix, seq![a[0]]) + gauge_head(prefix, a[1].0, a[1].1);
    let (v, w) = (a[1].2, b[1].2);
    lemma_last_value(prefix, x);
    lemma_last_value(prefix, y);
    assert(x.last() == a[1] && y.last() == b[1]);
    assert((front + v + "\n"@).len() == (front + w + "\n"@).len());
    assert forall|i: int| 0 <= i < v.len() implies v[i] == w[i] by {
        assert((front + v + "\n"@)[front.len() + i] == v[i]);
        assert((front + w + "\n"@)[front.len() + i] == w[i]);
    }
    assert(v == w);
}

} // verus!

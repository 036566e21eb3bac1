//! This module handles the requests to the endpoints of mcexport.
//!
//! Prometheus sends information on the target of a probe, and the probe endpoint answers with the status and metrics of
//! the ping operation. A probe that fails for whatever reason is answered as well, with the information that it was not
//! successful.

use crate::metrics::{self, generate_metrics_response, MetricsResponse};
use crate::number;
use crate::ping::{self, ProbeStatus};
use crate::probe::{self, ProbingInfo, ResolutionResult, SocketAddress};
use crate::protocol;
use crate::timeout;
use vstd::prelude::*;
use vstd::string::*;

verus! {

/// The public response error wrapper for all errors that can be relayed to the caller.
///
/// This wraps all errors of the child modules into their own error type, so that they can be forwarded to the caller
/// of the probe requests. Those errors occur while trying to assemble the response for a specific probe and are then
/// wrapped into a parent type so that they can be more easily traced.
#[derive(Debug)]
pub enum Error {
    /// An error occurred while resolving the target address.
    ProbeFail(probe::Error, ProbingInfo),
    /// An error occurred while communicating with the target server.
    PingFail(ping::Error, ProbingInfo),
    /// An error occurred while trying to read and parse the supplied timeout.
    TimeoutInvalid(timeout::Error, ProbingInfo),
    /// The supplied timeout expired before the response was there.
    TimeoutExpired(ProbingInfo),
}

impl Error {
    /// The text that describes this error.
    pub open spec fn text(&self) -> Seq<char> {
        match self {
            Error::ProbeFail(cause, _) => "failed to resolve the intended target address: "@ + cause.text(),
            Error::PingFail(cause, _) => "failed to communicate with the target server: "@ + cause.text(),
            Error::TimeoutInvalid(cause, _) => "failed to parse timeout header: "@ + cause.text(),
            Error::TimeoutExpired(_) => "scrape timeout expired while waiting for a response"@,
        }
    }

    /// Returns the text that describes this error.
    pub fn message(&self) -> (text: String)
        ensures
            text@ == self.text(),
    {
        match self {
            Error::ProbeFail(cause, _) => {
                let mut text = "failed to resolve the intended target address: ".to_owned();
                text.append(cause.message().as_str());
                text
            },
            Error::PingFail(cause, _) => {
                let mut text = "failed to communicate with the target server: ".to_owned();
                text.append(cause.message().as_str());
                text
            },
            Error::TimeoutInvalid(cause, _) => {
                let mut text = "failed to parse timeout header: ".to_owned();
                text.append(cause.message().as_str());
                text
            },
            Error::TimeoutExpired(_) => "scrape timeout expired while waiting for a response".to_owned(),
        }
    }

    /// Returns the information on the probe that failed.
    pub fn info(&self) -> (info: &ProbingInfo)
        ensures
            match self {
                Error::ProbeFail(_, failed) => info == failed,
                Error::PingFail(_, failed) => info == failed,
                Error::TimeoutInvalid(_, failed) => info == failed,
                Error::TimeoutExpired(failed) => info == failed,
            },
    {
        match self {
            Error::ProbeFail(_, info) => info,
            Error::PingFail(_, info) => info,
            Error::TimeoutInvalid(_, info) => info,
            Error::TimeoutExpired(info) => info,
        }
    }

    /// Returns the response to a probe that failed: the success state zero and nothing else.
    pub fn into_response(self) -> (response: MetricsResponse)
        ensures
            response.status == 200,
            response.content_type@ == "application/openmetrics-text; version=1.0.0; charset=utf-8"@,
            response.body@ == metrics::metrics_text(0, Seq::empty()),
    {
        // respond with the unsuccessful metrics
        let nothing: Vec<metrics::Metric> = Vec::new();
        proof {
            assert(nothing@.map_values(|metric: metrics::Metric| metric@) == Seq::<
                (Seq<char>, Seq<char>, Seq<char>),
            >::empty());
        }
        generate_metrics_response(0, &nothing)
    }
}

/// How far the work on a probe request has come.
#[derive(Debug)]
pub enum ProbeProgress {
    /// The timeout of the request was determined, or could not be.
    Start(Result<(), timeout::Error>),
    /// The resolution of the target address ended.
    Resolved(Result<ResolutionResult, probe::Error>),
    /// Requesting the status of the server ended.
    Answered(Result<ProbeStatus, ping::Error>),
    /// The timeout expired before that.
    Expired,
}

/// What is to be done next for a probe request.
#[derive(Debug)]
pub enum ProbeStep {
    /// Resolve the target address. The timeout starts here.
    Resolve,
    /// Request the status of the server.
    RequestStatus {
        /// The address of the server.
        addr: SocketAddress,
        /// Whether the address came from an SRV record.
        srv: bool,
    },
    /// Nothing: this is the outcome.
    Done(Result<ProbeStatus, Error>),
}

/// What is to be done next for a probe request.
pub open spec fn probe_step(info: ProbingInfo, progress: ProbeProgress) -> ProbeStep {
    match progress {
        ProbeProgress::Start(Ok(_)) => ProbeStep::Resolve,
        ProbeProgress::Start(Err(error)) => ProbeStep::Done(Err(Error::TimeoutInvalid(error, info))),
        ProbeProgress::Resolved(Ok(ResolutionResult::Srv(addr))) => ProbeStep::RequestStatus { addr, srv: true },
        ProbeProgress::Resolved(Ok(ResolutionResult::Plain(addr))) => ProbeStep::RequestStatus { addr, srv: false },
        ProbeProgress::Resolved(Err(error)) => ProbeStep::Done(Err(Error::ProbeFail(error, info))),
        ProbeProgress::Answered(Ok(status)) => ProbeStep::Done(Ok(status)),
        ProbeProgress::Answered(Err(error)) => ProbeStep::Done(Err(Error::PingFail(error, info))),
        ProbeProgress::Expired => ProbeStep::Done(Err(Error::TimeoutExpired(info))),
    }
}

/// Decides what is to be done next to answer a request on the probing path "/probe".
///
/// This endpoint is invoked by Prometheus' probing requests and issues pings to the requested targets. Prometheus will
/// send [info][ProbingInfo] on the corresponding target, and this endpoint will answer with the status and metrics of
/// this ping operation. The ping is only started once the request comes in and Prometheus is responsible for scheduling
/// the requests to this endpoint regularly.
pub fn handle_probe(info: &ProbingInfo, progress: ProbeProgress) -> (step: ProbeStep)
    ensures
        step == probe_step(*info, progress),
{
    match progress {
        // try to resolve the real probe address
        ProbeProgress::Start(Ok(_)) => ProbeStep::Resolve,
        ProbeProgress::Start(Err(error)) => ProbeStep::Done(Err(Error::TimeoutInvalid(error, info.clone()))),
        // issue the status request
        ProbeProgress::Resolved(Ok(ResolutionResult::Srv(addr))) => ProbeStep::RequestStatus { addr, srv: true },
        ProbeProgress::Resolved(Ok(ResolutionResult::Plain(addr))) => ProbeStep::RequestStatus { addr, srv: false },
        ProbeProgress::Resolved(Err(error)) => ProbeStep::Done(Err(Error::ProbeFail(error, info.clone()))),
        // handle timeout error and value return
        ProbeProgress::Answered(Ok(status)) => ProbeStep::Done(Ok(status)),
        ProbeProgress::Answered(Err(error)) => ProbeStep::Done(Err(Error::PingFail(error, info.clone()))),
        ProbeProgress::Expired => ProbeStep::Done(Err(Error::TimeoutExpired(info.clone()))),
    }
}

/// The content of the answer to a probe request.
pub open spec fn answer(outcome: Result<ProbeStatus, Error>) -> Seq<char> {
    match outcome {
        Ok(status) => metrics::metrics_text(1, status.gauges()),
        Err(_) => metrics::metrics_text(0, Seq::empty()),
    }
}

/// Returns the response to a probe request with this outcome.
pub fn respond(outcome: Result<ProbeStatus, Error>) -> (response: MetricsResponse)
    ensures
        response.status == 200,
        response.content_type@ == "application/openmetrics-text; version=1.0.0; charset=utf-8"@,
        response.body@ == answer(outcome),
{
    match outcome {
        Ok(status) => status.into_response(),
        Err(error) => error.into_response(),
    }
}

/// Returns the page that answers all requests on the root path "/".
///
/// It statically returns "mcexport" so that it can be used as a startup probe in Kubernetes. That means that this
/// endpoint can be checked for its response: Once there is a response, this means that mcexport is successfully
/// initialized and probe requests may be received and handled. It can also be used as a liveness probe to check whether
/// mcexport is still running as expected. Since mcexport is stateless and has no permanent connections, this endpoint
/// can accurately reflect the readiness and liveness of mcexport.
pub fn handle_root() -> (page: &'static str)
    ensures
        page@ == "mcexport"@,
{
    "mcexport"
}

/// A probe that fails, for whatever reason and at whatever target, is answered with the success state zero and with
/// nothing else.
pub proof fn law_failed_probe_reports_only_its_failure(info: ProbingInfo, progress: ProbeProgress)
    ensures
        probe_step(info, progress) matches ProbeStep::Done(Err(error)) ==> answer(Err(error))
            == metrics::gauge_lines(
            "mcexport"@,
            ("success"@, "Whether the probe operation was successful"@, number::signed_decimal(0)),
        ) + "# EOF\n"@,
{
    let success = ("success"@, "Whether the probe operation was successful"@, number::signed_decimal(0));
    let gauges = seq![success] + Seq::<(Seq<char>, Seq<char>, Seq<char>)>::empty();
    assert(gauges.drop_last() == Seq::<(Seq<char>, Seq<char>, Seq<char>)>::empty());
    assert(metrics::exposition("mcexport"@, gauges.drop_last()) == Seq::<char>::empty());
    assert(gauges.last() == success);
}

/// A probe succeeds exactly if the server answered in time, and it reports what the server answered.
pub proof fn law_probe_succeeds_iff_server_answered(info: ProbingInfo, progress: ProbeProgress, status: ProbeStatus)
    ensures
        probe_step(info, progress) == ProbeStep::Done(Ok::<ProbeStatus, Error>(status)) <==> progress
            == ProbeProgress::Answered(Ok::<ProbeStatus, ping::Error>(status)),
{
}

/// The answer to a successful probe is never the answer to a failed one, whatever the server reported.
pub proof fn law_answer_tells_success_from_failure(status: ProbeStatus, error: Error)
    ensures
        answer(Ok(status)) != answer(Err(error)),
{
    metrics::lemma_success_state(1, status.gauges());
    metrics::lemma_success_state(0, Seq::empty());
    number::law_decimal_grows_by_digits(0, 0);
    number::law_decimal_grows_by_digits(0, 1);
}

/// Every error of a probe names the probe that it belongs to, so that no probe is answered or logged as another one.
pub proof fn law_error_belongs_to_its_probe(info: ProbingInfo, progress: ProbeProgress)
    ensures
        probe_step(info, progress) matches ProbeStep::Done(Err(error)) ==> match error {
            Error::ProbeFail(_, failed) => failed == info,
            Error::PingFail(_, failed) => failed == info,
            Error::TimeoutInvalid(_, failed) => failed == info,
            Error::TimeoutExpired(failed) => failed == info,
        },
{
}

/// After a resolution that succeeded, the status is requested from exactly the resolved address, IP and port, and the
/// request is marked as one through an SRV record exactly if the resolution was one. The status is requested at no other
/// time.
pub proof fn law_status_is_requested_from_resolved_address(info: ProbingInfo, progress: ProbeProgress)
    ensures
        match probe_step(info, progress) {
            ProbeStep::RequestStatus { addr, srv } => {
                &&& progress matches ProbeProgress::Resolved(Ok(_))
                &&& match progress->Resolved_0->Ok_0 {
                    ResolutionResult::Srv(resolved) => srv && addr.ip == resolved.ip && addr.port == resolved.port,
                    ResolutionResult::Plain(resolved) => !srv && addr.ip == resolved.ip && addr.port == resolved.port,
                }
            },
            _ => !(progress matches ProbeProgress::Resolved(Ok(_))),
        },
{
}

/// The target is resolved exactly if the timeout of the request could be determined.
pub proof fn law_target_is_resolved_iff_timeout_is_known(info: ProbingInfo, progress: ProbeProgress)
    ensures
        probe_step(info, progress) is Resolve <==> progress matches ProbeProgress::Start(Ok(_)),
{
}

/// A probe fails exactly if one of its stages failed or the timeout expired. The error holds the error of that stage and
/// the probe, and tells the stage.
pub proof fn law_failed_probe_holds_its_cause(info: ProbingInfo, progress: ProbeProgress)
    ensures
        match probe_step(info, progress) {
            ProbeStep::Done(Err(Error::TimeoutInvalid(cause, failed))) => {
                &&& progress == ProbeProgress::Start(Err::<(), timeout::Error>(cause))
                &&& failed == info
            },
            ProbeStep::Done(Err(Error::ProbeFail(cause, failed))) => {
                &&& progress == ProbeProgress::Resolved(Err::<ResolutionResult, probe::Error>(cause))
                &&& failed == info
            },
            ProbeStep::Done(Err(Error::PingFail(cause, failed))) => {
                &&& progress == ProbeProgress::Answered(Err::<ProbeStatus, ping::Error>(cause))
                &&& failed == info
            },
            ProbeStep::Done(Err(Error::TimeoutExpired(failed))) => progress is Expired && failed == info,
            _ => match progress {
                ProbeProgress::Start(outcome) => outcome is Ok,
                ProbeProgress::Resolved(outcome) => outcome is Ok,
                ProbeProgress::Answered(outcome) => outcome is Ok,
                ProbeProgress::Expired => false,
            },
        },
{
}

/// Whether a text ends with another one.
pub open spec fn ends_with(text: Seq<char>, end: Seq<char>) -> bool {
    end.len() <= text.len() && text.skip(text.len() - end.len()) == end
}

/// The message of an error ends with the message of its cause, down to the cause that was reported from outside.
pub proof fn law_message_ends_with_its_cause(error: Error)
    ensures
        match error {
            Error::ProbeFail(cause, _) => {
                &&& ends_with(error.text(), cause.text())
                &&& cause matches probe::Error::ResolutionFail(reason) ==> ends_with(cause.text(), reason@)
            },
            Error::PingFail(cause, _) => {
                &&& ends_with(error.text(), cause.text())
                &&& cause matches ping::Error::ProtocolMismatch(reason) ==> {
                    &&& ends_with(cause.text(), reason.text())
                    &&& reason matches protocol::Error::Io(error) ==> ends_with(reason.text(), error.text())
                    &&& reason matches protocol::Error::TimeUnavailable(error) ==> ends_with(reason.text(), error@)
                }
                &&& cause matches ping::Error::IllegalProtocol(version) ==> ends_with(cause.text(), version@)
            },
            Error::TimeoutInvalid(cause, _) => {
                &&& ends_with(error.text(), cause.text())
                &&& cause matches timeout::Error::InvalidChars(reason) ==> ends_with(cause.text(), reason@)
                &&& cause matches timeout::Error::InvalidNumber(reason, _) ==> ends_with(cause.text(), reason@)
            },
            Error::TimeoutExpired(_) => true,
        },
{
    match error {
        Error::ProbeFail(cause, _) => {
            lemma_ends_with("failed to resolve the intended target address: "@, cause.text());
            if let probe::Error::ResolutionFail(reason) = cause {
                lemma_ends_with("failed to resolve a DNS record: "@, reason@);
            }
        },
        Error::PingFail(cause, _) => {
            lemma_ends_with("failed to communicate with the target server: "@, cause.text());
            if let ping::Error::ProtocolMismatch(reason) = cause {
                lemma_ends_with("mismatch in communication protocol: "@, reason.text());
                if let protocol::Error::Io(error) = reason {
                    lemma_ends_with("error reading or writing data: "@, error.text());
                } else if let protocol::Error::TimeUnavailable(error) = reason {
                    lemma_ends_with("unix epoch could not be calculated: "@, error@);
                }
            } else if let ping::Error::IllegalProtocol(version) = cause {
                lemma_ends_with("illegal protocol version: "@, version@);
            }
        },
        Error::TimeoutInvalid(cause, _) => {
            lemma_ends_with("failed to parse timeout header: "@, cause.text());
            if let timeout::Error::InvalidChars(reason) = cause {
                lemma_ends_with("not all bytes are ascii printable: "@, reason@);
            } else if let timeout::Error::InvalidNumber(reason, value) = cause {
                lemma_ends_with("the value \""@ + value@ + "\" could not be parsed into a float: "@, reason@);
            }
        },
        Error::TimeoutExpired(_) => {},
    }
}

/// What is appended to a text is what the text ends with.
proof fn lemma_ends_with(front: Seq<char>, end: Seq<char>)
    ensures
        ends_with(front + end, end),
{
    assert((front + end).skip(front.len() as int) == end);
}

/// The answer to a successful probe reports the success state one first and then every gauge of the status, in this
/// order and with nothing in between.
pub proof fn law_successful_probe_reports_every_gauge(status: ProbeStatus, i: int)
    requires
        0 <= i < status.gauges().len(),
    ensures
        answer(Ok(status)) == metrics::gauge_lines(
            "mcexport"@,
            ("success"@, "Whether the probe operation was successful"@, number::signed_decimal(1)),
        ) + metrics::exposition("mcexport"@, status.gauges().take(i)) + metrics::gauge_lines(
            "mcexport"@,
            status.gauges()[i],
        ) + metrics::exposition("mcexport"@, status.gauges().skip(i + 1)) + "# EOF\n"@,
{
    metrics::law_response_reports_every_metric(1, status.gauges(), i);
}

/// Two successful probes have the same answer only if everything that is reported of the servers is the same.
pub proof fn law_answer_determines_what_is_reported(one: ProbeStatus, other: ProbeStatus)
    requires
        answer(Ok(one)) == answer(Ok(other)),
    ensures
        one.srv == other.srv,
        one.valid == other.valid,
        one.status.players.online == other.status.players.online,
        one.status.players.max == other.status.players.max,
        one.status.version.protocol == other.status.version.protocol,
        one.gauges() == other.gauges(),
{
    metrics::law_response_determines_what_is_reported(one, other);
}

} // verus!

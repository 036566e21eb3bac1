//! This module defines and handles the timeouts for individual probing requests.
//!
//! The timeouts are defined per-request and are supplied by Prometheus. There is a global fallback that gets used if
//! the request headers don't contain the timeout value. An offset is subtracted from the timeout to account for latency
//! and global processing time, so that the Prometheus timeout never expires before ours.

use axum::http::{HeaderMap, HeaderValue};
use vstd::prelude::*;
use vstd::string::*;

verus! {

/// The name of the request header from Prometheus, that sets the scrape timeout.
///
/// This header should always be present on requests from Prometheus and can contain floating point numbers. This time
/// is the overall scraping time allocated for this probe request. Therefore, some offset has to be subtracted from the
/// duration to account for network latency and other processing overheads, not part of the timeout.
pub const SCRAPE_TIMEOUT_HEADER: &'static str = "X-Prometheus-Scrape-Timeout-Seconds";

/// The internal error type for all errors related to the timeout parsing.
#[derive(Debug)]
pub enum Error {
    /// An error occurred while trying to read the header value into an ASCII string.
    InvalidChars(String),
    /// An error occurred while trying to parse the header value into a float. This is the cause, followed by the value.
    InvalidNumber(String, String),
    /// The calculated timeout value would end up negative with the offset.
    NegativeDuration {
        /// The original value that was supplied for the calculation.
        original: String,
        /// The resulting value that was calculated based on the offset and the original.
        result: String,
    },
}

impl Error {
    /// The text that describes this error.
    pub open spec fn text(&self) -> Seq<char> {
        match self {
            Error::InvalidChars(cause) => "not all bytes are ascii printable: "@ + cause@,
            Error::InvalidNumber(cause, value) => "the value \""@ + value@ + "\" could not be parsed into a float: "@
                + cause@,
            Error::NegativeDuration { original, result } => "the resulting duration ended up being negative: "@ + result@
                + " (original "@ + original@ + ")"@,
        }
    }

    /// Returns the text that describes this error.
    pub fn message(&self) -> (text: String)
        ensures
            text@ == self.text(),
    {
        match self {
            Error::InvalidChars(cause) => {
                let mut text = "not all bytes are ascii printable: ".to_owned();
                text.append(cause.as_str());
                text
            },
            Error::InvalidNumber(cause, value) => {
                let mut text = "the value \"".to_owned();
                text.append(value.as_str());
                text.append("\" could not be parsed into a float: ");
                text.append(cause.as_str());
                text
            },
            Error::NegativeDuration { original, result } => {
                let mut text = "the resulting duration ended up being negative: ".to_owned();
                text.append(result.as_str());
                text.append(" (original ");
                text.append(original.as_str());
                text.append(")");
                text
            },
        }
    }
}

/// The headers of a request, as the [`http`](axum::http) crate keeps them.
#[verifier::external_type_specification]
#[verifier::external_body]
#[verifier::reject_recursive_types(T)]
pub struct ExHeaderMap<T>(HeaderMap<T>);

/// The value of a header, as the [`http`](axum::http) crate keeps it.
#[verifier::external_type_specification]
#[verifier::external_body]
pub struct ExHeaderValue(HeaderValue);

/// The headers of a request: for each name in lower case the bytes of its values, in the order in which they came.
pub uninterp spec fn header_values(headers: HeaderMap<HeaderValue>) -> Map<Seq<char>, Seq<Seq<u8>>>;

/// The bytes of the value of a header.
pub uninterp spec fn header_bytes(value: HeaderValue) -> Seq<u8>;

/// The ASCII letter in lower case, or any other character as it is.
pub open spec fn lower(c: char) -> char {
    if 'A' <= c && c <= 'Z' {
        (c as int + 32) as char
    } else {
        c
    }
}

/// The name of a header in lower case.
pub open spec fn lower_name(name: Seq<char>) -> Seq<char> {
    name.map_values(|c: char| lower(c))
}

/// The value that counts if a header has several: the first one.
pub open spec fn first_value(headers: Map<Seq<char>, Seq<Seq<u8>>>, name: Seq<char>) -> Option<Seq<u8>> {
    if headers.contains_key(lower_name(name)) {
        Some(headers[lower_name(name)][0])
    } else {
        None
    }
}

/// Whether all bytes are printable ASCII characters or tabs.
pub open spec fn is_visible(bytes: Seq<u8>) -> bool {
    forall|i: int| 0 <= i < bytes.len() ==> (32 <= #[trigger] bytes[i] < 127 || bytes[i] == 9)
}

/// The text of ASCII bytes.
pub open spec fn ascii_text(bytes: Seq<u8>) -> Seq<char> {
    bytes.map_values(|b: u8| b as char)
}

/// Calls [`HeaderMap::get`], which finds the first value of a header. The case of the name does not matter.
#[verifier::external_body]
fn get_header<'a>(headers: &'a HeaderMap<HeaderValue>, name: &str) -> (value: Option<&'a HeaderValue>)
    ensures
        match value {
            Some(value) => first_value(header_values(*headers), name@) == Some(header_bytes(*value)),
            None => first_value(header_values(*headers), name@) is None,
        },
{
    headers.get(name)
}

/// Calls [`HeaderValue::to_str`], which gives the bytes of the value as text, and fails exactly if one of them is not a
/// printable ASCII character or a tab. The failure is given as the text that describes it.
#[verifier::external_body]
fn header_text(value: &HeaderValue) -> (text: Result<String, String>)
    ensures
        match text {
            Ok(text) => is_visible(header_bytes(*value)) && text@ == ascii_text(header_bytes(*value)),
            Err(cause) => !is_visible(header_bytes(*value)) && cause@ == "failed to convert header to a str"@,
        },
{
    match value.to_str() {
        Ok(text) => Ok(text.to_owned()),
        Err(error) => Err(error.to_string()),
    }
}

/// Returns the text of the scrape timeout of the headers, if there is one.
///
/// The first value of the [`SCRAPE_TIMEOUT_HEADER`] counts, and its bytes have to be printable.
pub fn get_scrape_timeout(headers: &HeaderMap<HeaderValue>) -> (timeout: Result<Option<String>, Error>)
    ensures
        match first_value(header_values(*headers), SCRAPE_TIMEOUT_HEADER@) {
            None => timeout == Ok::<Option<String>, Error>(None),
            Some(bytes) if is_visible(bytes) => timeout matches Ok(Some(text)) && text@ == ascii_text(bytes),
            Some(_) => timeout matches Err(Error::InvalidChars(cause)) && cause@
                == "failed to convert header to a str"@,
        },
{
    match get_header(headers, SCRAPE_TIMEOUT_HEADER) {
        Some(raw_value) => match header_text(raw_value) {
            Ok(value) => Ok(Some(value)),
            Err(cause) => Err(Error::InvalidChars(cause)),
        },
        None => Ok(None),
    }
}

/// The number of seconds that a timeout is calculated from.
#[derive(Clone, Copy, Debug, PartialEq, Eq)]
pub enum TimeoutSource {
    /// The number in the header of the request.
    Header,
    /// The supplied default.
    Fallback,
}

/// How far calculating a timeout has come.
#[derive(Debug)]
pub enum DurationProgress {
    /// Nothing has been done yet.
    Start,
    /// It was tried to parse the text in the header into a number.
    Parsed {
        /// The text.
        value: String,
        /// Whether the text is a number, or why it is none.
        outcome: Result<(), String>,
    },
    /// The offset was subtracted.
    Subtracted {
        /// The text of the number that the offset was subtracted from.
        original: String,
        /// The text of the difference.
        result: String,
        /// Whether the difference is below zero.
        negative: bool,
    },
}

/// What is to be done next to calculate a timeout.
#[derive(Debug)]
pub enum DurationStep {
    /// Parse this text into a number.
    Parse(String),
    /// Subtract the offset from this number.
    Subtract(TimeoutSource),
    /// Nothing: the last difference is the timeout in seconds, or there is none for this reason.
    Done(Result<(), Error>),
}

/// Whether a step is the one that follows in calculating a timeout from these headers.
pub open spec fn follows(
    headers: Map<Seq<char>, Seq<Seq<u8>>>,
    progress: DurationProgress,
    step: DurationStep,
) -> bool {
    match progress {
        DurationProgress::Start => match first_value(headers, SCRAPE_TIMEOUT_HEADER@) {
            None => step == DurationStep::Subtract(TimeoutSource::Fallback),
            Some(bytes) if is_visible(bytes) => step matches DurationStep::Parse(value) && value@ == ascii_text(bytes),
            Some(_) => step matches DurationStep::Done(Err(Error::InvalidChars(cause))) && cause@
                == "failed to convert header to a str"@,
        },
        DurationProgress::Parsed { outcome: Ok(_), .. } => step == DurationStep::Subtract(TimeoutSource::Header),
        DurationProgress::Parsed { value, outcome: Err(cause) } => step == DurationStep::Done(
            Err::<(), Error>(Error::InvalidNumber(cause, value)),
        ),
        DurationProgress::Subtracted { negative: false, .. } => step == DurationStep::Done(Ok::<(), Error>(())),
        DurationProgress::Subtracted { original, result, negative: true } => step == DurationStep::Done(
            Err::<(), Error>(Error::NegativeDuration { original, result }),
        ),
    }
}

/// Decides what is to be done next to calculate the desired request timeout for the probe endpoint.
///
/// If the [`SCRAPE_TIMEOUT_HEADER`] is set, the value is parsed into a number, which is interpreted as the duration in
/// seconds and will be allowed for the request. Should no such header exist, the supplied default is used instead. The
/// duration is then reduced by the supplied offset to account for the network latency and processing overhead that does
/// not count into the timeout. This never ends in a negative duration and instead ends in a
/// [`NegativeDuration`](Error::NegativeDuration) error with the resulting values.
pub fn get_duration(headers: &HeaderMap<HeaderValue>, progress: DurationProgress) -> (step: DurationStep)
    ensures
        follows(header_values(*headers), progress, step),
{
    match progress {
        // try to use the header value to parse the duration
        DurationProgress::Start => match get_scrape_timeout(headers) {
            Ok(Some(value)) => DurationStep::Parse(value),
            Ok(None) => DurationStep::Subtract(TimeoutSource::Fallback),
            Err(error) => DurationStep::Done(Err(error)),
        },
        // subtract the timeout offset
        DurationProgress::Parsed { outcome: Ok(_), .. } => DurationStep::Subtract(TimeoutSource::Header),
        DurationProgress::Parsed { value, outcome: Err(cause) } => DurationStep::Done(
            Err(Error::InvalidNumber(cause, value)),
        ),
        // check whether the duration would be positive
        DurationProgress::Subtracted { original, result, negative } => if negative {
            DurationStep::Done(Err(Error::NegativeDuration { original, result }))
        } else {
            DurationStep::Done(Ok(()))
        },
    }
}

/// The header that counts is the one of Prometheus: its first value, whatever the case of its name.
pub proof fn law_timeout_header_is_that_of_prometheus(headers: Map<Seq<char>, Seq<Seq<u8>>>)
    ensures
        first_value(headers, SCRAPE_TIMEOUT_HEADER@) == (if headers.contains_key(
            "x-prometheus-scrape-timeout-seconds"@,
        ) {
            Some(headers["x-prometheus-scrape-timeout-seconds"@][0])
        } else {
            None
        }),
{
    reveal_strlit("X-Prometheus-Scrape-Timeout-Seconds");
    reveal_strlit("x-prometheus-scrape-timeout-seconds");
    assert(lower_name(SCRAPE_TIMEOUT_HEADER@) == "x-prometheus-scrape-timeout-seconds"@);
}

/// The number that the offset is subtracted from is that of the header exactly if there is one, and the supplied
/// default exactly if there is no header. The text that is parsed is the value of the header, byte by byte.
pub proof fn law_header_is_preferred_to_default(
    headers: Map<Seq<char>, Seq<Seq<u8>>>,
    progress: DurationProgress,
    step: DurationStep,
)
    requires
        follows(headers, progress, step),
    ensures
        ({
            let header = first_value(headers, SCRAPE_TIMEOUT_HEADER@);
            match step {
                DurationStep::Parse(value) => {
                    &&& progress is Start
                    &&& header is Some
                    &&& value@.len() == header->0.len()
                    &&& forall|i: int|
                        0 <= i < value@.len() ==> value@[i] as int == header->0[i] && (32 <= header->0[i] < 127
                            || header->0[i] == 9)
                },
                DurationStep::Subtract(TimeoutSource::Fallback) => progress is Start && header is None,
                DurationStep::Subtract(TimeoutSource::Header) => progress is Parsed && progress->outcome is Ok,
                DurationStep::Done(_) => true,
            }
        }),
{
    if let DurationStep::Parse(value) = step {
        let header = first_value(headers, SCRAPE_TIMEOUT_HEADER@);
        assert forall|i: int| 0 <= i < value@.len() implies value@[i] as int == header->0[i] && (32 <= header->0[i]
            < 127 || header->0[i] == 9) by {
            let b = header->0[i];
            assert(value@[i] == b as char);
        }
    }
}

/// A timeout is never negative: calculating it succeeds exactly if the difference is not below zero. Every failure tells
/// its cause: the difference and what it was calculated from, the text that is no number and why, or a header with a
/// byte that is not printable.
pub proof fn law_timeout_is_never_negative(
    headers: Map<Seq<char>, Seq<Seq<u8>>>,
    progress: DurationProgress,
    step: DurationStep,
)
    requires
        follows(headers, progress, step),
    ensures
        match step {
            DurationStep::Done(Ok(_)) => progress is Subtracted && !progress->negative,
            DurationStep::Done(Err(Error::NegativeDuration { original, result })) => {
                &&& progress is Subtracted
                &&& progress->negative
                &&& progress->original == original
                &&& progress->result == result
            },
            DurationStep::Done(Err(Error::InvalidNumber(cause, value))) => {
                &&& progress is Parsed
                &&& progress->value == value
                &&& progress->outcome == Err::<(), String>(cause)
            },
            DurationStep::Done(Err(Error::InvalidChars(_))) => {
                &&& progress is Start
                &&& first_value(headers, SCRAPE_TIMEOUT_HEADER@) matches Some(bytes) && exists|i: int|
                    0 <= i < bytes.len() && (bytes[i] < 32 || 127 <= bytes[i]) && bytes[i] != 9
            },
            _ => progress !is Subtracted && (progress is Parsed ==> progress->outcome is Ok),
        },
{
}

} // verus!

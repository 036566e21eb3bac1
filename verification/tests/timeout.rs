use axum::http::{HeaderMap, HeaderValue};
use mcexport::timeout::{
    self, get_scrape_timeout, DurationProgress, DurationStep, Error, TimeoutSource, SCRAPE_TIMEOUT_HEADER,
};
use std::time::Duration;

const DEFAULT_TIMEOUT_SECS: f64 = 120.0;

const DEFAULT_TIMEOUT_OFFSET_SECS: f64 = 0.25;

/// Performs the steps that the library decides on.
fn get_duration(headers: &HeaderMap, default: f64, offset: f64) -> Result<Duration, Error> {
    let mut number = default;
    let mut difference = default;
    let mut progress = DurationProgress::Start;
    loop {
        progress = match timeout::get_duration(headers, progress) {
            DurationStep::Parse(value) => {
                let outcome = value.parse::<f64>().map(|parsed| number = parsed).map_err(|err| err.to_string());
                DurationProgress::Parsed { value, outcome }
            }
            DurationStep::Subtract(source) => {
                let original = if source == TimeoutSource::Header { number } else { default };
                difference = original - offset;
                DurationProgress::Subtracted {
                    original: format!("{:?}", original),
                    result: format!("{:?}", difference),
                    negative: difference < 0.0,
                }
            }
            DurationStep::Done(outcome) => return outcome.map(|_| Duration::from_secs_f64(difference)),
        };
    }
}

#[test]
fn get_duration_with_header() {
    let mut headers = HeaderMap::new();
    headers.insert(SCRAPE_TIMEOUT_HEADER, HeaderValue::from_static("5"));

    assert_eq!(
        get_duration(&headers, DEFAULT_TIMEOUT_SECS, DEFAULT_TIMEOUT_OFFSET_SECS).unwrap(),
        Duration::from_secs_f64(5.0 - DEFAULT_TIMEOUT_OFFSET_SECS)
    )
}

#[test]
fn get_duration_with_header_decimal() {
    let mut headers = HeaderMap::new();
    headers.insert(SCRAPE_TIMEOUT_HEADER, HeaderValue::from_static("5.5"));

    assert_eq!(
        get_duration(&headers, DEFAULT_TIMEOUT_SECS, DEFAULT_TIMEOUT_OFFSET_SECS).unwrap(),
        Duration::from_secs_f64(5.5 - DEFAULT_TIMEOUT_OFFSET_SECS)
    )
}

#[test]
#[should_panic]
fn fail_get_duration_with_invalid_header_parse() {
    let mut headers = HeaderMap::new();
    headers.insert(SCRAPE_TIMEOUT_HEADER, HeaderValue::from_static("invalid"));

    get_duration(&headers, DEFAULT_TIMEOUT_SECS, DEFAULT_TIMEOUT_OFFSET_SECS).unwrap();
}

#[test]
fn get_duration_without_header() {
    let headers = HeaderMap::new();

    assert_eq!(
        get_duration(&headers, DEFAULT_TIMEOUT_SECS, DEFAULT_TIMEOUT_OFFSET_SECS).unwrap(),
        Duration::from_secs_f64(DEFAULT_TIMEOUT_SECS - DEFAULT_TIMEOUT_OFFSET_SECS)
    )
}

#[test]
#[should_panic]
fn fail_get_duration_negative_original() {
    let mut headers = HeaderMap::new();
    headers.insert(SCRAPE_TIMEOUT_HEADER, HeaderValue::from_static("-1"));

    get_duration(&headers, DEFAULT_TIMEOUT_SECS, DEFAULT_TIMEOUT_OFFSET_SECS).unwrap();
}

#[test]
#[should_panic]
fn fail_get_duration_negative_result() {
    let mut headers = HeaderMap::new();
    headers.insert(SCRAPE_TIMEOUT_HEADER, HeaderValue::from_static("0"));

    get_duration(&headers, DEFAULT_TIMEOUT_SECS, DEFAULT_TIMEOUT_OFFSET_SECS).unwrap();
}

#[test]
fn timeout_errors() {
    let message = |value: &'static str| {
        let mut headers = HeaderMap::new();
        headers.insert(SCRAPE_TIMEOUT_HEADER, HeaderValue::from_static(value));
        get_duration(&headers, DEFAULT_TIMEOUT_SECS, DEFAULT_TIMEOUT_OFFSET_SECS).unwrap_err().message()
    };
    assert_eq!(
        message("invalid"),
        "the value \"invalid\" could not be parsed into a float: invalid float literal"
    );
    assert_eq!(message("0"), "the resulting duration ended up being negative: -0.25 (original 0.0)");
    assert_eq!(message("-1"), "the resulting duration ended up being negative: -1.25 (original -1.0)");
    let mut headers = HeaderMap::new();
    headers.insert(SCRAPE_TIMEOUT_HEADER, HeaderValue::from_bytes(&[0xFF]).unwrap());
    assert!(matches!(get_duration(&headers, 1.0, 0.0), Err(Error::InvalidChars(_))));
}

#[test]
fn scrape_timeout_of_header() {
    let mut headers = HeaderMap::new();
    headers.insert(SCRAPE_TIMEOUT_HEADER, HeaderValue::from_static("5.5"));
    assert_eq!(get_scrape_timeout(&headers).unwrap(), Some("5.5".to_string()));
}

#[test]
fn scrape_timeout_without_header() {
    let mut headers = HeaderMap::new();
    assert_eq!(get_scrape_timeout(&headers).unwrap(), None);
    headers.insert("X-Other", HeaderValue::from_static("5"));
    assert_eq!(get_scrape_timeout(&headers).unwrap(), None);
}

#[test]
fn scrape_timeout_name_has_no_case() {
    for name in ["x-prometheus-scrape-timeout-seconds", "X-PROMETHEUS-SCRAPE-TIMEOUT-SECONDS"] {
        let mut headers = HeaderMap::new();
        headers.insert(
            axum::http::HeaderName::from_bytes(name.as_bytes()).unwrap(),
            HeaderValue::from_static("10"),
        );
        assert_eq!(get_scrape_timeout(&headers).unwrap(), Some("10".to_string()));
    }
}

#[test]
fn first_scrape_timeout_counts() {
    let mut headers = HeaderMap::new();
    headers.append(SCRAPE_TIMEOUT_HEADER, HeaderValue::from_static("1"));
    headers.append(SCRAPE_TIMEOUT_HEADER, HeaderValue::from_static("2"));
    assert_eq!(get_scrape_timeout(&headers).unwrap(), Some("1".to_string()));
}

#[test]
fn scrape_timeout_that_is_not_printable() {
    let mut headers = HeaderMap::new();
    headers.insert(SCRAPE_TIMEOUT_HEADER, HeaderValue::from_bytes(&[b'5', 0xFF]).unwrap());
    let error = get_scrape_timeout(&headers).unwrap_err();
    assert!(matches!(error, Error::InvalidChars(_)));
    assert_eq!(
        error.message(),
        "not all bytes are ascii printable: failed to convert header to a str"
    );
}

#[test]
fn timeout_error_messages() {
    let error = Error::InvalidNumber("invalid float literal".to_string(), "invalid".to_string());
    assert_eq!(
        error.message(),
        "the value \"invalid\" could not be parsed into a float: invalid float literal"
    );
    let error = Error::NegativeDuration { original: "0.0".to_string(), result: "-0.25".to_string() };
    assert_eq!(
        error.message(),
        "the resulting duration ended up being negative: -0.25 (original 0.0)"
    );
}

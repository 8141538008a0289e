use apache_metrics::config::{
    default_namespace, default_scrape_interval_secs, ApacheMetricsConfig, BuildError,
};
use apache_metrics::internal_events::{
    component_kind, component_type, ApacheMetricsErrorResponse, ApacheMetricsEventReceived,
    ApacheMetricsHttpError, ApacheMetricsParseError, ApacheMetricsRequestCompleted, Emission,
    InternalEvent,
};
use apache_metrics::metric::{MetricValue, Tags, Timestamp};
use apache_metrics::number::{Number, ParseCause};
use apache_metrics::parser::{parse, ParseError};
use apache_metrics::source::{
    is_success_status, scrape, scrape_text, Action, Scrape, ScrapeOutcome, Signal, State,
};
use std::time::{Duration, Instant};

const NOW: Timestamp = Timestamp { secs: 1_600_000_000, nanos: 0 };

const URL: &str = "http://a/";

fn config(endpoints: &[&str]) -> ApacheMetricsConfig {
    ApacheMetricsConfig {
        endpoints: endpoints.iter().map(|e| e.to_string()).collect(),
        scrape_interval_secs: 30,
        namespace: "httpd".to_string(),
    }
}

fn answer(status_code: u16, body: &[u8], start: Instant, end: Instant) -> ScrapeOutcome {
    ScrapeOutcome::Success { status_code, body: body.to_vec(), start, end }
}

fn read(outcome: ScrapeOutcome) -> Scrape {
    scrape(outcome, URL, "apache", NOW, &Tags::new())
}

fn completed(start: Instant, end: Instant) -> InternalEvent {
    InternalEvent::RequestCompleted(ApacheMetricsRequestCompleted { start, end })
}

fn received(byte_size: usize, count: usize) -> InternalEvent {
    InternalEvent::EventReceived(ApacheMetricsEventReceived { byte_size, count })
}

fn parse_error(key: &str, cause: ParseCause, body: &str) -> InternalEvent {
    InternalEvent::ParseError(ApacheMetricsParseError {
        error: ParseError { key: key.to_string(), cause },
        url: URL.to_string(),
        body: body.to_string(),
    })
}

fn error_response(code: u16) -> InternalEvent {
    InternalEvent::ErrorResponse(ApacheMetricsErrorResponse { code, url: URL.to_string() })
}

#[test]
fn defaults_are_fifteen_seconds_and_apache() {
    assert_eq!(default_scrape_interval_secs(), 15);
    assert_eq!(default_namespace(), "apache");
    let endpoint = "http://localhost/server-status?auto".to_string();
    let config = ApacheMetricsConfig::new(vec![endpoint.clone()]);
    assert_eq!(config.scrape_interval_secs, 15);
    assert_eq!(config.namespace, "apache");
    assert_eq!(config.endpoints, vec![endpoint]);
}

#[test]
fn source_is_built_from_uris() {
    let endpoints =
        ["http://localhost:8080/server-status?auto", "https://example.com/status", "/relative"];
    let source = config(&endpoints).build().unwrap();
    assert_eq!(source.urls(), endpoints.iter().map(|e| e.to_string()).collect::<Vec<_>>());
    assert_eq!(source.interval(), 30);
    assert_eq!(source.namespace(), "httpd");
    assert_eq!(source.state(), State::Running);
    for url in source.urls().iter() {
        assert!(url.parse::<http::Uri>().is_ok());
    }
    let none = config(&[]).build().unwrap();
    assert!(none.urls().is_empty());
}

#[test]
fn build_names_the_first_endpoint_that_is_no_uri() {
    for (endpoints, at) in [
        (vec!["http://ok/", "http://not ok/", ""], 1usize),
        (vec![""], 0),
        (vec!["http://a/", "http://b/", "http://[::1"], 2),
        (vec!["http://a/\u{e9}"], 0),
        (vec!["ht tp://a", "http://b/"], 0),
    ] {
        match config(&endpoints).build() {
            Err(BuildError::UriParseError { index, source }) => {
                assert_eq!(index, at);
                let expected = endpoints[at].parse::<http::Uri>().unwrap_err();
                assert_eq!(source.to_string(), expected.to_string());
                for ok in endpoints[..at].iter() {
                    assert!(ok.parse::<http::Uri>().is_ok());
                }
            }
            Ok(_) => panic!("{:?}", endpoints),
        }
    }
}

#[test]
fn build_agrees_with_the_uri_parser() {
    for endpoint in [
        "http://localhost/",
        "localhost",
        "localhost:80",
        "*",
        "/",
        "a",
        "http://",
        "http:///x",
        "://x",
        "http://u:p@h/",
        "http://h/p?q#f",
        "http://h/%zz",
        "http://h/ ",
        " http://h/",
        "http://h:1:2/",
        "mailto:a@b",
        "http://h/{}",
        "http://h/\"",
        "http://h/<",
        "h\\",
        "[::1]",
        "[::1",
        "http://@/",
    ] {
        let built = config(&[endpoint]).build().is_ok();
        assert_eq!(built, endpoint.parse::<http::Uri>().is_ok(), "{:?}", endpoint);
    }
    let long = format!("http://h/{}", "a".repeat(70_000));
    assert!(config(&[&long]).build().is_err());
}

#[test]
fn tick_scrapes_until_shutdown() {
    let mut source = config(&["http://a/", "http://b/"]).build().unwrap();
    let both = Action::Scrape(vec!["http://a/".to_string(), "http://b/".to_string()]);
    assert_eq!(source.on_signal(Signal::Tick), both);
    assert_eq!(source.state(), State::Running);
    assert_eq!(source.on_signal(Signal::Tick), both);
    assert_eq!(source.state(), State::Running);
    assert_eq!(source.on_signal(Signal::Shutdown), Action::Stop);
    assert_eq!(source.state(), State::ShuttingDown);
    assert_eq!(source.on_signal(Signal::Tick), Action::Stop);
    assert_eq!(source.state(), State::ShuttingDown);
    assert_eq!(source.on_signal(Signal::Shutdown), Action::Stop);
    assert_eq!(source.state(), State::ShuttingDown);
    assert_eq!(source.urls().len(), 2);
    assert_eq!(source.interval(), 30);
    assert_eq!(source.namespace(), "httpd");
}

#[test]
fn answer_counts_while_shutting_down() {
    let mut source = config(&[URL]).build().unwrap();
    source.on_signal(Signal::Shutdown);
    let start = Instant::now();
    let found = source.on_outcome(URL, answer(200, b"Uptime: 5\n", start, start), NOW);
    assert_eq!(found.metrics.len(), 2);
    assert_eq!(found.metrics[0].name, "httpd_uptime_seconds_total");
    assert!(found.metrics[0].tags.is_empty());
    assert_eq!(found.metrics[0].timestamp, NOW);
    assert_eq!(found.events, vec![completed(start, start), received(10, 2)]);
}

#[test]
fn statuses_of_success_are_the_two_hundreds() {
    for code in 0..=u16::MAX {
        assert_eq!(is_success_status(code), (200..300).contains(&code));
        if let Ok(status) = http::StatusCode::from_u16(code) {
            assert_eq!(is_success_status(code), status.is_success());
        }
    }
}

#[test]
fn good_answer_gives_metrics_and_events() {
    let start = Instant::now();
    let end = start + Duration::from_millis(20);
    let body = "Total Accesses: 50\nCPULoad: x\nBusyWorkers: 2\nTotal kBytes: -\n";
    let found = read(answer(200, body.as_bytes(), start, end));
    let tags = Tags::new();
    let (metrics, errors) = parse(body, "apache", NOW, &tags);
    assert_eq!(found.metrics, metrics);
    assert_eq!(metrics.len(), 2);
    assert_eq!(
        found.events,
        vec![
            completed(start, end),
            received(body.len(), 2),
            parse_error("CPULoad", ParseCause::InvalidFloat, body),
            parse_error("Total kBytes", ParseCause::InvalidDigit, body),
        ]
    );
    assert_eq!(errors.len(), 2);
    let again = scrape_text(body, body.len(), start, end, URL, "apache", NOW, &tags);
    assert_eq!(again, found);
}

#[test]
fn every_status_of_success_is_read() {
    let start = Instant::now();
    for code in [200u16, 201, 204, 206, 299] {
        let found = read(answer(code, b"Uptime: 1", start, start));
        assert_eq!(found.metrics.len(), 2, "{}", code);
        assert_eq!(found.events, vec![completed(start, start), received(9, 2)]);
    }
}

#[test]
fn empty_body_gives_no_metric_and_both_events() {
    let start = Instant::now();
    let found = read(answer(200, b"", start, start));
    assert!(found.metrics.is_empty());
    assert_eq!(found.events, vec![completed(start, start), received(0, 0)]);
}

#[test]
fn other_status_gives_an_error_response() {
    let start = Instant::now();
    for code in [0u16, 100, 199, 300, 301, 404, 500, 503, 999, u16::MAX] {
        let found = read(ScrapeOutcome::HttpError { status_code: code });
        assert!(found.metrics.is_empty());
        assert_eq!(found.events, vec![error_response(code)]);
        let found = read(answer(code, b"Uptime: 1\n", start, start));
        assert!(found.metrics.is_empty(), "{}", code);
        assert_eq!(found.events, vec![error_response(code)]);
    }
    let found = read(ScrapeOutcome::HttpError { status_code: 200 });
    assert!(found.metrics.is_empty());
    assert_eq!(found.events, vec![error_response(200)]);
}

#[test]
fn no_answer_gives_an_http_error() {
    let found = read(ScrapeOutcome::TransportError { cause: "connection refused".to_string() });
    assert!(found.metrics.is_empty());
    assert_eq!(
        found.events,
        vec![InternalEvent::HttpError(ApacheMetricsHttpError {
            error: "connection refused".to_string(),
            url: URL.to_string(),
        })]
    );
}

#[test]
fn body_that_is_not_utf8_is_read_with_replacements() {
    let start = Instant::now();
    let mut body = b"Uptime: 7\nCPULoad: 1".to_vec();
    body.push(0xff);
    body.extend_from_slice(b"\nScoreboard: _\xc3W\xe2\x82\n");
    let text = String::from_utf8_lossy(&body).into_owned();
    assert_eq!(text, "Uptime: 7\nCPULoad: 1\u{fffd}\nScoreboard: _\u{fffd}W\u{fffd}\n");
    let found = read(answer(200, &body, start, start));
    assert_eq!(found.metrics.len(), 2 + 11);
    assert_eq!(found.metrics[2].value, MetricValue::Gauge { value: Number::Count(1) });
    assert_eq!(found.metrics[5].value, MetricValue::Gauge { value: Number::Count(1) });
    assert_eq!(
        found.events,
        vec![
            completed(start, start),
            received(body.len(), 13),
            parse_error("CPULoad", ParseCause::InvalidFloat, &text),
        ]
    );
}

#[test]
fn byte_size_counts_bytes_and_not_characters() {
    let start = Instant::now();
    let body = "Server: größe\nUptime: 1\n";
    assert_ne!(body.len(), body.chars().count());
    let found = read(answer(200, body.as_bytes(), start, start));
    assert_eq!(found.events[1], received(body.len(), 2));
}

#[test]
fn events_feed_the_collectors_own_measurements() {
    let start = Instant::now();
    let end = start + Duration::from_secs(1);
    assert_eq!(component_kind(), "source");
    assert_eq!(component_type(), "apache_metrics");
    let counter = |name: &'static str, value: u64| vec![Emission::Counter { name, value }];

    let received = ApacheMetricsEventReceived { byte_size: 300, count: 17 };
    assert_eq!(
        received.emit_metrics(),
        vec![
            Emission::Counter { name: "events_processed", value: 17 },
            Emission::Counter { name: "bytes_processed", value: 300 },
        ]
    );
    let completed = ApacheMetricsRequestCompleted { start, end };
    assert_eq!(
        completed.emit_metrics(),
        vec![
            Emission::Counter { name: "requests_completed", value: 1 },
            Emission::Timing { name: "request_duration_nanoseconds", start, end },
        ]
    );
    let unread = ApacheMetricsParseError {
        error: ParseError { key: "Uptime".to_string(), cause: ParseCause::EmptyFloat },
        url: URL.to_string(),
        body: "Uptime:".to_string(),
    };
    assert_eq!(unread.emit_metrics(), counter("parse_errors", 1));
    let response = ApacheMetricsErrorResponse { code: 500, url: URL.to_string() };
    assert_eq!(response.emit_metrics(), counter("http_error_response", 1));
    let failed = ApacheMetricsHttpError { error: "timed out".to_string(), url: URL.to_string() };
    assert_eq!(failed.emit_metrics(), counter("http_request_errors", 1));

    for (event, emissions) in [
        (InternalEvent::EventReceived(received), received.emit_metrics()),
        (InternalEvent::RequestCompleted(completed), completed.emit_metrics()),
        (InternalEvent::ParseError(unread.clone()), unread.emit_metrics()),
        (InternalEvent::ErrorResponse(response.clone()), response.emit_metrics()),
        (InternalEvent::HttpError(failed.clone()), failed.emit_metrics()),
    ] {
        assert_eq!(event.emit_metrics(), emissions);
    }
}

//! What a scrape reports about itself: the events, and the counters and
//! timings of the collector that each event feeds.
//!
//! The library only says what is to be reported. To write a log line or to
//! move a counter is left to the caller.

use crate::parser::{ParseError, ParseErrorView};
use std::time::Instant;
use vstd::prelude::*;

verus! {

/// A moment on the monotonic clock. The library carries such moments from the
/// caller into the events and never looks inside.
#[verifier::external_type_specification]
#[verifier::external_body]
pub struct ExInstant(Instant);

/// A report was read: the number of metrics it gave and its size in bytes.
#[derive(Clone, Copy, Debug, PartialEq, Eq)]
pub struct ApacheMetricsEventReceived {
    pub byte_size: usize,
    pub count: usize,
}

/// A request was answered with a status of success.
#[derive(Clone, Copy, Debug, PartialEq, Eq)]
pub struct ApacheMetricsRequestCompleted {
    pub start: Instant,
    pub end: Instant,
}

/// A line of a report could not be read.
#[derive(Clone, Debug, PartialEq, Eq)]
pub struct ApacheMetricsParseError {
    pub error: ParseError,
    pub url: String,
    pub body: String,
}

/// A request was answered with a status other than success.
#[derive(Clone, Debug, PartialEq, Eq)]
pub struct ApacheMetricsErrorResponse {
    pub code: u16,
    pub url: String,
}

/// A request got no answer.
#[derive(Clone, Debug, PartialEq, Eq)]
pub struct ApacheMetricsHttpError {
    pub error: String,
    pub url: String,
}

/// Any of the events of a scrape.
#[derive(Clone, Debug, PartialEq, Eq)]
pub enum InternalEvent {
    EventReceived(ApacheMetricsEventReceived),
    RequestCompleted(ApacheMetricsRequestCompleted),
    ParseError(ApacheMetricsParseError),
    ErrorResponse(ApacheMetricsErrorResponse),
    HttpError(ApacheMetricsHttpError),
}

/// The mathematical content of an `InternalEvent`.
pub enum EventView {
    EventReceived { byte_size: usize, count: usize },
    RequestCompleted { start: Instant, end: Instant },
    ParseError { error: ParseErrorView, url: Seq<char>, body: Seq<char> },
    ErrorResponse { code: u16, url: Seq<char> },
    HttpError { cause: Seq<char>, url: Seq<char> },
}

impl View for InternalEvent {
    type V = EventView;

    open spec fn view(&self) -> EventView {
        match self {
            InternalEvent::EventReceived(e) => EventView::EventReceived {
                byte_size: e.byte_size,
                count: e.count,
            },
            InternalEvent::RequestCompleted(e) => EventView::RequestCompleted {
                start: e.start,
                end: e.end,
            },
            InternalEvent::ParseError(e) => EventView::ParseError {
                error: e.error@,
                url: e.url@,
                body: e.body@,
            },
            InternalEvent::ErrorResponse(e) => EventView::ErrorResponse {
                code: e.code,
                url: e.url@,
            },
            InternalEvent::HttpError(e) => EventView::HttpError { cause: e.error@, url: e.url@ },
        }
    }
}

/// The contents of a list of events.
pub open spec fn event_views(events: Seq<InternalEvent>) -> Seq<EventView> {
    events.map_values(|e: InternalEvent| e@)
}

/// What an event adds to the collector's own measurements. Each is labelled
/// with `component_kind` and `component_type`.
#[derive(Clone, Copy, Debug, PartialEq, Eq)]
pub enum Emission {
    /// The counter `name` goes up by `value`.
    Counter { name: &'static str, value: u64 },
    /// The timing `name` gets the span from `start` to `end`.
    Timing { name: &'static str, start: Instant, end: Instant },
}

/// The mathematical content of an `Emission`.
pub enum EmissionView {
    Counter { name: Seq<char>, value: u64 },
    Timing { name: Seq<char>, start: Instant, end: Instant },
}

impl View for Emission {
    type V = EmissionView;

    open spec fn view(&self) -> EmissionView {
        match self {
            Emission::Counter { name, value } => EmissionView::Counter {
                name: name@,
                value: *value,
            },
            Emission::Timing { name, start, end } => EmissionView::Timing {
                name: name@,
                start: *start,
                end: *end,
            },
        }
    }
}

/// The contents of a list of emissions.
pub open spec fn emission_views(emissions: Seq<Emission>) -> Seq<EmissionView> {
    emissions.map_values(|e: Emission| e@)
}

/// The label `component_kind` of every emission.
pub fn component_kind() -> (r: &'static str)
    ensures
        r@ == "source"@,
{
    "source"
}

/// The label `component_type` of every emission.
pub fn component_type() -> (r: &'static str)
    ensures
        r@ == "apache_metrics"@,
{
    "apache_metrics"
}

/// One counter that goes up by `value`.
fn one_counter(name: &'static str, value: u64) -> (r: Vec<Emission>)
    ensures
        emission_views(r@) == seq![EmissionView::Counter { name: name@, value }],
{
    let mut r: Vec<Emission> = Vec::new();
    r.push(Emission::Counter { name, value });
    r
}

impl ApacheMetricsEventReceived {
    /// The metrics count as events processed, the bytes as bytes processed.
    pub fn emit_metrics(&self) -> (r: Vec<Emission>)
        ensures
            emission_views(r@) == seq![
                EmissionView::Counter { name: "events_processed"@, value: self.count as u64 },
                EmissionView::Counter { name: "bytes_processed"@, value: self.byte_size as u64 },
            ],
    {
        let mut r: Vec<Emission> = Vec::new();
        r.push(Emission::Counter { name: "events_processed", value: self.count as u64 });
        r.push(Emission::Counter { name: "bytes_processed", value: self.byte_size as u64 });
        r
    }
}

impl ApacheMetricsRequestCompleted {
    /// One more request completed, and how long it took.
    pub fn emit_metrics(&self) -> (r: Vec<Emission>)
        ensures
            emission_views(r@) == seq![
                EmissionView::Counter { name: "requests_completed"@, value: 1 },
                EmissionView::Timing {
                    name: "request_duration_nanoseconds"@,
                    start: self.start,
                    end: self.end,
                },
            ],
    {
        let mut r: Vec<Emission> = Vec::new();
        r.push(Emission::Counter { name: "requests_completed", value: 1 });
        r.push(
            Emission::Timing {
                name: "request_duration_nanoseconds",
                start: self.start,
                end: self.end,
            },
        );
        r
    }
}

impl ApacheMetricsParseError {
    /// One more parse error.
    pub fn emit_metrics(&self) -> (r: Vec<Emission>)
        ensures
            emission_views(r@) == seq![EmissionView::Counter { name: "parse_errors"@, value: 1 }],
    {
        one_counter("parse_errors", 1)
    }
}

impl ApacheMetricsErrorResponse {
    /// One more error response.
    pub fn emit_metrics(&self) -> (r: Vec<Emission>)
        ensures
            emission_views(r@) == seq![
                EmissionView::Counter { name: "http_error_response"@, value: 1 },
            ],
    {
        one_counter("http_error_response", 1)
    }
}

impl ApacheMetricsHttpError {
    /// One more request error.
    pub fn emit_metrics(&self) -> (r: Vec<Emission>)
        ensures
            emission_views(r@) == seq![
                EmissionView::Counter { name: "http_request_errors"@, value: 1 },
            ],
    {
        one_counter("http_request_errors", 1)
    }
}

impl InternalEvent {
    /// What the event adds to the collector's own measurements.
    pub fn emit_metrics(&self) -> (r: Vec<Emission>)
        ensures
            emission_views(r@) == self.emissions(),
    {
        match self {
            InternalEvent::EventReceived(e) => e.emit_metrics(),
            InternalEvent::RequestCompleted(e) => e.emit_metrics(),
            InternalEvent::ParseError(e) => e.emit_metrics(),
            InternalEvent::ErrorResponse(e) => e.emit_metrics(),
            InternalEvent::HttpError(e) => e.emit_metrics(),
        }
    }

    /// The emissions of each kind of event.
    pub open spec fn emissions(&self) -> Seq<EmissionView> {
        match self {
            InternalEvent::EventReceived(e) => seq![
                EmissionView::Counter { name: "events_processed"@, value: e.count as u64 },
                EmissionView::Counter { name: "bytes_processed"@, value: e.byte_size as u64 },
            ],
            InternalEvent::RequestCompleted(e) => seq![
                EmissionView::Counter { name: "requests_completed"@, value: 1 },
                EmissionView::Timing {
                    name: "request_duration_nanoseconds"@,
                    start: e.start,
                    end: e.end,
                },
            ],
            InternalEvent::ParseError(_) => seq![
                EmissionView::Counter { name: "parse_errors"@, value: 1 },
            ],
            InternalEvent::ErrorResponse(_) => seq![
                EmissionView::Counter { name: "http_error_response"@, value: 1 },
            ],
            InternalEvent::HttpError(_) => seq![
                EmissionView::Counter { name: "http_request_errors"@, value: 1 },
            ],
        }
    }
}

} // verus!

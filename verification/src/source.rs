//! The source: when to scrape which endpoints, and what to make of the answer
//! of each.
//!
//! The library decides; the caller runs the timer, sends the requests, hands
//! back what came of them, writes the events out and forwards the metrics.

use crate::config::uri_accepts;
use crate::internal_events::{
    event_views, ApacheMetricsErrorResponse, ApacheMetricsEventReceived, ApacheMetricsHttpError,
    ApacheMetricsParseError, ApacheMetricsRequestCompleted, EventView, InternalEvent,
};
use crate::metric::{metric_views, Metric, MetricView, Tags, Timestamp};
use crate::parser::{error_views, parse, report, ParseErrorView};
use std::time::Instant;
use vstd::prelude::*;

verus! {

/// The text that `String::from_utf8_lossy` makes of the bytes.
pub uninterp spec fn lossy_text(bytes: Seq<u8>) -> Seq<char>;

/// `String::from_utf8_lossy` turns bytes into text, putting U+FFFD in the place
/// of what is not UTF-8. The text depends on the bytes alone, and bytes that
/// are UTF-8 are decoded as they stand.
#[verifier::external_body]
fn decode_lossy(bytes: &[u8]) -> (text: String)
    ensures
        text@ == lossy_text(bytes@),
        vstd::utf8::valid_utf8(bytes@) ==> text@ == vstd::utf8::decode_utf8(bytes@),
{
    String::from_utf8_lossy(bytes).into_owned()
}

/// Whether the scheduler still scrapes.
#[derive(Clone, Copy, Debug, PartialEq, Eq, Structural)]
pub enum State {
    Running,
    /// Shutdown was asked for. There is no way back.
    ShuttingDown,
}

/// What the scheduler is told.
#[derive(Clone, Copy, Debug, PartialEq, Eq, Structural)]
pub enum Signal {
    /// The interval has passed once more.
    Tick,
    /// Shutdown is asked for.
    Shutdown,
}

/// What the scheduler asks for in turn.
#[derive(Clone, Debug, PartialEq, Eq)]
pub enum Action {
    /// Send one request to each of these endpoints, all at once, and wait for
    /// the next signal without waiting for the answers.
    Scrape(Vec<String>),
    /// Wait for no further signal. Requests that are under way run to their end.
    Stop,
}

/// The state after `signal` came in `state`.
pub open spec fn next_state(state: State, signal: Signal) -> State {
    match (state, signal) {
        (State::Running, Signal::Tick) => State::Running,
        _ => State::ShuttingDown,
    }
}

/// Whether `signal` in `state` leads to a scrape.
pub open spec fn scrapes(state: State, signal: Signal) -> bool {
    state == State::Running && signal == Signal::Tick
}

/// The state after all of `signals` came in `state`, one after the other.
pub open spec fn state_after(state: State, signals: Seq<Signal>) -> State
    decreases signals.len(),
{
    if signals.len() == 0 {
        state
    } else {
        next_state(state_after(state, signals.drop_last()), signals.last())
    }
}

/// Once shutdown was asked for, the scheduler is shutting down for good and
/// no later tick leads to a scrape.
pub proof fn lemma_shutdown_is_final(state: State, signals: Seq<Signal>, i: int)
    requires
        0 <= i < signals.len(),
        signals[i] == Signal::Shutdown,
    ensures
        state_after(state, signals) == State::ShuttingDown,
        forall|j: int|
            i < j < signals.len() ==> !scrapes(
                state_after(state, signals.take(j)),
                #[trigger] signals[j],
            ),
    decreases signals.len(),
{
    if i < signals.len() - 1 {
        lemma_shutdown_is_final(state, signals.drop_last(), i);
        assert forall|j: int| i < j < signals.len() implies !scrapes(
            state_after(state, signals.take(j)),
            #[trigger] signals[j],
        ) by {
            if j < signals.len() - 1 {
                assert(signals.drop_last().take(j) =~= signals.take(j));
                assert(signals.drop_last()[j] == signals[j]);
            } else {
                assert(signals.take(j) =~= signals.drop_last());
            }
        }
    }
}

/// The texts of a list of strings.
pub open spec fn texts(strings: Seq<String>) -> Seq<Seq<char>> {
    strings.map_values(|s: String| s@)
}

/// A copy of the strings.
fn copy_strings(strings: &Vec<String>) -> (r: Vec<String>)
    ensures
        texts(r@) == texts(strings@),
{
    let mut r: Vec<String> = Vec::new();
    let mut i: usize = 0;
    while i < strings.len()
        invariant
            i <= strings@.len(),
            texts(r@) == texts(strings@.take(i as int)),
        decreases strings@.len() - i,
    {
        assert(texts(r@.push(strings@[i as int])) =~= texts(r@).push(strings@[i as int]@));
        r.push(strings[i].clone());
        i += 1;
    }
    r
}

/// A source of Apache metrics: the endpoints to scrape, how often, the
/// namespace of the metrics, and whether it is still running.
///
/// Every endpoint is a text that `http::Uri` reads as a URI.
#[derive(Debug)]
pub struct ApacheMetrics {
    urls: Vec<String>,
    interval: u64,
    namespace: String,
    state: State,
}

impl ApacheMetrics {
    #[verifier::type_invariant]
    spec fn inv(&self) -> bool {
        forall|i: int| 0 <= i < self.urls@.len() ==> uri_accepts(#[trigger] self.urls@[i]@)
    }

    /// The endpoints.
    pub closed spec fn endpoints(&self) -> Seq<Seq<char>> {
        texts(self.urls@)
    }

    /// The seconds from one scrape to the next.
    pub closed spec fn interval_secs(&self) -> u64 {
        self.interval
    }

    /// The namespace of the metrics.
    pub closed spec fn namespace_text(&self) -> Seq<char> {
        self.namespace@
    }

    /// Running, or shutting down.
    pub closed spec fn current(&self) -> State {
        self.state
    }

    /// The endpoints.
    pub fn urls(&self) -> (r: Vec<String>)
        ensures
            texts(r@) == self.endpoints(),
            forall|i: int| 0 <= i < r@.len() ==> uri_accepts(#[trigger] r@[i]@),
    {
        proof {
            use_type_invariant(self);
        }
        let r = copy_strings(&self.urls);
        assert forall|i: int| 0 <= i < r@.len() implies uri_accepts(#[trigger] r@[i]@) by {
            assert(texts(r@).len() == texts(self.urls@).len());
            assert(texts(self.urls@)[i] == self.urls@[i]@);
        }
        r
    }

    /// The seconds from one scrape to the next.
    pub fn interval(&self) -> (r: u64)
        ensures
            r == self.interval_secs(),
    {
        self.interval
    }

    /// The namespace of the metrics.
    pub fn namespace(&self) -> (r: &str)
        ensures
            r@ == self.namespace_text(),
    {
        self.namespace.as_str()
    }

    /// Running, or shutting down.
    pub fn state(&self) -> (r: State)
        ensures
            r == self.current(),
    {
        self.state
    }

    /// Takes a signal in: a tick while running asks for a scrape of every
    /// endpoint, and anything else stops the scheduler for good.
    pub fn on_signal(&mut self, signal: Signal) -> (action: Action)
        ensures
            final(self).current() == next_state(old(self).current(), signal),
            final(self).endpoints() == old(self).endpoints(),
            final(self).interval_secs() == old(self).interval_secs(),
            final(self).namespace_text() == old(self).namespace_text(),
            match action {
                Action::Scrape(urls) => scrapes(old(self).current(), signal) && texts(urls@) == old(
                    self,
                ).endpoints(),
                Action::Stop => !scrapes(old(self).current(), signal),
            },
    {
        proof {
            use_type_invariant(&*self);
        }
        match (self.state, signal) {
            (State::Running, Signal::Tick) => Action::Scrape(self.urls()),
            _ => {
                self.state = State::ShuttingDown;
                Action::Stop
            },
        }
    }

    /// Makes metrics and events of what came of one request to `url`, read at
    /// `now`. This is open in every state: an answer that comes in while the
    /// source shuts down still counts.
    pub fn on_outcome(&self, url: &str, outcome: ScrapeOutcome, now: Timestamp) -> (r: Scrape)
        ensures
            r@ == scrape_of(
                outcome@,
                url@,
                self.namespace_text(),
                now,
                Map::<Seq<char>, Seq<char>>::empty(),
            ),
    {
        let tags = Tags::new();
        scrape(outcome, url, self.namespace.as_str(), now, &tags)
    }
}

/// A source that scrapes `urls` every `interval` seconds and names its metrics
/// in `namespace`. It starts out running.
pub fn apache_metrics(urls: Vec<String>, interval: u64, namespace: String) -> (r: ApacheMetrics)
    requires
        forall|i: int| 0 <= i < urls@.len() ==> uri_accepts(#[trigger] urls@[i]@),
    ensures
        r.endpoints() == texts(urls@),
        r.interval_secs() == interval,
        r.namespace_text() == namespace@,
        r.current() == State::Running,
{
    ApacheMetrics { urls, interval, namespace, state: State::Running }
}

/// What came of one request.
#[derive(Debug, PartialEq, Eq)]
pub enum ScrapeOutcome {
    /// An answer with its status, its whole body, and when the request began
    /// and ended.
    Success { status_code: u16, body: Vec<u8>, start: Instant, end: Instant },
    /// An answer with a status other than success.
    HttpError { status_code: u16 },
    /// No answer.
    TransportError { cause: String },
}

/// The mathematical content of a `ScrapeOutcome`.
pub enum OutcomeView {
    Success { status_code: u16, body: Seq<u8>, start: Instant, end: Instant },
    HttpError { status_code: u16 },
    TransportError { cause: Seq<char> },
}

impl View for ScrapeOutcome {
    type V = OutcomeView;

    open spec fn view(&self) -> OutcomeView {
        match self {
            ScrapeOutcome::Success { status_code, body, start, end } => OutcomeView::Success {
                status_code: *status_code,
                body: body@,
                start: *start,
                end: *end,
            },
            ScrapeOutcome::HttpError { status_code } => OutcomeView::HttpError {
                status_code: *status_code,
            },
            ScrapeOutcome::TransportError { cause } => OutcomeView::TransportError {
                cause: cause@,
            },
        }
    }
}

/// The statuses of success: 200 to 299.
pub open spec fn is_success(status_code: u16) -> bool {
    200 <= status_code < 300
}

/// Whether `status_code` is a status of success, so that the body is to be
/// read.
pub fn is_success_status(status_code: u16) -> (r: bool)
    ensures
        r == is_success(status_code),
{
    200 <= status_code && status_code < 300
}

/// The metrics to forward and the events to write out after one request.
#[derive(Clone, Debug, PartialEq, Eq)]
pub struct Scrape {
    pub metrics: Vec<Metric>,
    pub events: Vec<InternalEvent>,
}

/// The mathematical content of a `Scrape`.
pub struct ScrapeView {
    pub metrics: Seq<MetricView>,
    pub events: Seq<EventView>,
}

impl View for Scrape {
    type V = ScrapeView;

    open spec fn view(&self) -> ScrapeView {
        ScrapeView { metrics: metric_views(self.metrics@), events: event_views(self.events@) }
    }
}

/// What a body that was read as `text` gives: the metrics of the report, and
/// the events that the request completed, that so many metrics were received
/// from so many bytes, and one parse error for each line that could not be
/// read, in the order of the lines.
pub open spec fn scrape_of_text(
    text: Seq<char>,
    byte_size: usize,
    start: Instant,
    end: Instant,
    url: Seq<char>,
    namespace: Seq<char>,
    now: Timestamp,
    tags: Map<Seq<char>, Seq<char>>,
) -> ScrapeView {
    let found = report(text, namespace, now, tags);
    ScrapeView {
        metrics: found.metrics,
        events: seq![
            EventView::RequestCompleted { start, end },
            EventView::EventReceived { byte_size, count: found.metrics.len() as usize },
        ] + found.errors.map_values(
            |error: ParseErrorView| (EventView::ParseError { error, url, body: text }),
        ),
    }
}

/// What a request without a report gives: no metric, and the one event.
pub open spec fn scrape_of_failure(event: EventView) -> ScrapeView {
    ScrapeView { metrics: Seq::empty(), events: seq![event] }
}

/// What the outcome of a request to `url` gives. Only an answer with a status
/// of success is read as a report.
pub open spec fn scrape_of(
    outcome: OutcomeView,
    url: Seq<char>,
    namespace: Seq<char>,
    now: Timestamp,
    tags: Map<Seq<char>, Seq<char>>,
) -> ScrapeView {
    match outcome {
        OutcomeView::Success { status_code, body, start, end } => if is_success(status_code) {
            scrape_of_text(
                lossy_text(body),
                body.len() as usize,
                start,
                end,
                url,
                namespace,
                now,
                tags,
            )
        } else {
            scrape_of_failure(EventView::ErrorResponse { code: status_code, url })
        },
        OutcomeView::HttpError { status_code } => scrape_of_failure(
            EventView::ErrorResponse { code: status_code, url },
        ),
        OutcomeView::TransportError { cause } => scrape_of_failure(
            EventView::HttpError { cause, url },
        ),
    }
}

/// Only an answer with a status of success gives metrics. Every other
/// outcome gives exactly one event and nothing else, and an answer that is
/// read gives the two events of a completed request before any parse error.
pub proof fn lemma_scrape_of(
    outcome: OutcomeView,
    url: Seq<char>,
    namespace: Seq<char>,
    now: Timestamp,
    tags: Map<Seq<char>, Seq<char>>,
)
    ensures
        ({
            let found = scrape_of(outcome, url, namespace, now, tags);
            let read = outcome matches OutcomeView::Success { status_code, .. } && is_success(
                status_code,
            );
            &&& !read ==> found.metrics.len() == 0 && found.events.len() == 1 && (found.events[0]
                is ErrorResponse || found.events[0] is HttpError)
            &&& read ==> {
                &&& found.events.len() >= 2
                &&& found.events[0] is RequestCompleted
                &&& found.events[1] is EventReceived
                &&& forall|i: int| 2 <= i < found.events.len() ==> found.events[i] is ParseError
                &&& found.events.len() - 2 == report(
                    lossy_text(outcome->body),
                    namespace,
                    now,
                    tags,
                ).errors.len()
            }
        }),
{
}

/// One event and no metric.
fn failure(event: InternalEvent) -> (r: Scrape)
    ensures
        r@ == scrape_of_failure(event@),
{
    let mut events: Vec<InternalEvent> = Vec::new();
    events.push(event);
    let r = Scrape { metrics: Vec::new(), events };
    assert(r@.metrics =~= Seq::<MetricView>::empty());
    assert(r@.events =~= seq![event@]);
    r
}

/// Reads the body `text` of an answer with a status of success, `byte_size`
/// bytes long, to a request to `url` that ran from `start` to `end`.
pub fn scrape_text(
    text: &str,
    byte_size: usize,
    start: Instant,
    end: Instant,
    url: &str,
    namespace: &str,
    now: Timestamp,
    tags: &Tags,
) -> (r: Scrape)
    ensures
        r@ == scrape_of_text(text@, byte_size, start, end, url@, namespace@, now, tags@),
{
    let (metrics, errors) = parse(text, namespace, now, tags);
    let ghost found = report(text@, namespace@, now, tags@);
    let ghost wrap = |error: ParseErrorView|
        (EventView::ParseError { error, url: url@, body: text@ });
    let mut events: Vec<InternalEvent> = Vec::new();
    events.push(
        InternalEvent::RequestCompleted(ApacheMetricsRequestCompleted { start, end }),
    );
    events.push(
        InternalEvent::EventReceived(
            ApacheMetricsEventReceived { byte_size, count: metrics.len() },
        ),
    );
    let ghost head = event_views(events@);
    assert(head =~= seq![
        EventView::RequestCompleted { start, end },
        EventView::EventReceived { byte_size, count: found.metrics.len() as usize },
    ]);
    let mut i: usize = 0;
    while i < errors.len()
        invariant
            i <= errors@.len(),
            error_views(errors@) == found.errors,
            event_views(events@) == head + found.errors.take(i as int).map_values(wrap),
            wrap == |error: ParseErrorView|
                (EventView::ParseError { error, url: url@, body: text@ }),
        decreases errors@.len() - i,
    {
        let event = InternalEvent::ParseError(
            ApacheMetricsParseError {
                error: errors[i].clone(),
                url: url.to_owned(),
                body: text.to_owned(),
            },
        );
        proof {
            assert(event_views(events@.push(event)) =~= event_views(events@).push(event@));
        }
        events.push(event);
        i += 1;
    }
    assert(found.errors.take(i as int) =~= found.errors);
    Scrape { metrics, events }
}

/// Makes metrics and events of what came of one request to `url`, read at
/// `now` in `namespace` with the tags `tags`.
///
/// A body is read as UTF-8, with U+FFFD in the place of what is not UTF-8.
pub fn scrape(outcome: ScrapeOutcome, url: &str, namespace: &str, now: Timestamp, tags: &Tags) -> (r:
    Scrape)
    ensures
        r@ == scrape_of(outcome@, url@, namespace@, now, tags@),
        outcome@ matches OutcomeView::Success { status_code, body, start, end } ==> is_success(
            status_code,
        ) && vstd::utf8::valid_utf8(body) ==> r@ == scrape_of_text(
            vstd::utf8::decode_utf8(body),
            body.len() as usize,
            start,
            end,
            url@,
            namespace@,
            now,
            tags@,
        ),
{
    match outcome {
        ScrapeOutcome::Success { status_code, body, start, end } => {
            if is_success_status(status_code) {
                let text = decode_lossy(body.as_slice());
                scrape_text(text.as_str(), body.len(), start, end, url, namespace, now, tags)
            } else {
                failure(
                    InternalEvent::ErrorResponse(
                        ApacheMetricsErrorResponse { code: status_code, url: url.to_owned() },
                    ),
                )
            }
        },
        ScrapeOutcome::HttpError { status_code } => failure(
            InternalEvent::ErrorResponse(
                ApacheMetricsErrorResponse { code: status_code, url: url.to_owned() },
            ),
        ),
        ScrapeOutcome::TransportError { cause } => failure(
            InternalEvent::HttpError(ApacheMetricsHttpError { error: cause, url: url.to_owned() }),
        ),
    }
}

} // verus!

//! From the text of a status report to metrics.
//!
//! A report is a sequence of lines of the form `Key: value`. Each line with a
//! known key gives one or more metrics, or one error if its value cannot be
//! read; every other line gives nothing.

use crate::metric::{
    metric_views, Metric, MetricKind, MetricValue, MetricValueView, MetricView, Tags, Timestamp,
};
use crate::number::{
    check_float_chars, float_cause, parse_u32_chars, u32_value, Number, NumberView, ParseCause,
};
use crate::text::{
    chars_of, find_char, index_of, lines, same_text, string_of, trim, trim_range,
};
use vstd::prelude::*;

verus! {

/// A line whose value could not be read: the line's key, and the cause.
#[derive(Debug, PartialEq, Eq)]
pub struct ParseError {
    pub key: String,
    pub cause: ParseCause,
}

/// The mathematical content of a `ParseError`.
pub struct ParseErrorView {
    pub key: Seq<char>,
    pub cause: ParseCause,
}

impl View for ParseError {
    type V = ParseErrorView;

    open spec fn view(&self) -> ParseErrorView {
        ParseErrorView { key: self.key@, cause: self.cause }
    }
}

impl Clone for ParseError {
    fn clone(&self) -> (r: ParseError)
        ensures
            r == *self,
    {
        ParseError { key: self.key.clone(), cause: self.cause }
    }
}

impl ParseError {
    /// The error in words.
    pub fn message(&self) -> (s: String)
        ensures
            s@ == "could not parse value for "@ + self.key@ + ": "@ + self.cause.message_text(),
    {
        let mut s = String::from_str("could not parse value for ");
        s.append(self.key.as_str());
        s.append(": ");
        s.append(self.cause.message().as_str());
        s
    }
}

/// What one line of a report gives.
#[derive(Clone, Debug, PartialEq, Eq)]
pub enum LineResult {
    /// The metrics of a line whose key is known and whose value was read.
    Metrics(Vec<Metric>),
    /// The key is known and the value could not be read.
    Error(ParseError),
    /// The key is not known.
    Ignored,
}

/// The mathematical content of a `LineResult`.
pub enum LineResultView {
    Metrics(Seq<MetricView>),
    Error(ParseErrorView),
    Ignored,
}

impl View for LineResult {
    type V = LineResultView;

    open spec fn view(&self) -> LineResultView {
        match self {
            LineResult::Metrics(metrics) => LineResultView::Metrics(metric_views(metrics@)),
            LineResult::Error(error) => LineResultView::Error(error@),
            LineResult::Ignored => LineResultView::Ignored,
        }
    }
}

/// The name of a metric in a namespace: `<namespace>_<name>`, or the bare name
/// in the empty namespace.
pub open spec fn encoded_name(namespace: Seq<char>, name: Seq<char>) -> Seq<char> {
    if namespace.len() > 0 {
        namespace + seq!['_'] + name
    } else {
        name
    }
}

/// Puts `name` into `namespace`.
pub fn encode_namespace(namespace: &str, name: &str) -> (r: String)
    ensures
        r@ == encoded_name(namespace@, name@),
{
    if !namespace.is_empty() {
        proof {
            reveal_strlit("_");
        }
        let mut r = namespace.to_owned();
        r.append("_");
        r.append(name);
        r
    } else {
        name.to_owned()
    }
}

/// How the value of a numeric key becomes a metric.
#[derive(Clone, Copy, Debug, PartialEq, Eq)]
pub struct Rule {
    /// The metric's name, before the namespace is put in front.
    pub suffix: &'static str,
    /// A gauge if set, else a counter.
    pub gauge: bool,
    /// The tag that the metric gets besides the caller's.
    pub tag: Option<(&'static str, &'static str)>,
    /// The value is a whole number of kibibytes and the metric counts bytes.
    pub kilobytes: bool,
    /// The line also reports that the server is up.
    pub up: bool,
}

/// The mathematical content of a `Rule`.
pub struct RuleView {
    pub suffix: Seq<char>,
    pub gauge: bool,
    pub tag: Option<(Seq<char>, Seq<char>)>,
    pub kilobytes: bool,
    pub up: bool,
}

impl View for Rule {
    type V = RuleView;

    open spec fn view(&self) -> RuleView {
        RuleView {
            suffix: self.suffix@,
            gauge: self.gauge,
            tag: match self.tag {
                Some((key, value)) => Some((key@, value@)),
                None => None,
            },
            kilobytes: self.kilobytes,
            up: self.up,
        }
    }
}

pub open spec fn counter_rule(suffix: Seq<char>) -> RuleView {
    RuleView { suffix, gauge: false, tag: None, kilobytes: false, up: false }
}

pub open spec fn gauge_rule(suffix: Seq<char>, tag: Option<(Seq<char>, Seq<char>)>) -> RuleView {
    RuleView { suffix, gauge: true, tag, kilobytes: false, up: false }
}

/// The table of numeric keys.
pub open spec fn rule_for(key: Seq<char>) -> Option<RuleView> {
    if key == "Uptime"@ {
        Some(RuleView { up: true, ..counter_rule("uptime_seconds_total"@) })
    } else if key == "Total Accesses"@ {
        Some(counter_rule("access_total"@))
    } else if key == "Total kBytes"@ {
        Some(RuleView { kilobytes: true, ..counter_rule("sent_bytes_total"@) })
    } else if key == "Total Duration"@ {
        Some(counter_rule("duration_seconds_total"@))
    } else if key == "CPUUser"@ {
        Some(gauge_rule("cpu_seconds_total"@, Some(("type"@, "user"@))))
    } else if key == "CPUSystem"@ {
        Some(gauge_rule("cpu_seconds_total"@, Some(("type"@, "system"@))))
    } else if key == "CPUChildrenUser"@ {
        Some(gauge_rule("cpu_seconds_total"@, Some(("type"@, "children_user"@))))
    } else if key == "CPUChildrenSystem"@ {
        Some(gauge_rule("cpu_seconds_total"@, Some(("type"@, "children_system"@))))
    } else if key == "CPULoad"@ {
        Some(gauge_rule("cpu_load"@, None))
    } else if key == "IdleWorkers"@ {
        Some(gauge_rule("workers"@, Some(("state"@, "idle"@))))
    } else if key == "BusyWorkers"@ {
        Some(gauge_rule("workers"@, Some(("state"@, "busy"@))))
    } else if key == "ConnsTotal"@ {
        Some(gauge_rule("connections"@, Some(("state"@, "total"@))))
    } else if key == "ConnsAsyncWriting"@ {
        Some(gauge_rule("connections"@, Some(("state"@, "writing"@))))
    } else if key == "ConnsAsyncClosing"@ {
        Some(gauge_rule("connections"@, Some(("state"@, "closing"@))))
    } else if key == "ConnsAsyncKeepAlive"@ {
        Some(gauge_rule("connections"@, Some(("state"@, "keepalive"@))))
    } else {
        None
    }
}

fn counter(suffix: &'static str) -> (r: Rule)
    ensures
        r@ == counter_rule(suffix@),
{
    Rule { suffix, gauge: false, tag: None, kilobytes: false, up: false }
}

fn gauge(suffix: &'static str, tag: Option<(&'static str, &'static str)>) -> (r: Rule)
    ensures
        r@ == gauge_rule(
            suffix@,
            match tag {
                Some((key, value)) => Some((key@, value@)),
                None => None,
            },
        ),
{
    Rule { suffix, gauge: true, tag, kilobytes: false, up: false }
}

/// Looks `key` up in the table of numeric keys.
pub fn find_rule(key: &str) -> (r: Option<Rule>)
    ensures
        match r {
            Some(rule) => rule_for(key@) == Some(rule@),
            None => rule_for(key@) is None,
        },
{
    if same_text(key, "Uptime") {
        Some(
            Rule {
                suffix: "uptime_seconds_total",
                gauge: false,
                tag: None,
                kilobytes: false,
                up: true,
            },
        )
    } else if same_text(key, "Total Accesses") {
        Some(counter("access_total"))
    } else if same_text(key, "Total kBytes") {
        Some(
            Rule {
                suffix: "sent_bytes_total",
                gauge: false,
                tag: None,
                kilobytes: true,
                up: false,
            },
        )
    } else if same_text(key, "Total Duration") {
        Some(counter("duration_seconds_total"))
    } else if same_text(key, "CPUUser") {
        Some(gauge("cpu_seconds_total", Some(("type", "user"))))
    } else if same_text(key, "CPUSystem") {
        Some(gauge("cpu_seconds_total", Some(("type", "system"))))
    } else if same_text(key, "CPUChildrenUser") {
        Some(gauge("cpu_seconds_total", Some(("type", "children_user"))))
    } else if same_text(key, "CPUChildrenSystem") {
        Some(gauge("cpu_seconds_total", Some(("type", "children_system"))))
    } else if same_text(key, "CPULoad") {
        Some(gauge("cpu_load", None))
    } else if same_text(key, "IdleWorkers") {
        Some(gauge("workers", Some(("state", "idle"))))
    } else if same_text(key, "BusyWorkers") {
        Some(gauge("workers", Some(("state", "busy"))))
    } else if same_text(key, "ConnsTotal") {
        Some(gauge("connections", Some(("state", "total"))))
    } else if same_text(key, "ConnsAsyncWriting") {
        Some(gauge("connections", Some(("state", "writing"))))
    } else if same_text(key, "ConnsAsyncClosing") {
        Some(gauge("connections", Some(("state", "closing"))))
    } else if same_text(key, "ConnsAsyncKeepAlive") {
        Some(gauge("connections", Some(("state", "keepalive"))))
    } else {
        None
    }
}

/// The characters that a scoreboard uses for the states of a worker.
pub open spec fn state_chars() -> Seq<char> {
    seq!['_', 'S', 'R', 'W', 'K', 'D', 'C', 'L', 'G', 'I', '.']
}

/// The names of the states, in the order of `state_chars`.
pub open spec fn state_names() -> Seq<Seq<char>> {
    seq![
        "waiting"@,
        "starting"@,
        "reading"@,
        "sending"@,
        "keepalive"@,
        "dnslookup"@,
        "closing"@,
        "logging"@,
        "finishing"@,
        "idle_cleanup"@,
        "open"@,
    ]
}

/// How often `c` occurs in `s`.
pub open spec fn count_of(s: Seq<char>, c: char) -> nat
    decreases s.len(),
{
    if s.len() == 0 {
        0
    } else {
        count_of(s.drop_last(), c) + if s.last() == c {
            1nat
        } else {
            0nat
        }
    }
}

/// The tags of a metric: the caller's, and the rule's own tag if it has one.
pub open spec fn tagged(
    tags: Map<Seq<char>, Seq<char>>,
    tag: Option<(Seq<char>, Seq<char>)>,
) -> Map<Seq<char>, Seq<char>> {
    match tag {
        Some((key, value)) => tags.insert(key, value),
        None => tags,
    }
}

/// A counter or a gauge of the given number.
pub open spec fn value_of(gauge: bool, number: NumberView) -> MetricValueView {
    if gauge {
        MetricValueView::Gauge { value: number }
    } else {
        MetricValueView::Counter { value: number }
    }
}

/// The metric of a given name, tags and value, observed at `now`.
pub open spec fn metric_of(
    namespace: Seq<char>,
    suffix: Seq<char>,
    now: Timestamp,
    tags: Map<Seq<char>, Seq<char>>,
    value: MetricValueView,
) -> MetricView {
    MetricView {
        name: encoded_name(namespace, suffix),
        timestamp: now,
        tags,
        kind: MetricKind::Absolute,
        value,
    }
}

/// The number that a rule reads from a value: a count of bytes from a whole
/// number of kibibytes, or a decimal literal as it stands.
pub open spec fn reading(rule: RuleView, value: Seq<char>) -> Result<NumberView, ParseCause> {
    if rule.kilobytes {
        match u32_value(value) {
            Ok(n) => Ok(NumberView::Count((n * 1024) as nat)),
            Err(cause) => Err(cause),
        }
    } else {
        match float_cause(value) {
            None => Ok(NumberView::Literal(value)),
            Some(cause) => Err(cause),
        }
    }
}

/// The metric that says that the server is up: the counter `up` with value 1.
pub open spec fn up_metric(
    namespace: Seq<char>,
    now: Timestamp,
    tags: Map<Seq<char>, Seq<char>>,
) -> MetricView {
    metric_of(namespace, "up"@, now, tags, MetricValueView::Counter { value: NumberView::Count(1) })
}

/// The metrics of a numeric line whose value was read as `number`.
pub open spec fn rule_metrics(
    rule: RuleView,
    number: NumberView,
    namespace: Seq<char>,
    now: Timestamp,
    tags: Map<Seq<char>, Seq<char>>,
) -> Seq<MetricView> {
    let first = metric_of(
        namespace,
        rule.suffix,
        now,
        tagged(tags, rule.tag),
        value_of(rule.gauge, number),
    );
    if rule.up {
        seq![first, up_metric(namespace, now, tags)]
    } else {
        seq![first]
    }
}

/// The gauge of the state with index `i`, for the scoreboard `value`.
pub open spec fn state_metric(
    i: int,
    value: Seq<char>,
    namespace: Seq<char>,
    now: Timestamp,
    tags: Map<Seq<char>, Seq<char>>,
) -> MetricView {
    metric_of(
        namespace,
        "scoreboard"@,
        now,
        tags.insert("state"@, state_names()[i]),
        MetricValueView::Gauge { value: NumberView::Count(count_of(value, state_chars()[i])) },
    )
}

/// The metrics of a scoreboard: one gauge for each state, in the order of
/// `state_chars`, that says how many workers are in the state.
pub open spec fn scoreboard_metrics(
    value: Seq<char>,
    namespace: Seq<char>,
    now: Timestamp,
    tags: Map<Seq<char>, Seq<char>>,
) -> Seq<MetricView> {
    Seq::new(11, |i: int| state_metric(i, value, namespace, now, tags))
}

/// What the line `key: value` gives.
pub open spec fn line_result(
    key: Seq<char>,
    value: Seq<char>,
    namespace: Seq<char>,
    now: Timestamp,
    tags: Map<Seq<char>, Seq<char>>,
) -> LineResultView {
    match rule_for(key) {
        Some(rule) => match reading(rule, value) {
            Ok(number) => LineResultView::Metrics(rule_metrics(rule, number, namespace, now, tags)),
            Err(cause) => LineResultView::Error(ParseErrorView { key, cause }),
        },
        None => if key == "Scoreboard"@ {
            LineResultView::Metrics(scoreboard_metrics(value, namespace, now, tags))
        } else {
            LineResultView::Ignored
        },
    }
}

/// The index of `c` among the state characters.
fn state_index(c: char) -> (r: Option<usize>)
    ensures
        match r {
            Some(i) => i < 11 && state_chars()[i as int] == c,
            None => forall|i: int| 0 <= i < 11 ==> state_chars()[i] != c,
        },
{
    match c {
        '_' => Some(0),
        'S' => Some(1),
        'R' => Some(2),
        'W' => Some(3),
        'K' => Some(4),
        'D' => Some(5),
        'C' => Some(6),
        'L' => Some(7),
        'G' => Some(8),
        'I' => Some(9),
        '.' => Some(10),
        _ => None,
    }
}

/// The name of the state with index `i`.
fn state_name(i: usize) -> (r: &'static str)
    requires
        i < 11,
    ensures
        r@ == state_names()[i as int],
{
    if i == 0 {
        "waiting"
    } else if i == 1 {
        "starting"
    } else if i == 2 {
        "reading"
    } else if i == 3 {
        "sending"
    } else if i == 4 {
        "keepalive"
    } else if i == 5 {
        "dnslookup"
    } else if i == 6 {
        "closing"
    } else if i == 7 {
        "logging"
    } else if i == 8 {
        "finishing"
    } else if i == 9 {
        "idle_cleanup"
    } else {
        "open"
    }
}

/// Counts, for each state, the characters of `value` that stand for it.
fn count_states(value: &[char]) -> (counts: Vec<u64>)
    ensures
        counts@.len() == 11,
        forall|j: int| 0 <= j < 11 ==> counts@[j] == count_of(value@, #[trigger] state_chars()[j]),
{
    let mut counts: Vec<u64> = Vec::new();
    let mut j: usize = 0;
    while j < 11
        invariant
            j <= 11,
            counts@.len() == j,
            forall|k: int| 0 <= k < j ==> counts@[k] == 0,
        decreases 11 - j,
    {
        counts.push(0);
        j += 1;
    }
    let n = value.len();
    let mut i: usize = 0;
    while i < n
        invariant
            i <= n == value@.len(),
            counts@.len() == 11,
            forall|j: int|
                0 <= j < 11 ==> counts@[j] == count_of(
                    value@.take(i as int),
                    #[trigger] state_chars()[j],
                ) && counts@[j] <= i,
        decreases n - i,
    {
        let c = value[i];
        proof {
            assert(value@.take(i + 1).drop_last() =~= value@.take(i as int));
        }
        match state_index(c) {
            Some(k) => {
                let old_count = counts[k];
                counts.set(k, old_count + 1);
            },
            None => {},
        }
        i += 1;
    }
    assert(value@.take(n as int) =~= value@);
    counts
}

/// A copy of `tags` with the rule's own tag, if it has one.
fn with_tag(tags: &Tags, tag: Option<(&'static str, &'static str)>) -> (r: Tags)
    ensures
        r@ == tagged(
            tags@,
            match tag {
                Some((key, value)) => Some((key@, value@)),
                None => None,
            },
        ),
{
    match tag {
        Some((key, value)) => tags.with(key, value),
        None => tags.clone(),
    }
}

fn new_metric(namespace: &str, suffix: &str, now: Timestamp, tags: Tags, value: MetricValue) -> (r:
    Metric)
    ensures
        r@ == metric_of(namespace@, suffix@, now, tags@, value@),
{
    Metric {
        name: encode_namespace(namespace, suffix),
        timestamp: now,
        tags,
        kind: MetricKind::Absolute,
        value,
    }
}

/// Reads `value` as the rule asks.
fn read_number(rule: &Rule, value: &str) -> (r: Result<Number, ParseCause>)
    ensures
        match r {
            Ok(number) => reading(rule@, value@) == Ok::<NumberView, ParseCause>(number@),
            Err(cause) => reading(rule@, value@) == Err::<NumberView, ParseCause>(cause),
        },
{
    let chars = chars_of(value);
    if rule.kilobytes {
        match parse_u32_chars(chars.as_slice()) {
            Ok(n) => {
                let kibibytes: u64 = n as u64;
                Ok(Number::Count(kibibytes * 1024))
            },
            Err(cause) => Err(cause),
        }
    } else {
        match check_float_chars(chars.as_slice()) {
            None => Ok(Number::Literal(value.to_owned())),
            Some(cause) => Err(cause),
        }
    }
}

/// The metrics of the scoreboard `value`.
fn scoreboard(value: &str, namespace: &str, now: Timestamp, tags: &Tags) -> (r: Vec<Metric>)
    ensures
        metric_views(r@) == scoreboard_metrics(value@, namespace@, now, tags@),
{
    let chars = chars_of(value);
    let counts = count_states(chars.as_slice());
    let mut metrics: Vec<Metric> = Vec::new();
    let mut i: usize = 0;
    while i < 11
        invariant
            i <= 11,
            metrics@.len() == i,
            counts@.len() == 11,
            chars@ == value@,
            forall|j: int|
                0 <= j < 11 ==> counts@[j] == count_of(value@, #[trigger] state_chars()[j]),
            forall|j: int|
                0 <= j < i ==> (#[trigger] metrics@[j])@ == state_metric(
                    j,
                    value@,
                    namespace@,
                    now,
                    tags@,
                ),
        decreases 11 - i,
    {
        let metric = new_metric(
            namespace,
            "scoreboard",
            now,
            tags.with("state", state_name(i)),
            MetricValue::Gauge { value: Number::Count(counts[i]) },
        );
        metrics.push(metric);
        i += 1;
    }
    metrics
}

/// Turns the line `key: value` into metrics in `namespace`, observed at `now`
/// and tagged with `tags`.
pub fn line_to_metrics(key: &str, value: &str, namespace: &str, now: Timestamp, tags: &Tags) -> (r:
    LineResult)
    ensures
        r@ == line_result(key@, value@, namespace@, now, tags@),
{
    let rule = match find_rule(key) {
        Some(rule) => rule,
        None => {
            if same_text(key, "Scoreboard") {
                return LineResult::Metrics(scoreboard(value, namespace, now, tags));
            }
            return LineResult::Ignored;
        },
    };
    let number = match read_number(&rule, value) {
        Ok(number) => number,
        Err(cause) => {
            return LineResult::Error(ParseError { key: key.to_owned(), cause });
        },
    };
    let value = if rule.gauge {
        MetricValue::Gauge { value: number }
    } else {
        MetricValue::Counter { value: number }
    };
    let mut metrics: Vec<Metric> = Vec::new();
    metrics.push(new_metric(namespace, rule.suffix, now, with_tag(tags, rule.tag), value));
    if rule.up {
        metrics.push(
            new_metric(
                namespace,
                "up",
                now,
                tags.clone(),
                MetricValue::Counter { value: Number::Count(1) },
            ),
        );
    }
    assert(metric_views(metrics@) =~= rule_metrics(
        rule@,
        value@.number(),
        namespace@,
        now,
        tags@,
    ));
    LineResult::Metrics(metrics)
}

/// What a report gives: its metrics and its errors, each in the order of the
/// lines that they come from.
pub struct Report {
    pub metrics: Seq<MetricView>,
    pub errors: Seq<ParseErrorView>,
}

/// The contents of a list of errors.
pub open spec fn error_views(errors: Seq<ParseError>) -> Seq<ParseErrorView> {
    errors.map_values(|e: ParseError| e@)
}

/// The key and the value of a line: what stands before the first colon, and
/// what stands after it without the whitespace around. A line without a colon
/// has neither.
pub open spec fn key_value(line: Seq<char>) -> Option<(Seq<char>, Seq<char>)> {
    let colon = index_of(line, ':');
    if 0 <= colon < line.len() {
        Some((line.take(colon), trim(line.skip(colon + 1))))
    } else {
        None
    }
}

/// What one line of a report gives.
pub open spec fn line_report(
    line: Seq<char>,
    namespace: Seq<char>,
    now: Timestamp,
    tags: Map<Seq<char>, Seq<char>>,
) -> Report {
    match key_value(line) {
        Some((key, value)) => match line_result(key, value, namespace, now, tags) {
            LineResultView::Metrics(metrics) => Report { metrics, errors: Seq::empty() },
            LineResultView::Error(error) => Report { metrics: Seq::empty(), errors: seq![error] },
            LineResultView::Ignored => Report { metrics: Seq::empty(), errors: Seq::empty() },
        },
        None => Report { metrics: Seq::empty(), errors: Seq::empty() },
    }
}

/// What a sequence of lines gives: what each line gives, joined in order.
pub open spec fn lines_report(
    lines: Seq<Seq<char>>,
    namespace: Seq<char>,
    now: Timestamp,
    tags: Map<Seq<char>, Seq<char>>,
) -> Report
    decreases lines.len(),
{
    if lines.len() == 0 {
        Report { metrics: Seq::empty(), errors: Seq::empty() }
    } else {
        let first = line_report(lines.first(), namespace, now, tags);
        let rest = lines_report(lines.drop_first(), namespace, now, tags);
        Report { metrics: first.metrics + rest.metrics, errors: first.errors + rest.errors }
    }
}

/// What the report `body` gives.
///
/// Lines end at a newline. A carriage return before the newline needs no
/// care of its own: it is whitespace at the end of a value, which is trimmed
/// away, or it belongs to a line without a colon, which gives nothing.
pub open spec fn report(
    body: Seq<char>,
    namespace: Seq<char>,
    now: Timestamp,
    tags: Map<Seq<char>, Seq<char>>,
) -> Report {
    lines_report(lines(body), namespace, now, tags)
}

/// Reads the report `packet`: every line with a known key adds its metrics or
/// its error, and no line keeps the lines after it from being read.
pub fn parse(packet: &str, namespace: &str, now: Timestamp, tags: &Tags) -> (r: (
    Vec<Metric>,
    Vec<ParseError>,
))
    ensures
        metric_views(r.0@) == report(packet@, namespace@, now, tags@).metrics,
        error_views(r.1@) == report(packet@, namespace@, now, tags@).errors,
{
    let chars = chars_of(packet);
    let v = chars.as_slice();
    let n = v.len();
    let mut metrics: Vec<Metric> = Vec::new();
    let mut errors: Vec<ParseError> = Vec::new();
    let mut pos: usize = 0;
    let ghost whole = report(packet@, namespace@, now, tags@);
    proof {
        assert(v@.skip(0) =~= packet@);
    }
    while pos < n
        invariant
            pos <= n == v@.len(),
            whole.metrics == metric_views(metrics@) + report(
                v@.skip(pos as int),
                namespace@,
                now,
                tags@,
            ).metrics,
            whole.errors == error_views(errors@) + report(
                v@.skip(pos as int),
                namespace@,
                now,
                tags@,
            ).errors,
        decreases n - pos,
    {
        let ghost rest = v@.skip(pos as int);
        let end = find_char(v, pos, n, '\n');
        let colon = find_char(v, pos, end, ':');
        let next: usize = if end < n {
            end + 1
        } else {
            n
        };
        let ghost line = rest.take(end - pos);
        let ghost after = v@.skip(next as int);
        proof {
            assert(v@.subrange(pos as int, end as int) =~= line);
            assert(end < n ==> rest.skip(end - pos + 1) =~= after);
            assert(end == n ==> after =~= Seq::<char>::empty());
            assert((seq![line] + lines(after)).drop_first() =~= lines(after));
        }
        if colon < end {
            let (from, to) = trim_range(v, colon + 1, end);
            let key = string_of(v, pos, colon);
            let value = string_of(v, from, to);
            proof {
                assert(line.take(colon - pos) =~= v@.subrange(pos as int, colon as int));
                assert(line.skip(colon - pos + 1) =~= v@.subrange(colon + 1, end as int));
            }
            match line_to_metrics(key.as_str(), value.as_str(), namespace, now, tags) {
                LineResult::Metrics(mut found) => {
                    metrics.append(&mut found);
                },
                LineResult::Error(error) => {
                    errors.push(error);
                },
                LineResult::Ignored => {},
            }
        }
        pos = next;
    }
    (metrics, errors)
}

} // verus!

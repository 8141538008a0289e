//! What holds of every report: the laws that the parser's contracts imply,
//! stated over the same specification functions and proved once and for all.

use crate::metric::{MetricKind, MetricValueView, MetricView, Timestamp};
use crate::number::{is_float_literal, u32_value, NumberView, ParseCause};
use crate::parser::{
    count_of, encoded_name, key_value, line_report, line_result, lines_report, reading, report,
    rule_for, rule_metrics, scoreboard_metrics, state_chars, state_metric, state_names, tagged,
    LineResultView, ParseErrorView, RuleView,
};
use crate::text::{index_of, is_whitespace, lemma_index_of, lemma_index_of_unique, lines, trim};
use vstd::prelude::*;

verus! {

/// The keys that a report's lines are known by.
pub open spec fn known_keys() -> Seq<Seq<char>> {
    seq![
        "Uptime"@,
        "Total Accesses"@,
        "Total kBytes"@,
        "Total Duration"@,
        "CPUUser"@,
        "CPUSystem"@,
        "CPUChildrenUser"@,
        "CPUChildrenSystem"@,
        "CPULoad"@,
        "IdleWorkers"@,
        "BusyWorkers"@,
        "ConnsTotal"@,
        "ConnsAsyncWriting"@,
        "ConnsAsyncClosing"@,
        "ConnsAsyncKeepAlive"@,
        "Scoreboard"@,
    ]
}

/// Whether `value` is a number of the form that `rule` asks for.
pub open spec fn is_numeric(rule: RuleView, value: Seq<char>) -> bool {
    if rule.kilobytes {
        u32_value(value) is Ok
    } else {
        is_float_literal(value)
    }
}

/// No tag has an empty value.
pub open spec fn no_empty_value(tags: Map<Seq<char>, Seq<char>>) -> bool {
    forall|key: Seq<char>| #[trigger] tags.contains_key(key) ==> tags[key].len() > 0
}

/// The sum of the counts that the metrics hold.
pub open spec fn total_count(metrics: Seq<MetricView>) -> nat
    decreases metrics.len(),
{
    if metrics.len() == 0 {
        0
    } else {
        total_count(metrics.drop_last()) + match metrics.last().value.number() {
            NumberView::Count(n) => n,
            NumberView::Literal(_) => 0,
        }
    }
}

/// `metrics` with every timestamp set to `now`.
pub open spec fn stamped(metrics: Seq<MetricView>, now: Timestamp) -> Seq<MetricView> {
    metrics.map_values(|m: MetricView| MetricView { timestamp: now, ..m })
}

/// A name in a namespace is never empty, and the namespace, if there is one,
/// stands in front of it with an underscore.
pub proof fn lemma_encoded_name(namespace: Seq<char>, name: Seq<char>)
    requires
        name.len() > 0,
    ensures
        encoded_name(namespace, name).len() > 0,
        namespace.len() == 0 ==> encoded_name(namespace, name) == name,
        namespace.len() > 0 ==> encoded_name(namespace, name) == namespace + seq!['_'] + name,
{
}

/// A line with a numeric key and a numeric value gives metrics and no error:
/// the first is named by the key's suffix in the namespace and holds the value;
/// for `Uptime` a second one, named `up`, follows.
pub proof fn lemma_numeric_line_gives_metrics(
    key: Seq<char>,
    value: Seq<char>,
    namespace: Seq<char>,
    now: Timestamp,
    tags: Map<Seq<char>, Seq<char>>,
)
    requires
        rule_for(key) is Some,
        is_numeric(rule_for(key)->0, value),
    ensures
        line_result(key, value, namespace, now, tags) matches LineResultView::Metrics(metrics) && {
            let rule = rule_for(key)->0;
            &&& metrics.len() == if rule.up {
                2nat
            } else {
                1nat
            }
            &&& metrics[0].name == encoded_name(namespace, rule.suffix)
            &&& metrics[0].tags == tagged(tags, rule.tag)
            &&& metrics[0].value is Gauge <==> rule.gauge
            &&& !rule.kilobytes ==> metrics[0].value.number() == NumberView::Literal(value)
            &&& rule.kilobytes ==> metrics[0].value.number() == NumberView::Count(
                (u32_value(value)->Ok_0 * 1024) as nat,
            )
            &&& rule.up ==> metrics[1].name == encoded_name(namespace, "up"@) && metrics[1].value
                == (MetricValueView::Counter { value: NumberView::Count(1) }) && metrics[1].tags
                == tags
        },
{
}

/// A line with a numeric key and a value that is no number gives exactly one
/// error, which holds the line's key, and no metric.
pub proof fn lemma_unreadable_value_gives_error(
    key: Seq<char>,
    value: Seq<char>,
    namespace: Seq<char>,
    now: Timestamp,
    tags: Map<Seq<char>, Seq<char>>,
)
    requires
        rule_for(key) is Some,
        !is_numeric(rule_for(key)->0, value),
    ensures
        line_result(key, value, namespace, now, tags) matches LineResultView::Error(error)
            && error.key == key && reading(rule_for(key)->0, value) == Err::<
            NumberView,
            ParseCause,
        >(error.cause),
{
}

/// In a report, a line with a numeric key and a value that is no number adds
/// one error, which holds the line's key, and no metric.
pub proof fn lemma_unreadable_line(
    line: Seq<char>,
    key: Seq<char>,
    value: Seq<char>,
    namespace: Seq<char>,
    now: Timestamp,
    tags: Map<Seq<char>, Seq<char>>,
)
    requires
        key_value(line) == Some((key, value)),
        rule_for(key) is Some,
        !is_numeric(rule_for(key)->0, value),
    ensures
        line_report(line, namespace, now, tags).metrics.len() == 0,
        line_report(line, namespace, now, tags).errors.len() == 1,
        line_report(line, namespace, now, tags).errors[0].key == key,
{
    lemma_unreadable_value_gives_error(key, value, namespace, now, tags);
}

/// A line gives nothing exactly when its key is not among the known keys,
/// whatever its value.
pub proof fn lemma_unknown_key_ignored(
    key: Seq<char>,
    value: Seq<char>,
    namespace: Seq<char>,
    now: Timestamp,
    tags: Map<Seq<char>, Seq<char>>,
)
    ensures
        line_result(key, value, namespace, now, tags) is Ignored <==> !known_keys().contains(key),
{
}

/// A scoreboard gives exactly eleven gauges named `scoreboard`, one for each
/// state and tagged with its name, and their values add up to the number of
/// characters of the scoreboard that stand for a state: a character that
/// stands for none is counted nowhere.
pub proof fn lemma_scoreboard_total(
    value: Seq<char>,
    namespace: Seq<char>,
    now: Timestamp,
    tags: Map<Seq<char>, Seq<char>>,
)
    ensures
        line_result("Scoreboard"@, value, namespace, now, tags) matches LineResultView::Metrics(
            metrics,
        ) && {
            &&& metrics.len() == 11
            &&& forall|i: int|
                0 <= i < 11 ==> {
                    &&& (#[trigger] metrics[i]).name == encoded_name(namespace, "scoreboard"@)
                    &&& metrics[i].tags == tags.insert("state"@, state_names()[i])
                    &&& metrics[i].value == MetricValueView::Gauge {
                        value: NumberView::Count(count_of(value, state_chars()[i])),
                    }
                }
            &&& total_count(metrics) == value.filter(|c: char| state_chars().contains(c)).len()
        },
{
    lemma_scoreboard_is_no_numeric_key();
    let metrics = scoreboard_metrics(value, namespace, now, tags);
    lemma_total_of_states(value, namespace, now, tags, 11);
    assert(metrics.take(11) =~= metrics);
    lemma_counts_of_states(value);
}

/// `Scoreboard` is not one of the numeric keys.
proof fn lemma_scoreboard_is_no_numeric_key()
    ensures
        rule_for("Scoreboard"@) is None,
{
    reveal_strlit("Scoreboard");
    reveal_strlit("Uptime");
    reveal_strlit("Total Accesses");
    reveal_strlit("Total kBytes");
    reveal_strlit("Total Duration");
    reveal_strlit("CPUUser");
    reveal_strlit("CPUSystem");
    reveal_strlit("CPUChildrenUser");
    reveal_strlit("CPUChildrenSystem");
    reveal_strlit("CPULoad");
    reveal_strlit("IdleWorkers");
    reveal_strlit("BusyWorkers");
    reveal_strlit("ConnsTotal");
    reveal_strlit("ConnsAsyncWriting");
    reveal_strlit("ConnsAsyncClosing");
    reveal_strlit("ConnsAsyncKeepAlive");
    let key = "Scoreboard"@;
    assert(key.len() == 10 && key[0] == 'S');
}

/// The number of characters of `s` that stand for one of the first `n` states.
spec fn states_total(s: Seq<char>, n: nat) -> nat
    decreases n,
{
    if n == 0 {
        0
    } else {
        states_total(s, (n - 1) as nat) + count_of(s, state_chars()[n - 1])
    }
}

proof fn lemma_total_of_states(
    value: Seq<char>,
    namespace: Seq<char>,
    now: Timestamp,
    tags: Map<Seq<char>, Seq<char>>,
    n: nat,
)
    requires
        n <= 11,
    ensures
        total_count(scoreboard_metrics(value, namespace, now, tags).take(n as int)) == states_total(
            value,
            n,
        ),
    decreases n,
{
    let metrics = scoreboard_metrics(value, namespace, now, tags);
    if n > 0 {
        lemma_total_of_states(value, namespace, now, tags, (n - 1) as nat);
        assert(metrics.take(n as int).drop_last() =~= metrics.take(n - 1));
    }
}

proof fn lemma_state_hit(s: Seq<char>, c: char, n: nat)
    requires
        n <= 11,
    ensures
        states_total(s.push(c), n) == states_total(s, n) + if exists|k: int|
            0 <= k < n && state_chars()[k] == c {
            1nat
        } else {
            0nat
        },
    decreases n,
{
    if n > 0 {
        lemma_state_hit(s, c, (n - 1) as nat);
        assert(s.push(c).drop_last() =~= s);
    }
}

proof fn lemma_counts_of_states(s: Seq<char>)
    ensures
        states_total(s, 11) == s.filter(|c: char| state_chars().contains(c)).len(),
    decreases s.len(),
{
    let known = |c: char| state_chars().contains(c);
    if s.len() == 0 {
        reveal_with_fuel(states_total, 12);
        assert(s.filter(known).len() == 0) by {
            s.lemma_filter_len(known);
        }
    } else {
        let r = s.drop_last();
        let c = s.last();
        assert(r.push(c) =~= s);
        lemma_counts_of_states(r);
        lemma_state_hit(r, c, 11);
        r.lemma_filter_len_push(known, c);
    }
}

/// What a sequence of lines gives is what its first part gives, followed by
/// what the rest gives: no line changes what another line gives.
pub proof fn lemma_lines_report_concat(
    first: Seq<Seq<char>>,
    rest: Seq<Seq<char>>,
    namespace: Seq<char>,
    now: Timestamp,
    tags: Map<Seq<char>, Seq<char>>,
)
    ensures
        lines_report(first + rest, namespace, now, tags).metrics == lines_report(
            first,
            namespace,
            now,
            tags,
        ).metrics + lines_report(rest, namespace, now, tags).metrics,
        lines_report(first + rest, namespace, now, tags).errors == lines_report(
            first,
            namespace,
            now,
            tags,
        ).errors + lines_report(rest, namespace, now, tags).errors,
    decreases first.len(),
{
    if first.len() > 0 {
        lemma_lines_report_concat(first.drop_first(), rest, namespace, now, tags);
        assert((first + rest).drop_first() =~= first.drop_first() + rest);
    }
}

/// A line without a colon gives neither a metric nor an error: the report is
/// the same without the line.
pub proof fn lemma_line_without_colon(
    lines: Seq<Seq<char>>,
    i: int,
    namespace: Seq<char>,
    now: Timestamp,
    tags: Map<Seq<char>, Seq<char>>,
)
    requires
        0 <= i < lines.len(),
        !lines[i].contains(':'),
    ensures
        line_report(lines[i], namespace, now, tags).metrics.len() == 0,
        line_report(lines[i], namespace, now, tags).errors.len() == 0,
        lines_report(lines, namespace, now, tags) == lines_report(
            lines.remove(i),
            namespace,
            now,
            tags,
        ),
{
    let line = lines[i];
    lemma_index_of(line, ':');
    let before = lines.take(i);
    let after = lines.skip(i + 1);
    assert(lines =~= before + (seq![line] + after));
    lemma_lines_report_concat(before, seq![line] + after, namespace, now, tags);
    lemma_lines_report_concat(seq![line], after, namespace, now, tags);
    lemma_lines_report_concat(before, after, namespace, now, tags);
    let one = lines_report(seq![line], namespace, now, tags);
    assert(one.metrics =~= Seq::<MetricView>::empty() && one.errors =~= Seq::<
        ParseErrorView,
    >::empty()) by {
        reveal_with_fuel(lines_report, 3);
    }
}

/// Whitespace at the end of a text is trimmed away, so the text without its
/// last character, if that is whitespace, is trimmed to the same.
proof fn lemma_trim_drop_last(s: Seq<char>)
    requires
        s.len() > 0,
        is_whitespace(s.last()),
    ensures
        trim(s) == trim(s.drop_last()),
    decreases s.len(),
{
    if is_whitespace(s[0]) {
        if s.len() >= 2 {
            lemma_trim_drop_last(s.skip(1));
            assert(s.drop_last().skip(1) =~= s.skip(1).drop_last());
        } else {
            assert(s.skip(1) =~= s.drop_last());
        }
    }
}

/// A carriage return at the end of a line changes nothing: the line gives
/// what it gives without the carriage return. So a report whose lines end in
/// a carriage return and a newline reads like one whose lines end in a newline.
pub proof fn lemma_carriage_return_changes_nothing(
    line: Seq<char>,
    namespace: Seq<char>,
    now: Timestamp,
    tags: Map<Seq<char>, Seq<char>>,
)
    requires
        line.len() > 0,
        line.last() == '\r',
    ensures
        line_report(line, namespace, now, tags) == line_report(
            line.drop_last(),
            namespace,
            now,
            tags,
        ),
{
    let short = line.drop_last();
    let colon = index_of(line, ':');
    lemma_index_of(line, ':');
    if colon < line.len() {
        assert forall|i: int| 0 <= i < colon implies short[i] != ':' by {
            assert(short[i] == line[i]);
        }
        lemma_index_of_unique(short, ':', colon);
        assert(short.take(colon) =~= line.take(colon));
        assert(short.skip(colon + 1) =~= line.skip(colon + 1).drop_last());
        lemma_trim_drop_last(line.skip(colon + 1));
    } else {
        assert forall|i: int| 0 <= i < short.len() implies short[i] != ':' by {
            assert(short[i] == line[i]);
        }
        lemma_index_of_unique(short, ':', short.len() as int);
    }
}

/// Reading a report depends on the moment of reading only in the timestamps
/// of the metrics: two readings of one report give the same errors, and the
/// same metrics once the timestamps are set alike. Each metric carries the
/// timestamp that the reading was given.
pub proof fn lemma_report_but_for_timestamp(
    body: Seq<char>,
    namespace: Seq<char>,
    first: Timestamp,
    second: Timestamp,
    tags: Map<Seq<char>, Seq<char>>,
)
    ensures
        report(body, namespace, first, tags).errors == report(body, namespace, second, tags).errors,
        stamped(report(body, namespace, first, tags).metrics, second) == report(
            body,
            namespace,
            second,
            tags,
        ).metrics,
        stamped(report(body, namespace, first, tags).metrics, first) == report(
            body,
            namespace,
            first,
            tags,
        ).metrics,
{
    lemma_lines_but_for_timestamp(lines(body), namespace, first, second, tags);
    lemma_lines_but_for_timestamp(lines(body), namespace, first, first, tags);
}

proof fn lemma_lines_but_for_timestamp(
    lines: Seq<Seq<char>>,
    namespace: Seq<char>,
    first: Timestamp,
    second: Timestamp,
    tags: Map<Seq<char>, Seq<char>>,
)
    ensures
        lines_report(lines, namespace, first, tags).errors == lines_report(
            lines,
            namespace,
            second,
            tags,
        ).errors,
        stamped(lines_report(lines, namespace, first, tags).metrics, second) == lines_report(
            lines,
            namespace,
            second,
            tags,
        ).metrics,
    decreases lines.len(),
{
    if lines.len() > 0 {
        lemma_lines_but_for_timestamp(lines.drop_first(), namespace, first, second, tags);
    }
}

/// What holds of every metric that a report gives, read in `namespace` at
/// `now` with the tags `tags`.
pub open spec fn is_report_metric(
    metric: MetricView,
    namespace: Seq<char>,
    now: Timestamp,
    tags: Map<Seq<char>, Seq<char>>,
) -> bool {
    &&& metric.wf()
    &&& metric.timestamp == now
    &&& metric.kind == MetricKind::Absolute
    &&& exists|suffix: Seq<char>|
        suffix.len() > 0 && metric.name == #[trigger] encoded_name(namespace, suffix)
    &&& metric.tags == tags || exists|key: Seq<char>, value: Seq<char>|
        key.len() > 0 && value.len() > 0 && metric.tags == #[trigger] tags.insert(key, value)
}

/// Every metric of a line has a name that is not empty and stands in the
/// namespace, the timestamp of the reading, the kind `Absolute`, a value that
/// is a count or a decimal literal, and the caller's tags with at most one tag
/// more, whose key and value are not empty.
pub proof fn lemma_line_metrics(
    key: Seq<char>,
    value: Seq<char>,
    namespace: Seq<char>,
    now: Timestamp,
    tags: Map<Seq<char>, Seq<char>>,
)
    ensures
        line_result(key, value, namespace, now, tags) matches LineResultView::Metrics(metrics)
            ==> forall|i: int|
            0 <= i < metrics.len() ==> is_report_metric(#[trigger] metrics[i], namespace, now, tags),
{
    lemma_table_texts();
    if rule_for(key) is None && key == "Scoreboard"@ {
        let metrics = scoreboard_metrics(value, namespace, now, tags);
        assert forall|i: int| 0 <= i < metrics.len() implies is_report_metric(
            #[trigger] metrics[i],
            namespace,
            now,
            tags,
        ) by {
            assert(metrics[i] == state_metric(i, value, namespace, now, tags));
        }
    }
}

/// Every metric of a report is as `lemma_line_metrics` says.
pub proof fn lemma_report_metrics(
    body: Seq<char>,
    namespace: Seq<char>,
    now: Timestamp,
    tags: Map<Seq<char>, Seq<char>>,
)
    ensures
        forall|i: int|
            0 <= i < report(body, namespace, now, tags).metrics.len() ==> is_report_metric(
                #[trigger] report(body, namespace, now, tags).metrics[i],
                namespace,
                now,
                tags,
            ),
{
    lemma_lines_metrics(lines(body), namespace, now, tags);
}

/// A metric's tags have no empty value if the caller's tags have none.
pub proof fn lemma_no_empty_tag_value(
    metric: MetricView,
    namespace: Seq<char>,
    now: Timestamp,
    tags: Map<Seq<char>, Seq<char>>,
)
    requires
        is_report_metric(metric, namespace, now, tags),
        no_empty_value(tags),
    ensures
        no_empty_value(metric.tags),
{
}

proof fn lemma_lines_metrics(
    lines: Seq<Seq<char>>,
    namespace: Seq<char>,
    now: Timestamp,
    tags: Map<Seq<char>, Seq<char>>,
)
    ensures
        forall|i: int|
            0 <= i < lines_report(lines, namespace, now, tags).metrics.len() ==> is_report_metric(
                #[trigger] lines_report(lines, namespace, now, tags).metrics[i],
                namespace,
                now,
                tags,
            ),
    decreases lines.len(),
{
    if lines.len() > 0 {
        lemma_lines_metrics(lines.drop_first(), namespace, now, tags);
        if let Some((key, value)) = key_value(lines.first()) {
            lemma_line_metrics(key, value, namespace, now, tags);
        }
        let all = lines_report(lines, namespace, now, tags).metrics;
        let head = line_report(lines.first(), namespace, now, tags).metrics;
        let rest = lines_report(lines.drop_first(), namespace, now, tags).metrics;
        assert forall|i: int| 0 <= i < all.len() implies is_report_metric(
            #[trigger] all[i],
            namespace,
            now,
            tags,
        ) by {
            if i < head.len() {
                assert(all[i] == head[i]);
            } else {
                assert(all[i] == rest[i - head.len()]);
            }
        }
    }
}

/// No text of the tables is empty: neither a metric's suffix nor the key or
/// the value of a tag.
proof fn lemma_table_texts()
    ensures
        forall|key: Seq<char>| #[trigger]
            rule_for(key) matches Some(rule) ==> {
                &&& rule.suffix.len() > 0
                &&& rule.tag matches Some((k, v)) ==> k.len() > 0 && v.len() > 0
            },
        forall|i: int| 0 <= i < 11 ==> (#[trigger] state_names()[i]).len() > 0,
        "state"@.len() > 0,
        "scoreboard"@.len() > 0,
        "up"@.len() > 0,
{
    reveal_strlit("uptime_seconds_total");
    reveal_strlit("access_total");
    reveal_strlit("sent_bytes_total");
    reveal_strlit("duration_seconds_total");
    reveal_strlit("cpu_seconds_total");
    reveal_strlit("cpu_load");
    reveal_strlit("workers");
    reveal_strlit("connections");
    reveal_strlit("scoreboard");
    reveal_strlit("up");
    reveal_strlit("type");
    reveal_strlit("user");
    reveal_strlit("system");
    reveal_strlit("children_user");
    reveal_strlit("children_system");
    reveal_strlit("state");
    reveal_strlit("idle");
    reveal_strlit("busy");
    reveal_strlit("total");
    reveal_strlit("writing");
    reveal_strlit("closing");
    reveal_strlit("keepalive");
    reveal_strlit("waiting");
    reveal_strlit("starting");
    reveal_strlit("reading");
    reveal_strlit("sending");
    reveal_strlit("dnslookup");
    reveal_strlit("logging");
    reveal_strlit("finishing");
    reveal_strlit("idle_cleanup");
    reveal_strlit("open");
}

} // verus!

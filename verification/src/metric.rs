//! The data model: tag sets and metrics.

use crate::number::{Number, NumberView};
use crate::text::same_text;
use vstd::prelude::*;
use vstd::std_specs::cmp::PartialEqSpecImpl;

verus! {

/// A point in time: seconds and nanoseconds since the Unix epoch.
#[derive(Clone, Copy, Debug, PartialEq, Eq, Structural)]
pub struct Timestamp {
    pub secs: i64,
    pub nanos: u32,
}

/// Whether a value stands for itself or is to be added to what came before.
#[derive(Clone, Copy, Debug, PartialEq, Eq, Structural)]
pub enum MetricKind {
    Absolute,
    Incremental,
}

/// A metric's value: a total that only grows, or a state at one moment.
#[derive(Clone, Debug, PartialEq, Eq)]
pub enum MetricValue {
    Counter { value: Number },
    Gauge { value: Number },
}

/// The mathematical content of a `MetricValue`.
pub enum MetricValueView {
    Counter { value: NumberView },
    Gauge { value: NumberView },
}

impl View for MetricValue {
    type V = MetricValueView;

    open spec fn view(&self) -> MetricValueView {
        match self {
            MetricValue::Counter { value } => MetricValueView::Counter { value: value@ },
            MetricValue::Gauge { value } => MetricValueView::Gauge { value: value@ },
        }
    }
}

impl MetricValueView {
    /// The number, whichever the variant.
    pub open spec fn number(self) -> NumberView {
        match self {
            MetricValueView::Counter { value } => value,
            MetricValueView::Gauge { value } => value,
        }
    }
}

/// A set of tags: string keys, each with one string value.
///
/// The entries are kept in the order in which their keys first came in, and no
/// key occurs twice.
#[derive(Debug)]
pub struct Tags {
    entries: Vec<(String, String)>,
}

/// The map that a sequence of entries builds up, later entries winning.
pub open spec fn entries_map(s: Seq<(String, String)>) -> Map<Seq<char>, Seq<char>>
    decreases s.len(),
{
    if s.len() == 0 {
        Map::empty()
    } else {
        entries_map(s.drop_last()).insert(s.last().0@, s.last().1@)
    }
}

/// No key occurs twice among the entries.
pub open spec fn distinct_keys(s: Seq<(String, String)>) -> bool {
    forall|i: int, j: int| 0 <= i < j < s.len() ==> s[i].0@ != s[j].0@
}

proof fn lemma_entries_dom(s: Seq<(String, String)>)
    ensures
        entries_map(s).dom().finite(),
        forall|k: Seq<char>| #[trigger]
            entries_map(s).contains_key(k) <==> exists|i: int|
                0 <= i < s.len() && #[trigger] s[i].0@ == k,
    decreases s.len(),
{
    if s.len() > 0 {
        let r = s.drop_last();
        lemma_entries_dom(r);
        assert forall|k: Seq<char>| #[trigger]
            entries_map(s).contains_key(k) <==> exists|i: int|
                0 <= i < s.len() && #[trigger] s[i].0@ == k by {
            if exists|i: int| 0 <= i < s.len() && #[trigger] s[i].0@ == k {
                let i = choose|i: int| 0 <= i < s.len() && #[trigger] s[i].0@ == k;
                if i < r.len() {
                    assert(r[i].0@ == k);
                }
            }
        }
    }
}

proof fn lemma_entries_len(s: Seq<(String, String)>)
    requires
        distinct_keys(s),
    ensures
        entries_map(s).dom().finite(),
        entries_map(s).len() == s.len(),
    decreases s.len(),
{
    lemma_entries_dom(s);
    if s.len() > 0 {
        let r = s.drop_last();
        lemma_entries_len(r);
        lemma_entries_dom(r);
    }
}

proof fn lemma_entries_lookup(s: Seq<(String, String)>, i: int)
    requires
        distinct_keys(s),
        0 <= i < s.len(),
    ensures
        entries_map(s).contains_key(s[i].0@),
        entries_map(s)[s[i].0@] == s[i].1@,
    decreases s.len(),
{
    if i < s.len() - 1 {
        let r = s.drop_last();
        lemma_entries_lookup(r, i);
    }
}

proof fn lemma_entries_update(s: Seq<(String, String)>, i: int, e: (String, String))
    requires
        distinct_keys(s),
        0 <= i < s.len(),
        e.0@ == s[i].0@,
    ensures
        distinct_keys(s.update(i, e)),
        entries_map(s.update(i, e)) == entries_map(s).insert(e.0@, e.1@),
    decreases s.len(),
{
    let t = s.update(i, e);
    if i == s.len() - 1 {
        assert(t.drop_last() =~= s.drop_last());
    } else {
        let r = s.drop_last();
        lemma_entries_update(r, i, e);
        assert(t.drop_last() =~= r.update(i, e));
    }
}

impl View for Tags {
    type V = Map<Seq<char>, Seq<char>>;

    closed spec fn view(&self) -> Map<Seq<char>, Seq<char>> {
        entries_map(self.entries@)
    }
}

impl Tags {
    #[verifier::type_invariant]
    spec fn inv(&self) -> bool {
        distinct_keys(self.entries@)
    }

    /// The empty tag set.
    pub fn new() -> (r: Tags)
        ensures
            r@ == Map::<Seq<char>, Seq<char>>::empty(),
    {
        Tags { entries: Vec::new() }
    }

    /// The number of tags.
    pub fn len(&self) -> (n: usize)
        ensures
            self@.dom().finite(),
            n == self@.len(),
    {
        proof {
            use_type_invariant(self);
            lemma_entries_len(self.entries@);
        }
        self.entries.len()
    }

    /// Whether there is no tag.
    pub fn is_empty(&self) -> (r: bool)
        ensures
            r == (self@ == Map::<Seq<char>, Seq<char>>::empty()),
    {
        proof {
            use_type_invariant(self);
            lemma_entries_len(self.entries@);
        }
        self.entries.len() == 0
    }

    /// The value of the tag `key`, if there is one.
    pub fn get(&self, key: &str) -> (r: Option<&String>)
        ensures
            match r {
                Some(value) => self@.contains_key(key@) && self@[key@] == value@,
                None => !self@.contains_key(key@),
            },
    {
        proof {
            use_type_invariant(self);
            lemma_entries_dom(self.entries@);
        }
        let mut i: usize = 0;
        while i < self.entries.len()
            invariant
                i <= self.entries@.len(),
                distinct_keys(self.entries@),
                forall|j: int| 0 <= j < i ==> self.entries@[j].0@ != key@,
            decreases self.entries@.len() - i,
        {
            if same_text(self.entries[i].0.as_str(), key) {
                proof {
                    lemma_entries_lookup(self.entries@, i as int);
                }
                return Some(&self.entries[i].1);
            }
            i += 1;
        }
        None
    }

    /// Sets the tag `key` to `value`, whether or not it was there before.
    pub fn insert(&mut self, key: String, value: String)
        ensures
            final(self)@ == old(self)@.insert(key@, value@),
    {
        proof {
            use_type_invariant(&*self);
        }
        let mut entries: Vec<(String, String)> = Vec::new();
        core::mem::swap(&mut self.entries, &mut entries);
        let ghost before = entries@;
        let mut i: usize = 0;
        let mut found = false;
        while i < entries.len() && !found
            invariant
                i <= entries@.len(),
                entries@ == before,
                found ==> i < entries@.len() && entries@[i as int].0@ == key@,
                !found ==> forall|j: int| 0 <= j < i ==> entries@[j].0@ != key@,
            decreases entries@.len() - i + (if found { 0int } else { 1int }),
        {
            if same_text(entries[i].0.as_str(), key.as_str()) {
                found = true;
            } else {
                i += 1;
            }
        }
        if found {
            proof {
                lemma_entries_update(before, i as int, (key, value));
            }
            entries.set(i, (key, value));
        } else {
            proof {
                assert(before.push((key, value)).drop_last() =~= before);
            }
            entries.push((key, value));
        }
        core::mem::swap(&mut self.entries, &mut entries);
    }

    /// A copy of this tag set in which the tag `key` is `value`.
    pub fn with(&self, key: &str, value: &str) -> (r: Tags)
        ensures
            r@ == self@.insert(key@, value@),
    {
        let mut r = self.clone();
        r.insert(key.to_owned(), value.to_owned());
        r
    }

    /// The tags as pairs of key and value, each key once.
    pub fn entries(&self) -> (r: Vec<(String, String)>)
        ensures
            distinct_keys(r@),
            entries_map(r@) == self@,
    {
        proof {
            use_type_invariant(self);
        }
        let mut r: Vec<(String, String)> = Vec::new();
        let mut i: usize = 0;
        while i < self.entries.len()
            invariant
                i <= self.entries@.len(),
                r@.len() == i,
                forall|j: int|
                    0 <= j < i ==> r@[j].0@ == self.entries@[j].0@ && r@[j].1@
                        == self.entries@[j].1@,
            decreases self.entries@.len() - i,
        {
            r.push((self.entries[i].0.clone(), self.entries[i].1.clone()));
            i += 1;
        }
        proof {
            lemma_entries_same(r@, self.entries@);
        }
        r
    }
}

proof fn lemma_entries_same(a: Seq<(String, String)>, b: Seq<(String, String)>)
    requires
        a.len() == b.len(),
        forall|j: int| 0 <= j < a.len() ==> a[j].0@ == b[j].0@ && a[j].1@ == b[j].1@,
    ensures
        entries_map(a) == entries_map(b),
        distinct_keys(b) ==> distinct_keys(a),
    decreases a.len(),
{
    if a.len() > 0 {
        lemma_entries_same(a.drop_last(), b.drop_last());
    }
}

impl PartialEq for Tags {
    /// Two tag sets are equal if they hold the same tags, in whatever order
    /// these came in.
    fn eq(&self, other: &Tags) -> (r: bool) {
        proof {
            use_type_invariant(self);
            use_type_invariant(other);
            lemma_entries_len(self.entries@);
            lemma_entries_len(other.entries@);
            lemma_entries_dom(self.entries@);
        }
        if self.entries.len() != other.entries.len() {
            return false;
        }
        let mut i: usize = 0;
        while i < self.entries.len()
            invariant
                i <= self.entries@.len(),
                distinct_keys(self.entries@),
                forall|j: int|
                    0 <= j < i ==> other@.contains_key(#[trigger] self.entries@[j].0@)
                        && other@[self.entries@[j].0@] == self.entries@[j].1@,
            decreases self.entries@.len() - i,
        {
            proof {
                lemma_entries_lookup(self.entries@, i as int);
            }
            match other.get(self.entries[i].0.as_str()) {
                Some(value) => {
                    if !same_text(value.as_str(), self.entries[i].1.as_str()) {
                        return false;
                    }
                },
                None => {
                    return false;
                },
            }
            i += 1;
        }
        proof {
            assert forall|k: Seq<char>| self@.contains_key(k) implies other@.contains_key(k)
                && other@[k] == self@[k] by {
                let j = choose|j: int| 0 <= j < self.entries@.len() && self.entries@[j].0@ == k;
                lemma_entries_lookup(self.entries@, j);
            }
            vstd::set_lib::lemma_subset_equality(self@.dom(), other@.dom());
            assert(self@ =~= other@);
        }
        true
    }
}

impl PartialEqSpecImpl for Tags {
    open spec fn obeys_eq_spec() -> bool {
        true
    }

    open spec fn eq_spec(&self, other: &Tags) -> bool {
        self@ == other@
    }
}

impl Eq for Tags {}

impl Clone for Tags {
    fn clone(&self) -> (r: Tags)
        ensures
            r@ == self@,
    {
        proof {
            use_type_invariant(self);
        }
        Tags { entries: self.entries() }
    }
}

/// One sample: a name, the moment it was observed, tags, and a value.
#[derive(Clone, Debug, PartialEq, Eq)]
pub struct Metric {
    pub name: String,
    pub timestamp: Timestamp,
    pub tags: Tags,
    pub kind: MetricKind,
    pub value: MetricValue,
}

/// The mathematical content of a `Metric`.
pub struct MetricView {
    pub name: Seq<char>,
    pub timestamp: Timestamp,
    pub tags: Map<Seq<char>, Seq<char>>,
    pub kind: MetricKind,
    pub value: MetricValueView,
}

impl View for Metric {
    type V = MetricView;

    open spec fn view(&self) -> MetricView {
        MetricView {
            name: self.name@,
            timestamp: self.timestamp,
            tags: self.tags@,
            kind: self.kind,
            value: self.value@,
        }
    }
}

impl MetricView {
    /// What holds of every metric: it has a name, and a literal value is a
    /// decimal literal.
    pub open spec fn wf(self) -> bool {
        &&& self.name.len() > 0
        &&& self.value.number().wf()
    }
}

/// The contents of a list of metrics.
pub open spec fn metric_views(metrics: Seq<Metric>) -> Seq<MetricView> {
    metrics.map_values(|m: Metric| m@)
}

} // verus!

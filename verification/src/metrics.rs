//! The metrics that plugins expose: families of labelled values, in the
//! simple form that plugins build before handing them to a protocol.
use vstd::prelude::*;
use crate::ids::{is_v4_uuid, new_uuid};

verus! {

/// The OpenMetrics type of a metric family.
#[derive(Clone, Copy, Debug, PartialEq, Eq, Structural)]
pub enum MetricType {
    Unknown,
    Gauge,
    Counter,
    StateSet,
    Info,
    Histogram,
    GaugeHistogram,
    Summary,
}

/// A number of a metric. A double is held by its IEEE-754 bits.
#[derive(Clone, Copy, Debug, PartialEq, Eq, Structural)]
pub enum NumberValue {
    Double(u64),
    Int64(i64),
    Undefined,
}

/// A `name=value` label of a metric.
#[derive(Clone, Debug)]
pub struct Label {
    pub name: String,
    pub value: String,
}

/// The value of a metric.
#[derive(Clone, Debug)]
pub enum MetricValue {
    Unknown(NumberValue),
    Gauge(NumberValue),
    Counter { total: NumberValue },
    Info(Vec<Label>),
}

/// A metric: its labels and its value.
#[derive(Clone, Debug)]
pub struct Metric {
    pub labels: Vec<Label>,
    pub value: MetricValue,
}

/// A metric of a [`SimpleMetricFamily`].
#[derive(Clone, Debug)]
pub struct SimpleMetric {
    pub labels: Vec<Label>,
    pub value: MetricValue,
}

/// A family of metrics that share a type, a unit and a help text.
#[derive(Clone, Debug)]
pub struct SimpleMetricFamily {
    pub metric_type: MetricType,
    pub unit: String,
    pub help: String,
    pub metrics: Vec<SimpleMetric>,
}

/// Named metric families.
#[derive(Clone, Debug)]
pub struct SimpleMetricSet {
    pub families: Vec<(String, SimpleMetricFamily)>,
}

impl SimpleMetricSet {
    /// No two families share a name.
    pub open spec fn has_distinct_names(&self) -> bool {
        forall|i: int, j: int|
            0 <= i < j < self.families@.len() ==> (#[trigger] self.families@[i]).0@ != (#[trigger] self.families@[j]).0@
    }
}

impl Label {
    /// The characters of the name and of the value.
    pub open spec fn chars(&self) -> (Seq<char>, Seq<char>) {
        (self.name@, self.value@)
    }
}

/// The characters of each label of a list.
pub open spec fn label_chars(labels: Seq<Label>) -> Seq<(Seq<char>, Seq<char>)> {
    labels.map_values(|l: Label| l.chars())
}

/// A metric family with one gauge metric without labels.
pub open spec fn is_single_gauge_family(
    f: SimpleMetricFamily,
    unit: Seq<char>,
    help: Seq<char>,
    value: NumberValue,
) -> bool {
    &&& f.metric_type == MetricType::Gauge
    &&& f.unit@ == unit
    &&& f.help@ == help
    &&& f.metrics@.len() == 1
    &&& f.metrics@[0].labels@.len() == 0
    &&& f.metrics@[0].value matches MetricValue::Gauge(v) && v == value
}

/// Builds a family holding one gauge metric without labels.
pub fn single_gauge_family(unit: &str, help: &str, value: NumberValue) -> (f: SimpleMetricFamily)
    ensures
        is_single_gauge_family(f, unit@, help@, value),
{
    let mut metrics = Vec::new();
    metrics.push(SimpleMetric { labels: Vec::new(), value: MetricValue::Gauge(value) });
    SimpleMetricFamily {
        metric_type: MetricType::Gauge,
        unit: String::from_str(unit),
        help: String::from_str(help),
        metrics,
    }
}

/// The message that sets the value of a metric, known to the daemon by its
/// UUID, in a family.
#[derive(Clone, Debug)]
pub struct UpdateMetric {
    pub family_name: String,
    pub metric: Metric,
    pub uuid: u128,
}

/// The message that removes the metric with this UUID from a family.
#[derive(Clone, Debug)]
pub struct RemoveMetric {
    pub family_name: String,
    pub uuid: u128,
}

/// The message that declares a metric family to the daemon.
#[derive(Clone, Debug)]
pub struct CreateFamily {
    pub name: String,
    pub help: String,
    pub metric_type: MetricType,
    pub unit: String,
}

/// A copy of a label.
pub fn clone_label(l: &Label) -> (r: Label)
    ensures
        r == *l,
{
    Label { name: l.name.clone(), value: l.value.clone() }
}

/// A copy of a list of labels.
pub fn clone_labels(labels: &Vec<Label>) -> (r: Vec<Label>)
    ensures
        r@ == labels@,
{
    let mut r: Vec<Label> = Vec::new();
    let mut i: usize = 0;
    while i < labels.len()
        invariant
            i <= labels@.len(),
            r@ == labels@.subrange(0, i as int),
        decreases labels@.len() - i,
    {
        r.push(clone_label(&labels[i]));
        assert(r@ =~= labels@.subrange(0, i + 1));
        i = i + 1;
    }
    assert(labels@.subrange(0, labels@.len() as int) =~= labels@);
    r
}

/// Two metric values that are the same: an information value is compared
/// by its labels.
pub open spec fn same_value(a: MetricValue, b: MetricValue) -> bool {
    match (a, b) {
        (MetricValue::Info(x), MetricValue::Info(y)) => x@ == y@,
        _ => a == b,
    }
}

/// A copy of a metric value.
pub fn clone_value(v: &MetricValue) -> (r: MetricValue)
    ensures
        same_value(r, *v),
{
    match v {
        MetricValue::Unknown(n) => MetricValue::Unknown(*n),
        MetricValue::Gauge(n) => MetricValue::Gauge(*n),
        MetricValue::Counter { total } => MetricValue::Counter { total: *total },
        MetricValue::Info(labels) => MetricValue::Info(clone_labels(labels)),
    }
}

/// A family of metrics as the daemon knows it: each metric under its UUID.
#[derive(Clone, Debug)]
pub struct MetricFamily {
    pub metric_type: MetricType,
    pub unit: String,
    pub help: String,
    pub metrics: Vec<(u128, Metric)>,
}

/// Named metric families as the daemon knows them.
#[derive(Clone, Debug)]
pub struct MetricSet {
    pub families: Vec<(String, MetricFamily)>,
}

/// `r` is the family `f` with each metric under a random version-4 UUID.
pub open spec fn is_family_of(r: MetricFamily, f: SimpleMetricFamily) -> bool {
    &&& r.metric_type == f.metric_type
    &&& r.unit@ == f.unit@
    &&& r.help@ == f.help@
    &&& r.metrics@.len() == f.metrics@.len()
    &&& forall|i: int| 0 <= i < f.metrics@.len() ==> {
        &&& is_v4_uuid((#[trigger] r.metrics@[i]).0)
        &&& r.metrics@[i].1.labels@ == f.metrics@[i].labels@
        &&& same_value(r.metrics@[i].1.value, f.metrics@[i].value)
    }
}

impl MetricFamily {
    /// The family of `f` as the daemon knows it, each metric under a fresh
    /// random UUID.
    pub fn from_simple(f: &SimpleMetricFamily) -> (r: MetricFamily)
        ensures
            is_family_of(r, *f),
    {
        let mut metrics: Vec<(u128, Metric)> = Vec::new();
        let mut i: usize = 0;
        while i < f.metrics.len()
            invariant
                i <= f.metrics@.len(),
                metrics@.len() == i,
                forall|j: int| 0 <= j < i ==> {
                    &&& is_v4_uuid((#[trigger] metrics@[j]).0)
                    &&& metrics@[j].1.labels@ == f.metrics@[j].labels@
                    &&& same_value(metrics@[j].1.value, f.metrics@[j].value)
                },
            decreases f.metrics@.len() - i,
        {
            let m = &f.metrics[i];
            let metric = Metric { labels: clone_labels(&m.labels), value: clone_value(&m.value) };
            metrics.push((new_uuid(), metric));
            i = i + 1;
        }
        MetricFamily { metric_type: f.metric_type, unit: f.unit.clone(), help: f.help.clone(), metrics }
    }
}

impl MetricSet {
    /// No two families share a name.
    pub open spec fn has_distinct_names(&self) -> bool {
        forall|i: int, j: int|
            0 <= i < j < self.families@.len() ==> (#[trigger] self.families@[i]).0@ != (#[trigger] self.families@[j]).0@
    }

    /// The families of `set` as the daemon knows them, in order, each
    /// metric under a fresh random UUID: the names stay distinct when they
    /// were.
    pub fn from_simple(set: &SimpleMetricSet) -> (r: MetricSet)
        ensures
            r.families@.len() == set.families@.len(),
            set.has_distinct_names() ==> r.has_distinct_names(),
            forall|i: int| 0 <= i < set.families@.len() ==> (#[trigger] r.families@[i]).0@ == set.families@[i].0@
                && is_family_of(r.families@[i].1, set.families@[i].1),
    {
        let mut families: Vec<(String, MetricFamily)> = Vec::new();
        let mut i: usize = 0;
        while i < set.families.len()
            invariant
                i <= set.families@.len(),
                families@.len() == i,
                forall|j: int| 0 <= j < i ==> (#[trigger] families@[j]).0@ == set.families@[j].0@
                    && is_family_of(families@[j].1, set.families@[j].1),
            decreases set.families@.len() - i,
        {
            let family = MetricFamily::from_simple(&set.families[i].1);
            families.push((set.families[i].0.clone(), family));
            i = i + 1;
        }
        MetricSet { families }
    }
}

} // verus!

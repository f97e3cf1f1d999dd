//! Serving protocol v3 metrics to a protocol v2 daemon: each protocol v2
//! data source is the first metric of a family with given labels, and its
//! value is the metric's number.
use vstd::prelude::*;
use vstd::string::*;
use crate::metrics::{clone_labels, label_chars, Label, MetricValue, NumberValue, SimpleMetric, SimpleMetricFamily, SimpleMetricSet};
use crate::protocol::DataSourceValue;
use crate::text::str_eq;

verus! {

/// The protocol v2 value of a number.
pub open spec fn spec_number_to_v2(n: NumberValue) -> DataSourceValue {
    match n {
        NumberValue::Double(bits) => DataSourceValue::Float(bits),
        NumberValue::Int64(i) => DataSourceValue::Int64(i),
        NumberValue::Undefined => DataSourceValue::Undefined,
    }
}

/// The protocol v2 value of a metric: the value of a gauge, the total of a
/// counter, and undefined for any other kind.
pub open spec fn spec_point_to_v2(v: MetricValue) -> DataSourceValue {
    match v {
        MetricValue::Gauge(n) => spec_number_to_v2(n),
        MetricValue::Counter { total } => spec_number_to_v2(total),
        _ => DataSourceValue::Undefined,
    }
}

/// A gauge converts as its number does, and a counter as its total: a
/// float is a float of the same bits, an integer the same integer, and an
/// undefined number is undefined.
pub proof fn law_points_convert_as_numbers(n: NumberValue, bits: u64, i: i64)
    ensures
        spec_point_to_v2(MetricValue::Gauge(n)) == spec_number_to_v2(n),
        spec_point_to_v2(MetricValue::Counter { total: n }) == spec_number_to_v2(n),
        spec_number_to_v2(NumberValue::Double(bits)) == DataSourceValue::Float(bits),
        spec_number_to_v2(NumberValue::Int64(i)) == DataSourceValue::Int64(i),
        spec_number_to_v2(NumberValue::Undefined) == DataSourceValue::Undefined,
        spec_point_to_v2(MetricValue::Gauge(NumberValue::Double(bits))) == DataSourceValue::Float(bits),
        spec_point_to_v2(MetricValue::Gauge(NumberValue::Int64(i))) == DataSourceValue::Int64(i),
{
}

/// The protocol v2 value of a number.
pub fn number_to_v2(n: NumberValue) -> (r: DataSourceValue)
    ensures
        r == spec_number_to_v2(n),
{
    match n {
        NumberValue::Double(bits) => DataSourceValue::Float(bits),
        NumberValue::Int64(i) => DataSourceValue::Int64(i),
        NumberValue::Undefined => DataSourceValue::Undefined,
    }
}

/// The protocol v2 value of a metric.
pub fn metric_point_to_v2(v: &MetricValue) -> (r: DataSourceValue)
    ensures
        r == spec_point_to_v2(*v),
{
    match v {
        MetricValue::Gauge(n) => number_to_v2(*n),
        MetricValue::Counter { total } => number_to_v2(*total),
        _ => DataSourceValue::Undefined,
    }
}

/// `i` is the first family of `fams` named `name`.
pub open spec fn is_first_family(fams: Seq<(String, SimpleMetricFamily)>, name: Seq<char>, i: int) -> bool {
    &&& 0 <= i < fams.len()
    &&& fams[i].0@ == name
    &&& forall|j: int| 0 <= j < i ==> (#[trigger] fams[j]).0@ != name
}

/// `i` is the first metric of `ms` with these labels.
pub open spec fn is_first_metric(ms: Seq<SimpleMetric>, labels: Seq<(Seq<char>, Seq<char>)>, i: int) -> bool {
    &&& 0 <= i < ms.len()
    &&& label_chars(ms[i].labels@) == labels
    &&& forall|j: int| 0 <= j < i ==> label_chars((#[trigger] ms[j]).labels@) != labels
}

/// The value of the first metric with these labels in the first family named
/// `name`, when there is one.
pub open spec fn spec_first_point(
    set: SimpleMetricSet,
    name: Seq<char>,
    labels: Seq<(Seq<char>, Seq<char>)>,
) -> Option<MetricValue> {
    let fams = set.families@;
    if exists|i: int| is_first_family(fams, name, i) {
        let i = choose|i: int| is_first_family(fams, name, i);
        let ms = fams[i].1.metrics@;
        if exists|j: int| is_first_metric(ms, labels, j) {
            let j = choose|j: int| is_first_metric(ms, labels, j);
            Some(ms[j].value)
        } else {
            None
        }
    } else {
        None
    }
}

/// Compares two label lists, name and value of each.
pub fn labels_eq(a: &Vec<Label>, b: &Vec<Label>) -> (r: bool)
    ensures
        r == (label_chars(a@) == label_chars(b@)),
{
    if a.len() != b.len() {
        proof {
            assert(label_chars(a@).len() != label_chars(b@).len());
        }
        return false;
    }
    let mut i: usize = 0;
    while i < a.len()
        invariant
            i <= a@.len(),
            a@.len() == b@.len(),
            forall|j: int| 0 <= j < i ==> (#[trigger] a@[j]).chars() == b@[j].chars(),
        decreases a@.len() - i,
    {
        if !str_eq(a[i].name.as_str(), b[i].name.as_str()) || !str_eq(a[i].value.as_str(), b[i].value.as_str()) {
            proof {
                assert(label_chars(a@)[i as int] != label_chars(b@)[i as int]);
            }
            return false;
        }
        i = i + 1;
    }
    proof {
        assert(label_chars(a@) =~= label_chars(b@));
    }
    true
}

/// The first metric with these labels in the first family named
/// `family_name`, when there is one.
pub fn get_first_metric_point<'a>(set: &'a SimpleMetricSet, family_name: &str, labels: &Vec<Label>) -> (r: Option<&'a MetricValue>)
    ensures
        match r {
            Some(v) => spec_first_point(*set, family_name@, label_chars(labels@)) == Some(*v),
            None => spec_first_point(*set, family_name@, label_chars(labels@)) is None,
        },
{
    let ghost fams = set.families@;
    let ghost want = label_chars(labels@);
    let mut i: usize = 0;
    while i < set.families.len()
        invariant
            fams == set.families@,
            want == label_chars(labels@),
            i <= fams.len(),
            forall|j: int| 0 <= j < i ==> (#[trigger] fams[j]).0@ != family_name@,
        decreases fams.len() - i,
    {
        if str_eq(set.families[i].0.as_str(), family_name) {
            proof {
                assert(is_first_family(fams, family_name@, i as int));
                let c = choose|c: int| is_first_family(fams, family_name@, c);
                assert(c == i as int) by {
                    if c < i {
                        assert(fams[c].0@ != family_name@);
                    } else if c > i {
                        assert(fams[i as int].0@ != family_name@);
                    }
                }
            }
            let metrics = &set.families[i].1.metrics;
            let ghost ms = metrics@;
            let mut k: usize = 0;
            while k < metrics.len()
                invariant
                    ms == metrics@,
                    fams == set.families@,
                    want == label_chars(labels@),
                    i < fams.len(),
                    ms == fams[i as int].1.metrics@,
                    is_first_family(fams, family_name@, i as int),
                    (choose|c: int| is_first_family(fams, family_name@, c)) == i as int,
                    k <= ms.len(),
                    forall|j: int| 0 <= j < k ==> label_chars((#[trigger] ms[j]).labels@) != want,
                decreases ms.len() - k,
            {
                if labels_eq(&metrics[k].labels, labels) {
                    proof {
                        assert(is_first_metric(ms, want, k as int));
                        let c = choose|c: int| is_first_metric(ms, want, c);
                        assert(c == k as int) by {
                            if c < k {
                                assert(label_chars(ms[c].labels@) != want);
                            } else if c > k {
                                assert(label_chars(ms[k as int].labels@) != want);
                            }
                        }
                    }
                    return Some(&metrics[k].value);
                }
                k = k + 1;
            }
            proof {
                assert(!exists|j: int| is_first_metric(ms, want, j));
            }
            return None;
        }
        i = i + 1;
    }
    None
}

/// The protocol v2 values of the data sources named by `metadata_map`, in
/// order: each is the first metric of its family with its labels; a data
/// source without such a metric gives no value.
pub open spec fn spec_bridge_data(set: SimpleMetricSet, map: Seq<(String, Vec<Label>)>) -> Seq<DataSourceValue>
    decreases map.len(),
{
    if map.len() == 0 {
        Seq::empty()
    } else {
        let prev = spec_bridge_data(set, map.drop_last());
        match spec_first_point(set, map.last().0@, label_chars(map.last().1@)) {
            Some(v) => prev.push(spec_point_to_v2(v)),
            None => prev,
        }
    }
}

/// The current values of the protocol v2 data sources.
pub fn get_data(set: &SimpleMetricSet, metadata_map: &Vec<(String, Vec<Label>)>) -> (r: Vec<DataSourceValue>)
    ensures
        r@ == spec_bridge_data(*set, metadata_map@),
{
    let mut r: Vec<DataSourceValue> = Vec::new();
    let mut i: usize = 0;
    while i < metadata_map.len()
        invariant
            i <= metadata_map@.len(),
            r@ == spec_bridge_data(*set, metadata_map@.subrange(0, i as int)),
        decreases metadata_map@.len() - i,
    {
        let ghost pre = metadata_map@.subrange(0, i as int);
        let ghost next = metadata_map@.subrange(0, i + 1);
        proof {
            assert(next.drop_last() =~= pre);
        }
        let point = get_first_metric_point(set, metadata_map[i].0.as_str(), &metadata_map[i].1);
        match point {
            Some(v) => {
                r.push(metric_point_to_v2(v));
            },
            None => {},
        }
        i = i + 1;
    }
    proof {
        assert(metadata_map@.subrange(0, metadata_map@.len() as int) =~= metadata_map@);
    }
    r
}

/// A data source candidate as plain values: a family name and the labels of
/// one of its metrics.
pub type KeyChars = (Seq<char>, Seq<(Seq<char>, Seq<char>)>);

/// The candidates of one family, one per metric, in order.
pub open spec fn family_keys(f: (String, SimpleMetricFamily)) -> Seq<KeyChars> {
    f.1.metrics@.map_values(|m: SimpleMetric| (f.0@, label_chars(m.labels@)))
}

/// The candidates of every family, family by family.
pub open spec fn spec_metric_keys(fams: Seq<(String, SimpleMetricFamily)>) -> Seq<KeyChars>
    decreases fams.len(),
{
    if fams.len() == 0 {
        Seq::empty()
    } else {
        spec_metric_keys(fams.drop_last()) + family_keys(fams.last())
    }
}

/// A list of candidates as plain values.
pub open spec fn keys_view(keys: Seq<(String, Vec<Label>)>) -> Seq<KeyChars> {
    keys.map_values(|k: (String, Vec<Label>)| (k.0@, label_chars(k.1@)))
}

/// The candidate data sources of a metric set: the family name and labels
/// of each metric, family by family. Those that a mapping turns into
/// protocol v2 data sources make up the bridge's metadata.
pub fn metric_keys(set: &SimpleMetricSet) -> (r: Vec<(String, Vec<Label>)>)
    ensures
        keys_view(r@) == spec_metric_keys(set.families@),
{
    let ghost fams = set.families@;
    let mut r: Vec<(String, Vec<Label>)> = Vec::new();
    let mut i: usize = 0;
    while i < set.families.len()
        invariant
            fams == set.families@,
            i <= fams.len(),
            keys_view(r@) == spec_metric_keys(fams.subrange(0, i as int)),
        decreases fams.len() - i,
    {
        let name = &set.families[i].0;
        let metrics = &set.families[i].1.metrics;
        let ghost head = spec_metric_keys(fams.subrange(0, i as int));
        let ghost fk = family_keys(fams[i as int]);
        let mut k: usize = 0;
        while k < metrics.len()
            invariant
                fams == set.families@,
                i < fams.len(),
                *name == fams[i as int].0,
                metrics@ == fams[i as int].1.metrics@,
                fk == family_keys(fams[i as int]),
                k <= metrics@.len(),
                keys_view(r@) == head + fk.subrange(0, k as int),
            decreases metrics@.len() - k,
        {
            let ghost before = r@;
            r.push((name.clone(), clone_labels(&metrics[k].labels)));
            proof {
                assert(keys_view(r@) =~= keys_view(before).push(fk[k as int]));
                assert(fk.subrange(0, k + 1) =~= fk.subrange(0, k as int).push(fk[k as int]));
            }
            k = k + 1;
        }
        proof {
            assert(fk.subrange(0, metrics@.len() as int) =~= fk);
            assert(fams.subrange(0, i + 1).drop_last() =~= fams.subrange(0, i as int));
            assert(fams.subrange(0, i + 1).last() == fams[i as int]);
        }
        i = i + 1;
    }
    proof {
        assert(fams.subrange(0, fams.len() as int) =~= fams);
    }
    r
}

} // verus!

//! The process plugin: which entries of `/proc` are processes, and the
//! metric family that names the command line of each.
use vstd::prelude::*;
use vstd::string::*;
use crate::metrics::{Label, MetricType, MetricValue, SimpleMetric, SimpleMetricFamily, SimpleMetricSet};
use crate::text::{all_digits, is_digit};

verus! {

/// A name made of decimal digits only, as the entries of `/proc` that are
/// processes are.
pub fn is_pid_name(name: &str) -> (r: bool)
    ensures
        r == all_digits(name@),
{
    let n = name.unicode_len();
    let mut i: usize = 0;
    while i < n
        invariant
            n == name@.len(),
            i <= n,
            forall|j: int| 0 <= j < i ==> is_digit(#[trigger] name@[j]),
        decreases n - i,
    {
        let c = name.get_char(i);
        if !('0' <= c && c <= '9') {
            return false;
        }
        i = i + 1;
    }
    true
}

/// The characters of each name.
pub open spec fn names_chars(names: Seq<String>) -> Seq<Seq<char>> {
    names.map_values(|s: String| s@)
}

/// The names that are process identifiers, in their order.
pub open spec fn pid_names_spec(names: Seq<String>) -> Seq<Seq<char>> {
    names_chars(names).filter(|s: Seq<char>| all_digits(s))
}

/// Keeps the names that are process identifiers, in their order.
pub fn pid_entries(names: &Vec<String>) -> (r: Vec<String>)
    ensures
        names_chars(r@) == pid_names_spec(names@),
{
    let mut r: Vec<String> = Vec::new();
    let mut i: usize = 0;
    while i < names.len()
        invariant
            i <= names@.len(),
            names_chars(r@) == pid_names_spec(names@.subrange(0, i as int)),
        decreases names@.len() - i,
    {
        let keep = is_pid_name(names[i].as_str());
        proof {
            let pre = names@.subrange(0, i as int);
            let next = names@.subrange(0, i + 1);
            assert(next.drop_last() =~= pre);
            assert(names_chars(next).drop_last() =~= names_chars(pre));
            assert(names_chars(next).last() == names@[i as int]@);
            reveal(Seq::filter);
        }
        if keep {
            let name = names[i].clone();
            let ghost before = r@;
            r.push(name);
            proof {
                assert(names_chars(r@) =~= names_chars(before).push(names@[i as int]@));
            }
        }
        i = i + 1;
    }
    proof {
        assert(names@.subrange(0, names@.len() as int) =~= names@);
    }
    r
}

/// The metric of one process: labelled by its identifier, it carries its
/// command line as information.
pub open spec fn is_process_metric(m: SimpleMetric, pid: Seq<char>, cmdline: Seq<char>) -> bool {
    &&& m.labels@.len() == 1
    &&& m.labels@[0].name@ == "pid"@
    &&& m.labels@[0].value@ == pid
    &&& m.value matches MetricValue::Info(info) && info@.len() == 1 && info@[0].name@ == "cmdline"@
        && info@[0].value@ == cmdline
}

fn process_metric(pid: &String, cmdline: &String) -> (m: SimpleMetric)
    ensures
        is_process_metric(m, pid@, cmdline@),
{
    let mut labels = Vec::new();
    labels.push(Label { name: String::from_str("pid"), value: pid.clone() });
    let mut info = Vec::new();
    info.push(Label { name: String::from_str("cmdline"), value: cmdline.clone() });
    SimpleMetric { labels, value: MetricValue::Info(info) }
}

/// The metric set of the process plugin: the `process_path` family, with one
/// metric per `(pid, command line)` pair, in order.
pub fn process_metrics(procs: &Vec<(String, String)>) -> (r: SimpleMetricSet)
    ensures
        r.families@.len() == 1,
        r.has_distinct_names(),
        r.families@[0].0@ == "process_path"@,
        r.families@[0].1.metric_type == MetricType::Info,
        r.families@[0].1.unit@ == ""@,
        r.families@[0].1.help@ == "Process informations"@,
        r.families@[0].1.metrics@.len() == procs@.len(),
        forall|i: int|
            0 <= i < procs@.len() ==> is_process_metric(
                #[trigger] r.families@[0].1.metrics@[i],
                procs@[i].0@,
                procs@[i].1@,
            ),
{
    let mut metrics: Vec<SimpleMetric> = Vec::new();
    let mut i: usize = 0;
    while i < procs.len()
        invariant
            i <= procs@.len(),
            metrics@.len() == i,
            forall|j: int| 0 <= j < i ==> is_process_metric(#[trigger] metrics@[j], procs@[j].0@, procs@[j].1@),
        decreases procs@.len() - i,
    {
        let m = process_metric(&procs[i].0, &procs[i].1);
        metrics.push(m);
        i = i + 1;
    }
    let family = SimpleMetricFamily {
        metric_type: MetricType::Info,
        unit: String::from_str(""),
        help: String::from_str("Process informations"),
        metrics,
    };
    let mut families = Vec::new();
    families.push((String::from_str("process_path"), family));
    SimpleMetricSet { families }
}

} // verus!

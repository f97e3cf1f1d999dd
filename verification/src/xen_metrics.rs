//! The metric families of the protocol v3 Xen plugin, built from what the
//! hypervisor reports of the host, its CPUs and its domains.
use vstd::prelude::*;
use vstd::string::*;
use std::collections::HashMap;
use std::time::Instant;
use crate::ids::{hyphenated, uuid_hyphenated};
use crate::metrics::{is_single_gauge_family, single_gauge_family, Label, MetricType, MetricValue, NumberValue, SimpleMetric, SimpleMetricFamily};
use crate::text::{decimal, decimal_string};

verus! {

/// Size of a Xen page.
pub const XEN_PAGE_SIZE: u64 = 4096;

/// A label `name=value`.
pub open spec fn is_label(l: Label, name: Seq<char>, value: Seq<char>) -> bool {
    l.name@ == name && l.value@ == value
}

/// A gauge family with the given name, unit and help, whose metrics are
/// not yet stated.
pub open spec fn is_gauge_family_of(r: (String, SimpleMetricFamily), name: Seq<char>, unit: Seq<char>, help: Seq<char>) -> bool {
    &&& r.0@ == name
    &&& r.1.metric_type == MetricType::Gauge
    &&& r.1.unit@ == unit
    &&& r.1.help@ == help
}

/// A gauge metric of an integer value.
pub open spec fn is_int_gauge(m: SimpleMetric, v: i64) -> bool {
    m.value matches MetricValue::Gauge(NumberValue::Int64(x)) && x == v
}

fn label(name: &str, value: String) -> (r: Label)
    ensures
        is_label(r, name@, value@),
{
    Label { name: String::from_str(name), value }
}

fn gauge_family(name: &str, unit: &str, help: &str, metrics: Vec<SimpleMetric>) -> (r: (String, SimpleMetricFamily))
    ensures
        is_gauge_family_of(r, name@, unit@, help@),
        r.1.metrics@ == metrics@,
{
    (
        String::from_str(name),
        SimpleMetricFamily {
            metric_type: MetricType::Gauge,
            unit: String::from_str(unit),
            help: String::from_str(help),
            metrics,
        },
    )
}

/// `vcpu`: the usage of each virtual CPU, whose metrics (floats) are
/// computed from two reads of its CPU time.
pub fn vcpu_usage_family(metrics: Vec<SimpleMetric>) -> (r: (String, SimpleMetricFamily))
    ensures
        is_gauge_family_of(r, "vcpu"@, "usage"@, "vCPU usages"@),
        r.1.metrics@ == metrics@,
{
    gauge_family("vcpu", "usage", "vCPU usages", metrics)
}

/// `cpu`: the usage of each physical CPU, whose metrics (floats) are
/// computed from two reads of its idle time.
pub fn pcpu_usage_family(metrics: Vec<SimpleMetric>) -> (r: (String, SimpleMetricFamily))
    ensures
        is_gauge_family_of(r, "cpu"@, ""@, "Physical cpu usage"@),
        r.1.metrics@ == metrics@,
{
    gauge_family("cpu", "", "Physical cpu usage", metrics)
}

/// `loadavg`: the load average of dom0, a float held by its bits.
pub fn loadavg_family(load_bits: u64) -> (r: (String, SimpleMetricFamily))
    ensures
        r.0@ == "loadavg"@,
        is_single_gauge_family(r.1, ""@, "Domain0 loadavg"@, NumberValue::Double(load_bits)),
{
    (String::from_str("loadavg"), single_gauge_family("", "Domain0 loadavg", NumberValue::Double(load_bits)))
}

/// The total memory of the host.
#[derive(Default, Debug, Clone, Copy)]
pub struct MemoryTotal;

impl MemoryTotal {
    /// `memory_total`: the host's total memory in KiB, from its total pages
    /// (no family when the host could not be read).
    pub fn get_family(&mut self, total_pages: Option<u64>) -> (r: Option<(String, SimpleMetricFamily)>)
        requires
            total_pages matches Some(t) ==> t * XEN_PAGE_SIZE <= u64::MAX,
        ensures
            match total_pages {
                None => r is None,
                Some(t) => r matches Some(f) && f.0@ == "memory_total"@ && is_single_gauge_family(
                    f.1,
                    "KiB"@,
                    "Total amount of memory in the host"@,
                    NumberValue::Int64(((t * XEN_PAGE_SIZE) / 1024) as i64),
                ),
            },
    {
        let t = match total_pages {
            Some(t) => t,
            None => {
                return None;
            },
        };
        Some(
            (
                String::from_str("memory_total"),
                single_gauge_family(
                    "KiB",
                    "Total amount of memory in the host",
                    NumberValue::Int64(((t * XEN_PAGE_SIZE) / 1024) as i64),
                ),
            ),
        )
    }
}

/// The free memory of the host.
#[derive(Default, Debug, Clone, Copy)]
pub struct MemoryFree;

impl MemoryFree {
    /// `memory_free`: the host's free memory in KiB, from its free pages
    /// (no family when the host could not be read).
    pub fn get_family(&mut self, free_pages: Option<u64>) -> (r: Option<(String, SimpleMetricFamily)>)
        requires
            free_pages matches Some(t) ==> t * XEN_PAGE_SIZE <= u64::MAX,
        ensures
            match free_pages {
                None => r is None,
                Some(t) => r matches Some(f) && f.0@ == "memory_free"@ && is_single_gauge_family(
                    f.1,
                    "KiB"@,
                    "Total amount of free memory"@,
                    NumberValue::Int64(((t * XEN_PAGE_SIZE) / 1024) as i64),
                ),
            },
    {
        let t = match free_pages {
            Some(t) => t,
            None => {
                return None;
            },
        };
        Some(
            (
                String::from_str("memory_free"),
                single_gauge_family(
                    "KiB",
                    "Total amount of free memory",
                    NumberValue::Int64(((t * XEN_PAGE_SIZE) / 1024) as i64),
                ),
            ),
        )
    }
}

/// The average frequency of each CPU.
#[derive(Default, Debug, Clone, Copy)]
pub struct CpuAvgFrequency;

impl CpuAvgFrequency {
    /// `cpu-freq`: one metric per CPU, labelled by its number.
    pub fn get_family(&mut self, cpufreqs: &Vec<u32>) -> (r: Option<(String, SimpleMetricFamily)>)
        ensures
            r matches Some(f) && is_gauge_family_of(f, "cpu-freq"@, "MHz"@, "Average frequency of CPU"@)
                && f.1.metrics@.len() == cpufreqs@.len()
                && forall|i: int| 0 <= i < cpufreqs@.len() ==> {
                    &&& (#[trigger] f.1.metrics@[i]).labels@.len() == 1
                    &&& is_label(f.1.metrics@[i].labels@[0], "id"@, decimal_string(i as nat))
                    &&& is_int_gauge(f.1.metrics@[i], cpufreqs@[i] as i64)
                },
    {
        let mut metrics: Vec<SimpleMetric> = Vec::new();
        let mut i: usize = 0;
        while i < cpufreqs.len()
            invariant
                i <= cpufreqs@.len(),
                metrics@.len() == i,
                forall|j: int| 0 <= j < i ==> {
                    &&& (#[trigger] metrics@[j]).labels@.len() == 1
                    &&& is_label(metrics@[j].labels@[0], "id"@, decimal_string(j as nat))
                    &&& is_int_gauge(metrics@[j], cpufreqs@[j] as i64)
                },
            decreases cpufreqs@.len() - i,
        {
            let mut labels = Vec::new();
            labels.push(label("id", decimal(i as u64)));
            metrics.push(SimpleMetric { labels, value: MetricValue::Gauge(NumberValue::Int64(cpufreqs[i] as i64)) });
            i = i + 1;
        }
        Some(gauge_family("cpu-freq", "MHz", "Average frequency of CPU", metrics))
    }
}

/// Each `(cpu, state, residency)` of per-CPU residencies, CPU by CPU and
/// state by state.
pub open spec fn flat_residencies(r: Seq<Seq<u64>>) -> Seq<(nat, nat, u64)>
    decreases r.len(),
{
    if r.len() == 0 {
        Seq::empty()
    } else {
        let c = (r.len() - 1) as nat;
        flat_residencies(r.drop_last()) + Seq::new(r.last().len(), |s: int| (c, s as nat, r.last()[s]))
    }
}

/// One metric per CPU and state, labelled by both, of the state's
/// residency.
pub open spec fn is_state_metrics(metrics: Seq<SimpleMetric>, flat: Seq<(nat, nat, u64)>) -> bool {
    &&& metrics.len() == flat.len()
    &&& forall|i: int| 0 <= i < flat.len() ==> {
        &&& (#[trigger] metrics[i]).labels@.len() == 2
        &&& is_label(metrics[i].labels@[0], "id"@, decimal_string(flat[i].0))
        &&& is_label(metrics[i].labels@[1], "state"@, decimal_string(flat[i].1))
        &&& is_int_gauge(metrics[i], flat[i].2 as i64)
    }
}

/// The metrics of per-CPU state residencies.
fn state_metrics(residencies: &Vec<Vec<u64>>) -> (r: Vec<SimpleMetric>)
    ensures
        is_state_metrics(r@, flat_residencies(residencies@.map_values(|v: Vec<u64>| v@))),
{
    let ghost all = residencies@.map_values(|v: Vec<u64>| v@);
    let mut metrics: Vec<SimpleMetric> = Vec::new();
    let mut c: usize = 0;
    while c < residencies.len()
        invariant
            c <= residencies@.len(),
            all == residencies@.map_values(|v: Vec<u64>| v@),
            is_state_metrics(metrics@, flat_residencies(all.subrange(0, c as int))),
        decreases residencies@.len() - c,
    {
        let states = &residencies[c];
        let ghost before = flat_residencies(all.subrange(0, c as int));
        let ghost row = Seq::new(states@.len(), |s: int| (c as nat, s as nat, states@[s]));
        let mut s: usize = 0;
        while s < states.len()
            invariant
                c < residencies@.len(),
                s <= states@.len(),
                row == Seq::new(states@.len(), |s: int| (c as nat, s as nat, states@[s])),
                is_state_metrics(metrics@, before + row.subrange(0, s as int)),
            decreases states@.len() - s,
        {
            let mut labels = Vec::new();
            labels.push(label("id", decimal(c as u64)));
            labels.push(label("state", decimal(s as u64)));
            let ghost prev = metrics@;
            metrics.push(SimpleMetric { labels, value: MetricValue::Gauge(NumberValue::Int64(states[s] as i64)) });
            assert(before + row.subrange(0, s + 1) =~= (before + row.subrange(0, s as int)).push(row[s as int]));
            s = s + 1;
        }
        assert(all.subrange(0, c + 1).drop_last() =~= all.subrange(0, c as int));
        assert(all.subrange(0, c + 1).last() == states@);
        assert(row.subrange(0, states@.len() as int) =~= row);
        c = c + 1;
    }
    assert(all.subrange(0, residencies@.len() as int) =~= all);
    metrics
}

/// The time each CPU spent in each P-state.
#[derive(Default, Debug, Clone, Copy)]
pub struct CpuPState;

impl CpuPState {
    /// `cpu-pstate`: one metric per CPU and P-state, from each CPU's
    /// P-state residencies.
    pub fn get_family(&mut self, residencies: &Vec<Vec<u64>>) -> (r: Option<(String, SimpleMetricFamily)>)
        ensures
            r matches Some(f) && is_gauge_family_of(f, "cpu-pstate"@, "MHz"@, "P-State times of CPU"@)
                && is_state_metrics(f.1.metrics@, flat_residencies(residencies@.map_values(|v: Vec<u64>| v@))),
    {
        let metrics = state_metrics(residencies);
        Some(gauge_family("cpu-pstate", "MHz", "P-State times of CPU", metrics))
    }
}

/// The time each CPU spent in each C-state.
#[derive(Default, Debug, Clone, Copy)]
pub struct CpuCState;

impl CpuCState {
    /// `cpu-cstate`: one metric per CPU and C-state, from each CPU's
    /// C-state residencies.
    pub fn get_family(&mut self, residencies: &Vec<Vec<u64>>) -> (r: Option<(String, SimpleMetricFamily)>)
        ensures
            r matches Some(f) && is_gauge_family_of(f, "cpu-cstate"@, "MHz"@, "C-State times of CPU"@)
                && is_state_metrics(f.1.metrics@, flat_residencies(residencies@.map_values(|v: Vec<u64>| v@))),
    {
        let metrics = state_metrics(residencies);
        Some(gauge_family("cpu-cstate", "MHz", "C-State times of CPU", metrics))
    }
}

/// The pages and UUID of a domain.
#[derive(Debug, Clone, Copy)]
pub struct DomainPages {
    pub nr_pages: u64,
    pub handle: u128,
}

/// The memory allocated to each domain.
#[derive(Default, Debug, Clone, Copy)]
pub struct DomainMemory;

impl DomainMemory {
    /// `memory`: one metric per domain, labelled `owner=vm <uuid>`, of its
    /// pages in bytes as an `i64`.
    pub fn get_family(&mut self, dominfos: &Vec<DomainPages>) -> (r: Option<(String, SimpleMetricFamily)>)
        requires
            forall|i: int| 0 <= i < dominfos@.len() ==> #[trigger] dominfos@[i].nr_pages * XEN_PAGE_SIZE <= u64::MAX,
        ensures
            r matches Some(f) && is_gauge_family_of(f, "memory"@, "bytes"@, "Memory currently allocated to VM"@)
                && f.1.metrics@.len() == dominfos@.len()
                && forall|i: int| 0 <= i < dominfos@.len() ==> {
                    &&& (#[trigger] f.1.metrics@[i]).labels@.len() == 1
                    &&& is_label(f.1.metrics@[i].labels@[0], "owner"@, "vm "@ + hyphenated(dominfos@[i].handle))
                    &&& is_int_gauge(f.1.metrics@[i], (dominfos@[i].nr_pages * XEN_PAGE_SIZE) as i64)
                },
    {
        let mut metrics: Vec<SimpleMetric> = Vec::new();
        let mut i: usize = 0;
        while i < dominfos.len()
            invariant
                i <= dominfos@.len(),
                metrics@.len() == i,
                forall|j: int| 0 <= j < dominfos@.len() ==> #[trigger] dominfos@[j].nr_pages * XEN_PAGE_SIZE <= u64::MAX,
                forall|j: int| 0 <= j < i ==> {
                    &&& (#[trigger] metrics@[j]).labels@.len() == 1
                    &&& is_label(metrics@[j].labels@[0], "owner"@, "vm "@ + hyphenated(dominfos@[j].handle))
                    &&& is_int_gauge(metrics@[j], (dominfos@[j].nr_pages * XEN_PAGE_SIZE) as i64)
                },
            decreases dominfos@.len() - i,
        {
            let d = dominfos[i];
            let bytes_used = d.nr_pages * XEN_PAGE_SIZE;
            let mut owner = String::from_str("vm ");
            owner.append(uuid_hyphenated(d.handle).as_str());
            let mut labels = Vec::new();
            labels.push(label("owner", owner));
            metrics.push(SimpleMetric { labels, value: MetricValue::Gauge(NumberValue::Int64(bytes_used as i64)) });
            i = i + 1;
        }
        Some(gauge_family("memory", "bytes", "Memory currently allocated to VM", metrics))
    }
}

/// The idle time of each physical CPU at its previous read.
pub struct PCpuTime {
    pub latest_idle_time: Vec<Option<u64>>,
    pub latest_instant: Instant,
}

/// The idle times of a CPU at the previous read and at this one.
#[derive(Debug, Clone, Copy)]
pub struct IdleSample {
    pub id: usize,
    pub previous: u64,
    pub current: u64,
}

impl PCpuTime {
    /// No read yet; the clock starts at `now`.
    pub fn new(now: Instant) -> (r: Self)
        ensures
            r.latest_idle_time@.len() == 0,
            r.latest_instant == now,
    {
        PCpuTime { latest_idle_time: Vec::new(), latest_instant: now }
    }

    /// Records the idle time of each CPU, read at `now`: gives back, for
    /// each CPU read before, its previous and current idle times, with the
    /// time of the previous read. The table of previous reads takes the
    /// length of this read.
    pub fn record(&mut self, idle_times: &Vec<u64>, now: Instant) -> (r: (Vec<IdleSample>, Instant))
        ensures
            final(self).latest_instant == now,
            r.1 == old(self).latest_instant,
            final(self).latest_idle_time@.len() == idle_times@.len(),
            forall|i: int| 0 <= i < idle_times@.len() ==> #[trigger] final(self).latest_idle_time@[i] == Some(idle_times@[i]),
            forall|k: int| 0 <= k < r.0@.len() ==> {
                let s = #[trigger] r.0@[k];
                &&& s.id < idle_times@.len()
                &&& s.id < old(self).latest_idle_time@.len()
                &&& old(self).latest_idle_time@[s.id as int] == Some(s.previous)
                &&& s.current == idle_times@[s.id as int]
            },
            forall|i: int| 0 <= i < idle_times@.len() && i < old(self).latest_idle_time@.len()
                && old(self).latest_idle_time@[i] is Some ==> exists|k: int| 0 <= k < r.0@.len() && (#[trigger] r.0@[k]).id == i,
    {
        let ghost old_times = self.latest_idle_time@;
        let n = idle_times.len();
        let mut samples: Vec<IdleSample> = Vec::new();
        let mut table: Vec<Option<u64>> = Vec::new();
        let mut i: usize = 0;
        while i < n
            invariant
                n == idle_times@.len(),
                old_times == self.latest_idle_time@,
                i <= n,
                table@.len() == i,
                forall|j: int| 0 <= j < i ==> #[trigger] table@[j] == Some(idle_times@[j]),
                forall|k: int| 0 <= k < samples@.len() ==> {
                    let s = #[trigger] samples@[k];
                    &&& s.id < i
                    &&& s.id < old_times.len()
                    &&& old_times[s.id as int] == Some(s.previous)
                    &&& s.current == idle_times@[s.id as int]
                },
                forall|j: int| 0 <= j < i && j < old_times.len() && old_times[j] is Some ==> exists|k: int| 0 <= k < samples@.len() && (#[trigger] samples@[k]).id == j,
            decreases n - i,
        {
            let current = idle_times[i];
            let ghost s0 = samples@;
            if i < self.latest_idle_time.len() {
                match self.latest_idle_time[i] {
                    Some(previous) => {
                        samples.push(IdleSample { id: i, previous, current });
                        assert(samples@[samples@.len() - 1].id == i);
                    },
                    None => {},
                }
            }
            table.push(Some(current));
            proof {
                assert forall|j: int| 0 <= j < i + 1 && j < old_times.len() && old_times[j] is Some implies exists|k: int| 0 <= k < samples@.len() && (#[trigger] samples@[k]).id == j by {
                    if j < i {
                        let k = choose|k: int| 0 <= k < s0.len() && (#[trigger] s0[k]).id == j;
                        assert(samples@[k] == s0[k]);
                    } else {
                        assert(samples@[samples@.len() - 1].id == j);
                    }
                }
            }
            i = i + 1;
        }
        self.latest_idle_time = table;
        let mut previous_instant = now;
        std::mem::swap(&mut previous_instant, &mut self.latest_instant);
        (samples, previous_instant)
    }
}

/// The key of virtual CPU `vcpu` of domain `domid`.
pub open spec fn vcpu_key(domid: u32, vcpu: u32) -> u64 {
    (domid * 0x1_0000_0000 + vcpu) as u64
}

/// The labels of the usage metric of virtual CPU `vcpu` of the domain
/// whose UUID is `handle`: `id=<vcpu>` and `owner=vm <uuid>`.
pub fn vcpu_time_labels(vcpu: u32, handle: u128) -> (r: Vec<Label>)
    ensures
        r@.len() == 2,
        is_label(r@[0], "id"@, decimal_string(vcpu as nat)),
        is_label(r@[1], "owner"@, "vm "@ + hyphenated(handle)),
{
    let mut owner = String::from_str("vm ");
    owner.append(uuid_hyphenated(handle).as_str());
    let mut labels = Vec::new();
    labels.push(label("id", decimal(vcpu as u64)));
    labels.push(label("owner", owner));
    labels
}

/// Distinct virtual CPUs have distinct keys: a key names one domain and
/// one virtual CPU of it.
pub proof fn law_vcpu_key_is_injective(d1: u32, v1: u32, d2: u32, v2: u32)
    ensures
        vcpu_key(d1, v1) == vcpu_key(d2, v2) ==> d1 == d2 && v1 == v2,
{
    let k1: int = d1 as int * 0x1_0000_0000 + v1 as int;
    let k2: int = d2 as int * 0x1_0000_0000 + v2 as int;
    assert(0 <= k1 <= u64::MAX) by (nonlinear_arith)
        requires k1 == d1 as int * 0x1_0000_0000 + v1 as int, 0 <= d1 <= u32::MAX, 0 <= v1 <= u32::MAX;
    assert(0 <= k2 <= u64::MAX) by (nonlinear_arith)
        requires k2 == d2 as int * 0x1_0000_0000 + v2 as int, 0 <= d2 <= u32::MAX, 0 <= v2 <= u32::MAX;
    if k1 == k2 {
        assert(d1 == d2 && v1 == v2) by (nonlinear_arith)
            requires
                k1 == d1 as int * 0x1_0000_0000 + v1 as int,
                k2 == d2 as int * 0x1_0000_0000 + v2 as int,
                k1 == k2,
                0 <= v1 < 0x1_0000_0000,
                0 <= v2 < 0x1_0000_0000;
    }
}

/// Recording the CPU time of one virtual CPU leaves what is known of every
/// other virtual CPU, of any domain, as it was.
pub proof fn law_vcpu_records_are_independent(times: Map<u64, u64>, d1: u32, v1: u32, t: u64, d2: u32, v2: u32)
    requires
        d1 != d2 || v1 != v2,
    ensures
        times.insert(vcpu_key(d1, v1), t).get(vcpu_key(d2, v2)) == times.get(vcpu_key(d2, v2)),
{
    law_vcpu_key_is_injective(d1, v1, d2, v2);
}

/// The CPU time of each virtual CPU at its previous read.
pub struct VCpuTime {
    pub latest_time: HashMap<u64, u64>,
    pub latest_instant: Instant,
}

impl VCpuTime {
    /// No read yet; the clock starts at `now`.
    pub fn new(now: Instant) -> (r: Self)
        ensures
            r.latest_time@ == Map::<u64, u64>::empty(),
            r.latest_instant == now,
    {
        VCpuTime { latest_time: HashMap::new(), latest_instant: now }
    }

    /// Records the CPU time of virtual CPU `vcpu` of domain `domid`: gives
    /// back its previous CPU time, when it was read before.
    pub fn record(&mut self, domid: u32, vcpu: u32, cpu_time: u64) -> (r: Option<u64>)
        ensures
            final(self).latest_time@ == old(self).latest_time@.insert(vcpu_key(domid, vcpu), cpu_time),
            final(self).latest_instant == old(self).latest_instant,
            r == old(self).latest_time@.get(vcpu_key(domid, vcpu)),
    {
        broadcast use vstd::std_specs::hash::group_hash_axioms;
        let key: u64 = (domid as u64) * 0x1_0000_0000 + (vcpu as u64);
        self.latest_time.insert(key, cpu_time)
    }

    /// Ends a round of reads at `now`, giving back the time the round began.
    pub fn end_round(&mut self, now: Instant) -> (r: Instant)
        ensures
            r == old(self).latest_instant,
            final(self).latest_instant == now,
            final(self).latest_time@ == old(self).latest_time@,
    {
        let mut previous = now;
        std::mem::swap(&mut previous, &mut self.latest_instant);
        previous
    }
}

} // verus!

//! The Xen plugin: the metrics it derives from the hypervisor's records,
//! and the UUID of each metric as domains appear and disappear.
use vstd::prelude::*;
use vstd::string::*;
use std::time::Instant;
use std::collections::HashMap;
use crate::ids::{hyphenated, is_v4_uuid, uuid_hyphenated};
use crate::metrics::{CreateFamily, Label, Metric, MetricType, MetricValue, NumberValue, RemoveMetric, UpdateMetric};
use crate::text::{decimal, decimal_string};
use crate::uuid_table::{contains_u32, opt_chars, slots_map, unique_keys, KeyView, MetricKey, UuidSlot, UuidTable};
use crate::xen::domctl::{XenDomctlGetDomainInfo, XenDomctlGetVCpuInfo};
use crate::xen::sysctl::XenSysctlCpuinfo;
use crate::xen::DomId;

verus! {

/// A point in time of the monotonic clock.
#[verifier::external_type_specification]
#[verifier::external_body]
pub struct ExInstant(Instant);

/// The current time (`Instant::now`); nothing is claimed of it.
#[verifier::external_body]
fn instant_now() -> Instant {
    Instant::now()
}

/// Size of a Xen page.
pub const PAGE_SIZE: u64 = 4096;

/// What a metric of the plugin is: its family, and which one of the
/// family's metrics it is.
#[derive(Debug)]
pub struct PluginMetricKind {
    pub family_name: &'static str,
    pub submetric: Option<String>,
}

impl PluginMetricKind {
    /// The family name and sub-metric as plain values.
    pub open spec fn kind_view(&self) -> (Seq<char>, Option<Seq<char>>) {
        (self.family_name@, opt_chars(self.submetric))
    }
}

/// The UUIDs of the metrics of each domain, and of the host.
pub struct PluginState {
    pub domid_metrics: UuidTable,
    pub host_metrics: UuidTable,
}

/// The key of metric `kind` of domain `domid` (0 for the host).
pub open spec fn kind_key(scope: u32, kind: (Seq<char>, Option<Seq<char>>)) -> KeyView {
    (scope, kind.0, kind.1)
}

/// The label that names the domain of a metric by its UUID.
pub open spec fn is_domain_label(l: Label, dom_uuid: u128) -> bool {
    l.name@ == "domain"@ && l.value@ == hyphenated(dom_uuid)
}

fn kind_to_key(scope: u32, kind: PluginMetricKind) -> (r: MetricKey)
    ensures
        r.key_view() == kind_key(scope, kind.kind_view()),
{
    MetricKey { scope, name: String::from_str(kind.family_name), sub: kind.submetric }
}

/// Adds `x` at the end of `v` unless `v` holds it already.
fn push_unique(v: &mut Vec<u16>, x: u16)
    ensures
        old(v)@.contains(x) ==> final(v)@ == old(v)@,
        !old(v)@.contains(x) ==> final(v)@ == old(v)@.push(x),
{
    let mut j: usize = 0;
    while j < v.len()
        invariant
            j <= v@.len(),
            forall|a: int| 0 <= a < j ==> v@[a] != x,
        decreases v@.len() - j,
    {
        if v[j] == x {
            return;
        }
        j = j + 1;
    }
    v.push(x);
}

/// Some slot among the first `n` has scope `v`.
pub open spec fn has_scope(s: Seq<UuidSlot>, n: int, v: u32) -> bool {
    exists|b: int| 0 <= b < n && s[b].key.scope == v
}

/// Some domain of `r` has ID `v`.
pub open spec fn lists_domain(r: Seq<u16>, v: u32) -> bool {
    exists|a: int| 0 <= a < r.len() && r[a] as u32 == v
}

/// The domain IDs among the scopes of `slots`, each once.
fn scope_domains(slots: &Vec<UuidSlot>) -> (r: Vec<u16>)
    ensures
        forall|a: int| 0 <= a < r@.len() ==> has_scope(slots@, slots@.len() as int, #[trigger] r@[a] as u32),
        forall|b: int| 0 <= b < slots@.len() && (#[trigger] slots@[b]).key.scope <= 0xffff ==> lists_domain(r@, slots@[b].key.scope),
        forall|a: int, c: int| 0 <= a < r@.len() && 0 <= c < r@.len() && a != c ==> #[trigger] r@[a] != #[trigger] r@[c],
{
    let mut r: Vec<u16> = Vec::new();
    let mut i: usize = 0;
    while i < slots.len()
        invariant
            i <= slots@.len(),
            forall|a: int| 0 <= a < r@.len() ==> has_scope(slots@, i as int, #[trigger] r@[a] as u32),
            forall|b: int| 0 <= b < i && (#[trigger] slots@[b]).key.scope <= 0xffff ==> lists_domain(r@, slots@[b].key.scope),
            forall|a: int, c: int| 0 <= a < r@.len() && 0 <= c < r@.len() && a != c ==> #[trigger] r@[a] != #[trigger] r@[c],
        decreases slots@.len() - i,
    {
        let ghost r0 = r@;
        let scope = slots[i].key.scope;
        if scope <= 0xffff {
            push_unique(&mut r, scope as u16);
        }
        proof {
            assert forall|a: int| 0 <= a < r@.len() implies has_scope(slots@, i + 1, #[trigger] r@[a] as u32) by {
                if a < r0.len() {
                    assert(r@[a] == r0[a]);
                    assert(has_scope(slots@, i as int, r0[a] as u32));
                    let b = choose|b: int| 0 <= b < i && slots@[b].key.scope == r0[a] as u32;
                    assert(0 <= b < i + 1 && slots@[b].key.scope == r@[a] as u32);
                } else {
                    assert(slots@[i as int].key.scope == r@[a] as u32);
                }
            }
            assert forall|b: int| 0 <= b < i + 1 && (#[trigger] slots@[b]).key.scope <= 0xffff implies lists_domain(r@, slots@[b].key.scope) by {
                if b < i {
                    assert(lists_domain(r0, slots@[b].key.scope));
                    let a = choose|a: int| 0 <= a < r0.len() && r0[a] as u32 == slots@[b].key.scope;
                    assert(r@[a] == r0[a]);
                } else if r0.contains(scope as u16) {
                    let a = choose|a: int| 0 <= a < r0.len() && r0[a] == scope as u16;
                    assert(r@[a] as u32 == scope);
                } else {
                    assert(r@[r@.len() - 1] as u32 == scope);
                }
            }
        }
        i = i + 1;
    }
    r
}

/// The domains that disappeared, and the removals of their metrics.
pub struct OrphanCleanup {
    pub domains: Vec<u16>,
    pub removals: Vec<RemoveMetric>,
    /// The key of the metric that each removal is about.
    pub keys: Ghost<Seq<KeyView>>,
}

/// The removal is that of a metric of a domain not in `found`.
pub open spec fn removal_of_orphan(state: PluginState, found: Seq<u16>, m: RemoveMetric) -> bool {
    exists|k: KeyView| #[trigger] state.domid_metrics.view().contains_key(k)
        && names_family(k, m) && state.domid_metrics.view()[k] == m.uuid
        && !is_live(found, k.0)
}

/// The removal names the family of the metric key `k`.
pub open spec fn names_family(k: KeyView, m: RemoveMetric) -> bool {
    k.1 == m.family_name@
}

/// Domain `scope` is among the domains found.
pub open spec fn is_live(found: Seq<u16>, scope: u32) -> bool {
    exists|j: int| 0 <= j < found.len() && found[j] as u32 == scope
}

impl PluginState {
    pub open spec fn wf(&self) -> bool {
        self.domid_metrics.wf() && self.host_metrics.wf()
    }

    /// No metric yet.
    pub fn new() -> (r: Self)
        ensures
            r.wf(),
            r.domid_metrics.view() == Map::<KeyView, u128>::empty(),
            r.host_metrics.view() == Map::<KeyView, u128>::empty(),
    {
        PluginState { domid_metrics: UuidTable::new(), host_metrics: UuidTable::new() }
    }

    /// The update of metric `kind` of domain `domid`, whose UUID is
    /// `dom_uuid`: the metric gains a `domain` label, and keeps the UUID it
    /// was reported under, or gets a fresh one.
    pub fn push_domain_metric(&mut self, domid: DomId, dom_uuid: u128, kind: PluginMetricKind, metric: Metric) -> (r: UpdateMetric)
        requires
            old(self).wf(),
        ensures
            final(self).wf(),
            final(self).host_metrics.view() == old(self).host_metrics.view(),
            r.family_name@ == kind.family_name@,
            r.metric.labels@.len() == metric.labels@.len() + 1,
            forall|i: int| 0 <= i < metric.labels@.len() ==> #[trigger] r.metric.labels@[i] == metric.labels@[i],
            is_domain_label(r.metric.labels@.last(), dom_uuid),
            r.metric.value == metric.value,
            ({
                let k = kind_key(domid.0 as u32, kind.kind_view());
                &&& old(self).domid_metrics.view().contains_key(k) ==> r.uuid == old(self).domid_metrics.view()[k]
                    && final(self).domid_metrics.view() == old(self).domid_metrics.view()
                &&& !old(self).domid_metrics.view().contains_key(k) ==> is_v4_uuid(r.uuid)
                    && final(self).domid_metrics.view() == old(self).domid_metrics.view().insert(k, r.uuid)
            }),
    {
        let family_name = String::from_str(kind.family_name);
        let key = kind_to_key(domid.0 as u32, kind);
        let uuid = self.domid_metrics.get_or_insert(key);
        let mut metric = metric;
        metric.labels.push(Label { name: String::from_str("domain"), value: uuid_hyphenated(dom_uuid) });
        UpdateMetric { family_name, metric, uuid }
    }

    /// The update of host metric `kind`: it keeps the UUID it was reported
    /// under, or gets a fresh one.
    pub fn push_host_metric(&mut self, kind: PluginMetricKind, metric: Metric) -> (r: UpdateMetric)
        requires
            old(self).wf(),
        ensures
            final(self).wf(),
            final(self).domid_metrics.view() == old(self).domid_metrics.view(),
            r.family_name@ == kind.family_name@,
            r.metric.labels@ == metric.labels@,
            r.metric.value == metric.value,
            ({
                let k = kind_key(0, kind.kind_view());
                &&& old(self).host_metrics.view().contains_key(k) ==> r.uuid == old(self).host_metrics.view()[k]
                    && final(self).host_metrics.view() == old(self).host_metrics.view()
                &&& !old(self).host_metrics.view().contains_key(k) ==> is_v4_uuid(r.uuid)
                    && final(self).host_metrics.view() == old(self).host_metrics.view().insert(k, r.uuid)
            }),
    {
        let family_name = String::from_str(kind.family_name);
        let key = kind_to_key(0, kind);
        let uuid = self.host_metrics.get_or_insert(key);
        UpdateMetric { family_name, metric, uuid }
    }

    /// Forgets the metrics of every domain that is not in `found`: gives
    /// back those domains, and one removal per metric, naming its family.
    pub fn remove_orphans(&mut self, found: &Vec<u16>) -> (r: OrphanCleanup)
        requires
            old(self).wf(),
        ensures
            final(self).wf(),
            final(self).host_metrics.view() == old(self).host_metrics.view(),
            final(self).domid_metrics.view() == old(self).domid_metrics.view().restrict(
                Set::new(|k: KeyView| is_live(found@, k.0)),
            ),
            forall|i: int| 0 <= i < r.removals@.len() ==> #[trigger] removal_of_orphan(*old(self), found@, r.removals@[i]),
            forall|k: KeyView| #[trigger] old(self).domid_metrics.view().contains_key(k)
                && !(is_live(found@, k.0)) ==>
                exists|i: int| 0 <= i < r.removals@.len() && names_family(k, r.removals@[i])
                    && r.removals@[i].uuid == old(self).domid_metrics.view()[k],
            forall|i: int| 0 <= i < r.domains@.len() ==> !found@.contains(#[trigger] r.domains@[i]),
            forall|k: KeyView| #[trigger] old(self).domid_metrics.view().contains_key(k) && !is_live(found@, k.0)
                && k.0 <= 0xffff ==> lists_domain(r.domains@, k.0),
            forall|i: int, j: int| 0 <= i < r.domains@.len() && 0 <= j < r.domains@.len() && i != j
                ==> #[trigger] r.domains@[i] != #[trigger] r.domains@[j],
            r.keys@.len() == r.removals@.len(),
            forall|i: int| 0 <= i < r.keys@.len() ==> {
                let k = #[trigger] r.keys@[i];
                &&& old(self).domid_metrics.view().contains_key(k)
                &&& !is_live(found@, k.0)
                &&& names_family(k, r.removals@[i])
                &&& r.removals@[i].uuid == old(self).domid_metrics.view()[k]
            },
            forall|i: int, j: int| 0 <= i < r.keys@.len() && 0 <= j < r.keys@.len() && i != j
                ==> #[trigger] r.keys@[i] != #[trigger] r.keys@[j],
            forall|k: KeyView| #[trigger] old(self).domid_metrics.view().contains_key(k) && !is_live(found@, k.0)
                ==> r.keys@.contains(k),
    {
        let mut live: Vec<u32> = Vec::new();
        let mut i: usize = 0;
        while i < found.len()
            invariant
                i <= found@.len(),
                live@.len() == i,
                forall|j: int| 0 <= j < i ==> #[trigger] live@[j] == found@[j] as u32,
            decreases found@.len() - i,
        {
            live.push(found[i] as u32);
            i = i + 1;
        }
        assert forall|v: u32| #[trigger] live@.contains(v) <==> is_live(found@, v) by {
            if live@.contains(v) {
                let j = choose|j: int| 0 <= j < live@.len() && live@[j] == v;
                assert(found@[j] as u32 == v);
            }
            if is_live(found@, v) {
                let j = choose|j: int| 0 <= j < found@.len() && found@[j] as u32 == v;
                assert(live@[j] == v);
            }
        }
        assert(Set::new(|k: KeyView| live@.contains(k.0)) =~= Set::new(|k: KeyView| is_live(found@, k.0)));
        assert(Set::new(|k: KeyView| !live@.contains(k.0)) =~= Set::new(|k: KeyView| !is_live(found@, k.0)));
        let ghost old_table = self.domid_metrics.view();
        let removed = self.domid_metrics.remove_scopes_except(&live);
        let ghost rm = removed@;
        let mut messages: Vec<RemoveMetric> = Vec::new();
        let mut i: usize = 0;
        while i < removed.len()
            invariant
                rm == removed@,
                i <= rm.len(),
                messages@.len() == i,
                forall|a: int| 0 <= a < i ==> #[trigger] messages@[a].family_name@ == rm[a].key.name@ && messages@[a].uuid == rm[a].uuid,
            decreases rm.len() - i,
        {
            messages.push(RemoveMetric { family_name: removed[i].key.name.clone(), uuid: removed[i].uuid });
            i = i + 1;
        }
        let orphans = scope_domains(&removed);
        let ghost msgs = messages@;
        proof {
            assert forall|a: int| #![trigger msgs[a]] 0 <= a < msgs.len() implies exists|k: KeyView| #[trigger] old(self).domid_metrics.view().contains_key(k)
                && names_family(k, msgs[a]) && old(self).domid_metrics.view()[k] == msgs[a].uuid
                && !(is_live(found@, k.0)) by {
                crate::uuid_table::lemma_slots_map_at(rm, a);
                let k = rm[a].key.key_view();
                assert(slots_map(rm).contains_key(k));
                assert(messages@[a].family_name@ == rm[a].key.name@);
                assert(slots_map(rm)[k] == rm[a].uuid);
                assert(old(self).domid_metrics.view().contains_key(k));
                assert(!is_live(found@, k.0));
                assert(old(self).domid_metrics.view()[k] == messages@[a].uuid);
                assert(names_family(k, messages@[a]));
            }
            assert forall|a: int| 0 <= a < orphans@.len() implies !found@.contains(#[trigger] orphans@[a]) by {
                assert(has_scope(rm, rm.len() as int, orphans@[a] as u32));
                let b = choose|b: int| 0 <= b < rm.len() && rm[b].key.scope == orphans@[a] as u32;
                crate::uuid_table::lemma_slots_map_at(rm, b);
                if found@.contains(orphans@[a]) {
                    let j = choose|j: int| 0 <= j < found@.len() && found@[j] == orphans@[a];
                    assert(found@[j] as u32 == rm[b].key.key_view().0);
                }
            }
            assert forall|k: KeyView| #[trigger] old(self).domid_metrics.view().contains_key(k)
                && !(is_live(found@, k.0)) implies
                exists|i: int| 0 <= i < messages@.len() && names_family(k, messages@[i])
                    && messages@[i].uuid == old(self).domid_metrics.view()[k] by {
                assert(slots_map(rm).contains_key(k));
                let a = choose|a: int| 0 <= a < rm.len() && #[trigger] rm[a].key.key_view() == k;
                crate::uuid_table::lemma_slots_map_at(rm, a);
                assert(messages@[a].family_name@ == k.1);
            }
        }
        proof {
            assert forall|k: KeyView| #[trigger] old(self).domid_metrics.view().contains_key(k) && !is_live(found@, k.0)
                && k.0 <= 0xffff implies lists_domain(orphans@, k.0) by {
                assert(slots_map(rm).contains_key(k));
                let b = choose|b: int| 0 <= b < rm.len() && #[trigger] rm[b].key.key_view() == k;
                assert(rm[b].key.scope == k.0);
                assert(lists_domain(orphans@, rm[b].key.scope));
            }
        }
        let ghost keys = rm.map_values(|slot: UuidSlot| slot.key.key_view());
        proof {
            assert forall|a: int| 0 <= a < keys.len() implies {
                let k = #[trigger] keys[a];
                &&& old(self).domid_metrics.view().contains_key(k)
                &&& !is_live(found@, k.0)
                &&& names_family(k, msgs[a])
                &&& msgs[a].uuid == old(self).domid_metrics.view()[k]
            } by {
                crate::uuid_table::lemma_slots_map_at(rm, a);
                assert(messages@[a].family_name@ == rm[a].key.name@);
            }
            assert forall|a: int, b: int| 0 <= a < keys.len() && 0 <= b < keys.len() && a != b implies #[trigger] keys[a] != #[trigger] keys[b] by {
                assert(rm[a].key.key_view() != rm[b].key.key_view());
            }
            assert forall|k: KeyView| #[trigger] old(self).domid_metrics.view().contains_key(k) && !is_live(found@, k.0)
                implies keys.contains(k) by {
                assert(slots_map(rm).contains_key(k));
                let a = choose|a: int| 0 <= a < rm.len() && #[trigger] rm[a].key.key_view() == k;
                assert(keys[a] == k);
            }
        }
        let ghost orph = orphans@;
        let r = OrphanCleanup { domains: orphans, removals: messages, keys: Ghost(keys) };
        assert(r.removals@ == msgs);
        assert forall|i: int| 0 <= i < r.removals@.len() implies #[trigger] removal_of_orphan(*old(self), found@, r.removals@[i]) by {
            assert(r.removals@[i] == msgs[i]);
        }
        assert(r.domains@ == orph);
        r
    }
}

/// A metric of the `cpu_id` label.
pub open spec fn is_cpu_label(l: Label, cpu: nat) -> bool {
    l.name@ == "cpu_id"@ && l.value@ == decimal_string(cpu)
}

/// The family declaration of a gauge family of the plugin.
pub open spec fn is_gauge_family(f: CreateFamily, name: Seq<char>, help: Seq<char>, unit: Seq<char>) -> bool {
    &&& f.name@ == name
    &&& f.help@ == help
    &&& f.metric_type == MetricType::Gauge
    &&& f.unit@ == unit
}

fn gauge_family(name: &str, help: &str, unit: &str) -> (r: CreateFamily)
    ensures
        is_gauge_family(r, name@, help@, unit@),
{
    CreateFamily {
        help: String::from_str(help),
        name: String::from_str(name),
        metric_type: MetricType::Gauge,
        unit: String::from_str(unit),
    }
}

/// The memory reserved to each domain.
#[derive(Debug, Clone, Copy)]
pub struct DomainMemory;

impl DomainMemory {
    /// The `xen_domain_memory` family, in bytes.
    pub fn make_family(&self) -> (r: CreateFamily)
        ensures
            is_gauge_family(r, "xen_domain_memory"@, "Memory reserved to a guest."@, "bytes"@),
    {
        gauge_family("xen_domain_memory", "Memory reserved to a guest.", "bytes")
    }

    /// The memory of the domain: its pages times the page size, in bytes,
    /// as an `i64`.
    pub fn read_domain_metrics(&mut self, dominfo: &XenDomctlGetDomainInfo) -> (r: Vec<(PluginMetricKind, Metric)>)
        requires
            dominfo.tot_pages.0 * PAGE_SIZE <= u64::MAX,
        ensures
            r@.len() == 1,
            r@[0].0.kind_view() == ("xen_domain_memory"@, None::<Seq<char>>),
            r@[0].1.labels@.len() == 0,
            r@[0].1.value matches MetricValue::Gauge(NumberValue::Int64(v)) && v == (dominfo.tot_pages.0 * PAGE_SIZE) as i64,
    {
        let bytes = dominfo.tot_pages.0 * PAGE_SIZE;
        let mut r = Vec::new();
        r.push(
            (
                PluginMetricKind { family_name: "xen_domain_memory", submetric: None },
                Metric { labels: Vec::new(), value: MetricValue::Gauge(NumberValue::Int64(bytes as i64)) },
            ),
        );
        r
    }
}

/// The average frequency of each physical CPU.
#[derive(Debug, Clone, Copy)]
pub struct PCpuFreq;

/// The metric of CPU `cpu` in a per-CPU family: keyed and labelled by the
/// CPU's number.
pub open spec fn is_cpu_metric(m: (PluginMetricKind, Metric), family: Seq<char>, cpu: nat) -> bool {
    &&& m.0.kind_view() == (family, Some(decimal_string(cpu)))
    &&& m.1.labels@.len() == 1
    &&& is_cpu_label(m.1.labels@[0], cpu)
}

impl PCpuFreq {
    /// The `xen_cpu_freq` family, in hertz.
    pub fn make_family(&self) -> (r: CreateFamily)
        ensures
            is_gauge_family(r, "xen_cpu_freq"@, "Average frequency of a CPU core"@, "hz"@),
    {
        gauge_family("xen_cpu_freq", "Average frequency of a CPU core", "hz")
    }

    /// One metric per CPU whose frequency could be read: `freqs` holds the
    /// CPU number and frequency of each successful read, in order. The
    /// frequency is reported as an `i64`.
    pub fn read_host_metrics(&mut self, freqs: &Vec<(u32, u64)>) -> (r: Vec<(PluginMetricKind, Metric)>)
        ensures
            r@.len() == freqs@.len(),
            forall|i: int| 0 <= i < freqs@.len() ==> is_cpu_metric(#[trigger] r@[i], "xen_cpu_freq"@, freqs@[i].0 as nat)
                && (r@[i].1.value matches MetricValue::Gauge(NumberValue::Int64(v)) && v == freqs@[i].1 as i64),
    {
        let mut r: Vec<(PluginMetricKind, Metric)> = Vec::new();
        let mut i: usize = 0;
        while i < freqs.len()
            invariant
                i <= freqs@.len(),
                r@.len() == i,
                forall|j: int| 0 <= j < i ==> is_cpu_metric(#[trigger] r@[j], "xen_cpu_freq"@, freqs@[j].0 as nat)
                    && (r@[j].1.value matches MetricValue::Gauge(NumberValue::Int64(v)) && v == freqs@[j].1 as i64),
            decreases freqs@.len() - i,
        {
            let (cpuid, freq) = freqs[i];
            let mut labels = Vec::new();
            labels.push(Label { name: String::from_str("cpu_id"), value: decimal(cpuid as u64) });
            r.push(
                (
                    PluginMetricKind { family_name: "xen_cpu_freq", submetric: Some(decimal(cpuid as u64)) },
                    Metric { labels, value: MetricValue::Gauge(NumberValue::Int64(freq as i64)) },
                ),
            );
            i = i + 1;
        }
        r
    }
}

/// The usage of each physical CPU, from its idle time between two reads.
pub struct PCpuUsage {
    pub latest_instant: Instant,
    pub prev_pcpu_infos: Option<Vec<XenSysctlCpuinfo>>,
}

/// The idle times of one CPU at the previous read and at this one.
#[derive(Debug, Clone, Copy)]
pub struct CpuSample {
    pub cpu_id: usize,
    pub current: XenSysctlCpuinfo,
    pub previous: XenSysctlCpuinfo,
}

impl PCpuUsage {
    /// No read yet; the clock starts now.
    pub fn new() -> (r: Self)
        ensures
            r.prev_pcpu_infos is None,
    {
        PCpuUsage { latest_instant: instant_now(), prev_pcpu_infos: None }
    }

    /// The `xen_cpu_time` family.
    pub fn make_family(&self) -> (r: CreateFamily)
        ensures
            is_gauge_family(r, "xen_cpu_time"@, "Time taken running a CPU core"@, ""@),
    {
        gauge_family("xen_cpu_time", "Time taken running a CPU core", "")
    }

    /// Records a new read of the CPUs, taken at `now`; gives back, for each
    /// CPU that both this read and the previous one cover, its number and
    /// both records, and the time of the previous read. Nothing to compare
    /// on the first read.
    pub fn record(&mut self, new_infos: Vec<XenSysctlCpuinfo>, now: Instant) -> (r: (Vec<CpuSample>, Instant))
        ensures
            final(self).prev_pcpu_infos matches Some(p) && p@ == new_infos@,
            final(self).latest_instant == now,
            r.1 == old(self).latest_instant,
            match old(self).prev_pcpu_infos {
                None => r.0@.len() == 0,
                Some(prev) => {
                    &&& r.0@.len() == if new_infos@.len() < prev@.len() { new_infos@.len() } else { prev@.len() }
                    &&& forall|i: int| 0 <= i < r.0@.len() ==> (#[trigger] r.0@[i]).cpu_id == i
                        && r.0@[i].current == new_infos@[i] && r.0@[i].previous == prev@[i]
                },
            },
    {
        let mut samples: Vec<CpuSample> = Vec::new();
        match &self.prev_pcpu_infos {
            None => {},
            Some(prev) => {
                let n = if new_infos.len() < prev.len() { new_infos.len() } else { prev.len() };
                let mut i: usize = 0;
                while i < n
                    invariant
                        i <= n,
                        n <= new_infos@.len(),
                        n <= prev@.len(),
                        samples@.len() == i,
                        forall|j: int| 0 <= j < i ==> (#[trigger] samples@[j]).cpu_id == j
                            && samples@[j].current == new_infos@[j] && samples@[j].previous == prev@[j],
                    decreases n - i,
                {
                    samples.push(CpuSample { cpu_id: i, current: new_infos[i], previous: prev[i] });
                    i = i + 1;
                }
            },
        }
        let mut previous_instant = now;
        std::mem::swap(&mut previous_instant, &mut self.latest_instant);
        self.prev_pcpu_infos = Some(new_infos);
        (samples, previous_instant)
    }
}

impl PCpuUsage {
    /// How many CPU records to ask for: one per CPU number up to the
    /// highest.
    pub fn buffer_len(max_cpu_id: u32) -> (r: usize)
        requires
            max_cpu_id < u32::MAX,
        ensures
            r == max_cpu_id + 1,
    {
        (max_cpu_id + 1) as usize
    }
}

/// The `xen_cpu_time` metric of CPU `cpu_id`, whose usage (a float) is
/// held by its bits.
pub fn pcpu_usage_metric(cpu_id: usize, usage_bits: u64) -> (r: (PluginMetricKind, Metric))
    ensures
        is_cpu_metric(r, "xen_cpu_time"@, cpu_id as nat),
        r.1.value matches MetricValue::Gauge(NumberValue::Double(b)) && b == usage_bits,
{
    let mut labels = Vec::new();
    labels.push(Label { name: String::from_str("cpu_id"), value: decimal(cpu_id as u64) });
    (
        PluginMetricKind { family_name: "xen_cpu_time", submetric: Some(decimal(cpu_id as u64)) },
        Metric { labels, value: MetricValue::Gauge(NumberValue::Double(usage_bits)) },
    )
}

/// The CPU time of a virtual CPU record, without the `XEN_RUNSTATE_UPDATE`
/// flag (bit 63) that Xen may leave set in it.
pub fn vcpu_cpu_time(info: &XenDomctlGetVCpuInfo) -> (r: u64)
    ensures
        r == info.cpu_time.0 & 0x7fff_ffff_ffff_ffffu64,
        r < 0x8000_0000_0000_0000u64,
{
    let t = info.cpu_time.0;
    let r = t & 0x7fff_ffff_ffff_ffffu64;
    assert(t & 0x7fff_ffff_ffff_ffffu64 < 0x8000_0000_0000_0000u64) by (bit_vector);
    r
}

/// The `xen_vcpu_time` metric of virtual CPU `vcpu`, whose usage (a float)
/// is held by its bits: keyed and labelled by the virtual CPU's number.
pub fn vcpu_usage_metric(vcpu: u32, usage_bits: u64) -> (r: (PluginMetricKind, Metric))
    ensures
        r.0.kind_view() == ("xen_vcpu_time"@, Some(decimal_string(vcpu as nat))),
        r.1.labels@.len() == 1,
        r.1.labels@[0].name@ == "vcpu_id"@,
        r.1.labels@[0].value@ == decimal_string(vcpu as nat),
        r.1.value matches MetricValue::Gauge(NumberValue::Double(b)) && b == usage_bits,
{
    let mut labels = Vec::new();
    labels.push(Label { name: String::from_str("vcpu_id"), value: decimal(vcpu as u64) });
    (
        PluginMetricKind { family_name: "xen_vcpu_time", submetric: Some(decimal(vcpu as u64)) },
        Metric { labels, value: MetricValue::Gauge(NumberValue::Double(usage_bits)) },
    )
}

/// The usage of each virtual CPU, from its CPU time between two reads.
pub struct VCpuUsage {
    /// When the previous round of reads began.
    pub previous_instant: Option<Instant>,
    /// When the current round of reads began.
    pub latest_instant: Instant,
    /// The records of the previous read of each domain's virtual CPUs.
    pub prev_vcpu_infos: HashMap<u16, Vec<XenDomctlGetVCpuInfo>>,
}

/// The CPU times of one virtual CPU at the previous read and at this one.
#[derive(Debug, Clone, Copy)]
pub struct VCpuSample {
    pub current: XenDomctlGetVCpuInfo,
    pub previous: XenDomctlGetVCpuInfo,
}

impl VCpuUsage {
    /// No read yet; the clock starts now.
    pub fn new() -> (r: Self)
        ensures
            r.previous_instant is None,
            r.prev_vcpu_infos@ == Map::<u16, Vec<XenDomctlGetVCpuInfo>>::empty(),
    {
        VCpuUsage { previous_instant: None, latest_instant: instant_now(), prev_vcpu_infos: HashMap::new() }
    }

    /// The `xen_vcpu_time` family.
    pub fn make_family(&self) -> (r: CreateFamily)
        ensures
            is_gauge_family(r, "xen_vcpu_time"@, "Time taken running a VCPU"@, ""@),
    {
        gauge_family("xen_vcpu_time", "Time taken running a VCPU", "")
    }

    /// Starts a round of reads at `now`: the round that began last becomes
    /// the previous one.
    pub fn read_host_metrics(&mut self, now: Instant)
        ensures
            final(self).previous_instant == Some(old(self).latest_instant),
            final(self).latest_instant == now,
            final(self).prev_vcpu_infos@ == old(self).prev_vcpu_infos@,
    {
        let mut previous = now;
        std::mem::swap(&mut previous, &mut self.latest_instant);
        self.previous_instant = Some(previous);
    }

    /// Records a new read of the virtual CPUs of domain `domid`; gives back,
    /// for each virtual CPU that both this read and the domain's previous
    /// one cover, both records, with the start of the previous round.
    /// Nothing to compare when the domain, or the previous round, is new.
    pub fn read_domain_metrics(&mut self, domid: u16, new_infos: Vec<XenDomctlGetVCpuInfo>) -> (r: (Vec<VCpuSample>, Option<Instant>))
        ensures
            final(self).prev_vcpu_infos@ == old(self).prev_vcpu_infos@.insert(domid, new_infos),
            final(self).previous_instant == old(self).previous_instant,
            final(self).latest_instant == old(self).latest_instant,
            r.1 == old(self).previous_instant,
            match (old(self).prev_vcpu_infos@.get(domid), old(self).previous_instant) {
                (Some(prev), Some(_)) => {
                    &&& r.0@.len() == if new_infos@.len() < prev@.len() { new_infos@.len() } else { prev@.len() }
                    &&& forall|i: int| 0 <= i < r.0@.len() ==> (#[trigger] r.0@[i]).current == new_infos@[i]
                        && r.0@[i].previous == prev@[i]
                },
                _ => r.0@.len() == 0,
            },
    {
        broadcast use vstd::std_specs::hash::group_hash_axioms;
        let mut samples: Vec<VCpuSample> = Vec::new();
        if self.previous_instant.is_some() {
            match self.prev_vcpu_infos.get(&domid) {
                Some(prev) => {
                    let n = if new_infos.len() < prev.len() { new_infos.len() } else { prev.len() };
                    let mut i: usize = 0;
                    while i < n
                        invariant
                            i <= n,
                            n <= new_infos@.len(),
                            n <= prev@.len(),
                            samples@.len() == i,
                            forall|j: int| 0 <= j < i ==> (#[trigger] samples@[j]).current == new_infos@[j]
                                && samples@[j].previous == prev@[j],
                        decreases n - i,
                    {
                        samples.push(VCpuSample { current: new_infos[i], previous: prev[i] });
                        i = i + 1;
                    }
                },
                None => {},
            }
        }
        self.prev_vcpu_infos.insert(domid, new_infos);
        (samples, self.previous_instant)
    }

    /// Forgets the previous read of domain `domid`, which is gone.
    pub fn clear_domain_metrics(&mut self, domid: u16)
        ensures
            final(self).prev_vcpu_infos@ == old(self).prev_vcpu_infos@.remove(domid),
            final(self).previous_instant == old(self).previous_instant,
            final(self).latest_instant == old(self).latest_instant,
    {
        broadcast use vstd::std_specs::hash::group_hash_axioms;
        self.prev_vcpu_infos.remove(&domid);
    }
}

} // verus!

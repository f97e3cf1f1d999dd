//! The data sources of the protocol v2 Xen plugin: one per host figure,
//! per domain, per virtual CPU and per physical CPU, each refreshed from
//! what the hypervisor reports.
use vstd::prelude::*;
use vstd::string::*;
use std::time::Instant;
use crate::protocol::{DataSourceMetadata, DataSourceOwner, DataSourceType, DataSourceValue, F32_INFINITY, F32_NEG_INFINITY, F32_ONE, F32_ZERO, F64_ZERO};
use crate::text::{decimal, decimal_string, push_decimal};

verus! {

/// Size of a Xen page.
pub const XEN_PAGE_SIZE: u64 = 4096;

/// A metadata with the given description, units, type, value, bounds and
/// owner, shown by default.
pub open spec fn is_metadata(
    m: DataSourceMetadata,
    description: Seq<char>,
    units: Seq<char>,
    ds_type: DataSourceType,
    value: DataSourceValue,
    min: u32,
    max: u32,
    owner: DataSourceOwner,
) -> bool {
    &&& m.description@ == description
    &&& m.units@ == units
    &&& m.ds_type == ds_type
    &&& m.value == value
    &&& m.min == min
    &&& m.max == max
    &&& m.owner == owner
    &&& m.default
}

fn metadata(
    description: String,
    units: &str,
    ds_type: DataSourceType,
    value: DataSourceValue,
    min: u32,
    max: u32,
    owner: DataSourceOwner,
) -> (r: DataSourceMetadata)
    ensures
        is_metadata(r, description@, units@, ds_type, value, min, max, owner),
{
    DataSourceMetadata { description, units: String::from_str(units), ds_type, value, min, max, owner, default: true }
}

/// The memory of the host in KiB, from a number of pages: the page count
/// as an `i64`, times the page size, divided by 1024.
pub open spec fn pages_to_kib(pages: u64) -> i64 {
    (((pages as i64) * 4096) / 1024) as i64
}

/// A page count whose size in bytes, computed in `i64`, does not overflow.
pub open spec fn pages_fit(pages: u64) -> bool {
    i64::MIN <= (pages as i64) * 4096 <= i64::MAX
}

/// The host memory sources report KiB: a Xen page of 4096 bytes is 4 KiB,
/// so a page count whose size in bytes fits in an `i64` is four times as
/// many KiB.
pub proof fn law_pages_are_four_kib(pages: u64)
    requires
        pages * 4096 <= i64::MAX,
    ensures
        pages_to_kib(pages) == pages * 4,
{
    let p: int = pages as int;
    assert(p * 4096 == (p * 4) * 1024);
    vstd::arithmetic::div_mod::lemma_div_by_multiple(p * 4, 1024);
}

fn kib_of_pages(pages: u64) -> (r: i64)
    requires
        pages_fit(pages),
    ensures
        r == pages_to_kib(pages),
{
    (pages as i64) * 4096 / 1024
}

/// The total memory of the host.
#[derive(Default, Debug, Clone, Copy)]
pub struct MemoryTotal {
    pub memory_total: Option<i64>,
}

impl MemoryTotal {
    /// Refreshes from the host's total pages (0 when the host could not be
    /// read); the source always exists.
    pub fn update(&mut self, total_pages: Option<u64>) -> (r: bool)
        requires
            pages_fit(match total_pages { Some(t) => t, None => 0 }),
        ensures
            r,
            final(self).memory_total == Some(pages_to_kib(match total_pages { Some(t) => t, None => 0 })),
            total_pages matches Some(t) ==> (t * 4096 <= i64::MAX ==> final(self).memory_total == Some((t * 4) as i64)),
    {
        proof {
            if let Some(t) = total_pages {
                if t * 4096 <= i64::MAX {
                    law_pages_are_four_kib(t);
                }
            }
        }
        let pages = match total_pages {
            Some(t) => t,
            None => 0,
        };
        self.memory_total = Some(kib_of_pages(pages));
        true
    }

    /// The last value, or an undefined one before the first refresh.
    pub fn get_value(&self) -> (r: DataSourceValue)
        ensures
            r == match self.memory_total {
                Some(v) => DataSourceValue::Int64(v),
                None => DataSourceValue::Undefined,
            },
    {
        match self.memory_total {
            Some(count) => DataSourceValue::Int64(count),
            None => DataSourceValue::Undefined,
        }
    }

    /// `memory_total_kib`.
    pub fn get_name(&self) -> (r: &'static str)
        ensures
            r@ == "memory_total_kib"@,
    {
        "memory_total_kib"
    }

    /// The description of the source.
    pub fn generate_metadata(&self) -> (r: DataSourceMetadata)
        ensures
            is_metadata(r, "Total amount of memory in the host"@, "KiB"@, DataSourceType::Gauge,
                DataSourceValue::Int64(0), F32_ZERO, F32_INFINITY, DataSourceOwner::Host),
    {
        metadata(String::from_str("Total amount of memory in the host"), "KiB", DataSourceType::Gauge,
            DataSourceValue::Int64(0), F32_ZERO, F32_INFINITY, DataSourceOwner::Host)
    }
}

/// The free memory of the host.
#[derive(Default, Debug, Clone, Copy)]
pub struct MemoryFree {
    pub memory_free: Option<i64>,
}

impl MemoryFree {
    /// Refreshes from the host's free pages (0 when the host could not be
    /// read); the source always exists.
    pub fn update(&mut self, free_pages: Option<u64>) -> (r: bool)
        requires
            pages_fit(match free_pages { Some(t) => t, None => 0 }),
        ensures
            r,
            final(self).memory_free == Some(pages_to_kib(match free_pages { Some(t) => t, None => 0 })),
            free_pages matches Some(t) ==> (t * 4096 <= i64::MAX ==> final(self).memory_free == Some((t * 4) as i64)),
    {
        proof {
            if let Some(t) = free_pages {
                if t * 4096 <= i64::MAX {
                    law_pages_are_four_kib(t);
                }
            }
        }
        let pages = match free_pages {
            Some(t) => t,
            None => 0,
        };
        self.memory_free = Some(kib_of_pages(pages));
        true
    }

    /// The last value, or an undefined one before the first refresh.
    pub fn get_value(&self) -> (r: DataSourceValue)
        ensures
            r == match self.memory_free {
                Some(v) => DataSourceValue::Int64(v),
                None => DataSourceValue::Undefined,
            },
    {
        match self.memory_free {
            Some(value) => DataSourceValue::Int64(value),
            None => DataSourceValue::Undefined,
        }
    }

    /// `memory_free_kib`.
    pub fn get_name(&self) -> (r: &'static str)
        ensures
            r@ == "memory_free_kib"@,
    {
        "memory_free_kib"
    }

    /// The description of the source.
    pub fn generate_metadata(&self) -> (r: DataSourceMetadata)
        ensures
            is_metadata(r, "Total amount of free memory"@, "KiB"@, DataSourceType::Gauge,
                DataSourceValue::Int64(0), F32_ZERO, F32_INFINITY, DataSourceOwner::Host),
    {
        metadata(String::from_str("Total amount of free memory"), "KiB", DataSourceType::Gauge,
            DataSourceValue::Int64(0), F32_ZERO, F32_INFINITY, DataSourceOwner::Host)
    }
}

/// `dom<domid>_memory`.
pub open spec fn domain_memory_name(domid: u32) -> Seq<char> {
    "dom"@ + decimal_string(domid as nat) + "_memory"@
}

/// One domain of the host's list: its ID and its pages.
#[derive(Debug, Clone, Copy)]
pub struct DomainPagesEntry {
    pub domid: u32,
    pub nr_pages: u64,
}

/// `i` is the first entry of the list for domain `domid`.
pub open spec fn is_first_domain(l: Seq<DomainPagesEntry>, domid: u32, i: int) -> bool {
    &&& 0 <= i < l.len()
    &&& l[i].domid == domid
    &&& forall|j: int| 0 <= j < i ==> (#[trigger] l[j]).domid != domid
}

/// The memory allocated to one domain.
#[derive(Debug, Clone)]
pub struct DomainMemory {
    pub domid: u32,
    pub dom_uuid: u128,
    pub name: String,
    pub nr_pages: Option<u64>,
}

impl DomainMemory {
    /// The source of domain `domid`, whose UUID is `dom_uuid`.
    pub fn new(domid: u32, dom_uuid: u128) -> (r: Self)
        ensures
            r.domid == domid,
            r.dom_uuid == dom_uuid,
            r.name@ == domain_memory_name(domid),
            r.nr_pages is None,
    {
        let mut name = String::from_str("dom");
        push_decimal(&mut name, domid as u64);
        name.append("_memory");
        DomainMemory { domid, dom_uuid, name, nr_pages: None }
    }

    /// Refreshes from the list of the host's domains: the source exists
    /// while a domain with its ID is listed, and then takes the pages of
    /// the first such entry.
    pub fn update(&mut self, dominfos: &Vec<DomainPagesEntry>) -> (r: bool)
        ensures
            r == (exists|i: int| 0 <= i < dominfos@.len() && (#[trigger] dominfos@[i]).domid == old(self).domid),
            r ==> exists|i: int| is_first_domain(dominfos@, old(self).domid, i)
                && final(self).nr_pages == Some(dominfos@[i].nr_pages),
            !r ==> final(self).nr_pages == old(self).nr_pages,
            final(self).domid == old(self).domid,
            final(self).dom_uuid == old(self).dom_uuid,
            final(self).name == old(self).name,
    {
        let mut i: usize = 0;
        while i < dominfos.len()
            invariant
                i <= dominfos@.len(),
                *self == *old(self),
                forall|j: int| 0 <= j < i ==> (#[trigger] dominfos@[j]).domid != self.domid,
            decreases dominfos@.len() - i,
        {
            if dominfos[i].domid == self.domid {
                self.nr_pages = Some(dominfos[i].nr_pages);
                assert(is_first_domain(dominfos@, self.domid, i as int));
                assert(dominfos@[i as int].domid == old(self).domid);
                return true;
            }
            i = i + 1;
        }
        false
    }

    /// The domain's pages in bytes, as an `i64`, or an undefined value
    /// before the first refresh.
    pub fn get_value(&self) -> (r: DataSourceValue)
        requires
            self.nr_pages matches Some(p) ==> p * XEN_PAGE_SIZE <= u64::MAX,
        ensures
            r == match self.nr_pages {
                Some(p) => DataSourceValue::Int64((p * XEN_PAGE_SIZE) as i64),
                None => DataSourceValue::Undefined,
            },
    {
        match self.nr_pages {
            Some(p) => DataSourceValue::Int64((p * XEN_PAGE_SIZE) as i64),
            None => DataSourceValue::Undefined,
        }
    }

    /// The description of the source.
    pub fn generate_metadata(&self) -> (r: DataSourceMetadata)
        ensures
            is_metadata(r, "Memory currently allocated to VM"@, "bytes"@, DataSourceType::Gauge,
                DataSourceValue::Int64(0), F32_ZERO, F32_INFINITY, DataSourceOwner::VM(self.dom_uuid)),
    {
        metadata(String::from_str("Memory currently allocated to VM"), "bytes", DataSourceType::Gauge,
            DataSourceValue::Int64(0), F32_ZERO, F32_INFINITY, DataSourceOwner::VM(self.dom_uuid))
    }
}

/// What a usage source has read: nothing yet, one read, or two reads of a
/// time counter with the instants they were taken at.
#[derive(Debug, Clone, Copy)]
pub enum UsageReading {
    Undefined,
    First,
    Pair { current: (u64, Instant), previous: (u64, Instant) },
}

/// The reading of a source that kept its last two reads.
pub open spec fn spec_usage_reading(current: Option<(u64, Instant)>, previous: Option<(u64, Instant)>) -> UsageReading {
    match (current, previous) {
        (Some(c), Some(p)) => UsageReading::Pair { current: c, previous: p },
        (Some(_), None) => UsageReading::First,
        (None, _) => UsageReading::Undefined,
    }
}

/// The value of a reading that needs no arithmetic: 0.0 after one read,
/// undefined before any; a pair of reads is left to the caller.
pub fn plain_usage_value(r: UsageReading) -> (v: Option<DataSourceValue>)
    ensures
        v == match r {
            UsageReading::Undefined => Some(DataSourceValue::Undefined),
            UsageReading::First => Some(DataSourceValue::Float(F64_ZERO)),
            UsageReading::Pair { .. } => None::<DataSourceValue>,
        },
{
    match r {
        UsageReading::Undefined => Some(DataSourceValue::Undefined),
        UsageReading::First => Some(DataSourceValue::Float(F64_ZERO)),
        UsageReading::Pair { .. } => None,
    }
}

/// `dom<domid>_vcpu<vcpuid>`.
pub open spec fn vcpu_time_name(domid: u32, vcpuid: u32) -> Seq<char> {
    "dom"@ + decimal_string(domid as nat) + "_vcpu"@ + decimal_string(vcpuid as nat)
}

/// The usage of one virtual CPU of one domain.
#[derive(Debug)]
pub struct VCpuTime {
    pub vcpuid: u32,
    pub domid: u32,
    pub dom_uuid: u128,
    pub current_vcpu: Option<(u64, Instant)>,
    pub previous_vcpu: Option<(u64, Instant)>,
    pub name: String,
}

impl VCpuTime {
    /// The source of virtual CPU `vcpuid` of domain `domid`.
    pub fn new(vcpuid: u32, domid: u32, dom_uuid: u128) -> (r: Self)
        ensures
            r.vcpuid == vcpuid,
            r.domid == domid,
            r.dom_uuid == dom_uuid,
            r.current_vcpu is None,
            r.previous_vcpu is None,
            r.name@ == vcpu_time_name(domid, vcpuid),
    {
        let mut name = String::from_str("dom");
        push_decimal(&mut name, domid as u64);
        name.append("_vcpu");
        push_decimal(&mut name, vcpuid as u64);
        VCpuTime { vcpuid, domid, dom_uuid, current_vcpu: None, previous_vcpu: None, name }
    }

    /// Refreshes from a read of the virtual CPU (`None` when it failed):
    /// the last read becomes the previous one. The source exists while the
    /// read succeeds.
    pub fn update(&mut self, cpu_time: Option<u64>, now: Instant) -> (r: bool)
        ensures
            r == cpu_time is Some,
            match cpu_time {
                Some(t) => final(self).previous_vcpu == old(self).current_vcpu
                    && final(self).current_vcpu == Some((t, now)),
                None => final(self).previous_vcpu == old(self).previous_vcpu
                    && final(self).current_vcpu == old(self).current_vcpu,
            },
            final(self).vcpuid == old(self).vcpuid,
            final(self).domid == old(self).domid,
            final(self).dom_uuid == old(self).dom_uuid,
            final(self).name == old(self).name,
    {
        match cpu_time {
            Some(t) => {
                self.previous_vcpu = self.current_vcpu;
                self.current_vcpu = Some((t, now));
                true
            },
            None => false,
        }
    }

    /// What the source has read.
    pub fn reading(&self) -> (r: UsageReading)
        ensures
            r == spec_usage_reading(self.current_vcpu, self.previous_vcpu),
    {
        match (self.current_vcpu, self.previous_vcpu) {
            (Some(c), Some(p)) => UsageReading::Pair { current: c, previous: p },
            (Some(_), None) => UsageReading::First,
            (None, _) => UsageReading::Undefined,
        }
    }

    /// The description of the source: a fraction of the CPU, owned by the
    /// domain.
    pub fn generate_metadata(&self) -> (r: DataSourceMetadata)
        ensures
            is_metadata(r, "vCPU"@ + decimal_string(self.vcpuid as nat) + " usage"@, ""@, DataSourceType::Gauge,
                DataSourceValue::Float(F64_ZERO), F32_ZERO, F32_ONE, DataSourceOwner::VM(self.dom_uuid)),
    {
        let mut description = String::from_str("vCPU");
        push_decimal(&mut description, self.vcpuid as u64);
        description.append(" usage");
        metadata(description, "", DataSourceType::Gauge, DataSourceValue::Float(F64_ZERO), F32_ZERO, F32_ONE,
            DataSourceOwner::VM(self.dom_uuid))
    }
}

/// `cpu<index>`.
pub open spec fn pcpu_time_name(index: usize) -> Seq<char> {
    "cpu"@ + decimal_string(index as nat)
}

/// The usage of one physical CPU.
#[derive(Debug)]
pub struct PCpuTime {
    pub cpu_index: usize,
    pub current_info: Option<(u64, Instant)>,
    pub previous_info: Option<(u64, Instant)>,
}

impl PCpuTime {
    /// The source of physical CPU `cpu_index`.
    pub fn new(cpu_index: usize) -> (r: Self)
        ensures
            r.cpu_index == cpu_index,
            r.current_info is None,
            r.previous_info is None,
    {
        PCpuTime { cpu_index, current_info: None, previous_info: None }
    }

    /// Refreshes from the idle times of the CPUs: the last read becomes the
    /// previous one. The source exists while the list reaches its CPU.
    pub fn update(&mut self, idle_times: &Vec<u64>, now: Instant) -> (r: bool)
        ensures
            r == (old(self).cpu_index < idle_times@.len()),
            r ==> final(self).previous_info == old(self).current_info
                && final(self).current_info == Some((idle_times@[old(self).cpu_index as int], now)),
            !r ==> final(self).previous_info == old(self).previous_info
                && final(self).current_info == old(self).current_info,
            final(self).cpu_index == old(self).cpu_index,
    {
        if self.cpu_index < idle_times.len() {
            self.previous_info = self.current_info;
            self.current_info = Some((idle_times[self.cpu_index], now));
            true
        } else {
            false
        }
    }

    /// What the source has read.
    pub fn reading(&self) -> (r: UsageReading)
        ensures
            r == spec_usage_reading(self.current_info, self.previous_info),
    {
        match (self.current_info, self.previous_info) {
            (Some(c), Some(p)) => UsageReading::Pair { current: c, previous: p },
            (Some(_), None) => UsageReading::First,
            (None, _) => UsageReading::Undefined,
        }
    }

    /// `cpu<index>`.
    pub fn get_name(&self) -> (r: String)
        ensures
            r@ == pcpu_time_name(self.cpu_index),
    {
        let mut name = String::from_str("cpu");
        push_decimal(&mut name, self.cpu_index as u64);
        name
    }

    /// The description of the source: a fraction of the CPU, owned by the
    /// host.
    pub fn generate_metadata(&self) -> (r: DataSourceMetadata)
        ensures
            is_metadata(r, "Physical cpu usage for cpu "@ + decimal_string(self.cpu_index as nat), ""@,
                DataSourceType::Gauge, DataSourceValue::Float(F64_ZERO), F32_ZERO, F32_ONE, DataSourceOwner::Host),
    {
        let mut description = String::from_str("Physical cpu usage for cpu ");
        push_decimal(&mut description, self.cpu_index as u64);
        metadata(description, "", DataSourceType::Gauge, DataSourceValue::Float(F64_ZERO), F32_ZERO, F32_ONE,
            DataSourceOwner::Host)
    }
}

/// The load average of dom0, held by its `f64` bits.
#[derive(Default, Debug, Clone, Copy)]
pub struct LoadAvg(pub u64);

impl LoadAvg {
    /// The last value read.
    pub fn get_value(&self) -> (r: DataSourceValue)
        ensures
            r == DataSourceValue::Float(self.0),
    {
        DataSourceValue::Float(self.0)
    }

    /// `loadavg`.
    pub fn get_name(&self) -> (r: &'static str)
        ensures
            r@ == "loadavg"@,
    {
        "loadavg"
    }

    /// The description of the source: unbounded, owned by the host.
    pub fn generate_metadata(&self) -> (r: DataSourceMetadata)
        ensures
            is_metadata(r, "Domain0 loadavg"@, ""@, DataSourceType::Gauge, DataSourceValue::Float(F64_ZERO),
                F32_NEG_INFINITY, F32_INFINITY, DataSourceOwner::Host),
    {
        metadata(String::from_str("Domain0 loadavg"), "", DataSourceType::Gauge, DataSourceValue::Float(F64_ZERO),
            F32_NEG_INFINITY, F32_INFINITY, DataSourceOwner::Host)
    }
}

/// A data source of the plugin.
#[derive(Debug)]
pub enum XenMetric {
    LoadAvg(LoadAvg),
    DomainMemory(DomainMemory),
    VCpuTime(VCpuTime),
    PCpuTime(PCpuTime),
    MemoryTotal(MemoryTotal),
    MemoryFree(MemoryFree),
}

/// What a data source is about.
#[derive(Debug, Clone, Copy, PartialEq, Eq, Structural)]
pub enum SourceId {
    LoadAvg,
    DomainMemory { domid: u32, dom_uuid: u128 },
    VCpu { domid: u32, vcpuid: u32, dom_uuid: u128 },
    PCpu { cpu_index: usize },
    MemoryTotal,
    MemoryFree,
}

impl XenMetric {
    /// What the source is about.
    pub open spec fn source_id(self) -> SourceId {
        match self {
            XenMetric::LoadAvg(_) => SourceId::LoadAvg,
            XenMetric::DomainMemory(m) => SourceId::DomainMemory { domid: m.domid, dom_uuid: m.dom_uuid },
            XenMetric::VCpuTime(v) => SourceId::VCpu { domid: v.domid, vcpuid: v.vcpuid, dom_uuid: v.dom_uuid },
            XenMetric::PCpuTime(p) => SourceId::PCpu { cpu_index: p.cpu_index },
            XenMetric::MemoryTotal(_) => SourceId::MemoryTotal,
            XenMetric::MemoryFree(_) => SourceId::MemoryFree,
        }
    }

    /// A source that has read nothing yet.
    pub open spec fn is_fresh(self) -> bool {
        match self {
            XenMetric::LoadAvg(l) => l.0 == 0,
            XenMetric::DomainMemory(m) => m.nr_pages is None && m.name@ == domain_memory_name(m.domid),
            XenMetric::VCpuTime(v) => v.current_vcpu is None && v.previous_vcpu is None
                && v.name@ == vcpu_time_name(v.domid, v.vcpuid),
            XenMetric::PCpuTime(p) => p.current_info is None && p.previous_info is None,
            XenMetric::MemoryTotal(m) => m.memory_total is None,
            XenMetric::MemoryFree(m) => m.memory_free is None,
        }
    }
}

/// What the plugin knows of a domain when it discovers its sources.
#[derive(Debug, Clone, Copy)]
pub struct DomainSummary {
    pub domid: u32,
    pub handle: u128,
    pub max_vcpu_id: u32,
}

/// How many domains the sources were discovered for.
#[derive(Debug, Clone, Copy)]
pub struct XenMetricsStatus {
    pub dom_count: u32,
}

/// The sources of one domain: its memory, then each of its virtual CPUs.
pub open spec fn domain_sources(d: DomainSummary) -> Seq<SourceId> {
    seq![SourceId::DomainMemory { domid: d.domid, dom_uuid: d.handle }] + Seq::new(
        (d.max_vcpu_id + 1) as nat,
        |v: int| SourceId::VCpu { domid: d.domid, vcpuid: v as u32, dom_uuid: d.handle },
    )
}

/// The sources of the domains, domain by domain.
pub open spec fn all_domain_sources(doms: Seq<DomainSummary>) -> Seq<SourceId>
    decreases doms.len(),
{
    if doms.len() == 0 {
        Seq::empty()
    } else {
        all_domain_sources(doms.drop_last()) + domain_sources(doms.last())
    }
}

/// The sources of a host: the load average, the domains' sources, one per
/// physical CPU, then the total and free memory.
pub open spec fn expected_sources(doms: Seq<DomainSummary>, cpu_count: nat) -> Seq<SourceId> {
    seq![SourceId::LoadAvg] + all_domain_sources(doms) + Seq::new(cpu_count, |i: int| SourceId::PCpu { cpu_index: i as usize })
        + seq![SourceId::MemoryTotal, SourceId::MemoryFree]
}

/// The source ids of a list of sources.
pub open spec fn source_ids(m: Seq<XenMetric>) -> Seq<SourceId> {
    m.map_values(|x: XenMetric| x.source_id())
}

fn push_source(metrics: &mut Vec<XenMetric>, m: XenMetric)
    requires
        m.is_fresh(),
        forall|i: int| 0 <= i < old(metrics)@.len() ==> (#[trigger] old(metrics)@[i]).is_fresh(),
    ensures
        source_ids(final(metrics)@) == source_ids(old(metrics)@).push(m.source_id()),
        forall|i: int| 0 <= i < final(metrics)@.len() ==> (#[trigger] final(metrics)@[i]).is_fresh(),
{
    let ghost old_m = metrics@;
    metrics.push(m);
    assert(source_ids(metrics@) =~= source_ids(old_m).push(m.source_id()));
}

/// The sources of the host, fresh, for the given domains and number of
/// physical CPUs, with the number of domains (as a `u32`).
pub fn discover_xen_metrics(dominfos: &Vec<DomainSummary>, cpu_count: usize) -> (r: (Vec<XenMetric>, XenMetricsStatus))
    requires
        forall|i: int| 0 <= i < dominfos@.len() ==> (#[trigger] dominfos@[i]).max_vcpu_id < u32::MAX,
    ensures
        source_ids(r.0@) == expected_sources(dominfos@, cpu_count as nat),
        forall|i: int| 0 <= i < r.0@.len() ==> (#[trigger] r.0@[i]).is_fresh(),
        r.1.dom_count == dominfos@.len() as u32,
{
    let mut metrics: Vec<XenMetric> = Vec::new();
    assert(source_ids(metrics@) =~= Seq::<SourceId>::empty());
    push_source(&mut metrics, XenMetric::LoadAvg(LoadAvg(0)));
    let ghost head = source_ids(metrics@);
    let mut d: usize = 0;
    while d < dominfos.len()
        invariant
            d <= dominfos@.len(),
            forall|i: int| 0 <= i < dominfos@.len() ==> (#[trigger] dominfos@[i]).max_vcpu_id < u32::MAX,
            head == seq![SourceId::LoadAvg],
            source_ids(metrics@) == head + all_domain_sources(dominfos@.subrange(0, d as int)),
            forall|i: int| 0 <= i < metrics@.len() ==> (#[trigger] metrics@[i]).is_fresh(),
        decreases dominfos@.len() - d,
    {
        let info = dominfos[d];
        let ghost before = source_ids(metrics@);
        push_source(&mut metrics, XenMetric::DomainMemory(DomainMemory::new(info.domid, info.handle)));
        let ghost vcpus = Seq::new((info.max_vcpu_id + 1) as nat, |v: int| SourceId::VCpu { domid: info.domid, vcpuid: v as u32, dom_uuid: info.handle });
        let mut v: u32 = 0;
        loop
            invariant_except_break
                source_ids(metrics@) == before + seq![SourceId::DomainMemory { domid: info.domid, dom_uuid: info.handle }] + vcpus.subrange(0, v as int),
            invariant
                v <= info.max_vcpu_id,
                info.max_vcpu_id < u32::MAX,
                vcpus == Seq::new((info.max_vcpu_id + 1) as nat, |v: int| SourceId::VCpu { domid: info.domid, vcpuid: v as u32, dom_uuid: info.handle }),
                forall|i: int| 0 <= i < metrics@.len() ==> (#[trigger] metrics@[i]).is_fresh(),
            ensures
                source_ids(metrics@) == before + seq![SourceId::DomainMemory { domid: info.domid, dom_uuid: info.handle }] + vcpus,
                forall|i: int| 0 <= i < metrics@.len() ==> (#[trigger] metrics@[i]).is_fresh(),
            decreases info.max_vcpu_id - v,
        {
            push_source(&mut metrics, XenMetric::VCpuTime(VCpuTime::new(v, info.domid, info.handle)));
            assert(vcpus.subrange(0, v + 1) =~= vcpus.subrange(0, v as int).push(vcpus[v as int]));
            if v == info.max_vcpu_id {
                assert(vcpus.subrange(0, v + 1) =~= vcpus);
                break;
            }
            v = v + 1;
        }
        assert(dominfos@.subrange(0, d + 1).drop_last() =~= dominfos@.subrange(0, d as int));
        assert(source_ids(metrics@) =~= head + all_domain_sources(dominfos@.subrange(0, d + 1)));
        d = d + 1;
    }
    assert(dominfos@.subrange(0, dominfos@.len() as int) =~= dominfos@);
    let ghost mid = source_ids(metrics@);
    let ghost cpus = Seq::new(cpu_count as nat, |i: int| SourceId::PCpu { cpu_index: i as usize });
    let mut c: usize = 0;
    while c < cpu_count
        invariant
            c <= cpu_count,
            cpus == Seq::new(cpu_count as nat, |i: int| SourceId::PCpu { cpu_index: i as usize }),
            source_ids(metrics@) == mid + cpus.subrange(0, c as int),
            forall|i: int| 0 <= i < metrics@.len() ==> (#[trigger] metrics@[i]).is_fresh(),
        decreases cpu_count - c,
    {
        push_source(&mut metrics, XenMetric::PCpuTime(PCpuTime::new(c)));
        assert(cpus.subrange(0, c + 1) =~= cpus.subrange(0, c as int).push(cpus[c as int]));
        c = c + 1;
    }
    assert(cpus.subrange(0, cpu_count as int) =~= cpus);
    push_source(&mut metrics, XenMetric::MemoryTotal(MemoryTotal { memory_total: None }));
    push_source(&mut metrics, XenMetric::MemoryFree(MemoryFree { memory_free: None }));
    assert(source_ids(metrics@) =~= expected_sources(dominfos@, cpu_count as nat));
    (metrics, XenMetricsStatus { dom_count: dominfos.len() as u32 })
}

/// The walk over the domains of the host that refreshes the shared
/// information: domains 0, 1, 2, ... are asked for in turn, and the walk
/// stops at the first ask that fails or finds no domain.
pub struct DomainScan {
    /// The domain to ask for next.
    pub next_domid: u32,
    /// The domains found so far, in order.
    pub dominfos: Vec<DomainSummary>,
    /// Whether the walk is over.
    pub finished: bool,
}

impl DomainScan {
    /// A walk that starts at domain 0.
    pub fn new() -> (r: Self)
        ensures
            r.next_domid == 0,
            r.dominfos@.len() == 0,
            !r.finished,
    {
        DomainScan { next_domid: 0, dominfos: Vec::new(), finished: false }
    }

    /// The domain to ask for, or `None` once the walk is over.
    pub fn request(&self) -> (r: Option<u32>)
        ensures
            r == (if self.finished { None } else { Some(self.next_domid) }),
    {
        if self.finished {
            None
        } else {
            Some(self.next_domid)
        }
    }

    /// Takes the answer to the last ask: a domain is kept and the walk goes
    /// on with the next ID (it ends after the largest ID); no domain ends
    /// the walk.
    pub fn record(&mut self, answer: Option<DomainSummary>)
        requires
            !old(self).finished,
        ensures
            match answer {
                Some(d) => {
                    &&& final(self).dominfos@ == old(self).dominfos@.push(d)
                    &&& final(self).finished == (old(self).next_domid == u32::MAX)
                    &&& !final(self).finished ==> final(self).next_domid == old(self).next_domid + 1
                },
                None => {
                    &&& final(self).dominfos@ == old(self).dominfos@
                    &&& final(self).finished
                },
            },
    {
        match answer {
            Some(d) => {
                self.dominfos.push(d);
                if self.next_domid == u32::MAX {
                    self.finished = true;
                } else {
                    self.next_domid = self.next_domid + 1;
                }
            },
            None => {
                self.finished = true;
            },
        }
    }
}

/// How many CPU records to ask for: one per CPU the host reports, none when
/// the host could not be read.
pub fn cpuinfo_buffer_len(nr_cpus: Option<u32>) -> (r: usize)
    ensures
        r == match nr_cpus {
            Some(n) => n as usize,
            None => 0,
        },
{
    match nr_cpus {
        Some(n) => n as usize,
        None => 0,
    }
}

} // verus!

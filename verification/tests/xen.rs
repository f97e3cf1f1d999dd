use std::time::Instant;

use xcp_metrics_plugins::metrics::{Label, Metric, MetricType, MetricValue, NumberValue};
use xcp_metrics_plugins::protocol::DataSourceValue;
use xcp_metrics_plugins::xen::domctl::{XenArchDomainconfig, XenDomctlGetDomainInfo, XenDomctlGetVCpuInfo};
use xcp_metrics_plugins::xen::sysctl::{domain_list_request, fetched_domains, DomainIterator, XenSysctlCpuinfo};
use xcp_metrics_plugins::xen::{Align64, DomId};
use xcp_metrics_plugins::xen_metrics::{
    loadavg_family, pcpu_usage_family, vcpu_time_labels, vcpu_usage_family, CpuAvgFrequency, CpuCState, CpuPState, DomainMemory as FamilyDomainMemory,
    DomainPages, MemoryFree, MemoryTotal,
};
use xcp_metrics_plugins::xen_plugin::{
    pcpu_usage_metric, vcpu_cpu_time, vcpu_usage_metric, DomainMemory, PCpuFreq, PCpuUsage, PluginMetricKind, PluginState, VCpuUsage,
};
use xcp_metrics_plugins::xen_v2::{
    DomainMemory as SourceDomainMemory, DomainPagesEntry,
    cpuinfo_buffer_len, discover_xen_metrics, plain_usage_value, DomainScan, DomainSummary, PCpuTime, UsageReading, XenMetric,
};
use xcp_metrics_plugins::xenstored::{
    child_path, classify_path, memory_usage_family, node_plan, parse_path, Handlers, MemInfoFree, MemInfoTotal,
    MetricHandler, MetricHandlerEnum, NodePlan, PluginState as XsPluginState, WatchedPath,
};

fn dominfo(domid: u16, tot_pages: u64) -> XenDomctlGetDomainInfo {
    XenDomctlGetDomainInfo {
        domain: DomId(domid),
        flags: 0,
        tot_pages: Align64(tot_pages),
        max_pages: Align64(0),
        outstanding_pages: Align64(0),
        shr_pages: Align64(0),
        paged_pages: Align64(0),
        shared_info_frame: Align64(0),
        cpu_time: Align64(0),
        nr_online_vcpus: 1,
        max_vcpu_id: 0,
        ssidref: 0,
        handle: domid as u128,
        cpupool: 0,
        gpaddr_bits: 0,
        arch_config: XenArchDomainconfig::default(),
    }
}

#[test]
fn domain_iterator_walks_batches() {
    let mut it = DomainIterator::new();
    assert_eq!(it.fetch_request(), Some(DomId(0)));
    let first = it.next(Some(vec![dominfo(0, 1), dominfo(5, 1), dominfo(3, 1)]));
    assert_eq!(first.map(|d| d.domain), Some(DomId(3)));
    assert_eq!(it.current_domid, DomId(6));
    assert_eq!(it.fetch_request(), None);
    assert_eq!(it.next(None).map(|d| d.domain), Some(DomId(5)));
    assert_eq!(it.next(None).map(|d| d.domain), Some(DomId(0)));
    assert_eq!(it.fetch_request(), Some(DomId(6)));
    assert_eq!(it.next(Some(vec![])).map(|d| d.domain), None);
    assert_eq!(it.current_domid, DomId(6));
    let mut failed = DomainIterator::new();
    assert!(failed.next(None).is_none());
    assert_eq!(failed.fetch_request(), Some(DomId(0)));
}

#[test]
fn xenstore_paths() {
    assert_eq!(parse_path("/local/domain/3/data/meminfo_free"), Some((3, "data/meminfo_free")));
    assert_eq!(parse_path("/local/domain/12"), Some((12, "")));
    assert_eq!(parse_path("/local/domain/x/data"), None);
    assert_eq!(parse_path("/vm/3"), None);
    assert!(matches!(classify_path("/local/domain"), WatchedPath::Ignored));
    assert!(matches!(classify_path("/local/domain/1/device/vif/0"), WatchedPath::Ignored));
    assert!(matches!(classify_path("/local/domain/1/console/tty"), WatchedPath::Ignored));
    assert!(matches!(classify_path("/tool/x"), WatchedPath::Unexpected));
    assert!(matches!(
        classify_path("/local/domain/1/data/meminfo_total"),
        WatchedPath::Node { domid: 1, subpath: "data/meminfo_total" }
    ));
    assert_eq!(child_path("/local/domain/1", "data"), "/local/domain/1/data");
}

#[test]
fn memory_handlers() {
    let handlers = Handlers::new();
    assert_eq!(handlers.get("data/meminfo_total"), Some(MetricHandlerEnum::MemInfoTotal(MemInfoTotal)));
    assert_eq!(handlers.get("data/meminfo_free"), Some(MetricHandlerEnum::MemInfoFree(MemInfoFree)));
    assert_eq!(handlers.get("data"), None);
    let total = MetricHandlerEnum::MemInfoTotal(MemInfoTotal);
    assert_eq!(total.family_name(), "xen_memory_usage_total");
    assert_eq!(total.subpath(), "data/meminfo_total");
    let m = total.read_metric("data/meminfo_total", Some("2048".to_string())).unwrap();
    assert!(m.labels.is_empty());
    assert!(matches!(m.value, MetricValue::Gauge(NumberValue::Int64(2097152))));
    assert!(total.read_metric("data/meminfo_free", Some("1".to_string())).is_none());
    assert!(total.read_metric("data/meminfo_total", None).is_none());
    assert!(total.read_metric("data/meminfo_total", Some("lots".to_string())).is_none());
    let m = total.read_metric("data/meminfo_total", Some("-3".to_string())).unwrap();
    assert!(matches!(m.value, MetricValue::Gauge(NumberValue::Int64(-3072))));
    let f = memory_usage_family();
    assert_eq!(f.name, "memory_usage");
    assert_eq!(f.unit, "bytes");
    assert_eq!(f.metric_type, MetricType::Gauge);
}

#[test]
fn node_plans() {
    let handlers = Handlers::new();
    assert_eq!(node_plan(&handlers, "", false), NodePlan::RemoveDomain);
    assert_eq!(node_plan(&handlers, "", true), NodePlan::Ignore);
    assert_eq!(
        node_plan(&handlers, "data/meminfo_free", true),
        NodePlan::ReadMetric(MetricHandlerEnum::MemInfoFree(MemInfoFree))
    );
    assert_eq!(node_plan(&handlers, "data/meminfo_free", false), NodePlan::RemoveNode);
}

#[test]
fn xenstore_plugin_uuids() {
    let handlers = Handlers::new();
    let mut state = XsPluginState::new();
    let metric = Metric { labels: vec![], value: MetricValue::Gauge(NumberValue::Int64(1)) };
    let free = MetricHandlerEnum::MemInfoFree(MemInfoFree);
    let total = MetricHandlerEnum::MemInfoTotal(MemInfoTotal);
    let first = state.on_metric(4, "data/meminfo_free", &free, metric.clone());
    assert_eq!(first.family_name, "xen_memory_usage_free");
    assert_eq!(first.metric.labels.len(), 1);
    assert_eq!(first.metric.labels[0].name, "domid");
    assert_eq!(first.metric.labels[0].value, "4");
    let again = state.on_metric(4, "data/meminfo_free", &free, metric.clone());
    assert_eq!(again.uuid, first.uuid);
    let other = state.on_metric(4, "data/meminfo_total", &total, metric.clone());
    assert_eq!(other.family_name, "xen_memory_usage_total");
    let removed = state.on_node_removed(4, "data/meminfo_free", &handlers).unwrap();
    assert_eq!(removed.uuid, first.uuid);
    assert_eq!(removed.family_name, "xen_memory_usage_free");
    assert!(state.on_node_removed(4, "data/meminfo_free", &handlers).is_none());
    let gone = state.on_domain_vanished(4);
    assert_eq!(gone.len(), 1);
    assert_eq!(gone[0].uuid, other.uuid);
    assert_eq!(gone[0].family_name, "data/meminfo_total");
    assert!(state.on_domain_vanished(4).is_empty());
}

#[test]
fn xen_plugin_metrics_keep_uuids() {
    let mut state = PluginState::new();
    let kind = || PluginMetricKind { family_name: "xen_domain_memory", submetric: None };
    let metric = Metric { labels: vec![Label { name: "x".to_string(), value: "y".to_string() }], value: MetricValue::Gauge(NumberValue::Int64(5)) };
    let a = state.push_domain_metric(DomId(2), 0x11, kind(), metric.clone());
    assert_eq!(a.family_name, "xen_domain_memory");
    assert_eq!(a.metric.labels.len(), 2);
    assert_eq!(a.metric.labels[1].name, "domain");
    assert_eq!(a.metric.labels[1].value, "00000000-0000-0000-0000-000000000011");
    let b = state.push_domain_metric(DomId(2), 0x11, kind(), metric.clone());
    assert_eq!(a.uuid, b.uuid);
    let h1 = state.push_host_metric(PluginMetricKind { family_name: "xen_cpu_freq", submetric: Some("0".to_string()) }, metric.clone());
    let c = state.push_domain_metric(DomId(7), 0x22, kind(), metric.clone());
    let cleanup = state.remove_orphans(&vec![7]);
    assert_eq!(cleanup.domains, vec![2]);
    assert_eq!(cleanup.removals.len(), 1);
    assert_eq!(cleanup.removals[0].uuid, a.uuid);
    assert_eq!(cleanup.removals[0].family_name, "xen_domain_memory");
    let c2 = state.push_domain_metric(DomId(7), 0x22, kind(), metric.clone());
    assert_eq!(c.uuid, c2.uuid);
    let h2 = state.push_host_metric(PluginMetricKind { family_name: "xen_cpu_freq", submetric: Some("0".to_string()) }, metric);
    assert_eq!(h1.uuid, h2.uuid);
}

#[test]
fn xen_plugin_readings() {
    let mut mem = DomainMemory;
    let r = mem.read_domain_metrics(&dominfo(1, 3));
    assert_eq!(r.len(), 1);
    assert!(matches!(r[0].1.value, MetricValue::Gauge(NumberValue::Int64(12288))));
    assert_eq!(mem.make_family().name, "xen_domain_memory");
    let mut freq = PCpuFreq;
    let r = freq.read_host_metrics(&vec![(0, 2_000_000_000), (3, 1_500_000_000)]);
    assert_eq!(r.len(), 2);
    assert_eq!(r[1].0.submetric.as_deref(), Some("3"));
    assert_eq!(r[1].1.labels[0].name, "cpu_id");
    assert_eq!(r[1].1.labels[0].value, "3");
    assert!(matches!(r[1].1.value, MetricValue::Gauge(NumberValue::Int64(1_500_000_000))));
    assert_eq!(freq.make_family().unit, "hz");

    let mut usage = PCpuUsage::new();
    assert_eq!(PCpuUsage::buffer_len(7), 8);
    let t0 = Instant::now();
    let (samples, _) = usage.record(vec![XenSysctlCpuinfo { idletime: Align64(10) }; 2], t0);
    assert!(samples.is_empty());
    let t1 = Instant::now();
    let (samples, prev) = usage.record(vec![XenSysctlCpuinfo { idletime: Align64(15) }; 3], t1);
    assert_eq!(prev, t0);
    assert_eq!(samples.len(), 2);
    assert_eq!(samples[1].cpu_id, 1);
    assert_eq!(samples[1].previous.idletime.0, 10);
    assert_eq!(samples[1].current.idletime.0, 15);

    let mut vcpus = VCpuUsage::new();
    vcpus.read_host_metrics(Instant::now());
    let info = |t: u64| XenDomctlGetVCpuInfo { cpu_time: Align64(t), ..Default::default() };
    let (samples, _) = vcpus.read_domain_metrics(3, vec![info(1)]);
    assert!(samples.is_empty());
    vcpus.read_host_metrics(Instant::now());
    let (samples, prev) = vcpus.read_domain_metrics(3, vec![info(4), info(9)]);
    assert!(prev.is_some());
    assert_eq!(samples.len(), 1);
    assert_eq!(samples[0].previous.cpu_time.0, 1);
    assert_eq!(samples[0].current.cpu_time.0, 4);
    vcpus.clear_domain_metrics(3);
    let (samples, _) = vcpus.read_domain_metrics(3, vec![info(10)]);
    assert!(samples.is_empty());
}

fn int_value(m: &MetricValue) -> Option<i64> {
    match m {
        MetricValue::Gauge(NumberValue::Int64(v)) => Some(*v),
        _ => None,
    }
}

#[test]
fn xen_families() {
    assert!(MemoryTotal.get_family(None).is_none());
    let (name, family) = MemoryTotal.get_family(Some(1000)).unwrap();
    assert_eq!(name, "memory_total");
    assert_eq!(family.unit, "KiB");
    assert_eq!(int_value(&family.metrics[0].value), Some(4000));
    let (name, family) = MemoryFree.get_family(Some(3)).unwrap();
    assert_eq!(name, "memory_free");
    assert_eq!(int_value(&family.metrics[0].value), Some(12));

    let (name, family) = CpuAvgFrequency.get_family(&vec![1200, 3400]).unwrap();
    assert_eq!(name, "cpu-freq");
    assert_eq!(family.metrics.len(), 2);
    assert_eq!(family.metrics[1].labels[0].name, "id");
    assert_eq!(family.metrics[1].labels[0].value, "1");
    assert_eq!(int_value(&family.metrics[1].value), Some(3400));

    let res = vec![vec![5, 6], vec![], vec![7]];
    let (name, family) = CpuPState.get_family(&res).unwrap();
    assert_eq!(name, "cpu-pstate");
    assert_eq!(family.metrics.len(), 3);
    assert_eq!(family.metrics[2].labels[0].value, "2");
    assert_eq!(family.metrics[2].labels[1].name, "state");
    assert_eq!(family.metrics[2].labels[1].value, "0");
    assert_eq!(int_value(&family.metrics[1].value), Some(6));
    let (name, _) = CpuCState.get_family(&res).unwrap();
    assert_eq!(name, "cpu-cstate");

    let (name, family) = FamilyDomainMemory
        .get_family(&vec![DomainPages { nr_pages: 2, handle: 0xabc }])
        .unwrap();
    assert_eq!(name, "memory");
    assert_eq!(family.metrics.len(), 1);
    assert_eq!(family.metrics[0].labels[0].name, "owner");
    assert_eq!(family.metrics[0].labels[0].value, "vm 00000000-0000-0000-0000-000000000abc");
    assert_eq!(int_value(&family.metrics[0].value), Some(8192));
}

#[test]
fn v2_sources() {
    let doms = vec![
        DomainSummary { domid: 0, handle: 1, max_vcpu_id: 1 },
        DomainSummary { domid: 4, handle: 2, max_vcpu_id: 0 },
    ];
    let (metrics, status) = discover_xen_metrics(&doms, 2);
    assert_eq!(status.dom_count, 2);
    assert_eq!(metrics.len(), 1 + 3 + 2 + 2 + 2);
    assert!(matches!(metrics[0], XenMetric::LoadAvg(_)));
    match &metrics[1] {
        XenMetric::DomainMemory(m) => assert_eq!(m.name, "dom0_memory"),
        _ => panic!("expected the memory of domain 0"),
    }
    match &metrics[3] {
        XenMetric::VCpuTime(v) => assert_eq!(v.name, "dom0_vcpu1"),
        _ => panic!("expected a virtual CPU"),
    }
    assert!(matches!(metrics[6], XenMetric::PCpuTime(_)));
    assert!(matches!(metrics[8], XenMetric::MemoryTotal(_)));
    assert!(matches!(metrics[9], XenMetric::MemoryFree(_)));
    assert_eq!(plain_usage_value(UsageReading::Undefined), Some(DataSourceValue::Undefined));
    assert_eq!(plain_usage_value(UsageReading::First), Some(DataSourceValue::Float(0)));
    let mut p = PCpuTime::new(1);
    assert_eq!(p.get_name(), "cpu1");
    assert!(!p.update(&vec![5], Instant::now()));
    assert!(p.update(&vec![5, 6], Instant::now()));
    assert!(matches!(p.reading(), UsageReading::First));
    assert!(p.update(&vec![5, 8], Instant::now()));
    assert!(matches!(p.reading(), UsageReading::Pair { .. }));
}

#[test]
fn usage_metrics() {
    let (kind, metric) = pcpu_usage_metric(12, 0.25f64.to_bits());
    assert_eq!(kind.family_name, "xen_cpu_time");
    assert_eq!(kind.submetric.as_deref(), Some("12"));
    assert_eq!(metric.labels[0].name, "cpu_id");
    assert_eq!(metric.labels[0].value, "12");
    assert!(matches!(metric.value, MetricValue::Gauge(NumberValue::Double(b)) if b == 0.25f64.to_bits()));
    let (kind, metric) = vcpu_usage_metric(3, 1.5f64.to_bits());
    assert_eq!(kind.family_name, "xen_vcpu_time");
    assert_eq!(kind.submetric.as_deref(), Some("3"));
    assert_eq!(metric.labels[0].name, "vcpu_id");
    assert_eq!(metric.labels[0].value, "3");
    let info = XenDomctlGetVCpuInfo { cpu_time: Align64((1u64 << 63) | 42), ..Default::default() };
    assert_eq!(vcpu_cpu_time(&info), 42);
    let info = XenDomctlGetVCpuInfo { cpu_time: Align64(7), ..Default::default() };
    assert_eq!(vcpu_cpu_time(&info), 7);
}

#[test]
fn domain_scan_stops_at_first_gap() {
    let mut scan = DomainScan::new();
    assert_eq!(scan.request(), Some(0));
    scan.record(Some(DomainSummary { domid: 0, handle: 1, max_vcpu_id: 0 }));
    assert_eq!(scan.request(), Some(1));
    scan.record(Some(DomainSummary { domid: 1, handle: 2, max_vcpu_id: 3 }));
    scan.record(None);
    assert_eq!(scan.request(), None);
    assert_eq!(scan.dominfos.len(), 2);
    assert_eq!(scan.dominfos[1].max_vcpu_id, 3);
    assert_eq!(cpuinfo_buffer_len(Some(8)), 8);
    assert_eq!(cpuinfo_buffer_len(None), 0);
}

#[test]
fn vanished_domain_listed_once() {
    let mut state = PluginState::new();
    let metric = Metric { labels: vec![], value: MetricValue::Gauge(NumberValue::Int64(1)) };
    state.push_domain_metric(DomId(3), 1, PluginMetricKind { family_name: "xen_domain_memory", submetric: None }, metric.clone());
    state.push_domain_metric(DomId(3), 1, PluginMetricKind { family_name: "xen_vcpu_time", submetric: Some("0".to_string()) }, metric.clone());
    state.push_domain_metric(DomId(4), 2, PluginMetricKind { family_name: "xen_domain_memory", submetric: None }, metric);
    let cleanup = state.remove_orphans(&vec![]);
    let mut domains = cleanup.domains.clone();
    domains.sort();
    assert_eq!(domains, vec![3, 4]);
    assert_eq!(cleanup.removals.len(), 3);
    assert!(state.remove_orphans(&vec![]).removals.is_empty());
}

#[test]
fn usage_families() {
    let metric = xcp_metrics_plugins::metrics::SimpleMetric {
        labels: vec![],
        value: MetricValue::Gauge(NumberValue::Double(0.5f64.to_bits())),
    };
    let (name, family) = vcpu_usage_family(vec![metric.clone()]);
    assert_eq!(name, "vcpu");
    assert_eq!(family.unit, "usage");
    assert_eq!(family.help, "vCPU usages");
    assert_eq!(family.metrics.len(), 1);
    let (name, family) = pcpu_usage_family(vec![metric.clone(), metric]);
    assert_eq!(name, "cpu");
    assert_eq!(family.help, "Physical cpu usage");
    assert_eq!(family.metrics.len(), 2);
    let (name, family) = loadavg_family(0.75f64.to_bits());
    assert_eq!(name, "loadavg");
    assert_eq!(family.help, "Domain0 loadavg");
    assert!(matches!(family.metrics[0].value, MetricValue::Gauge(NumberValue::Double(b)) if b == 0.75f64.to_bits()));
}

#[test]
fn domain_memory_source_by_domain_id() {
    let mut source = SourceDomainMemory::new(7, 0x1);
    assert_eq!(source.name, "dom7_memory");
    assert_eq!(source.get_value(), DataSourceValue::Undefined);
    let listed = vec![
        DomainPagesEntry { domid: 0, nr_pages: 10 },
        DomainPagesEntry { domid: 7, nr_pages: 3 },
        DomainPagesEntry { domid: 7, nr_pages: 9 },
    ];
    assert!(source.update(&listed));
    assert_eq!(source.nr_pages, Some(3));
    assert_eq!(source.get_value(), DataSourceValue::Int64(3 * 4096));
    assert!(!source.update(&vec![DomainPagesEntry { domid: 1, nr_pages: 5 }]));
    assert_eq!(source.nr_pages, Some(3));
}

#[test]
fn walk_hands_out_every_domain_once() {
    let host: Vec<u16> = (0..40).map(|i| i * 3).collect();
    let listed_from = |first: DomId| -> Vec<XenDomctlGetDomainInfo> {
        host.iter().filter(|id| **id >= first.0).take(32).map(|id| dominfo(*id, 1)).collect()
    };
    let mut it = DomainIterator::new();
    let mut seen = vec![];
    loop {
        let fetched = it.fetch_request().map(listed_from);
        match it.next(fetched) {
            Some(d) => seen.push(d.domain.0),
            None => break,
        }
    }
    assert_eq!(seen.len(), host.len());
    assert_eq!(seen[0], 31 * 3);
    assert_eq!(seen[31], 0);
    assert_eq!(seen[32], 39 * 3);
    let mut sorted = seen.clone();
    sorted.sort();
    assert_eq!(sorted, host);
}

#[test]
fn domain_list_request_asks_one_batch() {
    let request = domain_list_request(DomId(7));
    assert_eq!(request.first_domain, DomId(7));
    assert_eq!(request.max_domains, 32);
}

#[test]
fn fetched_domains_keep_the_reported_count() {
    let buffer: Vec<XenDomctlGetDomainInfo> = (0..32).map(|d| dominfo(d, 0)).collect();
    let kept = fetched_domains(buffer.clone(), 3);
    assert_eq!(kept.len(), 3);
    assert_eq!(kept.iter().map(|d| d.domain.0).collect::<Vec<_>>(), vec![0, 1, 2]);
    assert!(fetched_domains(buffer.clone(), 0).is_empty());
    assert_eq!(fetched_domains(buffer.clone(), 40).len(), 32);
}

#[test]
fn vcpu_time_labels_name_the_vcpu_and_its_domain() {
    let labels = vcpu_time_labels(12, 0x0123_4567_89ab_cdef_0011_2233_4455_6677);
    assert_eq!(labels.len(), 2);
    assert_eq!(labels[0].name, "id");
    assert_eq!(labels[0].value, "12");
    assert_eq!(labels[1].name, "owner");
    assert_eq!(labels[1].value, "vm 01234567-89ab-cdef-0011-223344556677");
}

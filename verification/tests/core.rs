use xcp_metrics_plugins::bridge::{get_data, get_first_metric_point, labels_eq, metric_keys, metric_point_to_v2, number_to_v2};
use xcp_metrics_plugins::ids::{new_uuid, uuid_hyphenated};
use xcp_metrics_plugins::metrics::{
    clone_value, Label, MetricSet, MetricType, MetricValue, NumberValue, SimpleMetric, SimpleMetricFamily, SimpleMetricSet,
};
use xcp_metrics_plugins::procfs::{is_pid_name, pid_entries, process_metrics};
use xcp_metrics_plugins::protocol::{
    choose_protocol, file_name_is_rrdp, initial_header, metrics_path, to_be_bytes, update_header_value,
    value_to_raw, values_to_raw, DataSourceValue, MetricsPlugin, ProtocolChoice, RrddMessageHeader,
    RrddPluginLocation, ValueCountMismatch,
};
use xcp_metrics_plugins::text::{contains_char, decimal, is_whitespace, parse_i64, parse_u32, split_once, starts_with, str_eq, strip_prefix, trim};
use xcp_metrics_plugins::update_once::{Updatable, UpdateOnce};
use xcp_metrics_plugins::uuid_table::{MetricKey, UuidTable};
use xcp_metrics_plugins::xen::abi::{domctl_interface_version, get_xen_abi, sysctl_interface_version, xen_abi_of, XenAbi};
use xcp_metrics_plugins::xen::xencall::xencall_layout;

fn label(name: &str, value: &str) -> Label {
    Label { name: name.to_string(), value: value.to_string() }
}

#[test]
fn parse_u32_as_std() {
    for s in ["0", "42", "+7", "4294967295", "007"] {
        assert_eq!(parse_u32(s), s.parse::<u32>().ok(), "{s}");
    }
    for s in ["", "+", "-1", "4294967296", " 1", "1a", "++1"] {
        assert_eq!(parse_u32(s), None, "{s}");
    }
}

#[test]
fn parse_i64_as_std() {
    for s in ["0", "-0", "-42", "+42", "9223372036854775807", "-9223372036854775808"] {
        assert_eq!(parse_i64(s), s.parse::<i64>().ok(), "{s}");
    }
    for s in ["", "-", "9223372036854775808", "-9223372036854775809", "1 ", "0x10"] {
        assert_eq!(parse_i64(s), None, "{s}");
    }
}

#[test]
fn decimal_reads_back() {
    for n in [0u32, 9, 10, 99, 100, 65535, 4294967295] {
        assert_eq!(decimal(n as u64), n.to_string());
        assert_eq!(parse_u32(&decimal(n as u64)), Some(n));
    }
}

#[test]
fn trim_as_std() {
    for s in ["  4\n", "\t19 ", "", "   ", "a b", "\u{3000}x\u{2028}"] {
        assert_eq!(trim(s), s.trim(), "{s:?}");
    }
    assert!(is_whitespace('\u{85}'));
    assert!(!is_whitespace('x'));
}

#[test]
fn string_helpers() {
    assert!(str_eq("abc", "abc"));
    assert!(!str_eq("abc", "abd"));
    assert!(starts_with("device/vif", "device"));
    assert!(!starts_with("dev", "device"));
    assert_eq!(strip_prefix("/local/domain/3", "/local/domain/"), Some("3"));
    assert_eq!(strip_prefix("/local", "/local/domain/"), None);
    assert_eq!(split_once("3/data/meminfo_free", '/'), Some(("3", "data/meminfo_free")));
    assert_eq!(split_once("3", '/'), None);
    assert!(contains_char("a/b", '/'));
    assert!(!contains_char("ab", '/'));
}

#[test]
fn xen_abi_from_version_files() {
    assert_eq!(get_xen_abi("4\n", "19\n"), XenAbi::Xen419);
    assert_eq!(get_xen_abi(" 4", "17 "), XenAbi::Xen417);
    assert_eq!(xen_abi_of("4\n", "19\n"), Some(XenAbi::Xen419));
    assert_eq!(xen_abi_of("4", "18"), None);
    assert_eq!(xen_abi_of("5", "19"), None);
    assert_eq!(domctl_interface_version(XenAbi::Xen417), 0x15);
    assert_eq!(domctl_interface_version(XenAbi::Xen419), 0x17);
    assert_eq!(sysctl_interface_version(XenAbi::Xen417), 0x15);
    assert_eq!(sysctl_interface_version(XenAbi::Xen419), 0x15);
}

#[test]
fn big_endian_values() {
    assert_eq!(to_be_bytes(0x0102030405060708), [1, 2, 3, 4, 5, 6, 7, 8]);
    assert_eq!(value_to_raw(DataSourceValue::Int64(-1)), [0xff; 8]);
    assert_eq!(value_to_raw(DataSourceValue::Float(1.5f64.to_bits())), 1.5f64.to_be_bytes());
    assert_eq!(value_to_raw(DataSourceValue::Undefined), [0; 8]);
    let raw = values_to_raw(&[DataSourceValue::Int64(258), DataSourceValue::Undefined]);
    assert_eq!(raw, vec![258i64.to_be_bytes(), [0; 8]]);
}

#[test]
fn header_values_update() {
    let mut header = initial_header(2, None);
    assert_eq!(header.values, vec![[0u8; 8], [0u8; 8]]);
    assert_eq!(update_header_value(&mut header, &[DataSourceValue::Int64(5), DataSourceValue::Int64(6)]), Ok(()));
    assert_eq!(header.values, vec![5i64.to_be_bytes(), 6i64.to_be_bytes()]);
    assert_eq!(update_header_value(&mut header, &[DataSourceValue::Int64(1)]), Err(ValueCountMismatch));
    assert_eq!(header.values, vec![5i64.to_be_bytes(), 6i64.to_be_bytes()]);
    let header = initial_header(5, Some(&[DataSourceValue::Int64(9)]));
    assert_eq!(header.values, vec![9i64.to_be_bytes()]);
    let empty = RrddMessageHeader { values: vec![] };
    assert!(empty.values.is_empty());
}

#[test]
fn plugin_locations() {
    assert_eq!(metrics_path("xcp-metrics-plugin-xen"), "/dev/shm/metrics/xcp-metrics-plugin-xen");
    assert_eq!(metrics_path("/tmp/plugin"), "/tmp/plugin");
    let loc = RrddPluginLocation::new("squeezed", None);
    assert_eq!(loc.uid, "squeezed");
    assert_eq!(loc.metrics_path, "/dev/shm/metrics/squeezed");
    assert_eq!(loc.target_daemon_path, "/var/lib/xcp/xcp-metrics");
    let plugin = MetricsPlugin::new("procfs", Some("other"));
    assert_eq!(plugin.metrics_path, "/dev/shm/metrics/procfs");
    assert_eq!(plugin.target_daemon, "other");
    assert_eq!(MetricsPlugin::new("procfs", None).target_daemon, "xcp-metrics");
}

#[test]
fn protocol_choice() {
    assert_eq!(
        choose_protocol(None, None, true),
        ProtocolChoice::V2 { target: Some("/var/lib/xcp/xcp-rrdd".to_string()) }
    );
    assert_eq!(choose_protocol(None, None, false), ProtocolChoice::V3 { target: None });
    assert_eq!(choose_protocol(Some("d"), None, true), ProtocolChoice::V3 { target: Some("d".to_string()) });
    assert_eq!(choose_protocol(None, Some(2), true), ProtocolChoice::V2 { target: None });
    assert_eq!(choose_protocol(None, Some(4), false), ProtocolChoice::Unknown(4));
    assert!(file_name_is_rrdp("rrdp-squeezed"));
    assert!(!file_name_is_rrdp("xcp-metrics-plugin-squeezed"));
}

#[test]
fn uuid_text() {
    let v = 0x67e5_5044_10b1_426f_9247_bb68_0e5f_e0c8u128;
    assert_eq!(uuid_hyphenated(v), "67e55044-10b1-426f-9247-bb680e5fe0c8");
    let fresh = new_uuid();
    assert_eq!((fresh >> 76) & 0xf, 4);
    assert_eq!((fresh >> 62) & 0x3, 2);
}

fn key(scope: u32, name: &str, sub: Option<&str>) -> MetricKey {
    MetricKey { scope, name: name.to_string(), sub: sub.map(|s| s.to_string()) }
}

#[test]
fn uuid_table_keeps_and_forgets() {
    let mut table = UuidTable::new();
    let a = table.get_or_insert(key(1, "memory", None));
    let b = table.get_or_insert(key(1, "cpu", Some("0")));
    let c = table.get_or_insert(key(2, "memory", None));
    assert_eq!(table.get_or_insert(key(1, "memory", None)), a);
    assert_eq!(table.get_or_insert(key(1, "cpu", Some("0"))), b);
    assert_eq!(table.remove(&key(2, "memory", None)), Some(c));
    assert_eq!(table.remove(&key(2, "memory", None)), None);
    let renewed = table.get_or_insert(key(2, "memory", None));
    assert_ne!(renewed, c);
    assert_eq!(table.remove(&key(2, "memory", None)), Some(renewed));
    let removed = table.remove_scope(1);
    assert_eq!(removed.len(), 2);
    assert!(table.slots.is_empty());
    let d = table.get_or_insert(key(5, "x", None));
    let e = table.get_or_insert(key(6, "x", None));
    let gone = table.remove_scopes_except(&vec![6]);
    assert_eq!(gone.len(), 1);
    assert_eq!(gone[0].uuid, d);
    assert_eq!(table.get_or_insert(key(6, "x", None)), e);
}

fn gauge(v: i64, labels: Vec<Label>) -> SimpleMetric {
    SimpleMetric { labels, value: MetricValue::Gauge(NumberValue::Int64(v)) }
}

fn sample_set() -> SimpleMetricSet {
    SimpleMetricSet {
        families: vec![
            (
                "cpu".to_string(),
                SimpleMetricFamily {
                    metric_type: MetricType::Gauge,
                    unit: String::new(),
                    help: String::new(),
                    metrics: vec![gauge(1, vec![label("cpu", "0")]), gauge(2, vec![label("cpu", "1")]), gauge(3, vec![label("cpu", "1")])],
                },
            ),
            (
                "total".to_string(),
                SimpleMetricFamily {
                    metric_type: MetricType::Counter,
                    unit: String::new(),
                    help: String::new(),
                    metrics: vec![SimpleMetric { labels: vec![], value: MetricValue::Counter { total: NumberValue::Double(2.5f64.to_bits()) } }],
                },
            ),
            (
                "cpu".to_string(),
                SimpleMetricFamily {
                    metric_type: MetricType::Gauge,
                    unit: String::new(),
                    help: String::new(),
                    metrics: vec![gauge(9, vec![label("cpu", "2")])],
                },
            ),
        ],
    }
}

#[test]
fn bridge_values() {
    assert_eq!(number_to_v2(NumberValue::Int64(3)), DataSourceValue::Int64(3));
    assert_eq!(number_to_v2(NumberValue::Undefined), DataSourceValue::Undefined);
    assert_eq!(metric_point_to_v2(&MetricValue::Info(vec![])), DataSourceValue::Undefined);
    assert_eq!(metric_point_to_v2(&MetricValue::Unknown(NumberValue::Int64(1))), DataSourceValue::Undefined);
    let set = sample_set();
    assert!(matches!(
        get_first_metric_point(&set, "cpu", &vec![label("cpu", "1")]),
        Some(MetricValue::Gauge(NumberValue::Int64(2)))
    ));
    assert!(get_first_metric_point(&set, "cpu", &vec![label("cpu", "2")]).is_none());
    assert!(get_first_metric_point(&set, "memory", &vec![]).is_none());
    let map = vec![
        ("cpu".to_string(), vec![label("cpu", "1")]),
        ("cpu".to_string(), vec![label("cpu", "7")]),
        ("total".to_string(), vec![]),
        ("cpu".to_string(), vec![label("cpu", "0")]),
    ];
    assert_eq!(
        get_data(&set, &map),
        vec![DataSourceValue::Int64(2), DataSourceValue::Float(2.5f64.to_bits()), DataSourceValue::Int64(1)]
    );
    assert!(labels_eq(&vec![label("a", "b")], &vec![label("a", "b")]));
    assert!(!labels_eq(&vec![label("a", "b")], &vec![label("a", "c")]));
    assert!(!labels_eq(&vec![label("a", "b")], &vec![]));
}

#[test]
fn metric_set_for_the_daemon() {
    let set = MetricSet::from_simple(&sample_set());
    assert_eq!(set.families.len(), 3);
    assert_eq!(set.families[1].0, "total");
    let family = &set.families[0].1;
    assert_eq!(family.metric_type, MetricType::Gauge);
    assert_eq!(family.metrics.len(), 3);
    assert_eq!(family.metrics[2].1.labels[0].value, "1");
    assert!(matches!(family.metrics[2].1.value, MetricValue::Gauge(NumberValue::Int64(3))));
    for (uuid, _) in &family.metrics {
        assert_eq!((uuid >> 76) & 0xf, 4);
    }
    assert_ne!(family.metrics[0].0, family.metrics[1].0);
    match clone_value(&MetricValue::Info(vec![label("a", "b")])) {
        MetricValue::Info(labels) => {
            assert_eq!(labels[0].name, "a");
            assert_eq!(labels[0].value, "b");
        }
        _ => panic!("not an info value"),
    }
}

#[test]
fn bridge_candidates() {
    let keys = metric_keys(&sample_set());
    let names: Vec<&str> = keys.iter().map(|(n, _)| n.as_str()).collect();
    assert_eq!(names, vec!["cpu", "cpu", "cpu", "total", "cpu"]);
    assert_eq!(keys[1].1.len(), 1);
    assert_eq!(keys[1].1[0].value, "1");
    assert!(keys[3].1.is_empty());
    assert_eq!(keys[4].1[0].value, "2");
    assert!(metric_keys(&SimpleMetricSet { families: vec![] }).is_empty());
}

#[test]
fn procfs_entries() {
    assert!(is_pid_name("1234"));
    assert!(!is_pid_name("self"));
    assert!(!is_pid_name("12a"));
    let names: Vec<String> = ["1", "self", "42", "sys", "7"].iter().map(|s| s.to_string()).collect();
    assert_eq!(pid_entries(&names), vec!["1".to_string(), "42".to_string(), "7".to_string()]);
    let set = process_metrics(&vec![("1".to_string(), "init".to_string()), ("42".to_string(), "sh".to_string())]);
    assert_eq!(set.families.len(), 1);
    let (name, family) = &set.families[0];
    assert_eq!(name, "process_path");
    assert_eq!(family.metric_type, MetricType::Info);
    assert_eq!(family.help, "Process informations");
    assert_eq!(family.metrics.len(), 2);
    assert_eq!(family.metrics[1].labels[0].name, "pid");
    assert_eq!(family.metrics[1].labels[0].value, "42");
    match &family.metrics[1].value {
        MetricValue::Info(info) => {
            assert_eq!(info[0].name, "cmdline");
            assert_eq!(info[0].value, "sh");
        }
        _ => panic!("not an info metric"),
    }
}

struct Counter {
    updates: u32,
}

impl Updatable for Counter {
    fn update(&mut self) {
        self.updates += 1;
    }
}

#[test]
fn update_once_per_token() {
    let mut value = UpdateOnce::new(Counter { updates: 0 });
    value.update(1);
    value.update(1);
    assert_eq!(value.borrow().updates, 1);
    value.update(2);
    assert_eq!(value.borrow().updates, 2);
    value.update(1);
    assert_eq!(value.borrow().updates, 3);
}

#[test]
fn hypercall_buffer_pages() {
    let l = xencall_layout(0, 8);
    assert_eq!((l.page_count, l.length), (0, 0));
    let l = xencall_layout(1, 8);
    assert_eq!((l.page_count, l.length), (1, 1));
    let l = xencall_layout(4096, 8);
    assert_eq!(l.page_count, 1);
    let l = xencall_layout(4097, 4096);
    assert_eq!(l.page_count, 2);
}

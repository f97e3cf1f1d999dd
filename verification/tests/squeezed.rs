use std::cell::RefCell;
use std::collections::BTreeMap;
use std::io::{Error, ErrorKind};

use xcp_metrics_plugins::metrics::{MetricValue, NumberValue};
use xcp_metrics_plugins::squeezed::{
    domain_memory_path, read_domains, squeezed_metrics, DomainMemoryReads, SqueezedError, SqueezedInfo,
    SqueezedOverflow, SqueezedPlugin,
};
use xcp_metrics_plugins::xenstore::{XsRead, XsWrite};

/// An in-memory XenStore: writing a node creates its missing parents with an
/// empty value.
#[derive(Default)]
struct MockXs {
    tree: RefCell<BTreeMap<String, String>>,
}

impl XsRead for MockXs {
    fn directory(&self, path: &str) -> Result<Vec<String>, Error> {
        let tree = self.tree.borrow();
        if !tree.contains_key(path) {
            return Err(Error::new(ErrorKind::NotFound, path.to_string()));
        }
        let prefix = format!("{}/", path.trim_end_matches('/'));
        Ok(tree
            .keys()
            .filter_map(|k| k.strip_prefix(prefix.as_str()))
            .filter(|rest| !rest.is_empty() && !rest.contains('/'))
            .map(|rest| rest.to_string())
            .collect())
    }

    fn read(&self, path: &str) -> Result<String, Error> {
        self.tree
            .borrow()
            .get(path)
            .cloned()
            .ok_or_else(|| Error::new(ErrorKind::NotFound, path.to_string()))
    }
}

impl XsWrite for MockXs {
    fn write(&self, path: &str, data: &str) -> Result<(), Error> {
        let mut tree = self.tree.borrow_mut();
        let mut end = 0;
        while let Some(pos) = path[end + 1..].find('/') {
            end = end + 1 + pos;
            tree.entry(path[..end].to_string()).or_default();
        }
        tree.insert(path.to_string(), data.to_string());
        Ok(())
    }

    fn rm(&self, path: &str) -> Result<(), Error> {
        let prefix = format!("{path}/");
        self.tree
            .borrow_mut()
            .retain(|k, _| k != path && !k.starts_with(prefix.as_str()));
        Ok(())
    }
}

#[test]
fn test_subdirectories() {
    let xs = MockXs::default();

    xs.write("/1/2/3/4/5", "hello world").unwrap();

    for path in ["/1", "/1/2", "/1/2/3", "/1/2/3/4", "/1/2/3/4/5"] {
        xs.read(path).expect(&format!("Missing {path}"));
    }
}

#[test]
fn no_vm() {
    // No virtual machine : all 0
    let xs = MockXs::default();

    xs.write("/local/domain", "").unwrap();

    assert_eq!(
        SqueezedInfo::get(&xs).unwrap(),
        SqueezedInfo {
            reclaimed: 0,
            reclaimed_max: 0
        }
    );
}

#[test]
fn single_vm() {
    let xs = MockXs::default();

    xs.write("/local/domain/0/memory/target", "123456").unwrap();
    xs.write("/local/domain/0/memory/dynamic-min", "0").unwrap();
    xs.write("/local/domain/0/memory/dynamic-max", "654321").unwrap();

    assert_eq!(
        SqueezedInfo::get(&xs).unwrap(),
        SqueezedInfo {
            reclaimed: 530865,
            reclaimed_max: 123456
        }
    );
}

#[test]
fn multiple_vm() {
    let xs = MockXs::default();

    xs.write("/local/domain/0/memory/target", "123456").unwrap();
    xs.write("/local/domain/0/memory/dynamic-min", "0").unwrap();
    xs.write("/local/domain/0/memory/dynamic-max", "654321").unwrap();

    // Consider missing domain 1.

    xs.write("/local/domain/2/memory/target", "111111").unwrap();
    xs.write("/local/domain/2/memory/dynamic-min", "0").unwrap();
    xs.write("/local/domain/2/memory/dynamic-max", "999999").unwrap();

    assert_eq!(
        SqueezedInfo::get(&xs).unwrap(),
        SqueezedInfo {
            reclaimed: 530865 + 888888,
            reclaimed_max: 123456 + 111111
        }
    );
}

#[test]
fn missing_domain_list_is_an_error() {
    let xs = MockXs::default();
    assert!(matches!(SqueezedInfo::get(&xs), Err(SqueezedError::Xs(_))));
}

#[test]
fn unparsable_domain_is_skipped() {
    let xs = MockXs::default();
    xs.write("/local/domain/0/memory/target", "12a").unwrap();
    xs.write("/local/domain/0/memory/dynamic-min", "0").unwrap();
    xs.write("/local/domain/0/memory/dynamic-max", "100").unwrap();
    xs.write("/local/domain/3/memory/target", "+10").unwrap();
    xs.write("/local/domain/3/memory/dynamic-min", "4").unwrap();
    xs.write("/local/domain/3/memory/dynamic-max", "30").unwrap();
    assert_eq!(
        SqueezedInfo::get(&xs).unwrap(),
        SqueezedInfo {
            reclaimed: 20,
            reclaimed_max: 6
        }
    );
}

#[test]
fn overflowing_sum_is_an_error() {
    let xs = MockXs::default();
    xs.write("/local/domain/0/memory/target", "0").unwrap();
    xs.write("/local/domain/0/memory/dynamic-min", "0").unwrap();
    xs.write("/local/domain/0/memory/dynamic-max", "4294967295").unwrap();
    xs.write("/local/domain/1/memory/target", "0").unwrap();
    xs.write("/local/domain/1/memory/dynamic-min", "0").unwrap();
    xs.write("/local/domain/1/memory/dynamic-max", "1").unwrap();
    assert!(matches!(SqueezedInfo::get(&xs), Err(SqueezedError::Overflow)));
}

#[test]
fn target_above_dynamic_max_is_an_error() {
    let reads = vec![DomainMemoryReads {
        target: Some("10".to_string()),
        dynamic_min: Some("0".to_string()),
        dynamic_max: Some("5".to_string()),
    }];
    assert_eq!(SqueezedInfo::from_domain_reads(&reads), Err(SqueezedOverflow));
}

#[test]
fn failed_reads_are_skipped() {
    let reads = vec![
        DomainMemoryReads {
            target: None,
            dynamic_min: Some("0".to_string()),
            dynamic_max: Some("5".to_string()),
        },
        DomainMemoryReads {
            target: Some("7".to_string()),
            dynamic_min: Some("2".to_string()),
            dynamic_max: Some("9".to_string()),
        },
    ];
    assert_eq!(
        SqueezedInfo::from_domain_reads(&reads),
        Ok(SqueezedInfo {
            reclaimed: 2,
            reclaimed_max: 5
        })
    );
}

#[test]
fn memory_path_of_domain() {
    assert_eq!(
        domain_memory_path("12", "dynamic-min"),
        "/local/domain/12/memory/dynamic-min"
    );
}

fn gauge_int(value: &MetricValue) -> Option<i64> {
    match value {
        MetricValue::Gauge(NumberValue::Int64(v)) => Some(*v),
        _ => None,
    }
}

#[test]
fn export_families_in_bytes() {
    let xs = MockXs::default();
    xs.write("/local/domain", "").unwrap();
    xs.write("/local/domain/0", "").unwrap();
    xs.write("/local/domain/2/dynamic-max", "1048576").unwrap();
    xs.write("/local/domain/2/dynamic-min", "524288").unwrap();
    xs.write("/local/domain/2/target", "1048576").unwrap();
    xs.write("/local/domain/4/memory/target", "3").unwrap();
    xs.write("/local/domain/4/memory/dynamic-min", "1").unwrap();
    xs.write("/local/domain/4/memory/dynamic-max", "10").unwrap();

    let mut plugin = SqueezedPlugin { xs };
    plugin.update();
    let set = plugin.generate_metrics();
    assert_eq!(set.families.len(), 2);
    assert_eq!(set.families[0].0, "memory_reclaimed");
    assert_eq!(set.families[0].1.unit, "B");
    assert_eq!(gauge_int(&set.families[0].1.metrics[0].value), Some(7 * 1024));
    assert_eq!(set.families[1].0, "memory_reclaimed_max");
    assert_eq!(gauge_int(&set.families[1].1.metrics[0].value), Some(2 * 1024));
}

#[test]
fn no_family_without_information() {
    let set = squeezed_metrics(Err(SqueezedError::Overflow));
    assert!(set.families.is_empty());
    let set = squeezed_metrics(Ok(SqueezedInfo {
        reclaimed: 4294967295,
        reclaimed_max: 1,
    }));
    assert_eq!(gauge_int(&set.families[0].1.metrics[0].value), Some(4294967295 * 1024));
    assert_eq!(gauge_int(&set.families[1].1.metrics[0].value), Some(1024));
}

#[test]
fn failed_listing_reads_nothing() {
    let xs = MockXs::default();
    let listing = Err(Error::new(ErrorKind::NotFound, "/local/domain"));
    match SqueezedInfo::from_listing(&xs, listing) {
        Err(SqueezedError::Xs(e)) => assert_eq!(e.kind(), ErrorKind::NotFound),
        other => panic!("unexpected {other:?}"),
    }
}

#[test]
fn listed_domains_are_read_in_order() {
    let xs = MockXs::default();
    xs.write("/local/domain/5/memory/target", "10").unwrap();
    xs.write("/local/domain/5/memory/dynamic-min", "4").unwrap();
    xs.write("/local/domain/5/memory/dynamic-max", "30").unwrap();
    let reads = read_domains(&xs, &vec!["9".to_string(), "5".to_string()]);
    assert_eq!(reads.len(), 2);
    assert!(reads[0].target.is_none());
    assert_eq!(reads[1].target.as_deref(), Some("10"));
    assert_eq!(reads[1].dynamic_min.as_deref(), Some("4"));
    assert_eq!(reads[1].dynamic_max.as_deref(), Some("30"));
    assert_eq!(
        SqueezedInfo::from_listing(&xs, Ok(vec!["5".to_string()])).unwrap(),
        SqueezedInfo {
            reclaimed: 20,
            reclaimed_max: 6
        }
    );
}

#[test]
fn a_domain_listed_first_adds_its_share() {
    let reads = |first: Option<(&str, &str, &str)>| {
        let mut v = vec![];
        if let Some((t, lo, hi)) = first {
            v.push(DomainMemoryReads {
                target: Some(t.to_string()),
                dynamic_min: Some(lo.to_string()),
                dynamic_max: Some(hi.to_string()),
            });
        }
        v.push(DomainMemoryReads {
            target: Some("7".to_string()),
            dynamic_min: Some("2".to_string()),
            dynamic_max: Some("9".to_string()),
        });
        v
    };
    let without = SqueezedInfo::from_domain_reads(&reads(None)).unwrap();
    let with = SqueezedInfo::from_domain_reads(&reads(Some(("100", "40", "250")))).unwrap();
    assert_eq!(with.reclaimed, without.reclaimed + 150);
    assert_eq!(with.reclaimed_max, without.reclaimed_max + 60);
}

fn write_domain(xs: &MockXs, domid: &str, target: &str, min: &str, max: &str) {
    xs.write(&format!("/local/domain/{domid}/memory/target"), target).unwrap();
    xs.write(&format!("/local/domain/{domid}/memory/dynamic-min"), min).unwrap();
    xs.write(&format!("/local/domain/{domid}/memory/dynamic-max"), max).unwrap();
}

#[test]
fn one_more_domain_in_the_store_adds_its_share() {
    let xs = MockXs::default();
    write_domain(&xs, "1", "100", "50", "300");
    let before = SqueezedInfo::get(&xs).unwrap();
    assert_eq!(before, SqueezedInfo { reclaimed: 200, reclaimed_max: 50 });
    write_domain(&xs, "2", "40", "10", "45");
    let after = SqueezedInfo::get(&xs).unwrap();
    assert_eq!(after, SqueezedInfo { reclaimed: 205, reclaimed_max: 80 });
    write_domain(&xs, "3", "40", "ten", "45");
    assert_eq!(SqueezedInfo::get(&xs).unwrap(), after);
    xs.write("/local/domain/4/memory/target", "7").unwrap();
    assert_eq!(SqueezedInfo::get(&xs).unwrap(), after);
}

#[test]
fn squeezed_family_names_differ() {
    let set = squeezed_metrics(Ok(SqueezedInfo { reclaimed: 1, reclaimed_max: 2 }));
    assert_eq!(set.families.len(), 2);
    assert_ne!(set.families[0].0, set.families[1].0);
}

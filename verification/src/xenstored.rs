//! The XenStore plugin: which nodes under `/local/domain` carry metrics,
//! how their values become metrics, and which UUID each metric is reported
//! under as domains and nodes come and go.
use vstd::prelude::*;
use vstd::string::*;
use radix_trie::Trie;
use crate::metrics::{Label, Metric, MetricValue, NumberValue, RemoveMetric, UpdateMetric, CreateFamily, MetricType};
use crate::text::{decimal, decimal_string, is_digit, law_decimal_roundtrip, lemma_decimal_string, lemma_split_once_found, parse_i64, parse_u32, spec_parse_i64, spec_parse_u32, spec_split_once, split_once, starts_with, str_eq, strip_prefix};
use crate::uuid_table::{KeyView, MetricKey, UuidTable, lemma_slots_map_at, slots_map, unique_keys};
use crate::ids::is_v4_uuid;

verus! {

/// The parent of the domain nodes.
pub open spec fn domain_root() -> Seq<char> {
    "/local/domain/"@
}

/// The domain ID and the sub-path of a node `/local/domain/<domid>[/<subpath>]`.
pub open spec fn spec_parse_path(path: Seq<char>) -> Option<(u32, Seq<char>)> {
    let root = domain_root();
    if root.len() <= path.len() && path.subrange(0, root.len() as int) == root {
        let rest = path.subrange(root.len() as int, path.len() as int);
        let (domid, subpath) = match spec_split_once(rest, '/') {
            Some((d, s)) => (d, s),
            None => (rest, Seq::<char>::empty()),
        };
        match spec_parse_u32(domid) {
            Some(d) => Some((d, subpath)),
            None => None,
        }
    } else {
        None
    }
}

/// Splits the path into its domain ID and its sub-path.
pub fn parse_path(path: &str) -> (r: Option<(u32, &str)>)
    ensures
        match r {
            Some((d, s)) => spec_parse_path(path@) == Some((d, s@)),
            None => spec_parse_path(path@) is None,
        },
{
    proof {
        reveal_strlit("/local/domain/");
    }
    let rest = match strip_prefix(path, "/local/domain/") {
        Some(rest) => rest,
        None => {
            return None;
        },
    };
    proof {
        let root = domain_root();
        assert(path@.subrange(0, root.len() as int) =~= root);
        assert(path@.subrange(root.len() as int, path@.len() as int) =~= rest@);
    }
    let (domid_str, subpath) = match split_once(rest, '/') {
        Some((d, s)) => (d, s),
        None => {
            let empty = "";
            proof {
                reveal_strlit("");
                assert(empty@ =~= Seq::<char>::empty());
            }
            (rest, empty)
        },
    };
    match parse_u32(domid_str) {
        Some(domid) => Some((domid, subpath)),
        None => None,
    }
}

/// The node `subpath` of domain `domid`, at
/// `/local/domain/<domid>/<subpath>` with the domain ID in decimal, is read
/// back as that domain and that sub-path.
pub proof fn law_domain_node_path(domid: u32, subpath: Seq<char>)
    ensures
        spec_parse_path(domain_root() + decimal_string(domid as nat) + seq!['/'] + subpath) == Some((domid, subpath)),
{
    let root = domain_root();
    let d = decimal_string(domid as nat);
    let path = root + d + seq!['/'] + subpath;
    lemma_decimal_string(domid as nat);
    law_decimal_roundtrip(domid);
    assert(path.subrange(0, root.len() as int) =~= root);
    let rest = path.subrange(root.len() as int, path.len() as int);
    assert(rest =~= d + seq!['/'] + subpath);
    assert(!d.contains('/')) by {
        if d.contains('/') {
            let k = choose|k: int| 0 <= k < d.len() && d[k] == '/';
            assert(is_digit(d[k]));
        }
    }
    lemma_split_once_found(rest, '/', d, subpath);
}

/// A node whose sub-path names a PV interface: reading it can disturb the
/// interface, so it is left alone.
pub open spec fn is_interface_node(subpath: Seq<char>) -> bool {
    ||| "device"@.len() <= subpath.len() && subpath.subrange(0, "device"@.len() as int) == "device"@
    ||| "backend"@.len() <= subpath.len() && subpath.subrange(0, "backend"@.len() as int) == "backend"@
    ||| "console"@.len() <= subpath.len() && subpath.subrange(0, "console"@.len() as int) == "console"@
}

/// What a watched path stands for.
#[derive(Debug)]
pub enum WatchedPath<'a> {
    /// `/local/domain` itself, or an interface node: nothing to do.
    Ignored,
    /// A path that is not a domain node.
    Unexpected,
    /// The node `subpath` of domain `domid`.
    Node { domid: u32, subpath: &'a str },
}

/// Sorts a watched path.
pub fn classify_path(path: &str) -> (r: WatchedPath<'_>)
    ensures
        path@ == "/local/domain"@ ==> r is Ignored,
        path@ != "/local/domain"@ ==> match spec_parse_path(path@) {
            None => r is Unexpected,
            Some((d, s)) => if is_interface_node(s) {
                r is Ignored
            } else {
                r matches WatchedPath::Node { domid, subpath } && domid == d && subpath@ == s
            },
        },
{
    if str_eq(path, "/local/domain") {
        return WatchedPath::Ignored;
    }
    match parse_path(path) {
        None => WatchedPath::Unexpected,
        Some((domid, subpath)) => {
            if starts_with(subpath, "device") || starts_with(subpath, "backend") || starts_with(
                subpath,
                "console",
            ) {
                WatchedPath::Ignored
            } else {
                WatchedPath::Node { domid, subpath }
            }
        },
    }
}

/// The guest's total memory, published in KiB under `data/meminfo_total`.
#[derive(Default, Clone, Copy, Debug, PartialEq, Eq, Structural)]
pub struct MemInfoTotal;

/// The guest's free memory, published in KiB under `data/meminfo_free`.
#[derive(Default, Clone, Copy, Debug, PartialEq, Eq, Structural)]
pub struct MemInfoFree;

/// The handlers of metric nodes.
#[derive(Clone, Copy, Debug, PartialEq, Eq, Structural)]
pub enum MetricHandlerEnum {
    MemInfoTotal(MemInfoTotal),
    MemInfoFree(MemInfoFree),
}

/// A node value whose KiB amount, when it reads as an `i64`, has a byte
/// count that is an `i64` too: multiplying by 1024 does not overflow.
pub open spec fn kib_fits(value: Seq<char>) -> bool {
    match spec_parse_i64(value) {
        Some(v) => i64::MIN <= v * 1024 <= i64::MAX,
        None => true,
    }
}

/// The metric of a node that holds a KiB amount: a gauge of that amount in
/// bytes, when it reads as an `i64`.
pub open spec fn spec_kib_metric(value: Seq<char>) -> Option<i64> {
    match spec_parse_i64(value) {
        Some(v) => Some((v * 1024) as i64),
        None => None,
    }
}

/// A gauge metric without labels.
pub open spec fn is_plain_gauge(m: Metric, v: i64) -> bool {
    &&& m.labels@.len() == 0
    &&& m.value matches MetricValue::Gauge(NumberValue::Int64(x)) && x == v
}

fn kib_metric(value: &str) -> (r: Option<Metric>)
    requires
        kib_fits(value@),
    ensures
        match r {
            Some(m) => spec_kib_metric(value@) matches Some(v) && is_plain_gauge(m, v),
            None => spec_kib_metric(value@) is None,
        },
{
    let v = match parse_i64(value) {
        Some(v) => v,
        None => {
            return None;
        },
    };
    let bytes = v * 1024;
    Some(Metric { labels: Vec::new(), value: MetricValue::Gauge(NumberValue::Int64(bytes)) })
}

/// A handler of the metric nodes of one sub-path.
pub trait MetricHandler {
    /// The sub-path of the nodes the handler reads.
    fn subpath(&self) -> &'static str;

    /// The family of the metrics the handler produces.
    fn family_name(&self) -> &'static str;

    /// The metric of the node `subpath`, from what was read of it (`None`
    /// when the read failed). A value that is a KiB amount must have a byte
    /// count that fits in an `i64`.
    fn read_metric(&self, subpath: &str, value: Option<String>) -> (r: Option<Metric>)
        requires
            value matches Some(v) ==> kib_fits(v@),
    ;
}

/// The metric that a handler of sub-path `own` gives for node `subpath`
/// read as `value`: none for a node of another handler, a failed read or a
/// value that is not a number.
pub open spec fn spec_read_metric(own: Seq<char>, subpath: Seq<char>, value: Option<String>, r: Option<Metric>) -> bool {
    match r {
        Some(m) => {
            &&& subpath == own
            &&& value matches Some(v) && spec_kib_metric(v@) matches Some(b) && is_plain_gauge(m, b)
        },
        None => subpath != own || value is None || (value matches Some(v) && spec_kib_metric(v@) is None),
    }
}

fn read_kib_metric(own: &str, subpath: &str, value: Option<String>) -> (r: Option<Metric>)
    requires
        value matches Some(v) ==> kib_fits(v@),
    ensures
        spec_read_metric(own@, subpath@, value, r),
{
    if !str_eq(subpath, own) {
        return None;
    }
    match value {
        Some(v) => kib_metric(v.as_str()),
        None => None,
    }
}

impl MetricHandler for MemInfoTotal {
    fn subpath(&self) -> (r: &'static str)
        ensures
            r@ == "data/meminfo_total"@,
    {
        "data/meminfo_total"
    }

    fn family_name(&self) -> (r: &'static str)
        ensures
            r@ == "xen_memory_usage_total"@,
    {
        "xen_memory_usage_total"
    }

    fn read_metric(&self, subpath: &str, value: Option<String>) -> (r: Option<Metric>)
        ensures
            spec_read_metric("data/meminfo_total"@, subpath@, value, r),
    {
        read_kib_metric("data/meminfo_total", subpath, value)
    }
}

impl MetricHandler for MemInfoFree {
    fn subpath(&self) -> (r: &'static str)
        ensures
            r@ == "data/meminfo_free"@,
    {
        "data/meminfo_free"
    }

    fn family_name(&self) -> (r: &'static str)
        ensures
            r@ == "xen_memory_usage_free"@,
    {
        "xen_memory_usage_free"
    }

    fn read_metric(&self, subpath: &str, value: Option<String>) -> (r: Option<Metric>)
        ensures
            spec_read_metric("data/meminfo_free"@, subpath@, value, r),
    {
        read_kib_metric("data/meminfo_free", subpath, value)
    }
}

impl MetricHandlerEnum {
    /// The sub-path of the nodes the handler reads.
    pub open spec fn spec_subpath(self) -> Seq<char> {
        match self {
            MetricHandlerEnum::MemInfoTotal(_) => "data/meminfo_total"@,
            MetricHandlerEnum::MemInfoFree(_) => "data/meminfo_free"@,
        }
    }

    /// The family of the metrics the handler produces.
    pub open spec fn spec_family_name(self) -> Seq<char> {
        match self {
            MetricHandlerEnum::MemInfoTotal(_) => "xen_memory_usage_total"@,
            MetricHandlerEnum::MemInfoFree(_) => "xen_memory_usage_free"@,
        }
    }
}

impl MetricHandler for MetricHandlerEnum {
    fn subpath(&self) -> (r: &'static str)
        ensures
            r@ == self.spec_subpath(),
    {
        match self {
            MetricHandlerEnum::MemInfoTotal(h) => h.subpath(),
            MetricHandlerEnum::MemInfoFree(h) => h.subpath(),
        }
    }

    fn family_name(&self) -> (r: &'static str)
        ensures
            r@ == self.spec_family_name(),
    {
        match self {
            MetricHandlerEnum::MemInfoTotal(h) => h.family_name(),
            MetricHandlerEnum::MemInfoFree(h) => h.family_name(),
        }
    }

    fn read_metric(&self, subpath: &str, value: Option<String>) -> (r: Option<Metric>)
        ensures
            spec_read_metric(self.spec_subpath(), subpath@, value, r),
    {
        match self {
            MetricHandlerEnum::MemInfoTotal(h) => h.read_metric(subpath, value),
            MetricHandlerEnum::MemInfoFree(h) => h.read_metric(subpath, value),
        }
    }
}

/// The path of child `subpath` of node `path`.
pub fn child_path(path: &str, subpath: &str) -> (r: String)
    ensures
        r@ == path@ + seq!['/'] + subpath@,
{
    let mut p = String::from_str(path);
    p.append("/");
    proof {
        reveal_strlit("/");
    }
    p.append(subpath);
    assert(p@ =~= path@ + seq!['/'] + subpath@);
    p
}

/// The trie of handlers, `radix_trie::Trie<&str, MetricHandlerEnum>`.
#[verifier::external_type_specification]
#[verifier::external_body]
#[verifier::reject_recursive_types(K)]
#[verifier::reject_recursive_types(V)]
pub struct ExTrie<K, V>(Trie<K, V>);

/// The trie of handlers by sub-path.
pub type HandlerTrie = Trie<&'static str, MetricHandlerEnum>;

/// Handlers by sub-path.
pub type HandlerMap = Map<Seq<char>, MetricHandlerEnum>;

/// The handler that a trie holds for each key.
pub uninterp spec fn trie_handlers(t: HandlerTrie) -> Map<Seq<char>, MetricHandlerEnum>;

/// An empty trie (`Trie::new`).
#[verifier::external_body]
fn trie_new() -> (r: HandlerTrie)
    ensures
        trie_handlers(r) == HandlerMap::empty(),
{
    Trie::new()
}

/// Adds a handler under `key` (`Trie::insert`), replacing the one held
/// there; gives back the replaced one.
#[verifier::external_body]
fn trie_insert(t: &mut HandlerTrie, key: &'static str, h: MetricHandlerEnum) -> (r: Option<MetricHandlerEnum>)
    ensures
        trie_handlers(*final(t)) == trie_handlers(*old(t)).insert(key@, h),
        r == trie_handlers(*old(t)).get(key@),
{
    t.insert(key, h)
}

/// The handler held under `key` (`Trie::get`, an exact-key lookup).
#[verifier::external_body]
fn trie_get(t: &HandlerTrie, key: &str) -> (r: Option<MetricHandlerEnum>)
    ensures
        r == trie_handlers(*t).get(key@),
{
    t.get(key).copied()
}

/// The handlers by sub-path.
pub struct Handlers {
    pub trie: HandlerTrie,
}

impl Handlers {
    pub open spec fn view(&self) -> Map<Seq<char>, MetricHandlerEnum> {
        trie_handlers(self.trie)
    }

    /// The two memory handlers, each under its sub-path.
    pub fn new() -> (r: Self)
        ensures
            r.view() == Map::<Seq<char>, MetricHandlerEnum>::empty().insert(
                "data/meminfo_total"@,
                MetricHandlerEnum::MemInfoTotal(MemInfoTotal),
            ).insert("data/meminfo_free"@, MetricHandlerEnum::MemInfoFree(MemInfoFree)),
    {
        let mut trie = trie_new();
        let total = MetricHandlerEnum::MemInfoTotal(MemInfoTotal);
        trie_insert(&mut trie, total.subpath(), total);
        let free = MetricHandlerEnum::MemInfoFree(MemInfoFree);
        trie_insert(&mut trie, free.subpath(), free);
        Handlers { trie }
    }

    /// The handler of the nodes `subpath`.
    pub fn get(&self, subpath: &str) -> (r: Option<MetricHandlerEnum>)
        ensures
            r == self.view().get(subpath@),
    {
        trie_get(&self.trie, subpath)
    }
}

/// The one family that the plugin declares.
pub fn memory_usage_family() -> (r: CreateFamily)
    ensures
        r.name@ == "memory_usage"@,
        r.help@ == "Memory usage in the guest"@,
        r.metric_type == MetricType::Gauge,
        r.unit@ == "bytes"@,
{
    CreateFamily {
        help: String::from_str("Memory usage in the guest"),
        name: String::from_str("memory_usage"),
        metric_type: MetricType::Gauge,
        unit: String::from_str("bytes"),
    }
}

/// What to do with a node once it has been read.
#[derive(Debug, Clone, Copy, PartialEq, Eq, Structural)]
pub enum NodePlan {
    /// The domain node is gone: remove all the metrics of the domain.
    RemoveDomain,
    /// Read the node's metric with this handler.
    ReadMetric(MetricHandlerEnum),
    /// No handler knows the node.
    Ignore,
    /// The node is gone: remove its metric.
    RemoveNode,
}

/// The plan for a node of a domain, given whether reading it succeeded.
pub open spec fn spec_node_plan(handlers: Map<Seq<char>, MetricHandlerEnum>, subpath: Seq<char>, read_ok: bool) -> NodePlan {
    if subpath.len() == 0 && !read_ok {
        NodePlan::RemoveDomain
    } else if read_ok {
        match handlers.get(subpath) {
            Some(h) => NodePlan::ReadMetric(h),
            None => NodePlan::Ignore,
        }
    } else {
        NodePlan::RemoveNode
    }
}

/// A node that was read and whose sub-path has a handler is read with that
/// handler; a node that was read and that no handler knows is ignored; a
/// node that is gone takes its metric with it, and a domain node that is
/// gone takes all the metrics of the domain.
pub proof fn law_node_plan(handlers: Map<Seq<char>, MetricHandlerEnum>, subpath: Seq<char>, h: MetricHandlerEnum)
    ensures
        handlers.get(subpath) == Some(h) ==> spec_node_plan(handlers, subpath, true) == NodePlan::ReadMetric(h),
        handlers.get(subpath) is None ==> spec_node_plan(handlers, subpath, true) == NodePlan::Ignore,
        subpath.len() > 0 ==> spec_node_plan(handlers, subpath, false) == NodePlan::RemoveNode,
        subpath.len() == 0 ==> spec_node_plan(handlers, subpath, false) == NodePlan::RemoveDomain,
{
}

/// Both memory nodes of a guest are read with their own handler.
pub proof fn law_memory_nodes_are_read(handlers: Map<Seq<char>, MetricHandlerEnum>)
    requires
        handlers == Map::<Seq<char>, MetricHandlerEnum>::empty().insert(
            "data/meminfo_total"@,
            MetricHandlerEnum::MemInfoTotal(MemInfoTotal),
        ).insert("data/meminfo_free"@, MetricHandlerEnum::MemInfoFree(MemInfoFree)),
    ensures
        spec_node_plan(handlers, "data/meminfo_total"@, true) == NodePlan::ReadMetric(MetricHandlerEnum::MemInfoTotal(MemInfoTotal)),
        spec_node_plan(handlers, "data/meminfo_free"@, true) == NodePlan::ReadMetric(MetricHandlerEnum::MemInfoFree(MemInfoFree)),
{
    reveal_strlit("data/meminfo_total");
    reveal_strlit("data/meminfo_free");
    assert("data/meminfo_total"@.len() != "data/meminfo_free"@.len());
    law_node_plan(handlers, "data/meminfo_total"@, MetricHandlerEnum::MemInfoTotal(MemInfoTotal));
    law_node_plan(handlers, "data/meminfo_free"@, MetricHandlerEnum::MemInfoFree(MemInfoFree));
}

/// Decides what to do with the node `subpath` of a domain.
pub fn node_plan(handlers: &Handlers, subpath: &str, read_ok: bool) -> (r: NodePlan)
    ensures
        r == spec_node_plan(handlers.view(), subpath@, read_ok),
{
    if subpath.unicode_len() == 0 && !read_ok {
        NodePlan::RemoveDomain
    } else if read_ok {
        match handlers.get(subpath) {
            Some(h) => NodePlan::ReadMetric(h),
            None => NodePlan::Ignore,
        }
    } else {
        NodePlan::RemoveNode
    }
}

/// The UUID of each metric, by domain ID and sub-path.
pub struct PluginState {
    pub metric_uuid_map: UuidTable,
}

/// The key of the metric of node `subpath` of domain `domid`.
pub open spec fn node_key(domid: u32, subpath: Seq<char>) -> KeyView {
    (domid, subpath, None)
}

impl PluginState {
    /// The table is well formed and holds node keys only.
    pub open spec fn wf(&self) -> bool {
        &&& self.metric_uuid_map.wf()
        &&& forall|k: KeyView| #[trigger] self.metric_uuid_map.view().contains_key(k) ==> k.2 is None
    }

    /// The UUID of each metric, by domain ID and sub-path.
    pub open spec fn view(&self) -> Map<(u32, Seq<char>), u128> {
        Map::new(
            |k: (u32, Seq<char>)| self.metric_uuid_map.view().contains_key(node_key(k.0, k.1)),
            |k: (u32, Seq<char>)| self.metric_uuid_map.view()[node_key(k.0, k.1)],
        )
    }

    /// No metric yet.
    pub fn new() -> (r: Self)
        ensures
            r.wf(),
            r.view() == Map::<(u32, Seq<char>), u128>::empty(),
    {
        let r = PluginState { metric_uuid_map: UuidTable::new() };
        assert(r.view() =~= Map::<(u32, Seq<char>), u128>::empty());
        r
    }

    /// The update of the metric of node `subpath` of domain `domid`, which
    /// `handler` read: the metric belongs to the handler's family, gains a
    /// `domid` label, and keeps the UUID it was reported under, or gets a
    /// fresh one.
    pub fn on_metric(&mut self, domid: u32, subpath: &str, handler: &MetricHandlerEnum, metric: Metric) -> (r: UpdateMetric)
        requires
            old(self).wf(),
        ensures
            final(self).wf(),
            r.family_name@ == handler.spec_family_name(),
            r.metric.labels@.len() == metric.labels@.len() + 1,
            forall|i: int| 0 <= i < metric.labels@.len() ==> #[trigger] r.metric.labels@[i] == metric.labels@[i],
            r.metric.labels@.last().name@ == "domid"@,
            r.metric.labels@.last().value@ == decimal_string(domid as nat),
            r.metric.value == metric.value,
            old(self).view().contains_key((domid, subpath@)) ==> {
                &&& r.uuid == old(self).view()[(domid, subpath@)]
                &&& final(self).view() == old(self).view()
            },
            !old(self).view().contains_key((domid, subpath@)) ==> {
                &&& is_v4_uuid(r.uuid)
                &&& final(self).view() == old(self).view().insert((domid, subpath@), r.uuid)
            },
    {
        let mut metric = metric;
        metric.labels.push(Label { name: String::from_str("domid"), value: decimal(domid as u64) });
        let key = MetricKey { scope: domid, name: String::from_str(subpath), sub: None };
        let ghost old_view = self.view();
        let uuid = self.metric_uuid_map.get_or_insert(key);
        assert(self.view() =~= if old_view.contains_key((domid, subpath@)) {
            old_view
        } else {
            old_view.insert((domid, subpath@), uuid)
        });
        UpdateMetric { family_name: String::from_str(handler.family_name()), metric, uuid }
    }

    /// The removal of the metric of node `subpath` of domain `domid`, whose
    /// node is gone: the metric is forgotten, and the message names the
    /// family of the handler of `subpath`. No message when the node had no
    /// metric or no handler knows it.
    pub fn on_node_removed(&mut self, domid: u32, subpath: &str, handlers: &Handlers) -> (r: Option<RemoveMetric>)
        requires
            old(self).wf(),
        ensures
            final(self).wf(),
            final(self).view() == old(self).view().remove((domid, subpath@)),
            match r {
                Some(m) => {
                    &&& old(self).view().contains_key((domid, subpath@))
                    &&& m.uuid == old(self).view()[(domid, subpath@)]
                    &&& handlers.view().get(subpath@) matches Some(h) && m.family_name@ == h.spec_family_name()
                },
                None => !old(self).view().contains_key((domid, subpath@)) || handlers.view().get(subpath@) is None,
            },
    {
        let key = MetricKey { scope: domid, name: String::from_str(subpath), sub: None };
        let ghost old_view = self.view();
        let removed = self.metric_uuid_map.remove(&key);
        assert(self.view() =~= old_view.remove((domid, subpath@)));
        match removed {
            Some(uuid) => match handlers.get(subpath) {
                Some(h) => Some(RemoveMetric { family_name: String::from_str(h.family_name()), uuid }),
                None => None,
            },
            None => None,
        }
    }

    /// The removals of all the metrics of domain `domid`, whose node is
    /// gone: one message per metric, naming the metric's sub-path as its
    /// family.
    pub fn on_domain_vanished(&mut self, domid: u32) -> (r: Vec<RemoveMetric>)
        requires
            old(self).wf(),
        ensures
            final(self).wf(),
            final(self).view() == old(self).view().restrict(Set::new(|k: (u32, Seq<char>)| k.0 != domid)),
            forall|i: int| 0 <= i < r@.len() ==> #[trigger] old(self).view().contains_key((domid, r@[i].family_name@))
                && old(self).view()[(domid, r@[i].family_name@)] == r@[i].uuid,
            forall|k: (u32, Seq<char>)| #[trigger] old(self).view().contains_key(k) && k.0 == domid ==>
                exists|i: int| 0 <= i < r@.len() && r@[i].family_name@ == k.1,
            forall|i: int, j: int| 0 <= i < r@.len() && 0 <= j < r@.len() && i != j ==>
                #[trigger] r@[i].family_name@ != #[trigger] r@[j].family_name@,
    {
        let ghost old_view = self.view();
        let ghost old_table = self.metric_uuid_map.view();
        let removed = self.metric_uuid_map.remove_scope(domid);
        assert(self.view() =~= old_view.restrict(Set::new(|k: (u32, Seq<char>)| k.0 != domid)));
        let ghost rm = removed@;
        let mut messages: Vec<RemoveMetric> = Vec::new();
        let mut i: usize = 0;
        while i < removed.len()
            invariant
                rm == removed@,
                unique_keys(rm),
                i <= rm.len(),
                messages@.len() == i,
                forall|a: int| 0 <= a < i ==> #[trigger] messages@[a].family_name@ == rm[a].key.name@ && messages@[a].uuid == rm[a].uuid,
            decreases rm.len() - i,
        {
            messages.push(RemoveMetric { family_name: removed[i].key.name.clone(), uuid: removed[i].uuid });
            i = i + 1;
        }
        proof {
            assert forall|a: int| 0 <= a < rm.len() implies #[trigger] rm[a].key.key_view().0 == domid
                && rm[a].key.key_view().2 is None
                && old_table.contains_key(rm[a].key.key_view())
                && old_table[rm[a].key.key_view()] == rm[a].uuid by {
                lemma_slots_map_at(rm, a);
            }
            let r = messages@;
            assert forall|a: int| 0 <= a < r.len() implies #[trigger] old_view.contains_key((domid, r[a].family_name@))
                && old_view[(domid, r[a].family_name@)] == r[a].uuid by {
                assert(messages@[a].family_name@ == rm[a].key.name@);
                assert(rm[a].key.key_view().1 == rm[a].key.name@);
                assert(rm[a].key.key_view() == node_key(domid, r[a].family_name@));
                assert(old_table.contains_key(node_key(domid, r[a].family_name@)));
                assert(old_view.contains_key((domid, r[a].family_name@)));
            }
            assert forall|k: (u32, Seq<char>)| #[trigger] old_view.contains_key(k) && k.0 == domid implies
                exists|a: int| 0 <= a < r.len() && r[a].family_name@ == k.1 by {
                let kk = node_key(k.0, k.1);
                assert(slots_map(rm).contains_key(kk));
                let a = choose|a: int| 0 <= a < rm.len() && #[trigger] rm[a].key.key_view() == kk;
                assert(r[a].family_name@ == k.1);
            }
            assert forall|a: int, b: int| 0 <= a < r.len() && 0 <= b < r.len() && a != b implies
                #[trigger] r[a].family_name@ != #[trigger] r[b].family_name@ by {
                assert(messages@[a].family_name@ == rm[a].key.name@);
                assert(messages@[b].family_name@ == rm[b].key.name@);
                assert(rm[a].key.key_view().0 == domid && rm[a].key.key_view().2 is None);
                assert(rm[b].key.key_view().0 == domid && rm[b].key.key_view().2 is None);
                assert(rm[a].key.key_view() != rm[b].key.key_view());
            }
        }
        messages
    }
}

} // verus!

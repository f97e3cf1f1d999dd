//! Memory that squeezed reclaimed from the domains, read from XenStore.
use vstd::prelude::*;
use vstd::string::*;
use crate::text::{parse_u32, spec_parse_u32};
use crate::xenstore::{string_views, listing_view, value_view, XsRead};
use crate::metrics::{is_single_gauge_family, single_gauge_family, NumberValue, SimpleMetricSet};

verus! {

/// Host memory (KiB) reclaimed by squeezed, and that it could reclaim.
#[derive(Debug, PartialEq, Eq, Structural, Clone, Copy)]
pub struct SqueezedInfo {
    /// Host memory reclaimed by squeezed: the sum of `dynamic_max - target`.
    pub reclaimed: u32,
    /// Host memory that could be reclaimed by squeezed: the sum of
    /// `target - dynamic_min`.
    pub reclaimed_max: u32,
}

/// Why [`SqueezedInfo::get`] gave no information.
#[derive(Debug)]
pub enum SqueezedError {
    /// The list of domains could not be read.
    Xs(std::io::Error),
    /// A running sum left the range of `u32`.
    Overflow,
}

/// The outcome of [`SqueezedInfo::from_domain_reads`] when it fails.
#[derive(Debug, PartialEq, Eq, Structural, Clone, Copy)]
pub struct SqueezedOverflow;

/// The three memory nodes of one domain, each as read (`None` when the
/// read failed).
#[derive(Debug, Clone)]
pub struct DomainMemoryReads {
    pub target: Option<String>,
    pub dynamic_min: Option<String>,
    pub dynamic_max: Option<String>,
}

/// The characters of a read, when it succeeded.
pub open spec fn read_chars(r: Option<String>) -> Option<Seq<char>> {
    match r {
        Some(s) => Some(s@),
        None => None,
    }
}

/// The parsed `(target, dynamic_min, dynamic_max)` of a domain, when all
/// three were read and are decimal `u32` values.
pub open spec fn parsed_domain(e: DomainMemoryReads) -> Option<(u32, u32, u32)> {
    match (read_chars(e.target), read_chars(e.dynamic_min), read_chars(e.dynamic_max)) {
        (Some(t), Some(mn), Some(mx)) => match (
            spec_parse_u32(t),
            spec_parse_u32(mn),
            spec_parse_u32(mx),
        ) {
            (Some(t), Some(mn), Some(mx)) => Some((t, mn, mx)),
            _ => None,
        },
        _ => None,
    }
}

/// One step of the sums, in `u32`: `reclaimed + dynamic_max - target` and
/// `reclaimed_max + target - dynamic_min`, each evaluated left to right;
/// `None` when an intermediate value leaves the range of `u32`.
pub open spec fn squeezed_step(acc: (u32, u32), d: (u32, u32, u32)) -> Option<(u32, u32)> {
    let (r, rm) = acc;
    let (t, mn, mx) = d;
    if r + mx <= u32::MAX && r + mx - t >= 0 && rm + t <= u32::MAX && rm + t - mn >= 0 {
        Some(((r + mx - t) as u32, (rm + t - mn) as u32))
    } else {
        None
    }
}

/// The sums over the domains, in order, skipping the domains whose values
/// are missing or not numbers.
pub open spec fn squeezed_sums(entries: Seq<DomainMemoryReads>) -> Option<(u32, u32)>
    decreases entries.len(),
{
    if entries.len() == 0 {
        Some((0, 0))
    } else {
        match squeezed_sums(entries.drop_last()) {
            None => None,
            Some(acc) => match parsed_domain(entries.last()) {
                None => Some(acc),
                Some(d) => squeezed_step(acc, d),
            },
        }
    }
}

/// The memory reclaimed from the domains whose values were read: the sum of
/// `dynamic_max - target`, as a mathematical integer.
pub open spec fn total_reclaimed(entries: Seq<DomainMemoryReads>) -> int
    decreases entries.len(),
{
    if entries.len() == 0 {
        0
    } else {
        total_reclaimed(entries.drop_last()) + match parsed_domain(entries.last()) {
            Some((t, mn, mx)) => mx - t,
            None => 0,
        }
    }
}

/// The memory that could be reclaimed from the domains whose values were
/// read: the sum of `target - dynamic_min`, as a mathematical integer.
pub open spec fn total_reclaimable(entries: Seq<DomainMemoryReads>) -> int
    decreases entries.len(),
{
    if entries.len() == 0 {
        0
    } else {
        total_reclaimable(entries.drop_last()) + match parsed_domain(entries.last()) {
            Some((t, mn, mx)) => t - mn,
            None => 0,
        }
    }
}

/// When the sums are computed, they are exactly the sum of
/// `dynamic_max - target` and the sum of `target - dynamic_min` over the
/// domains whose three values were read, the other domains counting for
/// nothing.
pub proof fn law_sums_are_totals(entries: Seq<DomainMemoryReads>)
    ensures
        squeezed_sums(entries) matches Some((r, rm)) ==> r == total_reclaimed(entries)
            && rm == total_reclaimable(entries),
    decreases entries.len(),
{
    if entries.len() > 0 {
        law_sums_are_totals(entries.drop_last());
    }
}

/// A domain with a value that could not be read, or that is not a number,
/// is skipped wherever it is listed: it leaves the sums as they were.
pub proof fn law_unreadable_domain_skipped(entries: Seq<DomainMemoryReads>, k: int, e: DomainMemoryReads)
    requires
        parsed_domain(e) is None,
        0 <= k <= entries.len(),
    ensures
        squeezed_sums(entries.insert(k, e)) == squeezed_sums(entries),
    decreases entries.len(),
{
    let ins = entries.insert(k, e);
    if k == entries.len() {
        assert(ins.drop_last() =~= entries);
        assert(ins.last() == e);
    } else {
        assert(ins.drop_last() =~= entries.drop_last().insert(k, e));
        assert(ins.last() == entries.last());
        law_unreadable_domain_skipped(entries.drop_last(), k, e);
    }
}

/// What a domain adds to the sum of `dynamic_max - target`.
pub open spec fn reclaimed_share(e: DomainMemoryReads) -> int {
    match parsed_domain(e) {
        Some((t, mn, mx)) => mx - t,
        None => 0,
    }
}

/// What a domain adds to the sum of `target - dynamic_min`.
pub open spec fn reclaimable_share(e: DomainMemoryReads) -> int {
    match parsed_domain(e) {
        Some((t, mn, mx)) => t - mn,
        None => 0,
    }
}

proof fn lemma_totals_insert(entries: Seq<DomainMemoryReads>, k: int, e: DomainMemoryReads)
    requires
        0 <= k <= entries.len(),
    ensures
        total_reclaimed(entries.insert(k, e)) == total_reclaimed(entries) + reclaimed_share(e),
        total_reclaimable(entries.insert(k, e)) == total_reclaimable(entries) + reclaimable_share(e),
    decreases entries.len(),
{
    let ins = entries.insert(k, e);
    if k == entries.len() {
        assert(ins.drop_last() =~= entries);
        assert(ins.last() == e);
    } else {
        assert(ins.drop_last() =~= entries.drop_last().insert(k, e));
        assert(ins.last() == entries.last());
        lemma_totals_insert(entries.drop_last(), k, e);
    }
}

/// One more domain whose three values were read, wherever it is listed,
/// adds `dynamic_max - target` to the first sum and `target - dynamic_min`
/// to the second, when the sums are computed both without it and with it.
pub proof fn law_domain_adds_its_share(entries: Seq<DomainMemoryReads>, k: int, e: DomainMemoryReads)
    requires
        0 <= k <= entries.len(),
    ensures
        squeezed_sums(entries) matches Some((r, rm)) ==> (squeezed_sums(entries.insert(k, e)) matches Some((r2, rm2))
            ==> r2 == r + reclaimed_share(e) && rm2 == rm + reclaimable_share(e)),
{
    law_sums_are_totals(entries);
    law_sums_are_totals(entries.insert(k, e));
    lemma_totals_insert(entries, k, e);
}

/// What [`SqueezedInfo::from_domain_reads`] gives.
pub open spec fn spec_squeezed_info(entries: Seq<DomainMemoryReads>) -> Result<SqueezedInfo, SqueezedOverflow> {
    match squeezed_sums(entries) {
        Some((r, rm)) => Ok(SqueezedInfo { reclaimed: r, reclaimed_max: rm }),
        None => Err(SqueezedOverflow),
    }
}

fn parse_read(r: &Option<String>) -> (p: Option<u32>)
    ensures
        p == match read_chars(*r) {
            Some(s) => spec_parse_u32(s),
            None => None,
        },
{
    match r {
        Some(s) => parse_u32(s.as_str()),
        None => None,
    }
}

/// The path `/local/domain/<domid>/memory/<leaf>`.
pub fn domain_memory_path(domid: &str, leaf: &str) -> (r: String)
    ensures
        r@ == "/local/domain/"@ + domid@ + "/memory/"@ + leaf@,
{
    let mut path = String::from_str("/local/domain/");
    path.append(domid);
    path.append("/memory/");
    path.append(leaf);
    path
}

impl SqueezedInfo {
    /// Sums the memory of the domains from what was read of each.
    pub fn from_domain_reads(entries: &Vec<DomainMemoryReads>) -> (r: Result<SqueezedInfo, SqueezedOverflow>)
        ensures
            r == spec_squeezed_info(entries@),
    {
        let mut reclaimed: u32 = 0;
        let mut reclaimed_max: u32 = 0;
        let mut i: usize = 0;
        while i < entries.len()
            invariant
                i <= entries@.len(),
                squeezed_sums(entries@.subrange(0, i as int)) == Some((reclaimed, reclaimed_max)),
            decreases entries@.len() - i,
        {
            let ghost prefix = entries@.subrange(0, i + 1);
            assert(prefix.drop_last() =~= entries@.subrange(0, i as int));
            assert(prefix.last() == entries@[i as int]);
            let e = &entries[i];
            let t = parse_read(&e.target);
            let mn = parse_read(&e.dynamic_min);
            let mx = parse_read(&e.dynamic_max);
            match (t, mn, mx) {
                (Some(t), Some(mn), Some(mx)) => {
                    let (r1, rm1) = match (reclaimed.checked_add(mx), reclaimed_max.checked_add(t)) {
                        (Some(a), Some(b)) => (a, b),
                        _ => {
                            proof {
                                lemma_sums_stay_failed(entries@, i as int + 1);
                            }
                            return Err(SqueezedOverflow);
                        },
                    };
                    if r1 < t || rm1 < mn {
                        proof {
                            lemma_sums_stay_failed(entries@, i as int + 1);
                        }
                        return Err(SqueezedOverflow);
                    }
                    reclaimed = r1 - t;
                    reclaimed_max = rm1 - mn;
                },
                _ => {},
            }
            i = i + 1;
        }
        assert(entries@.subrange(0, entries@.len() as int) =~= entries@);
        Ok(SqueezedInfo { reclaimed, reclaimed_max })
    }

    /// Reads the memory nodes of every domain listed under `/local/domain`
    /// (at the paths that [`domain_memory_path`] gives) and sums them with
    /// [`Self::from_domain_reads`]: it is [`Self::from_listing`] of what
    /// listing `/local/domain` gives. Fails when the list of domains cannot
    /// be read, or when a sum leaves the range of `u32`.
    pub fn get<XS: XsRead>(xs: &XS) -> (r: Result<SqueezedInfo, SqueezedError>)
        ensures
            is_squeezed_outcome(xs, r),
    {
        let listing = xs.directory("/local/domain");
        let ghost listed = listing;
        let r = SqueezedInfo::from_listing(xs, listing);
        proof {
            if let Ok(domids) = listed {
                let reads = choose|reads: Seq<DomainMemoryReads>| #[trigger] reads_of_domains(xs, string_views(domids@), reads)
                    && sums_outcome(reads, r);
                assert(reads_of_domains(xs, string_views(domids@), reads) && sums_outcome(reads, r));
            }
        }
        r
    }

    /// Reads the three memory nodes of each listed domain, in order, and
    /// sums them with [`Self::from_domain_reads`]. A failed listing is that
    /// error, and no node is read then.
    pub fn from_listing<XS: XsRead>(xs: &XS, listing: Result<Vec<String>, std::io::Error>) -> (r: Result<
        SqueezedInfo,
        SqueezedError,
    >)
        ensures
            match listing {
                Err(e) => r matches Err(SqueezedError::Xs(x)) && x == e,
                Ok(domids) => exists|reads: Seq<DomainMemoryReads>| #[trigger] reads_of_domains(xs, string_views(domids@), reads)
                    && sums_outcome(reads, r),
            },
    {
        let domids = match listing {
            Ok(d) => d,
            Err(e) => {
                return Err(SqueezedError::Xs(e));
            },
        };
        let entries = read_domains(xs, &domids);
        let r = match SqueezedInfo::from_domain_reads(&entries) {
            Ok(info) => Ok(info),
            Err(_) => Err(SqueezedError::Overflow),
        };
        assert(reads_of_domains(xs, string_views(domids@), entries@) && sums_outcome(entries@, r));
        r
    }
}

/// `r` is what summing `reads` gives: the sums, or an overflow.
pub open spec fn sums_outcome(reads: Seq<DomainMemoryReads>, r: Result<SqueezedInfo, SqueezedError>) -> bool {
    match spec_squeezed_info(reads) {
        Ok(i) => r == Ok::<SqueezedInfo, SqueezedError>(i),
        Err(_) => r matches Err(SqueezedError::Overflow),
    }
}

/// The path `/local/domain/<domid>/memory/<leaf>`.
pub open spec fn memory_path(domid: Seq<char>, leaf: Seq<char>) -> Seq<char> {
    "/local/domain/"@ + domid + "/memory/"@ + leaf
}

/// `e` holds what `xs` can give for the target, dynamic-min and dynamic-max
/// nodes of domain `domid`, each read at its own path.
pub open spec fn reads_of_domain<XS: XsRead>(xs: &XS, domid: Seq<char>, e: DomainMemoryReads) -> bool {
    &&& xs.may_read(memory_path(domid, "target"@), read_chars(e.target))
    &&& xs.may_read(memory_path(domid, "dynamic-min"@), read_chars(e.dynamic_min))
    &&& xs.may_read(memory_path(domid, "dynamic-max"@), read_chars(e.dynamic_max))
}

/// `reads` holds, for each domain of `domids` and in the same order, what
/// `xs` can give for its three memory nodes.
pub open spec fn reads_of_domains<XS: XsRead>(xs: &XS, domids: Seq<Seq<char>>, reads: Seq<DomainMemoryReads>) -> bool {
    &&& reads.len() == domids.len()
    &&& forall|i: int| 0 <= i < reads.len() ==> #[trigger] reads_of_domain(xs, domids[i], reads[i])
}

/// What [`SqueezedInfo::get`] can give on `xs`: the error of a failed
/// listing of `/local/domain`, or, for some listing that it can give, the
/// outcome of summing what `xs` can give for the memory nodes of each listed
/// domain.
pub open spec fn is_squeezed_outcome<XS: XsRead>(xs: &XS, r: Result<SqueezedInfo, SqueezedError>) -> bool {
    ||| r matches Err(SqueezedError::Xs(_)) && xs.may_list("/local/domain"@, None)
    ||| exists|listing: Seq<Seq<char>>, reads: Seq<DomainMemoryReads>|
        #[trigger] reads_of_domains(xs, listing, reads) && xs.may_list("/local/domain"@, Some(listing))
            && sums_outcome(reads, r)
}

/// What [`SqueezedInfo::get`] gives on two stores whose listings of
/// `/local/domain` differ by one domain `d`, listed at `k` in the second,
/// whose other domains read alike, and whose nodes of `d` read as `e`: when
/// `e` holds three numbers and both sums are computed, the second adds
/// `dynamic_max - target` and `target - dynamic_min` of `d` to the first;
/// when a node of `d` could not be read or is not a number, both outcomes
/// are the same.
pub proof fn law_listed_domain_adds_its_share<XS: XsRead>(
    xs: &XS,
    xs2: &XS,
    listing: Seq<Seq<char>>,
    reads: Seq<DomainMemoryReads>,
    k: int,
    d: Seq<char>,
    e: DomainMemoryReads,
    r: Result<SqueezedInfo, SqueezedError>,
    r2: Result<SqueezedInfo, SqueezedError>,
)
    requires
        0 <= k <= listing.len(),
        xs.may_list("/local/domain"@, Some(listing)),
        reads_of_domains(xs, listing, reads),
        sums_outcome(reads, r),
        xs2.may_list("/local/domain"@, Some(listing.insert(k, d))),
        reads_of_domains(xs2, listing.insert(k, d), reads.insert(k, e)),
        sums_outcome(reads.insert(k, e), r2),
    ensures
        parsed_domain(e) is Some ==> (r matches Ok(i) ==> (r2 matches Ok(i2) ==> i2.reclaimed == i.reclaimed
            + reclaimed_share(e) && i2.reclaimed_max == i.reclaimed_max + reclaimable_share(e))),
        parsed_domain(e) is None ==> r2 == r,
{
    law_domain_adds_its_share(reads, k, e);
    if parsed_domain(e) is None {
        law_unreadable_domain_skipped(reads, k, e);
    }
}

/// The three memory nodes of each listed domain, read in order (`None` for a
/// read that failed).
pub fn read_domains<XS: XsRead>(xs: &XS, domids: &Vec<String>) -> (r: Vec<DomainMemoryReads>)
    ensures
        reads_of_domains(xs, string_views(domids@), r@),
{
    let mut entries: Vec<DomainMemoryReads> = Vec::new();
    let mut i: usize = 0;
    while i < domids.len()
        invariant
            i <= domids@.len(),
            entries@.len() == i,
            forall|j: int| 0 <= j < i ==> #[trigger] reads_of_domain(xs, domids@[j]@, entries@[j]),
        decreases domids@.len() - i,
    {
        let domid = domids[i].as_str();
        let target = xs.read(domain_memory_path(domid, "target").as_str());
        let dynamic_min = xs.read(domain_memory_path(domid, "dynamic-min").as_str());
        let dynamic_max = xs.read(domain_memory_path(domid, "dynamic-max").as_str());
        let e = DomainMemoryReads {
            target: target.ok(),
            dynamic_min: dynamic_min.ok(),
            dynamic_max: dynamic_max.ok(),
        };
        assert(read_chars(e.target) == value_view(target));
        assert(read_chars(e.dynamic_min) == value_view(dynamic_min));
        assert(read_chars(e.dynamic_max) == value_view(dynamic_max));
        assert(reads_of_domain(xs, domids@[i as int]@, e));
        entries.push(e);
        i = i + 1;
    }
    entries
}

/// The squeezed plugin: reports the memory reclaimed by squeezed, read
/// from `xs`.
pub struct SqueezedPlugin<XS: XsRead> {
    pub xs: XS,
}

/// A KiB amount in bytes.
pub open spec fn kib_to_bytes(kib: u32) -> i64 {
    (kib * 1024) as i64
}

/// The two families that describe `info`: `memory_reclaimed` and
/// `memory_reclaimed_max`, in bytes.
pub open spec fn squeezed_families(info: SqueezedInfo, set: SimpleMetricSet) -> bool {
    &&& set.families@.len() == 2
    &&& set.families@[0].0@ == "memory_reclaimed"@
    &&& is_single_gauge_family(
        set.families@[0].1,
        "B"@,
        "Host memory reclaimed by squeezed"@,
        NumberValue::Int64(kib_to_bytes(info.reclaimed)),
    )
    &&& set.families@[1].0@ == "memory_reclaimed_max"@
    &&& is_single_gauge_family(
        set.families@[1].1,
        "B"@,
        "Host memory that could be reclaimed by squeezed"@,
        NumberValue::Int64(kib_to_bytes(info.reclaimed_max)),
    )
}

/// The metric set for an outcome of [`SqueezedInfo::get`]: the two memory
/// families, or none when it failed.
pub open spec fn squeezed_set(info: Result<SqueezedInfo, SqueezedError>, set: SimpleMetricSet) -> bool {
    match info {
        Ok(i) => squeezed_families(i, set),
        Err(_) => set.families@.len() == 0,
    }
}

/// The metric set of the plugin for what [`SqueezedInfo::get`] gave: no
/// family when it failed, else the two memory families.
pub fn squeezed_metrics(info: Result<SqueezedInfo, SqueezedError>) -> (set: SimpleMetricSet)
    ensures
        squeezed_set(info, set),
        set.has_distinct_names(),
{
    match info {
        Ok(i) => {
            let mut families = Vec::new();
            families.push(
                (
                    String::from_str("memory_reclaimed"),
                    single_gauge_family(
                        "B",
                        "Host memory reclaimed by squeezed",
                        NumberValue::Int64((i.reclaimed as i64) * 1024),
                    ),
                ),
            );
            families.push(
                (
                    String::from_str("memory_reclaimed_max"),
                    single_gauge_family(
                        "B",
                        "Host memory that could be reclaimed by squeezed",
                        NumberValue::Int64((i.reclaimed_max as i64) * 1024),
                    ),
                ),
            );
            proof {
                reveal_strlit("memory_reclaimed");
                reveal_strlit("memory_reclaimed_max");
            }
            assert(families@[0].0@.len() != families@[1].0@.len());
            SimpleMetricSet { families }
        },
        Err(_) => SimpleMetricSet { families: Vec::new() },
    }
}

impl<XS: XsRead> SqueezedPlugin<XS> {
    /// Nothing to refresh: every metric set reads XenStore afresh.
    pub fn update(&mut self)
        ensures
            *final(self) == *old(self),
    {
    }

    /// Reads the squeezed information from XenStore and describes it as a
    /// metric set: [`squeezed_metrics`] of what [`SqueezedInfo::get`] gives,
    /// so no family when it could not be read.
    pub fn generate_metrics(&mut self) -> (set: SimpleMetricSet)
        ensures
            *final(self) == *old(self),
            set.has_distinct_names(),
            exists|info: Result<SqueezedInfo, SqueezedError>| is_squeezed_outcome(&old(self).xs, info) && #[trigger] squeezed_set(info, set),
    {
        squeezed_metrics(SqueezedInfo::get(&self.xs))
    }
}

/// Once the sums fail on a prefix, they fail on every longer prefix.
proof fn lemma_sums_stay_failed(entries: Seq<DomainMemoryReads>, k: int)
    requires
        0 <= k <= entries.len(),
        squeezed_sums(entries.subrange(0, k)) is None,
    ensures
        squeezed_sums(entries) is None,
    decreases entries.len() - k,
{
    if k < entries.len() {
        assert(entries.subrange(0, k + 1).drop_last() =~= entries.subrange(0, k));
        lemma_sums_stay_failed(entries, k + 1);
    } else {
        assert(entries.subrange(0, k) =~= entries);
    }
}

} // verus!

//! Records of the `sysctl` hypercall and the walk over the list of domains.
use vstd::prelude::*;
use super::{Align64, DomId};
use super::domctl::XenDomctlGetDomainInfo;

verus! {

/// Hypercall number of `sysctl`.
pub const HYPERVISOR_SYSCTL: usize = 35;

pub const XEN_SYSCTL_PHYSINFO: u32 = 3;

pub const XEN_SYSCTL_GETDOMAININFOLIST: u32 = 6;

pub const XEN_SYSCTL_GETCPUINFO: u32 = 8;

pub const XEN_SYSCTL_PM_OP: u32 = 12;

/// `pm_op` command reading the average frequency of a CPU
/// (`CPUFREQ_PARA | 0x04`).
pub const XEN_SYSCTL_PM_OP_CPUFREQ_AVG: u32 = 0x14;

/// How many domains one `getdomaininfolist` request asks for.
pub const DOMAIN_LIST_BATCH: u32 = 32;

/// The inputs of a `getdomaininfolist` request: the domains from
/// `first_domain` on, at most `max_domains` of them (the length of the
/// buffer they are written to).
#[derive(Clone, Copy, Debug, PartialEq, Eq, Structural)]
pub struct DomainListRequest {
    pub first_domain: DomId,
    pub max_domains: u32,
}

/// The request for one batch of domains from `first_domain` on: a batch
/// buffer of [`DOMAIN_LIST_BATCH`] entries.
pub fn domain_list_request(first_domain: DomId) -> (r: DomainListRequest)
    ensures
        r.first_domain == first_domain,
        r.max_domains == DOMAIN_LIST_BATCH,
{
    DomainListRequest { first_domain, max_domains: DOMAIN_LIST_BATCH }
}

/// The domains of a batch buffer that a `getdomaininfolist` request
/// filled: its first `num_domains` entries, as many as the hypervisor
/// reported, or the whole buffer when it reported more.
pub fn fetched_domains(buffer: Vec<XenDomctlGetDomainInfo>, num_domains: u32) -> (r: Vec<XenDomctlGetDomainInfo>)
    ensures
        r@ == buffer@.subrange(0, if num_domains < buffer@.len() { num_domains as int } else { buffer@.len() as int }),
{
    let mut domains = buffer;
    let ghost full = domains@;
    while domains.len() > num_domains as usize
        invariant
            full.len() >= domains@.len(),
            (if num_domains < full.len() { num_domains as int } else { full.len() as int }) <= domains@.len(),
            domains@ == full.subrange(0, domains@.len() as int),
        decreases domains@.len(),
    {
        domains.pop();
    }
    domains
}

/// What `XEN_SYSCTL_physinfo` reports of the host.
#[derive(Clone, Copy, Debug, Default)]
pub struct XenSysctlPhysInfo {
    pub threads_per_core: u32,
    pub cores_per_socket: u32,
    pub nr_cpus: u32,
    pub max_cpu_id: u32,
    pub nr_nodes: u32,
    pub max_node_id: u32,
    pub cpu_khz: u32,
    pub capabilities: u32,
    pub arch_capabilities: u32,
    pub pad: u32,
    pub total_pages: Align64<u64>,
    pub free_pages: Align64<u64>,
    pub scrub_pages: Align64<u64>,
    pub outstanding_pages: Align64<u64>,
    pub max_mfn: Align64<u64>,
    pub hw_cap: [u32; 8],
}

/// What `XEN_SYSCTL_getcpuinfo` reports of one physical CPU.
#[derive(Clone, Copy, Debug, Default)]
pub struct XenSysctlCpuinfo {
    pub idletime: Align64<u64>,
}

/// Arguments of `XEN_SYSCTL_getcpuinfo`. `info` is the hypercall-safe
/// address of the buffer that receives the records.
#[derive(Clone, Copy, Debug, Default)]
pub struct XenSysctlGetCpuInfo {
    /// IN
    pub max_cpus: u32,
    /// IN
    pub info: Align64<u64>,
    /// OUT
    pub nr_cpus: u32,
}

/// Parameter of a power-management request.
#[derive(Clone, Copy, Debug, Default)]
pub struct XenSysctlPmOpParam {
    pub get_avgfreq: Align64<u64>,
}

/// A power-management request of `sysctl`.
#[derive(Clone, Copy, Debug, Default)]
pub struct XenSysctlPmOp {
    pub cmd: u32,
    pub cpuid: u32,
    pub param: XenSysctlPmOpParam,
}

/// The largest domain ID of a non-empty list.
pub open spec fn max_domid(l: Seq<XenDomctlGetDomainInfo>) -> u16
    decreases l.len(),
{
    if l.len() <= 1 {
        l[0].domain.0
    } else {
        let m = max_domid(l.drop_last());
        if l.last().domain.0 > m {
            l.last().domain.0
        } else {
            m
        }
    }
}

proof fn lemma_max_domid_bound(l: Seq<XenDomctlGetDomainInfo>, b: u16)
    requires
        l.len() > 0,
        forall|i: int| 0 <= i < l.len() ==> #[trigger] l[i].domain.0 < b,
    ensures
        max_domid(l) < b,
    decreases l.len(),
{
    if l.len() > 1 {
        lemma_max_domid_bound(l.drop_last(), b);
    }
}

/// Computes the largest domain ID of a non-empty list.
fn find_max_domid(l: &Vec<XenDomctlGetDomainInfo>) -> (r: u16)
    requires
        l@.len() > 0,
    ensures
        r == max_domid(l@),
{
    let mut m = l[0].domain.0;
    let mut i: usize = 1;
    while i < l.len()
        invariant
            1 <= i <= l@.len(),
            m == max_domid(l@.subrange(0, i as int)),
        decreases l@.len() - i,
    {
        assert(l@.subrange(0, i + 1).drop_last() =~= l@.subrange(0, i as int));
        if l[i].domain.0 > m {
            m = l[i].domain.0;
        }
        i = i + 1;
    }
    assert(l@.subrange(0, l@.len() as int) =~= l@);
    m
}

/// The state of a walk over the domains: the first domain of the next batch
/// to fetch, and the batch not yet handed out.
pub type WalkState = (u16, Option<Seq<XenDomctlGetDomainInfo>>);

/// A fetched batch as plain values.
pub open spec fn fetched_view(fetched: Option<Vec<XenDomctlGetDomainInfo>>) -> Option<Seq<XenDomctlGetDomainInfo>> {
    match fetched {
        Some(f) => Some(f@),
        None => None,
    }
}

/// One step of the walk: the next state and the domain handed out. A
/// pending batch is handed out from its end; otherwise the fetched batch
/// (none when the fetch failed) becomes pending, and the walk goes on after
/// its largest domain ID.
pub open spec fn walk_step(s: WalkState, fetched: Option<Seq<XenDomctlGetDomainInfo>>) -> (WalkState, Option<XenDomctlGetDomainInfo>) {
    match s.1 {
        Some(l) => (
            (s.0, if l.len() <= 1 { None } else { Some(l.drop_last()) }),
            if l.len() > 0 { Some(l.last()) } else { None },
        ),
        None => match fetched {
            None => (s, None),
            Some(f) => if f.len() == 0 {
                ((s.0, Some(Seq::empty())), None)
            } else {
                (((max_domid(f) + 1) as u16, if f.len() == 1 { None } else { Some(f.drop_last()) }), Some(f.last()))
            },
        },
    }
}

/// Walks over the domains of the host in batches: each batch is fetched
/// from the domain after the largest one of the previous batch, and handed
/// out from its end.
pub struct DomainIterator {
    pub current_domid: DomId,
    pub domain_list: Option<Vec<XenDomctlGetDomainInfo>>,
}

impl DomainIterator {
    /// The batch not yet handed out, when there is one.
    pub open spec fn pending(&self) -> Option<Seq<XenDomctlGetDomainInfo>> {
        match self.domain_list {
            Some(l) => Some(l@),
            None => None,
        }
    }

    /// The state of the walk: the first domain of the next batch to fetch,
    /// and the batch not yet handed out.
    pub open spec fn walk_view(&self) -> WalkState {
        (self.current_domid.0, self.pending())
    }

    /// A walk that starts at domain 0 with nothing fetched.
    pub fn new() -> (r: Self)
        ensures
            r.current_domid == DomId(0),
            r.pending() is None,
    {
        DomainIterator { current_domid: DomId(0), domain_list: None }
    }

    /// The first domain ID of the batch to fetch before the next step, or
    /// `None` when a batch is pending.
    pub fn fetch_request(&self) -> (r: Option<DomId>)
        ensures
            r == (if self.pending() is None { Some(self.current_domid) } else { None }),
    {
        match &self.domain_list {
            Some(_) => None,
            None => Some(self.current_domid),
        }
    }

    /// One step of the walk. `fetched` is the outcome of the fetch that
    /// [`Self::fetch_request`] asked for (`None` when it failed); it is not
    /// read while a batch is pending.
    pub fn next(&mut self, fetched: Option<Vec<XenDomctlGetDomainInfo>>) -> (r: Option<
        XenDomctlGetDomainInfo,
    >)
        requires
            old(self).pending() is None ==> match fetched {
                Some(f) => forall|i: int| 0 <= i < f@.len() ==> #[trigger] f@[i].domain.0 < u16::MAX,
                None => true,
            },
        ensures
            match old(self).pending() {
                Some(l) => {
                    &&& r == (if l.len() > 0 { Some(l.last()) } else { None })
                    &&& final(self).current_domid == old(self).current_domid
                    &&& final(self).pending() == (if l.len() <= 1 { None } else { Some(l.drop_last()) })
                },
                None => match fetched {
                    None => {
                        &&& r is None
                        &&& final(self).current_domid == old(self).current_domid
                        &&& final(self).pending() is None
                    },
                    Some(f) => if f@.len() == 0 {
                        &&& r is None
                        &&& final(self).current_domid == old(self).current_domid
                        &&& final(self).pending() == Some(Seq::<XenDomctlGetDomainInfo>::empty())
                    } else {
                        &&& r == Some(f@.last())
                        &&& final(self).current_domid == DomId((max_domid(f@) + 1) as u16)
                        &&& final(self).pending() == (if f@.len() == 1 { None } else { Some(f@.drop_last()) })
                    },
                },
            },
            walk_step(old(self).walk_view(), fetched_view(fetched)) == (final(self).walk_view(), r),
    {
        let mut domains = match self.domain_list.take() {
            Some(domains) => domains,
            None => {
                match fetched {
                    None => {
                        return None;
                    },
                    Some(f) => {
                        if f.len() == 0 {
                            self.domain_list = Some(f);
                            return None;
                        }
                        let m = find_max_domid(&f);
                        proof {
                            lemma_max_domid_bound(f@, u16::MAX);
                        }
                        self.current_domid = DomId(m + 1);
                        f
                    },
                }
            },
        };
        let info = domains.pop();
        if domains.len() == 0 {
            self.domain_list = None;
        } else {
            self.domain_list = Some(domains);
        }
        info
    }
}

/// The domains are listed by strictly increasing ID, each below the largest
/// ID (so that the walk can go on after it).
pub open spec fn ascending_domains(d: Seq<XenDomctlGetDomainInfo>) -> bool {
    &&& forall|i: int, j: int| 0 <= i < j < d.len() ==> (#[trigger] d[i]).domain.0 < (#[trigger] d[j]).domain.0
    &&& forall|i: int| 0 <= i < d.len() ==> (#[trigger] d[i]).domain.0 < u16::MAX
}

/// The domains before index `k` have IDs below `first`, the others not.
pub open spec fn splits_at(d: Seq<XenDomctlGetDomainInfo>, first: u16, k: int) -> bool {
    &&& 0 <= k <= d.len()
    &&& forall|i: int| 0 <= i < k ==> (#[trigger] d[i]).domain.0 < first
    &&& forall|i: int| k <= i < d.len() ==> (#[trigger] d[i]).domain.0 >= first
}

/// The end of the batch that starts at index `k`.
pub open spec fn batch_end(d: Seq<XenDomctlGetDomainInfo>, k: int) -> int {
    if k + DOMAIN_LIST_BATCH as int <= d.len() {
        k + DOMAIN_LIST_BATCH as int
    } else {
        d.len() as int
    }
}

/// What listing the domains from `first` gives on a host whose domains are
/// `d`: those with an ID of at least `first`, by increasing ID, at most a
/// batch of them.
pub open spec fn listed_from(d: Seq<XenDomctlGetDomainInfo>, first: u16) -> Seq<XenDomctlGetDomainInfo> {
    let k = choose|k: int| splits_at(d, first, k);
    d.subrange(k, batch_end(d, k))
}

/// The domains that the walk hands out on a host whose domains are `d`,
/// each fetch being answered by [`listed_from`], until it hands out none
/// (at most `fuel` steps).
pub open spec fn walk_run(d: Seq<XenDomctlGetDomainInfo>, s: WalkState, fuel: nat) -> Seq<XenDomctlGetDomainInfo>
    decreases fuel,
{
    if fuel == 0 {
        Seq::empty()
    } else {
        let fetched = if s.1 is None { Some(listed_from(d, s.0)) } else { None };
        let (s2, item) = walk_step(s, fetched);
        match item {
            None => Seq::empty(),
            Some(x) => seq![x] + walk_run(d, s2, (fuel - 1) as nat),
        }
    }
}

/// The domains from index `k` on, batch by batch, each batch from its end.
pub open spec fn batches_from_end(d: Seq<XenDomctlGetDomainInfo>, k: int) -> Seq<XenDomctlGetDomainInfo>
    decreases d.len() - k,
{
    if k < 0 || k >= d.len() {
        Seq::empty()
    } else {
        let e = batch_end(d, k);
        Seq::new((e - k) as nat, |i: int| d[e - 1 - i]) + batches_from_end(d, e)
    }
}

/// The first domain ID of the batch that starts at index `k`.
pub open spec fn first_of(d: Seq<XenDomctlGetDomainInfo>, k: int) -> u16 {
    if k == 0 {
        0
    } else {
        (d[k - 1].domain.0 + 1) as u16
    }
}

proof fn lemma_max_domid_last(l: Seq<XenDomctlGetDomainInfo>)
    requires
        l.len() > 0,
        forall|i: int, j: int| 0 <= i < j < l.len() ==> (#[trigger] l[i]).domain.0 < (#[trigger] l[j]).domain.0,
    ensures
        max_domid(l) == l.last().domain.0,
    decreases l.len(),
{
    if l.len() > 1 {
        let p = l.drop_last();
        assert forall|i: int, j: int| 0 <= i < j < p.len() implies (#[trigger] p[i]).domain.0 < (#[trigger] p[j]).domain.0 by {
            assert(p[i] == l[i] && p[j] == l[j]);
        }
        lemma_max_domid_last(p);
        assert(p.last() == l[l.len() - 2]);
    }
}

proof fn lemma_listed_from(d: Seq<XenDomctlGetDomainInfo>, k: int)
    requires
        ascending_domains(d),
        0 <= k <= d.len(),
    ensures
        listed_from(d, first_of(d, k)) == d.subrange(k, batch_end(d, k)),
{
    let first = first_of(d, k);
    assert(splits_at(d, first, k)) by {
        if k > 0 {
            assert forall|i: int| 0 <= i < k implies (#[trigger] d[i]).domain.0 < first by {
                if i < k - 1 {
                    assert(d[i].domain.0 < d[k - 1].domain.0);
                }
            }
            assert forall|i: int| k <= i < d.len() implies (#[trigger] d[i]).domain.0 >= first by {
                assert(d[k - 1].domain.0 < d[i].domain.0);
            }
        }
    }
    let c = choose|c: int| splits_at(d, first, c);
    assert(c == k) by {
        if c < k {
            assert(d[c].domain.0 >= first);
        } else if c > k {
            assert(d[k].domain.0 < first);
        }
    }
}

proof fn lemma_drain(d: Seq<XenDomctlGetDomainInfo>, c: u16, l: Seq<XenDomctlGetDomainInfo>, fuel: nat)
    requires
        l.len() > 0,
        fuel >= l.len(),
    ensures
        walk_run(d, (c, Some(l)), fuel) == Seq::new(l.len(), |i: int| l[l.len() - 1 - i]) + walk_run(
            d,
            (c, None),
            (fuel - l.len()) as nat,
        ),
    decreases l.len(),
{
    let rev = Seq::new(l.len(), |i: int| l[l.len() - 1 - i]);
    if l.len() == 1 {
        assert(rev =~= seq![l.last()]);
    } else {
        let p = l.drop_last();
        lemma_drain(d, c, p, (fuel - 1) as nat);
        let prev = Seq::new(p.len(), |i: int| p[p.len() - 1 - i]);
        assert(rev =~= seq![l.last()] + prev);
        assert((seq![l.last()] + prev) + walk_run(d, (c, None), (fuel - l.len()) as nat) =~= seq![l.last()] + (prev
            + walk_run(d, (c, None), (fuel - 1 - p.len()) as nat)));
    }
}

proof fn lemma_walk_from(d: Seq<XenDomctlGetDomainInfo>, k: int, fuel: nat)
    requires
        ascending_domains(d),
        0 <= k <= d.len(),
        fuel >= d.len() - k + 1,
    ensures
        walk_run(d, (first_of(d, k), None), fuel) == batches_from_end(d, k),
    decreases d.len() - k,
{
    lemma_listed_from(d, k);
    let e = batch_end(d, k);
    let b = d.subrange(k, e);
    if k < d.len() {
        assert forall|i: int, j: int| 0 <= i < j < b.len() implies (#[trigger] b[i]).domain.0 < (#[trigger] b[j]).domain.0 by {
            assert(b[i] == d[k + i] && b[j] == d[k + j]);
        }
        lemma_max_domid_last(b);
        assert(b.last() == d[e - 1]);
        assert(first_of(d, e) == (max_domid(b) + 1) as u16);
        let rev = Seq::new((e - k) as nat, |i: int| d[e - 1 - i]);
        lemma_walk_from(d, e, (fuel - (e - k)) as nat);
        if b.len() == 1 {
            assert(rev =~= seq![b.last()]);
        } else {
            let p = b.drop_last();
            lemma_drain(d, first_of(d, e), p, (fuel - 1) as nat);
            let prev = Seq::new(p.len(), |i: int| p[p.len() - 1 - i]);
            assert(rev =~= seq![b.last()] + prev);
            assert(rev + batches_from_end(d, e) =~= seq![b.last()] + (prev + batches_from_end(d, e)));
        }
    } else {
        assert(b.len() == 0);
    }
}

/// `x` is one of the domains from index `k` on.
pub open spec fn is_domain_from(d: Seq<XenDomctlGetDomainInfo>, k: int, x: XenDomctlGetDomainInfo) -> bool {
    exists|i: int| k <= i < d.len() && x == d[i]
}

/// What the walk hands out from index `k` on: the domains from `k` on, each
/// exactly once.
proof fn lemma_batches_cover(d: Seq<XenDomctlGetDomainInfo>, k: int)
    requires
        ascending_domains(d),
        0 <= k <= d.len(),
    ensures
        batches_from_end(d, k).len() == d.len() - k,
        forall|j: int| 0 <= j < batches_from_end(d, k).len() ==> is_domain_from(d, k, #[trigger] batches_from_end(d, k)[j]),
        forall|i: int| k <= i < d.len() ==> batches_from_end(d, k).contains(#[trigger] d[i]),
        batches_from_end(d, k).no_duplicates(),
    decreases d.len() - k,
{
    if k < d.len() {
        let e = batch_end(d, k);
        let head = Seq::new((e - k) as nat, |i: int| d[e - 1 - i]);
        let tail = batches_from_end(d, e);
        let t = head + tail;
        lemma_batches_cover(d, e);
        assert(batches_from_end(d, k) == t);
        assert forall|j: int| 0 <= j < t.len() implies is_domain_from(d, k, #[trigger] t[j]) by {
            if j < head.len() {
                assert(t[j] == d[e - 1 - j]);
            } else {
                assert(t[j] == tail[j - head.len()]);
                assert(is_domain_from(d, e, tail[j - head.len()]));
                let i = choose|i: int| e <= i < d.len() && tail[j - head.len()] == d[i];
                assert(t[j] == d[i]);
            }
        }
        assert forall|i: int| k <= i < d.len() implies t.contains(#[trigger] d[i]) by {
            if i < e {
                assert(t[e - 1 - i] == d[i]);
            } else {
                assert(tail.contains(d[i]));
                let j = choose|j: int| 0 <= j < tail.len() && tail[j] == d[i];
                assert(t[head.len() + j] == d[i]);
            }
        }
        assert forall|a: int, b: int| 0 <= a < t.len() && 0 <= b < t.len() && a != b implies t[a] != t[b] by {
            if a < head.len() && b < head.len() {
                assert(d[e - 1 - a].domain.0 != d[e - 1 - b].domain.0);
            } else if a >= head.len() && b >= head.len() {
                assert(t[a] == tail[a - head.len()] && t[b] == tail[b - head.len()]);
            } else if a < head.len() {
                assert(t[b] == tail[b - head.len()]);
                assert(is_domain_from(d, e, tail[b - head.len()]));
                let i = choose|i: int| e <= i < d.len() && tail[b - head.len()] == d[i];
                assert(d[e - 1 - a].domain.0 < d[i].domain.0);
            } else {
                assert(t[a] == tail[a - head.len()]);
                assert(is_domain_from(d, e, tail[a - head.len()]));
                let i = choose|i: int| e <= i < d.len() && tail[a - head.len()] == d[i];
                assert(d[e - 1 - b].domain.0 < d[i].domain.0);
            }
        }
    }
}

/// On a host whose domains are listed by increasing ID, when each fetch
/// gives the domains from the asked ID on (a batch at most), the walk that
/// starts afresh hands out every domain exactly once before it hands out
/// none: each batch from its end, batch after batch.
pub proof fn law_walk_hands_out_every_domain_once(d: Seq<XenDomctlGetDomainInfo>)
    requires
        ascending_domains(d),
    ensures
        walk_run(d, (0u16, None), (d.len() + 1) as nat) == batches_from_end(d, 0),
        batches_from_end(d, 0).len() == d.len(),
        forall|i: int| 0 <= i < d.len() ==> batches_from_end(d, 0).contains(#[trigger] d[i]),
        batches_from_end(d, 0).no_duplicates(),
{
    lemma_walk_from(d, 0, (d.len() + 1) as nat);
    lemma_batches_cover(d, 0);
}

} // verus!

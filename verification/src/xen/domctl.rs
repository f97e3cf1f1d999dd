//! Records of the `domctl` hypercall.
use vstd::prelude::*;
use super::{Align64, DomId};

verus! {

/// `domctl` command reading a domain's information.
pub const XEN_DOMCTL_GETDOMAININFO: u32 = 5;

/// `domctl` command reading a virtual CPU's information.
pub const XEN_DOMCTL_GETVCPUINFO: u32 = 14;

/// Hypercall number of `domctl`.
pub const HYPERVISOR_DOMCTL: usize = 36;

/// Bitmap of the devices that Xen emulates for an x86 domain.
#[derive(Copy, Clone, Debug, Default, PartialEq, Eq, Structural)]
pub struct XenX86Emu {
    pub bits: u32,
}

/// Miscellaneous x86-specific toggles of a domain.
#[derive(Copy, Clone, Debug, Default, PartialEq, Eq, Structural)]
pub struct XenX86Misc {
    pub bits: u32,
}

/// x86-specific domain settings.
#[derive(Copy, Clone, Debug, Default)]
pub struct XenArchDomainconfig {
    /// IN: Bitmap of devices to emulate.
    pub emulation_flags: XenX86Emu,
    /// IN: Miscellaneous x86-specific toggles.
    pub misc_flags: XenX86Misc,
}

/// What `XEN_DOMCTL_getdomaininfo` reports of a domain. The domain's
/// handle is its UUID, as a 128-bit number.
#[derive(Clone, Copy, Debug)]
pub struct XenDomctlGetDomainInfo {
    pub domain: DomId,
    pub flags: u32,
    pub tot_pages: Align64<u64>,
    pub max_pages: Align64<u64>,
    pub outstanding_pages: Align64<u64>,
    pub shr_pages: Align64<u64>,
    pub paged_pages: Align64<u64>,
    /// GMFN of shared_info struct
    pub shared_info_frame: Align64<u64>,
    pub cpu_time: Align64<u64>,
    /// Number of VCPUs currently online
    pub nr_online_vcpus: u32,
    /// Maximum VCPUID in use by this domain.
    pub max_vcpu_id: u32,
    pub ssidref: u32,
    pub handle: u128,
    pub cpupool: u32,
    pub gpaddr_bits: u8,
    pub arch_config: XenArchDomainconfig,
}

/// What `XEN_DOMCTL_getvcpuinfo` reports of a virtual CPU.
#[derive(Clone, Copy, Debug, Default)]
pub struct XenDomctlGetVCpuInfo {
    /// IN
    pub vcpu: u32,
    /// OUT: currently online (not hotplugged)?
    pub online: u8,
    /// OUT: blocked waiting for an event?
    pub blocked: u8,
    /// OUT: currently scheduled on its CPU?
    pub running: u8,
    /// OUT: total cpu time consumed (ns)
    pub cpu_time: Align64<u64>,
    /// OUT: current mapping
    pub cpu: u32,
}

} // verus!

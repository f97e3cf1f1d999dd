//! Which Xen ABI the hypervisor speaks, chosen from its version numbers.
use vstd::prelude::*;
use crate::text::{str_eq, trim, trim_spec};

verus! {

/// The Xen ABIs this library knows.
#[derive(Clone, Copy, Debug, PartialEq, Eq, Structural)]
pub enum XenAbi {
    /// Xen 4.17 (XCP-ng 8.3)
    Xen417,
    /// Xen 4.19 (upstream Xen)
    Xen419,
}

/// The ABI of a hypervisor whose major and minor version read, once
/// trimmed, `4` and `19` or `4` and `17`; no ABI for any other version.
pub open spec fn spec_xen_abi(major: Seq<char>, minor: Seq<char>) -> Option<XenAbi> {
    let major = trim_spec(major);
    let minor = trim_spec(minor);
    if major == seq!['4'] && minor == seq!['1', '9'] {
        Some(XenAbi::Xen419)
    } else if major == seq!['4'] && minor == seq!['1', '7'] {
        Some(XenAbi::Xen417)
    } else {
        None
    }
}

/// The ABI that the contents of the hypervisor's `major` and `minor`
/// version files name; `None` for an unsupported version.
pub fn xen_abi_of(major: &str, minor: &str) -> (r: Option<XenAbi>)
    ensures
        r == spec_xen_abi(major@, minor@),
{
    let major = trim(major);
    let minor = trim(minor);
    proof {
        reveal_strlit("4");
        reveal_strlit("19");
        reveal_strlit("17");
        assert("4"@ =~= seq!['4']);
        assert("19"@ =~= seq!['1', '9']);
        assert("17"@ =~= seq!['1', '7']);
    }
    if str_eq(major, "4") && str_eq(minor, "19") {
        Some(XenAbi::Xen419)
    } else if str_eq(major, "4") && str_eq(minor, "17") {
        Some(XenAbi::Xen417)
    } else {
        None
    }
}

/// The ABI of the hypervisor, from the contents of its `major` and `minor`
/// version files, which must name a supported version.
pub fn get_xen_abi(major: &str, minor: &str) -> (r: XenAbi)
    requires
        spec_xen_abi(major@, minor@) is Some,
    ensures
        spec_xen_abi(major@, minor@) == Some(r),
{
    match xen_abi_of(major, minor) {
        Some(abi) => abi,
        None => vstd::pervasive::unreached(),
    }
}

/// The `domctl` interface version of each ABI.
pub open spec fn spec_domctl_interface_version(abi: XenAbi) -> u32 {
    match abi {
        XenAbi::Xen417 => 0x15,
        XenAbi::Xen419 => 0x17,
    }
}

/// The `domctl` interface version that requests under `abi` carry.
pub fn domctl_interface_version(abi: XenAbi) -> (r: u32)
    ensures
        r == spec_domctl_interface_version(abi),
{
    match abi {
        XenAbi::Xen417 => 0x15,
        XenAbi::Xen419 => 0x17,
    }
}

/// The `sysctl` interface version that requests under `abi` carry: the
/// same for both ABIs.
pub fn sysctl_interface_version(abi: XenAbi) -> (r: u32)
    ensures
        r == 0x15,
{
    match abi {
        XenAbi::Xen417 => 0x15,
        XenAbi::Xen419 => 0x15,
    }
}

} // verus!

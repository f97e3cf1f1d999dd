//! Data and decisions of the Xen hypervisor interface: the ABI in use, the
//! records exchanged through `domctl` and `sysctl`, and the walk over the
//! domain list.
use vstd::prelude::*;

pub mod abi;
pub mod domctl;
pub mod sysctl;
pub mod xencall;

verus! {

/// Abstraction of a domain ID: the number Xen uses to identify a single
/// domain at runtime.
#[derive(Copy, Clone, Debug, PartialEq, Eq, Structural, Default)]
pub struct DomId(pub u16);

/// A value that the hypercall buffers hold on a 64-bit boundary with a
/// 64-bit size, whatever the machine's pointer width.
#[derive(Copy, Clone, Debug, PartialEq, Eq, Default)]
pub struct Align64<T>(pub T);

} // verus!

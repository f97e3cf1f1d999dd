//! Verified core of the xcp-metrics plugins: Xen ABI selection, XenStore
//! path handling, squeezed memory accounting, protocol v2 value encoding and
//! the bookkeeping that maps metrics to their UUIDs.
use vstd::prelude::*;

pub mod bridge;
pub mod ids;
pub mod metrics;
pub mod procfs;
pub mod protocol;
pub mod squeezed;
pub mod text;
pub mod update_once;
pub mod uuid_table;
pub mod xen;
pub mod xenstore;
pub mod xenstored;
pub mod xen_plugin;
pub mod xen_metrics;
pub mod xen_v2;

verus! {

} // verus!

//! Sizing of the hypercall-safe buffers that are mapped from the
//! `/dev/xen/hypercall` device, one or more whole pages per object.
use vstd::prelude::*;

verus! {

/// Size of a page of the hypercall device.
pub const PAGE_SIZE: usize = 4096;

/// How an object is laid out in hypercall-safe memory: the pages that are
/// mapped for it and the length of the object itself.
#[derive(Clone, Copy, Debug, PartialEq, Eq, Structural)]
pub struct XenCallLayout {
    /// Pages mapped (0 for a zero-sized object, which maps nothing).
    pub page_count: usize,
    /// Length in bytes of the object.
    pub length: usize,
}

impl XenCallLayout {
    /// The number of bytes mapped.
    pub open spec fn mapped_bytes(self) -> int {
        self.page_count * PAGE_SIZE
    }
}

/// The layout of an object of `size` bytes aligned to `align` bytes: the
/// fewest whole pages that hold it.
pub fn xencall_layout(size: usize, align: usize) -> (r: XenCallLayout)
    requires
        align <= PAGE_SIZE,
        size <= usize::MAX - (PAGE_SIZE - 1),
    ensures
        r.length == size,
        size == 0 ==> r.page_count == 0,
        size > 0 ==> r.page_count > 0,
        r.mapped_bytes() >= size,
        r.mapped_bytes() < size + PAGE_SIZE,
        r.mapped_bytes() <= usize::MAX,
{
    if size == 0 {
        XenCallLayout { page_count: 0, length: 0 }
    } else {
        let page_count = (size + (PAGE_SIZE - 1)) / PAGE_SIZE;
        assert(page_count * 4096 >= size && page_count * 4096 < size + 4096 && page_count > 0)
            by (nonlinear_arith)
            requires
                page_count == (size + 4095) / 4096,
                size > 0,
        ;
        XenCallLayout { page_count, length: size }
    }
}

} // verus!

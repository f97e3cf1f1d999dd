# xcp-metrics plugins

Metric plugins for the xcp-metrics daemon of XCP-ng, with their core
verified by Verus.

## Layout

- `src/`: the verified library.
  - `xen/`: the Xen ABI in use, the `domctl` and `sysctl` records, the walk
    over the domain list and the sizing of hypercall buffers.
  - `xenstore.rs`: the XenStore capabilities the plugins use, over
    `xenstore-rs`.
  - `squeezed.rs`: memory reclaimed by squeezed, summed from XenStore.
  - `xenstored.rs`: guest memory published in XenStore, the handlers of its
    nodes and the UUID of each metric.
  - `xen_plugin.rs`, `xen_metrics.rs`, `xen_v2.rs`: the metrics and data
    sources derived from the hypervisor's records.
  - `procfs.rs`: processes and their command lines.
  - `bridge.rs`, `protocol.rs`: protocol v2 values and files, and the choice
    of protocol.
  - `uuid_table.rs`, `ids.rs`, `text.rs`, `metrics.rs`, `update_once.rs`:
    shared building blocks.
- `tests/`: tests of the library.
- `app/`: the program that runs the plugins: argument handling, I/O,
  hypercalls and floating-point computations.

//! What the plugins hand to the metrics daemon: protocol v2 data-source
//! values in their big-endian form, the plugin file locations, and the
//! choice of protocol.
use vstd::prelude::*;
use vstd::string::*;
use crate::text::{str_eq, starts_with};

verus! {

/// The value of a protocol v2 data source. A float is held by its IEEE-754
/// bits.
#[derive(Clone, Copy, Debug, PartialEq, Eq, Structural)]
pub enum DataSourceValue {
    Int64(i64),
    Float(u64),
    Undefined,
}

/// The big-endian bytes of `x`, as `u64::to_be_bytes` gives them.
pub open spec fn be_bytes(x: u64) -> Seq<u8> {
    seq![
        ((x >> 56u64) & 0xff) as u8,
        ((x >> 48u64) & 0xff) as u8,
        ((x >> 40u64) & 0xff) as u8,
        ((x >> 32u64) & 0xff) as u8,
        ((x >> 24u64) & 0xff) as u8,
        ((x >> 16u64) & 0xff) as u8,
        ((x >> 8u64) & 0xff) as u8,
        (x & 0xff) as u8,
    ]
}

/// The eight bytes that carry a value in the shared file: the big-endian
/// form of the integer, or of the float's bits, and zeros for an undefined
/// value.
pub open spec fn raw_value(v: DataSourceValue) -> Seq<u8> {
    match v {
        DataSourceValue::Int64(n) => be_bytes(n as u64),
        DataSourceValue::Float(bits) => be_bytes(bits),
        DataSourceValue::Undefined => Seq::new(8, |i: int| 0u8),
    }
}

/// The big-endian bytes of `x`.
pub fn to_be_bytes(x: u64) -> (r: [u8; 8])
    ensures
        r@ == be_bytes(x),
{
    let r = [
        ((x >> 56) & 0xff) as u8,
        ((x >> 48) & 0xff) as u8,
        ((x >> 40) & 0xff) as u8,
        ((x >> 32) & 0xff) as u8,
        ((x >> 24) & 0xff) as u8,
        ((x >> 16) & 0xff) as u8,
        ((x >> 8) & 0xff) as u8,
        (x & 0xff) as u8,
    ];
    assert(r@ =~= be_bytes(x));
    r
}

/// The eight bytes that carry `v` in the shared file.
pub fn value_to_raw(v: DataSourceValue) -> (r: [u8; 8])
    ensures
        r@ == raw_value(v),
{
    match v {
        DataSourceValue::Int64(n) => to_be_bytes(n as u64),
        DataSourceValue::Float(bits) => to_be_bytes(bits),
        DataSourceValue::Undefined => {
            let r = [0u8; 8];
            assert(r@ =~= raw_value(v));
            r
        },
    }
}

/// The raw bytes of each value, in order.
pub fn values_to_raw(values: &[DataSourceValue]) -> (r: Vec<[u8; 8]>)
    ensures
        r@.len() == values@.len(),
        forall|i: int| 0 <= i < values@.len() ==> (#[trigger] r@[i])@ == raw_value(values@[i]),
{
    let mut r: Vec<[u8; 8]> = Vec::new();
    let mut i: usize = 0;
    while i < values.len()
        invariant
            i <= values@.len(),
            r@.len() == i,
            forall|j: int| 0 <= j < i ==> (#[trigger] r@[j])@ == raw_value(values@[j]),
        decreases values@.len() - i,
    {
        r.push(value_to_raw(values[i]));
        i = i + 1;
    }
    r
}

/// The values part of a protocol v2 header: one eight-byte slot per data
/// source.
pub struct RrddMessageHeader {
    pub values: Vec<[u8; 8]>,
}

/// The header's slots and the values differ in number.
#[derive(Debug, Clone, Copy, PartialEq, Eq, Structural)]
pub struct ValueCountMismatch;

/// Writes `values` into the header's slots. Fails, leaving the header
/// unchanged, when their numbers differ.
pub fn update_header_value(header: &mut RrddMessageHeader, values: &[DataSourceValue]) -> (r: Result<(), ValueCountMismatch>)
    ensures
        r is Err <==> old(header).values@.len() != values@.len(),
        r is Err ==> final(header).values@ == old(header).values@,
        r is Ok ==> final(header).values@.len() == values@.len()
            && forall|i: int| 0 <= i < values@.len() ==> (#[trigger] final(header).values@[i])@ == raw_value(values@[i]),
{
    if header.values.len() != values.len() {
        return Err(ValueCountMismatch);
    }
    let mut i: usize = 0;
    while i < values.len()
        invariant
            i <= values@.len(),
            header.values@.len() == values@.len(),
            forall|j: int| 0 <= j < i ==> (#[trigger] header.values@[j])@ == raw_value(values@[j]),
        decreases values@.len() - i,
    {
        header.values.set(i, value_to_raw(values[i]));
        i = i + 1;
    }
    Ok(())
}

/// Where plugins share their metrics with the daemon.
pub open spec fn metrics_shm_path() -> Seq<char> {
    "/dev/shm/metrics/"@
}

/// The shared file of plugin `uid`: the path `uid` itself when it is
/// absolute, else `uid` under the shared directory (`Path::join`).
pub open spec fn spec_metrics_path(uid: Seq<char>) -> Seq<char> {
    if uid.len() > 0 && uid[0] == '/' {
        uid
    } else {
        metrics_shm_path() + uid
    }
}

/// The shared file of plugin `uid`.
pub fn metrics_path(uid: &str) -> (r: String)
    ensures
        r@ == spec_metrics_path(uid@),
{
    if uid.unicode_len() > 0 && uid.get_char(0) == '/' {
        String::from_str(uid)
    } else {
        let mut path = String::from_str("/dev/shm/metrics/");
        path.append(uid);
        path
    }
}

/// The daemon that protocol v2 plugins register with by default.
pub open spec fn default_v2_daemon() -> Seq<char> {
    "/var/lib/xcp/xcp-metrics"@
}

/// The daemon that protocol v3 plugins register with by default.
pub open spec fn default_v3_daemon() -> Seq<char> {
    "xcp-metrics"@
}

/// The location of a protocol v2 plugin: its name, its shared file and the
/// daemon it registers with.
pub struct RrddPluginLocation {
    pub uid: String,
    pub metrics_path: String,
    pub target_daemon_path: String,
}

impl RrddPluginLocation {
    /// The location of plugin `uid`, registered with `target_daemon_path`
    /// or else with the default daemon.
    pub fn new(uid: &str, target_daemon_path: Option<&str>) -> (r: Self)
        ensures
            r.uid@ == uid@,
            r.metrics_path@ == spec_metrics_path(uid@),
            r.target_daemon_path@ == match target_daemon_path {
                Some(t) => t@,
                None => default_v2_daemon(),
            },
    {
        RrddPluginLocation {
            uid: String::from_str(uid),
            metrics_path: metrics_path(uid),
            target_daemon_path: match target_daemon_path {
                Some(t) => String::from_str(t),
                None => String::from_str("/var/lib/xcp/xcp-metrics"),
            },
        }
    }
}

/// The header values a protocol v2 plugin starts with: the given values,
/// or else zeros, one per data source.
pub fn initial_header(datasource_count: usize, initial_values: Option<&[DataSourceValue]>) -> (r: RrddMessageHeader)
    ensures
        match initial_values {
            Some(v) => r.values@.len() == v@.len()
                && forall|i: int| 0 <= i < v@.len() ==> (#[trigger] r.values@[i])@ == raw_value(v@[i]),
            None => r.values@.len() == datasource_count
                && forall|i: int| 0 <= i < datasource_count ==> (#[trigger] r.values@[i])@ == raw_value(DataSourceValue::Undefined),
        },
{
    match initial_values {
        Some(v) => RrddMessageHeader { values: values_to_raw(v) },
        None => {
            let mut values: Vec<[u8; 8]> = Vec::new();
            let mut i: usize = 0;
            while i < datasource_count
                invariant
                    i <= datasource_count,
                    values@.len() == i,
                    forall|j: int| 0 <= j < i ==> (#[trigger] values@[j])@ == raw_value(DataSourceValue::Undefined),
                decreases datasource_count - i,
            {
                values.push(value_to_raw(DataSourceValue::Undefined));
                i = i + 1;
            }
            RrddMessageHeader { values }
        },
    }
}

/// A protocol v3 plugin: its name, its shared file and the daemon it
/// registers with.
pub struct MetricsPlugin {
    pub uid: String,
    pub metrics_path: String,
    pub target_daemon: String,
}

impl MetricsPlugin {
    /// The plugin `uid`, registered with `target_daemon` or else with the
    /// default daemon.
    pub fn new(uid: &str, target_daemon: Option<&str>) -> (r: Self)
        ensures
            r.uid@ == uid@,
            r.metrics_path@ == spec_metrics_path(uid@),
            r.target_daemon@ == match target_daemon {
                Some(t) => t@,
                None => default_v3_daemon(),
            },
    {
        MetricsPlugin {
            uid: String::from_str(uid),
            metrics_path: metrics_path(uid),
            target_daemon: match target_daemon {
                Some(t) => String::from_str(t),
                None => String::from_str("xcp-metrics"),
            },
        }
    }
}

/// The daemon that a program named `rrdp-*` reports to.
pub open spec fn xcp_rrdd_path() -> Seq<char> {
    "/var/lib/xcp/xcp-rrdd"@
}

/// How a hybrid plugin runs.
#[derive(Debug, Clone, PartialEq, Eq)]
pub enum ProtocolChoice {
    /// Protocol v2, through the bridge from v3, to this daemon (or the default).
    V2 { target: Option<String> },
    /// Protocol v3, to this daemon (or the default).
    V3 { target: Option<String> },
    /// An unknown protocol version.
    Unknown(u32),
}

/// The choice of protocol of a hybrid plugin: a program named `rrdp-*`
/// given neither target nor version reports to xcp-rrdd in protocol v2;
/// otherwise the given version (3 by default) and target are used.
pub open spec fn spec_protocol_choice(target: Option<Seq<char>>, version: Option<u32>, is_rrdp: bool) -> (Option<Seq<char>>, u32) {
    if target is None && version is None && is_rrdp {
        (Some(xcp_rrdd_path()), 2)
    } else {
        (target, match version {
            Some(v) => v,
            None => 3,
        })
    }
}

/// A given target is always kept, whatever the version; a given version is
/// always used; with neither, a program named `rrdp-*` reports to xcp-rrdd
/// in protocol v2, and any other in protocol v3 with no target.
pub proof fn law_protocol_choice(target: Option<Seq<char>>, version: Option<u32>, is_rrdp: bool)
    ensures
        target matches Some(t) ==> spec_protocol_choice(target, version, is_rrdp).0 == Some(t),
        version matches Some(v) ==> spec_protocol_choice(target, version, is_rrdp).1 == v,
        target is None && version is None && is_rrdp ==> spec_protocol_choice(target, version, is_rrdp) == (
            Some("/var/lib/xcp/xcp-rrdd"@),
            2u32,
        ),
        target is None && version is None && !is_rrdp ==> spec_protocol_choice(target, version, is_rrdp) == (
            None::<Seq<char>>,
            3u32,
        ),
{
}

/// Chooses how a hybrid plugin runs. `is_rrdp` tells whether the program's
/// file name starts with `rrdp-`.
pub fn choose_protocol(target: Option<&str>, version: Option<u32>, is_rrdp: bool) -> (r: ProtocolChoice)
    ensures
        ({
            let (t, v) = spec_protocol_choice(
                match target {
                    Some(t) => Some(t@),
                    None => None,
                },
                version,
                is_rrdp,
            );
            match r {
                ProtocolChoice::V2 { target } => v == 2 && match target {
                    Some(x) => t == Some(x@),
                    None => t is None,
                },
                ProtocolChoice::V3 { target } => v == 3 && match target {
                    Some(x) => t == Some(x@),
                    None => t is None,
                },
                ProtocolChoice::Unknown(p) => v != 2 && v != 3 && p == v,
            }
        }),
{
    let (t, v) = if target.is_none() && version.is_none() && is_rrdp {
        (Some(String::from_str("/var/lib/xcp/xcp-rrdd")), 2u32)
    } else {
        (
            match target {
                Some(t) => Some(String::from_str(t)),
                None => None,
            },
            match version {
                Some(v) => v,
                None => 3,
            },
        )
    };
    if v == 2 {
        ProtocolChoice::V2 { target: t }
    } else if v == 3 {
        ProtocolChoice::V3 { target: t }
    } else {
        ProtocolChoice::Unknown(v)
    }
}

/// Whether a program file name is that of an xcp-rrdd plugin: it starts
/// with `rrdp-`.
pub fn file_name_is_rrdp(file_name: &str) -> (r: bool)
    ensures
        r == ("rrdp-"@.len() <= file_name@.len() && file_name@.subrange(0, "rrdp-"@.len() as int) == "rrdp-"@),
{
    starts_with(file_name, "rrdp-")
}

/// How the daemon treats the values of a data source.
#[derive(Clone, Copy, Debug, PartialEq, Eq, Structural)]
pub enum DataSourceType {
    Gauge,
    Absolute,
    Derive,
}

/// What a data source describes: the host, or a VM or an SR by its UUID.
#[derive(Clone, Copy, Debug, PartialEq, Eq, Structural)]
pub enum DataSourceOwner {
    Host,
    VM(u128),
    SR(u128),
}

/// The bits of the `f32` value 0.0.
pub const F32_ZERO: u32 = 0;

/// The bits of the `f32` value 1.0.
pub const F32_ONE: u32 = 0x3f80_0000;

/// The bits of the `f32` value +infinity.
pub const F32_INFINITY: u32 = 0x7f80_0000;

/// The bits of the `f32` value -infinity.
pub const F32_NEG_INFINITY: u32 = 0xff80_0000;

/// The bits of the `f64` value 0.0.
pub const F64_ZERO: u64 = 0;

/// The description of a protocol v2 data source. Its bounds are held by
/// their `f32` bits.
#[derive(Clone, Debug)]
pub struct DataSourceMetadata {
    pub description: String,
    pub units: String,
    pub ds_type: DataSourceType,
    pub value: DataSourceValue,
    pub min: u32,
    pub max: u32,
    pub owner: DataSourceOwner,
    pub default: bool,
}

} // verus!
